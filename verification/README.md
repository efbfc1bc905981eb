# bandwidth_monitor

The verified core of a per-process network bandwidth monitor.

- `src/` holds the library, proved with Verus: the upload/download series
  store (`series`, `collector`), the readers of the rate and totals record
  files, the queries of the front end (`query`), the command plans for
  throttling (`throttling`), the text reports and alerts (`report`), number
  and text handling (`text`, `time`), the CSV text of the record and save
  files (`records`), and the library's laws (`laws`).
- `app/` is the program around it: argument handling, reading and writing
  files, network interfaces, running commands, and the globals of the front
  end.
- `tests/` runs the library on concrete values.
