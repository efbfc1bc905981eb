use bandwidth_monitor::collector::{
    DataCollector, SeriesKind, CONNECTION_DOWN_COLUMN, CONNECTION_UP_COLUMN, PROCESS_DOWN_COLUMN,
    PROCESS_UP_COLUMN,
};
use bandwidth_monitor::records::{read_rate_records, save_file_text};
use bandwidth_monitor::report::{refresh_steps, RefreshStep};
use bandwidth_monitor::collector::Subject;
use bandwidth_monitor::time::Moment;

#[test]
fn rate_file_text_reads_as_records() {
    let text = b"timestamp,process_name,pid,bytes_uploaded,bytes_downloaded,connection_count\n10,\"a,b\",7,8,9,1\n 20 ,c,1,2,3,4\n";
    let recs = read_rate_records(text, PROCESS_UP_COLUMN, PROCESS_DOWN_COLUMN).unwrap();
    let got: Vec<(i64, &str, u128, u128)> = recs.iter().map(|r| (r.timestamp, r.name.as_str(), r.up, r.down)).collect();
    assert_eq!(got, vec![(10, "a,b", 7, 8), (20, "c", 1, 2)]);
}

#[test]
fn empty_and_header_only_files_hold_no_records() {
    assert_eq!(read_rate_records(b"", PROCESS_UP_COLUMN, PROCESS_DOWN_COLUMN).unwrap().len(), 0);
    assert_eq!(read_rate_records(b"timestamp,name,up,down\n", PROCESS_UP_COLUMN, PROCESS_DOWN_COLUMN).unwrap().len(), 0);
}

#[test]
fn bad_records_do_not_read() {
    // a number that does not read
    assert!(read_rate_records(b"t,n,u,d\n10,a,x,1\n", PROCESS_UP_COLUMN, PROCESS_DOWN_COLUMN).is_none());
    // fewer fields than the header: the CSV reader reports an error
    assert!(read_rate_records(b"t,n,u,d\n10,a,1\n", PROCESS_UP_COLUMN, PROCESS_DOWN_COLUMN).is_none());
    // a column past the end of the record
    assert!(read_rate_records(b"t,n,u,d\n10,a,1,2\n", CONNECTION_UP_COLUMN, CONNECTION_DOWN_COLUMN).is_none());
    // text that is not UTF-8
    assert!(read_rate_records(b"t,n,u,d\n10,\xff,1,2\n", PROCESS_UP_COLUMN, PROCESS_DOWN_COLUMN).is_none());
}

#[test]
fn saved_text_is_csv_of_the_rows() {
    let mut c = DataCollector::new();
    c.add_process_rate_data("p".to_string(), 10, 5, 6);
    c.add_process_rate_data("q,r".to_string(), 20, 1, 2);
    let text = save_file_text(&c, SeriesKind::ProcessRate, Moment { secs: 0, nanos: 0 }).unwrap();
    assert_eq!(
        String::from_utf8(text).unwrap(),
        "p,1970-01-01T00:00:10+00:00,5,6\n\"q,r\",1970-01-01T00:00:20+00:00,1,2\n"
    );
    assert_eq!(save_file_text(&c, SeriesKind::ConnectionTotal, Moment { secs: 0, nanos: 0 }).unwrap(), Vec::<u8>::new());
}

#[test]
fn refresh_steps_in_order() {
    assert_eq!(refresh_steps(true, 5, true), vec![RefreshStep::WriteText]);
    assert_eq!(refresh_steps(false, 5, true), vec![RefreshStep::TakeTraffic, RefreshStep::CheckAlerts, RefreshStep::WriteText]);
    let steps = refresh_steps(false, 0, false);
    assert_eq!(
        steps,
        vec![
            RefreshStep::TakeTraffic,
            RefreshStep::Draw,
            RefreshStep::WriteRates(Subject::Process),
            RefreshStep::WriteRates(Subject::Connection),
            RefreshStep::WriteRates(Subject::RemoteAddress),
            RefreshStep::WriteTotals(Subject::Process),
            RefreshStep::WriteTotals(Subject::Connection),
            RefreshStep::WriteTotals(Subject::RemoteAddress),
            RefreshStep::Save(SeriesKind::ProcessRate),
            RefreshStep::Save(SeriesKind::ConnectionRate),
            RefreshStep::Save(SeriesKind::RemoteAddressRate),
            RefreshStep::Save(SeriesKind::ProcessTotal),
            RefreshStep::Save(SeriesKind::ConnectionTotal),
            RefreshStep::Save(SeriesKind::RemoteAddressTotal),
        ]
    );
}
