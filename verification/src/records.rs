//! The CSV text of the monitor's files: reading the record files back into
//! the records that the data collector reads in, and the text that saving
//! the collected series writes.

use vstd::prelude::*;
use csv::{ReaderBuilder, StringRecord};
use crate::collector::{parse_rate_record, parse_rate_record_spec, records_in_range, DataCollector, RateRecord, SeriesKind};
use crate::series::export_rows;
use crate::time::Moment;

verus! {

/// The records of the CSV text `bytes` after its header row, each as its
/// fields, as the `csv` crate reads them with a reader that has a header
/// row; `None` where that reader reports an error for a record.
pub uninterp spec fn csv_records(bytes: Seq<u8>) -> Option<Seq<Seq<Seq<char>>>>;

/// Reads the CSV text `bytes` with
/// `csv::ReaderBuilder::new().has_headers(true).from_reader(..)` and
/// collects its `records()`, each `StringRecord` as its fields; `None`
/// where one of them is an error. The contract names the result: it is
/// `csv_records` of the bytes, a function of them alone. What the crate
/// reads (quoting, line ends, what makes a record an error, such as text
/// that is not UTF-8 or a record with another number of fields than the
/// header) is left unsaid.
#[verifier::external_body]
fn read_csv(bytes: &[u8]) -> (r: Option<Vec<Vec<String>>>)
    ensures
        match (r, csv_records(bytes@)) {
            (Some(rows), Some(t)) => rows.deep_view() == t,
            (None, None) => true,
            _ => false,
        },
{
    let mut reader = ReaderBuilder::new().has_headers(true).from_reader(bytes);
    let records: Vec<StringRecord> = reader.records().collect::<Result<Vec<StringRecord>, csv::Error>>().ok()?;
    Some(records.iter().map(|r| r.iter().map(|f| f.to_string()).collect()).collect())
}

/// Every one of the CSV records `rows` reads as a record of a rate or
/// totals file with bytes up and down in columns `up_col` and `down_col`.
pub open spec fn all_read(rows: Seq<Seq<Seq<char>>>, up_col: int, down_col: int) -> bool {
    forall|i: int| 0 <= i < rows.len() ==> (#[trigger] parse_rate_record_spec(rows[i], up_col, down_col)) is Some
}

/// Reads the text of a rate or totals file: the CSV records after its
/// header, each read with bytes up and down in columns `up_col` and
/// `down_col`. `None` where the CSV text does not read or one of its
/// records does not read as a record of the file.
pub fn read_rate_records(bytes: &[u8], up_col: usize, down_col: usize) -> (r: Option<Vec<RateRecord>>)
    ensures
        r is Some <==> (csv_records(bytes@) matches Some(rows) && all_read(rows, up_col as int, down_col as int)),
        r matches Some(recs) ==> {
            &&& csv_records(bytes@) matches Some(rows)
            &&& recs@.len() == rows.len()
            &&& forall|i: int| 0 <= i < recs@.len() ==> parse_rate_record_spec(#[trigger] rows[i], up_col as int, down_col as int)
                == Some((recs@[i].timestamp, recs@[i].name@, recs@[i].up, recs@[i].down))
        },
        r matches Some(recs) ==> records_in_range(recs@),
{
    let rows = match read_csv(bytes) {
        Some(rows) => rows,
        None => return None,
    };
    let ghost t = rows.deep_view();
    let mut recs: Vec<RateRecord> = Vec::new();
    let mut i: usize = 0;
    while i < rows.len()
        invariant
            t == rows.deep_view(),
            csv_records(bytes@) == Some(t),
            i <= rows.len(),
            recs@.len() == i,
            forall|j: int| 0 <= j < i ==> parse_rate_record_spec(#[trigger] t[j], up_col as int, down_col as int)
                == Some((recs@[j].timestamp, recs@[j].name@, recs@[j].up, recs@[j].down)),
        decreases rows.len() - i,
    {
        assert(rows[i as int].deep_view() == t[i as int]);
        match parse_rate_record(&rows[i], up_col, down_col) {
            Some(rec) => {
                recs.push(rec);
            },
            None => {
                assert(!all_read(t, up_col as int, down_col as int));
                return None;
            },
        }
        i = i + 1;
    }
    assert(all_read(t, up_col as int, down_col as int)) by {
        assert forall|j: int| 0 <= j < t.len() implies (#[trigger] parse_rate_record_spec(t[j], up_col as int, down_col as int)) is Some by {
            assert(parse_rate_record_spec(t[j], up_col as int, down_col as int) == Some((recs@[j].timestamp, recs@[j].name@, recs@[j].up, recs@[j].down)));
        }
    }
    assert(records_in_range(recs@)) by {
        assert forall|j: int| 0 <= j < recs@.len() implies crate::time::timestamp_in_range(#[trigger] recs@[j].timestamp as int) by {
            assert(parse_rate_record_spec(t[j], up_col as int, down_col as int) == Some((recs@[j].timestamp, recs@[j].name@, recs@[j].up, recs@[j].down)));
        }
    }
    Some(recs)
}

/// The CSV text that the `csv` crate's writer gives for the records
/// `rows`, each of its fields; `None` where the writer reports an error.
pub uninterp spec fn csv_text(rows: Seq<Seq<Seq<char>>>) -> Option<Seq<u8>>;

/// Writes the records `rows` with `csv::Writer::from_writer` into a buffer,
/// one `write_record` each, and takes the buffer back with `into_inner`;
/// `None` where one of these reports an error. The contract names the
/// result: it is `csv_text` of the rows, a function of them alone. How the
/// crate writes them (quoting, line ends, which rows are errors, such as
/// one with another number of fields than the first) is left unsaid.
#[verifier::external_body]
fn write_csv(rows: &Vec<Vec<String>>) -> (r: Option<Vec<u8>>)
    ensures
        match (r, csv_text(rows.deep_view())) {
            (Some(text), Some(t)) => text@ == t,
            (None, None) => true,
            _ => false,
        },
{
    let mut writer = csv::Writer::from_writer(Vec::new());
    for row in rows.iter() {
        writer.write_record(row).ok()?;
    }
    writer.into_inner().ok()
}

/// The text that saving the store `kind` of `collector` from `start` on
/// writes: the CSV text of its rows (name, RFC 3339 time, bytes up, bytes
/// down, series by series, in time order); `None` where the CSV writer
/// reports an error.
pub fn save_file_text(collector: &DataCollector, kind: SeriesKind, start: Moment) -> (r: Option<Vec<u8>>)
    requires
        collector.wf(),
    ensures
        match (r, csv_text(export_rows(collector.series(kind).names(), collector.series(kind)@, start))) {
            (Some(text), Some(t)) => text@ == t,
            (None, None) => true,
            _ => false,
        },
{
    let rows = match kind {
        SeriesKind::ProcessRate => collector.save_process_rate_data(start),
        SeriesKind::ConnectionRate => collector.save_connection_rate_data(start),
        SeriesKind::RemoteAddressRate => collector.save_remote_address_rate_data(start),
        SeriesKind::ProcessTotal => collector.save_process_total_data(start),
        SeriesKind::ConnectionTotal => collector.save_connection_total_data(start),
        SeriesKind::RemoteAddressTotal => collector.save_remote_address_total_data(start),
    };
    write_csv(&rows)
}

} // verus!
