//! The data collector: six stores of series (rates and totals of processes,
//! connections and remote addresses), the totals last read from the record
//! files, the readers of those files' records, and the queries and saves the
//! monitor makes on them.

use vstd::prelude::*;
use std::collections::BTreeMap;
use crate::series::{
    export_rows, window, with_name, with_point, DataPoint, LatestPoints, NamedSeries,
};
use crate::text::{parse_i64, parse_i64_spec, parse_u128, parse_u128_spec, trim_spec, trim_whitespace};
use crate::time::{timestamp_in_range, timestamp_is_representable, Moment};

verus! {

/// Which of the six stores of series.
#[derive(Clone, Copy, Debug, PartialEq, Eq)]
pub enum SeriesKind {
    ProcessRate,
    ConnectionRate,
    RemoteAddressRate,
    ProcessTotal,
    ConnectionTotal,
    RemoteAddressTotal,
}

/// Whose totals, as last read from a totals file.
#[derive(Clone, Copy, Debug, PartialEq, Eq)]
pub enum Subject {
    Process,
    Connection,
    RemoteAddress,
}

/// One record of a rate or totals file: the second it was taken at, the
/// name it is about, bytes up and bytes down.
#[derive(Debug)]
pub struct RateRecord {
    pub timestamp: i64,
    pub name: String,
    pub up: u128,
    pub down: u128,
}

/// The point that a record carries.
pub open spec fn point_of(r: RateRecord) -> DataPoint {
    DataPoint { value_up: r.up, value_down: r.down }
}

/// Columns of the name, bytes up and bytes down in the process files.
pub const PROCESS_UP_COLUMN: usize = 2;
pub const PROCESS_DOWN_COLUMN: usize = 3;
/// Columns of bytes up and bytes down in the connection files.
pub const CONNECTION_UP_COLUMN: usize = 6;
pub const CONNECTION_DOWN_COLUMN: usize = 7;
/// Columns of bytes up and bytes down in the remote address files.
pub const REMOTE_ADDRESS_UP_COLUMN: usize = 2;
pub const REMOTE_ADDRESS_DOWN_COLUMN: usize = 3;

/// What a file record with the fields `fields` reads as: the timestamp in
/// column 0 (whitespace trimmed, a representable second), the name in column
/// 1, bytes up and down in the given columns; `None` where reading it fails.
pub open spec fn parse_rate_record_spec(fields: Seq<Seq<char>>, up_col: int, down_col: int) -> Option<
    (i64, Seq<char>, u128, u128),
> {
    if fields.len() > 1 && 0 <= up_col < fields.len() && 0 <= down_col < fields.len() {
        match (
            parse_i64_spec(trim_spec(fields[0])),
            parse_u128_spec(fields[up_col]),
            parse_u128_spec(fields[down_col]),
        ) {
            (Some(ts), Some(up), Some(down)) => if timestamp_in_range(ts as int) {
                Some((ts, fields[1], up, down))
            } else {
                None
            },
            _ => None,
        }
    } else {
        None
    }
}

/// Reads one record of a rate or totals file: the timestamp in column 0
/// (trimmed, then read as an `i64` of representable seconds), the name in
/// column 1, bytes up and down in columns `up_col` and `down_col`. `None`
/// where a column is missing or does not read.
pub fn parse_rate_record(fields: &Vec<String>, up_col: usize, down_col: usize) -> (r: Option<
    RateRecord,
>)
    ensures
        match r {
            Some(rec) => parse_rate_record_spec(fields.deep_view(), up_col as int, down_col as int)
                == Some((rec.timestamp, rec.name@, rec.up, rec.down)),
            None => parse_rate_record_spec(fields.deep_view(), up_col as int, down_col as int) is None,
        },
{
    let ghost f = fields.deep_view();
    if !(fields.len() > 1 && up_col < fields.len() && down_col < fields.len()) {
        return None;
    }
    assert(f[0] == fields[0]@);
    assert(f[up_col as int] == fields[up_col as int]@);
    assert(f[down_col as int] == fields[down_col as int]@);
    let ts = match parse_i64(trim_whitespace(fields[0].as_str())) {
        Some(ts) => ts,
        None => return None,
    };
    if !timestamp_is_representable(ts) {
        return None;
    }
    let up = match parse_u128(fields[up_col].as_str()) {
        Some(v) => v,
        None => return None,
    };
    let down = match parse_u128(fields[down_col].as_str()) {
        Some(v) => v,
        None => return None,
    };
    assert(f[1] == fields[1]@);
    Some(RateRecord { timestamp: ts, name: fields[1].clone(), up, down })
}


/// The store of series after reading `records` in order into `store`.
pub open spec fn rates_after(
    store: Map<Seq<char>, Map<i64, DataPoint>>,
    records: Seq<RateRecord>,
) -> Map<Seq<char>, Map<i64, DataPoint>>
    decreases records.len(),
{
    if records.len() == 0 {
        store
    } else {
        let r = records.last();
        with_point(rates_after(store, records.drop_last()), r.name@, r.timestamp, point_of(r))
    }
}

/// The names of the series after reading `records` in order.
pub open spec fn names_after(names: Seq<Seq<char>>, records: Seq<RateRecord>) -> Seq<Seq<char>>
    decreases records.len(),
{
    if records.len() == 0 {
        names
    } else {
        with_name(names_after(names, records.drop_last()), records.last().name@)
    }
}

/// The state a totals file is read with after `records`: the last bytes up
/// and down read, and the amounts carried over from before the last restart
/// of the counters. A record whose bytes up or down are not above the
/// previous record's starts a new run: the previous values become the
/// amounts carried.
pub open spec fn carry_after(records: Seq<RateRecord>) -> (int, int, int, int)
    decreases records.len(),
{
    if records.len() == 0 {
        (0, 0, 0, 0)
    } else {
        let (last_up, last_down, run_up, run_down) = carry_after(records.drop_last());
        let r = records.last();
        if last_up >= r.up || last_down >= r.down {
            (r.up as int, r.down as int, last_up, last_down)
        } else {
            (r.up as int, r.down as int, run_up, run_down)
        }
    }
}

/// The point a totals file's record `i` is stored as: its bytes plus the
/// amounts carried when it is read.
pub open spec fn total_point(records: Seq<RateRecord>, i: int) -> DataPoint {
    let (_, _, run_up, run_down) = carry_after(records.take(i + 1));
    DataPoint {
        value_up: (records[i].up + run_up) as u128,
        value_down: (records[i].down + run_down) as u128,
    }
}

/// Every record's bytes plus the carried amounts fit in a `u128`.
pub open spec fn totals_fit(records: Seq<RateRecord>) -> bool {
    forall|i: int| 0 <= i < records.len() ==> {
        let (_, _, run_up, run_down) = #[trigger] carry_after(records.take(i + 1));
        &&& records[i].up + run_up <= u128::MAX
        &&& records[i].down + run_down <= u128::MAX
    }
}

/// The store of series after reading the totals records `records` in order
/// into `store`.
pub open spec fn totals_after(
    store: Map<Seq<char>, Map<i64, DataPoint>>,
    records: Seq<RateRecord>,
) -> Map<Seq<char>, Map<i64, DataPoint>>
    decreases records.len(),
{
    if records.len() == 0 {
        store
    } else {
        let i = records.len() - 1;
        with_point(totals_after(store, records.drop_last()), records[i].name@, records[i].timestamp, total_point(records, i))
    }
}

/// The last point read from a totals file for each name, after `records`.
pub open spec fn file_points_after(
    points: Map<Seq<char>, DataPoint>,
    records: Seq<RateRecord>,
) -> Map<Seq<char>, DataPoint>
    decreases records.len(),
{
    if records.len() == 0 {
        points
    } else {
        let r = records.last();
        file_points_after(points, records.drop_last()).insert(r.name@, point_of(r))
    }
}

/// Every record's second is representable.
pub open spec fn records_in_range(records: Seq<RateRecord>) -> bool {
    forall|i: int| 0 <= i < records.len() ==> timestamp_in_range(#[trigger] records[i].timestamp as int)
}

/// Bytes up of `name` as last read from the totals file, or zero.
pub open spec fn file_upload(points: Map<Seq<char>, DataPoint>, name: Seq<char>) -> u128 {
    if points.contains_key(name) { points[name].value_up } else { 0 }
}

/// Bytes down of `name` as last read from the totals file, or zero.
pub open spec fn file_download(points: Map<Seq<char>, DataPoint>, name: Seq<char>) -> u128 {
    if points.contains_key(name) { points[name].value_down } else { 0 }
}

/// The series of process, connection and remote address rates and totals,
/// and the totals last read from the totals files.
pub struct DataCollector {
    process_rate_data: NamedSeries,
    connection_rate_data: NamedSeries,
    remote_address_rate_data: NamedSeries,
    process_total_data: NamedSeries,
    connection_total_data: NamedSeries,
    remote_address_total_data: NamedSeries,
    process_total_data_from_file: LatestPoints,
    connection_total_data_from_file: LatestPoints,
    remote_address_total_data_from_file: LatestPoints,
}

/// `after` is `before` with the point `dp` at second `ts` added to the
/// series `name` of the store `kind`, and nothing else changed.
pub open spec fn added_point(
    before: DataCollector,
    after: DataCollector,
    kind: SeriesKind,
    name: Seq<char>,
    ts: i64,
    dp: DataPoint,
) -> bool {
    &&& after.series(kind)@ == with_point(before.series(kind)@, name, ts, dp)
    &&& after.series(kind).names() == with_name(before.series(kind).names(), name)
    &&& forall|k: SeriesKind| k != kind ==> after.series(k) == before.series(k)
    &&& forall|s: Subject| after.file_totals(s) == before.file_totals(s)
}

impl DataCollector {
    /// The store of series `kind`.
    pub closed spec fn series(&self, kind: SeriesKind) -> NamedSeries {
        match kind {
            SeriesKind::ProcessRate => self.process_rate_data,
            SeriesKind::ConnectionRate => self.connection_rate_data,
            SeriesKind::RemoteAddressRate => self.remote_address_rate_data,
            SeriesKind::ProcessTotal => self.process_total_data,
            SeriesKind::ConnectionTotal => self.connection_total_data,
            SeriesKind::RemoteAddressTotal => self.remote_address_total_data,
        }
    }

    /// The totals of `subject` last read from its totals file.
    pub closed spec fn file_totals(&self, subject: Subject) -> LatestPoints {
        match subject {
            Subject::Process => self.process_total_data_from_file,
            Subject::Connection => self.connection_total_data_from_file,
            Subject::RemoteAddress => self.remote_address_total_data_from_file,
        }
    }

    /// Every store is well formed.
    pub open spec fn wf(&self) -> bool {
        &&& forall|k: SeriesKind| #[trigger] self.series(k).wf()
        &&& forall|s: Subject| #[trigger] self.file_totals(s).wf()
    }

    /// A collector with nothing in it.
    pub fn new() -> (c: Self)
        ensures
            c.wf(),
            forall|k: SeriesKind| #[trigger] c.series(k)@ == Map::<Seq<char>, Map<i64, DataPoint>>::empty()
                && c.series(k).names() == Seq::<Seq<char>>::empty(),
            forall|s: Subject| #[trigger] c.file_totals(s)@ == Map::<Seq<char>, DataPoint>::empty(),
    {
        DataCollector {
            process_rate_data: NamedSeries::new(),
            connection_rate_data: NamedSeries::new(),
            remote_address_rate_data: NamedSeries::new(),
            process_total_data: NamedSeries::new(),
            connection_total_data: NamedSeries::new(),
            remote_address_total_data: NamedSeries::new(),
            process_total_data_from_file: LatestPoints::new(),
            connection_total_data_from_file: LatestPoints::new(),
            remote_address_total_data_from_file: LatestPoints::new(),
        }
    }

    fn add_point(&mut self, kind: SeriesKind, name: String, ts: i64, dp: DataPoint)
        requires
            old(self).wf(),
            timestamp_in_range(ts as int),
        ensures
            final(self).wf(),
            added_point(*old(self), *final(self), kind, name@, ts, dp),
    {
        assert(old(self).series(kind).wf());
        match kind {
            SeriesKind::ProcessRate => self.process_rate_data.record(name, ts, dp),
            SeriesKind::ConnectionRate => self.connection_rate_data.record(name, ts, dp),
            SeriesKind::RemoteAddressRate => self.remote_address_rate_data.record(name, ts, dp),
            SeriesKind::ProcessTotal => self.process_total_data.record(name, ts, dp),
            SeriesKind::ConnectionTotal => self.connection_total_data.record(name, ts, dp),
            SeriesKind::RemoteAddressTotal => self.remote_address_total_data.record(name, ts, dp),
        }
        assert(self.wf()) by {
            assert forall|k: SeriesKind| #[trigger] self.series(k).wf() by {
                assert(old(self).series(k).wf());
            }
            assert forall|s: Subject| #[trigger] self.file_totals(s).wf() by {
                assert(old(self).file_totals(s).wf());
            }
        }
    }

    fn set_file_point(&mut self, subject: Subject, name: String, dp: DataPoint)
        requires
            old(self).wf(),
        ensures
            final(self).wf(),
            final(self).file_totals(subject)@ == old(self).file_totals(subject)@.insert(name@, dp),
            forall|s: Subject| s != subject ==> final(self).file_totals(s) == old(self).file_totals(s),
            forall|k: SeriesKind| final(self).series(k) == old(self).series(k),
    {
        assert(old(self).file_totals(subject).wf());
        match subject {
            Subject::Process => self.process_total_data_from_file.insert(name, dp),
            Subject::Connection => self.connection_total_data_from_file.insert(name, dp),
            Subject::RemoteAddress => self.remote_address_total_data_from_file.insert(name, dp),
        }
        assert(self.wf()) by {
            assert forall|k: SeriesKind| #[trigger] self.series(k).wf() by {
                assert(old(self).series(k).wf());
            }
            assert forall|s: Subject| #[trigger] self.file_totals(s).wf() by {
                assert(old(self).file_totals(s).wf());
            }
        }
    }

    /// The store of series `kind`, for the front end's queries.
    pub fn series_store(&self, kind: SeriesKind) -> (r: &NamedSeries)
        ensures
            *r == self.series(kind),
    {
        match kind {
            SeriesKind::ProcessRate => &self.process_rate_data,
            SeriesKind::ConnectionRate => &self.connection_rate_data,
            SeriesKind::RemoteAddressRate => &self.remote_address_rate_data,
            SeriesKind::ProcessTotal => &self.process_total_data,
            SeriesKind::ConnectionTotal => &self.connection_total_data,
            SeriesKind::RemoteAddressTotal => &self.remote_address_total_data,
        }
    }

    fn file_store(&self, subject: Subject) -> (r: &LatestPoints)
        ensures
            *r == self.file_totals(subject),
    {
        match subject {
            Subject::Process => &self.process_total_data_from_file,
            Subject::Connection => &self.connection_total_data_from_file,
            Subject::RemoteAddress => &self.remote_address_total_data_from_file,
        }
    }

    /// Reads the records of a rate file into the store `kind`, in order.
    pub(crate) fn load_rates(&mut self, kind: SeriesKind, records: &Vec<RateRecord>)
        requires
            old(self).wf(),
            records_in_range(records@),
        ensures
            final(self).wf(),
            final(self).series(kind)@ == rates_after(old(self).series(kind)@, records@),
            final(self).series(kind).names() == names_after(old(self).series(kind).names(), records@),
            forall|k: SeriesKind| k != kind ==> final(self).series(k) == old(self).series(k),
            forall|s: Subject| final(self).file_totals(s) == old(self).file_totals(s),
    {
        let mut i: usize = 0;
        while i < records.len()
            invariant
                self.wf(),
                i <= records.len(),
                records_in_range(records@),
                self.series(kind)@ == rates_after(old(self).series(kind)@, records@.take(i as int)),
                self.series(kind).names() == names_after(old(self).series(kind).names(), records@.take(i as int)),
                forall|k: SeriesKind| k != kind ==> self.series(k) == old(self).series(k),
                forall|s: Subject| self.file_totals(s) == old(self).file_totals(s),
            decreases records.len() - i,
        {
            let r = &records[i];
            assert(timestamp_in_range(records@[i as int].timestamp as int));
            self.add_point(kind, r.name.clone(), r.timestamp, DataPoint { value_up: r.up, value_down: r.down });
            assert(records@.take(i + 1).drop_last() =~= records@.take(i as int));
            i = i + 1;
        }
        assert(records@.take(i as int) =~= records@);
    }

    /// Reads the records of a totals file into the store `kind` and the file
    /// totals of `subject`, in order, carrying amounts over restarts of the
    /// counters.
    fn load_totals(&mut self, kind: SeriesKind, subject: Subject, records: &Vec<RateRecord>)
        requires
            old(self).wf(),
            records_in_range(records@),
            totals_fit(records@),
        ensures
            final(self).wf(),
            final(self).series(kind)@ == totals_after(old(self).series(kind)@, records@),
            final(self).series(kind).names() == names_after(old(self).series(kind).names(), records@),
            final(self).file_totals(subject)@ == file_points_after(old(self).file_totals(subject)@, records@),
            forall|k: SeriesKind| k != kind ==> final(self).series(k) == old(self).series(k),
            forall|s: Subject| s != subject ==> final(self).file_totals(s) == old(self).file_totals(s),
    {
        let mut last_value_up: u128 = 0;
        let mut last_value_down: u128 = 0;
        let mut last_run_total_up: u128 = 0;
        let mut last_run_total_down: u128 = 0;
        let mut i: usize = 0;
        while i < records.len()
            invariant
                self.wf(),
                i <= records.len(),
                records_in_range(records@),
                totals_fit(records@),
                carry_after(records@.take(i as int)) == (
                    last_value_up as int,
                    last_value_down as int,
                    last_run_total_up as int,
                    last_run_total_down as int,
                ),
                self.series(kind)@ == totals_after(old(self).series(kind)@, records@.take(i as int)),
                self.series(kind).names() == names_after(old(self).series(kind).names(), records@.take(i as int)),
                self.file_totals(subject)@ == file_points_after(old(self).file_totals(subject)@, records@.take(i as int)),
                forall|k: SeriesKind| k != kind ==> self.series(k) == old(self).series(k),
                forall|s: Subject| s != subject ==> self.file_totals(s) == old(self).file_totals(s),
            decreases records.len() - i,
        {
            let r = &records[i];
            let ghost upto = records@.take(i + 1);
            assert(upto.drop_last() =~= records@.take(i as int));
            assert(upto.last() == records@[i as int]);
            if last_value_up >= r.up || last_value_down >= r.down {
                last_run_total_up = last_value_up;
                last_run_total_down = last_value_down;
            }
            assert(carry_after(upto).2 == last_run_total_up);
            assert(timestamp_in_range(records@[i as int].timestamp as int));
            let dp = DataPoint {
                value_up: r.up + last_run_total_up,
                value_down: r.down + last_run_total_down,
            };
            self.add_point(kind, r.name.clone(), r.timestamp, dp);
            last_value_up = r.up;
            last_value_down = r.down;
            self.set_file_point(subject, r.name.clone(), DataPoint { value_up: r.up, value_down: r.down });
            proof {
                let total = totals_after(old(self).series(kind)@, upto);
                assert(upto[i as int] == records@[i as int]);
                assert(upto.take(i + 1) =~= upto);
                assert(total_point(upto, i as int) == dp);
            }
            i = i + 1;
        }
        assert(records@.take(i as int) =~= records@);
    }

    /// Reads the records of the process rate file, in file order, into the process rates.
    pub fn open_process_rate_file(&mut self, records: &Vec<RateRecord>)
        requires
            old(self).wf(),
            records_in_range(records@),
        ensures
            final(self).wf(),
            final(self).series(SeriesKind::ProcessRate)@ == rates_after(old(self).series(SeriesKind::ProcessRate)@, records@),
            final(self).series(SeriesKind::ProcessRate).names() == names_after(old(self).series(SeriesKind::ProcessRate).names(), records@),
            forall|k: SeriesKind| k != SeriesKind::ProcessRate ==> final(self).series(k) == old(self).series(k),
            forall|s: Subject| final(self).file_totals(s) == old(self).file_totals(s),
    {
        self.load_rates(SeriesKind::ProcessRate, records)
    }

    /// Reads the records of the process totals file, in file order: each is stored
    /// in the process totals with the amounts carried over restarts of the counters
    /// added, and as read in the file totals of its name.
    pub fn open_process_total_file(&mut self, records: &Vec<RateRecord>)
        requires
            old(self).wf(),
            records_in_range(records@),
            totals_fit(records@),
        ensures
            final(self).wf(),
            final(self).series(SeriesKind::ProcessTotal)@ == totals_after(old(self).series(SeriesKind::ProcessTotal)@, records@),
            final(self).series(SeriesKind::ProcessTotal).names() == names_after(old(self).series(SeriesKind::ProcessTotal).names(), records@),
            final(self).file_totals(Subject::Process)@ == file_points_after(old(self).file_totals(Subject::Process)@, records@),
            forall|k: SeriesKind| k != SeriesKind::ProcessTotal ==> final(self).series(k) == old(self).series(k),
            forall|s: Subject| s != Subject::Process ==> final(self).file_totals(s) == old(self).file_totals(s),
    {
        self.load_totals(SeriesKind::ProcessTotal, Subject::Process, records)
    }

    /// Records bytes up and down of a process at second `timestamp`.
    pub fn add_process_rate_data(&mut self, process_name: String, timestamp: i64, up_rate: u128, down_rate: u128)
        requires
            old(self).wf(),
            timestamp_in_range(timestamp as int),
        ensures
            final(self).wf(),
            added_point(*old(self), *final(self), SeriesKind::ProcessRate, process_name@, timestamp, DataPoint { value_up: up_rate, value_down: down_rate }),
    {
        self.add_point(SeriesKind::ProcessRate, process_name, timestamp, DataPoint { value_up: up_rate, value_down: down_rate })
    }

    /// Records the total bytes up and down of a process at second `timestamp`.
    pub fn add_process_total_data(&mut self, process_name: String, timestamp: i64, up_total: u128, down_total: u128)
        requires
            old(self).wf(),
            timestamp_in_range(timestamp as int),
        ensures
            final(self).wf(),
            added_point(*old(self), *final(self), SeriesKind::ProcessTotal, process_name@, timestamp, DataPoint { value_up: up_total, value_down: down_total }),
    {
        self.add_point(SeriesKind::ProcessTotal, process_name, timestamp, DataPoint { value_up: up_total, value_down: down_total })
    }

    /// Bytes up of a process as last read from its totals file; zero if none was read.
    pub fn get_process_total_file_upload(&self, process_name: String) -> (r: u128)
        requires
            self.wf(),
        ensures
            r == file_upload(self.file_totals(Subject::Process)@, process_name@),
    {
        assert(self.file_totals(Subject::Process).wf());
        match self.file_store(Subject::Process).get(&process_name) {
            Some(data) => data.value_up,
            None => 0,
        }
    }

    /// Bytes down of a process as last read from its totals file; zero if none was read.
    pub fn get_process_total_file_download(&self, process_name: String) -> (r: u128)
        requires
            self.wf(),
        ensures
            r == file_download(self.file_totals(Subject::Process)@, process_name@),
    {
        assert(self.file_totals(Subject::Process).wf());
        match self.file_store(Subject::Process).get(&process_name) {
            Some(data) => data.value_down,
            None => 0,
        }
    }

    /// The rates of a process taken at or after `start_datetime`.
    pub fn get_process_rate_subset(&self, process_name: &str, start_datetime: Moment) -> (r: BTreeMap<i64, DataPoint>)
        requires
            self.wf(),
        ensures
            r@ == window(self.series(SeriesKind::ProcessRate).points_of(process_name@), start_datetime),
    {
        assert(self.series(SeriesKind::ProcessRate).wf());
        self.series_store(SeriesKind::ProcessRate).subset(process_name, start_datetime)
    }

    /// The totals of a process taken at or after `start_datetime`.
    pub fn get_process_total_subset(&self, process_name: &str, start_datetime: Moment) -> (r: BTreeMap<i64, DataPoint>)
        requires
            self.wf(),
        ensures
            r@ == window(self.series(SeriesKind::ProcessTotal).points_of(process_name@), start_datetime),
    {
        assert(self.series(SeriesKind::ProcessTotal).wf());
        self.series_store(SeriesKind::ProcessTotal).subset(process_name, start_datetime)
    }

    /// The rows that saving the process rates from `start_datetime` on writes:
    /// name, RFC 3339 time, bytes up, bytes down, series by series, in time order.
    pub fn save_process_rate_data(&self, start_datetime: Moment) -> (rows: Vec<Vec<String>>)
        requires
            self.wf(),
        ensures
            rows.deep_view() == export_rows(
                self.series(SeriesKind::ProcessRate).names(),
                self.series(SeriesKind::ProcessRate)@,
                start_datetime,
            ),
    {
        assert(self.series(SeriesKind::ProcessRate).wf());
        self.series_store(SeriesKind::ProcessRate).export(start_datetime)
    }

    /// The rows that saving the process totals from `start_datetime` on writes:
    /// name, RFC 3339 time, bytes up, bytes down, series by series, in time order.
    pub fn save_process_total_data(&self, start_datetime: Moment) -> (rows: Vec<Vec<String>>)
        requires
            self.wf(),
        ensures
            rows.deep_view() == export_rows(
                self.series(SeriesKind::ProcessTotal).names(),
                self.series(SeriesKind::ProcessTotal)@,
                start_datetime,
            ),
    {
        assert(self.series(SeriesKind::ProcessTotal).wf());
        self.series_store(SeriesKind::ProcessTotal).export(start_datetime)
    }

    /// Reads the records of the connection rate file, in file order, into the connection rates.
    pub fn open_connection_rate_file(&mut self, records: &Vec<RateRecord>)
        requires
            old(self).wf(),
            records_in_range(records@),
        ensures
            final(self).wf(),
            final(self).series(SeriesKind::ConnectionRate)@ == rates_after(old(self).series(SeriesKind::ConnectionRate)@, records@),
            final(self).series(SeriesKind::ConnectionRate).names() == names_after(old(self).series(SeriesKind::ConnectionRate).names(), records@),
            forall|k: SeriesKind| k != SeriesKind::ConnectionRate ==> final(self).series(k) == old(self).series(k),
            forall|s: Subject| final(self).file_totals(s) == old(self).file_totals(s),
    {
        self.load_rates(SeriesKind::ConnectionRate, records)
    }

    /// Reads the records of the connection totals file, in file order: each is stored
    /// in the connection totals with the amounts carried over restarts of the counters
    /// added, and as read in the file totals of its name.
    pub fn open_connection_total_file(&mut self, records: &Vec<RateRecord>)
        requires
            old(self).wf(),
            records_in_range(records@),
            totals_fit(records@),
        ensures
            final(self).wf(),
            final(self).series(SeriesKind::ConnectionTotal)@ == totals_after(old(self).series(SeriesKind::ConnectionTotal)@, records@),
            final(self).series(SeriesKind::ConnectionTotal).names() == names_after(old(self).series(SeriesKind::ConnectionTotal).names(), records@),
            final(self).file_totals(Subject::Connection)@ == file_points_after(old(self).file_totals(Subject::Connection)@, records@),
            forall|k: SeriesKind| k != SeriesKind::ConnectionTotal ==> final(self).series(k) == old(self).series(k),
            forall|s: Subject| s != Subject::Connection ==> final(self).file_totals(s) == old(self).file_totals(s),
    {
        self.load_totals(SeriesKind::ConnectionTotal, Subject::Connection, records)
    }

    /// Records bytes up and down of a connection at second `timestamp`.
    pub fn add_connection_rate_data(&mut self, connection_name: String, timestamp: i64, up_rate: u128, down_rate: u128)
        requires
            old(self).wf(),
            timestamp_in_range(timestamp as int),
        ensures
            final(self).wf(),
            added_point(*old(self), *final(self), SeriesKind::ConnectionRate, connection_name@, timestamp, DataPoint { value_up: up_rate, value_down: down_rate }),
    {
        self.add_point(SeriesKind::ConnectionRate, connection_name, timestamp, DataPoint { value_up: up_rate, value_down: down_rate })
    }

    /// Records the total bytes up and down of a connection at second `timestamp`.
    pub fn add_connection_total_data(&mut self, connection_name: String, timestamp: i64, up_total: u128, down_total: u128)
        requires
            old(self).wf(),
            timestamp_in_range(timestamp as int),
        ensures
            final(self).wf(),
            added_point(*old(self), *final(self), SeriesKind::ConnectionTotal, connection_name@, timestamp, DataPoint { value_up: up_total, value_down: down_total }),
    {
        self.add_point(SeriesKind::ConnectionTotal, connection_name, timestamp, DataPoint { value_up: up_total, value_down: down_total })
    }

    /// Bytes up of a connection as last read from its totals file; zero if none was read.
    pub fn get_connection_total_file_upload(&self, connection_name: String) -> (r: u128)
        requires
            self.wf(),
        ensures
            r == file_upload(self.file_totals(Subject::Connection)@, connection_name@),
    {
        assert(self.file_totals(Subject::Connection).wf());
        match self.file_store(Subject::Connection).get(&connection_name) {
            Some(data) => data.value_up,
            None => 0,
        }
    }

    /// Bytes down of a connection as last read from its totals file; zero if none was read.
    pub fn get_connection_total_file_download(&self, connection_name: String) -> (r: u128)
        requires
            self.wf(),
        ensures
            r == file_download(self.file_totals(Subject::Connection)@, connection_name@),
    {
        assert(self.file_totals(Subject::Connection).wf());
        match self.file_store(Subject::Connection).get(&connection_name) {
            Some(data) => data.value_down,
            None => 0,
        }
    }

    /// The rates of a connection taken at or after `start_datetime`.
    pub fn get_connection_rate_subset(&self, connection_name: &str, start_datetime: Moment) -> (r: BTreeMap<i64, DataPoint>)
        requires
            self.wf(),
        ensures
            r@ == window(self.series(SeriesKind::ConnectionRate).points_of(connection_name@), start_datetime),
    {
        assert(self.series(SeriesKind::ConnectionRate).wf());
        self.series_store(SeriesKind::ConnectionRate).subset(connection_name, start_datetime)
    }

    /// The totals of a connection taken at or after `start_datetime`.
    pub fn get_connection_total_subset(&self, connection_name: &str, start_datetime: Moment) -> (r: BTreeMap<i64, DataPoint>)
        requires
            self.wf(),
        ensures
            r@ == window(self.series(SeriesKind::ConnectionTotal).points_of(connection_name@), start_datetime),
    {
        assert(self.series(SeriesKind::ConnectionTotal).wf());
        self.series_store(SeriesKind::ConnectionTotal).subset(connection_name, start_datetime)
    }

    /// The rows that saving the connection rates from `start_datetime` on writes:
    /// name, RFC 3339 time, bytes up, bytes down, series by series, in time order.
    pub fn save_connection_rate_data(&self, start_datetime: Moment) -> (rows: Vec<Vec<String>>)
        requires
            self.wf(),
        ensures
            rows.deep_view() == export_rows(
                self.series(SeriesKind::ConnectionRate).names(),
                self.series(SeriesKind::ConnectionRate)@,
                start_datetime,
            ),
    {
        assert(self.series(SeriesKind::ConnectionRate).wf());
        self.series_store(SeriesKind::ConnectionRate).export(start_datetime)
    }

    /// The rows that saving the connection totals from `start_datetime` on writes:
    /// name, RFC 3339 time, bytes up, bytes down, series by series, in time order.
    pub fn save_connection_total_data(&self, start_datetime: Moment) -> (rows: Vec<Vec<String>>)
        requires
            self.wf(),
        ensures
            rows.deep_view() == export_rows(
                self.series(SeriesKind::ConnectionTotal).names(),
                self.series(SeriesKind::ConnectionTotal)@,
                start_datetime,
            ),
    {
        assert(self.series(SeriesKind::ConnectionTotal).wf());
        self.series_store(SeriesKind::ConnectionTotal).export(start_datetime)
    }

    /// Reads the records of the remote address rate file, in file order, into the remote address rates.
    pub fn open_remote_address_rate_file(&mut self, records: &Vec<RateRecord>)
        requires
            old(self).wf(),
            records_in_range(records@),
        ensures
            final(self).wf(),
            final(self).series(SeriesKind::RemoteAddressRate)@ == rates_after(old(self).series(SeriesKind::RemoteAddressRate)@, records@),
            final(self).series(SeriesKind::RemoteAddressRate).names() == names_after(old(self).series(SeriesKind::RemoteAddressRate).names(), records@),
            forall|k: SeriesKind| k != SeriesKind::RemoteAddressRate ==> final(self).series(k) == old(self).series(k),
            forall|s: Subject| final(self).file_totals(s) == old(self).file_totals(s),
    {
        self.load_rates(SeriesKind::RemoteAddressRate, records)
    }

    /// Reads the records of the remote address totals file, in file order: each is stored
    /// in the remote address totals with the amounts carried over restarts of the counters
    /// added, and as read in the file totals of its name.
    pub fn open_remote_address_total_file(&mut self, records: &Vec<RateRecord>)
        requires
            old(self).wf(),
            records_in_range(records@),
            totals_fit(records@),
        ensures
            final(self).wf(),
            final(self).series(SeriesKind::RemoteAddressTotal)@ == totals_after(old(self).series(SeriesKind::RemoteAddressTotal)@, records@),
            final(self).series(SeriesKind::RemoteAddressTotal).names() == names_after(old(self).series(SeriesKind::RemoteAddressTotal).names(), records@),
            final(self).file_totals(Subject::RemoteAddress)@ == file_points_after(old(self).file_totals(Subject::RemoteAddress)@, records@),
            forall|k: SeriesKind| k != SeriesKind::RemoteAddressTotal ==> final(self).series(k) == old(self).series(k),
            forall|s: Subject| s != Subject::RemoteAddress ==> final(self).file_totals(s) == old(self).file_totals(s),
    {
        self.load_totals(SeriesKind::RemoteAddressTotal, Subject::RemoteAddress, records)
    }

    /// Records bytes up and down of a remote address at second `timestamp`.
    pub fn add_remote_address_rate_data(&mut self, remote_address_name: String, timestamp: i64, up_rate: u128, down_rate: u128)
        requires
            old(self).wf(),
            timestamp_in_range(timestamp as int),
        ensures
            final(self).wf(),
            added_point(*old(self), *final(self), SeriesKind::RemoteAddressRate, remote_address_name@, timestamp, DataPoint { value_up: up_rate, value_down: down_rate }),
    {
        self.add_point(SeriesKind::RemoteAddressRate, remote_address_name, timestamp, DataPoint { value_up: up_rate, value_down: down_rate })
    }

    /// Records the total bytes up and down of a remote address at second `timestamp`.
    pub fn add_remote_address_total_data(&mut self, remote_address_name: String, timestamp: i64, up_total: u128, down_total: u128)
        requires
            old(self).wf(),
            timestamp_in_range(timestamp as int),
        ensures
            final(self).wf(),
            added_point(*old(self), *final(self), SeriesKind::RemoteAddressTotal, remote_address_name@, timestamp, DataPoint { value_up: up_total, value_down: down_total }),
    {
        self.add_point(SeriesKind::RemoteAddressTotal, remote_address_name, timestamp, DataPoint { value_up: up_total, value_down: down_total })
    }

    /// Bytes up of a remote address as last read from its totals file; zero if none was read.
    pub fn get_remote_address_total_file_upload(&self, remote_address_name: String) -> (r: u128)
        requires
            self.wf(),
        ensures
            r == file_upload(self.file_totals(Subject::RemoteAddress)@, remote_address_name@),
    {
        assert(self.file_totals(Subject::RemoteAddress).wf());
        match self.file_store(Subject::RemoteAddress).get(&remote_address_name) {
            Some(data) => data.value_up,
            None => 0,
        }
    }

    /// Bytes down of a remote address as last read from its totals file; zero if none was read.
    pub fn get_remote_address_total_file_download(&self, remote_address_name: String) -> (r: u128)
        requires
            self.wf(),
        ensures
            r == file_download(self.file_totals(Subject::RemoteAddress)@, remote_address_name@),
    {
        assert(self.file_totals(Subject::RemoteAddress).wf());
        match self.file_store(Subject::RemoteAddress).get(&remote_address_name) {
            Some(data) => data.value_down,
            None => 0,
        }
    }

    /// The rates of a remote address taken at or after `start_datetime`.
    pub fn get_remote_address_rate_subset(&self, remote_address_name: &str, start_datetime: Moment) -> (r: BTreeMap<i64, DataPoint>)
        requires
            self.wf(),
        ensures
            r@ == window(self.series(SeriesKind::RemoteAddressRate).points_of(remote_address_name@), start_datetime),
    {
        assert(self.series(SeriesKind::RemoteAddressRate).wf());
        self.series_store(SeriesKind::RemoteAddressRate).subset(remote_address_name, start_datetime)
    }

    /// The totals of a remote address taken at or after `start_datetime`.
    pub fn get_remote_address_total_subset(&self, remote_address_name: &str, start_datetime: Moment) -> (r: BTreeMap<i64, DataPoint>)
        requires
            self.wf(),
        ensures
            r@ == window(self.series(SeriesKind::RemoteAddressTotal).points_of(remote_address_name@), start_datetime),
    {
        assert(self.series(SeriesKind::RemoteAddressTotal).wf());
        self.series_store(SeriesKind::RemoteAddressTotal).subset(remote_address_name, start_datetime)
    }

    /// The rows that saving the remote address rates from `start_datetime` on writes:
    /// name, RFC 3339 time, bytes up, bytes down, series by series, in time order.
    pub fn save_remote_address_rate_data(&self, start_datetime: Moment) -> (rows: Vec<Vec<String>>)
        requires
            self.wf(),
        ensures
            rows.deep_view() == export_rows(
                self.series(SeriesKind::RemoteAddressRate).names(),
                self.series(SeriesKind::RemoteAddressRate)@,
                start_datetime,
            ),
    {
        assert(self.series(SeriesKind::RemoteAddressRate).wf());
        self.series_store(SeriesKind::RemoteAddressRate).export(start_datetime)
    }

    /// The rows that saving the remote address totals from `start_datetime` on writes:
    /// name, RFC 3339 time, bytes up, bytes down, series by series, in time order.
    pub fn save_remote_address_total_data(&self, start_datetime: Moment) -> (rows: Vec<Vec<String>>)
        requires
            self.wf(),
        ensures
            rows.deep_view() == export_rows(
                self.series(SeriesKind::RemoteAddressTotal).names(),
                self.series(SeriesKind::RemoteAddressTotal)@,
                start_datetime,
            ),
    {
        assert(self.series(SeriesKind::RemoteAddressTotal).wf());
        self.series_store(SeriesKind::RemoteAddressTotal).export(start_datetime)
    }
}


/// Whether reading the totals records `records` stays within `u128`: the
/// test to make before `open_*_total_file`, whose reading would overflow
/// otherwise.
pub fn totals_records_fit(records: &Vec<RateRecord>) -> (ok: bool)
    ensures
        ok == totals_fit(records@),
{
    let mut last_up: u128 = 0;
    let mut last_down: u128 = 0;
    let mut run_up: u128 = 0;
    let mut run_down: u128 = 0;
    let mut i: usize = 0;
    while i < records.len()
        invariant
            i <= records.len(),
            carry_after(records@.take(i as int)) == (last_up as int, last_down as int, run_up as int, run_down as int),
            forall|j: int| 0 <= j < i ==> {
                let (_, _, ru, rd) = #[trigger] carry_after(records@.take(j + 1));
                &&& records@[j].up + ru <= u128::MAX
                &&& records@[j].down + rd <= u128::MAX
            },
        decreases records.len() - i,
    {
        let r = &records[i];
        let ghost upto = records@.take(i + 1);
        assert(upto.drop_last() =~= records@.take(i as int));
        assert(upto.last() == records@[i as int]);
        if last_up >= r.up || last_down >= r.down {
            run_up = last_up;
            run_down = last_down;
        }
        assert(carry_after(upto) == (r.up as int, r.down as int, run_up as int, run_down as int));
        if r.up > u128::MAX - run_up || r.down > u128::MAX - run_down {
            return false;
        }
        last_up = r.up;
        last_down = r.down;
        i = i + 1;
    }
    assert(records@.take(i as int) =~= records@);
    true
}

} // verus!
