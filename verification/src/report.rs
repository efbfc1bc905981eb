//! What the monitor writes about the traffic it saw: the lines of its
//! record files, the lines of its text mode, its bandwidth alerts, and the
//! tables it shows.

use vstd::prelude::*;
use crate::collector::{
    file_download, file_upload, names_after, rates_after, records_in_range, DataCollector,
    RateRecord, SeriesKind, Subject,
};
use crate::text::{decimal, i64_to_decimal, signed_decimal, u128_to_decimal};
use crate::time::timestamp_in_range;

verus! {

/// The traffic of one process since the last refresh (or in total).
pub struct ProcessRow {
    pub name: String,
    pub pid: u32,
    pub bytes_uploaded: u128,
    pub bytes_downloaded: u128,
    pub connection_count: usize,
}

/// The traffic of one connection since the last refresh (or in total).
pub struct ConnectionRow {
    /// The interface the connection goes through.
    pub interface_name: String,
    pub local_port: u16,
    /// The remote address, or its host name where it is known.
    pub remote_host: String,
    pub remote_port: u16,
    /// The protocol of the local socket, as displayed.
    pub protocol: String,
    /// The connection as the text mode shows it.
    pub display: String,
    pub bytes_uploaded: u128,
    pub bytes_downloaded: u128,
    pub process_name: String,
}

/// The traffic exchanged with one remote address since the last refresh
/// (or in total).
pub struct RemoteAddressRow {
    /// The remote address, or its host name where it is known.
    pub address: String,
    pub bytes_uploaded: u128,
    pub bytes_downloaded: u128,
    pub connection_count: usize,
}

/// The fields `fields` separated by commas.
pub open spec fn joined(fields: Seq<Seq<char>>) -> Seq<char>
    decreases fields.len(),
{
    if fields.len() == 0 {
        seq![]
    } else if fields.len() == 1 {
        fields[0]
    } else {
        joined(fields.drop_last()) + seq![','] + fields.last()
    }
}

/// Joins `fields` with commas.
pub fn join_fields(fields: &Vec<String>) -> (s: String)
    ensures
        s@ == joined(fields.deep_view()),
{
    let mut s = String::new();
    let mut i: usize = 0;
    proof { reveal_strlit(","); }
    while i < fields.len()
        invariant
            i <= fields.len(),
            s@ == joined(fields.deep_view().take(i as int)),
        decreases fields.len() - i,
    {
        let ghost t = fields.deep_view().take(i + 1);
        assert(t.drop_last() =~= fields.deep_view().take(i as int));
        assert(t.last() == fields[i as int]@);
        let ghost before = s@;
        if i > 0 {
            proof { reveal_strlit(","); }
            s.append(",");
            s.append(fields[i].as_str());
            assert(s@ =~= before + seq![','] + fields[i as int]@);
        } else {
            s.append(fields[i].as_str());
            assert(s@ =~= fields[0]@);
            assert(t.len() == 1);
        }
        i = i + 1;
    }
    assert(fields.deep_view().take(i as int) =~= fields.deep_view());
    s
}

/// The header of the process record files.
pub open spec fn process_header() -> Seq<char> {
    "timestamp,process_name,pid,bytes_uploaded,bytes_downloaded,connection_count"@
}

/// The header of the connection record files.
pub open spec fn connection_header() -> Seq<char> {
    "timestamp,interface_name,local_socket_port,target_ip,remote_socket_port,local_socket_protocol,bytes_uploaded,bytes_downloaded,process_name"@
}

/// The header of the remote address record files.
pub open spec fn remote_address_header() -> Seq<char> {
    "timestamp,remote_address,bytes_uploaded,bytes_downloaded,connections_count"@
}

/// The fields of the record file line of a process at second `ts`.
pub open spec fn process_fields(ts: i64, r: ProcessRow) -> Seq<Seq<char>> {
    seq![
        signed_decimal(ts as int),
        r.name@,
        decimal(r.pid as nat),
        decimal(r.bytes_uploaded as nat),
        decimal(r.bytes_downloaded as nat),
        decimal(r.connection_count as nat),
    ]
}

/// The record file line of a process at second `ts`.
pub open spec fn process_line(ts: i64, r: ProcessRow) -> Seq<char> {
    joined(process_fields(ts, r))
}

/// The fields of the record file line of a connection at second `ts`.
pub open spec fn connection_fields(ts: i64, r: ConnectionRow) -> Seq<Seq<char>> {
    seq![
        signed_decimal(ts as int),
        r.interface_name@,
        decimal(r.local_port as nat),
        r.remote_host@,
        decimal(r.remote_port as nat),
        r.protocol@,
        decimal(r.bytes_uploaded as nat),
        decimal(r.bytes_downloaded as nat),
        r.process_name@,
    ]
}

/// The record file line of a connection at second `ts`.
pub open spec fn connection_line(ts: i64, r: ConnectionRow) -> Seq<char> {
    joined(connection_fields(ts, r))
}

/// The fields of the record file line of a remote address at second `ts`.
pub open spec fn remote_address_fields(ts: i64, r: RemoteAddressRow) -> Seq<Seq<char>> {
    seq![
        signed_decimal(ts as int),
        r.address@,
        decimal(r.bytes_uploaded as nat),
        decimal(r.bytes_downloaded as nat),
        decimal(r.connection_count as nat),
    ]
}

/// The record file line of a remote address at second `ts`.
pub open spec fn remote_address_line(ts: i64, r: RemoteAddressRow) -> Seq<char> {
    joined(remote_address_fields(ts, r))
}

/// The lines a record file gets for `body`: the header first where the
/// file is empty.
pub open spec fn with_header(header: Seq<char>, file_is_empty: bool, body: Seq<Seq<char>>) -> Seq<Seq<char>> {
    if file_is_empty { seq![header] + body } else { body }
}

fn process_line_text(ts: i64, r: &ProcessRow) -> (s: String)
    ensures
        s@ == process_line(ts, *r),
{
    let fields = vec![
        i64_to_decimal(ts),
        r.name.clone(),
        u128_to_decimal(r.pid as u128),
        u128_to_decimal(r.bytes_uploaded),
        u128_to_decimal(r.bytes_downloaded),
        u128_to_decimal(r.connection_count as u128),
    ];
    let s = join_fields(&fields);
    assert(fields.deep_view() =~= seq![
        signed_decimal(ts as int),
        r.name@,
        decimal(r.pid as nat),
        decimal(r.bytes_uploaded as nat),
        decimal(r.bytes_downloaded as nat),
        decimal(r.connection_count as nat),
    ]);
    s
}

fn connection_line_text(ts: i64, r: &ConnectionRow) -> (s: String)
    ensures
        s@ == connection_line(ts, *r),
{
    let fields = vec![
        i64_to_decimal(ts),
        r.interface_name.clone(),
        u128_to_decimal(r.local_port as u128),
        r.remote_host.clone(),
        u128_to_decimal(r.remote_port as u128),
        r.protocol.clone(),
        u128_to_decimal(r.bytes_uploaded),
        u128_to_decimal(r.bytes_downloaded),
        r.process_name.clone(),
    ];
    let s = join_fields(&fields);
    assert(fields.deep_view() =~= seq![
        signed_decimal(ts as int),
        r.interface_name@,
        decimal(r.local_port as nat),
        r.remote_host@,
        decimal(r.remote_port as nat),
        r.protocol@,
        decimal(r.bytes_uploaded as nat),
        decimal(r.bytes_downloaded as nat),
        r.process_name@,
    ]);
    s
}

fn remote_address_line_text(ts: i64, r: &RemoteAddressRow) -> (s: String)
    ensures
        s@ == remote_address_line(ts, *r),
{
    let fields = vec![
        i64_to_decimal(ts),
        r.address.clone(),
        u128_to_decimal(r.bytes_uploaded),
        u128_to_decimal(r.bytes_downloaded),
        u128_to_decimal(r.connection_count as u128),
    ];
    let s = join_fields(&fields);
    assert(fields.deep_view() =~= seq![
        signed_decimal(ts as int),
        r.address@,
        decimal(r.bytes_uploaded as nat),
        decimal(r.bytes_downloaded as nat),
        decimal(r.connection_count as nat),
    ]);
    s
}


/// The records the collector gets for the process rows `rows` at second `ts`.
pub open spec fn process_records(ts: i64, rows: Seq<ProcessRow>) -> Seq<RateRecord> {
    rows.map_values(|r: ProcessRow| RateRecord { timestamp: ts, name: r.name, up: r.bytes_uploaded, down: r.bytes_downloaded })
}

/// The records the collector gets for the connection rows `rows` at second
/// `ts`: each is filed under its interface's name.
pub open spec fn connection_records(ts: i64, rows: Seq<ConnectionRow>) -> Seq<RateRecord> {
    rows.map_values(|r: ConnectionRow| RateRecord { timestamp: ts, name: r.interface_name, up: r.bytes_uploaded, down: r.bytes_downloaded })
}

/// The records the collector gets for the remote address rows `rows` at
/// second `ts`.
pub open spec fn remote_address_records(ts: i64, rows: Seq<RemoteAddressRow>) -> Seq<RateRecord> {
    rows.map_values(|r: RemoteAddressRow| RateRecord { timestamp: ts, name: r.address, up: r.bytes_uploaded, down: r.bytes_downloaded })
}

/// A record whose bytes have the totals last read from the file added.
pub open spec fn plus_file_totals(r: RateRecord, points: Map<Seq<char>, crate::series::DataPoint>) -> RateRecord {
    RateRecord {
        timestamp: r.timestamp,
        name: r.name,
        up: (r.up + file_upload(points, r.name@)) as u128,
        down: (r.down + file_download(points, r.name@)) as u128,
    }
}

/// Adding the totals last read from the file to each of `records` fits in a `u128`.
pub open spec fn file_sums_fit(records: Seq<RateRecord>, points: Map<Seq<char>, crate::series::DataPoint>) -> bool {
    forall|i: int| 0 <= i < records.len() ==> {
        &&& #[trigger] records[i].up + file_upload(points, records[i].name@) <= u128::MAX
        &&& records[i].down + file_download(points, records[i].name@) <= u128::MAX
    }
}

/// `records` with the totals last read from the file added.
pub open spec fn with_file_totals(records: Seq<RateRecord>, points: Map<Seq<char>, crate::series::DataPoint>) -> Seq<RateRecord> {
    records.map_values(|r: RateRecord| plus_file_totals(r, points))
}

/// `after` is `before` with `records` added to the store `kind`, in order,
/// and nothing else changed.
pub open spec fn added_records(before: DataCollector, after: DataCollector, kind: SeriesKind, records: Seq<RateRecord>) -> bool {
    &&& after.series(kind)@ == rates_after(before.series(kind)@, records)
    &&& after.series(kind).names() == names_after(before.series(kind).names(), records)
    &&& forall|k: SeriesKind| k != kind ==> after.series(k) == before.series(k)
    &&& forall|s: Subject| after.file_totals(s) == before.file_totals(s)
}

/// Adds to each of `records` the totals of its name last read from the
/// totals file of `subject`.
fn add_file_totals(collector: &DataCollector, subject: Subject, records: &Vec<RateRecord>) -> (r: Vec<RateRecord>)
    requires
        collector.wf(),
        file_sums_fit(records@, collector.file_totals(subject)@),
        records_in_range(records@),
    ensures
        r@ == with_file_totals(records@, collector.file_totals(subject)@),
        records_in_range(r@),
{
    let ghost points = collector.file_totals(subject)@;
    let mut r: Vec<RateRecord> = Vec::new();
    let mut i: usize = 0;
    while i < records.len()
        invariant
            collector.wf(),
            points == collector.file_totals(subject)@,
            file_sums_fit(records@, points),
            records_in_range(records@),
            i <= records.len(),
            r@ == with_file_totals(records@.take(i as int), points),
        decreases records.len() - i,
    {
        let rec = &records[i];
        let (up, down) = match subject {
            Subject::Process => (
                collector.get_process_total_file_upload(rec.name.clone()),
                collector.get_process_total_file_download(rec.name.clone()),
            ),
            Subject::Connection => (
                collector.get_connection_total_file_upload(rec.name.clone()),
                collector.get_connection_total_file_download(rec.name.clone()),
            ),
            Subject::RemoteAddress => (
                collector.get_remote_address_total_file_upload(rec.name.clone()),
                collector.get_remote_address_total_file_download(rec.name.clone()),
            ),
        };
        assert(records@[i as int].up + file_upload(points, records@[i as int].name@) <= u128::MAX);
        r.push(RateRecord { timestamp: rec.timestamp, name: rec.name.clone(), up: rec.up + up, down: rec.down + down });
        assert(with_file_totals(records@.take(i + 1), points) =~= with_file_totals(records@.take(i as int), points).push(plus_file_totals(records@[i as int], points)));
        i = i + 1;
    }
    assert(records@.take(i as int) =~= records@);
    r
}

fn process_lines_and_records(timestamp: i64, processes: &Vec<ProcessRow>, file_is_empty: bool) -> (r: (Vec<String>, Vec<RateRecord>))
    requires
        timestamp_in_range(timestamp as int),
    ensures
        r.0.deep_view() == with_header(process_header(), file_is_empty, processes@.map_values(|x: ProcessRow| process_line(timestamp, x))),
        r.1@ == process_records(timestamp, processes@),
        records_in_range(r.1@),
{
    let mut lines: Vec<String> = Vec::new();
    if file_is_empty {
        lines.push(String::from_str("timestamp,process_name,pid,bytes_uploaded,bytes_downloaded,connection_count"));
    }
    let ghost head = lines.deep_view();
    assert(head == (if file_is_empty { seq![process_header()] } else { Seq::<Seq<char>>::empty() }));
    let mut records: Vec<RateRecord> = Vec::new();
    let mut i: usize = 0;
    while i < processes.len()
        invariant
            timestamp_in_range(timestamp as int),
            i <= processes.len(),
            head == (if file_is_empty { seq![process_header()] } else { Seq::<Seq<char>>::empty() }),
            lines.deep_view() == head + processes@.take(i as int).map_values(|x: ProcessRow| process_line(timestamp, x)),
            records@ == process_records(timestamp, processes@.take(i as int)),
        decreases processes.len() - i,
    {
        let row = &processes[i];
        let ghost before = lines.deep_view();
        lines.push(process_line_text(timestamp, row));
        assert(lines.deep_view() =~= before.push(process_line(timestamp, *row)));
        assert(processes@.take(i + 1).map_values(|x: ProcessRow| process_line(timestamp, x))
            =~= processes@.take(i as int).map_values(|x: ProcessRow| process_line(timestamp, x)).push(process_line(timestamp, processes@[i as int])));
        records.push(RateRecord { timestamp, name: row.name.clone(), up: row.bytes_uploaded, down: row.bytes_downloaded });
        assert(records@ =~= process_records(timestamp, processes@.take(i + 1)));
        i = i + 1;
    }
    assert(processes@.take(i as int) =~= processes@);
    assert(lines.deep_view() =~= with_header(process_header(), file_is_empty, processes@.map_values(|x: ProcessRow| process_line(timestamp, x))));
    (lines, records)
}

fn connections_lines_and_records(timestamp: i64, connections: &Vec<ConnectionRow>, file_is_empty: bool) -> (r: (Vec<String>, Vec<RateRecord>))
    requires
        timestamp_in_range(timestamp as int),
    ensures
        r.0.deep_view() == with_header(connection_header(), file_is_empty, connections@.map_values(|x: ConnectionRow| connection_line(timestamp, x))),
        r.1@ == connection_records(timestamp, connections@),
        records_in_range(r.1@),
{
    let mut lines: Vec<String> = Vec::new();
    if file_is_empty {
        lines.push(String::from_str("timestamp,interface_name,local_socket_port,target_ip,remote_socket_port,local_socket_protocol,bytes_uploaded,bytes_downloaded,process_name"));
    }
    let ghost head = lines.deep_view();
    assert(head == (if file_is_empty { seq![connection_header()] } else { Seq::<Seq<char>>::empty() }));
    let mut records: Vec<RateRecord> = Vec::new();
    let mut i: usize = 0;
    while i < connections.len()
        invariant
            timestamp_in_range(timestamp as int),
            i <= connections.len(),
            head == (if file_is_empty { seq![connection_header()] } else { Seq::<Seq<char>>::empty() }),
            lines.deep_view() == head + connections@.take(i as int).map_values(|x: ConnectionRow| connection_line(timestamp, x)),
            records@ == connection_records(timestamp, connections@.take(i as int)),
        decreases connections.len() - i,
    {
        let row = &connections[i];
        let ghost before = lines.deep_view();
        lines.push(connection_line_text(timestamp, row));
        assert(lines.deep_view() =~= before.push(connection_line(timestamp, *row)));
        assert(connections@.take(i + 1).map_values(|x: ConnectionRow| connection_line(timestamp, x))
            =~= connections@.take(i as int).map_values(|x: ConnectionRow| connection_line(timestamp, x)).push(connection_line(timestamp, connections@[i as int])));
        records.push(RateRecord { timestamp, name: row.interface_name.clone(), up: row.bytes_uploaded, down: row.bytes_downloaded });
        assert(records@ =~= connection_records(timestamp, connections@.take(i + 1)));
        i = i + 1;
    }
    assert(connections@.take(i as int) =~= connections@);
    assert(lines.deep_view() =~= with_header(connection_header(), file_is_empty, connections@.map_values(|x: ConnectionRow| connection_line(timestamp, x))));
    (lines, records)
}

fn remote_addresses_lines_and_records(timestamp: i64, remote_addresses: &Vec<RemoteAddressRow>, file_is_empty: bool) -> (r: (Vec<String>, Vec<RateRecord>))
    requires
        timestamp_in_range(timestamp as int),
    ensures
        r.0.deep_view() == with_header(remote_address_header(), file_is_empty, remote_addresses@.map_values(|x: RemoteAddressRow| remote_address_line(timestamp, x))),
        r.1@ == remote_address_records(timestamp, remote_addresses@),
        records_in_range(r.1@),
{
    let mut lines: Vec<String> = Vec::new();
    if file_is_empty {
        lines.push(String::from_str("timestamp,remote_address,bytes_uploaded,bytes_downloaded,connections_count"));
    }
    let ghost head = lines.deep_view();
    assert(head == (if file_is_empty { seq![remote_address_header()] } else { Seq::<Seq<char>>::empty() }));
    let mut records: Vec<RateRecord> = Vec::new();
    let mut i: usize = 0;
    while i < remote_addresses.len()
        invariant
            timestamp_in_range(timestamp as int),
            i <= remote_addresses.len(),
            head == (if file_is_empty { seq![remote_address_header()] } else { Seq::<Seq<char>>::empty() }),
            lines.deep_view() == head + remote_addresses@.take(i as int).map_values(|x: RemoteAddressRow| remote_address_line(timestamp, x)),
            records@ == remote_address_records(timestamp, remote_addresses@.take(i as int)),
        decreases remote_addresses.len() - i,
    {
        let row = &remote_addresses[i];
        let ghost before = lines.deep_view();
        lines.push(remote_address_line_text(timestamp, row));
        assert(lines.deep_view() =~= before.push(remote_address_line(timestamp, *row)));
        assert(remote_addresses@.take(i + 1).map_values(|x: RemoteAddressRow| remote_address_line(timestamp, x))
            =~= remote_addresses@.take(i as int).map_values(|x: RemoteAddressRow| remote_address_line(timestamp, x)).push(remote_address_line(timestamp, remote_addresses@[i as int])));
        records.push(RateRecord { timestamp, name: row.address.clone(), up: row.bytes_uploaded, down: row.bytes_downloaded });
        assert(records@ =~= remote_address_records(timestamp, remote_addresses@.take(i + 1)));
        i = i + 1;
    }
    assert(remote_addresses@.take(i as int) =~= remote_addresses@);
    assert(lines.deep_view() =~= with_header(remote_address_header(), file_is_empty, remote_addresses@.map_values(|x: RemoteAddressRow| remote_address_line(timestamp, x))));
    (lines, records)
}

/// The lines of the process record file for the process rows `processes` at second
/// `timestamp` (the header first where the file is empty), after adding each
/// row's bytes to the process rates of `collector`.
pub fn output_process_data(
    collector: &mut DataCollector,
    timestamp: i64,
    processes: &Vec<ProcessRow>,
    file_is_empty: bool,
) -> (lines: Vec<String>)
    requires
        old(collector).wf(),
        timestamp_in_range(timestamp as int),
    ensures
        final(collector).wf(),
        lines.deep_view() == with_header(process_header(), file_is_empty, processes@.map_values(|r: ProcessRow| process_line(timestamp, r))),
        added_records(*old(collector), *final(collector), SeriesKind::ProcessRate, process_records(timestamp, processes@)),
{
    let (lines, records) = process_lines_and_records(timestamp, processes, file_is_empty);
    collector.load_rates(SeriesKind::ProcessRate, &records);
    lines
}

/// The lines of the process total record file for the process totals
/// `processes` at second `timestamp` (the header first where the file is
/// empty), after adding each row's bytes plus the totals last read from the
/// process totals file to the process totals of `collector`.
pub fn output_process_total_data(
    collector: &mut DataCollector,
    timestamp: i64,
    processes: &Vec<ProcessRow>,
    file_is_empty: bool,
) -> (lines: Vec<String>)
    requires
        old(collector).wf(),
        timestamp_in_range(timestamp as int),
        file_sums_fit(process_records(timestamp, processes@), old(collector).file_totals(Subject::Process)@),
    ensures
        final(collector).wf(),
        lines.deep_view() == with_header(process_header(), file_is_empty, processes@.map_values(|r: ProcessRow| process_line(timestamp, r))),
        added_records(
            *old(collector),
            *final(collector),
            SeriesKind::ProcessTotal,
            with_file_totals(process_records(timestamp, processes@), old(collector).file_totals(Subject::Process)@),
        ),
{
    let (lines, records) = process_lines_and_records(timestamp, processes, file_is_empty);
    let totals = add_file_totals(collector, Subject::Process, &records);
    collector.load_rates(SeriesKind::ProcessTotal, &totals);
    lines
}

/// The lines of the connection record file for the connection rows `connections` at second
/// `timestamp` (the header first where the file is empty), after adding each
/// row's bytes to the connection rates of `collector`.
pub fn output_connections_data(
    collector: &mut DataCollector,
    timestamp: i64,
    connections: &Vec<ConnectionRow>,
    file_is_empty: bool,
) -> (lines: Vec<String>)
    requires
        old(collector).wf(),
        timestamp_in_range(timestamp as int),
    ensures
        final(collector).wf(),
        lines.deep_view() == with_header(connection_header(), file_is_empty, connections@.map_values(|r: ConnectionRow| connection_line(timestamp, r))),
        added_records(*old(collector), *final(collector), SeriesKind::ConnectionRate, connection_records(timestamp, connections@)),
{
    let (lines, records) = connections_lines_and_records(timestamp, connections, file_is_empty);
    collector.load_rates(SeriesKind::ConnectionRate, &records);
    lines
}

/// The lines of the connection total record file for the connection totals
/// `connections` at second `timestamp` (the header first where the file is
/// empty), after adding each row's bytes plus the totals last read from the
/// connection totals file to the connection totals of `collector`.
pub fn output_connections_total_data(
    collector: &mut DataCollector,
    timestamp: i64,
    connections: &Vec<ConnectionRow>,
    file_is_empty: bool,
) -> (lines: Vec<String>)
    requires
        old(collector).wf(),
        timestamp_in_range(timestamp as int),
        file_sums_fit(connection_records(timestamp, connections@), old(collector).file_totals(Subject::Connection)@),
    ensures
        final(collector).wf(),
        lines.deep_view() == with_header(connection_header(), file_is_empty, connections@.map_values(|r: ConnectionRow| connection_line(timestamp, r))),
        added_records(
            *old(collector),
            *final(collector),
            SeriesKind::ConnectionTotal,
            with_file_totals(connection_records(timestamp, connections@), old(collector).file_totals(Subject::Connection)@),
        ),
{
    let (lines, records) = connections_lines_and_records(timestamp, connections, file_is_empty);
    let totals = add_file_totals(collector, Subject::Connection, &records);
    collector.load_rates(SeriesKind::ConnectionTotal, &totals);
    lines
}

/// The lines of the remote address record file for the remote address rows `remote_addresses` at second
/// `timestamp` (the header first where the file is empty), after adding each
/// row's bytes to the remote address rates of `collector`.
pub fn output_remote_addresses_data(
    collector: &mut DataCollector,
    timestamp: i64,
    remote_addresses: &Vec<RemoteAddressRow>,
    file_is_empty: bool,
) -> (lines: Vec<String>)
    requires
        old(collector).wf(),
        timestamp_in_range(timestamp as int),
    ensures
        final(collector).wf(),
        lines.deep_view() == with_header(remote_address_header(), file_is_empty, remote_addresses@.map_values(|r: RemoteAddressRow| remote_address_line(timestamp, r))),
        added_records(*old(collector), *final(collector), SeriesKind::RemoteAddressRate, remote_address_records(timestamp, remote_addresses@)),
{
    let (lines, records) = remote_addresses_lines_and_records(timestamp, remote_addresses, file_is_empty);
    collector.load_rates(SeriesKind::RemoteAddressRate, &records);
    lines
}

/// The lines of the remote address total record file for the remote address totals
/// `remote_addresses` at second `timestamp` (the header first where the file is
/// empty), after adding each row's bytes plus the totals last read from the
/// remote address totals file to the remote address totals of `collector`.
pub fn output_remote_addresses_total_data(
    collector: &mut DataCollector,
    timestamp: i64,
    remote_addresses: &Vec<RemoteAddressRow>,
    file_is_empty: bool,
) -> (lines: Vec<String>)
    requires
        old(collector).wf(),
        timestamp_in_range(timestamp as int),
        file_sums_fit(remote_address_records(timestamp, remote_addresses@), old(collector).file_totals(Subject::RemoteAddress)@),
    ensures
        final(collector).wf(),
        lines.deep_view() == with_header(remote_address_header(), file_is_empty, remote_addresses@.map_values(|r: RemoteAddressRow| remote_address_line(timestamp, r))),
        added_records(
            *old(collector),
            *final(collector),
            SeriesKind::RemoteAddressTotal,
            with_file_totals(remote_address_records(timestamp, remote_addresses@), old(collector).file_totals(Subject::RemoteAddress)@),
        ),
{
    let (lines, records) = remote_addresses_lines_and_records(timestamp, remote_addresses, file_is_empty);
    let totals = add_file_totals(collector, Subject::RemoteAddress, &records);
    collector.load_rates(SeriesKind::RemoteAddressTotal, &totals);
    lines
}


/// Which tables the user asked for; none means all.
#[derive(Clone, Copy, Debug)]
pub struct TableSelection {
    pub processes: bool,
    pub connections: bool,
    pub addresses: bool,
}

/// No table was asked for, so every table is shown.
pub open spec fn shows_all(sel: TableSelection) -> bool {
    !(sel.processes || sel.connections || sel.addresses)
}

/// The text mode line of a process at second `ts`.
pub open spec fn process_text(ts: i64, r: ProcessRow) -> Seq<char> {
    "process: <"@ + signed_decimal(ts as int) + "> \""@ + r.name@ + "\" up/down Bps: "@
        + decimal(r.bytes_uploaded as nat) + "/"@ + decimal(r.bytes_downloaded as nat) + " connections: "@
        + decimal(r.connection_count as nat)
}

/// The text mode line of a connection at second `ts`.
pub open spec fn connection_text(ts: i64, r: ConnectionRow) -> Seq<char> {
    "connection: <"@ + signed_decimal(ts as int) + "> "@ + r.display@ + " up/down Bps: "@
        + decimal(r.bytes_uploaded as nat) + "/"@ + decimal(r.bytes_downloaded as nat) + " process: \""@
        + r.process_name@ + "\""@
}

/// The text mode line of a remote address at second `ts`.
pub open spec fn remote_address_text(ts: i64, r: RemoteAddressRow) -> Seq<char> {
    "remote_address: <"@ + signed_decimal(ts as int) + "> "@ + r.address@ + " up/down Bps: "@
        + decimal(r.bytes_uploaded as nat) + "/"@ + decimal(r.bytes_downloaded as nat) + " connections: "@
        + decimal(r.connection_count as nat)
}

/// The traffic lines of one refresh in text mode: processes, connections,
/// remote addresses, each where asked for (all where none is).
pub open spec fn text_body(
    sel: TableSelection,
    ts: i64,
    processes: Seq<ProcessRow>,
    connections: Seq<ConnectionRow>,
    addresses: Seq<RemoteAddressRow>,
) -> Seq<Seq<char>> {
    (if sel.processes || shows_all(sel) { processes.map_values(|r: ProcessRow| process_text(ts, r)) } else { seq![] })
        + (if sel.connections || shows_all(sel) { connections.map_values(|r: ConnectionRow| connection_text(ts, r)) } else { seq![] })
        + (if sel.addresses || shows_all(sel) { addresses.map_values(|r: RemoteAddressRow| remote_address_text(ts, r)) } else { seq![] })
}

/// Everything one refresh writes in text mode: a header, the traffic lines
/// or "<NO TRAFFIC>" where there are none, and an empty line.
pub open spec fn text_output(
    sel: TableSelection,
    ts: i64,
    processes: Seq<ProcessRow>,
    connections: Seq<ConnectionRow>,
    addresses: Seq<RemoteAddressRow>,
) -> Seq<Seq<char>> {
    let body = text_body(sel, ts, processes, connections, addresses);
    seq!["Refreshing:"@] + body + (if body.len() == 0 { seq!["<NO TRAFFIC>"@] } else { seq![] }) + seq![""@]
}

fn append_decimal(s: &mut String, n: u128)
    ensures
        final(s)@ == old(s)@ + decimal(n as nat),
{
    let d = u128_to_decimal(n);
    s.append(d.as_str());
}

fn process_text_line(ts: i64, r: &ProcessRow) -> (s: String)
    ensures
        s@ == process_text(ts, *r),
{
    let mut s = String::from_str("process: <");
    let t = i64_to_decimal(ts);
    s.append(t.as_str());
    s.append("> \"");
    s.append(r.name.as_str());
    s.append("\" up/down Bps: ");
    append_decimal(&mut s, r.bytes_uploaded);
    s.append("/");
    append_decimal(&mut s, r.bytes_downloaded);
    s.append(" connections: ");
    append_decimal(&mut s, r.connection_count as u128);
    s
}

fn connection_text_line(ts: i64, r: &ConnectionRow) -> (s: String)
    ensures
        s@ == connection_text(ts, *r),
{
    let mut s = String::from_str("connection: <");
    let t = i64_to_decimal(ts);
    s.append(t.as_str());
    s.append("> ");
    s.append(r.display.as_str());
    s.append(" up/down Bps: ");
    append_decimal(&mut s, r.bytes_uploaded);
    s.append("/");
    append_decimal(&mut s, r.bytes_downloaded);
    s.append(" process: \"");
    s.append(r.process_name.as_str());
    s.append("\"");
    s
}

fn remote_address_text_line(ts: i64, r: &RemoteAddressRow) -> (s: String)
    ensures
        s@ == remote_address_text(ts, *r),
{
    let mut s = String::from_str("remote_address: <");
    let t = i64_to_decimal(ts);
    s.append(t.as_str());
    s.append("> ");
    s.append(r.address.as_str());
    s.append(" up/down Bps: ");
    append_decimal(&mut s, r.bytes_uploaded);
    s.append("/");
    append_decimal(&mut s, r.bytes_downloaded);
    s.append(" connections: ");
    append_decimal(&mut s, r.connection_count as u128);
    s
}

fn push_process_lines(lines: &mut Vec<String>, timestamp: i64, processes: &Vec<ProcessRow>)
    ensures
        final(lines).deep_view() == old(lines).deep_view() + processes@.map_values(|r: ProcessRow| process_text(timestamp, r)),
{
    let mut i: usize = 0;
    let ghost before = lines.deep_view();
    while i < processes.len()
        invariant
            i <= processes.len(),
            lines.deep_view() == before + processes@.take(i as int).map_values(|r: ProcessRow| process_text(timestamp, r)),
        decreases processes.len() - i,
    {
        let ghost prev = lines.deep_view();
        lines.push(process_text_line(timestamp, &processes[i]));
        assert(lines.deep_view() =~= prev.push(process_text(timestamp, processes@[i as int])));
        assert(processes@.take(i + 1).map_values(|r: ProcessRow| process_text(timestamp, r))
            =~= processes@.take(i as int).map_values(|r: ProcessRow| process_text(timestamp, r)).push(process_text(timestamp, processes@[i as int])));
        i = i + 1;
    }
    assert(processes@.take(i as int) =~= processes@);
}

fn push_connection_lines(lines: &mut Vec<String>, timestamp: i64, connections: &Vec<ConnectionRow>)
    ensures
        final(lines).deep_view() == old(lines).deep_view() + connections@.map_values(|r: ConnectionRow| connection_text(timestamp, r)),
{
    let mut i: usize = 0;
    let ghost before = lines.deep_view();
    while i < connections.len()
        invariant
            i <= connections.len(),
            lines.deep_view() == before + connections@.take(i as int).map_values(|r: ConnectionRow| connection_text(timestamp, r)),
        decreases connections.len() - i,
    {
        let ghost prev = lines.deep_view();
        lines.push(connection_text_line(timestamp, &connections[i]));
        assert(lines.deep_view() =~= prev.push(connection_text(timestamp, connections@[i as int])));
        assert(connections@.take(i + 1).map_values(|r: ConnectionRow| connection_text(timestamp, r))
            =~= connections@.take(i as int).map_values(|r: ConnectionRow| connection_text(timestamp, r)).push(connection_text(timestamp, connections@[i as int])));
        i = i + 1;
    }
    assert(connections@.take(i as int) =~= connections@);
}

fn push_remote_address_lines(lines: &mut Vec<String>, timestamp: i64, addresses: &Vec<RemoteAddressRow>)
    ensures
        final(lines).deep_view() == old(lines).deep_view() + addresses@.map_values(|r: RemoteAddressRow| remote_address_text(timestamp, r)),
{
    let mut i: usize = 0;
    let ghost before = lines.deep_view();
    while i < addresses.len()
        invariant
            i <= addresses.len(),
            lines.deep_view() == before + addresses@.take(i as int).map_values(|r: RemoteAddressRow| remote_address_text(timestamp, r)),
        decreases addresses.len() - i,
    {
        let ghost prev = lines.deep_view();
        lines.push(remote_address_text_line(timestamp, &addresses[i]));
        assert(lines.deep_view() =~= prev.push(remote_address_text(timestamp, addresses@[i as int])));
        assert(addresses@.take(i + 1).map_values(|r: RemoteAddressRow| remote_address_text(timestamp, r))
            =~= addresses@.take(i as int).map_values(|r: RemoteAddressRow| remote_address_text(timestamp, r)).push(remote_address_text(timestamp, addresses@[i as int])));
        i = i + 1;
    }
    assert(addresses@.take(i as int) =~= addresses@);
}

/// What one refresh writes in text mode at second `timestamp`.
pub fn output_text(
    sel: TableSelection,
    timestamp: i64,
    processes: &Vec<ProcessRow>,
    connections: &Vec<ConnectionRow>,
    addresses: &Vec<RemoteAddressRow>,
) -> (lines: Vec<String>)
    ensures
        lines.deep_view() == text_output(sel, timestamp, processes@, connections@, addresses@),
{
    let mut lines: Vec<String> = Vec::new();
    lines.push(String::from_str("Refreshing:"));
    let ghost head = lines.deep_view();
    let all = !(sel.processes || sel.connections || sel.addresses);
    if sel.processes || all {
        push_process_lines(&mut lines, timestamp, processes);
    }
    if sel.connections || all {
        push_connection_lines(&mut lines, timestamp, connections);
    }
    if sel.addresses || all {
        push_remote_address_lines(&mut lines, timestamp, addresses);
    }
    let ghost body = text_body(sel, timestamp, processes@, connections@, addresses@);
    assert(lines.deep_view() =~= head + body);
    assert(head.len() == 1);
    let ghost with_body = lines.deep_view();
    if lines.len() == 1 {
        lines.push(String::from_str("<NO TRAFFIC>"));
        assert(lines.deep_view() =~= with_body + seq!["<NO TRAFFIC>"@]);
    } else {
        assert(body.len() > 0);
    }
    let ghost before_footer = lines.deep_view();
    lines.push(String::from_str(""));
    assert(lines.deep_view() =~= before_footer + seq![""@]);
    assert(lines.deep_view() =~= text_output(sel, timestamp, processes@, connections@, addresses@));
    lines
}


/// The traffic of `r` exceeds `threshold` kilobytes.
pub open spec fn exceeds(r: ProcessRow, threshold: u64) -> bool {
    r.bytes_downloaded + r.bytes_uploaded > threshold * 1024
}

/// The alert printed for the process `pid`.
pub open spec fn alert_text(pid: u32, threshold: u64) -> Seq<char> {
    "Alert: Process with PID: "@ + decimal(pid as nat) + " has exceeded the bandwidth threshold of "@
        + decimal(threshold as nat) + " kilobytes"@
}

/// The alerts for the process totals `rows`: one for each process whose
/// traffic exceeds `threshold` kilobytes, in order.
pub open spec fn alerts(rows: Seq<ProcessRow>, threshold: u64) -> Seq<Seq<char>>
    decreases rows.len(),
{
    if rows.len() == 0 {
        seq![]
    } else {
        alerts(rows.drop_last(), threshold) + if exceeds(rows.last(), threshold) {
            seq![alert_text(rows.last().pid, threshold)]
        } else {
            seq![]
        }
    }
}

/// The alerts for the process totals `processes_total` against `threshold`
/// kilobytes.
pub fn check_alerts(processes_total: &Vec<ProcessRow>, threshold: u64) -> (lines: Vec<String>)
    requires
        threshold * 1024 <= u64::MAX,
        forall|i: int| 0 <= i < processes_total.len() ==>
            #[trigger] processes_total@[i].bytes_downloaded + processes_total@[i].bytes_uploaded <= u128::MAX,
    ensures
        lines.deep_view() == alerts(processes_total@, threshold),
{
    let threshold_bytes: u64 = threshold * 1024;
    let mut lines: Vec<String> = Vec::new();
    let mut i: usize = 0;
    while i < processes_total.len()
        invariant
            i <= processes_total.len(),
            threshold_bytes == threshold * 1024,
            forall|i: int| 0 <= i < processes_total.len() ==>
                #[trigger] processes_total@[i].bytes_downloaded + processes_total@[i].bytes_uploaded <= u128::MAX,
            lines.deep_view() == alerts(processes_total@.take(i as int), threshold),
        decreases processes_total.len() - i,
    {
        let r = &processes_total[i];
        assert(processes_total@[i as int].bytes_downloaded + processes_total@[i as int].bytes_uploaded <= u128::MAX);
        let total_bandwidth: u128 = r.bytes_downloaded + r.bytes_uploaded;
        let ghost before = lines.deep_view();
        let ghost t = processes_total@.take(i + 1);
        assert(t.drop_last() =~= processes_total@.take(i as int));
        assert(t.last() == processes_total@[i as int]);
        if total_bandwidth > threshold_bytes as u128 {
            let mut line = String::from_str("Alert: Process with PID: ");
            append_decimal(&mut line, r.pid as u128);
            line.append(" has exceeded the bandwidth threshold of ");
            append_decimal(&mut line, threshold as u128);
            line.append(" kilobytes");
            lines.push(line);
            assert(lines.deep_view() =~= before + seq![alert_text(r.pid, threshold)]);
        } else {
            assert(before + Seq::<Seq<char>>::empty() =~= before);
        }
        i = i + 1;
    }
    assert(processes_total@.take(i as int) =~= processes_total@);
    lines
}

/// A table the terminal view shows.
#[derive(Clone, Copy, Debug, PartialEq, Eq)]
pub enum TableKind {
    Processes,
    RemoteAddresses,
    Connections,
}

/// The tables shown for `sel`: processes, remote addresses, connections,
/// each where asked for, and all three where none is.
pub open spec fn tables_spec(sel: TableSelection) -> Seq<TableKind> {
    if shows_all(sel) {
        seq![TableKind::Processes, TableKind::RemoteAddresses, TableKind::Connections]
    } else {
        (if sel.processes { seq![TableKind::Processes] } else { seq![] })
            + (if sel.addresses { seq![TableKind::RemoteAddresses] } else { seq![] })
            + (if sel.connections { seq![TableKind::Connections] } else { seq![] })
    }
}

/// The tables the terminal view shows for `sel`, in order.
pub fn get_tables_to_display(sel: TableSelection) -> (tables: Vec<TableKind>)
    ensures
        tables@ == tables_spec(sel),
{
    let mut children: Vec<TableKind> = Vec::new();
    if sel.processes {
        children.push(TableKind::Processes);
    }
    if sel.addresses {
        children.push(TableKind::RemoteAddresses);
    }
    if sel.connections {
        children.push(TableKind::Connections);
    }
    if !(sel.processes || sel.addresses || sel.connections) {
        children = vec![TableKind::Processes, TableKind::RemoteAddresses, TableKind::Connections];
    }
    assert(children@ =~= tables_spec(sel));
    children
}

/// How many tables the terminal view shows for `sel`.
pub fn get_table_count(sel: TableSelection) -> (n: usize)
    ensures
        n == tables_spec(sel).len(),
{
    get_tables_to_display(sel).len()
}

/// An event of the terminal, as the monitor tells them apart.
#[derive(Clone, Copy, Debug, PartialEq, Eq)]
pub enum TerminalEvent {
    /// The terminal was resized.
    Resize,
    /// Ctrl-C or `q` was pressed.
    Quit,
    /// The space bar was pressed.
    TogglePause,
    /// Tab was pressed.
    Tab,
    /// Anything else.
    Other,
}

/// What the monitor does on a terminal event.
#[derive(Clone, Copy, Debug, PartialEq, Eq)]
pub enum EventAction {
    /// Draw the view again.
    Redraw,
    /// Stop running, restore the terminal and stop reading events.
    Stop,
    /// Leave the pause: count time from now on.
    Resume,
    /// Pause: add the time since the last start to the elapsed time.
    Pause,
    /// Move the view to this table offset and draw it.
    ShowTable(usize),
    /// Nothing.
    Ignore,
}

/// The action for `event` when the view is paused or not, in raw (text)
/// mode or not, at table offset `ui_offset` of `table_count` tables. The
/// offset moves by `1 % table_count`, as the monitor computes it.
pub open spec fn event_action(event: TerminalEvent, raw_mode: bool, paused: bool, ui_offset: usize, table_count: usize) -> EventAction {
    match event {
        TerminalEvent::Resize => if raw_mode { EventAction::Ignore } else { EventAction::Redraw },
        TerminalEvent::Quit => EventAction::Stop,
        TerminalEvent::TogglePause => if paused { EventAction::Resume } else { EventAction::Pause },
        TerminalEvent::Tab => EventAction::ShowTable((ui_offset + 1int % (table_count as int)) as usize),
        TerminalEvent::Other => EventAction::Ignore,
    }
}

/// Decides what the monitor does on a terminal event.
pub fn handle_terminal_event(event: TerminalEvent, raw_mode: bool, paused: bool, ui_offset: usize, table_count: usize) -> (a: EventAction)
    requires
        table_count > 0,
        ui_offset + 1int % (table_count as int) <= usize::MAX,
    ensures
        a == event_action(event, raw_mode, paused, ui_offset, table_count),
{
    match event {
        TerminalEvent::Resize => if raw_mode { EventAction::Ignore } else { EventAction::Redraw },
        TerminalEvent::Quit => EventAction::Stop,
        TerminalEvent::TogglePause => if paused { EventAction::Resume } else { EventAction::Pause },
        TerminalEvent::Tab => {
            assert(1usize % table_count == 1int % (table_count as int));
            EventAction::ShowTable(ui_offset + 1 % table_count)
        },
        TerminalEvent::Other => EventAction::Ignore,
    }
}

/// The pause state and table offset after one terminal event: a pause or
/// a resume sets the pause state, a new table offset replaces the old one,
/// and every other action leaves both as they were.
pub open spec fn after_event(view: (bool, usize), event: TerminalEvent, raw_mode: bool, table_count: usize) -> (bool, usize) {
    match event_action(event, raw_mode, view.0, view.1, table_count) {
        EventAction::Pause => (true, view.1),
        EventAction::Resume => (false, view.1),
        EventAction::ShowTable(offset) => (view.0, offset),
        _ => view,
    }
}

/// The pause state and table offset after the terminal events `events`, in
/// order, from the start of a run (not paused, at the first table).
pub open spec fn view_after(events: Seq<TerminalEvent>, raw_mode: bool, table_count: usize) -> (bool, usize)
    decreases events.len(),
{
    if events.len() == 0 {
        (false, 0)
    } else {
        after_event(view_after(events.drop_last(), raw_mode, table_count), events.last(), raw_mode, table_count)
    }
}

/// How many of `events` are presses of `kind`.
pub open spec fn presses(events: Seq<TerminalEvent>, kind: TerminalEvent) -> nat
    decreases events.len(),
{
    if events.len() == 0 {
        0
    } else {
        presses(events.drop_last(), kind) + if events.last() == kind { 1nat } else { 0nat }
    }
}

/// What one refresh of the display does.
#[derive(Clone, Copy, Debug, PartialEq, Eq)]
pub struct RefreshPlan {
    /// Take in the traffic measured since the last refresh.
    pub update_state: bool,
    /// Print the bandwidth alerts.
    pub check_alerts: bool,
    /// Write the traffic as text.
    pub output_text: bool,
    /// Draw the terminal view, append to the record files and save the
    /// collected series.
    pub draw_and_record: bool,
}

/// What a refresh does when the view is paused or not, with the alert
/// threshold `alert_threshold`, in raw (text) mode or not.
pub open spec fn refresh_plan(paused: bool, alert_threshold: u64, raw_mode: bool) -> RefreshPlan {
    RefreshPlan {
        update_state: !paused,
        check_alerts: !paused && alert_threshold > 0,
        output_text: raw_mode,
        draw_and_record: !raw_mode,
    }
}

/// Decides what a refresh does: the traffic is taken in unless paused,
/// alerts are checked when taken in with a threshold above zero, text is
/// written in raw mode, and otherwise the view is drawn and recorded.
pub fn plan_refresh(paused: bool, alert_threshold: u64, raw_mode: bool) -> (p: RefreshPlan)
    ensures
        p == refresh_plan(paused, alert_threshold, raw_mode),
        p.update_state == !paused,
        p.check_alerts == (!paused && alert_threshold > 0),
        p.output_text == raw_mode,
        p.draw_and_record == !raw_mode,
{
    RefreshPlan {
        update_state: !paused,
        check_alerts: !paused && alert_threshold > 0,
        output_text: raw_mode,
        draw_and_record: !raw_mode,
    }
}


/// One step of a refresh of the display, in the order a refresh takes them.
#[derive(Clone, Copy, Debug, PartialEq, Eq)]
pub enum RefreshStep {
    /// Take in the traffic measured since the last refresh.
    TakeTraffic,
    /// Print the bandwidth alerts.
    CheckAlerts,
    /// Write the traffic as text.
    WriteText,
    /// Draw the terminal view.
    Draw,
    /// Append the traffic of the last refresh to the record file of this subject.
    WriteRates(Subject),
    /// Append the totals to the totals record file of this subject.
    WriteTotals(Subject),
    /// Save this store of series from ninety days back on.
    Save(SeriesKind),
}

/// The steps of a refresh when the view is paused or not, with the alert
/// threshold `alert_threshold`, in raw (text) mode or not: the traffic is
/// taken in unless paused, then the alerts checked where the threshold is
/// above zero; then in raw mode the text is written, and otherwise the view
/// is drawn, the three record files are appended to, then the three totals
/// record files, and the six stores are saved.
pub open spec fn refresh_steps_spec(paused: bool, alert_threshold: u64, raw_mode: bool) -> Seq<RefreshStep> {
    let take = if paused {
        Seq::<RefreshStep>::empty()
    } else if alert_threshold > 0 {
        seq![RefreshStep::TakeTraffic, RefreshStep::CheckAlerts]
    } else {
        seq![RefreshStep::TakeTraffic]
    };
    let show = if raw_mode {
        seq![RefreshStep::WriteText]
    } else {
        seq![
            RefreshStep::Draw,
            RefreshStep::WriteRates(Subject::Process),
            RefreshStep::WriteRates(Subject::Connection),
            RefreshStep::WriteRates(Subject::RemoteAddress),
            RefreshStep::WriteTotals(Subject::Process),
            RefreshStep::WriteTotals(Subject::Connection),
            RefreshStep::WriteTotals(Subject::RemoteAddress),
            RefreshStep::Save(SeriesKind::ProcessRate),
            RefreshStep::Save(SeriesKind::ConnectionRate),
            RefreshStep::Save(SeriesKind::RemoteAddressRate),
            RefreshStep::Save(SeriesKind::ProcessTotal),
            RefreshStep::Save(SeriesKind::ConnectionTotal),
            RefreshStep::Save(SeriesKind::RemoteAddressTotal),
        ]
    };
    take + show
}

/// The steps of one refresh of the display, in order.
pub fn refresh_steps(paused: bool, alert_threshold: u64, raw_mode: bool) -> (steps: Vec<RefreshStep>)
    ensures
        steps@ == refresh_steps_spec(paused, alert_threshold, raw_mode),
{
    let mut steps: Vec<RefreshStep> = Vec::new();
    if !paused {
        steps.push(RefreshStep::TakeTraffic);
        if alert_threshold > 0 {
            steps.push(RefreshStep::CheckAlerts);
        }
    }
    if raw_mode {
        steps.push(RefreshStep::WriteText);
    } else {
        steps.push(RefreshStep::Draw);
        steps.push(RefreshStep::WriteRates(Subject::Process));
        steps.push(RefreshStep::WriteRates(Subject::Connection));
        steps.push(RefreshStep::WriteRates(Subject::RemoteAddress));
        steps.push(RefreshStep::WriteTotals(Subject::Process));
        steps.push(RefreshStep::WriteTotals(Subject::Connection));
        steps.push(RefreshStep::WriteTotals(Subject::RemoteAddress));
        steps.push(RefreshStep::Save(SeriesKind::ProcessRate));
        steps.push(RefreshStep::Save(SeriesKind::ConnectionRate));
        steps.push(RefreshStep::Save(SeriesKind::RemoteAddressRate));
        steps.push(RefreshStep::Save(SeriesKind::ProcessTotal));
        steps.push(RefreshStep::Save(SeriesKind::ConnectionTotal));
        steps.push(RefreshStep::Save(SeriesKind::RemoteAddressTotal));
    }
    assert(steps@ =~= refresh_steps_spec(paused, alert_threshold, raw_mode));
    steps
}

fn file_sums_fit_check(collector: &DataCollector, subject: Subject, records: &Vec<RateRecord>) -> (ok: bool)
    requires
        collector.wf(),
    ensures
        ok == file_sums_fit(records@, collector.file_totals(subject)@),
{
    let ghost points = collector.file_totals(subject)@;
    let mut i: usize = 0;
    while i < records.len()
        invariant
            collector.wf(),
            points == collector.file_totals(subject)@,
            i <= records.len(),
            forall|j: int| 0 <= j < i ==> {
                &&& #[trigger] records@[j].up + file_upload(points, records@[j].name@) <= u128::MAX
                &&& records@[j].down + file_download(points, records@[j].name@) <= u128::MAX
            },
        decreases records.len() - i,
    {
        let rec = &records[i];
        let (up, down) = match subject {
            Subject::Process => (
                collector.get_process_total_file_upload(rec.name.clone()),
                collector.get_process_total_file_download(rec.name.clone()),
            ),
            Subject::Connection => (
                collector.get_connection_total_file_upload(rec.name.clone()),
                collector.get_connection_total_file_download(rec.name.clone()),
            ),
            Subject::RemoteAddress => (
                collector.get_remote_address_total_file_upload(rec.name.clone()),
                collector.get_remote_address_total_file_download(rec.name.clone()),
            ),
        };
        if rec.up > u128::MAX - up || rec.down > u128::MAX - down {
            return false;
        }
        i = i + 1;
    }
    true
}

/// Whether adding the process totals `processes` to the totals last read from
/// the process totals file stays within `u128`: the test to make before
/// `output_process_total_data`.
pub fn process_totals_fit(collector: &DataCollector, timestamp: i64, processes: &Vec<ProcessRow>) -> (ok: bool)
    requires
        collector.wf(),
        timestamp_in_range(timestamp as int),
    ensures
        ok == file_sums_fit(process_records(timestamp, processes@), collector.file_totals(Subject::Process)@),
{
    let (_, records) = process_lines_and_records(timestamp, processes, false);
    file_sums_fit_check(collector, Subject::Process, &records)
}

/// Whether adding the connection totals `connections` to the totals last read from
/// the connection totals file stays within `u128`: the test to make before
/// `output_connections_total_data`.
pub fn connections_totals_fit(collector: &DataCollector, timestamp: i64, connections: &Vec<ConnectionRow>) -> (ok: bool)
    requires
        collector.wf(),
        timestamp_in_range(timestamp as int),
    ensures
        ok == file_sums_fit(connection_records(timestamp, connections@), collector.file_totals(Subject::Connection)@),
{
    let (_, records) = connections_lines_and_records(timestamp, connections, false);
    file_sums_fit_check(collector, Subject::Connection, &records)
}

/// Whether adding the remote address totals `remote_addresses` to the totals last read from
/// the remote address totals file stays within `u128`: the test to make before
/// `output_remote_addresses_total_data`.
pub fn remote_addresses_totals_fit(collector: &DataCollector, timestamp: i64, remote_addresses: &Vec<RemoteAddressRow>) -> (ok: bool)
    requires
        collector.wf(),
        timestamp_in_range(timestamp as int),
    ensures
        ok == file_sums_fit(remote_address_records(timestamp, remote_addresses@), collector.file_totals(Subject::RemoteAddress)@),
{
    let (_, records) = remote_addresses_lines_and_records(timestamp, remote_addresses, false);
    file_sums_fit_check(collector, Subject::RemoteAddress, &records)
}

} // verus!
