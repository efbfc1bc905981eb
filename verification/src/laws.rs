//! Properties of the monitor that span its operations.

use vstd::prelude::*;
use crate::collector::{
    added_point, carry_after, file_download, file_points_after, file_upload, names_after,
    parse_rate_record_spec, point_of, rates_after, total_point, DataCollector, RateRecord,
    SeriesKind, Subject, CONNECTION_DOWN_COLUMN, CONNECTION_UP_COLUMN,
    REMOTE_ADDRESS_DOWN_COLUMN, REMOTE_ADDRESS_UP_COLUMN,
};
use crate::query::{query_rows, window_start_spec};
use crate::report::{
    added_records, refresh_steps_spec, RefreshStep, connection_records, remote_address_records, after_event, presses, refresh_plan,
    view_after, connection_fields, event_action, remote_address_fields, shows_all, tables_spec, text_body,
    text_output, ConnectionRow, EventAction, ProcessRow, RemoteAddressRow, TableSelection,
    TerminalEvent, process_text, connection_text, remote_address_text, alerts, alert_text,
};
use crate::series::{points_in, window, with_name, with_point, DataPoint};
use crate::text::{decimal, lemma_parse_i64_decimal, lemma_parse_u128_decimal};
use crate::throttling::{cleanup_steps, failure_message, ingress_limit_plan, FailureView, StepView};
use crate::time::{at_or_after, timestamp_in_range, Moment};

verus! {

/// A point just recorded is read back: the series it was recorded in then
/// holds it (a later point at the same second replaces an earlier one),
/// a window of that series holds it exactly when the window starts no later
/// than its second, and every other series is unchanged.
pub proof fn law_recorded_point_is_read_back(
    store: Map<Seq<char>, Map<i64, DataPoint>>,
    name: Seq<char>,
    ts: i64,
    dp: DataPoint,
    start: Moment,
    other: Seq<char>,
)
    ensures
        points_in(with_point(store, name, ts, dp), name)[ts] == dp,
        window(points_in(with_point(store, name, ts, dp), name), start).contains_key(ts) <==> at_or_after(ts, start),
        other != name ==> points_in(with_point(store, name, ts, dp), other) == points_in(store, other),
{
}

/// A point added to one of the collector's stores is read back from that
/// store's windows that start no later than it, and no other store changes.
pub proof fn law_collector_add_then_subset(
    before: DataCollector,
    after: DataCollector,
    kind: SeriesKind,
    name: Seq<char>,
    ts: i64,
    dp: DataPoint,
    start: Moment,
)
    requires
        added_point(before, after, kind, name, ts, dp),
    ensures
        window(after.series(kind).points_of(name), start).contains_key(ts) <==> at_or_after(ts, start),
        at_or_after(ts, start) ==> window(after.series(kind).points_of(name), start)[ts] == dp,
        forall|k: SeriesKind| k != kind ==> after.series(k) == before.series(k),
{
}

/// `a` is not later than `b`.
pub open spec fn not_later(a: Moment, b: Moment) -> bool {
    a.secs < b.secs || (a.secs == b.secs && a.nanos <= b.nanos)
}

/// A window that starts later holds only points of a window that starts
/// earlier, with the same values.
pub proof fn law_later_window_is_smaller(m: Map<i64, DataPoint>, early: Moment, late: Moment)
    requires
        not_later(early, late),
    ensures
        window(m, late).submap_of(window(m, early)),
{
}

proof fn lemma_rising_no_carry(records: Seq<RateRecord>, k: int)
    requires
        0 <= k <= records.len(),
        records.len() > 0 ==> records[0].up > 0 && records[0].down > 0,
        forall|i: int| 0 < i < records.len() ==> #[trigger] records[i].up > records[i - 1].up
            && records[i].down > records[i - 1].down,
    ensures
        carry_after(records.take(k)).2 == 0,
        carry_after(records.take(k)).3 == 0,
        k > 0 ==> carry_after(records.take(k)).0 == records[k - 1].up,
        k > 0 ==> carry_after(records.take(k)).1 == records[k - 1].down,
        k == 0 ==> carry_after(records.take(k)) == (0int, 0int, 0int, 0int),
    decreases k,
{
    if k > 0 {
        lemma_rising_no_carry(records, k - 1);
        assert(records.take(k).drop_last() =~= records.take(k - 1));
        assert(records.take(k).last() == records[k - 1]);
    } else {
        assert(records.take(0) =~= Seq::<RateRecord>::empty());
    }
}

/// Reading a totals file whose bytes up and down rise from record to record
/// (from above zero) carries nothing over: each record is stored as read.
pub proof fn law_rising_totals_are_stored_as_read(records: Seq<RateRecord>)
    requires
        records.len() > 0 ==> records[0].up > 0 && records[0].down > 0,
        forall|i: int| 0 < i < records.len() ==> #[trigger] records[i].up > records[i - 1].up
            && records[i].down > records[i - 1].down,
    ensures
        forall|i: int| 0 <= i < records.len() ==> #[trigger] total_point(records, i) == point_of(records[i]),
{
    assert forall|i: int| 0 <= i < records.len() implies #[trigger] total_point(records, i) == point_of(records[i]) by {
        lemma_rising_no_carry(records, i + 1);
    }
}

/// Where the bytes up or down of a totals file's record are not above the
/// previous record's (the counters restarted), that previous record's bytes
/// are carried: they are added to this record and the ones after it until
/// the next restart.
pub proof fn law_restart_carries_previous(records: Seq<RateRecord>, i: int)
    requires
        0 < i < records.len(),
        records[i].up <= records[i - 1].up || records[i].down <= records[i - 1].down,
        records[i].up + records[i - 1].up <= u128::MAX,
        records[i].down + records[i - 1].down <= u128::MAX,
    ensures
        total_point(records, i).value_up == records[i].up + records[i - 1].up,
        total_point(records, i).value_down == records[i].down + records[i - 1].down,
{
    let t = records.take(i + 1);
    assert(t.drop_last() =~= records.take(i));
    assert(t.last() == records[i]);
    if i == 1 {
        assert(records.take(1).drop_last() =~= Seq::<RateRecord>::empty());
        assert(records.take(1).last() == records[0]);
    } else {
        assert(records.take(i).drop_last() =~= records.take(i - 1));
        assert(records.take(i).last() == records[i - 1]);
    }
    let prev = carry_after(records.take(i));
    assert(prev.0 == records[i - 1].up);
    assert(prev.1 == records[i - 1].down);
    assert(carry_after(t).2 == prev.0);
    assert(carry_after(t).3 == prev.1);
}

/// After a totals file is read, the file totals of a name are the bytes of
/// the last record of that name.
pub proof fn law_file_totals_are_last_read(points: Map<Seq<char>, DataPoint>, records: Seq<RateRecord>, last: RateRecord)
    ensures
        file_upload(file_points_after(points, records.push(last)), last.name@) == last.up,
        file_download(file_points_after(points, records.push(last)), last.name@) == last.down,
{
    assert(records.push(last).drop_last() =~= records);
}

/// A line of the remote address record file reads back as the record it
/// was written from: its second, the address, bytes up and bytes down.
pub proof fn law_remote_address_line_reads_back(ts: i64, r: RemoteAddressRow)
    requires
        timestamp_in_range(ts as int),
    ensures
        parse_rate_record_spec(
            remote_address_fields(ts, r),
            REMOTE_ADDRESS_UP_COLUMN as int,
            REMOTE_ADDRESS_DOWN_COLUMN as int,
        ) == Some((ts, r.address@, r.bytes_uploaded, r.bytes_downloaded)),
{
    lemma_parse_i64_decimal(ts);
    lemma_parse_u128_decimal(r.bytes_uploaded);
    lemma_parse_u128_decimal(r.bytes_downloaded);
}

/// A line of the connection record file reads back as a record of the
/// connection's interface: its second, the interface name, bytes up and
/// bytes down.
pub proof fn law_connection_line_reads_back(ts: i64, r: ConnectionRow)
    requires
        timestamp_in_range(ts as int),
    ensures
        parse_rate_record_spec(
            connection_fields(ts, r),
            CONNECTION_UP_COLUMN as int,
            CONNECTION_DOWN_COLUMN as int,
        ) == Some((ts, r.interface_name@, r.bytes_uploaded, r.bytes_downloaded)),
{
    lemma_parse_i64_decimal(ts);
    lemma_parse_u128_decimal(r.bytes_uploaded);
    lemma_parse_u128_decimal(r.bytes_downloaded);
}

/// A query always answers at least one row.
pub proof fn law_query_never_empty(points: Map<i64, DataPoint>, start: Moment)
    ensures
        query_rows(points, start).len() >= 1,
{
}

/// A command that succeeds never stops its operation, and a command whose
/// failure is ignored never does either.
pub proof fn law_success_proceeds(on_failure: FailureView, success: bool, stderr: Seq<u8>)
    ensures
        failure_message(on_failure, true, stderr) is None,
        failure_message(FailureView::Ignore, success, stderr) is None,
{
}

proof fn lemma_cleanup_len(interfaces: Seq<Seq<char>>)
    ensures
        cleanup_steps(interfaces).len() == 2 * interfaces.len(),
    decreases interfaces.len(),
{
    if interfaces.len() > 0 {
        lemma_cleanup_len(interfaces.drop_last());
    }
}

/// Limiting the ingress runs two cleanup commands per interface of the
/// machine and four more.
pub proof fn law_ingress_plan_length(interface: Seq<char>, limit: nat, interfaces: Seq<Seq<char>>)
    ensures
        ingress_limit_plan(interface, limit, interfaces).len() == 2 * interfaces.len() + 4,
{
    lemma_cleanup_len(interfaces);
}

/// One refresh in text mode writes its traffic lines between a header and
/// an empty line, with "<NO TRAFFIC>" exactly where there is no traffic
/// line.
pub proof fn law_no_traffic_marker(
    sel: TableSelection,
    ts: i64,
    processes: Seq<ProcessRow>,
    connections: Seq<ConnectionRow>,
    addresses: Seq<RemoteAddressRow>,
)
    ensures
        ({
            let body = text_body(sel, ts, processes, connections, addresses);
            let out = text_output(sel, ts, processes, connections, addresses);
            &&& out[0] == "Refreshing:"@
            &&& out.last() == ""@
            &&& body.len() == 0 ==> out.len() == 3 && out[1] == "<NO TRAFFIC>"@
            &&& body.len() > 0 ==> out.len() == body.len() + 2 && out.subrange(1, out.len() - 1) == body
        }),
{
    let body = text_body(sel, ts, processes, connections, addresses);
    let out = text_output(sel, ts, processes, connections, addresses);
    if body.len() > 0 {
        assert(out.subrange(1, out.len() - 1) =~= body);
    }
}

/// The terminal view shows one to three tables, and all three where none
/// was asked for.
pub proof fn law_table_count(sel: TableSelection)
    ensures
        1 <= tables_spec(sel).len() <= 3,
        shows_all(sel) ==> tables_spec(sel).len() == 3,
{
}

/// Tab moves the view to the next table offset, except with a single table,
/// where it stays.
pub proof fn law_tab_offset(raw_mode: bool, paused: bool, ui_offset: usize, table_count: usize)
    requires
        table_count > 0,
        ui_offset + 1int % (table_count as int) <= usize::MAX,
    ensures
        table_count == 1 ==> event_action(TerminalEvent::Tab, raw_mode, paused, ui_offset, table_count)
            == EventAction::ShowTable(ui_offset),
        table_count > 1 ==> event_action(TerminalEvent::Tab, raw_mode, paused, ui_offset, table_count)
            == EventAction::ShowTable((ui_offset + 1) as usize),
{
    if table_count > 1 {
        assert(1int % (table_count as int) == 1) by (nonlinear_arith)
            requires
                table_count > 1,
        ;
    }
}

/// The point of the series `name` at second `ts` in `store`, if it has one.
pub open spec fn point_at(store: Map<Seq<char>, Map<i64, DataPoint>>, name: Seq<char>, ts: i64) -> Option<DataPoint> {
    if points_in(store, name).contains_key(ts) {
        Some(points_in(store, name)[ts])
    } else {
        None
    }
}

/// The point at `(name, ts)` once `records` are read into `store`: that of
/// the last record with this name and second, or the store's own where no
/// record has them.
pub open spec fn read_point(
    store: Map<Seq<char>, Map<i64, DataPoint>>,
    records: Seq<RateRecord>,
    name: Seq<char>,
    ts: i64,
) -> Option<DataPoint>
    decreases records.len(),
{
    if records.len() == 0 {
        point_at(store, name, ts)
    } else if records.last().name@ == name && records.last().timestamp == ts {
        Some(point_of(records.last()))
    } else {
        read_point(store, records.drop_last(), name, ts)
    }
}

/// Some record of `records` has the name `name` and the second `ts`.
pub open spec fn has_record(records: Seq<RateRecord>, name: Seq<char>, ts: i64) -> bool {
    exists|i: int| 0 <= i < records.len() && #[trigger] records[i].name@ == name && records[i].timestamp == ts
}

/// Some record of `records` has the name `name`.
pub open spec fn has_name(records: Seq<RateRecord>, name: Seq<char>) -> bool {
    exists|i: int| 0 <= i < records.len() && #[trigger] records[i].name@ == name
}

/// Reading records into a store: the last record of a name and second wins
/// there, a point no record has stays as it was, and the store has a
/// series for exactly the names it had and those of the records.
pub proof fn law_last_record_wins(
    store: Map<Seq<char>, Map<i64, DataPoint>>,
    records: Seq<RateRecord>,
    name: Seq<char>,
    ts: i64,
)
    ensures
        point_at(rates_after(store, records), name, ts) == read_point(store, records, name, ts),
        !has_record(records, name, ts) ==> read_point(store, records, name, ts) == point_at(store, name, ts),
        rates_after(store, records).contains_key(name) <==> (store.contains_key(name) || has_name(records, name)),
    decreases records.len(),
{
    if records.len() > 0 {
        let init = records.drop_last();
        law_last_record_wins(store, init, name, ts);
        if has_record(init, name, ts) {
            let i = choose|i: int| 0 <= i < init.len() && #[trigger] init[i].name@ == name && init[i].timestamp == ts;
            assert(records[i] == init[i]);
        }
        if !has_record(records, name, ts) {
            assert(!(records[records.len() - 1].name@ == name && records[records.len() - 1].timestamp == ts));
            assert forall|i: int| 0 <= i < init.len() && #[trigger] init[i].name@ == name implies init[i].timestamp != ts by {
                assert(records[i] == init[i]);
            }
        }
        if has_name(init, name) {
            let i = choose|i: int| 0 <= i < init.len() && #[trigger] init[i].name@ == name;
            assert(records[i] == init[i]);
        }
        if has_name(records, name) && !has_name(init, name) {
            let i = choose|i: int| 0 <= i < records.len() && #[trigger] records[i].name@ == name;
            if i < init.len() {
                assert(records[i] == init[i]);
            }
        }
        if has_record(records, name, ts) && !has_record(init, name, ts) {
            let i = choose|i: int| 0 <= i < records.len() && #[trigger] records[i].name@ == name && records[i].timestamp == ts;
            if i < init.len() {
                assert(records[i] == init[i]);
            }
        }
    }
}

/// Where some record has the name and second, the point read does not
/// depend on the store read into.
proof fn lemma_read_point_any_store(
    a: Map<Seq<char>, Map<i64, DataPoint>>,
    b: Map<Seq<char>, Map<i64, DataPoint>>,
    records: Seq<RateRecord>,
    name: Seq<char>,
    ts: i64,
)
    requires
        has_record(records, name, ts),
    ensures
        read_point(a, records, name, ts) == read_point(b, records, name, ts),
    decreases records.len(),
{
    let init = records.drop_last();
    if !(records.last().name@ == name && records.last().timestamp == ts) {
        let i = choose|i: int| 0 <= i < records.len() && #[trigger] records[i].name@ == name && records[i].timestamp == ts;
        assert(init[i] == records[i]);
        lemma_read_point_any_store(a, b, init, name, ts);
    }
}

/// The same records read into a store a second time change nothing: the
/// series and the list of names are those after the first time.
pub proof fn law_same_records_twice(
    store: Map<Seq<char>, Map<i64, DataPoint>>,
    names: Seq<Seq<char>>,
    records: Seq<RateRecord>,
)
    ensures
        rates_after(rates_after(store, records), records) == rates_after(store, records),
        names_after(names_after(names, records), records) == names_after(names, records),
{
    let once = rates_after(store, records);
    let twice = rates_after(once, records);
    assert forall|name: Seq<char>| #[trigger] twice.contains_key(name) <==> once.contains_key(name) by {
        law_last_record_wins(once, records, name, 0);
        law_last_record_wins(store, records, name, 0);
    }
    assert forall|name: Seq<char>| #[trigger] twice.contains_key(name) implies twice[name] =~= once[name] by {
        assert forall|ts: i64| #[trigger] twice[name].contains_key(ts) <==> once[name].contains_key(ts) by {
            lemma_same_point(store, records, name, ts);
        }
        assert forall|ts: i64| #[trigger] twice[name].contains_key(ts) implies twice[name][ts] == once[name][ts] by {
            lemma_same_point(store, records, name, ts);
        }
    }
    assert(twice =~= once);
    lemma_names_after_known(names_after(names, records), records, names);
}

proof fn lemma_same_point(
    store: Map<Seq<char>, Map<i64, DataPoint>>,
    records: Seq<RateRecord>,
    name: Seq<char>,
    ts: i64,
)
    ensures
        point_at(rates_after(rates_after(store, records), records), name, ts) == point_at(rates_after(store, records), name, ts),
{
    let once = rates_after(store, records);
    law_last_record_wins(once, records, name, ts);
    law_last_record_wins(store, records, name, ts);
    if has_record(records, name, ts) {
        lemma_read_point_any_store(once, store, records, name, ts);
    }
}

/// Every name of `records` is in `names_after(names, records)`, and reading
/// records whose names all are listed already leaves a list unchanged.
proof fn lemma_names_after_known(listed: Seq<Seq<char>>, records: Seq<RateRecord>, names: Seq<Seq<char>>)
    requires
        listed == names_after(names, records),
    ensures
        names_after(listed, records) == listed,
    decreases records.len(),
{
    lemma_names_after_holds(names, records);
    lemma_names_after_keeps(listed, records);
}

proof fn lemma_names_after_holds(names: Seq<Seq<char>>, records: Seq<RateRecord>)
    ensures
        forall|i: int| 0 <= i < records.len() ==> names_after(names, records).contains(#[trigger] records[i].name@),
        forall|n: Seq<char>| names.contains(n) ==> #[trigger] names_after(names, records).contains(n),
    decreases records.len(),
{
    if records.len() > 0 {
        let init = records.drop_last();
        lemma_names_after_holds(names, init);
        let before = names_after(names, init);
        let last = records.last().name@;
        assert(with_name(before, last).contains(last)) by {
            if !before.contains(last) {
                assert(before.push(last)[before.len() as int] == last);
            }
        }
        assert forall|n: Seq<char>| before.contains(n) implies #[trigger] with_name(before, last).contains(n) by {
            if !before.contains(last) {
                let j = choose|j: int| 0 <= j < before.len() && before[j] == n;
                assert(before.push(last)[j] == n);
            }
        }
        assert forall|i: int| 0 <= i < records.len() implies names_after(names, records).contains(#[trigger] records[i].name@) by {
            if i < init.len() {
                assert(init[i] == records[i]);
                assert(before.contains(init[i].name@));
            }
        }
    }
}

proof fn lemma_names_after_keeps(listed: Seq<Seq<char>>, records: Seq<RateRecord>)
    requires
        forall|i: int| 0 <= i < records.len() ==> listed.contains(#[trigger] records[i].name@),
    ensures
        names_after(listed, records) == listed,
    decreases records.len(),
{
    if records.len() > 0 {
        let init = records.drop_last();
        assert forall|i: int| 0 <= i < init.len() implies listed.contains(#[trigger] init[i].name@) by {
            assert(init[i] == records[i]);
        }
        lemma_names_after_keeps(listed, init);
        assert(listed.contains(records[records.len() - 1].name@));
    }
}

/// Writing the same totals a second time, at the same second and with the
/// totals last read from the file unchanged, leaves the collector's series,
/// their names and its file totals as the first write left them.
pub proof fn law_same_totals_written_twice(
    first: DataCollector,
    second: DataCollector,
    third: DataCollector,
    kind: SeriesKind,
    subject: Subject,
    records: Seq<RateRecord>,
)
    requires
        crate::report::added_records(first, second, kind, crate::report::with_file_totals(records, first.file_totals(subject)@)),
        crate::report::added_records(second, third, kind, crate::report::with_file_totals(records, second.file_totals(subject)@)),
    ensures
        forall|k: SeriesKind| #[trigger] third.series(k)@ == second.series(k)@,
        forall|k: SeriesKind| #[trigger] third.series(k).names() == second.series(k).names(),
        forall|s: Subject| #[trigger] third.file_totals(s) == second.file_totals(s),
{
    let written = crate::report::with_file_totals(records, first.file_totals(subject)@);
    law_same_records_twice(first.series(kind)@, first.series(kind).names(), written);
}

/// Reading records that agree with `records` on second, name and bytes
/// gives the same series and names as reading `records`.
proof fn lemma_agreeing_records(
    store: Map<Seq<char>, Map<i64, DataPoint>>,
    names: Seq<Seq<char>>,
    parsed: Seq<RateRecord>,
    records: Seq<RateRecord>,
)
    requires
        parsed.len() == records.len(),
        forall|j: int| 0 <= j < parsed.len() ==> #[trigger] same_record(parsed[j], records[j]),
    ensures
        rates_after(store, parsed) == rates_after(store, records),
        names_after(names, parsed) == names_after(names, records),
    decreases parsed.len(),
{
    if parsed.len() > 0 {
        let n = parsed.len() - 1;
        assert forall|j: int| 0 <= j < n implies #[trigger] same_record(parsed.drop_last()[j], records.drop_last()[j]) by {
            assert(same_record(parsed[j], records[j]));
        }
        lemma_agreeing_records(store, names, parsed.drop_last(), records.drop_last());
        assert(same_record(parsed[n], records[n]));
    }
}

/// `a` and `b` have the same second, name and bytes.
pub open spec fn same_record(a: RateRecord, b: RateRecord) -> bool {
    a.timestamp == b.timestamp && a.name@ == b.name@ && a.up == b.up && a.down == b.down
}

/// Reading `a` and then `b` is reading `a` followed by `b`.
proof fn lemma_read_in_two(
    store: Map<Seq<char>, Map<i64, DataPoint>>,
    names: Seq<Seq<char>>,
    a: Seq<RateRecord>,
    b: Seq<RateRecord>,
)
    ensures
        rates_after(store, a + b) == rates_after(rates_after(store, a), b),
        names_after(names, a + b) == names_after(names_after(names, a), b),
    decreases b.len(),
{
    if b.len() == 0 {
        assert(a + b =~= a);
    } else {
        assert((a + b).drop_last() =~= a + b.drop_last());
        assert((a + b).last() == b.last());
        lemma_read_in_two(store, names, a, b.drop_last());
    }
}

/// The records of the blocks `blocks`, one after another.
pub open spec fn all_records(blocks: Seq<Seq<RateRecord>>) -> Seq<RateRecord>
    decreases blocks.len(),
{
    if blocks.len() == 0 {
        seq![]
    } else {
        all_records(blocks.drop_last()) + blocks.last()
    }
}

/// The fields of the lines of a file, block after block.
pub open spec fn all_fields(blocks: Seq<Seq<Seq<Seq<char>>>>) -> Seq<Seq<Seq<char>>>
    decreases blocks.len(),
{
    if blocks.len() == 0 {
        seq![]
    } else {
        all_fields(blocks.drop_last()) + blocks.last()
    }
}

/// The collectors `written` are one after another the result of adding the
/// blocks of records `blocks` to the store `kind`.
pub open spec fn written_in_turn(written: Seq<DataCollector>, kind: SeriesKind, blocks: Seq<Seq<RateRecord>>) -> bool {
    &&& written.len() == blocks.len() + 1
    &&& forall|i: int| 0 <= i < blocks.len() ==> #[trigger] added_records(written[i], written[i + 1], kind, blocks[i])
}

/// After a run of writes, the store `kind` holds the records of all the
/// blocks read in order into the store the run started with.
proof fn lemma_written_in_turn(written: Seq<DataCollector>, kind: SeriesKind, blocks: Seq<Seq<RateRecord>>)
    requires
        written_in_turn(written, kind, blocks),
    ensures
        written.last().series(kind)@ == rates_after(written[0].series(kind)@, all_records(blocks)),
        written.last().series(kind).names() == names_after(written[0].series(kind).names(), all_records(blocks)),
        forall|s: Subject| #[trigger] written.last().file_totals(s) == written[0].file_totals(s),
    decreases blocks.len(),
{
    if blocks.len() > 0 {
        let n = blocks.len() - 1;
        let init = written.drop_last();
        assert forall|i: int| 0 <= i < blocks.drop_last().len() implies #[trigger] added_records(init[i], init[i + 1], kind, blocks.drop_last()[i]) by {
            assert(added_records(written[i], written[i + 1], kind, blocks[i]));
        }
        lemma_written_in_turn(init, kind, blocks.drop_last());
        assert(added_records(written[n], written[n + 1], kind, blocks[n]));
        lemma_read_in_two(written[0].series(kind)@, written[0].series(kind).names(), all_records(blocks.drop_last()), blocks.last());
    }
}

/// The record blocks that connection rows written in blocks give: each
/// block the rows written at one second.
pub open spec fn connection_blocks(blocks: Seq<(i64, Seq<ConnectionRow>)>) -> Seq<Seq<RateRecord>> {
    blocks.map_values(|b: (i64, Seq<ConnectionRow>)| connection_records(b.0, b.1))
}

/// The fields of the connection record file's lines for the rows written
/// in blocks.
pub open spec fn connection_file_fields(blocks: Seq<(i64, Seq<ConnectionRow>)>) -> Seq<Seq<Seq<char>>> {
    all_fields(blocks.map_values(|b: (i64, Seq<ConnectionRow>)| b.1.map_values(|r: ConnectionRow| connection_fields(b.0, r))))
}

/// The record blocks that remote address rows written in blocks give.
pub open spec fn remote_address_blocks(blocks: Seq<(i64, Seq<RemoteAddressRow>)>) -> Seq<Seq<RateRecord>> {
    blocks.map_values(|b: (i64, Seq<RemoteAddressRow>)| remote_address_records(b.0, b.1))
}

/// The fields of the remote address record file's lines for the rows
/// written in blocks.
pub open spec fn remote_address_file_fields(blocks: Seq<(i64, Seq<RemoteAddressRow>)>) -> Seq<Seq<Seq<char>>> {
    all_fields(blocks.map_values(|b: (i64, Seq<RemoteAddressRow>)| b.1.map_values(|r: RemoteAddressRow| remote_address_fields(b.0, r))))
}

proof fn lemma_connection_lines(blocks: Seq<(i64, Seq<ConnectionRow>)>)
    requires
        forall|i: int| 0 <= i < blocks.len() ==> timestamp_in_range(#[trigger] blocks[i].0 as int),
    ensures
        connection_file_fields(blocks).len() == all_records(connection_blocks(blocks)).len(),
        forall|j: int| 0 <= j < connection_file_fields(blocks).len() ==> {
            let r = all_records(connection_blocks(blocks))[j];
            parse_rate_record_spec(#[trigger] connection_file_fields(blocks)[j], CONNECTION_UP_COLUMN as int, CONNECTION_DOWN_COLUMN as int)
                == Some((r.timestamp, r.name@, r.up, r.down))
        },
    decreases blocks.len(),
{
    if blocks.len() > 0 {
        let init = blocks.drop_last();
        let (ts, rows) = blocks.last();
        assert(timestamp_in_range(blocks[blocks.len() - 1].0 as int));
        assert forall|i: int| 0 <= i < init.len() implies timestamp_in_range(#[trigger] init[i].0 as int) by {
            assert(init[i] == blocks[i]);
        }
        lemma_connection_lines(init);
        let f = |b: (i64, Seq<ConnectionRow>)| b.1.map_values(|r: ConnectionRow| connection_fields(b.0, r));
        assert(blocks.map_values(f).drop_last() =~= init.map_values(f));
        assert(connection_blocks(blocks).drop_last() =~= connection_blocks(init));
        let head_f = connection_file_fields(init);
        let head_r = all_records(connection_blocks(init));
        assert(connection_file_fields(blocks) == head_f + rows.map_values(|r: ConnectionRow| connection_fields(ts, r)));
        assert(all_records(connection_blocks(blocks)) == head_r + connection_records(ts, rows));
        assert forall|j: int| 0 <= j < connection_file_fields(blocks).len() implies {
            let r = all_records(connection_blocks(blocks))[j];
            parse_rate_record_spec(#[trigger] connection_file_fields(blocks)[j], CONNECTION_UP_COLUMN as int, CONNECTION_DOWN_COLUMN as int)
                == Some((r.timestamp, r.name@, r.up, r.down))
        } by {
            if j >= head_f.len() {
                let k = j - head_f.len();
                law_connection_line_reads_back(ts, rows[k]);
            }
        }
    }
}

proof fn lemma_remote_address_lines(blocks: Seq<(i64, Seq<RemoteAddressRow>)>)
    requires
        forall|i: int| 0 <= i < blocks.len() ==> timestamp_in_range(#[trigger] blocks[i].0 as int),
    ensures
        remote_address_file_fields(blocks).len() == all_records(remote_address_blocks(blocks)).len(),
        forall|j: int| 0 <= j < remote_address_file_fields(blocks).len() ==> {
            let r = all_records(remote_address_blocks(blocks))[j];
            parse_rate_record_spec(#[trigger] remote_address_file_fields(blocks)[j], REMOTE_ADDRESS_UP_COLUMN as int, REMOTE_ADDRESS_DOWN_COLUMN as int)
                == Some((r.timestamp, r.name@, r.up, r.down))
        },
    decreases blocks.len(),
{
    if blocks.len() > 0 {
        let init = blocks.drop_last();
        let (ts, rows) = blocks.last();
        assert(timestamp_in_range(blocks[blocks.len() - 1].0 as int));
        assert forall|i: int| 0 <= i < init.len() implies timestamp_in_range(#[trigger] init[i].0 as int) by {
            assert(init[i] == blocks[i]);
        }
        lemma_remote_address_lines(init);
        let f = |b: (i64, Seq<RemoteAddressRow>)| b.1.map_values(|r: RemoteAddressRow| remote_address_fields(b.0, r));
        assert(blocks.map_values(f).drop_last() =~= init.map_values(f));
        assert(remote_address_blocks(blocks).drop_last() =~= remote_address_blocks(init));
        let head_f = remote_address_file_fields(init);
        let head_r = all_records(remote_address_blocks(init));
        assert(remote_address_file_fields(blocks) == head_f + rows.map_values(|r: RemoteAddressRow| remote_address_fields(ts, r)));
        assert(all_records(remote_address_blocks(blocks)) == head_r + remote_address_records(ts, rows));
        assert forall|j: int| 0 <= j < remote_address_file_fields(blocks).len() implies {
            let r = all_records(remote_address_blocks(blocks))[j];
            parse_rate_record_spec(#[trigger] remote_address_file_fields(blocks)[j], REMOTE_ADDRESS_UP_COLUMN as int, REMOTE_ADDRESS_DOWN_COLUMN as int)
                == Some((r.timestamp, r.name@, r.up, r.down))
        } by {
            if j >= head_f.len() {
                let k = j - head_f.len();
                law_remote_address_line_reads_back(ts, rows[k]);
            }
        }
    }
}

/// A connection record file written by a run of writes reads back as that
/// run's connection rates: every line reads as the record it was written
/// from (the interface's name, its second, bytes up and down), and reading
/// the records the lines give, in file order, into the connection rates
/// the run started with gives the connection rates the run ended with,
/// the last line of an interface and second winning.
pub proof fn law_connection_file_reads_back(
    blocks: Seq<(i64, Seq<ConnectionRow>)>,
    written: Seq<DataCollector>,
    read: Seq<RateRecord>,
)
    requires
        forall|i: int| 0 <= i < blocks.len() ==> timestamp_in_range(#[trigger] blocks[i].0 as int),
        written_in_turn(written, SeriesKind::ConnectionRate, connection_blocks(blocks)),
        read.len() == connection_file_fields(blocks).len(),
        forall|j: int| 0 <= j < read.len() ==> parse_rate_record_spec(
            #[trigger] connection_file_fields(blocks)[j],
            CONNECTION_UP_COLUMN as int,
            CONNECTION_DOWN_COLUMN as int,
        ) == Some((read[j].timestamp, read[j].name@, read[j].up, read[j].down)),
    ensures
        forall|j: int| 0 <= j < read.len() ==> #[trigger] same_record(read[j], all_records(connection_blocks(blocks))[j]),
        rates_after(written[0].series(SeriesKind::ConnectionRate)@, read) == written.last().series(SeriesKind::ConnectionRate)@,
        names_after(written[0].series(SeriesKind::ConnectionRate).names(), read) == written.last().series(SeriesKind::ConnectionRate).names(),
{
    let records = all_records(connection_blocks(blocks));
    lemma_connection_lines(blocks);
    assert forall|j: int| 0 <= j < read.len() implies #[trigger] same_record(read[j], records[j]) by {
        assert(parse_rate_record_spec(connection_file_fields(blocks)[j], CONNECTION_UP_COLUMN as int, CONNECTION_DOWN_COLUMN as int)
            == Some((records[j].timestamp, records[j].name@, records[j].up, records[j].down)));
    }
    lemma_written_in_turn(written, SeriesKind::ConnectionRate, connection_blocks(blocks));
    lemma_agreeing_records(
        written[0].series(SeriesKind::ConnectionRate)@,
        written[0].series(SeriesKind::ConnectionRate).names(),
        read,
        records,
    );
}

/// A remote address record file written by a run of writes reads back as
/// that run's remote address rates: every line reads as the record it was
/// written from (the address, its second, bytes up and down), and reading
/// the records the lines give, in file order, into the remote address
/// rates the run started with gives those the run ended with, the last
/// line of an address and second winning.
pub proof fn law_remote_address_file_reads_back(
    blocks: Seq<(i64, Seq<RemoteAddressRow>)>,
    written: Seq<DataCollector>,
    read: Seq<RateRecord>,
)
    requires
        forall|i: int| 0 <= i < blocks.len() ==> timestamp_in_range(#[trigger] blocks[i].0 as int),
        written_in_turn(written, SeriesKind::RemoteAddressRate, remote_address_blocks(blocks)),
        read.len() == remote_address_file_fields(blocks).len(),
        forall|j: int| 0 <= j < read.len() ==> parse_rate_record_spec(
            #[trigger] remote_address_file_fields(blocks)[j],
            REMOTE_ADDRESS_UP_COLUMN as int,
            REMOTE_ADDRESS_DOWN_COLUMN as int,
        ) == Some((read[j].timestamp, read[j].name@, read[j].up, read[j].down)),
    ensures
        forall|j: int| 0 <= j < read.len() ==> #[trigger] same_record(read[j], all_records(remote_address_blocks(blocks))[j]),
        rates_after(written[0].series(SeriesKind::RemoteAddressRate)@, read) == written.last().series(SeriesKind::RemoteAddressRate)@,
        names_after(written[0].series(SeriesKind::RemoteAddressRate).names(), read) == written.last().series(SeriesKind::RemoteAddressRate).names(),
{
    let records = all_records(remote_address_blocks(blocks));
    lemma_remote_address_lines(blocks);
    assert forall|j: int| 0 <= j < read.len() implies #[trigger] same_record(read[j], records[j]) by {
        assert(parse_rate_record_spec(remote_address_file_fields(blocks)[j], REMOTE_ADDRESS_UP_COLUMN as int, REMOTE_ADDRESS_DOWN_COLUMN as int)
            == Some((records[j].timestamp, records[j].name@, records[j].up, records[j].down)));
    }
    lemma_written_in_turn(written, SeriesKind::RemoteAddressRate, remote_address_blocks(blocks));
    lemma_agreeing_records(
        written[0].series(SeriesKind::RemoteAddressRate)@,
        written[0].series(SeriesKind::RemoteAddressRate).names(),
        read,
        records,
    );
}

/// Bytes up of the last of `records` named `name`, or zero where none is.
pub open spec fn last_upload(records: Seq<RateRecord>, name: Seq<char>) -> u128
    decreases records.len(),
{
    if records.len() == 0 {
        0
    } else if records.last().name@ == name {
        records.last().up
    } else {
        last_upload(records.drop_last(), name)
    }
}

/// Bytes down of the last of `records` named `name`, or zero where none is.
pub open spec fn last_download(records: Seq<RateRecord>, name: Seq<char>) -> u128
    decreases records.len(),
{
    if records.len() == 0 {
        0
    } else if records.last().name@ == name {
        records.last().down
    } else {
        last_download(records.drop_last(), name)
    }
}

/// The collectors `cs` are one after another the result of single points
/// added by `add_*` calls: `adds[i]` is the store, name, second and point
/// of the call that leads from `cs[i]` to `cs[i + 1]`.
pub open spec fn added_in_turn(cs: Seq<DataCollector>, adds: Seq<(SeriesKind, Seq<char>, i64, DataPoint)>) -> bool {
    &&& cs.len() == adds.len() + 1
    &&& forall|i: int| 0 <= i < adds.len() ==> #[trigger] added_point(cs[i], cs[i + 1], adds[i].0, adds[i].1, adds[i].2, adds[i].3)
}

proof fn lemma_last_read(records: Seq<RateRecord>, name: Seq<char>)
    ensures
        file_upload(file_points_after(Map::empty(), records), name) == last_upload(records, name),
        file_download(file_points_after(Map::empty(), records), name) == last_download(records, name),
    decreases records.len(),
{
    if records.len() > 0 {
        lemma_last_read(records.drop_last(), name);
    }
}

/// The totals read from a totals file survive every later `add_*` call:
/// after a collector starts with the totals file of `subject` read as
/// `records` and then takes any run of added points, the file totals of a
/// name are still the bytes of the last record of that name, or zero where
/// no record has it.
pub proof fn law_file_totals_survive_adds(
    cs: Seq<DataCollector>,
    adds: Seq<(SeriesKind, Seq<char>, i64, DataPoint)>,
    subject: Subject,
    records: Seq<RateRecord>,
    name: Seq<char>,
)
    requires
        added_in_turn(cs, adds),
        cs[0].file_totals(subject)@ == file_points_after(Map::empty(), records),
    ensures
        forall|s: Subject| #[trigger] cs.last().file_totals(s) == cs[0].file_totals(s),
        file_upload(cs.last().file_totals(subject)@, name) == last_upload(records, name),
        file_download(cs.last().file_totals(subject)@, name) == last_download(records, name),
{
    lemma_adds_keep_file_totals(cs, adds);
    lemma_last_read(records, name);
}

proof fn lemma_adds_keep_file_totals(cs: Seq<DataCollector>, adds: Seq<(SeriesKind, Seq<char>, i64, DataPoint)>)
    requires
        added_in_turn(cs, adds),
    ensures
        forall|s: Subject| #[trigger] cs.last().file_totals(s) == cs[0].file_totals(s),
    decreases adds.len(),
{
    if adds.len() > 0 {
        let n = adds.len() - 1;
        let init = cs.drop_last();
        assert forall|i: int| 0 <= i < adds.drop_last().len() implies #[trigger] added_point(
            init[i], init[i + 1], adds.drop_last()[i].0, adds.drop_last()[i].1, adds.drop_last()[i].2, adds.drop_last()[i].3,
        ) by {
            assert(added_point(cs[i], cs[i + 1], adds[i].0, adds[i].1, adds[i].2, adds[i].3));
        }
        lemma_adds_keep_file_totals(init, adds.drop_last());
        assert(added_point(cs[n], cs[n + 1], adds[n].0, adds[n].1, adds[n].2, adds[n].3));
        assert(init.last() == cs[n] && init[0] == cs[0]);
        assert forall|s: Subject| #[trigger] cs.last().file_totals(s) == cs[0].file_totals(s) by {
            assert(init.last().file_totals(s) == init[0].file_totals(s));
        }
    }
}

/// Over a run of terminal events from the start: the view is paused
/// exactly when the space bar was pressed an odd number of times; each
/// refresh takes in the traffic measured since the last one exactly when
/// not paused (while paused it is dropped), checks alerts only then and
/// only with a threshold above zero, and either writes text (raw mode) or
/// draws and records (otherwise), never both. With a single table the
/// view stays at the first; with more, each Tab moves it one table on.
pub proof fn law_pause_follows_space_presses(
    events: Seq<TerminalEvent>,
    raw_mode: bool,
    table_count: usize,
    alert_threshold: u64,
)
    requires
        table_count > 0,
    ensures
        view_after(events, raw_mode, table_count).0 == (presses(events, TerminalEvent::TogglePause) % 2 == 1),
        ({
            let plan = refresh_plan(view_after(events, raw_mode, table_count).0, alert_threshold, raw_mode);
            &&& plan.update_state == (presses(events, TerminalEvent::TogglePause) % 2 == 0)
            &&& plan.check_alerts == (plan.update_state && alert_threshold > 0)
            &&& plan.output_text == raw_mode
            &&& plan.draw_and_record == !raw_mode
        }),
        ({
            let steps = refresh_steps_spec(view_after(events, raw_mode, table_count).0, alert_threshold, raw_mode);
            &&& presses(events, TerminalEvent::TogglePause) % 2 == 0 ==> steps[0] == RefreshStep::TakeTraffic
            &&& presses(events, TerminalEvent::TogglePause) % 2 == 1 ==> !steps.contains(RefreshStep::TakeTraffic)
                && !steps.contains(RefreshStep::CheckAlerts)
            &&& alert_threshold == 0 ==> !steps.contains(RefreshStep::CheckAlerts)
            &&& raw_mode ==> steps.last() == RefreshStep::WriteText && !steps.contains(RefreshStep::Draw)
            &&& !raw_mode ==> !steps.contains(RefreshStep::WriteText)
        }),
        table_count == 1 ==> view_after(events, raw_mode, table_count).1 == 0,
        table_count > 1 && presses(events, TerminalEvent::Tab) <= usize::MAX
            ==> view_after(events, raw_mode, table_count).1 == presses(events, TerminalEvent::Tab),
    decreases events.len(),
{
    lemma_refresh_steps(view_after(events, raw_mode, table_count).0, alert_threshold, raw_mode);
    if events.len() > 0 {
        let init = events.drop_last();
        law_pause_follows_space_presses(init, raw_mode, table_count, alert_threshold);
        if table_count == 1 {
            assert(1int % (table_count as int) == 0);
        }
        if table_count > 1 {
            assert(1int % (table_count as int) == 1) by (nonlinear_arith)
                requires
                    table_count > 1,
            ;
        }
    }
}

proof fn lemma_refresh_steps(paused: bool, alert_threshold: u64, raw_mode: bool)
    ensures
        ({
            let steps = refresh_steps_spec(paused, alert_threshold, raw_mode);
            &&& !paused ==> steps[0] == RefreshStep::TakeTraffic
            &&& paused ==> !steps.contains(RefreshStep::TakeTraffic) && !steps.contains(RefreshStep::CheckAlerts)
            &&& alert_threshold == 0 ==> !steps.contains(RefreshStep::CheckAlerts)
            &&& raw_mode ==> steps.last() == RefreshStep::WriteText && !steps.contains(RefreshStep::Draw)
            &&& !raw_mode ==> !steps.contains(RefreshStep::WriteText)
        }),
{
    let steps = refresh_steps_spec(paused, alert_threshold, raw_mode);
    if paused {
        assert forall|i: int| 0 <= i < steps.len() implies steps[i] != RefreshStep::TakeTraffic && steps[i] != RefreshStep::CheckAlerts by {}
    }
    if alert_threshold == 0 {
        assert forall|i: int| 0 <= i < steps.len() implies steps[i] != RefreshStep::CheckAlerts by {}
    }
    if raw_mode {
        assert forall|i: int| 0 <= i < steps.len() implies steps[i] != RefreshStep::Draw by {}
    } else {
        assert forall|i: int| 0 <= i < steps.len() implies steps[i] != RefreshStep::WriteText by {}
    }
}

/// In text mode a table asked for alone is the one shown: with only the
/// processes asked for, the traffic lines are the process lines, one per
/// process in order and each starting `process: <`; with only the
/// connections, the connection lines, each starting `connection: <`; with
/// only the remote addresses, the remote address lines, each starting
/// `remote_address: <`. With none asked for, all three follow one another.
pub proof fn law_text_shows_the_table_asked_for(
    ts: i64,
    processes: Seq<ProcessRow>,
    connections: Seq<ConnectionRow>,
    addresses: Seq<RemoteAddressRow>,
)
    ensures
        ({
            let body = text_body(TableSelection { processes: true, connections: false, addresses: false }, ts, processes, connections, addresses);
            &&& body.len() == processes.len()
            &&& forall|i: int| 0 <= i < body.len() ==> body[i] == process_text(ts, processes[i])
                && "process: <"@.is_prefix_of(#[trigger] body[i])
        }),
        ({
            let body = text_body(TableSelection { processes: false, connections: true, addresses: false }, ts, processes, connections, addresses);
            &&& body.len() == connections.len()
            &&& forall|i: int| 0 <= i < body.len() ==> body[i] == connection_text(ts, connections[i])
                && "connection: <"@.is_prefix_of(#[trigger] body[i])
        }),
        ({
            let body = text_body(TableSelection { processes: false, connections: false, addresses: true }, ts, processes, connections, addresses);
            &&& body.len() == addresses.len()
            &&& forall|i: int| 0 <= i < body.len() ==> body[i] == remote_address_text(ts, addresses[i])
                && "remote_address: <"@.is_prefix_of(#[trigger] body[i])
        }),
        text_body(TableSelection { processes: false, connections: false, addresses: false }, ts, processes, connections, addresses)
            == processes.map_values(|r: ProcessRow| process_text(ts, r))
                + connections.map_values(|r: ConnectionRow| connection_text(ts, r))
                + addresses.map_values(|r: RemoteAddressRow| remote_address_text(ts, r)),
{
    let p = TableSelection { processes: true, connections: false, addresses: false };
    let c = TableSelection { processes: false, connections: true, addresses: false };
    let a = TableSelection { processes: false, connections: false, addresses: true };
    let n = TableSelection { processes: false, connections: false, addresses: false };
    assert(text_body(p, ts, processes, connections, addresses) =~= processes.map_values(|r: ProcessRow| process_text(ts, r)));
    assert(text_body(c, ts, processes, connections, addresses) =~= connections.map_values(|r: ConnectionRow| connection_text(ts, r)));
    assert(text_body(a, ts, processes, connections, addresses) =~= addresses.map_values(|r: RemoteAddressRow| remote_address_text(ts, r)));
    assert forall|i: int| 0 <= i < processes.len() implies "process: <"@.is_prefix_of(#[trigger] process_text(ts, processes[i])) by {
        let line = process_text(ts, processes[i]);
        assert(line.subrange(0, "process: <"@.len() as int) =~= "process: <"@);
    }
    assert forall|i: int| 0 <= i < connections.len() implies "connection: <"@.is_prefix_of(#[trigger] connection_text(ts, connections[i])) by {
        let line = connection_text(ts, connections[i]);
        assert(line.subrange(0, "connection: <"@.len() as int) =~= "connection: <"@);
    }
    assert forall|i: int| 0 <= i < addresses.len() implies "remote_address: <"@.is_prefix_of(#[trigger] remote_address_text(ts, addresses[i])) by {
        let line = remote_address_text(ts, addresses[i]);
        assert(line.subrange(0, "remote_address: <"@.len() as int) =~= "remote_address: <"@);
    }
}

/// The process `r` with its bytes up and bytes down swapped.
pub open spec fn swapped(r: ProcessRow) -> ProcessRow {
    ProcessRow { bytes_uploaded: r.bytes_downloaded, bytes_downloaded: r.bytes_uploaded, ..r }
}

/// A process is alerted exactly when its bytes up plus its bytes down
/// exceed the threshold in kilobytes of 1024 bytes: alone it gives the one
/// alert that names its PID and the threshold exactly then, and none
/// otherwise. The alerts of two lists one after the other are those of the
/// first followed by those of the second, and swapping every process's
/// bytes up and down never changes the alerts.
pub proof fn law_alert_counts_both_directions(r: ProcessRow, rows: Seq<ProcessRow>, more: Seq<ProcessRow>, threshold: u64)
    ensures
        alerts(seq![r], threshold) == (if r.bytes_uploaded + r.bytes_downloaded > threshold * 1024 {
            seq!["Alert: Process with PID: "@ + decimal(r.pid as nat) + " has exceeded the bandwidth threshold of "@
                + decimal(threshold as nat) + " kilobytes"@]
        } else {
            seq![]
        }),
        alerts(rows + more, threshold) == alerts(rows, threshold) + alerts(more, threshold),
        alerts(rows.map_values(|x: ProcessRow| swapped(x)), threshold) == alerts(rows, threshold),
{
    assert(seq![r].drop_last() =~= Seq::<ProcessRow>::empty());
    assert(alerts(seq![r], threshold) =~= alerts(Seq::<ProcessRow>::empty(), threshold) + (if crate::report::exceeds(r, threshold) {
        seq![alert_text(r.pid, threshold)]
    } else {
        seq![]
    }));
    lemma_alerts_append(rows, more, threshold);
    lemma_alerts_swapped(rows, threshold);
}

proof fn lemma_alerts_append(rows: Seq<ProcessRow>, more: Seq<ProcessRow>, threshold: u64)
    ensures
        alerts(rows + more, threshold) == alerts(rows, threshold) + alerts(more, threshold),
    decreases more.len(),
{
    if more.len() == 0 {
        assert(rows + more =~= rows);
        assert(alerts(rows, threshold) + alerts(more, threshold) =~= alerts(rows, threshold));
    } else {
        lemma_alerts_append(rows, more.drop_last(), threshold);
        assert((rows + more).drop_last() =~= rows + more.drop_last());
        assert((rows + more).last() == more.last());
        let tail = if crate::report::exceeds(more.last(), threshold) { seq![alert_text(more.last().pid, threshold)] } else { Seq::<Seq<char>>::empty() };
        assert(alerts(rows + more, threshold) == alerts(rows + more.drop_last(), threshold) + tail);
        assert(alerts(more, threshold) == alerts(more.drop_last(), threshold) + tail);
        assert(alerts(rows, threshold) + alerts(more.drop_last(), threshold) + tail =~= alerts(rows, threshold) + (alerts(more.drop_last(), threshold) + tail));
    }
}

proof fn lemma_alerts_swapped(rows: Seq<ProcessRow>, threshold: u64)
    ensures
        alerts(rows.map_values(|x: ProcessRow| swapped(x)), threshold) == alerts(rows, threshold),
    decreases rows.len(),
{
    let sw = rows.map_values(|x: ProcessRow| swapped(x));
    if rows.len() > 0 {
        lemma_alerts_swapped(rows.drop_last(), threshold);
        assert(sw.drop_last() =~= rows.drop_last().map_values(|x: ProcessRow| swapped(x)));
        assert(sw.last() == swapped(rows.last()));
    } else {
        assert(sw.len() == 0);
    }
}

/// The command `sh -c script` with the given outcome.
pub open spec fn shell_step(script: Seq<char>, on_failure: FailureView) -> StepView {
    StepView { program: "sh"@, args: seq!["-c"@, script], on_failure }
}

proof fn lemma_cleanup_at(interfaces: Seq<Seq<char>>)
    ensures
        cleanup_steps(interfaces).len() == 2 * interfaces.len(),
        forall|k: int| 0 <= k < interfaces.len() ==> {
            &&& cleanup_steps(interfaces)[2 * k] == shell_step("sudo tc qdisc del dev "@ + #[trigger] interfaces[k] + " root"@, FailureView::Ignore)
            &&& cleanup_steps(interfaces)[2 * k + 1] == shell_step("sudo tc qdisc del dev "@ + interfaces[k] + " ingress"@, FailureView::Ignore)
        },
    decreases interfaces.len(),
{
    if interfaces.len() > 0 {
        let init = interfaces.drop_last();
        lemma_cleanup_at(init);
        assert forall|k: int| 0 <= k < interfaces.len() implies {
            &&& cleanup_steps(interfaces)[2 * k] == shell_step("sudo tc qdisc del dev "@ + #[trigger] interfaces[k] + " root"@, FailureView::Ignore)
            &&& cleanup_steps(interfaces)[2 * k + 1] == shell_step("sudo tc qdisc del dev "@ + interfaces[k] + " ingress"@, FailureView::Ignore)
        } by {
            if k < init.len() {
                assert(init[k] == interfaces[k]);
            }
        }
    }
}

/// Limiting the ingress of `interface` works on the interface asked for,
/// whatever interfaces the machine has: it loads the `ifb` module, clears
/// the root and ingress disciplines of each interface of the machine in
/// turn (ignoring failures), sets up `ifb0`, sends the ingress of
/// `interface` itself through `ifb0`, and limits `ifb0` to `limit` Mbit/s.
pub proof fn law_ingress_limit_works_on_the_interface(interface: Seq<char>, limit: nat, interfaces: Seq<Seq<char>>)
    ensures
        ({
            let plan = ingress_limit_plan(interface, limit, interfaces);
            let n = interfaces.len() as int;
            &&& plan.len() == 2 * n + 4
            &&& plan[0] == StepView {
                program: "sudo"@,
                args: seq!["modprobe"@, "ifb"@],
                on_failure: FailureView::Fail("Failed to load ifb module"@),
            }
            &&& forall|k: int| 0 <= k < n ==> {
                &&& plan[1 + 2 * k] == shell_step("sudo tc qdisc del dev "@ + #[trigger] interfaces[k] + " root"@, FailureView::Ignore)
                &&& plan[2 + 2 * k] == shell_step("sudo tc qdisc del dev "@ + interfaces[k] + " ingress"@, FailureView::Ignore)
            }
            &&& plan[2 * n + 1] == shell_step(
                "sudo ip link add ifb0 type ifb; sudo ip link set dev ifb0 up"@,
                FailureView::Fail("Failed to setup ifb0 device"@),
            )
            &&& plan[2 * n + 2] == shell_step(
                "sudo tc qdisc add dev "@ + interface + " handle ffff: ingress; sudo tc filter add dev "@ + interface
                    + " parent ffff: protocol ip u32 match u32 0 0 action mirred egress redirect dev ifb0"@,
                FailureView::Fail("Failed to redirect ingress traffic"@),
            )
            &&& plan[2 * n + 3] == shell_step(
                "sudo tc qdisc add dev ifb0 root handle 1: tbf rate "@ + decimal(limit) + "mbit burst 32kbit latency 400ms"@,
                FailureView::ReportStderrLossy("Failed to set ingress bandwidth limit: "@),
            )
        }),
{
    lemma_cleanup_at(interfaces);
}

/// What each terminal event does, whatever the pause state: outside raw
/// mode a resize draws the view again, paused or not, and in raw mode it
/// does nothing; quitting always stops; the space bar pauses a running
/// view and resumes a paused one; an unknown event does nothing. Of all
/// events only the space bar's action depends on whether the view is
/// paused.
pub proof fn law_events_whatever_the_pause(
    event: TerminalEvent,
    raw_mode: bool,
    paused: bool,
    ui_offset: usize,
    table_count: usize,
)
    ensures
        event_action(TerminalEvent::Resize, false, paused, ui_offset, table_count) == EventAction::Redraw,
        event_action(TerminalEvent::Resize, true, paused, ui_offset, table_count) == EventAction::Ignore,
        event_action(TerminalEvent::Quit, raw_mode, paused, ui_offset, table_count) == EventAction::Stop,
        event_action(TerminalEvent::Other, raw_mode, paused, ui_offset, table_count) == EventAction::Ignore,
        event_action(TerminalEvent::TogglePause, raw_mode, true, ui_offset, table_count) == EventAction::Resume,
        event_action(TerminalEvent::TogglePause, raw_mode, false, ui_offset, table_count) == EventAction::Pause,
        event != TerminalEvent::TogglePause ==> event_action(event, raw_mode, true, ui_offset, table_count)
            == event_action(event, raw_mode, false, ui_offset, table_count),
{
}

/// The period of a query counts back from the moment it is given: "Last
/// Week" starts exactly 604800 seconds (seven days) before it and "Last
/// Year" exactly 31536000 seconds (365 days) before it, at the same
/// fraction of a second (none where that passes the earliest
/// representable time); any other period starts at the Unix epoch. From a
/// moment not before the epoch, neither count passes that time.
pub proof fn law_period_counts_back_from_now(time: Seq<char>, now: Moment)
    requires
        now.valid(),
    ensures
        window_start_spec("Last Week"@, now) == (if now.secs - 604800 >= crate::time::MIN_TIMESTAMP {
            Some(Moment { secs: (now.secs - 604800) as i64, nanos: now.nanos })
        } else {
            None
        }),
        window_start_spec("Last Year"@, now) == (if now.secs - 31536000 >= crate::time::MIN_TIMESTAMP {
            Some(Moment { secs: (now.secs - 31536000) as i64, nanos: now.nanos })
        } else {
            None
        }),
        time != "Last Week"@ && time != "Last Year"@ ==> window_start_spec(time, now) == Some(Moment { secs: 0, nanos: 0 }),
        now.secs >= 0 ==> window_start_spec("Last Week"@, now) is Some && window_start_spec("Last Year"@, now) is Some,
{
    reveal_strlit("Last Week");
    reveal_strlit("Last Year");
    assert("Last Week"@ != "Last Year"@) by {
        assert("Last Week"@[5] != "Last Year"@[5]);
    }
}

} // verus!
