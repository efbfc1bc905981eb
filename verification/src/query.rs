//! The front end's query for the points of one series over a chosen period.

use vstd::prelude::*;
use crate::series::{listing_rows, point_rows, window, NamedSeries};
use crate::time::{minus_seconds, minus_seconds_spec, utc_now, Moment};

verus! {

/// Seconds in the default period of a query, thirty days.
pub const MONTH_SECONDS: u32 = 2_592_000;
/// Seconds in a year of 365 days.
pub const YEAR_SECONDS: u32 = 31_536_000;
/// Seconds in a week.
pub const WEEK_SECONDS: u32 = 604_800;

/// Where the period `time` starts when the clock reads `now`: a year or a
/// week back for "Last Year" and "Last Week", the Unix epoch for anything
/// else; `None` where going back passes the earliest representable time.
pub open spec fn window_start_spec(time: Seq<char>, now: Moment) -> Option<Moment> {
    if time == "Last Year"@ {
        minus_seconds_spec(now, YEAR_SECONDS as int)
    } else if time == "Last Week"@ {
        minus_seconds_spec(now, WEEK_SECONDS as int)
    } else {
        Some(Moment { secs: 0, nanos: 0 })
    }
}

/// The period `time` names one of the two periods counted back from now.
pub open spec fn counts_back(time: Seq<char>) -> bool {
    time == "Last Year"@ || time == "Last Week"@
}

/// The rows a query answers for the points `points` from `start` on: time,
/// bytes up, bytes down, in time order; a single row of "No data available"
/// where there is no point.
pub open spec fn query_rows(points: Map<i64, crate::series::DataPoint>, start: Moment) -> Seq<Seq<Seq<char>>> {
    let rows = listing_rows(None, window(points, start));
    if rows.len() == 0 {
        seq![seq!["No data available"@, "No data available"@, "No data available"@]]
    } else {
        rows
    }
}

/// Seconds of the period the monitor saves on each refresh, ninety days.
pub const SAVE_SECONDS: u32 = 7_776_000;

/// Where the saved period starts when the clock reads `now`: ninety days
/// back; `None` where that passes the earliest representable time.
pub fn save_window_start(now: Moment) -> (r: Option<Moment>)
    requires
        now.valid(),
    ensures
        r == minus_seconds_spec(now, SAVE_SECONDS as int),
{
    minus_seconds(now, SAVE_SECONDS)
}

/// Where the saved period starts, reading the clock: ninety days before
/// the time it reads. `None` where the clock cannot be read (it is set
/// before the Unix epoch, or past the latest representable time); a time
/// read is never before the epoch, so ninety days back from it is always
/// representable.
pub fn save_window_from_clock() -> (r: Option<Moment>)
    ensures
        r matches Some(start) ==> exists|now: Moment| #![trigger minus_seconds_spec(now, SAVE_SECONDS as int)]
            now.valid() && now.secs >= 0 && minus_seconds_spec(now, SAVE_SECONDS as int) == Some(start),
{
    match utc_now() {
        Some(now) => {
            let r = save_window_start(now);
            assert(minus_seconds_spec(now, SAVE_SECONDS as int) == r);
            r
        },
        None => None,
    }
}

/// Where the period `time` starts when the clock reads `now`.
pub fn window_start(time: &str, now: Moment) -> (r: Option<Moment>)
    requires
        now.valid(),
    ensures
        r == window_start_spec(time@, now),
{
    let t = String::from_str(time);
    if t == String::from_str("Last Year") {
        minus_seconds(now, YEAR_SECONDS)
    } else if t == String::from_str("Last Week") {
        minus_seconds(now, WEEK_SECONDS)
    } else {
        Some(Moment { secs: 0, nanos: 0 })
    }
}

/// The rows the query answers for the series `name` of `store` from `start` on.
pub fn rates_and_totals_rows(name: &str, start: Moment, store: &NamedSeries) -> (rows: Vec<Vec<String>>)
    requires
        store.wf(),
    ensures
        rows.deep_view() == query_rows(store.points_of(name@), start),
{
    let subset = store.subset(name, start);
    proof {
        store.lemma_wf();
    }
    let rows = point_rows(None, &subset);
    if rows.len() == 0 {
        let none = "No data available";
        let row = vec![String::from_str(none), String::from_str(none), String::from_str(none)];
        assert(row.deep_view() =~= seq!["No data available"@, "No data available"@, "No data available"@]);
        let rows = vec![row];
        assert(listing_rows(None, window(store.points_of(name@), start)).len() == 0);
        assert(rows.deep_view() =~= query_rows(store.points_of(name@), start));
        rows
    } else {
        rows
    }
}

/// Answers the front end's query for the series `name` of `store` over the
/// period `time`, reading the clock: the rows of the series from the start
/// of the period on. `None` where a reading of the clock fails (the clock is
/// set before the Unix epoch, or past the latest representable time); a
/// time read is never before the epoch, so counting the period back from it
/// never passes the earliest representable time.
pub fn get_rates_and_totals(name: &str, time: &str, store: &NamedSeries) -> (r: Option<Vec<Vec<String>>>)
    requires
        store.wf(),
    ensures
        r matches Some(rows) ==> exists|now: Moment| #![trigger window_start_spec(time@, now)]
            now.valid() && now.secs >= 0 && (window_start_spec(time@, now) matches Some(start)
            && rows.deep_view() == query_rows(store.points_of(name@), start)),
        !counts_back(time@) ==> (r matches Some(rows) ==> rows.deep_view() == query_rows(
            store.points_of(name@),
            Moment { secs: 0, nanos: 0 },
        )),
{
    let default_now = match utc_now() {
        Some(now) => now,
        None => return None,
    };
    if minus_seconds(default_now, MONTH_SECONDS).is_none() {
        return None;
    }
    let t = String::from_str(time);
    let now = if t == String::from_str("Last Year") || t == String::from_str("Last Week") {
        match utc_now() {
            Some(now) => now,
            None => return None,
        }
    } else {
        default_now
    };
    match window_start(time, now) {
        Some(start) => {
            let rows = rates_and_totals_rows(name, start, store);
            assert(window_start_spec(time@, now) matches Some(s) && s == start);
            Some(rows)
        },
        None => None,
    }
}

} // verus!
