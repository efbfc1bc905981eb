//! Points of UTC time as the monitor stores them, and the few calls into
//! `chrono` that the store needs.

use vstd::prelude::*;
use chrono::{DateTime, NaiveDateTime, Utc};
use std::time::{SystemTime, UNIX_EPOCH};

verus! {

/// The earliest whole second that `chrono` can represent as a
/// `DateTime<Utc>` (`DateTime::<Utc>::MIN_UTC`).
pub const MIN_TIMESTAMP: i64 = -8_334_601_228_800;

/// The latest whole second that `chrono` can represent as a
/// `DateTime<Utc>` (`DateTime::<Utc>::MAX_UTC`).
pub const MAX_TIMESTAMP: i64 = 8_210_266_876_799;

/// `secs` seconds after the Unix epoch is a time that `chrono` can represent.
pub open spec fn timestamp_in_range(secs: int) -> bool {
    MIN_TIMESTAMP <= secs <= MAX_TIMESTAMP
}

/// A point of UTC time: whole seconds since the Unix epoch and the
/// nanoseconds past that second, as a `chrono::DateTime<Utc>` holds it.
#[derive(Clone, Copy, Debug, PartialEq, Eq)]
pub struct Moment {
    pub secs: i64,
    pub nanos: u32,
}

impl Moment {
    /// A moment that `chrono` can represent, outside a leap second.
    pub open spec fn valid(self) -> bool {
        &&& timestamp_in_range(self.secs as int)
        &&& self.nanos < 1_000_000_000
    }
}

/// The whole second `ts` is not earlier than `start`: how a stored
/// timestamp compares with a `DateTime<Utc>` under `>=`.
pub open spec fn at_or_after(ts: i64, start: Moment) -> bool {
    ts > start.secs || (ts == start.secs && start.nanos == 0)
}

/// Compares the whole second `ts` with `start` as `>=` compares two
/// `DateTime<Utc>`.
pub fn is_at_or_after(ts: i64, start: Moment) -> (b: bool)
    ensures
        b == at_or_after(ts, start),
{
    ts > start.secs || (ts == start.secs && start.nanos == 0)
}

/// `m` moved back by `secs` whole seconds, as `DateTime<Utc> - Duration`
/// computes it; `None` where that subtraction overflows (and panics).
pub open spec fn minus_seconds_spec(m: Moment, secs: int) -> Option<Moment> {
    if m.secs - secs >= MIN_TIMESTAMP {
        Some(Moment { secs: (m.secs - secs) as i64, nanos: m.nanos })
    } else {
        None
    }
}

/// Moves `m` back by `secs` whole seconds; `None` where the result would lie
/// before the earliest representable time.
pub fn minus_seconds(m: Moment, secs: u32) -> (r: Option<Moment>)
    requires
        m.valid(),
    ensures
        r == minus_seconds_spec(m, secs as int),
{
    let back: i64 = m.secs - (secs as i64);
    if back >= MIN_TIMESTAMP {
        Some(Moment { secs: back, nanos: m.nanos })
    } else {
        None
    }
}

/// Whether `chrono::NaiveDateTime::from_timestamp_opt(secs, 0)` returns
/// `Some`. In the version used, that call goes through
/// `DateTime::from_timestamp`, which returns `None` exactly when the day
/// lies outside `NaiveDate::MIN ..= NaiveDate::MAX`; the contract states
/// that range in seconds, the timestamps of `DateTime::<Utc>::MIN_UTC` and
/// `MAX_UTC`.
#[verifier::external_body]
#[allow(deprecated)]
pub(crate) fn timestamp_is_representable(secs: i64) -> (ok: bool)
    ensures
        ok == timestamp_in_range(secs as int),
{
    NaiveDateTime::from_timestamp_opt(secs, 0).is_some()
}

/// The RFC 3339 text that `chrono` writes for the whole second `secs`
/// (`DateTime<Utc>::to_rfc3339`).
pub uninterp spec fn rfc3339_text(secs: i64) -> Seq<char>;

/// `DateTime<Utc>::to_rfc3339` of the whole second `secs`. The text is
/// named, not stated: the contract says only that it depends on `secs`
/// alone.
#[verifier::external_body]
#[allow(deprecated)]
pub(crate) fn rfc3339(secs: i64) -> (s: String)
    requires
        timestamp_in_range(secs as int),
    ensures
        s@ == rfc3339_text(secs),
{
    DateTime::<Utc>::from_naive_utc_and_offset(NaiveDateTime::from_timestamp_opt(secs, 0).unwrap(), Utc)
        .to_rfc3339()
}

/// The current time as `chrono::Utc::now()` reads it: the system clock's
/// duration since the Unix epoch (`SystemTime::duration_since(UNIX_EPOCH)`),
/// made a `DateTime<Utc>` with `DateTime::from_timestamp`. Where
/// `Utc::now()` would panic, this gives `None`: a clock set before the
/// epoch (the duration is an error), or seconds `chrono` cannot represent
/// (`from_timestamp` gives `None`). What it returns otherwise is
/// representable, not before the epoch, and its nanoseconds, taken from
/// `Duration::subsec_nanos`, are below one second; which time it is, is the
/// clock's.
#[verifier::external_body]
pub(crate) fn utc_now() -> (m: Option<Moment>)
    ensures
        m matches Some(t) ==> t.valid() && t.secs >= 0,
{
    let since = SystemTime::now().duration_since(UNIX_EPOCH).ok()?;
    let secs = i64::try_from(since.as_secs()).ok()?;
    let now = DateTime::<Utc>::from_timestamp(secs, since.subsec_nanos())?;
    Some(Moment { secs: now.timestamp(), nanos: now.timestamp_subsec_nanos() })
}

} // verus!
