//! Wall-clock readings, taken from `chrono`.

use vstd::prelude::*;
use chrono::Datelike;
use chrono::TimeZone;

verus! {

/// Calls `chrono::Utc::now().timestamp()`: the current time in seconds since
/// the Unix epoch. Nothing is claimed of the value.
#[verifier::external_body]
pub(crate) fn unix_now() -> (now: i64) {
    chrono::Utc::now().timestamp()
}

/// The whole minutes from now until the given time of today in the local
/// time zone, negative once that time has passed: `chrono::Local::now()`,
/// then `TimeZone::with_ymd_and_hms` on today's date, and
/// `DateTime::signed_duration_since` with `TimeDelta::num_minutes`. Nothing
/// where the numbers are no time of day, or where the local time zone has no
/// such time today or has it twice. Of the value nothing is claimed; of the
/// numbers only that an hour of 24 or more, or a minute or second of 60 or
/// more, is no time of day, for which `chrono` gives nothing.
#[verifier::external_body]
pub(crate) fn minutes_until(hour: u32, min: u32, sec: u32) -> (minutes: Option<i64>)
    ensures
        hour >= 24 || min >= 60 || sec >= 60 ==> minutes is None,
{
    let now = chrono::Local::now();
    match chrono::Local.with_ymd_and_hms(now.year(), now.month(), now.day(), hour, min, sec).single() {
        Some(then) => Some(then.signed_duration_since(now).num_minutes()),
        None => None,
    }
}

} // verus!
