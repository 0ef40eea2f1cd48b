//! Time-zone and calendar computations taken from chrono and chrono-tz.
//!
//! Each result is named by a specification function whose value on given
//! arguments is left to those crates.

use chrono::{Datelike, Timelike};
use vstd::prelude::*;
use crate::calendar::{CivilDate, LocalClock, date_lt, day_number};

verus! {

/// The UTC calendar date of an instant given in milliseconds since the epoch.
pub uninterp spec fn utc_date_of(millis: int) -> Option<CivilDate>;

/// The local date and hour of an instant in a named IANA time zone.
pub uninterp spec fn local_clock_of(zone: Seq<char>, millis: int) -> Option<LocalClock>;

/// The instant that an RFC 3339 text denotes, in milliseconds since the epoch.
pub uninterp spec fn rfc3339_millis(text: Seq<char>) -> Option<i64>;

/// Relies on chrono's `DateTime::from_timestamp_millis` and `date_naive`:
/// the UTC date of the instant, `None` when chrono cannot represent it.
#[verifier::external_body]
pub(crate) fn utc_date_from_millis(millis: i64) -> (r: Option<CivilDate>)
    ensures
        r == utc_date_of(millis as int),
{
    let d = chrono::DateTime::from_timestamp_millis(millis)?.date_naive();
    Some(CivilDate { year: d.year(), month: d.month(), day: d.day() })
}

/// Relies on chrono-tz's `Tz::from_str` (lookup of an IANA zone name) and on
/// chrono's `DateTime::from_timestamp_millis` and `with_timezone`: the local
/// date and hour of the instant in that zone, `None` when the name is unknown
/// or the instant cannot be represented. chrono's hour runs from 0 to 23.
#[verifier::external_body]
pub(crate) fn local_clock_at(zone: &str, millis: i64) -> (r: Option<LocalClock>)
    ensures
        r == local_clock_of(zone@, millis as int),
        r matches Some(c) ==> c.hour < 24,
{
    let tz: chrono_tz::Tz = zone.parse().ok()?;
    let l = chrono::DateTime::from_timestamp_millis(millis)?.with_timezone(&tz);
    let date = CivilDate { year: l.year(), month: l.month(), day: l.day() };
    Some(LocalClock { date, hour: l.hour() })
}

/// Relies on chrono's `NaiveDate::from_ymd_opt`, `NaiveDate - NaiveDate`
/// (`signed_duration_since`) and `TimeDelta::num_days`: the signed number of
/// days from `earlier` to `later` in the proleptic Gregorian calendar, zero
/// exactly for the same date and positive exactly when `later` comes after
/// `earlier`.
#[verifier::external_body]
pub(crate) fn days_from_to(later: &CivilDate, earlier: &CivilDate) -> (r: i64)
    requires
        later.is_valid(),
        earlier.is_valid(),
    ensures
        r == day_number(*later) - day_number(*earlier),
        (r == 0) == (*later == *earlier),
        (r > 0) == date_lt(*earlier, *later),
{
    let a = chrono::NaiveDate::from_ymd_opt(later.year, later.month, later.day).unwrap();
    let b = chrono::NaiveDate::from_ymd_opt(earlier.year, earlier.month, earlier.day).unwrap();
    (a - b).num_days()
}

/// Relies on chrono's `DateTime::parse_from_rfc3339` and `timestamp_millis`:
/// the instant the text denotes, `None` when it does not parse.
#[verifier::external_body]
pub(crate) fn parse_rfc3339_millis(text: &str) -> (r: Option<i64>)
    ensures
        r == rfc3339_millis(text@),
{
    Some(chrono::DateTime::parse_from_rfc3339(text).ok()?.timestamp_millis())
}

} // verus!
