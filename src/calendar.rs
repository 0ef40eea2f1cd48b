//! Proleptic Gregorian calendar dates as plain values.

use vstd::prelude::*;
use vstd::arithmetic::div_mod::lemma_mod_multiples_vanish;

verus! {

/// A calendar date: year, month (1 to 12) and day of the month.
#[derive(Clone, Copy, Debug, PartialEq, Eq, Structural)]
pub struct CivilDate {
    pub year: i32,
    pub month: u32,
    pub day: u32,
}

/// A local wall-clock reading: the date and the hour (0 to 23).
#[derive(Clone, Copy, Debug, PartialEq, Eq, Structural)]
pub struct LocalClock {
    pub date: CivilDate,
    pub hour: u32,
}

/// Earliest year a date may carry.
pub open spec fn min_year() -> int {
    -262143
}

/// Latest year a date may carry.
pub open spec fn max_year() -> int {
    262142
}

pub open spec fn is_leap_year(y: int) -> bool {
    y % 4 == 0 && (y % 100 != 0 || y % 400 == 0)
}

pub open spec fn days_in_month(y: int, m: int) -> int {
    if m == 2 {
        if is_leap_year(y) { 29 } else { 28 }
    } else if m == 4 || m == 6 || m == 9 || m == 11 {
        30
    } else {
        31
    }
}

/// Days in the months of year `y` before month `m`.
pub open spec fn days_before_month(y: int, m: int) -> int
    decreases m,
{
    if m <= 1 {
        0
    } else {
        days_before_month(y, m - 1) + days_in_month(y, m - 1)
    }
}

/// Days from January 1 of year 1 to January 1 of year `y` (negative before).
pub open spec fn days_before_year(y: int) -> int {
    365 * (y - 1) + (y - 1) / 4 - (y - 1) / 100 + (y - 1) / 400
}

/// Day count of a date, counted from January 1 of year 1.
pub open spec fn day_number(d: CivilDate) -> int {
    days_before_year(d.year as int) + days_before_month(d.year as int, d.month as int) + d.day - 1
}

/// The year, month and day name a real day within the supported years.
pub open spec fn valid_ymd(y: int, m: int, d: int) -> bool {
    min_year() <= y <= max_year() && 1 <= m <= 12 && 1 <= d <= days_in_month(y, m)
}

impl CivilDate {
    pub open spec fn is_valid(self) -> bool {
        valid_ymd(self.year as int, self.month as int, self.day as int)
    }
}

/// Chronological order of dates.
pub open spec fn date_lt(a: CivilDate, b: CivilDate) -> bool {
    a.year < b.year || (a.year == b.year && (a.month < b.month || (a.month == b.month && a.day
        < b.day)))
}

pub open spec fn date_le(a: CivilDate, b: CivilDate) -> bool {
    date_lt(a, b) || a == b
}

/// The same month and day in `year`, if that day exists.
pub open spec fn with_year_spec(d: CivilDate, year: int) -> Option<CivilDate> {
    if valid_ymd(year, d.month as int, d.day as int) {
        Some(CivilDate { year: year as i32, month: d.month, day: d.day })
    } else {
        None
    }
}

pub fn is_leap(y: i32) -> (r: bool)
    ensures
        r == is_leap_year(y as int),
{
    let y64: i64 = y as i64;
    // shift by a multiple of 400 so that the remainders are taken of a non-negative number
    let shifted: i64 = y64 + 400 * 10000000;
    proof {
        lemma_mod_multiples_vanish(1000000000, y as int, 4);
        lemma_mod_multiples_vanish(40000000, y as int, 100);
        lemma_mod_multiples_vanish(10000000, y as int, 400);
        assert(shifted == 4 * 1000000000 + y);
        assert(shifted == 100 * 40000000 + y);
        assert(shifted == 400 * 10000000 + y);
    }
    let u: u64 = shifted as u64;
    u % 4 == 0 && (u % 100 != 0 || u % 400 == 0)
}

pub fn month_length(y: i32, m: u32) -> (r: u32)
    ensures
        r as int == days_in_month(y as int, m as int),
{
    if m == 2 {
        if is_leap(y) { 29 } else { 28 }
    } else if m == 4 || m == 6 || m == 9 || m == 11 {
        30
    } else {
        31
    }
}

pub fn is_valid_date(d: &CivilDate) -> (r: bool)
    ensures
        r == d.is_valid(),
{
    -262143 <= d.year && d.year <= 262142 && 1 <= d.month && d.month <= 12 && 1 <= d.day
        && d.day <= month_length(d.year, d.month)
}

/// The same month and day in another year; `None` where that day does not
/// exist there (February 29 outside leap years) or the year is out of range.
pub fn with_year(d: &CivilDate, year: i32) -> (r: Option<CivilDate>)
    ensures
        r == with_year_spec(*d, year as int),
{
    let c = CivilDate { year, month: d.month, day: d.day };
    if is_valid_date(&c) {
        Some(c)
    } else {
        None
    }
}

/// `a` comes strictly before `b`.
pub fn is_before(a: &CivilDate, b: &CivilDate) -> (r: bool)
    ensures
        r == date_lt(*a, *b),
{
    a.year < b.year || (a.year == b.year && (a.month < b.month || (a.month == b.month && a.day
        < b.day)))
}

} // verus!
