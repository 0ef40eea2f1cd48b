//! Next occurrence of a birthday and the age being turned.

use vstd::prelude::*;
use crate::calendar::{
    CivilDate, date_le, date_lt, day_number, is_before, is_valid_date, max_year, with_year, with_year_spec,
};
use crate::clock::{
    days_from_to, local_clock_at, local_clock_of, utc_date_from_millis, utc_date_of,
};

verus! {

/// Why a birthday could not be placed.
#[derive(Clone, Copy, Debug, PartialEq, Eq, Structural)]
pub enum RecurrenceError {
    /// The stored birth date does not decode to a calendar date.
    InvalidTimestamp,
    /// The time zone is unknown, or the instant cannot be read in it.
    InvalidTimezone,
    /// No year from the current one up to the last supported year holds the
    /// birthday on or after today.
    RecurrenceComputationFailure,
}

/// The first birthday on or after `today` in `year` or a later supported
/// year, and the age turned on it. A year that lacks the day (February 29
/// outside leap years) is passed over.
pub open spec fn occurrence_search(birth: CivilDate, today: CivilDate, year: int) -> Option<
    (CivilDate, int),
>
    decreases max_year() + 1 - year,
{
    if year > max_year() {
        None
    } else {
        match with_year_spec(birth, year) {
            Some(o) => if date_le(today, o) {
                Some((o, year - birth.year))
            } else {
                occurrence_search(birth, today, year + 1)
            },
            None => occurrence_search(birth, today, year + 1),
        }
    }
}

/// The first birthday on or after `today`, searching year by year from the
/// current one, and the age turned on it.
pub open spec fn next_occurrence(birth: CivilDate, today: CivilDate) -> Option<(CivilDate, int)> {
    occurrence_search(birth, today, today.year as int)
}

/// Days until the next birthday and the age turned, for a birth date stored
/// as milliseconds and "today" read in `zone` at instant `now`.
pub open spec fn birthday_info(birth_millis: int, zone: Seq<char>, now: int) -> Result<
    (i64, i32),
    RecurrenceError,
> {
    match utc_date_of(birth_millis) {
        None => Err(RecurrenceError::InvalidTimestamp),
        Some(birth) => if !birth.is_valid() {
            Err(RecurrenceError::InvalidTimestamp)
        } else {
            match local_clock_of(zone, now) {
                None => Err(RecurrenceError::InvalidTimezone),
                Some(clock) => if !clock.date.is_valid() {
                    Err(RecurrenceError::InvalidTimezone)
                } else {
                    match next_occurrence(birth, clock.date) {
                        None => Err(RecurrenceError::RecurrenceComputationFailure),
                        Some(found) => Ok(
                            ((day_number(found.0) - day_number(clock.date)) as i64, found.1 as i32),
                        ),
                    }
                },
            }
        },
    }
}

proof fn lemma_search_shape(birth: CivilDate, today: CivilDate, year: int)
    requires
        birth.is_valid(),
        occurrence_search(birth, today, year) is Some,
    ensures
        ({
            let (o, age) = occurrence_search(birth, today, year).unwrap();
            &&& o.month == birth.month
            &&& o.day == birth.day
            &&& o.is_valid()
            &&& o.year >= year
            &&& date_le(today, o)
            &&& age == o.year - birth.year
        }),
    decreases max_year() + 1 - year,
{
    if year <= max_year() {
        match with_year_spec(birth, year) {
            Some(o) => if !date_le(today, o) {
                lemma_search_shape(birth, today, year + 1);
            },
            None => {
                lemma_search_shape(birth, today, year + 1);
            },
        }
    }
}

/// A resolved occurrence falls on the birth month and day, on or after today,
/// and the age turned is its year less the birth year.
pub proof fn lemma_occurrence_shape(birth: CivilDate, today: CivilDate)
    requires
        birth.is_valid(),
        today.is_valid(),
        next_occurrence(birth, today) is Some,
    ensures
        ({
            let (o, age) = next_occurrence(birth, today).unwrap();
            &&& o.month == birth.month
            &&& o.day == birth.day
            &&& o.is_valid()
            &&& date_le(today, o)
            &&& age == o.year - birth.year
        }),
{
    lemma_search_shape(birth, today, today.year as int);
}

/// Across any two resolved occurrences the age turned differs by exactly
/// the years between them, and it is strictly larger once the earlier
/// occurrence has passed.
pub proof fn lemma_age_tracks_occurrence_year(
    birth: CivilDate,
    first_today: CivilDate,
    later_today: CivilDate,
)
    requires
        birth.is_valid(),
        first_today.is_valid(),
        later_today.is_valid(),
        next_occurrence(birth, first_today) is Some,
        next_occurrence(birth, later_today) is Some,
    ensures
        ({
            let (o1, a1) = next_occurrence(birth, first_today).unwrap();
            let (o2, a2) = next_occurrence(birth, later_today).unwrap();
            &&& a2 - a1 == o2.year - o1.year
            &&& date_lt(o1, later_today) ==> a2 > a1
        }),
{
    lemma_occurrence_shape(birth, first_today);
    lemma_occurrence_shape(birth, later_today);
}

/// Successive occurrences: for a birthday other than February 29, from any
/// day after one occurrence up to the same day a year later, the next
/// occurrence is that day a year later and the age turned is one more.
pub proof fn lemma_age_increases_by_one(birth: CivilDate, first_today: CivilDate, later_today: CivilDate)
    requires
        birth.is_valid(),
        !(birth.month == 2 && birth.day == 29),
        first_today.is_valid(),
        later_today.is_valid(),
        next_occurrence(birth, first_today) is Some,
        next_occurrence(birth, first_today).unwrap().0.year < max_year(),
        date_lt(next_occurrence(birth, first_today).unwrap().0, later_today),
        date_le(
            later_today,
            CivilDate {
                year: (next_occurrence(birth, first_today).unwrap().0.year + 1) as i32,
                month: birth.month,
                day: birth.day,
            },
        ),
    ensures
        ({
            let (o1, a1) = next_occurrence(birth, first_today).unwrap();
            next_occurrence(birth, later_today) == Some(
                (CivilDate { year: (o1.year + 1) as i32, month: birth.month, day: birth.day }, a1 + 1),
            )
        }),
{
    lemma_occurrence_shape(birth, first_today);
    let (o1, a1) = next_occurrence(birth, first_today).unwrap();
    let y = o1.year as int;
    let o2 = CivilDate { year: (y + 1) as i32, month: birth.month, day: birth.day };
    assert(with_year_spec(birth, y + 1) == Some(o2));
    assert(occurrence_search(birth, later_today, y + 1) == Some((o2, y + 1 - birth.year)));
    if later_today.year == y {
        assert(with_year_spec(birth, y) == Some(o1));
        assert(!date_le(later_today, o1));
        assert(occurrence_search(birth, later_today, y) == occurrence_search(birth, later_today, y + 1));
    }
}

/// The next birthday on or after `today` and the age turned on it.
pub fn next_birthday(birth: &CivilDate, today: &CivilDate) -> (r: Result<
    (CivilDate, i32),
    RecurrenceError,
>)
    requires
        birth.is_valid(),
        today.is_valid(),
    ensures
        r == (match next_occurrence(*birth, *today) {
            Some(found) => Ok((found.0, found.1 as i32)),
            None => Err(RecurrenceError::RecurrenceComputationFailure),
        }),
{
    let mut year: i32 = today.year;
    while year <= 262142
        invariant
            birth.is_valid(),
            today.is_valid(),
            today.year <= year <= 262143,
            next_occurrence(*birth, *today) == occurrence_search(*birth, *today, year as int),
        decreases 262143 - year,
    {
        match with_year(birth, year) {
            Some(o) => {
                if !is_before(&o, today) {
                    return Ok((o, year - birth.year));
                }
            },
            None => {},
        }
        year = year + 1;
    }
    Err(RecurrenceError::RecurrenceComputationFailure)
}

/// Days from "today" in `zone` at instant `now_millis` until the next
/// birthday of the date stored as `birthdate_millis`, and the age turned.
pub fn calculate_birthday_info(birthdate_millis: i64, zone: &str, now_millis: i64) -> (r: Result<
    (i64, i32),
    RecurrenceError,
>)
    ensures
        r == birthday_info(birthdate_millis as int, zone@, now_millis as int),
        r matches Ok(info) ==> info.0 >= 0,
        r matches Ok(info) ==> ({
            let today = local_clock_of(zone@, now_millis as int).unwrap().date;
            let found = next_occurrence(utc_date_of(birthdate_millis as int).unwrap(), today).unwrap();
            &&& (info.0 == 0) == (found.0 == today)
            &&& (info.0 > 0) == date_lt(today, found.0)
        }),
{
    let birth = match utc_date_from_millis(birthdate_millis) {
        Some(b) => b,
        None => return Err(RecurrenceError::InvalidTimestamp),
    };
    if !is_valid_date(&birth) {
        return Err(RecurrenceError::InvalidTimestamp);
    }
    let clock = match local_clock_at(zone, now_millis) {
        Some(c) => c,
        None => return Err(RecurrenceError::InvalidTimezone),
    };
    if !is_valid_date(&clock.date) {
        return Err(RecurrenceError::InvalidTimezone);
    }
    match next_birthday(&birth, &clock.date) {
        Ok(found) => {
            proof { lemma_occurrence_shape(birth, clock.date); }
            let days = days_from_to(&found.0, &clock.date);
            Ok((days, found.1))
        },
        Err(e) => Err(e),
    }
}

} // verus!
