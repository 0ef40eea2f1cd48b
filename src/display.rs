//! Rows for listing a user's birthdays with days to go and age turned.

use vstd::prelude::*;
use crate::calendar::CivilDate;
use crate::clock::{utc_date_from_millis, utc_date_of};
use crate::model::DbReminder;
use crate::recurrence::{birthday_info, calculate_birthday_info};
use crate::text::decimal;

verus! {

/// A birthday as listed to its owner.
#[derive(Debug, Clone)]
pub struct ReminderDisplay {
    pub id: i64,
    pub name: String,
    /// The birth date as `YYYY-MM-DD`.
    pub birthdate: String,
    pub days_until_birthday: i64,
    pub age_turning: i32,
}

impl View for ReminderDisplay {
    type V = (i64, Seq<char>, Seq<char>, i64, i32);

    open spec fn view(&self) -> (i64, Seq<char>, Seq<char>, i64, i32) {
        (self.id, self.name@, self.birthdate@, self.days_until_birthday, self.age_turning)
    }
}

/// Digits preceded by zeros up to `width` characters.
pub open spec fn zero_pad(digits: Seq<char>, width: int) -> Seq<char> {
    if digits.len() >= width {
        digits
    } else {
        Seq::new((width - digits.len()) as nat, |i: int| '0') + digits
    }
}

/// A year as `%Y` writes it: four digits within 0 to 9999, otherwise a sign
/// and at least four digits.
pub open spec fn year_text(y: int) -> Seq<char> {
    if 0 <= y <= 9999 {
        zero_pad(decimal(y as nat), 4)
    } else if y < 0 {
        seq!['-'] + zero_pad(decimal((-y) as nat), 4)
    } else {
        seq!['+'] + zero_pad(decimal(y as nat), 4)
    }
}

/// A date as `%Y-%m-%d` writes it.
pub open spec fn iso_date_text(d: CivilDate) -> Seq<char> {
    year_text(d.year as int) + seq!['-'] + zero_pad(decimal(d.month as nat), 2) + seq!['-']
        + zero_pad(decimal(d.day as nat), 2)
}

/// Relies on chrono's `NaiveDate::from_ymd_opt` and `format("%Y-%m-%d")`:
/// the year zero-padded to four digits (signed outside 0 to 9999), then the
/// month and the day as two digits each.
#[verifier::external_body]
fn format_iso_date(d: &CivilDate) -> (r: String)
    requires
        d.is_valid(),
    ensures
        r@ == iso_date_text(*d),
{
    chrono::NaiveDate::from_ymd_opt(d.year, d.month, d.day).unwrap().format("%Y-%m-%d").to_string()
}

/// The zone in which listings read "today".
pub open spec fn listing_zone() -> Seq<char> {
    seq!['U', 'T', 'C']
}

/// The row for one reminder at `now`, when its next birthday can be computed.
pub open spec fn display_of(r: DbReminder, now: i64) -> Option<(i64, Seq<char>, Seq<char>, i64, i32)> {
    match birthday_info(r.birthdate as int, listing_zone(), now as int) {
        Ok(info) => Some(
            (r.id, r.name@, iso_date_text(utc_date_of(r.birthdate as int).unwrap()), info.0, info.1),
        ),
        Err(_) => None,
    }
}

/// One row per reminder whose next birthday can be computed, in input
/// order, with "today" taken in UTC at `now_millis`.
pub fn convert_reminders_to_display(reminders: &Vec<DbReminder>, now_millis: i64) -> (r: Vec<
    ReminderDisplay,
>)
    ensures
        r@.map_values(|d: ReminderDisplay| d@) == reminders@.filter_map(
            |x: DbReminder| display_of(x, now_millis),
        ),
{
    let ghost pick = |x: DbReminder| display_of(x, now_millis);
    let mut out: Vec<ReminderDisplay> = Vec::new();
    let n = reminders.len();
    let mut i: usize = 0;
    proof { reveal_strlit("UTC"); }
    assert("UTC"@ =~= listing_zone());
    assert(reminders@.take(0).filter_map(pick) =~= Seq::<(i64, Seq<char>, Seq<char>, i64, i32)>::empty());
    assert(out@.map_values(|d: ReminderDisplay| d@) =~= Seq::<(i64, Seq<char>, Seq<char>, i64, i32)>::empty());
    while i < n
        invariant
            n == reminders@.len(),
            i <= n,
            "UTC"@ == listing_zone(),
            pick == (|x: DbReminder| display_of(x, now_millis)),
            out@.map_values(|d: ReminderDisplay| d@) == reminders@.take(i as int).filter_map(pick),
        decreases n - i,
    {
        let reminder = &reminders[i];
        assert(reminders@.take(i + 1).drop_last() =~= reminders@.take(i as int));
        assert(reminders@.take(i + 1).last() == *reminder);
        let ghost before = out@;
        match calculate_birthday_info(reminder.birthdate, "UTC", now_millis) {
            Ok(info) => {
                let birth = utc_date_from_millis(reminder.birthdate);
                let text = format_iso_date(&birth.unwrap());
                out.push(
                    ReminderDisplay {
                        id: reminder.id,
                        name: reminder.name.clone(),
                        birthdate: text,
                        days_until_birthday: info.0,
                        age_turning: info.1,
                    },
                );
                assert(out@.map_values(|d: ReminderDisplay| d@) =~= before.map_values(
                    |d: ReminderDisplay| d@,
                ).push(out@.last()@));
            },
            Err(_) => {},
        }
        i = i + 1;
    }
    assert(reminders@.take(n as int) =~= reminders@);
    out
}

} // verus!
