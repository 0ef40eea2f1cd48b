//! Stored records and the values one digest run produces.

use vstd::prelude::*;

verus! {

/// A subscriber as stored.
pub struct DbUser {
    pub id: i64,
    pub phone_number: String,
    pub created_at: String,
    /// Stored delivery time of the last digest (`YYYY-MM-DD HH:MM:SS`, UTC), if any.
    pub last_digest_at: Option<String>,
    /// Length of the notice period in days.
    pub days_notice: i64,
    /// Local hour (0 to 23) at which the digest goes out.
    pub send_hour: i64,
    /// IANA time-zone identifier.
    pub iana_tz: String,
}

/// A tracked birthday as stored.
pub struct DbReminder {
    pub id: i64,
    pub user_id: i64,
    pub name: String,
    /// Milliseconds since the Unix epoch; the UTC calendar date is the birth date.
    pub birthdate: i64,
    pub created_at: String,
    pub updated_at: String,
}

/// One upcoming birthday, ready to be rendered.
pub struct BirthdayReminder {
    pub name: String,
    /// Whole days from the subscriber's local today to the occurrence.
    pub days_until: i64,
    pub age_turning: i32,
}

/// A message to hand to the SMS transport.
#[derive(Debug, Clone)]
pub struct SmsMessage {
    pub user_id: i64,
    pub phone_number: String,
    pub message: String,
}

} // verus!
