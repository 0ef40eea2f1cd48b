//! Checks on the delivery preferences a user submits.

use vstd::prelude::*;

verus! {

/// Submitted delivery preferences.
pub struct SettingsForm {
    pub days_notice: i64,
    pub send_hour: i64,
    pub iana_tz: String,
}

/// Why submitted preferences were refused.
#[derive(Clone, Copy, Debug, PartialEq, Eq, Structural)]
pub enum SettingsError {
    DaysNoticeOutOfRange,
    SendHourOutOfRange,
    UnsupportedTimezone,
}

/// The zones offered for selection.
pub open spec fn offered_zones() -> Seq<Seq<char>> {
    seq![
        "America/New_York"@,
        "America/Chicago"@,
        "America/Denver"@,
        "America/Los_Angeles"@,
        "America/Anchorage"@,
        "Pacific/Honolulu"@,
    ]
}

/// The first check the preferences fail, in the order notice period, send
/// hour, zone.
pub open spec fn settings_check(days_notice: i64, send_hour: i64, zone: Seq<char>) -> Result<
    (),
    SettingsError,
> {
    if days_notice < 1 || days_notice > 14 {
        Err(SettingsError::DaysNoticeOutOfRange)
    } else if send_hour < 0 || send_hour > 23 {
        Err(SettingsError::SendHourOutOfRange)
    } else if !offered_zones().contains(zone) {
        Err(SettingsError::UnsupportedTimezone)
    } else {
        Ok(())
    }
}

impl SettingsError {
    /// The sentence shown to the user.
    pub fn message(&self) -> (r: String)
        ensures
            r@ == (match *self {
                SettingsError::DaysNoticeOutOfRange => "Days notice must be between 1 and 14"@,
                SettingsError::SendHourOutOfRange => "Send hour must be between 0 and 23"@,
                SettingsError::UnsupportedTimezone => "Invalid timezone selected"@,
            }),
    {
        match self {
            SettingsError::DaysNoticeOutOfRange => String::from_str(
                "Days notice must be between 1 and 14",
            ),
            SettingsError::SendHourOutOfRange => String::from_str(
                "Send hour must be between 0 and 23",
            ),
            SettingsError::UnsupportedTimezone => String::from_str("Invalid timezone selected"),
        }
    }
}

fn same_text(a: &str, b: &str) -> (r: bool)
    ensures
        r == (a@ == b@),
{
    let n = a.unicode_len();
    if n != b.unicode_len() {
        return false;
    }
    let mut i: usize = 0;
    while i < n
        invariant
            n == a@.len(),
            n == b@.len(),
            i <= n,
            forall|j: int| 0 <= j < i ==> a@[j] == b@[j],
        decreases n - i,
    {
        if a.get_char(i) != b.get_char(i) {
            return false;
        }
        i = i + 1;
    }
    assert(a@ =~= b@);
    true
}

impl SettingsForm {
    /// Accepts a notice period of 1 to 14 days, a send hour of 0 to 23 and one
    /// of the offered zones.
    pub fn validate(&self) -> (r: Result<(), SettingsError>)
        ensures
            r == settings_check(self.days_notice, self.send_hour, self.iana_tz@),
    {
        if self.days_notice < 1 || self.days_notice > 14 {
            return Err(SettingsError::DaysNoticeOutOfRange);
        }
        if self.send_hour < 0 || self.send_hour > 23 {
            return Err(SettingsError::SendHourOutOfRange);
        }
        let zone = self.iana_tz.as_str();
        let offered = [
            "America/New_York",
            "America/Chicago",
            "America/Denver",
            "America/Los_Angeles",
            "America/Anchorage",
            "Pacific/Honolulu",
        ];
        assert(offered@.map_values(|s: &str| s@) =~= offered_zones());
        let mut i: usize = 0;
        while i < 6
            invariant
                i <= 6,
                1 <= self.days_notice <= 14,
                0 <= self.send_hour <= 23,
                zone@ == self.iana_tz@,
                offered@.len() == 6,
                offered@.map_values(|s: &str| s@) == offered_zones(),
                forall|j: int| 0 <= j < i ==> offered_zones()[j] != zone@,
            decreases 6 - i,
        {
            if same_text(offered[i], zone) {
                assert(offered@.map_values(|s: &str| s@)[i as int] == offered@[i as int]@);
                assert(offered_zones()[i as int] == zone@);
                assert(offered_zones().contains(zone@));
                return Ok(());
            }
            assert(offered@.map_values(|s: &str| s@)[i as int] == offered@[i as int]@);
            i = i + 1;
        }
        assert(!offered_zones().contains(zone@));
        Err(SettingsError::UnsupportedTimezone)
    }
}

} // verus!
