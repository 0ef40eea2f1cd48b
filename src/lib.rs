//! Birthday digest compiler: decides when each subscriber gets an SMS and
//! what the message says.
//!
//! Instants are milliseconds since the Unix epoch; time zones are IANA names.

pub mod calendar;
pub mod clock;
pub mod composer;
pub mod digest;
pub mod display;
pub mod eligibility;
pub mod model;
pub mod recurrence;
pub mod selector;
pub mod session;
pub mod settings;
pub mod text;
pub mod transport;

pub use calendar::{CivilDate, LocalClock};
pub use composer::format_birthday_message;
pub use digest::{digest_for_user, get_birthday_messages, reminders_for_user};
pub use display::{convert_reminders_to_display, ReminderDisplay};
pub use eligibility::{is_send_time_for_user, was_notified_recently, within_cooldown};
pub use model::{BirthdayReminder, DbReminder, DbUser, SmsMessage};
pub use recurrence::{calculate_birthday_info, next_birthday, RecurrenceError};
pub use selector::{get_reminders_to_send, rank_candidates};
pub use session::{LoginRequest, LoginResponse};
pub use settings::{SettingsError, SettingsForm};
pub use text::ordinal_suffix;
pub use transport::{
    MessageCentralError, MessageCentralSendOTPData, MessageRequest1, SurgeError, TwilioError,
    TwilioSendSMSData,
};
