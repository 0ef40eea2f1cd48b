use chrono::{NaiveDate, TimeZone};
use sms_sweeper::{get_birthday_messages, DbReminder, DbUser};

fn create_test_timestamp(year: i32, month: u32, day: u32) -> i64 {
    NaiveDate::from_ymd_opt(year, month, day)
        .unwrap()
        .and_hms_opt(0, 0, 0)
        .unwrap()
        .and_utc()
        .timestamp_millis()
}

fn user(id: i64, phone: &str, days_notice: i64, send_hour: i64, tz: &str) -> DbUser {
    DbUser {
        id,
        phone_number: phone.to_string(),
        created_at: "2024-01-01 00:00:00".to_string(),
        last_digest_at: None,
        days_notice,
        send_hour,
        iana_tz: tz.to_string(),
    }
}

fn reminder(id: i64, user_id: i64, name: &str, birthdate: i64) -> DbReminder {
    DbReminder {
        id,
        user_id,
        name: name.to_string(),
        birthdate,
        created_at: "2024-01-01 00:00:00".to_string(),
        updated_at: "2024-01-01 00:00:00".to_string(),
    }
}

fn eastern(hour: u32) -> i64 {
    chrono_tz::US::Eastern
        .with_ymd_and_hms(2024, 1, 15, hour, 0, 0)
        .unwrap()
        .timestamp_millis()
}

fn pacific(hour: u32) -> i64 {
    chrono_tz::US::Pacific
        .with_ymd_and_hms(2024, 1, 15, hour, 0, 0)
        .unwrap()
        .timestamp_millis()
}

#[test]
fn test_birthday_today_at_send_time() {
    let users = vec![user(1, "1234567890", 7, 9, "America/New_York")];
    let reminders = vec![reminder(1, 1, "John", create_test_timestamp(1990, 1, 15))];

    let messages = get_birthday_messages(&users, &reminders, eastern(9));

    assert_eq!(messages.len(), 1);
    assert_eq!(messages[0].phone_number, "1234567890");
    assert!(messages[0].message.contains("John's"));
    assert!(messages[0].message.contains("today"));
    assert!(messages[0].message.ends_with("hbd.bot"));
    assert!(messages[0].message.len() <= 160);
    assert_eq!(messages[0].message, "John's 34th is today\nhttps://hbd.bot");
}

#[test]
fn test_birthday_tomorrow_at_send_time() {
    let users = vec![user(2, "1234567891", 3, 10, "America/Los_Angeles")];
    let reminders = vec![reminder(1, 2, "Jane", create_test_timestamp(1991, 1, 16))];

    let messages = get_birthday_messages(&users, &reminders, pacific(10));

    assert_eq!(messages.len(), 1);
    assert_eq!(messages[0].phone_number, "1234567891");
    assert!(messages[0].message.contains("Jane's"));
    assert!(messages[0].message.contains("tomorrow"));
    assert!(messages[0].message.len() <= 160);
    assert_eq!(messages[0].message, "Jane's 33rd is tomorrow\nhttps://hbd.bot");
}

#[test]
fn test_multiple_birthdays_same_user() {
    let users = vec![user(3, "1234567892", 3, 9, "America/New_York")];
    // stored out of order: the digest ranks them
    let reminders = vec![
        reminder(1, 3, "Bob", create_test_timestamp(1992, 1, 18)),
        reminder(2, 3, "John", create_test_timestamp(1990, 1, 15)),
        reminder(3, 3, "Jane", create_test_timestamp(1991, 1, 16)),
    ];

    let messages = get_birthday_messages(&users, &reminders, eastern(9));

    assert_eq!(messages.len(), 1);
    let message = &messages[0].message;
    // the most urgent birthday is rendered; once the overflow marker fits
    // after it, the other two are counted instead of rendered
    assert!(message.contains("John's"));
    assert!(message.contains("today"));
    assert!(message.contains("+ 2 more..."));
    assert!(message.len() <= 160);
    assert_eq!(message, "John's 34th is today\n+ 2 more...\nhttps://hbd.bot");
}

#[test]
fn test_wrong_send_time_no_messages() {
    let users = vec![user(4, "1234567893", 7, 9, "America/New_York")];
    let reminders = vec![reminder(1, 4, "John", create_test_timestamp(1990, 1, 15))];

    let messages = get_birthday_messages(&users, &reminders, eastern(8));

    assert_eq!(messages.len(), 0);
}

#[test]
fn test_birthday_outside_notice_period() {
    let users = vec![user(5, "1234567894", 1, 9, "America/New_York")];
    let reminders = vec![reminder(1, 5, "John", create_test_timestamp(1990, 1, 18))];

    let messages = get_birthday_messages(&users, &reminders, eastern(9));

    assert_eq!(messages.len(), 0);
}

#[test]
fn test_message_length_truncation() {
    let users = vec![user(6, "1234567895", 7, 9, "America/New_York")];
    let mut reminders = Vec::new();
    for i in 0..10 {
        reminders.push(reminder(
            i as i64,
            6,
            &format!("VeryLongNamePersonNumber{}", i),
            create_test_timestamp(1990 + i, 1, 15),
        ));
    }

    let messages = get_birthday_messages(&users, &reminders, eastern(9));

    assert_eq!(messages.len(), 1);
    let message = &messages[0].message;
    assert!(message.len() <= 160);
    assert!(message.contains("hbd.bot"));
    // not every birthday fits: the marker says how many were left out
    let rendered = message.lines().filter(|l| l.contains(" is today")).count();
    assert!(rendered < 10);
    assert!(message.contains(&format!("+ {} more...", 10 - rendered)));
    assert_eq!(
        message,
        "VeryLongNamePersonNumber0's 34th is today\n+ 9 more...\nhttps://hbd.bot"
    );
}

#[test]
fn test_multiple_users_different_timezones() {
    let users = vec![
        user(7, "1234567896", 7, 9, "America/New_York"),
        user(8, "1234567897", 7, 10, "America/Los_Angeles"),
    ];
    let birthday = create_test_timestamp(1990, 1, 15);
    let reminders = vec![reminder(1, 7, "John", birthday), reminder(2, 8, "Jane", birthday)];

    let messages = get_birthday_messages(&users, &reminders, eastern(9));

    assert_eq!(messages.len(), 1);
    assert_eq!(messages[0].phone_number, "1234567896");
    assert!(messages[0].message.contains("John's"));

    let messages = get_birthday_messages(&users, &reminders, pacific(10));

    assert_eq!(messages.len(), 1);
    assert_eq!(messages[0].phone_number, "1234567897");
    assert!(messages[0].message.contains("Jane's"));
}

#[test]
fn test_twelve_hour_notification_guard() {
    let mut users = vec![user(9, "1234567898", 7, 9, "America/New_York")];
    let reminders = vec![reminder(1, 9, "John", create_test_timestamp(1990, 1, 15))];

    // 9 AM Eastern: the digest goes out
    let messages = get_birthday_messages(&users, &reminders, eastern(9));
    assert_eq!(messages.len(), 1);
    assert_eq!(messages[0].phone_number, "1234567898");
    assert!(messages[0].message.contains("John's"));

    // delivery recorded at 9 AM Eastern, stored as UTC
    users[0].last_digest_at = Some("2024-01-15 14:00:00".to_string());

    // one hour later, even at a matching send hour: nothing
    users[0].send_hour = 10;
    let messages_2 = get_birthday_messages(&users, &reminders, eastern(10));
    assert_eq!(messages_2.len(), 0);

    // thirteen hours later, at the user's new send hour: due again
    users[0].send_hour = 22;
    let messages_3 = get_birthday_messages(&users, &reminders, eastern(22));
    assert_eq!(messages_3.len(), 1);
    assert!(messages_3[0].message.contains("John's 34th is today"));
}

#[test]
fn birthday_ten_days_out_with_week_notice_sends_nothing() {
    let users = vec![user(10, "1234567899", 7, 9, "America/New_York")];
    let reminders = vec![reminder(1, 10, "John", create_test_timestamp(1990, 1, 25))];

    let messages = get_birthday_messages(&users, &reminders, eastern(9));

    assert_eq!(messages.len(), 0);
}
