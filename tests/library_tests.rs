use chrono::{NaiveDate, TimeZone};
use sms_sweeper::{
    calculate_birthday_info, convert_reminders_to_display, digest_for_user,
    format_birthday_message, get_reminders_to_send, is_send_time_for_user, next_birthday,
    ordinal_suffix, rank_candidates, reminders_for_user, was_notified_recently, within_cooldown,
    BirthdayReminder, CivilDate, DbReminder, DbUser, LoginRequest, RecurrenceError,
    SettingsError, SettingsForm, SurgeError,
};
use sms_sweeper::session::reject_empty_phone;
use sms_sweeper::transport::{build_sms_request, us_e164};

fn ms(year: i32, month: u32, day: u32, hour: u32) -> i64 {
    NaiveDate::from_ymd_opt(year, month, day)
        .unwrap()
        .and_hms_opt(hour, 0, 0)
        .unwrap()
        .and_utc()
        .timestamp_millis()
}

fn date(year: i32, month: u32, day: u32) -> CivilDate {
    CivilDate { year, month, day }
}

fn cand(name: &str, days_until: i64, age_turning: i32) -> BirthdayReminder {
    BirthdayReminder { name: name.to_string(), days_until, age_turning }
}

fn user(days_notice: i64, send_hour: i64, tz: &str, last: Option<&str>) -> DbUser {
    DbUser {
        id: 1,
        phone_number: "5550001111".to_string(),
        created_at: "2024-01-01 00:00:00".to_string(),
        last_digest_at: last.map(|s| s.to_string()),
        days_notice,
        send_hour,
        iana_tz: tz.to_string(),
    }
}

fn reminder(id: i64, user_id: i64, name: &str, birthdate: i64) -> DbReminder {
    DbReminder {
        id,
        user_id,
        name: name.to_string(),
        birthdate,
        created_at: String::new(),
        updated_at: String::new(),
    }
}

#[test]
fn ordinals_follow_english_suffixes() {
    let cases = [
        (0, "0th"),
        (1, "1st"),
        (2, "2nd"),
        (3, "3rd"),
        (4, "4th"),
        (11, "11th"),
        (12, "12th"),
        (13, "13th"),
        (21, "21st"),
        (22, "22nd"),
        (23, "23rd"),
        (101, "101st"),
        (111, "111th"),
        (112, "112th"),
        (113, "113th"),
        (-1, "-1th"),
        (-11, "-11th"),
    ];
    for (n, text) in cases {
        assert_eq!(ordinal_suffix(n), text);
    }
}

#[test]
fn empty_candidate_list_gives_bare_link() {
    assert_eq!(format_birthday_message(&[]), "\nhttps://hbd.bot");
}

#[test]
fn day_phrases_render() {
    let msg = format_birthday_message(&[cand("Al", 0, 5), cand("Bo", 1, 6)]);
    assert_eq!(msg, "Al's 5th is today\nBo's 6th is tomorrow\nhttps://hbd.bot");
    let msg = format_birthday_message(&[cand("Cy", 12, 70)]);
    assert_eq!(msg, "Cy's 70th is in 12 days\nhttps://hbd.bot");
}

#[test]
fn composed_message_never_exceeds_budget_and_ends_with_link() {
    for count in 0..12 {
        for width in [1usize, 10, 40, 70, 150, 200] {
            let rs: Vec<BirthdayReminder> = (0..count)
                .map(|i| cand(&"x".repeat(width), i as i64, 30 + i as i32))
                .collect();
            let msg = format_birthday_message(&rs);
            assert!(msg.chars().count() <= 160, "{} {}", count, width);
            assert!(msg.ends_with("\nhttps://hbd.bot"));
        }
    }
}

#[test]
fn two_lines_that_both_fit_are_both_rendered() {
    let a = "a".repeat(50);
    let b = "b".repeat(50);
    let msg = format_birthday_message(&[cand(&a, 0, 30), cand(&b, 1, 31)]);
    assert_eq!(msg, format!("{}'s 30th is today\n{}'s 31st is tomorrow\nhttps://hbd.bot", a, b));
    assert_eq!(msg.chars().count(), 50 + 16 + 1 + 50 + 19 + 16);
}

#[test]
fn marker_stops_packing_once_it_fits() {
    let msg = format_birthday_message(&[cand("Al", 0, 5), cand("Bo", 1, 6), cand("Cy", 3, 7)]);
    assert_eq!(msg, "Al's 5th is today\n+ 2 more...\nhttps://hbd.bot");
}

#[test]
fn second_of_two_lines_dropped_without_marker() {
    let a = "a".repeat(60);
    let b = "b".repeat(100);
    let msg = format_birthday_message(&[cand(&a, 0, 30), cand(&b, 1, 31)]);
    // a single left-out birthday gets no marker
    assert_eq!(msg, format!("{}'s 30th is today\nhttps://hbd.bot", a));
}

#[test]
fn first_line_too_long_leaves_marker_for_all() {
    let a = "a".repeat(150);
    let msg = format_birthday_message(&[cand(&a, 0, 30), cand("Bo", 1, 31), cand("Cy", 2, 32)]);
    assert_eq!(msg, "\n+ 3 more...\nhttps://hbd.bot");
}

#[test]
fn lines_keep_urgency_order() {
    let rs = vec![cand("A", 5, 1), cand("B", 0, 2), cand("C", 2, 3), cand("D", 0, 4)];
    let ranked = rank_candidates(&rs, 7);
    let order: Vec<&str> = ranked.iter().map(|r| r.name.as_str()).collect();
    assert_eq!(order, vec!["B", "D", "C", "A"]);
    let msg = format_birthday_message(&rank_candidates(&vec![cand("A", 5, 1), cand("B", 0, 2)], 7));
    assert_eq!(msg, "B's 2nd is today\nA's 1st is in 5 days\nhttps://hbd.bot");
}

#[test]
fn ranking_drops_out_of_notice_candidates() {
    let rs = vec![cand("A", 8, 1), cand("B", 7, 2), cand("C", -1, 3), cand("D", 0, 4)];
    let ranked = rank_candidates(&rs, 7);
    let order: Vec<&str> = ranked.iter().map(|r| r.name.as_str()).collect();
    assert_eq!(order, vec!["D", "B"]);
}

#[test]
fn birthday_later_this_year() {
    let now = ms(2024, 3, 1, 12);
    let r = calculate_birthday_info(ms(1990, 3, 11, 0), "UTC", now);
    assert_eq!(r, Ok((10, 34)));
}

#[test]
fn birthday_passed_moves_to_next_year() {
    let now = ms(2024, 3, 1, 12);
    let r = calculate_birthday_info(ms(1990, 2, 28, 0), "UTC", now);
    assert_eq!(r, Ok((364, 35)));
}

#[test]
fn today_is_read_in_local_zone() {
    // 02:00 UTC on the 16th is still the evening of the 15th in New York
    let now = ms(2024, 1, 16, 2);
    assert_eq!(calculate_birthday_info(ms(1990, 1, 15, 0), "America/New_York", now), Ok((0, 34)));
    assert_eq!(calculate_birthday_info(ms(1990, 1, 15, 0), "UTC", now), Ok((365, 35)));
}

#[test]
fn leap_day_birthday_in_leap_year() {
    let now = ms(2024, 2, 1, 12);
    assert_eq!(calculate_birthday_info(ms(2000, 2, 29, 0), "UTC", now), Ok((28, 24)));
}

#[test]
fn leap_day_birthday_advances_to_next_leap_year() {
    let now = ms(2025, 3, 1, 12);
    assert_eq!(calculate_birthday_info(ms(2000, 2, 29, 0), "UTC", now), Ok((1095, 28)));
    let now = ms(2023, 6, 1, 12);
    assert_eq!(calculate_birthday_info(ms(2000, 2, 29, 0), "UTC", now), Ok((273, 24)));
}

#[test]
fn leap_day_birthday_skips_century_non_leap_year() {
    // 2100 is not a leap year: the next February 29 after 2096 is in 2104
    assert_eq!(
        next_birthday(&date(2000, 2, 29), &date(2096, 3, 1)),
        Ok((date(2104, 2, 29), 104))
    );
}

#[test]
fn birthday_past_last_supported_year_fails() {
    assert_eq!(
        next_birthday(&date(2000, 2, 29), &date(262141, 3, 1)),
        Err(RecurrenceError::RecurrenceComputationFailure)
    );
    assert_eq!(
        next_birthday(&date(1990, 5, 10), &date(262142, 6, 1)),
        Err(RecurrenceError::RecurrenceComputationFailure)
    );
}

#[test]
fn leap_day_birthday_found_next_year() {
    let now = ms(2023, 3, 1, 12);
    assert_eq!(calculate_birthday_info(ms(2000, 2, 29, 0), "UTC", now), Ok((365, 24)));
}

#[test]
fn invalid_timestamp_is_reported() {
    let now = ms(2024, 3, 1, 12);
    assert_eq!(
        calculate_birthday_info(i64::MAX, "UTC", now),
        Err(RecurrenceError::InvalidTimestamp)
    );
}

#[test]
fn invalid_timezone_is_reported() {
    let now = ms(2024, 3, 1, 12);
    assert_eq!(
        calculate_birthday_info(ms(1990, 1, 1, 0), "Mars/Olympus_Mons", now),
        Err(RecurrenceError::InvalidTimezone)
    );
}

#[test]
fn next_birthday_on_plain_dates() {
    assert_eq!(next_birthday(&date(1990, 5, 10), &date(2024, 5, 10)), Ok((date(2024, 5, 10), 34)));
    assert_eq!(next_birthday(&date(1990, 5, 10), &date(2024, 5, 11)), Ok((date(2025, 5, 10), 35)));
    assert_eq!(next_birthday(&date(2000, 2, 29), &date(2023, 1, 1)), Ok((date(2024, 2, 29), 24)));
    assert_eq!(next_birthday(&date(2000, 2, 29), &date(2021, 1, 1)), Ok((date(2024, 2, 29), 24)));
}

#[test]
fn age_increases_by_one_across_occurrences() {
    let birth = ms(1990, 6, 1, 0);
    let (_, first) = calculate_birthday_info(birth, "UTC", ms(2024, 5, 31, 12)).unwrap();
    let (_, on_day) = calculate_birthday_info(birth, "UTC", ms(2024, 6, 1, 12)).unwrap();
    let (_, after) = calculate_birthday_info(birth, "UTC", ms(2024, 6, 2, 12)).unwrap();
    assert_eq!(first, 34);
    assert_eq!(on_day, 34);
    assert_eq!(after, 35);
}

#[test]
fn days_until_never_negative_and_month_day_kept() {
    let birth = ms(1985, 12, 31, 0);
    for day in 1..=28 {
        for month in 1..=12 {
            let (days, _) = calculate_birthday_info(birth, "UTC", ms(2024, month, day, 6)).unwrap();
            assert!(days >= 0);
            let today = NaiveDate::from_ymd_opt(2024, month, day).unwrap();
            let target = today + chrono::Duration::days(days);
            assert_eq!((target.format("%m-%d").to_string()), "12-31");
        }
    }
}

#[test]
fn gate_open_only_at_send_hour() {
    let u = user(7, 9, "America/New_York", None);
    for hour in 0..24 {
        let now = chrono_tz::US::Eastern
            .with_ymd_and_hms(2024, 1, 15, hour, 30, 0)
            .unwrap()
            .timestamp_millis();
        assert_eq!(is_send_time_for_user(&u, now), hour == 9);
    }
}

#[test]
fn gate_follows_daylight_saving() {
    let u = user(7, 9, "America/New_York", None);
    // 13:00 UTC is 9 AM in New York in July
    assert!(is_send_time_for_user(&u, ms(2024, 7, 1, 13)));
    assert!(!is_send_time_for_user(&u, ms(2024, 7, 1, 14)));
    assert!(is_send_time_for_user(&u, ms(2024, 1, 15, 14)));
}

#[test]
fn send_hour_out_of_range_never_matches() {
    for send_hour in [-1, 24, 25, 100] {
        let u = user(7, send_hour, "America/New_York", None);
        for hour in 0..24 {
            assert!(!is_send_time_for_user(&u, ms(2024, 1, 15, hour)));
        }
    }
}

#[test]
fn gate_closed_for_unknown_zone() {
    let u = user(7, 9, "Nowhere/Atlantis", None);
    for hour in 0..24 {
        assert!(!is_send_time_for_user(&u, ms(2024, 1, 15, hour)));
    }
}

#[test]
fn cooldown_boundary_at_twelve_hours() {
    let t = ms(2024, 1, 15, 14);
    assert!(within_cooldown(Some(t), t));
    assert!(within_cooldown(Some(t), t + 43_199_999));
    assert!(!within_cooldown(Some(t), t + 43_200_000));
    assert!(within_cooldown(Some(t), t - 5));
    assert!(!within_cooldown(None, t));
}

#[test]
fn stored_delivery_time_is_read_as_utc() {
    let u = user(7, 9, "America/New_York", Some("2024-01-15 14:00:00"));
    assert!(was_notified_recently(&u, ms(2024, 1, 15, 15)));
    assert!(was_notified_recently(&u, ms(2024, 1, 16, 1)));
    assert!(!was_notified_recently(&u, ms(2024, 1, 16, 2)));
}

#[test]
fn unreadable_delivery_time_does_not_block() {
    let u = user(7, 9, "America/New_York", Some("yesterday-ish"));
    assert!(!was_notified_recently(&u, ms(2024, 1, 15, 14)));
    let none = user(7, 9, "America/New_York", None);
    assert!(!was_notified_recently(&none, ms(2024, 1, 15, 14)));
}

#[test]
fn digest_skips_user_with_nothing_due() {
    let u = user(7, 9, "America/New_York", None);
    let reminders = vec![reminder(1, 1, "Zed", ms(1990, 1, 25, 0))];
    assert!(digest_for_user(&u, &reminders, ms(2024, 1, 15, 14)).is_none());
}

#[test]
fn digest_for_user_uses_only_own_reminders() {
    let u = user(7, 9, "America/New_York", None);
    let reminders = vec![
        reminder(1, 2, "Other", ms(1990, 1, 15, 0)),
        reminder(2, 1, "Mine", ms(1990, 1, 17, 0)),
    ];
    assert_eq!(reminders_for_user(&reminders, 1).len(), 1);
    let m = digest_for_user(&u, &reminders, ms(2024, 1, 15, 14)).unwrap();
    assert_eq!(m.user_id, 1);
    assert_eq!(m.phone_number, "5550001111");
    assert_eq!(m.message, "Mine's 34th is in 2 days\nhttps://hbd.bot");
}

#[test]
fn selector_skips_broken_reminders() {
    let u = user(7, 9, "UTC", None);
    let reminders = vec![
        reminder(1, 1, "Bad", i64::MIN),
        reminder(2, 1, "Late", ms(1990, 1, 20, 0)),
        reminder(3, 1, "Soon", ms(1990, 1, 16, 0)),
        reminder(4, 1, "Far", ms(1990, 3, 1, 0)),
    ];
    let picked = get_reminders_to_send(&u, &reminders, ms(2024, 1, 15, 9));
    let names: Vec<(&str, i64, i32)> =
        picked.iter().map(|r| (r.name.as_str(), r.days_until, r.age_turning)).collect();
    assert_eq!(names, vec![("Soon", 1, 34), ("Late", 5, 34)]);
}

#[test]
fn display_rows_carry_date_text() {
    let reminders = vec![reminder(7, 1, "Ann", ms(1990, 1, 20, 0)), reminder(8, 1, "Bad", i64::MAX)];
    let rows = convert_reminders_to_display(&reminders, ms(2024, 1, 15, 9));
    assert_eq!(rows.len(), 1);
    assert_eq!(rows[0].id, 7);
    assert_eq!(rows[0].name, "Ann");
    assert_eq!(rows[0].birthdate, "1990-01-20");
    assert_eq!(rows[0].days_until_birthday, 5);
    assert_eq!(rows[0].age_turning, 34);
}

#[test]
fn display_dates_pad_and_sign_years() {
    let far = NaiveDate::from_ymd_opt(12345, 3, 4).unwrap().and_hms_opt(0, 0, 0).unwrap().and_utc().timestamp_millis();
    let early = NaiveDate::from_ymd_opt(5, 11, 9).unwrap().and_hms_opt(0, 0, 0).unwrap().and_utc().timestamp_millis();
    let before = NaiveDate::from_ymd_opt(-44, 3, 15).unwrap().and_hms_opt(0, 0, 0).unwrap().and_utc().timestamp_millis();
    let reminders = vec![reminder(1, 1, "Far", far), reminder(2, 1, "Early", early), reminder(3, 1, "Before", before)];
    let rows = convert_reminders_to_display(&reminders, ms(2024, 1, 15, 9));
    let dates: Vec<&str> = rows.iter().map(|r| r.birthdate.as_str()).collect();
    assert_eq!(dates, vec!["+12345-03-04", "0005-11-09", "-0044-03-15"]);
}

#[test]
fn settings_are_checked_in_order() {
    let form = |d: i64, h: i64, tz: &str| SettingsForm { days_notice: d, send_hour: h, iana_tz: tz.to_string() };
    assert_eq!(form(7, 9, "America/Chicago").validate(), Ok(()));
    assert_eq!(form(14, 0, "Pacific/Honolulu").validate(), Ok(()));
    assert_eq!(form(0, 9, "America/Chicago").validate(), Err(SettingsError::DaysNoticeOutOfRange));
    assert_eq!(form(15, 24, "Mars").validate(), Err(SettingsError::DaysNoticeOutOfRange));
    assert_eq!(form(1, 24, "America/Chicago").validate(), Err(SettingsError::SendHourOutOfRange));
    assert_eq!(form(1, -1, "America/Chicago").validate(), Err(SettingsError::SendHourOutOfRange));
    assert_eq!(form(1, 23, "Europe/Paris").validate(), Err(SettingsError::UnsupportedTimezone));
    assert_eq!(SettingsError::SendHourOutOfRange.message(), "Send hour must be between 0 and 23");
}

#[test]
fn sms_request_requires_e164_recipient() {
    let to = us_e164("5550001111");
    assert_eq!(to, "+15550001111");
    let req = build_sms_request(to, "hi".to_string()).unwrap();
    assert_eq!(req.to, "+15550001111");
    assert_eq!(req.body, "hi");
    let e = build_sms_request(String::new(), "hi".to_string()).unwrap_err();
    assert_eq!(e.message, "Phone number 'to' is required");
    let e = build_sms_request("5550001111".to_string(), "hi".to_string()).unwrap_err();
    assert_eq!(e.message, "Phone number 'to' must be in E.164 format (starting with +)");
    let s = SurgeError { message: "down".to_string() };
    assert_eq!(s.describe(), "Surge Error: down");
}

#[test]
fn login_without_phone_is_refused() {
    let r = reject_empty_phone(&LoginRequest { phone: String::new() }).unwrap();
    assert!(!r.success);
    assert_eq!(r.message, "Phone number is required");
    assert_eq!(r.validity_seconds, 0);
    assert!(reject_empty_phone(&LoginRequest { phone: "5550001111".to_string() }).is_none());
}
