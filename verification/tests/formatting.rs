use chrono::{NaiveDate, NaiveTime};
use vibe_clock::formatting::{format_duration, format_totals, parse_date, parse_duration, parse_time};
use vibe_clock::time::{Date, Timestamp};

fn day(y: i32, m: u32, d: u32) -> Date {
    let date = NaiveDate::from_ymd_opt(y, m, d).unwrap();
    let epoch = NaiveDate::from_ymd_opt(1970, 1, 1).unwrap();
    Date::from_days(date.signed_duration_since(epoch).num_days()).unwrap()
}

fn at(y: i32, m: u32, d: u32, h: u32, min: u32, s: u32) -> Timestamp {
    let dt = NaiveDate::from_ymd_opt(y, m, d).unwrap().and_hms_opt(h, min, s).unwrap();
    Timestamp::from_secs(dt.and_utc().timestamp()).unwrap()
}

#[test]
fn format_hours_and_minutes() {
    assert_eq!(format_duration(90), "1h 30m");
}

#[test]
fn format_hours_only() {
    assert_eq!(format_duration(120), "2h");
}

#[test]
fn format_minutes_only() {
    assert_eq!(format_duration(45), "45m");
}

#[test]
fn format_zero() {
    assert_eq!(format_duration(0), "0m");
}

#[test]
fn parse_plain_integer() {
    assert_eq!(parse_duration("90").unwrap(), 90);
}

#[test]
fn parse_hours_and_minutes() {
    assert_eq!(parse_duration("1h 30m").unwrap(), 90);
}

#[test]
fn parse_hours_only() {
    assert_eq!(parse_duration("2h").unwrap(), 120);
}

#[test]
fn parse_minutes_only() {
    assert_eq!(parse_duration("45m").unwrap(), 45);
}

#[test]
fn parse_rejects_zero() {
    assert!(parse_duration("0").is_err());
}

#[test]
fn parse_rejects_negative() {
    assert!(parse_duration("-5").is_err());
}

#[test]
fn parse_rejects_garbage() {
    assert!(parse_duration("abc").is_err());
}

#[test]
fn parse_date_today() {
    let today = day(2026, 2, 28);
    let result = parse_date("today", today).unwrap();
    assert_eq!(result, today);
}

#[test]
fn parse_date_yesterday() {
    let today = day(2026, 3, 1);
    let result = parse_date("yesterday", today).unwrap();
    let expected = day(2026, 2, 28);
    assert_eq!(result, expected);
}

#[test]
fn parse_date_iso() {
    let result = parse_date("2026-01-15", day(2026, 2, 28)).unwrap();
    assert_eq!(result, day(2026, 1, 15));
}

#[test]
fn parse_date_invalid() {
    assert!(parse_date("not-a-date", day(2026, 2, 28)).is_err());
}

#[test]
fn parse_time_hhmm() {
    let today = day(2026, 2, 28);
    let result = parse_time("14:30", today).unwrap();
    let time = NaiveTime::from_hms_opt(14, 30, 0).unwrap();
    let expected = NaiveDate::from_ymd_opt(2026, 2, 28).unwrap().and_time(time);
    assert_eq!(result.secs(), expected.and_utc().timestamp());
    assert_eq!(result.format_hm(), "14:30");
}

#[test]
fn parse_time_iso_datetime() {
    let result = parse_time("2026-01-15T09:00", day(2026, 2, 28)).unwrap();
    assert_eq!(result, at(2026, 1, 15, 9, 0, 0));
}

#[test]
fn parse_time_invalid() {
    assert!(parse_time("nope", day(2026, 2, 28)).is_err());
}

#[test]
fn format_totals_output() {
    let per_project = vec![("Acme", 120i64), ("Beta", 45i64)];
    let result = format_totals(&per_project, 165);
    assert!(result.contains("Acme"));
    assert!(result.contains("2h"));
    assert!(result.contains("Beta"));
    assert!(result.contains("45m"));
    assert!(result.contains("2h 45m"));
}

#[test]
fn format_totals_exact_text() {
    let per_project = vec![("Acme", 120i64), ("Beta", 45i64)];
    let result = format_totals(&per_project, 165);
    let expected = "\nTotals:\n  Acme                 2h\n  Beta                 45m\n  TOTAL                2h 45m";
    assert_eq!(result, expected);
}

#[test]
fn format_totals_without_projects() {
    let per_project: Vec<(&str, i64)> = Vec::new();
    assert_eq!(format_totals(&per_project, 0), "\nTotals:\n  TOTAL                0m");
}

#[test]
fn format_totals_keeps_a_long_name_whole() {
    let per_project = vec![("A project with a very long name", 5i64)];
    let result = format_totals(&per_project, 5);
    assert!(result.contains("  A project with a very long name 5m\n"));
}

#[test]
fn format_negative_minutes_prints_the_remainder() {
    assert_eq!(format_duration(-90), "-30m");
    assert_eq!(format_duration(-60), "0m");
    assert_eq!(format_duration(i64::MIN), "-8m");
}

#[test]
fn format_large_durations() {
    assert_eq!(format_duration(59), "59m");
    assert_eq!(format_duration(60), "1h");
    assert_eq!(format_duration(61), "1h 1m");
    assert_eq!(format_duration(i64::MAX), "153722867280912930h 7m");
}

#[test]
fn parse_duration_trims_white_space() {
    assert_eq!(parse_duration("  90 ").unwrap(), 90);
    assert_eq!(parse_duration(" 1h 30m\n").unwrap(), 90);
    assert_eq!(parse_duration("1h30m").unwrap(), 90);
    assert_eq!(parse_duration("+15").unwrap(), 15);
}

#[test]
fn parse_duration_messages() {
    assert_eq!(parse_duration("0").unwrap_err().message(), "Duration must be greater than 0");
    assert_eq!(
        parse_duration("xh").unwrap_err().message(),
        "Invalid hours in duration: 'xh'"
    );
    assert_eq!(
        parse_duration(" 1h xm ").unwrap_err().message(),
        "Invalid minutes in duration: '1h xm'"
    );
    assert_eq!(
        parse_duration("abc").unwrap_err().message(),
        "Invalid duration format: 'abc'. Use minutes (e.g., '90') or 'Xh Ym' (e.g., '1h 30m')"
    );
    assert_eq!(parse_duration("abc").unwrap_err().exit_code(), 1);
}

#[test]
fn parse_duration_rejects_a_total_that_is_not_positive() {
    assert!(parse_duration("0h").is_err());
    assert!(parse_duration("0h 0m").is_err());
    assert!(parse_duration("1h -60m").is_err());
    assert_eq!(parse_duration("2h -30m").unwrap(), 90);
}

#[test]
fn parse_duration_rejects_minutes_before_hours() {
    assert!(parse_duration("5m 3h").is_err());
}

#[test]
fn parse_duration_rejects_a_total_beyond_the_range() {
    assert!(parse_duration("9223372036854775807h").is_err());
    assert_eq!(parse_duration("9223372036854775807").unwrap(), i64::MAX);
    assert_eq!(parse_duration("153722867280912930h 7m").unwrap(), i64::MAX);
    assert!(parse_duration("153722867280912930h 8m").is_err());
}

#[test]
fn parse_date_ignores_case_and_white_space() {
    let today = day(2026, 2, 28);
    assert_eq!(parse_date("  Today ", today).unwrap(), today);
    assert_eq!(parse_date("YESTERDAY", today).unwrap(), day(2026, 2, 27));
}

#[test]
fn parse_date_message() {
    let e = parse_date(" Not-A-Date ", day(2026, 2, 28)).unwrap_err();
    assert_eq!(
        e.message(),
        "Invalid date: 'not-a-date'. Use YYYY-MM-DD, 'today', or 'yesterday'"
    );
    assert_eq!(e.exit_code(), 1);
}

#[test]
fn parse_date_rejects_a_year_beyond_four_digits() {
    assert!(parse_date("+10000-01-01", day(2026, 2, 28)).is_err());
    assert!(parse_date("-0001-12-31", day(2026, 2, 28)).is_err());
    assert_eq!(parse_date("9999-12-31", day(2026, 2, 28)).unwrap().days(), 2_932_896);
    assert_eq!(parse_date("0000-01-01", day(2026, 2, 28)).unwrap().days(), -719_528);
}

#[test]
fn parse_date_yesterday_of_the_first_day_is_rejected() {
    let first = Date::from_days(-719_528).unwrap();
    assert!(parse_date("yesterday", first).is_err());
    assert_eq!(parse_date("today", first).unwrap(), first);
}

#[test]
fn parse_time_with_seconds() {
    let result = parse_time(" 2026-01-15T09:00:30 ", day(2026, 2, 28)).unwrap();
    assert_eq!(result, at(2026, 1, 15, 9, 0, 30));
    assert_eq!(result.format_stored(), "2026-01-15T09:00:30");
}

#[test]
fn parse_time_message() {
    let e = parse_time(" nope ", day(2026, 2, 28)).unwrap_err();
    assert_eq!(e.message(), "Invalid time: 'nope'. Use YYYY-MM-DDTHH:MM or HH:MM");
    assert_eq!(e.exit_code(), 1);
}

#[test]
fn parse_time_rejects_a_year_beyond_four_digits() {
    assert!(parse_time("+10000-01-01T00:00", day(2026, 2, 28)).is_err());
}

#[test]
fn timestamps_print_as_chrono_prints_them() {
    let t = at(2026, 2, 25, 9, 5, 7);
    assert_eq!(t.format_hm(), "09:05");
    assert_eq!(t.format_minute(), "2026-02-25 09:05");
    assert_eq!(t.format_stored(), "2026-02-25T09:05:07");
    assert_eq!(t.date(), day(2026, 2, 25));
    assert_eq!(day(2026, 2, 25).format_iso(), "2026-02-25");
}

#[test]
fn the_first_and_the_last_second_print_in_four_digits() {
    let first = Timestamp::from_secs(-62_167_219_200).unwrap();
    let last = Timestamp::from_secs(253_402_300_799).unwrap();
    assert_eq!(first.format_stored(), "0000-01-01T00:00:00");
    assert_eq!(last.format_stored(), "9999-12-31T23:59:59");
    assert!(Timestamp::from_secs(-62_167_219_201).is_none());
    assert!(Timestamp::from_secs(253_402_300_800).is_none());
    assert_eq!(first.date().days(), -719_528);
    assert_eq!(last.date().days(), 2_932_896);
    assert!(Date::from_days(-719_529).is_none());
    assert!(Date::from_days(2_932_897).is_none());
}

#[test]
fn dates_before_the_epoch_round_down() {
    let t = at(1969, 12, 31, 23, 59, 59);
    assert_eq!(t.secs(), -1);
    assert_eq!(t.date(), day(1969, 12, 31));
    assert_eq!(t.date().days(), -1);
    assert_eq!(at(1969, 12, 31, 0, 0, 0).date().days(), -1);
    assert_eq!(at(1969, 12, 30, 23, 59, 59).date().days(), -2);
}

#[test]
fn minutes_round_toward_zero() {
    let a = at(2026, 2, 25, 9, 0, 0);
    let b = at(2026, 2, 25, 9, 5, 59);
    assert_eq!(b.minutes_since(&a), 5);
    assert_eq!(a.minutes_since(&b), -5);
    assert_eq!(a.minutes_since(&a), 0);
    let c = at(2026, 2, 25, 9, 0, 59);
    assert_eq!(a.minutes_since(&c), 0);
}

#[test]
fn a_clamped_second_stays_in_range() {
    assert_eq!(Timestamp::clamped(i64::MAX).secs(), 253_402_300_799);
    assert_eq!(Timestamp::clamped(i64::MIN).secs(), -62_167_219_200);
    assert_eq!(Timestamp::clamped(42).secs(), 42);
}

#[test]
fn a_day_starts_at_midnight() {
    let d = day(2026, 2, 25);
    assert_eq!(d.at_second(0), at(2026, 2, 25, 0, 0, 0));
    assert_eq!(d.at_second(86_399), at(2026, 2, 25, 23, 59, 59));
    assert_eq!(d.pred().unwrap(), day(2026, 2, 24));
}
