use vibe_clock::db::{parse_datetime, parse_optional_datetime, stored_time};
use vibe_clock::error::AppError;
use vibe_clock::formatting::table::{push_clipped, push_header, push_row, push_rule};
use vibe_clock::formatting::{resolve_date, resolve_time};
use vibe_clock::text::{find_char, int_to_string, push_int, push_padded, same_text, text_before};
use vibe_clock::time::Date;

#[test]
fn integers_print_in_decimal() {
    for n in [0i64, 1, 9, 10, 11, 99, 100, 101, 12345, -1, -10, -999, i64::MAX, i64::MIN, i64::MIN + 1] {
        assert_eq!(int_to_string(n), n.to_string());
    }
    let mut out = String::from("n=");
    push_int(&mut out, -42);
    assert_eq!(out, "n=-42");
}

#[test]
fn padding_fills_to_the_width_and_never_cuts() {
    for (text, width) in [("", 0usize), ("", 3), ("ab", 2), ("ab", 5), ("abcdef", 3), ("äö", 4)] {
        let mut out = String::from(">");
        push_padded(&mut out, text, width);
        assert_eq!(out, format!(">{:<width$}", text, width = width));
    }
}

#[test]
fn the_first_of_a_character_is_found() {
    assert_eq!(find_char("1h 30m", 'h'), 1);
    assert_eq!(find_char("1h 30m", 'm'), 5);
    assert_eq!(find_char("hh", 'h'), 0);
    assert_eq!(find_char("abc", 'h'), 3);
    assert_eq!(find_char("", 'h'), 0);
    // Positions count characters, not bytes.
    assert_eq!(find_char("ééh", 'h'), 2);
}

#[test]
fn texts_compare_as_in_a_dictionary_of_code_points() {
    let words = ["", "A", "AB", "B", "a", "ab", "b", "é", "\u{10000}", "\u{ffff}"];
    for a in words {
        for b in words {
            assert_eq!(text_before(a, b), a < b, "{a:?} before {b:?}");
            assert_eq!(same_text(a, b), a == b);
        }
    }
}

#[test]
fn errors_carry_their_kind_and_message() {
    let user = AppError::user("wrong");
    assert!(matches!(user, AppError::UserError(_)));
    assert_eq!((user.exit_code(), user.message().as_str()), (1, "wrong"));
    let system = AppError::system("broken");
    assert!(matches!(system, AppError::SystemError(_)));
    assert_eq!((system.exit_code(), system.message().as_str()), (2, "broken"));
    let about = AppError::user_about("Project '", "Acme", "' not found.");
    assert_eq!((about.exit_code(), about.message().as_str()), (1, "Project 'Acme' not found."));
}

#[test]
fn stored_times_read_back() {
    let t = parse_datetime("2026-02-25T09:05:07").unwrap();
    assert_eq!(t.format_stored(), "2026-02-25T09:05:07");
    assert_eq!(parse_optional_datetime(Some("2026-02-25T09:05:07")).unwrap(), Some(t));
    assert_eq!(parse_optional_datetime(None).unwrap(), None);
    for bad in ["2026-02-25 09:05:07", "2026-02-25T09:05", "", "tomorrow", "+12026-02-25T09:05:07"] {
        let e = parse_datetime(bad).unwrap_err();
        assert_eq!(e.exit_code(), 2);
        assert_eq!(e.message(), format!("Invalid datetime in database: '{bad}'"));
        assert!(parse_optional_datetime(Some(bad)).is_err());
    }
}

#[test]
fn a_stored_time_outside_the_range_is_refused() {
    assert_eq!(stored_time("x", Some(0)).unwrap().secs(), 0);
    assert_eq!(stored_time("x", Some(253_402_300_799)).unwrap().secs(), 253_402_300_799);
    for parsed in [None, Some(253_402_300_800), Some(i64::MIN)] {
        let e = stored_time("x", parsed).unwrap_err();
        assert_eq!((e.exit_code(), e.message().as_str()), (2, "Invalid datetime in database: 'x'"));
    }
}

#[test]
fn a_date_is_named_from_what_its_text_writes() {
    let today = Date::from_days(20_512).unwrap();
    assert_eq!(resolve_date("today", None, today).unwrap(), today);
    assert_eq!(resolve_date("today", Some(0), today).unwrap(), today);
    assert_eq!(resolve_date("yesterday", Some(0), today).unwrap().days(), 20_511);
    assert_eq!(resolve_date("1970-01-02", Some(86_400), today).unwrap().days(), 1);
    assert_eq!(resolve_date("1969-12-31", Some(-86_400), today).unwrap().days(), -1);
    assert_eq!(resolve_date("x", Some(-1), today).unwrap().days(), -1);
    for parsed in [None, Some(253_402_300_800), Some(-62_167_219_201)] {
        let e = resolve_date("x", parsed, today).unwrap_err();
        assert_eq!(e.exit_code(), 1);
        assert_eq!(e.message(), "Invalid date: 'x'. Use YYYY-MM-DD, 'today', or 'yesterday'");
    }
    // Only the lower-case words name a day.
    assert!(resolve_date("Today", None, today).is_err());
}

#[test]
fn a_time_is_named_from_the_first_form_that_its_text_writes() {
    let today = Date::from_days(1).unwrap();
    assert_eq!(resolve_time("x", Some(5), Some(6), Some(7), today).unwrap().secs(), 5);
    assert_eq!(resolve_time("x", None, Some(6), Some(7), today).unwrap().secs(), 6);
    assert_eq!(resolve_time("x", None, None, Some(7), today).unwrap().secs(), 86_407);
    assert_eq!(resolve_time("x", None, None, Some(86_399), today).unwrap().secs(), 172_799);
    let refused = [
        (None, None, None),
        (None, None, Some(86_400)),
        (Some(253_402_300_800), Some(6), Some(7)),
        (None, Some(-62_167_219_201), Some(7)),
    ];
    for (full, minute, time_of_day) in refused {
        let e = resolve_time("x", full, minute, time_of_day, today).unwrap_err();
        assert_eq!(e.exit_code(), 1);
        assert_eq!(e.message(), "Invalid time: 'x'. Use YYYY-MM-DDTHH:MM or HH:MM");
    }
}

#[test]
fn the_pieces_of_the_table() {
    let mut out = String::new();
    push_rule(&mut out, 0);
    assert_eq!(out, "");
    push_rule(&mut out, 5);
    assert_eq!(out, "-----");

    let mut out = String::new();
    push_header(&mut out);
    assert_eq!(
        out,
        format!(
            "{:<6} {:<15} {:<30} {:<6} {:<6} {:<8}",
            "ID", "Project", "Description", "Start", "End", "Duration"
        )
    );

    let mut out = String::new();
    push_row(&mut out, -7, "P", "D", "09:00", "-", 61);
    assert_eq!(
        out,
        format!("{:<6} {:<15} {:<30} {:<6} {:<6} {:<8}", -7, "P", "D", "09:00", "-", "1h 1m")
    );

    for text in ["", "short", "exactly thirty bytes long, yes", "thirty-one bytes long, this one"] {
        let mut out = String::new();
        push_clipped(&mut out, text);
        let expected =
            if text.len() > 30 { format!("{}...", &text[..27]) } else { text.to_string() };
        assert_eq!(out, expected);
    }
    assert_eq!("exactly thirty bytes long, yes".len(), 30);
    assert_eq!("thirty-one bytes long, this one".len(), 31);
}
