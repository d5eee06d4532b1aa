use picopilot::format::{normalize_timeout_value, shell_timeout, TimeoutValue};
use picopilot::format::{
    collapsed_whitespace, format_count, format_elapsed, format_timeout,
    is_in_progress_todo_status, parse_timeout_ms, todo_status_is_finished,
    todo_status_is_in_progress,
};

#[test]
fn elapsed_times_match_the_spinner_formats() {
    assert_eq!(format_elapsed(0), "0s");
    assert_eq!(format_elapsed(12_000), "12s");
    assert_eq!(format_elapsed(59_999), "59s");
    assert_eq!(format_elapsed(65_000), "1m 5s");
    assert_eq!(format_elapsed(3_723_000), "1h 2m 3s");
    assert_eq!(format_elapsed(93_783_000), "1d 2h 3m");
    assert_eq!(format_elapsed(119_500), "2m 0s");
    assert_eq!(format_elapsed(119_499), "1m 59s");
}

#[test]
fn timeouts_round_up_to_seconds_and_skip_zero_parts() {
    assert_eq!(format_timeout(0), "0s");
    assert_eq!(format_timeout(1), "1s");
    assert_eq!(format_timeout(1_000), "1s");
    assert_eq!(format_timeout(90_000), "1m 30s");
    assert_eq!(format_timeout(3_600_000), "1h");
    assert_eq!(format_timeout(90_061_000), "1d 1h 1m 1s");
    assert_eq!(format_timeout(86_400_000), "1d");
    assert_eq!(format_timeout(u64::MAX), "213503982334d 14h 25m 51s");
}

#[test]
fn timeout_strings_parse_into_milliseconds() {
    assert_eq!(parse_timeout_ms("90"), Some(90));
    assert_eq!(parse_timeout_ms(" 30s "), Some(30_000));
    assert_eq!(parse_timeout_ms("1m 30s"), Some(90_000));
    assert_eq!(parse_timeout_ms("1m30s"), Some(90_000));
    assert_eq!(parse_timeout_ms("250ms"), Some(250));
    assert_eq!(parse_timeout_ms("2 h"), Some(7_200_000));
    assert_eq!(parse_timeout_ms("1d"), Some(86_400_000));
    assert_eq!(parse_timeout_ms(""), None);
    assert_eq!(parse_timeout_ms("   "), None);
    assert_eq!(parse_timeout_ms("s"), None);
    assert_eq!(parse_timeout_ms("5 10"), None);
    assert_eq!(parse_timeout_ms("5x"), None);
    assert_eq!(parse_timeout_ms("-5"), None);
    assert_eq!(parse_timeout_ms("18446744073709551615"), Some(u64::MAX));
    assert_eq!(parse_timeout_ms("18446744073709551616"), None);
    assert_eq!(parse_timeout_ms("18446744073709551615s"), None);
    assert_eq!(parse_timeout_ms("18446744073709551615 1"), None);
    assert_eq!(parse_timeout_ms("5 ms"), Some(5));
}

#[test]
fn formatted_timeouts_parse_back_to_whole_seconds() {
    for milliseconds in [0u64, 1, 999, 1_000, 61_001, 3_599_999, 90_061_000, 123_456_789] {
        let rounded = milliseconds.div_ceil(1_000) * 1_000;
        assert_eq!(
            parse_timeout_ms(&format_timeout(milliseconds)),
            Some(rounded),
            "{milliseconds}"
        );
    }
}

#[test]
fn counts_get_thousands_separators() {
    assert_eq!(format_count(0), "0");
    assert_eq!(format_count(999), "999");
    assert_eq!(format_count(1_000), "1,000");
    assert_eq!(format_count(1_234_567), "1,234,567");
    assert_eq!(format_count(-1_234), "-1,234");
    assert_eq!(format_count(i64::MAX), "9,223,372,036,854,775,807");
}

#[test]
fn whitespace_runs_collapse_to_single_spaces() {
    assert_eq!(
        collapsed_whitespace("description   with\n collapsed whitespace"),
        "description with collapsed whitespace"
    );
    assert_eq!(collapsed_whitespace("  a\t\tb  "), "a b");
    assert_eq!(collapsed_whitespace(""), "");
    assert_eq!(collapsed_whitespace(" \u{3000} "), "");
    assert_eq!(collapsed_whitespace("x"), "x");
}

#[test]
fn todo_statuses_are_classified() {
    assert!(todo_status_is_finished(" Completed "));
    assert!(todo_status_is_finished("done"));
    assert!(todo_status_is_finished("CANCELED"));
    assert!(!todo_status_is_finished("pending"));
    assert!(todo_status_is_in_progress("in_progress"));
    assert!(todo_status_is_in_progress("In Progress"));
    assert!(todo_status_is_in_progress("working"));
    assert!(!todo_status_is_in_progress("active"));
    assert!(is_in_progress_todo_status("in-progress"));
    assert!(is_in_progress_todo_status(" In Progress "));
    assert!(is_in_progress_todo_status("inprogress"));
    assert!(is_in_progress_todo_status("ACTIVE"));
    assert!(is_in_progress_todo_status("doing"));
    assert!(!is_in_progress_todo_status("working"));
}

#[test]
fn timeout_arguments_are_shown_in_the_timeout_format() {
    let text = |value: &str| TimeoutValue::Text(value.to_string());
    assert_eq!(normalize_timeout_value(&text("90")).as_deref(), Some("1s"));
    assert_eq!(normalize_timeout_value(&text("1m 30s")).as_deref(), Some("1m 30s"));
    assert_eq!(normalize_timeout_value(&text(" 2h ")).as_deref(), Some("2h"));
    assert_eq!(normalize_timeout_value(&text(" soon ")).as_deref(), Some("soon"));
    assert_eq!(normalize_timeout_value(&text("   ")), None);
    assert_eq!(
        normalize_timeout_value(&TimeoutValue::Number(Some(120_000))).as_deref(),
        Some("2m")
    );
    assert_eq!(normalize_timeout_value(&TimeoutValue::Number(None)), None);
    assert_eq!(normalize_timeout_value(&TimeoutValue::Other), None);
}

#[test]
fn a_shown_timeout_normalizes_to_itself() {
    for value in ["90", "1m 30s", "3601s", "2d", " later ", "5 ms"] {
        let shown = normalize_timeout_value(&TimeoutValue::Text(value.to_string()))
            .expect("non-blank timeouts are shown");
        assert_eq!(
            normalize_timeout_value(&TimeoutValue::Text(shown.clone())),
            Some(shown)
        );
    }
}

#[test]
fn shell_timeouts_come_from_the_first_known_field() {
    let field = |name: &str, value: TimeoutValue| (name.to_string(), value);
    assert_eq!(shell_timeout(None), None);
    let empty: Vec<(String, TimeoutValue)> = Vec::new();
    assert_eq!(shell_timeout(Some(&empty)), None);

    let millis = vec![
        field("command", TimeoutValue::Text("cargo test".to_string())),
        field("timeoutMs", TimeoutValue::Number(Some(90_000))),
    ];
    assert_eq!(shell_timeout(Some(&millis)).as_deref(), Some("1m 30s"));

    let both = vec![
        field("timeoutMs", TimeoutValue::Number(Some(90_000))),
        field("timeout", TimeoutValue::Text("  soon ".to_string())),
    ];
    assert_eq!(shell_timeout(Some(&both)).as_deref(), Some("soon"));

    let unusable = vec![
        field("timeout", TimeoutValue::Other),
        field("timeout_ms", TimeoutValue::Number(Some(1_000))),
    ];
    assert_eq!(shell_timeout(Some(&unusable)), None);
}
