use dockpit::message::{detect_log_level, event_to_message, find_timestamp_end, parse_timestamp, split_at, KeyCode, KeyEvent, LogEntry, LogLevel, Message, TermEvent, Timestamp};
use dockpit::text::{ascii_lowercase, ascii_uppercase, contains_ci, decimal_string, parse_usize};

#[test]
fn parse_usize_follows_std_parse() {
    assert_eq!(parse_usize("42"), Some(42));
    assert_eq!(parse_usize("007"), Some(7));
    assert_eq!(parse_usize("+5"), Some(5));
    assert_eq!(parse_usize(""), None);
    assert_eq!(parse_usize("+"), None);
    assert_eq!(parse_usize("4a"), None);
    assert_eq!(parse_usize("-1"), None);
    assert_eq!(parse_usize(" 1"), None);
    for n in [0usize, 1, 99, 123456] {
        assert_eq!(parse_usize(&n.to_string()), n.to_string().parse::<usize>().ok());
    }
}

#[test]
fn decimal_string_renders_digits() {
    assert_eq!(decimal_string(0), "0");
    assert_eq!(decimal_string(7), "7");
    assert_eq!(decimal_string(1234), "1234");
    assert_eq!(decimal_string(u64::MAX), u64::MAX.to_string());
}

#[test]
fn ascii_case_folding_leaves_other_chars() {
    assert_eq!(ascii_uppercase("abc-Z é"), "ABC-Z é");
    assert_eq!(ascii_lowercase("OSC52 Ü"), "osc52 Ü");
}

#[test]
fn contains_ci_empty_needle_matches() {
    assert!(contains_ci("", ""));
    assert!(contains_ci("anything", ""));
    assert!(!contains_ci("ab", "ABC"));
    assert!(contains_ci("xxWaRnxx", "WARN"));
}

#[test]
fn detect_log_level_bracket_forms_and_priority() {
    assert_eq!(detect_log_level("[E] broken"), LogLevel::Error);
    assert_eq!(detect_log_level("2024 WRN] slow"), LogLevel::Warn);
    assert_eq!(detect_log_level("[i] hello"), LogLevel::Info);
    assert_eq!(detect_log_level("DBG] x"), LogLevel::Debug);
    assert_eq!(detect_log_level("[t] y"), LogLevel::Trace);
    assert_eq!(detect_log_level("warn before error"), LogLevel::Error);
    assert_eq!(detect_log_level("plain text"), LogLevel::Unknown);
}

#[test]
fn parse_timestamp_splits_docker_prefix() {
    let line = "2024-01-15T10:30:45.123456789Z ERROR disk full";
    let (ts, rest) = parse_timestamp(line);
    assert_eq!(ts, Some(Timestamp { secs: 1705314645, nanos: 123456789 }));
    assert_eq!(rest, "ERROR disk full");
}

#[test]
fn parse_timestamp_keeps_offset_times_in_utc() {
    let line = "2024-01-15T12:30:45.5+02:00 INFO shifted clock line";
    let (ts, rest) = parse_timestamp(line);
    assert_eq!(ts, Some(Timestamp { secs: 1705314645, nanos: 500000000 }));
    assert_eq!(rest, "INFO shifted clock line");
}

#[test]
fn parse_timestamp_rejects_short_or_invalid_prefixes() {
    let short = "2024-01-15T10:30:45Z short";
    assert_eq!(parse_timestamp(short), (None, short));
    let bad = "2024-13-45T99:99:99.000000000Z INFO invalid date";
    assert_eq!(parse_timestamp(bad), (None, bad));
    let no_dash = "this line is long enough but has no timestamp";
    assert_eq!(parse_timestamp(no_dash), (None, no_dash));
    let no_space = "2024-01-15T10:30:45.123456789Z_no_space_anywhere";
    assert_eq!(parse_timestamp(no_space), (None, no_space));
}

#[test]
fn log_entry_from_raw_parses_all_parts() {
    let e = LogEntry::from_raw("2024-01-15T10:30:45.123456789Z WARN low memory");
    assert_eq!(e.timestamp, Some(Timestamp { secs: 1705314645, nanos: 123456789 }));
    assert_eq!(e.content, "WARN low memory");
    assert_eq!(e.level, LogLevel::Warn);
    let plain = LogEntry::from_raw("no timestamp here");
    assert_eq!(plain.timestamp, None);
    assert_eq!(plain.content, "no timestamp here");
    assert_eq!(plain.level, LogLevel::Unknown);
}

#[test]
fn timestamps_order_by_seconds_then_nanos() {
    let a = Timestamp { secs: 10, nanos: 5 };
    let b = Timestamp { secs: 10, nanos: 6 };
    let c = Timestamp { secs: 11, nanos: 0 };
    assert!(a.is_earlier(&b));
    assert!(b.is_earlier(&c));
    assert!(!c.is_earlier(&a));
    assert!(!a.is_earlier(&a));
}

#[test]
fn terminal_events_become_messages() {
    let ctrl_c = TermEvent::Key(KeyEvent { code: KeyCode::Char('c'), control: true });
    assert!(matches!(event_to_message(ctrl_c), Some(Message::Quit)));
    let c = TermEvent::Key(KeyEvent { code: KeyCode::Char('c'), control: false });
    assert!(matches!(
        event_to_message(c),
        Some(Message::KeyPressed(KeyEvent { code: KeyCode::Char('c'), control: false }))
    ));
    assert!(matches!(event_to_message(TermEvent::Resize(40)), Some(Message::Resize(40))));
    assert!(event_to_message(TermEvent::Other).is_none());
}

#[test]
fn timestamp_end_is_the_first_space_of_a_long_dashed_line() {
    assert_eq!(find_timestamp_end("2024-01-15T10:30:45.123456789Z ERROR disk full"), Some(30));
    assert_eq!(find_timestamp_end("2024-01-15T10:30:45Z short"), None);
    assert_eq!(find_timestamp_end("2024-01-15T10:30:45.123456789Z_no_space_anywhere"), None);
    assert_eq!(find_timestamp_end("this line is long enough but has no timestamp"), None);
}

#[test]
fn split_at_uses_the_given_instant() {
    let line = "stamp-of-any-shape rest of line";
    assert_eq!(split_at(line, 18, Some((42, 7))), (Some(Timestamp { secs: 42, nanos: 7 }), "rest of line"));
    assert_eq!(split_at(line, 18, None), (None, line));
}
