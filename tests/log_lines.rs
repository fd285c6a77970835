use avsync::logline::{parse_log_entry, split_words, LogEntry};

#[test]
fn log_line_with_message() {
    let e = parse_log_entry("2024-01-01T00:00:00 INFO server started on port 80").unwrap();
    assert_eq!(
        e,
        LogEntry {
            timestamp: "2024-01-01T00:00:00".to_string(),
            level: "INFO".to_string(),
            message: "server started on port 80".to_string(),
        }
    );
}

#[test]
fn log_line_collapses_whitespace_in_message() {
    let e = parse_log_entry("  t1\tWARN  disk\n  almost\u{3000}full  ").unwrap();
    assert_eq!(e.timestamp, "t1");
    assert_eq!(e.level, "WARN");
    assert_eq!(e.message, "disk almost full");
}

#[test]
fn log_line_with_three_words() {
    let e = parse_log_entry("t ERROR boom").unwrap();
    assert_eq!(e.message, "boom");
}

#[test]
fn short_log_lines_are_rejected() {
    assert_eq!(parse_log_entry(""), None);
    assert_eq!(parse_log_entry("   "), None);
    assert_eq!(parse_log_entry("t INFO"), None);
    assert_eq!(parse_log_entry("t\u{a0}INFO\u{2003}"), None);
}

#[test]
fn words_match_std_split() {
    let line = " a\u{85}bc \u{200b}d\r\ne\u{1680}ff  ";
    let expected: Vec<String> = line.split_whitespace().map(|w| w.to_string()).collect();
    assert_eq!(split_words(line), expected);
    assert_eq!(split_words(line).len(), 5);
}
