use chrono_term::detector::{
    detect_log_level, find_column_positions, is_error_line, is_json_line, is_stack_trace_line,
    is_success_line, is_table_row, is_table_separator, is_warning_line, peek_for_colon,
};
use chrono_term::detector::{error_in_lowercase, log_level_from_uppercase, success_in_lowercase, warning_in_lowercase};
use chrono_term::{ContentDetector, ContentType, JsonTokenType, LogLevel};

#[test]
fn test_detect_log_levels() {
    assert_eq!(detect_log_level("INFO: Starting server"), Some(LogLevel::Info));
    assert_eq!(detect_log_level("[ERROR] Failed to connect"), Some(LogLevel::Error));
    assert_eq!(detect_log_level("WARN: Deprecated function"), Some(LogLevel::Warn));
    assert_eq!(detect_log_level("DEBUG: Variable value = 42"), Some(LogLevel::Debug));
}

#[test]
fn test_detect_stack_traces() {
    assert!(is_stack_trace_line("at src/main.rs:42:5"));
    assert!(is_stack_trace_line("   at Main.main(Main.java:15)"));
    assert!(is_stack_trace_line("  File \"script.py\", line 42, in function"));
    assert!(is_stack_trace_line("    at Object.<anonymous> (app.js:10:5)"));
}

#[test]
fn test_detect_errors() {
    assert!(is_error_line("error: could not compile"));
    assert!(is_error_line("Exception in thread main"));
    assert!(is_error_line("ERROR: Connection failed"));
}

#[test]
fn test_detect_json() {
    assert!(is_json_line(r#"{"name": "John", "age": 30}"#));
    assert!(is_json_line(r#"  "config": {"debug": true}"#));
    assert!(is_json_line(r#"[1, 2, 3]"#));
}

#[test]
fn test_detect_table_separator() {
    assert!(is_table_separator("+-------+-------+"));
    assert!(is_table_separator("|-------|-------|"));
    assert!(is_table_separator("===================="));
    assert!(!is_table_separator("normal text"));
}

#[test]
fn other_levels_and_kinds() {
    assert_eq!(detect_log_level("fatal: broken"), Some(LogLevel::Fatal));
    assert_eq!(detect_log_level("trace: step"), Some(LogLevel::Trace));
    assert_eq!(detect_log_level("hello"), None);
    assert!(is_warning_line("warning: unused"));
    assert!(!is_warning_line("all fine"));
    assert!(is_success_line("Tests passed"));
    assert!(is_success_line("ok"));
    assert!(!is_success_line("ok but error"));
}

#[test]
fn separator_ratio_edge() {
    // 7 of 10 visible characters are separators: exactly 70%.
    assert!(is_table_separator("+++++++abc"));
    // 6 of 10: below.
    assert!(!is_table_separator("++++++abcd"));
    assert!(!is_table_separator("++"));
}

#[test]
fn table_rows_follow_separator() {
    assert_eq!(find_column_positions("+--+--+"), vec![0, 3, 6]);
    assert!(is_table_row("| a | b |", &[0, 4, 8]));
    assert!(!is_table_row("plain", &[0, 4, 8]));
    assert!(!is_table_row("| x", &[]));
    let mut d = ContentDetector::new();
    assert_eq!(d.detect_line("+---+---+"), ContentType::Table);
    assert_eq!(d.detect_line("| a | b |"), ContentType::Table);
    assert_eq!(d.detect_line("just words"), ContentType::Normal);
}

#[test]
fn detect_line_priorities() {
    let mut d = ContentDetector::new();
    assert_eq!(d.detect_line("  at src/main.rs:1:2"), ContentType::StackTrace);
    assert_eq!(d.detect_line("INFO ready"), ContentType::Log(LogLevel::Info));
    assert_eq!(d.detect_line("Exception in thread main"), ContentType::Error);
    assert_eq!(d.detect_line("Traceback (most recent call last):"), ContentType::Log(LogLevel::Trace));
    assert_eq!(d.detect_line("Caution: hot"), ContentType::Warning);
    assert_eq!(d.detect_line("build success"), ContentType::Success);
    assert_eq!(d.detect_line("{\"a\": 1}"), ContentType::Json);
}

#[test]
fn json_fragments() {
    let d = ContentDetector::new();
    let f = d.parse_json_fragments(r#"{"k": [true, -1.5e3, null]}"#);
    let kinds: Vec<JsonTokenType> = f.iter().map(|x| x.token_type).collect();
    assert_eq!(
        kinds,
        vec![
            JsonTokenType::BraceOpen,
            JsonTokenType::Key,
            JsonTokenType::Colon,
            JsonTokenType::BracketOpen,
            JsonTokenType::Boolean,
            JsonTokenType::Comma,
            JsonTokenType::Number,
            JsonTokenType::Comma,
            JsonTokenType::Null,
            JsonTokenType::BracketClose,
            JsonTokenType::BraceClose,
        ]
    );
    assert_eq!((f[4].start_col, f[4].end_col), (7, 11));
    assert_eq!((f[6].start_col, f[6].end_col), (13, 19));
    assert_eq!(f[3].depth, 1);
    assert_eq!(f[9].depth, 1);
    assert_eq!(f[10].depth, 0);
    let chars: Vec<char> = "\"a\" :".chars().collect();
    assert!(peek_for_colon(&chars, 1));
    let chars: Vec<char> = "\"a\" x".chars().collect();
    assert!(!peek_for_colon(&chars, 1));
}

#[test]
fn markers_on_case_mapped_text() {
    assert_eq!(log_level_from_uppercase("[INF] READY"), Some(LogLevel::Info));
    assert_eq!(log_level_from_uppercase("critical: disk"), None);
    assert_eq!(log_level_from_uppercase("CRITICAL: DISK"), Some(LogLevel::Fatal));
    assert!(error_in_lowercase("error: bad"));
    assert!(!error_in_lowercase("ERROR: bad"));
    assert!(warning_in_lowercase("warning[e1]: x"));
    assert!(success_in_lowercase("all ok"));
    assert!(!success_in_lowercase("ok but error"));
}
