use chrono_term::{
    analyze_line_context, detect_file_type_by_extension, extract_file_references,
    has_file_reference, is_file_listing, parse_file_entry, FileType, LineContext,
};
use chrono_term::context::{collect_file_references, context_from_checks, entry_from_captures, file_type_from_lowercase, listing_decision, parse_usize, plain_listing_check};

#[test]
fn test_error_detection() {
    assert_eq!(analyze_line_context("Error: file not found"), LineContext::Error);
    assert_eq!(analyze_line_context("FATAL: connection failed"), LineContext::Error);
    assert_eq!(
        analyze_line_context("thread panicked at main.rs:42"),
        LineContext::StackTrace
    );
}

#[test]
fn test_warning_detection() {
    assert_eq!(
        analyze_line_context("Warning: deprecated function"),
        LineContext::Warning
    );
    assert_eq!(analyze_line_context("WARN: low memory"), LineContext::Warning);
}

#[test]
fn test_file_reference_rust() {
    let refs = extract_file_references("at src/main.rs:42:10");
    assert_eq!(refs.len(), 1);
    assert_eq!(refs[0].path, "src/main.rs");
    assert_eq!(refs[0].line, Some(42));
    assert_eq!(refs[0].col, Some(10));
}

#[test]
fn test_file_reference_python() {
    let refs = extract_file_references(r#"File "/home/user/test.py", line 123"#);
    assert_eq!(refs.len(), 1);
    assert_eq!(refs[0].path, "/home/user/test.py");
    assert_eq!(refs[0].line, Some(123));
}

#[test]
fn test_stack_trace_detection() {
    let line = "    at /home/user/project/src/lib.rs:156:9";
    assert_eq!(analyze_line_context(line), LineContext::StackTrace);
    assert!(has_file_reference(line));
}

#[test]
fn reference_offsets_and_end() {
    let refs = extract_file_references("see src/lib.rs:7:3 now");
    assert_eq!(refs.len(), 1);
    assert_eq!(refs[0].start_col, 4);
    assert_eq!(refs[0].end_col, 18);
}

#[test]
fn normal_line_has_no_context() {
    assert_eq!(analyze_line_context("hello there, all good"), LineContext::Normal);
    assert!(!has_file_reference("nothing to see"));
}

#[test]
fn context_priority_order() {
    assert_eq!(context_from_checks(true, true, true, true), LineContext::FileList);
    assert_eq!(context_from_checks(false, true, true, true), LineContext::StackTrace);
    assert_eq!(context_from_checks(false, false, true, true), LineContext::Error);
    assert_eq!(context_from_checks(false, false, false, true), LineContext::Warning);
    assert_eq!(context_from_checks(false, false, false, false), LineContext::Normal);
}

#[test]
fn file_listing_lines() {
    assert!(is_file_listing("drwxr-xr-x 2 user group 4096 Jan 1 12:00 src"));
    assert!(is_file_listing("main.rs"));
    assert!(is_file_listing("src/"));
    assert!(!is_file_listing("$ ls -la"));
    assert!(!is_file_listing("error.log"));
    assert!(!is_file_listing("two  spaces"));
    assert!(!is_file_listing(""));
    assert!(listing_decision("x", true));
    assert!(!listing_decision("", true));
}

#[test]
fn file_types_by_extension() {
    assert_eq!(detect_file_type_by_extension("a.TAR"), FileType::Archive);
    assert_eq!(detect_file_type_by_extension("photo.png"), FileType::Image);
    assert_eq!(detect_file_type_by_extension("movie.mkv"), FileType::Video);
    assert_eq!(detect_file_type_by_extension("song.mp3"), FileType::Audio);
    assert_eq!(detect_file_type_by_extension("notes.md"), FileType::Document);
    assert_eq!(detect_file_type_by_extension("main.rs"), FileType::Code);
    assert_eq!(detect_file_type_by_extension("README"), FileType::RegularFile);
}

#[test]
fn long_listing_entry() {
    let line = "-rwxr-xr-x 1 user group 1234 Jan 1 12:00 run.sh";
    let e = parse_file_entry(line).unwrap();
    assert_eq!(e.name, "run.sh");
    assert!(e.is_executable);
    assert_eq!(e.file_type, FileType::RegularFile);
    assert_eq!(e.start_col, 41);
    assert_eq!(e.end_col, 47);
    let d = parse_file_entry("drwxr-xr-x 2 user group 4096 Jan 1 12:00 src").unwrap();
    assert_eq!(d.file_type, FileType::Directory);
}

#[test]
fn simple_listing_entry() {
    let e = parse_file_entry("  docs/").unwrap();
    assert_eq!(e.name, "docs");
    assert_eq!(e.file_type, FileType::Directory);
    assert_eq!(e.start_col, 2);
    assert_eq!(e.end_col, 6);
    let f = parse_file_entry("photo.png").unwrap();
    assert_eq!(f.file_type, FileType::Image);
    assert!(!f.is_executable);
    let s = parse_file_entry("build.sh").unwrap();
    assert!(s.is_executable);
    assert!(parse_file_entry("   ").is_none());
}

#[test]
fn entry_from_given_captures() {
    let caps = vec![
        Some((0usize, 10usize, "x".to_string())),
        Some((0usize, 1usize, "l".to_string())),
        Some((1usize, 10usize, "rwxrwxrwx".to_string())),
        Some((5usize, 9usize, "link".to_string())),
    ];
    let e = entry_from_captures("a link to link", Some(caps)).unwrap();
    assert_eq!(e.file_type, FileType::SymbolicLink);
    assert!(e.is_executable);
    assert_eq!(e.start_col, 10);
    assert_eq!(e.end_col, 14);
    assert!(entry_from_captures("x", Some(vec![None])).is_none());
}

#[test]
fn references_from_given_captures() {
    let m = |a: usize, b: usize, s: &str| Some((a, b, s.to_string()));
    let per = vec![
        vec![vec![m(0, 10, "a.rs:1:2"), m(0, 4, "a.rs"), m(5, 6, "1"), m(7, 8, "2")]],
        vec![vec![m(0, 10, "a.rs:1"), m(0, 4, "a.rs"), m(5, 6, "1")]],
        vec![vec![m(12, 20, "b.go:99"), m(12, 16, "b.go"), m(17, 19, "99999999999999999999999")]],
    ];
    let refs = collect_file_references(&per);
    assert_eq!(refs.len(), 2);
    assert_eq!(refs[0].path, "a.rs");
    assert_eq!(refs[0].line, Some(1));
    assert_eq!(refs[0].col, Some(2));
    assert_eq!(refs[1].path, "b.go");
    assert_eq!(refs[1].line, None);
    assert_eq!(refs[1].col, None);
    assert_eq!(refs[1].end_col, 20);
}

#[test]
fn parse_decimal() {
    assert_eq!(parse_usize("42"), Some(42));
    assert_eq!(parse_usize("+7"), Some(7));
    assert_eq!(parse_usize("+"), None);
    assert_eq!(parse_usize(""), None);
    assert_eq!(parse_usize("-1"), None);
    assert_eq!(parse_usize("1a"), None);
    assert_eq!(parse_usize("18446744073709551615"), Some(usize::MAX));
    assert_eq!(parse_usize("18446744073709551616"), None);
}

#[test]
fn checks_on_lower_cased_names() {
    assert_eq!(file_type_from_lowercase("photo.png"), FileType::Image);
    assert_eq!(file_type_from_lowercase("photo.PNG"), FileType::RegularFile);
    assert_eq!(file_type_from_lowercase("lib.rs"), FileType::Code);
    assert!(plain_listing_check("notes.txt", "notes.txt"));
    assert!(!plain_listing_check("Errors.txt", "errors.txt"));
    assert!(!plain_listing_check("$ ls", "$ ls"));
}
