use chrono_term::CommandHistory;
use chrono_term::history::parse_history_line;

#[test]
fn test_add_and_find() {
    let mut history = CommandHistory::new(100);

    history.add_command("git status".to_string());
    history.add_command("git commit -m 'test'".to_string());
    history.add_command("cargo build".to_string());

    assert_eq!(
        history.find_suggestion("git"),
        Some(" commit -m 'test'".to_string())
    );
    assert_eq!(history.find_suggestion("cargo"), Some(" build".to_string()));
    assert_eq!(history.find_suggestion("npm"), None);
}

#[test]
fn test_no_duplicates() {
    let mut history = CommandHistory::new(100);

    history.add_command("ls -la".to_string());
    history.add_command("ls -la".to_string());

    assert_eq!(history.len(), 1);
}

#[test]
fn test_max_size() {
    let mut history = CommandHistory::new(3);

    history.add_command("cmd1".to_string());
    history.add_command("cmd2".to_string());
    history.add_command("cmd3".to_string());
    history.add_command("cmd4".to_string());

    assert_eq!(history.len(), 3);
    assert_eq!(history.get_commands()[0], "cmd2");
}

#[test]
fn blank_and_exact_commands() {
    let mut h = CommandHistory::new(10);
    h.add_command("   ".to_string());
    assert!(h.is_empty());
    h.add_command("make".to_string());
    assert_eq!(h.find_suggestion("make"), None);
    assert_eq!(h.find_suggestion(""), None);
    h.clear();
    assert_eq!(h.len(), 0);
}

#[test]
fn history_file_lines_are_parsed() {
    assert_eq!(parse_history_line("git status"), "git status");
    assert_eq!(parse_history_line(": 1700000000:0;cargo build"), "cargo build");
    assert_eq!(parse_history_line(": 1700000000:0;echo a;b"), "echo a;b");
    assert_eq!(parse_history_line(":no semicolon"), ":no semicolon");
    assert_eq!(parse_history_line("#1700000000"), "");
    assert_eq!(parse_history_line("#notes"), "#notes");
    assert_eq!(parse_history_line("#"), "#");
}

#[test]
fn history_loaded_from_shell_files_suggests() {
    let lines = vec![
        "#1700000000".to_string(),
        "ls -la".to_string(),
        ": 1700000001:0;git commit".to_string(),
        ": 1700000002:0;git commit".to_string(),
        "".to_string(),
    ];
    let h = CommandHistory::from_shell_history(10, &lines);
    assert_eq!(h.len(), 2);
    assert_eq!(h.get_commands()[0], "ls -la");
    assert_eq!(h.find_suggestion("git"), Some(" commit".to_string()));
    let small = CommandHistory::from_shell_history(1, &lines);
    assert_eq!(small.get_commands(), &["git commit".to_string()]);
}
