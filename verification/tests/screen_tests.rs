use chrono_term::{CommandHistory, LineContext, Screen};

fn write_str(s: &mut Screen, text: &str) {
    for c in text.chars() {
        s.write_char(c);
    }
}

#[test]
fn alt_screen_round_trip_restores_main() {
    let mut s = Screen::new(4, 10);
    write_str(&mut s, "main");
    s.move_cursor_to(1, 3);
    s.enter_alt_screen();
    assert_eq!(s.get_visible()[0][0].character, ' ');
    write_str(&mut s, "other text");
    s.exit_alt_screen();
    assert_eq!(s.get_visible()[0][0].character, 'm');
    assert_eq!(s.get_visible()[0][3].character, 'n');
    assert_eq!((s.cursor.row, s.cursor.col), (1, 3));
    assert!(!s.is_alt_screen());
}

#[test]
fn restore_returns_saved_cursor() {
    let mut s = Screen::new(10, 10);
    s.move_cursor_to(3, 4);
    s.save_cursor();
    s.move_cursor_to(9, 9);
    s.restore_cursor();
    assert_eq!((s.cursor.row, s.cursor.col), (3, 4));
}

#[test]
fn carriage_return_keeps_line() {
    let mut s = Screen::new(3, 10);
    write_str(&mut s, "abc");
    s.carriage_return();
    assert_eq!(s.get_visible()[0][2].character, 'c');
    assert_eq!(s.cursor.col, 0);
}

#[test]
fn scrolled_lines_reach_scrollback_and_view() {
    let mut s = Screen::new(2, 5);
    write_str(&mut s, "one");
    s.carriage_return();
    s.line_feed();
    write_str(&mut s, "two");
    s.carriage_return();
    s.line_feed();
    assert_eq!(s.scrollback_len(), 1);
    assert_eq!(s.get_visible()[0][0].character, 't');
    s.scroll_view_up(5);
    assert_eq!(s.view_offset(), 1);
    assert_eq!(s.display_line(0)[0].character, 'o');
    s.scroll_view_down(1);
    assert_eq!(s.view_offset(), 0);
    s.reset_view();
    assert_eq!(s.display_line(0)[0].character, 't');
    assert!(s.display_line(7).is_empty());
}

#[test]
fn scrollback_is_bounded() {
    let mut s = Screen::new(2, 5);
    s.set_max_scrollback(2);
    for _ in 0..6 {
        s.write_char('x');
        s.carriage_return();
        s.line_feed();
    }
    assert_eq!(s.scrollback_len(), 2);
}

#[test]
fn insert_then_delete_line_restores() {
    let mut s = Screen::new(4, 5);
    write_str(&mut s, "A");
    s.carriage_return();
    s.line_feed();
    write_str(&mut s, "B");
    s.move_cursor_to(0, 0);
    s.insert_lines(1);
    assert_eq!(s.get_visible()[1][0].character, 'A');
    s.delete_lines(1);
    assert_eq!(s.get_visible()[0][0].character, 'A');
    assert_eq!(s.get_visible()[1][0].character, 'B');
    assert_eq!(s.get_visible()[3][0].character, ' ');
}

#[test]
fn insert_then_delete_chars_restores() {
    let mut s = Screen::new(2, 6);
    write_str(&mut s, "abcdef");
    s.move_cursor_to(0, 1);
    s.insert_chars(2);
    assert_eq!(s.get_visible()[0][3].character, 'b');
    s.delete_chars(2);
    assert_eq!(s.get_visible()[0][1].character, 'b');
    assert_eq!(s.get_visible()[0][3].character, 'd');
    assert_eq!(s.get_visible()[0][5].character, ' ');
}

#[test]
fn erase_chars_and_lines() {
    let mut s = Screen::new(3, 6);
    write_str(&mut s, "abcdef");
    s.move_cursor_to(0, 1);
    s.erase_chars(2);
    let g = s.get_visible();
    assert_eq!((g[0][0].character, g[0][1].character, g[0][3].character), ('a', ' ', 'd'));
    s.erase_in_line(0);
    assert_eq!(s.get_visible()[0][0].character, 'a');
    assert_eq!(s.get_visible()[0][5].character, ' ');
    s.clear_line();
    assert_eq!(s.get_visible()[0][0].character, ' ');
    write_str(&mut s, "zz");
    s.erase_in_display(3);
    assert_eq!(s.scrollback_len(), 0);
    assert_eq!(s.get_visible()[0][1].character, ' ');
    write_str(&mut s, "q");
    s.clear_to_end_of_screen();
    assert_eq!(s.get_visible()[0][2].character, ' ');
}

#[test]
fn selection_any_direction() {
    let mut s = Screen::new(3, 10);
    write_str(&mut s, "hello world");
    s.start_selection(0, 6);
    s.update_selection(0, 2);
    assert!(s.is_selected(0, 4));
    assert!(!s.is_selected(0, 7));
    assert_eq!(s.get_selected_text().as_deref(), Some("llo w"));
    s.select_word(0, 1);
    assert_eq!(s.get_selected_text().as_deref(), Some("hello"));
    s.select_line(1);
    assert_eq!(s.get_selection().unwrap().end, (1, 9));
    s.clear_selection();
    assert!(s.get_selection().is_none());
    assert!(s.get_selected_text().is_none());
}

#[test]
fn selection_over_two_rows() {
    let mut s = Screen::new(3, 5);
    write_str(&mut s, "ab");
    s.carriage_return();
    s.line_feed();
    write_str(&mut s, "cd");
    s.start_selection(0, 0);
    s.update_selection(1, 4);
    assert_eq!(s.get_selected_text().as_deref(), Some("ab  \ncd"));
}

#[test]
fn hyperlinks_are_registered_once() {
    let mut s = Screen::new(2, 10);
    s.set_hyperlink(Some("https://a".to_string()));
    s.write_char('x');
    s.set_hyperlink(None);
    s.write_char('y');
    s.set_hyperlink(Some("https://a".to_string()));
    s.write_char('z');
    assert_eq!(s.display_hyperlink_at(0, 0), Some("https://a"));
    assert_eq!(s.display_hyperlink_at(0, 1), None);
    assert_eq!(s.display_hyperlink_at(0, 2), Some("https://a"));
    assert_eq!(s.hyperlink_uri(0), Some("https://a"));
    assert_eq!(s.hyperlink_uri(1), None);
}

#[test]
fn suggestions_from_history() {
    let mut s = Screen::new(3, 40);
    for c in "git status".chars() {
        s.add_user_input(c);
    }
    s.reset_user_input();
    s.carriage_return();
    s.line_feed();
    s.add_user_input('g');
    s.add_user_input('i');
    assert_eq!(s.get_active_suggestion(), Some("t status"));
    assert!(s.has_suggestions());
    s.remove_user_input();
    assert_eq!(s.get_active_suggestion(), Some("it status"));
    s.add_user_input('i');
    s.accept_suggestion();
    assert_eq!(s.get_active_suggestion(), None);
    assert_eq!(s.cursor.col, 8);
}

#[test]
fn suggestion_accepted_for_pty_is_cleared() {
    let mut s = Screen::new(3, 40);
    for c in "ls -la".chars() {
        s.add_user_input(c);
    }
    s.reset_user_input();
    s.add_user_input('l');
    assert_eq!(s.get_active_suggestion(), Some("s -la"));
    s.accept_suggestion_for_pty();
    assert_eq!(s.get_active_suggestion(), None);
    assert!(!s.has_suggestions());
}

#[test]
fn suggestion_mode_cells() {
    let mut s = Screen::new(2, 10);
    s.write_char('a');
    s.start_suggestion();
    s.write_char('b');
    s.end_suggestion();
    assert!(s.get_visible()[0][1].is_suggestion);
    s.clear_suggestions();
    assert_eq!(s.get_visible()[0][1].character, ' ');
}

#[test]
fn line_context_of_rows() {
    let mut s = Screen::new(2, 30);
    write_str(&mut s, "Error: disk full");
    s.update_line_context(0);
    assert_eq!(s.get_line_context(0), LineContext::Error);
    assert_eq!(s.get_line_context(5), LineContext::Normal);
}

#[test]
fn dirty_flag_and_title() {
    let mut s = Screen::new(2, 10);
    assert!(s.is_dirty());
    s.mark_clean();
    assert!(!s.is_dirty());
    s.write_char('a');
    assert!(s.is_dirty());
    s.set_title("t".to_string());
    assert_eq!(s.take_title().as_deref(), Some("t"));
    assert_eq!(s.take_title(), None);
    s.set_cursor_visible(false);
    assert!(!s.cursor.visible);
}

#[test]
fn prompt_marks_jump() {
    let mut s = Screen::new(2, 10);
    s.mark_prompt();
    for _ in 0..4 {
        s.write_char('o');
        s.carriage_return();
        s.line_feed();
    }
    s.mark_prompt();
    s.view_to_prev_prompt();
    assert_eq!(s.view_offset(), 3);
    s.view_to_next_prompt();
    assert_eq!(s.view_offset(), 0);
}

#[test]
fn resize_on_alt_screen_does_not_reflow() {
    let mut s = Screen::new(3, 6);
    s.enter_alt_screen();
    s.move_cursor_to(2, 0);
    s.write_char('q');
    s.resize(2, 4);
    assert_eq!((s.rows, s.cols), (2, 4));
    assert_eq!(s.get_visible()[1][0].character, 'q');
    assert_eq!(s.get_visible()[0].len(), 4);
    s.resize(0, 4);
    assert_eq!(s.rows, 2);
}

#[test]
fn history_law_on_values() {
    let mut h = CommandHistory::new(2);
    h.add_command("cargo test".to_string());
    assert_eq!(h.find_suggestion("car"), Some("go test".to_string()));
    h.add_command("cargo test".to_string());
    assert_eq!(h.len(), 1);
    h.add_command("b".to_string());
    h.add_command("c".to_string());
    assert_eq!(h.len(), 2);
}

#[test]
fn reflow_narrow_then_wide_keeps_text() {
    let mut s = Screen::new(6, 10);
    write_str(&mut s, "abcdefghijkl");
    s.carriage_return();
    s.line_feed();
    write_str(&mut s, "xyz");
    s.resize(6, 4);
    let g = s.get_visible();
    let rows: Vec<String> = g.iter().map(|r| r.iter().map(|c| c.character).collect()).collect();
    assert_eq!(rows[0], "abcd");
    assert_eq!(rows[1], "efgh");
    assert_eq!(rows[2], "ijkl");
    assert_eq!(rows[3], "xyz ");
    s.resize(6, 12);
    let g = s.get_visible();
    let rows: Vec<String> = g.iter().map(|r| r.iter().map(|c| c.character).collect()).collect();
    assert_eq!(rows[0], "abcdefghijkl");
    assert_eq!(rows[1], "xyz         ");
    assert_eq!((s.cursor.row, s.cursor.col), (1, 3));
}

#[test]
fn loaded_shell_history_feeds_suggestions() {
    let mut s = Screen::new(3, 40);
    s.load_history(&vec![": 1700000000:0;docker ps".to_string(), "make test".to_string()]);
    s.add_user_input('d');
    s.add_user_input('o');
    assert_eq!(s.get_active_suggestion(), Some("cker ps"));
}

#[test]
fn display_line_past_the_screen_is_empty() {
    let mut s = Screen::new(1, 1);
    s.line_feed();
    s.scroll_view_up(1);
    assert_eq!(s.view_offset(), 1);
    assert_eq!(s.display_line(0).len(), 1);
    assert!(s.display_line(1).is_empty());
    assert!(s.display_line(5).is_empty());
}

#[test]
fn scroll_up_n_lines_reach_scrollback_in_order() {
    let mut s = Screen::new(4, 5);
    for (i, t) in ["aa", "bb", "cc", "dd"].iter().enumerate() {
        s.move_cursor_to(i, 0);
        write_str(&mut s, t);
    }
    s.move_cursor_to(1, 1);
    s.scroll_up(2);
    assert_eq!(s.scrollback_len(), 2);
    assert_eq!(s.get_visible()[0][0].character, 'c');
    assert_eq!(s.get_visible()[1][0].character, 'd');
    assert!(s.get_visible()[2].iter().all(|c| c.character == ' '));
    assert!(s.get_visible()[3].iter().all(|c| c.character == ' '));
    assert_eq!((s.cursor.row, s.cursor.col), (1, 1));
    s.scroll_view_up(2);
    assert_eq!(s.display_line(0)[0].character, 'a');
    assert_eq!(s.display_line(1)[0].character, 'b');
    assert_eq!(s.display_line(2)[0].character, 'c');
}

#[test]
fn setters_keep_the_screen_valid() {
    let mut s = Screen::new(3, 5);
    s.set_cursor(chrono_term::Cursor { row: 2, col: 3, ..s.cursor });
    assert_eq!((s.cursor.row, s.cursor.col), (2, 3));
    let mut a = chrono_term::CellAttributes::default();
    a.bold = true;
    s.set_current_attrs(a);
    s.write_char('x');
    assert!(s.get_visible()[2][3].attrs.bold);
}

#[test]
fn view_is_live_after_entering_alt_screen() {
    let mut s = Screen::new(1, 3);
    s.line_feed();
    s.line_feed();
    s.scroll_view_up(2);
    assert_eq!(s.view_offset(), 2);
    s.enter_alt_screen();
    assert_eq!(s.view_offset(), 0);
    assert!(s.view_offset() <= s.scrollback_len());
}
