use chrono_term::paint::{tab_bar_color, tab_colors};
use chrono_term::{
    cell_colors, line_look, Cell, CellAttributes, Color, ContentDetector, ContentType, FileEntry,
    FileType, GridMetrics, HoverTarget, JsonTokenType, LineContext, LogLevel, ModernTheme, Screen,
};

fn rgb(r: u8, g: u8, b: u8) -> u32 {
    0xFF00_0000 | ((r as u32) << 16) | ((g as u32) << 8) | b as u32
}

fn write_str(s: &mut Screen, text: &str) {
    for c in text.chars() {
        s.write_char(c);
    }
}

#[test]
fn colours_of_palette_true_colour_and_default() {
    let t = ModernTheme::default();
    assert_eq!(t.color_to_u32(Color::Indexed(1)), rgb(247, 118, 142));
    assert_eq!(t.color_to_u32(Color::Indexed(200)), rgb(220, 228, 255));
    assert_eq!(t.color_to_u32(Color::Rgb(1, 2, 3)), rgb(1, 2, 3));
    assert_eq!(t.color_to_u32(Color::Default), rgb(192, 202, 245));
    assert_eq!(t.bg_color_to_u32(Color::Default), rgb(26, 27, 38));
    assert_eq!(t.bg_color_to_u32(Color::Indexed(2)), rgb(158, 206, 106));
}

#[test]
fn log_json_and_content_colours() {
    let t = ModernTheme::default();
    assert_eq!(t.get_log_color(LogLevel::Info), rgb(0x61, 0xaf, 0xef));
    assert_eq!(t.get_log_color(LogLevel::Warn), rgb(0xe5, 0xc0, 0x7b));
    assert_eq!(t.get_log_color(LogLevel::Error), rgb(0xe0, 0x6c, 0x75));
    assert_eq!(t.get_log_color(LogLevel::Debug), rgb(0x56, 0xb6, 0xc2));
    assert_eq!(t.get_json_color(JsonTokenType::Key), rgb(0x61, 0xaf, 0xef));
    assert_eq!(t.get_json_color(JsonTokenType::Number), rgb(0xd1, 0x9a, 0x66));
    assert_eq!(t.get_json_color(JsonTokenType::Comma), t.fg_primary_u32());
    let cell = Cell::new('x');
    assert_eq!(t.get_content_color(&cell, LineContext::Normal, ContentType::Success), rgb(0x98, 0xc3, 0x79));
    assert_eq!(t.get_content_color(&cell, LineContext::Error, ContentType::Normal), t.accent_red_u32());
    assert_eq!(t.get_content_color(&cell, LineContext::Normal, ContentType::Normal), t.color_to_u32(Color::Indexed(7)));
}

#[test]
fn test_get_file_color() {
    let theme = ModernTheme::default();

    let types = vec![
        FileType::Directory,
        FileType::Executable,
        FileType::Archive,
        FileType::Image,
        FileType::Video,
        FileType::Audio,
        FileType::Document,
        FileType::Code,
        FileType::RegularFile,
    ];

    for file_type in types {
        let entry = FileEntry {
            name: "test".to_string(),
            file_type: file_type.clone(),
            is_executable: file_type == FileType::Executable,
            start_col: 0,
            end_col: 4,
        };

        let color = theme.get_file_color(&entry);
        assert_ne!(color, 0, "FileType {:?} should have a color", file_type);
    }
}

#[test]
fn file_colours_by_kind_and_permission() {
    let t = ModernTheme::default();
    let dir = FileEntry { name: "d".to_string(), file_type: FileType::Directory, is_executable: false, start_col: 0, end_col: 1 };
    assert_eq!(t.get_file_color(&dir), t.accent_blue_u32());
    let plain_exec = FileEntry { name: "x".to_string(), file_type: FileType::RegularFile, is_executable: true, start_col: 0, end_col: 1 };
    assert_eq!(t.get_file_color(&plain_exec), t.accent_green_u32());
    let plain = FileEntry { name: "x".to_string(), file_type: FileType::RegularFile, is_executable: false, start_col: 0, end_col: 1 };
    assert_eq!(t.get_file_color(&plain), t.fg_primary_u32());
    let exec_kind_not_x = FileEntry { name: "x".to_string(), file_type: FileType::Executable, is_executable: false, start_col: 0, end_col: 1 };
    assert_eq!(t.get_file_color(&exec_kind_not_x), t.fg_primary_u32());
}

#[test]
fn cell_colours_follow_selection_reverse_and_suggestion() {
    let t = ModernTheme::default();
    let look = line_look("hello", LineContext::Normal, ContentType::Normal, &ContentDetector::new());
    let cell = Cell::new('h');
    let (bg, fg, link) = cell_colors(&t, &look, 0, &cell, true);
    assert_eq!(bg, t.selection_bg_u32());
    assert_eq!(fg, t.color_to_u32(Color::Indexed(7)));
    assert!(!link);

    let mut attrs = CellAttributes::default();
    attrs.reverse = true;
    let rev = Cell::with_attrs('r', attrs);
    let (bg, fg, _) = cell_colors(&t, &look, 0, &rev, false);
    assert_eq!(bg, t.color_to_u32(Color::Indexed(7)));
    assert_eq!(fg, t.color_to_u32(Color::Indexed(0)));

    let sugg = Cell::as_suggestion('s');
    let (_, fg, _) = cell_colors(&t, &look, 0, &sugg, false);
    assert_eq!(fg, rgb(75, 82, 95));
}

#[test]
fn cell_colours_of_links_and_json() {
    let t = ModernTheme::default();
    let d = ContentDetector::new();
    let text = "  at src/main.rs:42:10";
    let look = line_look(text, LineContext::StackTrace, ContentType::StackTrace, &d);
    assert!(!look.file_refs.is_empty());
    let start = look.file_refs[0].start_col;
    let (_, fg, link) = cell_colors(&t, &look, start, &Cell::new('s'), false);
    assert!(link);
    assert_eq!(fg, t.accent_blue_u32());
    let (_, fg, link) = cell_colors(&t, &look, 0, &Cell::new(' '), false);
    assert!(!link);
    assert_eq!(fg, t.accent_cyan_u32());

    let json = "{\"a\": 1}";
    let look = line_look(json, LineContext::Normal, ContentType::Json, &d);
    let (_, fg, _) = cell_colors(&t, &look, 0, &Cell::new('{'), false);
    assert_eq!(fg, t.json_bracket_u32());
    let (_, fg, _) = cell_colors(&t, &look, 6, &Cell::new('1'), false);
    assert_eq!(fg, rgb(0xd1, 0x9a, 0x66));
}

#[test]
fn grid_geometry() {
    let g = GridMetrics { width: 800, height: 600, char_width: 10, char_height: 20 };
    assert_eq!(g.tab_bar_height(), 28);
    assert_eq!(g.calculate_grid_size(), (28, 80));
    assert_eq!(g.tab_width(), 220);
    assert_eq!(g.tab_title_chars(220), 20);
    assert_eq!(g.tab_at(0, 2), Some(0));
    assert_eq!(g.tab_at(219, 2), Some(0));
    assert_eq!(g.tab_at(220, 2), Some(1));
    assert_eq!(g.tab_at(440, 2), None);
    let tiny = GridMetrics { width: 5, height: 10, char_width: 10, char_height: 20 };
    assert_eq!(tiny.calculate_grid_size(), (1, 1));
    assert_eq!(tiny.tab_width(), 5);
    assert_eq!(tiny.tab_title_chars(5), 0);
}

#[test]
fn fill_rect_is_clipped_to_the_frame() {
    let g = GridMetrics { width: 4, height: 3, char_width: 1, char_height: 1 };
    let mut buf = vec![0u32; 12];
    g.fill_rect(&mut buf, 2, 1, 5, 5, 7);
    assert_eq!(buf, vec![0, 0, 0, 0, 0, 0, 7, 7, 0, 0, 7, 7]);
    let mut buf = vec![0u32; 12];
    g.draw_hline(&mut buf, 1, 0, 2, 9);
    assert_eq!(buf, vec![0, 9, 9, 0, 0, 0, 0, 0, 0, 0, 0, 0]);
    let mut short = vec![0u32; 5];
    g.fill_rect(&mut short, 0, 0, 4, 3, 1);
    assert_eq!(short, vec![1, 1, 1, 1, 1]);
}

#[test]
fn tab_colours_mark_the_active_tab() {
    let t = ModernTheme::default();
    assert_eq!(tab_colors(&t, true), (t.bg_primary_u32(), t.fg_primary_u32(), true));
    assert_eq!(tab_colors(&t, false), (rgb(33, 37, 43), rgb(92, 99, 112), false));
    assert_eq!(tab_bar_color(), rgb(33, 37, 43));
}

#[test]
fn hover_finds_hyperlinks_then_references() {
    let mut s = Screen::new(3, 40);
    s.set_hyperlink(Some("https://example.com".to_string()));
    write_str(&mut s, "link");
    s.set_hyperlink(None);
    s.carriage_return();
    s.line_feed();
    write_str(&mut s, "error at src/lib.rs:7:3");
    assert_eq!(s.display_text(1).trim_end(), "error at src/lib.rs:7:3");
    assert_eq!(s.hover_at(0, 1), HoverTarget::Link("https://example.com".to_string()));
    assert_eq!(s.hover_at(1, 10), HoverTarget::File(1, "src/lib.rs".to_string(), Some(7)));
    assert_eq!(s.hover_at(1, 2), HoverTarget::Nothing);
    assert_eq!(s.hover_at(5, 0), HoverTarget::Nothing);
}
