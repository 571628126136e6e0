use chrono_term::ModernTheme;
use chrono_term::config::{ColorsConfig, RenderingConfig, TerminalConfig, default_font_family};
use chrono_term::mouse::{mouse_legacy, mouse_sgr};
use chrono_term::ls_colors::generate_ls_colors;

#[test]
fn test_theme_creation() {
    let theme = ModernTheme::default();
    let bg = theme.bg_primary_u32();
    let fg = theme.fg_primary_u32();
    assert_ne!(bg, 0, "Background should not be black");
    assert_ne!(fg, 0, "Foreground should not be black");
    assert_ne!(bg, fg, "Background and foreground should be different");
}

#[test]
fn test_theme_ansi_colors() {
    let theme = ModernTheme::default();
    for i in 0..16 {
        let color = theme.get_ansi_color(i);
        assert_ne!(color, 0, "ANSI color {} should be defined", i);
    }
}

#[test]
fn test_theme_accent_colors() {
    let theme = ModernTheme::default();
    let blue = theme.accent_blue_u32();
    let green = theme.accent_green_u32();
    let red = theme.accent_red_u32();
    let yellow = theme.accent_yellow_u32();
    assert_ne!(blue, 0);
    assert_ne!(green, 0);
    assert_ne!(red, 0);
    assert_ne!(yellow, 0);
    assert_ne!(blue, green);
    assert_ne!(blue, red);
    assert_ne!(green, red);
}

#[test]
fn test_theme_rgb_conversion() {
    let white = ModernTheme::rgb_to_u32(255, 255, 255);
    let black = ModernTheme::rgb_to_u32(0, 0, 0);
    assert_eq!(white, 0xFFFFFFFF);
    assert_eq!(black, 0xFF000000);
}

#[test]
fn pixel_values_and_index_clamp() {
    assert_eq!(ModernTheme::rgb_to_u32(0x12, 0x34, 0x56), 0xFF123456);
    let t = ModernTheme::default();
    assert_eq!(t.get_ansi_color(1), 0xFFF7768E);
    assert_eq!(t.get_ansi_color(200), t.get_ansi_color(15));
    assert_eq!(t.accent_cyan_u32(), 0xFF7DCFFF);
}

#[test]
fn config_defaults() {
    let c = ColorsConfig::default();
    assert_eq!(c.foreground, [229, 229, 229]);
    assert_eq!(c.background, [0, 0, 0]);
    let t = TerminalConfig::default();
    assert_eq!(t.scrollback_lines, 10_000);
    assert!(t.shell.is_none());
    let r = RenderingConfig::default();
    assert!(r.smart_detection && r.json_colors && r.log_colors && r.table_detection);
    assert_eq!(default_font_family(), "CascadiaCode");
}

#[test]
fn mouse_encodings() {
    assert_eq!(mouse_sgr(0, 4, 9, true), b"\x1b[<0;5;10M".to_vec());
    assert_eq!(mouse_sgr(3, 0, 0, false), b"\x1b[<3;1;1m".to_vec());
    assert_eq!(mouse_legacy(0, 4, 9), vec![0x1b, b'[', b'M', 32, 37, 42]);
    assert_eq!(mouse_legacy(1, 500, 300), vec![0x1b, b'[', b'M', 33, 254, 254]);
}

#[test]
fn ls_colors_value() {
    let v = generate_ls_colors();
    assert!(v.starts_with("su=37;41:sg=30;43:"));
    assert!(v.ends_with("*.xml=00;96"));
    assert_eq!(v.split(':').count(), 156);
    assert!(v.contains("di=01;34"));
}
