use chrono_term::input::{
    click_selection, is_suggestion_key, key_bytes, key_command, motion_button, mouse_release_report,
    mouse_report, next_click_count, next_tab, paste_payload, prev_tab, reports_motion, reports_press,
    reports_release, scroll_page, shell_name, wheel_action, wheel_arrow, window_title, ClickSelect,
    KeyCommand, KeyModifiers, TermKey, WheelAction,
};
use chrono_term::MouseMode;

const NONE: KeyModifiers = KeyModifiers { ctrl: false, shift: false, alt: false };
const CTRL: KeyModifiers = KeyModifiers { ctrl: true, shift: false, alt: false };
const ALT: KeyModifiers = KeyModifiers { ctrl: false, shift: false, alt: true };
const CTRL_SHIFT: KeyModifiers = KeyModifiers { ctrl: true, shift: true, alt: false };
const SHIFT: KeyModifiers = KeyModifiers { ctrl: false, shift: true, alt: false };

#[test]
fn ctrl_letters_send_control_codes() {
    assert_eq!(key_bytes(TermKey::Letter('a'), CTRL, None), Some(vec![0x01]));
    assert_eq!(key_bytes(TermKey::Letter('c'), CTRL, None), Some(vec![0x03]));
    assert_eq!(key_bytes(TermKey::Letter('z'), CTRL, None), Some(vec![0x1a]));
    assert_eq!(key_bytes(TermKey::Space, CTRL, None), Some(vec![0x00]));
    assert_eq!(key_bytes(TermKey::Backslash, CTRL, None), Some(vec![0x1c]));
    assert_eq!(key_bytes(TermKey::BracketLeft, CTRL, None), Some(vec![0x1b]));
    assert_eq!(key_bytes(TermKey::BracketRight, CTRL, None), Some(vec![0x1d]));
    assert_eq!(key_bytes(TermKey::Enter, CTRL, None), None);
}

#[test]
fn alt_prefixes_escape() {
    assert_eq!(key_bytes(TermKey::Letter('x'), ALT, Some(b"x")), Some(vec![0x1b, b'x']));
    assert_eq!(key_bytes(TermKey::Enter, ALT, None), Some(vec![0x0d]));
}

#[test]
fn special_keys_send_xterm_sequences() {
    assert_eq!(key_bytes(TermKey::Enter, NONE, None), Some(b"\r".to_vec()));
    assert_eq!(key_bytes(TermKey::Backspace, NONE, None), Some(vec![0x7f]));
    assert_eq!(key_bytes(TermKey::Tab, NONE, None), Some(b"\t".to_vec()));
    assert_eq!(key_bytes(TermKey::ArrowUp, NONE, None), Some(b"\x1b[A".to_vec()));
    assert_eq!(key_bytes(TermKey::ArrowLeft, NONE, None), Some(b"\x1b[D".to_vec()));
    assert_eq!(key_bytes(TermKey::Home, NONE, None), Some(b"\x1b[H".to_vec()));
    assert_eq!(key_bytes(TermKey::End, NONE, None), Some(b"\x1b[F".to_vec()));
    assert_eq!(key_bytes(TermKey::PageDown, NONE, None), Some(b"\x1b[6~".to_vec()));
    assert_eq!(key_bytes(TermKey::Delete, NONE, None), Some(b"\x1b[3~".to_vec()));
    assert_eq!(key_bytes(TermKey::F(1), NONE, None), Some(b"\x1bOP".to_vec()));
    assert_eq!(key_bytes(TermKey::F(5), NONE, None), Some(b"\x1b[15~".to_vec()));
    assert_eq!(key_bytes(TermKey::F(12), NONE, None), Some(b"\x1b[24~".to_vec()));
    assert_eq!(key_bytes(TermKey::F(13), NONE, None), None);
    assert_eq!(key_bytes(TermKey::Letter('q'), NONE, Some(b"q")), None);
}

#[test]
fn shortcuts_are_recognised() {
    assert_eq!(key_command(TermKey::Letter('t'), CTRL_SHIFT), KeyCommand::NewTab);
    assert_eq!(key_command(TermKey::Letter('w'), CTRL_SHIFT), KeyCommand::CloseTab);
    assert_eq!(key_command(TermKey::ArrowRight, CTRL_SHIFT), KeyCommand::NextTab);
    assert_eq!(key_command(TermKey::ArrowLeft, CTRL_SHIFT), KeyCommand::PrevTab);
    assert_eq!(key_command(TermKey::ArrowUp, CTRL_SHIFT), KeyCommand::PrevPrompt);
    assert_eq!(key_command(TermKey::ArrowDown, CTRL_SHIFT), KeyCommand::NextPrompt);
    assert_eq!(key_command(TermKey::PageUp, SHIFT), KeyCommand::PageUp);
    assert_eq!(key_command(TermKey::PageDown, CTRL_SHIFT), KeyCommand::PageDown);
    assert_eq!(key_command(TermKey::Letter('v'), CTRL_SHIFT), KeyCommand::Paste);
    assert_eq!(key_command(TermKey::Letter('c'), CTRL_SHIFT), KeyCommand::Copy);
    assert_eq!(key_command(TermKey::Letter('c'), CTRL), KeyCommand::Type);
    assert_eq!(key_command(TermKey::PageUp, NONE), KeyCommand::Type);
    assert!(is_suggestion_key(TermKey::Tab));
    assert!(is_suggestion_key(TermKey::ArrowRight));
    assert!(!is_suggestion_key(TermKey::Enter));
}

#[test]
fn paste_is_bracketed_on_request() {
    assert_eq!(paste_payload(b"ls", false), b"ls".to_vec());
    assert_eq!(paste_payload(b"ls", true), b"\x1b[200~ls\x1b[201~".to_vec());
}

#[test]
fn mouse_reporting_rules() {
    assert!(reports_motion(MouseMode::AnyEvent, false, false));
    assert!(reports_motion(MouseMode::ButtonEvent, false, true));
    assert!(!reports_motion(MouseMode::ButtonEvent, false, false));
    assert!(!reports_motion(MouseMode::AnyEvent, true, true));
    assert_eq!(motion_button(true), 32);
    assert_eq!(motion_button(false), 35);
    assert!(reports_press(MouseMode::X10, false));
    assert!(!reports_press(MouseMode::Normal, true));
    assert!(!reports_press(MouseMode::Off, false));
    assert!(reports_release(MouseMode::Normal));
    assert!(!reports_release(MouseMode::X10));
    assert_eq!(mouse_report(true, 0, 4, 2), b"\x1b[<0;5;3M".to_vec());
    assert_eq!(mouse_report(false, 0, 4, 2), vec![0x1b, b'[', b'M', 32, 37, 35]);
    assert_eq!(mouse_release_report(true, 4, 2), b"\x1b[<0;5;3m".to_vec());
    assert_eq!(mouse_release_report(false, 4, 2), vec![0x1b, b'[', b'M', 35, 37, 35]);
}

#[test]
fn wheel_goes_to_app_arrows_or_scrollback() {
    assert_eq!(wheel_action(MouseMode::Normal, false, false, 3), Some(WheelAction::Report(64, 3)));
    assert_eq!(wheel_action(MouseMode::Normal, false, true, -2), Some(WheelAction::Report(65, 2)));
    assert_eq!(wheel_action(MouseMode::Normal, true, true, -2), Some(WheelAction::Arrows(false, 2)));
    assert_eq!(wheel_action(MouseMode::Off, false, false, 3), Some(WheelAction::ScrollView(true, 3)));
    assert_eq!(wheel_action(MouseMode::Off, false, false, -1), Some(WheelAction::ScrollView(false, 1)));
    assert_eq!(wheel_action(MouseMode::Off, false, false, 0), None);
    assert_eq!(wheel_action(MouseMode::Off, false, false, i32::MIN), Some(WheelAction::ScrollView(false, 2147483648)));
    assert_eq!(wheel_arrow(true), b"\x1b[A".to_vec());
    assert_eq!(wheel_arrow(false), b"\x1b[B".to_vec());
}

#[test]
fn clicks_cycle_word_line_and_back() {
    assert_eq!(next_click_count(0, false), 1);
    assert_eq!(next_click_count(1, true), 2);
    assert_eq!(next_click_count(2, true), 3);
    assert_eq!(next_click_count(3, true), 1);
    assert_eq!(next_click_count(2, false), 1);
    assert_eq!(click_selection(1), ClickSelect::Start);
    assert_eq!(click_selection(2), ClickSelect::Word);
    assert_eq!(click_selection(3), ClickSelect::Line);
}

#[test]
fn tabs_wrap_around() {
    assert_eq!(next_tab(0, 3), 1);
    assert_eq!(next_tab(2, 3), 0);
    assert_eq!(prev_tab(0, 3), 2);
    assert_eq!(prev_tab(2, 3), 1);
    assert_eq!(next_tab(0, 1), 0);
    assert_eq!(prev_tab(0, 1), 0);
    for n in 1..5 {
        for a in 0..n {
            assert_eq!(prev_tab(next_tab(a, n), n), a);
            assert_eq!(next_tab(prev_tab(a, n), n), a);
        }
    }
    assert_eq!(scroll_page(24), 23);
    assert_eq!(scroll_page(1), 1);
    assert_eq!(scroll_page(0), 1);
}

#[test]
fn titles() {
    assert_eq!(window_title(""), "CHRONO");
    assert_eq!(window_title("zsh"), "zsh \u{2014} CHRONO");
    assert_eq!(shell_name("/bin/zsh"), "zsh");
    assert_eq!(shell_name("fish"), "fish");
    assert_eq!(shell_name("/usr/local/bin/"), "");
}
