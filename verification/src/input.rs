//! What the terminal does with keyboard and mouse input: the bytes a key sends to
//! the shell, the window shortcuts, mouse reports, wheel scrolling, click counting
//! and tab switching. The window system's events are turned into these plain values
//! before they reach the functions here.

use vstd::prelude::*;
use crate::mouse::{legacy_report, mouse_legacy, mouse_sgr, sgr_report};
use crate::screen::MouseMode;
use crate::seqs::{last_where, lemma_last_where};
use crate::text::{chars_of, string_from_range, string_push_str};

verus! {

// ---------------------------------------------------------------- keys

/// A key, as far as the terminal tells keys apart.
#[derive(Debug, Clone, Copy, PartialEq, Eq, Structural)]
pub enum TermKey {
    /// A letter key, by its lower-case letter.
    Letter(char),
    Space,
    Backslash,
    BracketLeft,
    BracketRight,
    Enter,
    Backspace,
    Tab,
    Escape,
    ArrowUp,
    ArrowDown,
    ArrowRight,
    ArrowLeft,
    Home,
    End,
    PageUp,
    PageDown,
    Insert,
    Delete,
    /// Function key `F1` to `F12`, by its number.
    F(u8),
    /// Any other key.
    Other,
}

/// Modifier keys held down.
#[derive(Debug, Clone, Copy, PartialEq, Eq, Structural)]
pub struct KeyModifiers {
    pub ctrl: bool,
    pub shift: bool,
    pub alt: bool,
}

/// The control code Ctrl gives a key: letters `a`..`z` give 1..26; Space, `\`, `[`
/// and `]` give NUL, FS, ESC and GS.
pub open spec fn ctrl_code(k: TermKey) -> Option<u8> {
    match k {
        TermKey::Letter(c) => if 0x61 <= (c as int) <= 0x7a { Some((c as int - 0x60) as u8) } else { None },
        TermKey::Space => Some(0u8),
        TermKey::Backslash => Some(0x1cu8),
        TermKey::BracketLeft => Some(0x1bu8),
        TermKey::BracketRight => Some(0x1du8),
        _ => None,
    }
}

/// `ESC [` followed by `rest`.
pub open spec fn csi_seq(rest: Seq<u8>) -> Seq<u8> {
    seq![0x1bu8, 0x5bu8] + rest
}

/// The sequence of function key `n`: `ESC O P`..`S` for F1-F4, `ESC [ nn ~` above.
pub open spec fn fkey_sequence(n: u8) -> Option<Seq<u8>> {
    if n == 1 {
        Some(seq![0x1bu8, 0x4fu8, 0x50u8])
    } else if n == 2 {
        Some(seq![0x1bu8, 0x4fu8, 0x51u8])
    } else if n == 3 {
        Some(seq![0x1bu8, 0x4fu8, 0x52u8])
    } else if n == 4 {
        Some(seq![0x1bu8, 0x4fu8, 0x53u8])
    } else if n == 5 {
        Some(csi_seq(seq![0x31u8, 0x35u8, 0x7eu8]))
    } else if n == 6 {
        Some(csi_seq(seq![0x31u8, 0x37u8, 0x7eu8]))
    } else if n == 7 {
        Some(csi_seq(seq![0x31u8, 0x38u8, 0x7eu8]))
    } else if n == 8 {
        Some(csi_seq(seq![0x31u8, 0x39u8, 0x7eu8]))
    } else if n == 9 {
        Some(csi_seq(seq![0x32u8, 0x30u8, 0x7eu8]))
    } else if n == 10 {
        Some(csi_seq(seq![0x32u8, 0x31u8, 0x7eu8]))
    } else if n == 11 {
        Some(csi_seq(seq![0x32u8, 0x33u8, 0x7eu8]))
    } else if n == 12 {
        Some(csi_seq(seq![0x32u8, 0x34u8, 0x7eu8]))
    } else {
        None
    }
}

/// The bytes a special key sends without modifiers (xterm conventions); `None` for
/// keys that send their text instead.
pub open spec fn plain_sequence(k: TermKey) -> Option<Seq<u8>> {
    match k {
        TermKey::Enter => Some(seq![0x0du8]),
        TermKey::Backspace => Some(seq![0x7fu8]),
        TermKey::Tab => Some(seq![0x09u8]),
        TermKey::Escape => Some(seq![0x1bu8]),
        TermKey::ArrowUp => Some(csi_seq(seq![0x41u8])),
        TermKey::ArrowDown => Some(csi_seq(seq![0x42u8])),
        TermKey::ArrowRight => Some(csi_seq(seq![0x43u8])),
        TermKey::ArrowLeft => Some(csi_seq(seq![0x44u8])),
        TermKey::Home => Some(csi_seq(seq![0x48u8])),
        TermKey::End => Some(csi_seq(seq![0x46u8])),
        TermKey::PageUp => Some(csi_seq(seq![0x35u8, 0x7eu8])),
        TermKey::PageDown => Some(csi_seq(seq![0x36u8, 0x7eu8])),
        TermKey::Insert => Some(csi_seq(seq![0x32u8, 0x7eu8])),
        TermKey::Delete => Some(csi_seq(seq![0x33u8, 0x7eu8])),
        TermKey::F(n) => fkey_sequence(n),
        _ => None,
    }
}

/// The bytes a key press sends to the shell: with Ctrl alone, the key's control code
/// (or nothing); with Alt and not Ctrl, ESC before the typed text, when the key types
/// text (`text`, UTF-8); otherwise the key's special sequence, if it has one.
pub open spec fn key_sequence(k: TermKey, m: KeyModifiers, text: Option<Seq<u8>>) -> Option<Seq<u8>> {
    if m.ctrl && !m.shift && !m.alt {
        match ctrl_code(k) {
            Some(b) => Some(seq![b]),
            None => None,
        }
    } else if m.alt && !m.ctrl && text is Some {
        Some(seq![0x1bu8] + text->0)
    } else {
        plain_sequence(k)
    }
}

/// `ESC [` and then `rest`, as a vector.
fn csi_bytes(rest: &[u8]) -> (r: Vec<u8>)
    ensures
        r@ == csi_seq(rest@),
{
    let mut out: Vec<u8> = vec![0x1b, 0x5b];
    let mut i: usize = 0;
    while i < rest.len()
        invariant
            i <= rest@.len(),
            out@ == seq![0x1bu8, 0x5bu8] + rest@.take(i as int),
        decreases rest@.len() - i,
    {
        out.push(rest[i]);
        i += 1;
        assert(out@ =~= seq![0x1bu8, 0x5bu8] + rest@.take(i as int));
    }
    assert(rest@.take(rest@.len() as int) =~= rest@);
    out
}

/// The sequence of function key `n` (see `fkey_sequence`).
fn fkey_bytes(n: u8) -> (r: Option<Vec<u8>>)
    ensures
        match r {
            Some(v) => fkey_sequence(n) == Some(v@),
            None => fkey_sequence(n) is None,
        },
{
    let r = if n == 1 {
        Some(vec![0x1b, 0x4f, 0x50])
    } else if n == 2 {
        Some(vec![0x1b, 0x4f, 0x51])
    } else if n == 3 {
        Some(vec![0x1b, 0x4f, 0x52])
    } else if n == 4 {
        Some(vec![0x1b, 0x4f, 0x53])
    } else if n == 5 {
        Some(csi_bytes(&[0x31, 0x35, 0x7e]))
    } else if n == 6 {
        Some(csi_bytes(&[0x31, 0x37, 0x7e]))
    } else if n == 7 {
        Some(csi_bytes(&[0x31, 0x38, 0x7e]))
    } else if n == 8 {
        Some(csi_bytes(&[0x31, 0x39, 0x7e]))
    } else if n == 9 {
        Some(csi_bytes(&[0x32, 0x30, 0x7e]))
    } else if n == 10 {
        Some(csi_bytes(&[0x32, 0x31, 0x7e]))
    } else if n == 11 {
        Some(csi_bytes(&[0x32, 0x33, 0x7e]))
    } else if n == 12 {
        Some(csi_bytes(&[0x32, 0x34, 0x7e]))
    } else {
        None
    };
    proof {
        if n >= 5 && n <= 12 {
            assert(r is Some);
        }
    }
    r
}

/// The special sequence of a key (see `plain_sequence`).
fn plain_bytes(k: TermKey) -> (r: Option<Vec<u8>>)
    ensures
        match r {
            Some(v) => plain_sequence(k) == Some(v@),
            None => plain_sequence(k) is None,
        },
{
    match k {
        TermKey::Enter => Some(vec![0x0d]),
        TermKey::Backspace => Some(vec![0x7f]),
        TermKey::Tab => Some(vec![0x09]),
        TermKey::Escape => Some(vec![0x1b]),
        TermKey::ArrowUp => Some(csi_bytes(&[0x41])),
        TermKey::ArrowDown => Some(csi_bytes(&[0x42])),
        TermKey::ArrowRight => Some(csi_bytes(&[0x43])),
        TermKey::ArrowLeft => Some(csi_bytes(&[0x44])),
        TermKey::Home => Some(csi_bytes(&[0x48])),
        TermKey::End => Some(csi_bytes(&[0x46])),
        TermKey::PageUp => Some(csi_bytes(&[0x35, 0x7e])),
        TermKey::PageDown => Some(csi_bytes(&[0x36, 0x7e])),
        TermKey::Insert => Some(csi_bytes(&[0x32, 0x7e])),
        TermKey::Delete => Some(csi_bytes(&[0x33, 0x7e])),
        TermKey::F(n) => fkey_bytes(n),
        _ => None,
    }
}

/// The bytes a key press sends to the shell (see `key_sequence`); `text` is the
/// UTF-8 text the key types, if it types any.
pub fn key_bytes(key: TermKey, mods: KeyModifiers, text: Option<&[u8]>) -> (r: Option<Vec<u8>>)
    ensures
        match r {
            Some(v) => key_sequence(key, mods, match text { Some(t) => Some(t@), None => None }) == Some(v@),
            None => key_sequence(key, mods, match text { Some(t) => Some(t@), None => None }) is None,
        },
{
    if mods.ctrl && !mods.shift && !mods.alt {
        let code: Option<u8> = match key {
            TermKey::Letter(c) => {
                let v = c as u32;
                if 0x61 <= v && v <= 0x7a { Some((v - 0x60) as u8) } else { None }
            },
            TermKey::Space => Some(0),
            TermKey::Backslash => Some(0x1c),
            TermKey::BracketLeft => Some(0x1b),
            TermKey::BracketRight => Some(0x1d),
            _ => None,
        };
        return match code {
            Some(b) => {
                let v = vec![b];
                assert(v@ =~= seq![b]);
                Some(v)
            },
            None => None,
        };
    }
    if mods.alt && !mods.ctrl {
        if let Some(t) = text {
            let mut out: Vec<u8> = vec![0x1b];
            let mut i: usize = 0;
            while i < t.len()
                invariant
                    i <= t@.len(),
                    out@ == seq![0x1bu8] + t@.take(i as int),
                decreases t@.len() - i,
            {
                out.push(t[i]);
                i += 1;
                assert(out@ =~= seq![0x1bu8] + t@.take(i as int));
            }
            assert(t@.take(t@.len() as int) =~= t@);
            return Some(out);
        }
    }
    plain_bytes(key)
}

/// What a key press asks of the terminal itself, before anything reaches the shell.
#[derive(Debug, Clone, Copy, PartialEq, Eq, Structural)]
pub enum KeyCommand {
    NewTab,
    CloseTab,
    NextTab,
    PrevTab,
    /// View the previous prompt mark.
    PrevPrompt,
    /// View the next prompt mark.
    NextPrompt,
    /// Scroll the view one page back.
    PageUp,
    /// Scroll the view one page forward.
    PageDown,
    Paste,
    Copy,
    /// None of these: the key goes to the shell.
    Type,
}

/// The window shortcuts, first match: Ctrl+Shift with T, W, Right, Left, Up, Down;
/// Shift with Page Up or Page Down; Ctrl+Shift with V, C.
pub open spec fn key_command_of(k: TermKey, m: KeyModifiers) -> KeyCommand {
    let cs = m.ctrl && m.shift;
    if cs && k == TermKey::Letter('t') {
        KeyCommand::NewTab
    } else if cs && k == TermKey::Letter('w') {
        KeyCommand::CloseTab
    } else if cs && k == TermKey::ArrowRight {
        KeyCommand::NextTab
    } else if cs && k == TermKey::ArrowLeft {
        KeyCommand::PrevTab
    } else if cs && k == TermKey::ArrowUp {
        KeyCommand::PrevPrompt
    } else if cs && k == TermKey::ArrowDown {
        KeyCommand::NextPrompt
    } else if m.shift && k == TermKey::PageUp {
        KeyCommand::PageUp
    } else if m.shift && k == TermKey::PageDown {
        KeyCommand::PageDown
    } else if cs && k == TermKey::Letter('v') {
        KeyCommand::Paste
    } else if cs && k == TermKey::Letter('c') {
        KeyCommand::Copy
    } else {
        KeyCommand::Type
    }
}

/// The shortcut a key press triggers (see `key_command_of`).
pub fn key_command(key: TermKey, mods: KeyModifiers) -> (r: KeyCommand)
    ensures
        r == key_command_of(key, mods),
{
    let cs = mods.ctrl && mods.shift;
    if cs && key == TermKey::Letter('t') {
        KeyCommand::NewTab
    } else if cs && key == TermKey::Letter('w') {
        KeyCommand::CloseTab
    } else if cs && key == TermKey::ArrowRight {
        KeyCommand::NextTab
    } else if cs && key == TermKey::ArrowLeft {
        KeyCommand::PrevTab
    } else if cs && key == TermKey::ArrowUp {
        KeyCommand::PrevPrompt
    } else if cs && key == TermKey::ArrowDown {
        KeyCommand::NextPrompt
    } else if mods.shift && key == TermKey::PageUp {
        KeyCommand::PageUp
    } else if mods.shift && key == TermKey::PageDown {
        KeyCommand::PageDown
    } else if cs && key == TermKey::Letter('v') {
        KeyCommand::Paste
    } else if cs && key == TermKey::Letter('c') {
        KeyCommand::Copy
    } else {
        KeyCommand::Type
    }
}

/// Tab and Right accept a shown suggestion.
pub fn is_suggestion_key(key: TermKey) -> (r: bool)
    ensures
        r == (key == TermKey::Tab || key == TermKey::ArrowRight),
{
    key == TermKey::Tab || key == TermKey::ArrowRight
}

/// Pasted text as sent to the shell: wrapped in `ESC [ 200 ~` and `ESC [ 201 ~` when
/// the application asked for bracketed paste.
pub open spec fn paste_sequence(text: Seq<u8>, bracketed: bool) -> Seq<u8> {
    if bracketed {
        csi_seq(seq![0x32u8, 0x30u8, 0x30u8, 0x7eu8]) + text + csi_seq(seq![0x32u8, 0x30u8, 0x31u8, 0x7eu8])
    } else {
        text
    }
}

/// `v` with the bytes of `t` appended.
fn push_all(v: &mut Vec<u8>, t: &[u8])
    ensures
        final(v)@ == old(v)@ + t@,
{
    let ghost v0 = v@;
    let mut i: usize = 0;
    while i < t.len()
        invariant
            i <= t@.len(),
            v@ == v0 + t@.take(i as int),
        decreases t@.len() - i,
    {
        v.push(t[i]);
        i += 1;
        assert(v@ =~= v0 + t@.take(i as int));
    }
    assert(t@.take(t@.len() as int) =~= t@);
}

/// The bytes a paste sends (see `paste_sequence`).
pub fn paste_payload(text: &[u8], bracketed: bool) -> (r: Vec<u8>)
    ensures
        r@ == paste_sequence(text@, bracketed),
{
    if bracketed {
        let mut out = csi_bytes(&[0x32, 0x30, 0x30, 0x7e]);
        push_all(&mut out, text);
        let tail = csi_bytes(&[0x32, 0x30, 0x31, 0x7e]);
        push_all(&mut out, tail.as_slice());
        out
    } else {
        let mut out: Vec<u8> = Vec::new();
        push_all(&mut out, text);
        assert(out@ =~= text@);
        out
    }
}

// ---------------------------------------------------------------- mouse

/// Pointer motion is reported (not with Shift held): in any-event mode always, in
/// button-event mode while the button is down.
pub open spec fn motion_reported(mode: MouseMode, shift: bool, button_down: bool) -> bool {
    !shift && (mode == MouseMode::AnyEvent || (mode == MouseMode::ButtonEvent && button_down))
}

/// Whether pointer motion is reported (see `motion_reported`).
pub fn reports_motion(mode: MouseMode, shift: bool, button_down: bool) -> (r: bool)
    ensures
        r == motion_reported(mode, shift, button_down),
{
    !shift && (mode == MouseMode::AnyEvent || (mode == MouseMode::ButtonEvent && button_down))
}

/// The button code of a motion report: 32 with the left button down, 35 without.
pub fn motion_button(button_down: bool) -> (b: u8)
    ensures
        b == if button_down { 32u8 } else { 35u8 },
{
    if button_down { 32 } else { 35 }
}

/// A press is reported when some mouse mode is on and Shift is not held.
pub open spec fn press_reported(mode: MouseMode, shift: bool) -> bool {
    mode != MouseMode::Off && !shift
}

/// Whether a press is reported (see `press_reported`).
pub fn reports_press(mode: MouseMode, shift: bool) -> (r: bool)
    ensures
        r == press_reported(mode, shift),
{
    mode != MouseMode::Off && !shift
}

/// Whether a release is reported: in every mode but off and X10.
pub fn reports_release(mode: MouseMode) -> (r: bool)
    ensures
        r == (mode != MouseMode::Off && mode != MouseMode::X10),
{
    mode != MouseMode::Off && mode != MouseMode::X10
}

/// A press or motion report, in SGR or legacy encoding.
pub fn mouse_report(sgr: bool, button: u8, col: usize, row: usize) -> (r: Vec<u8>)
    requires
        col < usize::MAX,
        row < usize::MAX,
        !sgr ==> button <= 223,
    ensures
        r@ == if sgr { sgr_report(button, col as int, row as int, true) } else { legacy_report(button, col as int, row as int) },
{
    if sgr {
        mouse_sgr(button, col, row, true)
    } else {
        mouse_legacy(button, col, row)
    }
}

/// A release report: SGR with a final `m`, legacy with button code 3.
pub fn mouse_release_report(sgr: bool, col: usize, row: usize) -> (r: Vec<u8>)
    requires
        col < usize::MAX,
        row < usize::MAX,
    ensures
        r@ == if sgr { sgr_report(0, col as int, row as int, false) } else { legacy_report(3, col as int, row as int) },
{
    if sgr {
        mouse_sgr(0, col, row, false)
    } else {
        mouse_legacy(3, col, row)
    }
}

/// What a turn of the wheel does.
#[derive(Debug, Clone, Copy, PartialEq, Eq, Structural)]
pub enum WheelAction {
    /// Report the wheel to the application `times` times (button 64 up, 65 down).
    Report(u8, u32),
    /// Send Up (or Down) arrows `times` times, on the alternate screen.
    Arrows(bool, u32),
    /// Scroll the view back (or forward) by that many lines.
    ScrollView(bool, usize),
}

/// The wheel turned `lines` notches (positive: up): nothing for no notch; reported to
/// an application that tracks the mouse (unless Shift is held); arrows on the
/// alternate screen; otherwise the view scrolls through the scrollback.
pub open spec fn wheel_of(mode: MouseMode, shift: bool, alt_screen: bool, lines: int) -> Option<WheelAction> {
    let n = if lines >= 0 { lines } else { -lines };
    if lines == 0 {
        None
    } else if mode != MouseMode::Off && !shift {
        Some(WheelAction::Report(if lines > 0 { 64u8 } else { 65u8 }, n as u32))
    } else if alt_screen {
        Some(WheelAction::Arrows(lines > 0, n as u32))
    } else {
        Some(WheelAction::ScrollView(lines > 0, n as usize))
    }
}

/// What the wheel does (see `wheel_of`).
pub fn wheel_action(mode: MouseMode, shift: bool, alt_screen: bool, lines: i32) -> (r: Option<WheelAction>)
    ensures
        r == wheel_of(mode, shift, alt_screen, lines as int),
{
    if lines == 0 {
        return None;
    }
    let n: u32 = if lines >= 0 { lines as u32 } else { (0i64 - lines as i64) as u32 };
    if mode != MouseMode::Off && !shift {
        Some(WheelAction::Report(if lines > 0 { 64 } else { 65 }, n))
    } else if alt_screen {
        Some(WheelAction::Arrows(lines > 0, n))
    } else {
        Some(WheelAction::ScrollView(lines > 0, n as usize))
    }
}

/// The arrow sequence the wheel sends on the alternate screen.
pub fn wheel_arrow(up: bool) -> (r: Vec<u8>)
    ensures
        Some(r@) == plain_sequence(if up { TermKey::ArrowUp } else { TermKey::ArrowDown }),
{
    if up {
        csi_bytes(&[0x41])
    } else {
        csi_bytes(&[0x42])
    }
}

/// How a click selects: a single click starts a drag, a double click a word, a
/// triple click the line.
#[derive(Debug, Clone, Copy, PartialEq, Eq, Structural)]
pub enum ClickSelect {
    Start,
    Word,
    Line,
}

/// Clicks counted 1, 2, 3, 1, ... while they repeat on the same cell in time; a
/// click elsewhere or later counts 1.
pub fn next_click_count(prev: u8, repeated: bool) -> (n: u8)
    ensures
        n == if repeated { (prev % 3 + 1) as u8 } else { 1u8 },
{
    if repeated { prev % 3 + 1 } else { 1 }
}

/// What the click with that count selects.
pub fn click_selection(count: u8) -> (r: ClickSelect)
    ensures
        r == if count == 2 { ClickSelect::Word } else if count == 3 { ClickSelect::Line } else { ClickSelect::Start },
{
    if count == 2 {
        ClickSelect::Word
    } else if count == 3 {
        ClickSelect::Line
    } else {
        ClickSelect::Start
    }
}

// ---------------------------------------------------------------- tabs and titles

/// The tab after `active`, wrapping around.
pub fn next_tab(active: usize, n: usize) -> (r: usize)
    requires
        active < n,
    ensures
        r == (active + 1) % (n as int),
{
    (active + 1) % n
}

/// The tab before `active`, wrapping around.
pub fn prev_tab(active: usize, n: usize) -> (r: usize)
    requires
        active < n,
        active + n - 1 <= usize::MAX,
    ensures
        r == (active + n - 1) % (n as int),
{
    (active + (n - 1)) % n
}

/// Lines a page scroll moves: the screen's rows but one, at least one.
pub fn scroll_page(rows: usize) -> (r: usize)
    ensures
        r == if rows > 2 { rows - 1 } else { 1 },
{
    if rows > 2 { rows - 1 } else { 1 }
}

/// The window title: the program's name, after the active tab's title if it has one.
pub open spec fn window_title_of(tab_title: Seq<char>) -> Seq<char> {
    if tab_title.len() == 0 {
        "CHRONO"@
    } else {
        tab_title + " \u{2014} CHRONO"@
    }
}

/// The window title for the active tab's title (see `window_title_of`).
pub fn window_title(tab_title: &str) -> (r: String)
    ensures
        r@ == window_title_of(tab_title@),
{
    let mut s = String::new();
    let chars = chars_of(tab_title);
    if chars.len() == 0 {
        string_push_str(&mut s, "CHRONO");
        assert(s@ =~= "CHRONO"@);
    } else {
        string_push_str(&mut s, tab_title);
        string_push_str(&mut s, " \u{2014} CHRONO");
        assert(s@ =~= tab_title@ + " \u{2014} CHRONO"@);
    }
    s
}

/// The character is a slash.
pub open spec fn slash() -> spec_fn(char) -> bool {
    |c: char| c == '/'
}

/// A tab's default title: the shell's program name, after the last `/` of its path.
pub open spec fn shell_name_of(path: Seq<char>) -> Seq<char> {
    match last_where(path, slash()) {
        Some(i) => path.subrange(i + 1, path.len() as int),
        None => path,
    }
}

/// The shell's program name (see `shell_name_of`).
pub fn shell_name(path: &str) -> (r: String)
    ensures
        r@ == shell_name_of(path@),
{
    let v = chars_of(path);
    let ghost p = slash();
    proof {
        lemma_last_where(v@, p);
    }
    let mut i: usize = v.len();
    while i > 0
        invariant
            i <= v@.len(),
            v@ == path@,
            p == slash(),
            forall|k: int| i <= k < v@.len() ==> !p(#[trigger] v@[k]),
            match last_where(v@, p) {
                Some(j) => 0 <= j < v@.len() && p(v@[j]) && forall|k: int| j < k < v@.len() ==> !p(#[trigger] v@[k]),
                None => forall|k: int| 0 <= k < v@.len() ==> !p(#[trigger] v@[k]),
            },
        decreases i,
    {
        if v[i - 1] == '/' {
            assert(p(v@[i - 1]));
            assert(last_where(v@, p) == Some(i - 1)) by {
                match last_where(v@, p) {
                    Some(j) => {
                        if j < i - 1 {
                            assert(!p(v@[i - 1]));
                        } else if j > i - 1 {
                            assert(!p(v@[j]));
                        }
                    },
                    None => {
                        assert(!p(v@[i - 1]));
                    },
                }
            }
            let r = string_from_range(&v, i, v.len());
            assert(v@ == path@);
            assert(shell_name_of(path@) == v@.subrange(i as int, v@.len() as int));
            return r;
        }
        i -= 1;
    }
    proof {
        match last_where(v@, p) {
            Some(j) => {
                assert(!p(v@[j]));
            },
            None => {},
        }
    }
    let r = string_from_range(&v, 0, v.len());
    assert(v@.subrange(0, v@.len() as int) =~= v@);
    r
}

} // verus!
