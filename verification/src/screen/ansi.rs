//! Escape-sequence actions: what each control code and CSI/ESC/OSC sequence does to
//! the screen, and the replies it sends back to the application.
//!
//! Splitting the byte stream into these actions is the job of a VT parser outside this
//! module; it hands each action over as plain values.

use vstd::prelude::*;
use super::{Screen, ScreenModel, MouseMode};
use super::write::{char_written, last_char_repeated};
use super::scroll::{indexed, reverse_indexed, next_lined, line_fed, carriage_returned, scrolled_up, scrolled_down, scroll_region_set};
use super::erase::{display_erased, line_erased, lines_inserted, lines_deleted, chars_inserted, chars_deleted, chars_erased};
use super::modes::{cursor_saved, cursor_restored, cursor_moved, cursor_visibility_set, alt_entered, alt_exited, screen_reset};
use super::view::prompt_marked;
use super::hyperlink_set;
use crate::attributes::{default_attrs, CellAttributes, Color};
use crate::cursor::{min_int, sat_sub, Cursor};
use vstd::utf8::{decode_utf8, valid_utf8};

verus! {

// ---------------------------------------------------------------- parameters

/// CSI parameter `i` (its first sub-parameter); missing or 0 gives `d`.
pub open spec fn param_of(ps: Seq<Seq<u16>>, i: int, d: u16) -> u16 {
    if 0 <= i < ps.len() && ps[i].len() > 0 {
        if ps[i][0] == 0 { d } else { ps[i][0] }
    } else {
        d
    }
}

/// CSI parameter `i`; only a missing one gives `d` (erase modes, where 0 is a value).
pub open spec fn param_raw_of(ps: Seq<Seq<u16>>, i: int, d: u16) -> u16 {
    if 0 <= i < ps.len() && ps[i].len() > 0 { ps[i][0] } else { d }
}

/// First sub-parameter of parameter `i`, 0 if it has none.
pub open spec fn first_of(ps: Seq<Seq<u16>>, i: int) -> u16 {
    if 0 <= i < ps.len() && ps[i].len() > 0 { ps[i][0] } else { 0 }
}

/// CSI parameter `index`, missing or 0 meaning `default`.
pub fn param(params: &Vec<Vec<u16>>, index: usize, default: u16) -> (r: u16)
    ensures
        r == param_of(deep(params), index as int, default),
{
    if index < params.len() && params[index].len() > 0 {
        let v = params[index][0];
        if v == 0 { default } else { v }
    } else {
        default
    }
}

/// CSI parameter `index`, only a missing one meaning `default`.
pub fn param_raw(params: &Vec<Vec<u16>>, index: usize, default: u16) -> (r: u16)
    ensures
        r == param_raw_of(deep(params), index as int, default),
{
    if index < params.len() && params[index].len() > 0 {
        params[index][0]
    } else {
        default
    }
}

/// First sub-parameter of parameter `i`, 0 if missing.
fn first(params: &Vec<Vec<u16>>, i: usize) -> (r: u16)
    ensures
        r == first_of(deep(params), i as int),
{
    if i < params.len() && params[i].len() > 0 {
        params[i][0]
    } else {
        0
    }
}

/// The parameters as sequences.
pub open spec fn deep(params: &Vec<Vec<u16>>) -> Seq<Seq<u16>> {
    params@.map_values(|p: Vec<u16>| p@)
}

// ---------------------------------------------------------------- cursor moves and controls

/// The cursor moved to `c` (a redraw is not requested).
pub open spec fn with_cursor(m: ScreenModel, c: Cursor) -> ScreenModel {
    ScreenModel { cursor: c, ..m }
}

/// Backspace: one column left, stopping at the first.
pub open spec fn backspaced(m: ScreenModel) -> ScreenModel {
    with_cursor(m, Cursor { col: sat_sub(m.cursor.col as int, 1) as usize, ..m.cursor })
}

/// Horizontal tab: the next multiple of 8, at most the last column.
pub open spec fn tabbed(m: ScreenModel) -> ScreenModel {
    let next = (m.cursor.col / 8 + 1) * 8;
    with_cursor(m, Cursor { col: min_int(next, m.cols - 1) as usize, ..m.cursor })
}

/// What a C0 control byte does: BS, HT, LF/VT/FF, CR; others are ignored.
pub open spec fn executed(m: ScreenModel, b: u8) -> ScreenModel {
    if b == 0x08 {
        backspaced(m)
    } else if b == 0x09 {
        tabbed(m)
    } else if 0x0A <= b <= 0x0C {
        line_fed(m)
    } else if b == 0x0D {
        carriage_returned(m)
    } else {
        m
    }
}

/// What an ESC sequence without intermediates does: DECSC, DECRC, IND, NEL, RI, RIS.
pub open spec fn esc_effect(m: ScreenModel, inter: Seq<u8>, b: u8) -> ScreenModel {
    if inter.len() > 0 {
        m
    } else if b == 0x37 {
        cursor_saved(m)
    } else if b == 0x38 {
        cursor_restored(m)
    } else if b == 0x44 {
        indexed(m)
    } else if b == 0x45 {
        next_lined(m)
    } else if b == 0x4D {
        reverse_indexed(m)
    } else if b == 0x63 {
        screen_reset(m)
    } else {
        m
    }
}

impl Screen {
    /// Backspace: the cursor moves one column left.
    pub fn backspace(&mut self)
        requires
            old(self).wf(),
        ensures
            final(self).wf(),
            final(self).model() == backspaced(old(self).model()),
    {
        self.cursor.move_left(1);
        assert(self.model() =~= backspaced(old(self).model()));
    }

    /// Horizontal tab: the cursor moves to the next tab stop (every 8 columns).
    pub fn tab(&mut self)
        requires
            old(self).wf(),
        ensures
            final(self).wf(),
            final(self).model() == tabbed(old(self).model()),
    {
        let next_tab = (self.cursor.col / 8 + 1) * 8;
        self.cursor.col = if next_tab < self.cols - 1 { next_tab } else { self.cols - 1 };
        assert(self.model() =~= tabbed(old(self).model()));
    }

    /// Performs a C0 control byte (see `executed`).
    pub fn execute_control(&mut self, byte: u8)
        requires
            old(self).wf(),
        ensures
            final(self).wf(),
            final(self).model() == executed(old(self).model(), byte),
    {
        if byte == 0x08 {
            self.backspace();
        } else if byte == 0x09 {
            self.tab();
        } else if 0x0A <= byte && byte <= 0x0C {
            self.line_feed();
        } else if byte == 0x0D {
            self.carriage_return();
        }
    }

    /// Performs an ESC sequence (see `esc_effect`).
    pub fn esc_dispatch(&mut self, intermediates: &[u8], byte: u8)
        requires
            old(self).wf(),
        ensures
            final(self).wf(),
            final(self).model() == esc_effect(old(self).model(), intermediates@, byte),
    {
        if intermediates.len() > 0 {
            return;
        }
        if byte == 0x37 {
            self.save_cursor();
        } else if byte == 0x38 {
            self.restore_cursor();
        } else if byte == 0x44 {
            self.index();
        } else if byte == 0x45 {
            self.next_line();
        } else if byte == 0x4D {
            self.reverse_index();
        } else if byte == 0x63 {
            self.reset();
        }
    }
}

// ---------------------------------------------------------------- private modes

/// Mouse tracking requested by DECSET mode `mode` (9, 1000, 1002, 1003).
pub open spec fn mouse_mode_of(mode: u16) -> MouseMode {
    if mode == 9 {
        MouseMode::X10
    } else if mode == 1000 {
        MouseMode::Normal
    } else if mode == 1002 {
        MouseMode::ButtonEvent
    } else {
        MouseMode::AnyEvent
    }
}

/// What `CSI ? mode h` (enable) or `CSI ? mode l` does.
pub open spec fn private_mode_set(m: ScreenModel, mode: u16, enable: bool) -> ScreenModel {
    if mode == 7 {
        ScreenModel { autowrap: enable, ..m }
    } else if mode == 25 {
        cursor_visibility_set(m, enable)
    } else if mode == 47 || mode == 1047 {
        if enable { alt_entered(m) } else { alt_exited(m) }
    } else if mode == 1048 {
        if enable { cursor_saved(m) } else { cursor_restored(m) }
    } else if mode == 1049 {
        if enable { alt_entered(cursor_saved(m)) } else { cursor_restored(alt_exited(m)) }
    } else if mode == 2004 {
        ScreenModel { bracketed_paste: enable, ..m }
    } else if mode == 9 || mode == 1000 || mode == 1002 || mode == 1003 {
        ScreenModel { mouse_mode: if enable { mouse_mode_of(mode) } else { MouseMode::Off }, ..m }
    } else if mode == 1006 {
        ScreenModel { mouse_sgr: enable, ..m }
    } else {
        m
    }
}

/// The modes of parameters `i..` applied in order.
pub open spec fn private_modes_from(m: ScreenModel, ps: Seq<Seq<u16>>, i: int, enable: bool) -> ScreenModel
    decreases ps.len() - i,
{
    if i < 0 || i >= ps.len() {
        m
    } else {
        private_modes_from(private_mode_set(m, first_of(ps, i), enable), ps, i + 1, enable)
    }
}

// ---------------------------------------------------------------- SGR

/// Attributes after one SGR code that takes no further parameters.
pub open spec fn sgr_simple(a: CellAttributes, n: u16) -> CellAttributes {
    if n == 0 {
        default_attrs()
    } else if n == 1 {
        CellAttributes { bold: true, ..a }
    } else if n == 2 {
        CellAttributes { dim: true, ..a }
    } else if n == 3 {
        CellAttributes { italic: true, ..a }
    } else if n == 4 {
        CellAttributes { underline: true, ..a }
    } else if n == 7 {
        CellAttributes { reverse: true, ..a }
    } else if n == 9 {
        CellAttributes { strikethrough: true, ..a }
    } else if n == 22 {
        CellAttributes { bold: false, dim: false, ..a }
    } else if n == 23 {
        CellAttributes { italic: false, ..a }
    } else if n == 24 {
        CellAttributes { underline: false, ..a }
    } else if n == 27 {
        CellAttributes { reverse: false, ..a }
    } else if n == 29 {
        CellAttributes { strikethrough: false, ..a }
    } else if 30 <= n <= 37 {
        CellAttributes { fg_color: Color::Indexed((n - 30) as u8), ..a }
    } else if n == 39 {
        CellAttributes { fg_color: Color::Indexed(7), ..a }
    } else if 40 <= n <= 47 {
        CellAttributes { bg_color: Color::Indexed((n - 40) as u8), ..a }
    } else if n == 49 {
        CellAttributes { bg_color: Color::Indexed(0), ..a }
    } else if 90 <= n <= 97 {
        CellAttributes { fg_color: Color::Indexed((n - 90 + 8) as u8), ..a }
    } else if 100 <= n <= 107 {
        CellAttributes { bg_color: Color::Indexed((n - 100 + 8) as u8), ..a }
    } else {
        a
    }
}

/// The colour and the index after an extended colour (`38`/`48` at `i`): `5;n` is a
/// palette index, `2;r;g;b` a true colour (missing parts 0); other modes set nothing.
pub open spec fn extended_color(ps: Seq<Seq<u16>>, i: int) -> (Option<Color>, int) {
    if i + 1 >= ps.len() {
        (None, i + 1)
    } else {
        let mode = first_of(ps, i + 1);
        if mode == 5 {
            if i + 2 < ps.len() {
                (Some(Color::Indexed(first_of(ps, i + 2) as u8)), i + 3)
            } else {
                (None, i + 2)
            }
        } else if mode == 2 {
            let c = Color::Rgb(first_of(ps, i + 2) as u8, first_of(ps, i + 3) as u8, first_of(ps, i + 4) as u8);
            (Some(c), min_int(i + 5, ps.len() as int))
        } else {
            (None, i + 2)
        }
    }
}

/// The SGR code at parameter `i` applied, with the index of the next code (codes 53
/// and 54 start and end suggestion mode).
pub open spec fn sgr_one(m: ScreenModel, ps: Seq<Seq<u16>>, i: int) -> (ScreenModel, int) {
    let n = first_of(ps, i);
    if n == 38 || n == 48 {
        let (c, next) = extended_color(ps, i);
        let a = match c {
            Some(col) => if n == 38 {
                CellAttributes { fg_color: col, ..m.attrs }
            } else {
                CellAttributes { bg_color: col, ..m.attrs }
            },
            None => m.attrs,
        };
        (ScreenModel { attrs: a, ..m }, next)
    } else if n == 53 {
        (ScreenModel { suggestion_mode: true, suggestion_start: m.cursor.col, ..m }, i + 1)
    } else if n == 54 {
        (ScreenModel { suggestion_mode: false, ..m }, i + 1)
    } else {
        (ScreenModel { attrs: sgr_simple(m.attrs, n), ..m }, i + 1)
    }
}

/// SGR parameters from `i` on applied in order.
pub open spec fn sgr_from(m: ScreenModel, ps: Seq<Seq<u16>>, i: int) -> ScreenModel
    decreases ps.len() - i,
{
    if i < 0 || i >= ps.len() {
        m
    } else {
        let (m2, next) = sgr_one(m, ps, i);
        if next <= i {
            m2
        } else {
            sgr_from(m2, ps, next)
        }
    }
}

/// `CSI ... m` (SGR): no parameters reset the attributes.
pub open spec fn sgr_applied(m: ScreenModel, ps: Seq<Seq<u16>>) -> ScreenModel {
    if ps.len() == 0 {
        ScreenModel { attrs: default_attrs(), ..m }
    } else {
        sgr_from(m, ps, 0)
    }
}

impl Screen {
    /// Sets or resets one DEC private mode (see `private_mode_set`).
    pub fn set_private_mode(&mut self, mode: u16, enable: bool)
        requires
            old(self).wf(),
        ensures
            final(self).wf(),
            final(self).model() == private_mode_set(old(self).model(), mode, enable),
    {
        if mode == 7 {
            self.autowrap = enable;
            assert(self.model() =~= private_mode_set(old(self).model(), mode, enable));
        } else if mode == 25 {
            self.set_cursor_visible(enable);
        } else if mode == 47 || mode == 1047 {
            if enable {
                self.enter_alt_screen();
            } else {
                self.exit_alt_screen();
            }
        } else if mode == 1048 {
            if enable {
                self.save_cursor();
            } else {
                self.restore_cursor();
            }
        } else if mode == 1049 {
            if enable {
                self.save_cursor();
                self.enter_alt_screen();
            } else {
                self.exit_alt_screen();
                self.restore_cursor();
            }
        } else if mode == 2004 {
            self.bracketed_paste = enable;
            assert(self.model() =~= private_mode_set(old(self).model(), mode, enable));
        } else if mode == 9 || mode == 1000 || mode == 1002 || mode == 1003 {
            self.mouse_mode = if !enable {
                MouseMode::Off
            } else if mode == 9 {
                MouseMode::X10
            } else if mode == 1000 {
                MouseMode::Normal
            } else if mode == 1002 {
                MouseMode::ButtonEvent
            } else {
                MouseMode::AnyEvent
            };
            assert(self.model() =~= private_mode_set(old(self).model(), mode, enable));
        } else if mode == 1006 {
            self.mouse_sgr = enable;
            assert(self.model() =~= private_mode_set(old(self).model(), mode, enable));
        }
    }

    /// Applies SGR parameters (see `sgr_applied`).
    pub fn select_graphic_rendition(&mut self, params: &Vec<Vec<u16>>)
        requires
            old(self).wf(),
        ensures
            final(self).wf(),
            final(self).model() == sgr_applied(old(self).model(), deep(params)),
    {
        let ghost ps = deep(params);
        if params.len() == 0 {
            self.current_attrs = CellAttributes::new_default();
            assert(self.model() =~= sgr_applied(old(self).model(), ps));
            return;
        }
        let mut i: usize = 0;
        while i < params.len()
            invariant
                ps == deep(params),
                self.wf(),
                i <= params@.len(),
                sgr_from(self.model(), ps, i as int) == sgr_from(old(self).model(), ps, 0),
            decreases params@.len() - i,
        {
            i = self.sgr_step(params, i);
        }
        assert(sgr_from(self.model(), ps, i as int) == self.model());
    }

    /// Replaces the attributes of the next characters written.
    fn set_attrs(&mut self, a: CellAttributes)
        requires
            old(self).wf(),
        ensures
            final(self).wf(),
            final(self).model() == (ScreenModel { attrs: a, ..old(self).model() }),
    {
        self.current_attrs = a;
        assert(self.model() =~= ScreenModel { attrs: a, ..old(self).model() });
    }

    /// Applies the SGR code at parameter `i` and returns the index of the next one.
    fn sgr_step(&mut self, params: &Vec<Vec<u16>>, i: usize) -> (next: usize)
        requires
            old(self).wf(),
            i < params@.len(),
        ensures
            final(self).wf(),
            i < next <= params@.len(),
            final(self).model() == sgr_one(old(self).model(), deep(params), i as int).0,
            next == sgr_one(old(self).model(), deep(params), i as int).1,
    {
        let _len = params.len();
        let n = first(params, i);
        if n == 38 || n == 48 {
            let (color, next) = extended(params, i);
            let a = match color {
                Some(c) => if n == 38 {
                    CellAttributes { fg_color: c, ..self.current_attrs }
                } else {
                    CellAttributes { bg_color: c, ..self.current_attrs }
                },
                None => self.current_attrs,
            };
            self.set_attrs(a);
            next
        } else if n == 53 {
            self.start_suggestion();
            i + 1
        } else if n == 54 {
            self.end_suggestion();
            i + 1
        } else {
            let a = sgr_code(self.current_attrs, n);
            self.set_attrs(a);
            i + 1
        }
    }
}

/// The colour of an extended colour code at parameter `i` and the next index (see
/// `extended_color`).
fn extended(params: &Vec<Vec<u16>>, i: usize) -> (r: (Option<Color>, usize))
    requires
        i < params@.len(),
    ensures
        (r.0, r.1 as int) == extended_color(deep(params), i as int),
        i < r.1 <= params@.len(),
{
    let len = params.len();
    if i + 1 >= len {
        return (None, i + 1);
    }
    let mode = first(params, i + 1);
    if mode == 5 {
        if i + 2 < params.len() {
            (Some(Color::Indexed(first(params, i + 2) as u8)), i + 3)
        } else {
            (None, i + 2)
        }
    } else if mode == 2 {
        let r = first(params, i + 2) as u8;
        let g = first(params, i.saturating_add(3)) as u8;
        let b = first(params, i.saturating_add(4)) as u8;
        let next = if params.len() - i > 5 { i + 5 } else { params.len() };
        (Some(Color::Rgb(r, g, b)), next)
    } else {
        (None, i + 2)
    }
}

/// Attributes after one SGR code that takes no further parameters.
fn sgr_code(a: CellAttributes, n: u16) -> (r: CellAttributes)
    ensures
        r == sgr_simple(a, n),
{
    if n == 0 {
        CellAttributes::new_default()
    } else if n == 1 {
        CellAttributes { bold: true, ..a }
    } else if n == 2 {
        CellAttributes { dim: true, ..a }
    } else if n == 3 {
        CellAttributes { italic: true, ..a }
    } else if n == 4 {
        CellAttributes { underline: true, ..a }
    } else if n == 7 {
        CellAttributes { reverse: true, ..a }
    } else if n == 9 {
        CellAttributes { strikethrough: true, ..a }
    } else if n == 22 {
        CellAttributes { bold: false, dim: false, ..a }
    } else if n == 23 {
        CellAttributes { italic: false, ..a }
    } else if n == 24 {
        CellAttributes { underline: false, ..a }
    } else if n == 27 {
        CellAttributes { reverse: false, ..a }
    } else if n == 29 {
        CellAttributes { strikethrough: false, ..a }
    } else if 30 <= n && n <= 37 {
        CellAttributes { fg_color: Color::Indexed((n - 30) as u8), ..a }
    } else if n == 39 {
        CellAttributes { fg_color: Color::default_fg(), ..a }
    } else if 40 <= n && n <= 47 {
        CellAttributes { bg_color: Color::Indexed((n - 40) as u8), ..a }
    } else if n == 49 {
        CellAttributes { bg_color: Color::default_bg(), ..a }
    } else if 90 <= n && n <= 97 {
        CellAttributes { fg_color: Color::Indexed((n - 90 + 8) as u8), ..a }
    } else if 100 <= n && n <= 107 {
        CellAttributes { bg_color: Color::Indexed((n - 100 + 8) as u8), ..a }
    } else {
        a
    }
}

// ---------------------------------------------------------------- CSI

/// `n - 1`, or 0, as a `usize`.
pub open spec fn one_based(n: u16) -> usize {
    sat_sub(n as int, 1) as usize
}

/// The intermediates mark a DEC private sequence (`CSI ? ...`).
pub open spec fn is_private(inter: Seq<u8>) -> bool {
    inter.len() > 0 && inter[0] == 0x3f
}

/// CSI final characters that move the cursor.
pub open spec fn is_cursor_csi(c: char) -> bool {
    c == 'H' || c == 'f' || c == 'A' || c == 'B' || c == 'e' || c == 'C' || c == 'a' || c == 'D'
        || c == 'E' || c == 'F' || c == 'G' || c == '`' || c == 'd'
}

/// What a cursor-moving CSI sequence does: CUP, CUU, CUD, CUF, CUB, CNL, CPL, CHA, VPA.
pub open spec fn cursor_csi_effect(m: ScreenModel, ps: Seq<Seq<u16>>, c: char) -> ScreenModel {
    let n = param_of(ps, 0, 1) as int;
    if c == 'H' || c == 'f' {
        cursor_moved(m, one_based(param_of(ps, 0, 1)) as int, one_based(param_of(ps, 1, 1)) as int)
    } else if c == 'A' {
        with_cursor(m, Cursor { row: sat_sub(m.cursor.row as int, n) as usize, ..m.cursor })
    } else if c == 'B' || c == 'e' {
        with_cursor(m, Cursor { row: min_int(m.cursor.row + n, m.rows - 1) as usize, ..m.cursor })
    } else if c == 'C' || c == 'a' {
        with_cursor(m, Cursor { col: min_int(m.cursor.col + n, m.cols - 1) as usize, ..m.cursor })
    } else if c == 'D' {
        with_cursor(m, Cursor { col: sat_sub(m.cursor.col as int, n) as usize, ..m.cursor })
    } else if c == 'E' {
        carriage_returned(with_cursor(m, Cursor { row: min_int(m.cursor.row + n, m.rows - 1) as usize, ..m.cursor }))
    } else if c == 'F' {
        carriage_returned(with_cursor(m, Cursor { row: sat_sub(m.cursor.row as int, n) as usize, ..m.cursor }))
    } else if c == 'G' || c == '`' {
        cursor_moved(m, m.cursor.row as int, one_based(param_of(ps, 0, 1)) as int)
    } else {
        cursor_moved(m, one_based(param_of(ps, 0, 1)) as int, m.cursor.col as int)
    }
}

/// What an editing CSI sequence does: ED, EL, IL, DL, ICH, DCH, ECH, SU, SD, REP,
/// DECSTBM, save/restore cursor, SGR; other final characters are ignored.
pub open spec fn edit_csi_effect(m: ScreenModel, ps: Seq<Seq<u16>>, c: char) -> ScreenModel {
    let n = param_of(ps, 0, 1) as int;
    if c == 'J' {
        display_erased(m, param_raw_of(ps, 0, 0))
    } else if c == 'K' {
        line_erased(m, param_raw_of(ps, 0, 0))
    } else if c == 'L' {
        lines_inserted(m, n)
    } else if c == 'M' {
        lines_deleted(m, n)
    } else if c == '@' {
        chars_inserted(m, n)
    } else if c == 'P' {
        chars_deleted(m, n)
    } else if c == 'X' {
        chars_erased(m, n)
    } else if c == 'S' {
        scrolled_up(m, n as nat)
    } else if c == 'T' {
        scrolled_down(m, n as nat)
    } else if c == 'b' {
        last_char_repeated(m, n as nat)
    } else if c == 'r' {
        scroll_region_set(
            m,
            one_based(param_of(ps, 0, 1)) as int,
            one_based(param_of(ps, 1, m.rows as u16)) as int,
        )
    } else if c == 's' {
        cursor_saved(m)
    } else if c == 'u' {
        cursor_restored(m)
    } else if c == 'm' {
        sgr_applied(m, ps)
    } else {
        m
    }
}

/// What a CSI sequence ending in `c` does to the screen.
pub open spec fn csi_effect(m: ScreenModel, ps: Seq<Seq<u16>>, inter: Seq<u8>, c: char) -> ScreenModel {
    if is_private(inter) {
        if c == 'h' || c == 'l' { private_modes_from(m, ps, 0, c == 'h') } else { m }
    } else if is_cursor_csi(c) {
        cursor_csi_effect(m, ps, c)
    } else {
        edit_csi_effect(m, ps, c)
    }
}

/// Decimal digits of `n`, as ASCII bytes.
pub open spec fn dec_digits(n: nat) -> Seq<u8>
    decreases n,
{
    if n < 10 {
        seq![(n + 48) as u8]
    } else {
        dec_digits(n / 10).push((n % 10 + 48) as u8)
    }
}

/// The reply a CSI sequence asks for: DA (`c`) and DSR (`5n` status, `6n` cursor
/// position, one-based).
pub open spec fn csi_reply(m: ScreenModel, ps: Seq<Seq<u16>>, inter: Seq<u8>, c: char) -> Seq<u8> {
    if is_private(inter) {
        Seq::empty()
    } else if c == 'c' {
        seq![0x1bu8, 0x5bu8, 0x3fu8, 0x31u8, 0x3bu8, 0x32u8, 0x63u8]
    } else if c == 'n' {
        let k = param_raw_of(ps, 0, 0);
        if k == 5 {
            seq![0x1bu8, 0x5bu8, 0x30u8, 0x6eu8]
        } else if k == 6 {
            seq![0x1bu8, 0x5bu8] + dec_digits((m.cursor.row + 1) as nat) + seq![0x3bu8] + dec_digits(
                (m.cursor.col + 1) as nat,
            ) + seq![0x52u8]
        } else {
            Seq::empty()
        }
    } else {
        Seq::empty()
    }
}

/// Appends the decimal digits of `n`.
pub(crate) fn push_decimal(out: &mut Vec<u8>, n: usize)
    ensures
        final(out)@ == old(out)@ + dec_digits(n as nat),
    decreases n,
{
    if n >= 10 {
        push_decimal(out, n / 10);
    }
    out.push((n % 10) as u8 + 48);
    assert(final(out)@ =~= old(out)@ + dec_digits(n as nat)) by {
        if n >= 10 {
            assert(old(out)@ + dec_digits(n as nat) =~= (old(out)@ + dec_digits((n / 10) as nat)).push(
                (n % 10 + 48) as u8,
            ));
        }
    }
}

impl Screen {
    /// Performs a CSI sequence (see `csi_effect`).
    pub fn csi_dispatch(&mut self, params: &Vec<Vec<u16>>, intermediates: &[u8], c: char)
        requires
            old(self).wf(),
            !is_private(intermediates@) && (c == '@' || c == 'P') ==> old(self).model().cursor.col
                <= old(self).model().cols,
        ensures
            final(self).wf(),
            final(self).model() == csi_effect(old(self).model(), deep(params), intermediates@, c),
    {
        if intermediates.len() > 0 && intermediates[0] == 0x3f {
            if c == 'h' || c == 'l' {
                self.set_private_modes(params, c == 'h');
            }
        } else if c == 'H' || c == 'f' || c == 'A' || c == 'B' || c == 'e' || c == 'C' || c == 'a'
            || c == 'D' || c == 'E' || c == 'F' || c == 'G' || c == '`' || c == 'd' {
            self.cursor_csi(params, c);
        } else {
            self.edit_csi(params, c);
        }
    }

    /// Sets or resets the DEC private modes of all parameters, in order.
    fn set_private_modes(&mut self, params: &Vec<Vec<u16>>, enable: bool)
        requires
            old(self).wf(),
        ensures
            final(self).wf(),
            final(self).model() == private_modes_from(old(self).model(), deep(params), 0, enable),
    {
        let ghost ps = deep(params);
        let mut i: usize = 0;
        while i < params.len()
            invariant
                ps == deep(params),
                self.wf(),
                i <= params@.len(),
                private_modes_from(self.model(), ps, i as int, enable) == private_modes_from(
                    old(self).model(),
                    ps,
                    0,
                    enable,
                ),
            decreases params@.len() - i,
        {
            let mode = first(params, i);
            self.set_private_mode(mode, enable);
            i += 1;
        }
    }

    /// Puts the cursor at `(row, col)` without requesting a redraw.
    fn place_cursor(&mut self, row: usize, col: usize)
        requires
            old(self).wf(),
            row < old(self).model().rows,
            col <= usize::MAX / 2,
        ensures
            final(self).wf(),
            final(self).model() == with_cursor(old(self).model(), Cursor { row, col, ..old(self).model().cursor }),
    {
        self.cursor.row = row;
        self.cursor.col = col;
        assert(self.model() =~= with_cursor(old(self).model(), Cursor { row, col, ..old(self).model().cursor }));
    }

    /// Performs a cursor-moving CSI sequence (see `cursor_csi_effect`).
    #[verifier::rlimit(40)]
    fn cursor_csi(&mut self, params: &Vec<Vec<u16>>, c: char)
        requires
            old(self).wf(),
            is_cursor_csi(c),
        ensures
            final(self).wf(),
            final(self).model() == cursor_csi_effect(old(self).model(), deep(params), c),
    {
        let n = param(params, 0, 1) as usize;
        let row = self.cursor.row;
        let col = self.cursor.col;
        let last_row = self.rows - 1;
        let last_col = self.cols - 1;
        let up = if row >= n { row - n } else { 0 };
        let down = if n <= last_row - row { row + n } else { last_row };
        if c == 'H' || c == 'f' {
            let r = param(params, 0, 1).saturating_sub(1) as usize;
            let k = param(params, 1, 1).saturating_sub(1) as usize;
            self.move_cursor_to(r, k);
        } else if c == 'A' {
            self.place_cursor(up, col);
        } else if c == 'B' || c == 'e' {
            self.place_cursor(down, col);
        } else if c == 'C' || c == 'a' {
            let right = if col < last_col && n <= last_col - col { col + n } else { last_col };
            self.place_cursor(row, right);
        } else if c == 'D' {
            let left = if col >= n { col - n } else { 0 };
            self.place_cursor(row, left);
        } else if c == 'E' {
            self.place_cursor(down, col);
            self.carriage_return();
        } else if c == 'F' {
            self.place_cursor(up, col);
            self.carriage_return();
        } else if c == 'G' || c == '`' {
            let k = param(params, 0, 1).saturating_sub(1) as usize;
            self.move_cursor_to(row, k);
        } else {
            let r = param(params, 0, 1).saturating_sub(1) as usize;
            self.move_cursor_to(r, col);
        }
    }

    /// Performs an editing CSI sequence (see `edit_csi_effect`).
    fn edit_csi(&mut self, params: &Vec<Vec<u16>>, c: char)
        requires
            old(self).wf(),
            (c == '@' || c == 'P') ==> old(self).model().cursor.col <= old(self).model().cols,
        ensures
            final(self).wf(),
            final(self).model() == edit_csi_effect(old(self).model(), deep(params), c),
    {
        let n = param(params, 0, 1) as usize;
        if c == 'J' {
            self.erase_in_display(param_raw(params, 0, 0));
        } else if c == 'K' {
            self.erase_in_line(param_raw(params, 0, 0));
        } else if c == 'L' {
            self.insert_lines(n);
        } else if c == 'M' {
            self.delete_lines(n);
        } else if c == '@' {
            self.insert_chars(n);
        } else if c == 'P' {
            self.delete_chars(n);
        } else if c == 'X' {
            self.erase_chars(n);
        } else if c == 'S' {
            self.scroll_up(n);
        } else if c == 'T' {
            self.scroll_down(n);
        } else if c == 'b' {
            self.repeat_last_char(n);
        } else if c == 'r' {
            let top = param(params, 0, 1).saturating_sub(1) as usize;
            let bottom = param(params, 1, self.rows as u16).saturating_sub(1) as usize;
            self.set_scroll_region(top, bottom);
        } else if c == 's' {
            self.save_cursor();
        } else if c == 'u' {
            self.restore_cursor();
        } else if c == 'm' {
            self.select_graphic_rendition(params);
        }
    }

    /// Appends the reply a CSI sequence asks for (see `csi_reply`).
    pub fn csi_reply(&self, params: &Vec<Vec<u16>>, intermediates: &[u8], c: char, out: &mut Vec<u8>)
        requires
            self.wf(),
        ensures
            final(out)@ == old(out)@ + csi_reply(self.model(), deep(params), intermediates@, c),
    {
        if intermediates.len() > 0 && intermediates[0] == 0x3f {
            assert(old(out)@ + Seq::<u8>::empty() =~= old(out)@);
            return;
        }
        if c == 'c' {
            out.push(0x1b);
            out.push(0x5b);
            out.push(0x3f);
            out.push(0x31);
            out.push(0x3b);
            out.push(0x32);
            out.push(0x63);
            assert(out@ =~= old(out)@ + csi_reply(self.model(), deep(params), intermediates@, c));
        } else if c == 'n' {
            let k = param_raw(params, 0, 0);
            if k == 5 {
                out.push(0x1b);
                out.push(0x5b);
                out.push(0x30);
                out.push(0x6e);
                assert(out@ =~= old(out)@ + csi_reply(self.model(), deep(params), intermediates@, c));
            } else if k == 6 {
                out.push(0x1b);
                out.push(0x5b);
                let ghost o1 = out@;
                push_decimal(out, self.cursor.row + 1);
                out.push(0x3b);
                let ghost o2 = out@;
                push_decimal(out, self.cursor.col + 1);
                out.push(0x52);
                assert(out@ =~= old(out)@ + csi_reply(self.model(), deep(params), intermediates@, c));
            } else {
                assert(old(out)@ + Seq::<u8>::empty() =~= old(out)@);
            }
        } else {
            assert(old(out)@ + Seq::<u8>::empty() =~= old(out)@);
        }
    }
}

// ---------------------------------------------------------------- OSC

/// `std::str::from_utf8` of std, the result copied into a `String`.
///
/// Claimed: a string comes back exactly when the bytes are valid UTF-8, and it holds
/// the characters they encode.
#[verifier::external_body]
fn utf8_string(bytes: &[u8]) -> (r: Option<String>)
    ensures
        match r {
            Some(s) => valid_utf8(bytes@) && s@ == decode_utf8(bytes@),
            None => !valid_utf8(bytes@),
        },
{
    match std::str::from_utf8(bytes) {
        Ok(s) => Some(s.to_string()),
        Err(_) => None,
    }
}

/// OSC parameters `ps[i..]` joined again with `;`.
pub open spec fn joined_from(ps: Seq<Seq<u8>>, i: int) -> Seq<u8>
    decreases ps.len() - i,
{
    if i < 0 || i >= ps.len() {
        Seq::empty()
    } else if i == ps.len() - 1 {
        ps[i]
    } else {
        ps[i] + seq![0x3bu8] + joined_from(ps, i + 1)
    }
}

/// The URI of an OSC 8 sequence (`8 ; params ; uri`), which may itself hold `;`.
pub open spec fn osc8_uri(ps: Seq<Seq<u8>>) -> Option<Seq<char>> {
    let b = joined_from(ps, 2);
    if ps.len() > 2 && valid_utf8(b) { Some(decode_utf8(b)) } else { None }
}

/// What an OSC sequence does: 0/1/2 set the window title, 8 starts or ends a
/// hyperlink, `133;A` marks the start of a prompt; others are ignored.
pub open spec fn osc_effect(m: ScreenModel, ps: Seq<Seq<u8>>) -> ScreenModel {
    if ps.len() == 0 {
        m
    } else {
        let cmd = ps[0];
        if cmd == seq![0x30u8] || cmd == seq![0x31u8] || cmd == seq![0x32u8] {
            if ps.len() > 1 && valid_utf8(ps[1]) {
                ScreenModel { title: Some(decode_utf8(ps[1])), ..m }
            } else {
                m
            }
        } else if cmd == seq![0x38u8] {
            hyperlink_set(m, osc8_uri(ps))
        } else if cmd == seq![0x31u8, 0x33u8, 0x33u8] {
            if ps.len() > 1 && ps[1] == seq![0x41u8] { prompt_marked(m) } else { m }
        } else {
            m
        }
    }
}

/// The OSC parameters as sequences.
pub open spec fn deep_bytes(params: &Vec<Vec<u8>>) -> Seq<Seq<u8>> {
    params@.map_values(|p: Vec<u8>| p@)
}

/// Whether `v` is the single byte `b`.
fn is_byte(v: &Vec<u8>, b: u8) -> (r: bool)
    ensures
        r == (v@ == seq![b]),
{
    let r = v.len() == 1 && v[0] == b;
    assert(r ==> v@ =~= seq![b]);
    r
}

/// Whether `v` is the three bytes `a b c`.
fn is_bytes3(v: &Vec<u8>, a: u8, b: u8, c: u8) -> (r: bool)
    ensures
        r == (v@ == seq![a, b, c]),
{
    let r = v.len() == 3 && v[0] == a && v[1] == b && v[2] == c;
    assert(r ==> v@ =~= seq![a, b, c]);
    r
}

/// OSC parameters from `i` on joined with `;`.
fn join_params(params: &Vec<Vec<u8>>, i: usize) -> (r: Vec<u8>)
    ensures
        r@ == joined_from(deep_bytes(params), i as int),
{
    let ghost ps = deep_bytes(params);
    let mut tail: Vec<u8> = Vec::new();
    if i >= params.len() {
        return tail;
    }
    let mut k = params.len() - 1;
    let mut j: usize = 0;
    while j < params[k].len()
        invariant
            k == params@.len() - 1,
            j <= params@[k as int]@.len(),
            tail@ == params@[k as int]@.take(j as int),
        decreases params@[k as int]@.len() - j,
    {
        tail.push(params[k][j]);
        j += 1;
        assert(tail@ =~= params@[k as int]@.take(j as int));
    }
    assert(params@[k as int]@.take(j as int) =~= params@[k as int]@);
    while k > i
        invariant
            i <= k < params@.len(),
            ps == deep_bytes(params),
            tail@ == joined_from(ps, k as int),
        decreases k,
    {
        k -= 1;
        let mut front: Vec<u8> = Vec::new();
        let mut j: usize = 0;
        while j < params[k].len()
            invariant
                k < params@.len(),
                j <= params@[k as int]@.len(),
                front@ == params@[k as int]@.take(j as int),
            decreases params@[k as int]@.len() - j,
        {
            front.push(params[k][j]);
            j += 1;
            assert(front@ =~= params@[k as int]@.take(j as int));
        }
        assert(params@[k as int]@.take(j as int) =~= params@[k as int]@);
        front.push(0x3b);
        let mut t: usize = 0;
        let ghost f0 = front@;
        while t < tail.len()
            invariant
                t <= tail@.len(),
                front@ == f0 + tail@.take(t as int),
            decreases tail@.len() - t,
        {
            front.push(tail[t]);
            t += 1;
            assert(front@ =~= f0 + tail@.take(t as int));
        }
        assert(tail@.take(t as int) =~= tail@);
        assert(front@ =~= ps[k as int] + seq![0x3bu8] + joined_from(ps, k + 1));
        tail = front;
    }
    tail
}

impl Screen {
    /// Performs an OSC sequence (see `osc_effect`).
    pub fn osc_dispatch(&mut self, params: &Vec<Vec<u8>>)
        requires
            old(self).wf(),
        ensures
            final(self).wf(),
            final(self).model() == osc_effect(old(self).model(), deep_bytes(params)),
    {
        if params.len() == 0 {
            return;
        }
        let cmd = &params[0];
        if is_byte(cmd, 0x30) || is_byte(cmd, 0x31) || is_byte(cmd, 0x32) {
            if params.len() > 1 {
                if let Some(title) = utf8_string(params[1].as_slice()) {
                    self.set_title(title);
                }
            }
        } else if is_byte(cmd, 0x38) {
            let uri = if params.len() > 2 {
                let b = join_params(params, 2);
                utf8_string(b.as_slice())
            } else {
                None
            };
            self.set_hyperlink(uri);
        } else if is_bytes3(cmd, 0x31, 0x33, 0x33) {
            if params.len() > 1 && is_byte(&params[1], 0x41) {
                self.mark_prompt();
            }
        }
    }
}

/// Dispatches the actions of a VT parser to a screen, collecting the replies the
/// terminal must send back to the application.
pub struct AnsiHandler<'a> {
    pub screen: &'a mut Screen,
    pub responses: &'a mut Vec<u8>,
}

impl<'a> AnsiHandler<'a> {
    /// A handler acting on `screen`, replying into `responses`.
    pub fn new(screen: &'a mut Screen, responses: &'a mut Vec<u8>) -> (r: Self)
        ensures
            *r.screen == *old(screen),
            *r.responses == *old(responses),
            *final(screen) == *final(r.screen),
            *final(responses) == *final(r.responses),
    {
        AnsiHandler { screen, responses }
    }

    /// A printable character: written at the cursor.
    pub fn print(&mut self, c: char)
        requires
            old(self).screen.wf(),
        ensures
            final(self).screen.wf(),
            final(self).screen.model() == char_written(old(self).screen.model(), c),
            final(self).responses@ == old(self).responses@,
    {
        self.screen.write_char(c);
    }

    /// A C0 control byte (see `executed`).
    pub fn execute(&mut self, byte: u8)
        requires
            old(self).screen.wf(),
        ensures
            final(self).screen.wf(),
            final(self).screen.model() == executed(old(self).screen.model(), byte),
            final(self).responses@ == old(self).responses@,
    {
        self.screen.execute_control(byte);
    }

    /// A CSI sequence: its reply is queued and its effect performed (see `csi_reply`
    /// and `csi_effect`).
    pub fn csi_dispatch(&mut self, params: &Vec<Vec<u16>>, intermediates: &[u8], c: char)
        requires
            old(self).screen.wf(),
            !is_private(intermediates@) && (c == '@' || c == 'P') ==> old(self).screen.model().cursor.col
                <= old(self).screen.model().cols,
        ensures
            final(self).screen.wf(),
            final(self).screen.model() == csi_effect(old(self).screen.model(), deep(params), intermediates@, c),
            final(self).responses@ == old(self).responses@ + csi_reply(
                old(self).screen.model(),
                deep(params),
                intermediates@,
                c,
            ),
    {
        self.screen.csi_reply(params, intermediates, c, self.responses);
        self.screen.csi_dispatch(params, intermediates, c);
    }

    /// An ESC sequence (see `esc_effect`).
    pub fn esc_dispatch(&mut self, intermediates: &[u8], byte: u8)
        requires
            old(self).screen.wf(),
        ensures
            final(self).screen.wf(),
            final(self).screen.model() == esc_effect(old(self).screen.model(), intermediates@, byte),
            final(self).responses@ == old(self).responses@,
    {
        self.screen.esc_dispatch(intermediates, byte);
    }

    /// An OSC sequence (see `osc_effect`).
    pub fn osc_dispatch(&mut self, params: &Vec<Vec<u8>>)
        requires
            old(self).screen.wf(),
        ensures
            final(self).screen.wf(),
            final(self).screen.model() == osc_effect(old(self).screen.model(), deep_bytes(params)),
            final(self).responses@ == old(self).responses@,
    {
        self.screen.osc_dispatch(params);
    }

    /// One DEC private mode (see `private_mode_set`).
    pub fn handle_private_mode(&mut self, mode: u16, enable: bool)
        requires
            old(self).screen.wf(),
        ensures
            final(self).screen.wf(),
            final(self).screen.model() == private_mode_set(old(self).screen.model(), mode, enable),
            final(self).responses@ == old(self).responses@,
    {
        self.screen.set_private_mode(mode, enable);
    }

    /// SGR parameters (see `sgr_applied`).
    pub fn handle_sgr(&mut self, params: &Vec<Vec<u16>>)
        requires
            old(self).screen.wf(),
        ensures
            final(self).screen.wf(),
            final(self).screen.model() == sgr_applied(old(self).screen.model(), deep(params)),
            final(self).responses@ == old(self).responses@,
    {
        self.screen.select_graphic_rendition(params);
    }
}

} // verus!
