//! Properties of the terminal that hold across operations.

use vstd::prelude::*;
use crate::cell::Cell;
use crate::cell::empty_cell;
use crate::cursor::min_int;
use crate::history::{history_add, proper_prefix, suggestion_for};
use crate::screen::{model_wf, ScreenModel, display_line_of, blank_row, hyperlink_set, hyperlink_index, same_text, row_of};
use crate::screen::modes::{alt_entered, alt_exited, cursor_saved, cursor_restored, fit_row, fit_grid, fit_flags, empty_grid};
use crate::screen::view::{view_reset, view_up};
use crate::screen::initial_model;
use crate::screen::modes::screen_reset;
use crate::screen::erase::display_erased;
use crate::screen::resize::resized;
use crate::input::{motion_reported, press_reported, wheel_of, WheelAction};
use crate::screen::MouseMode;
use crate::screen::resize::{
    blank_row as blank_cells, grid_start, kept_of, lemma_join_cursor, lemma_join_wrapped, lemma_kept, lemma_kept_tail,
    lemma_wrap, logical_lines, reflowed, rewrapped, trimmed_lines,
};
use crate::screen::scroll::{carriage_returned, scroll_up_once, scrolled_up, lemma_scroll_up_n_full};
use crate::screen::selection::selected_at;
use crate::screen::erase::{line_inserted_once, line_deleted_once, row_shifted_right, row_shifted_left};
use crate::context::{digits_value, parsed_usize, all_digits};
use crate::screen::ansi::{csi_effect, dec_digits, sgr_applied, sgr_from};
use crate::attributes::{CellAttributes, Color};
use crate::input::{paste_sequence};
use crate::cursor::Cursor;
use crate::screen::selection::word_char;
use crate::text::{is_ws, unicode_alphanumeric};
use crate::input::{key_sequence, plain_sequence, KeyModifiers, TermKey};
use crate::detector::{json_tokens, colon_follows, JsonTokenType};
use crate::context::{file_type_in, FileType};
use crate::text::{contains_seq, ends_with_seq};
use crate::detector::{log_level_in, error_in, warning_in, success_in, LogLevel};
use crate::mouse::{sgr_report, legacy_report};
use crate::screen::write::{char_written, advance_of};
use crate::cell::mk_cell;
use crate::attributes::default_attrs;
use crate::seqs::lemma_first_where;
use crate::text::all_ws;

verus! {

/// Leaving the alternate screen brings back the main screen as it was when the
/// alternate screen was entered: same grid, wrap flags, attributes and cursor,
/// whatever happened on the alternate screen meanwhile (at the same size).
pub proof fn law_alt_screen_restores_main(m: ScreenModel, during: ScreenModel)
    requires
        model_wf(m),
        m.alt is None,
        during.alt == alt_entered(m).alt,
        during.rows == m.rows,
        during.cols == m.cols,
    ensures
        alt_exited(during).grid == m.grid,
        alt_exited(during).wrapped == m.wrapped,
        alt_exited(during).attrs == m.attrs,
        alt_exited(during).cursor.row == m.cursor.row,
        alt_exited(during).cursor.col == min_int(m.cursor.col as int, m.cols - 1),
        alt_exited(during).alt is None,
{
    let e = alt_entered(m);
    let st = e.alt->0;
    assert(st.grid == m.grid);
    assert forall|i: int| 0 <= i < m.rows implies #[trigger] fit_row(m.grid[i], m.cols as int) == m.grid[i] by {
        assert(fit_row(m.grid[i], m.cols as int) =~= m.grid[i]);
    }
    assert(fit_grid(m.grid, m.rows as int, m.cols as int) =~= m.grid);
    assert(fit_flags(m.wrapped, m.rows as int) =~= m.wrapped);
}

/// Entering the alternate screen shows an empty grid of the same size.
pub proof fn law_alt_screen_starts_empty(m: ScreenModel)
    requires
        model_wf(m),
        m.alt is None,
    ensures
        alt_entered(m).grid == empty_grid(m.rows as int, m.cols as int),
        alt_entered(m).alt is Some,
{
}

/// A character written inside the row is stored at the cursor with the current
/// attributes and hyperlink, and the cursor moves past it.
pub proof fn law_write_stores_char(m: ScreenModel, ch: char)
    requires
        model_wf(m),
        m.cursor.col < m.cols,
    ensures
        ({
            let r = char_written(m, ch);
            let cell = Cell { hyperlink: m.current_hyperlink, ..mk_cell(ch, m.attrs, m.suggestion_mode) };
            &&& r.grid[m.cursor.row as int][m.cursor.col as int] == cell
            &&& r.cursor.row == m.cursor.row
            &&& r.cursor.col == m.cursor.col + advance_of(cell)
            &&& r.last_char == Some(ch)
        }),
{
}

/// `CSI 0 m` (or `CSI m`) brings the attributes back to their defaults.
pub proof fn law_sgr_reset(m: ScreenModel)
    ensures
        sgr_applied(m, Seq::empty()).attrs == default_attrs(),
        sgr_applied(m, seq![seq![0u16]]).attrs == default_attrs(),
{
    reveal_with_fuel(crate::screen::ansi::sgr_from, 2);
}

/// Restoring the cursor after saving it gives back its position (kept on screen)
/// and the attributes of that moment.
pub proof fn law_restore_returns_saved_cursor(m: ScreenModel, later: ScreenModel)
    requires
        model_wf(m),
        later.saved == cursor_saved(m).saved,
        later.rows == m.rows,
        later.cols == m.cols,
    ensures
        cursor_restored(later).cursor.row == m.cursor.row,
        cursor_restored(later).cursor.col == min_int(m.cursor.col as int, m.cols - 1),
        cursor_restored(later).attrs == m.attrs,
{
}

/// A carriage return moves only the cursor: the text of the line stays (progress
/// bars rely on it).
pub proof fn law_carriage_return_keeps_text(m: ScreenModel)
    ensures
        carriage_returned(m).grid == m.grid,
        carriage_returned(m).cursor.col == 0,
        carriage_returned(m).cursor.row == m.cursor.row,
{
}

/// Returning the view to the present shows the live grid.
pub proof fn law_view_reset_shows_grid(m: ScreenModel, row: int)
    requires
        model_wf(m),
        0 <= row < m.rows,
    ensures
        display_line_of(view_reset(m), row) == m.grid[row],
{
}

/// On the main screen with the whole screen as scroll region, scrolling up one line
/// moves the top line into the scrollback (while it is below its maximum) and a blank
/// line enters at the bottom.
pub proof fn law_scroll_up_keeps_top_line(m: ScreenModel)
    requires
        model_wf(m),
        m.alt is None,
        m.scroll_top == 0,
        m.scroll_bottom == m.rows - 1,
        m.scrollback.len() < m.max_scrollback,
    ensures
        scroll_up_once(m).scrollback == m.scrollback.push(m.grid[0]),
        scroll_up_once(m).grid == m.grid.drop_first().push(blank_row(m)),
{
    assert(m.grid.remove(0).insert(m.rows - 1, blank_row(m)) =~= m.grid.drop_first().push(blank_row(m)));
}

/// Inserting a line at the cursor and deleting it again gives back the grid, but
/// for the region's last row, which is then blank.
pub proof fn law_insert_then_delete_line(m: ScreenModel)
    requires
        model_wf(m),
        m.scroll_top <= m.cursor.row <= m.scroll_bottom,
    ensures
        ({
            let r = line_deleted_once(line_inserted_once(m));
            &&& r.grid.len() == m.grid.len()
            &&& forall|i: int| 0 <= i < m.rows && i != m.scroll_bottom ==> #[trigger] r.grid[i] == m.grid[i]
            &&& r.grid[m.scroll_bottom as int] == blank_row(m)
        }),
{
    let r = line_deleted_once(line_inserted_once(m));
    let c = m.cursor.row as int;
    let b = m.scroll_bottom as int;
    let g1 = m.grid.remove(b).insert(c, blank_row(m));
    let g2 = g1.remove(c).insert(b, blank_row(m));
    assert(g1.remove(c) =~= m.grid.remove(b));
    assert(g2 =~= m.grid.update(b, blank_row(m)));
}

/// Inserting `k` cells at a column and deleting `k` there again gives back the row,
/// but for its last `k` cells, which are then `blank`.
pub proof fn law_insert_then_delete_chars(row: Seq<Cell>, col: int, k: int, blank: Cell)
    requires
        0 <= col,
        0 <= k,
        col + k <= row.len(),
    ensures
        ({
            let r = row_shifted_left(row_shifted_right(row, col, k), col, k, blank);
            &&& r.len() == row.len()
            &&& forall|j: int| 0 <= j < row.len() - k ==> #[trigger] r[j] == row[j]
            &&& forall|j: int| row.len() - k <= j < row.len() ==> #[trigger] r[j] == blank
        }),
{
}

/// Whether a cell is selected does not depend on the direction the selection was made.
pub proof fn law_selection_direction_irrelevant(m: ScreenModel, row: int, col: int)
    requires
        m.selection is Some,
    ensures
        selected_at(m, row, col) == selected_at(
            ScreenModel {
                selection: Some(
                    crate::screen::Selection { start: m.selection->0.end, end: m.selection->0.start },
                ),
                ..m
            },
            row,
            col,
        ),
{
}

/// A command just added is what the history suggests for any proper prefix of it.
pub proof fn law_history_suggests_added(h: Seq<Seq<char>>, max: nat, c: Seq<char>, p: Seq<char>)
    requires
        max >= 1,
        !all_ws(c),
        p.len() > 0,
        proper_prefix(p, c),
    ensures
        suggestion_for(history_add(h, max, c), p) == Some(c.skip(p.len() as int)),
{
    let h2 = history_add(h, max, c);
    assert(h2.len() > 0 && h2.last() == c);
}

/// Adding the same command twice in a row records it once.
pub proof fn law_history_no_repeat(h: Seq<Seq<char>>, max: nat, c: Seq<char>)
    requires
        max >= 1,
    ensures
        history_add(history_add(h, max, c), max, c) == history_add(h, max, c),
{
}

/// The history never holds more than its capacity.
pub proof fn law_history_bounded(h: Seq<Seq<char>>, max: nat, c: Seq<char>)
    requires
        max >= 1,
        h.len() <= max,
    ensures
        history_add(h, max, c).len() <= max,
{
}

/// A registered hyperlink URI is found again under the id the screen uses for it.
pub proof fn law_hyperlink_registered(m: ScreenModel, u: Seq<char>)
    requires
        model_wf(m),
        u.len() > 0,
        m.hyperlinks.len() < 65535,
    ensures
        hyperlink_set(m, Some(u)).current_hyperlink matches Some(id) && hyperlink_set(m, Some(u)).hyperlinks[id as int]
            == u,
        hyperlink_set(hyperlink_set(m, Some(u)), Some(u)).hyperlinks == hyperlink_set(m, Some(u)).hyperlinks,
{
    lemma_first_where(m.hyperlinks, same_text(u));
    let m2 = hyperlink_set(m, Some(u));
    lemma_first_where(m2.hyperlinks, same_text(u));
    match hyperlink_index(m.hyperlinks, u) {
        Some(p) => {},
        None => {
            assert(m2.hyperlinks[m.hyperlinks.len() as int] == u);
            assert(same_text(u)(m2.hyperlinks[m.hyperlinks.len() as int]));
        },
    }
}

/// Decimal digits parse back to their number.
pub proof fn law_decimal_round_trip(n: usize)
    ensures
        parsed_usize(digits_as_chars(dec_digits(n as nat))) == Some(n),
{
    lemma_dec_digits(n as nat);
    let d = digits_as_chars(dec_digits(n as nat));
    assert(d.len() > 0 && d[0] != '+');
}

/// ASCII digit bytes read as characters.
pub open spec fn digits_as_chars(b: Seq<u8>) -> Seq<char> {
    b.map_values(|x: u8| (x as u32) as char)
}

/// The characters of `dec_digits(n)` are ASCII digits worth `n`.
proof fn lemma_dec_digits(n: nat)
    ensures
        all_digits(digits_as_chars(dec_digits(n))),
        digits_value(digits_as_chars(dec_digits(n))) == n,
        digits_as_chars(dec_digits(n)).len() > 0,
    decreases n,
{
    let d = digits_as_chars(dec_digits(n));
    if n < 10 {
        assert(d.len() == 1);
        assert(d[0] == ((n + 48) as u8 as u32) as char);
        assert(d.drop_last() =~= Seq::<char>::empty());
        assert((((n + 48) as u8 as u32) as char) as int == n + 48);
        assert(digits_value(d) == digits_value(d.drop_last()) * 10 + (d.last() as int - '0' as int));
    } else {
        lemma_dec_digits(n / 10);
        let prev = digits_as_chars(dec_digits(n / 10));
        let k = n % 10;
        assert(d =~= prev.push(((k + 48) as u8 as u32) as char));
        assert(d.drop_last() =~= prev);
        assert((((k + 48) as u8 as u32) as char) as int == k + 48);
        assert(d.last() as int - '0' as int == k);
        assert((n / 10) * 10 + n % 10 == n) by (nonlinear_arith);
        assert(digits_value(d) == digits_value(prev) * 10 + k);
    }
}

/// Reflow keeps the text: the rows that re-wrapping at a new width makes, joined
/// again into logical lines, are the logical lines that the scrollback and the grid
/// held before, each without its trailing blank cells. Lines are re-wrapped, never
/// cut, whatever the new width.
pub proof fn law_reflow_keeps_text(m: ScreenModel, new_cols: int)
    requires
        new_cols > 0,
    ensures
        logical_lines(rewrapped(m, new_cols).rows, rewrapped(m, new_cols).flags, -1, 0, new_cols).0
            == trimmed_lines(
            logical_lines(
                m.scrollback + m.grid,
                m.sb_wrapped + m.wrapped,
                m.scrollback.len() + m.cursor.row,
                m.cursor.col as int,
                m.cols as int,
            ).0,
        ),
{
    let (lines, cl) = logical_lines(
        m.scrollback + m.grid,
        m.sb_wrapped + m.wrapped,
        m.scrollback.len() + m.cursor.row,
        m.cursor.col as int,
        m.cols as int,
    );
    lemma_join_wrapped(lines, lines.len() as int, cl, new_cols);
    assert(lines.take(lines.len() as int) =~= lines);
}

/// Switching to the next tab and then to the previous one comes back to the same
/// tab, and the other way round, whatever the number of tabs.
pub proof fn law_tab_switch_round_trip(active: int, n: int)
    requires
        0 <= active < n,
    ensures
        (((active + 1) % n) + n - 1) % n == active,
        (((active + n - 1) % n) + 1) % n == active,
{
    if active + 1 < n {
        vstd::arithmetic::div_mod::lemma_small_mod((active + 1) as nat, n as nat);
        vstd::arithmetic::div_mod::lemma_fundamental_div_mod_converse(active + n, n, 1, active);
    } else {
        vstd::arithmetic::div_mod::lemma_fundamental_div_mod_converse(active + 1, n, 1, 0);
        vstd::arithmetic::div_mod::lemma_small_mod((n - 1) as nat, n as nat);
    }
    if active > 0 {
        vstd::arithmetic::div_mod::lemma_fundamental_div_mod_converse(active + n - 1, n, 1, active - 1);
        vstd::arithmetic::div_mod::lemma_small_mod(active as nat, n as nat);
    } else {
        vstd::arithmetic::div_mod::lemma_small_mod((n - 1) as nat, n as nat);
        vstd::arithmetic::div_mod::lemma_fundamental_div_mod_converse(n, n, 1, 0);
    }
}

/// Holding Shift keeps the mouse for the terminal, whatever mode the application
/// asked for: no press, motion or wheel turn is reported to it.
pub proof fn law_shift_keeps_mouse(mode: MouseMode, button_down: bool, alt_screen: bool, lines: int)
    ensures
        !press_reported(mode, true),
        !motion_reported(mode, true, button_down),
        !(wheel_of(mode, true, alt_screen, lines) matches Some(WheelAction::Report(_, _))),
{
}


/// When the new screen has room for the re-wrapped text, reflow loses none of it:
/// if the scrollback needs no trimming and the cursor does not hold the grid above
/// its last text row, the new scrollback followed by the first rows of the new grid
/// are exactly the re-wrapped rows, with their wrap flags; what was left out at the
/// end is blank rows only, and the rest of the grid is empty.
pub proof fn law_reflow_keeps_rows(m: ScreenModel, new_rows: int, new_cols: int)
    requires
        new_rows > 0,
        new_cols > 0,
        grid_start(kept_of(rewrapped(m, new_cols)), new_rows, rewrapped(m, new_cols).cursor) <= m.max_scrollback,
        kept_of(rewrapped(m, new_cols)) - grid_start(
            kept_of(rewrapped(m, new_cols)),
            new_rows,
            rewrapped(m, new_cols).cursor,
        ) <= new_rows,
    ensures
        ({
            let wr = rewrapped(m, new_cols);
            let n = kept_of(wr);
            let gs = grid_start(n, new_rows, wr.cursor);
            let r = reflowed(m, new_rows, new_cols);
            &&& r.scrollback + r.grid.take(n - gs) == wr.rows.take(n)
            &&& r.sb_wrapped + r.wrapped.take(n - gs) == wr.flags.take(n)
            &&& forall|j: int| n <= j < wr.rows.len() ==> blank_cells(#[trigger] wr.rows[j])
            &&& forall|i: int| n - gs <= i < new_rows ==> #[trigger] r.grid[i] == row_of(new_cols, empty_cell())
        }),
{
    let (lines, cl) = logical_lines(
        m.scrollback + m.grid,
        m.sb_wrapped + m.wrapped,
        m.scrollback.len() + m.cursor.row,
        m.cursor.col as int,
        m.cols as int,
    );
    lemma_join_wrapped(lines, lines.len() as int, cl, new_cols);
    lemma_join_cursor(
        m.scrollback + m.grid,
        m.sb_wrapped + m.wrapped,
        (m.scrollback + m.grid).len() as int,
        m.scrollback.len() + m.cursor.row,
        m.cursor.col as int,
        m.cols as int,
    );
    lemma_wrap(lines, lines.len() as int, cl, new_cols);
    let wr = rewrapped(m, new_cols);
    let keep = match wr.cursor {
        Some((r, c)) => r + 1,
        None => 1,
    };
    lemma_kept(wr.rows, wr.rows.len() as int, keep);
    lemma_kept_tail(wr.rows, wr.rows.len() as int, keep);
    let n = kept_of(wr);
    let gs = grid_start(n, new_rows, wr.cursor);
    let r = reflowed(m, new_rows, new_cols);
    assert(0 <= gs <= n) by {
        match wr.cursor {
            Some((cr, cc)) => {},
            None => {},
        }
    }
    assert(r.scrollback + r.grid.take(n - gs) =~= wr.rows.take(n));
    assert(r.sb_wrapped + r.wrapped.take(n - gs) =~= wr.flags.take(n));
}


/// On the main screen with the whole screen as scroll region, scrolling up `n` lines
/// (while the scrollback stays within its maximum) moves the top `n` rows, oldest
/// first, to the end of the scrollback, shifts the other rows up by `n`, fills the
/// bottom `n` rows with blanks and leaves the cursor where it was; scrolling the
/// live view back `n` lines then shows the lines that left, in their order.
pub proof fn law_scroll_up_lines_to_scrollback(m: ScreenModel, n: int)
    requires
        model_wf(m),
        m.alt is None,
        m.scroll_top == 0,
        m.scroll_bottom == m.rows - 1,
        m.view_offset == 0,
        1 <= n <= m.rows,
        m.scrollback.len() + n <= m.max_scrollback,
    ensures
        scrolled_up(m, n as nat).scrollback == m.scrollback + m.grid.take(n),
        scrolled_up(m, n as nat).grid.len() == m.rows,
        forall|i: int| 0 <= i < m.rows - n ==> #[trigger] scrolled_up(m, n as nat).grid[i] == m.grid[i + n],
        forall|i: int| m.rows - n <= i < m.rows ==> #[trigger] scrolled_up(m, n as nat).grid[i] == blank_row(m),
        scrolled_up(m, n as nat).cursor == m.cursor,
        forall|i: int| 0 <= i < n ==> #[trigger] display_line_of(view_up(scrolled_up(m, n as nat), n), i) == m.grid[i],
{
    let d = crate::screen::invalidated_all(crate::screen::dirtied(m));
    lemma_scroll_up_n_full(d, n as nat);
    assert(blank_row(d) == blank_row(m));
    let r = scrolled_up(m, n as nat);
    assert forall|i: int| 0 <= i < m.rows - n implies #[trigger] r.grid[i] == m.grid[i + n] by {
        assert(r.grid[i] == m.grid.skip(n)[i]);
    }
    assert forall|i: int| m.rows - n <= i < m.rows implies #[trigger] r.grid[i] == blank_row(m) by {
        assert(r.grid[i] == Seq::new(n as nat, |k: int| blank_row(d))[i - (m.rows - n)]);
    }
    let v = view_up(r, n);
    assert(v.view_offset == n);
    assert(v.scrollback == r.scrollback);
    assert forall|i: int| 0 <= i < n implies #[trigger] display_line_of(v, i) == m.grid[i] by {
        assert(v.scrollback[v.scrollback.len() - n + i] == m.grid.take(n)[i]);
    }
}

/// The view is never scrolled back further than the scrollback reaches, and it is
/// live (offset 0) on a fresh screen, after returning to the present, after a reset,
/// after ED 3, after entering the alternate screen from the main one, and after a
/// resize that reflows the main screen to a new width. (Entering the alternate screen
/// again while already on it keeps the view where prompt navigation left it.)
pub proof fn law_view_offset_in_range(m: ScreenModel, rows: usize, cols: usize, new_rows: int, new_cols: int)
    requires
        model_wf(m),
    ensures
        m.view_offset <= m.scrollback.len(),
        initial_model(rows, cols).view_offset == 0,
        view_reset(m).view_offset == 0,
        screen_reset(m).view_offset == 0,
        display_erased(m, 3).view_offset == 0,
        m.alt is None ==> alt_entered(m).view_offset == 0,
        m.alt is None && new_rows > 0 && new_cols > 0 && new_cols != m.cols ==> resized(m, new_rows, new_cols).view_offset
            == 0,
{
}


/// The count of a cursor-moving sequence: its first parameter, or 1 when it is
/// missing or 0.
pub open spec fn csi_count(ps: Seq<Seq<u16>>) -> int {
    if ps.len() > 0 && ps[0].len() > 0 && ps[0][0] != 0 { ps[0][0] as int } else { 1 }
}

/// Cursor movement by `n` (CUU, CUD, CUF, CUB, and their aliases `e` and `a`):
/// the cursor moves `n` rows or columns in its direction and stops at the edge of
/// the screen; nothing else changes.
pub proof fn law_cursor_moves_by_count(m: ScreenModel, ps: Seq<Seq<u16>>)
    ensures
        ({
            let n = csi_count(ps);
            let e = Seq::<u8>::empty();
            &&& csi_effect(m, ps, e, 'A') == (ScreenModel {
                cursor: Cursor { row: (if m.cursor.row >= n { m.cursor.row - n } else { 0 }) as usize, ..m.cursor },
                ..m
            })
            &&& csi_effect(m, ps, e, 'B') == (ScreenModel {
                cursor: Cursor { row: (if m.cursor.row + n <= m.rows - 1 { m.cursor.row + n } else { m.rows - 1 }) as usize, ..m.cursor },
                ..m
            })
            &&& csi_effect(m, ps, e, 'e') == csi_effect(m, ps, e, 'B')
            &&& csi_effect(m, ps, e, 'C') == (ScreenModel {
                cursor: Cursor { col: (if m.cursor.col + n <= m.cols - 1 { m.cursor.col + n } else { m.cols - 1 }) as usize, ..m.cursor },
                ..m
            })
            &&& csi_effect(m, ps, e, 'a') == csi_effect(m, ps, e, 'C')
            &&& csi_effect(m, ps, e, 'D') == (ScreenModel {
                cursor: Cursor { col: (if m.cursor.col >= n { m.cursor.col - n } else { 0 }) as usize, ..m.cursor },
                ..m
            })
        }),
{
}

/// The characters a double click takes as part of a word: letters and digits, and
/// `_ - . / ~ : @`, so that paths, URLs and addresses are selected whole.
pub proof fn law_word_characters(c: char)
    ensures
        word_char(c) <==> (unicode_alphanumeric(c) || c == '_' || c == '-' || c == '.' || c == '/' || c == '~'
            || c == ':' || c == '@'),
        word_char('/') && word_char('.') && word_char('@') && word_char(':') && word_char('~'),
{
}

/// No modifiers held.
pub open spec fn no_mods() -> KeyModifiers {
    KeyModifiers { ctrl: false, shift: false, alt: false }
}

/// Keys without modifiers send the xterm sequences: the arrows `ESC [` and `A` (up),
/// `B` (down), `C` (right), `D` (left); Home and End `ESC [ H` and `ESC [ F`;
/// Enter CR, Backspace DEL, Tab HT, Escape ESC; F1 to F4 `ESC O P` to `ESC O S`.
/// With Ctrl alone a letter sends its control code (`a` 1 ... `z` 26); with Alt alone
/// a key that types text sends ESC and the text.
pub proof fn law_key_sequences(text: Option<Seq<u8>>, c: char, t: Seq<u8>, k: TermKey)
    ensures
        key_sequence(TermKey::ArrowUp, no_mods(), text) == Some(seq![0x1bu8, 0x5bu8, 0x41u8]),
        key_sequence(TermKey::ArrowDown, no_mods(), text) == Some(seq![0x1bu8, 0x5bu8, 0x42u8]),
        key_sequence(TermKey::ArrowRight, no_mods(), text) == Some(seq![0x1bu8, 0x5bu8, 0x43u8]),
        key_sequence(TermKey::ArrowLeft, no_mods(), text) == Some(seq![0x1bu8, 0x5bu8, 0x44u8]),
        key_sequence(TermKey::Home, no_mods(), text) == Some(seq![0x1bu8, 0x5bu8, 0x48u8]),
        key_sequence(TermKey::End, no_mods(), text) == Some(seq![0x1bu8, 0x5bu8, 0x46u8]),
        key_sequence(TermKey::Enter, no_mods(), text) == Some(seq![0x0du8]),
        key_sequence(TermKey::Backspace, no_mods(), text) == Some(seq![0x7fu8]),
        key_sequence(TermKey::Tab, no_mods(), text) == Some(seq![0x09u8]),
        key_sequence(TermKey::Escape, no_mods(), text) == Some(seq![0x1bu8]),
        key_sequence(TermKey::F(1), no_mods(), text) == Some(seq![0x1bu8, 0x4fu8, 0x50u8]),
        key_sequence(TermKey::F(4), no_mods(), text) == Some(seq![0x1bu8, 0x4fu8, 0x53u8]),
        0x61 <= (c as int) <= 0x7a ==> key_sequence(
            TermKey::Letter(c),
            KeyModifiers { ctrl: true, shift: false, alt: false },
            text,
        ) == Some(seq![(c as int - 0x60) as u8]),
        key_sequence(k, KeyModifiers { ctrl: false, shift: false, alt: true }, Some(t)) == Some(seq![0x1bu8] + t),
{
}

/// Different keys send different sequences: two keys that send the same special
/// sequence without modifiers are the same key.
pub proof fn law_special_keys_distinct(k1: TermKey, k2: TermKey)
    requires
        plain_sequence(k1) is Some,
        plain_sequence(k1) == plain_sequence(k2),
    ensures
        k1 == k2,
{
    let a = plain_sequence(k1)->0;
    assert(a.len() == plain_sequence(k2)->0.len());
    assert(a.last() == plain_sequence(k2)->0.last());
    if a.len() >= 2 {
        assert(a[a.len() - 2] == plain_sequence(k2)->0[a.len() - 2]);
    }
    if a.len() >= 3 {
        assert(a[a.len() - 3] == plain_sequence(k2)->0[a.len() - 3]);
    }
}

/// Whether, from `p` on, the first character that is not white space is `:`.
pub open spec fn colon_next(s: Seq<char>, p: int) -> bool {
    exists|j: int| p <= j < s.len() && s[j] == ':' && forall|k: int| p <= k < j ==> #[trigger] is_ws(s[k])
}

proof fn lemma_colon_next(s: Seq<char>, p: int)
    requires
        0 <= p,
    ensures
        colon_follows(s, p, false) <==> colon_next(s, p),
    decreases s.len() - p,
{
    if p < s.len() {
        lemma_colon_next(s, p + 1);
        if s[p] == ':' {
            assert(forall|k: int| p <= k < p ==> #[trigger] is_ws(s[k]));
        } else if is_ws(s[p]) {
            if colon_next(s, p + 1) {
                let j = choose|j: int| p + 1 <= j < s.len() && s[j] == ':' && forall|k: int| p + 1 <= k < j ==> #[trigger] is_ws(s[k]);
                assert(forall|k: int| p <= k < j ==> #[trigger] is_ws(s[k]));
            }
            if colon_next(s, p) {
                let j = choose|j: int| p <= j < s.len() && s[j] == ':' && forall|k: int| p <= k < j ==> #[trigger] is_ws(s[k]);
                assert(j != p);
                assert(forall|k: int| p + 1 <= k < j ==> #[trigger] is_ws(s[k]));
            }
        } else {
            if colon_next(s, p) {
                let j = choose|j: int| p <= j < s.len() && s[j] == ':' && forall|k: int| p <= k < j ==> #[trigger] is_ws(s[k]);
                if j > p {
                    assert(is_ws(s[p]));
                }
            }
        }
    }
}

proof fn lemma_json_keys(s: Seq<char>, i: int, depth: int, in_string: bool, is_key: bool)
    requires
        0 <= i,
        s.len() <= usize::MAX,
        in_string ==> (is_key <==> colon_follows(s, i, true)),
    ensures
        forall|k: int| 0 <= k < json_tokens(s, i, depth, in_string, is_key).len() ==> {
            let f = #[trigger] json_tokens(s, i, depth, in_string, is_key)[k];
            (f.token_type == JsonTokenType::Key || f.token_type == JsonTokenType::String) ==> (f.token_type
                == JsonTokenType::Key <==> colon_next(s, f.start_col + 1))
        },
    decreases s.len() - i,
{
    if i < s.len() {
        let c = s[i];
        let r = json_tokens(s, i, depth, in_string, is_key);
        if in_string {
            if crate::detector::closing_quote(s, i) {
                lemma_json_keys(s, i + 1, depth, false, false);
                lemma_colon_next(s, i + 1);
                let rest = json_tokens(s, i + 1, depth, false, false);
                assert forall|k: int| 0 <= k < r.len() implies {
                    let f = #[trigger] r[k];
                    (f.token_type == JsonTokenType::Key || f.token_type == JsonTokenType::String) ==> (f.token_type
                        == JsonTokenType::Key <==> colon_next(s, f.start_col + 1))
                } by {
                    if k > 0 {
                        assert(r[k] == rest[k - 1]);
                    }
                }
            } else {
                lemma_json_keys(s, i + 1, depth, true, is_key);
            }
        } else if c == '{' || c == '[' {
            lemma_json_keys(s, i + 1, depth + 1, false, is_key);
            let rest = json_tokens(s, i + 1, depth + 1, false, is_key);
            assert forall|k: int| 0 < k < r.len() implies r[k] == rest[k - 1] by {}
        } else if c == '}' || c == ']' {
            let d = if depth > 0 { depth - 1 } else { 0 };
            lemma_json_keys(s, i + 1, d, false, is_key);
            let rest = json_tokens(s, i + 1, d, false, is_key);
            assert forall|k: int| 0 < k < r.len() implies r[k] == rest[k - 1] by {}
        } else if c == '"' {
            lemma_json_keys(s, i + 1, depth, true, colon_follows(s, i + 1, true));
        } else if c == ':' || c == ',' {
            lemma_json_keys(s, i + 1, depth, false, is_key);
            let rest = json_tokens(s, i + 1, depth, false, is_key);
            assert forall|k: int| 0 < k < r.len() implies r[k] == rest[k - 1] by {}
        } else if (c == 't' || c == 'f') && (crate::detector::spells(s, i, seq!['t', 'r', 'u', 'e'])
            || crate::detector::spells(s, i, seq!['f', 'a', 'l', 's', 'e'])) {
            let len = if s[i + 1] == 'r' { 4int } else { 5int };
            lemma_json_keys(s, i + len, depth, false, is_key);
            let rest = json_tokens(s, i + len, depth, false, is_key);
            assert forall|k: int| 0 < k < r.len() implies r[k] == rest[k - 1] by {}
        } else if c == 'n' && crate::detector::spells(s, i, seq!['n', 'u', 'l', 'l']) {
            lemma_json_keys(s, i + 4, depth, false, is_key);
            let rest = json_tokens(s, i + 4, depth, false, is_key);
            assert forall|k: int| 0 < k < r.len() implies r[k] == rest[k - 1] by {}
        } else if ('0' <= c <= '9') || c == '-' {
            let e = crate::detector::number_end(s, i + 1);
            crate::detector::lemma_number_end(s, i + 1);
            lemma_json_keys(s, e, depth, false, is_key);
            let rest = json_tokens(s, e, depth, false, is_key);
            assert forall|k: int| 0 < k < r.len() implies r[k] == rest[k - 1] by {}
        } else {
            lemma_json_keys(s, i + 1, depth, false, is_key);
        }
    }
}

/// JSON keys and string values are told apart by what follows them: a string token
/// (marked at its closing quote) is a key exactly when the next character that is not
/// white space is `:`; any other string is a value.
pub proof fn law_json_keys_precede_colons(s: Seq<char>)
    requires
        s.len() <= usize::MAX,
    ensures
        forall|k: int| 0 <= k < json_tokens(s, 0, 0, false, false).len() ==> {
            let f = #[trigger] json_tokens(s, 0, 0, false, false)[k];
            (f.token_type == JsonTokenType::Key || f.token_type == JsonTokenType::String) ==> (f.token_type
                == JsonTokenType::Key <==> colon_next(s, f.start_col + 1))
        },
{
    lemma_json_keys(s, 0, 0, false, false);
}


/// A name ending in `x` ends in the last two characters of `x`.
proof fn lemma_tail_two(l: Seq<char>)
    ensures
        forall|x: Seq<char>| #[trigger] ends_with_seq(l, x) && x.len() >= 2 ==> l.last() == x.last() && l[l.len()
            - 2] == x[x.len() - 2],
{
    assert forall|x: Seq<char>| #[trigger] ends_with_seq(l, x) && x.len() >= 2 implies l.last() == x.last() && l[l.len()
        - 2] == x[x.len() - 2] by {
        let t = l.subrange(l.len() - x.len(), l.len() as int);
        assert(t[x.len() - 1] == x[x.len() - 1]);
        assert(t[x.len() - 2] == x[x.len() - 2]);
    }
}

/// Files are classified by the extension of their lower-cased name (`l`): archives
/// (`.tar .gz .zip .7z .rar .bz2 .xz`), images (`.png .jpg .jpeg .gif .bmp .svg .webp`),
/// videos (`.mp4 .avi .mkv .mov .wmv .flv .webm`), audio (`.mp3 .wav .flac .aac .ogg
/// .m4a`), documents (`.pdf .doc .docx .txt .md .odt`) and source code (`.rs .js .ts
/// .py .c .cpp .h .hpp .go .java .rb .php .swift .kt`); any other name is a regular file.
pub proof fn law_file_kinds_by_extension(l: Seq<char>)
    ensures
        (ends_with_seq(l, ".tar"@) || ends_with_seq(l, ".gz"@) || ends_with_seq(l, ".zip"@) || ends_with_seq(l, ".7z"@)
            || ends_with_seq(l, ".rar"@) || ends_with_seq(l, ".bz2"@) || ends_with_seq(l, ".xz"@)) ==> file_type_in(l)
            == FileType::Archive,
        (ends_with_seq(l, ".png"@) || ends_with_seq(l, ".jpg"@) || ends_with_seq(l, ".jpeg"@) || ends_with_seq(l, ".gif"@)
            || ends_with_seq(l, ".bmp"@) || ends_with_seq(l, ".svg"@) || ends_with_seq(l, ".webp"@)) ==> file_type_in(l)
            == FileType::Image,
        (ends_with_seq(l, ".mp4"@) || ends_with_seq(l, ".avi"@) || ends_with_seq(l, ".mkv"@) || ends_with_seq(l, ".mov"@)
            || ends_with_seq(l, ".wmv"@) || ends_with_seq(l, ".flv"@) || ends_with_seq(l, ".webm"@)) ==> file_type_in(l)
            == FileType::Video,
        (ends_with_seq(l, ".mp3"@) || ends_with_seq(l, ".wav"@) || ends_with_seq(l, ".flac"@) || ends_with_seq(l, ".aac"@)
            || ends_with_seq(l, ".ogg"@) || ends_with_seq(l, ".m4a"@)) ==> file_type_in(l) == FileType::Audio,
        (ends_with_seq(l, ".pdf"@) || ends_with_seq(l, ".doc"@) || ends_with_seq(l, ".docx"@) || ends_with_seq(l, ".txt"@)
            || ends_with_seq(l, ".md"@) || ends_with_seq(l, ".odt"@)) ==> file_type_in(l) == FileType::Document,
        (ends_with_seq(l, ".rs"@) || ends_with_seq(l, ".js"@) || ends_with_seq(l, ".ts"@) || ends_with_seq(l, ".py"@)
            || ends_with_seq(l, ".c"@) || ends_with_seq(l, ".cpp"@) || ends_with_seq(l, ".h"@) || ends_with_seq(l, ".hpp"@)
            || ends_with_seq(l, ".go"@) || ends_with_seq(l, ".java"@) || ends_with_seq(l, ".rb"@) || ends_with_seq(l, ".php"@)
            || ends_with_seq(l, ".swift"@) || ends_with_seq(l, ".kt"@)) ==> file_type_in(l) == FileType::Code,
{
    reveal_strlit(".tar");
    reveal_strlit(".gz");
    reveal_strlit(".zip");
    reveal_strlit(".7z");
    reveal_strlit(".rar");
    reveal_strlit(".bz2");
    reveal_strlit(".xz");
    reveal_strlit(".png");
    reveal_strlit(".jpg");
    reveal_strlit(".jpeg");
    reveal_strlit(".gif");
    reveal_strlit(".bmp");
    reveal_strlit(".svg");
    reveal_strlit(".webp");
    reveal_strlit(".mp4");
    reveal_strlit(".avi");
    reveal_strlit(".mkv");
    reveal_strlit(".mov");
    reveal_strlit(".wmv");
    reveal_strlit(".flv");
    reveal_strlit(".webm");
    reveal_strlit(".mp3");
    reveal_strlit(".wav");
    reveal_strlit(".flac");
    reveal_strlit(".aac");
    reveal_strlit(".ogg");
    reveal_strlit(".m4a");
    reveal_strlit(".pdf");
    reveal_strlit(".doc");
    reveal_strlit(".docx");
    reveal_strlit(".txt");
    reveal_strlit(".md");
    reveal_strlit(".odt");
    reveal_strlit(".rs");
    reveal_strlit(".js");
    reveal_strlit(".ts");
    reveal_strlit(".py");
    reveal_strlit(".c");
    reveal_strlit(".cpp");
    reveal_strlit(".h");
    reveal_strlit(".hpp");
    reveal_strlit(".go");
    reveal_strlit(".java");
    reveal_strlit(".rb");
    reveal_strlit(".php");
    reveal_strlit(".swift");
    reveal_strlit(".kt");
    lemma_tail_two(l);
    let ar = crate::context::archive_exts();
    let im = crate::context::image_exts();
    let vi = crate::context::video_exts();
    let au = crate::context::audio_exts();
    let dc = crate::context::document_exts();
    let co = crate::context::code_exts();
    assert forall|k: int| 0 <= k < ar.len() implies #[trigger] ar[k].len() >= 2 by {}
    assert forall|k: int| 0 <= k < im.len() implies #[trigger] im[k].len() >= 2 by {}
    assert forall|k: int| 0 <= k < vi.len() implies #[trigger] vi[k].len() >= 2 by {}
    assert forall|k: int| 0 <= k < au.len() implies #[trigger] au[k].len() >= 2 by {}
    assert forall|k: int| 0 <= k < dc.len() implies #[trigger] dc[k].len() >= 2 by {}
}


/// Parameter `i` of a sequence that counts from 1: the value, or 1 when it is missing
/// or 0.
pub open spec fn csi_param1(ps: Seq<Seq<u16>>, i: int) -> int {
    if 0 <= i < ps.len() && ps[i].len() > 0 && ps[i][0] != 0 { ps[i][0] as int } else { 1 }
}

/// `a`, at most `b`.
pub open spec fn at_most(a: int, b: int) -> int {
    if a <= b { a } else { b }
}

/// Cursor positioning: CUP (`H`, `f`) puts the cursor on row `p1` and column `p2`
/// (counted from 1, default 1), CHA (`G`, `` ` ``) on column `p1` of its row, VPA (`d`)
/// on row `p1` (its column kept on the screen), each kept on the screen; CNL (`E`) and CPL (`F`) move
/// `n` rows down or up, stopping at the edge, and go to the first column.
pub proof fn law_cursor_positioning(m: ScreenModel, ps: Seq<Seq<u16>>)
    requires
        model_wf(m),
    ensures
        ({
            let e = Seq::<u8>::empty();
            let n = csi_count(ps);
            let r = at_most(csi_param1(ps, 0) - 1, m.rows - 1);
            let c = at_most(csi_param1(ps, 1) - 1, m.cols - 1);
            let c1 = at_most(csi_param1(ps, 0) - 1, m.cols - 1);
            csi_effect(m, ps, e, 'H') == (ScreenModel {
                cursor: Cursor { row: r as usize, col: c as usize, ..m.cursor },
                dirty: true,
                ..m
            })
        }),
        ({
            let e = Seq::<u8>::empty();
            let n = csi_count(ps);
            let r = at_most(csi_param1(ps, 0) - 1, m.rows - 1);
            let c = at_most(csi_param1(ps, 1) - 1, m.cols - 1);
            let c1 = at_most(csi_param1(ps, 0) - 1, m.cols - 1);
            csi_effect(m, ps, e, 'f') == csi_effect(m, ps, e, 'H')
        }),
        ({
            let e = Seq::<u8>::empty();
            let n = csi_count(ps);
            let r = at_most(csi_param1(ps, 0) - 1, m.rows - 1);
            let c = at_most(csi_param1(ps, 1) - 1, m.cols - 1);
            let c1 = at_most(csi_param1(ps, 0) - 1, m.cols - 1);
            csi_effect(m, ps, e, 'G') == (ScreenModel {
                cursor: Cursor { col: c1 as usize, ..m.cursor },
                dirty: true,
                ..m
            })
        }),
        ({
            let e = Seq::<u8>::empty();
            let n = csi_count(ps);
            let r = at_most(csi_param1(ps, 0) - 1, m.rows - 1);
            let c = at_most(csi_param1(ps, 1) - 1, m.cols - 1);
            let c1 = at_most(csi_param1(ps, 0) - 1, m.cols - 1);
            csi_effect(m, ps, e, '`') == csi_effect(m, ps, e, 'G')
        }),
        ({
            let e = Seq::<u8>::empty();
            let n = csi_count(ps);
            let r = at_most(csi_param1(ps, 0) - 1, m.rows - 1);
            let c = at_most(csi_param1(ps, 1) - 1, m.cols - 1);
            let c1 = at_most(csi_param1(ps, 0) - 1, m.cols - 1);
            csi_effect(m, ps, e, 'd') == (ScreenModel {
                cursor: Cursor { row: r as usize, col: at_most(m.cursor.col as int, m.cols - 1) as usize, ..m.cursor },
                dirty: true,
                ..m
            })
        }),
        ({
            let e = Seq::<u8>::empty();
            let n = csi_count(ps);
            let r = at_most(csi_param1(ps, 0) - 1, m.rows - 1);
            let c = at_most(csi_param1(ps, 1) - 1, m.cols - 1);
            let c1 = at_most(csi_param1(ps, 0) - 1, m.cols - 1);
            csi_effect(m, ps, e, 'E').cursor == Cursor {
                row: at_most(m.cursor.row + n, m.rows - 1) as usize,
                col: 0,
                ..m.cursor
            }
        }),
        ({
            let e = Seq::<u8>::empty();
            let n = csi_count(ps);
            let r = at_most(csi_param1(ps, 0) - 1, m.rows - 1);
            let c = at_most(csi_param1(ps, 1) - 1, m.cols - 1);
            let c1 = at_most(csi_param1(ps, 0) - 1, m.cols - 1);
            csi_effect(m, ps, e, 'F').cursor == Cursor {
                row: (if m.cursor.row >= n { m.cursor.row - n } else { 0 }) as usize,
                col: 0,
                ..m.cursor
            }
        }),
{
}

/// The other special keys without modifiers: Page Up and Down `ESC [ 5 ~` and
/// `ESC [ 6 ~`, Insert `ESC [ 2 ~`, Delete `ESC [ 3 ~`, F2 and F3 `ESC O Q` and
/// `ESC O R`, F5 to F12 `ESC [ 15 ~`, `17`, `18`, `19`, `20`, `21`, `23`, `24`; with
/// Ctrl alone, Space sends NUL, `\` FS, `[` ESC and `]` GS.
pub proof fn law_more_key_sequences(text: Option<Seq<u8>>)
    ensures
        key_sequence(TermKey::PageUp, no_mods(), text) == Some(seq![0x1bu8, 0x5bu8, 0x35u8, 0x7eu8]),
        key_sequence(TermKey::PageDown, no_mods(), text) == Some(seq![0x1bu8, 0x5bu8, 0x36u8, 0x7eu8]),
        key_sequence(TermKey::Insert, no_mods(), text) == Some(seq![0x1bu8, 0x5bu8, 0x32u8, 0x7eu8]),
        key_sequence(TermKey::Delete, no_mods(), text) == Some(seq![0x1bu8, 0x5bu8, 0x33u8, 0x7eu8]),
        key_sequence(TermKey::F(2), no_mods(), text) == Some(seq![0x1bu8, 0x4fu8, 0x51u8]),
        key_sequence(TermKey::F(3), no_mods(), text) == Some(seq![0x1bu8, 0x4fu8, 0x52u8]),
        key_sequence(TermKey::F(5), no_mods(), text) == Some(seq![0x1bu8, 0x5bu8, 0x31u8, 0x35u8, 0x7eu8]),
        key_sequence(TermKey::F(6), no_mods(), text) == Some(seq![0x1bu8, 0x5bu8, 0x31u8, 0x37u8, 0x7eu8]),
        key_sequence(TermKey::F(7), no_mods(), text) == Some(seq![0x1bu8, 0x5bu8, 0x31u8, 0x38u8, 0x7eu8]),
        key_sequence(TermKey::F(8), no_mods(), text) == Some(seq![0x1bu8, 0x5bu8, 0x31u8, 0x39u8, 0x7eu8]),
        key_sequence(TermKey::F(9), no_mods(), text) == Some(seq![0x1bu8, 0x5bu8, 0x32u8, 0x30u8, 0x7eu8]),
        key_sequence(TermKey::F(10), no_mods(), text) == Some(seq![0x1bu8, 0x5bu8, 0x32u8, 0x31u8, 0x7eu8]),
        key_sequence(TermKey::F(11), no_mods(), text) == Some(seq![0x1bu8, 0x5bu8, 0x32u8, 0x33u8, 0x7eu8]),
        key_sequence(TermKey::F(12), no_mods(), text) == Some(seq![0x1bu8, 0x5bu8, 0x32u8, 0x34u8, 0x7eu8]),
        key_sequence(TermKey::Space, KeyModifiers { ctrl: true, shift: false, alt: false }, text) == Some(seq![0u8]),
        key_sequence(TermKey::Backslash, KeyModifiers { ctrl: true, shift: false, alt: false }, text) == Some(
            seq![0x1cu8],
        ),
        key_sequence(TermKey::BracketLeft, KeyModifiers { ctrl: true, shift: false, alt: false }, text) == Some(
            seq![0x1bu8],
        ),
        key_sequence(TermKey::BracketRight, KeyModifiers { ctrl: true, shift: false, alt: false }, text) == Some(
            seq![0x1du8],
        ),
{
}


/// Select Graphic Rendition, one code at a time: 1, 2, 3, 4, 7, 9 turn on bold, dim,
/// italic, underline, reverse video and strikethrough; 22 turns bold and dim off;
/// 30-37 and 90-97 pick the text colour from the 16-colour palette (bright ones from
/// 8), 40-47 and 100-107 the background; 39 and 49 restore the default text (7) and
/// background (0) colours; `38;5;k` / `48;5;k` pick palette entry `k`, and
/// `38;2;r;g;b` / `48;2;r;g;b` a true colour. Nothing but the attributes changes.
pub proof fn law_sgr_codes(m: ScreenModel, n: u16, k: u16, r: u16, g: u16, b: u16)
    ensures
        ({
            let a = sgr_applied(m, seq![seq![n]]);
            &&& n == 1 ==> a == (ScreenModel { attrs: CellAttributes { bold: true, ..m.attrs }, ..m })
            &&& n == 2 ==> a == (ScreenModel { attrs: CellAttributes { dim: true, ..m.attrs }, ..m })
            &&& n == 3 ==> a == (ScreenModel { attrs: CellAttributes { italic: true, ..m.attrs }, ..m })
            &&& n == 4 ==> a == (ScreenModel { attrs: CellAttributes { underline: true, ..m.attrs }, ..m })
            &&& n == 7 ==> a == (ScreenModel { attrs: CellAttributes { reverse: true, ..m.attrs }, ..m })
            &&& n == 9 ==> a == (ScreenModel { attrs: CellAttributes { strikethrough: true, ..m.attrs }, ..m })
            &&& n == 22 ==> a == (ScreenModel { attrs: CellAttributes { bold: false, dim: false, ..m.attrs }, ..m })
            &&& 30 <= n <= 37 ==> a == (ScreenModel {
                attrs: CellAttributes { fg_color: Color::Indexed((n - 30) as u8), ..m.attrs },
                ..m
            })
            &&& 90 <= n <= 97 ==> a == (ScreenModel {
                attrs: CellAttributes { fg_color: Color::Indexed((n - 82) as u8), ..m.attrs },
                ..m
            })
            &&& 40 <= n <= 47 ==> a == (ScreenModel {
                attrs: CellAttributes { bg_color: Color::Indexed((n - 40) as u8), ..m.attrs },
                ..m
            })
            &&& 100 <= n <= 107 ==> a == (ScreenModel {
                attrs: CellAttributes { bg_color: Color::Indexed((n - 92) as u8), ..m.attrs },
                ..m
            })
            &&& n == 39 ==> a == (ScreenModel { attrs: CellAttributes { fg_color: Color::Indexed(7), ..m.attrs }, ..m })
            &&& n == 49 ==> a == (ScreenModel { attrs: CellAttributes { bg_color: Color::Indexed(0), ..m.attrs }, ..m })
        }),
        sgr_applied(m, seq![seq![38u16], seq![5u16], seq![k]]) == (ScreenModel {
            attrs: CellAttributes { fg_color: Color::Indexed(k as u8), ..m.attrs },
            ..m
        }),
        sgr_applied(m, seq![seq![48u16], seq![5u16], seq![k]]) == (ScreenModel {
            attrs: CellAttributes { bg_color: Color::Indexed(k as u8), ..m.attrs },
            ..m
        }),
        sgr_applied(m, seq![seq![38u16], seq![2u16], seq![r], seq![g], seq![b]]) == (ScreenModel {
            attrs: CellAttributes { fg_color: Color::Rgb(r as u8, g as u8, b as u8), ..m.attrs },
            ..m
        }),
        sgr_applied(m, seq![seq![48u16], seq![2u16], seq![r], seq![g], seq![b]]) == (ScreenModel {
            attrs: CellAttributes { bg_color: Color::Rgb(r as u8, g as u8, b as u8), ..m.attrs },
            ..m
        }),
{
    reveal_with_fuel(sgr_from, 2);
    let p1 = seq![seq![n]];
    assert(p1[0] == seq![n]);
    let p3 = seq![seq![38u16], seq![5u16], seq![k]];
    assert(p3[0] == seq![38u16] && p3[1] == seq![5u16] && p3[2] == seq![k]);
    let q3 = seq![seq![48u16], seq![5u16], seq![k]];
    assert(q3[0] == seq![48u16] && q3[1] == seq![5u16] && q3[2] == seq![k]);
    let p5 = seq![seq![38u16], seq![2u16], seq![r], seq![g], seq![b]];
    assert(p5[0] == seq![38u16] && p5[1] == seq![2u16] && p5[2] == seq![r] && p5[3] == seq![g] && p5[4] == seq![b]);
    let q5 = seq![seq![48u16], seq![2u16], seq![r], seq![g], seq![b]];
    assert(q5[0] == seq![48u16] && q5[1] == seq![2u16] && q5[2] == seq![r] && q5[3] == seq![g] && q5[4] == seq![b]);
}

/// A paste is sent as typed, or, when the application asked for bracketed paste,
/// between `ESC [ 200 ~` and `ESC [ 201 ~`.
pub proof fn law_paste_brackets(t: Seq<u8>)
    ensures
        paste_sequence(t, false) == t,
        paste_sequence(t, true) == seq![0x1bu8, 0x5bu8, 0x32u8, 0x30u8, 0x30u8, 0x7eu8] + t + seq![0x1bu8, 0x5bu8, 0x32u8,
            0x30u8, 0x31u8, 0x7eu8],
{
    assert(seq![0x1bu8, 0x5bu8] + seq![0x32u8, 0x30u8, 0x30u8, 0x7eu8] =~= seq![0x1bu8, 0x5bu8, 0x32u8, 0x30u8, 0x30u8, 0x7eu8]);
    assert(seq![0x1bu8, 0x5bu8] + seq![0x32u8, 0x30u8, 0x31u8, 0x7eu8] =~= seq![0x1bu8, 0x5bu8, 0x32u8, 0x30u8, 0x31u8, 0x7eu8]);
}

/// The wheel, reported to an application that tracks the mouse (Shift not held),
/// sends button 64 per notch up and 65 per notch down, once per notch.
pub proof fn law_wheel_buttons(mode: MouseMode, alt_screen: bool, lines: int)
    requires
        mode != MouseMode::Off,
        lines != 0,
        -0x8000_0000 <= lines <= 0x7fff_ffff,
    ensures
        lines > 0 ==> wheel_of(mode, false, alt_screen, lines) == Some(WheelAction::Report(64u8, lines as u32)),
        lines < 0 ==> wheel_of(mode, false, alt_screen, lines) == Some(WheelAction::Report(65u8, (-lines) as u32)),
        wheel_of(MouseMode::Off, false, false, lines) == Some(WheelAction::ScrollView(lines > 0, (if lines > 0 { lines } else { -lines }) as usize)),
        wheel_of(MouseMode::Off, false, true, lines) == Some(WheelAction::Arrows(lines > 0, (if lines > 0 { lines } else { -lines }) as u32)),
{
}


/// Log levels are recognised by their names in the upper-cased line, the most severe
/// first: FATAL or CRITICAL, then ERROR (or `[ERR]`), WARN (or `[WRN]`), INFO (or
/// `[INF]`), DEBUG (or `[DBG]`), TRACE (or `[TRC]`).
pub proof fn law_log_levels(u: Seq<char>)
    ensures
        contains_seq(u, "FATAL"@) || contains_seq(u, "CRITICAL"@) ==> log_level_in(u) == Some(LogLevel::Fatal),
        !(contains_seq(u, "FATAL"@) || contains_seq(u, "CRITICAL"@)) && (contains_seq(u, "ERROR"@) || contains_seq(
            u,
            "[ERR]"@,
        )) ==> log_level_in(u) == Some(LogLevel::Error),
        log_level_in(u) == Some(LogLevel::Warn) <== !(contains_seq(u, "FATAL"@) || contains_seq(u, "CRITICAL"@)
            || contains_seq(u, "ERROR"@) || contains_seq(u, "[ERR]"@) || contains_seq(u, "\u{2717}"@)) && (contains_seq(
            u,
            "WARN"@,
        ) || contains_seq(u, "[WRN]"@)),
        log_level_in(u) == Some(LogLevel::Info) ==> contains_seq(u, "INFO"@) || contains_seq(u, "[INF]"@)
            || contains_seq(u, "\u{2139}"@),
        log_level_in(u) == Some(LogLevel::Debug) ==> contains_seq(u, "DEBUG"@) || contains_seq(u, "[DBG]"@),
        log_level_in(u) == Some(LogLevel::Trace) ==> contains_seq(u, "TRACE"@) || contains_seq(u, "[TRC]"@),
        log_level_in(u) is None ==> !contains_seq(u, "INFO"@) && !contains_seq(u, "DEBUG"@) && !contains_seq(
            u,
            "TRACE"@,
        ) && !contains_seq(u, "WARN"@) && !contains_seq(u, "ERROR"@) && !contains_seq(u, "FATAL"@),
{
}

/// Error, warning and success lines by their markers in the lower-cased line:
/// `error:`, `exception`, `traceback`, `fatal:` make an error; `warning:` and
/// `caution` a warning; `success`, `passed`, and `ok` without `error` a success.
pub proof fn law_line_markers(w: Seq<char>)
    ensures
        contains_seq(w, "error:"@) || contains_seq(w, "exception"@) || contains_seq(w, "traceback"@) || contains_seq(
            w,
            "fatal:"@,
        ) ==> error_in(w),
        contains_seq(w, "warning:"@) || contains_seq(w, "caution"@) ==> warning_in(w),
        contains_seq(w, "success"@) || contains_seq(w, "passed"@) || (contains_seq(w, "ok"@) && !contains_seq(
            w,
            "error"@,
        )) ==> success_in(w),
{
}

/// Mouse reports: in SGR form a press and a release differ only in the final byte
/// (`M` for a press, `m` for a release) and start with `ESC [ <`; in the legacy form
/// the button, column and row each come as one byte plus 32, positions counted from 1
/// and capped at 222.
pub proof fn law_mouse_reports(b: u8, col: int, row: int)
    requires
        0 <= col,
        0 <= row,
        b <= 223,
    ensures
        sgr_report(b, col, row, true).drop_last() == sgr_report(b, col, row, false).drop_last(),
        sgr_report(b, col, row, true).last() == 0x4du8,
        sgr_report(b, col, row, false).last() == 0x6du8,
        sgr_report(b, col, row, true).take(3) == seq![0x1bu8, 0x5bu8, 0x3cu8],
        legacy_report(b, col, row) == seq![
            0x1bu8,
            0x5bu8,
            0x4du8,
            (b + 32) as u8,
            (at_most(col + 1, 222) + 32) as u8,
            (at_most(row + 1, 222) + 32) as u8,
        ],
{
    let t = sgr_report(b, col, row, true);
    let f = sgr_report(b, col, row, false);
    assert(t.drop_last() =~= f.drop_last());
    assert(t.take(3) =~= seq![0x1bu8, 0x5bu8, 0x3cu8]);
}

} // verus!
