//! Saved cursor, alternate screen, reset and the small terminal modes.

use vstd::prelude::*;
use super::{Screen, ScreenModel, MainModel, MainScreenState, SavedCursor, MouseMode, dirtied, invalidated_all, row_of, rows_of, lemma_rows_of_push};
use super::view::view_reset;
use super::erase::screen_cleared;
use crate::attributes::{default_attrs, CellAttributes};
use crate::cell::{empty_cell, Cell};
use crate::cursor::{min_int, Cursor};
use crate::context::{analyze_line_context, line_context, LineContext};
use crate::text::string_from_chars;

verus! {

/// `save_cursor()` (DECSC): position and attributes remembered.
pub open spec fn cursor_saved(m: ScreenModel) -> ScreenModel {
    ScreenModel { saved: Some((m.cursor.row, m.cursor.col, m.attrs)), ..m }
}

/// `restore_cursor()` (DECRC): the saved position, kept on screen, and attributes.
pub open spec fn cursor_restored(m: ScreenModel) -> ScreenModel {
    match m.saved {
        Some((r, c, a)) => dirtied(
            ScreenModel {
                cursor: Cursor {
                    row: min_int(r as int, m.rows - 1) as usize,
                    col: min_int(c as int, m.cols - 1) as usize,
                    ..m.cursor
                },
                attrs: a,
                ..m
            },
        ),
        None => m,
    }
}

/// `move_cursor_to(row, col)`: clamped to the screen.
pub open spec fn cursor_moved(m: ScreenModel, row: int, col: int) -> ScreenModel {
    dirtied(
        ScreenModel {
            cursor: Cursor {
                row: min_int(row, m.rows - 1) as usize,
                col: min_int(col, m.cols - 1) as usize,
                ..m.cursor
            },
            ..m
        },
    )
}

/// `set_cursor_visible(v)` (DECTCEM).
pub open spec fn cursor_visibility_set(m: ScreenModel, v: bool) -> ScreenModel {
    if m.cursor.visible != v {
        dirtied(ScreenModel { cursor: Cursor { visible: v, ..m.cursor }, ..m })
    } else {
        m
    }
}

/// A grid of `rows` empty rows of `cols` cells.
pub open spec fn empty_grid(rows: int, cols: int) -> Seq<Seq<Cell>> {
    Seq::new(rows as nat, |i: int| row_of(cols, empty_cell()))
}

/// `enter_alt_screen()`: the main grid, cursor and attributes are put aside and an
/// empty grid shown, with the whole screen as scroll region; nothing if already there.
pub open spec fn alt_entered(m: ScreenModel) -> ScreenModel {
    if m.alt is Some {
        m
    } else {
        let d = view_reset(invalidated_all(dirtied(m)));
        ScreenModel {
            grid: empty_grid(d.rows as int, d.cols as int),
            wrapped: Seq::new(d.rows as nat, |i: int| false),
            alt: Some(MainModel { grid: d.grid, wrapped: d.wrapped, cursor: d.cursor, attrs: d.attrs }),
            cursor: Cursor { row: 0, col: 0, ..d.cursor },
            scroll_top: 0,
            scroll_bottom: (d.rows - 1) as usize,
            ..d
        }
    }
}

/// `row` cut or padded with empty cells to `n` cells.
pub open spec fn fit_row(row: Seq<Cell>, n: int) -> Seq<Cell> {
    Seq::new(n as nat, |j: int| if j < row.len() { row[j] } else { empty_cell() })
}

/// A saved grid brought to `rows` x `cols`: rows cut or added empty, each row fitted.
pub open spec fn fit_grid(g: Seq<Seq<Cell>>, rows: int, cols: int) -> Seq<Seq<Cell>> {
    Seq::new(
        rows as nat,
        |i: int| if i < g.len() { fit_row(g[i], cols) } else { row_of(cols, empty_cell()) },
    )
}

/// Wrap flags brought to `rows` entries.
pub open spec fn fit_flags(w: Seq<bool>, rows: int) -> Seq<bool> {
    Seq::new(rows as nat, |i: int| if i < w.len() { w[i] } else { false })
}

/// `exit_alt_screen()`: the main grid comes back, fitted to the current size, with
/// its cursor (kept on screen and made visible) and attributes; the scroll region is
/// the whole screen and mouse tracking ends. Nothing on the main screen.
pub open spec fn alt_exited(m: ScreenModel) -> ScreenModel {
    match m.alt {
        None => m,
        Some(st) => {
            let d = invalidated_all(dirtied(ScreenModel { alt: None, ..m }));
            ScreenModel {
                grid: fit_grid(st.grid, d.rows as int, d.cols as int),
                wrapped: fit_flags(st.wrapped, d.rows as int),
                cursor: Cursor {
                    row: min_int(st.cursor.row as int, d.rows - 1) as usize,
                    col: min_int(st.cursor.col as int, d.cols - 1) as usize,
                    visible: true,
                },
                attrs: st.attrs,
                scroll_top: 0,
                scroll_bottom: (d.rows - 1) as usize,
                mouse_mode: MouseMode::Off,
                ..d
            }
        },
    }
}

/// `reset()` (RIS): back on the main screen, every mode at its default, screen cleared.
pub open spec fn screen_reset(m: ScreenModel) -> ScreenModel {
    let e = alt_exited(m);
    screen_cleared(
        ScreenModel {
            cursor: Cursor { row: 0, col: 0, visible: true },
            attrs: default_attrs(),
            scroll_top: 0,
            scroll_bottom: (e.rows - 1) as usize,
            saved: None,
            bracketed_paste: false,
            autowrap: true,
            mouse_mode: MouseMode::Off,
            mouse_sgr: false,
            last_char: None,
            current_hyperlink: None,
            view_offset: 0,
            ..e
        },
    )
}

/// The characters of a row of cells.
pub open spec fn row_chars(row: Seq<Cell>) -> Seq<char> {
    row.map_values(|c: Cell| c.character)
}

/// `update_line_context(row)`: the context of a grid row recomputed from its characters.
pub open spec fn line_context_updated(m: ScreenModel, row: int) -> ScreenModel {
    if row >= m.rows {
        m
    } else {
        ScreenModel {
            line_contexts: m.line_contexts.update(row, line_context(row_chars(m.grid[row]))),
            ..m
        }
    }
}

/// A copy of `row` cut or padded with empty cells to `n` cells.
pub(crate) fn fitted_row(row: &Vec<Cell>, n: usize) -> (r: Vec<Cell>)
    ensures
        r@ == fit_row(row@, n as int),
{
    let mut r: Vec<Cell> = Vec::new();
    let mut j: usize = 0;
    while j < n
        invariant
            j <= n,
            r@ == fit_row(row@, j as int),
        decreases n - j,
    {
        if j < row.len() {
            r.push(row[j]);
        } else {
            r.push(Cell::empty());
        }
        j += 1;
        assert(r@ =~= fit_row(row@, j as int));
    }
    r
}

/// `g` brought to `rows` x `cols` (see `fit_grid`).
fn fitted_grid(g: &Vec<Vec<Cell>>, rows: usize, cols: usize) -> (r: Vec<Vec<Cell>>)
    ensures
        rows_of(r@) == fit_grid(rows_of(g@), rows as int, cols as int),
{
    let mut r: Vec<Vec<Cell>> = Vec::new();
    let mut i: usize = 0;
    while i < rows
        invariant
            i <= rows,
            rows_of(r@) == fit_grid(rows_of(g@), i as int, cols as int),
        decreases rows - i,
    {
        let ghost r0 = r@;
        let x = if i < g.len() {
            fitted_row(&g[i], cols)
        } else {
            let e = vec![Cell::empty(); cols];
            assert(e@ =~= row_of(cols as int, empty_cell()));
            e
        };
        r.push(x);
        proof {
            lemma_rows_of_push(r0, x);
        }
        i += 1;
        assert(rows_of(r@) =~= fit_grid(rows_of(g@), i as int, cols as int));
    }
    r
}

/// `w` brought to `rows` entries.
pub(crate) fn fitted_flags(w: &Vec<bool>, rows: usize) -> (r: Vec<bool>)
    ensures
        r@ == fit_flags(w@, rows as int),
{
    let mut r: Vec<bool> = Vec::new();
    let mut i: usize = 0;
    while i < rows
        invariant
            i <= rows,
            r@ == fit_flags(w@, i as int),
        decreases rows - i,
    {
        if i < w.len() {
            r.push(w[i]);
        } else {
            r.push(false);
        }
        i += 1;
        assert(r@ =~= fit_flags(w@, i as int));
    }
    r
}

impl Screen {
    /// DECSC: remembers the cursor position and attributes.
    pub fn save_cursor(&mut self)
        requires
            old(self).wf(),
        ensures
            final(self).wf(),
            final(self).model() == cursor_saved(old(self).model()),
    {
        self.saved_cursor = Some(SavedCursor { row: self.cursor.row, col: self.cursor.col, attrs: self.current_attrs });
        assert(self.model() =~= cursor_saved(old(self).model()));
    }

    /// DECRC: restores the saved position (kept on screen) and attributes.
    pub fn restore_cursor(&mut self)
        requires
            old(self).wf(),
        ensures
            final(self).wf(),
            final(self).model() == cursor_restored(old(self).model()),
    {
        if let Some(saved) = self.saved_cursor {
            self.cursor.row = if saved.row < self.rows - 1 { saved.row } else { self.rows - 1 };
            self.cursor.col = if saved.col < self.cols - 1 { saved.col } else { self.cols - 1 };
            self.current_attrs = saved.attrs;
            self.mark_dirty();
            assert(self.model() =~= cursor_restored(old(self).model()));
        }
    }

    /// Moves the cursor to `(row, col)`, clamped to the screen.
    pub fn move_cursor_to(&mut self, row: usize, col: usize)
        requires
            old(self).wf(),
        ensures
            final(self).wf(),
            final(self).model() == cursor_moved(old(self).model(), row as int, col as int),
    {
        self.cursor.row = if row < self.rows - 1 { row } else { self.rows - 1 };
        self.cursor.col = if col < self.cols - 1 { col } else { self.cols - 1 };
        self.mark_dirty();
        assert(self.model() =~= cursor_moved(old(self).model(), row as int, col as int));
    }

    /// DECTCEM: shows or hides the cursor.
    pub fn set_cursor_visible(&mut self, visible: bool)
        requires
            old(self).wf(),
        ensures
            final(self).wf(),
            final(self).model() == cursor_visibility_set(old(self).model(), visible),
    {
        if self.cursor.visible != visible {
            self.cursor.visible = visible;
            self.mark_dirty();
            assert(self.model() =~= cursor_visibility_set(old(self).model(), visible));
        }
    }

    /// Records the window title an application asked for (OSC 0/2).
    pub fn set_title(&mut self, title: String)
        requires
            old(self).wf(),
        ensures
            final(self).wf(),
            final(self).model() == (ScreenModel { title: Some(title@), ..old(self).model() }),
    {
        let ghost t = title@;
        self.pending_title = Some(title);
        assert(self.model() =~= ScreenModel { title: Some(t), ..old(self).model() });
    }

    /// Hands out the pending window title, if any, and forgets it.
    pub fn take_title(&mut self) -> (r: Option<String>)
        requires
            old(self).wf(),
        ensures
            final(self).wf(),
            final(self).model() == (ScreenModel { title: None, ..old(self).model() }),
            match r {
                Some(t) => old(self).model().title == Some(t@),
                None => old(self).model().title is None,
            },
    {
        let r = self.pending_title.take();
        assert(self.model() =~= ScreenModel { title: None, ..old(self).model() });
        r
    }

    /// The visible grid.
    pub fn get_visible(&self) -> (r: &Vec<Vec<Cell>>)
        requires
            self.wf(),
        ensures
            rows_of(r@) == self.model().grid,
    {
        &self.grid
    }

    /// Whether the alternate screen is shown.
    pub fn is_alt_screen(&self) -> (r: bool)
        ensures
            r == self.model().alt is Some,
    {
        self.alt_screen.is_some()
    }

    /// Switches to the alternate screen (used by full-screen programs).
    pub fn enter_alt_screen(&mut self)
        requires
            old(self).wf(),
        ensures
            final(self).wf(),
            final(self).model() == alt_entered(old(self).model()),
    {
        if self.alt_screen.is_some() {
            return;
        }
        self.mark_dirty();
        self.invalidate_all_lines();
        self.reset_view();
        let ghost d = self.model();
        let mut fresh: Vec<Vec<Cell>> = Vec::new();
        let mut i: usize = 0;
        while i < self.rows
            invariant
                i <= self.rows,
                rows_of(fresh@) == empty_grid(i as int, self.cols as int),
            decreases self.rows - i,
        {
            let e = vec![Cell::empty(); self.cols];
            assert(e@ =~= row_of(self.cols as int, empty_cell()));
            let ghost f0 = fresh@;
            fresh.push(e);
            proof {
                lemma_rows_of_push(f0, e);
            }
            i += 1;
            assert(rows_of(fresh@) =~= empty_grid(i as int, self.cols as int));
        }
        let mut main_grid = fresh;
        std::mem::swap(&mut self.grid, &mut main_grid);
        let mut main_wrapped = vec![false; self.rows];
        std::mem::swap(&mut self.grid_wrapped, &mut main_wrapped);
        self.alt_screen = Some(MainScreenState {
            grid: main_grid,
            grid_wrapped: main_wrapped,
            cursor: self.cursor,
            attrs: self.current_attrs,
        });
        self.cursor.row = 0;
        self.cursor.col = 0;
        self.scroll_top = 0;
        self.scroll_bottom = self.rows - 1;
        assert(self.grid_wrapped@ =~= Seq::new(d.rows as nat, |i: int| false));
        assert(self.model() =~= alt_entered(old(self).model()));
    }

    /// Back to the main screen, whose content is restored.
    pub fn exit_alt_screen(&mut self)
        requires
            old(self).wf(),
        ensures
            final(self).wf(),
            final(self).model() == alt_exited(old(self).model()),
    {
        if let Some(state) = self.alt_screen.take() {
            let ghost m0 = self.model();
            assert(m0 =~= ScreenModel { alt: None, ..old(self).model() });
            self.mark_dirty();
            self.invalidate_all_lines();
            let grid = fitted_grid(&state.grid, self.rows, self.cols);
            let wrapped = fitted_flags(&state.grid_wrapped, self.rows);
            self.grid = grid;
            self.grid_wrapped = wrapped;
            self.cursor.row = if state.cursor.row < self.rows - 1 { state.cursor.row } else { self.rows - 1 };
            self.cursor.col = if state.cursor.col < self.cols - 1 { state.cursor.col } else { self.cols - 1 };
            self.cursor.visible = true;
            self.current_attrs = state.attrs;
            self.scroll_top = 0;
            self.scroll_bottom = self.rows - 1;
            self.mouse_mode = MouseMode::Off;
            assert(self.model() =~= alt_exited(old(self).model()));
        }
    }

    /// RIS: full reset of the terminal.
    pub fn reset(&mut self)
        requires
            old(self).wf(),
        ensures
            final(self).wf(),
            final(self).model() == screen_reset(old(self).model()),
    {
        self.exit_alt_screen();
        let ghost e = self.model();
        self.cursor = Cursor::new();
        self.current_attrs = CellAttributes::new_default();
        self.scroll_top = 0;
        self.scroll_bottom = self.rows - 1;
        self.saved_cursor = None;
        self.bracketed_paste = false;
        self.autowrap = true;
        self.mouse_mode = MouseMode::Off;
        self.mouse_sgr = false;
        self.last_char = None;
        self.current_hyperlink = None;
        self.view_offset = 0;
        assert(self.model() =~= ScreenModel {
            cursor: Cursor { row: 0, col: 0, visible: true },
            attrs: default_attrs(),
            scroll_top: 0,
            scroll_bottom: (e.rows - 1) as usize,
            saved: None,
            bracketed_paste: false,
            autowrap: true,
            mouse_mode: MouseMode::Off,
            mouse_sgr: false,
            last_char: None,
            current_hyperlink: None,
            view_offset: 0,
            ..e
        });
        self.clear();
    }

    /// Recomputes the semantic context of a grid row from its characters.
    pub fn update_line_context(&mut self, row: usize)
        requires
            old(self).wf(),
        ensures
            final(self).wf(),
            final(self).model() == line_context_updated(old(self).model(), row as int),
    {
        if row >= self.rows {
            return;
        }
        let ghost m = self.model();
        let mut chars: Vec<char> = Vec::new();
        let mut j: usize = 0;
        let n = self.grid[row].len();
        assert(self.grid@[row as int]@ == m.grid[row as int]);
        while j < n
            invariant
                j <= n,
                n == self.grid@[row as int]@.len(),
                row < self.grid@.len(),
                chars@ == row_chars(self.grid@[row as int]@.take(j as int)),
            decreases n - j,
        {
            chars.push(self.grid[row][j].character);
            j += 1;
            assert(chars@ =~= row_chars(self.grid@[row as int]@.take(j as int)));
        }
        assert(self.grid@[row as int]@.take(n as int) =~= self.grid@[row as int]@);
        let text = string_from_chars(&chars);
        let ctx = analyze_line_context(text.as_str());
        self.line_contexts.set(row, ctx);
        assert(self.model() =~= line_context_updated(m, row as int));
    }

    /// Semantic context of a row (`Normal` past the last row).
    pub fn get_line_context(&self, row: usize) -> (r: LineContext)
        requires
            self.wf(),
        ensures
            r == (if row < self.model().rows { self.model().line_contexts[row as int] } else { LineContext::Normal }),
    {
        if row < self.line_contexts.len() {
            self.line_contexts[row]
        } else {
            LineContext::Normal
        }
    }
}

} // verus!
