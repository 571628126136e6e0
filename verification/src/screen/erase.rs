//! Erasing, and inserting or deleting lines and characters (ED, EL, ECH, IL, DL, ICH, DCH).

use vstd::prelude::*;
use super::{Screen, ScreenModel, dirtied, invalidated_all, invalidated_line, blank_of, blank_row, rows_of, model_wf};
use super::write::row_filled;
use crate::cell::{empty_cell, Cell};
use crate::cursor::min_int;

verus! {

/// Columns `a..b` of the cursor row set to the screen's blank cell.
pub open spec fn cursor_row_filled(m: ScreenModel, a: int, b: int) -> ScreenModel {
    let r = m.cursor.row as int;
    ScreenModel { grid: m.grid.update(r, row_filled(m.grid[r], a, b, blank_of(m))), ..m }
}

/// The cursor line after a redraw request and its cache entry cleared.
pub open spec fn line_touched(m: ScreenModel) -> ScreenModel {
    invalidated_line(dirtied(m), m.cursor.row as int)
}

/// `clear_line_right()`: from the cursor to the end of the line.
pub open spec fn line_right_cleared(m: ScreenModel) -> ScreenModel {
    let d = line_touched(m);
    cursor_row_filled(d, d.cursor.col as int, d.cols as int)
}

/// `clear_line()`: the whole cursor line.
pub open spec fn line_cleared(m: ScreenModel) -> ScreenModel {
    let d = line_touched(m);
    cursor_row_filled(d, 0, d.cols as int)
}

/// EL 1: from the start of the line through the cursor.
pub open spec fn line_left_cleared(m: ScreenModel) -> ScreenModel {
    let d = line_touched(m);
    cursor_row_filled(d, 0, min_int(d.cursor.col + 1, d.cols as int))
}

/// `erase_in_line(mode)`: 0 right of the cursor, 1 left of it, 2 the whole line;
/// other modes do nothing.
pub open spec fn line_erased(m: ScreenModel, mode: u16) -> ScreenModel {
    if mode == 0 {
        line_right_cleared(m)
    } else if mode == 1 {
        line_left_cleared(m)
    } else if mode == 2 {
        line_cleared(m)
    } else {
        m
    }
}

/// `erase_chars(n)` (ECH): `n` cells from the cursor blanked, nothing shifted.
pub open spec fn chars_erased(m: ScreenModel, n: int) -> ScreenModel {
    let d = line_touched(m);
    cursor_row_filled(d, d.cursor.col as int, min_int(d.cursor.col + n, d.cols as int))
}

/// Rows `a..b` of the grid replaced by blank rows.
pub open spec fn rows_blanked(m: ScreenModel, a: int, b: int) -> ScreenModel {
    ScreenModel {
        grid: Seq::new(m.grid.len(), |i: int| if a <= i < b { blank_row(m) } else { m.grid[i] }),
        ..m
    }
}

/// `clear()`: every cell blank, no row soft-wrapped.
pub open spec fn screen_cleared(m: ScreenModel) -> ScreenModel {
    let d = invalidated_all(dirtied(m));
    ScreenModel {
        grid: Seq::new(d.grid.len(), |i: int| blank_row(d)),
        wrapped: Seq::new(d.wrapped.len(), |i: int| false),
        ..d
    }
}

/// `erase_in_display(mode)` (ED): 0 from the cursor to the end, 1 from the start
/// through the cursor, 2 everything, 3 everything and the scrollback; other modes
/// only request a redraw.
pub open spec fn display_erased(m: ScreenModel, mode: u16) -> ScreenModel {
    let d = invalidated_all(dirtied(m));
    if mode == 0 {
        let e = line_right_cleared(d);
        rows_blanked(e, e.cursor.row + 1, e.rows as int)
    } else if mode == 1 {
        let e = rows_blanked(d, 0, d.cursor.row as int);
        cursor_row_filled(e, 0, min_int(e.cursor.col + 1, e.cols as int))
    } else if mode == 2 {
        screen_cleared(d)
    } else if mode == 3 {
        let e = screen_cleared(d);
        ScreenModel {
            scrollback: Seq::empty(),
            sb_wrapped: Seq::empty(),
            view_offset: 0,
            prompt_marks: Seq::empty(),
            ..e
        }
    } else {
        d
    }
}

/// The cursor row is inside the scroll region.
pub open spec fn in_region(m: ScreenModel) -> bool {
    m.scroll_top <= m.cursor.row <= m.scroll_bottom
}

/// One blank line inserted at the cursor row; the region's bottom row drops out.
pub open spec fn line_inserted_once(m: ScreenModel) -> ScreenModel {
    let r = m.cursor.row as int;
    let bot = m.scroll_bottom as int;
    ScreenModel {
        grid: m.grid.remove(bot).insert(r, blank_row(m)),
        wrapped: m.wrapped.remove(bot).insert(r, false),
        ..m
    }
}

/// One line deleted at the cursor row; a blank line enters at the region's bottom.
pub open spec fn line_deleted_once(m: ScreenModel) -> ScreenModel {
    let r = m.cursor.row as int;
    let bot = m.scroll_bottom as int;
    ScreenModel {
        grid: m.grid.remove(r).insert(bot, blank_row(m)),
        wrapped: m.wrapped.remove(r).insert(bot, false),
        ..m
    }
}

/// `k` single-line insertions.
pub open spec fn lines_inserted_n(m: ScreenModel, k: nat) -> ScreenModel
    decreases k,
{
    if k == 0 {
        m
    } else {
        line_inserted_once(lines_inserted_n(m, (k - 1) as nat))
    }
}

/// `k` single-line deletions.
pub open spec fn lines_deleted_n(m: ScreenModel, k: nat) -> ScreenModel
    decreases k,
{
    if k == 0 {
        m
    } else {
        line_deleted_once(lines_deleted_n(m, (k - 1) as nat))
    }
}

/// Lines an IL or DL of `n` moves: at most down to the region's bottom.
pub open spec fn region_count(m: ScreenModel, n: int) -> int {
    min_int(n, m.scroll_bottom - m.cursor.row + 1)
}

/// `insert_lines(n)` (IL): only with the cursor inside the scroll region.
pub open spec fn lines_inserted(m: ScreenModel, n: int) -> ScreenModel {
    if !in_region(m) {
        m
    } else {
        let d = invalidated_all(dirtied(m));
        lines_inserted_n(d, region_count(d, n) as nat)
    }
}

/// `delete_lines(n)` (DL): only with the cursor inside the scroll region.
pub open spec fn lines_deleted(m: ScreenModel, n: int) -> ScreenModel {
    if !in_region(m) {
        m
    } else {
        let d = invalidated_all(dirtied(m));
        lines_deleted_n(d, region_count(d, n) as nat)
    }
}

/// `row` with `k` empty cells inserted at `col`, cut back to its length.
pub open spec fn row_shifted_right(row: Seq<Cell>, col: int, k: int) -> Seq<Cell> {
    Seq::new(
        row.len(),
        |j: int| if j < col { row[j] } else if j < col + k { empty_cell() } else { row[j - k] },
    )
}

/// `row` with `k` cells removed at `col`, filled up with `blank` at the end.
pub open spec fn row_shifted_left(row: Seq<Cell>, col: int, k: int, blank: Cell) -> Seq<Cell> {
    Seq::new(
        row.len(),
        |j: int| if j < col { row[j] } else if j < row.len() - k { row[j + k] } else { blank },
    )
}

/// `insert_chars(n)` (ICH): empty cells at the cursor, the rest shifted right.
pub open spec fn chars_inserted(m: ScreenModel, n: int) -> ScreenModel {
    let d = line_touched(m);
    let r = d.cursor.row as int;
    let c = d.cursor.col as int;
    ScreenModel { grid: d.grid.update(r, row_shifted_right(d.grid[r], c, min_int(n, d.cols - c))), ..d }
}

/// `delete_chars(n)` (DCH): cells at the cursor removed, blanks enter at the right.
pub open spec fn chars_deleted(m: ScreenModel, n: int) -> ScreenModel {
    let d = line_touched(m);
    let r = d.cursor.row as int;
    let c = d.cursor.col as int;
    ScreenModel {
        grid: d.grid.update(r, row_shifted_left(d.grid[r], c, min_int(n, d.cols - c), blank_of(d))),
        ..d
    }
}

/// Sets cells `a..b` of `row` to `c`.
fn fill_cells(row: &mut Vec<Cell>, a: usize, b: usize, c: Cell)
    requires
        b <= old(row)@.len(),
    ensures
        final(row)@ == row_filled(old(row)@, a as int, b as int, c),
{
    let ghost orig = row@;
    let mut j = a;
    while j < b
        invariant
            a <= j,
            j <= b || j == a,
            b <= orig.len(),
            row@ == row_filled(orig, a as int, j as int, c),
        decreases b - j,
    {
        row.set(j, c);
        j += 1;
        assert(row@ =~= row_filled(orig, a as int, j as int, c));
    }
    assert(row@ =~= row_filled(orig, a as int, b as int, c));
}

/// Inserts `k` empty cells at `col`, dropping as many from the end.
fn shift_right(row: &mut Vec<Cell>, col: usize, k: usize)
    requires
        col + k <= old(row)@.len(),
    ensures
        final(row)@ == row_shifted_right(old(row)@, col as int, k as int),
{
    let ghost orig = row@;
    let mut i: usize = 0;
    while i < k
        invariant
            i <= k,
            col + k <= orig.len(),
            row@ == row_shifted_right(orig, col as int, i as int),
        decreases k - i,
    {
        row.pop();
        row.insert(col, Cell::empty());
        i += 1;
        assert(row@ =~= row_shifted_right(orig, col as int, i as int));
    }
}

/// Removes `k` cells at `col`, appending as many copies of `blank`.
fn shift_left(row: &mut Vec<Cell>, col: usize, k: usize, blank: Cell)
    requires
        col + k <= old(row)@.len(),
    ensures
        final(row)@ == row_shifted_left(old(row)@, col as int, k as int, blank),
{
    let ghost orig = row@;
    let mut i: usize = 0;
    while i < k
        invariant
            i <= k,
            col + k <= orig.len(),
            row@ == row_shifted_left(orig, col as int, i as int, blank),
        decreases k - i,
    {
        row.remove(col);
        row.push(blank);
        i += 1;
        assert(row@ =~= row_shifted_left(orig, col as int, i as int, blank));
    }
}

impl Screen {
    /// Sets columns `a..b` of the cursor row to the blank cell.
    fn fill_cursor_row(&mut self, a: usize, b: usize)
        requires
            old(self).wf(),
            b <= old(self).model().cols,
        ensures
            final(self).wf(),
            final(self).model() == cursor_row_filled(old(self).model(), a as int, b as int),
    {
        let ghost m = self.model();
        let blank = self.blank_cell();
        let r = self.cursor.row;
        fill_cells(&mut self.grid[r], a, b, blank);
        assert(rows_of(self.grid@) =~= cursor_row_filled(m, a as int, b as int).grid);
        assert(self.model() =~= cursor_row_filled(m, a as int, b as int));
    }

    /// Requests a redraw and clears the cursor line's cache entry.
    fn touch_line(&mut self)
        requires
            old(self).wf(),
        ensures
            final(self).wf(),
            final(self).model() == line_touched(old(self).model()),
    {
        self.mark_dirty();
        self.invalidate_line(self.cursor.row);
    }

    /// Clears from the cursor to the end of the line.
    pub fn clear_line_right(&mut self)
        requires
            old(self).wf(),
        ensures
            final(self).wf(),
            final(self).model() == line_right_cleared(old(self).model()),
    {
        self.touch_line();
        if self.cursor.row < self.rows {
            let c = self.cursor.col;
            let n = self.cols;
            if c < n {
                self.fill_cursor_row(c, n);
            } else {
                proof {
                    let m = self.model();
                    let r = m.cursor.row as int;
                    assert(row_filled(m.grid[r], c as int, n as int, blank_of(m)) =~= m.grid[r]);
                    assert(m.grid.update(r, m.grid[r]) =~= m.grid);
                }
            }
        }
    }

    /// Clears the whole cursor line.
    pub fn clear_line(&mut self)
        requires
            old(self).wf(),
        ensures
            final(self).wf(),
            final(self).model() == line_cleared(old(self).model()),
    {
        self.touch_line();
        if self.cursor.row < self.rows {
            let n = self.cols;
            self.fill_cursor_row(0, n);
        }
    }

    /// EL: 0 from the cursor to the end of the line, 1 from its start through the
    /// cursor, 2 the whole line.
    pub fn erase_in_line(&mut self, mode: u16)
        requires
            old(self).wf(),
        ensures
            final(self).wf(),
            final(self).model() == line_erased(old(self).model(), mode),
    {
        if mode == 0 {
            self.clear_line_right();
        } else if mode == 1 {
            self.touch_line();
            if self.cursor.row < self.rows {
                let end = if self.cursor.col + 1 < self.cols { self.cursor.col + 1 } else { self.cols };
                self.fill_cursor_row(0, end);
            }
        } else if mode == 2 {
            self.clear_line();
        }
    }

    /// ECH: blanks `n` cells from the cursor without shifting.
    pub fn erase_chars(&mut self, n: usize)
        requires
            old(self).wf(),
            old(self).model().cursor.col + n <= usize::MAX,
        ensures
            final(self).wf(),
            final(self).model() == chars_erased(old(self).model(), n as int),
    {
        self.touch_line();
        if self.cursor.row < self.rows {
            let c = self.cursor.col;
            let end = if c + n < self.cols { c + n } else { self.cols };
            self.fill_cursor_row(c, end);
        }
    }

    /// Sets rows `a..b` of the grid to blank rows.
    fn blank_rows(&mut self, a: usize, b: usize)
        requires
            old(self).wf(),
            b <= old(self).model().rows,
        ensures
            final(self).wf(),
            final(self).model() == rows_blanked(old(self).model(), a as int, b as int),
    {
        let ghost m = self.model();
        let mut i = a;
        while i < b
            invariant
                a <= i,
                i <= b || i == a,
                b <= m.rows,
                model_wf(m),
                self.wf(),
                self.model() == rows_blanked(m, a as int, i as int),
            decreases b - i,
        {
            let line = self.blank_line();
            let ghost g0 = self.grid@;
            let ghost before = self.model();
            assert(before.grid == rows_of(g0));
            assert(line@ == blank_row(m));
            self.grid.set(i, line);
            i += 1;
            assert forall|k: int| 0 <= k < m.rows implies #[trigger] rows_of(self.grid@)[k] == rows_blanked(m, a as int, i as int).grid[k] by {
                if k != i - 1 {
                    assert(self.grid@[k] == g0[k]);
                    assert(rows_of(g0)[k] == before.grid[k]);
                } else {
                    assert(self.grid@[k]@ == blank_row(m));
                }
            }
            assert(rows_of(self.grid@) =~= rows_blanked(m, a as int, i as int).grid);
            assert(self.model() =~= rows_blanked(m, a as int, i as int));
        }
        assert(rows_blanked(m, a as int, i as int) =~= rows_blanked(m, a as int, b as int));
    }

    /// Clears the screen: every cell blank, no row soft-wrapped.
    pub fn clear(&mut self)
        requires
            old(self).wf(),
        ensures
            final(self).wf(),
            final(self).model() == screen_cleared(old(self).model()),
    {
        self.mark_dirty();
        self.invalidate_all_lines();
        let ghost d = self.model();
        let n = self.rows;
        self.blank_rows(0, n);
        let mut i: usize = 0;
        while i < n
            invariant
                i <= n,
                n == d.rows,
                model_wf(d),
                self.wf(),
                self.model() == (ScreenModel {
                    wrapped: Seq::new(d.rows as nat, |k: int| if k < i { false } else { d.wrapped[k] }),
                    ..rows_blanked(d, 0, n as int)
                }),
            decreases n - i,
        {
            self.grid_wrapped.set(i, false);
            i += 1;
            assert(self.model() =~= ScreenModel {
                wrapped: Seq::new(d.rows as nat, |k: int| if k < i { false } else { d.wrapped[k] }),
                ..rows_blanked(d, 0, n as int)
            });
        }
        assert(self.model() =~= screen_cleared(old(self).model()));
    }

    /// ED: 0 from the cursor to the end of the screen, 1 from the start through the
    /// cursor, 2 the whole screen, 3 the screen and the scrollback.
    pub fn erase_in_display(&mut self, mode: u16)
        requires
            old(self).wf(),
        ensures
            final(self).wf(),
            final(self).model() == display_erased(old(self).model(), mode),
    {
        self.mark_dirty();
        self.invalidate_all_lines();
        if mode == 0 {
            self.clear_line_right();
            let from = self.cursor.row + 1;
            let n = self.rows;
            self.blank_rows(from, n);
        } else if mode == 1 {
            let r = self.cursor.row;
            self.blank_rows(0, r);
            let end = if self.cursor.col + 1 < self.cols { self.cursor.col + 1 } else { self.cols };
            self.fill_cursor_row(0, end);
        } else if mode == 2 {
            self.clear();
        } else if mode == 3 {
            self.clear();
            let ghost e = self.model();
            self.scrollback.clear();
            self.scrollback_wrapped.clear();
            self.view_offset = 0;
            self.prompt_marks.clear();
            assert(rows_of(self.scrollback@) =~= Seq::<Seq<Cell>>::empty());
            assert(self.model() =~= ScreenModel {
                scrollback: Seq::empty(),
                sb_wrapped: Seq::empty(),
                view_offset: 0,
                prompt_marks: Seq::empty(),
                ..e
            });
        }
    }

    /// Clears from the cursor to the end of the screen (ED 0).
    pub fn clear_to_end_of_screen(&mut self)
        requires
            old(self).wf(),
        ensures
            final(self).wf(),
            final(self).model() == display_erased(old(self).model(), 0),
    {
        self.erase_in_display(0);
    }

    /// One blank line inserted at the cursor row (see `line_inserted_once`).
    fn insert_line_step(&mut self)
        requires
            old(self).wf(),
            in_region(old(self).model()),
        ensures
            final(self).wf(),
            final(self).model() == line_inserted_once(old(self).model()),
    {
        let ghost m = self.model();
        let r = self.cursor.row;
        let bot = self.scroll_bottom;
        let blank = self.blank_line();
        self.grid.remove(bot);
        self.grid.insert(r, blank);
        self.grid_wrapped.remove(bot);
        self.grid_wrapped.insert(r, false);
        assert(rows_of(self.grid@) =~= m.grid.remove(bot as int).insert(r as int, blank_row(m)));
        assert(self.model() =~= line_inserted_once(m));
    }

    /// One line deleted at the cursor row (see `line_deleted_once`).
    fn delete_line_step(&mut self)
        requires
            old(self).wf(),
            in_region(old(self).model()),
        ensures
            final(self).wf(),
            final(self).model() == line_deleted_once(old(self).model()),
    {
        let ghost m = self.model();
        let r = self.cursor.row;
        let bot = self.scroll_bottom;
        let blank = self.blank_line();
        self.grid.remove(r);
        self.grid.insert(bot, blank);
        self.grid_wrapped.remove(r);
        self.grid_wrapped.insert(bot, false);
        assert(rows_of(self.grid@) =~= m.grid.remove(r as int).insert(bot as int, blank_row(m)));
        assert(self.model() =~= line_deleted_once(m));
    }

    /// IL: `n` blank lines at the cursor row, pushing the region's lines down.
    pub fn insert_lines(&mut self, n: usize)
        requires
            old(self).wf(),
        ensures
            final(self).wf(),
            final(self).model() == lines_inserted(old(self).model(), n as int),
    {
        if self.cursor.row < self.scroll_top || self.cursor.row > self.scroll_bottom {
            return;
        }
        self.mark_dirty();
        self.invalidate_all_lines();
        let ghost d = self.model();
        let span = self.scroll_bottom - self.cursor.row + 1;
        let count = if n < span { n } else { span };
        let mut k: usize = 0;
        while k < count
            invariant
                k <= count,
                self.wf(),
                in_region(d),
                self.model() == lines_inserted_n(d, k as nat),
                self.model().cursor == d.cursor,
                self.model().scroll_top == d.scroll_top,
                self.model().scroll_bottom == d.scroll_bottom,
            decreases count - k,
        {
            self.insert_line_step();
            k += 1;
        }
    }

    /// DL: `n` lines removed at the cursor row, blank lines entering at the region's bottom.
    pub fn delete_lines(&mut self, n: usize)
        requires
            old(self).wf(),
        ensures
            final(self).wf(),
            final(self).model() == lines_deleted(old(self).model(), n as int),
    {
        if self.cursor.row < self.scroll_top || self.cursor.row > self.scroll_bottom {
            return;
        }
        self.mark_dirty();
        self.invalidate_all_lines();
        let ghost d = self.model();
        let span = self.scroll_bottom - self.cursor.row + 1;
        let count = if n < span { n } else { span };
        let mut k: usize = 0;
        while k < count
            invariant
                k <= count,
                self.wf(),
                in_region(d),
                self.model() == lines_deleted_n(d, k as nat),
                self.model().cursor == d.cursor,
                self.model().scroll_top == d.scroll_top,
                self.model().scroll_bottom == d.scroll_bottom,
            decreases count - k,
        {
            self.delete_line_step();
            k += 1;
        }
    }

    /// ICH: `n` empty cells at the cursor, the rest of the line shifted right.
    pub fn insert_chars(&mut self, n: usize)
        requires
            old(self).wf(),
            old(self).model().cursor.col <= old(self).model().cols,
        ensures
            final(self).wf(),
            final(self).model() == chars_inserted(old(self).model(), n as int),
    {
        self.touch_line();
        let ghost d = self.model();
        let r = self.cursor.row;
        let c = self.cursor.col;
        let avail = self.cols - c;
        let count = if n < avail { n } else { avail };
        shift_right(&mut self.grid[r], c, count);
        assert(rows_of(self.grid@) =~= chars_inserted(old(self).model(), n as int).grid);
        assert(self.model() =~= chars_inserted(old(self).model(), n as int));
    }

    /// DCH: `n` cells removed at the cursor, blanks entering at the right.
    pub fn delete_chars(&mut self, n: usize)
        requires
            old(self).wf(),
            old(self).model().cursor.col <= old(self).model().cols,
        ensures
            final(self).wf(),
            final(self).model() == chars_deleted(old(self).model(), n as int),
    {
        self.touch_line();
        let blank = self.blank_cell();
        let r = self.cursor.row;
        let c = self.cursor.col;
        let avail = self.cols - c;
        let count = if n < avail { n } else { avail };
        shift_left(&mut self.grid[r], c, count, blank);
        assert(rows_of(self.grid@) =~= chars_deleted(old(self).model(), n as int).grid);
        assert(self.model() =~= chars_deleted(old(self).model(), n as int));
    }
}

} // verus!
