//! Writing characters at the cursor, with autowrap, wide characters and suggestions.

use vstd::prelude::*;
use super::{Screen, ScreenModel, dirtied, invalidated_line, model_wf};
use super::scroll::indexed;
use crate::cell::{empty_cell, mk_cell, Cell};
use crate::cursor::Cursor;
use crate::seqs::{first_where, lemma_first_where_is};

verus! {

/// Cells that are not part of a suggestion.
pub open spec fn not_suggestion() -> spec_fn(Cell) -> bool {
    |c: Cell| !c.is_suggestion
}

/// `row` with the cells of columns `a..b` replaced by `c`.
pub open spec fn row_filled(row: Seq<Cell>, a: int, b: int, c: Cell) -> Seq<Cell> {
    Seq::new(row.len(), |j: int| if a <= j < b { c } else { row[j] })
}

/// End of the run of suggestion cells that starts at column `start` of `row`.
pub open spec fn suggestion_run_end(row: Seq<Cell>, start: int) -> int {
    if start >= row.len() {
        start
    } else {
        match first_where(row.subrange(start, row.len() as int), not_suggestion()) {
            Some(i) => start + i,
            None => row.len() as int,
        }
    }
}

/// Some cell of the cursor row is part of a suggestion.
pub open spec fn has_sugg(m: ScreenModel) -> bool {
    exists|j: int| 0 <= j < m.grid[m.cursor.row as int].len() && (#[trigger] m.grid[m.cursor.row as int][j]).is_suggestion
}

/// `clear_suggestions()`: the run of suggestion cells from where the suggestion
/// started is emptied; suggestion mode ends.
pub open spec fn suggestions_cleared(m: ScreenModel) -> ScreenModel {
    let r = m.cursor.row as int;
    let row = m.grid[r];
    let s = m.suggestion_start as int;
    ScreenModel {
        grid: m.grid.update(r, row_filled(row, s, suggestion_run_end(row, s), empty_cell())),
        suggestion_mode: false,
        ..m
    }
}

/// The cursor brought back into the row before a write: past the last column it
/// wraps (soft wrap, then IND) or, without autowrap, stays on the last column.
pub open spec fn wrapped_for_write(m: ScreenModel) -> ScreenModel {
    if m.cursor.col >= m.cols {
        if m.autowrap {
            indexed(
                ScreenModel {
                    wrapped: m.wrapped.update(m.cursor.row as int, true),
                    cursor: Cursor { col: 0, ..m.cursor },
                    ..m
                },
            )
        } else {
            ScreenModel { cursor: Cursor { col: (m.cols - 1) as usize, ..m.cursor }, ..m }
        }
    } else {
        m
    }
}

/// The cell a write stores: current attributes and hyperlink, marked as suggestion
/// in suggestion mode.
pub open spec fn written_cell(m: ScreenModel, ch: char) -> Cell {
    Cell { hyperlink: m.current_hyperlink, ..mk_cell(ch, m.attrs, m.suggestion_mode) }
}

/// Columns a written character advances the cursor (at least 1).
pub open spec fn advance_of(c: Cell) -> int {
    if c.width >= 1 { c.width as int } else { 1 }
}

/// Stale suggestions cleared before a write outside suggestion mode.
pub open spec fn prepared_for_write(m: ScreenModel) -> ScreenModel {
    if !m.suggestion_mode && has_sugg(m) { suggestions_cleared(m) } else { m }
}

/// `cell` stored at the cursor column, the columns a wide character covers emptied,
/// the cursor advanced past it.
pub open spec fn cell_stored(m: ScreenModel, cell: Cell) -> ScreenModel {
    let w = advance_of(cell);
    let r = m.cursor.row as int;
    let c = m.cursor.col as int;
    let row = Seq::new(
        m.grid[r].len(),
        |j: int| if j == c { cell } else if c < j < c + w { empty_cell() } else { m.grid[r][j] },
    );
    ScreenModel { grid: m.grid.update(r, row), cursor: Cursor { col: (c + w) as usize, ..m.cursor }, ..m }
}

/// The character stored at the cursor (cursor inside the row): stale suggestions are
/// cleared first, the cells a wide character covers are emptied, the cursor advances.
pub open spec fn put_char(m0: ScreenModel, ch: char) -> ScreenModel {
    let m = prepared_for_write(m0);
    cell_stored(m, written_cell(m, ch))
}

/// `write_char(ch)`.
pub open spec fn char_written(m: ScreenModel, ch: char) -> ScreenModel {
    let m1 = invalidated_line(ScreenModel { last_char: Some(ch), ..dirtied(m) }, m.cursor.row as int);
    let m2 = wrapped_for_write(m1);
    if m2.cursor.col < m2.cols {
        put_char(m2, ch)
    } else {
        m2
    }
}

/// `n` writes of `ch`.
pub open spec fn char_written_n(m: ScreenModel, ch: char, n: nat) -> ScreenModel
    decreases n,
{
    if n == 0 {
        m
    } else {
        char_written(char_written_n(m, ch, (n - 1) as nat), ch)
    }
}

/// `repeat_last_char(n)` (REP): the last written character again, `n` times.
pub open spec fn last_char_repeated(m: ScreenModel, n: nat) -> ScreenModel {
    match m.last_char {
        Some(ch) => char_written_n(m, ch, n),
        None => m,
    }
}

impl Screen {
    /// Whether a cell of the cursor row is part of a suggestion.
    pub fn has_suggestions(&self) -> (r: bool)
        requires
            self.wf(),
        ensures
            r == has_sugg(self.model()),
    {
        let ghost m = self.model();
        let row = self.cursor.row;
        let mut j: usize = 0;
        while j < self.cols
            invariant
                self.wf(),
                m == self.model(),
                row == m.cursor.row,
                j <= self.cols,
                forall|k: int| 0 <= k < j ==> !(#[trigger] m.grid[row as int][k]).is_suggestion,
            decreases self.cols - j,
        {
            assert(self.grid@[row as int]@ == m.grid[row as int]);
            if self.grid[row][j].is_suggestion {
                return true;
            }
            j += 1;
        }
        false
    }

    /// REP: writes the last written character `n` more times.
    pub fn repeat_last_char(&mut self, n: usize)
        requires
            old(self).wf(),
        ensures
            final(self).wf(),
            final(self).model() == last_char_repeated(old(self).model(), n as nat),
    {
        if let Some(ch) = self.last_char {
            let ghost m0 = self.model();
            let mut k: usize = 0;
            while k < n
                invariant
                    k <= n,
                    self.wf(),
                    m0.last_char == Some(ch),
                    self.model() == char_written_n(m0, ch, k as nat),
                decreases n - k,
            {
                self.write_char(ch);
                k += 1;
            }
        }
    }

    /// Writes `ch` at the cursor and advances it.
    pub fn write_char(&mut self, ch: char)
        requires
            old(self).wf(),
        ensures
            final(self).wf(),
            final(self).model() == char_written(old(self).model(), ch),
    {
        let ghost m = self.model();
        self.mark_dirty();
        self.last_char = Some(ch);
        assert(self.model() =~= ScreenModel { last_char: Some(ch), ..dirtied(m) });
        self.invalidate_line(self.cursor.row);
        let ghost m1 = self.model();
        if self.cursor.col >= self.cols {
            if self.autowrap {
                self.grid_wrapped.set(self.cursor.row, true);
                self.cursor.col = 0;
                assert(self.model() =~= ScreenModel {
                    wrapped: m1.wrapped.update(m1.cursor.row as int, true),
                    cursor: Cursor { col: 0, ..m1.cursor },
                    ..m1
                });
                self.index();
            } else {
                self.cursor.col = self.cols - 1;
                assert(self.model() =~= ScreenModel {
                    cursor: Cursor { col: (m1.cols - 1) as usize, ..m1.cursor },
                    ..m1
                });
            }
        }
        let ghost m2 = self.model();
        assert(m2 == wrapped_for_write(m1));
        if self.cursor.row < self.rows && self.cursor.col < self.cols {
            self.put_char_at_cursor(ch);
        }
    }

    /// Stores `ch` at the cursor, which is inside the row (see `put_char`).
    fn put_char_at_cursor(&mut self, ch: char)
        requires
            old(self).wf(),
            old(self).model().cursor.col < old(self).model().cols,
        ensures
            final(self).wf(),
            final(self).model() == put_char(old(self).model(), ch),
    {
        let ghost m2 = self.model();
        if !self.suggestion_mode && self.has_suggestions() {
            self.clear_suggestions();
        }
        assert(self.model() == prepared_for_write(m2));
        let mut cell = Cell::with_attrs(ch, self.current_attrs);
        cell.hyperlink = self.current_hyperlink;
        if self.suggestion_mode {
            cell.is_suggestion = true;
        }
        assert(cell == written_cell(self.model(), ch));
        self.store_cell(cell);
    }

    /// Stores `cell` at the cursor, which is inside the row (see `cell_stored`).
    fn store_cell(&mut self, cell: Cell)
        requires
            old(self).wf(),
            old(self).model().cursor.col < old(self).model().cols,
        ensures
            final(self).wf(),
            final(self).model() == cell_stored(old(self).model(), cell),
    {
        let ghost m3 = self.model();
        let width: usize = if cell.width >= 1 { cell.width as usize } else { 1 };
        let r = self.cursor.row;
        let c = self.cursor.col;
        let ghost orig = m3.grid[r as int];
        self.set_cell(r, c, cell);
        assert(orig.update(c as int, cell) =~= Seq::new(
            orig.len(),
            |j: int| if j == c { cell } else if c < j < c + 1 { empty_cell() } else { orig[j] },
        ));
        let mut i: usize = 1;
        while i < width
            invariant
                self.wf(),
                model_wf(m3),
                1 <= i <= width,
                width == advance_of(cell),
                width <= 255,
                r == m3.cursor.row,
                c == m3.cursor.col,
                c < m3.cols,
                orig == m3.grid[r as int],
                self.model() == (ScreenModel {
                    grid: m3.grid.update(
                        r as int,
                        Seq::new(
                            orig.len(),
                            |j: int| if j == c { cell } else if c < j < c + i { empty_cell() } else { orig[j] },
                        ),
                    ),
                    ..m3
                }),
            decreases width - i,
        {
            let ghost before = self.model();
            if c + i < self.cols {
                let e = Cell::empty();
                self.set_cell(r, c + i, e);
            }
            i += 1;
            assert(self.model().grid[r as int] =~= Seq::new(
                orig.len(),
                |j: int| if j == c { cell } else if c < j < c + i { empty_cell() } else { orig[j] },
            ));
            assert(self.model() =~= ScreenModel {
                grid: m3.grid.update(
                    r as int,
                    Seq::new(
                        orig.len(),
                        |j: int| if j == c { cell } else if c < j < c + i { empty_cell() } else { orig[j] },
                    ),
                ),
                ..m3
            });
        }
        self.cursor.col = c + width;
        assert(self.model() =~= cell_stored(m3, cell));
    }

    /// Empties the run of suggestion cells from where the suggestion started and
    /// leaves suggestion mode.
    pub fn clear_suggestions(&mut self)
        requires
            old(self).wf(),
        ensures
            final(self).wf(),
            final(self).model() == suggestions_cleared(old(self).model()),
    {
        let ghost m = self.model();
        let ghost orig = m.grid[m.cursor.row as int];
        let row = self.cursor.row;
        let start = self.suggestion_start_col;
        let mut col = start;
        let mut done = false;
        assert(row_filled(orig, start as int, start as int, empty_cell()) =~= orig);
        assert(m.grid.update(row as int, orig) =~= m.grid);
        assert(self.model() =~= ScreenModel {
            grid: m.grid.update(row as int, row_filled(orig, start as int, col as int, empty_cell())),
            ..m
        });
        while !done && col < self.cols
            invariant
                self.wf(),
                model_wf(m),
                orig == m.grid[row as int],
                row == m.cursor.row,
                start == m.suggestion_start,
                start <= col,
                col <= self.cols || col == start,
                self.cols == m.cols,
                forall|k: int| start <= k < col ==> (#[trigger] orig[k]).is_suggestion,
                done ==> col < self.cols && !orig[col as int].is_suggestion,
                self.model() == (ScreenModel {
                    grid: m.grid.update(row as int, row_filled(orig, start as int, col as int, empty_cell())),
                    ..m
                }),
            decreases self.cols - col, (if done { 0int } else { 1int }),
        {
            assert(self.grid@[row as int]@ == self.model().grid[row as int]);
            if self.grid[row][col].is_suggestion {
                let e = Cell::empty();
                self.set_cell(row, col, e);
                col += 1;
                assert(row_filled(orig, start as int, (col - 1) as int, empty_cell()).update(
                    (col - 1) as int,
                    empty_cell(),
                ) =~= row_filled(orig, start as int, col as int, empty_cell()));
                assert(self.model() =~= ScreenModel {
                    grid: m.grid.update(row as int, row_filled(orig, start as int, col as int, empty_cell())),
                    ..m
                });
            } else {
                done = true;
            }
        }
        proof {
            if start < m.cols {
                let sub = orig.subrange(start as int, m.cols as int);
                assert forall|j: int| 0 <= j < col - start implies !(#[trigger] not_suggestion()(sub[j])) by {
                    assert(sub[j] == orig[start + j]);
                }
                if done {
                    assert(sub[col - start] == orig[col as int]);
                }
                lemma_first_where_is(sub, not_suggestion(), col - start);
            }
        }
        self.suggestion_mode = false;
        assert(self.model() =~= suggestions_cleared(m));
    }
}

} // verus!
