//! Scrolling within the scroll region, line feeds and the scroll region itself.

use vstd::prelude::*;
use super::{Screen, ScreenModel, dirtied, invalidated_all, blank_row, blank_of, rows_of, sat_add};
use crate::cell::Cell;

verus! {

/// Marks that survive when the scrollback has dropped lines up to `off`.
pub open spec fn mark_at_least(off: int) -> spec_fn(usize) -> bool {
    |x: usize| (x as int) >= off
}

/// One step of scrolling up: the region's top row leaves (into the scrollback when the
/// region is the whole main screen, trimmed to `max_scrollback`), a blank row enters at
/// the region's bottom.
pub open spec fn scroll_up_once(m: ScreenModel) -> ScreenModel {
    let top = m.scroll_top as int;
    let bot = m.scroll_bottom as int;
    let full = top == 0 && bot == m.rows - 1;
    let line = m.grid[top];
    let w = m.wrapped[top];
    let g = m.grid.remove(top).insert(bot, blank_row(m));
    let wr = m.wrapped.remove(top).insert(bot, false);
    if full && m.alt is None {
        let sb = m.scrollback.push(line);
        let sbw = m.sb_wrapped.push(w);
        if sb.len() > m.max_scrollback {
            let off = sat_add(m.scrolled_off as int, 1);
            ScreenModel {
                grid: g,
                wrapped: wr,
                scrollback: sb.drop_first(),
                sb_wrapped: sbw.drop_first(),
                scrolled_off: off as usize,
                prompt_marks: m.prompt_marks.filter(mark_at_least(off)),
                ..m
            }
        } else {
            ScreenModel { grid: g, wrapped: wr, scrollback: sb, sb_wrapped: sbw, ..m }
        }
    } else {
        ScreenModel { grid: g, wrapped: wr, ..m }
    }
}

/// `n` steps of scrolling up.
pub open spec fn scroll_up_n(m: ScreenModel, n: nat) -> ScreenModel
    decreases n,
{
    if n == 0 {
        m
    } else {
        scroll_up_once(scroll_up_n(m, (n - 1) as nat))
    }
}

/// On the main screen with the whole screen as scroll region, while the scrollback
/// stays within its maximum, `k` steps of scrolling up move the top `k` rows, with
/// their wrap flags, to the end of the scrollback, shift the rest up and fill the
/// bottom with blank rows; nothing else changes.
pub proof fn lemma_scroll_up_n_full(m: ScreenModel, k: nat)
    requires
        m.alt is None,
        m.scroll_top == 0,
        m.scroll_bottom == m.rows - 1,
        m.rows >= 1,
        m.grid.len() == m.rows,
        m.wrapped.len() == m.rows,
        k <= m.rows,
        m.scrollback.len() + k <= m.max_scrollback,
    ensures
        scroll_up_n(m, k) == (ScreenModel {
            grid: m.grid.skip(k as int) + Seq::new(k, |i: int| blank_row(m)),
            wrapped: m.wrapped.skip(k as int) + Seq::new(k, |i: int| false),
            scrollback: m.scrollback + m.grid.take(k as int),
            sb_wrapped: m.sb_wrapped + m.wrapped.take(k as int),
            ..m
        }),
    decreases k,
{
    if k > 0 {
        lemma_scroll_up_n_full(m, (k - 1) as nat);
        let p = scroll_up_n(m, (k - 1) as nat);
        assert(blank_row(p) == blank_row(m));
        assert(p.grid[0] == m.grid[k - 1]);
        assert(p.wrapped[0] == m.wrapped[k - 1]);
        assert(p.grid.remove(0).insert(m.rows - 1, blank_row(p)) =~= m.grid.skip(k as int) + Seq::new(
            k,
            |i: int| blank_row(m),
        ));
        assert(p.wrapped.remove(0).insert(m.rows - 1, false) =~= m.wrapped.skip(k as int) + Seq::new(
            k,
            |i: int| false,
        ));
        assert(p.scrollback.push(p.grid[0]) =~= m.scrollback + m.grid.take(k as int));
        assert(p.sb_wrapped.push(p.wrapped[0]) =~= m.sb_wrapped + m.wrapped.take(k as int));
    } else {
        assert(m.grid.skip(0) + Seq::new(0, |i: int| blank_row(m)) =~= m.grid);
        assert(m.wrapped.skip(0) + Seq::new(0, |i: int| false) =~= m.wrapped);
        assert(m.scrollback + m.grid.take(0) =~= m.scrollback);
        assert(m.sb_wrapped + m.wrapped.take(0) =~= m.sb_wrapped);
    }
}

/// `scroll_up(n)`.
pub open spec fn scrolled_up(m: ScreenModel, n: nat) -> ScreenModel {
    scroll_up_n(invalidated_all(dirtied(m)), n)
}

/// One step of scrolling down: the region's bottom row is dropped, a blank row enters at its top.
pub open spec fn scroll_down_once(m: ScreenModel) -> ScreenModel {
    let top = m.scroll_top as int;
    let bot = m.scroll_bottom as int;
    ScreenModel {
        grid: m.grid.remove(bot).insert(top, blank_row(m)),
        wrapped: m.wrapped.remove(bot).insert(top, false),
        ..m
    }
}

/// `n` steps of scrolling down.
pub open spec fn scroll_down_n(m: ScreenModel, n: nat) -> ScreenModel
    decreases n,
{
    if n == 0 {
        m
    } else {
        scroll_down_once(scroll_down_n(m, (n - 1) as nat))
    }
}

/// `scroll_down(n)`.
pub open spec fn scrolled_down(m: ScreenModel, n: nat) -> ScreenModel {
    scroll_down_n(invalidated_all(dirtied(m)), n)
}

/// `index()` (IND): down one row, scrolling at the bottom of the region.
pub open spec fn indexed(m: ScreenModel) -> ScreenModel {
    let d = dirtied(m);
    if d.cursor.row == d.scroll_bottom {
        scroll_up_once(invalidated_all(dirtied(d)))
    } else if d.cursor.row < d.rows - 1 {
        ScreenModel { cursor: crate::cursor::Cursor { row: (d.cursor.row + 1) as usize, ..d.cursor }, ..d }
    } else {
        d
    }
}

/// `reverse_index()` (RI): up one row, scrolling down at the top of the region.
pub open spec fn reverse_indexed(m: ScreenModel) -> ScreenModel {
    let d = dirtied(m);
    if d.cursor.row == d.scroll_top {
        scroll_down_once(invalidated_all(dirtied(d)))
    } else if d.cursor.row > 0 {
        ScreenModel { cursor: crate::cursor::Cursor { row: (d.cursor.row - 1) as usize, ..d.cursor }, ..d }
    } else {
        d
    }
}

/// `carriage_return()`: column 0 (redraw only if the column changed).
pub open spec fn carriage_returned(m: ScreenModel) -> ScreenModel {
    let d = if m.cursor.col != 0 { dirtied(m) } else { m };
    ScreenModel { cursor: crate::cursor::Cursor { col: 0, ..d.cursor }, ..d }
}

/// `line_feed()`: hard line break (no soft wrap on this row), suggestion dropped, then IND.
pub open spec fn line_fed(m: ScreenModel) -> ScreenModel {
    indexed(
        ScreenModel {
            active_suggestion: None,
            wrapped: m.wrapped.update(m.cursor.row as int, false),
            ..m
        },
    )
}

/// `next_line()` (NEL): carriage return, then IND.
pub open spec fn next_lined(m: ScreenModel) -> ScreenModel {
    indexed(carriage_returned(m))
}

/// `set_scroll_region(top, bottom)`: a valid region, else the whole screen; cursor home.
pub open spec fn scroll_region_set(m: ScreenModel, top: int, bottom: int) -> ScreenModel {
    let (t, b) = if top < bottom && bottom < m.rows {
        (top, bottom)
    } else {
        (0, m.rows - 1)
    };
    dirtied(
        ScreenModel {
            scroll_top: t as usize,
            scroll_bottom: b as usize,
            cursor: crate::cursor::Cursor { row: 0, col: 0, ..m.cursor },
            ..m
        },
    )
}

impl Screen {
    /// The blank cell erasing operations write (current background kept).
    pub(crate) fn blank_cell(&self) -> (r: Cell)
        requires
            self.wf(),
        ensures
            r == blank_of(self.model()),
    {
        let attrs = crate::attributes::CellAttributes {
            bg_color: self.current_attrs.bg_color,
            ..crate::attributes::CellAttributes::new_default()
        };
        Cell::with_attrs(' ', attrs)
    }

    /// A blank row of the screen's width.
    pub(crate) fn blank_line(&self) -> (r: Vec<Cell>)
        requires
            self.wf(),
        ensures
            r@ == blank_row(self.model()),
    {
        let b = self.blank_cell();
        let r = vec![b; self.cols];
        assert(r@ =~= blank_row(self.model()));
        r
    }

    /// Keeps the prompt marks at or after absolute line `off`.
    fn retain_marks_from(&mut self, off: usize)
        requires
            old(self).wf(),
            old(self).lines_scrolled_off <= off,
        ensures
            final(self).wf(),
            final(self).model() == (ScreenModel {
                prompt_marks: old(self).model().prompt_marks.filter(mark_at_least(off as int)),
                ..old(self).model()
            }),
            forall|k: int| 0 <= k < final(self).model().prompt_marks.len()
                ==> off <= #[trigger] final(self).model().prompt_marks[k],
    {
        let ghost m = self.model();
        let ghost p = mark_at_least(off as int);
        let mut kept: Vec<usize> = Vec::new();
        let n = self.prompt_marks.len();
        let mut i: usize = 0;
        while i < n
            invariant
                n == m.prompt_marks.len(),
                i <= n,
                self.model() == m,
                p == mark_at_least(off as int),
                kept@ == m.prompt_marks.take(i as int).filter(p),
            decreases n - i,
        {
            let x = self.prompt_marks[i];
            proof {
                reveal_with_fuel(Seq::<usize>::filter, 1);
                assert(m.prompt_marks.take(i + 1).drop_last() =~= m.prompt_marks.take(i as int));
            }
            if x >= off {
                kept.push(x);
            }
            i += 1;
        }
        assert(m.prompt_marks.take(n as int) =~= m.prompt_marks);
        self.prompt_marks = kept;
        proof {
            assert forall|k: int| 0 <= k < self.prompt_marks@.len() implies off
                <= #[trigger] self.prompt_marks@[k] by {
                m.prompt_marks.lemma_filter_pred(p, k);
            }
        }
        assert(self.model() =~= ScreenModel { prompt_marks: m.prompt_marks.filter(p), ..m });
    }

    /// One step of scrolling up (see `scroll_up_once`).
    fn scroll_up_step(&mut self)
        requires
            old(self).wf(),
        ensures
            final(self).wf(),
            final(self).model() == scroll_up_once(old(self).model()),
    {
        let ghost m = self.model();
        let top = self.scroll_top;
        let bot = self.scroll_bottom;
        let full = top == 0 && bot == self.rows - 1;
        let blank = self.blank_line();
        let line = self.grid.remove(top);
        let wrapped = self.grid_wrapped.remove(top);
        self.grid.insert(bot, blank);
        self.grid_wrapped.insert(bot, false);
        assert(rows_of(self.grid@) =~= m.grid.remove(top as int).insert(bot as int, blank_row(m)));
        if full && self.alt_screen.is_none() {
            let ghost lv = line@;
            self.scrollback.push(line);
            self.scrollback_wrapped.push(wrapped);
            assert(rows_of(self.scrollback@) =~= m.scrollback.push(lv));
            if self.scrollback.len() > self.max_scrollback {
                let ghost sb1 = rows_of(self.scrollback@);
                self.scrollback.remove(0);
                self.scrollback_wrapped.remove(0);
                assert(rows_of(self.scrollback@) =~= sb1.drop_first());
                let off = self.lines_scrolled_off.saturating_add(1);
                proof {
                    assert(self.model() =~= ScreenModel {
                        grid: m.grid.remove(top as int).insert(bot as int, blank_row(m)),
                        wrapped: m.wrapped.remove(top as int).insert(bot as int, false),
                        scrollback: m.scrollback.push(lv).drop_first(),
                        sb_wrapped: m.sb_wrapped.push(wrapped).drop_first(),
                        ..m
                    });
                }
                self.retain_marks_from(off);
                self.lines_scrolled_off = off;
                assert(self.model() =~= scroll_up_once(m));
            } else {
                assert(self.model() =~= scroll_up_once(m));
            }
        } else {
            assert(self.model() =~= scroll_up_once(m));
        }
    }

    /// Scrolls the scroll region up `n` lines.
    pub fn scroll_up(&mut self, n: usize)
        requires
            old(self).wf(),
        ensures
            final(self).wf(),
            final(self).model() == scrolled_up(old(self).model(), n as nat),
    {
        self.mark_dirty();
        self.invalidate_all_lines();
        let ghost m0 = self.model();
        assert(m0 == invalidated_all(dirtied(old(self).model())));
        let mut k: usize = 0;
        while k < n
            invariant
                k <= n,
                self.wf(),
                self.model() == scroll_up_n(m0, k as nat),
            decreases n - k,
        {
            self.scroll_up_step();
            k += 1;
        }
    }

    /// One step of scrolling down (see `scroll_down_once`).
    fn scroll_down_step(&mut self)
        requires
            old(self).wf(),
        ensures
            final(self).wf(),
            final(self).model() == scroll_down_once(old(self).model()),
    {
        let ghost m = self.model();
        let top = self.scroll_top;
        let bot = self.scroll_bottom;
        let blank = self.blank_line();
        self.grid.remove(bot);
        self.grid.insert(top, blank);
        self.grid_wrapped.remove(bot);
        self.grid_wrapped.insert(top, false);
        assert(rows_of(self.grid@) =~= m.grid.remove(bot as int).insert(top as int, blank_row(m)));
        assert(self.model() =~= scroll_down_once(m));
    }

    /// Scrolls the scroll region down `n` lines.
    pub fn scroll_down(&mut self, n: usize)
        requires
            old(self).wf(),
        ensures
            final(self).wf(),
            final(self).model() == scrolled_down(old(self).model(), n as nat),
    {
        self.mark_dirty();
        self.invalidate_all_lines();
        let ghost m0 = self.model();
        let mut k: usize = 0;
        while k < n
            invariant
                k <= n,
                self.wf(),
                self.model() == scroll_down_n(m0, k as nat),
            decreases n - k,
        {
            self.scroll_down_step();
            k += 1;
        }
    }

    /// IND: down one row, scrolling at the bottom of the region.
    pub fn index(&mut self)
        requires
            old(self).wf(),
        ensures
            final(self).wf(),
            final(self).model() == indexed(old(self).model()),
    {
        self.mark_dirty();
        if self.cursor.row == self.scroll_bottom {
            self.scroll_up(1);
            proof {
                reveal_with_fuel(scroll_up_n, 2);
            }
        } else if self.cursor.row < self.rows - 1 {
            self.cursor.row += 1;
            assert(self.model() =~= indexed(old(self).model()));
        }
    }

    /// RI: up one row, scrolling down at the top of the region.
    pub fn reverse_index(&mut self)
        requires
            old(self).wf(),
        ensures
            final(self).wf(),
            final(self).model() == reverse_indexed(old(self).model()),
    {
        self.mark_dirty();
        if self.cursor.row == self.scroll_top {
            self.scroll_down(1);
            proof {
                reveal_with_fuel(scroll_down_n, 2);
            }
        } else if self.cursor.row > 0 {
            self.cursor.row -= 1;
            assert(self.model() =~= reverse_indexed(old(self).model()));
        }
    }

    /// NEL: carriage return, then IND.
    pub fn next_line(&mut self)
        requires
            old(self).wf(),
        ensures
            final(self).wf(),
            final(self).model() == next_lined(old(self).model()),
    {
        self.carriage_return();
        self.index();
    }

    /// Line feed: ends the soft wrap of the row, drops the suggestion, then IND.
    pub fn line_feed(&mut self)
        requires
            old(self).wf(),
        ensures
            final(self).wf(),
            final(self).model() == line_fed(old(self).model()),
    {
        self.active_suggestion = None;
        self.grid_wrapped.set(self.cursor.row, false);
        assert(self.model() =~= ScreenModel {
            active_suggestion: None,
            wrapped: old(self).model().wrapped.update(old(self).cursor.row as int, false),
            ..old(self).model()
        });
        self.index();
    }

    /// Carriage return: back to column 0.
    pub fn carriage_return(&mut self)
        requires
            old(self).wf(),
        ensures
            final(self).wf(),
            final(self).model() == carriage_returned(old(self).model()),
    {
        if self.cursor.col != 0 {
            self.mark_dirty();
        }
        self.cursor.col = 0;
        assert(self.model() =~= carriage_returned(old(self).model()));
    }

    /// DECSTBM, 0-based inclusive rows; an invalid region resets to the whole screen.
    pub fn set_scroll_region(&mut self, top: usize, bottom: usize)
        requires
            old(self).wf(),
        ensures
            final(self).wf(),
            final(self).model() == scroll_region_set(old(self).model(), top as int, bottom as int),
    {
        if top < bottom && bottom < self.rows {
            self.scroll_top = top;
            self.scroll_bottom = bottom;
        } else {
            self.scroll_top = 0;
            self.scroll_bottom = self.rows - 1;
        }
        self.cursor.row = 0;
        self.cursor.col = 0;
        self.mark_dirty();
        assert(self.model() =~= scroll_region_set(old(self).model(), top as int, bottom as int));
    }
}

} // verus!
