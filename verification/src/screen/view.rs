//! Scrollback view, prompt marks (OSC 133) and hyperlinks (OSC 8).

use vstd::prelude::*;
use super::{Screen, ScreenModel, dirtied, invalidated_all, cursor_abs, view_top_abs_of, viewed_at, display_line_of, hyperlink_set, hyperlink_index, rows_of};
use crate::cell::Cell;
use crate::cursor::min_int;
use crate::seqs::{first_where, last_where, lemma_first_where, lemma_first_where_is, lemma_last_where_is};
use crate::context::{extract_file_references, ref_view};
use crate::paint::{cells_chars, hover_matches, hyperlink_uri_at, ref_at, ref_spans, refs_model, HoverTarget};
use crate::context::file_references;
use crate::text::string_push;

verus! {

/// Marks strictly above line `top`.
pub open spec fn mark_below(top: int) -> spec_fn(usize) -> bool {
    |x: usize| (x as int) < top
}

/// Marks strictly below line `top`.
pub open spec fn mark_above(top: int) -> spec_fn(usize) -> bool {
    |x: usize| (x as int) > top
}

/// The view offset set to `off`, redrawing everything when it changes.
pub open spec fn view_set(m: ScreenModel, off: int) -> ScreenModel {
    if off != m.view_offset {
        dirtied(invalidated_all(ScreenModel { view_offset: off as usize, ..m }))
    } else {
        m
    }
}

/// `scroll_view_up(n)`: further into the past, at most to the oldest line; not on
/// the alternate screen.
pub open spec fn view_up(m: ScreenModel, n: int) -> ScreenModel {
    if m.alt is Some {
        m
    } else {
        view_set(m, min_int(m.view_offset + n, m.scrollback.len() as int))
    }
}

/// `scroll_view_down(n)`: towards the present.
pub open spec fn view_down(m: ScreenModel, n: int) -> ScreenModel {
    view_set(m, crate::cursor::sat_sub(m.view_offset as int, n))
}

/// `reset_view()`: back to the live screen.
pub open spec fn view_reset(m: ScreenModel) -> ScreenModel {
    view_set(m, 0)
}

/// `mark_prompt()`: the cursor's absolute line is recorded, unless it is the last mark.
pub open spec fn prompt_marked(m: ScreenModel) -> ScreenModel {
    let abs = cursor_abs(m);
    if m.prompt_marks.len() > 0 && m.prompt_marks.last() == abs {
        m
    } else {
        ScreenModel { prompt_marks: m.prompt_marks.push(abs as usize), ..m }
    }
}

/// `view_to_prev_prompt()`: the view jumps to the closest mark above its top line.
pub open spec fn view_prev_prompt(m: ScreenModel) -> ScreenModel {
    let top = view_top_abs_of(m);
    match last_where(m.prompt_marks, mark_below(top)) {
        Some(i) => viewed_at(m, m.prompt_marks[i] as int),
        None => m,
    }
}

/// `view_to_next_prompt()`: the view jumps to the first mark below its top line,
/// or back to the live screen if there is none.
pub open spec fn view_next_prompt(m: ScreenModel) -> ScreenModel {
    let top = view_top_abs_of(m);
    match first_where(m.prompt_marks, mark_above(top)) {
        Some(i) => viewed_at(m, m.prompt_marks[i] as int),
        None => view_reset(m),
    }
}

impl Screen {
    fn set_view_offset(&mut self, off: usize)
        requires
            old(self).wf(),
            off <= old(self).model().scrollback.len(),
        ensures
            final(self).wf(),
            final(self).model() == view_set(old(self).model(), off as int),
    {
        if off != self.view_offset {
            self.view_offset = off;
            proof {
                assert(self.model() =~= ScreenModel { view_offset: off, ..old(self).model() });
            }
            self.invalidate_all_lines();
            self.mark_dirty();
        }
    }

    /// Scrolls the view `n` lines into the past.
    pub fn scroll_view_up(&mut self, n: usize)
        requires
            old(self).wf(),
        ensures
            final(self).wf(),
            final(self).model() == view_up(old(self).model(), n as int),
    {
        if self.alt_screen.is_some() {
            return;
        }
        let new_offset = self.view_offset.saturating_add(n).min(self.scrollback.len());
        self.set_view_offset(new_offset);
    }

    /// Scrolls the view `n` lines towards the present.
    pub fn scroll_view_down(&mut self, n: usize)
        requires
            old(self).wf(),
        ensures
            final(self).wf(),
            final(self).model() == view_down(old(self).model(), n as int),
    {
        let new_offset = self.view_offset.saturating_sub(n);
        self.set_view_offset(new_offset);
    }

    /// Returns the view to the live screen.
    pub fn reset_view(&mut self)
        requires
            old(self).wf(),
        ensures
            final(self).wf(),
            final(self).model() == view_reset(old(self).model()),
    {
        self.set_view_offset(0);
    }

    /// The line shown at screen row `row` (empty if there is none).
    pub fn display_line(&self, row: usize) -> (r: &[Cell])
        requires
            self.wf(),
        ensures
            r@ == display_line_of(self.model(), row as int),
    {
        let sb = self.scrollback.len();
        let offset = if self.view_offset < sb { self.view_offset } else { sb };
        proof {
            assert(rows_of(self.scrollback@).len() == sb);
        }
        if row >= self.rows {
            &[]
        } else if row < offset {
            self.scrollback[sb - offset + row].as_slice()
        } else if row - offset < self.grid.len() {
            self.grid[row - offset].as_slice()
        } else {
            &[]
        }
    }

    /// Absolute line number of the cursor.
    fn cursor_abs_line(&self) -> (r: usize)
        requires
            self.wf(),
        ensures
            r == cursor_abs(self.model()),
    {
        self.lines_scrolled_off.saturating_add(self.scrollback.len()).saturating_add(self.cursor.row)
    }

    /// Records the start of a prompt (OSC 133;A) at the cursor's line.
    pub fn mark_prompt(&mut self)
        requires
            old(self).wf(),
        ensures
            final(self).wf(),
            final(self).model() == prompt_marked(old(self).model()),
    {
        let abs = self.cursor_abs_line();
        let n = self.prompt_marks.len();
        if n > 0 && self.prompt_marks[n - 1] == abs {
            return;
        }
        self.prompt_marks.push(abs);
        assert(self.model() =~= prompt_marked(old(self).model()));
    }

    /// Absolute line number of the top visible row.
    fn view_top_abs(&self) -> (r: usize)
        requires
            self.wf(),
        ensures
            r == view_top_abs_of(self.model()),
    {
        let sb = self.scrollback.len();
        let base = self.lines_scrolled_off.saturating_add(sb);
        let off = if self.view_offset < sb { self.view_offset } else { sb };
        base - off
    }

    /// Puts absolute line `abs` at the top of the view.
    fn view_to_abs(&mut self, abs: usize)
        requires
            old(self).wf(),
            abs >= old(self).model().scrolled_off,
        ensures
            final(self).wf(),
            final(self).model() == viewed_at(old(self).model(), abs as int),
    {
        let sb_start = self.lines_scrolled_off;
        let sb_len = self.scrollback.len();
        if abs - sb_start < sb_len {
            self.view_offset = sb_len - (abs - sb_start);
        } else {
            self.view_offset = 0;
        }
        proof {
            assert(self.model() =~= ScreenModel { view_offset: self.view_offset, ..old(self).model() });
        }
        self.invalidate_all_lines();
        self.mark_dirty();
    }

    /// Moves the view to the previous prompt.
    pub fn view_to_prev_prompt(&mut self)
        requires
            old(self).wf(),
        ensures
            final(self).wf(),
            final(self).model() == view_prev_prompt(old(self).model()),
    {
        let top = self.view_top_abs();
        let ghost m = self.model();
        let ghost pred = mark_below(view_top_abs_of(m));
        let mut i = self.prompt_marks.len();
        while i > 0
            invariant
                i <= self.prompt_marks@.len(),
                self.model() == m,
                m == old(self).model(),
                self.wf(),
                top == view_top_abs_of(m),
                pred == mark_below(view_top_abs_of(m)),
                forall|j: int| i <= j < m.prompt_marks.len() ==> !pred(#[trigger] m.prompt_marks[j]),
            decreases i,
        {
            let mark = self.prompt_marks[i - 1];
            if mark < top {
                proof {
                    lemma_last_where_is(m.prompt_marks, pred, i - 1);
                }
                self.view_to_abs(mark);
                return;
            }
            i -= 1;
        }
        proof {
            lemma_last_where_is(m.prompt_marks, pred, -1);
        }
    }

    /// Moves the view to the next prompt (or back to the live screen).
    pub fn view_to_next_prompt(&mut self)
        requires
            old(self).wf(),
        ensures
            final(self).wf(),
            final(self).model() == view_next_prompt(old(self).model()),
    {
        let top = self.view_top_abs();
        let ghost m = self.model();
        let ghost pred = mark_above(view_top_abs_of(m));
        let n = self.prompt_marks.len();
        let mut i: usize = 0;
        while i < n
            invariant
                n == m.prompt_marks.len(),
                i <= n,
                self.model() == m,
                m == old(self).model(),
                self.wf(),
                top == view_top_abs_of(m),
                pred == mark_above(view_top_abs_of(m)),
                forall|j: int| 0 <= j < i ==> !pred(#[trigger] m.prompt_marks[j]),
            decreases n - i,
        {
            let mark = self.prompt_marks[i];
            if mark > top {
                proof {
                    lemma_first_where_is(m.prompt_marks, pred, i as int);
                }
                self.view_to_abs(mark);
                return;
            }
            i += 1;
        }
        proof {
            lemma_first_where_is(m.prompt_marks, pred, n as int);
        }
        self.reset_view();
    }

    /// Index of the registered hyperlink equal to `u`.
    fn find_hyperlink(&self, u: &String) -> (r: Option<usize>)
        requires
            self.wf(),
        ensures
            r matches Some(i) ==> hyperlink_index(self.model().hyperlinks, u@) == Some(i as int),
            r is None ==> hyperlink_index(self.model().hyperlinks, u@) is None,
            r matches Some(i) ==> i < self.model().hyperlinks.len(),
    {
        let ghost m = self.model();
        let ghost pred = super::same_text(u@);
        let n = self.hyperlinks.len();
        let mut i: usize = 0;
        while i < n
            invariant
                n == m.hyperlinks.len(),
                i <= n,
                self.model() == m,
                pred == super::same_text(u@),
                forall|j: int| 0 <= j < i ==> !pred(#[trigger] m.hyperlinks[j]),
            decreases n - i,
        {
            if self.hyperlinks[i] == *u {
                proof {
                    lemma_first_where_is(m.hyperlinks, pred, i as int);
                }
                return Some(i);
            }
            i += 1;
        }
        proof {
            lemma_first_where_is(m.hyperlinks, pred, n as int);
        }
        None
    }

    /// Sets the hyperlink for the next characters written (`None` or "" ends it).
    pub fn set_hyperlink(&mut self, uri: Option<String>)
        requires
            old(self).wf(),
        ensures
            final(self).wf(),
            final(self).model() == hyperlink_set(
                old(self).model(),
                match uri {
                    Some(u) => Some(u@),
                    None => None,
                },
            ),
    {
        let ghost m = self.model();
        match uri {
            None => {
                self.current_hyperlink = None;
                assert(self.model() =~= hyperlink_set(m, None));
            },
            Some(u) => {
                if u.as_str().is_empty() {
                    self.current_hyperlink = None;
                    assert(self.model() =~= hyperlink_set(m, Some(u@)));
                    return;
                }
                let n = self.hyperlinks.len();
                match self.find_hyperlink(&u) {
                    Some(i) => {
                        assert(i < 65535);
                        self.current_hyperlink = Some(i as u16);
                        assert(self.model() =~= hyperlink_set(m, Some(u@)));
                    },
                    None => {
                        if n < 65535 {
                            let ghost uv = u@;
                            self.hyperlinks.push(u);
                            self.current_hyperlink = Some(n as u16);
                            assert(self.hyperlinks@.map_values(|x: String| x@) =~= m.hyperlinks.push(uv));
                            assert(self.model() =~= hyperlink_set(m, Some(uv)));
                        } else {
                            self.current_hyperlink = None;
                            assert(self.model() =~= hyperlink_set(m, Some(u@)));
                        }
                    },
                }
            },
        }
    }

    /// URI of hyperlink `id`, if registered.
    pub fn hyperlink_uri(&self, id: u16) -> (r: Option<&str>)
        requires
            self.wf(),
        ensures
            r matches Some(s) ==> (id < self.model().hyperlinks.len() && s@
                == self.model().hyperlinks[id as int]),
            r is None ==> id >= self.model().hyperlinks.len(),
    {
        let i = id as usize;
        if i < self.hyperlinks.len() {
            Some(self.hyperlinks[i].as_str())
        } else {
            None
        }
    }

    /// Hyperlink under a visible position.
    pub fn display_hyperlink_at(&self, row: usize, col: usize) -> (r: Option<&str>)
        requires
            self.wf(),
        ensures
            ({
                let line = display_line_of(self.model(), row as int);
                let h = self.model().hyperlinks;
                if col < line.len() && line[col as int].hyperlink is Some && (
                line[col as int].hyperlink->0 as int) < h.len() {
                    r is Some && r->0@ == h[line[col as int].hyperlink->0 as int]
                } else {
                    r is None
                }
            }),
    {
        let line = self.display_line(row);
        if col < line.len() {
            match line[col].hyperlink {
                Some(id) => self.hyperlink_uri(id),
                None => None,
            }
        } else {
            None
        }
    }

    /// The text shown on screen row `row`: one character per cell.
    pub fn display_text(&self, row: usize) -> (s: String)
        requires
            self.wf(),
        ensures
            s@ == cells_chars(display_line_of(self.model(), row as int)),
    {
        let line = self.display_line(row);
        let mut s = String::new();
        let mut i: usize = 0;
        while i < line.len()
            invariant
                i <= line@.len(),
                s@ == cells_chars(line@.take(i as int)),
            decreases line@.len() - i,
        {
            string_push(&mut s, line[i].character);
            i += 1;
            assert(s@ =~= cells_chars(line@.take(i as int)));
        }
        assert(line@.take(line@.len() as int) =~= line@);
        s
    }

    /// What the display cell (`row`, `col`) points at (see `hover_matches`).
    pub fn hover_at(&self, row: usize, col: usize) -> (r: HoverTarget)
        requires
            self.wf(),
        ensures
            hover_matches(self.model(), row as int, col as int, r),
    {
        if row >= self.rows {
            return HoverTarget::Nothing;
        }
        if let Some(uri) = self.display_hyperlink_at(row, col) {
            return HoverTarget::Link(uri.to_string());
        }
        assert(hyperlink_uri_at(self.model(), row as int, col as int) is None);
        assert(row < self.model().rows);
        let text = self.display_text(row);
        let refs = extract_file_references(text.as_str());
        let ghost rm = refs_model(refs@);
        let ghost p = ref_spans(col as int);
        assert(rm == file_references(text@));
        proof {
            lemma_first_where(rm, p);
        }
        let mut i: usize = 0;
        while i < refs.len()
            invariant
                i <= refs@.len(),
                rm == refs_model(refs@),
                rm == file_references(cells_chars(display_line_of(self.model(), row as int))),
                hyperlink_uri_at(self.model(), row as int, col as int) is None,
                row < self.model().rows,
                p == ref_spans(col as int),
                forall|k: int| 0 <= k < i ==> !p(#[trigger] rm[k]),
                match first_where(rm, p) {
                    Some(j) => 0 <= j < rm.len() && p(rm[j]) && forall|k: int| 0 <= k < j ==> !p(#[trigger] rm[k]),
                    None => forall|k: int| 0 <= k < rm.len() ==> !p(#[trigger] rm[k]),
                },
            decreases refs@.len() - i,
        {
            assert(rm[i as int] == ref_view(refs@[i as int]));
            if refs[i].start_col <= col && col < refs[i].end_col {
                assert(p(rm[i as int]));
                assert(first_where(rm, p) == Some(i as int)) by {
                    match first_where(rm, p) {
                        Some(j) => {
                            if j < i {
                                assert(!p(rm[j]));
                            } else if j > i {
                                assert(!p(rm[i as int]));
                            }
                        },
                        None => {
                            assert(!p(rm[i as int]));
                        },
                    }
                }
                let path = refs[i].path.clone();
                let line_no = refs[i].line;
                proof {
                    assert(rm == file_references(cells_chars(display_line_of(self.model(), row as int))));
                    assert(ref_at(rm, col as int) == Some(rm[i as int]));
                    assert(path@ == rm[i as int].0);
                }
                return HoverTarget::File(row, path, line_no);
            }
            i += 1;
        }
        proof {
            match first_where(rm, p) {
                Some(j) => {
                    assert(!p(rm[j]));
                },
                None => {},
            }
        }
        HoverTarget::Nothing
    }
}

} // verus!
