//! Text selection with the mouse: characters, words and lines.

use vstd::prelude::*;
use super::{Screen, ScreenModel, Selection, dirtied, display_line_of, model_wf};
use crate::cell::Cell;
use crate::cursor::min_int;
use crate::seqs::{first_where, last_where, lemma_first_where_is, lemma_last_where_is};
use crate::text::{end_non_ws, is_alphanumeric, string_from_range, trim_end_seq, unicode_alphanumeric};

verus! {

/// Characters that belong to a word for double-click selection.
pub open spec fn word_char(c: char) -> bool {
    unicode_alphanumeric(c) || c == '_' || c == '-' || c == '.' || c == '/' || c == '~' || c == ':'
        || c == '@'
}

/// Cells that do not hold a word character.
pub open spec fn non_word_cell() -> spec_fn(Cell) -> bool {
    |c: Cell| !word_char(c.character)
}

/// Whether `c` belongs to a word (letters, digits and `_-./~:@`).
pub fn is_word_char(c: char) -> (r: bool)
    ensures
        r == word_char(c),
{
    is_alphanumeric(c) || c == '_' || c == '-' || c == '.' || c == '/' || c == '~' || c == ':'
        || c == '@'
}

/// The point `(r, c)` clamped to the screen.
pub open spec fn clamped(m: ScreenModel, r: int, c: int) -> (usize, usize) {
    (min_int(r, m.rows - 1) as usize, min_int(c, m.cols - 1) as usize)
}

/// `start_selection(row, col)`: an empty selection at the clamped point.
pub open spec fn selection_started(m: ScreenModel, row: int, col: int) -> ScreenModel {
    let p = clamped(m, row, col);
    dirtied(ScreenModel { selection: Some(Selection { start: p, end: p }), ..m })
}

/// `update_selection(row, col)`: the selection's end moves to the clamped point.
pub open spec fn selection_updated(m: ScreenModel, row: int, col: int) -> ScreenModel {
    match m.selection {
        Some(s) => dirtied(ScreenModel { selection: Some(Selection { end: clamped(m, row, col), ..s }), ..m }),
        None => m,
    }
}

/// First column of the word through column `col` of `line`.
pub open spec fn word_start(line: Seq<Cell>, col: int) -> int {
    match last_where(line.take(col), non_word_cell()) {
        Some(i) => i + 1,
        None => 0,
    }
}

/// Last column of the word through column `col` of `line`.
pub open spec fn word_end(line: Seq<Cell>, col: int) -> int {
    match first_where(line.skip(col + 1), non_word_cell()) {
        Some(i) => col + i,
        None => line.len() - 1,
    }
}

/// `select_word(row, col)`: the word under a shown cell, if that cell holds a word character.
pub open spec fn word_selected(m: ScreenModel, row: int, col: int) -> ScreenModel {
    let line = display_line_of(m, row);
    if col >= line.len() || !word_char(line[col].character) {
        m
    } else {
        dirtied(
            ScreenModel {
                selection: Some(
                    Selection {
                        start: (row as usize, word_start(line, col) as usize),
                        end: (row as usize, word_end(line, col) as usize),
                    },
                ),
                ..m
            },
        )
    }
}

/// `select_line(row)`: the whole row.
pub open spec fn line_selected(m: ScreenModel, row: int) -> ScreenModel {
    dirtied(
        ScreenModel {
            selection: Some(Selection { start: (row as usize, 0), end: (row as usize, (m.cols - 1) as usize) }),
            ..m
        },
    )
}

/// `(a, b) <= (c, d)` in reading order.
pub open spec fn pos_le(p: (usize, usize), q: (usize, usize)) -> bool {
    p.0 < q.0 || (p.0 == q.0 && p.1 <= q.1)
}

/// The selection's two points in reading order.
pub open spec fn ordered(s: Selection) -> ((usize, usize), (usize, usize)) {
    if pos_le(s.start, s.end) { (s.start, s.end) } else { (s.end, s.start) }
}

/// Whether cell `(row, col)` lies inside the selection.
pub open spec fn selected_at(m: ScreenModel, row: int, col: int) -> bool {
    match m.selection {
        None => false,
        Some(s) => {
            let (a, b) = ordered(s);
            if row < a.0 || row > b.0 {
                false
            } else if row == a.0 && row == b.0 {
                a.1 <= col <= b.1
            } else if row == a.0 {
                col >= a.1
            } else if row == b.0 {
                col <= b.1
            } else {
                true
            }
        },
    }
}

/// Text of cells `col..=last` of `line`: blanks and NULs read as spaces, except that one
/// in column `e` (the selection's last column) is left out.
pub open spec fn cells_text(line: Seq<Cell>, col: int, last: int, e: int) -> Seq<char>
    decreases last + 1 - col,
{
    if col > last {
        Seq::empty()
    } else {
        let ch = line[col].character;
        let head = if ch != '\0' && ch != ' ' {
            seq![ch]
        } else if col < e {
            seq![' ']
        } else {
            Seq::empty()
        };
        head + cells_text(line, col + 1, last, e)
    }
}

/// Text of one selected row: its cells from the start column (on the first row) to
/// the end column (on the last), a line break after every row but the last; rows
/// that show nothing give nothing.
pub open spec fn row_text(m: ScreenModel, row: int, a: (usize, usize), b: (usize, usize)) -> Seq<char> {
    let line = display_line_of(m, row);
    if line.len() == 0 {
        Seq::empty()
    } else {
        let s = if row == a.0 { a.1 as int } else { 0 };
        let e = if row == b.0 { b.1 as int } else { line.len() - 1 };
        let last = min_int(e, line.len() - 1);
        cells_text(line, s, last, e) + if row < b.0 { seq!['\n'] } else { Seq::empty() }
    }
}

/// Text of rows `row..=b.0` of the selection, stopping at the screen's last row.
pub open spec fn rows_text(m: ScreenModel, row: int, a: (usize, usize), b: (usize, usize)) -> Seq<char>
    decreases b.0 + 1 - row,
{
    if row > b.0 || row >= m.rows {
        Seq::empty()
    } else {
        row_text(m, row, a, b) + rows_text(m, row + 1, a, b)
    }
}

/// What `get_selected_text()` returns: the selected text without trailing white
/// space, or nothing when that is empty or there is no selection.
pub open spec fn selected_text(m: ScreenModel) -> Option<Seq<char>> {
    match m.selection {
        None => None,
        Some(s) => {
            let (a, b) = ordered(s);
            let t = trim_end_seq(rows_text(m, a.0 as int, a, b));
            if t.len() == 0 { None } else { Some(t) }
        },
    }
}

/// `cells_text` grows by one cell at a time.
proof fn lemma_cells_text_step(line: Seq<Cell>, s: int, col: int, e: int)
    requires
        s <= col,
    ensures
        cells_text(line, s, col, e) == cells_text(line, s, col - 1, e) + ({
            let ch = line[col].character;
            if ch != '\0' && ch != ' ' {
                seq![ch]
            } else if col < e {
                seq![' ']
            } else {
                Seq::empty()
            }
        }),
    decreases col - s,
{
    if s < col {
        lemma_cells_text_step(line, s + 1, col, e);
        let ch = line[s].character;
        let head: Seq<char> = if ch != '\0' && ch != ' ' {
            seq![ch]
        } else if s < e {
            seq![' ']
        } else {
            Seq::empty()
        };
        assert(cells_text(line, s, col, e) == head + cells_text(line, s + 1, col, e));
        assert(cells_text(line, s, col - 1, e) == head + cells_text(line, s + 1, col - 1, e));
        let ch2 = line[col].character;
        let tail: Seq<char> = if ch2 != '\0' && ch2 != ' ' {
            seq![ch2]
        } else if col < e {
            seq![' ']
        } else {
            Seq::empty()
        };
        assert(head + (cells_text(line, s + 1, col - 1, e) + tail) =~= (head + cells_text(
            line,
            s + 1,
            col - 1,
            e,
        )) + tail);
    } else {
        assert(cells_text(line, s, col - 1, e) =~= Seq::<char>::empty());
        assert(cells_text(line, s + 1, col, e) =~= Seq::<char>::empty());
    }
}

/// `rows_text` from `row` splits into the row's text and the rest.
proof fn lemma_rows_text_split(m: ScreenModel, a: (usize, usize), b: (usize, usize), start: int, row: int)
    requires
        start <= row,
        row <= b.0 + 1,
    ensures
        rows_text(m, start, a, b) == rows_prefix(m, start, row, a, b) + rows_text(m, row, a, b),
    decreases row - start,
{
    if start < row {
        lemma_rows_text_split(m, a, b, start + 1, row);
        if start >= m.rows {
            assert(rows_prefix(m, start, row, a, b) =~= Seq::<char>::empty());
            lemma_rows_text_beyond(m, a, b, row);
        } else {
            assert(rows_text(m, start, a, b) =~= row_text(m, start, a, b) + rows_prefix(
                m,
                start + 1,
                row,
                a,
                b,
            ) + rows_text(m, row, a, b));
        }
    } else {
        assert(rows_prefix(m, start, row, a, b) =~= Seq::<char>::empty());
    }
}

/// Past the screen's last row there is no text.
proof fn lemma_rows_text_beyond(m: ScreenModel, a: (usize, usize), b: (usize, usize), row: int)
    requires
        row >= m.rows,
    ensures
        rows_text(m, row, a, b) == Seq::<char>::empty(),
{
}

/// Text of rows `start..row` (those on the screen).
pub open spec fn rows_prefix(m: ScreenModel, start: int, row: int, a: (usize, usize), b: (usize, usize)) -> Seq<char>
    decreases row - start,
{
    if start >= row || start >= m.rows {
        Seq::empty()
    } else {
        row_text(m, start, a, b) + rows_prefix(m, start + 1, row, a, b)
    }
}

impl Screen {
    /// Starts a selection at `(row, col)`, clamped to the screen.
    pub fn start_selection(&mut self, row: usize, col: usize)
        requires
            old(self).wf(),
        ensures
            final(self).wf(),
            final(self).model() == selection_started(old(self).model(), row as int, col as int),
    {
        let row = if row < self.rows - 1 { row } else { self.rows - 1 };
        let col = if col < self.cols - 1 { col } else { self.cols - 1 };
        self.selection = Some(Selection { start: (row, col), end: (row, col) });
        self.mark_dirty();
        assert(self.model() =~= selection_started(old(self).model(), row as int, col as int));
    }

    /// Moves the end of the selection to `(row, col)`, clamped to the screen.
    pub fn update_selection(&mut self, row: usize, col: usize)
        requires
            old(self).wf(),
        ensures
            final(self).wf(),
            final(self).model() == selection_updated(old(self).model(), row as int, col as int),
    {
        if let Some(s) = self.selection {
            let row = if row < self.rows - 1 { row } else { self.rows - 1 };
            let col = if col < self.cols - 1 { col } else { self.cols - 1 };
            self.selection = Some(Selection { start: s.start, end: (row, col) });
            self.mark_dirty();
            assert(self.model() =~= selection_updated(old(self).model(), row as int, col as int));
        }
    }

    /// Selects the word under a shown cell (double click).
    pub fn select_word(&mut self, row: usize, col: usize)
        requires
            old(self).wf(),
        ensures
            final(self).wf(),
            final(self).model() == word_selected(old(self).model(), row as int, col as int),
    {
        let ghost m = self.model();
        let line = self.display_line(row);
        if col >= line.len() || !is_word_char(line[col].character) {
            return;
        }
        let ghost l = line@;
        let mut start = col;
        while start > 0 && is_word_char(line[start - 1].character)
            invariant
                start <= col < l.len(),
                l == line@,
                forall|j: int| start <= j < col ==> word_char(#[trigger] l[j].character),
            decreases start,
        {
            start -= 1;
        }
        proof {
            let t = l.take(col as int);
            assert forall|j: int| start < j < t.len() implies !(#[trigger] non_word_cell()(t[j])) by {
                assert(t[j] == l[j]);
            }
            if start > 0 {
                assert(t[start - 1] == l[start - 1]);
            }
            lemma_last_where_is(t, non_word_cell(), start - 1);
        }
        let mut end = col;
        while end + 1 < line.len() && is_word_char(line[end + 1].character)
            invariant
                col <= end < l.len(),
                l.len() <= usize::MAX,
                l == line@,
                forall|j: int| col < j <= end ==> word_char(#[trigger] l[j].character),
            decreases l.len() - end,
        {
            end += 1;
        }
        proof {
            let t = l.skip(col + 1);
            assert forall|j: int| 0 <= j < end - col implies !(#[trigger] non_word_cell()(t[j])) by {
                assert(t[j] == l[col + 1 + j]);
            }
            if end + 1 < l.len() {
                assert(t[end - col] == l[end + 1]);
            }
            lemma_first_where_is(t, non_word_cell(), end - col);
        }
        self.selection = Some(Selection { start: (row, start), end: (row, end) });
        self.mark_dirty();
        assert(self.model() =~= word_selected(m, row as int, col as int));
    }

    /// Selects a whole row (triple click).
    pub fn select_line(&mut self, row: usize)
        requires
            old(self).wf(),
        ensures
            final(self).wf(),
            final(self).model() == line_selected(old(self).model(), row as int),
    {
        self.selection = Some(Selection { start: (row, 0), end: (row, self.cols - 1) });
        self.mark_dirty();
        assert(self.model() =~= line_selected(old(self).model(), row as int));
    }

    /// Drops the selection.
    pub fn clear_selection(&mut self)
        requires
            old(self).wf(),
        ensures
            final(self).wf(),
            final(self).model() == (if old(self).model().selection is Some {
                dirtied(ScreenModel { selection: None, ..old(self).model() })
            } else {
                old(self).model()
            }),
    {
        if self.selection.is_some() {
            self.selection = None;
            self.mark_dirty();
            assert(self.model() =~= dirtied(ScreenModel { selection: None, ..old(self).model() }));
        }
    }

    /// The current selection.
    pub fn get_selection(&self) -> (r: Option<Selection>)
        ensures
            r == self.model().selection,
    {
        self.selection
    }

    /// Whether cell `(row, col)` lies inside the selection.
    pub fn is_selected(&self, row: usize, col: usize) -> (r: bool)
        ensures
            r == selected_at(self.model(), row as int, col as int),
    {
        if let Some(selection) = self.selection {
            let (start_row, start_col) = selection.start;
            let (end_row, end_col) = selection.end;
            let le = start_row < end_row || (start_row == end_row && start_col <= end_col);
            let (start_row, start_col, end_row, end_col) = if le {
                (start_row, start_col, end_row, end_col)
            } else {
                (end_row, end_col, start_row, start_col)
            };
            if row < start_row || row > end_row {
                return false;
            }
            if row == start_row && row == end_row {
                col >= start_col && col <= end_col
            } else if row == start_row {
                col >= start_col
            } else if row == end_row {
                col <= end_col
            } else {
                true
            }
        } else {
            false
        }
    }

    /// The selected text of the shown lines, without trailing white space.
    pub fn get_selected_text(&self) -> (r: Option<String>)
        requires
            self.wf(),
        ensures
            match r {
                Some(t) => selected_text(self.model()) == Some(t@),
                None => selected_text(self.model()) is None,
            },
    {
        let ghost m = self.model();
        let selection = match self.selection {
            Some(s) => s,
            None => {
                return None;
            },
        };
        let (start_row, start_col) = selection.start;
        let (end_row, end_col) = selection.end;
        let le = start_row < end_row || (start_row == end_row && start_col <= end_col);
        let (start_row, start_col, end_row, end_col) = if le {
            (start_row, start_col, end_row, end_col)
        } else {
            (end_row, end_col, start_row, start_col)
        };
        let ghost a = (start_row, start_col);
        let ghost b = (end_row, end_col);
        assert((a, b) == ordered(selection));
        let mut text: Vec<char> = Vec::new();
        let mut row = start_row;
        while row <= end_row && row < self.rows
            invariant
                self.wf(),
                m == self.model(),
                model_wf(m),
                a == (start_row, start_col),
                b == (end_row, end_col),
                start_row <= row,
                row <= end_row + 1,
                text@ == rows_prefix(m, start_row as int, row as int, a, b),
            decreases end_row + 1 - row,
        {
            let line = self.display_line(row);
            let ghost l = line@;
            let ghost before = text@;
            if line.len() > 0 {
                let s = if row == start_row { start_col } else { 0 };
                let e = if row == end_row { end_col } else { line.len() - 1 };
                let last = if e < line.len() - 1 { e } else { line.len() - 1 };
                let mut col = s;
                proof {
                    assert(cells_text(l, s as int, s - 1, e as int) =~= Seq::<char>::empty());
                }
                while col <= last
                    invariant
                        l == line@,
                        l.len() > 0,
                        last < l.len(),
                        s <= col,
                        col <= last + 1 || col == s,
                        text@ == before + cells_text(l, s as int, col - 1, e as int),
                    decreases last + 1 - col,
                {
                    let ch = line[col].character;
                    proof {
                        lemma_cells_text_step(l, s as int, col as int, e as int);
                    }
                    if ch != '\0' && ch != ' ' {
                        text.push(ch);
                    } else if col < e {
                        text.push(' ');
                    }
                    col += 1;
                    assert(text@ =~= before + cells_text(l, s as int, col - 1, e as int));
                }
                proof {
                    if s > last {
                        assert(cells_text(l, s as int, last as int, e as int) =~= Seq::<char>::empty());
                        assert(cells_text(l, s as int, s - 1, e as int) =~= Seq::<char>::empty());
                    }
                }
                if row < end_row {
                    text.push('\n');
                }
            }
            proof {
                assert(text@ =~= before + row_text(m, row as int, a, b));
                lemma_prefix_step(m, a, b, start_row as int, row as int);
            }
            row += 1;
        }
        proof {
            lemma_rows_text_split(m, a, b, start_row as int, row as int);
            if row < end_row + 1 {
                lemma_rows_text_beyond(m, a, b, row as int);
            } else {
                assert(rows_text(m, row as int, a, b) =~= Seq::<char>::empty());
            }
            assert(rows_text(m, start_row as int, a, b) =~= text@);
        }
        let end = end_non_ws(&text);
        if end == 0 {
            None
        } else {
            Some(string_from_range(&text, 0, end))
        }
    }
}

/// `rows_prefix` grows by one row at a time.
proof fn lemma_prefix_step(m: ScreenModel, a: (usize, usize), b: (usize, usize), start: int, row: int)
    requires
        start <= row < m.rows,
    ensures
        rows_prefix(m, start, row + 1, a, b) == rows_prefix(m, start, row, a, b) + row_text(m, row, a, b),
    decreases row - start,
{
    if start < row {
        lemma_prefix_step(m, a, b, start + 1, row);
        assert(rows_prefix(m, start, row + 1, a, b) =~= row_text(m, start, a, b) + (rows_prefix(
            m,
            start + 1,
            row,
            a,
            b,
        ) + row_text(m, row, a, b)));
    } else {
        assert(rows_prefix(m, start, row, a, b) =~= Seq::<char>::empty());
        assert(rows_prefix(m, start + 1, row + 1, a, b) =~= Seq::<char>::empty());
        assert(rows_prefix(m, start, row + 1, a, b) =~= row_text(m, row, a, b));
    }
}

} // verus!
