//! Resizing the screen, with reflow of soft-wrapped lines on the main screen.

use vstd::prelude::*;
use super::{Screen, ScreenModel, dirtied, sat_add, row_of, rows_of, model_wf, lemma_rows_of_push};
use super::modes::{fit_row, fit_flags, fitted_row, fitted_flags};
use crate::cell::{empty_cell, Cell};
use crate::context::LineContext;
use crate::cursor::{min_int, sat_sub, Cursor};
use crate::detector::ContentType;

verus! {

// ---------------------------------------------------------------- logical lines

/// A blank cell without a hyperlink: what reflow trims from line ends.
pub open spec fn blank_cell(c: Cell) -> bool {
    c.character == ' ' && c.hyperlink is None
}

/// `s` without its trailing blank cells.
pub open spec fn trim_blank_end(s: Seq<Cell>) -> Seq<Cell>
    decreases s.len(),
{
    if s.len() > 0 && blank_cell(s.last()) {
        trim_blank_end(s.drop_last())
    } else {
        s
    }
}

/// State while joining rows into logical lines: the finished lines, the line being
/// joined, how many rows it has so far, and where the cursor fell (line, offset).
#[verifier::ext_equal]
pub struct Joining {
    pub lines: Seq<Seq<Cell>>,
    pub current: Seq<Cell>,
    pub count: nat,
    pub cursor: Option<(int, int)>,
}

/// One row joined: a soft-wrapped row continues the line; any other row ends it,
/// without its trailing blanks. The cursor's row records its offset in the line.
pub open spec fn join_step(st: Joining, row: Seq<Cell>, wrapped: bool, at_cursor: bool, ccol: int, w: int) -> Joining {
    let cursor = if at_cursor { Some((st.lines.len() as int, st.count * w + ccol)) } else { st.cursor };
    let cur = st.current + row;
    if wrapped {
        Joining { lines: st.lines, current: cur, count: st.count + 1, cursor }
    } else {
        Joining { lines: st.lines.push(trim_blank_end(cur)), current: Seq::empty(), count: 0, cursor }
    }
}

/// The first `k` rows joined (cursor on row `crow`, column `ccol`; rows `w` wide).
pub open spec fn join_upto(rows: Seq<Seq<Cell>>, wr: Seq<bool>, k: int, crow: int, ccol: int, w: int) -> Joining
    decreases k,
{
    if k <= 0 {
        Joining { lines: Seq::empty(), current: Seq::empty(), count: 0, cursor: None }
    } else {
        join_step(join_upto(rows, wr, k - 1, crow, ccol, w), rows[k - 1], wr[k - 1], k - 1 == crow, ccol, w)
    }
}

/// All rows joined into logical lines (an unfinished last line kept as is), with the
/// cursor's line and offset.
pub open spec fn logical_lines(rows: Seq<Seq<Cell>>, wr: Seq<bool>, crow: int, ccol: int, w: int) -> (Seq<Seq<Cell>>, Option<(int, int)>) {
    let st = join_upto(rows, wr, rows.len() as int, crow, ccol, w);
    let lines = if st.current.len() > 0 || st.count > 0 { st.lines.push(st.current) } else { st.lines };
    (lines, st.cursor)
}

// ---------------------------------------------------------------- re-wrapping

/// Rows of `w` cells holding `line[start..]`, the last padded with empty cells.
pub open spec fn chunks_from(line: Seq<Cell>, start: int, w: int) -> Seq<Seq<Cell>>
    decreases line.len() - start,
{
    if w <= 0 || start < 0 || start >= line.len() {
        Seq::empty()
    } else {
        let end = min_int(start + w, line.len() as int);
        seq![fit_row(line.subrange(start, end), w)] + chunks_from(line, end, w)
    }
}

/// Wrap flags of those rows: every row but the last continues.
pub open spec fn chunk_flags_from(line: Seq<Cell>, start: int, w: int) -> Seq<bool>
    decreases line.len() - start,
{
    if w <= 0 || start < 0 || start >= line.len() {
        Seq::empty()
    } else {
        let end = min_int(start + w, line.len() as int);
        seq![end < line.len()] + chunk_flags_from(line, end, w)
    }
}

/// The rows a logical line takes at width `w` (an empty line takes one empty row).
pub open spec fn line_rows(line: Seq<Cell>, w: int) -> Seq<Seq<Cell>> {
    if line.len() == 0 { seq![row_of(w, empty_cell())] } else { chunks_from(line, 0, w) }
}

/// The wrap flags of those rows.
pub open spec fn line_flags(line: Seq<Cell>, w: int) -> Seq<bool> {
    if line.len() == 0 { seq![false] } else { chunk_flags_from(line, 0, w) }
}

/// State while re-wrapping: rows so far, their flags, the cursor's (row, column).
#[verifier::ext_equal]
pub struct Wrapping {
    pub rows: Seq<Seq<Cell>>,
    pub flags: Seq<bool>,
    pub cursor: Option<(int, int)>,
}

/// Logical line `li` re-wrapped at width `w`; the cursor, if it is in this line at
/// `off`, lands on row `off / w` of it (at most the last row so far), column `off % w`.
pub open spec fn wrap_step(st: Wrapping, line: Seq<Cell>, li: int, cl: Option<(int, int)>, w: int) -> Wrapping {
    let first = st.rows.len() as int;
    let rows = st.rows + line_rows(line, w);
    let flags = st.flags + line_flags(line, w);
    let cursor = match cl {
        Some((l, off)) => if l == li {
            Some((min_int(first + off / w, rows.len() - 1), off % w))
        } else {
            st.cursor
        },
        None => st.cursor,
    };
    Wrapping { rows, flags, cursor }
}

/// The first `k` logical lines re-wrapped.
pub open spec fn wrap_upto(lines: Seq<Seq<Cell>>, k: int, cl: Option<(int, int)>, w: int) -> Wrapping
    decreases k,
{
    if k <= 0 {
        Wrapping { rows: Seq::empty(), flags: Seq::empty(), cursor: None }
    } else {
        wrap_step(wrap_upto(lines, k - 1, cl, w), lines[k - 1], k - 1, cl, w)
    }
}

/// Every cell of the row is blank.
pub open spec fn blank_row(row: Seq<Cell>) -> bool {
    forall|j: int| 0 <= j < row.len() ==> blank_cell(#[trigger] row[j])
}

/// How many rows remain once blank rows at the end are dropped, keeping at least `keep`.
pub open spec fn kept_rows(rows: Seq<Seq<Cell>>, n: int, keep: int) -> int
    decreases n,
{
    if n > keep && n > 0 && blank_row(rows[n - 1]) {
        kept_rows(rows, n - 1, keep)
    } else {
        n
    }
}

// ---------------------------------------------------------------- reflow

/// Row where the grid starts among the re-wrapped rows: the last `new_rows` of them,
/// or earlier so that the cursor stays on screen.
pub open spec fn grid_start(n: int, new_rows: int, cursor: Option<(int, int)>) -> int {
    let g = sat_sub(n, new_rows);
    match cursor {
        Some((r, c)) => if r < g { r } else { g },
        None => g,
    }
}

/// Rows `a..n` of `rows`, then empty rows, `new_rows` in all.
pub open spec fn grid_rows(rows: Seq<Seq<Cell>>, a: int, n: int, new_rows: int, new_cols: int) -> Seq<Seq<Cell>> {
    Seq::new(new_rows as nat, |i: int| if a + i < n { rows[a + i] } else { row_of(new_cols, empty_cell()) })
}

/// Flags `a..n` of `flags`, then `false`, `new_rows` in all.
pub open spec fn grid_flags(flags: Seq<bool>, a: int, n: int, new_rows: int) -> Seq<bool> {
    Seq::new(new_rows as nat, |i: int| if a + i < n { flags[a + i] } else { false })
}

/// `reflow(new_rows, new_cols)`: scrollback and grid joined into logical lines and
/// wrapped again at the new width; blank rows at the end dropped (not below the
/// cursor); the last rows form the grid (keeping the cursor on it), the rest the
/// scrollback, trimmed to its maximum; prompt marks dropped, view back to live.
pub open spec fn reflowed(m: ScreenModel, new_rows: int, new_cols: int) -> ScreenModel {
    let wr = rewrapped(m, new_cols);
    let n = kept_of(wr);
    let gs = grid_start(n, new_rows, wr.cursor);
    let sb = wr.rows.subrange(0, gs);
    let sbw = wr.flags.subrange(0, gs);
    let drop = if sb.len() > m.max_scrollback { sb.len() - m.max_scrollback } else { 0 };
    let cursor = match wr.cursor {
        Some((r, c)) => Cursor {
            row: min_int(sat_sub(r, gs), new_rows - 1) as usize,
            col: min_int(c, new_cols - 1) as usize,
            ..m.cursor
        },
        None => Cursor {
            row: min_int(m.cursor.row as int, new_rows - 1) as usize,
            col: min_int(m.cursor.col as int, new_cols - 1) as usize,
            ..m.cursor
        },
    };
    ScreenModel {
        scrollback: sb.skip(drop),
        sb_wrapped: sbw.skip(drop),
        scrolled_off: sat_add(m.scrolled_off as int, drop) as usize,
        grid: grid_rows(wr.rows, gs, n, new_rows, new_cols),
        wrapped: grid_flags(wr.flags, gs, n, new_rows),
        cursor,
        prompt_marks: Seq::empty(),
        view_offset: 0,
        ..m
    }
}

/// Scrollback and grid joined into logical lines and wrapped again at `new_cols`.
pub open spec fn rewrapped(m: ScreenModel, new_cols: int) -> Wrapping {
    let all = m.scrollback + m.grid;
    let flags = m.sb_wrapped + m.wrapped;
    let crow = m.scrollback.len() + m.cursor.row;
    let (lines, cl) = logical_lines(all, flags, crow, m.cursor.col as int, m.cols as int);
    wrap_upto(lines, lines.len() as int, cl, new_cols)
}

/// Rows kept of a re-wrapping: blank rows at the end dropped, not those up to the cursor.
pub open spec fn kept_of(wr: Wrapping) -> int {
    let keep = match wr.cursor {
        Some((r, c)) => r + 1,
        None => 1,
    };
    kept_rows(wr.rows, wr.rows.len() as int, keep)
}

/// `resize_simple(new_rows, new_cols)`: rows leave at the top (into the scrollback on
/// the main screen) or empty rows are added at the bottom; every row is cut or padded.
pub open spec fn resized_simple(m: ScreenModel, new_rows: int, new_cols: int) -> ScreenModel {
    let extra = if m.grid.len() > new_rows { m.grid.len() - new_rows } else { 0 };
    let kept = m.grid.skip(extra);
    let kept_w = m.wrapped.skip(extra);
    let sb = if m.alt is None { m.scrollback + m.grid.take(extra) } else { m.scrollback };
    let sbw = if m.alt is None { m.sb_wrapped + m.wrapped.take(extra) } else { m.sb_wrapped };
    ScreenModel {
        scrollback: sb,
        sb_wrapped: sbw,
        grid: Seq::new(
            new_rows as nat,
            |i: int| if i < kept.len() { fit_row(kept[i], new_cols) } else { row_of(new_cols, empty_cell()) },
        ),
        wrapped: Seq::new(new_rows as nat, |i: int| if i < kept_w.len() { kept_w[i] } else { false }),
        ..m
    }
}

/// Line contexts kept for the first `n` rows, new rows `Normal`.
pub open spec fn fit_contexts(c: Seq<LineContext>, n: int) -> Seq<LineContext> {
    Seq::new(n as nat, |i: int| if i < c.len() { c[i] } else { LineContext::Normal })
}

/// `resize(new_rows, new_cols)`: nothing for a zero or unchanged size; otherwise a
/// reflow when the width changes on the main screen, else a plain resize; the scroll
/// region becomes the whole screen, caches are cleared, the cursor and the view are
/// kept in range.
pub open spec fn resized(m: ScreenModel, new_rows: int, new_cols: int) -> ScreenModel {
    if new_rows == 0 || new_cols == 0 || (new_rows == m.rows && new_cols == m.cols) {
        m
    } else {
        let d = dirtied(m);
        let r = if new_cols != m.cols && m.alt is None {
            reflowed(d, new_rows, new_cols)
        } else {
            resized_simple(d, new_rows, new_cols)
        };
        resize_finished(r, new_rows, new_cols)
    }
}

/// The end of a resize: new size, whole-screen scroll region, contexts fitted,
/// caches cleared, cursor and view kept in range.
pub open spec fn resize_finished(r: ScreenModel, new_rows: int, new_cols: int) -> ScreenModel {
    ScreenModel {
        rows: new_rows as usize,
        cols: new_cols as usize,
        scroll_top: 0,
        scroll_bottom: (new_rows - 1) as usize,
        line_contexts: fit_contexts(r.line_contexts, new_rows),
        cache: Seq::new(new_rows as nat, |i: int| None::<ContentType>),
        cursor: Cursor {
            row: if r.cursor.row >= new_rows { (new_rows - 1) as usize } else { r.cursor.row },
            col: if r.cursor.col >= new_cols { (new_cols - 1) as usize } else { r.cursor.col },
            ..r.cursor
        },
        view_offset: min_int(r.view_offset as int, r.scrollback.len() as int) as usize,
        ..r
    }
}

// ---------------------------------------------------------------- joining what was wrapped

/// The first `k` rows joined, without a cursor, starting from the state `st`.
pub open spec fn join_from(st: Joining, rows: Seq<Seq<Cell>>, wr: Seq<bool>, k: int, w: int) -> Joining
    decreases k,
{
    if k <= 0 {
        st
    } else {
        join_step(join_from(st, rows, wr, k - 1, w), rows[k - 1], wr[k - 1], false, 0, w)
    }
}

/// A joining with finished `lines`, nothing pending and no cursor seen.
pub open spec fn settled(lines: Seq<Seq<Cell>>) -> Joining {
    Joining { lines, current: Seq::empty(), count: 0, cursor: None }
}

/// Each line without its trailing blank cells.
pub open spec fn trimmed_lines(lines: Seq<Seq<Cell>>) -> Seq<Seq<Cell>> {
    Seq::new(lines.len(), |i: int| trim_blank_end(lines[i]))
}

/// Blank cells appended to a sequence are trimmed away again.
proof fn lemma_trim_blank_suffix(x: Seq<Cell>, y: Seq<Cell>)
    requires
        forall|j: int| 0 <= j < y.len() ==> blank_cell(#[trigger] y[j]),
    ensures
        trim_blank_end(x + y) == trim_blank_end(x),
    decreases y.len(),
{
    if y.len() > 0 {
        assert((x + y).last() == y.last());
        assert((x + y).drop_last() =~= x + y.drop_last());
        lemma_trim_blank_suffix(x, y.drop_last());
    } else {
        assert(x + y =~= x);
    }
}

/// Joining rows that a prefix `r` shares with `r + s` gives the same state.
proof fn lemma_join_prefix(r: Seq<Seq<Cell>>, f: Seq<bool>, s: Seq<Seq<Cell>>, g: Seq<bool>, k: int, w: int)
    requires
        r.len() == f.len(),
        0 <= k <= r.len(),
    ensures
        join_upto(r + s, f + g, k, -1, 0, w) == join_upto(r, f, k, -1, 0, w),
    decreases k,
{
    if k > 0 {
        lemma_join_prefix(r, f, s, g, k - 1, w);
        assert((r + s)[k - 1] == r[k - 1]);
        assert((f + g)[k - 1] == f[k - 1]);
    }
}

/// Joining `r + s` goes on from where joining `r` ended.
proof fn lemma_join_split(r: Seq<Seq<Cell>>, f: Seq<bool>, s: Seq<Seq<Cell>>, g: Seq<bool>, j: int, w: int)
    requires
        r.len() == f.len(),
        s.len() == g.len(),
        0 <= j <= s.len(),
    ensures
        join_upto(r + s, f + g, r.len() + j, -1, 0, w) == join_from(
            join_upto(r, f, r.len() as int, -1, 0, w),
            s,
            g,
            j,
            w,
        ),
    decreases j,
{
    if j == 0 {
        lemma_join_prefix(r, f, s, g, r.len() as int, w);
    } else {
        lemma_join_split(r, f, s, g, j - 1, w);
        assert((r + s)[r.len() + j - 1] == s[j - 1]);
        assert((f + g)[r.len() + j - 1] == g[j - 1]);
    }
}

/// Joining a first row and then the rest is joining the rest from the state after it.
proof fn lemma_join_first(st: Joining, x: Seq<Cell>, fx: bool, s: Seq<Seq<Cell>>, g: Seq<bool>, k: int, w: int)
    requires
        0 <= k <= s.len(),
        s.len() == g.len(),
    ensures
        join_from(st, seq![x] + s, seq![fx] + g, k + 1, w) == join_from(join_step(st, x, fx, false, 0, w), s, g, k, w),
    decreases k,
{
    let xs = seq![x] + s;
    let fs = seq![fx] + g;
    if k > 0 {
        lemma_join_first(st, x, fx, s, g, k - 1, w);
        assert(xs[k] == s[k - 1]);
        assert(fs[k] == g[k - 1]);
        assert(join_from(st, xs, fs, k + 1, w) == join_step(join_from(st, xs, fs, k, w), xs[k], fs[k], false, 0, w));
    } else {
        assert(xs[0] == x);
        assert(fs[0] == fx);
        assert(join_from(st, xs, fs, 0, w) == st);
    }
}

/// Joining the chunks of `line` from `start` on, with `p` pending, ends the line:
/// `p` and the rest of `line`, without trailing blanks.
proof fn lemma_join_chunks(lines: Seq<Seq<Cell>>, p: Seq<Cell>, c: nat, line: Seq<Cell>, start: int, w: int)
    requires
        w > 0,
        0 <= start < line.len(),
    ensures
        join_from(
            Joining { lines, current: p, count: c, cursor: None },
            chunks_from(line, start, w),
            chunk_flags_from(line, start, w),
            chunks_from(line, start, w).len() as int,
            w,
        ) == settled(lines.push(trim_blank_end(p + line.subrange(start, line.len() as int)))),
    decreases line.len() - start,
{
    let st = Joining { lines, current: p, count: c, cursor: None };
    let end = min_int(start + w, line.len() as int);
    let piece = line.subrange(start, end);
    let row0 = fit_row(piece, w);
    let rest = chunks_from(line, end, w);
    let rest_f = chunk_flags_from(line, end, w);
    lemma_chunks(line, end, w);
    assert(chunks_from(line, start, w) == seq![row0] + rest);
    assert(chunk_flags_from(line, start, w) == seq![end < line.len()] + rest_f);
    lemma_join_first(st, row0, end < line.len(), rest, rest_f, rest.len() as int, w);
    let next = join_step(st, row0, end < line.len(), false, 0, w);
    if end < line.len() {
        assert(row0 =~= piece);
        lemma_join_chunks(lines, p + piece, c + 1, line, end, w);
        assert(p + piece + line.subrange(end, line.len() as int) =~= p + line.subrange(start, line.len() as int));
    } else {
        let pad = Seq::new((w - piece.len()) as nat, |j: int| empty_cell());
        assert(row0 =~= piece + pad);
        assert(p + row0 =~= (p + piece) + pad);
        lemma_trim_blank_suffix(p + piece, pad);
        assert(rest.len() == 0);
        assert(next == settled(lines.push(trim_blank_end(p + piece))));
    }
}

/// Joining the rows one logical line takes gives that line back, trailing blanks trimmed.
proof fn lemma_join_line_rows(lines: Seq<Seq<Cell>>, line: Seq<Cell>, w: int)
    requires
        w > 0,
    ensures
        line_rows(line, w).len() == line_flags(line, w).len(),
        join_from(settled(lines), line_rows(line, w), line_flags(line, w), line_rows(line, w).len() as int, w)
            == settled(lines.push(trim_blank_end(line))),
{
    lemma_chunks(line, 0, w);
    if line.len() == 0 {
        let e = row_of(w, empty_cell());
        lemma_trim_blank_suffix(Seq::<Cell>::empty(), e);
        assert(Seq::<Cell>::empty() + e =~= e);
        assert(trim_blank_end(Seq::<Cell>::empty()) == Seq::<Cell>::empty());
        assert(line =~= Seq::<Cell>::empty());
        assert(line_rows(line, w) == seq![e]);
        assert(line_flags(line, w) == seq![false]);
        assert(join_from(settled(lines), seq![e], seq![false], 0, w) == settled(lines));
        assert(join_from(settled(lines), seq![e], seq![false], 1, w) == join_step(settled(lines), e, false, false, 0, w));
    } else {
        lemma_join_chunks(lines, Seq::empty(), 0, line, 0, w);
        assert(Seq::<Cell>::empty() + line.subrange(0, line.len() as int) =~= line);
        assert(settled(lines) == Joining { lines, current: Seq::<Cell>::empty(), count: 0nat, cursor: None::<(int, int)> });
    }
}

/// Joining the rows of the first `k` re-wrapped lines gives those lines back, trimmed.
pub proof fn lemma_join_wrapped(lines: Seq<Seq<Cell>>, k: int, cl: Option<(int, int)>, w: int)
    requires
        w > 0,
        0 <= k <= lines.len(),
    ensures
        wrap_upto(lines, k, cl, w).rows.len() == wrap_upto(lines, k, cl, w).flags.len(),
        join_upto(
            wrap_upto(lines, k, cl, w).rows,
            wrap_upto(lines, k, cl, w).flags,
            wrap_upto(lines, k, cl, w).rows.len() as int,
            -1,
            0,
            w,
        ) == settled(trimmed_lines(lines.take(k))),
    decreases k,
{
    if k == 0 {
        assert(trimmed_lines(lines.take(0)) =~= Seq::<Seq<Cell>>::empty());
    } else {
        lemma_join_wrapped(lines, k - 1, cl, w);
        let prev = wrap_upto(lines, k - 1, cl, w);
        let line = lines[k - 1];
        lemma_join_line_rows(trimmed_lines(lines.take(k - 1)), line, w);
        lemma_join_split(prev.rows, prev.flags, line_rows(line, w), line_flags(line, w), line_rows(line, w).len() as int, w);
        assert(trimmed_lines(lines.take(k - 1)).push(trim_blank_end(line)) =~= trimmed_lines(lines.take(k)));
    }
}

// ---------------------------------------------------------------- executable reflow

/// Appends the cells of `row` to `cur`.
fn extend_cells(cur: &mut Vec<Cell>, row: &Vec<Cell>)
    ensures
        final(cur)@ == old(cur)@ + row@,
{
    let mut j: usize = 0;
    while j < row.len()
        invariant
            j <= row@.len(),
            cur@ == old(cur)@ + row@.take(j as int),
        decreases row@.len() - j,
    {
        cur.push(row[j]);
        j += 1;
        assert(cur@ =~= old(cur)@ + row@.take(j as int));
    }
    assert(row@.take(j as int) =~= row@);
}

/// Drops the trailing blank cells of `cur`.
fn trim_blanks(cur: &mut Vec<Cell>)
    ensures
        final(cur)@ == trim_blank_end(old(cur)@),
{
    while cur.len() > 0 && cur[cur.len() - 1].character == ' ' && cur[cur.len() - 1].hyperlink.is_none()
        invariant
            trim_blank_end(cur@) == trim_blank_end(old(cur)@),
        decreases cur@.len(),
    {
        let ghost before = cur@;
        cur.pop();
        assert(cur@ =~= before.drop_last());
    }
}

/// The view of an optional (line, offset) pair.
pub open spec fn opt_pair(p: Option<(usize, usize)>) -> Option<(int, int)> {
    match p {
        Some((a, b)) => Some((a as int, b as int)),
        None => None,
    }
}

/// Joins rows into logical lines (see `logical_lines`).
fn join_rows(rows: &Vec<Vec<Cell>>, flags: &Vec<bool>, crow: usize, ccol: usize, w: usize) -> (r: (Vec<Vec<Cell>>, Option<(usize, usize)>))
    requires
        rows@.len() == flags@.len(),
        rows@.len() * w + ccol <= usize::MAX,
    ensures
        rows_of(r.0@) == logical_lines(rows_of(rows@), flags@, crow as int, ccol as int, w as int).0,
        opt_pair(r.1) == logical_lines(rows_of(rows@), flags@, crow as int, ccol as int, w as int).1,
{
    let ghost rs = rows_of(rows@);
    let mut lines: Vec<Vec<Cell>> = Vec::new();
    let mut current: Vec<Cell> = Vec::new();
    let mut count: usize = 0;
    let mut cursor: Option<(usize, usize)> = None;
    let mut i: usize = 0;
    while i < rows.len()
        invariant
            rs == rows_of(rows@),
            rows@.len() == flags@.len(),
            rows@.len() * w + ccol <= usize::MAX,
            i <= rows@.len(),
            count <= i,
            (Joining { lines: rows_of(lines@), current: current@, count: count as nat, cursor: opt_pair(cursor) })
                == join_upto(rs, flags@, i as int, crow as int, ccol as int, w as int),
        decreases rows@.len() - i,
    {
        let ghost st = join_upto(rs, flags@, i as int, crow as int, ccol as int, w as int);
        if i == crow {
            assert(count * w <= rows@.len() * w) by (nonlinear_arith)
                requires
                    count <= rows@.len(),
            ;
            cursor = Some((lines.len(), count * w + ccol));
        }
        extend_cells(&mut current, &rows[i]);
        if !flags[i] {
            trim_blanks(&mut current);
            let ghost l0 = lines@;
            lines.push(current);
            proof {
                lemma_rows_of_push(l0, current);
            }
            current = Vec::new();
            count = 0;
        } else {
            count += 1;
        }
        i += 1;
        assert((Joining { lines: rows_of(lines@), current: current@, count: count as nat, cursor: opt_pair(cursor) })
            =~= join_upto(rs, flags@, i as int, crow as int, ccol as int, w as int));
    }
    if current.len() > 0 || count > 0 {
        let ghost l0 = lines@;
        let ghost c0 = current;
        lines.push(current);
        proof {
            lemma_rows_of_push(l0, c0);
        }
    }
    (lines, cursor)
}

/// A row of `w` cells holding `line[a..b]` padded with empty cells.
fn chunk_row(line: &Vec<Cell>, a: usize, b: usize, w: usize) -> (r: Vec<Cell>)
    requires
        a <= b <= line@.len(),
    ensures
        r@ == fit_row(line@.subrange(a as int, b as int), w as int),
{
    let mut r: Vec<Cell> = Vec::new();
    let mut j: usize = 0;
    while j < w
        invariant
            a <= b <= line@.len(),
            j <= w,
            r@ == fit_row(line@.subrange(a as int, b as int), j as int),
        decreases w - j,
    {
        if j < b - a {
            r.push(line[a + j]);
        } else {
            r.push(Cell::empty());
        }
        j += 1;
        assert(r@ =~= fit_row(line@.subrange(a as int, b as int), j as int));
    }
    r
}

/// Appends the rows a logical line takes at width `w` and their wrap flags.
fn push_line_rows(out: &mut Vec<Vec<Cell>>, flags: &mut Vec<bool>, line: &Vec<Cell>, w: usize)
    requires
        w > 0,
    ensures
        rows_of(final(out)@) == rows_of(old(out)@) + line_rows(line@, w as int),
        final(flags)@ == old(flags)@ + line_flags(line@, w as int),
        final(out)@.len() > old(out)@.len(),
{
    if line.len() == 0 {
        let e = vec![Cell::empty(); w];
        assert(e@ =~= row_of(w as int, empty_cell()));
        let ghost o0 = out@;
        out.push(e);
        proof {
            lemma_rows_of_push(o0, e);
        }
        flags.push(false);
        assert(rows_of(out@) =~= rows_of(old(out)@) + line_rows(line@, w as int));
        assert(flags@ =~= old(flags)@ + line_flags(line@, w as int));
        return;
    }
    let mut start: usize = 0;
    while start < line.len()
        invariant
            w > 0,
            start <= line@.len(),
            rows_of(out@) + chunks_from(line@, start as int, w as int) == rows_of(old(out)@) + chunks_from(
                line@,
                0,
                w as int,
            ),
            flags@ + chunk_flags_from(line@, start as int, w as int) == old(flags)@ + chunk_flags_from(
                line@,
                0,
                w as int,
            ),
        decreases line@.len() - start,
    {
        let end = if line.len() - start > w { start + w } else { line.len() };
        let row = chunk_row(line, start, end, w);
        let ghost o0 = out@;
        let ghost f0 = flags@;
        out.push(row);
        proof {
            lemma_rows_of_push(o0, row);
        }
        flags.push(end < line.len());
        assert(rows_of(out@) + chunks_from(line@, end as int, w as int) =~= rows_of(o0) + chunks_from(
            line@,
            start as int,
            w as int,
        ));
        assert(flags@ + chunk_flags_from(line@, end as int, w as int) =~= f0 + chunk_flags_from(
            line@,
            start as int,
            w as int,
        ));
        start = end;
    }
    assert(rows_of(out@) + Seq::<Seq<Cell>>::empty() =~= rows_of(out@));
    assert(flags@ + Seq::<bool>::empty() =~= flags@);
    assert(chunks_from(line@, 0, w as int).len() >= 1);
}

/// Re-wraps logical lines at width `w` (see `wrap_upto`).
fn wrap_lines(lines: &Vec<Vec<Cell>>, cl: Option<(usize, usize)>, w: usize) -> (r: (Vec<Vec<Cell>>, Vec<bool>, Option<(usize, usize)>))
    requires
        w > 0,
    ensures
        ({
            let st = wrap_upto(rows_of(lines@), lines@.len() as int, opt_pair(cl), w as int);
            rows_of(r.0@) == st.rows && r.1@ == st.flags && opt_pair(r.2) == st.cursor
        }),
{
    let ghost ls = rows_of(lines@);
    let mut out: Vec<Vec<Cell>> = Vec::new();
    let mut flags: Vec<bool> = Vec::new();
    let mut cursor: Option<(usize, usize)> = None;
    let mut li: usize = 0;
    while li < lines.len()
        invariant
            w > 0,
            ls == rows_of(lines@),
            li <= lines@.len(),
            (Wrapping { rows: rows_of(out@), flags: flags@, cursor: opt_pair(cursor) }) == wrap_upto(
                ls,
                li as int,
                opt_pair(cl),
                w as int,
            ),
        decreases lines@.len() - li,
    {
        let first = out.len();
        push_line_rows(&mut out, &mut flags, &lines[li], w);
        match cl {
            Some((l, off)) => {
                if l == li {
                    let r0 = first.saturating_add(off / w);
                    let last = out.len() - 1;
                    let r = if r0 < last { r0 } else { last };
                    cursor = Some((r, off % w));
                }
            },
            None => {},
        }
        li += 1;
        assert((Wrapping { rows: rows_of(out@), flags: flags@, cursor: opt_pair(cursor) }) =~= wrap_upto(
            ls,
            li as int,
            opt_pair(cl),
            w as int,
        ));
    }
    (out, flags, cursor)
}

/// Whether every cell of `row` is blank.
fn row_is_blank(row: &Vec<Cell>) -> (r: bool)
    ensures
        r == blank_row(row@),
{
    let mut j: usize = 0;
    while j < row.len()
        invariant
            j <= row@.len(),
            forall|k: int| 0 <= k < j ==> blank_cell(#[trigger] row@[k]),
        decreases row@.len() - j,
    {
        if !(row[j].character == ' ' && row[j].hyperlink.is_none()) {
            assert(!blank_cell(row@[j as int]));
            return false;
        }
        j += 1;
    }
    true
}

/// Rows left once blank rows at the end are dropped, keeping at least `keep` (see
/// `kept_rows`).
fn count_kept(rows: &Vec<Vec<Cell>>, keep: usize) -> (n: usize)
    ensures
        n == kept_rows(rows_of(rows@), rows@.len() as int, keep as int),
        n <= rows@.len(),
{
    let mut n = rows.len();
    while n > keep && n > 0 && row_is_blank(&rows[n - 1])
        invariant
            n <= rows@.len(),
            kept_rows(rows_of(rows@), n as int, keep as int) == kept_rows(
                rows_of(rows@),
                rows@.len() as int,
                keep as int,
            ),
        decreases n,
    {
        n -= 1;
    }
    n
}

// ---------------------------------------------------------------- facts about re-wrapping

/// Chunk rows are `w` wide and as many as their flags.
proof fn lemma_chunks(line: Seq<Cell>, start: int, w: int)
    requires
        w > 0,
        0 <= start,
    ensures
        chunks_from(line, start, w).len() == chunk_flags_from(line, start, w).len(),
        forall|i: int| 0 <= i < chunks_from(line, start, w).len() ==> (#[trigger] chunks_from(line, start, w)[i]).len() == w,
    decreases line.len() - start,
{
    if start < line.len() {
        let end = min_int(start + w, line.len() as int);
        lemma_chunks(line, end, w);
        let rest = chunks_from(line, end, w);
        let all = chunks_from(line, start, w);
        assert forall|i: int| 0 <= i < all.len() implies (#[trigger] all[i]).len() == w by {
            if i > 0 {
                assert(all[i] == rest[i - 1]);
            }
        }
    }
}

/// Re-wrapped rows are `w` wide, one flag each; the cursor, once placed, is on a row.
pub(crate) proof fn lemma_wrap(lines: Seq<Seq<Cell>>, k: int, cl: Option<(int, int)>, w: int)
    requires
        w > 0,
        0 <= k <= lines.len(),
        cl matches Some((l, off)) ==> off >= 0,
    ensures
        wrap_upto(lines, k, cl, w).rows.len() == wrap_upto(lines, k, cl, w).flags.len(),
        forall|i: int| 0 <= i < wrap_upto(lines, k, cl, w).rows.len() ==> (#[trigger] wrap_upto(lines, k, cl, w).rows[i]).len() == w,
        wrap_upto(lines, k, cl, w).cursor matches Some((r, c)) ==> 0 <= r < wrap_upto(lines, k, cl, w).rows.len()
            && 0 <= c,
    decreases k,
{
    if k > 0 {
        lemma_wrap(lines, k - 1, cl, w);
        let prev = wrap_upto(lines, k - 1, cl, w);
        let line = lines[k - 1];
        let cur = wrap_upto(lines, k, cl, w);
        lemma_chunks(line, 0, w);
        let lr = line_rows(line, w);
        if line.len() > 0 {
            assert(lr.len() >= 1);
        }
        assert forall|i: int| 0 <= i < cur.rows.len() implies (#[trigger] cur.rows[i]).len() == w by {
            if i >= prev.rows.len() {
                assert(cur.rows[i] == lr[i - prev.rows.len()]);
            } else {
                assert(cur.rows[i] == prev.rows[i]);
            }
        }
    }
}

/// Dropping blank rows at the end keeps between `min(keep, n)` and `n` rows.
pub(crate) proof fn lemma_kept(rows: Seq<Seq<Cell>>, n: int, keep: int)
    requires
        0 <= n,
    ensures
        0 <= kept_rows(rows, n, keep) <= n,
        kept_rows(rows, n, keep) >= min_int(keep, n),
    decreases n,
{
    if n > keep && n > 0 && blank_row(rows[n - 1]) {
        lemma_kept(rows, n - 1, keep);
    }
}

/// The rows that dropping blank rows at the end leaves out are all blank.
pub proof fn lemma_kept_tail(rows: Seq<Seq<Cell>>, n: int, keep: int)
    requires
        0 <= n <= rows.len(),
    ensures
        forall|j: int| kept_rows(rows, n, keep) <= j < n ==> blank_row(#[trigger] rows[j]),
    decreases n,
{
    if n > keep && n > 0 && blank_row(rows[n - 1]) {
        lemma_kept_tail(rows, n - 1, keep);
    }
}

/// Everything the grid needs from a reflow: widths, lengths and the cursor.
proof fn lemma_reflowed(m: ScreenModel, new_rows: int, new_cols: int)
    requires
        model_wf(m),
        1 <= new_rows <= usize::MAX / 4,
        1 <= new_cols <= usize::MAX / 4,
    ensures
        reflowed(m, new_rows, new_cols).grid.len() == new_rows,
        forall|i: int| 0 <= i < new_rows ==> (#[trigger] reflowed(m, new_rows, new_cols).grid[i]).len() == new_cols,
        reflowed(m, new_rows, new_cols).wrapped.len() == new_rows,
        reflowed(m, new_rows, new_cols).sb_wrapped.len() == reflowed(m, new_rows, new_cols).scrollback.len(),
        reflowed(m, new_rows, new_cols).cursor.row < new_rows,
        reflowed(m, new_rows, new_cols).cursor.col <= usize::MAX / 2,
{
    let all = m.scrollback + m.grid;
    let flags = m.sb_wrapped + m.wrapped;
    let crow = m.scrollback.len() + m.cursor.row;
    let (lines, cl) = logical_lines(all, flags, crow, m.cursor.col as int, m.cols as int);
    lemma_join_cursor(all, flags, all.len() as int, crow, m.cursor.col as int, m.cols as int);
    lemma_wrap(lines, lines.len() as int, cl, new_cols);
    let wr = rewrapped(m, new_cols);
    let keep = match wr.cursor {
        Some((r, c)) => r + 1,
        None => 1,
    };
    lemma_kept(wr.rows, wr.rows.len() as int, keep);
    let n = kept_rows(wr.rows, wr.rows.len() as int, keep);
    let g = grid_rows(wr.rows, grid_start(n, new_rows, wr.cursor), n, new_rows, new_cols);
    assert forall|i: int| 0 <= i < new_rows implies (#[trigger] g[i]).len() == new_cols by {
        let gs = grid_start(n, new_rows, wr.cursor);
        if gs + i < n {
            assert(g[i] == wr.rows[gs + i]);
        }
    }
}

/// The cursor offset recorded while joining is never negative.
pub(crate) proof fn lemma_join_cursor(rows: Seq<Seq<Cell>>, wr: Seq<bool>, k: int, crow: int, ccol: int, w: int)
    requires
        ccol >= 0,
        w >= 0,
    ensures
        join_upto(rows, wr, k, crow, ccol, w).cursor matches Some((l, off)) ==> off >= 0,
    decreases k,
{
    if k > 0 {
        lemma_join_cursor(rows, wr, k - 1, crow, ccol, w);
        let st = join_upto(rows, wr, k - 1, crow, ccol, w);
        assert(st.count * w >= 0) by (nonlinear_arith)
            requires
                w >= 0,
        ;
    }
}

/// `n` empty rows of `w` cells.
fn empty_rows_to(rows: &mut Vec<Vec<Cell>>, flags: &mut Vec<bool>, n: usize, w: usize)
    ensures
        final(rows)@.len() == if old(rows)@.len() >= n { old(rows)@.len() } else { n as nat },
        rows_of(final(rows)@) == rows_of(old(rows)@) + Seq::new(
            (final(rows)@.len() - old(rows)@.len()) as nat,
            |i: int| row_of(w as int, empty_cell()),
        ),
        final(flags)@ == old(flags)@ + Seq::new((final(rows)@.len() - old(rows)@.len()) as nat, |i: int| false),
{
    let ghost r0 = rows_of(rows@);
    let ghost f0 = flags@;
    let ghost l0 = rows@.len();
    while rows.len() < n
        invariant
            rows@.len() >= l0,
            l0 >= n ==> rows@.len() == l0,
            l0 < n ==> rows@.len() <= n,
            rows_of(rows@) == r0 + Seq::new((rows@.len() - l0) as nat, |i: int| row_of(w as int, empty_cell())),
            flags@ == f0 + Seq::new((rows@.len() - l0) as nat, |i: int| false),
        decreases n - rows@.len(),
    {
        let e = vec![Cell::empty(); w];
        assert(e@ =~= row_of(w as int, empty_cell()));
        let ghost before = rows@;
        rows.push(e);
        proof {
            lemma_rows_of_push(before, e);
        }
        flags.push(false);
        assert(rows_of(rows@) =~= r0 + Seq::new((rows@.len() - l0) as nat, |i: int| row_of(w as int, empty_cell())));
        assert(flags@ =~= f0 + Seq::new((rows@.len() - l0) as nat, |i: int| false));
    }
}

/// Re-wrapped rows of all lines, their flags, the cursor, the rows kept and the
/// grid's first row (see `rewrapped`, `kept_of`, `grid_start`).
fn layout(all: &Vec<Vec<Cell>>, flags: &Vec<bool>, crow: usize, ccol: usize, w: usize, new_rows: usize, new_cols: usize, Ghost(m): Ghost<ScreenModel>) -> (r: (Vec<Vec<Cell>>, Vec<bool>, Option<(usize, usize)>, usize, usize))
    requires
        rows_of(all@) == m.scrollback + m.grid,
        flags@ == m.sb_wrapped + m.wrapped,
        all@.len() == flags@.len(),
        crow == m.scrollback.len() + m.cursor.row,
        ccol == m.cursor.col,
        w == m.cols,
        all@.len() * w + ccol <= usize::MAX,
        new_cols >= 1,
    ensures
        rows_of(r.0@) == rewrapped(m, new_cols as int).rows,
        r.1@ == rewrapped(m, new_cols as int).flags,
        opt_pair(r.2) == rewrapped(m, new_cols as int).cursor,
        r.3 == kept_of(rewrapped(m, new_cols as int)),
        r.4 == grid_start(r.3 as int, new_rows as int, rewrapped(m, new_cols as int).cursor),
        r.4 <= r.3 <= r.0@.len(),
        r.0@.len() == r.1@.len(),
{
    let (lines, cl) = join_rows(all, flags, crow, ccol, w);
    proof {
        lemma_join_cursor(rows_of(all@), flags@, all@.len() as int, crow as int, ccol as int, w as int);
    }
    let (rows, rflags, cur) = wrap_lines(&lines, cl, new_cols);
    proof {
        lemma_wrap(rows_of(lines@), lines@.len() as int, opt_pair(cl), new_cols as int);
        assert(rows_of(rows@).len() == rows@.len());
    }
    let total = rows.len();
    let keep = match cur {
        Some((r, _)) => {
            assert(opt_pair(cur) matches Some((rr, _)) && rr == r);
            assert(r < total);
            r + 1
        },
        None => 1,
    };
    let n = count_kept(&rows, keep);
    let g0n = if n > new_rows { n - new_rows } else { 0 };
    let gs = match cur {
        Some((r, _)) => if r < g0n { r } else { g0n },
        None => g0n,
    };
    (rows, rflags, cur, n, gs)
}

/// The rows `gs..n` as a grid of `new_rows` (padded with empty rows), and the rows
/// before `gs`, with their flags.
fn split_rows(rows: Vec<Vec<Cell>>, flags: Vec<bool>, n: usize, gs: usize, new_rows: usize, new_cols: usize) -> (r: (Vec<Vec<Cell>>, Vec<bool>, Vec<Vec<Cell>>, Vec<bool>))
    requires
        gs <= n <= rows@.len(),
        rows@.len() == flags@.len(),
    ensures
        rows_of(r.0@) == rows_of(rows@).subrange(0, gs as int),
        r.1@ == flags@.subrange(0, gs as int),
        rows_of(r.2@) == grid_rows(rows_of(rows@), gs as int, n as int, new_rows as int, new_cols as int),
        r.3@ == grid_flags(flags@, gs as int, n as int, new_rows as int),
{
    let ghost wr_rows = rows_of(rows@);
    let ghost wr_flags = flags@;
    let mut sb = rows;
    sb.truncate(n);
    let mut grid = sb.split_off(gs);
    assert(rows_of(grid@) =~= wr_rows.subrange(gs as int, n as int));
    assert(rows_of(sb@) =~= wr_rows.subrange(0, gs as int));
    let mut sbw = flags;
    sbw.truncate(n);
    let mut grid_w = sbw.split_off(gs);
    assert(grid_w@ =~= wr_flags.subrange(gs as int, n as int));
    assert(sbw@ =~= wr_flags.subrange(0, gs as int));
    empty_rows_to(&mut grid, &mut grid_w, new_rows, new_cols);
    let ghost padded = rows_of(grid@);
    grid.truncate(new_rows);
    grid_w.truncate(new_rows);
    assert(rows_of(grid@) =~= padded.take(new_rows as int));
    assert(rows_of(grid@) =~= grid_rows(wr_rows, gs as int, n as int, new_rows as int, new_cols as int));
    assert(grid_w@ =~= grid_flags(wr_flags, gs as int, n as int, new_rows as int));
    (sb, sbw, grid, grid_w)
}

/// The first `n` contexts, new rows `Normal` (see `fit_contexts`).
fn fitted_contexts(c: &Vec<LineContext>, n: usize) -> (r: Vec<LineContext>)
    ensures
        r@ == fit_contexts(c@, n as int),
{
    let mut r: Vec<LineContext> = Vec::new();
    let mut i: usize = 0;
    while i < n
        invariant
            i <= n,
            r@ == fit_contexts(c@, i as int),
        decreases n - i,
    {
        if i < c.len() {
            r.push(c[i]);
        } else {
            r.push(LineContext::Normal);
        }
        i += 1;
        assert(r@ =~= fit_contexts(c@, i as int));
    }
    r
}

impl Screen {
    /// Re-wraps scrollback and grid at a new width (see `reflowed`).
    #[verifier::rlimit(80)]
    fn reflow(&mut self, new_rows: usize, new_cols: usize)
        requires
            old(self).wf(),
            1 <= new_rows <= usize::MAX / 4,
            1 <= new_cols <= usize::MAX / 4,
            (old(self).model().scrollback.len() + old(self).model().rows) * old(self).model().cols
                + old(self).model().cursor.col <= usize::MAX,
        ensures
            final(self).model() == reflowed(old(self).model(), new_rows as int, new_cols as int),
    {
        let ghost m = self.model();
        assert(m.scrollback.len() + m.rows <= (m.scrollback.len() + m.rows) * m.cols) by (nonlinear_arith)
            requires
                m.cols >= 1,
        ;
        let crow = self.scrollback.len() + self.cursor.row;
        let ccol = self.cursor.col;
        let w = self.cols;
        let mut all: Vec<Vec<Cell>> = Vec::new();
        std::mem::swap(&mut all, &mut self.scrollback);
        let mut g: Vec<Vec<Cell>> = Vec::new();
        std::mem::swap(&mut g, &mut self.grid);
        let ghost all0 = all@;
        let ghost g0 = g@;
        all.append(&mut g);
        assert(rows_of(all@) =~= m.scrollback + m.grid) by {
            assert(all@ == all0 + g0);
        }
        let mut flags: Vec<bool> = Vec::new();
        std::mem::swap(&mut flags, &mut self.scrollback_wrapped);
        let mut gw: Vec<bool> = Vec::new();
        std::mem::swap(&mut gw, &mut self.grid_wrapped);
        flags.append(&mut gw);
        assert(flags@ =~= m.sb_wrapped + m.wrapped);
        let (rows, rflags, cur, n, gs) = layout(&all, &flags, crow, ccol, w, new_rows, new_cols, Ghost(m));
        let ghost wr_rows = rows_of(rows@);
        let ghost wr_flags = rflags@;
        let (mut sb, mut sbw, grid, grid_w) = split_rows(rows, rflags, n, gs, new_rows, new_cols);
        let drop = if sb.len() > self.max_scrollback { sb.len() - self.max_scrollback } else { 0 };
        let kept = sb.split_off(drop);
        let kept_w = sbw.split_off(drop);
        assert(rows_of(kept@) =~= wr_rows.subrange(0, gs as int).skip(drop as int));
        assert(kept_w@ =~= wr_flags.subrange(0, gs as int).skip(drop as int));
        self.scrollback = kept;
        self.scrollback_wrapped = kept_w;
        self.lines_scrolled_off = self.lines_scrolled_off.saturating_add(drop);
        self.grid = grid;
        self.grid_wrapped = grid_w;
        match cur {
            Some((r, c)) => {
                let rr = if r >= gs { r - gs } else { 0 };
                self.cursor.row = if rr < new_rows - 1 { rr } else { new_rows - 1 };
                self.cursor.col = if c < new_cols - 1 { c } else { new_cols - 1 };
            },
            None => {
                self.cursor.row = if self.cursor.row < new_rows - 1 { self.cursor.row } else { new_rows - 1 };
                self.cursor.col = if self.cursor.col < new_cols - 1 { self.cursor.col } else { new_cols - 1 };
            },
        }
        self.prompt_marks = Vec::new();
        self.view_offset = 0;
        assert(self.model() =~= reflowed(m, new_rows as int, new_cols as int));
    }

    /// Resizes without reflow (see `resized_simple`).
    fn resize_simple(&mut self, new_rows: usize, new_cols: usize)
        requires
            old(self).wf(),
        ensures
            final(self).model() == resized_simple(old(self).model(), new_rows as int, new_cols as int),
            forall|i: int| 0 <= i < new_rows ==> (#[trigger] final(self).model().grid[i]).len() == new_cols,
    {
        let ghost m = self.model();
        let extra = if self.grid.len() > new_rows { self.grid.len() - new_rows } else { 0 };
        let mut k: usize = 0;
        while k < extra
            invariant
                k <= extra,
                extra <= m.grid.len(),
                m.grid.len() == m.wrapped.len(),
                m.grid.len() == m.rows,
                self.model() == (ScreenModel {
                    grid: m.grid.skip(k as int),
                    wrapped: m.wrapped.skip(k as int),
                    scrollback: if m.alt is None { m.scrollback + m.grid.take(k as int) } else { m.scrollback },
                    sb_wrapped: if m.alt is None { m.sb_wrapped + m.wrapped.take(k as int) } else { m.sb_wrapped },
                    ..m
                }),
            decreases extra - k,
        {
            let ghost before = self.grid@;
            assert(rows_of(before).len() == before.len());
            assert(rows_of(before) == m.grid.skip(k as int));
            let line = self.grid.remove(0);
            assert(rows_of(self.grid@) =~= rows_of(before).skip(1));
            assert(rows_of(self.grid@) =~= m.grid.skip(k + 1));
            assert(line@ == rows_of(before)[0]);
            assert(rows_of(before)[0] == m.grid.skip(k as int)[0]);
            assert(line@ == m.grid[k as int]);
            let wrapped = self.grid_wrapped.remove(0);
            if self.alt_screen.is_none() {
                let ghost sb0 = self.scrollback@;
                self.scrollback.push(line);
                proof {
                    lemma_rows_of_push(sb0, line);
                    assert(m.grid.take(k + 1) =~= m.grid.take(k as int).push(line@));
                    assert(m.wrapped.take(k + 1) =~= m.wrapped.take(k as int).push(wrapped));
                }
                self.scrollback_wrapped.push(wrapped);
            }
            k += 1;
            assert(self.model() =~= ScreenModel {
                grid: m.grid.skip(k as int),
                wrapped: m.wrapped.skip(k as int),
                scrollback: if m.alt is None { m.scrollback + m.grid.take(k as int) } else { m.scrollback },
                sb_wrapped: if m.alt is None { m.sb_wrapped + m.wrapped.take(k as int) } else { m.sb_wrapped },
                ..m
            });
        }
        let ghost kept = m.grid.skip(extra as int);
        let ghost kept_w = m.wrapped.skip(extra as int);
        let mut grid: Vec<Vec<Cell>> = Vec::new();
        let mut i: usize = 0;
        while i < new_rows
            invariant
                i <= new_rows,
                rows_of(self.grid@) == kept,
                rows_of(grid@) == Seq::new(
                    i as nat,
                    |j: int| if j < kept.len() { fit_row(kept[j], new_cols as int) } else { row_of(new_cols as int, empty_cell()) },
                ),
            decreases new_rows - i,
        {
            let ghost g0 = grid@;
            let row = if i < self.grid.len() {
                fitted_row(&self.grid[i], new_cols)
            } else {
                let e = vec![Cell::empty(); new_cols];
                assert(e@ =~= row_of(new_cols as int, empty_cell()));
                e
            };
            grid.push(row);
            proof {
                lemma_rows_of_push(g0, row);
            }
            i += 1;
            assert(rows_of(grid@) =~= Seq::new(
                i as nat,
                |j: int| if j < kept.len() { fit_row(kept[j], new_cols as int) } else { row_of(new_cols as int, empty_cell()) },
            ));
        }
        let flags = fitted_flags(&self.grid_wrapped, new_rows);
        self.grid = grid;
        self.grid_wrapped = flags;
        assert(fit_flags(kept_w, new_rows as int) =~= Seq::new(new_rows as nat, |i: int| if i < kept_w.len() { kept_w[i] } else { false }));
        assert(self.model() =~= resized_simple(m, new_rows as int, new_cols as int));
    }

    /// Resizes the screen; the width changing on the main screen reflows the text.
    pub fn resize(&mut self, new_rows: usize, new_cols: usize)
        requires
            old(self).wf(),
            new_rows <= usize::MAX / 4,
            new_cols <= usize::MAX / 4,
            (old(self).model().scrollback.len() + old(self).model().rows) * old(self).model().cols
                + old(self).model().cursor.col <= usize::MAX,
        ensures
            final(self).wf(),
            final(self).model() == resized(old(self).model(), new_rows as int, new_cols as int),
    {
        if new_rows == 0 || new_cols == 0 || (new_rows == self.rows && new_cols == self.cols) {
            return;
        }
        self.mark_dirty();
        let ghost d = self.model();
        if new_cols != self.cols && self.alt_screen.is_none() {
            self.reflow(new_rows, new_cols);
            proof {
                lemma_reflowed(d, new_rows as int, new_cols as int);
            }
        } else {
            self.resize_simple(new_rows, new_cols);
        }
        self.finish_resize(new_rows, new_cols);
    }

    /// The end of a resize (see `resize_finished`).
    fn finish_resize(&mut self, new_rows: usize, new_cols: usize)
        requires
            1 <= new_rows <= usize::MAX / 4,
            1 <= new_cols <= usize::MAX / 4,
            old(self).model().grid.len() == new_rows,
            forall|i: int| 0 <= i < new_rows ==> (#[trigger] old(self).model().grid[i]).len() == new_cols,
            old(self).model().wrapped.len() == new_rows,
            old(self).model().sb_wrapped.len() == old(self).model().scrollback.len(),
            old(self).model().cursor.col <= usize::MAX / 2,
            old(self).model().hyperlinks.len() <= 65535,
            forall|i: int| 0 <= i < old(self).model().prompt_marks.len() ==> old(self).model().scrolled_off
                <= #[trigger] old(self).model().prompt_marks[i],
        ensures
            final(self).wf(),
            final(self).model() == resize_finished(old(self).model(), new_rows as int, new_cols as int),
    {
        self.rows = new_rows;
        self.cols = new_cols;
        self.scroll_top = 0;
        self.scroll_bottom = new_rows - 1;
        let contexts = fitted_contexts(&self.line_contexts, new_rows);
        self.line_contexts = contexts;
        self.content_type_cache = vec![None; new_rows];
        if self.cursor.row >= new_rows {
            self.cursor.row = new_rows - 1;
        }
        if self.cursor.col >= new_cols {
            self.cursor.col = new_cols - 1;
        }
        self.view_offset = if self.view_offset < self.scrollback.len() { self.view_offset } else { self.scrollback.len() };
        assert(self.content_type_cache@ =~= Seq::new(new_rows as nat, |i: int| None::<ContentType>));
        assert(self.model() =~= resize_finished(old(self).model(), new_rows as int, new_cols as int));
    }
}

} // verus!
