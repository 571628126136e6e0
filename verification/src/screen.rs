//! The terminal screen buffer: grid, scrollback, cursor and terminal modes.

use vstd::prelude::*;
use crate::attributes::{default_attrs, CellAttributes};
use crate::cell::{empty_cell, mk_cell, Cell};
use crate::context::LineContext;
use crate::cursor::{min_int, Cursor};
use crate::detector::ContentType;
use crate::history::CommandHistory;
use crate::seqs::first_where;

pub mod view;
pub mod scroll;
pub mod write;
pub mod erase;
pub mod modes;
pub mod suggest;
pub mod selection;
pub mod ansi;
pub mod resize;

verus! {

/// Main-screen state kept aside while the alternate screen is shown.
struct MainScreenState {
    grid: Vec<Vec<Cell>>,
    grid_wrapped: Vec<bool>,
    cursor: Cursor,
    attrs: CellAttributes,
}

/// Cursor saved by DECSC / `CSI s`.
#[derive(Clone, Copy)]
struct SavedCursor {
    row: usize,
    col: usize,
    attrs: CellAttributes,
}

/// Mouse tracking requested by the application (DECSET 9/1000/1002/1003).
#[derive(Debug, Clone, Copy, PartialEq, Eq, Structural, Default)]
pub enum MouseMode {
    #[default]
    Off,
    /// Mode 9: presses only.
    X10,
    /// Mode 1000: presses and releases.
    Normal,
    /// Mode 1002: presses, releases and drags.
    ButtonEvent,
    /// Mode 1003: all motion.
    AnyEvent,
}

/// A text selection, from `start` to `end` as (row, column).
#[derive(Debug, Clone, Copy, PartialEq)]
pub struct Selection {
    pub start: (usize, usize),
    pub end: (usize, usize),
}

/// The terminal screen buffer.
pub struct Screen {
    pub rows: usize,
    pub cols: usize,
    /// Visible grid, `rows` rows of `cols` cells.
    pub grid: Vec<Vec<Cell>>,
    /// Per grid row: the row continues on the next one (soft wrap).
    grid_wrapped: Vec<bool>,
    /// Lines scrolled off the top, oldest first, with their wrap flags.
    scrollback: Vec<Vec<Cell>>,
    scrollback_wrapped: Vec<bool>,
    /// Lines dropped from the scrollback so far (keeps absolute line numbers stable).
    lines_scrolled_off: usize,
    /// How far the view is scrolled back into the scrollback (0 = live).
    view_offset: usize,
    pub cursor: Cursor,
    /// Attributes for the next characters written.
    pub current_attrs: CellAttributes,
    max_scrollback: usize,
    /// Semantic context per visible line.
    pub line_contexts: Vec<LineContext>,
    /// Detected content type per visible line (`None` = not analysed yet).
    pub content_type_cache: Vec<Option<ContentType>>,
    /// Scrolling region (DECSTBM), first and last row inclusive.
    scroll_top: usize,
    scroll_bottom: usize,
    alt_screen: Option<MainScreenState>,
    saved_cursor: Option<SavedCursor>,
    /// Last printable character written (for REP).
    last_char: Option<char>,
    /// Bracketed paste (DECSET 2004).
    pub bracketed_paste: bool,
    /// Auto-wrap (DECAWM).
    pub autowrap: bool,
    pub mouse_mode: MouseMode,
    /// SGR mouse encoding (DECSET 1006).
    pub mouse_sgr: bool,
    pending_title: Option<String>,
    /// URIs of OSC 8 hyperlinks; cells refer to them by index.
    hyperlinks: Vec<String>,
    current_hyperlink: Option<u16>,
    /// OSC 133;A prompt starts, as absolute line numbers.
    prompt_marks: Vec<usize>,
    suggestion_mode: bool,
    suggestion_start_col: usize,
    command_history: CommandHistory,
    current_command: String,
    command_start_col: usize,
    active_suggestion: Option<String>,
    dirty: bool,
    selection: Option<Selection>,
}

/// Abstract main-screen state saved by the alternate screen.
pub struct MainModel {
    pub grid: Seq<Seq<Cell>>,
    pub wrapped: Seq<bool>,
    pub cursor: Cursor,
    pub attrs: CellAttributes,
}

/// Abstract state of a `Screen`: every field, with collections as sequences.
#[verifier::ext_equal]
pub struct ScreenModel {
    pub rows: usize,
    pub cols: usize,
    pub grid: Seq<Seq<Cell>>,
    pub wrapped: Seq<bool>,
    pub scrollback: Seq<Seq<Cell>>,
    pub sb_wrapped: Seq<bool>,
    pub scrolled_off: usize,
    pub view_offset: usize,
    pub cursor: Cursor,
    pub attrs: CellAttributes,
    pub max_scrollback: usize,
    pub line_contexts: Seq<LineContext>,
    pub cache: Seq<Option<ContentType>>,
    pub scroll_top: usize,
    pub scroll_bottom: usize,
    pub alt: Option<MainModel>,
    pub saved: Option<(usize, usize, CellAttributes)>,
    pub last_char: Option<char>,
    pub bracketed_paste: bool,
    pub autowrap: bool,
    pub mouse_mode: MouseMode,
    pub mouse_sgr: bool,
    pub title: Option<Seq<char>>,
    pub hyperlinks: Seq<Seq<char>>,
    pub current_hyperlink: Option<u16>,
    pub prompt_marks: Seq<usize>,
    pub suggestion_mode: bool,
    pub suggestion_start: usize,
    pub history: Seq<Seq<char>>,
    pub history_cap: nat,
    pub command: Seq<char>,
    pub command_start: usize,
    pub active_suggestion: Option<Seq<char>>,
    pub dirty: bool,
    pub selection: Option<Selection>,
}

/// Rows of a grid as sequences of cells.
pub open spec fn rows_of(g: Seq<Vec<Cell>>) -> Seq<Seq<Cell>> {
    g.map_values(|r: Vec<Cell>| r@)
}

/// Pushing a row pushes its cells.
pub proof fn lemma_rows_of_push(g: Seq<Vec<Cell>>, x: Vec<Cell>)
    ensures
        rows_of(g.push(x)) == rows_of(g).push(x@),
{
    assert(rows_of(g.push(x)) =~= rows_of(g).push(x@));
}

/// The structural invariant every screen keeps.
pub open spec fn model_wf(m: ScreenModel) -> bool {
    &&& 1 <= m.rows <= usize::MAX / 4
    &&& 1 <= m.cols <= usize::MAX / 4
    &&& m.grid.len() == m.rows
    &&& forall|i: int| 0 <= i < m.rows ==> (#[trigger] m.grid[i]).len() == m.cols
    &&& m.wrapped.len() == m.rows
    &&& m.sb_wrapped.len() == m.scrollback.len()
    &&& m.line_contexts.len() == m.rows
    &&& m.cache.len() == m.rows
    &&& m.scroll_top <= m.scroll_bottom < m.rows
    &&& m.cursor.row < m.rows
    &&& m.cursor.col <= usize::MAX / 2
    &&& m.view_offset <= m.scrollback.len()
    &&& m.hyperlinks.len() <= 65535
    &&& forall|i: int| 0 <= i < m.prompt_marks.len() ==> m.scrolled_off <= #[trigger] m.prompt_marks[i]
}

/// `a + b`, capped at `usize::MAX`.
pub open spec fn sat_add(a: int, b: int) -> int {
    if a + b > usize::MAX { usize::MAX as int } else { a + b }
}

/// The screen marked as needing a redraw.
pub open spec fn dirtied(m: ScreenModel) -> ScreenModel {
    ScreenModel { dirty: true, ..m }
}

/// Every line's content-type cache entry cleared.
pub open spec fn invalidated_all(m: ScreenModel) -> ScreenModel {
    ScreenModel { cache: Seq::new(m.cache.len(), |i: int| None::<ContentType>), ..m }
}

/// One line's content-type cache entry cleared.
pub open spec fn invalidated_line(m: ScreenModel, row: int) -> ScreenModel {
    if 0 <= row < m.cache.len() {
        ScreenModel { cache: m.cache.update(row, None), ..m }
    } else {
        m
    }
}

/// Attributes of a blank: default style, current background (background colour erase).
pub open spec fn blank_attrs(m: ScreenModel) -> CellAttributes {
    CellAttributes { bg_color: m.attrs.bg_color, ..default_attrs() }
}

/// The blank cell erasing operations write.
pub open spec fn blank_of(m: ScreenModel) -> Cell {
    mk_cell(' ', blank_attrs(m), false)
}

/// A row of `n` copies of `c`.
pub open spec fn row_of(n: int, c: Cell) -> Seq<Cell> {
    Seq::new(n as nat, |i: int| c)
}

/// A blank row of the screen's width.
pub open spec fn blank_row(m: ScreenModel) -> Seq<Cell> {
    row_of(m.cols as int, blank_of(m))
}

/// The line shown at screen row `row`, given how far the view is scrolled back; empty
/// when the screen has no such row.
pub open spec fn display_line_of(m: ScreenModel, row: int) -> Seq<Cell> {
    let sb = m.scrollback.len() as int;
    let offset = min_int(m.view_offset as int, sb);
    if row < 0 || row >= m.rows || row - offset >= m.grid.len() {
        Seq::empty()
    } else if row < offset {
        m.scrollback[sb - offset + row]
    } else {
        m.grid[row - offset]
    }
}

/// Absolute line number of the cursor.
pub open spec fn cursor_abs(m: ScreenModel) -> int {
    sat_add(sat_add(m.scrolled_off as int, m.scrollback.len() as int), m.cursor.row as int)
}

/// Absolute line number of the top visible row.
pub open spec fn view_top_abs_of(m: ScreenModel) -> int {
    sat_add(m.scrolled_off as int, m.scrollback.len() as int) - min_int(
        m.view_offset as int,
        m.scrollback.len() as int,
    )
}

/// The view moved so that absolute line `abs` is at the top (live if it is on screen).
pub open spec fn viewed_at(m: ScreenModel, abs: int) -> ScreenModel {
    let start = m.scrolled_off as int;
    let len = m.scrollback.len() as int;
    let off = if abs < start + len { len - (abs - start) } else { 0 };
    dirtied(invalidated_all(ScreenModel { view_offset: off as usize, ..m }))
}

/// Texts equal to `u`.
pub open spec fn same_text(u: Seq<char>) -> spec_fn(Seq<char>) -> bool {
    |x: Seq<char>| x == u
}

/// Index of the first registered hyperlink equal to `u`.
pub open spec fn hyperlink_index(h: Seq<Seq<char>>, u: Seq<char>) -> Option<int> {
    first_where(h, same_text(u))
}

/// `set_hyperlink(uri)`: reuse or register the URI (up to 65535 of them); an empty or
/// absent URI ends the link.
pub open spec fn hyperlink_set(m: ScreenModel, uri: Option<Seq<char>>) -> ScreenModel {
    match uri {
        None => ScreenModel { current_hyperlink: None, ..m },
        Some(u) => if u.len() == 0 {
            ScreenModel { current_hyperlink: None, ..m }
        } else {
            match hyperlink_index(m.hyperlinks, u) {
                Some(p) => ScreenModel { current_hyperlink: Some(p as u16), ..m },
                None => if m.hyperlinks.len() < 65535 {
                    ScreenModel {
                        hyperlinks: m.hyperlinks.push(u),
                        current_hyperlink: Some(m.hyperlinks.len() as u16),
                        ..m
                    }
                } else {
                    ScreenModel { current_hyperlink: None, ..m }
                },
            }
        },
    }
}

impl Screen {
    /// Abstract state of the screen.
    pub closed spec fn model(&self) -> ScreenModel {
        ScreenModel {
            rows: self.rows,
            cols: self.cols,
            grid: rows_of(self.grid@),
            wrapped: self.grid_wrapped@,
            scrollback: rows_of(self.scrollback@),
            sb_wrapped: self.scrollback_wrapped@,
            scrolled_off: self.lines_scrolled_off,
            view_offset: self.view_offset,
            cursor: self.cursor,
            attrs: self.current_attrs,
            max_scrollback: self.max_scrollback,
            line_contexts: self.line_contexts@,
            cache: self.content_type_cache@,
            scroll_top: self.scroll_top,
            scroll_bottom: self.scroll_bottom,
            alt: match self.alt_screen {
                Some(st) => Some(
                    MainModel {
                        grid: rows_of(st.grid@),
                        wrapped: st.grid_wrapped@,
                        cursor: st.cursor,
                        attrs: st.attrs,
                    },
                ),
                None => None,
            },
            saved: match self.saved_cursor {
                Some(s) => Some((s.row, s.col, s.attrs)),
                None => None,
            },
            last_char: self.last_char,
            bracketed_paste: self.bracketed_paste,
            autowrap: self.autowrap,
            mouse_mode: self.mouse_mode,
            mouse_sgr: self.mouse_sgr,
            title: match self.pending_title {
                Some(t) => Some(t@),
                None => None,
            },
            hyperlinks: self.hyperlinks@.map_values(|s: String| s@),
            current_hyperlink: self.current_hyperlink,
            prompt_marks: self.prompt_marks@,
            suggestion_mode: self.suggestion_mode,
            suggestion_start: self.suggestion_start_col,
            history: self.command_history@,
            history_cap: self.command_history.capacity(),
            command: self.current_command@,
            command_start: self.command_start_col,
            active_suggestion: match self.active_suggestion {
                Some(s) => Some(s@),
                None => None,
            },
            dirty: self.dirty,
            selection: self.selection,
        }
    }

    /// The screen keeps its structural invariant.
    pub closed spec fn wf(&self) -> bool {
        &&& model_wf(self.model())
        &&& self.model().rows == self.rows
        &&& self.model().cols == self.cols
        &&& self.model().cursor == self.cursor
        &&& self.model().grid == rows_of(self.grid@)
        &&& self.model().attrs == self.current_attrs
        &&& self.model().autowrap == self.autowrap
        &&& self.model().bracketed_paste == self.bracketed_paste
        &&& self.model().mouse_mode == self.mouse_mode
        &&& self.model().mouse_sgr == self.mouse_sgr
        &&& self.model().line_contexts == self.line_contexts@
        &&& self.model().cache == self.content_type_cache@
    }

    /// A blank screen of `rows` x `cols` with the cursor at the origin.
    pub fn new(rows: usize, cols: usize) -> (s: Self)
        requires
            1 <= rows <= usize::MAX / 4,
            1 <= cols <= usize::MAX / 4,
        ensures
            s.wf(),
            s.model() == initial_model(rows, cols),
    {
        let mut grid: Vec<Vec<Cell>> = Vec::new();
        let mut i: usize = 0;
        while i < rows
            invariant
                i <= rows,
                grid@.len() == i,
                forall|k: int| 0 <= k < i ==> (#[trigger] grid@[k])@ == row_of(cols as int, empty_cell()),
            decreases rows - i,
        {
            let row = vec![Cell::empty(); cols];
            assert(row@ =~= row_of(cols as int, empty_cell()));
            grid.push(row);
            i += 1;
        }
        let s = Screen {
            rows,
            cols,
            grid,
            grid_wrapped: vec![false; rows],
            scrollback: Vec::new(),
            scrollback_wrapped: Vec::new(),
            lines_scrolled_off: 0,
            view_offset: 0,
            cursor: Cursor::new(),
            current_attrs: CellAttributes::new_default(),
            max_scrollback: 10_000,
            line_contexts: vec![LineContext::Normal; rows],
            content_type_cache: vec![None; rows],
            scroll_top: 0,
            scroll_bottom: rows - 1,
            alt_screen: None,
            saved_cursor: None,
            last_char: None,
            bracketed_paste: false,
            autowrap: true,
            mouse_mode: MouseMode::Off,
            mouse_sgr: false,
            pending_title: None,
            hyperlinks: Vec::new(),
            current_hyperlink: None,
            prompt_marks: Vec::new(),
            suggestion_mode: false,
            suggestion_start_col: 0,
            command_history: CommandHistory::new(1000),
            current_command: String::new(),
            command_start_col: 0,
            active_suggestion: None,
            dirty: true,
            selection: None,
        };
        assert(rows_of(s.grid@) =~= Seq::new(rows as nat, |k: int| row_of(cols as int, empty_cell())));
        assert(s.hyperlinks@.map_values(|x: String| x@) =~= Seq::<Seq<char>>::empty());
        assert(rows_of(s.scrollback@) =~= Seq::<Seq<Cell>>::empty());
        assert(s.model() =~= initial_model(rows, cols));
        s
    }

    /// Sets the largest number of scrollback lines kept.
    pub fn set_max_scrollback(&mut self, max: usize)
        requires
            old(self).wf(),
        ensures
            final(self).wf(),
            final(self).model() == (ScreenModel { max_scrollback: max, ..old(self).model() }),
    {
        self.max_scrollback = max;
        assert(self.model() =~= ScreenModel { max_scrollback: max, ..old(self).model() });
    }

    /// Whether the screen changed since the last `mark_clean`.
    pub fn is_dirty(&self) -> (r: bool)
        ensures
            r == self.model().dirty,
    {
        self.dirty
    }

    /// Marks the screen as drawn.
    pub fn mark_clean(&mut self)
        requires
            old(self).wf(),
        ensures
            final(self).wf(),
            final(self).model() == (ScreenModel { dirty: false, ..old(self).model() }),
    {
        self.dirty = false;
        assert(self.model() =~= ScreenModel { dirty: false, ..old(self).model() });
    }

    fn mark_dirty(&mut self)
        requires
            old(self).wf(),
        ensures
            final(self).wf(),
            final(self).model() == dirtied(old(self).model()),
    {
        self.dirty = true;
        assert(self.model() =~= dirtied(old(self).model()));
    }

    /// Clears the content-type cache of every line.
    fn invalidate_all_lines(&mut self)
        requires
            old(self).wf(),
        ensures
            final(self).wf(),
            final(self).model() == invalidated_all(old(self).model()),
    {
        let n = self.content_type_cache.len();
        let mut i: usize = 0;
        while i < n
            invariant
                old(self).wf(),
                n == old(self).content_type_cache@.len(),
                i <= n,
                self.content_type_cache@.len() == n,
                forall|k: int| 0 <= k < i ==> self.content_type_cache@[k] is None,
                forall|k: int| i <= k < n ==> self.content_type_cache@[k] == old(self).content_type_cache@[k],
                self.model() == (ScreenModel { cache: self.content_type_cache@, ..old(self).model() }),
            decreases n - i,
        {
            self.content_type_cache.set(i, None);
            i += 1;
            assert(self.model() =~= ScreenModel { cache: self.content_type_cache@, ..old(self).model() });
        }
        assert(self.content_type_cache@ =~= Seq::new(n as nat, |i: int| None::<ContentType>));
        assert(self.model() =~= invalidated_all(old(self).model()));
    }

    /// Clears the content-type cache of one line.
    fn invalidate_line(&mut self, row: usize)
        requires
            old(self).wf(),
        ensures
            final(self).wf(),
            final(self).model() == invalidated_line(old(self).model(), row as int),
    {
        if row < self.content_type_cache.len() {
            self.content_type_cache.set(row, None);
        }
        assert(self.model() =~= invalidated_line(old(self).model(), row as int));
    }

    /// How far the view is scrolled back (0 = live).
    pub fn view_offset(&self) -> (r: usize)
        ensures
            r == self.model().view_offset,
    {
        self.view_offset
    }

    /// Puts the cursor at `c` (on a row of the screen), keeping the screen valid.
    pub fn set_cursor(&mut self, c: Cursor)
        requires
            old(self).wf(),
            c.row < old(self).model().rows,
            c.col <= usize::MAX / 2,
        ensures
            final(self).wf(),
            final(self).model() == (ScreenModel { cursor: c, ..old(self).model() }),
    {
        self.cursor = c;
        assert(self.model() =~= (ScreenModel { cursor: c, ..old(self).model() }));
    }

    /// Sets the attributes that the next written characters get.
    pub fn set_current_attrs(&mut self, attrs: CellAttributes)
        requires
            old(self).wf(),
        ensures
            final(self).wf(),
            final(self).model() == (ScreenModel { attrs: attrs, ..old(self).model() }),
    {
        self.current_attrs = attrs;
        assert(self.model() =~= (ScreenModel { attrs: attrs, ..old(self).model() }));
    }

    /// What a well-formed screen guarantees, over its model: the grid is `rows` rows
    /// of `cols` cells, the cursor is on a row of the screen, the scroll region lies
    /// within it, the view is scrolled back no further than the scrollback reaches
    /// (see `model_wf`).
    pub proof fn lemma_wf(&self)
        requires
            self.wf(),
        ensures
            model_wf(self.model()),
    {
    }

    /// Writes one cell of the grid.
    fn set_cell(&mut self, r: usize, c: usize, cell: Cell)
        requires
            old(self).wf(),
            r < old(self).model().rows,
            c < old(self).model().cols,
        ensures
            final(self).wf(),
            final(self).model() == (ScreenModel {
                grid: old(self).model().grid.update(
                    r as int,
                    old(self).model().grid[r as int].update(c as int, cell),
                ),
                ..old(self).model()
            }),
    {
        let ghost m = self.model();
        self.grid[r][c] = cell;
        assert(rows_of(self.grid@) =~= m.grid.update(r as int, m.grid[r as int].update(c as int, cell)));
        assert(self.model() =~= ScreenModel {
            grid: m.grid.update(r as int, m.grid[r as int].update(c as int, cell)),
            ..m
        });
    }

    /// Number of lines in the scrollback.
    pub fn scrollback_len(&self) -> (r: usize)
        ensures
            r == self.model().scrollback.len(),
    {
        self.scrollback.len()
    }
}

/// The state of a freshly created screen.
pub open spec fn initial_model(rows: usize, cols: usize) -> ScreenModel {
    ScreenModel {
        rows,
        cols,
        grid: Seq::new(rows as nat, |k: int| row_of(cols as int, empty_cell())),
        wrapped: Seq::new(rows as nat, |k: int| false),
        scrollback: Seq::empty(),
        sb_wrapped: Seq::empty(),
        scrolled_off: 0,
        view_offset: 0,
        cursor: Cursor { row: 0, col: 0, visible: true },
        attrs: default_attrs(),
        max_scrollback: 10_000,
        line_contexts: Seq::new(rows as nat, |k: int| LineContext::Normal),
        cache: Seq::new(rows as nat, |k: int| None::<ContentType>),
        scroll_top: 0,
        scroll_bottom: (rows - 1) as usize,
        alt: None,
        saved: None,
        last_char: None,
        bracketed_paste: false,
        autowrap: true,
        mouse_mode: MouseMode::Off,
        mouse_sgr: false,
        title: None,
        hyperlinks: Seq::empty(),
        current_hyperlink: None,
        prompt_marks: Seq::empty(),
        suggestion_mode: false,
        suggestion_start: 0,
        history: Seq::empty(),
        history_cap: 1000,
        command: Seq::empty(),
        command_start: 0,
        active_suggestion: None,
        dirty: true,
        selection: None,
    }
}

} // verus!
