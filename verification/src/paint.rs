//! How the renderer paints the screen: the colours of each cell, chosen from the
//! theme, the cell's attributes and what was detected in its line; the geometry of
//! the character grid and the tab bar; rectangles filled in a frame buffer.

use vstd::prelude::*;
use crate::attributes::Color;
use crate::cell::Cell;
use crate::context::{extract_file_references, file_entry, file_references, opt_entry_view, parse_file_entry, ref_view, EntryModel, FileEntry, FileRefModel, FileReference, FileType, LineContext};
use crate::cursor::min_int;
use crate::detector::{json_tokens, ContentDetector, ContentType, JsonFragment, JsonTokenType, LogLevel};
use crate::seqs::{first_where, lemma_first_where};
use crate::text::utf8_len;
use crate::theme::{pixel, ModernTheme};
use crate::screen::{display_line_of, ScreenModel};

verus! {

// ---------------------------------------------------------------- colours

/// An `(r, g, b)` triple as an opaque pixel.
pub open spec fn rgb_pixel(c: (u8, u8, u8)) -> u32 {
    pixel(c.0, c.1, c.2)
}

/// The pixel of a colour drawn as text: its palette entry (16 entries, higher
/// indices take the last), its true colour, or the theme's text colour.
pub open spec fn color_pixel(t: ModernTheme, c: Color) -> u32 {
    match c {
        Color::Indexed(i) => rgb_pixel(t.ansi_colors@[if i < 15 { i as int } else { 15 }]),
        Color::Rgb(r, g, b) => pixel(r, g, b),
        Color::Default => rgb_pixel(t.fg_primary),
    }
}

/// The pixel of a colour drawn as a background: the default is the theme's background.
pub open spec fn bg_color_pixel(t: ModernTheme, c: Color) -> u32 {
    match c {
        Color::Default => rgb_pixel(t.bg_primary),
        _ => color_pixel(t, c),
    }
}

/// Text colour from the line's semantic context; a normal line keeps the cell's colour.
pub open spec fn context_pixel(t: ModernTheme, fg: Color, ctx: LineContext) -> u32 {
    match ctx {
        LineContext::Error => rgb_pixel(t.accent_red),
        LineContext::Warning => rgb_pixel(t.accent_yellow),
        LineContext::StackTrace => rgb_pixel(t.accent_cyan),
        LineContext::FileList => rgb_pixel(t.fg_primary),
        LineContext::Normal => color_pixel(t, fg),
    }
}

/// Text colour of a log line of the given level.
pub open spec fn log_pixel(t: ModernTheme, level: LogLevel) -> u32 {
    match level {
        LogLevel::Trace => rgb_pixel(t.fg_muted),
        LogLevel::Debug => pixel(0x56, 0xb6, 0xc2),
        LogLevel::Info => pixel(0x61, 0xaf, 0xef),
        LogLevel::Warn => pixel(0xe5, 0xc0, 0x7b),
        LogLevel::Error => pixel(0xe0, 0x6c, 0x75),
        LogLevel::Fatal => rgb_pixel(t.accent_red),
    }
}

/// Text colour from the detected content of the line; normal content falls back on
/// the line's context.
pub open spec fn content_pixel(t: ModernTheme, fg: Color, ctx: LineContext, ct: ContentType) -> u32 {
    match ct {
        ContentType::Log(level) => log_pixel(t, level),
        ContentType::Error => pixel(0xe0, 0x6c, 0x75),
        ContentType::Warning => pixel(0xe5, 0xc0, 0x7b),
        ContentType::Success => pixel(0x98, 0xc3, 0x79),
        ContentType::StackTrace => rgb_pixel(t.accent_cyan),
        ContentType::Table => rgb_pixel(t.fg_primary),
        ContentType::Json => rgb_pixel(t.fg_primary),
        ContentType::Normal => context_pixel(t, fg, ctx),
    }
}

/// Text colour of a JSON token.
pub open spec fn json_pixel(t: ModernTheme, tok: JsonTokenType) -> u32 {
    match tok {
        JsonTokenType::BraceOpen | JsonTokenType::BraceClose | JsonTokenType::BracketOpen
        | JsonTokenType::BracketClose => rgb_pixel(t.fg_secondary),
        JsonTokenType::Key => pixel(0x61, 0xaf, 0xef),
        JsonTokenType::String => pixel(0x98, 0xc3, 0x79),
        JsonTokenType::Number => pixel(0xd1, 0x9a, 0x66),
        JsonTokenType::Boolean => pixel(0xc6, 0x78, 0xdd),
        JsonTokenType::Null => pixel(0x56, 0xb6, 0xc2),
        JsonTokenType::Colon | JsonTokenType::Comma => rgb_pixel(t.fg_primary),
    }
}

/// Text colour of a file listing entry, by its kind and its execute permission.
pub open spec fn file_pixel(t: ModernTheme, kind: FileType, executable: bool) -> u32 {
    match kind {
        FileType::Directory => rgb_pixel(t.accent_blue),
        FileType::Executable => if executable { rgb_pixel(t.accent_green) } else { rgb_pixel(t.fg_primary) },
        FileType::SymbolicLink => rgb_pixel(t.accent_cyan),
        FileType::Archive => rgb_pixel(t.accent_red),
        FileType::Image => rgb_pixel(t.accent_magenta),
        FileType::Video => rgb_pixel(t.accent_magenta),
        FileType::Audio => rgb_pixel(t.accent_cyan),
        FileType::Document => rgb_pixel(t.accent_yellow),
        FileType::Code => rgb_pixel(t.accent_green),
        FileType::RegularFile => if executable { rgb_pixel(t.accent_green) } else { rgb_pixel(t.fg_primary) },
    }
}

impl ModernTheme {
    /// A colour drawn as text (see `color_pixel`).
    pub fn color_to_u32(&self, color: Color) -> (p: u32)
        ensures
            p == color_pixel(*self, color),
    {
        match color {
            Color::Indexed(idx) => self.get_ansi_color(idx),
            Color::Rgb(r, g, b) => Self::rgb_to_u32(r, g, b),
            Color::Default => self.fg_primary_u32(),
        }
    }

    /// A colour drawn as a background, for reverse video (see `bg_color_pixel`).
    pub fn bg_color_to_u32(&self, color: Color) -> (p: u32)
        ensures
            p == bg_color_pixel(*self, color),
    {
        match color {
            Color::Default => self.bg_primary_u32(),
            other => self.color_to_u32(other),
        }
    }

    /// Text colour of a cell from its line's context (see `context_pixel`).
    pub fn get_context_color(&self, cell: &Cell, context: LineContext) -> (p: u32)
        ensures
            p == context_pixel(*self, cell.attrs.fg_color, context),
    {
        match context {
            LineContext::Error => self.accent_red_u32(),
            LineContext::Warning => self.accent_yellow_u32(),
            LineContext::StackTrace => self.accent_cyan_u32(),
            LineContext::FileList => self.fg_primary_u32(),
            LineContext::Normal => self.color_to_u32(cell.attrs.fg_color),
        }
    }

    /// Text colour of a cell from its line's detected content (see `content_pixel`).
    pub fn get_content_color(&self, cell: &Cell, context: LineContext, content_type: ContentType) -> (p: u32)
        ensures
            p == content_pixel(*self, cell.attrs.fg_color, context, content_type),
    {
        match content_type {
            ContentType::Log(level) => self.get_log_color(level),
            ContentType::Error => self.log_error_u32(),
            ContentType::Warning => self.log_warn_u32(),
            ContentType::Success => self.success_u32(),
            ContentType::StackTrace => self.accent_cyan_u32(),
            ContentType::Table => self.fg_primary_u32(),
            ContentType::Json => self.fg_primary_u32(),
            ContentType::Normal => self.get_context_color(cell, context),
        }
    }

    /// Text colour of a log level (see `log_pixel`).
    pub fn get_log_color(&self, level: LogLevel) -> (p: u32)
        ensures
            p == log_pixel(*self, level),
    {
        match level {
            LogLevel::Trace => self.log_trace_u32(),
            LogLevel::Debug => self.log_debug_u32(),
            LogLevel::Info => self.log_info_u32(),
            LogLevel::Warn => self.log_warn_u32(),
            LogLevel::Error => self.log_error_u32(),
            LogLevel::Fatal => self.log_fatal_u32(),
        }
    }

    /// Text colour of a JSON token (see `json_pixel`).
    pub fn get_json_color(&self, token_type: JsonTokenType) -> (p: u32)
        ensures
            p == json_pixel(*self, token_type),
    {
        match token_type {
            JsonTokenType::BraceOpen | JsonTokenType::BraceClose | JsonTokenType::BracketOpen
            | JsonTokenType::BracketClose => self.json_bracket_u32(),
            JsonTokenType::Key => self.json_key_u32(),
            JsonTokenType::String => self.json_string_u32(),
            JsonTokenType::Number => self.json_number_u32(),
            JsonTokenType::Boolean => self.json_boolean_u32(),
            JsonTokenType::Null => self.json_null_u32(),
            JsonTokenType::Colon | JsonTokenType::Comma => self.fg_primary_u32(),
        }
    }

    /// Text colour of a file listing entry (see `file_pixel`).
    pub fn get_file_color(&self, entry: &FileEntry) -> (p: u32)
        ensures
            p == file_pixel(*self, entry.file_type, entry.is_executable),
    {
        match entry.file_type {
            FileType::Directory => self.accent_blue_u32(),
            FileType::Executable => if entry.is_executable { self.accent_green_u32() } else { self.fg_primary_u32() },
            FileType::SymbolicLink => self.accent_cyan_u32(),
            FileType::Archive => self.accent_red_u32(),
            FileType::Image => self.accent_magenta_u32(),
            FileType::Video => self.accent_magenta_u32(),
            FileType::Audio => self.accent_cyan_u32(),
            FileType::Document => self.accent_yellow_u32(),
            FileType::Code => self.accent_green_u32(),
            FileType::RegularFile => if entry.is_executable { self.accent_green_u32() } else { self.fg_primary_u32() },
        }
    }
}

// ---------------------------------------------------------------- cells of a line

/// What the renderer knows of one displayed line besides its cells.
pub struct LineLook {
    pub context: LineContext,
    pub content_type: ContentType,
    /// Source references, looked for on stack-trace lines only.
    pub file_refs: Vec<FileReference>,
    /// The `ls -l` entry, parsed on file-listing lines only.
    pub file_entry: Option<FileEntry>,
    /// JSON tokens, on JSON lines only.
    pub json_fragments: Vec<JsonFragment>,
}

/// The references of a look, as plain values.
pub open spec fn refs_model(refs: Seq<FileReference>) -> Seq<FileRefModel> {
    refs.map_values(|x: FileReference| ref_view(x))
}

/// Some reference spans column `col`.
pub open spec fn refs_cover(refs: Seq<FileRefModel>, col: int) -> bool {
    exists|i: int| 0 <= i < refs.len() && (#[trigger] refs[i]).3 <= col < refs[i].4
}

/// The entry, if it spans column `col`.
pub open spec fn entry_covering(e: Option<EntryModel>, col: int) -> Option<EntryModel> {
    match e {
        Some(x) => if x.3 <= col < x.4 { Some(x) } else { None },
        None => None,
    }
}

/// The JSON token spans column `col`.
pub open spec fn spans(col: int) -> spec_fn(JsonFragment) -> bool {
    |f: JsonFragment| f.start_col <= col < f.end_col
}

/// The kind of the first JSON token spanning column `col`.
pub open spec fn fragment_at(frags: Seq<JsonFragment>, col: int) -> Option<JsonTokenType> {
    match first_where(frags, spans(col)) {
        Some(i) => Some(frags[i].token_type),
        None => None,
    }
}

/// A cell's background: the selection colour, its text colour in reverse video, or
/// its background colour.
pub open spec fn background_pixel(t: ModernTheme, cell: Cell, selected: bool) -> u32 {
    if selected {
        rgb_pixel(t.bg_highlight)
    } else if cell.attrs.reverse {
        color_pixel(t, cell.attrs.fg_color)
    } else {
        color_pixel(t, cell.attrs.bg_color)
    }
}

/// A cell's text colour, first rule that applies: reverse video, suggestion, link,
/// file entry, JSON token, then the line's detected content and context.
pub open spec fn foreground_pixel(
    t: ModernTheme,
    cell: Cell,
    link: bool,
    entry: Option<EntryModel>,
    frag: Option<JsonTokenType>,
    ctx: LineContext,
    ct: ContentType,
) -> u32 {
    if cell.attrs.reverse {
        bg_color_pixel(t, cell.attrs.bg_color)
    } else if cell.is_suggestion {
        rgb_pixel(t.fg_suggestion)
    } else if link {
        rgb_pixel(t.accent_blue)
    } else {
        match entry {
            Some(e) => file_pixel(t, e.1, e.2),
            None => match frag {
                Some(k) => json_pixel(t, k),
                None => content_pixel(t, cell.attrs.fg_color, ctx, ct),
            },
        }
    }
}

/// Whether a cell at column `col` of the line is drawn as a link: inside a source
/// reference, or part of a hyperlink.
pub open spec fn link_at(look: LineLook, col: int, cell: Cell) -> bool {
    refs_cover(refs_model(look.file_refs@), col) || cell.hyperlink is Some
}

/// The look of a line with text `text`: references on stack-trace lines, the listing
/// entry on file-listing lines, JSON tokens on JSON lines, nothing else.
pub fn line_look(text: &str, context: LineContext, content_type: ContentType, detector: &ContentDetector) -> (r: LineLook)
    requires
        context == LineContext::FileList ==> utf8_len(text@) <= usize::MAX,
    ensures
        r.context == context,
        r.content_type == content_type,
        refs_model(r.file_refs@) == (if context == LineContext::StackTrace {
            file_references(text@)
        } else {
            Seq::<FileRefModel>::empty()
        }),
        opt_entry_view(r.file_entry) == (if context == LineContext::FileList {
            file_entry(text@)
        } else {
            None::<EntryModel>
        }),
        r.json_fragments@ == (if content_type == ContentType::Json {
            json_tokens(text@, 0, 0, false, false)
        } else {
            Seq::<JsonFragment>::empty()
        }),
{
    let file_refs = if context == LineContext::StackTrace {
        extract_file_references(text)
    } else {
        let v: Vec<FileReference> = Vec::new();
        assert(refs_model(v@) =~= Seq::<FileRefModel>::empty());
        v
    };
    let file_entry = if context == LineContext::FileList {
        parse_file_entry(text)
    } else {
        None
    };
    let json_fragments = if content_type == ContentType::Json {
        detector.parse_json_fragments(text)
    } else {
        Vec::new()
    };
    LineLook { context, content_type, file_refs, file_entry, json_fragments }
}

/// Whether some reference spans column `col`.
fn covers_any(refs: &Vec<FileReference>, col: usize) -> (r: bool)
    ensures
        r == refs_cover(refs_model(refs@), col as int),
{
    let ghost m = refs_model(refs@);
    let mut i: usize = 0;
    while i < refs.len()
        invariant
            i <= refs@.len(),
            m == refs_model(refs@),
            forall|k: int| 0 <= k < i ==> !((#[trigger] m[k]).3 <= col && col < m[k].4),
        decreases refs@.len() - i,
    {
        assert(m[i as int] == ref_view(refs@[i as int]));
        if refs[i].start_col <= col && col < refs[i].end_col {
            assert(m[i as int].3 <= col < m[i as int].4);
            return true;
        }
        i += 1;
    }
    false
}

/// The kind of the first JSON token spanning column `col`.
fn fragment_kind_at(frags: &Vec<JsonFragment>, col: usize) -> (r: Option<JsonTokenType>)
    ensures
        r == fragment_at(frags@, col as int),
{
    let ghost p = spans(col as int);
    proof {
        lemma_first_where(frags@, p);
    }
    let mut i: usize = 0;
    while i < frags.len()
        invariant
            i <= frags@.len(),
            p == spans(col as int),
            forall|k: int| 0 <= k < i ==> !p(#[trigger] frags@[k]),
            match first_where(frags@, p) {
                Some(j) => 0 <= j < frags@.len() && p(frags@[j]) && forall|k: int| 0 <= k < j ==> !p(
                    #[trigger] frags@[k],
                ),
                None => forall|k: int| 0 <= k < frags@.len() ==> !p(#[trigger] frags@[k]),
            },
        decreases frags@.len() - i,
    {
        if frags[i].start_col <= col && col < frags[i].end_col {
            assert(p(frags@[i as int]));
            assert(first_where(frags@, p) == Some(i as int)) by {
                match first_where(frags@, p) {
                    Some(j) => {
                        if j < i {
                            assert(!p(frags@[j]));
                        } else if j > i {
                            assert(!p(frags@[i as int]));
                        }
                    },
                    None => {
                        assert(!p(frags@[i as int]));
                    },
                }
            }
            return Some(frags[i].token_type);
        }
        i += 1;
    }
    proof {
        match first_where(frags@, p) {
            Some(j) => {
                assert(!p(frags@[j]));
            },
            None => {},
        }
    }
    None
}

/// Background and text colour of the cell at column `col` of a line, and whether it
/// is drawn as a link (underlined).
pub fn cell_colors(theme: &ModernTheme, look: &LineLook, col: usize, cell: &Cell, selected: bool) -> (r: (u32, u32, bool))
    ensures
        r.0 == background_pixel(*theme, *cell, selected),
        r.2 == link_at(*look, col as int, *cell),
        r.1 == foreground_pixel(
            *theme,
            *cell,
            r.2,
            entry_covering(opt_entry_view(look.file_entry), col as int),
            fragment_at(look.json_fragments@, col as int),
            look.context,
            look.content_type,
        ),
{
    let bg = if selected {
        theme.selection_bg_u32()
    } else if cell.attrs.reverse {
        theme.color_to_u32(cell.attrs.fg_color)
    } else {
        theme.color_to_u32(cell.attrs.bg_color)
    };
    let is_link = covers_any(&look.file_refs, col);
    let is_hyperlink = cell.hyperlink.is_some();
    let link = is_link || is_hyperlink;
    let entry_here: Option<&FileEntry> = match &look.file_entry {
        Some(e) => if e.start_col <= col && col < e.end_col { Some(e) } else { None },
        None => None,
    };
    let fragment = fragment_kind_at(&look.json_fragments, col);
    let fg = if cell.attrs.reverse {
        theme.bg_color_to_u32(cell.attrs.bg_color)
    } else if cell.is_suggestion {
        theme.fg_suggestion_u32()
    } else if link {
        theme.accent_blue_u32()
    } else if let Some(e) = entry_here {
        theme.get_file_color(e)
    } else if let Some(kind) = fragment {
        theme.get_json_color(kind)
    } else {
        theme.get_content_color(cell, look.context, look.content_type)
    };
    (bg, fg, link)
}

// ---------------------------------------------------------------- geometry

/// Pixel geometry of the renderer: the window and one character cell.
#[derive(Debug, Clone, Copy)]
pub struct GridMetrics {
    pub width: u32,
    pub height: u32,
    pub char_width: u32,
    pub char_height: u32,
}

/// Pixel `i` of a `width`-wide frame of `height` rows lies in the rectangle of
/// `w` x `h` pixels at (`x`, `y`), clipped to the frame.
pub open spec fn in_rect(i: int, width: int, height: int, x: int, y: int, w: int, h: int) -> bool {
    &&& width > 0
    &&& i >= 0
    &&& y <= i / width < y + h
    &&& i / width < height
    &&& x <= i % width < x + w
}

/// Pixel `i` is among those filled so far: rows `y..py` of the clipped rectangle,
/// then columns `x..px` of row `py`.
pub open spec fn painted_upto(i: int, wd: int, x: int, x_end: int, y: int, py: int, px: int) -> bool {
    &&& wd > 0
    &&& i >= 0
    &&& (y <= i / wd < py || (i / wd == py && x <= i % wd < px))
    &&& x <= i % wd < x_end
}

/// The tab background, text colour and whether the top accent is drawn, for the
/// active tab or another one.
pub open spec fn tab_look(t: ModernTheme, active: bool) -> (u32, u32, bool) {
    if active {
        (rgb_pixel(t.bg_primary), rgb_pixel(t.fg_primary), true)
    } else {
        (pixel(33, 37, 43), pixel(92, 99, 112), false)
    }
}

/// Colours of a tab: background, text, and whether the blue accent tops it.
pub fn tab_colors(theme: &ModernTheme, active: bool) -> (r: (u32, u32, bool))
    ensures
        r == tab_look(*theme, active),
{
    if active {
        (theme.bg_primary_u32(), theme.fg_primary_u32(), true)
    } else {
        (ModernTheme::rgb_to_u32(33, 37, 43), ModernTheme::rgb_to_u32(92, 99, 112), false)
    }
}

/// The colour of the tab bar behind the tabs.
pub fn tab_bar_color() -> (p: u32)
    ensures
        p == pixel(33, 37, 43),
{
    ModernTheme::rgb_to_u32(33, 37, 43)
}

impl GridMetrics {
    /// Height of the tab bar: a character row and 8 pixels.
    pub fn tab_bar_height(&self) -> (h: u32)
        requires
            self.char_height <= u32::MAX - 8,
        ensures
            h == self.char_height + 8,
    {
        self.char_height + 8
    }

    /// Rows and columns of characters that fit under the tab bar, at least one each.
    pub fn calculate_grid_size(&self) -> (r: (usize, usize))
        requires
            self.char_width > 0,
            0 < self.char_height <= u32::MAX - 8,
        ensures
            ({
                let usable = if self.height > self.char_height + 8 { self.height - self.char_height - 8 } else { 0 };
                let rows = usable as int / self.char_height as int;
                r.0 == if rows > 1 { rows } else { 1 }
            }),
            ({
                let cols = self.width as int / self.char_width as int;
                r.1 == if cols > 1 { cols } else { 1 }
            }),
    {
        let usable_height = self.height.saturating_sub(self.tab_bar_height());
        let cols = (self.width / self.char_width) as usize;
        let rows = (usable_height / self.char_height) as usize;
        let rows = if rows > 1 { rows } else { 1 };
        let cols = if cols > 1 { cols } else { 1 };
        (rows, cols)
    }

    /// Width of one tab: 22 characters, at most the window (or one pixel).
    pub fn tab_width(&self) -> (w: u32)
        requires
            self.char_width as int * 22 <= u32::MAX,
        ensures
            w == min_int(self.char_width as int * 22, if self.width > 1 { self.width as int } else { 1 }),
    {
        let full = self.char_width * 22;
        let cap = if self.width > 1 { self.width } else { 1 };
        if full < cap { full } else { cap }
    }

    /// The tab under pixel column `x` of the tab bar, if there is a tab there.
    pub fn tab_at(&self, x: u32, n_tabs: usize) -> (r: Option<usize>)
        requires
            self.char_width > 0,
            self.char_width as int * 22 <= u32::MAX,
        ensures
            ({
                let tw = min_int(self.char_width as int * 22, if self.width > 1 { self.width as int } else { 1 });
                r == if x as int / tw < n_tabs { Some((x as int / tw) as usize) } else { None::<usize> }
            }),
    {
        let tw = self.tab_width();
        let idx = (x / tw) as usize;
        if idx < n_tabs { Some(idx) } else { None }
    }

    /// How many characters of a title fit in a tab, leaving room for two.
    pub fn tab_title_chars(&self, tab_w: u32) -> (n: usize)
        requires
            self.char_width > 0,
        ensures
            n == (if tab_w as int / self.char_width as int >= 2 { tab_w as int / self.char_width as int - 2 } else { 0 }),
    {
        let fit = (tab_w / self.char_width) as usize;
        if fit >= 2 { fit - 2 } else { 0 }
    }

    /// Fills the rectangle of `w` x `h` pixels at (`x`, `y`) with `color`, clipped to
    /// the frame and to the buffer.
    pub fn fill_rect(&self, buffer: &mut [u32], x: u32, y: u32, w: u32, h: u32, color: u32)
        requires
            self.width as int * self.height as int <= u32::MAX + 1,
        ensures
            final(buffer)@.len() == old(buffer)@.len(),
            forall|i: int| 0 <= i < old(buffer)@.len() ==> #[trigger] final(buffer)@[i] == if in_rect(
                i,
                self.width as int,
                self.height as int,
                x as int,
                y as int,
                w as int,
                h as int,
            ) {
                color
            } else {
                old(buffer)@[i]
            },
    {
        let width = self.width;
        let height = self.height;
        let y_end: u32 = if y >= height { y } else if h >= height - y { height } else { y + h };
        let x_end: u32 = if x >= width { x } else if w >= width - x { width } else { x + w };
        let ghost old_buf = buffer@;
        let mut py: u32 = y;
        while py < y_end
            invariant
                y <= py <= y_end,
                y_end == (if y >= height { y } else if h >= height - y { height } else { (y + h) as u32 }),
                x_end == (if x >= width { x } else if w >= width - x { width } else { (x + w) as u32 }),
                width == self.width,
                height == self.height,
                width as int * height as int <= u32::MAX + 1,
                buffer@.len() == old_buf.len(),
                forall|i: int| 0 <= i < buffer@.len() ==> #[trigger] buffer@[i] == if painted_upto(
                    i,
                    width as int,
                    x as int,
                    x_end as int,
                    y as int,
                    py as int,
                    x as int,
                ) {
                    color
                } else {
                    old_buf[i]
                },
            decreases y_end - py,
        {
            let mut px: u32 = x;
            while px < x_end
                invariant
                    y <= py < y_end,
                    y_end <= height,
                    x <= px <= x_end,
                    x_end == (if x >= width { x } else if w >= width - x { width } else { (x + w) as u32 }),
                    width as int * height as int <= u32::MAX + 1,
                    buffer@.len() == old_buf.len(),
                    forall|i: int| 0 <= i < buffer@.len() ==> #[trigger] buffer@[i] == if painted_upto(
                        i,
                        width as int,
                        x as int,
                        x_end as int,
                        y as int,
                        py as int,
                        px as int,
                    ) {
                        color
                    } else {
                        old_buf[i]
                    },
                decreases x_end - px,
            {
                assert(py as int * width as int + px < width as int * height as int) by (nonlinear_arith)
                    requires
                        py < height,
                        px < width,
                ;
                let idx: u32 = py * width + px;
                let ghost before = buffer@;
                if (idx as usize) < buffer.len() {
                    buffer[idx as usize] = color;
                }
                proof {
                    vstd::arithmetic::div_mod::lemma_fundamental_div_mod_converse(
                        idx as int,
                        width as int,
                        py as int,
                        px as int,
                    );
                    assert forall|i: int| 0 <= i < buffer@.len() implies #[trigger] buffer@[i] == if painted_upto(
                        i,
                        width as int,
                        x as int,
                        x_end as int,
                        y as int,
                        py as int,
                        px + 1,
                    ) {
                        color
                    } else {
                        old_buf[i]
                    } by {
                        if i != idx {
                            assert(buffer@[i] == before[i]);
                            let wd = width as int;
                            if i / wd == py && i % wd == px {
                                vstd::arithmetic::div_mod::lemma_fundamental_div_mod(i, wd);
                                assert(i == py as int * wd + px) by (nonlinear_arith)
                                    requires
                                        i == wd * (i / wd) + i % wd,
                                        i / wd == py,
                                        i % wd == px,
                                ;
                            }
                        }
                    }
                }
                px = px + 1;
            }
            py = py + 1;
        }
        proof {
            assert forall|i: int| 0 <= i < old_buf.len() implies #[trigger] buffer@[i] == if in_rect(
                i,
                width as int,
                height as int,
                x as int,
                y as int,
                w as int,
                h as int,
            ) {
                color
            } else {
                old_buf[i]
            } by {
                if width > 0 {
                    vstd::arithmetic::div_mod::lemma_mod_bound(i, width as int);
                }
            }
        }
    }

    /// A one-pixel horizontal line of `w` pixels at (`x`, `y`), clipped.
    pub fn draw_hline(&self, buffer: &mut [u32], x: u32, y: u32, w: u32, color: u32)
        requires
            self.width as int * self.height as int <= u32::MAX + 1,
        ensures
            final(buffer)@.len() == old(buffer)@.len(),
            forall|i: int| 0 <= i < old(buffer)@.len() ==> #[trigger] final(buffer)@[i] == if in_rect(
                i,
                self.width as int,
                self.height as int,
                x as int,
                y as int,
                w as int,
                1,
            ) {
                color
            } else {
                old(buffer)@[i]
            },
    {
        self.fill_rect(buffer, x, y, w, 1, color);
    }
}

// ---------------------------------------------------------------- what the mouse points at

/// The characters of a row of cells.
pub open spec fn cells_chars(line: Seq<Cell>) -> Seq<char> {
    Seq::new(line.len(), |i: int| line[i].character)
}

/// What the mouse points at: a hyperlink, a source reference, or nothing.
#[derive(Debug, Clone, PartialEq, Eq)]
pub enum HoverTarget {
    Nothing,
    /// The URI of an OSC 8 hyperlink.
    Link(String),
    /// A source reference: the screen row, the path and the line number.
    File(usize, String, Option<usize>),
}

/// The URI of the hyperlink under (`row`, `col`) of the display, if any.
pub open spec fn hyperlink_uri_at(m: ScreenModel, row: int, col: int) -> Option<Seq<char>> {
    let line = display_line_of(m, row);
    if 0 <= col < line.len() && line[col].hyperlink is Some && (line[col].hyperlink->0 as int) < m.hyperlinks.len() {
        Some(m.hyperlinks[line[col].hyperlink->0 as int])
    } else {
        None
    }
}

/// The reference spans column `col`.
pub open spec fn ref_spans(col: int) -> spec_fn(FileRefModel) -> bool {
    |r: FileRefModel| r.3 <= col < r.4
}

/// The first reference of the line that spans column `col`.
pub open spec fn ref_at(refs: Seq<FileRefModel>, col: int) -> Option<FileRefModel> {
    match first_where(refs, ref_spans(col)) {
        Some(i) => Some(refs[i]),
        None => None,
    }
}

/// What (`row`, `col`) of the display points at: nothing below the screen; else a
/// hyperlink first; else the first source reference of the line's text spanning the
/// column; else nothing.
pub open spec fn hover_matches(m: ScreenModel, row: int, col: int, r: HoverTarget) -> bool {
    if row >= m.rows {
        r is Nothing
    } else {
        match hyperlink_uri_at(m, row, col) {
            Some(u) => r matches HoverTarget::Link(v) && v@ == u,
            None => match ref_at(file_references(cells_chars(display_line_of(m, row))), col) {
                Some(f) => r matches HoverTarget::File(rr, path, line) && rr == row && path@ == f.0 && line == f.1,
                None => r is Nothing,
            },
        }
    }
}

} // verus!
