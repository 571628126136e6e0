//! Core of a semantic terminal emulator: screen buffer, cells, cursor,
//! escape-sequence dispatch, content detection and command history.

pub mod attributes;
pub mod config;
pub mod cell;
pub mod context;
pub mod cursor;
pub mod detector;
pub mod history;
pub mod input;
pub mod laws;
pub mod ls_colors;
pub mod mouse;
pub mod paint;
pub mod screen;
pub mod seqs;
pub mod text;
pub mod theme;

pub use attributes::{CellAttributes, Color};
pub use cell::Cell;
pub use context::{
    analyze_line_context, detect_file_type_by_extension, extract_file_references,
    has_file_reference, is_file_listing, parse_file_entry, FileEntry, FileReference, FileType,
    LineContext,
};
pub use cursor::Cursor;
pub use detector::{
    ContentDetector, ContentType, JsonFragment, JsonTokenType, LogLevel, TableInfo, TableRowType,
};
pub use history::CommandHistory;
pub use screen::{MouseMode, Screen, Selection};
pub use screen::ansi::AnsiHandler;
pub use theme::ModernTheme;
pub use paint::{cell_colors, line_look, GridMetrics, HoverTarget, LineLook};
