use vstd::prelude::*;
use unicode_width::UnicodeWidthChar;
use crate::attributes::{default_attrs, CellAttributes};

verus! {

/// Display width, in columns, that the `unicode-width` crate gives a character
/// (`None` for control characters).
pub uninterp spec fn unicode_width_of(c: char) -> Option<usize>;

/// `UnicodeWidthChar::width` of the `unicode-width` crate.
///
/// Claimed: the result is `unicode_width_of(c)`; below U+007F it is `Some(1)` for
/// printable characters and `None` for control codes; U+007F to U+009F give
/// `None`; from U+00A0 on the result is `Some` of a width that fits a `u8`
/// (the crate's tables store widths as `u8`). Nothing more is stated of the tables.
#[verifier::external_body]
fn char_display_width(c: char) -> (r: Option<usize>)
    ensures
        r == unicode_width_of(c),
        (c as u32) < 0x20 ==> r is None,
        0x20 <= (c as u32) < 0x7F ==> r == Some(1usize),
        0x7F <= (c as u32) < 0xA0 ==> r is None,
        (c as u32) >= 0xA0 ==> (r is Some && r->0 <= 255),
{
    c.width()
}

/// Width a cell gives a character: 1 below U+00A0 (ASCII, controls, C1 codes);
/// from there on its Unicode width, or 1 where it has none.
pub open spec fn char_cell_width(c: char) -> u8 {
    if (c as u32) < 0xA0 {
        1
    } else {
        match unicode_width_of(c) {
            Some(w) => w as u8,
            None => 1,
        }
    }
}

/// Exact width of a character as stored in a cell.
fn cell_width_of(c: char) -> (w: u8)
    ensures
        w == char_cell_width(c),
        (c as u32) < 0x7F ==> w == 1,
{
    match char_display_width(c) {
        Some(w) => {
            if (c as u32) >= 0xA0 {
                w as u8
            } else {
                1
            }
        },
        None => 1,
    }
}

/// One cell of the terminal grid.
#[derive(Debug, Clone, Copy, PartialEq, Eq)]
pub struct Cell {
    pub character: char,
    pub attrs: CellAttributes,
    /// Columns the character occupies (1 for ASCII, 2 for CJK, ...).
    pub width: u8,
    /// Part of an autocompletion suggestion (drawn dimmed).
    pub is_suggestion: bool,
    /// OSC 8 hyperlink the cell belongs to, if any.
    pub hyperlink: Option<u16>,
}

/// A cell with the given content, default flags and no hyperlink.
pub open spec fn mk_cell(c: char, attrs: CellAttributes, sugg: bool) -> Cell {
    Cell {
        character: c,
        attrs: attrs,
        width: char_cell_width(c),
        is_suggestion: sugg,
        hyperlink: None,
    }
}

/// The empty cell: a space with default attributes.
pub open spec fn empty_cell() -> Cell {
    Cell { character: ' ', attrs: default_attrs(), width: 1, is_suggestion: false, hyperlink: None }
}

impl Cell {
    pub fn new(character: char) -> (r: Self)
        ensures
            r == mk_cell(character, default_attrs(), false),
    {
        let width = cell_width_of(character);
        Cell {
            character,
            attrs: CellAttributes::new_default(),
            width,
            is_suggestion: false,
            hyperlink: None,
        }
    }

    pub fn empty() -> (r: Self)
        ensures
            r == empty_cell(),
    {
        Cell {
            character: ' ',
            attrs: CellAttributes::new_default(),
            width: 1,
            is_suggestion: false,
            hyperlink: None,
        }
    }

    pub fn with_attrs(character: char, attrs: CellAttributes) -> (r: Self)
        ensures
            r == mk_cell(character, attrs, false),
    {
        let width = cell_width_of(character);
        Cell { character, attrs, width, is_suggestion: false, hyperlink: None }
    }

    pub fn as_suggestion(character: char) -> (r: Self)
        ensures
            r == mk_cell(character, default_attrs(), true),
    {
        let width = cell_width_of(character);
        Cell {
            character,
            attrs: CellAttributes::new_default(),
            width,
            is_suggestion: true,
            hyperlink: None,
        }
    }

    pub fn is_wide(&self) -> (r: bool)
        ensures
            r == (self.width > 1),
    {
        self.width > 1
    }
}

impl Default for Cell {
    fn default() -> (r: Self)
        ensures
            r == empty_cell(),
    {
        Cell::empty()
    }
}

} // verus!
