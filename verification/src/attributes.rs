use vstd::prelude::*;

verus! {

/// Colour of a cell's foreground or background.
#[derive(Debug, Clone, Copy, PartialEq, Eq, Structural)]
pub enum Color {
    /// The terminal's default colour.
    Default,
    /// Index into the 256-entry palette.
    Indexed(u8),
    /// 24-bit true colour.
    Rgb(u8, u8, u8),
}

/// Rendition attributes of a cell.
#[derive(Debug, Clone, Copy, PartialEq, Eq, Structural)]
pub struct CellAttributes {
    pub fg_color: Color,
    pub bg_color: Color,
    pub bold: bool,
    pub dim: bool,
    pub italic: bool,
    pub underline: bool,
    pub strikethrough: bool,
    pub reverse: bool,
}

/// The attributes every fresh cell carries: white on black, no style.
pub open spec fn default_attrs() -> CellAttributes {
    CellAttributes {
        fg_color: Color::Indexed(7),
        bg_color: Color::Indexed(0),
        bold: false,
        dim: false,
        italic: false,
        underline: false,
        strikethrough: false,
        reverse: false,
    }
}

impl Default for CellAttributes {
    fn default() -> (r: Self)
        ensures
            r == default_attrs(),
    {
        CellAttributes::new_default()
    }
}

impl CellAttributes {
    /// Same value as `Default::default`, callable from verified code.
    pub fn new_default() -> (r: Self)
        ensures
            r == default_attrs(),
    {
        CellAttributes {
            fg_color: Color::default_fg(),
            bg_color: Color::default_bg(),
            bold: false,
            dim: false,
            italic: false,
            underline: false,
            strikethrough: false,
            reverse: false,
        }
    }
}

/// Level of one channel in the xterm 6x6x6 colour cube.
pub open spec fn cube_level(v: int) -> int {
    if v == 0 {
        0
    } else {
        55 + v * 40
    }
}

/// The xterm-256 palette: 16 named colours, the 6x6x6 cube, then a grey ramp.
pub open spec fn palette_rgb(idx: u8) -> (int, int, int) {
    if idx == 0 {
        (0, 0, 0)
    } else if idx == 1 {
        (205, 0, 0)
    } else if idx == 2 {
        (0, 205, 0)
    } else if idx == 3 {
        (205, 205, 0)
    } else if idx == 4 {
        (0, 0, 238)
    } else if idx == 5 {
        (205, 0, 205)
    } else if idx == 6 {
        (0, 205, 205)
    } else if idx == 7 {
        (229, 229, 229)
    } else if idx == 8 {
        (127, 127, 127)
    } else if idx == 9 {
        (255, 0, 0)
    } else if idx == 10 {
        (0, 255, 0)
    } else if idx == 11 {
        (255, 255, 0)
    } else if idx == 12 {
        (92, 92, 255)
    } else if idx == 13 {
        (255, 0, 255)
    } else if idx == 14 {
        (0, 255, 255)
    } else if idx == 15 {
        (255, 255, 255)
    } else if idx <= 231 {
        let i = idx - 16;
        (cube_level(i / 36), cube_level((i % 36) / 6), cube_level(i % 6))
    } else {
        let gray = 8 + (idx - 232) * 10;
        (gray, gray, gray)
    }
}

/// The RGB triple a colour is drawn with.
pub open spec fn color_rgb(c: Color) -> (int, int, int) {
    match c {
        Color::Default => (255, 255, 255),
        Color::Indexed(i) => palette_rgb(i),
        Color::Rgb(r, g, b) => (r as int, g as int, b as int),
    }
}

fn cube_channel(v: u8) -> (r: u8)
    requires
        v < 6,
    ensures
        r == cube_level(v as int),
{
    if v == 0 {
        0
    } else {
        55 + v * 40
    }
}

impl Color {
    pub fn default_fg() -> (r: Self)
        ensures
            r == Color::Indexed(7),
    {
        Color::Indexed(7)
    }

    pub fn default_bg() -> (r: Self)
        ensures
            r == Color::Indexed(0),
    {
        Color::Indexed(0)
    }

    pub fn to_rgb(&self) -> (r: (u8, u8, u8))
        ensures
            (r.0 as int, r.1 as int, r.2 as int) == color_rgb(*self),
    {
        match self {
            Color::Default => (255, 255, 255),
            Color::Indexed(idx) => Self::indexed_to_rgb(*idx),
            Color::Rgb(r, g, b) => (*r, *g, *b),
        }
    }

    fn indexed_to_rgb(idx: u8) -> (r: (u8, u8, u8))
        ensures
            (r.0 as int, r.1 as int, r.2 as int) == palette_rgb(idx),
    {
        match idx {
            0 => (0, 0, 0),
            1 => (205, 0, 0),
            2 => (0, 205, 0),
            3 => (205, 205, 0),
            4 => (0, 0, 238),
            5 => (205, 0, 205),
            6 => (0, 205, 205),
            7 => (229, 229, 229),
            8 => (127, 127, 127),
            9 => (255, 0, 0),
            10 => (0, 255, 0),
            11 => (255, 255, 0),
            12 => (92, 92, 255),
            13 => (255, 0, 255),
            14 => (0, 255, 255),
            15 => (255, 255, 255),
            16..=231 => {
                let i = idx - 16;
                (cube_channel(i / 36), cube_channel((i % 36) / 6), cube_channel(i % 6))
            },
            _ => {
                let gray = 8 + (idx - 232) * 10;
                (gray, gray, gray)
            },
        }
    }
}

} // verus!
