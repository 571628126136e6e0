//! The colour theme the renderer draws with.

use vstd::prelude::*;

verus! {

/// A colour palette: backgrounds, foregrounds, accents and the 16 ANSI colours.
#[derive(Debug, Clone, Copy)]
pub struct ModernTheme {
    pub bg_primary: (u8, u8, u8),
    pub bg_secondary: (u8, u8, u8),
    pub bg_highlight: (u8, u8, u8),
    pub fg_primary: (u8, u8, u8),
    pub fg_secondary: (u8, u8, u8),
    pub fg_muted: (u8, u8, u8),
    /// Text of autocompletion suggestions (a light grey).
    pub fg_suggestion: (u8, u8, u8),
    pub accent_blue: (u8, u8, u8),
    pub accent_cyan: (u8, u8, u8),
    pub accent_green: (u8, u8, u8),
    pub accent_yellow: (u8, u8, u8),
    pub accent_red: (u8, u8, u8),
    pub accent_magenta: (u8, u8, u8),
    pub accent_orange: (u8, u8, u8),
    /// The 16 ANSI colours: 0-7 normal, 8-15 bright.
    pub ansi_colors: [(u8, u8, u8); 16],
}

/// An opaque pixel `0xAARRGGBB` with full alpha.
pub open spec fn pixel(r: u8, g: u8, b: u8) -> u32 {
    (0xFF00_0000 + r as int * 0x1_0000 + g as int * 0x100 + b as int) as u32
}

/// The default palette's ANSI colours.
pub open spec fn default_ansi(i: int) -> (u8, u8, u8) {
    if i == 0 {
        (26, 27, 38)
    } else if i == 1 {
        (247, 118, 142)
    } else if i == 2 {
        (158, 206, 106)
    } else if i == 3 {
        (224, 175, 104)
    } else if i == 4 {
        (122, 162, 247)
    } else if i == 5 {
        (187, 154, 247)
    } else if i == 6 {
        (125, 207, 255)
    } else if i == 7 {
        (192, 202, 245)
    } else if i == 8 {
        (86, 95, 137)
    } else if i == 9 {
        (255, 135, 157)
    } else if i == 10 {
        (182, 227, 133)
    } else if i == 11 {
        (241, 200, 135)
    } else if i == 12 {
        (142, 182, 255)
    } else if i == 13 {
        (207, 184, 255)
    } else if i == 14 {
        (154, 227, 255)
    } else {
        (220, 228, 255)
    }
}

/// The default palette (Tokyo Night inspired).
pub open spec fn default_theme(t: ModernTheme) -> bool {
    &&& t.bg_primary == (26u8, 27u8, 38u8)
    &&& t.bg_secondary == (30u8, 32u8, 44u8)
    &&& t.bg_highlight == (42u8, 45u8, 60u8)
    &&& t.fg_primary == (192u8, 202u8, 245u8)
    &&& t.fg_secondary == (169u8, 177u8, 214u8)
    &&& t.fg_muted == (118u8, 124u8, 155u8)
    &&& t.fg_suggestion == (75u8, 82u8, 95u8)
    &&& t.accent_blue == (122u8, 162u8, 247u8)
    &&& t.accent_cyan == (125u8, 207u8, 255u8)
    &&& t.accent_green == (158u8, 206u8, 106u8)
    &&& t.accent_yellow == (224u8, 175u8, 104u8)
    &&& t.accent_red == (247u8, 118u8, 142u8)
    &&& t.accent_magenta == (187u8, 154u8, 247u8)
    &&& t.accent_orange == (255u8, 158u8, 100u8)
    &&& forall|i: int| 0 <= i < 16 ==> #[trigger] t.ansi_colors@[i] == default_ansi(i)
}

impl Default for ModernTheme {
    fn default() -> (r: Self)
        ensures
            default_theme(r),
    {
        let ansi_colors = [
            (26, 27, 38),
            (247, 118, 142),
            (158, 206, 106),
            (224, 175, 104),
            (122, 162, 247),
            (187, 154, 247),
            (125, 207, 255),
            (192, 202, 245),
            (86, 95, 137),
            (255, 135, 157),
            (182, 227, 133),
            (241, 200, 135),
            (142, 182, 255),
            (207, 184, 255),
            (154, 227, 255),
            (220, 228, 255),
        ];
        let t = ModernTheme {
            bg_primary: (26, 27, 38),
            bg_secondary: (30, 32, 44),
            bg_highlight: (42, 45, 60),
            fg_primary: (192, 202, 245),
            fg_secondary: (169, 177, 214),
            fg_muted: (118, 124, 155),
            fg_suggestion: (75, 82, 95),
            accent_blue: (122, 162, 247),
            accent_cyan: (125, 207, 255),
            accent_green: (158, 206, 106),
            accent_yellow: (224, 175, 104),
            accent_red: (247, 118, 142),
            accent_magenta: (187, 154, 247),
            accent_orange: (255, 158, 100),
            ansi_colors,
        };
        assert forall|i: int| 0 <= i < 16 implies #[trigger] t.ansi_colors@[i] == default_ansi(i) by {}
        t
    }
}

impl ModernTheme {
    /// The opaque pixel `0xFFRRGGBB`.
    pub fn rgb_to_u32(r: u8, g: u8, b: u8) -> (p: u32)
        ensures
            p == pixel(r, g, b),
    {
        let p = 0xFF00_0000u32 | ((r as u32) << 16) | ((g as u32) << 8) | (b as u32);
        assert(0xFF00_0000u32 | ((r as u32) << 16) | ((g as u32) << 8) | (b as u32) == (0xFF00_0000
            + r as int * 0x1_0000 + g as int * 0x100 + b as int) as u32) by (bit_vector);
        p
    }

    /// The main background as a pixel.
    pub fn bg_primary_u32(&self) -> (p: u32)
        ensures
            p == pixel(self.bg_primary.0, self.bg_primary.1, self.bg_primary.2),
    {
        Self::rgb_to_u32(self.bg_primary.0, self.bg_primary.1, self.bg_primary.2)
    }

    /// The main text colour as a pixel.
    pub fn fg_primary_u32(&self) -> (p: u32)
        ensures
            p == pixel(self.fg_primary.0, self.fg_primary.1, self.fg_primary.2),
    {
        Self::rgb_to_u32(self.fg_primary.0, self.fg_primary.1, self.fg_primary.2)
    }

    /// ANSI colour `index` as a pixel (indices past 15 give colour 15).
    pub fn get_ansi_color(&self, index: u8) -> (p: u32)
        ensures
            ({
                let c = self.ansi_colors@[if index < 15 { index as int } else { 15 }];
                p == pixel(c.0, c.1, c.2)
            }),
    {
        let idx: usize = if (index as usize) < 15 { index as usize } else { 15 };
        let (r, g, b) = self.ansi_colors[idx];
        Self::rgb_to_u32(r, g, b)
    }

    /// The blue accent as a pixel.
    pub fn accent_blue_u32(&self) -> (p: u32)
        ensures
            p == pixel(self.accent_blue.0, self.accent_blue.1, self.accent_blue.2),
    {
        Self::rgb_to_u32(self.accent_blue.0, self.accent_blue.1, self.accent_blue.2)
    }

    /// The cyan accent as a pixel.
    pub fn accent_cyan_u32(&self) -> (p: u32)
        ensures
            p == pixel(self.accent_cyan.0, self.accent_cyan.1, self.accent_cyan.2),
    {
        Self::rgb_to_u32(self.accent_cyan.0, self.accent_cyan.1, self.accent_cyan.2)
    }

    /// The green accent as a pixel.
    pub fn accent_green_u32(&self) -> (p: u32)
        ensures
            p == pixel(self.accent_green.0, self.accent_green.1, self.accent_green.2),
    {
        Self::rgb_to_u32(self.accent_green.0, self.accent_green.1, self.accent_green.2)
    }

    /// The red accent as a pixel.
    pub fn accent_red_u32(&self) -> (p: u32)
        ensures
            p == pixel(self.accent_red.0, self.accent_red.1, self.accent_red.2),
    {
        Self::rgb_to_u32(self.accent_red.0, self.accent_red.1, self.accent_red.2)
    }

    /// The yellow accent as a pixel.
    pub fn accent_yellow_u32(&self) -> (p: u32)
        ensures
            p == pixel(self.accent_yellow.0, self.accent_yellow.1, self.accent_yellow.2),
    {
        Self::rgb_to_u32(self.accent_yellow.0, self.accent_yellow.1, self.accent_yellow.2)
    }

    /// The background of selected cells: the highlight colour.
    pub fn selection_bg_u32(&self) -> (p: u32)
        ensures
            p == pixel(self.bg_highlight.0, self.bg_highlight.1, self.bg_highlight.2),
    {
        Self::rgb_to_u32(self.bg_highlight.0, self.bg_highlight.1, self.bg_highlight.2)
    }

    /// The text colour of suggestions.
    pub fn fg_suggestion_u32(&self) -> (p: u32)
        ensures
            p == pixel(self.fg_suggestion.0, self.fg_suggestion.1, self.fg_suggestion.2),
    {
        Self::rgb_to_u32(self.fg_suggestion.0, self.fg_suggestion.1, self.fg_suggestion.2)
    }

    /// The magenta accent as a pixel.
    pub fn accent_magenta_u32(&self) -> (p: u32)
        ensures
            p == pixel(self.accent_magenta.0, self.accent_magenta.1, self.accent_magenta.2),
    {
        Self::rgb_to_u32(self.accent_magenta.0, self.accent_magenta.1, self.accent_magenta.2)
    }

    /// The colour of success lines (`#98c379`).
    pub fn success_u32(&self) -> (p: u32)
        ensures
            p == pixel(0x98, 0xc3, 0x79),
    {
        Self::rgb_to_u32(0x98, 0xc3, 0x79)
    }

    /// TRACE log lines: the muted foreground (grey).
    pub fn log_trace_u32(&self) -> (p: u32)
        ensures
            p == pixel(self.fg_muted.0, self.fg_muted.1, self.fg_muted.2),
    {
        Self::rgb_to_u32(self.fg_muted.0, self.fg_muted.1, self.fg_muted.2)
    }

    /// DEBUG log lines (`#56b6c2`, cyan).
    pub fn log_debug_u32(&self) -> (p: u32)
        ensures
            p == pixel(0x56, 0xb6, 0xc2),
    {
        Self::rgb_to_u32(0x56, 0xb6, 0xc2)
    }

    /// INFO log lines (`#61afef`, blue).
    pub fn log_info_u32(&self) -> (p: u32)
        ensures
            p == pixel(0x61, 0xaf, 0xef),
    {
        Self::rgb_to_u32(0x61, 0xaf, 0xef)
    }

    /// WARN log lines (`#e5c07b`, yellow).
    pub fn log_warn_u32(&self) -> (p: u32)
        ensures
            p == pixel(0xe5, 0xc0, 0x7b),
    {
        Self::rgb_to_u32(0xe5, 0xc0, 0x7b)
    }

    /// ERROR log lines (`#e06c75`, red).
    pub fn log_error_u32(&self) -> (p: u32)
        ensures
            p == pixel(0xe0, 0x6c, 0x75),
    {
        Self::rgb_to_u32(0xe0, 0x6c, 0x75)
    }

    /// FATAL log lines: the red accent.
    pub fn log_fatal_u32(&self) -> (p: u32)
        ensures
            p == pixel(self.accent_red.0, self.accent_red.1, self.accent_red.2),
    {
        Self::rgb_to_u32(self.accent_red.0, self.accent_red.1, self.accent_red.2)
    }

    /// JSON braces and brackets: the secondary foreground.
    pub fn json_bracket_u32(&self) -> (p: u32)
        ensures
            p == pixel(self.fg_secondary.0, self.fg_secondary.1, self.fg_secondary.2),
    {
        Self::rgb_to_u32(self.fg_secondary.0, self.fg_secondary.1, self.fg_secondary.2)
    }

    /// JSON keys (`#61afef`, blue).
    pub fn json_key_u32(&self) -> (p: u32)
        ensures
            p == pixel(0x61, 0xaf, 0xef),
    {
        Self::rgb_to_u32(0x61, 0xaf, 0xef)
    }

    /// JSON strings (`#98c379`, green).
    pub fn json_string_u32(&self) -> (p: u32)
        ensures
            p == pixel(0x98, 0xc3, 0x79),
    {
        Self::rgb_to_u32(0x98, 0xc3, 0x79)
    }

    /// JSON numbers (`#d19a66`, orange).
    pub fn json_number_u32(&self) -> (p: u32)
        ensures
            p == pixel(0xd1, 0x9a, 0x66),
    {
        Self::rgb_to_u32(0xd1, 0x9a, 0x66)
    }

    /// JSON booleans (`#c678dd`, magenta).
    pub fn json_boolean_u32(&self) -> (p: u32)
        ensures
            p == pixel(0xc6, 0x78, 0xdd),
    {
        Self::rgb_to_u32(0xc6, 0x78, 0xdd)
    }

    /// JSON `null` (`#56b6c2`, cyan).
    pub fn json_null_u32(&self) -> (p: u32)
        ensures
            p == pixel(0x56, 0xb6, 0xc2),
    {
        Self::rgb_to_u32(0x56, 0xb6, 0xc2)
    }
}

} // verus!
