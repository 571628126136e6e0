//! Configuration values of the terminal and their defaults.

use vstd::prelude::*;

verus! {

/// Default text and background colours.
#[derive(Debug, Clone, Copy)]
pub struct ColorsConfig {
    pub foreground: [u8; 3],
    pub background: [u8; 3],
}

/// Terminal behaviour: scrollback length and the shell to run (the user's own if none).
#[derive(Debug, Clone)]
pub struct TerminalConfig {
    pub scrollback_lines: usize,
    pub shell: Option<String>,
}

/// Which kinds of smart rendering are enabled.
#[derive(Debug, Clone, Copy)]
pub struct RenderingConfig {
    /// Detection of logs, JSON, tables and the like.
    pub smart_detection: bool,
    /// Colours for JSON.
    pub json_colors: bool,
    /// Colours for log levels.
    pub log_colors: bool,
    /// Detection of tables.
    pub table_detection: bool,
}

/// Default font family.
pub fn default_font_family() -> (r: String)
    ensures
        r@ == "CascadiaCode"@,
{
    let mut s = String::new();
    crate::text::string_push_str(&mut s, "CascadiaCode");
    assert(s@ =~= "CascadiaCode"@);
    s
}

/// Smart detection is on by default.
pub fn default_smart_detection() -> (r: bool)
    ensures
        r,
{
    true
}

/// JSON colours are on by default.
pub fn default_json_colors() -> (r: bool)
    ensures
        r,
{
    true
}

/// Log colours are on by default.
pub fn default_log_colors() -> (r: bool)
    ensures
        r,
{
    true
}

/// Table detection is on by default.
pub fn default_table_detection() -> (r: bool)
    ensures
        r,
{
    true
}

/// Default text colour: light grey.
pub fn default_foreground() -> (r: [u8; 3])
    ensures
        r@ == seq![229u8, 229u8, 229u8],
{
    let r = [229, 229, 229];
    assert(r@ =~= seq![229u8, 229u8, 229u8]);
    r
}

/// Default background: black.
pub fn default_background() -> (r: [u8; 3])
    ensures
        r@ == seq![0u8, 0u8, 0u8],
{
    let r = [0, 0, 0];
    assert(r@ =~= seq![0u8, 0u8, 0u8]);
    r
}

/// Default number of scrollback lines.
pub fn default_scrollback() -> (r: usize)
    ensures
        r == 10_000,
{
    10_000
}

impl Default for ColorsConfig {
    fn default() -> (r: Self)
        ensures
            r.foreground@ == seq![229u8, 229u8, 229u8],
            r.background@ == seq![0u8, 0u8, 0u8],
    {
        ColorsConfig { foreground: default_foreground(), background: default_background() }
    }
}

impl Default for TerminalConfig {
    fn default() -> (r: Self)
        ensures
            r.scrollback_lines == 10_000,
            r.shell is None,
    {
        TerminalConfig { scrollback_lines: default_scrollback(), shell: None }
    }
}

impl Default for RenderingConfig {
    fn default() -> (r: Self)
        ensures
            r.smart_detection && r.json_colors && r.log_colors && r.table_detection,
    {
        RenderingConfig {
            smart_detection: default_smart_detection(),
            json_colors: default_json_colors(),
            log_colors: default_log_colors(),
            table_detection: default_table_detection(),
        }
    }
}

} // verus!
