//! Detection of structured output: logs, errors, JSON, tables, stack traces.
//!
//! Detection only colours output; it never changes what a program receives.

use vstd::prelude::*;
use crate::text::{
    chars_of, contains_seq, contains_str, ends_with_seq, is_numeric, is_whitespace, is_ws,
    lowercase_of, starts_with_seq, starts_with_str, ends_with_str, to_lowercase, to_uppercase,
    trim_chars, trim_seq, trim_start_chars, trim_start_seq, unicode_numeric, uppercase_of,
};

verus! {

/// Kind of content detected in a line.
#[derive(Debug, Clone, Copy, PartialEq, Eq, Structural)]
pub enum ContentType {
    Normal,
    Log(LogLevel),
    Error,
    Json,
    Table,
    StackTrace,
    Warning,
    Success,
}

/// Level of a log line.
#[derive(Debug, Clone, Copy, PartialEq, Eq, Structural)]
pub enum LogLevel {
    Trace,
    Debug,
    Info,
    Warn,
    Error,
    Fatal,
}

/// A colourable token of a JSON line.
#[derive(Debug, Clone, Copy, PartialEq, Eq, Structural)]
pub struct JsonFragment {
    /// First column (in characters) of the token.
    pub start_col: usize,
    /// Column just past the token.
    pub end_col: usize,
    /// Nesting depth at the token.
    pub depth: usize,
    pub token_type: JsonTokenType,
}

/// Kinds of JSON tokens.
#[derive(Debug, Clone, Copy, PartialEq, Eq, Structural)]
pub enum JsonTokenType {
    BraceOpen,
    BraceClose,
    BracketOpen,
    BracketClose,
    String,
    Number,
    Boolean,
    Null,
    Key,
    Colon,
    Comma,
}

/// A table line: the columns of its separators and its role.
#[derive(Debug, Clone)]
pub struct TableInfo {
    pub columns: Vec<usize>,
    pub row_type: TableRowType,
}

/// Role of a line in a table.
#[derive(Debug, Clone, Copy, PartialEq, Eq, Structural)]
pub enum TableRowType {
    Header,
    Data,
    Separator,
}

/// A table being followed across lines.
struct TableState {
    column_positions: Vec<usize>,
    rows_seen: usize,
}

/// Content detector; it remembers an open table between lines.
pub struct ContentDetector {
    table_state: Option<TableState>,
}

// ---------------------------------------------------------------- line predicates

/// Log level named in a line, most severe first: the markers are looked for in the
/// upper-cased line.
pub open spec fn log_level_of(line: Seq<char>) -> Option<LogLevel> {
    log_level_in(uppercase_of(line))
}

/// Log level named in an upper-cased line `u`, most severe first.
pub open spec fn log_level_in(u: Seq<char>) -> Option<LogLevel> {
    if contains_seq(u, "FATAL"@) || contains_seq(u, "CRITICAL"@) {
        Some(LogLevel::Fatal)
    } else if contains_seq(u, "ERROR"@) || contains_seq(u, "[ERR]"@) || contains_seq(u, "\u{2717}"@) {
        Some(LogLevel::Error)
    } else if contains_seq(u, "WARN"@) || contains_seq(u, "WARNING"@) || contains_seq(u, "[WRN]"@) {
        Some(LogLevel::Warn)
    } else if contains_seq(u, "INFO"@) || contains_seq(u, "[INF]"@) || contains_seq(u, "\u{2139}"@) {
        Some(LogLevel::Info)
    } else if contains_seq(u, "DEBUG"@) || contains_seq(u, "[DBG]"@) {
        Some(LogLevel::Debug)
    } else if contains_seq(u, "TRACE"@) || contains_seq(u, "[TRC]"@) {
        Some(LogLevel::Trace)
    } else {
        None
    }
}

/// A frame of a Rust, Java, Python or JavaScript stack trace.
pub open spec fn stack_trace_line(l: Seq<char>) -> bool {
    let at = starts_with_seq(trim_start_seq(l), "at "@);
    ||| contains_seq(l, "at "@) && (contains_seq(l, ".rs:"@) || contains_seq(l, ".java:"@)
        || contains_seq(l, ".py:"@) || contains_seq(l, ".js:"@))
    ||| contains_seq(l, "-->"@) && contains_seq(l, ":"@)
    ||| at && contains_seq(l, "("@) && contains_seq(l, ".java:"@)
    ||| contains_seq(l, "File \""@) && contains_seq(l, "\", line "@)
    ||| at && (contains_seq(l, ".js:"@) || contains_seq(l, ".ts:"@))
}

/// An error message: the markers are looked for in the lower-cased line.
pub open spec fn error_line(l: Seq<char>) -> bool {
    error_in(lowercase_of(l))
}

/// Error markers in a lower-cased line `w`.
pub open spec fn error_in(w: Seq<char>) -> bool {
    contains_seq(w, "error:"@) || contains_seq(w, "exception"@) || contains_seq(w, "traceback"@)
        || contains_seq(w, "fatal:"@) || starts_with_seq(w, "error["@) || contains_seq(
        w,
        "\u{2717} error"@,
    ) || contains_seq(w, "\u{274c}"@)
}

/// A warning: the markers are looked for in the lower-cased line.
pub open spec fn warning_line(l: Seq<char>) -> bool {
    warning_in(lowercase_of(l))
}

/// Warning markers in a lower-cased line `w`.
pub open spec fn warning_in(w: Seq<char>) -> bool {
    contains_seq(w, "warning:"@) || contains_seq(w, "caution"@) || starts_with_seq(w, "warning["@)
        || contains_seq(w, "\u{26a0}"@)
}

/// A success message: the markers are looked for in the lower-cased line.
pub open spec fn success_line(l: Seq<char>) -> bool {
    success_in(lowercase_of(l))
}

/// Success markers in a lower-cased line `w` ("ok" only without "error").
pub open spec fn success_in(w: Seq<char>) -> bool {
    contains_seq(w, "\u{2713}"@) || contains_seq(w, "\u{2714}"@) || contains_seq(w, "success"@)
        || contains_seq(w, "passed"@) || contains_seq(w, "\u{2705}"@) || (contains_seq(w, "ok"@)
        && !contains_seq(w, "error"@))
}

/// A line holding JSON: a bracketed value, a nested value after a colon, or a
/// quoted key next to a brace.
pub open spec fn json_line(l: Seq<char>) -> bool {
    let t = trim_seq(l);
    ||| (starts_with_seq(t, "{"@) || starts_with_seq(t, "["@)) && (ends_with_seq(t, "}"@)
        || ends_with_seq(t, "]"@) || ends_with_seq(t, ","@))
    ||| contains_seq(t, ":{"@) || contains_seq(t, ":["@)
    ||| contains_seq(t, "\":"@) && (t.contains('{') || t.contains('}'))
}

/// Characters that draw table separators.
pub open spec fn separator_char(c: char) -> bool {
    c == '+' || c == '-' || c == '=' || c == '|' || c == '\u{2500}' || c == '\u{2501}' || c
        == '\u{2550}'
}

/// Number of non-white-space characters of `s`.
pub open spec fn count_non_ws(s: Seq<char>) -> nat
    decreases s.len(),
{
    if s.len() == 0 {
        0
    } else {
        count_non_ws(s.drop_last()) + if is_ws(s.last()) { 0nat } else { 1nat }
    }
}

/// Number of separator characters of `s`.
pub open spec fn count_separators(s: Seq<char>) -> nat
    decreases s.len(),
{
    if s.len() == 0 {
        0
    } else {
        count_separators(s.drop_last()) + if separator_char(s.last()) { 1nat } else { 0nat }
    }
}

/// A table separator line: at least three visible characters, at least 70% of
/// them separator characters.
pub open spec fn table_separator(l: Seq<char>) -> bool {
    let t = trim_seq(l);
    let n = count_non_ws(t);
    t.len() > 0 && n >= 3 && 10 * count_separators(t) >= 7 * n
}

/// Columns of `s` (from `i` on) that hold `+` or `|`.
pub open spec fn column_positions_from(s: Seq<char>, i: int) -> Seq<usize>
    decreases s.len() - i,
{
    if i >= s.len() || i < 0 {
        Seq::empty()
    } else {
        let rest = column_positions_from(s, i + 1);
        if s[i] == '+' || s[i] == '|' { seq![i as usize] + rest } else { rest }
    }
}

/// A `|` at column `j`.
pub open spec fn bar_at(s: Seq<char>, j: int) -> bool {
    0 <= j < s.len() && s[j] == '|'
}

/// A `|` within two columns of `pos`.
pub open spec fn bar_near(s: Seq<char>, pos: int) -> bool {
    bar_at(s, pos - 2) || bar_at(s, pos - 1) || bar_at(s, pos) || bar_at(s, pos + 1) || bar_at(s, pos + 2)
}

/// Number of positions of `cols[..k]` with a `|` near them in `s`.
pub open spec fn bars_matched(s: Seq<char>, cols: Seq<usize>, k: int) -> nat
    decreases k,
{
    if k <= 0 {
        0
    } else {
        bars_matched(s, cols, k - 1) + if bar_near(s, cols[k - 1] as int) { 1nat } else { 0nat }
    }
}

/// A row of the table whose separator columns are `cols`: at least half of them
/// have a `|` nearby.
pub open spec fn table_row(s: Seq<char>, cols: Seq<usize>) -> bool {
    cols.len() > 0 && bars_matched(s, cols, cols.len() as int) >= cols.len() / 2
}

// ---------------------------------------------------------------- JSON tokens

/// Characters that continue a number.
pub open spec fn num_char(c: char) -> bool {
    unicode_numeric(c) || c == '.' || c == '-' || c == 'e' || c == 'E'
}

/// First column from `j` on that does not continue a number.
pub open spec fn number_end(s: Seq<char>, j: int) -> int
    decreases s.len() - j,
{
    if j < 0 || j >= s.len() || !num_char(s[j]) {
        j
    } else {
        number_end(s, j + 1)
    }
}

/// `number_end` moves forward and stays within the line.
pub proof fn lemma_number_end(s: Seq<char>, j: int)
    requires
        0 <= j <= s.len(),
    ensures
        j <= number_end(s, j) <= s.len(),
        forall|k: int| j <= k < number_end(s, j) ==> num_char(#[trigger] s[k]),
        number_end(s, j) < s.len() ==> !num_char(s[number_end(s, j)]),
    decreases s.len() - j,
{
    if j < s.len() && num_char(s[j]) {
        lemma_number_end(s, j + 1);
    }
}

/// A quote that is not escaped by the character before it.
pub open spec fn closing_quote(s: Seq<char>, i: int) -> bool {
    s[i] == '"' && (i == 0 || s[i - 1] != '\\')
}

/// After a string opened before `i` (if `in_string`), the next visible character is `:`.
pub open spec fn colon_follows(s: Seq<char>, i: int, in_string: bool) -> bool
    decreases s.len() - i,
{
    if i < 0 || i >= s.len() {
        false
    } else if in_string {
        colon_follows(s, i + 1, !closing_quote(s, i))
    } else if s[i] == ':' {
        true
    } else if !is_ws(s[i]) {
        false
    } else {
        colon_follows(s, i + 1, false)
    }
}

/// `s[i..i+k]` spells `w`.
pub open spec fn spells(s: Seq<char>, i: int, w: Seq<char>) -> bool {
    i + w.len() <= s.len() && s.subrange(i, i + w.len()) == w
}

/// A fragment of one column.
pub open spec fn frag1(i: int, depth: int, t: JsonTokenType) -> JsonFragment {
    JsonFragment { start_col: i as usize, end_col: (i + 1) as usize, depth: depth as usize, token_type: t }
}

/// Tokens of `s` from column `i`, with the nesting `depth` and string state reached there.
pub open spec fn json_tokens(s: Seq<char>, i: int, depth: int, in_string: bool, is_key: bool) -> Seq<JsonFragment>
    decreases s.len() - i,
{
    if i < 0 || i >= s.len() {
        Seq::empty()
    } else {
        let c = s[i];
        if in_string {
            if closing_quote(s, i) {
                let t = if is_key { JsonTokenType::Key } else { JsonTokenType::String };
                seq![frag1(i, depth, t)] + json_tokens(s, i + 1, depth, false, false)
            } else {
                json_tokens(s, i + 1, depth, true, is_key)
            }
        } else if c == '{' || c == '[' {
            let t = if c == '{' { JsonTokenType::BraceOpen } else { JsonTokenType::BracketOpen };
            seq![frag1(i, depth, t)] + json_tokens(s, i + 1, depth + 1, false, is_key)
        } else if c == '}' || c == ']' {
            let d = if depth > 0 { depth - 1 } else { 0 };
            let t = if c == '}' { JsonTokenType::BraceClose } else { JsonTokenType::BracketClose };
            seq![frag1(i, d, t)] + json_tokens(s, i + 1, d, false, is_key)
        } else if c == '"' {
            json_tokens(s, i + 1, depth, true, colon_follows(s, i + 1, true))
        } else if c == ':' || c == ',' {
            let t = if c == ':' { JsonTokenType::Colon } else { JsonTokenType::Comma };
            seq![frag1(i, depth, t)] + json_tokens(s, i + 1, depth, false, is_key)
        } else if (c == 't' || c == 'f') && (spells(s, i, seq!['t', 'r', 'u', 'e']) || spells(s, i, seq!['f', 'a', 'l', 's', 'e'])) {
            let len = if s[i + 1] == 'r' { 4int } else { 5int };
            seq![
                JsonFragment {
                    start_col: i as usize,
                    end_col: (i + len) as usize,
                    depth: depth as usize,
                    token_type: JsonTokenType::Boolean,
                },
            ] + json_tokens(s, i + len, depth, false, is_key)
        } else if c == 'n' && spells(s, i, seq!['n', 'u', 'l', 'l']) {
            seq![
                JsonFragment {
                    start_col: i as usize,
                    end_col: (i + 4) as usize,
                    depth: depth as usize,
                    token_type: JsonTokenType::Null,
                },
            ] + json_tokens(s, i + 4, depth, false, is_key)
        } else if ('0' <= c <= '9') || c == '-' {
            let e = number_end(s, i + 1);
            proof {
                lemma_number_end(s, i + 1);
            }
            seq![
                JsonFragment {
                    start_col: i as usize,
                    end_col: e as usize,
                    depth: depth as usize,
                    token_type: JsonTokenType::Number,
                },
            ] + json_tokens(s, e, depth, false, is_key)
        } else {
            json_tokens(s, i + 1, depth, false, is_key)
        }
    }
}

// ---------------------------------------------------------------- detector state

/// What `detect_table(line)` does to the followed table and returns.
pub open spec fn table_step(st: Option<(Seq<usize>, nat)>, l: Seq<char>) -> (Option<(Seq<usize>, nat)>, Option<(Seq<usize>, TableRowType)>) {
    if table_separator(l) {
        let cols = column_positions_from(l, 0);
        (Some((cols, 0)), Some((cols, TableRowType::Separator)))
    } else {
        match st {
            Some((cols, n)) => if table_row(l, cols) {
                let t = if n + 1 == 1 { TableRowType::Header } else { TableRowType::Data };
                (Some((cols, (n + 1) as nat)), Some((cols, t)))
            } else {
                (None, None)
            },
            None => (None, None),
        }
    }
}

/// What `detect_line(line)` returns, given the followed table.
pub open spec fn line_kind(st: Option<(Seq<usize>, nat)>, l: Seq<char>) -> ContentType {
    let t = trim_start_seq(l);
    if stack_trace_line(t) {
        ContentType::StackTrace
    } else if log_level_of(t) is Some {
        ContentType::Log(log_level_of(t)->0)
    } else if error_line(t) {
        ContentType::Error
    } else if warning_line(t) {
        ContentType::Warning
    } else if success_line(t) {
        ContentType::Success
    } else if json_line(l) {
        ContentType::Json
    } else if table_step(st, l).1 is Some {
        ContentType::Table
    } else {
        ContentType::Normal
    }
}

/// The followed table after `detect_line(line)`.
pub open spec fn line_table_state(st: Option<(Seq<usize>, nat)>, l: Seq<char>) -> Option<(Seq<usize>, nat)> {
    let t = trim_start_seq(l);
    if stack_trace_line(t) || log_level_of(t) is Some || error_line(t) || warning_line(t)
        || success_line(t) || json_line(l) {
        st
    } else {
        table_step(st, l).0
    }
}


// ---------------------------------------------------------------- executable detection

/// Log level named in a line, most severe first (see `log_level_of`).
pub fn detect_log_level(line: &str) -> (r: Option<LogLevel>)
    ensures
        r == log_level_of(line@),
{
    let upper = to_uppercase(line);
    log_level_from_uppercase(upper.as_str())
}

/// Log level named in an already upper-cased line (see `log_level_in`).
pub fn log_level_from_uppercase(upper: &str) -> (r: Option<LogLevel>)
    ensures
        r == log_level_in(upper@),
{
    let u = chars_of(upper);
    if contains_str(&u, "FATAL") || contains_str(&u, "CRITICAL") {
        return Some(LogLevel::Fatal);
    }
    if contains_str(&u, "ERROR") || contains_str(&u, "[ERR]") || contains_str(&u, "\u{2717}") {
        return Some(LogLevel::Error);
    }
    if contains_str(&u, "WARN") || contains_str(&u, "WARNING") || contains_str(&u, "[WRN]") {
        return Some(LogLevel::Warn);
    }
    if contains_str(&u, "INFO") || contains_str(&u, "[INF]") || contains_str(&u, "\u{2139}") {
        return Some(LogLevel::Info);
    }
    if contains_str(&u, "DEBUG") || contains_str(&u, "[DBG]") {
        return Some(LogLevel::Debug);
    }
    if contains_str(&u, "TRACE") || contains_str(&u, "[TRC]") {
        return Some(LogLevel::Trace);
    }
    None
}

/// Whether a line is a stack-trace frame (see `stack_trace_line`).
pub fn is_stack_trace_line(line: &str) -> (r: bool)
    ensures
        r == stack_trace_line(line@),
{
    let l = chars_of(line);
    let t = trim_start_chars(&l);
    let at = starts_with_str(&t, "at ");
    if contains_str(&l, "at ") && (contains_str(&l, ".rs:") || contains_str(&l, ".java:")
        || contains_str(&l, ".py:") || contains_str(&l, ".js:")) {
        return true;
    }
    if contains_str(&l, "-->") && contains_str(&l, ":") {
        return true;
    }
    if at && contains_str(&l, "(") && contains_str(&l, ".java:") {
        return true;
    }
    if contains_str(&l, "File \"") && contains_str(&l, "\", line ") {
        return true;
    }
    if at && (contains_str(&l, ".js:") || contains_str(&l, ".ts:")) {
        return true;
    }
    false
}

/// Whether a line is an error message (see `error_line`).
pub fn is_error_line(line: &str) -> (r: bool)
    ensures
        r == error_line(line@),
{
    let lower = to_lowercase(line);
    error_in_lowercase(lower.as_str())
}

/// The error markers of an already lower-cased line (see `error_in`).
pub fn error_in_lowercase(lower: &str) -> (r: bool)
    ensures
        r == error_in(lower@),
{
    let w = chars_of(lower);
    contains_str(&w, "error:") || contains_str(&w, "exception") || contains_str(&w, "traceback")
        || contains_str(&w, "fatal:") || starts_with_str(&w, "error[") || contains_str(
        &w,
        "\u{2717} error",
    ) || contains_str(&w, "\u{274c}")
}

/// Whether a line is a warning (see `warning_line`).
pub fn is_warning_line(line: &str) -> (r: bool)
    ensures
        r == warning_line(line@),
{
    let lower = to_lowercase(line);
    warning_in_lowercase(lower.as_str())
}

/// The warning markers of an already lower-cased line (see `warning_in`).
pub fn warning_in_lowercase(lower: &str) -> (r: bool)
    ensures
        r == warning_in(lower@),
{
    let w = chars_of(lower);
    contains_str(&w, "warning:") || contains_str(&w, "caution") || starts_with_str(&w, "warning[")
        || contains_str(&w, "\u{26a0}")
}

/// Whether a line reports success (see `success_line`).
pub fn is_success_line(line: &str) -> (r: bool)
    ensures
        r == success_line(line@),
{
    let lower = to_lowercase(line);
    success_in_lowercase(lower.as_str())
}

/// The success markers of an already lower-cased line (see `success_in`).
pub fn success_in_lowercase(lower: &str) -> (r: bool)
    ensures
        r == success_in(lower@),
{
    let w = chars_of(lower);
    contains_str(&w, "\u{2713}") || contains_str(&w, "\u{2714}") || contains_str(&w, "success")
        || contains_str(&w, "passed") || contains_str(&w, "\u{2705}") || (contains_str(&w, "ok")
        && !contains_str(&w, "error"))
}

/// Whether a line holds JSON (see `json_line`).
pub fn is_json_line(line: &str) -> (r: bool)
    ensures
        r == json_line(line@),
{
    let l = chars_of(line);
    let t = trim_chars(&l);
    if (starts_with_str(&t, "{") || starts_with_str(&t, "[")) && (ends_with_str(&t, "}")
        || ends_with_str(&t, "]") || ends_with_str(&t, ",")) {
        return true;
    }
    if contains_str(&t, ":{") || contains_str(&t, ":[") {
        return true;
    }
    if contains_str(&t, "\":") && (crate::text::contains_char(&t, '{') || crate::text::contains_char(&t, '}')) {
        return true;
    }
    false
}

/// Whether `c` draws table separators.
fn is_separator_char(c: char) -> (r: bool)
    ensures
        r == separator_char(c),
{
    c == '+' || c == '-' || c == '=' || c == '|' || c == '\u{2500}' || c == '\u{2501}' || c
        == '\u{2550}'
}

/// Whether a line is a table separator (see `table_separator`).
pub fn is_table_separator(line: &str) -> (r: bool)
    ensures
        r == table_separator(line@),
{
    let l = chars_of(line);
    let t = trim_chars(&l);
    if t.len() == 0 {
        return false;
    }
    let mut n: usize = 0;
    let mut sep: usize = 0;
    let mut i: usize = 0;
    while i < t.len()
        invariant
            i <= t@.len(),
            n == count_non_ws(t@.take(i as int)),
            sep == count_separators(t@.take(i as int)),
            n <= i,
            sep <= i,
        decreases t@.len() - i,
    {
        let c = t[i];
        assert(t@.take(i + 1).drop_last() =~= t@.take(i as int));
        if !is_whitespace(c) {
            n += 1;
        }
        if is_separator_char(c) {
            sep += 1;
        }
        i += 1;
    }
    assert(t@.take(t@.len() as int) =~= t@);
    if n < 3 {
        return false;
    }
    (sep as u128) * 10 >= (n as u128) * 7
}

/// Columns of a separator line that hold `+` or `|`.
pub fn find_column_positions(line: &str) -> (r: Vec<usize>)
    ensures
        r@ == column_positions_from(line@, 0),
{
    let l = chars_of(line);
    let mut positions: Vec<usize> = Vec::new();
    let mut i: usize = 0;
    while i < l.len()
        invariant
            i <= l@.len(),
            positions@ + column_positions_from(l@, i as int) == column_positions_from(l@, 0),
        decreases l@.len() - i,
    {
        if l[i] == '+' || l[i] == '|' {
            assert(positions@.push(i) + column_positions_from(l@, i + 1) =~= positions@ + (seq![i]
                + column_positions_from(l@, i + 1)));
            positions.push(i);
        }
        i += 1;
    }
    positions
}

/// Whether `s` has a `|` at column `j` (a negative column has none).
fn has_bar(s: &Vec<char>, pos: usize, back: usize, fwd: usize) -> (r: bool)
    requires
        back == 0 || fwd == 0,
        pos + fwd <= usize::MAX,
    ensures
        r == bar_at(s@, pos - back + fwd),
{
    if back > pos {
        return false;
    }
    let j = pos - back + fwd;
    j < s.len() && s[j] == '|'
}

/// Whether a line is a row of the table whose separator columns are `cols`
/// (see `table_row`).
pub fn is_table_row(line: &str, cols: &[usize]) -> (r: bool)
    requires
        forall|k: int| 0 <= k < cols@.len() ==> #[trigger] cols@[k] < 0x7fff_fffd,
    ensures
        r == table_row(line@, cols@),
{
    if cols.len() == 0 {
        return false;
    }
    let s = chars_of(line);
    let mut matches: usize = 0;
    let mut k: usize = 0;
    while k < cols.len()
        invariant
            k <= cols@.len(),
            s@ == line@,
            matches == bars_matched(s@, cols@, k as int),
            matches <= k,
            forall|q: int| 0 <= q < cols@.len() ==> #[trigger] cols@[q] < 0x7fff_fffd,
        decreases cols@.len() - k,
    {
        let pos = cols[k];
        let near = has_bar(&s, pos, 2, 0) || has_bar(&s, pos, 1, 0) || has_bar(&s, pos, 0, 0)
            || has_bar(&s, pos, 0, 1) || has_bar(&s, pos, 0, 2);
        if near {
            matches += 1;
        }
        k += 1;
    }
    matches >= cols.len() / 2
}

/// Whether, after a string opened before `start`, the next visible character is `:`.
pub fn peek_for_colon(chars: &[char], start: usize) -> (r: bool)
    ensures
        r == colon_follows(chars@, start as int, true),
{
    let mut i = start;
    let mut in_string = true;
    while i < chars.len()
        invariant
            colon_follows(chars@, i as int, in_string) == colon_follows(chars@, start as int, true),
        decreases chars@.len() - i,
    {
        if in_string {
            if chars[i] == '"' && (i == 0 || chars[i - 1] != '\\') {
                in_string = false;
            }
        } else {
            if chars[i] == ':' {
                return true;
            }
            if !is_whitespace(chars[i]) {
                return false;
            }
        }
        i += 1;
    }
    false
}

/// Whether `s[i..i+4]` spells the four characters `w`.
fn spells4(s: &Vec<char>, i: usize, w: [char; 4]) -> (r: bool)
    ensures
        r == spells(s@, i as int, seq![w[0], w[1], w[2], w[3]]),
{
    if i > s.len() || s.len() - i < 4 {
        return false;
    }
    let r = s[i] == w[0] && s[i + 1] == w[1] && s[i + 2] == w[2] && s[i + 3] == w[3];
    assert(r == (s@.subrange(i as int, i + 4) =~= seq![w[0], w[1], w[2], w[3]]));
    r
}

/// Whether `s[i..i+5]` spells the five characters `w`.
fn spells5(s: &Vec<char>, i: usize, w: [char; 5]) -> (r: bool)
    ensures
        r == spells(s@, i as int, seq![w[0], w[1], w[2], w[3], w[4]]),
{
    if i > s.len() || s.len() - i < 5 {
        return false;
    }
    let r = s[i] == w[0] && s[i + 1] == w[1] && s[i + 2] == w[2] && s[i + 3] == w[3] && s[i + 4] == w[4];
    assert(r == (s@.subrange(i as int, i + 5) =~= seq![w[0], w[1], w[2], w[3], w[4]]));
    r
}

impl Default for ContentDetector {
    fn default() -> (r: Self)
        ensures
            r.table() is None,
    {
        ContentDetector::new()
    }
}

impl ContentDetector {
    /// The table being followed: its separator columns and the rows seen since.
    pub closed spec fn table(&self) -> Option<(Seq<usize>, nat)> {
        match self.table_state {
            Some(t) => Some((t.column_positions@, t.rows_seen as nat)),
            None => None,
        }
    }

    /// A detector that follows no table.
    pub fn new() -> (r: Self)
        ensures
            r.table() is None,
    {
        ContentDetector { table_state: None }
    }

    /// Kind of content of a line (see `line_kind`); a table separator starts following
    /// a table, and the rows after it are matched against its columns.
    pub fn detect_line(&mut self, line: &str) -> (r: ContentType)
        requires
            line@.len() < 0x7fff_fffd,
            old(self).table() matches Some((cols, n)) ==> n < usize::MAX && forall|k: int|
                0 <= k < cols.len() ==> #[trigger] cols[k] < 0x7fff_fffd,
        ensures
            r == line_kind(old(self).table(), line@),
            final(self).table() == line_table_state(old(self).table(), line@),
    {
        let l = chars_of(line);
        let tv = trim_start_chars(&l);
        let trimmed = crate::text::string_from_chars(&tv);
        if is_stack_trace_line(trimmed.as_str()) {
            return ContentType::StackTrace;
        }
        if let Some(level) = detect_log_level(trimmed.as_str()) {
            return ContentType::Log(level);
        }
        if is_error_line(trimmed.as_str()) {
            return ContentType::Error;
        }
        if is_warning_line(trimmed.as_str()) {
            return ContentType::Warning;
        }
        if is_success_line(trimmed.as_str()) {
            return ContentType::Success;
        }
        if is_json_line(line) {
            return ContentType::Json;
        }
        if let Some(_info) = self.detect_table(line) {
            return ContentType::Table;
        }
        ContentType::Normal
    }

    /// Table role of a line (see `table_step`).
    fn detect_table(&mut self, line: &str) -> (r: Option<TableInfo>)
        requires
            line@.len() < 0x7fff_fffd,
            old(self).table() matches Some((cols, n)) ==> n < usize::MAX && forall|k: int|
                0 <= k < cols.len() ==> #[trigger] cols[k] < 0x7fff_fffd,
        ensures
            final(self).table() == table_step(old(self).table(), line@).0,
            match r {
                Some(info) => table_step(old(self).table(), line@).1 == Some((info.columns@, info.row_type)),
                None => table_step(old(self).table(), line@).1 is None,
            },
    {
        if is_table_separator(line) {
            let columns = find_column_positions(line);
            let kept = columns.clone();
            assert(kept@ =~= columns@);
            self.table_state = Some(TableState { column_positions: kept, rows_seen: 0 });
            return Some(TableInfo { columns, row_type: TableRowType::Separator });
        }
        match self.table_state.take() {
            Some(state) => {
                if is_table_row(line, state.column_positions.as_slice()) {
                    let rows_seen = state.rows_seen + 1;
                    let row_type = if rows_seen == 1 { TableRowType::Header } else { TableRowType::Data };
                    let columns = state.column_positions.clone();
                    assert(columns@ =~= state.column_positions@);
                    self.table_state = Some(TableState { column_positions: state.column_positions, rows_seen });
                    Some(TableInfo { columns, row_type })
                } else {
                    None
                }
            },
            None => None,
        }
    }

    /// Colourable tokens of a JSON line (see `json_tokens`).
    #[verifier::rlimit(50)]
    pub fn parse_json_fragments(&self, line: &str) -> (r: Vec<JsonFragment>)
        ensures
            r@ == json_tokens(line@, 0, 0, false, false),
    {
        let chars = chars_of(line);
        let ghost s = chars@;
        let mut fragments: Vec<JsonFragment> = Vec::new();
        let mut i: usize = 0;
        let mut depth: usize = 0;
        let mut in_string = false;
        let mut is_key = false;
        while i < chars.len()
            invariant
                s == chars@,
                s == line@,
                i <= s.len(),
                depth <= i,
                fragments@ + json_tokens(s, i as int, depth as int, in_string, is_key) == json_tokens(
                    s,
                    0,
                    0,
                    false,
                    false,
                ),
            decreases s.len() - i,
        {
            let c = chars[i];
            let ghost f0 = fragments@;
            if in_string {
                if c == '"' && (i == 0 || chars[i - 1] != '\\') {
                    let t = if is_key { JsonTokenType::Key } else { JsonTokenType::String };
                    fragments.push(JsonFragment { start_col: i, end_col: i + 1, depth, token_type: t });
                    assert(fragments@ + json_tokens(s, i + 1, depth as int, false, false) =~= f0 + json_tokens(
                        s,
                        i as int,
                        depth as int,
                        in_string,
                        is_key,
                    ));
                    in_string = false;
                    is_key = false;
                }
                i += 1;
            } else if c == '{' || c == '[' {
                let t = if c == '{' { JsonTokenType::BraceOpen } else { JsonTokenType::BracketOpen };
                fragments.push(JsonFragment { start_col: i, end_col: i + 1, depth, token_type: t });
                assert(fragments@ + json_tokens(s, i + 1, depth + 1, false, is_key) =~= f0 + json_tokens(
                    s,
                    i as int,
                    depth as int,
                    in_string,
                    is_key,
                ));
                depth += 1;
                i += 1;
            } else if c == '}' || c == ']' {
                let d0 = depth;
                depth = if depth > 0 { depth - 1 } else { 0 };
                let t = if c == '}' { JsonTokenType::BraceClose } else { JsonTokenType::BracketClose };
                fragments.push(JsonFragment { start_col: i, end_col: i + 1, depth, token_type: t });
                assert(fragments@ + json_tokens(s, i + 1, depth as int, false, is_key) =~= f0 + json_tokens(
                    s,
                    i as int,
                    d0 as int,
                    in_string,
                    is_key,
                ));
                i += 1;
            } else if c == '"' {
                in_string = true;
                is_key = peek_for_colon(chars.as_slice(), i + 1);
                i += 1;
            } else if c == ':' || c == ',' {
                let t = if c == ':' { JsonTokenType::Colon } else { JsonTokenType::Comma };
                fragments.push(JsonFragment { start_col: i, end_col: i + 1, depth, token_type: t });
                assert(fragments@ + json_tokens(s, i + 1, depth as int, false, is_key) =~= f0 + json_tokens(
                    s,
                    i as int,
                    depth as int,
                    in_string,
                    is_key,
                ));
                i += 1;
            } else if (c == 't' || c == 'f') && (spells4(&chars, i, ['t', 'r', 'u', 'e']) || spells5(&chars, i, ['f', 'a', 'l', 's', 'e'])) {
                let len: usize = if chars[i + 1] == 'r' { 4 } else { 5 };
                fragments.push(JsonFragment { start_col: i, end_col: i + len, depth, token_type: JsonTokenType::Boolean });
                assert(fragments@ + json_tokens(s, i + len, depth as int, false, is_key) =~= f0 + json_tokens(
                    s,
                    i as int,
                    depth as int,
                    in_string,
                    is_key,
                ));
                i += len;
            } else if c == 'n' && spells4(&chars, i, ['n', 'u', 'l', 'l']) {
                fragments.push(JsonFragment { start_col: i, end_col: i + 4, depth, token_type: JsonTokenType::Null });
                assert(fragments@ + json_tokens(s, i + 4, depth as int, false, is_key) =~= f0 + json_tokens(
                    s,
                    i as int,
                    depth as int,
                    in_string,
                    is_key,
                ));
                i += 4;
            } else if ('0' <= c && c <= '9') || c == '-' {
                let start = i;
                let mut j = i + 1;
                proof {
                    lemma_number_end(s, i + 1);
                }
                while j < chars.len() && (is_numeric(chars[j]) || chars[j] == '.' || chars[j] == '-'
                    || chars[j] == 'e' || chars[j] == 'E')
                    invariant
                        s == chars@,
                        start + 1 <= j <= number_end(s, start + 1),
                        number_end(s, start + 1) <= s.len(),
                        forall|k: int| start + 1 <= k < number_end(s, start + 1) ==> num_char(#[trigger] s[k]),
                        number_end(s, start + 1) < s.len() ==> !num_char(s[number_end(s, start + 1)]),
                    decreases s.len() - j,
                {
                    j += 1;
                }
                fragments.push(JsonFragment { start_col: start, end_col: j, depth, token_type: JsonTokenType::Number });
                assert(fragments@ + json_tokens(s, j as int, depth as int, false, is_key) =~= f0 + json_tokens(
                    s,
                    i as int,
                    depth as int,
                    in_string,
                    is_key,
                ));
                i = j;
            } else {
                i += 1;
            }
        }
        assert(json_tokens(s, i as int, depth as int, in_string, is_key) =~= Seq::<JsonFragment>::empty());
        assert(fragments@ + Seq::<JsonFragment>::empty() =~= fragments@);
        fragments
    }
}

} // verus!
