//! Semantic context of output lines: errors, warnings, stack traces, file listings.
//!
//! The line patterns are regular expressions run by the `regex` crate.

use vstd::prelude::*;
use regex::Regex;
use std::collections::HashSet;
use crate::text::{byte_len, chars_of, contains_char, contains_seq, contains_str, count_char, ends_with_seq, ends_with_str, first_non_ws, is_alphanumeric, lowercase_of, occurs_at, starts_with_seq, starts_with_str, string_from_chars, string_from_range, to_lowercase, trim_chars, trim_seq, trim_start_seq, unicode_alphanumeric, utf8_len, str_len};

verus! {

broadcast use vstd::std_specs::hash::group_hash_axioms;

/// Semantic kind of a line.
#[derive(Debug, Clone, Copy, PartialEq, Eq, Structural)]
pub enum LineContext {
    Normal,
    Error,
    Warning,
    StackTrace,
    /// A line of a file listing (`ls`, `ls -l`, ...).
    FileList,
}

/// File kind used to colour listings.
#[derive(Debug, Clone, Copy, PartialEq, Eq, Structural)]
pub enum FileType {
    Directory,
    Executable,
    SymbolicLink,
    Archive,
    Image,
    Video,
    Audio,
    Document,
    Code,
    RegularFile,
}

/// A file named in a listing line.
#[derive(Debug, Clone, PartialEq, Eq)]
pub struct FileEntry {
    pub name: String,
    pub file_type: FileType,
    pub is_executable: bool,
    /// Byte offset of the name in the line.
    pub start_col: usize,
    /// Byte offset just past the name.
    pub end_col: usize,
}

/// A reference to a source position found in a line (`src/main.rs:42:10`).
#[derive(Debug, Clone, PartialEq, Eq)]
pub struct FileReference {
    pub path: String,
    pub line: Option<usize>,
    pub col: Option<usize>,
    /// Byte offset where the reference starts in the line.
    pub start_col: usize,
    /// Byte offset where the whole match ends.
    pub end_col: usize,
}

/// A capture group of a match: byte offsets of its start and end, and its text.
pub type Group = (usize, usize, Seq<char>);

// ---------------------------------------------------------------- the regex crate

/// Whether the regular expression `pattern` (as the `regex` crate reads it) matches
/// somewhere in `text`; false for a pattern that does not compile.
pub uninterp spec fn regex_matches(pattern: Seq<char>, text: Seq<char>) -> bool;

/// The successive non-overlapping matches of `pattern` in `text`, each as the list of
/// its capture groups (group 0 is the whole match; `None` for a group that did not
/// take part); empty for a pattern that does not compile.
pub uninterp spec fn regex_all_captures(pattern: Seq<char>, text: Seq<char>) -> Seq<Seq<Option<Group>>>;

/// The capture groups of the first match of `pattern` in `text`, if any.
pub uninterp spec fn regex_first_captures(pattern: Seq<char>, text: Seq<char>) -> Option<Seq<Option<Group>>>;

/// `Regex::new(pattern)` then `Regex::is_match(text)` of the `regex` crate.
///
/// Claimed: the result is `regex_matches(pattern, text)`; a pattern that does not
/// compile gives `false`. The regex semantics themselves are not stated.
#[verifier::external_body]
fn regex_is_match(pattern: &str, text: &str) -> (r: bool)
    ensures
        r == regex_matches(pattern@, text@),
{
    match Regex::new(pattern) {
        Ok(re) => re.is_match(text),
        Err(_) => false,
    }
}

/// `Regex::new(pattern)` then `Regex::captures_iter(text)` of the `regex` crate.
///
/// Claimed: the matches, with all capture groups of each as (start, end, text), are
/// `regex_all_captures(pattern, text)`; a pattern that does not compile gives none.
#[verifier::external_body]
fn regex_captures_iter(pattern: &str, text: &str) -> (r: Vec<Vec<Option<(usize, usize, String)>>>)
    ensures
        groups_view(r@) == regex_all_captures(pattern@, text@),
{
    match Regex::new(pattern) {
        Ok(re) => re.captures_iter(text)
            .map(|c| c.iter().map(|g| g.map(|m| (m.start(), m.end(), m.as_str().to_string()))).collect())
            .collect(),
        Err(_) => Vec::new(),
    }
}

/// `Regex::new(pattern)` then `Regex::captures(text)` of the `regex` crate.
///
/// Claimed: the capture groups of the first match, as (start, end, text), are
/// `regex_first_captures(pattern, text)`; a pattern that does not compile gives none.
#[verifier::external_body]
fn regex_captures(pattern: &str, text: &str) -> (r: Option<Vec<Option<(usize, usize, String)>>>)
    ensures
        match r {
            Some(c) => regex_first_captures(pattern@, text@) == Some(group_list_view(c@)),
            None => regex_first_captures(pattern@, text@) is None,
        },
{
    match Regex::new(pattern) {
        Ok(re) => re.captures(text)
            .map(|c| c.iter().map(|g| g.map(|m| (m.start(), m.end(), m.as_str().to_string()))).collect()),
        Err(_) => None,
    }
}

/// A group with its text as characters.
pub open spec fn group_view(g: Option<(usize, usize, String)>) -> Option<Group> {
    match g {
        Some((a, b, s)) => Some((a, b, s@)),
        None => None,
    }
}

/// The groups of one match as characters.
pub open spec fn group_list_view(c: Seq<Option<(usize, usize, String)>>) -> Seq<Option<Group>> {
    c.map_values(|g: Option<(usize, usize, String)>| group_view(g))
}

/// The groups of all matches as characters.
pub open spec fn groups_view(r: Seq<Vec<Option<(usize, usize, String)>>>) -> Seq<Seq<Option<Group>>> {
    r.map_values(|c: Vec<Option<(usize, usize, String)>>| group_list_view(c@))
}

// ---------------------------------------------------------------- the patterns

/// Words that mark an error line.
pub open spec fn error_patterns() -> Seq<Seq<char>> {
    seq![
        "(?i)\\berror\\b"@,
        "(?i)\\bfailed\\b"@,
        "(?i)\\bfatal\\b"@,
        "(?i)\\bpanic\\b"@,
        "(?i)\\bexception\\b"@,
        "(?i)\\bcritical\\b"@,
    ]
}

/// Words that mark a warning line.
pub open spec fn warning_patterns() -> Seq<Seq<char>> {
    seq!["(?i)\\bwarning\\b"@, "(?i)\\bwarn\\b"@, "(?i)\\bcaution\\b"@, "(?i)\\bdeprecated\\b"@]
}

/// Source positions of Rust, Python, JavaScript, C, Go, and any file with a line.
pub open spec fn file_patterns() -> Seq<Seq<char>> {
    seq![
        "(?:at\\s+)?([/\\w\\.-]+\\.rs):(\\d+):(\\d+)"@,
        "File\\s+\"([^\"]+\\.py)\",\\s+line\\s+(\\d+)"@,
        "at\\s+([/\\w\\.-]+\\.(?:js|ts)):(\\d+):(\\d+)"@,
        "([/\\w\\.-]+\\.(?:c|cpp|h|hpp)):(\\d+):(\\d+)"@,
        "([/\\w\\.-]+\\.go):(\\d+):(\\d+)"@,
        "([/\\w\\.-]+\\.\\w+):(\\d+)(?::(\\d+))?"@,
    ]
}

/// Start of an `ls -l` line: type and permission bits.
pub open spec fn ls_long_pattern() -> Seq<char> {
    "^[d\\-lbcps][rwx\\-]{9}\\s+"@
}

/// A whole `ls -l` line: type, permissions, links, owner, group, size, date, name.
pub open spec fn ls_entry_pattern() -> Seq<char> {
    "^([d\\-lbcps])([rwx\\-]{9})\\s+\\d+\\s+\\S+\\s+\\S+\\s+\\d+\\s+\\S+\\s+\\d+\\s+[\\d:]+\\s+(.+)$"@
}

fn error_pattern_list() -> (r: Vec<&'static str>)
    ensures
        r@.len() == error_patterns().len(),
        forall|k: int| 0 <= k < r@.len() ==> (#[trigger] r@[k])@ == error_patterns()[k],
{
    let mut v: Vec<&'static str> = Vec::new();
    v.push("(?i)\\berror\\b");
    v.push("(?i)\\bfailed\\b");
    v.push("(?i)\\bfatal\\b");
    v.push("(?i)\\bpanic\\b");
    v.push("(?i)\\bexception\\b");
    v.push("(?i)\\bcritical\\b");
    v
}

fn warning_pattern_list() -> (r: Vec<&'static str>)
    ensures
        r@.len() == warning_patterns().len(),
        forall|k: int| 0 <= k < r@.len() ==> (#[trigger] r@[k])@ == warning_patterns()[k],
{
    let mut v: Vec<&'static str> = Vec::new();
    v.push("(?i)\\bwarning\\b");
    v.push("(?i)\\bwarn\\b");
    v.push("(?i)\\bcaution\\b");
    v.push("(?i)\\bdeprecated\\b");
    v
}

fn file_pattern_list() -> (r: Vec<&'static str>)
    ensures
        r@.len() == file_patterns().len(),
        forall|k: int| 0 <= k < r@.len() ==> (#[trigger] r@[k])@ == file_patterns()[k],
{
    let mut v: Vec<&'static str> = Vec::new();
    v.push("(?:at\\s+)?([/\\w\\.-]+\\.rs):(\\d+):(\\d+)");
    v.push("File\\s+\"([^\"]+\\.py)\",\\s+line\\s+(\\d+)");
    v.push("at\\s+([/\\w\\.-]+\\.(?:js|ts)):(\\d+):(\\d+)");
    v.push("([/\\w\\.-]+\\.(?:c|cpp|h|hpp)):(\\d+):(\\d+)");
    v.push("([/\\w\\.-]+\\.go):(\\d+):(\\d+)");
    v.push("([/\\w\\.-]+\\.\\w+):(\\d+)(?::(\\d+))?");
    v
}

// ---------------------------------------------------------------- line context

/// Some pattern of `pats` matches `t`.
pub open spec fn any_matches(pats: Seq<Seq<char>>, t: Seq<char>) -> bool {
    exists|k: int| 0 <= k < pats.len() && #[trigger] regex_matches(pats[k], t)
}

/// The line names a source position.
pub open spec fn file_reference_in(t: Seq<char>) -> bool {
    any_matches(file_patterns(), t)
}

/// What `analyze_line_context` decides from its checks, in priority order.
pub open spec fn context_from(listing: bool, file_ref: bool, error: bool, warning: bool) -> LineContext {
    if listing {
        LineContext::FileList
    } else if file_ref {
        LineContext::StackTrace
    } else if error {
        LineContext::Error
    } else if warning {
        LineContext::Warning
    } else {
        LineContext::Normal
    }
}

/// Context of a line: file listing, then stack trace, error, warning.
pub open spec fn line_context(t: Seq<char>) -> LineContext {
    context_from(
        file_listing(t),
        file_reference_in(t),
        any_matches(error_patterns(), t),
        any_matches(warning_patterns(), t),
    )
}

/// Decides a line's context from the outcomes of its checks (listing, source
/// reference, error word, warning word), the first that holds winning.
pub fn context_from_checks(listing: bool, file_ref: bool, error: bool, warning: bool) -> (r: LineContext)
    ensures
        r == context_from(listing, file_ref, error, warning),
{
    if listing {
        LineContext::FileList
    } else if file_ref {
        LineContext::StackTrace
    } else if error {
        LineContext::Error
    } else if warning {
        LineContext::Warning
    } else {
        LineContext::Normal
    }
}

/// Whether some pattern of the list matches `text`.
fn matches_any(pats: &Vec<&'static str>, text: &str, Ghost(spec_pats): Ghost<Seq<Seq<char>>>) -> (r: bool)
    requires
        pats@.len() == spec_pats.len(),
        forall|k: int| 0 <= k < pats@.len() ==> (#[trigger] pats@[k])@ == spec_pats[k],
    ensures
        r == any_matches(spec_pats, text@),
{
    let mut k: usize = 0;
    while k < pats.len()
        invariant
            k <= pats@.len(),
            pats@.len() == spec_pats.len(),
            forall|q: int| 0 <= q < pats@.len() ==> (#[trigger] pats@[q])@ == spec_pats[q],
            forall|q: int| 0 <= q < k ==> !regex_matches(#[trigger] spec_pats[q], text@),
        decreases pats@.len() - k,
    {
        if regex_is_match(pats[k], text) {
            assert(regex_matches(spec_pats[k as int], text@));
            return true;
        }
        k += 1;
    }
    assert forall|q: int| 0 <= q < spec_pats.len() implies !#[trigger] regex_matches(spec_pats[q], text@) by {
        assert(!regex_matches(spec_pats[q], text@));
    }
    false
}

/// Semantic context of a line (see `line_context`).
pub fn analyze_line_context(text: &str) -> (r: LineContext)
    ensures
        r == line_context(text@),
{
    if is_file_listing(text) {
        return LineContext::FileList;
    }
    if has_file_reference(text) {
        return LineContext::StackTrace;
    }
    let errors = error_pattern_list();
    let error = matches_any(&errors, text, Ghost(error_patterns()));
    let warnings = warning_pattern_list();
    let warning = matches_any(&warnings, text, Ghost(warning_patterns()));
    context_from_checks(false, false, error, warning)
}

/// Whether a line names a source position (`file.rs:42:10`, `File "x.py", line 3`, ...).
pub fn has_file_reference(text: &str) -> (r: bool)
    ensures
        r == file_reference_in(text@),
{
    let pats = file_pattern_list();
    matches_any(&pats, text, Ghost(file_patterns()))
}

// ---------------------------------------------------------------- file listings

/// Characters of file names accepted in a plain listing.
pub open spec fn name_char(c: char) -> bool {
    unicode_alphanumeric(c) || c == '.' || c == '_' || c == '-' || c == '/' || c == '~'
}

/// The checks of a plain (not `ls -l`) listing line, on the trimmed text `s`.
pub open spec fn plain_listing(s: Seq<char>) -> bool {
    plain_listing_in(s, lowercase_of(s))
}

/// Those checks, given the lower-cased text `low` of `s`.
pub open spec fn plain_listing_in(s: Seq<char>, low: Seq<char>) -> bool {
    let n = str_len(s);
    if starts_with_seq(s, "$"@) || starts_with_seq(s, ">"@) || starts_with_seq(s, "#"@)
        || starts_with_seq(s, "["@) || contains_seq(s, "  "@) || n > 100 {
        false
    } else if contains_seq(low, "error"@) || contains_seq(low, "warning"@) || contains_seq(low, "failed"@) {
        false
    } else if !(forall|i: int| 0 <= i < s.len() ==> name_char(#[trigger] s[i])) {
        false
    } else {
        ends_with_seq(s, "/"@) || (s.contains('.') && count_char(s, '.') <= 3) || starts_with_seq(s, "."@)
            || (n > 0 && n < 50)
    }
}

/// What `is_file_listing` decides for the trimmed line `s`, given whether it starts
/// like an `ls -l` line.
pub open spec fn listing_from(s: Seq<char>, long_format: bool) -> bool {
    if s.len() == 0 {
        false
    } else if long_format {
        true
    } else {
        plain_listing(s)
    }
}

/// A line of a file listing: `ls -l` format, or a plausible file name alone.
pub open spec fn file_listing(t: Seq<char>) -> bool {
    let s = trim_seq(t);
    listing_from(s, regex_matches(ls_long_pattern(), s))
}

/// Decides whether the trimmed line `s` is a listing line, given whether it starts
/// like an `ls -l` line (see `listing_from`).
pub fn listing_decision(s: &str, long_format: bool) -> (r: bool)
    ensures
        r == listing_from(s@, long_format),
{
    let v = chars_of(s);
    if v.len() == 0 {
        return false;
    }
    if long_format {
        return true;
    }
    let low = to_lowercase(s);
    plain_listing_check(s, low.as_str())
}

/// The checks of a plain listing line on the trimmed text `s`, given its lower-cased
/// text `low` (see `plain_listing_in`).
pub fn plain_listing_check(s: &str, low: &str) -> (r: bool)
    ensures
        r == plain_listing_in(s@, low@),
{
    let v = chars_of(s);
    let n = s.len();
    if starts_with_str(&v, "$") || starts_with_str(&v, ">") || starts_with_str(&v, "#")
        || starts_with_str(&v, "[") || contains_str(&v, "  ") || n > 100 {
        return false;
    }
    let lv = chars_of(low);
    if contains_str(&lv, "error") || contains_str(&lv, "warning") || contains_str(&lv, "failed") {
        return false;
    }
    let mut i: usize = 0;
    while i < v.len()
        invariant
            i <= v@.len(),
            v@ == s@,
            !plain_listing_in(s@, low@) <== !(forall|j: int| 0 <= j < s@.len() ==> name_char(#[trigger] s@[j])),
            forall|j: int| 0 <= j < i ==> name_char(#[trigger] v@[j]),
        decreases v@.len() - i,
    {
        let c = v[i];
        if !(is_alphanumeric(c) || c == '.' || c == '_' || c == '-' || c == '/' || c == '~') {
            assert(!name_char(s@[i as int]));
            return false;
        }
        i += 1;
    }
    let is_dir = ends_with_str(&v, "/");
    let dots = count_dots(&v);
    let has_extension = contains_char(&v, '.') && dots <= 3;
    let is_hidden = starts_with_str(&v, ".");
    is_dir || has_extension || is_hidden || (n > 0 && n < 50)
}

/// Number of `.` in `v`.
fn count_dots(v: &Vec<char>) -> (r: usize)
    ensures
        r == count_char(v@, '.'),
{
    let mut n: usize = 0;
    let mut i: usize = 0;
    while i < v.len()
        invariant
            i <= v@.len(),
            n == count_char(v@.take(i as int), '.'),
            n <= i,
        decreases v@.len() - i,
    {
        assert(v@.take(i + 1).drop_last() =~= v@.take(i as int));
        if v[i] == '.' {
            n += 1;
        }
        i += 1;
    }
    assert(v@.take(v@.len() as int) =~= v@);
    n
}

/// Whether a line belongs to a file listing (see `file_listing`).
pub fn is_file_listing(text: &str) -> (r: bool)
    ensures
        r == file_listing(text@),
{
    let v = chars_of(text);
    let t = trim_chars(&v);
    let trimmed = string_from_chars(&t);
    if t.len() == 0 {
        return false;
    }
    let long_format = regex_is_match("^[d\\-lbcps][rwx\\-]{9}\\s+", trimmed.as_str());
    listing_decision(trimmed.as_str(), long_format)
}

// ---------------------------------------------------------------- numbers

/// Value of a string of ASCII digits.
pub open spec fn digits_value(d: Seq<char>) -> int
    decreases d.len(),
{
    if d.len() == 0 {
        0
    } else {
        digits_value(d.drop_last()) * 10 + (d.last() as int - '0' as int)
    }
}

/// Every character is an ASCII digit.
pub open spec fn all_digits(d: Seq<char>) -> bool {
    forall|i: int| 0 <= i < d.len() ==> '0' <= #[trigger] d[i] <= '9'
}

/// `str::parse::<usize>`: an optional `+`, then one or more ASCII digits whose value
/// fits a `usize`.
pub open spec fn parsed_usize(s: Seq<char>) -> Option<usize> {
    let d = if s.len() > 0 && s[0] == '+' { s.drop_first() } else { s };
    if d.len() > 0 && all_digits(d) && digits_value(d) <= usize::MAX {
        Some(digits_value(d) as usize)
    } else {
        None
    }
}

/// Parses a decimal `usize` as `str::parse` does (see `parsed_usize`).
pub fn parse_usize(s: &str) -> (r: Option<usize>)
    ensures
        r == parsed_usize(s@),
{
    let v = chars_of(s);
    let start: usize = if v.len() > 0 && v[0] == '+' { 1 } else { 0 };
    let ghost d = if s@.len() > 0 && s@[0] == '+' { s@.drop_first() } else { s@ };
    assert(d =~= v@.skip(start as int));
    if v.len() == start {
        return None;
    }
    let mut val: u128 = 0;
    let mut over = false;
    let mut i = start;
    while i < v.len()
        invariant
            start <= i <= v@.len(),
            v@ == s@,
            d == (if s@.len() > 0 && s@[0] == '+' { s@.drop_first() } else { s@ }),
            d == v@.skip(start as int),
            forall|j: int| 0 <= j < i - start ==> '0' <= #[trigger] d[j] <= '9',
            over ==> digits_value(d.take(i - start)) > usize::MAX,
            !over ==> val == digits_value(d.take(i - start)) && val <= usize::MAX,
        decreases v@.len() - i,
    {
        let c = v[i];
        if !('0' <= c && c <= '9') {
            assert(d[i - start] == c);
            return None;
        }
        proof {
            assert(d.take(i - start + 1).drop_last() =~= d.take(i - start));
            assert(d.take(i - start + 1).last() == c);
        }
        if !over {
            val = val * 10 + ((c as u32 - '0' as u32) as u128);
            if val > usize::MAX as u128 {
                over = true;
            }
        }
        i += 1;
    }
    assert(d.take(d.len() as int) =~= d);
    if over {
        None
    } else {
        Some(val as usize)
    }
}

// ---------------------------------------------------------------- source references

/// Group `k` of a match, `None` if the pattern has no such group.
pub open spec fn group_at(c: Seq<Option<Group>>, k: int) -> Option<Group> {
    if 0 <= k < c.len() { c[k] } else { None }
}

/// A file reference as plain values: path, line, column, start and end offsets.
pub type FileRefModel = (Seq<char>, Option<usize>, Option<usize>, usize, usize);

/// The plain values of a `FileReference`.
pub open spec fn ref_view(r: FileReference) -> FileRefModel {
    (r.path@, r.line, r.col, r.start_col, r.end_col)
}

/// Number in group `k`, if the group took part and holds a `usize`.
pub open spec fn group_number(c: Seq<Option<Group>>, k: int) -> Option<usize> {
    match group_at(c, k) {
        Some(g) => parsed_usize(g.2),
        None => None,
    }
}

/// The reference a match describes: path from group 1, line and column from groups
/// 2 and 3, from the path's start to the end of the whole match.
pub open spec fn ref_of(c: Seq<Option<Group>>) -> FileRefModel {
    let g1 = group_at(c, 1)->0;
    let end = match group_at(c, 0) {
        Some(g) => g.1,
        None => g1.1,
    };
    (g1.2, group_number(c, 2), group_number(c, 3), g1.0, end)
}

/// References collected from the matches `caps`, in order, skipping a match whose
/// path starts where an earlier one did; with the start offsets seen.
pub open spec fn refs_fold(caps: Seq<Seq<Option<Group>>>) -> (Seq<FileRefModel>, Set<usize>)
    decreases caps.len(),
{
    if caps.len() == 0 {
        (Seq::empty(), Set::empty())
    } else {
        let (refs, seen) = refs_fold(caps.drop_last());
        let c = caps.last();
        match group_at(c, 1) {
            Some(g1) => if seen.contains(g1.0) {
                (refs, seen)
            } else {
                (refs.push(ref_of(c)), seen.insert(g1.0))
            },
            None => (refs, seen),
        }
    }
}

/// The matches of the first `n` patterns of `pats`, pattern after pattern.
pub open spec fn captures_upto(per_pattern: Seq<Seq<Seq<Option<Group>>>>, n: int) -> Seq<Seq<Option<Group>>>
    decreases n,
{
    if n <= 0 {
        Seq::empty()
    } else {
        captures_upto(per_pattern, n - 1) + per_pattern[n - 1]
    }
}

/// The matches of every source pattern in `t`.
pub open spec fn file_pattern_captures(t: Seq<char>) -> Seq<Seq<Seq<Option<Group>>>> {
    Seq::new(file_patterns().len(), |k: int| regex_all_captures(file_patterns()[k], t))
}

/// What `extract_file_references(t)` returns.
pub open spec fn file_references(t: Seq<char>) -> Seq<FileRefModel> {
    let per = file_pattern_captures(t);
    refs_fold(captures_upto(per, per.len() as int)).0
}

/// The references of a line, given the matches of each source pattern in turn (see
/// `refs_fold`): one per distinct start of a path, first pattern first.
pub fn collect_file_references(per_pattern: &Vec<Vec<Vec<Option<(usize, usize, String)>>>>) -> (r: Vec<FileReference>)
    ensures
        r@.map_values(|x: FileReference| ref_view(x)) == refs_fold(
            captures_upto(
                per_pattern@.map_values(|p: Vec<Vec<Option<(usize, usize, String)>>>| groups_view(p@)),
                per_pattern@.len() as int,
            ),
        ).0,
{
    let ghost per = per_pattern@.map_values(|p: Vec<Vec<Option<(usize, usize, String)>>>| groups_view(p@));
    let mut refs: Vec<FileReference> = Vec::new();
    let mut seen: HashSet<usize> = HashSet::new();
    let mut k: usize = 0;
    while k < per_pattern.len()
        invariant
            k <= per_pattern@.len(),
            per == per_pattern@.map_values(|p: Vec<Vec<Option<(usize, usize, String)>>>| groups_view(p@)),
            (refs@.map_values(|x: FileReference| ref_view(x)), seen@) == refs_fold(captures_upto(per, k as int)),
        decreases per_pattern@.len() - k,
    {
        let caps = &per_pattern[k];
        let ghost cv = groups_view(caps@);
        assert(cv == per[k as int]);
        let mut j: usize = 0;
        while j < caps.len()
            invariant
                j <= caps@.len(),
                k < per_pattern@.len(),
                caps == &per_pattern@[k as int],
                cv == groups_view(caps@),
                per == per_pattern@.map_values(|p: Vec<Vec<Option<(usize, usize, String)>>>| groups_view(p@)),
                (refs@.map_values(|x: FileReference| ref_view(x)), seen@) == refs_fold(
                    captures_upto(per, k as int) + cv.take(j as int),
                ),
            decreases caps@.len() - j,
        {
            let c = &caps[j];
            let ghost cg = group_list_view(c@);
            assert(cg == cv[j as int]);
            let ghost before = captures_upto(per, k as int) + cv.take(j as int);
            assert((captures_upto(per, k as int) + cv.take(j + 1)).drop_last() =~= before);
            assert((captures_upto(per, k as int) + cv.take(j + 1)).last() == cg);
            let ghost r0 = refs@;
            if c.len() > 1 {
                assert(group_at(cg, 1) == group_view(c@[1]));
                match &c[1] {
                    Some(g1) => {
                        let start = g1.0;
                        if !seen.contains(&start) {
                            seen.insert(start);
                            let path = g1.2.clone();
                            let line = if c.len() > 2 {
                                match &c[2] {
                                    Some(g) => parse_usize(g.2.as_str()),
                                    None => None,
                                }
                            } else {
                                None
                            };
                            let col = if c.len() > 3 {
                                match &c[3] {
                                    Some(g) => parse_usize(g.2.as_str()),
                                    None => None,
                                }
                            } else {
                                None
                            };
                            let end_col = match &c[0] {
                                Some(g) => g.1,
                                None => g1.1,
                            };
                            let r = FileReference { path, line, col, start_col: start, end_col };
                            assert(ref_view(r) == ref_of(cg));
                            refs.push(r);
                            assert(refs@.map_values(|x: FileReference| ref_view(x)) =~= r0.map_values(
                                |x: FileReference| ref_view(x),
                            ).push(ref_view(r)));
                        }
                    },
                    None => {},
                }
            }
            j += 1;
        }
        assert(cv.take(cv.len() as int) =~= cv);
        assert(captures_upto(per, k + 1) == captures_upto(per, k as int) + per[k as int]);
        k += 1;
    }
    refs
}

/// References to source positions in a line (see `file_references`).
pub fn extract_file_references(text: &str) -> (r: Vec<FileReference>)
    ensures
        r@.map_values(|x: FileReference| ref_view(x)) == file_references(text@),
{
    let pats = file_pattern_list();
    let mut per: Vec<Vec<Vec<Option<(usize, usize, String)>>>> = Vec::new();
    let mut k: usize = 0;
    while k < pats.len()
        invariant
            k <= pats@.len(),
            pats@.len() == file_patterns().len(),
            forall|q: int| 0 <= q < pats@.len() ==> (#[trigger] pats@[q])@ == file_patterns()[q],
            per@.len() == k,
            forall|q: int| 0 <= q < k ==> groups_view((#[trigger] per@[q])@) == regex_all_captures(
                file_patterns()[q],
                text@,
            ),
        decreases pats@.len() - k,
    {
        per.push(regex_captures_iter(pats[k], text));
        k += 1;
    }
    let r = collect_file_references(&per);
    assert(per@.map_values(|p: Vec<Vec<Option<(usize, usize, String)>>>| groups_view(p@)) =~= file_pattern_captures(text@));
    r
}

// ---------------------------------------------------------------- file types

/// Extensions of archives.
pub open spec fn archive_exts() -> Seq<Seq<char>> {
    seq![".tar"@, ".gz"@, ".zip"@, ".7z"@, ".rar"@, ".bz2"@, ".xz"@]
}

/// Extensions of images.
pub open spec fn image_exts() -> Seq<Seq<char>> {
    seq![".png"@, ".jpg"@, ".jpeg"@, ".gif"@, ".bmp"@, ".svg"@, ".webp"@]
}

/// Extensions of videos.
pub open spec fn video_exts() -> Seq<Seq<char>> {
    seq![".mp4"@, ".avi"@, ".mkv"@, ".mov"@, ".wmv"@, ".flv"@, ".webm"@]
}

/// Extensions of audio files.
pub open spec fn audio_exts() -> Seq<Seq<char>> {
    seq![".mp3"@, ".wav"@, ".flac"@, ".aac"@, ".ogg"@, ".m4a"@]
}

/// Extensions of documents.
pub open spec fn document_exts() -> Seq<Seq<char>> {
    seq![".pdf"@, ".doc"@, ".docx"@, ".txt"@, ".md"@, ".odt"@]
}

/// Extensions of source code.
pub open spec fn code_exts() -> Seq<Seq<char>> {
    seq![
        ".rs"@, ".js"@, ".ts"@, ".py"@, ".c"@, ".cpp"@, ".h"@, ".hpp"@, ".go"@, ".java"@, ".rb"@,
        ".php"@, ".swift"@, ".kt"@,
    ]
}

/// Suffixes of files taken as executable in a plain listing.
pub open spec fn exec_exts() -> Seq<Seq<char>> {
    seq![".sh"@, ".exe"@, ".bin"@, ".out"@, ".py"@, ".rb"@, ".pl"@]
}

/// `s` ends with one of `exts`.
pub open spec fn ends_with_any(s: Seq<char>, exts: Seq<Seq<char>>) -> bool {
    exists|k: int| 0 <= k < exts.len() && #[trigger] ends_with_seq(s, exts[k])
}

/// Kind of a file from its extension, looked for in the lower-cased name.
pub open spec fn file_type_of(name: Seq<char>) -> FileType {
    file_type_in(lowercase_of(name))
}

/// Kind of a file from the extension of its lower-cased name `l`.
pub open spec fn file_type_in(l: Seq<char>) -> FileType {
    if ends_with_any(l, archive_exts()) {
        FileType::Archive
    } else if ends_with_any(l, image_exts()) {
        FileType::Image
    } else if ends_with_any(l, video_exts()) {
        FileType::Video
    } else if ends_with_any(l, audio_exts()) {
        FileType::Audio
    } else if ends_with_any(l, document_exts()) {
        FileType::Document
    } else if ends_with_any(l, code_exts()) {
        FileType::Code
    } else {
        FileType::RegularFile
    }
}

/// Whether `v` ends with one of `exts`.
fn ends_with_one(v: &Vec<char>, exts: &Vec<&'static str>, Ghost(spec_exts): Ghost<Seq<Seq<char>>>) -> (r: bool)
    requires
        exts@.len() == spec_exts.len(),
        forall|k: int| 0 <= k < exts@.len() ==> (#[trigger] exts@[k])@ == spec_exts[k],
    ensures
        r == ends_with_any(v@, spec_exts),
{
    let mut k: usize = 0;
    while k < exts.len()
        invariant
            k <= exts@.len(),
            exts@.len() == spec_exts.len(),
            forall|q: int| 0 <= q < exts@.len() ==> (#[trigger] exts@[q])@ == spec_exts[q],
            forall|q: int| 0 <= q < k ==> !ends_with_seq(v@, #[trigger] spec_exts[q]),
        decreases exts@.len() - k,
    {
        if ends_with_str(v, exts[k]) {
            assert(ends_with_seq(v@, spec_exts[k as int]));
            return true;
        }
        k += 1;
    }
    assert forall|q: int| 0 <= q < spec_exts.len() implies !#[trigger] ends_with_seq(v@, spec_exts[q]) by {
        assert(!ends_with_seq(v@, spec_exts[q]));
    }
    false
}

fn archive_list() -> (r: Vec<&'static str>)
    ensures
        r@.len() == archive_exts().len(),
        forall|k: int| 0 <= k < r@.len() ==> (#[trigger] r@[k])@ == archive_exts()[k],
{
    let mut v: Vec<&'static str> = Vec::new();
    v.push(".tar");
    v.push(".gz");
    v.push(".zip");
    v.push(".7z");
    v.push(".rar");
    v.push(".bz2");
    v.push(".xz");
    v
}

fn image_list() -> (r: Vec<&'static str>)
    ensures
        r@.len() == image_exts().len(),
        forall|k: int| 0 <= k < r@.len() ==> (#[trigger] r@[k])@ == image_exts()[k],
{
    let mut v: Vec<&'static str> = Vec::new();
    v.push(".png");
    v.push(".jpg");
    v.push(".jpeg");
    v.push(".gif");
    v.push(".bmp");
    v.push(".svg");
    v.push(".webp");
    v
}

fn video_list() -> (r: Vec<&'static str>)
    ensures
        r@.len() == video_exts().len(),
        forall|k: int| 0 <= k < r@.len() ==> (#[trigger] r@[k])@ == video_exts()[k],
{
    let mut v: Vec<&'static str> = Vec::new();
    v.push(".mp4");
    v.push(".avi");
    v.push(".mkv");
    v.push(".mov");
    v.push(".wmv");
    v.push(".flv");
    v.push(".webm");
    v
}

fn audio_list() -> (r: Vec<&'static str>)
    ensures
        r@.len() == audio_exts().len(),
        forall|k: int| 0 <= k < r@.len() ==> (#[trigger] r@[k])@ == audio_exts()[k],
{
    let mut v: Vec<&'static str> = Vec::new();
    v.push(".mp3");
    v.push(".wav");
    v.push(".flac");
    v.push(".aac");
    v.push(".ogg");
    v.push(".m4a");
    v
}

fn document_list() -> (r: Vec<&'static str>)
    ensures
        r@.len() == document_exts().len(),
        forall|k: int| 0 <= k < r@.len() ==> (#[trigger] r@[k])@ == document_exts()[k],
{
    let mut v: Vec<&'static str> = Vec::new();
    v.push(".pdf");
    v.push(".doc");
    v.push(".docx");
    v.push(".txt");
    v.push(".md");
    v.push(".odt");
    v
}

fn code_list() -> (r: Vec<&'static str>)
    ensures
        r@.len() == code_exts().len(),
        forall|k: int| 0 <= k < r@.len() ==> (#[trigger] r@[k])@ == code_exts()[k],
{
    let mut v: Vec<&'static str> = Vec::new();
    v.push(".rs");
    v.push(".js");
    v.push(".ts");
    v.push(".py");
    v.push(".c");
    v.push(".cpp");
    v.push(".h");
    v.push(".hpp");
    v.push(".go");
    v.push(".java");
    v.push(".rb");
    v.push(".php");
    v.push(".swift");
    v.push(".kt");
    v
}

fn exec_list() -> (r: Vec<&'static str>)
    ensures
        r@.len() == exec_exts().len(),
        forall|k: int| 0 <= k < r@.len() ==> (#[trigger] r@[k])@ == exec_exts()[k],
{
    let mut v: Vec<&'static str> = Vec::new();
    v.push(".sh");
    v.push(".exe");
    v.push(".bin");
    v.push(".out");
    v.push(".py");
    v.push(".rb");
    v.push(".pl");
    v
}

/// Kind of a file from its extension, ignoring case (see `file_type_of`).
pub fn detect_file_type_by_extension(name: &str) -> (r: FileType)
    ensures
        r == file_type_of(name@),
{
    let lower = to_lowercase(name);
    file_type_from_lowercase(lower.as_str())
}

/// Kind of a file from the extension of its already lower-cased name (see
/// `file_type_in`).
pub fn file_type_from_lowercase(lower: &str) -> (r: FileType)
    ensures
        r == file_type_in(lower@),
{
    let l = chars_of(lower);
    if ends_with_one(&l, &archive_list(), Ghost(archive_exts())) {
        return FileType::Archive;
    }
    if ends_with_one(&l, &image_list(), Ghost(image_exts())) {
        return FileType::Image;
    }
    if ends_with_one(&l, &video_list(), Ghost(video_exts())) {
        return FileType::Video;
    }
    if ends_with_one(&l, &audio_list(), Ghost(audio_exts())) {
        return FileType::Audio;
    }
    if ends_with_one(&l, &document_list(), Ghost(document_exts())) {
        return FileType::Document;
    }
    if ends_with_one(&l, &code_list(), Ghost(code_exts())) {
        return FileType::Code;
    }
    FileType::RegularFile
}

// ---------------------------------------------------------------- listing entries

/// A file entry as plain values: name, kind, executable, start and end offsets.
pub type EntryModel = (Seq<char>, FileType, bool, usize, usize);

/// The plain values of a `FileEntry`.
pub open spec fn entry_view(e: FileEntry) -> EntryModel {
    (e.name@, e.file_type, e.is_executable, e.start_col, e.end_col)
}

/// `s` without its trailing slashes.
pub open spec fn strip_slashes(s: Seq<char>) -> Seq<char>
    decreases s.len(),
{
    if s.len() > 0 && s.last() == '/' {
        strip_slashes(s.drop_last())
    } else {
        s
    }
}

/// Entry of a plain listing line: the trimmed name (a trailing `/` marks a
/// directory, as does a name without extension that is not hidden); executables
/// by suffix, or an extension-less file that is neither.
pub open spec fn simple_entry(t: Seq<char>) -> Option<EntryModel> {
    let tr = trim_seq(t);
    if tr.len() == 0 {
        None
    } else {
        let start = utf8_len(t) - utf8_len(trim_start_seq(t));
        let is_dir = ends_with_seq(tr, "/"@);
        let name = if is_dir { strip_slashes(tr) } else { tr };
        let has_ext = name.contains('.');
        let likely_dir = !has_ext && !starts_with_seq(name, "."@);
        let ty = if is_dir || likely_dir { FileType::Directory } else { file_type_of(name) };
        let exec = ends_with_any(name, exec_exts()) || (!has_ext && !is_dir && !likely_dir);
        Some((name, ty, exec, start as usize, (start + utf8_len(name)) as usize))
    }
}

/// Last column `<= k` where `p` occurs in `t`.
pub open spec fn last_occ_from(t: Seq<char>, p: Seq<char>, k: int) -> Option<int>
    decreases k + 1,
{
    if k < 0 {
        None
    } else if occurs_at(t, p, k) {
        Some(k)
    } else {
        last_occ_from(t, p, k - 1)
    }
}

/// Character `k` of `s` is `c`.
pub open spec fn nth_is(s: Seq<char>, k: int, c: char) -> bool {
    k < s.len() && s[k] == c
}

/// Entry of an `ls -l` line from the groups of its match: type character, permission
/// bits and name; the name is located at its last occurrence in the line.
pub open spec fn long_entry(t: Seq<char>, c: Seq<Option<Group>>) -> Option<EntryModel> {
    match (group_at(c, 1), group_at(c, 2), group_at(c, 3)) {
        (Some(g1), Some(g2), Some(g3)) => {
            let name = g3.2;
            let ty = if g1.2 == seq!['d'] {
                FileType::Directory
            } else if g1.2 == seq!['l'] {
                FileType::SymbolicLink
            } else {
                file_type_of(name)
            };
            let exec = nth_is(g2.2, 2, 'x') || nth_is(g2.2, 5, 'x') || nth_is(g2.2, 8, 'x');
            match last_occ_from(t, name, t.len() - name.len()) {
                Some(k) => {
                    let start = utf8_len(t.take(k));
                    Some((name, ty, exec, start as usize, (start + utf8_len(name)) as usize))
                },
                None => None,
            }
        },
        _ => None,
    }
}

/// What `parse_file_entry` returns, given the first match of the `ls -l` pattern.
pub open spec fn entry_from(t: Seq<char>, caps: Option<Seq<Option<Group>>>) -> Option<EntryModel> {
    match caps {
        Some(c) => long_entry(t, c),
        None => simple_entry(t),
    }
}

/// What `parse_file_entry(t)` returns.
pub open spec fn file_entry(t: Seq<char>) -> Option<EntryModel> {
    entry_from(t, regex_first_captures(ls_entry_pattern(), t))
}

/// The view of an optional entry.
pub open spec fn opt_entry_view(e: Option<FileEntry>) -> Option<EntryModel> {
    match e {
        Some(x) => Some(entry_view(x)),
        None => None,
    }
}

/// Last column where `p` occurs in `t`, if any.
fn rfind_chars(t: &Vec<char>, p: &Vec<char>) -> (r: Option<usize>)
    ensures
        r matches Some(k) ==> last_occ_from(t@, p@, t@.len() - p@.len()) == Some(k as int)
            && occurs_at(t@, p@, k as int),
        r is None ==> last_occ_from(t@, p@, t@.len() - p@.len()) is None,
{
    if p.len() > t.len() {
        return None;
    }
    let mut k = t.len() - p.len();
    loop
        invariant
            k <= t@.len() - p@.len(),
            last_occ_from(t@, p@, t@.len() - p@.len()) == last_occ_from(t@, p@, k as int),
        decreases k,
    {
        if crate::text::matches_at(t, p, k) {
            return Some(k);
        }
        if k == 0 {
            return None;
        }
        k -= 1;
    }
}

/// Strips the trailing slashes of `v`.
fn strip_slashes_chars(v: &Vec<char>) -> (r: Vec<char>)
    ensures
        r@ == strip_slashes(v@),
        r@.len() <= v@.len(),
        r@ == v@.take(r@.len() as int),
{
    let mut n = v.len();
    assert(v@.take(n as int) =~= v@);
    while n > 0 && v[n - 1] == '/'
        invariant
            n <= v@.len(),
            strip_slashes(v@.take(n as int)) == strip_slashes(v@),
        decreases n,
    {
        assert(v@.take(n as int).drop_last() =~= v@.take(n - 1));
        n -= 1;
    }
    assert(strip_slashes(v@.take(n as int)) == v@.take(n as int));
    let mut r: Vec<char> = Vec::new();
    let mut i: usize = 0;
    while i < n
        invariant
            i <= n <= v@.len(),
            r@ == v@.take(i as int),
        decreases n - i,
    {
        r.push(v[i]);
        i += 1;
        assert(r@ =~= v@.take(i as int));
    }
    r
}

/// Entry of a plain listing line (see `simple_entry`).
pub fn parse_simple_file_entry(text: &str) -> (r: Option<FileEntry>)
    requires
        utf8_len(text@) <= usize::MAX,
    ensures
        opt_entry_view(r) == simple_entry(text@),
{
    let tv = chars_of(text);
    let tr = trim_chars(&tv);
    if tr.len() == 0 {
        return None;
    }
    let lead = first_non_ws(&tv);
    let rest = crate::text::trim_start_chars(&tv);
    let rest_s = string_from_chars(&rest);
    proof {
        crate::text::lemma_utf8_split(tv@, lead as int);
    }
    let start_col = byte_len(text) - byte_len(rest_s.as_str());
    let is_dir = ends_with_str(&tr, "/");
    let name_v = if is_dir { strip_slashes_chars(&tr) } else { tr.clone() };
    assert(name_v@ == (if is_dir { strip_slashes(tr@) } else { tr@ }));
    let name = string_from_chars(&name_v);
    let has_extension = contains_char(&name_v, '.');
    let likely_dir = !has_extension && !starts_with_str(&name_v, ".");
    let file_type = if is_dir || likely_dir {
        FileType::Directory
    } else {
        detect_file_type_by_extension(name.as_str())
    };
    let is_executable = ends_with_one(&name_v, &exec_list(), Ghost(exec_exts())) || (!has_extension
        && !is_dir && !likely_dir);
    proof {
        let sk = tv@.skip(lead as int);
        crate::text::lemma_trail_ws_bound(sk);
        assert(tr@ == sk.take(sk.len() - crate::text::trail_ws(sk)));
        assert(name_v@.len() <= tr@.len());
        crate::text::lemma_utf8_split(sk, name_v@.len() as int);
        assert(tr@ == sk.take(sk.len() - crate::text::trail_ws(sk)));
        assert(name_v@ =~= sk.take(name_v@.len() as int));
    }
    let end_col = start_col + byte_len(name.as_str());
    Some(FileEntry { name, file_type, is_executable, start_col, end_col })
}

/// Entry of a listing line, given the first match of the `ls -l` pattern in it (see
/// `entry_from`); a line without such a match is read as a plain listing.
pub fn entry_from_captures(text: &str, caps: Option<Vec<Option<(usize, usize, String)>>>) -> (r: Option<FileEntry>)
    requires
        utf8_len(text@) <= usize::MAX,
    ensures
        opt_entry_view(r) == entry_from(
            text@,
            match caps {
                Some(c) => Some(group_list_view(c@)),
                None => None,
            },
        ),
{
    let c = match caps {
        Some(c) => c,
        None => {
            return parse_simple_file_entry(text);
        },
    };
    let ghost cg = group_list_view(c@);
    if c.len() < 4 {
        return None;
    }
    let (g1, g2, g3) = match (&c[1], &c[2], &c[3]) {
        (Some(g1), Some(g2), Some(g3)) => (g1, g2, g3),
        _ => {
            return None;
        },
    };
    let tc = chars_of(g1.2.as_str());
    let perms = chars_of(g2.2.as_str());
    let name_v = chars_of(g3.2.as_str());
    let file_type = if tc.len() == 1 && tc[0] == 'd' {
        assert(tc@ =~= seq!['d']);
        FileType::Directory
    } else if tc.len() == 1 && tc[0] == 'l' {
        assert(tc@ =~= seq!['l']);
        FileType::SymbolicLink
    } else {
        assert(tc@ != seq!['d'] && tc@ != seq!['l']);
        detect_file_type_by_extension(g3.2.as_str())
    };
    let is_executable = (perms.len() > 2 && perms[2] == 'x') || (perms.len() > 5 && perms[5] == 'x')
        || (perms.len() > 8 && perms[8] == 'x');
    let tv = chars_of(text);
    let k = match rfind_chars(&tv, &name_v) {
        Some(k) => k,
        None => {
            return None;
        },
    };
    let prefix = string_from_range(&tv, 0, k);
    proof {
        crate::text::lemma_utf8_split(tv@, k as int);
        crate::text::lemma_utf8_split(tv@, k + name_v@.len());
        let pre = tv@.take(k + name_v@.len());
        crate::text::lemma_utf8_split(pre, k as int);
        assert(pre.take(k as int) =~= tv@.take(k as int));
        assert(pre.skip(k as int) =~= name_v@);
        assert(prefix@ =~= tv@.take(k as int));
    }
    let start_col = byte_len(prefix.as_str());
    let end_col = start_col + byte_len(g3.2.as_str());
    let name = g3.2.clone();
    Some(FileEntry { name, file_type, is_executable, start_col, end_col })
}

/// Entry of a listing line: an `ls -l` line, or a plain file name (see `file_entry`).
pub fn parse_file_entry(text: &str) -> (r: Option<FileEntry>)
    requires
        utf8_len(text@) <= usize::MAX,
    ensures
        opt_entry_view(r) == file_entry(text@),
{
    let caps = regex_captures(
        "^([d\\-lbcps])([rwx\\-]{9})\\s+\\d+\\s+\\S+\\s+\\S+\\s+\\d+\\s+\\S+\\s+\\d+\\s+[\\d:]+\\s+(.+)$",
        text,
    );
    entry_from_captures(text, caps)
}
} // verus!
