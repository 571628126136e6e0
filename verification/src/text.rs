//! Character-level text helpers shared by the detectors and the screen.

use vstd::prelude::*;
use vstd::utf8::{encode_scalar, encode_utf8};

verus! {

/// `p` occurs in `s` starting at position `i`.
pub open spec fn occurs_at(s: Seq<char>, p: Seq<char>, i: int) -> bool {
    0 <= i && i + p.len() <= s.len() && s.subrange(i, i + p.len()) =~= p
}

/// `p` occurs somewhere in `s` (the empty pattern occurs everywhere).
pub open spec fn contains_seq(s: Seq<char>, p: Seq<char>) -> bool {
    exists|i: int| #[trigger] occurs_at(s, p, i)
}

/// `p` is a prefix of `s`.
pub open spec fn starts_with_seq(s: Seq<char>, p: Seq<char>) -> bool {
    p.len() <= s.len() && s.subrange(0, p.len() as int) =~= p
}

/// `p` is a suffix of `s`.
pub open spec fn ends_with_seq(s: Seq<char>, p: Seq<char>) -> bool {
    p.len() <= s.len() && s.subrange(s.len() - p.len(), s.len() as int) =~= p
}

/// The Unicode `White_Space` property.
pub open spec fn is_ws(c: char) -> bool {
    let u = c as u32;
    (0x09 <= u <= 0x0D) || u == 0x20 || u == 0x85 || u == 0xA0 || u == 0x1680 || (0x2000 <= u
        <= 0x200A) || u == 0x2028 || u == 0x2029 || u == 0x202F || u == 0x205F || u == 0x3000
}

/// General category `Cc` (control codes).
pub open spec fn is_cc(c: char) -> bool {
    let u = c as u32;
    u <= 0x1F || (0x7F <= u <= 0x9F)
}

/// Every character of `s` is white space.
pub open spec fn all_ws(s: Seq<char>) -> bool {
    forall|i: int| 0 <= i < s.len() ==> is_ws(#[trigger] s[i])
}

/// Number of leading white-space characters of `s`.
pub open spec fn lead_ws(s: Seq<char>) -> nat
    decreases s.len(),
{
    if s.len() > 0 && is_ws(s[0]) {
        1 + lead_ws(s.drop_first())
    } else {
        0
    }
}

/// Number of trailing white-space characters of `s`.
pub open spec fn trail_ws(s: Seq<char>) -> nat
    decreases s.len(),
{
    if s.len() > 0 && is_ws(s.last()) {
        1 + trail_ws(s.drop_last())
    } else {
        0
    }
}

/// `s` without leading white space (`str::trim_start`).
pub open spec fn trim_start_seq(s: Seq<char>) -> Seq<char> {
    s.skip(lead_ws(s) as int)
}

/// `s` without trailing white space (`str::trim_end`).
pub open spec fn trim_end_seq(s: Seq<char>) -> Seq<char> {
    s.take(s.len() - trail_ws(s))
}

/// `s` without white space at either end (`str::trim`).
pub open spec fn trim_seq(s: Seq<char>) -> Seq<char> {
    trim_end_seq(trim_start_seq(s))
}

/// Length in bytes of the UTF-8 encoding of `s`.
pub open spec fn utf8_len(s: Seq<char>) -> int {
    encode_utf8(s).len() as int
}

/// What `str::len` returns for a string with characters `s` (its UTF-8 length).
pub open spec fn str_len(s: Seq<char>) -> int {
    (encode_utf8(s).len() as usize) as int
}

/// The UTF-8 encoding of a concatenation is the concatenation of the encodings.
pub proof fn lemma_utf8_concat(a: Seq<char>, b: Seq<char>)
    ensures
        encode_utf8(a + b) == encode_utf8(a) + encode_utf8(b),
    decreases a.len(),
{
    if a.len() > 0 {
        lemma_utf8_concat(a.drop_first(), b);
        assert((a + b).drop_first() =~= a.drop_first() + b);
        assert(encode_utf8(a) + encode_utf8(b) =~= encode_scalar(a[0] as u32) + (encode_utf8(
            a.drop_first(),
        ) + encode_utf8(b)));
    } else {
        assert(a + b =~= b);
        assert(encode_utf8(a) + encode_utf8(b) =~= encode_utf8(b));
    }
}

/// Splitting a string splits its UTF-8 length.
pub proof fn lemma_utf8_split(t: Seq<char>, j: int)
    requires
        0 <= j <= t.len(),
    ensures
        utf8_len(t.take(j)) + utf8_len(t.skip(j)) == utf8_len(t),
{
    lemma_utf8_concat(t.take(j), t.skip(j));
    assert(t.take(j) + t.skip(j) =~= t);
}

/// Byte length of a string whose length fits a `usize`.
pub fn byte_len(s: &str) -> (r: usize)
    requires
        utf8_len(s@) <= usize::MAX,
    ensures
        r == utf8_len(s@),
{
    s.len()
}

/// Number of occurrences of `c` in `s`.
pub open spec fn count_char(s: Seq<char>, c: char) -> nat
    decreases s.len(),
{
    if s.len() == 0 {
        0
    } else {
        (if s.last() == c { 1nat } else { 0nat }) + count_char(s.drop_last(), c)
    }
}

pub proof fn lemma_lead_ws_bound(s: Seq<char>)
    ensures
        lead_ws(s) <= s.len(),
        forall|i: int| 0 <= i < lead_ws(s) ==> is_ws(#[trigger] s[i]),
        lead_ws(s) < s.len() ==> !is_ws(s[lead_ws(s) as int]),
    decreases s.len(),
{
    if s.len() > 0 && is_ws(s[0]) {
        lemma_lead_ws_bound(s.drop_first());
        assert forall|i: int| 0 <= i < lead_ws(s) implies is_ws(#[trigger] s[i]) by {
            if i > 0 {
                assert(s[i] == s.drop_first()[i - 1]);
            }
        }
        if lead_ws(s) < s.len() {
            assert(s[lead_ws(s) as int] == s.drop_first()[lead_ws(s.drop_first()) as int]);
        }
    }
}

pub proof fn lemma_trail_ws_bound(s: Seq<char>)
    ensures
        trail_ws(s) <= s.len(),
        forall|i: int| s.len() - trail_ws(s) <= i < s.len() ==> is_ws(#[trigger] s[i]),
        trail_ws(s) < s.len() ==> !is_ws(s[s.len() - trail_ws(s) - 1]),
    decreases s.len(),
{
    if s.len() > 0 && is_ws(s.last()) {
        lemma_trail_ws_bound(s.drop_last());
        assert forall|i: int| s.len() - trail_ws(s) <= i < s.len() implies is_ws(#[trigger] s[i]) by {
            if i < s.len() - 1 {
                assert(s[i] == s.drop_last()[i]);
            }
        }
        if trail_ws(s) < s.len() {
            assert(s[s.len() - trail_ws(s) - 1] == s.drop_last()[s.len() - 1 - trail_ws(
                s.drop_last(),
            ) - 1]);
        }
    }
}

/// The characters of a string, in order.
pub fn chars_of(s: &str) -> (v: Vec<char>)
    ensures
        v@ == s@,
{
    let mut v: Vec<char> = Vec::new();
    for ch in it: s.chars()
        invariant
            v@ == it.seq().take(it.index() as int),
            it.seq() == s@,
    {
        v.push(ch);
    }
    v
}

/// `String::push` of std.
///
/// Claimed: the string afterwards is the string before with `c` appended.
#[verifier::external_body]
pub(crate) fn string_push(s: &mut String, c: char)
    ensures
        final(s)@ == old(s)@.push(c),
{
    s.push(c);
}

/// `String::pop` of std.
///
/// Claimed: on a non-empty string the last character is removed and returned; on an
/// empty one nothing changes and `None` comes back.
#[verifier::external_body]
pub(crate) fn string_pop(s: &mut String) -> (r: Option<char>)
    ensures
        old(s)@.len() > 0 ==> final(s)@ == old(s)@.drop_last() && r == Some(old(s)@.last()),
        old(s)@.len() == 0 ==> final(s)@ == old(s)@ && r is None,
{
    s.pop()
}

/// Appends the characters of `t` to `s`.
pub(crate) fn string_push_str(s: &mut String, t: &str)
    ensures
        final(s)@ == old(s)@ + t@,
{
    let tv = chars_of(t);
    let mut i: usize = 0;
    while i < tv.len()
        invariant
            i <= tv@.len(),
            tv@ == t@,
            s@ == old(s)@ + tv@.take(i as int),
        decreases tv@.len() - i,
    {
        string_push(s, tv[i]);
        i += 1;
        assert(old(s)@ + tv@.take(i as int) =~= (old(s)@ + tv@.take(i - 1)).push(tv@[i - 1]));
    }
    assert(tv@.take(tv@.len() as int) =~= tv@);
}

/// A string holding `v[start..end]`.
pub fn string_from_range(v: &Vec<char>, start: usize, end: usize) -> (r: String)
    requires
        start <= end <= v@.len(),
    ensures
        r@ == v@.subrange(start as int, end as int),
{
    let mut r = String::new();
    let mut i = start;
    while i < end
        invariant
            start <= i <= end <= v@.len(),
            r@ == v@.subrange(start as int, i as int),
        decreases end - i,
    {
        string_push(&mut r, v[i]);
        assert(v@.subrange(start as int, i + 1) =~= v@.subrange(start as int, i as int).push(v@[i as int]));
        i += 1;
    }
    r
}

/// A string holding all of `v`.
pub fn string_from_chars(v: &Vec<char>) -> (r: String)
    ensures
        r@ == v@,
{
    let r = string_from_range(v, 0, v.len());
    assert(v@.subrange(0, v@.len() as int) =~= v@);
    r
}

/// `char::is_whitespace`: the Unicode `White_Space` property.
pub fn is_whitespace(c: char) -> (r: bool)
    ensures
        r == is_ws(c),
{
    let u = c as u32;
    (0x09 <= u && u <= 0x0D) || u == 0x20 || u == 0x85 || u == 0xA0 || u == 0x1680 || (0x2000
        <= u && u <= 0x200A) || u == 0x2028 || u == 0x2029 || u == 0x202F || u == 0x205F || u
        == 0x3000
}

/// `char::is_control`: general category `Cc`.
pub fn is_control(c: char) -> (r: bool)
    ensures
        r == is_cc(c),
{
    let u = c as u32;
    u <= 0x1F || (0x7F <= u && u <= 0x9F)
}

/// Whether `c` is alphabetic or numeric, as `char::is_alphanumeric` of std says.
pub uninterp spec fn unicode_alphanumeric(c: char) -> bool;

/// Whether `c` is numeric, as `char::is_numeric` of std says.
pub uninterp spec fn unicode_numeric(c: char) -> bool;

/// `char::is_alphanumeric` of std.
///
/// Claimed: the result is `unicode_alphanumeric(c)`, which holds of ASCII letters and digits
/// and of no other ASCII character (std documents it as `is_alphabetic() || is_numeric()`).
#[verifier::external_body]
pub fn is_alphanumeric(c: char) -> (r: bool)
    ensures
        r == unicode_alphanumeric(c),
        (c as u32) < 0x80 ==> (r <==> (('a' <= c <= 'z') || ('A' <= c <= 'Z') || ('0' <= c
            <= '9'))),
{
    c.is_alphanumeric()
}

/// `char::is_numeric` of std.
///
/// Claimed: the result is `unicode_numeric(c)`, which among ASCII characters holds of the
/// digits alone (std: general categories `Nd`, `Nl`, `No`).
#[verifier::external_body]
pub fn is_numeric(c: char) -> (r: bool)
    ensures
        r == unicode_numeric(c),
        (c as u32) < 0x80 ==> (r <==> ('0' <= c <= '9')),
{
    c.is_numeric()
}

/// Lower-case mapping of a string, as `str::to_lowercase` of std computes it.
pub uninterp spec fn lowercase_of(s: Seq<char>) -> Seq<char>;

/// Upper-case mapping of a string, as `str::to_uppercase` of std computes it.
pub uninterp spec fn uppercase_of(s: Seq<char>) -> Seq<char>;

/// `str::to_lowercase` of std.
///
/// Claimed: the result is `lowercase_of(s)`. The Unicode case tables are not stated.
#[verifier::external_body]
pub fn to_lowercase(s: &str) -> (r: String)
    ensures
        r@ == lowercase_of(s@),
{
    s.to_lowercase()
}

/// `str::to_uppercase` of std.
///
/// Claimed: the result is `uppercase_of(s)`. The Unicode case tables are not stated.
#[verifier::external_body]
pub fn to_uppercase(s: &str) -> (r: String)
    ensures
        r@ == uppercase_of(s@),
{
    s.to_uppercase()
}

/// Whether `p` occurs in `s` at `i`.
pub fn matches_at(s: &Vec<char>, p: &Vec<char>, i: usize) -> (r: bool)
    ensures
        r == occurs_at(s@, p@, i as int),
{
    if i > s.len() || p.len() > s.len() - i {
        return false;
    }
    let mut k: usize = 0;
    while k < p.len()
        invariant
            i + p@.len() <= s@.len(),
            s@.len() <= usize::MAX,
            k <= p@.len(),
            forall|j: int| 0 <= j < k ==> s@[i + j] == p@[j],
        decreases p@.len() - k,
    {
        if s[i + k] != p[k] {
            assert(s@.subrange(i as int, i + p@.len())[k as int] != p@[k as int]);
            return false;
        }
        k += 1;
    }
    assert(s@.subrange(i as int, i + p@.len()) =~= p@);
    true
}

/// Whether `p` occurs anywhere in `s`.
pub fn contains(s: &Vec<char>, p: &Vec<char>) -> (r: bool)
    ensures
        r == contains_seq(s@, p@),
{
    if p.len() > s.len() {
        assert forall|i: int| !occurs_at(s@, p@, i) by {}
        return false;
    }
    if p.len() == 0 {
        assert(occurs_at(s@, p@, 0));
        return true;
    }
    let last = s.len() - p.len();
    let mut i: usize = 0;
    while i <= last
        invariant
            last == s@.len() - p@.len(),
            p@.len() >= 1,
            s@.len() <= usize::MAX,
            i <= last + 1,
            forall|j: int| 0 <= j < i ==> !occurs_at(s@, p@, j),
        decreases last + 1 - i,
    {
        if matches_at(s, p, i) {
            return true;
        }
        i += 1;
    }
    assert forall|j: int| !occurs_at(s@, p@, j) by {
        if 0 <= j < i {
        }
    }
    false
}

/// Whether `s` contains the literal `p`.
pub fn contains_str(s: &Vec<char>, p: &str) -> (r: bool)
    ensures
        r == contains_seq(s@, p@),
{
    let pv = chars_of(p);
    contains(s, &pv)
}

/// Whether `s` starts with the literal `p`.
pub fn starts_with_str(s: &Vec<char>, p: &str) -> (r: bool)
    ensures
        r == starts_with_seq(s@, p@),
{
    let pv = chars_of(p);
    let r = matches_at(s, &pv, 0);
    r
}

/// Whether `s` ends with the literal `p`.
pub fn ends_with_str(s: &Vec<char>, p: &str) -> (r: bool)
    ensures
        r == ends_with_seq(s@, p@),
{
    let pv = chars_of(p);
    if pv.len() > s.len() {
        return false;
    }
    matches_at(s, &pv, s.len() - pv.len())
}

/// Whether `s` contains the character `c`.
pub fn contains_char(s: &Vec<char>, c: char) -> (r: bool)
    ensures
        r == s@.contains(c),
{
    let mut i: usize = 0;
    while i < s.len()
        invariant
            i <= s@.len(),
            forall|j: int| 0 <= j < i ==> s@[j] != c,
        decreases s@.len() - i,
    {
        if s[i] == c {
            return true;
        }
        i += 1;
    }
    false
}

/// Index of the first non-white-space character of `s`.
pub fn first_non_ws(s: &Vec<char>) -> (r: usize)
    ensures
        r == lead_ws(s@),
        r <= s@.len(),
{
    proof {
        lemma_lead_ws_bound(s@);
    }
    let mut i: usize = 0;
    while i < s.len() && is_whitespace(s[i])
        invariant
            i <= s@.len(),
            forall|j: int| 0 <= j < i ==> is_ws(#[trigger] s@[j]),
            i <= lead_ws(s@),
            lead_ws(s@) <= s@.len(),
            forall|j: int| 0 <= j < lead_ws(s@) ==> is_ws(#[trigger] s@[j]),
            lead_ws(s@) < s@.len() ==> !is_ws(s@[lead_ws(s@) as int]),
        decreases s@.len() - i,
    {
        i += 1;
    }
    i
}

/// Length of `s` without its trailing white space.
pub fn end_non_ws(s: &Vec<char>) -> (r: usize)
    ensures
        r == s@.len() - trail_ws(s@),
{
    proof {
        lemma_trail_ws_bound(s@);
    }
    let mut i: usize = s.len();
    while i > 0 && is_whitespace(s[i - 1])
        invariant
            i <= s@.len(),
            s@.len() - trail_ws(s@) <= i,
            trail_ws(s@) <= s@.len(),
            forall|j: int| s@.len() - trail_ws(s@) <= j < s@.len() ==> is_ws(#[trigger] s@[j]),
            trail_ws(s@) < s@.len() ==> !is_ws(s@[s@.len() - trail_ws(s@) - 1]),
        decreases i,
    {
        i -= 1;
    }
    i
}

/// `s` with white space removed at both ends.
pub fn trim_chars(s: &Vec<char>) -> (r: Vec<char>)
    ensures
        r@ == trim_seq(s@),
{
    let a = first_non_ws(s);
    let mut t: Vec<char> = Vec::new();
    let mut i = a;
    assert(t@ =~= s@.subrange(a as int, i as int));
    while i < s.len()
        invariant
            a <= i <= s@.len(),
            t@ == s@.subrange(a as int, i as int),
        decreases s@.len() - i,
    {
        t.push(s[i]);
        assert(s@.subrange(a as int, i + 1) =~= s@.subrange(a as int, i as int).push(s@[i as int]));
        i += 1;
    }
    assert(t@ =~= trim_start_seq(s@));
    let e = end_non_ws(&t);
    t.truncate(e);
    t
}

/// `s` with leading white space removed.
pub fn trim_start_chars(s: &Vec<char>) -> (r: Vec<char>)
    ensures
        r@ == trim_start_seq(s@),
{
    let a = first_non_ws(s);
    let mut t: Vec<char> = Vec::new();
    let mut i = a;
    assert(t@ =~= s@.subrange(a as int, i as int));
    while i < s.len()
        invariant
            a <= i <= s@.len(),
            t@ == s@.subrange(a as int, i as int),
        decreases s@.len() - i,
    {
        t.push(s[i]);
        assert(s@.subrange(a as int, i + 1) =~= s@.subrange(a as int, i as int).push(s@[i as int]));
        i += 1;
    }
    assert(t@ =~= trim_start_seq(s@));
    t
}

} // verus!
