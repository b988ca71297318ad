//! Character-sequence helpers shared by the parsers: conversion between
//! `String` and `Vec<char>`, searching, trimming, and the spec-level string
//! vocabulary (occurrence, first/last match, trimmed forms) the contracts
//! are written in.

use vstd::prelude::*;
use vstd::std_specs::iter::IteratorSpec;
use vstd::string::StringSliceAdditionalSpecFns;

verus! {

/// Whether std's `char::is_whitespace` holds: the Unicode `White_Space`
/// property, which holds of these 25 code points.
pub open spec fn is_whitespace(c: char) -> bool {
    ||| ('\t' <= c <= '\r')
    ||| c == ' '
    ||| c == '\u{85}'
    ||| c == '\u{a0}'
    ||| c == '\u{1680}'
    ||| ('\u{2000}' <= c <= '\u{200a}')
    ||| c == '\u{2028}'
    ||| c == '\u{2029}'
    ||| c == '\u{202f}'
    ||| c == '\u{205f}'
    ||| c == '\u{3000}'
}

/// Whether std's `char::is_alphabetic` holds (the Unicode `Alphabetic` property).
pub uninterp spec fn is_alphabetic(c: char) -> bool;

/// Whether std's `char::is_alphanumeric` holds (Unicode `Alphabetic` or `Numeric`).
pub uninterp spec fn is_alphanumeric(c: char) -> bool;

/// ASCII letters.
pub open spec fn is_ascii_letter(c: char) -> bool {
    ('a' <= c <= 'z') || ('A' <= c <= 'Z')
}

/// ASCII digits.
pub open spec fn is_ascii_digit(c: char) -> bool {
    '0' <= c <= '9'
}

/// `char::is_whitespace`: the `White_Space` code points; on ASCII, space
/// and `\t` through `\r`.
pub fn char_is_whitespace(c: char) -> (r: bool)
    ensures
        r == is_whitespace(c),
        c <= '\x7f' ==> (r <==> (c == ' ' || ('\t' <= c <= '\r'))),
{
    ('\t' <= c && c <= '\r') || c == ' ' || c == '\u{85}' || c == '\u{a0}' || c == '\u{1680}'
        || ('\u{2000}' <= c && c <= '\u{200a}') || c == '\u{2028}' || c == '\u{2029}' || c == '\u{202f}'
        || c == '\u{205f}' || c == '\u{3000}'
}

/// `char::is_alphabetic`. On ASCII exactly the letters are alphabetic.
#[verifier::external_body]
pub fn char_is_alphabetic(c: char) -> (r: bool)
    ensures
        r == is_alphabetic(c),
        c <= '\x7f' ==> (r <==> is_ascii_letter(c)),
{
    c.is_alphabetic()
}

/// `char::is_alphanumeric`. On ASCII exactly the letters and digits are
/// alphanumeric.
#[verifier::external_body]
pub fn char_is_alphanumeric(c: char) -> (r: bool)
    ensures
        r == is_alphanumeric(c),
        c <= '\x7f' ==> (r <==> (is_ascii_letter(c) || is_ascii_digit(c))),
{
    c.is_alphanumeric()
}

/// Appends one character. Wraps `String::push`.
#[verifier::external_body]
pub fn string_push(s: &mut String, c: char)
    ensures
        final(s)@ == old(s)@.push(c),
{
    s.push(c);
}

/// The characters of `s`, in order.
pub fn chars_of(s: &str) -> (v: Vec<char>)
    ensures
        v@ == s@,
{
    let mut out: Vec<char> = Vec::new();
    for c in it: s.chars()
        invariant
            it.seq() == s@,
            out@ == it.seq().subrange(0, it.index() as int),
    {
        out.push(c);
    }
    out
}

/// A `String` holding exactly the characters of `v`.
pub fn string_of(v: &[char]) -> (s: String)
    ensures
        s@ == v@,
{
    let mut out = String::new();
    let mut i: usize = 0;
    while i < v.len()
        invariant
            i <= v@.len(),
            out@ == v@.subrange(0, i as int),
        decreases v@.len() - i,
    {
        string_push(&mut out, v[i]);
        assert(v@.subrange(0, i + 1) == v@.subrange(0, i as int).push(v@[i as int]));
        i += 1;
    }
    assert(v@.subrange(0, v@.len() as int) == v@);
    out
}

/// Appends the characters of `s` to `out`.
pub fn push_chars(out: &mut Vec<char>, s: &[char])
    ensures
        final(out)@ == old(out)@ + s@,
{
    let ghost start = out@;
    let mut i: usize = 0;
    while i < s.len()
        invariant
            i <= s@.len(),
            out@ == start + s@.subrange(0, i as int),
        decreases s@.len() - i,
    {
        out.push(s[i]);
        assert(s@.subrange(0, i + 1) == s@.subrange(0, i as int).push(s@[i as int]));
        i += 1;
    }
    assert(s@.subrange(0, s@.len() as int) == s@);
}

/// Appends the characters of `s` to `out`.
pub fn push_str(out: &mut Vec<char>, s: &str)
    ensures
        final(out)@ == old(out)@ + s@,
{
    let v = chars_of(s);
    push_chars(out, &v);
}

/// The characters `s[a..b]`.
pub fn sub_chars(s: &[char], a: usize, b: usize) -> (v: Vec<char>)
    requires
        a <= b <= s@.len(),
    ensures
        v@ == s@.subrange(a as int, b as int),
{
    let mut out: Vec<char> = Vec::new();
    let mut i: usize = a;
    while i < b
        invariant
            a <= i <= b <= s@.len(),
            out@ == s@.subrange(a as int, i as int),
        decreases b - i,
    {
        out.push(s[i]);
        assert(s@.subrange(a as int, i + 1) == s@.subrange(a as int, i as int).push(s@[i as int]));
        i += 1;
    }
    out
}

/// Whether `p` occurs in `s` starting at index `i`.
pub open spec fn occurs_at(s: Seq<char>, p: Seq<char>, i: int) -> bool {
    0 <= i && i + p.len() <= s.len() && s.subrange(i, i + p.len()) == p
}

/// Whether `p` occurs anywhere in `s`.
pub open spec fn contains_seq(s: Seq<char>, p: Seq<char>) -> bool {
    exists|i: int| occurs_at(s, p, i)
}

/// The first index at or after `i` where `p` occurs in `s`.
pub open spec fn find_from(s: Seq<char>, p: Seq<char>, i: int) -> Option<int>
    decreases s.len() + 1 - i,
{
    if i < 0 || i + p.len() > s.len() {
        None
    } else if s.subrange(i, i + p.len()) == p {
        Some(i)
    } else {
        find_from(s, p, i + 1)
    }
}

/// The first index where `p` occurs in `s` (`str::find`).
pub open spec fn find_spec(s: Seq<char>, p: Seq<char>) -> Option<int> {
    find_from(s, p, 0)
}

/// The last index at or before `i` where `p` occurs in `s`.
pub open spec fn rfind_from(s: Seq<char>, p: Seq<char>, i: int) -> Option<int>
    decreases i + 1,
{
    if i < 0 {
        None
    } else if occurs_at(s, p, i) {
        Some(i)
    } else {
        rfind_from(s, p, i - 1)
    }
}

/// The last index where `p` occurs in `s` (`str::rfind`).
pub open spec fn rfind_spec(s: Seq<char>, p: Seq<char>) -> Option<int> {
    rfind_from(s, p, s.len() - p.len())
}

/// `find_from` returns the least occurrence at or after `i`.
pub proof fn lemma_find_from(s: Seq<char>, p: Seq<char>, i: int)
    requires
        0 <= i,
    ensures
        match find_from(s, p, i) {
            Some(k) => i <= k && occurs_at(s, p, k) && forall|j: int| i <= j < k ==> !occurs_at(s, p, j),
            None => forall|j: int| i <= j ==> !occurs_at(s, p, j),
        },
    decreases s.len() + 1 - i,
{
    if i + p.len() > s.len() {
    } else if s.subrange(i, i + p.len()) == p {
    } else {
        lemma_find_from(s, p, i + 1);
    }
}

/// `find_spec` is the least occurrence, and `None` exactly when `p` is absent.
pub proof fn lemma_find_spec(s: Seq<char>, p: Seq<char>)
    ensures
        find_spec(s, p) is Some <==> contains_seq(s, p),
        match find_spec(s, p) {
            Some(k) => occurs_at(s, p, k) && forall|j: int| 0 <= j < k ==> !occurs_at(s, p, j),
            None => true,
        },
{
    lemma_find_from(s, p, 0);
}

/// Whether `p` occurs in `s` at `i`.
pub fn matches_at(s: &[char], p: &[char], i: usize) -> (r: bool)
    requires
        i + p@.len() <= s@.len(),
    ensures
        r == (s@.subrange(i as int, i + p@.len()) == p@),
{
    let n = s.len();
    let mut k: usize = 0;
    while k < p.len()
        invariant
            k <= p@.len(),
            n == s@.len(),
            i + p@.len() <= s@.len(),
            forall|j: int| 0 <= j < k ==> s@[i + j] == p@[j],
        decreases p@.len() - k,
    {
        if s[i + k] != p[k] {
            assert(s@.subrange(i as int, i + p@.len())[k as int] != p@[k as int]);
            return false;
        }
        k += 1;
    }
    assert(s@.subrange(i as int, i + p@.len()) =~= p@);
    true
}

/// The first index at or after `from` where `p` occurs in `s`.
pub fn find_chars_from(s: &[char], p: &[char], from: usize) -> (r: Option<usize>)
    ensures
        r == (match find_from(s@, p@, from as int) {
            Some(k) => Some(k as usize),
            None => None::<usize>,
        }),
{
    if p.len() == 0 {
        if from <= s.len() {
            assert(s@.subrange(from as int, from as int) =~= p@);
            return Some(from);
        }
        return None;
    }
    let mut i: usize = from;
    while p.len() <= s.len() && i <= s.len() - p.len()
        invariant
            from <= i,
            p@.len() >= 1,
            find_from(s@, p@, from as int) == find_from(s@, p@, i as int),
        decreases s@.len() + 1 - i,
    {
        if matches_at(s, p, i) {
            return Some(i);
        }
        i += 1;
    }
    None
}

/// `str::find` on characters.
pub fn find_chars(s: &[char], p: &[char]) -> (r: Option<usize>)
    ensures
        r == (match find_spec(s@, p@) {
            Some(k) => Some(k as usize),
            None => None::<usize>,
        }),
{
    find_chars_from(s, p, 0)
}

/// `str::find` with a literal pattern.
pub fn find_str(s: &[char], p: &str) -> (r: Option<usize>)
    ensures
        r == (match find_spec(s@, p@) {
            Some(k) => Some(k as usize),
            None => None::<usize>,
        }),
{
    let pv = chars_of(p);
    find_chars(s, &pv)
}

/// `str::contains` with a literal pattern.
pub fn contains_str(s: &[char], p: &str) -> (r: bool)
    ensures
        r == contains_seq(s@, p@),
{
    proof { lemma_find_spec(s@, p@); }
    find_str(s, p).is_some()
}

/// `str::rfind` with a literal pattern.
pub fn rfind_str(s: &[char], p: &str) -> (r: Option<usize>)
    ensures
        r == (match rfind_spec(s@, p@) {
            Some(k) => Some(k as usize),
            None => None::<usize>,
        }),
{
    let pv = chars_of(p);
    if pv.len() > s.len() {
        assert(rfind_spec(s@, p@) == None::<int>);
        return None;
    }
    let mut i: usize = s.len() - pv.len();
    loop
        invariant
            pv@ == p@,
            pv@.len() <= s@.len(),
            i + pv@.len() <= s@.len(),
            rfind_spec(s@, p@) == rfind_from(s@, p@, i as int),
        decreases i,
    {
        if matches_at(s, &pv, i) {
            return Some(i);
        }
        if i == 0 {
            assert(rfind_from(s@, p@, -1) == None::<int>);
            return None;
        }
        i -= 1;
    }
}

/// `str::starts_with` with a literal pattern.
pub fn starts_with_str(s: &[char], p: &str) -> (r: bool)
    ensures
        r == p@.is_prefix_of(s@),
{
    let pv = chars_of(p);
    if pv.len() > s.len() {
        return false;
    }
    let r = matches_at(s, &pv, 0);
    assert(r == (s@.subrange(0, p@.len() as int) == p@));
    r
}

/// `str::ends_with` with a literal pattern.
pub fn ends_with_str(s: &[char], p: &str) -> (r: bool)
    ensures
        r == p@.is_suffix_of(s@),
{
    let pv = chars_of(p);
    if pv.len() > s.len() {
        return false;
    }
    matches_at(s, &pv, s.len() - pv.len())
}

/// Whether `s` is exactly the literal `p`.
pub fn eq_str(s: &[char], p: &str) -> (r: bool)
    ensures
        r == (s@ == p@),
{
    let pv = chars_of(p);
    if pv.len() != s.len() {
        return false;
    }
    let r = matches_at(s, &pv, 0);
    assert(s@.subrange(0, s@.len() as int) =~= s@);
    r
}

/// `s` without its leading whitespace (`str::trim_start`).
pub open spec fn trim_start_spec(s: Seq<char>) -> Seq<char>
    decreases s.len(),
{
    if s.len() > 0 && is_whitespace(s[0]) {
        trim_start_spec(s.drop_first())
    } else {
        s
    }
}

/// `s` without its trailing whitespace (`str::trim_end`).
pub open spec fn trim_end_spec(s: Seq<char>) -> Seq<char>
    decreases s.len(),
{
    if s.len() > 0 && is_whitespace(s.last()) {
        trim_end_spec(s.drop_last())
    } else {
        s
    }
}

/// `s` without leading or trailing whitespace (`str::trim`).
pub open spec fn trim_spec(s: Seq<char>) -> Seq<char> {
    trim_end_spec(trim_start_spec(s))
}

/// The index where `s[from..]` stops being whitespace.
pub fn trim_start_index(s: &[char], from: usize) -> (i: usize)
    requires
        from <= s@.len(),
    ensures
        from <= i <= s@.len(),
        s@.subrange(i as int, s@.len() as int) == trim_start_spec(s@.subrange(from as int, s@.len() as int)),
{
    let mut i: usize = from;
    while i < s.len() && char_is_whitespace(s[i])
        invariant
            from <= i <= s@.len(),
            trim_start_spec(s@.subrange(from as int, s@.len() as int)) == trim_start_spec(s@.subrange(i as int, s@.len() as int)),
        decreases s@.len() - i,
    {
        assert(s@.subrange(i as int, s@.len() as int).drop_first() =~= s@.subrange(i + 1, s@.len() as int));
        i += 1;
    }
    i
}

/// The index where `s[from..to]` stops ending in whitespace.
pub fn trim_end_index(s: &[char], from: usize, to: usize) -> (j: usize)
    requires
        from <= to <= s@.len(),
    ensures
        from <= j <= to,
        s@.subrange(from as int, j as int) == trim_end_spec(s@.subrange(from as int, to as int)),
{
    let mut j: usize = to;
    while j > from && char_is_whitespace(s[j - 1])
        invariant
            from <= j <= to <= s@.len(),
            trim_end_spec(s@.subrange(from as int, to as int)) == trim_end_spec(s@.subrange(from as int, j as int)),
        decreases j,
    {
        assert(s@.subrange(from as int, j as int).drop_last() =~= s@.subrange(from as int, j - 1));
        j -= 1;
    }
    j
}

/// `str::trim` on characters.
pub fn trim_chars(s: &[char]) -> (v: Vec<char>)
    ensures
        v@ == trim_spec(s@),
{
    let a = trim_start_index(s, 0);
    assert(s@.subrange(0, s@.len() as int) =~= s@);
    let b = trim_end_index(s, a, s.len());
    sub_chars(s, a, b)
}

/// `str::trim_start` on characters.
pub fn trim_start_chars(s: &[char]) -> (v: Vec<char>)
    ensures
        v@ == trim_start_spec(s@),
{
    let a = trim_start_index(s, 0);
    assert(s@.subrange(0, s@.len() as int) =~= s@);
    sub_chars(s, a, s.len())
}

/// `str::trim_end` on characters.
pub fn trim_end_chars(s: &[char]) -> (v: Vec<char>)
    ensures
        v@ == trim_end_spec(s@),
{
    let b = trim_end_index(s, 0, s.len());
    assert(s@.subrange(0, s@.len() as int) =~= s@);
    sub_chars(s, 0, b)
}

/// `str::trim` on a string.
pub fn trim_str(s: &str) -> (r: String)
    ensures
        r@ == trim_spec(s@),
{
    let v = chars_of(s);
    let t = trim_chars(&v);
    string_of(&t)
}

/// `str::strip_prefix`.
pub open spec fn strip_prefix_spec(s: Seq<char>, p: Seq<char>) -> Option<Seq<char>> {
    if p.is_prefix_of(s) {
        Some(s.subrange(p.len() as int, s.len() as int))
    } else {
        None
    }
}

/// `str::strip_suffix`.
pub open spec fn strip_suffix_spec(s: Seq<char>, p: Seq<char>) -> Option<Seq<char>> {
    if p.is_suffix_of(s) {
        Some(s.subrange(0, s.len() - p.len()))
    } else {
        None
    }
}

/// `str::split_once`: the text before and after the first occurrence.
pub open spec fn split_once_spec(s: Seq<char>, p: Seq<char>) -> Option<(Seq<char>, Seq<char>)> {
    match find_spec(s, p) {
        Some(i) => Some((s.subrange(0, i), s.subrange(i + p.len(), s.len() as int))),
        None => None,
    }
}

/// `str::rsplit_once`: the text before and after the last occurrence.
pub open spec fn rsplit_once_spec(s: Seq<char>, p: Seq<char>) -> Option<(Seq<char>, Seq<char>)> {
    match rfind_spec(s, p) {
        Some(i) => Some((s.subrange(0, i), s.subrange(i + p.len(), s.len() as int))),
        None => None,
    }
}

/// `str::trim_start_matches(c)`: every leading `c` removed.
pub open spec fn trim_start_char_spec(s: Seq<char>, c: char) -> Seq<char>
    decreases s.len(),
{
    if s.len() > 0 && s[0] == c {
        trim_start_char_spec(s.drop_first(), c)
    } else {
        s
    }
}

/// `str::trim_end_matches(c)`: every trailing `c` removed.
pub open spec fn trim_end_char_spec(s: Seq<char>, c: char) -> Seq<char>
    decreases s.len(),
{
    if s.len() > 0 && s.last() == c {
        trim_end_char_spec(s.drop_last(), c)
    } else {
        s
    }
}

/// `str::trim_end_matches(['\r', '\n'])`.
pub open spec fn trim_end_newlines_spec(s: Seq<char>) -> Seq<char>
    decreases s.len(),
{
    if s.len() > 0 && (s.last() == '\r' || s.last() == '\n') {
        trim_end_newlines_spec(s.drop_last())
    } else {
        s
    }
}

/// `str::strip_prefix` with a literal.
pub fn strip_prefix_str(s: &[char], p: &str) -> (r: Option<Vec<char>>)
    ensures
        match r {
            Some(v) => strip_prefix_spec(s@, p@) == Some(v@),
            None => strip_prefix_spec(s@, p@) is None,
        },
{
    if starts_with_str(s, p) {
        Some(sub_chars(s, p.unicode_len(), s.len()))
    } else {
        None
    }
}

/// `str::strip_suffix` with a literal.
pub fn strip_suffix_str(s: &[char], p: &str) -> (r: Option<Vec<char>>)
    ensures
        match r {
            Some(v) => strip_suffix_spec(s@, p@) == Some(v@),
            None => strip_suffix_spec(s@, p@) is None,
        },
{
    if ends_with_str(s, p) {
        Some(sub_chars(s, 0, s.len() - p.unicode_len()))
    } else {
        None
    }
}

/// `str::split_once` with a literal.
pub fn split_once_str(s: &[char], p: &str) -> (r: Option<(Vec<char>, Vec<char>)>)
    ensures
        match r {
            Some(v) => split_once_spec(s@, p@) == Some((v.0@, v.1@)),
            None => split_once_spec(s@, p@) is None,
        },
{
    proof { lemma_find_spec(s@, p@); }
    match find_str(s, p) {
        Some(i) => {
            let n = p.unicode_len();
            let sl = s.len();
            assert(i + n <= sl);
            Some((sub_chars(s, 0, i), sub_chars(s, i + n, sl)))
        },
        None => None,
    }
}

/// `str::rsplit_once` with a literal.
pub fn rsplit_once_str(s: &[char], p: &str) -> (r: Option<(Vec<char>, Vec<char>)>)
    ensures
        match r {
            Some(v) => rsplit_once_spec(s@, p@) == Some((v.0@, v.1@)),
            None => rsplit_once_spec(s@, p@) is None,
        },
{
    proof { lemma_rfind(s@, p@, s@.len() - p@.len()); }
    match rfind_str(s, p) {
        Some(i) => {
            let n = p.unicode_len();
            let sl = s.len();
            assert(i + n <= sl);
            Some((sub_chars(s, 0, i), sub_chars(s, i + n, sl)))
        },
        None => None,
    }
}

/// A match found by `rfind_from` is an occurrence.
pub proof fn lemma_rfind(s: Seq<char>, p: Seq<char>, i: int)
    ensures
        match rfind_from(s, p, i) {
            Some(k) => occurs_at(s, p, k) && k <= i,
            None => forall|j: int| 0 <= j <= i ==> !occurs_at(s, p, j),
        },
    decreases i + 1,
{
    if i >= 0 && !occurs_at(s, p, i) {
        lemma_rfind(s, p, i - 1);
    }
}

/// `str::trim_start_matches(c)`.
pub fn trim_start_char(s: &[char], c: char) -> (v: Vec<char>)
    ensures
        v@ == trim_start_char_spec(s@, c),
{
    let mut i: usize = 0;
    assert(s@.subrange(0, s@.len() as int) =~= s@);
    while i < s.len() && s[i] == c
        invariant
            i <= s@.len(),
            trim_start_char_spec(s@, c) == trim_start_char_spec(s@.subrange(i as int, s@.len() as int), c),
        decreases s@.len() - i,
    {
        assert(s@.subrange(i as int, s@.len() as int).drop_first() =~= s@.subrange(i + 1, s@.len() as int));
        i += 1;
    }
    sub_chars(s, i, s.len())
}

/// `str::trim_end_matches(c)`.
pub fn trim_end_char(s: &[char], c: char) -> (v: Vec<char>)
    ensures
        v@ == trim_end_char_spec(s@, c),
{
    let mut j: usize = s.len();
    assert(s@.subrange(0, s@.len() as int) =~= s@);
    while j > 0 && s[j - 1] == c
        invariant
            j <= s@.len(),
            trim_end_char_spec(s@, c) == trim_end_char_spec(s@.subrange(0, j as int), c),
        decreases j,
    {
        assert(s@.subrange(0, j as int).drop_last() =~= s@.subrange(0, j - 1));
        j -= 1;
    }
    sub_chars(s, 0, j)
}

/// `str::trim_end_matches(['\r', '\n'])`.
pub fn trim_end_newlines(s: &[char]) -> (v: Vec<char>)
    ensures
        v@ == trim_end_newlines_spec(s@),
{
    let mut j: usize = s.len();
    assert(s@.subrange(0, s@.len() as int) =~= s@);
    while j > 0 && (s[j - 1] == '\r' || s[j - 1] == '\n')
        invariant
            j <= s@.len(),
            trim_end_newlines_spec(s@) == trim_end_newlines_spec(s@.subrange(0, j as int)),
        decreases j,
    {
        assert(s@.subrange(0, j as int).drop_last() =~= s@.subrange(0, j - 1));
        j -= 1;
    }
    sub_chars(s, 0, j)
}

/// Whether some character of `s` is whitespace.
pub open spec fn has_whitespace(s: Seq<char>) -> bool {
    exists|i: int| 0 <= i < s.len() && is_whitespace(#[trigger] s[i])
}

/// Whether some character of `s` is whitespace.
pub fn any_whitespace(s: &[char]) -> (r: bool)
    ensures
        r == has_whitespace(s@),
{
    let mut i: usize = 0;
    while i < s.len()
        invariant
            i <= s@.len(),
            forall|k: int| 0 <= k < i ==> !is_whitespace(#[trigger] s@[k]),
        decreases s@.len() - i,
    {
        if char_is_whitespace(s[i]) {
            return true;
        }
        i += 1;
    }
    false
}

/// The ASCII digit for `d < 10`.
pub open spec fn digit_char(d: nat) -> char {
    (('0' as nat) + d) as char
}

/// The decimal notation of `n`, without leading zeros.
pub open spec fn decimal(n: nat) -> Seq<char>
    decreases n,
{
    if n < 10 {
        seq![digit_char(n)]
    } else {
        decimal(n / 10).push(digit_char(n % 10))
    }
}

/// An upper-case hexadecimal digit for `d < 16`.
pub open spec fn hex_char(d: nat) -> char {
    if d < 10 {
        (('0' as nat) + d) as char
    } else {
        (('A' as nat) + d - 10) as char
    }
}

/// The upper-case hexadecimal notation of `n`, without leading zeros.
pub open spec fn hex_upper(n: nat) -> Seq<char>
    decreases n,
{
    if n < 16 {
        seq![hex_char(n)]
    } else {
        hex_upper(n / 16).push(hex_char(n % 16))
    }
}

/// `s` left-padded with `0` to at least `w` characters (`{:0w}`).
pub open spec fn zero_pad(s: Seq<char>, w: nat) -> Seq<char> {
    if s.len() >= w {
        s
    } else {
        Seq::new((w - s.len()) as nat, |i: int| '0') + s
    }
}

/// `format!("{}", n)` for an unsigned integer.
pub fn decimal_chars(n: u64) -> (r: Vec<char>)
    ensures
        r@ == decimal(n as nat),
    decreases n,
{
    if n < 10 {
        let c = ((n as u8) + 48) as char;
        let mut v: Vec<char> = Vec::new();
        v.push(c);
        assert(v@ =~= seq![digit_char(n as nat)]);
        v
    } else {
        let mut v = decimal_chars(n / 10);
        let c = (((n % 10) as u8) + 48) as char;
        v.push(c);
        v
    }
}

/// `format!("{}", n)` for an unsigned integer.
pub fn decimal_string(n: u64) -> (r: String)
    ensures
        r@ == decimal(n as nat),
{
    let v = decimal_chars(n);
    string_of(&v)
}

/// `format!("{:X}", n)`.
pub fn hex_upper_chars(n: u32) -> (r: Vec<char>)
    ensures
        r@ == hex_upper(n as nat),
    decreases n,
{
    if n < 16 {
        let d = n as u8;
        let c = if d < 10 { (d + 48) as char } else { (d + 55) as char };
        let mut v: Vec<char> = Vec::new();
        v.push(c);
        assert(v@ =~= seq![hex_char(n as nat)]);
        v
    } else {
        let mut v = hex_upper_chars(n / 16);
        let d = (n % 16) as u8;
        let c = if d < 10 { (d + 48) as char } else { (d + 55) as char };
        v.push(c);
        v
    }
}

/// `s` zero-padded on the left to `w` characters.
pub fn zero_pad_chars(s: &[char], w: usize) -> (r: Vec<char>)
    ensures
        r@ == zero_pad(s@, w as nat),
{
    if s.len() >= w {
        return sub_chars(s, 0, s.len());
    }
    let k = w - s.len();
    let mut v: Vec<char> = Vec::new();
    let mut i: usize = 0;
    while i < k
        invariant
            i <= k,
            v@ == Seq::new(i as nat, |j: int| '0'),
        decreases k - i,
    {
        v.push('0');
        assert(v@ =~= Seq::new((i + 1) as nat, |j: int| '0'));
        i += 1;
    }
    push_chars(&mut v, s);
    assert(s@.subrange(0, s@.len() as int) =~= s@);
    v
}

/// The length of `s` in UTF-8 bytes (`str::len`).
pub open spec fn byte_len(s: Seq<char>) -> nat {
    vstd::utf8::encode_utf8(s).len()
}

/// `str::len`: the length in UTF-8 bytes.
pub fn byte_len_of(s: &str) -> (n: usize)
    ensures
        n as nat == byte_len(s@),
{
    s.as_bytes().len()
}

} // verus!
