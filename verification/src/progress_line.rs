//! Line-level parsers for streamed `guix` write-operation output. Best
//! effort: a line no parser recognises falls through as
//! `ProgressEvent::Line`, unchanged.

use vstd::prelude::*;
use crate::text::{is_ascii_digit, find_spec, trim_spec, trim_end_spec, rsplit_once_spec, split_once_spec, strip_prefix_spec, strip_suffix_spec, trim_start_spec, trim_start_char_spec, trim_end_char_spec, has_whitespace, chars_of, string_of, sub_chars, find_str, trim_chars, trim_end_chars, trim_start_chars, rsplit_once_str, split_once_str, strip_prefix_str, strip_suffix_str, starts_with_str, ends_with_str, eq_str, trim_start_char, trim_end_char, any_whitespace, lemma_find_spec, is_whitespace, char_is_whitespace, occurs_at};
use crate::types::{KnownBug, ProgressEvent, ProgressEventView, ProgressStream};
use crate::error::{ascii_lower_seq, to_ascii_lowercase};

verus! {

/// Whether every character is an ASCII digit.
pub open spec fn all_digits(s: Seq<char>) -> bool {
    forall|i: int| 0 <= i < s.len() ==> is_ascii_digit(#[trigger] s[i])
}

/// The number written by a run of ASCII digits.
pub open spec fn digits_value(s: Seq<char>) -> nat
    decreases s.len(),
{
    if s.len() == 0 {
        0
    } else {
        digits_value(s.drop_last()) * 10 + ((s.last() as int) - ('0' as int)) as nat
    }
}

/// `x`, capped at `u64::MAX` (a float-to-integer cast saturates there).
pub open spec fn saturate(x: nat) -> u64 {
    if x > u64::MAX {
        u64::MAX
    } else {
        x as u64
    }
}

/// Whether `s` is a plain decimal: digits with at most one `.`, and at
/// least one digit.
pub open spec fn plain_decimal(s: Seq<char>) -> bool {
    match find_spec(s, "."@) {
        Some(i) => all_digits(s.subrange(0, i)) && all_digits(s.subrange(i + 1, s.len() as int))
            && s.len() >= 2,
        None => s.len() >= 1 && all_digits(s),
    }
}

/// The first `k` characters of `f`, padded with `0`s to length `k`.
pub open spec fn pad_cut(f: Seq<char>, k: nat) -> Seq<char>
    decreases k,
{
    if k == 0 {
        Seq::empty()
    } else {
        pad_cut(f, (k - 1) as nat).push(if k - 1 < f.len() { f[k - 1] } else { '0' })
    }
}

/// `10^k`.
pub open spec fn pow10(k: nat) -> nat
    decreases k,
{
    if k == 0 {
        1
    } else {
        10 * pow10((k - 1) as nat)
    }
}

/// The whole number of units in `s * 10^k`, for a plain decimal `s`:
/// rounded down, and capped at `u64::MAX`.
pub open spec fn scaled_decimal(s: Seq<char>, k: nat) -> u64 {
    let (int_part, frac_part) = match find_spec(s, "."@) {
        Some(i) => (s.subrange(0, i), s.subrange(i + 1, s.len() as int)),
        None => (s, Seq::<char>::empty()),
    };
    saturate(digits_value(int_part) * pow10(k) + digits_value(pad_cut(frac_part, k)))
}

/// Whether every character is an ASCII digit.
pub fn are_digits(s: &[char]) -> (r: bool)
    ensures
        r == all_digits(s@),
{
    let mut i: usize = 0;
    while i < s.len()
        invariant
            i <= s@.len(),
            forall|k: int| 0 <= k < i ==> is_ascii_digit(#[trigger] s@[k]),
        decreases s@.len() - i,
    {
        if !('0' <= s[i] && s[i] <= '9') {
            return false;
        }
        i += 1;
    }
    true
}

/// `digits_value` of a prefix grows with each digit.
pub proof fn lemma_digits_value_push(s: Seq<char>, c: char)
    ensures
        digits_value(s.push(c)) == digits_value(s) * 10 + ((c as int) - ('0' as int)) as nat,
{
    assert(s.push(c).drop_last() =~= s);
}

/// The value of a digit run, capped at `u64::MAX`.
pub fn digits_saturating(s: &[char]) -> (v: u64)
    requires
        all_digits(s@),
    ensures
        v == saturate(digits_value(s@)),
{
    let mut v: u64 = 0;
    let mut over = false;
    let mut i: usize = 0;
    assert(s@.subrange(0, 0) =~= Seq::<char>::empty());
    while i < s.len()
        invariant
            i <= s@.len(),
            all_digits(s@),
            over ==> digits_value(s@.subrange(0, i as int)) > u64::MAX,
            !over ==> v == digits_value(s@.subrange(0, i as int)),
        decreases s@.len() - i,
    {
        let c = s[i];
        assert(is_ascii_digit(s@[i as int]));
        let d: u64 = ((c as u32) - ('0' as u32)) as u64;
        proof {
            assert(s@.subrange(0, i + 1) =~= s@.subrange(0, i as int).push(c));
            lemma_digits_value_push(s@.subrange(0, i as int), c);
        }
        if !over {
            if v > (u64::MAX - d) / 10 {
                over = true;
                assert(v * 10 + d > u64::MAX) by (nonlinear_arith)
                    requires
                        v > (u64::MAX - d) / 10,
                        d <= 9,
                ;
            } else {
                assert(v * 10 + d <= u64::MAX) by (nonlinear_arith)
                    requires
                        v <= (u64::MAX - d) / 10,
                        d <= 9,
                ;
                v = v * 10 + d;
            }
        }
        i += 1;
    }
    assert(s@.subrange(0, s@.len() as int) =~= s@);
    if over {
        u64::MAX
    } else {
        v
    }
}

/// The size multiplier's exponent for a unit word.
pub open spec fn unit_exponent(u: Seq<char>) -> Option<nat> {
    if u == "B"@ || u == "bytes"@ {
        Some(0)
    } else if u == "KB"@ || u == "kB"@ || u == "K"@ {
        Some(3)
    } else if u == "MB"@ || u == "M"@ {
        Some(6)
    } else if u == "GB"@ || u == "G"@ {
        Some(9)
    } else if u == "TB"@ {
        Some(12)
    } else {
        None
    }
}

/// `"0.1 MB"` → 100000: a plain decimal, a space, and a unit word.
pub open spec fn parse_size_spec(s: Seq<char>) -> Option<u64> {
    match rsplit_once_spec(trim_spec(s), " "@) {
        None => None,
        Some((num, unit)) => {
            let n = trim_spec(num);
            match unit_exponent(trim_spec(unit)) {
                Some(k) => if plain_decimal(n) {
                    Some(scaled_decimal(n, k))
                } else {
                    None
                },
                None => None,
            }
        },
    }
}

/// `10^k` for `k <= 12`.
fn pow10_exec(k: u32) -> (p: u64)
    requires
        k <= 12,
    ensures
        p == pow10(k as nat),
        p >= 1,
{
    let mut p: u64 = 1;
    let mut i: u32 = 0;
    while i < k
        invariant
            i <= k <= 12,
            p == pow10(i as nat),
            1 <= p <= 1_000_000_000_000,
        decreases k - i,
    {
        assert(pow10((i + 1) as nat) == 10 * pow10(i as nat));
        assert(p <= 100_000_000_000) by {
            lemma_pow10_bound(i as nat);
        }
        p = p * 10;
        i += 1;
    }
    p
}

/// `10^k <= 10^11` for `k < 12`, so one more factor of 10 still fits.
proof fn lemma_pow10_bound(k: nat)
    requires
        k < 12,
    ensures
        pow10(k) <= 100_000_000_000,
{
    reveal_with_fuel(pow10, 13);
    assert(pow10(11) == 100_000_000_000);
    assert(k == 0 || k == 1 || k == 2 || k == 3 || k == 4 || k == 5 || k == 6 || k == 7 || k == 8
        || k == 9 || k == 10 || k == 11);
}

/// The first `k` fraction digits, zero-padded.
fn pad_cut_exec(f: &[char], k: u32) -> (v: Vec<char>)
    ensures
        v@ == pad_cut(f@, k as nat),
{
    let mut v: Vec<char> = Vec::new();
    let mut j: u32 = 0;
    while j < k
        invariant
            j <= k,
            v@ == pad_cut(f@, j as nat),
        decreases k - j,
    {
        let c = if (j as usize) < f.len() { f[j as usize] } else { '0' };
        v.push(c);
        j += 1;
    }
    v
}

proof fn lemma_pad_cut_digits(f: Seq<char>, k: nat)
    requires
        all_digits(f),
    ensures
        all_digits(pad_cut(f, k)),
        pad_cut(f, k).len() == k,
    decreases k,
{
    if k > 0 {
        lemma_pad_cut_digits(f, (k - 1) as nat);
        let prev = pad_cut(f, (k - 1) as nat);
        let c = if k - 1 < f.len() { f[k - 1] } else { '0' };
        assert forall|i: int| 0 <= i < prev.push(c).len() implies is_ascii_digit(#[trigger] prev.push(c)[i]) by {
            if i < prev.len() {
                assert(prev.push(c)[i] == prev[i]);
            }
        }
    }
}

/// `n * 10^k`, rounded down and capped, for a plain decimal `n`.
pub fn scale_decimal(n: &[char], k: u32) -> (v: u64)
    requires
        plain_decimal(n@),
        k <= 12,
    ensures
        v == scaled_decimal(n@, k as nat),
{
    proof { lemma_find_spec(n@, "."@); }
    let (ip, fp) = match find_str(n, ".") {
        Some(i) => {
            proof { reveal_strlit("."); }
            let nl = n.len();
            (sub_chars(n, 0, i), sub_chars(n, i + 1, nl))
        },
        None => (sub_chars(n, 0, n.len()), Vec::new()),
    };
    assert(n@.subrange(0, n@.len() as int) =~= n@);
    let padded = pad_cut_exec(&fp, k);
    proof { lemma_pad_cut_digits(fp@, k as nat); }
    let iv = digits_saturating(&ip);
    let fv = digits_saturating(&padded);
    let p = pow10_exec(k);
    let ghost total = digits_value(ip@) * pow10(k as nat) + digits_value(padded@);
    if iv == u64::MAX || fv == u64::MAX {
        assert(total >= u64::MAX) by (nonlinear_arith)
            requires
                digits_value(ip@) >= u64::MAX || digits_value(padded@) >= u64::MAX,
                pow10(k as nat) >= 1,
                total == digits_value(ip@) * pow10(k as nat) + digits_value(padded@),
        ;
        return u64::MAX;
    }
    match iv.checked_mul(p) {
        Some(m) => match m.checked_add(fv) {
            Some(t) => t,
            None => u64::MAX,
        },
        None => {
            assert(total > u64::MAX) by (nonlinear_arith)
                requires
                    iv * p > u64::MAX,
                    total == iv * p + digits_value(padded@),
            ;
            u64::MAX
        },
    }
}

/// Whether `s` is a plain decimal.
pub fn is_plain_decimal(s: &[char]) -> (r: bool)
    ensures
        r == plain_decimal(s@),
{
    proof { lemma_find_spec(s@, "."@); reveal_strlit("."); }
    match find_str(s, ".") {
        Some(i) => {
            let sl = s.len();
            let a = sub_chars(s, 0, i);
            let b = sub_chars(s, i + 1, sl);
            are_digits(&a) && are_digits(&b) && s.len() >= 2
        },
        None => s.len() >= 1 && are_digits(s),
    }
}

/// The unit word's exponent.
fn unit_exponent_exec(u: &[char]) -> (r: Option<u32>)
    ensures
        match r {
            Some(k) => unit_exponent(u@) == Some(k as nat) && k <= 12,
            None => unit_exponent(u@) is None,
        },
{
    if eq_str(u, "B") || eq_str(u, "bytes") {
        Some(0)
    } else if eq_str(u, "KB") || eq_str(u, "kB") || eq_str(u, "K") {
        Some(3)
    } else if eq_str(u, "MB") || eq_str(u, "M") {
        Some(6)
    } else if eq_str(u, "GB") || eq_str(u, "G") {
        Some(9)
    } else if eq_str(u, "TB") {
        Some(12)
    } else {
        None
    }
}

/// `"0.1 MB"` → 100000. The byte count is computed exactly from the
/// decimal digits.
pub fn parse_size_to_bytes(s: &str) -> (r: Option<u64>)
    ensures
        r == parse_size_spec(s@),
{
    let cs = chars_of(s);
    let t = trim_chars(&cs);
    match rsplit_once_str(&t, " ") {
        None => None,
        Some((num, unit)) => {
            let n = trim_chars(&num);
            let u = trim_chars(&unit);
            match unit_exponent_exec(&u) {
                Some(k) => if is_plain_decimal(&n) {
                    Some(scale_decimal(&n, k))
                } else {
                    None
                },
                None => None,
            }
        },
    }
}

/// The view of an optional event.
pub open spec fn ev_opt(r: Option<ProgressEvent>) -> Option<ProgressEventView> {
    match r {
        Some(e) => Some(e@),
        None => None,
    }
}

/// The first of two optional results that is present.
pub open spec fn first_some<T>(a: Option<T>, b: Option<T>) -> Option<T> {
    if a is Some {
        a
    } else {
        b
    }
}

/// `s` without one leading `+` or `-`.
pub open spec fn unsigned_part(s: Seq<char>) -> Seq<char> {
    if s.len() > 0 && (s[0] == '+' || s[0] == '-') {
        s.drop_first()
    } else {
        s
    }
}

/// The index of the first `e` or `E` at or after `i` (or the length).
pub open spec fn exp_from(b: Seq<char>, i: int) -> int
    decreases b.len() - i,
{
    if i < 0 || i >= b.len() {
        b.len() as int
    } else if b[i] == 'e' || b[i] == 'E' {
        i
    } else {
        exp_from(b, i + 1)
    }
}

/// Whether `s` is accepted by std's float parser: an optional sign, then
/// `inf`, `infinity` or `nan` in any case, or a decimal with at least one
/// digit and an optional exponent (`e` or `E`, optional sign, digits).
pub open spec fn float_literal(s: Seq<char>) -> bool {
    let b = unsigned_part(s);
    let l = ascii_lower_seq(b);
    if l == "inf"@ || l == "infinity"@ || l == "nan"@ {
        true
    } else {
        let i = exp_from(b, 0);
        plain_decimal(b.subrange(0, i)) && (i == b.len() || ({
            let x = unsigned_part(b.subrange(i + 1, b.len() as int));
            x.len() >= 1 && all_digits(x)
        }))
    }
}

proof fn lemma_exp_from_bounds(b: Seq<char>, i: int)
    requires
        0 <= i <= b.len(),
    ensures
        i <= exp_from(b, i) <= b.len(),
    decreases b.len() - i,
{
    if i < b.len() && !(b[i] == 'e' || b[i] == 'E') {
        lemma_exp_from_bounds(b, i + 1);
    }
}

/// `s` without one leading sign.
fn unsigned_chars(s: &[char]) -> (v: Vec<char>)
    ensures
        v@ == unsigned_part(s@),
{
    if s.len() > 0 && (s[0] == '+' || s[0] == '-') {
        let v = sub_chars(s, 1, s.len());
        assert(v@ =~= s@.drop_first());
        v
    } else {
        sub_chars(s, 0, s.len())
    }
}

/// Whether std's float parser accepts `s`.
pub fn is_float_literal(s: &[char]) -> (r: bool)
    ensures
        r == float_literal(s@),
{
    let b = unsigned_chars(s);
    let l = to_ascii_lowercase(&b);
    if eq_str(&l, "inf") || eq_str(&l, "infinity") || eq_str(&l, "nan") {
        return true;
    }
    let mut i: usize = 0;
    while i < b.len() && !(b[i] == 'e' || b[i] == 'E')
        invariant
            i <= b@.len(),
            exp_from(b@, 0) == exp_from(b@, i as int),
        decreases b@.len() - i,
    {
        i += 1;
    }
    let m = sub_chars(&b, 0, i);
    if !is_plain_decimal(&m) {
        return false;
    }
    if i == b.len() {
        return true;
    }
    let bl = b.len();
    let x0 = sub_chars(&b, i + 1, bl);
    let x = unsigned_chars(&x0);
    x.len() >= 1 && are_digits(&x)
}

/// Strips `p` and then every space after it, as long as `p` keeps
/// following.
pub open spec fn strip_all_spec(s: Seq<char>, p: Seq<char>) -> Seq<char>
    decreases s.len(),
{
    if p.len() == 0 {
        s
    } else {
        match strip_prefix_spec(s, p) {
            Some(r) => {
                proof { lemma_trim_start_char_len(r, ' '); }
                strip_all_spec(trim_start_char_spec(r, ' '), p)
            },
            None => s,
        }
    }
}

pub proof fn lemma_trim_start_char_len(s: Seq<char>, c: char)
    ensures
        trim_start_char_spec(s, c).len() <= s.len(),
    decreases s.len(),
{
    if s.len() > 0 && s[0] == c {
        lemma_trim_start_char_len(s.drop_first(), c);
    }
}

/// `guix` can print a doubled `substitute: substitute: ` prefix; every copy
/// of the prefix (and the spaces after it) is dropped. `None` when `s` does
/// not start with the prefix at all.
pub open spec fn strip_repeated_prefix_spec(s: Seq<char>, p: Seq<char>) -> Option<Seq<char>> {
    if p.is_prefix_of(s) {
        Some(strip_all_spec(s, p))
    } else {
        None
    }
}

/// Drops every leading copy of `p` (with the spaces after each).
pub fn strip_repeated_prefix(s: &[char], p: &str) -> (r: Option<Vec<char>>)
    ensures
        match r {
            Some(v) => strip_repeated_prefix_spec(s@, p@) == Some(v@),
            None => strip_repeated_prefix_spec(s@, p@) is None,
        },
{
    if !starts_with_str(s, p) {
        return None;
    }
    let mut cur = sub_chars(s, 0, s.len());
    assert(s@.subrange(0, s@.len() as int) =~= s@);
    if p.unicode_len() == 0 {
        return Some(cur);
    }
    loop
        invariant
            p@.len() > 0,
            p@.is_prefix_of(s@),
            strip_all_spec(s@, p@) == strip_all_spec(cur@, p@),
        decreases cur@.len(),
    {
        match strip_prefix_str(&cur, p) {
            Some(rest) => {
                let next = trim_start_char(&rest, ' ');
                proof { lemma_trim_start_char_len(rest@, ' '); }
                cur = next;
            },
            None => {
                return Some(cur);
            },
        }
    }
}

/// `url'... 50.0%` after a lookup prefix: the URL and the percent text.
pub open spec fn lookup_spec(after: Seq<char>) -> Option<ProgressEventView> {
    match split_once_spec(trim_start_char_spec(after, '\''), "'..."@) {
        None => None,
        Some((url, tail)) => match strip_suffix_spec(trim_spec(tail), "%"@) {
            None => None,
            Some(pct) => if float_literal(trim_spec(pct)) {
                Some(ProgressEventView::SubstituteLookup { url, percent: trim_spec(pct) })
            } else {
                None
            },
        },
    }
}

fn parse_lookup(after: &[char]) -> (r: Option<ProgressEvent>)
    ensures
        ev_opt(r) == lookup_spec(after@),
{
    let a = trim_start_char(after, '\'');
    match split_once_str(&a, "'...") {
        None => None,
        Some((url, tail)) => {
            let t = trim_chars(&tail);
            match strip_suffix_str(&t, "%") {
                None => None,
                Some(pct) => {
                    let p = trim_chars(&pct);
                    if is_float_literal(&p) {
                        Some(ProgressEvent::SubstituteLookup { url: string_of(&url), percent: string_of(&p) })
                    } else {
                        None
                    }
                },
            }
        },
    }
}

/// Substitute lookups and downloads.
pub open spec fn substitute_spec(s: Seq<char>) -> Option<ProgressEventView> {
    match strip_repeated_prefix_spec(s, "substitute:"@) {
        None => None,
        Some(r) => {
            let rest = trim_start_spec(r);
            let a = match strip_prefix_spec(rest, "looking for substitutes on "@) {
                Some(x) => lookup_spec(x),
                None => None,
            };
            let b = match strip_prefix_spec(rest, "downloading "@) {
                Some(item) => Some(ProgressEventView::SubstituteDownload { item, bytes_done: 0, bytes_total: None }),
                None => None,
            };
            let c = match strip_prefix_spec(rest, "updating substitutes from "@) {
                Some(x) => lookup_spec(x),
                None => None,
            };
            first_some(a, first_some(b, c))
        },
    }
}

fn parse_substitute(s: &[char]) -> (r: Option<ProgressEvent>)
    ensures
        ev_opt(r) == substitute_spec(s@),
{
    let r = match strip_repeated_prefix(s, "substitute:") {
        Some(r) => r,
        None => return None,
    };
    let rest = trim_start_chars(&r);
    if let Some(x) = strip_prefix_str(&rest, "looking for substitutes on ") {
        let e = parse_lookup(&x);
        if e.is_some() {
            return e;
        }
    }
    if let Some(item) = strip_prefix_str(&rest, "downloading ") {
        return Some(ProgressEvent::SubstituteDownload { item: string_of(&item), bytes_done: 0, bytes_total: None });
    }
    if let Some(x) = strip_prefix_str(&rest, "updating substitutes from ") {
        return parse_lookup(&x);
    }
    None
}

/// `"12.0 MB would be built:"` and `"... would be downloaded:"`.
pub open spec fn would_spec(s: Seq<char>) -> Option<ProgressEventView> {
    match split_once_spec(s, " would be "@) {
        None => None,
        Some((size, kind)) => match parse_size_spec(size) {
            None => None,
            Some(bytes) => {
                let k = trim_spec(trim_end_char_spec(kind, ':'));
                if k == "downloaded"@ {
                    Some(ProgressEventView::WouldDownload { bytes, items: Seq::empty() })
                } else if k == "built"@ {
                    Some(ProgressEventView::WouldBuild { bytes, items: Seq::empty() })
                } else {
                    None
                }
            },
        },
    }
}

fn parse_would(s: &[char]) -> (r: Option<ProgressEvent>)
    ensures
        ev_opt(r) == would_spec(s@),
{
    match split_once_str(s, " would be ") {
        None => None,
        Some((size, kind)) => {
            let size_s = string_of(&size);
            match parse_size_to_bytes(size_s.as_str()) {
                None => None,
                Some(bytes) => {
                    let k0 = trim_end_char(&kind, ':');
                    let k = trim_chars(&k0);
                    if eq_str(&k, "downloaded") {
                        let items: Vec<String> = Vec::new();
                        proof { assert(crate::types::strings_view(items@) =~= Seq::<Seq<char>>::empty()); }
                        Some(ProgressEvent::WouldDownload { bytes, items })
                    } else if eq_str(&k, "built") {
                        let items: Vec<String> = Vec::new();
                        proof { assert(crate::types::strings_view(items@) =~= Seq::<Seq<char>>::empty()); }
                        Some(ProgressEvent::WouldBuild { bytes, items })
                    } else {
                        None
                    }
                },
            }
        },
    }
}

/// An indented store path listed under a dry-run header.
pub open spec fn store_path_spec(s: Seq<char>) -> Option<ProgressEventView> {
    match strip_prefix_spec(s, "  "@) {
        Some(rest) => if "/gnu/store/"@.is_prefix_of(rest) {
            Some(ProgressEventView::StorePathListed { path: rest })
        } else {
            None
        },
        None => None,
    }
}

fn parse_store_path_indent(s: &[char]) -> (r: Option<ProgressEvent>)
    ensures
        ev_opt(r) == store_path_spec(s@),
{
    match strip_prefix_str(s, "  ") {
        Some(rest) => if starts_with_str(&rest, "/gnu/store/") {
            Some(ProgressEvent::StorePathListed { path: string_of(&rest) })
        } else {
            None
        },
        None => None,
    }
}

/// A lone `/gnu/store/...drv` path (trailing whitespace ignored); anything
/// else after it makes the line fall through.
pub open spec fn drv_exact_spec(rest: Seq<char>) -> Option<Seq<char>> {
    let r = trim_end_spec(rest);
    if "/gnu/store/"@.is_prefix_of(r) && ".drv"@.is_suffix_of(r) && !has_whitespace(r) {
        Some(r)
    } else {
        None
    }
}

fn extract_drv_exact(rest: &[char]) -> (r: Option<Vec<char>>)
    ensures
        match r {
            Some(v) => drv_exact_spec(rest@) == Some(v@),
            None => drv_exact_spec(rest@) is None,
        },
{
    let r = trim_end_chars(rest);
    if starts_with_str(&r, "/gnu/store/") && ends_with_str(&r, ".drv") && !any_whitespace(&r) {
        Some(r)
    } else {
        None
    }
}

/// The drv after `prefix`, if the line is exactly `prefix` and a drv.
pub open spec fn after_prefix_drv(s: Seq<char>, prefix: Seq<char>) -> Option<Seq<char>> {
    match strip_prefix_spec(s, prefix) {
        Some(r) => drv_exact_spec(r),
        None => None,
    }
}

/// Build start, success, failure and phase lines.
pub open spec fn build_spec(s: Seq<char>) -> Option<ProgressEventView> {
    let start = match after_prefix_drv(s, "building "@) {
        Some(d) => Some(ProgressEventView::BuildStart { drv: d }),
        None => None,
    };
    let done = match after_prefix_drv(s, "successfully built "@) {
        Some(d) => Some(ProgressEventView::BuildDone { drv: d }),
        None => None,
    };
    let failed = match strip_prefix_spec(s, "build of "@) {
        Some(r) => match strip_suffix_spec(r, " failed"@) {
            Some(p) => match drv_exact_spec(p) {
                Some(d) => Some(ProgressEventView::BuildFailed { drv: d, log_path: None }),
                None => None,
            },
            None => None,
        },
        None => None,
    };
    let phase = match strip_prefix_spec(s, "phase '"@) {
        Some(r) => match split_once_spec(r, "'"@) {
            Some((ph, _)) => Some(ProgressEventView::BuildPhase { drv: None, phase: ph }),
            None => None,
        },
        None => None,
    };
    first_some(start, first_some(done, first_some(failed, phase)))
}

/// A phase line names the phase between the quotes: for
/// `phase 'P'REST` with `P` free of quotes, the event is `BuildPhase` with
/// exactly `P`, whatever follows the closing quote.
pub proof fn lemma_phase_line(p: Seq<char>, rest: Seq<char>)
    requires
        forall|j: int| 0 <= j < p.len() ==> p[j] != '\'',
    ensures
        build_spec("phase '"@ + p + "'"@ + rest) == Some(ProgressEventView::BuildPhase { drv: None, phase: p }),
{
    reveal_strlit("phase '");
    reveal_strlit("'");
    reveal_strlit("building ");
    reveal_strlit("successfully built ");
    reveal_strlit("build of ");
    let line = "phase '"@ + p + "'"@ + rest;
    let r = p + "'"@ + rest;
    assert(line[0] == 'p');
    assert(!"building "@.is_prefix_of(line));
    assert(!"successfully built "@.is_prefix_of(line));
    assert(!"build of "@.is_prefix_of(line));
    assert("phase '"@.is_prefix_of(line));
    assert(line.subrange(7, line.len() as int) =~= r);
    assert(strip_prefix_spec(line, "phase '"@) == Some(r));
    lemma_find_spec(r, "'"@);
    assert(r.subrange(p.len() as int, p.len() + 1int) =~= "'"@);
    assert(occurs_at(r, "'"@, p.len() as int));
    let k = find_spec(r, "'"@).unwrap();
    if k < p.len() {
        assert(r.subrange(k, k + 1)[0] == r[k]);
        assert(p[k] == '\'');
    }
    assert(k == p.len());
    assert(r.subrange(0, k) =~= p);
}

/// Build lines name their derivation: `building D` starts it,
/// `successfully built D` finishes it and `build of D failed` fails it, for
/// any lone derivation path `D`.
pub proof fn lemma_build_lines(d: Seq<char>)
    requires
        drv_exact_spec(d) == Some(d),
    ensures
        build_spec("building "@ + d) == Some(ProgressEventView::BuildStart { drv: d }),
        build_spec("successfully built "@ + d) == Some(ProgressEventView::BuildDone { drv: d }),
        build_spec("build of "@ + d + " failed"@) == Some(ProgressEventView::BuildFailed { drv: d, log_path: None }),
{
    reveal_strlit("building ");
    reveal_strlit("successfully built ");
    reveal_strlit("build of ");
    reveal_strlit(" failed");
    let a = "building "@ + d;
    assert("building "@.is_prefix_of(a));
    assert(a.subrange(9, a.len() as int) =~= d);
    let b = "successfully built "@ + d;
    assert(b[0] == 's');
    assert(!"building "@.is_prefix_of(b));
    assert("successfully built "@.is_prefix_of(b));
    assert(b.subrange(19, b.len() as int) =~= d);
    let c = "build of "@ + d + " failed"@;
    assert(c =~= "build of "@ + (d + " failed"@));
    assert(c[5] == ' ');
    assert("building "@[5] == 'i');
    assert(!"building "@.is_prefix_of(c));
    assert(!"successfully built "@.is_prefix_of(c));
    assert("build of "@.is_prefix_of(c));
    let r = c.subrange(9, c.len() as int);
    assert(r =~= d + " failed"@);
    assert(" failed"@.is_suffix_of(r));
    assert(r.subrange(0, r.len() - 7) =~= d);
}

/// Trailing whitespace after a non-blank head is trimmed from the tail only.
pub proof fn lemma_trim_end_concat(a: Seq<char>, b: Seq<char>)
    requires
        a.len() > 0,
        !is_whitespace(a.last()),
    ensures
        trim_end_spec(a + b) == a + trim_end_spec(b),
    decreases b.len(),
{
    if b.len() > 0 && is_whitespace(b.last()) {
        assert((a + b).drop_last() =~= a + b.drop_last());
        lemma_trim_end_concat(a, b.drop_last());
    } else if b.len() > 0 {
        assert((a + b).last() == b.last());
    } else {
        assert(a + b =~= a);
        assert(b =~= Seq::<char>::empty());
        assert(a + trim_end_spec(b) =~= a);
    }
}

/// A whole output line `phase 'P'REST` (P free of quotes) is read as the
/// build phase `P`, unless the channel-shadow warning or a would-be size
/// line claims it first.
pub proof fn lemma_phase_output_line(stream: ProgressStream, p: Seq<char>, rest: Seq<char>, redraw: bool)
    requires
        forall|j: int| 0 <= j < p.len() ==> p[j] != '\'',
        (known_bug_spec(trim_end_spec("phase '"@ + p + "'"@ + rest)) is None),
        (would_spec(trim_end_spec("phase '"@ + p + "'"@ + rest)) is None),
    ensures
        parse_line_spec(stream, "phase '"@ + p + "'"@ + rest, redraw)
            == (ProgressEventView::BuildPhase { drv: None, phase: p }),
{
    reveal_strlit("phase '");
    reveal_strlit("'");
    reveal_strlit("substitute:");
    reveal_strlit("  ");
    let head = "phase '"@ + p + "'"@;
    assert(head.last() == '\'');
    lemma_trim_end_concat(head, rest);
    assert("phase '"@ + p + "'"@ + rest =~= head + rest);
    let t = head + trim_end_spec(rest);
    assert(t =~= "phase '"@ + p + "'"@ + trim_end_spec(rest));
    assert(t[0] == 'p');
    assert(!"substitute:"@.is_prefix_of(t));
    assert(!"  "@.is_prefix_of(t));
    lemma_phase_line(p, trim_end_spec(rest));
}

fn parse_build_lines(s: &[char]) -> (r: Option<ProgressEvent>)
    ensures
        ev_opt(r) == build_spec(s@),
{
    if let Some(rest) = strip_prefix_str(s, "building ") {
        if let Some(d) = extract_drv_exact(&rest) {
            return Some(ProgressEvent::BuildStart { drv: string_of(&d) });
        }
    }
    if let Some(rest) = strip_prefix_str(s, "successfully built ") {
        if let Some(d) = extract_drv_exact(&rest) {
            return Some(ProgressEvent::BuildDone { drv: string_of(&d) });
        }
    }
    if let Some(rest) = strip_prefix_str(s, "build of ") {
        if let Some(p) = strip_suffix_str(&rest, " failed") {
            if let Some(d) = extract_drv_exact(&p) {
                return Some(ProgressEvent::BuildFailed { drv: string_of(&d), log_path: None });
            }
        }
    }
    if let Some(rest) = strip_prefix_str(s, "phase '") {
        if let Some((ph, _)) = split_once_str(&rest, "'") {
            return Some(ProgressEvent::BuildPhase { drv: None, phase: string_of(&ph) });
        }
    }
    None
}

/// `Computing Guix derivation for 'SYSTEM'...`.
pub open spec fn pull_spec(s: Seq<char>) -> Option<ProgressEventView> {
    match strip_prefix_spec(s, "Computing Guix derivation for '"@) {
        Some(r) => match split_once_spec(r, "'"@) {
            Some((system, _)) => Some(ProgressEventView::PullComputingDerivation { system }),
            None => None,
        },
        None => None,
    }
}

fn parse_pull_lines(s: &[char]) -> (r: Option<ProgressEvent>)
    ensures
        ev_opt(r) == pull_spec(s@),
{
    if let Some(rest) = strip_prefix_str(s, "Computing Guix derivation for '") {
        if let Some((system, _)) = split_once_str(&rest, "'") {
            return Some(ProgressEvent::PullComputingDerivation { system: string_of(&system) });
        }
    }
    None
}

/// The dry-run install header, in either number.
pub open spec fn dryrun_spec(s: Seq<char>) -> Option<ProgressEventView> {
    if s == "The following package would be installed:"@ || s == "The following packages would be installed:"@ {
        Some(ProgressEventView::DryRunHeader { text: s })
    } else {
        None
    }
}

fn parse_dryrun_install_header(s: &[char]) -> (r: Option<ProgressEvent>)
    ensures
        ev_opt(r) == dryrun_spec(s@),
{
    if eq_str(s, "The following package would be installed:") || eq_str(s, "The following packages would be installed:") {
        Some(ProgressEvent::DryRunHeader { text: string_of(s) })
    } else {
        None
    }
}

/// Whether `s` reports `no code for module (X)` with a non-blank `X`:
/// the channel-shadowing bug.
pub open spec fn channel_shadow_spec(s: Seq<char>) -> bool {
    match find_spec(s, "no code for module "@) {
        None => false,
        Some(idx) => {
            let after = trim_end_spec(s.subrange(idx + "no code for module "@.len(), s.len() as int));
            after.len() > 2 && after[0] == '(' && after.last() == ')'
                && exists|i: int| 1 <= i < after.len() - 1 && !is_whitespace(#[trigger] after[i])
        },
    }
}

/// Whether a line reports the channel-shadowing bug.
pub fn is_channel_shadow_line(s: &[char]) -> (r: bool)
    ensures
        r == channel_shadow_spec(s@),
{
    let pat = chars_of("no code for module ");
    proof { lemma_find_spec(s@, "no code for module "@); }
    let idx = match find_str(s, "no code for module ") {
        Some(i) => i,
        None => return false,
    };
    let sl = s.len();
    assert(find_spec(s@, "no code for module "@) == Some(idx as int));
    assert(occurs_at(s@, "no code for module "@, idx as int));
    let start = idx + pat.len();
    let tail = sub_chars(s, start, sl);
    let after = trim_end_chars(&tail);
    let n = after.len();
    if !(n > 2 && after[0] == '(' && after[n - 1] == ')') {
        return false;
    }
    assert(after@.last() == after@[n - 1]);
    let mut i: usize = 1;
    while i < n - 1
        invariant
            1 <= i <= n - 1,
            n == after@.len(),
            n > 2,
            after@[0] == '(',
            after@.last() == ')',
            find_spec(s@, "no code for module "@) == Some(idx as int),
            start == idx + "no code for module "@.len(),
            after@ == trim_end_spec(s@.subrange(start as int, s@.len() as int)),
            forall|k: int| 1 <= k < i ==> is_whitespace(#[trigger] after@[k]),
        decreases n - 1 - i,
    {
        if !char_is_whitespace(after[i]) {
            return true;
        }
        i += 1;
    }
    false
}

/// The channel-shadowing bug, as an event.
pub open spec fn known_bug_spec(s: Seq<char>) -> Option<ProgressEventView> {
    if channel_shadow_spec(s) {
        Some(ProgressEventView::KnownBug(KnownBug::ChannelShadow74396))
    } else {
        None
    }
}

/// What one line of output means: the first parser that recognises the
/// line (with trailing whitespace trimmed) wins, in the order known bug,
/// substitute, would-be sizes, listed store path, build, pull, dry-run
/// header; an unrecognised line passes through untouched.
pub open spec fn parse_line_spec(stream: ProgressStream, text: Seq<char>, redraw: bool) -> ProgressEventView {
    let t = trim_end_spec(text);
    let r = first_some(known_bug_spec(t), first_some(substitute_spec(t), first_some(would_spec(t),
        first_some(store_path_spec(t), first_some(build_spec(t), first_some(pull_spec(t), dryrun_spec(t)))))));
    match r {
        Some(e) => e,
        None => ProgressEventView::Line { stream, text, redraw },
    }
}

/// Parses one output line into an event.
pub fn parse_line(stream: ProgressStream, text: &str, redraw: bool) -> (e: ProgressEvent)
    ensures
        e@ == parse_line_spec(stream, text@, redraw),
{
    let cs = chars_of(text);
    let t = trim_end_chars(&cs);
    if is_channel_shadow_line(&t) {
        return ProgressEvent::KnownBug(KnownBug::ChannelShadow74396);
    }
    if let Some(e) = parse_substitute(&t) {
        return e;
    }
    if let Some(e) = parse_would(&t) {
        return e;
    }
    if let Some(e) = parse_store_path_indent(&t) {
        return e;
    }
    if let Some(e) = parse_build_lines(&t) {
        return e;
    }
    if let Some(e) = parse_pull_lines(&t) {
        return e;
    }
    if let Some(e) = parse_dryrun_install_header(&t) {
        return e;
    }
    ProgressEvent::Line { stream, text: string_of(&cs), redraw }
}

} // verus!
