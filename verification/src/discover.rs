//! Finding the `guix` binary and deciding whether its version is
//! supported. The filesystem probes and the `--version` run happen in the
//! caller; this module decides.

use vstd::prelude::*;
use crate::text::{chars_of, string_of, push_str, sub_chars, is_ascii_digit, is_whitespace,
    char_is_whitespace};
use crate::error::GuixError;
use crate::repl_op::{parse_u64_spec, parse_u64};
use crate::lines::{utf8_lossy, decode_lossy};
use crate::text::{trim_end_spec, trim_end_chars};

verus! {

/// The oldest supported guix, as a date, for commit builds.
pub const MIN_GUIX_VERSION_DATE: &'static str = "2025-05-01";

/// `s.split(c)`: the pieces between occurrences of `c` (one piece for an
/// empty text).
pub open spec fn split_char(s: Seq<char>, c: char) -> Seq<Seq<char>>
    decreases s.len(),
{
    match first_char(s, c, 0) {
        None => seq![s],
        Some(i) => {
            proof { lemma_first_char(s, c, 0); }
            seq![s.subrange(0, i)] + split_char(s.subrange(i + 1, s.len() as int), c)
        },
    }
}

/// The first index of `c` in `s` at or after `i`.
pub open spec fn first_char(s: Seq<char>, c: char, i: int) -> Option<int>
    decreases s.len() - i,
{
    if i < 0 || i >= s.len() {
        None
    } else if s[i] == c {
        Some(i)
    } else {
        first_char(s, c, i + 1)
    }
}

pub proof fn lemma_first_char(s: Seq<char>, c: char, i: int)
    requires
        0 <= i,
    ensures
        match first_char(s, c, i) {
            Some(k) => i <= k < s.len() && s[k] == c && forall|j: int| i <= j < k ==> s[j] != c,
            None => forall|j: int| i <= j < s.len() ==> s[j] != c,
        },
    decreases s.len() - i,
{
    if i < s.len() && s[i] != c {
        lemma_first_char(s, c, i + 1);
    }
}

/// std's `u32::from_str`.
pub open spec fn parse_u32_spec(s: Seq<char>) -> Option<u32> {
    match parse_u64_spec(s) {
        Some(n) => if n <= u32::MAX { Some(n as u32) } else { None },
        None => None,
    }
}

/// Every piece parsed, or `None` if any piece fails.
pub open spec fn parse_all(ps: Seq<Seq<char>>) -> Option<Seq<u32>>
    decreases ps.len(),
{
    if ps.len() == 0 {
        Some(Seq::empty())
    } else {
        match (parse_all(ps.drop_last()), parse_u32_spec(ps.last())) {
            (Some(a), Some(n)) => Some(a.push(n)),
            _ => None,
        }
    }
}

/// The pieces that parse, in order.
pub open spec fn parse_some(ps: Seq<Seq<char>>) -> Seq<u32>
    decreases ps.len(),
{
    if ps.len() == 0 {
        Seq::empty()
    } else {
        match parse_u32_spec(ps.last()) {
            Some(n) => parse_some(ps.drop_last()).push(n),
            None => parse_some(ps.drop_last()),
        }
    }
}

/// Lexicographic `a >= b`, as `Vec<u32>`'s ordering compares: the first
/// difference decides; a proper prefix is smaller.
pub open spec fn lex_ge(a: Seq<u32>, b: Seq<u32>) -> bool
    decreases a.len(),
{
    if b.len() == 0 {
        true
    } else if a.len() == 0 {
        false
    } else if a[0] != b[0] {
        a[0] > b[0]
    } else {
        lex_ge(a.drop_first(), b.drop_first())
    }
}

/// Whether a release number reaches the minimum: `None` when a component
/// of `found` is not a number; the minimum's malformed components are
/// skipped.
pub open spec fn release_at_least_spec(found: Seq<char>, min: Seq<char>) -> Option<bool> {
    match parse_all(split_char(found, '.')) {
        None => None,
        Some(a) => Some(lex_ge(a, parse_some(split_char(min, '.')))),
    }
}

/// `s.split(c)`.
pub fn split_on_char(s: &[char], c: char) -> (r: Vec<Vec<char>>)
    ensures
        r@.map_values(|v: Vec<char>| v@) == split_char(s@, c),
    decreases s@.len(),
{
    let mut i: usize = 0;
    while i < s.len() && s[i] != c
        invariant
            i <= s@.len(),
            forall|j: int| 0 <= j < i ==> s@[j] != c,
        decreases s@.len() - i,
    {
        i += 1;
    }
    proof { lemma_first_char(s@, c, 0); }
    let head = sub_chars(s, 0, i);
    if i == s.len() {
        assert(first_char(s@, c, 0) is None) by {
            if first_char(s@, c, 0) is Some {
                let k = first_char(s@, c, 0).unwrap();
                assert(s@[k] == c);
            }
        }
        assert(head@ =~= s@);
        let mut r: Vec<Vec<char>> = Vec::new();
        r.push(head);
        assert(r@.map_values(|v: Vec<char>| v@) =~= seq![s@]);
        r
    } else {
        assert(first_char(s@, c, 0) == Some(i as int)) by {
            let k = first_char(s@, c, 0).unwrap();
            assert(k == i);
        }
        let sl = s.len();
        let rest = sub_chars(s, i + 1, sl);
        let tail = split_on_char(&rest, c);
        let mut r: Vec<Vec<char>> = Vec::new();
        r.push(head);
        let ghost hv = r@.map_values(|v: Vec<char>| v@);
        let mut tail = tail;
        let ghost tv = tail@.map_values(|v: Vec<char>| v@);
        r.append(&mut tail);
        assert(r@.map_values(|v: Vec<char>| v@) =~= hv + tv);
        r
    }
}

pub(crate) fn parse_u32(s: &[char]) -> (r: Option<u32>)
    ensures
        r == parse_u32_spec(s@),
{
    match parse_u64(s) {
        Some(n) => if n <= 4294967295 { Some(n as u32) } else { None },
        None => None,
    }
}

/// Compares dotted release numbers: `Some(found >= min)`, or `None` when
/// `found` has a non-numeric component.
pub fn release_version_at_least(found: &str, min: &str) -> (r: Option<bool>)
    ensures
        r == release_at_least_spec(found@, min@),
{
    let fc = chars_of(found);
    let mc = chars_of(min);
    let fp = split_on_char(&fc, '.');
    let mp = split_on_char(&mc, '.');
    let ghost fps = fp@.map_values(|v: Vec<char>| v@);
    let ghost mps = mp@.map_values(|v: Vec<char>| v@);
    let mut a: Vec<u32> = Vec::new();
    let mut i: usize = 0;
    assert(fps.subrange(0, 0) =~= Seq::<Seq<char>>::empty());
    while i < fp.len()
        invariant
            i <= fp@.len(),
            fps == fp@.map_values(|v: Vec<char>| v@),
            fps == split_char(found@, '.'),
            parse_all(fps.subrange(0, i as int)) == Some(a@),
        decreases fp@.len() - i,
    {
        assert(fps.subrange(0, i + 1).drop_last() =~= fps.subrange(0, i as int));
        assert(fps.subrange(0, i + 1).last() == fp@[i as int]@);
        match parse_u32(&fp[i]) {
            Some(n) => a.push(n),
            None => {
                proof { lemma_parse_all_none_extends(fps, i + 1); }
                return None;
            },
        }
        i += 1;
    }
    assert(fps.subrange(0, fp@.len() as int) =~= fps);
    let mut b: Vec<u32> = Vec::new();
    let mut j: usize = 0;
    assert(mps.subrange(0, 0) =~= Seq::<Seq<char>>::empty());
    while j < mp.len()
        invariant
            j <= mp@.len(),
            mps == mp@.map_values(|v: Vec<char>| v@),
            parse_some(mps.subrange(0, j as int)) == b@,
        decreases mp@.len() - j,
    {
        assert(mps.subrange(0, j + 1).drop_last() =~= mps.subrange(0, j as int));
        assert(mps.subrange(0, j + 1).last() == mp@[j as int]@);
        match parse_u32(&mp[j]) {
            Some(n) => b.push(n),
            None => {},
        }
        j += 1;
    }
    assert(mps.subrange(0, mp@.len() as int) =~= mps);
    Some(lex_ge_exec(&a, &b))
}

proof fn lemma_parse_all_none_extends(ps: Seq<Seq<char>>, k: int)
    requires
        0 <= k <= ps.len(),
        parse_all(ps.subrange(0, k)) is None,
    ensures
        parse_all(ps) is None,
    decreases ps.len() - k,
{
    if k < ps.len() {
        assert(ps.subrange(0, k + 1).drop_last() =~= ps.subrange(0, k));
        lemma_parse_all_none_extends(ps, k + 1);
    } else {
        assert(ps.subrange(0, k) =~= ps);
    }
}

fn lex_ge_exec(a: &Vec<u32>, b: &Vec<u32>) -> (r: bool)
    ensures
        r == lex_ge(a@, b@),
{
    let mut i: usize = 0;
    assert(a@.subrange(0, a@.len() as int) =~= a@);
    assert(b@.subrange(0, b@.len() as int) =~= b@);
    while i < a.len() && i < b.len() && a[i] == b[i]
        invariant
            i <= a@.len(),
            i <= b@.len(),
            lex_ge(a@, b@) == lex_ge(a@.subrange(i as int, a@.len() as int), b@.subrange(i as int, b@.len() as int)),
        decreases a@.len() - i,
    {
        let ghost sa = a@.subrange(i as int, a@.len() as int);
        let ghost sb = b@.subrange(i as int, b@.len() as int);
        assert(sa.drop_first() =~= a@.subrange(i + 1, a@.len() as int));
        assert(sb.drop_first() =~= b@.subrange(i + 1, b@.len() as int));
        i += 1;
    }
    let ghost sa = a@.subrange(i as int, a@.len() as int);
    let ghost sb = b@.subrange(i as int, b@.len() as int);
    if i == b.len() {
        assert(sb.len() == 0);
        true
    } else if i == a.len() {
        false
    } else {
        assert(sa[0] == a@[i as int] && sb[0] == b@[i as int]);
        a[i] > b[i]
    }
}

/// A release version starts with a digit and has a dot; commit builds
/// (bare hashes) do not.
pub open spec fn looks_like_release_spec(s: Seq<char>) -> bool {
    s.len() > 0 && is_ascii_digit(s[0]) && exists|i: int| 0 <= i < s.len() && s[i] == '.'
}

pub fn looks_like_release_version(s: &str) -> (r: bool)
    ensures
        r == looks_like_release_spec(s@),
{
    let cs = chars_of(s);
    if cs.len() == 0 || !('0' <= cs[0] && cs[0] <= '9') {
        return false;
    }
    let mut i: usize = 0;
    while i < cs.len()
        invariant
            i <= cs@.len(),
            cs@ == s@,
            cs@.len() > 0 && is_ascii_digit(cs@[0]),
            forall|j: int| 0 <= j < i ==> cs@[j] != '.',
        decreases cs@.len() - i,
    {
        if cs[i] == '.' {
            return true;
        }
        i += 1;
    }
    false
}

/// A resolved `guix`: the binary and its `--version` first line.
#[derive(Debug, Clone)]
pub struct Discovered {
    pub binary: String,
    pub version: String,
}

/// The index just past the last whitespace character of `t` (0 if none).
pub open spec fn last_ws_end(t: Seq<char>, i: int) -> int
    decreases i,
{
    if i <= 0 {
        0
    } else if is_whitespace(t[i - 1]) {
        i
    } else {
        last_ws_end(t, i - 1)
    }
}

/// The last whitespace-separated token of a line.
pub open spec fn last_token(s: Seq<char>) -> Option<Seq<char>> {
    let t = trim_end_spec(s);
    if t.len() == 0 {
        None
    } else {
        Some(t.subrange(last_ws_end(t, t.len() as int), t.len() as int))
    }
}

/// The minimum the version check reports.
pub open spec fn min_version_text() -> Seq<char> {
    "1.4.0 or commit build (anchor date "@ + MIN_GUIX_VERSION_DATE@ + ")"@
}

/// Whether the `--version` line names a release older than 1.4.0: commit
/// builds and unparseable releases pass.
pub open spec fn version_too_old(first_line: Seq<char>) -> Option<Seq<char>> {
    match last_token(first_line) {
        Some(tok) => if looks_like_release_spec(tok) && release_at_least_spec(tok, "1.4.0"@) == Some(false) {
            Some(tok)
        } else {
            None
        },
        None => None,
    }
}

proof fn lemma_last_ws_end(t: Seq<char>, i: int)
    requires
        0 <= i <= t.len(),
    ensures
        0 <= last_ws_end(t, i) <= i,
    decreases i,
{
    if i > 0 && !is_whitespace(t[i - 1]) {
        lemma_last_ws_end(t, i - 1);
    }
}

/// Checks the version line of `guix --version`.
pub fn check_version_line(first_line: &str) -> (r: Result<(), GuixError>)
    ensures
        match version_too_old(first_line@) {
            None => r is Ok,
            Some(tok) => r matches Err(GuixError::VersionUnsupported { found, min })
                && found@ == tok && min@ == min_version_text(),
        },
{
    let cs = chars_of(first_line);
    let t = trim_end_chars(&cs);
    if t.len() == 0 {
        return Ok(());
    }
    let mut i: usize = t.len();
    while i > 0 && !char_is_whitespace(t[i - 1])
        invariant
            i <= t@.len(),
            last_ws_end(t@, t@.len() as int) == last_ws_end(t@, i as int),
        decreases i,
    {
        i -= 1;
    }
    let tl = t.len();
    let tok = sub_chars(&t, i, tl);
    let tok_s = string_of(&tok);
    if looks_like_release_version(tok_s.as_str()) {
        if release_version_at_least(tok_s.as_str(), "1.4.0") == Some(false) {
            let mut m: Vec<char> = Vec::new();
            push_str(&mut m, "1.4.0 or commit build (anchor date ");
            push_str(&mut m, MIN_GUIX_VERSION_DATE);
            push_str(&mut m, ")");
            return Err(GuixError::VersionUnsupported { found: tok_s, min: string_of(&m) });
        }
    }
    Ok(())
}

/// The first line of a command's output (`lines().next()`): up to the
/// first `\n`, without a trailing `\r`; invalid UTF-8 replaced.
pub open spec fn first_line_spec(out: Seq<u8>) -> Seq<char> {
    let s = utf8_lossy(out);
    let l = match first_char(s, '\n', 0) {
        Some(i) => s.subrange(0, i),
        None => s,
    };
    if l.len() > 0 && l.last() == '\r' {
        l.drop_last()
    } else {
        l
    }
}

/// The first line of `guix --version` output.
pub fn first_line(out: &[u8]) -> (r: String)
    ensures
        r@ == first_line_spec(out@),
{
    let s = decode_lossy(out);
    let cs = chars_of(s.as_str());
    let mut i: usize = 0;
    while i < cs.len() && cs[i] != '\n'
        invariant
            i <= cs@.len(),
            forall|j: int| 0 <= j < i ==> cs@[j] != '\n',
        decreases cs@.len() - i,
    {
        i += 1;
    }
    proof {
        lemma_first_char(cs@, '\n', 0);
        if i < cs@.len() {
            let k = first_char(cs@, '\n', 0).unwrap();
            assert(k == i);
        } else {
            if first_char(cs@, '\n', 0) is Some {
                let k = first_char(cs@, '\n', 0).unwrap();
                assert(cs@[k] == '\n');
            }
            assert(cs@.subrange(0, i as int) =~= cs@);
        }
    }
    let mut l = sub_chars(&cs, 0, i);
    if l.len() > 0 && l[l.len() - 1] == '\r' {
        let n = l.len() - 1;
        let d = sub_chars(&l, 0, n);
        assert(d@ =~= l@.drop_last());
        l = d;
    }
    string_of(&l)
}

/// `xs` joined with `", "` between neighbours.
pub open spec fn join_comma(xs: Seq<Seq<char>>) -> Seq<char>
    decreases xs.len(),
{
    if xs.len() == 0 {
        Seq::empty()
    } else if xs.len() == 1 {
        xs[0]
    } else {
        join_comma(xs.drop_last()) + ", "@ + xs.last()
    }
}

/// The message of the error when no candidate is usable.
pub open spec fn binary_not_found_message_spec(candidates: Seq<Seq<char>>) -> Seq<char> {
    "could not find a `guix` binary in any of: "@ + join_comma(candidates)
}

/// The error that `std::io::Error::new(ErrorKind::NotFound, msg)` makes:
/// of kind `NotFound`, with `msg` as its payload.
pub uninterp spec fn io_not_found_error(msg: Seq<char>) -> std::io::Error;

/// Wraps `std::io::Error::new` with `ErrorKind::NotFound`; the result is
/// named by `io_not_found_error` of the message, and its kind is the one
/// it was made with.
#[verifier::external_body]
fn io_not_found(msg: String) -> (e: std::io::Error)
    ensures
        e == io_not_found_error(msg@),
        crate::error::io_error_is_not_found(e),
{
    std::io::Error::new(std::io::ErrorKind::NotFound, msg)
}

/// The message naming every candidate that was tried.
pub fn binary_not_found_message(candidates: &[String]) -> (r: String)
    ensures
        r@ == binary_not_found_message_spec(crate::types::strings_view(candidates@)),
{
    let ghost cs = crate::types::strings_view(candidates@);
    let mut m: Vec<char> = Vec::new();
    push_str(&mut m, "could not find a `guix` binary in any of: ");
    let ghost head = m@;
    let mut k: usize = 0;
    while k < candidates.len()
        invariant
            k <= candidates@.len(),
            cs == crate::types::strings_view(candidates@),
            head == "could not find a `guix` binary in any of: "@,
            m@ == head + join_comma(cs.subrange(0, k as int)),
        decreases candidates@.len() - k,
    {
        let ghost before = m@;
        if k > 0 {
            push_str(&mut m, ", ");
        }
        push_str(&mut m, candidates[k].as_str());
        proof {
            let sub = cs.subrange(0, k + 1);
            assert(sub.drop_last() =~= cs.subrange(0, k as int));
            assert(sub.last() == candidates@[k as int]@);
            if k == 0 {
                assert(join_comma(cs.subrange(0, 0)) =~= Seq::<char>::empty());
                assert(m@ =~= head + join_comma(sub));
            } else {
                assert(m@ =~= head + join_comma(sub));
            }
        }
        k += 1;
    }
    assert(cs.subrange(0, cs.len() as int) =~= cs);
    string_of(&m)
}

/// Picks the first candidate the caller found to be an executable file;
/// otherwise a spawn error: the `NotFound` io error whose message names
/// every candidate.
pub fn resolve_binary(candidates: &[String], usable: &[bool]) -> (r: Result<String, GuixError>)
    requires
        candidates@.len() == usable@.len(),
    ensures
        match r {
            Ok(b) => exists|i: int| 0 <= i < usable@.len() && usable@[i] && b@ == candidates@[i]@
                && forall|j: int| 0 <= j < i ==> !usable@[j],
            Err(e) => (forall|j: int| 0 <= j < usable@.len() ==> !usable@[j])
                && e == GuixError::Spawn(io_not_found_error(
                    binary_not_found_message_spec(crate::types::strings_view(candidates@))))
                && crate::error::io_error_is_not_found(io_not_found_error(
                    binary_not_found_message_spec(crate::types::strings_view(candidates@)))),
        },
{
    let mut i: usize = 0;
    while i < candidates.len()
        invariant
            i <= candidates@.len(),
            candidates@.len() == usable@.len(),
            forall|j: int| 0 <= j < i ==> !usable@[j],
        decreases candidates@.len() - i,
    {
        if usable[i] {
            return Ok(candidates[i].clone());
        }
        i += 1;
    }
    let msg = binary_not_found_message(candidates);
    Err(GuixError::Spawn(io_not_found(msg)))
}

/// Where `guix` is looked for, in order: `$GUIX_PROFILE/bin/guix`, the
/// user's pulled guix, the system profile's, then each `$PATH` entry.
pub open spec fn candidate_paths_spec(guix_profile: Option<Seq<char>>, home: Option<Seq<char>>, path_entries: Seq<Seq<char>>) -> Seq<Seq<char>> {
    (match guix_profile { Some(p) => seq![crate::paths::path_join(p, "bin/guix"@)], None => Seq::empty() })
        + (match home { Some(h) => seq![crate::paths::path_join(h, ".config/guix/current/bin/guix"@)], None => Seq::empty() })
        + seq!["/run/current-system/profile/bin/guix"@]
        + path_entries.map_values(|e: Seq<char>| crate::paths::path_join(e, "guix"@))
}

pub fn candidate_paths(guix_profile: Option<&str>, home: Option<&str>, path_entries: &Vec<String>) -> (r: Vec<String>)
    ensures
        crate::types::strings_view(r@) == candidate_paths_spec(
            match guix_profile { Some(p) => Some(p@), None => None },
            match home { Some(h) => Some(h@), None => None },
            crate::types::strings_view(path_entries@),
        ),
{
    let mut v: Vec<String> = Vec::new();
    if let Some(p) = guix_profile {
        v.push(crate::paths::join(p, "bin/guix"));
    }
    if let Some(h) = home {
        v.push(crate::paths::join(h, ".config/guix/current/bin/guix"));
    }
    v.push(String::from_str("/run/current-system/profile/bin/guix"));
    let ghost head = crate::types::strings_view(v@);
    assert(head =~= (match guix_profile { Some(p) => seq![crate::paths::path_join(p@, "bin/guix"@)], None => Seq::<Seq<char>>::empty() })
        + (match home { Some(h) => seq![crate::paths::path_join(h@, ".config/guix/current/bin/guix"@)], None => Seq::<Seq<char>>::empty() })
        + seq!["/run/current-system/profile/bin/guix"@]);
    let ghost es = crate::types::strings_view(path_entries@);
    let mut i: usize = 0;
    while i < path_entries.len()
        invariant
            i <= path_entries@.len(),
            es == crate::types::strings_view(path_entries@),
            crate::types::strings_view(v@) == head + es.subrange(0, i as int).map_values(|e: Seq<char>| crate::paths::path_join(e, "guix"@)),
        decreases path_entries@.len() - i,
    {
        let ghost before = crate::types::strings_view(v@);
        let c = crate::paths::join(path_entries[i].as_str(), "guix");
        v.push(c);
        assert(es[i as int] == path_entries@[i as int]@);
        assert(crate::types::strings_view(v@) =~= before.push(c@));
        assert(es.subrange(0, i + 1).map_values(|e: Seq<char>| crate::paths::path_join(e, "guix"@))
            =~= es.subrange(0, i as int).map_values(|e: Seq<char>| crate::paths::path_join(e, "guix"@)).push(c@));
        i += 1;
    }
    assert(es.subrange(0, es.len() as int) =~= es);
    v
}

} // verus!
