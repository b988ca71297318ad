//! Short human-readable renderings for the GUI: ages ("3 hours ago"),
//! elapsed times, abbreviated commit hashes, left-truncated paths and the
//! letter of a placeholder icon.

use vstd::prelude::*;
use crate::text::{chars_of, string_of, push_str, push_chars, decimal, decimal_chars, zero_pad, zero_pad_chars,
    byte_len};

verus! {

/// `""` for one, `"s"` otherwise.
pub open spec fn plural_spec(n: nat) -> Seq<char> {
    if n == 1 { Seq::empty() } else { "s"@ }
}

pub fn plural(n: u64) -> (r: &'static str)
    ensures
        r@ == plural_spec(n as nat),
{
    if n == 1 {
        proof {
            reveal_strlit("");
        }
        ""
    } else {
        "s"
    }
}

/// `N UNIT[s] ago`.
pub open spec fn ago(n: nat, unit: Seq<char>) -> Seq<char> {
    decimal(n) + " "@ + unit + plural_spec(n) + " ago"@
}

/// How long ago something happened, from the elapsed seconds: under a
/// minute is "Just now"; then whole minutes, hours, days, 30-day months;
/// twelve such months or more is "over a year ago".
pub open spec fn humanize_spec(secs: nat) -> Seq<char> {
    let mins = secs / 60;
    let hours = mins / 60;
    let days = hours / 24;
    let months = days / 30;
    if secs < 60 {
        "Just now"@
    } else if mins < 60 {
        ago(mins, "minute"@)
    } else if hours < 24 {
        ago(hours, "hour"@)
    } else if days < 30 {
        ago(days, "day"@)
    } else if months < 12 {
        ago(months, "month"@)
    } else {
        "over a year ago"@
    }
}

fn ago_exec(n: u64, unit: &str) -> (r: String)
    ensures
        r@ == ago(n as nat, unit@),
{
    let mut v: Vec<char> = Vec::new();
    let d = decimal_chars(n);
    push_chars(&mut v, &d);
    push_str(&mut v, " ");
    push_str(&mut v, unit);
    push_str(&mut v, plural(n));
    push_str(&mut v, " ago");
    string_of(&v)
}

/// An elapsed time, in seconds, as an age.
pub fn humanize_duration(secs: u64) -> (r: String)
    ensures
        r@ == humanize_spec(secs as nat),
{
    if secs < 60 {
        return String::from_str("Just now");
    }
    let mins = secs / 60;
    if mins < 60 {
        return ago_exec(mins, "minute");
    }
    let hours = mins / 60;
    if hours < 24 {
        return ago_exec(hours, "hour");
    }
    let days = hours / 24;
    if days < 30 {
        return ago_exec(days, "day");
    }
    let months = days / 30;
    if months < 12 {
        return ago_exec(months, "month");
    }
    String::from_str("over a year ago")
}

/// The age of a moment `then` seen at `now` (both in seconds); a moment
/// in the future (clock skew) is "Just now".
pub fn humanize_age(now: u64, then: u64) -> (r: String)
    ensures
        r@ == humanize_spec(if then <= now { (now - then) as nat } else { 0 }),
{
    let delta: u64 = if then <= now { now - then } else { 0 };
    humanize_duration(delta)
}

/// The UTF-8 width of one character.
pub fn char_utf8_len(c: char) -> (n: usize)
    ensures
        n as nat == vstd::utf8::encode_scalar(c as u32).len(),
{
    let v = c as u32;
    if v <= 0x7f {
        1
    } else if v <= 0x7ff {
        2
    } else if v <= 0xffff {
        3
    } else {
        4
    }
}

proof fn lemma_byte_len_take(s: Seq<char>, k: int)
    requires
        0 <= k < s.len(),
    ensures
        byte_len(s.take(k + 1)) == byte_len(s.take(k)) + vstd::utf8::encode_scalar(s[k] as u32).len(),
    decreases k,
{
    if k == 0 {
        assert(s.take(1).drop_first() =~= Seq::<char>::empty());
        assert(s.take(0) =~= Seq::<char>::empty());
    } else {
        lemma_byte_len_take(s.drop_first(), k - 1);
        assert(s.take(k + 1).drop_first() =~= s.drop_first().take(k));
        assert(s.take(k).drop_first() =~= s.drop_first().take(k - 1));
    }
}

proof fn lemma_byte_len_mono(s: Seq<char>, j: int, k: int)
    requires
        0 <= j <= k <= s.len(),
    ensures
        byte_len(s.take(j)) + (k - j) <= byte_len(s.take(k)),
    decreases k - j,
{
    if j < k {
        lemma_byte_len_mono(s, j, k - 1);
        lemma_byte_len_take(s, k - 1);
    }
}

/// The first seven bytes of a commit id, when they end on a character
/// boundary; the whole text otherwise (shorter ids included).
pub open spec fn short_hash_spec(s: Seq<char>) -> Seq<char> {
    if exists|k: int| 0 <= k <= s.len() && byte_len(s.take(k)) == 7 {
        s.take(choose|k: int| 0 <= k <= s.len() && byte_len(s.take(k)) == 7)
    } else {
        s
    }
}

pub fn short_hash(commit: &str) -> (r: String)
    ensures
        r@ == short_hash_spec(commit@),
{
    let cs = chars_of(commit);
    let mut k: usize = 0;
    let mut b: usize = 0;
    assert(commit@.take(0) =~= Seq::<char>::empty());
    while k < cs.len() && b < 7
        invariant
            k <= cs@.len(),
            cs@ == commit@,
            b as nat == byte_len(commit@.take(k as int)),
            forall|j: int| 0 <= j < k ==> byte_len(commit@.take(j)) < 7,
        decreases cs@.len() - k,
    {
        proof {
            lemma_byte_len_take(commit@, k as int);
        }
        let w = char_utf8_len(cs[k]);
        b = b + w;
        k += 1;
    }
    proof {
        // Past the stopping point, byte lengths only grow.
        assert forall|j: int| k < j <= commit@.len() implies byte_len(#[trigger] commit@.take(j)) > b by {
            lemma_byte_len_mono(commit@, k + 1, j);
            lemma_byte_len_take(commit@, k as int);
        }
    }
    if b == 7 {
        assert(commit@.take(k as int) == commit@.subrange(0, k as int));
        let ghost kk = choose|j: int| 0 <= j <= commit@.len() && byte_len(commit@.take(j)) == 7;
        assert(kk == k);
        let head = crate::text::sub_chars(&cs, 0, k);
        return string_of(&head);
    }
    assert(!(exists|j: int| 0 <= j <= commit@.len() && byte_len(commit@.take(j)) == 7));
    String::from_str(commit)
}

/// Paths longer than `n` characters keep their last `n - 1` characters
/// behind a leading ellipsis.
pub open spec fn truncate_left_spec(s: Seq<char>, n: nat) -> Seq<char> {
    if s.len() <= n {
        s
    } else {
        let keep: int = if n >= 1 { n - 1 } else { 0 };
        seq!['\u{2026}'] + s.subrange(s.len() - keep, s.len() as int)
    }
}

pub fn truncate_path_left(s: &str, n: usize) -> (r: String)
    ensures
        r@ == truncate_left_spec(s@, n as nat),
{
    let cs = chars_of(s);
    let count = cs.len();
    if count <= n {
        return String::from_str(s);
    }
    let keep: usize = if n >= 1 { n - 1 } else { 0 };
    let skip = count - keep;
    let mut v: Vec<char> = Vec::new();
    v.push('\u{2026}');
    let tail = crate::text::sub_chars(&cs, skip, count);
    push_chars(&mut v, &tail);
    string_of(&v)
}


/// A display field cut to `n` characters: trimmed, and when still longer,
/// its first `n` characters and an ellipsis.
pub open spec fn truncate_spec(s: Seq<char>, n: nat) -> Seq<char> {
    let t = crate::text::trim_spec(s);
    if t.len() <= n { t } else { t.take(n as int).push('\u{2026}') }
}

pub fn truncate(s: &str, n: usize) -> (r: String)
    ensures
        r@ == truncate_spec(s@, n as nat),
{
    let cs = chars_of(s);
    let t = crate::text::trim_chars(&cs);
    if t.len() <= n {
        return string_of(&t);
    }
    let mut v = crate::text::sub_chars(&t, 0, n);
    v.push('\u{2026}');
    assert(v@ =~= t@.take(n as int).push('\u{2026}'));
    string_of(&v)
}

/// Elapsed time as `MM:SS`, or `HH:MM:SS` from one hour on.
pub open spec fn elapsed_spec(secs: nat) -> Seq<char> {
    let h = secs / 3600;
    let m = (secs % 3600) / 60;
    let s = secs % 60;
    if h > 0 {
        zero_pad(decimal(h), 2) + ":"@ + zero_pad(decimal(m), 2) + ":"@ + zero_pad(decimal(s), 2)
    } else {
        zero_pad(decimal(m), 2) + ":"@ + zero_pad(decimal(s), 2)
    }
}

fn two_digits(n: u64, out: &mut Vec<char>)
    ensures
        final(out)@ == old(out)@ + zero_pad(decimal(n as nat), 2),
{
    let d = decimal_chars(n);
    let p = zero_pad_chars(&d, 2);
    push_chars(out, &p);
}

pub fn format_elapsed(secs: u64) -> (r: String)
    ensures
        r@ == elapsed_spec(secs as nat),
{
    let h = secs / 3600;
    let m = (secs % 3600) / 60;
    let s = secs % 60;
    let mut v: Vec<char> = Vec::new();
    if h > 0 {
        two_digits(h, &mut v);
        v.push(':');
    }
    two_digits(m, &mut v);
    v.push(':');
    two_digits(s, &mut v);
    proof {
        reveal_strlit(":");
    }
    string_of(&v)
}

/// The letter of a placeholder icon: the name's first character in ASCII
/// upper case, `?` for an empty name.
pub open spec fn initial_spec(name: Seq<char>) -> char {
    if name.len() == 0 {
        '?'
    } else if 'a' <= name[0] <= 'z' {
        (((name[0] as u8) - 32) as u8) as char
    } else {
        name[0]
    }
}

pub fn initial(name: &str) -> (c: char)
    ensures
        c == initial_spec(name@),
{
    let cs = chars_of(name);
    if cs.len() == 0 {
        return '?';
    }
    let c = cs[0];
    if 'a' <= c && c <= 'z' {
        ((c as u8) - 32) as char
    } else {
        c
    }
}

} // verus!
