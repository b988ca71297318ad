//! Editing rules for the user's `channels.scm`: validation of every field
//! a new channel brings, the Scheme text written for a channel and for an
//! edit operation, the pre-flight checks run before an edit reaches the
//! REPL, and the reading of the REPL helper's reply.

use vstd::prelude::*;
use vstd::string::StringSliceAdditionalSpecFns;
use crate::text::{byte_len, byte_len_of, chars_of, string_of, push_str, push_chars, decimal, decimal_chars, hex_upper,
    hex_upper_chars, zero_pad, zero_pad_chars, is_ascii_letter, is_ascii_digit, starts_with_str};
use crate::types::{Channel, ChannelView};
use crate::error::GuixError;
use crate::sexp::{SExp, nth_next, str_of, u64_of, sexp_debug, sexp_debug_string};
use crate::repl::{sym_at, str_at};
use crate::repl_op::{scheme_literal, push_scheme_escaped};
use crate::channel_list::{ChannelsList, list_view, channels_view, parse_channels_list, channels_list_spec};
use crate::paths::{with_extension, path_with_extension};

verus! {

/// The error surface of channel editing; parse and eval errors carry the
/// line and column the REPL reported, when it did.
#[derive(Debug)]
pub enum ChannelsError {
    ParseError { message: String, line: Option<u32>, column: Option<u32> },
    EvalError { message: String, line: Option<u32>, column: Option<u32> },
    DuplicateName { name: String },
    MissingIntroduction { name: String },
    UnsupportedOp { op: String },
    NotFound { name: String },
    StoreManaged { path: String },
    InvalidName { name: String },
    Invalid { field: String, reason: String },
    FileNotFound { path: String },
    Internal(String),
    Guix(GuixError),
    Io(std::io::Error),
}

/// `" at L:C"`, `" at line L"`, or nothing.
pub open spec fn line_col_suffix_spec(line: Option<u32>, column: Option<u32>) -> Seq<char> {
    match (line, column) {
        (Some(l), Some(c)) => " at "@ + decimal(l as nat) + ":"@ + decimal(c as nat),
        (Some(l), None) => " at line "@ + decimal(l as nat),
        _ => Seq::empty(),
    }
}

/// The position suffix of a parse or eval error message.
pub fn line_col_suffix(line: Option<u32>, column: Option<u32>) -> (r: String)
    ensures
        r@ == line_col_suffix_spec(line, column),
{
    let mut out: Vec<char> = Vec::new();
    match (line, column) {
        (Some(l), Some(c)) => {
            push_str(&mut out, " at ");
            let d = decimal_chars(l as u64);
            push_chars(&mut out, &d);
            push_str(&mut out, ":");
            let e = decimal_chars(c as u64);
            push_chars(&mut out, &e);
        },
        (Some(l), None) => {
            push_str(&mut out, " at line ");
            let d = decimal_chars(l as u64);
            push_chars(&mut out, &d);
        },
        _ => {
            assert(out@ =~= Seq::<char>::empty());
        },
    }
    string_of(&out)
}

/// The text of each channels error (its `Display`); a wrapped guix error
/// reads as its own text, and an `io::Error`'s text ends with the
/// operating system's message.
pub open spec fn channels_error_message(e: ChannelsError) -> Seq<char> {
    match e {
        ChannelsError::ParseError { message, line, column } => "parse error"@ + line_col_suffix_spec(line, column) + ": "@ + message@,
        ChannelsError::EvalError { message, line, column } => "eval error"@ + line_col_suffix_spec(line, column) + ": "@ + message@,
        ChannelsError::DuplicateName { name } => "channel `"@ + name@ + "` already exists"@,
        ChannelsError::MissingIntroduction { name } => "channel `"@ + name@ + "` has no introduction \u{2014} discovery-side guarantee"@,
        ChannelsError::UnsupportedOp { op } => "operation `"@ + op@ + "` not supported"@,
        ChannelsError::NotFound { name } => "channel `"@ + name@ + "` not found"@,
        ChannelsError::StoreManaged { path } => "channels.scm at "@ + path@
            + " is store-managed (guix home / read-only). Set a writable source-path override."@,
        ChannelsError::InvalidName { name } => "channel name `"@ + name@ + "` contains characters that aren't valid in a Scheme symbol"@,
        ChannelsError::Invalid { field, reason } => "invalid "@ + field@ + ": "@ + reason@,
        ChannelsError::FileNotFound { path } => "channels.scm not found at "@ + path@,
        ChannelsError::Internal(m) => "internal error: "@ + m@,
        ChannelsError::Guix(g) => crate::error::guix_error_message(g),
        ChannelsError::Io(_) => "io: "@,
    }
}

impl ChannelsError {
    /// The error's text, as its `Display` renders it.
    pub fn message(&self) -> (r: String)
        ensures
            match *self {
                ChannelsError::Io(_) => channels_error_message(*self).is_prefix_of(r@),
                ChannelsError::Guix(g) => match g {
                    GuixError::Spawn(_) | GuixError::Io(_) => channels_error_message(*self).is_prefix_of(r@),
                    _ => r@ == channels_error_message(*self),
                },
                _ => r@ == channels_error_message(*self),
            },
    {
        let mut v: Vec<char> = Vec::new();
        match self {
            ChannelsError::ParseError { message, line, column } => {
                push_str(&mut v, "parse error");
                let sfx = line_col_suffix(*line, *column);
                push_str(&mut v, sfx.as_str());
                push_str(&mut v, ": ");
                push_str(&mut v, message.as_str());
            },
            ChannelsError::EvalError { message, line, column } => {
                push_str(&mut v, "eval error");
                let sfx = line_col_suffix(*line, *column);
                push_str(&mut v, sfx.as_str());
                push_str(&mut v, ": ");
                push_str(&mut v, message.as_str());
            },
            ChannelsError::DuplicateName { name } => {
                push_str(&mut v, "channel `");
                push_str(&mut v, name.as_str());
                push_str(&mut v, "` already exists");
            },
            ChannelsError::MissingIntroduction { name } => {
                push_str(&mut v, "channel `");
                push_str(&mut v, name.as_str());
                push_str(&mut v, "` has no introduction \u{2014} discovery-side guarantee");
            },
            ChannelsError::UnsupportedOp { op } => {
                push_str(&mut v, "operation `");
                push_str(&mut v, op.as_str());
                push_str(&mut v, "` not supported");
            },
            ChannelsError::NotFound { name } => {
                push_str(&mut v, "channel `");
                push_str(&mut v, name.as_str());
                push_str(&mut v, "` not found");
            },
            ChannelsError::StoreManaged { path } => {
                push_str(&mut v, "channels.scm at ");
                push_str(&mut v, path.as_str());
                push_str(&mut v, " is store-managed (guix home / read-only). Set a writable source-path override.");
            },
            ChannelsError::InvalidName { name } => {
                push_str(&mut v, "channel name `");
                push_str(&mut v, name.as_str());
                push_str(&mut v, "` contains characters that aren't valid in a Scheme symbol");
            },
            ChannelsError::Invalid { field, reason } => {
                push_str(&mut v, "invalid ");
                push_str(&mut v, field.as_str());
                push_str(&mut v, ": ");
                push_str(&mut v, reason.as_str());
            },
            ChannelsError::FileNotFound { path } => {
                push_str(&mut v, "channels.scm not found at ");
                push_str(&mut v, path.as_str());
            },
            ChannelsError::Internal(m) => {
                push_str(&mut v, "internal error: ");
                push_str(&mut v, m.as_str());
            },
            ChannelsError::Guix(g) => {
                return g.message();
            },
            ChannelsError::Io(e) => {
                push_str(&mut v, "io: ");
                let ghost head = v@;
                let t = crate::error::io_error_text(e);
                push_str(&mut v, t.as_str());
                assert(v@.subrange(0, head.len() as int) =~= head);
            },
        }
        string_of(&v)
    }
}

/// A Scheme-symbol-safe channel name: non-empty, ASCII letters, digits
/// and `- _ + .` only.
pub open spec fn valid_channel_name(name: Seq<char>) -> bool {
    name.len() > 0 && forall|i: int| 0 <= i < name.len() ==> {
        let c = #[trigger] name[i];
        is_ascii_letter(c) || is_ascii_digit(c) || c == '-' || c == '_' || c == '+' || c == '.'
    }
}

/// Whether a channel name can be written as a bare Scheme symbol.
pub fn is_valid_channel_name(name: &str) -> (r: bool)
    ensures
        r == valid_channel_name(name@),
{
    let cs = chars_of(name);
    if cs.len() == 0 {
        return false;
    }
    let mut i: usize = 0;
    while i < cs.len()
        invariant
            i <= cs@.len(),
            cs@ == name@,
            forall|k: int| 0 <= k < i ==> {
                let c = #[trigger] cs@[k];
                is_ascii_letter(c) || is_ascii_digit(c) || c == '-' || c == '_' || c == '+' || c == '.'
            },
        decreases cs@.len() - i,
    {
        let c = cs[i];
        let ok = ('a' <= c && c <= 'z') || ('A' <= c && c <= 'Z') || ('0' <= c && c <= '9') || c == '-'
            || c == '_' || c == '+' || c == '.';
        if !ok {
            return false;
        }
        i += 1;
    }
    true
}

/// Invisible or direction-altering code points: bidi controls, zero-width
/// characters, line/paragraph separators, the soft hyphen, the word
/// joiner and the invisible math operators.
pub open spec fn deceptive(c: char) -> bool {
    c == '\u{200E}' || c == '\u{200F}' || ('\u{202A}' <= c <= '\u{202E}') || ('\u{2066}' <= c <= '\u{2069}')
        || c == '\u{200B}' || c == '\u{200C}' || c == '\u{200D}' || c == '\u{FEFF}' || c == '\u{2028}'
        || c == '\u{2029}' || c == '\u{00AD}' || c == '\u{2060}' || ('\u{2061}' <= c <= '\u{2064}')
}

/// Whether a code point is deceptive in a URL shown to the user.
pub fn is_deceptive_unicode(c: char) -> (r: bool)
    ensures
        r == deceptive(c),
{
    c == '\u{200E}' || c == '\u{200F}' || ('\u{202A}' <= c && c <= '\u{202E}') || ('\u{2066}' <= c
        && c <= '\u{2069}') || c == '\u{200B}' || c == '\u{200C}' || c == '\u{200D}' || c == '\u{FEFF}'
        || c == '\u{2028}' || c == '\u{2029}' || c == '\u{00AD}' || c == '\u{2060}' || ('\u{2061}' <= c
        && c <= '\u{2064}')
}

/// `char::is_control`: the general category Cc, i.e. U+0000..U+001F and
/// U+007F..U+009F.
pub open spec fn is_control(c: char) -> bool {
    c <= '\u{1F}' || ('\u{7F}' <= c <= '\u{9F}')
}

/// The `Invalid` error for `field` with `reason`.
pub open spec fn is_invalid(e: ChannelsError, field: Seq<char>, reason: Seq<char>) -> bool {
    e matches ChannelsError::Invalid { field: f, reason: r } && f@ == field && r@ == reason
}

fn invalid(field: &str, reason: Vec<char>) -> (e: ChannelsError)
    ensures
        is_invalid(e, field@, reason@),
{
    ChannelsError::Invalid { field: String::from_str(field), reason: string_of(&reason) }
}

/// `U+XXXX` notation as in `format!("U+{:04X}", c as u32)`.
pub open spec fn codepoint(c: char) -> Seq<char> {
    "U+"@ + zero_pad(hex_upper((c as u32) as nat), 4)
}

/// Whether a URL character is neither a control nor a deceptive code point.
pub open spec fn url_char_ok(c: char) -> bool {
    !is_control(c) && !deceptive(c)
}

/// The first URL character at or after `i` that is a control or
/// deceptive code point.
pub open spec fn first_bad_url_char(s: Seq<char>, i: int) -> Option<int>
    decreases s.len() - i,
{
    if i < 0 || i >= s.len() {
        None
    } else if !url_char_ok(s[i]) {
        Some(i)
    } else {
        first_bad_url_char(s, i + 1)
    }
}

/// The error a URL earns, if any: an unknown scheme, more than 2048 bytes,
/// or the first control / deceptive code point.
pub open spec fn url_error(u: Seq<char>) -> Option<Seq<char>> {
    if !("https://"@.is_prefix_of(u) || "http://"@.is_prefix_of(u) || "git://"@.is_prefix_of(u)
        || "ssh://"@.is_prefix_of(u) || "file://"@.is_prefix_of(u)) {
        Some("must start with https://, http://, git://, ssh:// or file://"@)
    } else if byte_len(u) > 2048 {
        Some("length "@ + decimal(byte_len(u)) + " exceeds 2048"@)
    } else {
        match first_bad_url_char(u, 0) {
            None => None,
            Some(i) => if is_control(u[i]) {
                Some("contains control char ("@ + codepoint(u[i]) + ")"@)
            } else {
                Some("contains deceptive Unicode codepoint ("@ + codepoint(u[i])
                    + ") \u{2014} bidi override, zero-width, or similar"@)
            },
        }
    }
}

/// Checks a channel URL.
pub fn validate_url(url: &str) -> (r: Result<(), ChannelsError>)
    ensures
        match url_error(url@) {
            None => r is Ok,
            Some(m) => r matches Err(e) && is_invalid(e, "url"@, m),
        },
{
    let cs = chars_of(url);
    if !(starts_with_str(&cs, "https://") || starts_with_str(&cs, "http://") || starts_with_str(&cs, "git://")
        || starts_with_str(&cs, "ssh://") || starts_with_str(&cs, "file://")) {
        let mut m: Vec<char> = Vec::new();
        push_str(&mut m, "must start with https://, http://, git://, ssh:// or file://");
        return Err(invalid("url", m));
    }
    let n = byte_len_of(url);
    if n > 2048 {
        let mut m: Vec<char> = Vec::new();
        push_str(&mut m, "length ");
        let d = decimal_chars(n as u64);
        push_chars(&mut m, &d);
        push_str(&mut m, " exceeds 2048");
        return Err(invalid("url", m));
    }
    let mut i: usize = 0;
    while i < cs.len()
        invariant
            i <= cs@.len(),
            cs@ == url@,
            byte_len(url@) <= 2048,
            "https://"@.is_prefix_of(url@) || "http://"@.is_prefix_of(url@) || "git://"@.is_prefix_of(url@)
                || "ssh://"@.is_prefix_of(url@) || "file://"@.is_prefix_of(url@),
            first_bad_url_char(url@, 0) == first_bad_url_char(url@, i as int),
        decreases cs@.len() - i,
    {
        let c = cs[i];
        let control = c <= '\u{1F}' || ('\u{7F}' <= c && c <= '\u{9F}');
        if control || is_deceptive_unicode(c) {
            let mut m: Vec<char> = Vec::new();
            if control {
                push_str(&mut m, "contains control char (");
            } else {
                push_str(&mut m, "contains deceptive Unicode codepoint (");
            }
            push_str(&mut m, "U+");
            let h = hex_upper_chars(c as u32);
            let p = zero_pad_chars(&h, 4);
            push_chars(&mut m, &p);
            if control {
                push_str(&mut m, ")");
                assert(m@ =~= "contains control char ("@ + codepoint(c) + ")"@);
            } else {
                push_str(&mut m, ") \u{2014} bidi override, zero-width, or similar");
                assert(m@ =~= "contains deceptive Unicode codepoint ("@ + codepoint(c)
                    + ") \u{2014} bidi override, zero-width, or similar"@);
            }
            assert(first_bad_url_char(url@, i as int) == Some(i as int));
            return Err(invalid("url", m));
        }
        i += 1;
    }
    Ok(())
}

/// The character classes the field checks accept.
#[derive(Clone, Copy, PartialEq, Eq, Structural)]
pub enum CharClass {
    /// ASCII letters, digits and `. _ / - +`.
    Branch,
    /// ASCII hex digits.
    Hex,
    /// ASCII hex digits and space.
    HexOrSpace,
}

pub open spec fn is_hex_digit(c: char) -> bool {
    is_ascii_digit(c) || ('a' <= c <= 'f') || ('A' <= c <= 'F')
}

pub open spec fn class_ok(k: CharClass, c: char) -> bool {
    match k {
        CharClass::Branch => is_ascii_letter(c) || is_ascii_digit(c) || c == '.' || c == '_' || c == '/'
            || c == '-' || c == '+',
        CharClass::Hex => is_hex_digit(c),
        CharClass::HexOrSpace => is_hex_digit(c) || c == ' ',
    }
}

fn class_ok_exec(k: CharClass, c: char) -> (r: bool)
    ensures
        r == class_ok(k, c),
{
    let hex = ('0' <= c && c <= '9') || ('a' <= c && c <= 'f') || ('A' <= c && c <= 'F');
    match k {
        CharClass::Branch => ('a' <= c && c <= 'z') || ('A' <= c && c <= 'Z') || ('0' <= c && c <= '9')
            || c == '.' || c == '_' || c == '/' || c == '-' || c == '+',
        CharClass::Hex => hex,
        CharClass::HexOrSpace => hex || c == ' ',
    }
}

/// The first character at or after `i` outside the class.
pub open spec fn first_outside(s: Seq<char>, k: CharClass, i: int) -> Option<int>
    decreases s.len() - i,
{
    if i < 0 || i >= s.len() {
        None
    } else if !class_ok(k, s[i]) {
        Some(i)
    } else {
        first_outside(s, k, i + 1)
    }
}

/// The first character of `s` outside the class.
fn find_outside(s: &str, k: CharClass) -> (r: Option<char>)
    ensures
        match first_outside(s@, k, 0) {
            Some(i) => r == Some(s@[i]),
            None => r is None,
        },
{
    let cs = chars_of(s);
    let mut i: usize = 0;
    while i < cs.len()
        invariant
            i <= cs@.len(),
            cs@ == s@,
            first_outside(s@, k, 0) == first_outside(s@, k, i as int),
        decreases cs@.len() - i,
    {
        if !class_ok_exec(k, cs[i]) {
            return Some(cs[i]);
        }
        i += 1;
    }
    None
}

/// "length N out of range LO..=HI".
pub open spec fn length_reason(n: nat, range: Seq<char>) -> Seq<char> {
    "length "@ + decimal(n) + " out of range "@ + range
}

fn length_reason_exec(n: usize, range: &str) -> (r: Vec<char>)
    ensures
        r@ == length_reason(n as nat, range@),
{
    let mut m: Vec<char> = Vec::new();
    push_str(&mut m, "length ");
    let d = decimal_chars(n as u64);
    push_chars(&mut m, &d);
    push_str(&mut m, " out of range ");
    push_str(&mut m, range);
    m
}

/// "contains disallowed character `C`".
pub open spec fn disallowed_reason(c: char) -> Seq<char> {
    "contains disallowed character `"@ + seq![c] + "`"@
}

fn disallowed_reason_exec(c: char) -> (r: Vec<char>)
    ensures
        r@ == disallowed_reason(c),
{
    let mut m: Vec<char> = Vec::new();
    push_str(&mut m, "contains disallowed character `");
    m.push(c);
    push_str(&mut m, "`");
    m
}

/// The error a branch name earns, if any: 1 to 200 bytes of ASCII
/// letters, digits and `. _ / - +`.
pub open spec fn branch_error(branch: Seq<char>) -> Option<Seq<char>> {
    if byte_len(branch) == 0 || byte_len(branch) > 200 {
        Some(length_reason(byte_len(branch), "1..=200"@))
    } else {
        match first_outside(branch, CharClass::Branch, 0) {
            Some(i) => Some(disallowed_reason(branch[i])),
            None => None,
        }
    }
}

/// Checks a branch name.
pub fn validate_branch(branch: &str) -> (r: Result<(), ChannelsError>)
    ensures
        match branch_error(branch@) {
            None => r is Ok,
            Some(m) => r matches Err(e) && is_invalid(e, "branch"@, m),
        },
{
    let n = byte_len_of(branch);
    if n == 0 || n > 200 {
        return Err(invalid("branch", length_reason_exec(n, "1..=200")));
    }
    match find_outside(branch, CharClass::Branch) {
        Some(c) => Err(invalid("branch", disallowed_reason_exec(c))),
        None => Ok(()),
    }
}

/// The error an introduction commit earns, if any: 7 to 64 hex digits.
pub open spec fn commit_error(commit: Seq<char>) -> Option<Seq<char>> {
    if byte_len(commit) < 7 || byte_len(commit) > 64 {
        Some(length_reason(byte_len(commit), "7..=64"@))
    } else if first_outside(commit, CharClass::Hex, 0) is Some {
        Some("must be hex digits only"@)
    } else {
        None
    }
}

/// Checks an introduction commit.
pub fn validate_introduction_commit(commit: &str) -> (r: Result<(), ChannelsError>)
    ensures
        match commit_error(commit@) {
            None => r is Ok,
            Some(m) => r matches Err(e) && is_invalid(e, "introduction.commit"@, m),
        },
{
    let n = byte_len_of(commit);
    if n < 7 || n > 64 {
        return Err(invalid("introduction.commit", length_reason_exec(n, "7..=64")));
    }
    if find_outside(commit, CharClass::Hex).is_some() {
        let mut m: Vec<char> = Vec::new();
        push_str(&mut m, "must be hex digits only");
        return Err(invalid("introduction.commit", m));
    }
    Ok(())
}

/// The error an introduction fingerprint earns, if any: 8 to 128 bytes of
/// hex digits and spaces.
pub open spec fn fingerprint_error(fpr: Seq<char>) -> Option<Seq<char>> {
    if byte_len(fpr) < 8 || byte_len(fpr) > 128 {
        Some(length_reason(byte_len(fpr), "8..=128"@))
    } else {
        match first_outside(fpr, CharClass::HexOrSpace, 0) {
            Some(i) => Some(disallowed_reason(fpr[i])),
            None => None,
        }
    }
}

/// Checks an introduction fingerprint.
pub fn validate_introduction_fingerprint(fpr: &str) -> (r: Result<(), ChannelsError>)
    ensures
        match fingerprint_error(fpr@) {
            None => r is Ok,
            Some(m) => r matches Err(e) && is_invalid(e, "introduction.fingerprint"@, m),
        },
{
    let n = byte_len_of(fpr);
    if n < 8 || n > 128 {
        return Err(invalid("introduction.fingerprint", length_reason_exec(n, "8..=128")));
    }
    match find_outside(fpr, CharClass::HexOrSpace) {
        Some(c) => Err(invalid("introduction.fingerprint", disallowed_reason_exec(c))),
        None => Ok(()),
    }
}

/// The first field error of a channel, in the order url, branch,
/// introduction commit, introduction fingerprint.
pub open spec fn channel_fields_error(ch: ChannelView) -> Option<(Seq<char>, Seq<char>)> {
    match url_error(ch.url) {
        Some(m) => Some(("url"@, m)),
        None => match (match ch.branch { Some(b) => branch_error(b), None => None }) {
            Some(m) => Some(("branch"@, m)),
            None => match (match ch.introduction_commit { Some(c) => commit_error(c), None => None }) {
                Some(m) => Some(("introduction.commit"@, m)),
                None => match (match ch.introduction_fingerprint {
                    Some(f) => fingerprint_error(f),
                    None => None,
                }) {
                    Some(m) => Some(("introduction.fingerprint"@, m)),
                    None => None,
                },
            },
        },
    }
}

/// Checks every field a channel brings.
pub fn validate_channel_fields(ch: &Channel) -> (r: Result<(), ChannelsError>)
    ensures
        match channel_fields_error(ch@) {
            None => r is Ok,
            Some((f, m)) => r matches Err(e) && is_invalid(e, f, m),
        },
{
    validate_url(ch.url.as_str())?;
    if let Some(b) = &ch.branch {
        validate_branch(b.as_str())?;
    }
    if let Some(c) = &ch.introduction_commit {
        validate_introduction_commit(c.as_str())?;
    }
    if let Some(f) = &ch.introduction_fingerprint {
        validate_introduction_fingerprint(f.as_str())?;
    }
    Ok(())
}

/// A Scheme string literal: `"`, the text with `\` and `"` escaped, `"`.
pub fn scheme_quote_string(s: &str) -> (r: String)
    ensures
        r@ == scheme_literal(s@),
{
    let mut out: Vec<char> = Vec::new();
    out.push('"');
    push_scheme_escaped(&mut out, s);
    out.push('"');
    string_of(&out)
}

fn push_literal(out: &mut Vec<char>, s: &str)
    ensures
        final(out)@ == old(out)@ + scheme_literal(s@),
{
    let ghost start = out@;
    out.push('"');
    push_scheme_escaped(out, s);
    out.push('"');
    assert(out@ =~= start + scheme_literal(s@));
}

/// The `(channel ...)` form `(guix channels)` reads: name as a quoted
/// symbol, url, then branch and commit when set, then the introduction
/// when both its commit and fingerprint are set.
pub open spec fn channel_sexp_spec(ch: ChannelView) -> Seq<char> {
    "(channel"@ + " (name '"@ + ch.name + ")"@ + " (url "@ + scheme_literal(ch.url) + ")"@
        + match ch.branch { Some(b) => " (branch "@ + scheme_literal(b) + ")"@, None => Seq::empty() }
        + match ch.commit { Some(c) => " (commit "@ + scheme_literal(c) + ")"@, None => Seq::empty() }
        + match (ch.introduction_commit, ch.introduction_fingerprint) {
            (Some(ic), Some(f)) => " (introduction (make-channel-introduction "@ + scheme_literal(ic)
                + " (openpgp-fingerprint "@ + scheme_literal(f) + ")))"@,
            _ => Seq::empty(),
        }
        + ")"@
}

/// The Scheme form for a channel.
pub fn channel_to_sexp(ch: &Channel) -> (r: String)
    ensures
        r@ == channel_sexp_spec(ch@),
{
    let mut s: Vec<char> = Vec::new();
    push_str(&mut s, "(channel");
    push_str(&mut s, " (name '");
    push_str(&mut s, ch.name.as_str());
    push_str(&mut s, ")");
    push_str(&mut s, " (url ");
    push_literal(&mut s, ch.url.as_str());
    push_str(&mut s, ")");
    let ghost a = s@;
    match &ch.branch {
        Some(b) => {
            push_str(&mut s, " (branch ");
            push_literal(&mut s, b.as_str());
            push_str(&mut s, ")");
        },
        None => {},
    }
    let ghost b0 = s@;
    match &ch.commit {
        Some(c) => {
            push_str(&mut s, " (commit ");
            push_literal(&mut s, c.as_str());
            push_str(&mut s, ")");
        },
        None => {},
    }
    let ghost c0 = s@;
    match (&ch.introduction_commit, &ch.introduction_fingerprint) {
        (Some(ic), Some(f)) => {
            push_str(&mut s, " (introduction (make-channel-introduction ");
            push_literal(&mut s, ic.as_str());
            push_str(&mut s, " (openpgp-fingerprint ");
            push_literal(&mut s, f.as_str());
            push_str(&mut s, ")))");
        },
        _ => {},
    }
    push_str(&mut s, ")");
    proof {
        let cv = ch@;
        assert(b0 =~= a + match cv.branch { Some(b) => " (branch "@ + scheme_literal(b) + ")"@, None => Seq::<char>::empty() });
        assert(c0 =~= b0 + match cv.commit { Some(c) => " (commit "@ + scheme_literal(c) + ")"@, None => Seq::<char>::empty() });
        assert(s@ =~= channel_sexp_spec(cv));
    }
    string_of(&s)
}

/// The edits the Scheme helper understands.
#[derive(Debug, Clone)]
pub enum ChannelOp {
    AddChannel(Channel),
    RemoveChannelByName(String),
}

/// The operation's form, unquoted (the caller quotes it once).
pub open spec fn op_sexp_spec(op: ChannelOp) -> Seq<char> {
    match op {
        ChannelOp::AddChannel(ch) => "(add-channel "@ + channel_sexp_spec(ch@) + ")"@,
        ChannelOp::RemoveChannelByName(name) => "(remove-channel-by-name "@ + name@ + ")"@,
    }
}

impl ChannelOp {
    /// The operation's Scheme form.
    pub fn to_scheme_sexp(&self) -> (r: String)
        ensures
            r@ == op_sexp_spec(*self),
    {
        let mut s: Vec<char> = Vec::new();
        match self {
            ChannelOp::AddChannel(ch) => {
                push_str(&mut s, "(add-channel ");
                let c = channel_to_sexp(ch);
                push_str(&mut s, c.as_str());
                push_str(&mut s, ")");
            },
            ChannelOp::RemoveChannelByName(name) => {
                push_str(&mut s, "(remove-channel-by-name ");
                push_str(&mut s, name.as_str());
                push_str(&mut s, ")");
            },
        }
        string_of(&s)
    }
}

/// The form that asks Guile to read (not evaluate) every datum of `source`.
pub open spec fn validate_form_spec(source: Seq<char>) -> Seq<char> {
    "(catch #t (lambda () (call-with-input-string "@ + scheme_literal(source)
        + " (lambda (port) (let loop () (let ((v (read port))) (if (eof-object? v) (list 'ok \"\") (loop)))))) ) (lambda (key . args) (list 'error 'parse-error (format #f \"~a: ~a\" key args) #f #f)))"@
}

/// The sandboxed read-only check of a channels source.
pub fn validate_form(source: &str) -> (r: String)
    ensures
        r@ == validate_form_spec(source@),
{
    let mut s: Vec<char> = Vec::new();
    push_str(&mut s, "(catch #t (lambda () (call-with-input-string ");
    push_literal(&mut s, source);
    push_str(&mut s, " (lambda (port) (let loop () (let ((v (read port))) (if (eof-object? v) (list 'ok \"\") (loop)))))) ) (lambda (key . args) (list 'error 'parse-error (format #f \"~a: ~a\" key args) #f #f)))");
    string_of(&s)
}

/// The form that applies `op` to the source text `raw` in the helper.
pub open spec fn apply_form_spec(raw: Seq<char>, op: ChannelOp) -> Seq<char> {
    "(libguix-rs:apply-channel-op "@ + scheme_literal(raw) + " '"@ + op_sexp_spec(op) + ")"@
}

/// The REPL form for one edit.
pub fn apply_form(raw: &str, op: &ChannelOp) -> (r: String)
    ensures
        r@ == apply_form_spec(raw@, *op),
{
    let mut s: Vec<char> = Vec::new();
    push_str(&mut s, "(libguix-rs:apply-channel-op ");
    push_literal(&mut s, raw);
    push_str(&mut s, " '");
    let o = op.to_scheme_sexp();
    push_str(&mut s, o.as_str());
    push_str(&mut s, ")");
    string_of(&s)
}

/// Whether a channel of that name is listed.
pub open spec fn has_channel_named(chs: Seq<ChannelView>, name: Seq<char>) -> bool {
    exists|i: int| 0 <= i < chs.len() && #[trigger] chs[i].name == name
}

fn any_named(chs: &[Channel], name: &str) -> (r: bool)
    ensures
        r == has_channel_named(channels_view(chs@), name@),
{
    let target = chars_of(name);
    let mut i: usize = 0;
    while i < chs.len()
        invariant
            i <= chs@.len(),
            target@ == name@,
            forall|k: int| 0 <= k < i ==> #[trigger] channels_view(chs@)[k].name != name@,
        decreases chs@.len() - i,
    {
        let c = chars_of(chs[i].name.as_str());
        assert(channels_view(chs@)[i as int] == chs@[i as int]@);
        if crate::text::eq_str(&c, name) {
            assert(channels_view(chs@)[i as int].name == name@);
            return true;
        }
        i += 1;
    }
    false
}

/// What the pre-flight check says of an edit: `None` when it may go
/// ahead.
pub enum PreflightError {
    InvalidName(Seq<char>),
    Invalid(Seq<char>, Seq<char>),
    MissingIntroduction(Seq<char>),
    DuplicateName(Seq<char>),
    UnsupportedOp(Seq<char>),
    NotFound(Seq<char>),
}

pub open spec fn preflight_spec(chs: Seq<ChannelView>, op: ChannelOp) -> Option<PreflightError> {
    match op {
        ChannelOp::AddChannel(ch) => {
            let c = ch@;
            if !valid_channel_name(c.name) {
                Some(PreflightError::InvalidName(c.name))
            } else if channel_fields_error(c) is Some {
                let (f, m) = channel_fields_error(c).unwrap();
                Some(PreflightError::Invalid(f, m))
            } else if c.introduction_commit is None || c.introduction_fingerprint is None {
                Some(PreflightError::MissingIntroduction(c.name))
            } else if has_channel_named(chs, c.name) {
                Some(PreflightError::DuplicateName(c.name))
            } else {
                None
            }
        },
        ChannelOp::RemoveChannelByName(name) => if name@ == "guix"@ {
            Some(PreflightError::UnsupportedOp("remove `guix` channel"@))
        } else if !has_channel_named(chs, name@) {
            Some(PreflightError::NotFound(name@))
        } else {
            None
        },
    }
}

/// The `guix` channel is never removed: asking to remove it is refused as
/// an unsupported operation, whatever the channel list holds (present or
/// not, alone or among others).
pub proof fn lemma_guix_never_removed(chs: Seq<ChannelView>, name: String)
    requires
        name@ == "guix"@,
    ensures
        preflight_spec(chs, ChannelOp::RemoveChannelByName(name))
            == Some(PreflightError::UnsupportedOp("remove `guix` channel"@)),
{
}

/// Removing any other channel passes exactly when a channel of that name
/// is listed, and is refused as not found otherwise.
pub proof fn lemma_remove_other(chs: Seq<ChannelView>, name: String)
    requires
        name@ != "guix"@,
    ensures
        preflight_spec(chs, ChannelOp::RemoveChannelByName(name)) is None
            <==> exists|i: int| 0 <= i < chs.len() && chs[i].name == name@,
        !(exists|i: int| 0 <= i < chs.len() && chs[i].name == name@)
            ==> preflight_spec(chs, ChannelOp::RemoveChannelByName(name)) == Some(PreflightError::NotFound(name@)),
{
}

/// A well-formed channel with a complete introduction may be added exactly
/// when no listed channel already has its name; one without a complete
/// introduction is refused for that.
pub proof fn lemma_add_channel(chs: Seq<ChannelView>, ch: Channel)
    requires
        valid_channel_name(ch@.name),
        channel_fields_error(ch@) is None,
    ensures
        (ch@.introduction_commit is Some && ch@.introduction_fingerprint is Some) ==>
            (preflight_spec(chs, ChannelOp::AddChannel(ch)) is None
                <==> !exists|i: int| 0 <= i < chs.len() && chs[i].name == ch@.name),
        (ch@.introduction_commit is None || ch@.introduction_fingerprint is None) ==>
            preflight_spec(chs, ChannelOp::AddChannel(ch)) == Some(PreflightError::MissingIntroduction(ch@.name)),
{
}

/// The error value matches the pre-flight verdict.
pub open spec fn matches_preflight(e: ChannelsError, p: PreflightError) -> bool {
    match p {
        PreflightError::InvalidName(n) => e matches ChannelsError::InvalidName { name } && name@ == n,
        PreflightError::Invalid(f, m) => is_invalid(e, f, m),
        PreflightError::MissingIntroduction(n) => e matches ChannelsError::MissingIntroduction { name } && name@ == n,
        PreflightError::DuplicateName(n) => e matches ChannelsError::DuplicateName { name } && name@ == n,
        PreflightError::UnsupportedOp(o) => e matches ChannelsError::UnsupportedOp { op } && op@ == o,
        PreflightError::NotFound(n) => e matches ChannelsError::NotFound { name } && name@ == n,
    }
}

/// The checks an edit passes before it reaches the REPL: a new channel
/// must have a symbol-safe name, valid fields, an introduction, and a
/// name not already listed; the `guix` channel cannot be removed, and a
/// removed channel must be listed.
pub fn preflight(chs: &[Channel], op: &ChannelOp) -> (r: Result<(), ChannelsError>)
    ensures
        match preflight_spec(channels_view(chs@), *op) {
            None => r is Ok,
            Some(p) => r matches Err(e) && matches_preflight(e, p),
        },
        (*op matches ChannelOp::RemoveChannelByName(n) && n@ == "guix"@)
            ==> (r matches Err(ChannelsError::UnsupportedOp { op: o }) && o@ == "remove `guix` channel"@),
{
    match op {
        ChannelOp::AddChannel(ch) => {
            if !is_valid_channel_name(ch.name.as_str()) {
                return Err(ChannelsError::InvalidName { name: ch.name.clone() });
            }
            validate_channel_fields(ch)?;
            if ch.introduction_commit.is_none() || ch.introduction_fingerprint.is_none() {
                return Err(ChannelsError::MissingIntroduction { name: ch.name.clone() });
            }
            if any_named(chs, ch.name.as_str()) {
                return Err(ChannelsError::DuplicateName { name: ch.name.clone() });
            }
            Ok(())
        },
        ChannelOp::RemoveChannelByName(name) => {
            let c = chars_of(name.as_str());
            if crate::text::eq_str(&c, "guix") {
                return Err(ChannelsError::UnsupportedOp { op: String::from_str("remove `guix` channel") });
            }
            if !any_named(chs, name.as_str()) {
                return Err(ChannelsError::NotFound { name: name.clone() });
            }
            Ok(())
        },
    }
}

/// The helper's reply read as an outcome: the new source text, or an
/// error kind (by name), message, line and column.
pub enum ResponseView {
    Source(Seq<char>),
    /// A malformed reply, with the message.
    Malformed(Seq<char>),
    /// `(error KIND MESSAGE LINE COLUMN)`.
    Error(Seq<char>, Seq<char>, Option<u32>, Option<u32>),
}

/// A `u64` element truncated to `u32`, as `n as u32` does.
pub open spec fn u32_at(v: SExp, k: int) -> Option<u32> {
    match nth_next(v, k) {
        Some(x) => match u64_of(x) {
            Some(n) => Some(n as u32),
            None => None,
        },
        None => None,
    }
}

/// How the `(ok SOURCE)` / `(error KIND MSG LINE COL)` reply reads.
pub open spec fn response_spec(v: SExp) -> ResponseView {
    if !(v is List) {
        ResponseView::Malformed("response is not a list: "@ + sexp_debug(v))
    } else {
        match sym_at(v, 0) {
            None => ResponseView::Malformed("response missing head: "@ + sexp_debug(v)),
            Some(h) => if h == "ok"@ {
                match nth_next(v, 1) {
                    None => ResponseView::Malformed("ok response missing payload"@),
                    Some(p) => match str_of(p) {
                        Some(s) => ResponseView::Source(s),
                        None => ResponseView::Malformed("ok payload not a string: "@ + sexp_debug(p)),
                    },
                }
            } else if h == "error"@ {
                ResponseView::Error(
                    match sym_at(v, 1) { Some(k) => k, None => "unknown"@ },
                    match str_at(v, 2) { Some(m) => m, None => "<no message>"@ },
                    u32_at(v, 3),
                    u32_at(v, 4),
                )
            } else {
                ResponseView::Malformed("unexpected response head `"@ + h + "`: "@ + sexp_debug(v))
            },
        }
    }
}

/// The error a helper error of kind `kind` becomes.
pub open spec fn response_error_matches(e: ChannelsError, kind: Seq<char>, msg: Seq<char>, line: Option<u32>, column: Option<u32>) -> bool {
    if kind == "parse-error"@ {
        e matches ChannelsError::ParseError { message, line: l, column: c } && message@ == msg && l == line && c == column
    } else if kind == "duplicate-name"@ {
        e matches ChannelsError::DuplicateName { name } && name@ == msg
    } else if kind == "not-found"@ {
        e matches ChannelsError::NotFound { name } && name@ == msg
    } else if kind == "unsupported-op"@ {
        e matches ChannelsError::UnsupportedOp { op } && op@ == msg
    } else if kind == "guix-locked"@ {
        e matches ChannelsError::EvalError { message, line: l, column: c } && message@ == "guix-locked: "@ + msg
            && l == line && c == column
    } else if kind == "wrapper-around-target"@ {
        e matches ChannelsError::EvalError { message, line: l, column: c }
            && message@ == "wrapper-around-target: "@ + msg && l == line && c == column
    } else if kind == "eval-error"@ {
        e matches ChannelsError::EvalError { message, line: l, column: c } && message@ == msg && l == line && c == column
    } else {
        e matches ChannelsError::EvalError { message, line: l, column: c } && message@ == kind + ": "@ + msg
            && l == line && c == column
    }
}

fn u32_at_exec(v: &SExp, k: usize) -> (r: Option<u32>)
    ensures
        r == u32_at(*v, k as int),
{
    match v.nth(k) {
        Some(x) => match x.as_u64() {
            Some(n) => Some(n as u32),
            None => None,
        },
        None => None,
    }
}

fn malformed(m: Vec<char>) -> (e: ChannelsError)
    ensures
        e matches ChannelsError::ParseError { message, line: None, column: None } && message@ == m@,
{
    ChannelsError::ParseError { message: string_of(&m), line: None, column: None }
}

fn literal_vec(s: &str) -> (v: Vec<char>)
    ensures
        v@ == s@,
{
    chars_of(s)
}

/// `prefix` followed by the `{:?}` text of `v`.
fn with_debug(prefix: &str, v: &SExp) -> (m: Vec<char>)
    ensures
        m@ == prefix@ + sexp_debug(*v),
{
    let mut m = chars_of(prefix);
    let d = sexp_debug_string(v);
    push_str(&mut m, d.as_str());
    m
}

/// Reads the helper's reply: the new source on `(ok ...)`, the matching
/// error on `(error ...)`, a parse error on anything else.
pub fn interpret_response(v: &SExp) -> (r: Result<String, ChannelsError>)
    ensures
        match response_spec(*v) {
            ResponseView::Source(s) => r matches Ok(t) && t@ == s,
            ResponseView::Malformed(m) => r matches Err(e) && e matches ChannelsError::ParseError { message, line: None, column: None } && message@ == m,
            ResponseView::Error(k, m, l, c) => r matches Err(e) && response_error_matches(e, k, m, l, c),
        },
{
    let is_list = match v {
        SExp::List(_, _) => true,
        _ => false,
    };
    if !is_list {
        return Err(malformed(with_debug("response is not a list: ", v)));
    }
    let head: Vec<char> = match v.nth(0) {
        Some(h) => match h.as_symbol() {
            Some(s) => chars_of(s.as_str()),
            None => return Err(malformed(with_debug("response missing head: ", v))),
        },
        None => return Err(malformed(with_debug("response missing head: ", v))),
    };
    if crate::text::eq_str(&head, "ok") {
        return match v.nth(1) {
            None => Err(malformed(literal_vec("ok response missing payload"))),
            Some(p) => match p.as_str() {
                Some(s) => Ok(s.clone()),
                None => Err(malformed(with_debug("ok payload not a string: ", p))),
            },
        };
    }
    if crate::text::eq_str(&head, "error") {
        let kind: Vec<char> = match v.nth(1) {
            Some(k) => match k.as_symbol() {
                Some(s) => chars_of(s.as_str()),
                None => literal_vec("unknown"),
            },
            None => literal_vec("unknown"),
        };
        let msg: String = match v.nth(2) {
            Some(m) => match m.as_str() {
                Some(s) => s.clone(),
                None => String::from_str("<no message>"),
            },
            None => String::from_str("<no message>"),
        };
        let line = u32_at_exec(v, 3);
        let column = u32_at_exec(v, 4);
        let prefixed = |p: &str| -> (r: String)
            ensures
                r@ == p@ + msg@,
        {
            let mut t: Vec<char> = Vec::new();
            push_str(&mut t, p);
            push_str(&mut t, msg.as_str());
            string_of(&t)
        };
        let err = if crate::text::eq_str(&kind, "parse-error") {
            ChannelsError::ParseError { message: msg, line, column }
        } else if crate::text::eq_str(&kind, "duplicate-name") {
            ChannelsError::DuplicateName { name: msg }
        } else if crate::text::eq_str(&kind, "not-found") {
            ChannelsError::NotFound { name: msg }
        } else if crate::text::eq_str(&kind, "unsupported-op") {
            ChannelsError::UnsupportedOp { op: msg }
        } else if crate::text::eq_str(&kind, "guix-locked") {
            ChannelsError::EvalError { message: prefixed("guix-locked: "), line, column }
        } else if crate::text::eq_str(&kind, "wrapper-around-target") {
            ChannelsError::EvalError { message: prefixed("wrapper-around-target: "), line, column }
        } else if crate::text::eq_str(&kind, "eval-error") {
            ChannelsError::EvalError { message: msg, line, column }
        } else {
            let mut t: Vec<char> = Vec::new();
            push_chars(&mut t, &kind);
            push_str(&mut t, ": ");
            push_str(&mut t, msg.as_str());
            ChannelsError::EvalError { message: string_of(&t), line, column }
        };
        return Err(err);
    }
    let mut m: Vec<char> = Vec::new();
    push_str(&mut m, "unexpected response head `");
    push_chars(&mut m, &head);
    push_str(&mut m, "`: ");
    let d = sexp_debug_string(v);
    push_str(&mut m, d.as_str());
    Err(malformed(m))
}

/// The in-memory view of a channels file, plus whether it may be
/// overwritten (a file resolving into `/gnu/store/` may not).
#[derive(Debug, Clone)]
pub struct ChannelsFile {
    pub path: String,
    pub list: ChannelsList,
    pub raw: String,
    pub is_store_managed: bool,
}

/// The error a channels parse failure becomes.
pub open spec fn parse_failure(e: ChannelsError, m: Seq<char>) -> bool {
    e matches ChannelsError::ParseError { message, line: None, column: None } && message@ == m
}

impl ChannelsFile {
    /// A channels file from its path, source text and store status.
    pub fn from_source(path: String, raw: String, is_store_managed: bool) -> (r: Result<ChannelsFile, ChannelsError>)
        ensures
            match channels_list_spec(raw@) {
                Ok(l) => r matches Ok(f) && list_view(f.list) == l && f.raw@ == raw@ && f.path@ == path@
                    && f.is_store_managed == is_store_managed,
                Err(m) => r matches Err(e) && parse_failure(e, m),
            },
    {
        match parse_channels_list(raw.as_str()) {
            Ok(list) => Ok(ChannelsFile { path, list, raw, is_store_managed }),
            Err(GuixError::Parse(msg)) => Err(ChannelsError::ParseError { message: msg, line: None, column: None }),
            Err(other) => Err(ChannelsError::Guix(other)),
        }
    }

    /// A fresh `channels.scm` holding `(cons* %default-channels)`, for the
    /// first-channel case; nothing is written.
    pub fn seed(path: String, is_store_managed: bool) -> (r: Result<ChannelsFile, ChannelsError>)
        ensures
            match channels_list_spec("(cons* %default-channels)"@) {
                Ok(l) => r matches Ok(f) && list_view(f.list) == l && f.raw@ == "(cons* %default-channels)"@
                    && f.path@ == path@ && f.is_store_managed == is_store_managed,
                Err(m) => r matches Err(e) && parse_failure(e, m),
            },
    {
        ChannelsFile::from_source(path, String::from_str("(cons* %default-channels)"), is_store_managed)
    }

    /// Store-managed files are read-only.
    pub fn is_writable(&self) -> (r: bool)
        ensures
            r == !self.is_store_managed,
    {
        !self.is_store_managed
    }

    /// The `.bak` sibling each write leaves: always the path with extension
    /// `scm.bak`, whatever the original extension.
    pub fn backup_path(&self) -> (r: String)
        ensures
            r@ == path_with_extension(self.path@, "scm.bak"@),
    {
        proof {
            reveal_strlit("scm.bak");
            assert(!"scm.bak"@.contains('/'));
        }
        with_extension(self.path.as_str(), "scm.bak")
    }

    /// Pre-flight for an edit of this file.
    pub fn preflight(&self, op: &ChannelOp) -> (r: Result<(), ChannelsError>)
        ensures
            match preflight_spec(list_view(self.list).0, *op) {
                None => r is Ok,
                Some(p) => r matches Err(e) && matches_preflight(e, p),
            },
            (*op matches ChannelOp::RemoveChannelByName(n) && n@ == "guix"@)
                ==> (r matches Err(ChannelsError::UnsupportedOp { op: o }) && o@ == "remove `guix` channel"@),
    {
        preflight(self.list.channels(), op)
    }
}

/// The user's channels file under a home directory.
pub fn default_channels_path(home: &str) -> (r: String)
    ensures
        r@ == crate::paths::path_join(home@, ".config/guix/channels.scm"@),
{
    crate::paths::join(home, ".config/guix/channels.scm")
}

/// Where a symlink at `path` pointing at `target` leads: an absolute
/// target as is, a relative one under the link's directory.
pub open spec fn link_destination(path: Seq<char>, target: Seq<char>) -> Seq<char> {
    if target.len() > 0 && target[0] == '/' {
        target
    } else {
        match crate::paths::path_parent(path) {
            Some(d) => crate::paths::path_join(d, target),
            None => target,
        }
    }
}

/// Whether the channels file is store-managed: it is a symlink (`target`
/// is what it points at, `None` when it is not a link or cannot be read)
/// that leads into `/gnu/store/`.
pub fn resolves_into_store(path: &str, target: Option<&str>) -> (r: bool)
    ensures
        r == match target {
            Some(t) => "/gnu/store/"@.is_prefix_of(link_destination(path@, t@)),
            None => false,
        },
{
    match target {
        Some(t) => {
            let tc = chars_of(t);
            let dest: String = if tc.len() > 0 && tc[0] == '/' {
                String::from_str(t)
            } else {
                match crate::paths::parent(path) {
                    Some(d) => crate::paths::join(d.as_str(), t),
                    None => String::from_str(t),
                }
            };
            let dc = chars_of(dest.as_str());
            crate::text::starts_with_str(&dc, "/gnu/store/")
        },
        None => false,
    }
}

/// A write is refused up front when the file is store-managed.
pub fn write_precheck(file: &ChannelsFile) -> (r: Result<(), ChannelsError>)
    ensures
        file.is_store_managed ==> (r matches Err(ChannelsError::StoreManaged { path }) && path@ == file.path@),
        !file.is_store_managed ==> r is Ok,
{
    if file.is_store_managed {
        Err(ChannelsError::StoreManaged { path: file.path.clone() })
    } else {
        Ok(())
    }
}

/// The error for a channels file that is a symlink (replacing it would
/// silently break the link's owner).
pub fn symlink_refusal(path: &str) -> (e: ChannelsError)
    ensures
        e matches ChannelsError::Invalid { field, reason } && field@ == "path"@
            && reason@ == path@ + " is a symlink; refusing to replace it. Resolve or remove the link first."@,
{
    let mut v: Vec<char> = Vec::new();
    push_str(&mut v, path);
    push_str(&mut v, " is a symlink; refusing to replace it. Resolve or remove the link first.");
    ChannelsError::Invalid { field: String::from_str("path"), reason: string_of(&v) }
}

} // verus!
