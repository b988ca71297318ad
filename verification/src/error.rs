//! The library's error type, and the rule that tells a retryable
//! substitute/network hiccup from a genuine failure.

use vstd::prelude::*;
use crate::types::KnownBug;
use crate::text::{contains_seq, contains_str, chars_of, string_of, push_str};
use crate::package::{signed_decimal, i64_string};

verus! {

/// `std::io::Error`, carried through unchanged by the spawn and io variants.
#[verifier::external_type_specification]
#[verifier::external_body]
pub struct ExIoError(std::io::Error);

/// Whether an I/O error's kind, as `io::Error::kind` reports it, is
/// `ErrorKind::NotFound`.
pub uninterp spec fn io_error_is_not_found(e: std::io::Error) -> bool;

/// `e.kind() == ErrorKind::NotFound`; named after the error alone.
#[verifier::external_body]
pub(crate) fn is_not_found(e: &std::io::Error) -> (r: bool)
    ensures
        r == io_error_is_not_found(*e),
{
    e.kind() == std::io::ErrorKind::NotFound
}

/// Why a `pkexec`-launched command failed.
#[derive(Debug, Clone, Copy, PartialEq, Eq, Structural)]
pub enum PolkitFailure {
    AuthFailed,
    NotAuthorized,
    KilledBySignal(i32),
    /// Distinct from `NotAuthorized` (also 127) so the "binary missing"
    /// and "not in trusted path" hints can be told apart.
    PkexecMissing,
}

/// Everything a guix call can fail with.
#[derive(Debug)]
pub enum GuixError {
    Spawn(std::io::Error),
    Io(std::io::Error),
    NonZeroExit { code: i32, stderr: String },
    Parse(String),
    /// `stderr_tail`: the last ~64 KB of the REPL's stderr, for triage.
    ReplProtocol { message: String, stderr_tail: String },
    VersionUnsupported { found: String, min: String },
    Cancelled,
    OperationFailed { code: i32, stderr_tail: String },
    Polkit { kind: PolkitFailure, code: i32, stderr_tail: String },
    KnownBug(KnownBug),
    NotOnGuixSystem,
    Internal(String),
}

/// ASCII upper-case letters folded to lower case; everything else kept.
pub open spec fn ascii_lower(c: char) -> char {
    if 'A' <= c <= 'Z' {
        ((c as u32) + 32) as char
    } else {
        c
    }
}

/// `str::to_ascii_lowercase` as a sequence map.
pub open spec fn ascii_lower_seq(s: Seq<char>) -> Seq<char> {
    s.map_values(|c: char| ascii_lower(c))
}

/// `str::to_ascii_lowercase` on characters.
pub fn to_ascii_lowercase(s: &[char]) -> (r: Vec<char>)
    ensures
        r@ == ascii_lower_seq(s@),
{
    let mut out: Vec<char> = Vec::new();
    let mut i: usize = 0;
    while i < s.len()
        invariant
            i <= s@.len(),
            out@ == ascii_lower_seq(s@.subrange(0, i as int)),
        decreases s@.len() - i,
    {
        let c = s[i];
        let l = if 'A' <= c && c <= 'Z' {
            ((c as u8) + 32) as char
        } else {
            c
        };
        out.push(l);
        assert(ascii_lower_seq(s@.subrange(0, i + 1)) =~= ascii_lower_seq(s@.subrange(0, i as int)).push(ascii_lower(c)));
        i += 1;
    }
    assert(s@.subrange(0, s@.len() as int) =~= s@);
    out
}

/// Whether the lower-cased text mentions one of the substitute/network
/// failure phrases guix prints.
pub open spec fn mentions_transient(l: Seq<char>) -> bool {
    contains_seq(l, "connection refused"@) || contains_seq(l, "connection reset"@)
        || contains_seq(l, "connection timed out"@) || contains_seq(l, "connection closed"@)
        || contains_seq(l, "timed out"@) || contains_seq(l, "could not connect"@)
        || contains_seq(l, "failed to connect"@) || contains_seq(l, "name resolution"@)
        || contains_seq(l, "temporary failure in name resolution"@)
        || contains_seq(l, "network is unreachable"@) || contains_seq(l, "no route to host"@)
        || contains_seq(l, "tls handshake"@) || contains_seq(l, "503 "@)
        || contains_seq(l, "502 "@) || contains_seq(l, "504 "@)
        || contains_seq(l, "bad gateway"@) || contains_seq(l, "service unavailable"@)
        || contains_seq(l, "gateway timeout"@) || contains_seq(l, "download failed"@)
        || contains_seq(l, "error downloading"@) || contains_seq(l, "unexpected eof"@)
}

/// Case-insensitive (ASCII) match against the transient phrases.
pub open spec fn looks_transient_spec(text: Seq<char>) -> bool {
    mentions_transient(ascii_lower_seq(text))
}

/// Whether `text` looks like a retryable substitute/network hiccup.
pub fn looks_transient(text: &str) -> (r: bool)
    ensures
        r == looks_transient_spec(text@),
{
    let v = chars_of(text);
    let l = to_ascii_lowercase(&v);
    contains_str(&l, "connection refused") || contains_str(&l, "connection reset")
        || contains_str(&l, "connection timed out") || contains_str(&l, "connection closed")
        || contains_str(&l, "timed out") || contains_str(&l, "could not connect")
        || contains_str(&l, "failed to connect") || contains_str(&l, "name resolution")
        || contains_str(&l, "temporary failure in name resolution")
        || contains_str(&l, "network is unreachable") || contains_str(&l, "no route to host")
        || contains_str(&l, "tls handshake") || contains_str(&l, "503 ")
        || contains_str(&l, "502 ") || contains_str(&l, "504 ")
        || contains_str(&l, "bad gateway") || contains_str(&l, "service unavailable")
        || contains_str(&l, "gateway timeout") || contains_str(&l, "download failed")
        || contains_str(&l, "error downloading") || contains_str(&l, "unexpected eof")
}

/// Whether an error value looks retryable: only the variants carrying
/// guix's own stderr or messages can be.
pub open spec fn is_transient_spec(e: GuixError) -> bool {
    match e {
        GuixError::OperationFailed { stderr_tail, .. } => looks_transient_spec(stderr_tail@),
        GuixError::NonZeroExit { stderr, .. } => looks_transient_spec(stderr@),
        GuixError::ReplProtocol { message, stderr_tail } => looks_transient_spec(message@)
            || looks_transient_spec(stderr_tail@),
        _ => false,
    }
}

impl GuixError {
    /// A REPL protocol error with no stderr attached.
    pub fn repl(message: String) -> (e: Self)
        ensures
            e matches GuixError::ReplProtocol { message: m, stderr_tail: t } && m@ == message@ && t@.len() == 0,
    {
        GuixError::ReplProtocol { message, stderr_tail: String::new() }
    }

    /// Whether the failure looks like a retryable substitute/network hiccup.
    /// Conservative: spawn, io, polkit, cancel and the rest are never transient.
    pub fn is_transient(&self) -> (r: bool)
        ensures
            r == is_transient_spec(*self),
    {
        match self {
            GuixError::OperationFailed { stderr_tail, .. } => looks_transient(stderr_tail.as_str()),
            GuixError::NonZeroExit { stderr, .. } => looks_transient(stderr.as_str()),
            GuixError::ReplProtocol { message, stderr_tail } => looks_transient(message.as_str())
                || looks_transient(stderr_tail.as_str()),
            _ => false,
        }
    }
}

/// `io::Error`'s `Display` text. It depends on the operating system's
/// messages, so nothing is stated of it.
#[verifier::external_body]
pub(crate) fn io_error_text(e: &std::io::Error) -> (r: String) {
    e.to_string()
}

/// `{:?}` of a polkit failure.
pub open spec fn polkit_debug(k: PolkitFailure) -> Seq<char> {
    match k {
        PolkitFailure::AuthFailed => "AuthFailed"@,
        PolkitFailure::NotAuthorized => "NotAuthorized"@,
        PolkitFailure::KilledBySignal(n) => "KilledBySignal("@ + signed_decimal(n as int) + ")"@,
        PolkitFailure::PkexecMissing => "PkexecMissing"@,
    }
}

/// A stderr excerpt appended under a heading, when there is one.
pub open spec fn tail_section(heading: Seq<char>, tail: Seq<char>) -> Seq<char> {
    if tail.len() == 0 { Seq::empty() } else { "\n--- "@ + heading + " ---\n"@ + tail }
}

/// The text of each error (its `Display`), except the two that carry an
/// `io::Error`, whose texts end with the operating system's message.
pub open spec fn guix_error_message(e: GuixError) -> Seq<char> {
    match e {
        GuixError::Spawn(_) => "failed to spawn guix subprocess: "@,
        GuixError::Io(_) => "io error: "@,
        GuixError::NonZeroExit { code, stderr } => "guix exited with code "@ + signed_decimal(code as int) + ": "@ + stderr@,
        GuixError::Parse(m) => "parse error: "@ + m@,
        GuixError::ReplProtocol { message, stderr_tail } => "repl protocol error: "@ + message@
            + tail_section("recent repl stderr"@, stderr_tail@),
        GuixError::VersionUnsupported { found, min } => "guix version "@ + found@ + " is below the supported minimum "@ + min@,
        GuixError::Cancelled => "operation cancelled"@,
        GuixError::OperationFailed { code, stderr_tail } => "operation failed with code "@ + signed_decimal(code as int)
            + tail_section("recent stderr"@, stderr_tail@),
        GuixError::Polkit { kind, code, stderr_tail } => "polkit failure: "@ + polkit_debug(kind) + " (code "@
            + signed_decimal(code as int) + ")"@ + tail_section("recent stderr"@, stderr_tail@),
        GuixError::KnownBug(_) => "hit known guix bug: ChannelShadow74396 \u{2014} see https://issues.guix.gnu.org/74396"@,
        GuixError::NotOnGuixSystem => "not running on a Guix System (no /run/current-system/configuration.scm)"@,
        GuixError::Internal(m) => "internal: "@ + m@,
    }
}

fn push_tail(v: &mut Vec<char>, heading: &str, tail: &str)
    ensures
        final(v)@ == old(v)@ + tail_section(heading@, tail@),
{
    if tail.unicode_len() > 0 {
        push_str(v, "\n--- ");
        push_str(v, heading);
        push_str(v, " ---\n");
        push_str(v, tail);
    } else {
        assert(old(v)@ + Seq::<char>::empty() =~= old(v)@);
    }
}

fn push_int(v: &mut Vec<char>, n: i32)
    ensures
        final(v)@ == old(v)@ + signed_decimal(n as int),
{
    let s = i64_string(n as i64);
    push_str(v, s.as_str());
}

impl GuixError {
    /// The error's text, as its `Display` renders it.
    pub fn message(&self) -> (r: String)
        ensures
            match *self {
                GuixError::Spawn(_) | GuixError::Io(_) => guix_error_message(*self).is_prefix_of(r@),
                _ => r@ == guix_error_message(*self),
            },
    {
        let mut v: Vec<char> = Vec::new();
        match self {
            GuixError::Spawn(e) => {
                push_str(&mut v, "failed to spawn guix subprocess: ");
                let ghost head = v@;
                let t = io_error_text(e);
                push_str(&mut v, t.as_str());
                assert(v@.subrange(0, head.len() as int) =~= head);
            },
            GuixError::Io(e) => {
                push_str(&mut v, "io error: ");
                let ghost head = v@;
                let t = io_error_text(e);
                push_str(&mut v, t.as_str());
                assert(v@.subrange(0, head.len() as int) =~= head);
            },
            GuixError::NonZeroExit { code, stderr } => {
                push_str(&mut v, "guix exited with code ");
                push_int(&mut v, *code);
                push_str(&mut v, ": ");
                push_str(&mut v, stderr.as_str());
            },
            GuixError::Parse(m) => {
                push_str(&mut v, "parse error: ");
                push_str(&mut v, m.as_str());
            },
            GuixError::ReplProtocol { message, stderr_tail } => {
                push_str(&mut v, "repl protocol error: ");
                push_str(&mut v, message.as_str());
                push_tail(&mut v, "recent repl stderr", stderr_tail.as_str());
            },
            GuixError::VersionUnsupported { found, min } => {
                push_str(&mut v, "guix version ");
                push_str(&mut v, found.as_str());
                push_str(&mut v, " is below the supported minimum ");
                push_str(&mut v, min.as_str());
            },
            GuixError::Cancelled => {
                push_str(&mut v, "operation cancelled");
            },
            GuixError::OperationFailed { code, stderr_tail } => {
                push_str(&mut v, "operation failed with code ");
                push_int(&mut v, *code);
                push_tail(&mut v, "recent stderr", stderr_tail.as_str());
            },
            GuixError::Polkit { kind, code, stderr_tail } => {
                push_str(&mut v, "polkit failure: ");
                match kind {
                    PolkitFailure::AuthFailed => push_str(&mut v, "AuthFailed"),
                    PolkitFailure::NotAuthorized => push_str(&mut v, "NotAuthorized"),
                    PolkitFailure::KilledBySignal(n) => {
                        push_str(&mut v, "KilledBySignal(");
                        push_int(&mut v, *n);
                        push_str(&mut v, ")");
                    },
                    PolkitFailure::PkexecMissing => push_str(&mut v, "PkexecMissing"),
                }
                push_str(&mut v, " (code ");
                push_int(&mut v, *code);
                push_str(&mut v, ")");
                push_tail(&mut v, "recent stderr", stderr_tail.as_str());
            },
            GuixError::KnownBug(_) => {
                push_str(&mut v, "hit known guix bug: ChannelShadow74396 \u{2014} see https://issues.guix.gnu.org/74396");
            },
            GuixError::NotOnGuixSystem => {
                push_str(&mut v, "not running on a Guix System (no /run/current-system/configuration.scm)");
            },
            GuixError::Internal(m) => {
                push_str(&mut v, "internal: ");
                push_str(&mut v, m.as_str());
            },
        }
        string_of(&v)
    }
}

} // verus!
