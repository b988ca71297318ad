//! The pure half of REPL-driven write operations: the argument check that
//! keeps a second form from being smuggled past the REPL reader, the
//! `guix package` payload builder, and the decoder for the structured
//! status events the payload writes to its event port.

use vstd::prelude::*;
use crate::text::{chars_of, string_of, push_str, strip_suffix_spec, strip_suffix_str};
use crate::sexp::{SExp, nth_next, str_of, u64_of, read_sexp, lexpr_read};
use crate::repl::{sym_at, str_at};
use crate::types::{KnownBug, ProgressEvent, ProgressEventView, ProgressStream};
use crate::error::GuixError;
use crate::progress_line::{channel_shadow_spec, is_channel_shadow_line, all_digits, digits_value, are_digits, ev_opt};

verus! {

/// The `guix pull` payload: runs `guix-pull` under a status reporter that
/// writes every event to file descriptor 3, then `(done 0)`.
pub const PULL_SCHEME: &'static str = "\n(begin\n  (use-modules (guix status)\n               (guix scripts pull)\n               (ice-9 ports))\n  (let ((event-port (fdopen 3 \"w\")))\n    (setvbuf event-port 'line)\n    (module-set! (resolve-module '(guix status))\n                 'call-with-status-verbosity\n                 (lambda (level thunk) (thunk)))\n    (with-exception-handler\n      (lambda (exn)\n        (write (list 'error (object->string exn)) event-port)\n        (newline event-port)\n        (force-output event-port))\n      (lambda ()\n        (with-status-report\n          (lambda (event _old _new)\n            (write event event-port)\n            (newline event-port)\n            (force-output event-port))\n          (guix-pull))\n        (write '(done 0) event-port)\n        (newline event-port)\n        (force-output event-port))\n      #:unwind? #t)))\n";

/// The text of the `guix package` payload before its argument list.
pub const PACKAGE_PAYLOAD_HEAD: &'static str = "\n(begin\n  (use-modules (guix status)\n               (guix scripts package)\n               (ice-9 ports))\n  (let ((event-port (fdopen 3 \"w\")))\n    (setvbuf event-port 'line)\n    (module-set! (resolve-module '(guix status))\n                 'call-with-status-verbosity\n                 (lambda (level thunk) (thunk)))\n    (with-exception-handler\n      (lambda (exn)\n        (write (list 'error (object->string exn)) event-port)\n        (newline event-port)\n        (force-output event-port))\n      (lambda ()\n        (with-status-report\n          (lambda (event _old _new)\n            (write event event-port)\n            (newline event-port)\n            (force-output event-port))\n          ((@ (guix scripts package) guix-package) ";

/// The text of the `guix package` payload after its argument list.
pub const PACKAGE_PAYLOAD_TAIL: &'static str = "))\n        (write '(done 0) event-port)\n        (newline event-port)\n        (force-output event-port))\n      #:unwind? #t)))\n";

/// The first newline, carriage return or NUL in `s`.
pub open spec fn first_control(s: Seq<char>) -> Option<char>
    decreases s.len(),
{
    if s.len() == 0 {
        None
    } else if s[0] == '\n' || s[0] == '\r' || s[0] == '\0' {
        Some(s[0])
    } else {
        first_control(s.drop_first())
    }
}

/// How std's `{:?}` writes the three control characters.
pub open spec fn control_debug(c: char) -> Seq<char> {
    if c == '\n' {
        "'\\n'"@
    } else if c == '\r' {
        "'\\r'"@
    } else {
        "'\\0'"@
    }
}

/// The error message for an argument, or `None` when it is acceptable:
/// non-empty and free of newlines, carriage returns and NULs.
pub open spec fn arg_error(a: Seq<char>) -> Option<Seq<char>> {
    if a.len() == 0 {
        Some("invalid package name: empty"@)
    } else {
        match first_control(a) {
            Some(c) => Some("invalid package name: contains control char "@ + control_debug(c)),
            None => None,
        }
    }
}

/// The error is a REPL protocol error carrying `msg` and no stderr.
pub open spec fn is_repl_error(e: GuixError, msg: Seq<char>) -> bool {
    e matches GuixError::ReplProtocol { message, stderr_tail } && message@ == msg && stderr_tail@.len() == 0
}

/// Rejects empty arguments and those holding a newline, carriage return
/// or NUL: they would smuggle a second form past the REPL reader.
pub fn validate_arg(arg: &str) -> (r: Result<(), GuixError>)
    ensures
        match arg_error(arg@) {
            None => r is Ok,
            Some(m) => r matches Err(e) && is_repl_error(e, m),
        },
{
    let cs = chars_of(arg);
    if cs.len() == 0 {
        return Err(GuixError::repl(String::from_str("invalid package name: empty")));
    }
    let mut i: usize = 0;
    assert(cs@.subrange(0, cs@.len() as int) =~= cs@);
    while i < cs.len()
        invariant
            i <= cs@.len(),
            cs@ == arg@,
            cs@.len() > 0,
            first_control(arg@) == first_control(cs@.subrange(i as int, cs@.len() as int)),
        decreases cs@.len() - i,
    {
        let c = cs[i];
        assert(cs@.subrange(i as int, cs@.len() as int).drop_first() =~= cs@.subrange(i + 1, cs@.len() as int));
        assert(cs@.subrange(i as int, cs@.len() as int)[0] == c);
        if c == '\n' || c == '\r' || c == '\0' {
            let mut m: Vec<char> = Vec::new();
            push_str(&mut m, "invalid package name: contains control char ");
            if c == '\n' {
                push_str(&mut m, "'\\n'");
            } else if c == '\r' {
                push_str(&mut m, "'\\r'");
            } else {
                push_str(&mut m, "'\\0'");
            }
            return Err(GuixError::repl(string_of(&m)));
        }
        i += 1;
    }
    assert(cs@.subrange(cs@.len() as int, cs@.len() as int) =~= Seq::<char>::empty());
    Ok(())
}

/// `s` with `"` and `\` backslash-escaped.
pub open spec fn scheme_escape(s: Seq<char>) -> Seq<char>
    decreases s.len(),
{
    if s.len() == 0 {
        Seq::empty()
    } else {
        let c = s.last();
        scheme_escape(s.drop_last()) + if c == '"' {
            seq!['\\', '"']
        } else if c == '\\' {
            seq!['\\', '\\']
        } else {
            seq![c]
        }
    }
}

/// A Scheme string literal denoting `s`.
pub open spec fn scheme_literal(s: Seq<char>) -> Seq<char> {
    seq!['"'] + scheme_escape(s) + seq!['"']
}

/// Appends the escaped form of `s`.
pub fn push_scheme_escaped(out: &mut Vec<char>, s: &str)
    ensures
        final(out)@ == old(out)@ + scheme_escape(s@),
{
    let cs = chars_of(s);
    let ghost start = out@;
    let mut i: usize = 0;
    while i < cs.len()
        invariant
            i <= cs@.len(),
            cs@ == s@,
            out@ == start + scheme_escape(cs@.subrange(0, i as int)),
        decreases cs@.len() - i,
    {
        let c = cs[i];
        assert(cs@.subrange(0, i + 1).drop_last() =~= cs@.subrange(0, i as int));
        if c == '"' {
            out.push('\\');
            out.push('"');
        } else if c == '\\' {
            out.push('\\');
            out.push('\\');
        } else {
            out.push(c);
        }
        i += 1;
    }
    assert(cs@.subrange(0, cs@.len() as int) =~= cs@);
}

/// A Scheme string literal for `s`.
pub fn scheme_string_literal(s: &str) -> (r: String)
    ensures
        r@ == scheme_literal(s@),
{
    let mut out: Vec<char> = Vec::new();
    out.push('"');
    push_scheme_escaped(&mut out, s);
    out.push('"');
    string_of(&out)
}

/// Literals joined by single spaces.
pub open spec fn join_literals(args: Seq<Seq<char>>) -> Seq<char>
    decreases args.len(),
{
    if args.len() == 0 {
        Seq::empty()
    } else if args.len() == 1 {
        scheme_literal(args[0])
    } else {
        join_literals(args.drop_last()) + " "@ + scheme_literal(args.last())
    }
}

pub open spec fn strs_view(v: Seq<&str>) -> Seq<Seq<char>> {
    v.map_values(|s: &str| s@)
}

/// The full argument list handed to `guix package`: `-p PROFILE` first
/// when a profile is given.
pub open spec fn payload_args(profile: Option<Seq<char>>, argv: Seq<Seq<char>>) -> Seq<Seq<char>> {
    match profile {
        Some(p) => seq!["-p"@, p] + argv,
        None => argv,
    }
}

/// The first invalid argument's error, checking the profile first.
pub open spec fn first_arg_error(args: Seq<Seq<char>>) -> Option<Seq<char>>
    decreases args.len(),
{
    if args.len() == 0 {
        None
    } else {
        match arg_error(args[0]) {
            Some(m) => Some(m),
            None => first_arg_error(args.drop_first()),
        }
    }
}

/// The payload text for a given argument list.
pub open spec fn package_payload_spec(args: Seq<Seq<char>>) -> Seq<char> {
    PACKAGE_PAYLOAD_HEAD@ + join_literals(args) + PACKAGE_PAYLOAD_TAIL@
}

/// The payload for `argv` (after `-p PROFILE` when a profile is given),
/// or the error of the first invalid argument, the profile checked first.
pub open spec fn payload_outcome(pv: Option<Seq<char>>, argv: Seq<Seq<char>>, r: Result<String, GuixError>) -> bool {
    let errs = first_arg_error(match pv { Some(p) => seq![p], None => Seq::empty() } + argv);
    match errs {
        Some(m) => r matches Err(e) && is_repl_error(e, m),
        None => r matches Ok(s) && s@ == package_payload_spec(payload_args(pv, argv)),
    }
}

/// Builds the REPL payload that runs `guix package` with `argv` (and
/// `-p profile`), streaming status events to file descriptor 3. Fails with
/// the first invalid argument, the profile checked first.
pub fn build_package_payload(profile: Option<&str>, argv: &[&str]) -> (r: Result<String, GuixError>)
    ensures
        payload_outcome(match profile { Some(p) => Some(p@), None => None }, strs_view(argv@), r),
{
    let ghost pv = match profile { Some(p) => Some(p@), None => None::<Seq<char>> };
    let ghost checked: Seq<Seq<char>> = match pv { Some(p) => seq![p], None => Seq::empty() } + strs_view(argv@);
    match profile {
        Some(p) => {
            match validate_arg(p) {
                Err(e) => {
                    assert(checked[0] == p@);
                    return Err(e);
                },
                Ok(()) => {},
            }
        },
        None => {},
    }
    let ghost rest_start: int = match pv { Some(_) => 1, None => 0 };
    assert(first_arg_error(checked) == first_arg_error(checked.subrange(rest_start, checked.len() as int))) by {
        if rest_start == 1 {
            assert(checked.drop_first() =~= checked.subrange(1, checked.len() as int));
        } else {
            assert(checked =~= checked.subrange(0, checked.len() as int));
        }
    }
    assert forall|k: int| 0 <= k < argv@.len() implies #[trigger] checked[rest_start + k] == argv@[k]@ by {
        assert(strs_view(argv@)[k] == argv@[k]@);
    }
    let mut i: usize = 0;
    while i < argv.len()
        invariant
            i <= argv@.len(),
            pv == match profile { Some(p) => Some(p@), None => None::<Seq<char>> },
            checked == (match pv { Some(p) => seq![p], None => Seq::<Seq<char>>::empty() }) + strs_view(argv@),
            rest_start == 0 || rest_start == 1,
            checked.len() == rest_start + argv@.len(),
            forall|k: int| 0 <= k < argv@.len() ==> #[trigger] checked[rest_start + k] == argv@[k]@,
            first_arg_error(checked) == first_arg_error(checked.subrange(rest_start + i, checked.len() as int)),
        decreases argv@.len() - i,
    {
        let ghost tail = checked.subrange(rest_start + i, checked.len() as int);
        assert(checked[rest_start + i] == argv@[i as int]@);
        assert(tail.drop_first() =~= checked.subrange(rest_start + i + 1, checked.len() as int));
        assert(tail[0] == argv@[i as int]@);
        match validate_arg(argv[i]) {
            Err(e) => return Err(e),
            Ok(()) => {},
        }
        i += 1;
    }
    assert(checked.subrange(checked.len() as int, checked.len() as int) =~= Seq::<Seq<char>>::empty());
    let ghost args = payload_args(pv, strs_view(argv@));
    assert(args.len() == rest_start * 2 + argv@.len());
    let mut out: Vec<char> = Vec::new();
    push_str(&mut out, PACKAGE_PAYLOAD_HEAD);
    let ghost head = out@;
    let mut n: usize = 0;
    let ghost mut done: Seq<Seq<char>> = Seq::empty();
    assert forall|k: int| 0 <= k < argv@.len() implies #[trigger] args[(rest_start * 2) + k] == argv@[k]@ by {
        assert(strs_view(argv@)[k] == argv@[k]@);
    }
    match profile {
        Some(p) => {
            out.push('"');
            push_scheme_escaped(&mut out, "-p");
            out.push('"');
            push_str(&mut out, " ");
            out.push('"');
            push_scheme_escaped(&mut out, p);
            out.push('"');
            proof {
                done = seq!["-p"@, p@];
                assert(done.drop_last() =~= seq!["-p"@]);
                assert(join_literals(seq!["-p"@]) == scheme_literal("-p"@));
                assert(out@ =~= head + join_literals(done));
            }
            n = 2;
        },
        None => {
            assert(out@ =~= head + join_literals(done));
        },
    }
    let mut j: usize = 0;
    while j < argv.len()
        invariant
            j <= argv@.len(),
            done == args.subrange(0, n + j),
            n == rest_start * 2,
            args.len() == n + argv@.len(),
            forall|k: int| 0 <= k < argv@.len() ==> #[trigger] args[n + k] == argv@[k]@,
            out@ == head + join_literals(done),
        decreases argv@.len() - j,
    {
        let ghost prev = done;
        if n > 0 || j > 0 {
            push_str(&mut out, " ");
        }
        out.push('"');
        push_scheme_escaped(&mut out, argv[j]);
        out.push('"');
        proof {
            done = args.subrange(0, n + j + 1);
            assert(done.drop_last() =~= prev);
            assert(done.last() == argv@[j as int]@);
            if n + j == 0 {
                assert(prev =~= Seq::<Seq<char>>::empty());
            }
            assert(out@ =~= head + join_literals(done));
        }
        j += 1;
    }
    assert(done =~= args);
    push_str(&mut out, PACKAGE_PAYLOAD_TAIL);
    Ok(string_of(&out))
}

/// std's `u64::from_str`: an optional `+`, then at least one ASCII digit,
/// and a value that fits.
pub open spec fn parse_u64_spec(s: Seq<char>) -> Option<u64> {
    let d = if s.len() > 0 && s[0] == '+' { s.drop_first() } else { s };
    if d.len() >= 1 && all_digits(d) && digits_value(d) <= u64::MAX {
        Some(digits_value(d) as u64)
    } else {
        None
    }
}

/// std's `u64::from_str`.
pub fn parse_u64(s: &[char]) -> (r: Option<u64>)
    ensures
        r == parse_u64_spec(s@),
{
    let sl = s.len();
    let d = if sl > 0 && s[0] == '+' {
        let v = crate::text::sub_chars(s, 1, sl);
        assert(v@ =~= s@.drop_first());
        v
    } else {
        crate::text::sub_chars(s, 0, sl)
    };
    assert(s@.subrange(0, s@.len() as int) =~= s@);
    if d.len() == 0 || !are_digits(&d) {
        return None;
    }
    let v = crate::progress_line::digits_saturating(&d);
    if v == u64::MAX {
        // The capped value is exact only when the digits spell u64::MAX.
        return parse_u64_exact_max(&d);
    }
    Some(v)
}

/// Whether a digit run whose capped value is `u64::MAX` spells exactly
/// `u64::MAX`.
fn parse_u64_exact_max(d: &[char]) -> (r: Option<u64>)
    requires
        all_digits(d@),
        d@.len() >= 1,
        digits_value(d@) >= u64::MAX,
    ensures
        r == (if digits_value(d@) <= u64::MAX { Some(u64::MAX) } else { None::<u64> }),
{
    // The value is 10 * prefix + last digit.
    let n = d.len();
    let prefix = crate::text::sub_chars(d, 0, n - 1);
    let last = d[n - 1];
    proof {
        assert(prefix@ =~= d@.drop_last());
        assert forall|i: int| 0 <= i < prefix@.len() implies crate::text::is_ascii_digit(#[trigger] prefix@[i]) by {
            assert(prefix@[i] == d@[i]);
        }
        assert(crate::text::is_ascii_digit(d@[n - 1]));
    }
    let pv = crate::progress_line::digits_saturating(&prefix);
    let ld: u64 = ((last as u32) - ('0' as u32)) as u64;
    // u64::MAX = 10 * 1844674407370955161 + 5.
    if pv == 1844674407370955161 && ld == 5 {
        Some(u64::MAX)
    } else {
        None
    }
}

/// What one status event of the REPL payload means.
pub enum TagOutcome {
    Event(ProgressEventView),
    /// Recognised, and deliberately not surfaced.
    Drop,
    /// Not recognised by its tag: the shadowing check and the pass-through
    /// still apply.
    Continue,
}

/// A string element parsed as a `u64`.
pub open spec fn str_u64(x: Option<SExp>) -> Option<u64> {
    match x {
        Some(v) => match str_of(v) {
            Some(s) => parse_u64_spec(s),
            None => None,
        },
        None => None,
    }
}

/// Dispatch on the event's tag (see `compute-status` in `guix/status.scm`).
pub open spec fn tag_outcome(h: Seq<char>, v: SExp) -> TagOutcome {
    if h == "build-started"@ {
        match str_at(v, 1) {
            Some(d) => TagOutcome::Event(ProgressEventView::BuildStart { drv: d }),
            None => TagOutcome::Continue,
        }
    } else if h == "build-succeeded"@ {
        match str_at(v, 1) {
            Some(d) => TagOutcome::Event(ProgressEventView::BuildDone { drv: d }),
            None => TagOutcome::Continue,
        }
    } else if h == "build-failed"@ {
        match str_at(v, 1) {
            Some(d) => TagOutcome::Event(ProgressEventView::BuildFailed { drv: d, log_path: None }),
            None => TagOutcome::Continue,
        }
    } else if h == "build-log"@ {
        match str_at(v, 2) {
            Some(t) => TagOutcome::Event(ProgressEventView::Line {
                stream: ProgressStream::Stderr,
                text: match strip_suffix_spec(t, "\n"@) {
                    Some(x) => x,
                    None => t,
                },
                redraw: false,
            }),
            None => TagOutcome::Continue,
        }
    } else if h == "download-started"@ {
        match str_at(v, 1) {
            Some(item) => TagOutcome::Event(ProgressEventView::SubstituteDownload {
                item,
                bytes_done: 0,
                bytes_total: if nth_next(v, 2) is Some { str_u64(nth_next(v, 3)) } else { None },
            }),
            None => TagOutcome::Continue,
        }
    } else if h == "download-progress"@ {
        match str_at(v, 1) {
            Some(item) => TagOutcome::Event(ProgressEventView::SubstituteDownload {
                item,
                bytes_done: match str_u64(nth_next(v, 4)) {
                    Some(n) => n,
                    None => 0,
                },
                bytes_total: str_u64(nth_next(v, 3)),
            }),
            None => TagOutcome::Continue,
        }
    } else if h == "download-succeeded"@ {
        match str_at(v, 1) {
            Some(item) => TagOutcome::Event(ProgressEventView::SubstituteDownloadDone {
                item,
                bytes_total: match nth_next(v, 3) {
                    Some(x) => match u64_of(x) {
                        Some(n) => Some(n),
                        None => str_u64(Some(x)),
                    },
                    None => None,
                },
            }),
            None => TagOutcome::Continue,
        }
    } else if h == "substituter-started"@ || h == "substituter-succeeded"@ || h == "done"@ {
        TagOutcome::Drop
    } else if h == "error"@ {
        TagOutcome::Event(ProgressEventView::Line {
            stream: ProgressStream::Stderr,
            text: "error: "@ + match str_at(v, 1) {
                Some(m) => m,
                None => Seq::empty(),
            },
            redraw: false,
        })
    } else {
        TagOutcome::Continue
    }
}

/// An unrecognised event, surfaced as a tagged stderr line.
pub open spec fn fallthrough_spec(line: Seq<char>) -> ProgressEventView {
    ProgressEventView::Line { stream: ProgressStream::Stderr, text: "[repl-op] "@ + line, redraw: false }
}

/// What one line of the event port means.
pub open spec fn parse_event_spec(line: Seq<char>) -> Option<ProgressEventView> {
    match lexpr_read(line) {
        Err(_) => Some(ProgressEventView::Line {
            stream: ProgressStream::Stderr,
            text: "[repl-op] unparsed: "@ + line,
            redraw: false,
        }),
        Ok(v) => event_value_spec(v, line),
    }
}

/// The event a line read as the value `v` decodes to.
pub open spec fn event_value_spec(v: SExp, line: Seq<char>) -> Option<ProgressEventView> {
    if !(v is List) {
        Some(fallthrough_spec(line))
    } else {
        match sym_at(v, 0) {
            None => Some(fallthrough_spec(line)),
            Some(h) => match tag_outcome(h, v) {
                TagOutcome::Event(e) => Some(e),
                TagOutcome::Drop => None,
                TagOutcome::Continue => if channel_shadow_spec(line) {
                    Some(ProgressEventView::KnownBug(KnownBug::ChannelShadow74396))
                } else {
                    Some(fallthrough_spec(line))
                },
            },
        }
    }
}

/// `"[repl-op] " + line` as a stderr line.
pub fn fallthrough(line: &str) -> (e: ProgressEvent)
    ensures
        e@ == fallthrough_spec(line@),
{
    let mut t: Vec<char> = Vec::new();
    push_str(&mut t, "[repl-op] ");
    push_str(&mut t, line);
    ProgressEvent::Line { stream: ProgressStream::Stderr, text: string_of(&t), redraw: false }
}

/// The string held by the `k`-th iterator result, parsed as a `u64`.
fn str_u64_at(v: &SExp, k: usize) -> (r: Option<u64>)
    ensures
        r == str_u64(nth_next(*v, k as int)),
{
    match v.nth(k) {
        Some(x) => match x.as_str() {
            Some(s) => {
                let c = chars_of(s.as_str());
                parse_u64(&c)
            },
            None => None,
        },
        None => None,
    }
}

/// The string held by the `k`-th iterator result.
fn str_at_exec(v: &SExp, k: usize) -> (r: Option<String>)
    ensures
        match r {
            Some(s) => str_at(*v, k as int) == Some(s@),
            None => str_at(*v, k as int) is None,
        },
{
    match v.nth(k) {
        Some(x) => match x.as_str() {
            Some(s) => Some(s.clone()),
            None => None,
        },
        None => None,
    }
}

/// Decodes one line written to the event port. `None` for events that are
/// deliberately not surfaced (substituter start/finish, `done`).
pub fn parse_event_sexp(line: &str) -> (r: Option<ProgressEvent>)
    ensures
        ev_opt(r) == parse_event_spec(line@),
{
    match read_sexp(line) {
        Err(_) => {
            let mut t: Vec<char> = Vec::new();
            push_str(&mut t, "[repl-op] unparsed: ");
            push_str(&mut t, line);
            Some(ProgressEvent::Line { stream: ProgressStream::Stderr, text: string_of(&t), redraw: false })
        },
        Ok(v) => event_from_value(&v, line),
    }
}

/// Decodes the value read from one event-port line (the line itself is
/// what falls through, prefixed, when the value is not a known event).
pub fn event_from_value(v: &SExp, line: &str) -> (r: Option<ProgressEvent>)
    ensures
        ev_opt(r) == event_value_spec(*v, line@),
{
    let is_list = match v {
        SExp::List(_, _) => true,
        _ => false,
    };
    if !is_list {
        return Some(fallthrough(line));
    }
    let h = match v.nth(0) {
        Some(x) => match x.as_symbol() {
            Some(s) => chars_of(s.as_str()),
            None => return Some(fallthrough(line)),
        },
        None => return Some(fallthrough(line)),
    };
    let h = h.as_slice();
    let eq = |lit: &str| -> (b: bool)
        ensures
            b == (h@ == lit@),
    {
        crate::text::eq_str(h, lit)
    };
    if eq("build-started") {
        if let Some(d) = str_at_exec(v, 1) {
            return Some(ProgressEvent::BuildStart { drv: d });
        }
    } else if eq("build-succeeded") {
        if let Some(d) = str_at_exec(v, 1) {
            return Some(ProgressEvent::BuildDone { drv: d });
        }
    } else if eq("build-failed") {
        if let Some(d) = str_at_exec(v, 1) {
            return Some(ProgressEvent::BuildFailed { drv: d, log_path: None });
        }
    } else if eq("build-log") {
        if let Some(t) = str_at_exec(v, 2) {
            let tc = chars_of(t.as_str());
            let text = match strip_suffix_str(&tc, "\n") {
                Some(x) => string_of(&x),
                None => t,
            };
            return Some(ProgressEvent::Line { stream: ProgressStream::Stderr, text, redraw: false });
        }
    } else if eq("download-started") {
        if let Some(item) = str_at_exec(v, 1) {
            let total = if v.nth(2).is_some() { str_u64_at(v, 3) } else { None };
            return Some(ProgressEvent::SubstituteDownload { item, bytes_done: 0, bytes_total: total });
        }
    } else if eq("download-progress") {
        if let Some(item) = str_at_exec(v, 1) {
            let total = str_u64_at(v, 3);
            let done = match str_u64_at(v, 4) {
                Some(n) => n,
                None => 0,
            };
            return Some(ProgressEvent::SubstituteDownload { item, bytes_done: done, bytes_total: total });
        }
    } else if eq("download-succeeded") {
        if let Some(item) = str_at_exec(v, 1) {
            let total = match v.nth(3) {
                Some(x) => match x.as_u64() {
                    Some(n) => Some(n),
                    None => str_u64_at(v, 3),
                },
                None => None,
            };
            return Some(ProgressEvent::SubstituteDownloadDone { item, bytes_total: total });
        }
    } else if eq("substituter-started") || eq("substituter-succeeded") || eq("done") {
        return None;
    } else if eq("error") {
        let mut t: Vec<char> = Vec::new();
        push_str(&mut t, "error: ");
        if let Some(m) = str_at_exec(v, 1) {
            push_str(&mut t, m.as_str());
        } else {
            assert(t@ + Seq::<char>::empty() =~= t@);
        }
        return Some(ProgressEvent::Line { stream: ProgressStream::Stderr, text: string_of(&t), redraw: false });
    }
    let lc = chars_of(line);
    if is_channel_shadow_line(&lc) {
        return Some(ProgressEvent::KnownBug(KnownBug::ChannelShadow74396));
    }
    Some(fallthrough(line))
}

} // verus!
