//! The pure half of the long-lived `guix repl -t machine` actor: the
//! expression wrapper that isolates each evaluation, the reply-frame
//! classifier, the per-request frame loop's decisions, and the bounded
//! stderr ring kept for triage.

use vstd::prelude::*;
use crate::text::{chars_of, string_of, push_str, push_chars};
use crate::sexp::{SExp, nth_next, symbol_of, str_of, read_sexp, lexpr_read, lemma_nth_next};
use crate::lines::{utf8_lossy, decode_lossy};
use vstd::string::StringSliceAdditionalSpecFns;

verus! {

/// How the ring bounds itself: the most recent 64 KiB are kept.
pub const STDERR_RING_BYTES: usize = 65536;

/// Where an evaluation runs.
#[derive(Clone, Copy, Debug, PartialEq, Eq, Structural)]
pub enum EvalMode {
    /// A fresh `(make-module)` per request: no state leaks across evals.
    Fresh,
    /// The persistent `libguix-rs` namespace, whose helpers are primed
    /// once at start-up.
    Persistent,
}

/// The last `n` elements of `s` (all of `s` if shorter).
pub open spec fn keep_last(s: Seq<u8>, n: nat) -> Seq<u8> {
    if s.len() > n {
        s.subrange(s.len() - n, s.len() as int)
    } else {
        s
    }
}

/// A byte ring holding the most recent `STDERR_RING_BYTES` bytes written
/// to it.
pub struct StderrRing {
    buf: Vec<u8>,
}

impl StderrRing {
    /// The bytes currently held, oldest first.
    pub closed spec fn contents(&self) -> Seq<u8> {
        self.buf@
    }

    pub fn new() -> (r: Self)
        ensures
            r.contents() == Seq::<u8>::empty(),
    {
        StderrRing { buf: Vec::new() }
    }

    /// Appends `bytes`, then drops the oldest bytes beyond the cap.
    pub fn push(&mut self, bytes: &[u8])
        ensures
            final(self).contents() == keep_last(old(self).contents() + bytes@, STDERR_RING_BYTES as nat),
            final(self).contents().len() <= STDERR_RING_BYTES,
    {
        let mut i: usize = 0;
        let ghost start = self.buf@;
        while i < bytes.len()
            invariant
                i <= bytes@.len(),
                self.buf@ == start + bytes@.subrange(0, i as int),
            decreases bytes@.len() - i,
        {
            self.buf.push(bytes[i]);
            assert(bytes@.subrange(0, i + 1) == bytes@.subrange(0, i as int).push(bytes@[i as int]));
            i += 1;
        }
        assert(bytes@.subrange(0, bytes@.len() as int) =~= bytes@);
        let n = self.buf.len();
        if n > STDERR_RING_BYTES {
            let drop_n = n - STDERR_RING_BYTES;
            let mut kept: Vec<u8> = Vec::new();
            let mut j: usize = drop_n;
            while j < n
                invariant
                    drop_n <= j <= n,
                    n == self.buf@.len(),
                    kept@ == self.buf@.subrange(drop_n as int, j as int),
                decreases n - j,
            {
                kept.push(self.buf[j]);
                assert(self.buf@.subrange(drop_n as int, j + 1) == self.buf@.subrange(drop_n as int, j as int).push(self.buf@[j as int]));
                j += 1;
            }
            self.buf = kept;
        }
    }

    /// Appends one line of text.
    pub fn push_line(&mut self, line: &str)
        ensures
            final(self).contents() == keep_last(old(self).contents() + line.spec_bytes(), STDERR_RING_BYTES as nat),
    {
        self.push(line.as_bytes());
    }

    /// The held bytes as text, invalid UTF-8 replaced.
    pub fn snapshot(&self) -> (s: String)
        ensures
            s@ == utf8_lossy(self.contents()),
    {
        decode_lossy(self.buf.as_slice())
    }

    /// The number of bytes held.
    pub fn len(&self) -> (n: usize)
        ensures
            n == self.contents().len(),
    {
        self.buf.len()
    }
}

/// Paren balance as a scan: depth and string/escape state after a prefix,
/// `false` as soon as a `)` closes more than was opened.
pub open spec fn parens_scan(s: Seq<char>, depth: nat, in_string: bool, escape: bool) -> bool
    decreases s.len(),
{
    if s.len() == 0 {
        !in_string && depth == 0
    } else {
        let c = s[0];
        let rest = s.drop_first();
        if in_string {
            if escape {
                parens_scan(rest, depth, true, false)
            } else if c == '\\' {
                parens_scan(rest, depth, true, true)
            } else if c == '"' {
                parens_scan(rest, depth, false, false)
            } else {
                parens_scan(rest, depth, true, false)
            }
        } else if c == '"' {
            parens_scan(rest, depth, true, false)
        } else if c == '(' {
            parens_scan(rest, depth + 1, false, false)
        } else if c == ')' {
            if depth == 0 {
                false
            } else {
                parens_scan(rest, (depth - 1) as nat, false, false)
            }
        } else {
            parens_scan(rest, depth, false, false)
        }
    }
}

/// Whether `(` and `)` balance outside string literals (with `\` escapes
/// inside strings) and no string is left open.
pub open spec fn parens_balanced_spec(s: Seq<char>) -> bool {
    parens_scan(s, 0, false, false)
}

/// A coarse sanity check for `wrap_expr` input.
pub fn scheme_parens_balanced(s: &str) -> (r: bool)
    ensures
        r == parens_balanced_spec(s@),
{
    let cs = chars_of(s);
    let mut depth: usize = 0;
    let mut in_string = false;
    let mut escape = false;
    let mut i: usize = 0;
    assert(cs@.subrange(0, cs@.len() as int) =~= cs@);
    while i < cs.len()
        invariant
            i <= cs@.len(),
            cs@ == s@,
            depth <= i,
            !in_string ==> !escape,
            parens_balanced_spec(s@) == parens_scan(cs@.subrange(i as int, cs@.len() as int), depth as nat, in_string, escape),
        decreases cs@.len() - i,
    {
        let c = cs[i];
        assert(cs@.subrange(i as int, cs@.len() as int).drop_first() =~= cs@.subrange(i + 1, cs@.len() as int));
        assert(cs@.subrange(i as int, cs@.len() as int)[0] == c);
        if in_string {
            if escape {
                escape = false;
            } else if c == '\\' {
                escape = true;
            } else if c == '"' {
                in_string = false;
            }
        } else if c == '"' {
            in_string = true;
        } else if c == '(' {
            depth = depth + 1;
        } else if c == ')' {
            if depth == 0 {
                return false;
            }
            depth = depth - 1;
        }
        i += 1;
    }
    assert(cs@.subrange(cs@.len() as int, cs@.len() as int) =~= Seq::<char>::empty());
    !in_string && depth == 0
}

/// The module expression an evaluation runs in.
pub open spec fn module_expr_spec(mode: EvalMode) -> Seq<char> {
    match mode {
        EvalMode::Fresh => "(let ((mod (make-module))) (beautify-user-module! mod) mod)"@,
        EvalMode::Persistent => "%libguix-rs-module"@,
    }
}

/// `modules` joined by single spaces.
pub open spec fn join_spaces(modules: Seq<Seq<char>>) -> Seq<char>
    decreases modules.len(),
{
    if modules.len() == 0 {
        Seq::empty()
    } else if modules.len() == 1 {
        modules[0]
    } else {
        join_spaces(modules.drop_last()) + " "@ + modules.last()
    }
}

/// The `module-use!` preamble importing `modules` (empty when none).
pub open spec fn imports_spec(modules: Seq<Seq<char>>) -> Seq<char> {
    if modules.len() == 0 {
        Seq::empty()
    } else {
        "(for-each (lambda (iface) (module-use! m (resolve-interface iface))) '("@
            + join_spaces(modules) + "))"@
    }
}

/// The wrapped evaluation: `form` is quoted and evaluated in the chosen
/// module, inside an exception handler that turns errors into
/// `(exception "...")`, with a dynamic-wind raising the in-eval flag that
/// gates SIGINT for exactly the duration of the eval.
pub open spec fn wrap_expr_spec(mode: EvalMode, modules: Seq<Seq<char>>, form: Seq<char>) -> Seq<char> {
    "(let ((m "@ + module_expr_spec(mode) + ")) "@ + imports_spec(modules)
        + " (with-exception-handler (lambda (e) (list 'exception (object->string e))) (lambda () (dynamic-wind (lambda () (set! %guix-rs-in-eval? #t)) (lambda () (eval '"@
        + form + " m)) (lambda () (set! %guix-rs-in-eval? #f)))) #:unwind? #t))"@
}

pub open spec fn strings_of(v: Seq<String>) -> Seq<Seq<char>> {
    v.map_values(|s: String| s@)
}

/// Wraps `form` for one isolated evaluation. `form` is spliced in verbatim:
/// callers escape interpolated strings themselves.
pub fn wrap_expr(mode: EvalMode, modules: &[String], form: &str) -> (r: String)
    ensures
        r@ == wrap_expr_spec(mode, strings_of(modules@), form@),
{
    let mut out: Vec<char> = Vec::new();
    push_str(&mut out, "(let ((m ");
    match mode {
        EvalMode::Fresh => push_str(&mut out, "(let ((mod (make-module))) (beautify-user-module! mod) mod)"),
        EvalMode::Persistent => push_str(&mut out, "%libguix-rs-module"),
    }
    push_str(&mut out, ")) ");
    let ghost before_imports = out@;
    if modules.len() > 0 {
        push_str(&mut out, "(for-each (lambda (iface) (module-use! m (resolve-interface iface))) '(");
        let ghost pre = out@;
        let mut i: usize = 0;
        while i < modules.len()
            invariant
                i <= modules@.len(),
                out@ == pre + join_spaces(strings_of(modules@).subrange(0, i as int)),
            decreases modules@.len() - i,
        {
            let ghost prev = out@;
            if i > 0 {
                push_str(&mut out, " ");
            }
            let m = chars_of(modules[i].as_str());
            push_chars(&mut out, &m);
            proof {
                let ms = strings_of(modules@);
                let sub = ms.subrange(0, i + 1);
                assert(sub.drop_last() =~= ms.subrange(0, i as int));
                assert(sub.last() == modules@[i as int]@);
                if i == 0 {
                    assert(join_spaces(sub) == modules@[0]@);
                    assert(join_spaces(ms.subrange(0, 0)) =~= Seq::<char>::empty());
                }
                assert(out@ =~= pre + join_spaces(sub));
            }
            i += 1;
        }
        push_str(&mut out, "))");
        assert(strings_of(modules@).subrange(0, modules@.len() as int) =~= strings_of(modules@));
    }
    assert(out@ =~= before_imports + imports_spec(strings_of(modules@)));
    push_str(&mut out, " (with-exception-handler (lambda (e) (list 'exception (object->string e))) (lambda () (dynamic-wind (lambda () (set! %guix-rs-in-eval? #t)) (lambda () (eval '");
    push_str(&mut out, form);
    push_str(&mut out, " m)) (lambda () (set! %guix-rs-in-eval? #f)))) #:unwind? #t))");
    string_of(&out)
}

/// How one reply frame of the machine REPL is to be read.
#[derive(Debug)]
pub enum FrameKind {
    /// `(repl-version ...)`, printed once at start-up.
    Banner,
    /// `(values (non-self-quoting ...))`: a value with no readable form.
    NonSelfQuoting,
    /// `(values)` or `(values (value))`.
    Empty,
    Value(SExp),
    Exception(String),
    Unknown,
}

/// `FrameKind` with its message as characters.
pub enum FrameKindView {
    Banner,
    NonSelfQuoting,
    Empty,
    Value(SExp),
    Exception(Seq<char>),
    Unknown,
}

impl View for FrameKind {
    type V = FrameKindView;

    open spec fn view(&self) -> FrameKindView {
        match self {
            FrameKind::Banner => FrameKindView::Banner,
            FrameKind::NonSelfQuoting => FrameKindView::NonSelfQuoting,
            FrameKind::Empty => FrameKindView::Empty,
            FrameKind::Value(v) => FrameKindView::Value(*v),
            FrameKind::Exception(s) => FrameKindView::Exception(s@),
            FrameKind::Unknown => FrameKindView::Unknown,
        }
    }
}

/// The symbol yielded by the `k`-th `next()` on `v`'s list iterator.
pub open spec fn sym_at(v: SExp, k: int) -> Option<Seq<char>> {
    match nth_next(v, k) {
        Some(x) => symbol_of(x),
        None => None,
    }
}

/// The string yielded by the `k`-th `next()` on `v`'s list iterator.
pub open spec fn str_at(v: SExp, k: int) -> Option<Seq<char>> {
    match nth_next(v, k) {
        Some(x) => str_of(x),
        None => None,
    }
}

/// An exception's message, or `<no message>`.
pub open spec fn exception_message(v: SExp) -> Seq<char> {
    match str_at(v, 1) {
        Some(m) => m,
        None => "<no message>"@,
    }
}

/// The classification of a reply frame.
pub open spec fn classify_spec(v: SExp) -> FrameKindView {
    if !(v is List) {
        FrameKindView::Unknown
    } else {
        match sym_at(v, 0) {
            None => FrameKindView::Unknown,
            Some(h) => if h == "repl-version"@ {
                FrameKindView::Banner
            } else if h == "values"@ {
                match nth_next(v, 1) {
                    None => FrameKindView::Empty,
                    Some(inner) => if !(inner is List) {
                        FrameKindView::Unknown
                    } else if sym_at(inner, 0) == Some("value"@) {
                        match nth_next(inner, 1) {
                            None => FrameKindView::Empty,
                            Some(payload) => if payload is List && sym_at(payload, 0) == Some("exception"@) {
                                FrameKindView::Exception(exception_message(payload))
                            } else {
                                FrameKindView::Value(payload)
                            },
                        }
                    } else if sym_at(inner, 0) == Some("non-self-quoting"@) {
                        FrameKindView::NonSelfQuoting
                    } else {
                        FrameKindView::Unknown
                    },
                }
            } else if h == "exception"@ {
                FrameKindView::Exception(exception_message(v))
            } else {
                FrameKindView::Unknown
            },
        }
    }
}

/// Whether the first element of list `v` is the symbol `name`.
fn head_is(v: &SExp, name: &str) -> (r: bool)
    ensures
        r == (v is List && sym_at(*v, 0) == Some(name@)),
{
    match v {
        SExp::List(items, _) => {
            proof { lemma_nth_next(*v, 0); }
            if items.len() == 0 {
                return false;
            }
            match &items[0] {
                SExp::Symbol(s) => {
                    let c = chars_of(s.as_str());
                    crate::text::eq_str(&c, name)
                },
                _ => false,
            }
        },
        _ => false,
    }
}

/// The message of an `(exception "...")` list.
fn exception_text(v: &SExp) -> (r: String)
    requires
        v is List,
        sym_at(*v, 0) is Some,
    ensures
        r@ == exception_message(*v),
{
    match v {
        SExp::List(items, _) => {
            proof {
                lemma_nth_next(*v, 0);
                lemma_nth_next(*v, 1);
            }
            if items.len() >= 2 {
                match &items[1] {
                    SExp::Str(s) => return s.clone(),
                    _ => {},
                }
            }
            String::from_str("<no message>")
        },
        _ => String::from_str("<no message>"),
    }
}

/// Classifies one parsed reply frame, taking the payload out of it.
pub fn classify(v: SExp) -> (r: FrameKind)
    ensures
        r@ == classify_spec(v),
{
    let ghost v0 = v;
    proof {
        reveal_strlit("values");
        reveal_strlit("repl-version");
        reveal_strlit("exception");
    }
    let is_list = match &v {
        SExp::List(_, _) => true,
        _ => false,
    };
    if !is_list {
        return FrameKind::Unknown;
    }
    if head_is(&v, "repl-version") {
        return FrameKind::Banner;
    }
    if head_is(&v, "exception") {
        let m = exception_text(&v);
        assert(sym_at(v, 0) == Some("exception"@));
        assert("exception"@.len() != "values"@.len());
        assert("exception"@.len() != "repl-version"@.len());
        return FrameKind::Exception(m);
    }
    if !head_is(&v, "values") {
        return FrameKind::Unknown;
    }
    match v {
        SExp::List(mut items, _tail) => {
            if items.len() < 2 {
                return FrameKind::Empty;
            }
            let inner = items.remove(1);
            assert(nth_next(v0, 1) == Some(inner));
            let inner_list = match &inner {
                SExp::List(_, _) => true,
                _ => false,
            };
            if !inner_list {
                return FrameKind::Unknown;
            }
            if head_is(&inner, "value") {
                match inner {
                    SExp::List(mut in_items, _t) => {
                        if in_items.len() < 2 {
                            return FrameKind::Empty;
                        }
                        let payload = in_items.remove(1);
                        if head_is(&payload, "exception") {
                            return FrameKind::Exception(exception_text(&payload));
                        }
                        FrameKind::Value(payload)
                    },
                    _ => FrameKind::Unknown,
                }
            } else if head_is(&inner, "non-self-quoting") {
                FrameKind::NonSelfQuoting
            } else {
                FrameKind::Unknown
            }
        },
        _ => FrameKind::Unknown,
    }
}

/// How many frames one request may see before its reply is given up on.
pub const MAX_REPLY_FRAMES: u32 = 128;

/// What std's `{:?}` prints for a string (quoted, with escapes).
pub uninterp spec fn debug_quoted(s: Seq<char>) -> Seq<char>;

/// `format!("{:?}", s)`; the text is named after `s` alone.
#[verifier::external_body]
pub(crate) fn debug_str(s: &str) -> (r: String)
    ensures
        r@ == debug_quoted(s@),
{
    format!("{s:?}")
}

/// What to do with one frame received while waiting for a reply.
#[derive(Debug)]
pub enum FrameStep {
    /// Not the reply (banner, or a frame of unknown shape): keep waiting.
    Skip,
    /// The reply carries no value: `()`.
    Null,
    Value(SExp),
    /// The request failed with this message.
    Fail(String),
}

pub enum FrameStepView {
    Skip,
    Null,
    Value(SExp),
    Fail(Seq<char>),
}

impl View for FrameStep {
    type V = FrameStepView;

    open spec fn view(&self) -> FrameStepView {
        match self {
            FrameStep::Skip => FrameStepView::Skip,
            FrameStep::Null => FrameStepView::Null,
            FrameStep::Value(v) => FrameStepView::Value(*v),
            FrameStep::Fail(m) => FrameStepView::Fail(m@),
        }
    }
}

/// The decision for the `waited + 1`-th frame of a request.
pub open spec fn on_frame_spec(waited: u32, frame: Seq<char>) -> (u32, FrameStepView) {
    let w = (waited + 1) as u32;
    if w > MAX_REPLY_FRAMES {
        (w, FrameStepView::Fail("too many frames waiting for reply"@))
    } else {
        match lexpr_read(frame) {
            Err(e) => (w, FrameStepView::Fail("frame parse: "@ + e@ + "; raw: "@ + debug_quoted(frame))),
            Ok(v) => (w, frame_step_spec(v)),
        }
    }
}

/// The decision for a frame read as the value `v`.
pub open spec fn frame_step_spec(v: SExp) -> FrameStepView {
    match classify_spec(v) {
        FrameKindView::Banner => FrameStepView::Skip,
        FrameKindView::Unknown => FrameStepView::Skip,
        FrameKindView::NonSelfQuoting => FrameStepView::Null,
        FrameKindView::Empty => FrameStepView::Null,
        FrameKindView::Value(p) => FrameStepView::Value(p),
        FrameKindView::Exception(m) => FrameStepView::Fail("guile exception: "@ + m),
    }
}

/// Decides on a frame read as the value `v`: a banner or an unknown shape
/// is skipped, an empty or unprintable reply is `()`, an exception fails.
pub fn frame_step(v: SExp) -> (r: FrameStep)
    ensures
        r@ == frame_step_spec(v),
{
    let k = classify(v);
    match k {
        FrameKind::Banner => FrameStep::Skip,
        FrameKind::Unknown => FrameStep::Skip,
        FrameKind::NonSelfQuoting => FrameStep::Null,
        FrameKind::Empty => FrameStep::Null,
        FrameKind::Value(p) => FrameStep::Value(p),
        FrameKind::Exception(s) => {
            let mut m: Vec<char> = Vec::new();
            push_str(&mut m, "guile exception: ");
            push_str(&mut m, s.as_str());
            FrameStep::Fail(string_of(&m))
        },
    }
}

/// One frame of the per-request loop: counts it, parses it and decides.
pub fn on_frame(waited: u32, frame: &str) -> (r: (u32, FrameStep))
    requires
        waited <= MAX_REPLY_FRAMES,
    ensures
        (r.0, r.1@) == on_frame_spec(waited, frame@),
{
    let w = waited + 1;
    if w > MAX_REPLY_FRAMES {
        return (w, FrameStep::Fail(String::from_str("too many frames waiting for reply")));
    }
    match read_sexp(frame) {
        Err(e) => {
            let mut m: Vec<char> = Vec::new();
            push_str(&mut m, "frame parse: ");
            push_str(&mut m, e.as_str());
            push_str(&mut m, "; raw: ");
            let d = debug_str(frame);
            push_str(&mut m, d.as_str());
            (w, FrameStep::Fail(string_of(&m)))
        },
        Ok(v) => (w, frame_step(v)),
    }
}

} // verus!
