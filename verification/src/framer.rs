//! Paren-depth framer for `guix repl -t machine` output. Splitting on
//! `\n` is wrong because guix pretty-prints values over several lines, so
//! frames are cut where a top-level form's parenthesis closes, ignoring
//! parentheses inside strings, character literals and comments.

use vstd::prelude::*;
use crate::text::{is_alphabetic, char_is_alphabetic, trim_spec, trim_chars, string_of, chars_of};
use vstd::std_specs::iter::IteratorSpec;

verus! {

/// The framer's state as a value: nesting depth, the lexical mode flags,
/// the characters of the form being collected, and whether a `(` opened it.
pub struct FramerModel {
    pub depth: nat,
    pub in_string: bool,
    pub string_escape: bool,
    pub in_char_first: bool,
    pub in_char_name: bool,
    pub in_line_comment: bool,
    pub in_block_comment: bool,
    pub block_pending_pipe: bool,
    pub pending_hash: bool,
    pub buf: Seq<char>,
    pub started: bool,
}

/// The initial state: depth 0, no mode, nothing collected.
pub open spec fn framer_init() -> FramerModel {
    FramerModel {
        depth: 0,
        in_string: false,
        string_escape: false,
        in_char_first: false,
        in_char_name: false,
        in_line_comment: false,
        in_block_comment: false,
        block_pending_pipe: false,
        pending_hash: false,
        buf: Seq::empty(),
        started: false,
    }
}

/// The structural scan after the lexical modes have let `c` through:
/// quotes open strings, `;` a line comment, `#` a pending hash, `(` and
/// `)` move the depth, and the `)` that returns a started form to depth 0
/// emits the trimmed form and empties the buffer.
pub open spec fn scan_structural(m: FramerModel, c: char) -> (FramerModel, Option<Seq<char>>) {
    if c == '"' {
        (FramerModel { in_string: true, ..m }, None)
    } else if c == ';' {
        (FramerModel { in_line_comment: true, ..m }, None)
    } else if c == '#' {
        (FramerModel { pending_hash: true, ..m }, None)
    } else if c == '(' {
        (FramerModel { depth: m.depth + 1, started: true, ..m }, None)
    } else if c == ')' {
        let d: nat = if m.depth > 0 { (m.depth - 1) as nat } else { 0 };
        if d == 0 && m.started {
            (FramerModel { depth: d, started: false, buf: Seq::empty(), ..m }, Some(trim_spec(m.buf)))
        } else {
            (FramerModel { depth: d, ..m }, None)
        }
    } else {
        (m, None)
    }
}

/// One character through the framer. `m.buf` already holds `c` here.
pub open spec fn scan_char(m: FramerModel, c: char) -> (FramerModel, Option<Seq<char>>) {
    if m.in_line_comment {
        (FramerModel { in_line_comment: c != '\n', ..m }, None)
    } else if m.in_block_comment {
        if m.block_pending_pipe && c == '#' {
            (FramerModel { in_block_comment: false, block_pending_pipe: false, ..m }, None)
        } else {
            (FramerModel { block_pending_pipe: c == '|', ..m }, None)
        }
    } else if m.in_string {
        if m.string_escape {
            (FramerModel { string_escape: false, ..m }, None)
        } else if c == '\\' {
            (FramerModel { string_escape: true, ..m }, None)
        } else if c == '"' {
            (FramerModel { in_string: false, ..m }, None)
        } else {
            (m, None)
        }
    } else if m.in_char_first {
        (FramerModel { in_char_first: false, in_char_name: is_alphabetic(c), ..m }, None)
    } else if m.in_char_name && (is_alphabetic(c) || c == '-') {
        (m, None)
    } else {
        let m1 = FramerModel { in_char_name: false, ..m };
        if m1.pending_hash {
            let m2 = FramerModel { pending_hash: false, ..m1 };
            if c == '|' {
                (FramerModel { in_block_comment: true, ..m2 }, None)
            } else if c == '\\' {
                (FramerModel { in_char_first: true, ..m2 }, None)
            } else {
                scan_structural(m2, c)
            }
        } else {
            scan_structural(m1, c)
        }
    }
}

/// Feeding one character: it joins the buffer, then is scanned.
pub open spec fn framer_step(m: FramerModel, c: char) -> (FramerModel, Option<Seq<char>>) {
    scan_char(FramerModel { buf: m.buf.push(c), ..m }, c)
}

pub open spec fn opt_frames(o: Option<Seq<char>>) -> Seq<Seq<char>> {
    match o {
        Some(f) => seq![f],
        None => Seq::empty(),
    }
}

/// Feeding a chunk: the state after its last character and the frames
/// emitted, in order.
pub open spec fn framer_feed_spec(m: FramerModel, chunk: Seq<char>) -> (FramerModel, Seq<Seq<char>>)
    decreases chunk.len(),
{
    if chunk.len() == 0 {
        (m, Seq::empty())
    } else {
        let r1 = framer_step(m, chunk[0]);
        let r = framer_feed_spec(r1.0, chunk.drop_first());
        (r.0, opt_frames(r1.1) + r.1)
    }
}

/// Chunk boundaries do not matter: feeding `a` then `b` ends in the same
/// state, with the same frames in the same order, as feeding `a + b` at once.
pub proof fn lemma_framer_feed_concat(m: FramerModel, a: Seq<char>, b: Seq<char>)
    ensures
        framer_feed_spec(m, a + b) == ({
            let ra = framer_feed_spec(m, a);
            let rb = framer_feed_spec(ra.0, b);
            (rb.0, ra.1 + rb.1)
        }),
    decreases a.len(),
{
    if a.len() == 0 {
        assert(a + b =~= b);
        let rb = framer_feed_spec(m, b);
        assert(Seq::<Seq<char>>::empty() + rb.1 =~= rb.1);
    } else {
        let r1 = framer_step(m, a[0]);
        assert((a + b).drop_first() =~= a.drop_first() + b);
        assert((a + b)[0] == a[0]);
        lemma_framer_feed_concat(r1.0, a.drop_first(), b);
        let ra = framer_feed_spec(r1.0, a.drop_first());
        let rb = framer_feed_spec(ra.0, b);
        assert(opt_frames(r1.1) + (ra.1 + rb.1) =~= (opt_frames(r1.1) + ra.1) + rb.1);
    }
}

pub open spec fn strings_view(v: Seq<String>) -> Seq<Seq<char>> {
    v.map_values(|s: String| s@)
}

/// Paren-depth framer over the machine REPL's stdout.
pub struct Framer {
    depth: usize,
    in_string: bool,
    string_escape: bool,
    in_char_first: bool,
    in_char_name: bool,
    in_line_comment: bool,
    in_block_comment: bool,
    block_pending_pipe: bool,
    pending_hash: bool,
    buf: Vec<char>,
    started: bool,
}

impl View for Framer {
    type V = FramerModel;

    closed spec fn view(&self) -> FramerModel {
        FramerModel {
            depth: self.depth as nat,
            in_string: self.in_string,
            string_escape: self.string_escape,
            in_char_first: self.in_char_first,
            in_char_name: self.in_char_name,
            in_line_comment: self.in_line_comment,
            in_block_comment: self.in_block_comment,
            block_pending_pipe: self.block_pending_pipe,
            pending_hash: self.pending_hash,
            buf: self.buf@,
            started: self.started,
        }
    }
}

impl Framer {
    /// The depth never exceeds the number of buffered characters, so it
    /// always fits in a `usize`.
    pub closed spec fn wf(&self) -> bool {
        self.depth <= self.buf@.len()
    }

    pub fn new() -> (f: Self)
        ensures
            f.wf(),
            f@ == framer_init(),
    {
        Framer {
            depth: 0,
            in_string: false,
            string_escape: false,
            in_char_first: false,
            in_char_name: false,
            in_line_comment: false,
            in_block_comment: false,
            block_pending_pipe: false,
            pending_hash: false,
            buf: Vec::new(),
            started: false,
        }
    }

    fn structural(&mut self, c: char, out: &mut Vec<String>)
        requires
            old(self).depth < old(self).buf@.len(),
        ensures
            final(self).wf(),
            final(self)@ == scan_structural(old(self)@, c).0,
            strings_view(final(out)@) == strings_view(old(out)@) + opt_frames(scan_structural(old(self)@, c).1),
    {
        let ghost o0 = out@;
        assert(strings_view(o0) + Seq::<Seq<char>>::empty() =~= strings_view(o0));
        if c == '"' {
            self.in_string = true;
        } else if c == ';' {
            self.in_line_comment = true;
        } else if c == '#' {
            self.pending_hash = true;
        } else if c == '(' {
            let n = self.buf.len();
            assert(self.depth < n);
            self.depth = self.depth + 1;
            self.started = true;
        } else if c == ')' {
            if self.depth > 0 {
                self.depth = self.depth - 1;
            }
            if self.depth == 0 && self.started {
                let t = trim_chars(&self.buf);
                out.push(string_of(&t));
                self.buf = Vec::new();
                self.started = false;
                assert(strings_view(out@) =~= strings_view(o0) + seq![t@]);
            }
        }
    }

    fn step(&mut self, c: char, out: &mut Vec<String>)
        requires
            old(self).wf(),
        ensures
            final(self).wf(),
            final(self)@ == framer_step(old(self)@, c).0,
            strings_view(final(out)@) == strings_view(old(out)@) + opt_frames(framer_step(old(self)@, c).1),
    {
        let ghost o0 = out@;
        self.buf.push(c);
        assert(strings_view(out@) =~= strings_view(o0) + Seq::<Seq<char>>::empty());
        if self.in_line_comment {
            if c == '\n' {
                self.in_line_comment = false;
            }
            return;
        }
        if self.in_block_comment {
            if self.block_pending_pipe && c == '#' {
                self.in_block_comment = false;
                self.block_pending_pipe = false;
            } else {
                self.block_pending_pipe = c == '|';
            }
            return;
        }
        if self.in_string {
            if self.string_escape {
                self.string_escape = false;
            } else if c == '\\' {
                self.string_escape = true;
            } else if c == '"' {
                self.in_string = false;
            }
            return;
        }
        if self.in_char_first {
            self.in_char_first = false;
            self.in_char_name = char_is_alphabetic(c);
            return;
        }
        if self.in_char_name {
            if char_is_alphabetic(c) || c == '-' {
                return;
            }
            self.in_char_name = false;
        }
        if self.pending_hash {
            self.pending_hash = false;
            if c == '|' {
                self.in_block_comment = true;
                return;
            }
            if c == '\\' {
                self.in_char_first = true;
                return;
            }
        }
        self.structural(c, out);
    }

    /// Feeds a chunk; every completed top-level form is appended to `out`,
    /// trimmed.
    pub fn feed(&mut self, chunk: &str, out: &mut Vec<String>)
        requires
            old(self).wf(),
        ensures
            final(self).wf(),
            final(self)@ == framer_feed_spec(old(self)@, chunk@).0,
            strings_view(final(out)@) == strings_view(old(out)@) + framer_feed_spec(old(self)@, chunk@).1,
    {
        let cs = chars_of(chunk);
        let ghost m0 = self@;
        let ghost out0 = strings_view(out@);
        let mut i: usize = 0;
        proof {
            assert(cs@.subrange(0, cs@.len() as int) =~= cs@);
            let r = framer_feed_spec(m0, cs@);
            assert(Seq::<Seq<char>>::empty() + r.1 =~= r.1);
            assert(strings_view(out@) =~= out0 + Seq::<Seq<char>>::empty());
        }
        while i < cs.len()
            invariant
                i <= cs@.len(),
                cs@ == chunk@,
                self.wf(),
                framer_feed_spec(m0, cs@) == ({
                    let r = framer_feed_spec(self@, cs@.subrange(i as int, cs@.len() as int));
                    (r.0, strings_view(out@).subrange(out0.len() as int, strings_view(out@).len() as int) + r.1)
                }),
                strings_view(out@).subrange(0, out0.len() as int) == out0,
                out0.len() <= strings_view(out@).len(),
            decreases cs@.len() - i,
        {
            let ghost prev = strings_view(out@);
            let ghost ms = self@;
            assert(cs@.subrange(i as int, cs@.len() as int).drop_first() =~= cs@.subrange(i + 1, cs@.len() as int));
            assert(cs@.subrange(i as int, cs@.len() as int)[0] == cs@[i as int]);
            self.step(cs[i], out);
            proof {
                let now = strings_view(out@);
                assert(now.subrange(0, out0.len() as int) =~= out0) by {
                    assert(now.subrange(0, prev.len() as int) =~= prev);
                    assert(prev.subrange(0, out0.len() as int) =~= out0);
                }
                assert(now.subrange(out0.len() as int, now.len() as int)
                    =~= prev.subrange(out0.len() as int, prev.len() as int) + opt_frames(framer_step(ms, cs@[i as int]).1));
            }
            i += 1;
        }
        proof {
            let now = strings_view(out@);
            assert(cs@.subrange(cs@.len() as int, cs@.len() as int) =~= Seq::<char>::empty());
            assert(now =~= now.subrange(0, out0.len() as int) + now.subrange(out0.len() as int, now.len() as int));
        }
    }

    /// At a frame boundary: depth 0 and no string, character literal,
    /// block comment or pending `#` open.
    pub fn at_boundary(&self) -> (r: bool)
        ensures
            r == (self@.depth == 0 && !self@.in_string && !self@.in_char_first
                && !self@.in_char_name && !self@.in_block_comment && !self@.pending_hash),
    {
        self.depth == 0 && !self.in_string && !self.in_char_first && !self.in_char_name
            && !self.in_block_comment && !self.pending_hash
    }
}

} // verus!
