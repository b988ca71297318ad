//! Splits guix output on both `\n` and `\r`, tags each frame with a
//! `redraw` bit (`\r`-terminated upstream), strips CSI escape sequences
//! and drops frames that are nothing but progress-bar glyphs.

use vstd::prelude::*;
use vstd::utf8::{valid_utf8, decode_utf8};
use crate::text::{chars_of, string_of, is_alphanumeric, char_is_alphanumeric};

verus! {

/// What `String::from_utf8_lossy` yields for these bytes: the decoded text,
/// with every maximal invalid sequence replaced by U+FFFD.
pub uninterp spec fn utf8_lossy(bytes: Seq<u8>) -> Seq<char>;

/// `String::from_utf8_lossy(bytes).into_owned()`. The contract names the
/// result after the bytes alone and, as the std documentation states, says
/// that valid UTF-8 decodes unchanged.
#[verifier::external_body]
pub fn decode_lossy(bytes: &[u8]) -> (s: String)
    ensures
        s@ == utf8_lossy(bytes@),
        valid_utf8(bytes@) ==> s@ == decode_utf8(bytes@),
{
    String::from_utf8_lossy(bytes).into_owned()
}

/// A CSI final byte: `0x40..=0x7e`.
pub open spec fn is_csi_final(c: char) -> bool {
    '\x40' <= c <= '\x7e'
}

/// The text after the CSI final character (or nothing, if none follows).
pub open spec fn skip_csi(s: Seq<char>) -> Seq<char>
    decreases s.len(),
{
    if s.len() == 0 {
        s
    } else if is_csi_final(s[0]) {
        s.drop_first()
    } else {
        skip_csi(s.drop_first())
    }
}

/// `s` with every `ESC [ <params> <final>` sequence removed. An `ESC [`
/// whose final character never arrives swallows the rest of the text.
pub open spec fn strip_ansi_spec(s: Seq<char>) -> Seq<char>
    decreases s.len(),
{
    if s.len() == 0 {
        s
    } else if s.len() >= 2 && s[0] == '\x1b' && s[1] == '[' {
        let rest = skip_csi(s.subrange(2, s.len() as int));
        proof { lemma_skip_csi_shorter(s.subrange(2, s.len() as int)); }
        strip_ansi_spec(rest)
    } else {
        seq![s[0]] + strip_ansi_spec(s.drop_first())
    }
}

pub proof fn lemma_skip_csi_shorter(s: Seq<char>)
    ensures
        skip_csi(s).len() <= s.len(),
    decreases s.len(),
{
    if s.len() > 0 && !is_csi_final(s[0]) {
        lemma_skip_csi_shorter(s.drop_first());
    }
}

/// No character of `s` is alphanumeric: a bar made only of block glyphs or
/// `[#]` punctuation.
pub open spec fn is_pure_chrome_spec(s: Seq<char>) -> bool {
    forall|i: int| 0 <= i < s.len() ==> !is_alphanumeric(#[trigger] s[i])
}

/// Strips CSI ANSI sequences: `ESC [ <params> <final-in-0x40..=0x7e>`.
pub fn strip_ansi(s: &str) -> (r: String)
    ensures
        r@ == strip_ansi_spec(s@),
{
    let v = chars_of(s);
    let mut out: Vec<char> = Vec::new();
    let mut i: usize = 0;
    assert(v@.subrange(0, v@.len() as int) =~= v@);
    assert(out@ + strip_ansi_spec(v@) =~= strip_ansi_spec(v@));
    while i < v.len()
        invariant
            i <= v@.len(),
            strip_ansi_spec(v@) == out@ + strip_ansi_spec(v@.subrange(i as int, v@.len() as int)),
        decreases v@.len() - i,
    {
        let ghost rest = v@.subrange(i as int, v@.len() as int);
        if v[i] == '\x1b' && i + 1 < v.len() && v[i + 1] == '[' {
            let mut j: usize = i + 2;
            assert(rest.subrange(2, rest.len() as int) == v@.subrange(j as int, v@.len() as int));
            while j < v.len()
                invariant_except_break
                    i + 2 <= j <= v@.len(),
                    skip_csi(rest.subrange(2, rest.len() as int)) == skip_csi(
                        v@.subrange(j as int, v@.len() as int),
                    ),
                ensures
                    i + 2 <= j <= v@.len(),
                    skip_csi(rest.subrange(2, rest.len() as int)) == v@.subrange(
                        j as int,
                        v@.len() as int,
                    ),
                decreases v@.len() - j,
            {
                let c = v[j];
                assert(v@.subrange(j as int, v@.len() as int).drop_first() == v@.subrange(
                    j + 1,
                    v@.len() as int,
                ));
                j += 1;
                if '\x40' <= c && c <= '\x7e' {
                    break;
                }
            }
            i = j;
        } else {
            out.push(v[i]);
            assert(rest.drop_first() == v@.subrange(i + 1, v@.len() as int));
            i += 1;
        }
    }
    assert(v@.subrange(v@.len() as int, v@.len() as int) =~= Seq::<char>::empty());
    string_of(&out)
}

/// Whether `s` carries no alphanumeric character.
pub fn is_pure_chrome(s: &[char]) -> (r: bool)
    ensures
        r == is_pure_chrome_spec(s@),
{
    let mut i: usize = 0;
    while i < s.len()
        invariant
            i <= s@.len(),
            forall|k: int| 0 <= k < i ==> !is_alphanumeric(#[trigger] s@[k]),
        decreases s@.len() - i,
    {
        if char_is_alphanumeric(s[i]) {
            return false;
        }
        i += 1;
    }
    true
}

/// One emitted frame of guix output.
#[derive(Debug, Clone, PartialEq, Eq)]
pub struct Frame {
    pub text: String,
    /// `true` if the frame ended with `\r` — upstream wants in-place overwrite.
    pub redraw: bool,
}

impl View for Frame {
    type V = (Seq<char>, bool);

    open spec fn view(&self) -> (Seq<char>, bool) {
        (self.text@, self.redraw)
    }
}

pub open spec fn frames_view(v: Seq<Frame>) -> Seq<(Seq<char>, bool)> {
    v.map_values(|f: Frame| f@)
}

/// The frame (if any) that a buffered run of bytes turns into when a
/// terminator (or end of input) closes it.
pub open spec fn frame_of(buf: Seq<u8>, redraw: bool) -> Seq<(Seq<char>, bool)> {
    if buf.len() == 0 {
        Seq::empty()
    } else {
        let cleaned = strip_ansi_spec(utf8_lossy(buf));
        if cleaned.len() > 0 && !is_pure_chrome_spec(cleaned) {
            seq![(cleaned, redraw)]
        } else {
            Seq::empty()
        }
    }
}

/// Feeding `chunk` to a splitter holding `buf`: the bytes left pending and
/// the frames emitted, in order. `\n` closes a frame with `redraw = false`,
/// `\r` with `redraw = true`; every other byte is buffered.
pub open spec fn feed_spec(buf: Seq<u8>, chunk: Seq<u8>) -> (Seq<u8>, Seq<(Seq<char>, bool)>)
    decreases chunk.len(),
{
    if chunk.len() == 0 {
        (buf, Seq::empty())
    } else {
        let b = chunk[0];
        if b == 10u8 {
            let r = feed_spec(Seq::empty(), chunk.drop_first());
            (r.0, frame_of(buf, false) + r.1)
        } else if b == 13u8 {
            let r = feed_spec(Seq::empty(), chunk.drop_first());
            (r.0, frame_of(buf, true) + r.1)
        } else {
            feed_spec(buf.push(b), chunk.drop_first())
        }
    }
}

/// Chunk boundaries do not matter: feeding `a` then `b` leaves the same
/// pending bytes, and emits the same frames in the same order, as feeding
/// `a + b` in one call.
pub proof fn lemma_feed_concat(buf: Seq<u8>, a: Seq<u8>, b: Seq<u8>)
    ensures
        feed_spec(buf, a + b) == ({
            let ra = feed_spec(buf, a);
            let rb = feed_spec(ra.0, b);
            (rb.0, ra.1 + rb.1)
        }),
    decreases a.len(),
{
    if a.len() == 0 {
        assert(a + b =~= b);
        let rb = feed_spec(buf, b);
        assert(Seq::<(Seq<char>, bool)>::empty() + rb.1 =~= rb.1);
    } else {
        assert((a + b).drop_first() =~= a.drop_first() + b);
        assert((a + b)[0] == a[0]);
        let c = a[0];
        if c == 10u8 || c == 13u8 {
            lemma_feed_concat(Seq::empty(), a.drop_first(), b);
            let ra = feed_spec(Seq::empty(), a.drop_first());
            let rb = feed_spec(ra.0, b);
            let f = frame_of(buf, c == 13u8);
            assert(f + (ra.1 + rb.1) =~= (f + ra.1) + rb.1);
        } else {
            lemma_feed_concat(buf.push(c), a.drop_first(), b);
        }
    }
}

pub proof fn lemma_feed_step(buf: Seq<u8>, chunk: Seq<u8>, i: int)
    requires
        0 <= i < chunk.len(),
    ensures
        chunk.subrange(i, chunk.len() as int).drop_first() == chunk.subrange(i + 1, chunk.len() as int),
        chunk.subrange(i, chunk.len() as int)[0] == chunk[i],
{
    assert(chunk.subrange(i, chunk.len() as int).drop_first() =~= chunk.subrange(i + 1, chunk.len() as int));
}

/// Stateful `\n`/`\r` splitter; the only state is the pending bytes of the
/// frame not yet terminated.
pub struct Splitter {
    buf: Vec<u8>,
}

impl Splitter {
    /// The bytes received since the last terminator.
    pub closed spec fn pending(&self) -> Seq<u8> {
        self.buf@
    }

    pub fn new() -> (s: Self)
        ensures
            s.pending() == Seq::<u8>::empty(),
    {
        Splitter { buf: Vec::with_capacity(256) }
    }

    /// Splits `chunk`, appending each completed frame to `out`.
    pub fn feed(&mut self, chunk: &[u8], out: &mut Vec<Frame>)
        ensures
            final(self).pending() == feed_spec(old(self).pending(), chunk@).0,
            frames_view(final(out)@) == frames_view(old(out)@) + feed_spec(
                old(self).pending(),
                chunk@,
            ).1,
    {
        let ghost buf0 = self.buf@;
        let ghost out0 = frames_view(out@);
        let mut i: usize = 0;
        proof {
            assert(frames_view(out@).subrange(out0.len() as int, out0.len() as int) =~= Seq::<(Seq<char>, bool)>::empty());
            assert(chunk@.subrange(0, chunk@.len() as int) =~= chunk@);
            let r = feed_spec(self.buf@, chunk@);
            assert(Seq::<(Seq<char>, bool)>::empty() + r.1 =~= r.1);
            assert(frames_view(out@).subrange(0, out0.len() as int) =~= out0);
        }
        while i < chunk.len()
            invariant
                i <= chunk@.len(),
                feed_spec(buf0, chunk@) == ({
                    let r = feed_spec(self.buf@, chunk@.subrange(i as int, chunk@.len() as int));
                    (r.0, frames_view(out@).subrange(out0.len() as int, frames_view(out@).len() as int) + r.1)
                }),
                frames_view(out@).subrange(0, out0.len() as int) == out0,
                out0.len() <= out@.len(),
            decreases chunk@.len() - i,
        {
            proof { lemma_feed_step(buf0, chunk@, i as int); }
            let b = chunk[i];
            let ghost prev_out = out@;
            if b == 10u8 {
                self.flush_into(out, false);
            } else if b == 13u8 {
                self.flush_into(out, true);
            } else {
                self.buf.push(b);
            }
            proof {
                assert(frames_view(out@).subrange(0, out0.len() as int) =~= out0) by {
                    assert(frames_view(out@).subrange(0, prev_out.len() as int) =~= frames_view(prev_out));
                    assert(frames_view(prev_out).subrange(0, out0.len() as int) =~= out0);
                }
                assert(frames_view(out@).subrange(out0.len() as int, frames_view(out@).len() as int)
                    =~= frames_view(prev_out).subrange(out0.len() as int, frames_view(prev_out).len() as int)
                    + frames_view(out@).subrange(prev_out.len() as int, frames_view(out@).len() as int));
            }
            i += 1;
        }
        proof {
            assert(chunk@.subrange(chunk@.len() as int, chunk@.len() as int) =~= Seq::<u8>::empty());
            assert(frames_view(out@) =~= frames_view(out@).subrange(0, out0.len() as int)
                + frames_view(out@).subrange(out0.len() as int, frames_view(out@).len() as int));
        }
    }

    /// End of input: the pending tail has no terminator, so it surfaces as a
    /// non-redraw frame.
    pub fn flush_eof(&mut self, out: &mut Vec<Frame>)
        ensures
            final(self).pending() == Seq::<u8>::empty(),
            frames_view(final(out)@) == frames_view(old(out)@) + frame_of(old(self).pending(), false),
    {
        self.flush_into(out, false);
    }

    fn flush_into(&mut self, out: &mut Vec<Frame>, redraw: bool)
        ensures
            final(self).pending() == Seq::<u8>::empty(),
            frames_view(final(out)@) == frames_view(old(out)@) + frame_of(old(self).pending(), redraw),
            final(out)@.subrange(0, old(out)@.len() as int) == old(out)@,
            old(out)@.len() <= final(out)@.len(),
    {
        if self.buf.len() == 0 {
            assert(frames_view(out@) =~= frames_view(out@) + Seq::<(Seq<char>, bool)>::empty());
            assert(out@.subrange(0, out@.len() as int) =~= out@);
            return;
        }
        let raw = decode_lossy(self.buf.as_slice());
        self.buf.clear();
        let cleaned = strip_ansi(raw.as_str());
        let cv = chars_of(cleaned.as_str());
        let ghost before = out@;
        if cv.len() > 0 && !is_pure_chrome(&cv) {
            out.push(Frame { text: cleaned, redraw });
            assert(frames_view(out@) =~= frames_view(before) + seq![(cleaned@, redraw)]);
        } else {
            assert(frames_view(out@) =~= frames_view(before) + Seq::<(Seq<char>, bool)>::empty());
        }
        assert(out@.subrange(0, before.len() as int) =~= before);
    }
}

} // verus!
