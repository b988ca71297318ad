//! `guix gc`: the size type of `--free-space` and the argument vector.

use vstd::prelude::*;
use crate::text::{push_str, push_chars, string_of, decimal, decimal_chars};
use crate::argv::strings_view;

verus! {

/// A byte count.
#[derive(Debug, Clone, Copy, PartialEq, Eq, Structural)]
pub struct ByteSize(u64);

impl View for ByteSize {
    type V = u64;

    closed spec fn view(&self) -> u64 {
        self.0
    }
}

impl ByteSize {
    pub fn bytes(n: u64) -> (r: Self)
        ensures
            r@ == n,
    {
        ByteSize(n)
    }

    /// `n` decimal megabytes.
    pub fn megabytes(n: u64) -> (r: Self)
        requires
            n * 1_000_000 <= u64::MAX,
        ensures
            r@ == n * 1_000_000,
    {
        ByteSize(n * 1_000_000)
    }

    /// `n` decimal gigabytes.
    pub fn gigabytes(n: u64) -> (r: Self)
        requires
            n * 1_000_000_000 <= u64::MAX,
        ensures
            r@ == n * 1_000_000_000,
    {
        ByteSize(n * 1_000_000_000)
    }

    pub fn as_bytes(self) -> (r: u64)
        ensures
            r == self@,
    {
        self.0
    }
}

/// Options for `guix gc`; the generation age is in seconds.
#[derive(Debug, Clone)]
pub struct GcOptions {
    pub free_space: Option<ByteSize>,
    pub delete_unused_after_secs: Option<u64>,
    pub verify: bool,
}

/// `gc`, `-FBYTES`, `--delete-generations=Ns`, `--verify`, each when set.
pub open spec fn gc_args_spec(o: GcOptions) -> Seq<Seq<char>> {
    seq!["gc"@] + (match o.free_space { Some(b) => seq!["-F"@ + decimal(b@ as nat)], None => Seq::empty() })
        + (match o.delete_unused_after_secs {
            Some(s) => seq!["--delete-generations="@ + decimal(s as nat) + "s"@],
            None => Seq::empty(),
        }) + (if o.verify { seq!["--verify"@] } else { Seq::empty() })
}

/// The argument vector of `guix gc`.
pub fn gc_args(opts: &GcOptions) -> (r: Vec<String>)
    ensures
        strings_view(r@) == gc_args_spec(*opts),
{
    let mut args: Vec<String> = Vec::new();
    args.push(String::from_str("gc"));
    let ghost a0 = strings_view(args@);
    if let Some(b) = opts.free_space {
        let mut v: Vec<char> = Vec::new();
        push_str(&mut v, "-F");
        let d = decimal_chars(b.as_bytes());
        push_chars(&mut v, &d);
        args.push(string_of(&v));
    }
    let ghost a1 = strings_view(args@);
    if let Some(s) = opts.delete_unused_after_secs {
        let mut v: Vec<char> = Vec::new();
        push_str(&mut v, "--delete-generations=");
        let d = decimal_chars(s);
        push_chars(&mut v, &d);
        push_str(&mut v, "s");
        args.push(string_of(&v));
    }
    let ghost a2 = strings_view(args@);
    if opts.verify {
        args.push(String::from_str("--verify"));
    }
    proof {
        let o = *opts;
        assert(a0 =~= seq!["gc"@]);
        let p1: Seq<Seq<char>> = match o.free_space { Some(b) => seq!["-F"@ + decimal(b@ as nat)], None => Seq::empty() };
        assert(a1 =~= a0 + p1);
        let p2: Seq<Seq<char>> = match o.delete_unused_after_secs {
            Some(s) => seq!["--delete-generations="@ + decimal(s as nat) + "s"@],
            None => Seq::empty(),
        };
        assert(a2 =~= a1 + p2);
        let p3: Seq<Seq<char>> = if o.verify { seq!["--verify"@] } else { Seq::empty() };
        assert(strings_view(args@) =~= a2 + p3);
    }
    args
}

} // verus!
