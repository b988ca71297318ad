//! S-expression values as the library reads them: lists (proper, or with a
//! dotted tail), strings, symbols, numbers, and everything else lumped
//! together. Text is read by the `lexpr` crate; this module converts its
//! values and offers the accessors the parsers use, with `lexpr`'s list
//! iteration semantics.

use vstd::prelude::*;
use crate::repl::{debug_quoted, debug_str};
use crate::text::push_str;

verus! {

/// `lexpr::Value`, read from text and converted straight away.
#[verifier::external_type_specification]
#[verifier::external_body]
pub struct ExLexprValue(lexpr::Value);

/// An S-expression.
#[derive(Debug)]
pub enum SExp {
    /// A list: its elements, and the dotted tail when the last cons cell's
    /// `cdr` is neither another cell nor `()`. `()` is `List([], None)`.
    List(Vec<SExp>, Option<Box<SExp>>),
    Str(String),
    Symbol(String),
    /// A number: its value when it is a non-negative integer, and the
    /// `{:?}` text of `lexpr`'s number (such as `PosInt(5)`).
    Number(Option<u64>, String),
    Bool(bool),
    /// Characters, keywords, byte vectors, vectors, `nil`: the `{:?}` text
    /// of the `lexpr` value.
    Other(String),
}

/// The string held by a string value.
pub open spec fn str_of(v: SExp) -> Option<Seq<char>> {
    match v {
        SExp::Str(s) => Some(s@),
        _ => None,
    }
}

/// The name of a symbol value.
pub open spec fn symbol_of(v: SExp) -> Option<Seq<char>> {
    match v {
        SExp::Symbol(s) => Some(s@),
        _ => None,
    }
}

/// The value of a non-negative integer.
pub open spec fn u64_of(v: SExp) -> Option<u64> {
    match v {
        SExp::Number(n, _) => n,
        _ => None,
    }
}

/// What successive `next()` calls on a list iterator yield before it is
/// exhausted: the elements, then, for a dotted list, `None` followed by the
/// tail. Every later call yields `None`.
pub open spec fn iter_results(items: Seq<SExp>, tail: Option<Box<SExp>>) -> Seq<Option<SExp>> {
    items.map_values(|x: SExp| Some(x)) + match tail {
        Some(t) => seq![None, Some(*t)],
        None => Seq::empty(),
    }
}

/// The result of the `k`-th `next()` call (counting from 0) on `v`'s list
/// iterator; `None` when `v` is not a list.
pub open spec fn nth_next(v: SExp, k: int) -> Option<SExp> {
    match v {
        SExp::List(items, tail) => {
            let r = iter_results(items@, tail);
            if 0 <= k < r.len() {
                r[k]
            } else {
                None
            }
        },
        _ => None,
    }
}

/// Within the elements, the iterator yields them in order; right after
/// them it yields `None`.
pub proof fn lemma_nth_next(v: SExp, k: int)
    requires
        v is List,
    ensures
        0 <= k < list_items(v).unwrap().len() ==> nth_next(v, k) == Some(list_items(v).unwrap()[k]),
        k == list_items(v).unwrap().len() ==> nth_next(v, k) is None,
        k < 0 ==> nth_next(v, k) is None,
{
    match v {
        SExp::List(items, tail) => {
            let r = iter_results(items@, tail);
            let m = items@.map_values(|x: SExp| Some(x));
            if 0 <= k < items@.len() {
                assert(r[k] == m[k]);
            }
            if k == items@.len() {
                match tail {
                    Some(t) => assert(r[k] == seq![None::<SExp>, Some(*t)][0]),
                    None => {},
                }
            }
        },
        _ => {},
    }
}

/// The elements of a list value (the items a `for` loop over its iterator
/// visits); `None` for non-lists.
pub open spec fn list_items(v: SExp) -> Option<Seq<SExp>> {
    match v {
        SExp::List(items, _) => Some(items@),
        _ => None,
    }
}

/// `lexpr`'s list iterator over one list value.
pub struct ListIter<'a> {
    items: &'a [SExp],
    tail: Option<&'a SExp>,
    /// Elements handed out so far.
    pos: usize,
    /// Calls made after the elements ran out (at most 2 are counted).
    extra: u8,
}

impl<'a> ListIter<'a> {
    /// The list being iterated.
    pub closed spec fn source(&self) -> (Seq<SExp>, Option<SExp>) {
        (self.items@, match self.tail {
            Some(t) => Some(*t),
            None => None,
        })
    }

    /// How many `next()` calls have been made (counting stops two past the
    /// elements, after which every call yields `None`).
    pub closed spec fn position(&self) -> int {
        self.pos + self.extra
    }

    pub closed spec fn wf(&self) -> bool {
        &&& self.pos <= self.items@.len()
        &&& self.extra <= 2
        &&& self.extra > 0 ==> self.pos == self.items@.len()
    }

    /// The result of the `k`-th call on this iterator.
    pub open spec fn result_at(&self, k: int) -> Option<SExp> {
        let src = self.source();
        let r = iter_results(src.0, match src.1 {
            Some(t) => Some(Box::new(t)),
            None => None,
        });
        if 0 <= k < r.len() {
            r[k]
        } else {
            None
        }
    }

    pub fn next(&mut self) -> (r: Option<&'a SExp>)
        requires
            old(self).wf(),
        ensures
            final(self).wf(),
            final(self).source() == old(self).source(),
            match r {
                Some(x) => old(self).result_at(old(self).position()) == Some(*x),
                None => old(self).result_at(old(self).position()) is None,
            },
            forall|k: int| k >= 0 ==> #[trigger] final(self).result_at(final(self).position() + k)
                == old(self).result_at(old(self).position() + 1 + k),
    {
        let n = self.items.len();
        if self.pos < n {
            let r = &self.items[self.pos];
            self.pos = self.pos + 1;
            Some(r)
        } else {
            match self.tail {
                Some(t) => {
                    if self.extra == 0 {
                        self.extra = 1;
                        None
                    } else if self.extra == 1 {
                        self.extra = 2;
                        Some(t)
                    } else {
                        None
                    }
                },
                None => {
                    if self.extra == 0 {
                        self.extra = 1;
                    }
                    None
                },
            }
        }
    }
}

impl SExp {
    /// `lexpr::Value::as_str`.
    pub fn as_str(&self) -> (r: Option<&String>)
        ensures
            match r {
                Some(s) => str_of(*self) == Some(s@),
                None => str_of(*self) is None,
            },
    {
        match self {
            SExp::Str(s) => Some(s),
            _ => None,
        }
    }

    /// `lexpr::Value::as_symbol`.
    pub fn as_symbol(&self) -> (r: Option<&String>)
        ensures
            match r {
                Some(s) => symbol_of(*self) == Some(s@),
                None => symbol_of(*self) is None,
            },
    {
        match self {
            SExp::Symbol(s) => Some(s),
            _ => None,
        }
    }

    /// `lexpr::Value::as_u64`.
    pub fn as_u64(&self) -> (r: Option<u64>)
        ensures
            r == u64_of(*self),
    {
        match self {
            SExp::Number(n, _) => *n,
            _ => None,
        }
    }

    /// `lexpr::Value::as_bool`.
    pub fn as_bool(&self) -> (r: Option<bool>)
        ensures
            r == (match *self { SExp::Bool(b) => Some(b), _ => None::<bool> }),
    {
        match self {
            SExp::Bool(b) => Some(*b),
            _ => None,
        }
    }

    /// `lexpr::Value::is_null`.
    pub fn is_null(&self) -> (r: bool)
        ensures
            r == (*self matches SExp::List(items, None) && items@.len() == 0),
    {
        match self {
            SExp::List(items, None) => items.len() == 0,
            _ => false,
        }
    }

    /// What the `k`-th `next()` call on this value's list iterator yields
    /// (`None` for non-lists).
    pub fn nth(&self, k: usize) -> (r: Option<&SExp>)
        ensures
            match r {
                Some(x) => nth_next(*self, k as int) == Some(*x),
                None => nth_next(*self, k as int) is None,
            },
    {
        match self {
            SExp::List(items, tail) => {
                let ghost m = items@.map_values(|x: SExp| Some(x));
                let n = items.len();
                if k < n {
                    assert(iter_results(items@, *tail)[k as int] == m[k as int]);
                    Some(&items[k])
                } else {
                    match tail {
                        Some(t) => {
                            let ghost r = iter_results(items@, *tail);
                            if k - n == 1 {
                                assert(r[k as int] == seq![None::<SExp>, Some(**t)][1]);
                                Some(&**t)
                            } else {
                                if k == n {
                                    assert(r[k as int] == seq![None::<SExp>, Some(**t)][0]);
                                }
                                None
                            }
                        },
                        None => None,
                    }
                }
            },
            _ => None,
        }
    }

    /// `lexpr::Value::list_iter`: an iterator for lists, `None` otherwise.
    pub fn list_iter(&self) -> (r: Option<ListIter<'_>>)
        ensures
            r is Some <==> (*self is List),
            r matches Some(it) ==> it.wf() && it.position() == 0 && forall|k: int| #[trigger] it.result_at(k) == nth_next(*self, k),
    {
        match self {
            SExp::List(items, tail) => {
                let t: Option<&SExp> = match tail {
                    Some(b) => Some(&**b),
                    None => None,
                };
                let it = ListIter { items: items.as_slice(), tail: t, pos: 0, extra: 0 };
                proof {
                    assert forall|k: int| #[trigger] it.result_at(k) == nth_next(*self, k) by {
                        let tb: Option<Box<SExp>> = match it.source().1 {
                            Some(x) => Some(Box::new(x)),
                            None => None,
                        };
                        assert(tb == *tail);
                    }
                }
                Some(it)
            },
            _ => None,
        }
    }
}

/// The number of elements of a list value (0 for other values).
pub open spec fn item_count(v: SExp) -> int {
    match v {
        SExp::List(items, _) => items@.len() as int,
        _ => 0,
    }
}

/// What `{:?}` prints for the `lexpr` value that `v` stands for, reading a
/// list from its element `i` on: `lexpr` derives `Debug` for its values and
/// prints a cons cell as `(CAR . CDR)`, so `(a b)` prints as
/// `Cons((Symbol("a") . Cons((Symbol("b") . Null))))`.
pub open spec fn debug_from(v: SExp, i: int) -> Seq<char>
    decreases v, if 0 <= i < item_count(v) { item_count(v) - i } else { 0 },
{
    match v {
        SExp::List(items, tail) => if 0 <= i < items@.len() {
            proof { assert(decreases_to!(v => items@[i])); }
            "Cons(("@ + debug_from(items@[i], 0) + " . "@ + debug_from(v, i + 1) + "))"@
        } else {
            match tail {
                None => "Null"@,
                Some(t) => debug_from(*t, 0),
            }
        },
        SExp::Str(s) => "String("@ + debug_quoted(s@) + ")"@,
        SExp::Symbol(s) => "Symbol("@ + debug_quoted(s@) + ")"@,
        SExp::Number(_, t) => "Number("@ + t@ + ")"@,
        SExp::Bool(b) => if b { "Bool(true)"@ } else { "Bool(false)"@ },
        SExp::Other(t) => t@,
    }
}

/// What `{:?}` prints for the `lexpr` value that `v` stands for.
pub open spec fn sexp_debug(v: SExp) -> Seq<char> {
    debug_from(v, 0)
}

fn push_debug_from(v: &SExp, i: usize, out: &mut Vec<char>)
    requires
        i <= item_count(*v),
    ensures
        final(out)@ == old(out)@ + debug_from(*v, i as int),
    decreases *v, if i < item_count(*v) { item_count(*v) - i } else { 0 },
{
    match v {
        SExp::List(items, tail) => {
            if i < items.len() {
                let ghost o = out@;
                push_str(out, "Cons((");
                proof { assert(decreases_to!(*v => items@[i as int])); }
                push_debug_from(&items[i], 0, out);
                push_str(out, " . ");
                push_debug_from(v, i + 1, out);
                push_str(out, "))");
                assert(out@ =~= o + debug_from(*v, i as int));
            } else {
                match tail {
                    None => push_str(out, "Null"),
                    Some(t) => push_debug_from(t, 0, out),
                }
            }
        },
        SExp::Str(s) => {
            let ghost o = out@;
            push_str(out, "String(");
            let d = debug_str(s.as_str());
            push_str(out, d.as_str());
            push_str(out, ")");
            assert(out@ =~= o + debug_from(*v, i as int));
        },
        SExp::Symbol(s) => {
            let ghost o = out@;
            push_str(out, "Symbol(");
            let d = debug_str(s.as_str());
            push_str(out, d.as_str());
            push_str(out, ")");
            assert(out@ =~= o + debug_from(*v, i as int));
        },
        SExp::Number(_, t) => {
            let ghost o = out@;
            push_str(out, "Number(");
            push_str(out, t.as_str());
            push_str(out, ")");
            assert(out@ =~= o + debug_from(*v, i as int));
        },
        SExp::Bool(b) => {
            if *b {
                push_str(out, "Bool(true)");
            } else {
                push_str(out, "Bool(false)");
            }
        },
        SExp::Other(t) => push_str(out, t.as_str()),
    }
}

/// `format!("{:?}", v)` of the `lexpr` value that `v` stands for.
pub fn sexp_debug_string(v: &SExp) -> (r: String)
    ensures
        r@ == sexp_debug(*v),
{
    let mut out: Vec<char> = Vec::new();
    push_debug_from(v, 0, &mut out);
    assert(out@ =~= sexp_debug(*v));
    crate::text::string_of(&out)
}

/// What `lexpr::from_str` reads from a text: one value, or the text of the
/// error it reports.
pub uninterp spec fn lexpr_read(s: Seq<char>) -> Result<SExp, String>;

/// What `lexpr::Parser::value_iter` yields over a text: the top-level
/// values read before the first error, and that error's text, if any.
pub uninterp spec fn lexpr_read_all(s: Seq<char>) -> (Seq<SExp>, Option<String>);

/// One-for-one conversion of a `lexpr` value.
#[verifier::external_body]
fn from_lexpr(v: &lexpr::Value) -> SExp {
    match v {
        lexpr::Value::String(s) => SExp::Str(s.to_string()),
        lexpr::Value::Symbol(s) => SExp::Symbol(s.to_string()),
        lexpr::Value::Number(n) => SExp::Number(n.as_u64(), format!("{n:?}")),
        lexpr::Value::Bool(b) => SExp::Bool(*b),
        lexpr::Value::Null => SExp::List(Vec::new(), None),
        lexpr::Value::Cons(c) => {
            let (items, tail) = c.to_ref_vec();
            let tail = if tail.is_null() { None } else { Some(Box::new(from_lexpr(tail))) };
            SExp::List(items.into_iter().map(from_lexpr).collect(), tail)
        },
        _ => SExp::Other(format!("{v:?}")),
    }
}

/// `lexpr::from_str`: reads exactly one value (trailing text other than
/// whitespace and comments is an error). The result is named after the
/// text alone.
#[verifier::external_body]
pub fn read_sexp(s: &str) -> (r: Result<SExp, String>)
    ensures
        r == lexpr_read(s@),
{
    match lexpr::from_str(s) {
        Ok(v) => Ok(from_lexpr(&v)),
        Err(e) => Err(e.to_string()),
    }
}

/// `lexpr::Parser::from_str(s).value_iter()`, drained up to the first error.
/// The values and the error text are named after the text alone.
#[verifier::external_body]
pub fn read_sexps(s: &str) -> (r: (Vec<SExp>, Option<String>))
    ensures
        (r.0@, r.1) == lexpr_read_all(s@),
{
    let mut parser = lexpr::Parser::from_str(s);
    let mut out = Vec::new();
    for v in parser.value_iter() {
        match v {
            Ok(v) => out.push(from_lexpr(&v)),
            Err(e) => return (out, Some(e.to_string())),
        }
    }
    (out, None)
}

} // verus!
