//! Reading `channels.scm` and `guix describe -f channels`: the first
//! top-level `list`, `cons*` or `cons` form is taken apart into channels;
//! preamble forms such as `(use-modules ...)` are skipped, and wrapper
//! forms around a `(channel ...)` are looked into one level deep.

use vstd::prelude::*;
use crate::text::{chars_of, string_of, push_str, push_chars, eq_str};
use crate::types::{Channel, ChannelView, opt_view};
use crate::error::GuixError;
use crate::sexp::{SExp, nth_next, symbol_of, str_of, list_items, lexpr_read_all, read_sexps, lemma_nth_next,
    sexp_debug, sexp_debug_string};
use crate::repl::{sym_at, str_at};

verus! {

/// The top-level shape of a channels file, kept so a read, edit and write
/// round trip preserves the user's choice.
#[derive(Debug, Clone, PartialEq, Eq)]
pub enum ChannelsList {
    /// `(list (channel ...) ...)`: every channel enumerated.
    Explicit(Vec<Channel>),
    /// `(cons* ... %default-channels)` or `(cons ... %default-channels)`:
    /// custom channels on top of the defaults, which stay implicit.
    WithDefaults(Vec<Channel>),
}

pub open spec fn channels_view(v: Seq<Channel>) -> Seq<ChannelView> {
    v.map_values(|c: Channel| c@)
}

/// The channels of a list, as values, and whether the defaults are implied.
pub open spec fn list_view(l: ChannelsList) -> (Seq<ChannelView>, bool) {
    match l {
        ChannelsList::Explicit(v) => (channels_view(v@), false),
        ChannelsList::WithDefaults(v) => (channels_view(v@), true),
    }
}

impl ChannelsList {
    /// The channels listed (the custom ones, for `WithDefaults`).
    pub fn channels(&self) -> (r: &[Channel])
        ensures
            channels_view(r@) == list_view(*self).0,
    {
        match self {
            ChannelsList::Explicit(v) => v.as_slice(),
            ChannelsList::WithDefaults(v) => v.as_slice(),
        }
    }

    /// The channels listed, by value.
    pub fn into_channels(self) -> (r: Vec<Channel>)
        ensures
            channels_view(r@) == list_view(self).0,
    {
        match self {
            ChannelsList::Explicit(v) => v,
            ChannelsList::WithDefaults(v) => v,
        }
    }
}

/// `'foo` reads as `(quote foo)`: a quoted symbol gives its name; a bare
/// symbol or a string gives itself.
pub open spec fn sym_or_string_spec(v: SExp) -> Option<Seq<char>> {
    if v is List && sym_at(v, 0) == Some("quote"@) {
        match nth_next(v, 1) {
            Some(inner) => symbol_of(inner),
            None => None,
        }
    } else if symbol_of(v) is Some {
        symbol_of(v)
    } else {
        str_of(v)
    }
}

fn head_sym_is(v: &SExp, name: &str) -> (r: bool)
    ensures
        r == (v is List && sym_at(*v, 0) == Some(name@)),
{
    match v.nth(0) {
        Some(h) => match h.as_symbol() {
            Some(s) => {
                let c = chars_of(s.as_str());
                let r = eq_str(&c, name);
                let is_list = match v {
                    SExp::List(_, _) => true,
                    _ => false,
                };
                r && is_list
            },
            None => false,
        },
        None => false,
    }
}

fn sym_or_string(v: &SExp) -> (r: Option<String>)
    ensures
        opt_view(r) == sym_or_string_spec(*v),
{
    if head_sym_is(v, "quote") {
        return match v.nth(1) {
            Some(inner) => match inner.as_symbol() {
                Some(s) => Some(s.clone()),
                None => None,
            },
            None => None,
        };
    }
    match v.as_symbol() {
        Some(s) => Some(s.clone()),
        None => match v.as_str() {
            Some(s) => Some(s.clone()),
            None => None,
        },
    }
}

/// `(make-channel-introduction "COMMIT" (openpgp-fingerprint "FPR"))`:
/// the commit and the fingerprint, each when present as a string.
pub open spec fn introduction_spec(v: SExp) -> (Option<Seq<char>>, Option<Seq<char>>) {
    if !(v is List && sym_at(v, 0) == Some("make-channel-introduction"@)) {
        (None, None)
    } else {
        let commit = str_at(v, 1);
        let fpr = match nth_next(v, 2) {
            Some(f) => if f is List && sym_at(f, 0) == Some("openpgp-fingerprint"@) {
                str_at(f, 1)
            } else {
                None
            },
            None => None,
        };
        (commit, fpr)
    }
}

fn str_of_nth(v: &SExp, k: usize) -> (r: Option<String>)
    ensures
        opt_view(r) == str_at(*v, k as int),
{
    match v.nth(k) {
        Some(x) => match x.as_str() {
            Some(s) => Some(s.clone()),
            None => None,
        },
        None => None,
    }
}

fn parse_make_introduction(v: &SExp) -> (r: (Option<String>, Option<String>))
    ensures
        (opt_view(r.0), opt_view(r.1)) == introduction_spec(*v),
{
    if !head_sym_is(v, "make-channel-introduction") {
        return (None, None);
    }
    let commit = str_of_nth(v, 1);
    let fpr = match v.nth(2) {
        Some(f) => if head_sym_is(f, "openpgp-fingerprint") {
            str_of_nth(f, 1)
        } else {
            None
        },
        None => None,
    };
    (commit, fpr)
}

/// The fields of a channel form collected so far: name, url, branch,
/// commit, introduction commit, introduction fingerprint.
pub struct FieldsView {
    pub name: Option<Seq<char>>,
    pub url: Option<Seq<char>>,
    pub branch: Option<Seq<char>>,
    pub commit: Option<Seq<char>>,
    pub intro_commit: Option<Seq<char>>,
    pub intro_fpr: Option<Seq<char>>,
}

pub open spec fn no_fields() -> FieldsView {
    FieldsView { name: None, url: None, branch: None, commit: None, intro_commit: None, intro_fpr: None }
}

/// One `(key value)` field: a later field of the same key replaces an
/// earlier one; unknown keys, non-lists and value-less fields are skipped.
pub open spec fn field_step(st: FieldsView, field: SExp) -> FieldsView {
    if !(field is List) {
        st
    } else {
        match sym_at(field, 0) {
            None => st,
            Some(key) => match nth_next(field, 1) {
                None => st,
                Some(v) => if key == "name"@ {
                    FieldsView { name: sym_or_string_spec(v), ..st }
                } else if key == "url"@ {
                    FieldsView { url: str_of(v), ..st }
                } else if key == "branch"@ {
                    FieldsView { branch: str_of(v), ..st }
                } else if key == "commit"@ {
                    FieldsView { commit: str_of(v), ..st }
                } else if key == "introduction"@ {
                    let (c, f) = introduction_spec(v);
                    FieldsView { intro_commit: c, intro_fpr: f, ..st }
                } else {
                    st
                },
            },
        }
    }
}

/// The fields after reading `fields` in order.
pub open spec fn fields_of(fields: Seq<SExp>) -> FieldsView
    decreases fields.len(),
{
    if fields.len() == 0 {
        no_fields()
    } else {
        field_step(fields_of(fields.drop_last()), fields.last())
    }
}

/// A `(channel ...)` form: its fields, then a name and a url are required.
pub open spec fn parse_channel_spec(v: SExp) -> Result<ChannelView, Seq<char>> {
    let items = list_items(v).unwrap();
    let st = fields_of(items.subrange(1, items.len() as int));
    match st.name {
        None => Err("channel: missing name"@),
        Some(name) => match st.url {
            None => Err("channel: missing url"@),
            Some(url) => Ok(ChannelView {
                name,
                url,
                branch: st.branch,
                commit: st.commit,
                introduction_commit: st.intro_commit,
                introduction_fingerprint: st.intro_fpr,
            }),
        },
    }
}

fn parse_channel(v: &SExp) -> (r: Result<Channel, GuixError>)
    requires
        v is List,
        list_items(*v).unwrap().len() >= 1,
    ensures
        match parse_channel_spec(*v) {
            Ok(c) => r matches Ok(ch) && ch@ == c,
            Err(m) => r matches Err(e) && e matches GuixError::Parse(msg) && msg@ == m,
        },
{
    let items: &Vec<SExp> = match v {
        SExp::List(items, _) => items,
        _ => {
            return Err(GuixError::Parse(String::from_str("channel: not a list")));
        },
    };
    let mut name: Option<String> = None;
    let mut url: Option<String> = None;
    let mut branch: Option<String> = None;
    let mut commit: Option<String> = None;
    let mut intro_commit: Option<String> = None;
    let mut intro_fpr: Option<String> = None;
    let mut i: usize = 1;
    assert(items@.subrange(1, 1) =~= Seq::<SExp>::empty());
    while i < items.len()
        invariant
            1 <= i <= items@.len(),
            ({
                let st = fields_of(items@.subrange(1, i as int));
                &&& st.name == opt_view(name)
                &&& st.url == opt_view(url)
                &&& st.branch == opt_view(branch)
                &&& st.commit == opt_view(commit)
                &&& st.intro_commit == opt_view(intro_commit)
                &&& st.intro_fpr == opt_view(intro_fpr)
            }),
        decreases items@.len() - i,
    {
        let field = &items[i];
        proof {
            assert(items@.subrange(1, i + 1).drop_last() =~= items@.subrange(1, i as int));
            assert(items@.subrange(1, i + 1).last() == items@[i as int]);
        }
        let is_list = match field {
            SExp::List(_, _) => true,
            _ => false,
        };
        if is_list {
            let key = match field.nth(0) {
                Some(k) => match k.as_symbol() {
                    Some(s) => Some(chars_of(s.as_str())),
                    None => None,
                },
                None => None,
            };
            match key {
                Some(key) => match field.nth(1) {
                    Some(val) => {
                        if eq_str(&key, "name") {
                            name = sym_or_string(val);
                        } else if eq_str(&key, "url") {
                            url = match val.as_str() { Some(s) => Some(s.clone()), None => None };
                        } else if eq_str(&key, "branch") {
                            branch = match val.as_str() { Some(s) => Some(s.clone()), None => None };
                        } else if eq_str(&key, "commit") {
                            commit = match val.as_str() { Some(s) => Some(s.clone()), None => None };
                        } else if eq_str(&key, "introduction") {
                            let (c, f) = parse_make_introduction(val);
                            intro_commit = c;
                            intro_fpr = f;
                        }
                    },
                    None => {},
                },
                None => {},
            }
        }
        i += 1;
    }
    let name = match name {
        Some(n) => n,
        None => return Err(GuixError::Parse(String::from_str("channel: missing name"))),
    };
    let url = match url {
        Some(u) => u,
        None => return Err(GuixError::Parse(String::from_str("channel: missing url"))),
    };
    Ok(Channel {
        name,
        url,
        branch,
        commit,
        introduction_commit: intro_commit,
        introduction_fingerprint: intro_fpr,
    })
}

/// Whether `inner` is a `(channel ...)` form.
pub open spec fn is_channel_form(inner: SExp) -> bool {
    inner is List && sym_at(inner, 0) == Some("channel"@)
}

/// The first `(channel ...)` form among `rest` from `i` on.
pub open spec fn first_channel_form(rest: Seq<SExp>, i: int) -> Option<int>
    decreases rest.len() - i,
{
    if i < 0 || i >= rest.len() {
        None
    } else if is_channel_form(rest[i]) {
        Some(i)
    } else {
        first_channel_form(rest, i + 1)
    }
}

/// A list element: a channel form, a wrapper around one (looked into one
/// level deep), or something else, which is skipped.
pub open spec fn channel_or_wrapper_spec(v: SExp) -> Result<Option<ChannelView>, Seq<char>> {
    if !(v is List) || nth_next(v, 0) is None {
        Ok(None)
    } else if is_channel_form(v) {
        match parse_channel_spec(v) {
            Ok(c) => Ok(Some(c)),
            Err(m) => Err(m),
        }
    } else {
        let items = list_items(v).unwrap();
        let rest = items.subrange(1, items.len() as int);
        match first_channel_form(rest, 0) {
            Some(k) => match parse_channel_spec(rest[k]) {
                Ok(c) => Ok(Some(c)),
                Err(m) => Err(m),
            },
            None => Ok(None),
        }
    }
}

fn parse_channel_or_wrapper(v: &SExp) -> (r: Result<Option<Channel>, GuixError>)
    ensures
        match channel_or_wrapper_spec(*v) {
            Ok(Some(c)) => r matches Ok(Some(ch)) && ch@ == c,
            Ok(None) => r matches Ok(None),
            Err(m) => r matches Err(e) && e matches GuixError::Parse(msg) && msg@ == m,
        },
{
    let items: &Vec<SExp> = match v {
        SExp::List(items, _) => items,
        _ => return Ok(None),
    };
    proof { lemma_nth_next(*v, 0); }
    if items.len() == 0 {
        return Ok(None);
    }
    assert(nth_next(*v, 0) is Some);
    if head_sym_is(v, "channel") {
        return match parse_channel(v) {
            Ok(c) => Ok(Some(c)),
            Err(e) => Err(e),
        };
    }
    let ghost rest = items@.subrange(1, items@.len() as int);
    let mut i: usize = 1;
    while i < items.len()
        invariant
            1 <= i <= items@.len(),
            *v is List,
            list_items(*v).unwrap() == items@,
            nth_next(*v, 0) is Some,
            !is_channel_form(*v),
            rest == items@.subrange(1, items@.len() as int),
            first_channel_form(rest, 0) == first_channel_form(rest, i - 1),
        decreases items@.len() - i,
    {
        let inner = &items[i];
        assert(rest[i - 1] == items@[i as int]);
        if head_sym_is(inner, "channel") {
            proof { lemma_nth_next(*inner, 0); }
            return match parse_channel(inner) {
                Ok(c) => Ok(Some(c)),
                Err(e) => Err(e),
            };
        }
        i += 1;
    }
    Ok(None)
}

/// The channels of a run of list elements, in order; the first error wins.
pub open spec fn elements_spec(elts: Seq<SExp>) -> Result<Seq<ChannelView>, Seq<char>>
    decreases elts.len(),
{
    if elts.len() == 0 {
        Ok(Seq::empty())
    } else {
        match elements_spec(elts.drop_last()) {
            Err(m) => Err(m),
            Ok(acc) => match channel_or_wrapper_spec(elts.last()) {
                Err(m) => Err(m),
                Ok(None) => Ok(acc),
                Ok(Some(c)) => Ok(acc.push(c)),
            },
        }
    }
}

fn parse_elements(items: &Vec<SExp>, from: usize, to: usize) -> (r: Result<Vec<Channel>, GuixError>)
    requires
        from <= to <= items@.len(),
    ensures
        match elements_spec(items@.subrange(from as int, to as int)) {
            Ok(cs) => r matches Ok(v) && channels_view(v@) == cs,
            Err(m) => r matches Err(e) && e matches GuixError::Parse(msg) && msg@ == m,
        },
{
    let mut out: Vec<Channel> = Vec::new();
    let mut i: usize = from;
    assert(items@.subrange(from as int, from as int) =~= Seq::<SExp>::empty());
    assert(channels_view(out@) =~= Seq::<ChannelView>::empty());
    while i < to
        invariant
            from <= i <= to <= items@.len(),
            elements_spec(items@.subrange(from as int, i as int)) == Ok::<Seq<ChannelView>, Seq<char>>(channels_view(out@)),
        decreases to - i,
    {
        let ghost prev = out@;
        assert(items@.subrange(from as int, i + 1).drop_last() =~= items@.subrange(from as int, i as int));
        assert(items@.subrange(from as int, i + 1).last() == items@[i as int]);
        match parse_channel_or_wrapper(&items[i]) {
            Err(e) => {
                proof { lemma_elements_err_prefix(items@, from as int, i + 1, to as int); }
                return Err(e);
            },
            Ok(None) => {},
            Ok(Some(c)) => {
                out.push(c);
                assert(channels_view(out@) =~= channels_view(prev).push(out@.last()@));
            },
        }
        i += 1;
    }
    Ok(out)
}

/// An error on a prefix is the error of the whole run.
proof fn lemma_elements_err_prefix(items: Seq<SExp>, from: int, i: int, to: int)
    requires
        0 <= from <= i <= to <= items.len(),
        elements_spec(items.subrange(from, i)) is Err,
    ensures
        elements_spec(items.subrange(from, to)) == elements_spec(items.subrange(from, i)),
    decreases to - i,
{
    if i < to {
        lemma_elements_err_prefix(items, from, i, to - 1);
        assert(items.subrange(from, to).drop_last() =~= items.subrange(from, to - 1));
    }
}

/// `(list ...)`: the channels after the head.
pub open spec fn explicit_spec(v: SExp) -> Result<Seq<ChannelView>, Seq<char>> {
    let items = list_items(v).unwrap();
    elements_spec(items.subrange(1, items.len() as int))
}

/// `(cons* ... %default-channels)` and `(cons CHANNEL %default-channels)`.
pub open spec fn cons_spec(v: SExp, head: Seq<char>) -> Result<Seq<ChannelView>, Seq<char>> {
    let items = list_items(v).unwrap();
    let elements = items.subrange(1, items.len() as int);
    if elements.len() == 0 {
        Err("channels: "@ + head + " form has no elements"@)
    } else if symbol_of(elements.last()) != Some("%default-channels"@) {
        Err("channels: "@ + head + " form must end in `%default-channels`, got "@ + sexp_debug(elements.last()))
    } else if head == "cons"@ && elements.len() - 1 != 1 {
        Err("channels: `cons` form must have exactly one channel + tail, got "@
            + crate::text::decimal((elements.len() - 1) as nat) + " channels"@)
    } else {
        elements_spec(elements.drop_last())
    }
}

/// The first top-level form headed `list`, `cons*` or `cons`, from `i` on.
pub open spec fn first_channels_form(forms: Seq<SExp>, i: int) -> Option<int>
    decreases forms.len() - i,
{
    if i < 0 || i >= forms.len() {
        None
    } else if sym_at(forms[i], 0) == Some("list"@) || sym_at(forms[i], 0) == Some("cons*"@)
        || sym_at(forms[i], 0) == Some("cons"@) {
        Some(i)
    } else {
        first_channels_form(forms, i + 1)
    }
}

/// What the channels parser makes of the top-level values read from a
/// text (and the reader's error, if it stopped early): the channels of the
/// first `list` / `cons*` / `cons` form and whether the defaults are
/// implied, or the error message.
pub open spec fn forms_list_spec(forms: Seq<SExp>, err: Option<String>) -> Result<(Seq<ChannelView>, bool), Seq<char>> {
    match first_channels_form(forms, 0) {
        Some(k) => {
            let v = forms[k];
            let h = sym_at(v, 0).unwrap();
            if h == "list"@ {
                match explicit_spec(v) {
                    Ok(cs) => Ok((cs, false)),
                    Err(m) => Err(m),
                }
            } else {
                match cons_spec(v, h) {
                    Ok(cs) => Ok((cs, true)),
                    Err(m) => Err(m),
                }
            }
        },
        None => match err {
            Some(e) => Err("channels: lexpr parse: "@ + e@),
            None => Err("channels: no `list` / `cons*` / `cons` form found"@),
        },
    }
}

/// What `parse_channels_list` makes of a text: the channels parser applied
/// to what `lexpr` reads from it.
pub open spec fn channels_list_spec(input: Seq<char>) -> Result<(Seq<ChannelView>, bool), Seq<char>> {
    let (forms, err) = lexpr_read_all(input);
    forms_list_spec(forms, err)
}

/// Takes the top-level values of a channels text apart: the first `list`,
/// `cons*` or `cons` form gives the channels; without one, the reader's
/// error, if any, is reported.
pub fn channels_list_from_forms(forms: &Vec<SExp>, err: Option<String>) -> (r: Result<ChannelsList, GuixError>)
    ensures
        match forms_list_spec(forms@, err) {
            Ok(l) => r matches Ok(cl) && list_view(cl) == l,
            Err(m) => r matches Err(e) && e matches GuixError::Parse(msg) && msg@ == m,
        },
{
    let mut k: usize = 0;
    while k < forms.len()
        invariant
            k <= forms@.len(),
            first_channels_form(forms@, 0) == first_channels_form(forms@, k as int),
        decreases forms@.len() - k,
    {
        let v = &forms[k];
        let is_list = head_sym_is(v, "list");
        let is_cons_star = head_sym_is(v, "cons*");
        let is_cons = head_sym_is(v, "cons");
        proof {
            if sym_at(*v, 0) is Some {
                lemma_nth_next(*v, 0);
            }
        }
        if is_list || is_cons_star || is_cons {
            proof {
                reveal_strlit("list");
                reveal_strlit("cons");
                reveal_strlit("cons*");
            }
            let items: &Vec<SExp> = match v {
                SExp::List(items, _) => items,
                _ => return Err(GuixError::Parse(String::from_str("channels: list form is not a list"))),
            };
            if is_list {
                let r = parse_elements(items, 1, items.len());
                return match r {
                    Ok(cs) => Ok(ChannelsList::Explicit(cs)),
                    Err(e) => Err(e),
                };
            }
            let head = if is_cons_star { "cons*" } else { "cons" };
            let n = items.len();
            if n < 2 {
                let mut m: Vec<char> = Vec::new();
                push_str(&mut m, "channels: ");
                push_str(&mut m, head);
                push_str(&mut m, " form has no elements");
                return Err(GuixError::Parse(string_of(&m)));
            }
            let tail_ok = match items[n - 1].as_symbol() {
                Some(s) => {
                    let c = chars_of(s.as_str());
                    eq_str(&c, "%default-channels")
                },
                None => false,
            };
            assert(items@.subrange(1, n as int).last() == items@[n - 1]);
            if !tail_ok {
                let mut m: Vec<char> = Vec::new();
                push_str(&mut m, "channels: ");
                push_str(&mut m, head);
                push_str(&mut m, " form must end in `%default-channels`, got ");
                let d = sexp_debug_string(&items[n - 1]);
                push_str(&mut m, d.as_str());
                return Err(GuixError::Parse(string_of(&m)));
            }
            if is_cons && !is_cons_star && n - 2 != 1 {
                let mut m: Vec<char> = Vec::new();
                push_str(&mut m, "channels: `cons` form must have exactly one channel + tail, got ");
                let d = crate::text::decimal_chars((n - 2) as u64);
                push_chars(&mut m, &d);
                push_str(&mut m, " channels");
                return Err(GuixError::Parse(string_of(&m)));
            }
            assert(items@.subrange(1, n as int).drop_last() =~= items@.subrange(1, n - 1));
            let r = parse_elements(items, 1, n - 1);
            return match r {
                Ok(cs) => Ok(ChannelsList::WithDefaults(cs)),
                Err(e) => Err(e),
            };
        }
        k += 1;
    }
    match err {
        Some(e) => {
            let mut m: Vec<char> = Vec::new();
            push_str(&mut m, "channels: lexpr parse: ");
            push_str(&mut m, e.as_str());
            Err(GuixError::Parse(string_of(&m)))
        },
        None => Err(GuixError::Parse(String::from_str("channels: no `list` / `cons*` / `cons` form found"))),
    }
}

/// The value of a `(KEY VALUE)` list with no dotted tail.
pub open spec fn keyed_value(f: SExp, key: Seq<char>) -> Option<SExp> {
    match f {
        SExp::List(items, None) => if items@.len() == 2 && symbol_of(items@[0]) == Some(key) {
            Some(items@[1])
        } else {
            None
        },
        _ => None,
    }
}

/// `'NAME`, which reads as `(quote NAME)`.
pub open spec fn quoted_symbol(v: SExp, name: Seq<char>) -> bool {
    keyed_value(v, "quote"@) matches Some(x) && symbol_of(x) == Some(name)
}

/// `(make-channel-introduction "COMMIT" (openpgp-fingerprint "FPR"))`.
pub open spec fn introduction_value(v: SExp, commit: Seq<char>, fpr: Seq<char>) -> bool {
    match v {
        SExp::List(items, None) => {
            &&& items@.len() == 3
            &&& symbol_of(items@[0]) == Some("make-channel-introduction"@)
            &&& str_of(items@[1]) == Some(commit)
            &&& keyed_value(items@[2], "openpgp-fingerprint"@) matches Some(f) && str_of(f) == Some(fpr)
        },
        _ => false,
    }
}

/// The value `lexpr` reads from the form `channel_to_sexp` writes for `ch`:
/// `(channel (name 'NAME) (url "URL") (branch "B") (commit "C")
/// (introduction (make-channel-introduction "IC" (openpgp-fingerprint "F"))))`,
/// where the branch and commit fields are there when set, and the
/// introduction when both of its parts are.
pub open spec fn written_channel_value(v: SExp, ch: ChannelView) -> bool {
    let nb: int = if ch.branch is Some { 1 } else { 0 };
    let nc: int = if ch.commit is Some { 1 } else { 0 };
    let ni: int = if ch.introduction_commit is Some && ch.introduction_fingerprint is Some { 1 } else { 0 };
    match v {
        SExp::List(items, None) => {
            &&& items@.len() == 3 + nb + nc + ni
            &&& symbol_of(items@[0]) == Some("channel"@)
            &&& keyed_value(items@[1], "name"@) matches Some(n) && quoted_symbol(n, ch.name)
            &&& keyed_value(items@[2], "url"@) matches Some(u) && str_of(u) == Some(ch.url)
            &&& ch.branch matches Some(b) ==> (keyed_value(items@[3], "branch"@) matches Some(x) && str_of(x) == Some(b))
            &&& ch.commit matches Some(c) ==> (keyed_value(items@[3 + nb], "commit"@) matches Some(x) && str_of(x) == Some(c))
            &&& ni == 1 ==> (keyed_value(items@[3 + nb + nc], "introduction"@) matches Some(x)
                && introduction_value(x, ch.introduction_commit.unwrap(), ch.introduction_fingerprint.unwrap()))
        },
        _ => false,
    }
}

proof fn lemma_fields_push(fs: Seq<SExp>, f: SExp)
    ensures
        fields_of(fs.push(f)) == field_step(fields_of(fs), f),
{
    assert(fs.push(f).drop_last() =~= fs);
}

/// A `(KEY VALUE)` list is read as the field `KEY` with that value.
proof fn lemma_keyed(f: SExp, key: Seq<char>)
    requires
        keyed_value(f, key) is Some,
    ensures
        f is List,
        sym_at(f, 0) == Some(key),
        nth_next(f, 1) == keyed_value(f, key),
{
    lemma_nth_next(f, 0);
    lemma_nth_next(f, 1);
}

/// A channel written by `channel_to_sexp` reads back as the same channel:
/// the form `(list V)`, where `V` is the value read from the channel's
/// written form, is parsed as exactly that one channel, listed explicitly.
/// (The writer drops an introduction of which only one part is set, so
/// such a channel does not come back unchanged.)
pub proof fn lemma_written_channel_reads_back(forms: Seq<SExp>, err: Option<String>, ch: ChannelView)
    requires
        forms.len() >= 1,
        forms[0] matches SExp::List(items, None) && items@.len() == 2 && symbol_of(items@[0]) == Some("list"@)
            && written_channel_value(items@[1], ch),
        ch.introduction_commit is Some == ch.introduction_fingerprint is Some,
    ensures
        forms_list_spec(forms, err) == Ok::<(Seq<ChannelView>, bool), Seq<char>>((seq![ch], false)),
{
    reveal_strlit("name");
    reveal_strlit("url");
    reveal_strlit("branch");
    reveal_strlit("commit");
    reveal_strlit("introduction");
    assert("name"@.len() == 4 && "url"@.len() == 3 && "introduction"@.len() == 12);
    assert("branch"@.len() == 6 && "branch"@[0] == 'b' && "commit"@.len() == 6 && "commit"@[0] == 'c');
    let top = forms[0];
    let outer = list_items(top).unwrap();
    let v = outer[1];
    lemma_nth_next(top, 0);
    assert(sym_at(top, 0) == Some("list"@));
    assert(first_channels_form(forms, 0) == Some(0int));
    let items = list_items(v).unwrap();
    lemma_nth_next(v, 0);
    assert(is_channel_form(v));
    let nb: int = if ch.branch is Some { 1 } else { 0 };
    let nc: int = if ch.commit is Some { 1 } else { 0 };
    let ni: int = if ch.introduction_commit is Some && ch.introduction_fingerprint is Some { 1 } else { 0 };
    // name
    let fname = items[1];
    lemma_keyed(fname, "name"@);
    let nv = keyed_value(fname, "name"@).unwrap();
    lemma_keyed(nv, "quote"@);
    assert(sym_or_string_spec(nv) == Some(ch.name));
    assert(items.subrange(1, 1) =~= Seq::<SExp>::empty());
    assert(items.subrange(1, 2) =~= items.subrange(1, 1).push(fname));
    lemma_fields_push(items.subrange(1, 1), fname);
    let st1 = fields_of(items.subrange(1, 2));
    assert(st1 == field_step(no_fields(), fname));
    assert(st1.name == Some(ch.name));
    // url
    let furl = items[2];
    lemma_keyed(furl, "url"@);
    assert(items.subrange(1, 3) =~= items.subrange(1, 2).push(furl));
    lemma_fields_push(items.subrange(1, 2), furl);
    assert(fields_of(items.subrange(1, 3)) == field_step(st1, furl));
    let st2 = fields_of(items.subrange(1, 3));
    assert(st2.name == Some(ch.name) && st2.url == Some(ch.url));
    // branch
    if nb == 1 {
        let f = items[3];
        lemma_keyed(f, "branch"@);
        assert(items.subrange(1, 4) =~= items.subrange(1, 3).push(f));
        lemma_fields_push(items.subrange(1, 3), f);
    }
    let st3 = fields_of(items.subrange(1, 3 + nb));
    assert(st3 == FieldsView { branch: ch.branch, ..st2 });
    // commit
    if nc == 1 {
        let f = items[3 + nb];
        lemma_keyed(f, "commit"@);
        assert(items.subrange(1, 4 + nb) =~= items.subrange(1, 3 + nb).push(f));
        lemma_fields_push(items.subrange(1, 3 + nb), f);
    }
    let st4 = fields_of(items.subrange(1, 3 + nb + nc));
    assert(st4 == FieldsView { commit: ch.commit, ..st3 });
    // introduction
    if ni == 1 {
        let f = items[3 + nb + nc];
        lemma_keyed(f, "introduction"@);
        let iv = keyed_value(f, "introduction"@).unwrap();
        lemma_nth_next(iv, 0);
        lemma_nth_next(iv, 1);
        lemma_nth_next(iv, 2);
        let fp = list_items(iv).unwrap()[2];
        lemma_keyed(fp, "openpgp-fingerprint"@);
        assert(introduction_spec(iv) == (ch.introduction_commit, ch.introduction_fingerprint));
        assert(items.subrange(1, 4 + nb + nc) =~= items.subrange(1, 3 + nb + nc).push(f));
        lemma_fields_push(items.subrange(1, 3 + nb + nc), f);
    }
    let st5 = fields_of(items.subrange(1, items.len() as int));
    assert(st5 == FieldsView { intro_commit: ch.introduction_commit, intro_fpr: ch.introduction_fingerprint, ..st4 });
    assert(parse_channel_spec(v) == Ok::<ChannelView, Seq<char>>(ch));
    assert(channel_or_wrapper_spec(v) == Ok::<Option<ChannelView>, Seq<char>>(Some(ch)));
    let elts = outer.subrange(1, 2);
    assert(elts.drop_last() =~= Seq::<SExp>::empty());
    assert(elts.last() == v);
    assert(elements_spec(elts) == Ok::<Seq<ChannelView>, Seq<char>>(Seq::<ChannelView>::empty().push(ch)));
    assert(Seq::<ChannelView>::empty().push(ch) =~= seq![ch]);
}

/// Parses a channels file into its top-level shape and channels.
pub fn parse_channels_list(input: &str) -> (r: Result<ChannelsList, GuixError>)
    ensures
        match channels_list_spec(input@) {
            Ok(l) => r matches Ok(cl) && list_view(cl) == l,
            Err(m) => r matches Err(e) && e matches GuixError::Parse(msg) && msg@ == m,
        },
{
    let (forms, err) = read_sexps(input);
    channels_list_from_forms(&forms, err)
}

/// The flat channel set of a channels text.
pub fn parse_channels(input: &str) -> (r: Result<Vec<Channel>, GuixError>)
    ensures
        match channels_list_spec(input@) {
            Ok(l) => r matches Ok(v) && channels_view(v@) == l.0,
            Err(m) => r matches Err(e) && e matches GuixError::Parse(msg) && msg@ == m,
        },
{
    match parse_channels_list(input) {
        Ok(l) => Ok(l.into_channels()),
        Err(e) => Err(e),
    }
}

/// The channels of a `guix describe -f channels` output.
pub fn channels_from_output(out: &[u8]) -> (r: Result<Vec<Channel>, GuixError>)
    ensures
        match channels_list_spec(crate::lines::utf8_lossy(out@)) {
            Ok(l) => r matches Ok(v) && channels_view(v@) == l.0,
            Err(m) => r matches Err(e) && e matches GuixError::Parse(msg) && msg@ == m,
        },
{
    let s = crate::lines::decode_lossy(out);
    parse_channels(s.as_str())
}

/// `guix describe -f channels`.
pub fn describe_args(profile: Option<&str>) -> (r: Vec<String>)
    ensures
        crate::types::strings_view(r@) == crate::cmd::guix_argv_spec(
            match profile { Some(p) => Some(p@), None => None },
            true,
            seq!["describe"@, "-f"@, "channels"@],
        ),
{
    let args: [&str; 3] = ["describe", "-f", "channels"];
    let r = crate::cmd::guix_argv(profile, true, &args);
    assert(crate::repl_op::strs_view(args@) =~= seq!["describe"@, "-f"@, "channels"@]);
    r
}

} // verus!
