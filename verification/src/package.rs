//! Package queries: the REPL form behind the fast search and the reading
//! of its reply, the `guix package` argument vectors, and the mapping of
//! recutils records to package summaries and details.

use vstd::prelude::*;
use crate::text::{chars_of, string_of, push_str, push_chars, decimal, decimal_chars, trim_spec, trim_chars};
use crate::sexp::{SExp, str_of, symbol_of, list_items};
use crate::repl_op::{scheme_literal, push_scheme_escaped};
use crate::recutils::{Record, record_get, fields_view, outputs_spec, parse_outputs, ws_tokens, split_ws};
use crate::types::{PackageSummary, PackageDetail, strings_view, opt_view};
use crate::error::GuixError;
use crate::recutils::{parse, recutils_spec, records_view};
use crate::lines::{decode_lossy, utf8_lossy};
use crate::cmd::{guix_argv, guix_argv_spec};
use crate::repl_op::{strs_view, build_package_payload, payload_outcome};

verus! {

/// The default cap on fast-search results.
pub const DEFAULT_SEARCH_LIMIT: usize = 200;

/// A capped search: the hits, whether the cap cut the search short, and
/// the cap used.
#[derive(Debug, Clone)]
pub struct SearchFastResult {
    pub results: Vec<PackageSummary>,
    pub truncated: bool,
    pub limit: usize,
}

/// A Scheme string literal for a search query.
pub fn scheme_str_escape(s: &str) -> (r: String)
    ensures
        r@ == scheme_literal(s@),
{
    let mut out: Vec<char> = Vec::new();
    out.push('"');
    push_scheme_escaped(&mut out, s);
    out.push('"');
    string_of(&out)
}

/// The first part of the search form, before the limit.
pub const SEARCH_FORM_HEAD: &'static str = "(let* ((limit ";

/// The part of the search form between the limit and the query.
pub const SEARCH_FORM_MID: &'static str = ") (count 0) (truncated? #f) (homepage->str (lambda (h) (if (string? h) h \"\"))) (str-or-empty (lambda (x) (cond ((string? x) x) ((not x) \"\") (else (format #f \"~a\" x))))) (one-license->str (lambda (l) (cond ((not l) \"\") ((and (record? l) (false-if-exception (license-name l))) => (lambda (n) (if (string? n) n (format #f \"~a\" n)))) (else (format #f \"~a\" l))))) (license->str (lambda (l) (cond ((not l) \"\") ((list? l) (string-join (map one-license->str l) \", \")) (else (one-license->str l))))) (acc (call-with-current-continuation (lambda (return) (fold-packages (lambda (p a) (if (string-contains (package-name p) ";

/// The rest of the search form, after the query.
pub const SEARCH_FORM_TAIL: &'static str = ") (let ((a* (cons (list (package-name p) (package-version p) (str-or-empty (package-synopsis p)) (str-or-empty (package-description p)) (homepage->str (package-home-page p)) (license->str (package-license p)) (package-outputs p)) a))) (set! count (+ count 1)) (if (>= count limit) (begin (set! truncated? #t) (return a*)) a*)) a)) '()))))) (cons truncated? acc))";

/// The cap actually used: at least 1.
pub open spec fn effective_limit(limit: usize) -> usize {
    if limit < 1 { 1 } else { limit }
}

/// The fast-search form: folds over every package whose name contains
/// the query, stopping after `limit` hits, and returns
/// `(truncated? . records)`.
pub open spec fn search_form_spec(query: Seq<char>, limit: usize) -> Seq<char> {
    SEARCH_FORM_HEAD@ + decimal(effective_limit(limit) as nat) + SEARCH_FORM_MID@ + scheme_literal(query)
        + SEARCH_FORM_TAIL@
}

pub fn search_form(query: &str, limit: usize) -> (r: String)
    ensures
        r@ == search_form_spec(query@, limit),
{
    let lim = if limit < 1 { 1 } else { limit };
    let mut out: Vec<char> = Vec::new();
    push_str(&mut out, SEARCH_FORM_HEAD);
    let d = decimal_chars(lim as u64);
    push_chars(&mut out, &d);
    push_str(&mut out, SEARCH_FORM_MID);
    out.push('"');
    push_scheme_escaped(&mut out, query);
    out.push('"');
    push_str(&mut out, SEARCH_FORM_TAIL);
    string_of(&out)
}

/// A package summary as values.
pub struct SummaryVals {
    pub name: Seq<char>,
    pub version: Seq<char>,
    pub synopsis: Seq<char>,
    pub description: Seq<char>,
    pub homepage: Seq<char>,
    pub license: Seq<char>,
    pub outputs: Seq<Seq<char>>,
}

pub open spec fn summary_vals(p: PackageSummary) -> SummaryVals {
    SummaryVals {
        name: p.name@,
        version: p.version@,
        synopsis: p.synopsis@,
        description: p.description@,
        homepage: p.homepage@,
        license: p.license@,
        outputs: strings_view(p.outputs@),
    }
}

/// A string or symbol's text; empty for anything else.
pub open spec fn value_text(v: SExp) -> Seq<char> {
    match str_of(v) {
        Some(s) => s,
        None => match symbol_of(v) {
            Some(s) => s,
            None => Seq::empty(),
        },
    }
}

/// The non-empty texts of a list's elements.
pub open spec fn nonempty_texts(items: Seq<SExp>) -> Seq<Seq<char>>
    decreases items.len(),
{
    if items.len() == 0 {
        Seq::empty()
    } else {
        nonempty_texts(items.drop_last()) + if value_text(items.last()).len() > 0 {
            seq![value_text(items.last())]
        } else {
            Seq::empty()
        }
    }
}

/// The texts of a non-empty list; empty otherwise.
pub open spec fn value_texts(v: SExp) -> Seq<Seq<char>> {
    match list_items(v) {
        Some(items) => if items.len() > 0 { nonempty_texts(items) } else { Seq::empty() },
        None => Seq::empty(),
    }
}

/// Field `i` of a search record (empty when missing).
pub open spec fn field_text(items: Seq<SExp>, i: int) -> Seq<char> {
    if i < items.len() { value_text(items[i]) } else { Seq::empty() }
}

/// A search record `(name version synopsis description homepage license
/// (outputs ...))`; records that are not non-empty lists are skipped, and
/// no outputs means `("out")`.
pub open spec fn record_vals(rec: SExp) -> Option<SummaryVals> {
    match list_items(rec) {
        Some(items) => if items.len() > 0 {
            let outs = if items.len() > 6 { value_texts(items[6]) } else { Seq::empty() };
            Some(SummaryVals {
                name: field_text(items, 0),
                version: field_text(items, 1),
                synopsis: field_text(items, 2),
                description: field_text(items, 3),
                homepage: field_text(items, 4),
                license: field_text(items, 5),
                outputs: if outs.len() == 0 { seq!["out"@] } else { outs },
            })
        } else {
            None
        },
        None => None,
    }
}

/// Every element is a non-empty string.
pub open spec fn all_nonempty_strings(items: Seq<SExp>) -> bool {
    forall|k: int| 0 <= k < items.len() ==> (#[trigger] str_of(items[k])) is Some && str_of(items[k]).unwrap().len() > 0
}

/// A list of non-empty strings gives back every one of them, in order.
pub proof fn lemma_nonempty_strings_kept(items: Seq<SExp>)
    requires
        all_nonempty_strings(items),
    ensures
        nonempty_texts(items).len() == items.len(),
        forall|k: int| 0 <= k < items.len() ==> #[trigger] nonempty_texts(items)[k] == str_of(items[k]).unwrap(),
    decreases items.len(),
{
    if items.len() > 0 {
        let init = items.drop_last();
        assert forall|k: int| 0 <= k < init.len() implies (#[trigger] str_of(init[k])) is Some && str_of(init[k]).unwrap().len() > 0 by {
            assert(init[k] == items[k]);
        }
        lemma_nonempty_strings_kept(init);
        let last = items.last();
        assert(str_of(items[items.len() - 1]) is Some);
        assert(value_text(last) == str_of(last).unwrap());
        assert forall|k: int| 0 <= k < items.len() implies #[trigger] nonempty_texts(items)[k] == str_of(items[k]).unwrap() by {
            if k < init.len() {
                assert(init[k] == items[k]);
            }
        }
    }
}

/// The outputs of a search record whose seventh field is a non-empty list
/// of non-empty strings are exactly those strings, in order.
pub proof fn lemma_search_record_outputs(rec: SExp)
    requires
        list_items(rec) is Some,
        list_items(rec).unwrap().len() > 6,
        list_items(list_items(rec).unwrap()[6]) is Some,
        list_items(list_items(rec).unwrap()[6]).unwrap().len() > 0,
        all_nonempty_strings(list_items(list_items(rec).unwrap()[6]).unwrap()),
    ensures
        record_vals(rec) is Some,
        record_vals(rec).unwrap().outputs.len() == list_items(list_items(rec).unwrap()[6]).unwrap().len(),
        forall|k: int| 0 <= k < list_items(list_items(rec).unwrap()[6]).unwrap().len()
            ==> #[trigger] record_vals(rec).unwrap().outputs[k] == str_of(list_items(list_items(rec).unwrap()[6]).unwrap()[k]).unwrap(),
{
    let outs = list_items(list_items(rec).unwrap()[6]).unwrap();
    lemma_nonempty_strings_kept(outs);
}

/// The summaries of a run of records, in order.
pub open spec fn records_vals(rs: Seq<SExp>) -> Seq<SummaryVals>
    decreases rs.len(),
{
    if rs.len() == 0 {
        Seq::empty()
    } else {
        records_vals(rs.drop_last()) + match record_vals(rs.last()) {
            Some(v) => seq![v],
            None => Seq::empty(),
        }
    }
}

fn value_to_string(v: &SExp) -> (r: String)
    ensures
        r@ == value_text(*v),
{
    match v {
        SExp::Str(s) => s.clone(),
        SExp::Symbol(s) => s.clone(),
        _ => String::new(),
    }
}

fn value_to_string_list(v: &SExp) -> (r: Vec<String>)
    ensures
        strings_view(r@) == value_texts(*v),
{
    let mut out: Vec<String> = Vec::new();
    let items = match v {
        SExp::List(items, _) => items,
        _ => return out,
    };
    if items.len() == 0 {
        return out;
    }
    let mut i: usize = 0;
    assert(items@.subrange(0, 0) =~= Seq::<SExp>::empty());
    assert(strings_view(out@) =~= Seq::<Seq<char>>::empty());
    while i < items.len()
        invariant
            i <= items@.len(),
            strings_view(out@) == nonempty_texts(items@.subrange(0, i as int)),
        decreases items@.len() - i,
    {
        assert(items@.subrange(0, i + 1).drop_last() =~= items@.subrange(0, i as int));
        assert(items@.subrange(0, i + 1).last() == items@[i as int]);
        let ghost before = strings_view(out@);
        let s = value_to_string(&items[i]);
        if s.as_str().unicode_len() > 0 {
            out.push(s);
            assert(strings_view(out@) =~= before.push(s@));
        } else {
            assert(before + Seq::<Seq<char>>::empty() =~= before);
        }
        i += 1;
    }
    assert(items@.subrange(0, items@.len() as int) =~= items@);
    out
}

fn field_at(items: &Vec<SExp>, i: usize) -> (r: String)
    ensures
        r@ == field_text(items@, i as int),
{
    if i < items.len() { value_to_string(&items[i]) } else { String::new() }
}

/// The summaries of the search records.
pub fn parse_records(records: &[SExp]) -> (r: Vec<PackageSummary>)
    ensures
        r@.map_values(|p: PackageSummary| summary_vals(p)) == records_vals(records@),
{
    let mut out: Vec<PackageSummary> = Vec::new();
    let mut k: usize = 0;
    assert(records@.subrange(0, 0) =~= Seq::<SExp>::empty());
    assert(out@.map_values(|p: PackageSummary| summary_vals(p)) =~= Seq::<SummaryVals>::empty());
    while k < records.len()
        invariant
            k <= records@.len(),
            out@.map_values(|p: PackageSummary| summary_vals(p)) == records_vals(records@.subrange(0, k as int)),
        decreases records@.len() - k,
    {
        assert(records@.subrange(0, k + 1).drop_last() =~= records@.subrange(0, k as int));
        assert(records@.subrange(0, k + 1).last() == records@[k as int]);
        let ghost before = out@.map_values(|p: PackageSummary| summary_vals(p));
        match &records[k] {
            SExp::List(items, _) => {
                if items.len() > 0 {
                    let mut outputs = if items.len() > 6 { value_to_string_list(&items[6]) } else { Vec::new() };
                    if outputs.len() == 0 {
                        outputs.push(String::from_str("out"));
                        assert(strings_view(outputs@) =~= seq!["out"@]);
                    } else {
                        assert(strings_view(outputs@).len() > 0);
                    }
                    let p = PackageSummary {
                        name: field_at(items, 0),
                        version: field_at(items, 1),
                        synopsis: field_at(items, 2),
                        description: field_at(items, 3),
                        homepage: field_at(items, 4),
                        license: field_at(items, 5),
                        outputs,
                    };
                    out.push(p);
                    assert(out@.map_values(|p: PackageSummary| summary_vals(p)) =~= before.push(summary_vals(p)));
                } else {
                    assert(before + Seq::<SummaryVals>::empty() =~= before);
                }
            },
            _ => {
                assert(before + Seq::<SummaryVals>::empty() =~= before);
            },
        }
        k += 1;
    }
    assert(records@.subrange(0, records@.len() as int) =~= records@);
    out
}

/// How the search reply `(truncated? . records)` reads: whether the cap
/// was hit (`#f` unless the head is `#t`), and the records after it.
pub open spec fn search_reply_spec(v: SExp) -> (bool, Seq<SummaryVals>) {
    match v {
        SExp::List(items, _) => if items@.len() == 0 {
            (false, Seq::empty())
        } else {
            (match items@[0] { SExp::Bool(b) => b, _ => false },
             records_vals(items@.subrange(1, items@.len() as int)))
        },
        _ => (false, Seq::empty()),
    }
}

/// Reads the search reply.
pub fn search_result(v: &SExp, limit: usize) -> (r: SearchFastResult)
    ensures
        r.truncated == search_reply_spec(*v).0,
        r.results@.map_values(|p: PackageSummary| summary_vals(p)) == search_reply_spec(*v).1,
        r.limit == effective_limit(limit),
{
    let lim = if limit < 1 { 1 } else { limit };
    match v {
        SExp::List(items, _) => {
            if items.len() == 0 {
                let results: Vec<PackageSummary> = Vec::new();
                assert(results@.map_values(|p: PackageSummary| summary_vals(p)) =~= Seq::<SummaryVals>::empty());
                return SearchFastResult { results, truncated: false, limit: lim };
            }
            let truncated = match items[0].as_bool() {
                Some(b) => b,
                None => false,
            };
            let n = items.len();
            let rest = vstd::slice::slice_subrange(items.as_slice(), 1, n);
            let results = parse_records(rest);
            SearchFastResult { results, truncated, limit: lim }
        },
        _ => {
            let results: Vec<PackageSummary> = Vec::new();
            assert(results@.map_values(|p: PackageSummary| summary_vals(p)) =~= Seq::<SummaryVals>::empty());
            SearchFastResult { results, truncated: false, limit: lim }
        },
    }
}

/// A field's value, or the empty text when the record lacks it.
pub open spec fn text_or_empty(o: Option<Seq<char>>) -> Seq<char> {
    match o {
        Some(v) => v,
        None => Seq::empty(),
    }
}

/// A field's value when present and non-empty.
pub open spec fn nonempty_field(o: Option<Seq<char>>) -> Option<Seq<char>> {
    match o {
        Some(v) => if v.len() > 0 { Some(v) } else { None },
        None => None,
    }
}

/// The summary a `guix package -s` record gives: missing fields are
/// empty, the synopsis is trimmed, the outputs are read from their field.
pub open spec fn record_summary(fs: Seq<(Seq<char>, Seq<char>)>) -> SummaryVals {
    SummaryVals {
        name: text_or_empty(record_get(fs, "name"@)),
        version: text_or_empty(record_get(fs, "version"@)),
        synopsis: trim_spec(text_or_empty(record_get(fs, "synopsis"@))),
        description: text_or_empty(record_get(fs, "description"@)),
        homepage: text_or_empty(record_get(fs, "homepage"@)),
        license: text_or_empty(record_get(fs, "license"@)),
        outputs: match record_get(fs, "outputs"@) {
            Some(v) => outputs_spec(v),
            None => Seq::empty(),
        },
    }
}

/// `i` is the position of the first field named `key`.
pub open spec fn first_field_at(fs: Seq<(Seq<char>, Seq<char>)>, key: Seq<char>, i: int) -> bool {
    &&& 0 <= i < fs.len()
    &&& fs[i].0 == key
    &&& forall|j: int| 0 <= j < i ==> fs[j].0 != key
}

/// Looking a key up finds the first field with that name.
pub proof fn lemma_record_get_first(fs: Seq<(Seq<char>, Seq<char>)>, key: Seq<char>, i: int)
    requires
        first_field_at(fs, key, i),
    ensures
        record_get(fs, key) == Some(fs[i].1),
    decreases fs.len(),
{
    if i > 0 {
        assert(fs[0].0 != key);
        let rest = fs.drop_first();
        assert forall|j: int| 0 <= j < i - 1 implies rest[j].0 != key by {
            assert(rest[j] == fs[j + 1]);
        }
        lemma_record_get_first(rest, key, i - 1);
    }
}

/// Looking up a key no field has finds nothing.
pub proof fn lemma_record_get_absent(fs: Seq<(Seq<char>, Seq<char>)>, key: Seq<char>)
    requires
        forall|j: int| 0 <= j < fs.len() ==> fs[j].0 != key,
    ensures
        record_get(fs, key) is None,
    decreases fs.len(),
{
    if fs.len() > 0 {
        let rest = fs.drop_first();
        assert forall|j: int| 0 <= j < rest.len() implies rest[j].0 != key by {
            assert(rest[j] == fs[j + 1]);
        }
        lemma_record_get_absent(rest, key);
    }
}

/// A package detail as values.
pub struct DetailVals {
    pub name: Seq<char>,
    pub version: Seq<char>,
    pub synopsis: Seq<char>,
    pub description: Seq<char>,
    pub homepage: Option<Seq<char>>,
    pub license: Option<Seq<char>>,
    pub location: Option<Seq<char>>,
    pub outputs: Seq<Seq<char>>,
    pub systems: Seq<Seq<char>>,
    pub dependencies: Seq<Seq<char>>,
}

pub open spec fn detail_vals(d: PackageDetail) -> DetailVals {
    DetailVals {
        name: d.name@,
        version: d.version@,
        synopsis: d.synopsis@,
        description: d.description@,
        homepage: opt_view(d.homepage),
        license: opt_view(d.license),
        location: opt_view(d.location),
        outputs: strings_view(d.outputs@),
        systems: strings_view(d.systems@),
        dependencies: strings_view(d.dependencies@),
    }
}

/// The detail a `guix package --show` record gives: empty optional fields
/// are absent, systems and dependencies are whitespace-separated lists.
pub open spec fn record_detail(fs: Seq<(Seq<char>, Seq<char>)>) -> DetailVals {
    DetailVals {
        name: text_or_empty(record_get(fs, "name"@)),
        version: text_or_empty(record_get(fs, "version"@)),
        synopsis: trim_spec(text_or_empty(record_get(fs, "synopsis"@))),
        description: text_or_empty(record_get(fs, "description"@)),
        homepage: nonempty_field(record_get(fs, "homepage"@)),
        license: nonempty_field(record_get(fs, "license"@)),
        location: nonempty_field(record_get(fs, "location"@)),
        outputs: match record_get(fs, "outputs"@) {
            Some(v) => outputs_spec(v),
            None => Seq::empty(),
        },
        systems: match record_get(fs, "systems"@) {
            Some(v) => ws_tokens(v),
            None => Seq::empty(),
        },
        dependencies: match record_get(fs, "dependencies"@) {
            Some(v) => ws_tokens(v),
            None => Seq::empty(),
        },
    }
}

/// A detail's license is the first `license` field when it is non-empty,
/// and absent when that field is empty or missing; the other fields of the
/// record play no part.
pub proof fn lemma_detail_license(fs: Seq<(Seq<char>, Seq<char>)>)
    ensures
        forall|i: int| first_field_at(fs, "license"@, i) && fs[i].1.len() > 0
            ==> record_detail(fs).license == Some(fs[i].1),
        forall|i: int| first_field_at(fs, "license"@, i) && fs[i].1.len() == 0
            ==> record_detail(fs).license is None,
        (forall|j: int| 0 <= j < fs.len() ==> fs[j].0 != "license"@) ==> record_detail(fs).license is None,
{
    assert forall|i: int| first_field_at(fs, "license"@, i) implies record_get(fs, "license"@) == Some(fs[i].1) by {
        lemma_record_get_first(fs, "license"@, i);
    }
    if forall|j: int| 0 <= j < fs.len() ==> fs[j].0 != "license"@ {
        lemma_record_get_absent(fs, "license"@);
    }
}

/// The same for the homepage and the location: the first field of that
/// name when non-empty, otherwise absent.
pub proof fn lemma_detail_homepage_location(fs: Seq<(Seq<char>, Seq<char>)>)
    ensures
        forall|i: int| first_field_at(fs, "homepage"@, i)
            ==> record_detail(fs).homepage == (if fs[i].1.len() > 0 { Some(fs[i].1) } else { None }),
        (forall|j: int| 0 <= j < fs.len() ==> fs[j].0 != "homepage"@) ==> record_detail(fs).homepage is None,
        forall|i: int| first_field_at(fs, "location"@, i)
            ==> record_detail(fs).location == (if fs[i].1.len() > 0 { Some(fs[i].1) } else { None }),
        (forall|j: int| 0 <= j < fs.len() ==> fs[j].0 != "location"@) ==> record_detail(fs).location is None,
{
    assert forall|i: int| first_field_at(fs, "homepage"@, i) implies record_get(fs, "homepage"@) == Some(fs[i].1) by {
        lemma_record_get_first(fs, "homepage"@, i);
    }
    assert forall|i: int| first_field_at(fs, "location"@, i) implies record_get(fs, "location"@) == Some(fs[i].1) by {
        lemma_record_get_first(fs, "location"@, i);
    }
    if forall|j: int| 0 <= j < fs.len() ==> fs[j].0 != "homepage"@ {
        lemma_record_get_absent(fs, "homepage"@);
    }
    if forall|j: int| 0 <= j < fs.len() ==> fs[j].0 != "location"@ {
        lemma_record_get_absent(fs, "location"@);
    }
}

/// A detail's name and version are the first fields of those names (empty
/// when missing).
pub proof fn lemma_detail_name_version(fs: Seq<(Seq<char>, Seq<char>)>)
    ensures
        forall|i: int| first_field_at(fs, "name"@, i) ==> record_detail(fs).name == fs[i].1,
        forall|i: int| first_field_at(fs, "version"@, i) ==> record_detail(fs).version == fs[i].1,
        forall|i: int| first_field_at(fs, "name"@, i) ==> record_summary(fs).name == fs[i].1,
        forall|i: int| first_field_at(fs, "version"@, i) ==> record_summary(fs).version == fs[i].1,
        forall|i: int| first_field_at(fs, "license"@, i) ==> record_summary(fs).license == fs[i].1,
        forall|i: int| first_field_at(fs, "homepage"@, i) ==> record_summary(fs).homepage == fs[i].1,
{
    assert forall|i: int| first_field_at(fs, "name"@, i) implies record_get(fs, "name"@) == Some(fs[i].1) by {
        lemma_record_get_first(fs, "name"@, i);
    }
    assert forall|i: int| first_field_at(fs, "version"@, i) implies record_get(fs, "version"@) == Some(fs[i].1) by {
        lemma_record_get_first(fs, "version"@, i);
    }
    assert forall|i: int| first_field_at(fs, "license"@, i) implies record_get(fs, "license"@) == Some(fs[i].1) by {
        lemma_record_get_first(fs, "license"@, i);
    }
    assert forall|i: int| first_field_at(fs, "homepage"@, i) implies record_get(fs, "homepage"@) == Some(fs[i].1) by {
        lemma_record_get_first(fs, "homepage"@, i);
    }
}

fn field_or_empty(r: &Record, key: &str) -> (s: String)
    ensures
        s@ == text_or_empty(record_get(fields_view(r.fields@), key@)),
{
    match r.get(key) {
        Some(v) => v.clone(),
        None => String::new(),
    }
}

fn field_nonempty(r: &Record, key: &str) -> (s: Option<String>)
    ensures
        opt_view(s) == nonempty_field(record_get(fields_view(r.fields@), key@)),
{
    match r.get(key) {
        Some(v) => if v.as_str().unicode_len() > 0 { Some(v.clone()) } else { None },
        None => None,
    }
}

fn field_outputs(r: &Record) -> (v: Vec<String>)
    ensures
        strings_view(v@) == (match record_get(fields_view(r.fields@), "outputs"@) {
            Some(t) => outputs_spec(t),
            None => Seq::empty(),
        }),
{
    match r.get("outputs") {
        Some(t) => parse_outputs(t.as_str()),
        None => {
            let v: Vec<String> = Vec::new();
            assert(strings_view(v@) =~= Seq::<Seq<char>>::empty());
            v
        },
    }
}

fn field_tokens(r: &Record, key: &str) -> (v: Vec<String>)
    ensures
        strings_view(v@) == (match record_get(fields_view(r.fields@), key@) {
            Some(t) => ws_tokens(t),
            None => Seq::empty(),
        }),
{
    match r.get(key) {
        Some(t) => split_ws(t.as_str()),
        None => {
            let v: Vec<String> = Vec::new();
            assert(strings_view(v@) =~= Seq::<Seq<char>>::empty());
            v
        },
    }
}

/// The summary of a search record.
pub fn record_to_summary(r: &Record) -> (p: PackageSummary)
    ensures
        summary_vals(p) == record_summary(fields_view(r.fields@)),
{
    let synopsis = field_or_empty(r, "synopsis");
    let sc = chars_of(synopsis.as_str());
    let st = trim_chars(&sc);
    PackageSummary {
        name: field_or_empty(r, "name"),
        version: field_or_empty(r, "version"),
        synopsis: string_of(&st),
        description: field_or_empty(r, "description"),
        homepage: field_or_empty(r, "homepage"),
        license: field_or_empty(r, "license"),
        outputs: field_outputs(r),
    }
}

/// The detail of a `--show` record.
pub fn record_to_detail(r: &Record) -> (d: PackageDetail)
    ensures
        detail_vals(d) == record_detail(fields_view(r.fields@)),
{
    let synopsis = field_or_empty(r, "synopsis");
    let sc = chars_of(synopsis.as_str());
    let st = trim_chars(&sc);
    PackageDetail {
        name: field_or_empty(r, "name"),
        version: field_or_empty(r, "version"),
        synopsis: string_of(&st),
        description: field_or_empty(r, "description"),
        homepage: field_nonempty(r, "homepage"),
        license: field_nonempty(r, "license"),
        location: field_nonempty(r, "location"),
        outputs: field_outputs(r),
        systems: field_tokens(r, "systems"),
        dependencies: field_tokens(r, "dependencies"),
    }
}

/// The summaries of all the records of a `guix package -s` output.
pub fn search_from_output(out: &[u8]) -> (r: Result<Vec<PackageSummary>, GuixError>)
    ensures
        match recutils_spec(utf8_lossy(out@)) {
            Ok(rs) => r matches Ok(v) && v@.map_values(|p: PackageSummary| summary_vals(p))
                == rs.map_values(|fs: Seq<(Seq<char>, Seq<char>)>| record_summary(fs)),
            Err(m) => r matches Err(e) && e matches GuixError::Parse(msg) && msg@ == m,
        },
{
    let s = decode_lossy(out);
    let records = match parse(s.as_str()) {
        Ok(v) => v,
        Err(e) => return Err(e),
    };
    let ghost rs = records_view(records@);
    let mut res: Vec<PackageSummary> = Vec::new();
    let mut i: usize = 0;
    while i < records.len()
        invariant
            i <= records@.len(),
            rs == records_view(records@),
            res@.map_values(|p: PackageSummary| summary_vals(p))
                == rs.subrange(0, i as int).map_values(|fs: Seq<(Seq<char>, Seq<char>)>| record_summary(fs)),
        decreases records@.len() - i,
    {
        let ghost before = res@.map_values(|p: PackageSummary| summary_vals(p));
        let p = record_to_summary(&records[i]);
        res.push(p);
        assert(rs[i as int] == fields_view(records@[i as int].fields@));
        assert(res@.map_values(|p: PackageSummary| summary_vals(p)) =~= before.push(summary_vals(p)));
        assert(rs.subrange(0, i + 1).map_values(|fs: Seq<(Seq<char>, Seq<char>)>| record_summary(fs))
            =~= rs.subrange(0, i as int).map_values(|fs: Seq<(Seq<char>, Seq<char>)>| record_summary(fs))
                .push(record_summary(rs[i as int])));
        i += 1;
    }
    assert(rs.subrange(0, rs.len() as int) =~= rs);
    Ok(res)
}

/// The message when `--show` yields no record.
pub open spec fn no_record_message(name: Seq<char>) -> Seq<char> {
    "no record returned for `guix package --show="@ + name + "`"@
}

/// The detail of the last record of a `guix package --show=NAME` output;
/// a parse error when there is none.
pub fn show_from_output(name: &str, out: &[u8]) -> (r: Result<PackageDetail, GuixError>)
    ensures
        match recutils_spec(utf8_lossy(out@)) {
            Ok(rs) => if rs.len() > 0 {
                r matches Ok(d) && detail_vals(d) == record_detail(rs.last())
            } else {
                r matches Err(e) && e matches GuixError::Parse(msg) && msg@ == no_record_message(name@)
            },
            Err(m) => r matches Err(e) && e matches GuixError::Parse(msg) && msg@ == m,
        },
{
    let s = decode_lossy(out);
    let records = match parse(s.as_str()) {
        Ok(v) => v,
        Err(e) => return Err(e),
    };
    let n = records.len();
    if n == 0 {
        let mut m: Vec<char> = Vec::new();
        push_str(&mut m, "no record returned for `guix package --show=");
        push_str(&mut m, name);
        push_str(&mut m, "`");
        return Err(GuixError::Parse(string_of(&m)));
    }
    assert(records_view(records@).last() == fields_view(records@[n - 1].fields@));
    Ok(record_to_detail(&records[n - 1]))
}

/// `guix package -s QUERY`.
pub fn search_args(profile: Option<&str>, query: &str) -> (r: Vec<String>)
    ensures
        strings_view(r@) == guix_argv_spec(opt_str(profile), true, seq!["package"@, "-s"@, query@]),
{
    let args: [&str; 3] = ["package", "-s", query];
    let r = guix_argv(profile, true, &args);
    assert(strs_view(args@) =~= seq!["package"@, "-s"@, query@]);
    r
}

/// `guix package --show=NAME`.
pub fn show_args(profile: Option<&str>, name: &str) -> (r: Vec<String>)
    ensures
        strings_view(r@) == guix_argv_spec(opt_str(profile), true, seq!["package"@, "--show="@ + name@]),
{
    let mut a: Vec<char> = Vec::new();
    push_str(&mut a, "--show=");
    push_str(&mut a, name);
    let arg = string_of(&a);
    let args: [&str; 2] = ["package", arg.as_str()];
    let r = guix_argv(profile, true, &args);
    assert(strs_view(args@) =~= seq!["package"@, "--show="@ + name@]);
    r
}

/// `guix package FLAG` for the argument-less listings and the roll-back
/// (`-I`, `-l`, `--roll-back`).
pub fn package_flag_args(profile: Option<&str>, flag: &str) -> (r: Vec<String>)
    ensures
        strings_view(r@) == guix_argv_spec(opt_str(profile), true, seq!["package"@, flag@]),
{
    let args: [&str; 2] = ["package", flag];
    let r = guix_argv(profile, true, &args);
    assert(strs_view(args@) =~= seq!["package"@, flag@]);
    r
}

/// An integer in decimal, with a leading `-` when negative.
pub open spec fn signed_decimal(n: int) -> Seq<char> {
    if n < 0 { "-"@ + decimal((-n) as nat) } else { decimal(n as nat) }
}

/// `i64::to_string`.
pub fn i64_string(n: i64) -> (r: String)
    ensures
        r@ == signed_decimal(n as int),
{
    let mut out: Vec<char> = Vec::new();
    if n < 0 {
        out.push('-');
        let m: u64 = ((-(n + 1)) as u64) + 1;
        assert(m as int == -(n as int));
        let d = decimal_chars(m);
        push_chars(&mut out, &d);
        assert(out@ =~= "-"@ + decimal((-(n as int)) as nat)) by {
            reveal_strlit("-");
        }
    } else {
        let d = decimal_chars(n as u64);
        push_chars(&mut out, &d);
    }
    string_of(&out)
}

/// `guix package -S N`: switch to generation `N` (relative offsets such
/// as `-1` are accepted by guix).
pub fn switch_generation_args(profile: Option<&str>, n: i64) -> (r: Vec<String>)
    ensures
        strings_view(r@) == guix_argv_spec(opt_str(profile), true, seq!["package"@, "-S"@, signed_decimal(n as int)]),
{
    let ns = i64_string(n);
    let args: [&str; 3] = ["package", "-S", ns.as_str()];
    let r = guix_argv(profile, true, &args);
    assert(strs_view(args@) =~= seq!["package"@, "-S"@, signed_decimal(n as int)]);
    r
}

/// `guix package -d SPEC`: delete generations.
pub fn delete_generations_args(profile: Option<&str>, spec: &str) -> (r: Vec<String>)
    ensures
        strings_view(r@) == guix_argv_spec(opt_str(profile), true, seq!["package"@, "-d"@, spec@]),
{
    let args: [&str; 3] = ["package", "-d", spec];
    let r = guix_argv(profile, true, &args);
    assert(strs_view(args@) =~= seq!["package"@, "-d"@, spec@]);
    r
}

pub open spec fn opt_str(o: Option<&str>) -> Option<Seq<char>> {
    match o {
        Some(p) => Some(p@),
        None => None,
    }
}

fn with_flag<'a>(flag: &'a str, items: &[&'a str]) -> (r: Vec<&'a str>)
    ensures
        strs_view(r@) == seq![flag@] + strs_view(items@),
{
    let mut v: Vec<&str> = Vec::new();
    v.push(flag);
    let mut i: usize = 0;
    while i < items.len()
        invariant
            i <= items@.len(),
            strs_view(v@) == seq![flag@] + strs_view(items@).subrange(0, i as int),
        decreases items@.len() - i,
    {
        let ghost before = strs_view(v@);
        v.push(items[i]);
        assert(strs_view(items@)[i as int] == items@[i as int]@);
        assert(strs_view(v@) =~= before.push(items@[i as int]@));
        assert(strs_view(items@).subrange(0, i + 1) =~= strs_view(items@).subrange(0, i as int).push(items@[i as int]@));
        i += 1;
    }
    assert(strs_view(items@).subrange(0, items@.len() as int) =~= strs_view(items@));
    v
}

/// The REPL payload that installs `packages` (`guix package -i ...`).
pub fn install_payload(profile: Option<&str>, packages: &[&str]) -> (r: Result<String, GuixError>)
    ensures
        payload_outcome(opt_str(profile), seq!["-i"@] + strs_view(packages@), r),
{
    let argv = with_flag("-i", packages);
    build_package_payload(profile, argv.as_slice())
}

/// The REPL payload that removes `packages` (`guix package -r ...`).
pub fn remove_payload(profile: Option<&str>, packages: &[&str]) -> (r: Result<String, GuixError>)
    ensures
        payload_outcome(opt_str(profile), seq!["-r"@] + strs_view(packages@), r),
{
    let argv = with_flag("-r", packages);
    build_package_payload(profile, argv.as_slice())
}

/// The REPL payload that upgrades everything, or the packages matching
/// `regex`.
pub fn upgrade_payload(profile: Option<&str>, regex: Option<&str>) -> (r: Result<String, GuixError>)
    ensures
        payload_outcome(opt_str(profile), match regex {
            Some(re) => seq!["-u"@, re@],
            None => seq!["-u"@],
        }, r),
{
    let mut argv: Vec<&str> = Vec::new();
    argv.push("-u");
    if let Some(re) = regex {
        argv.push(re);
    }
    let r = build_package_payload(profile, argv.as_slice());
    assert(strs_view(argv@) =~= match regex {
        Some(re) => seq!["-u"@, re@],
        None => seq!["-u"@],
    });
    r
}

} // verus!
