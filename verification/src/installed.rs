//! Installed packages grouped by the channel they come from: the REPL
//! form that asks for them, the reading of its reply, and the bucketing
//! by first channel (packages whose channel is unknown share one bucket).

use vstd::prelude::*;
use crate::text::{chars_of, string_of, push_str, eq_str};
use crate::sexp::{SExp, list_items, nth_next, symbol_of};
use crate::repl_op::{scheme_literal, push_scheme_escaped};
use crate::package::{value_text, nonempty_texts};
use crate::types::{InstalledPackage, strings_view};
use crate::error::GuixError;

verus! {

/// The bucket of packages whose channel could not be attributed.
pub const UNKNOWN_BUCKET: &'static str = "(unknown)";

/// One row of the helper's reply: `(name version source-file (channel ...))`.
#[derive(Debug, Clone, PartialEq, Eq)]
pub struct InstalledEntry {
    pub name: String,
    pub version: String,
    pub source_file: String,
    pub channels: Vec<String>,
}

/// An entry as values.
pub struct EntryVals {
    pub name: Seq<char>,
    pub version: Seq<char>,
    pub source_file: Seq<char>,
    pub channels: Seq<Seq<char>>,
}

pub open spec fn entry_vals(e: InstalledEntry) -> EntryVals {
    EntryVals {
        name: e.name@,
        version: e.version@,
        source_file: e.source_file@,
        channels: strings_view(e.channels@),
    }
}

pub open spec fn entries_vals(v: Seq<InstalledEntry>) -> Seq<EntryVals> {
    v.map_values(|e: InstalledEntry| entry_vals(e))
}

/// The REPL form that lists the packages of `profile` with their source
/// locations and channels.
pub open spec fn installed_form_spec(profile: Seq<char>) -> Seq<char> {
    "(libguix-rs:installed-with-locations "@ + scheme_literal(profile) + ")"@
}

pub fn installed_form(profile: &str) -> (r: String)
    ensures
        r@ == installed_form_spec(profile@),
{
    let mut out: Vec<char> = Vec::new();
    push_str(&mut out, "(libguix-rs:installed-with-locations ");
    out.push('"');
    push_scheme_escaped(&mut out, profile);
    out.push('"');
    push_str(&mut out, ")");
    string_of(&out)
}

/// Field `i` of a row as text (empty when missing or not a string or
/// symbol).
pub open spec fn row_text(fs: Seq<SExp>, i: int) -> Seq<char> {
    if i < fs.len() { value_text(fs[i]) } else { Seq::empty() }
}

/// The non-empty channel names of a row.
pub open spec fn row_channels(fs: Seq<SExp>) -> Seq<Seq<char>> {
    if fs.len() > 3 {
        match list_items(fs[3]) {
            Some(chs) => nonempty_texts(chs),
            None => Seq::empty(),
        }
    } else {
        Seq::empty()
    }
}

/// A row read as an entry: rows that are not lists, or have no name, are
/// dropped.
pub open spec fn row_entry(row: SExp) -> Option<EntryVals> {
    match list_items(row) {
        Some(fs) => if row_text(fs, 0).len() > 0 {
            Some(EntryVals {
                name: row_text(fs, 0),
                version: row_text(fs, 1),
                source_file: row_text(fs, 2),
                channels: row_channels(fs),
            })
        } else {
            None
        },
        None => None,
    }
}

pub open spec fn rows_entries(rows: Seq<SExp>) -> Seq<EntryVals>
    decreases rows.len(),
{
    if rows.len() == 0 {
        Seq::empty()
    } else {
        rows_entries(rows.drop_last()) + match row_entry(rows.last()) {
            Some(e) => seq![e],
            None => Seq::empty(),
        }
    }
}

/// The entries of a reply payload (nothing when it is not a list).
pub open spec fn entries_spec(v: SExp) -> Seq<EntryVals> {
    match list_items(v) {
        Some(rows) => rows_entries(rows),
        None => Seq::empty(),
    }
}

/// A string's or symbol's text.
pub fn scheme_string_value(v: &SExp) -> (r: Option<String>)
    ensures
        match r {
            Some(s) => (*v is Str || *v is Symbol) && s@ == value_text(*v),
            None => !(*v is Str || *v is Symbol) && value_text(*v) == Seq::<char>::empty(),
        },
{
    match v {
        SExp::Str(s) => Some(s.clone()),
        SExp::Symbol(s) => Some(s.clone()),
        _ => None,
    }
}

fn text_at(fs: &Vec<SExp>, i: usize) -> (r: String)
    ensures
        r@ == row_text(fs@, i as int),
{
    if i < fs.len() {
        match scheme_string_value(&fs[i]) {
            Some(s) => s,
            None => String::new(),
        }
    } else {
        String::new()
    }
}

fn channels_of(fs: &Vec<SExp>) -> (r: Vec<String>)
    ensures
        strings_view(r@) == row_channels(fs@),
{
    let mut out: Vec<String> = Vec::new();
    if fs.len() <= 3 {
        assert(strings_view(out@) =~= Seq::<Seq<char>>::empty());
        return out;
    }
    let chs = match &fs[3] {
        SExp::List(items, _) => items,
        _ => {
            assert(strings_view(out@) =~= Seq::<Seq<char>>::empty());
            return out;
        },
    };
    let mut i: usize = 0;
    assert(chs@.subrange(0, 0) =~= Seq::<SExp>::empty());
    assert(strings_view(out@) =~= Seq::<Seq<char>>::empty());
    while i < chs.len()
        invariant
            i <= chs@.len(),
            strings_view(out@) == nonempty_texts(chs@.subrange(0, i as int)),
        decreases chs@.len() - i,
    {
        assert(chs@.subrange(0, i + 1).drop_last() =~= chs@.subrange(0, i as int));
        assert(chs@.subrange(0, i + 1).last() == chs@[i as int]);
        let ghost before = strings_view(out@);
        match scheme_string_value(&chs[i]) {
            Some(s) => {
                if s.as_str().unicode_len() > 0 {
                    out.push(s);
                    assert(strings_view(out@) =~= before.push(value_text(chs@[i as int])));
                } else {
                    assert(before + Seq::<Seq<char>>::empty() =~= before);
                }
            },
            None => {
                assert(before + Seq::<Seq<char>>::empty() =~= before);
            },
        }
        i += 1;
    }
    assert(chs@.subrange(0, chs@.len() as int) =~= chs@);
    out
}

/// The entries of the helper's payload, in order.
pub fn parse_entries(value: &SExp) -> (r: Vec<InstalledEntry>)
    ensures
        entries_vals(r@) == entries_spec(*value),
{
    let mut out: Vec<InstalledEntry> = Vec::new();
    let rows = match value {
        SExp::List(items, _) => items,
        _ => {
            assert(entries_vals(out@) =~= Seq::<EntryVals>::empty());
            return out;
        },
    };
    let mut k: usize = 0;
    assert(rows@.subrange(0, 0) =~= Seq::<SExp>::empty());
    assert(entries_vals(out@) =~= Seq::<EntryVals>::empty());
    while k < rows.len()
        invariant
            k <= rows@.len(),
            entries_vals(out@) == rows_entries(rows@.subrange(0, k as int)),
        decreases rows@.len() - k,
    {
        assert(rows@.subrange(0, k + 1).drop_last() =~= rows@.subrange(0, k as int));
        assert(rows@.subrange(0, k + 1).last() == rows@[k as int]);
        let ghost before = entries_vals(out@);
        match &rows[k] {
            SExp::List(fs, _) => {
                let name = text_at(fs, 0);
                if name.as_str().unicode_len() > 0 {
                    let e = InstalledEntry {
                        name,
                        version: text_at(fs, 1),
                        source_file: text_at(fs, 2),
                        channels: channels_of(fs),
                    };
                    out.push(e);
                    assert(entries_vals(out@) =~= before.push(entry_vals(e)));
                } else {
                    assert(before + Seq::<EntryVals>::empty() =~= before);
                }
            },
            _ => {
                assert(before + Seq::<EntryVals>::empty() =~= before);
            },
        }
        k += 1;
    }
    assert(rows@.subrange(0, rows@.len() as int) =~= rows@);
    out
}

/// How the helper's reply `(ok PAYLOAD)` / `(error MESSAGE)` is read: the
/// entries, or the parse error with its message.
pub open spec fn response_spec(v: SExp) -> Result<Seq<EntryVals>, Seq<char>> {
    if !(v is List) {
        Err("installed-with-locations: not a list"@)
    } else {
        match nth_next(v, 0) {
            Some(h) => match symbol_of(h) {
                Some(head) => if head == "ok"@ {
                    match nth_next(v, 1) {
                        Some(p) => Ok(entries_spec(p)),
                        None => Err("installed-with-locations: ok response missing payload"@),
                    }
                } else if head == "error"@ {
                    let msg = match nth_next(v, 1) {
                        Some(m) => if m is Str || m is Symbol { value_text(m) } else { "<no message>"@ },
                        None => "<no message>"@,
                    };
                    Err("installed-with-locations failed: "@ + msg)
                } else {
                    Err("installed-with-locations: unexpected head `"@ + head + "`"@)
                },
                None => Err("installed-with-locations: missing response head"@),
            },
            None => Err("installed-with-locations: missing response head"@),
        }
    }
}

fn parse_error(m: &Vec<char>) -> (e: GuixError)
    ensures
        e matches GuixError::Parse(msg) && msg@ == m@,
{
    GuixError::Parse(string_of(m))
}

/// Reads the helper's reply.
pub fn interpret_response(v: &SExp) -> (r: Result<Vec<InstalledEntry>, GuixError>)
    ensures
        match response_spec(*v) {
            Ok(es) => r matches Ok(x) && entries_vals(x@) == es,
            Err(m) => r matches Err(e) && e matches GuixError::Parse(msg) && msg@ == m,
        },
{
    let mut m: Vec<char> = Vec::new();
    let is_list = match v {
        SExp::List(..) => true,
        _ => false,
    };
    if !is_list {
        push_str(&mut m, "installed-with-locations: not a list");
        return Err(parse_error(&m));
    }
    let head = match v.nth(0) {
        Some(h) => match h.as_symbol() {
            Some(s) => s,
            None => {
                push_str(&mut m, "installed-with-locations: missing response head");
                return Err(parse_error(&m));
            },
        },
        None => {
            push_str(&mut m, "installed-with-locations: missing response head");
            return Err(parse_error(&m));
        },
    };
    let hc = chars_of(head.as_str());
    if eq_str(&hc, "ok") {
        match v.nth(1) {
            Some(p) => Ok(parse_entries(p)),
            None => {
                push_str(&mut m, "installed-with-locations: ok response missing payload");
                Err(parse_error(&m))
            },
        }
    } else if eq_str(&hc, "error") {
        let msg = match v.nth(1) {
            Some(x) => match scheme_string_value(x) {
                Some(s) => s,
                None => String::from_str("<no message>"),
            },
            None => String::from_str("<no message>"),
        };
        push_str(&mut m, "installed-with-locations failed: ");
        push_str(&mut m, msg.as_str());
        Err(parse_error(&m))
    } else {
        push_str(&mut m, "installed-with-locations: unexpected head `");
        push_str(&mut m, head.as_str());
        push_str(&mut m, "`");
        Err(parse_error(&m))
    }
}

/// The bucket an entry goes to: its first channel, or the unknown bucket.
pub open spec fn bucket_key(e: EntryVals) -> Seq<char> {
    if e.channels.len() > 0 { e.channels[0] } else { UNKNOWN_BUCKET@ }
}

/// The package row an entry becomes: output `out`, and the source file
/// standing in for the store path.
pub open spec fn entry_package(e: EntryVals) -> (Seq<char>, Seq<char>, Seq<char>, Seq<char>) {
    (e.name, e.version, "out"@, e.source_file)
}

pub open spec fn pkg_vals(p: InstalledPackage) -> (Seq<char>, Seq<char>, Seq<char>, Seq<char>) {
    (p.name@, p.version@, p.output@, p.store_path@)
}

/// A bucket as values: its key and its packages in order.
pub open spec fn bucket_vals(b: (String, Vec<InstalledPackage>)) -> (Seq<char>, Seq<(Seq<char>, Seq<char>, Seq<char>, Seq<char>)>) {
    (b.0@, b.1@.map_values(|p: InstalledPackage| pkg_vals(p)))
}

pub open spec fn buckets_vals(v: Seq<(String, Vec<InstalledPackage>)>) -> Seq<(Seq<char>, Seq<(Seq<char>, Seq<char>, Seq<char>, Seq<char>)>)> {
    v.map_values(|b: (String, Vec<InstalledPackage>)| bucket_vals(b))
}

/// The position of the bucket named `key`, searching from `i`.
pub open spec fn bucket_index_from(bs: Seq<(Seq<char>, Seq<(Seq<char>, Seq<char>, Seq<char>, Seq<char>)>)>, key: Seq<char>, i: int) -> Option<int>
    decreases bs.len() - i,
{
    if i < 0 || i >= bs.len() {
        None
    } else if bs[i].0 == key {
        Some(i)
    } else {
        bucket_index_from(bs, key, i + 1)
    }
}

/// Entries added one at a time: into the existing bucket of their key, or
/// into a new bucket at the end.
pub open spec fn buckets_spec(es: Seq<EntryVals>) -> Seq<(Seq<char>, Seq<(Seq<char>, Seq<char>, Seq<char>, Seq<char>)>)>
    decreases es.len(),
{
    if es.len() == 0 {
        Seq::empty()
    } else {
        let bs = buckets_spec(es.drop_last());
        let e = es.last();
        match bucket_index_from(bs, bucket_key(e), 0) {
            Some(i) => bs.update(i, (bs[i].0, bs[i].1.push(entry_package(e)))),
            None => bs.push((bucket_key(e), seq![entry_package(e)])),
        }
    }
}

/// No two buckets share a key.
pub open spec fn keys_distinct(bs: Seq<(Seq<char>, Seq<(Seq<char>, Seq<char>, Seq<char>, Seq<char>)>)>) -> bool {
    forall|i: int, j: int| 0 <= i < j < bs.len() ==> bs[i].0 != bs[j].0
}

pub proof fn lemma_bucket_index_from(bs: Seq<(Seq<char>, Seq<(Seq<char>, Seq<char>, Seq<char>, Seq<char>)>)>, key: Seq<char>, i: int)
    requires
        0 <= i,
    ensures
        match bucket_index_from(bs, key, i) {
            Some(k) => i <= k < bs.len() && bs[k].0 == key && forall|j: int| i <= j < k ==> bs[j].0 != key,
            None => forall|j: int| i <= j < bs.len() ==> bs[j].0 != key,
        },
    decreases bs.len() - i,
{
    if i < bs.len() && bs[i].0 != key {
        lemma_bucket_index_from(bs, key, i + 1);
    }
}

/// Bucketing keeps bucket keys distinct, and every package lands in the
/// bucket of its entry's key: the bucket sizes add up to the number of
/// entries.
pub proof fn lemma_buckets_laws(es: Seq<EntryVals>)
    ensures
        keys_distinct(buckets_spec(es)),
        total_packages(buckets_spec(es)) == es.len(),
        forall|k: int| 0 <= k < es.len() ==> (#[trigger] bucket_index_from(buckets_spec(es), bucket_key(es[k]), 0)) is Some,
    decreases es.len(),
{
    if es.len() > 0 {
        let rest = es.drop_last();
        lemma_buckets_laws(rest);
        let bs = buckets_spec(rest);
        let e = es.last();
        let key = bucket_key(e);
        lemma_bucket_index_from(bs, key, 0);
        let nb = buckets_spec(es);
        match bucket_index_from(bs, key, 0) {
            Some(i) => {
                lemma_total_update(bs, i, (bs[i].0, bs[i].1.push(entry_package(e))));
            },
            None => {
                lemma_total_push(bs, (key, seq![entry_package(e)]));
            },
        }
        assert forall|k: int| 0 <= k < es.len() implies (#[trigger] bucket_index_from(nb, bucket_key(es[k]), 0)) is Some by {
            lemma_bucket_index_from(nb, bucket_key(es[k]), 0);
            if k < es.len() - 1 {
                assert(es[k] == rest[k]);
                lemma_bucket_index_from(bs, bucket_key(rest[k]), 0);
                let j = bucket_index_from(bs, bucket_key(rest[k]), 0).unwrap();
                assert(nb[j].0 == bs[j].0);
            } else {
                match bucket_index_from(bs, key, 0) {
                    Some(i) => assert(nb[i].0 == key),
                    None => assert(nb[bs.len() as int].0 == key),
                }
            }
        }
    }
}

/// The number of packages over all buckets.
pub open spec fn total_packages(bs: Seq<(Seq<char>, Seq<(Seq<char>, Seq<char>, Seq<char>, Seq<char>)>)>) -> nat
    decreases bs.len(),
{
    if bs.len() == 0 { 0 } else { total_packages(bs.drop_last()) + bs.last().1.len() }
}

proof fn lemma_total_push(bs: Seq<(Seq<char>, Seq<(Seq<char>, Seq<char>, Seq<char>, Seq<char>)>)>, b: (Seq<char>, Seq<(Seq<char>, Seq<char>, Seq<char>, Seq<char>)>))
    ensures
        total_packages(bs.push(b)) == total_packages(bs) + b.1.len(),
{
    assert(bs.push(b).drop_last() =~= bs);
}

proof fn lemma_total_update(bs: Seq<(Seq<char>, Seq<(Seq<char>, Seq<char>, Seq<char>, Seq<char>)>)>, i: int, b: (Seq<char>, Seq<(Seq<char>, Seq<char>, Seq<char>, Seq<char>)>))
    requires
        0 <= i < bs.len(),
    ensures
        total_packages(bs.update(i, b)) == total_packages(bs) - bs[i].1.len() + b.1.len(),
    decreases bs.len(),
{
    let nb = bs.update(i, b);
    if i == bs.len() - 1 {
        assert(nb.drop_last() =~= bs.drop_last());
    } else {
        lemma_total_update(bs.drop_last(), i, b);
        assert(nb.drop_last() =~= bs.drop_last().update(i, b));
    }
}

fn find_bucket(buckets: &Vec<(String, Vec<InstalledPackage>)>, key: &str) -> (r: Option<usize>)
    ensures
        match r {
            Some(i) => bucket_index_from(buckets_vals(buckets@), key@, 0) == Some(i as int),
            None => bucket_index_from(buckets_vals(buckets@), key@, 0) is None,
        },
        r matches Some(i) ==> i < buckets@.len(),
{
    let ghost bs = buckets_vals(buckets@);
    let kc = chars_of(key);
    let mut i: usize = 0;
    while i < buckets.len()
        invariant
            i <= buckets@.len(),
            bs == buckets_vals(buckets@),
            kc@ == key@,
            bucket_index_from(bs, key@, 0) == bucket_index_from(bs, key@, i as int),
        decreases buckets@.len() - i,
    {
        assert(bs[i as int].0 == buckets@[i as int].0@);
        let bc = chars_of(buckets[i].0.as_str());
        if eq_str(&bc, key) {
            return Some(i);
        }
        i += 1;
    }
    None
}

/// Groups entries by channel, buckets in order of first appearance (a
/// map from channel name to its packages, in entry order).
pub fn bucket_entries(entries: &Vec<InstalledEntry>) -> (r: Vec<(String, Vec<InstalledPackage>)>)
    ensures
        buckets_vals(r@) == buckets_spec(entries_vals(entries@)),
        keys_distinct(buckets_vals(r@)),
{
    let ghost es = entries_vals(entries@);
    let mut buckets: Vec<(String, Vec<InstalledPackage>)> = Vec::new();
    let mut k: usize = 0;
    assert(es.subrange(0, 0) =~= Seq::<EntryVals>::empty());
    assert(buckets_vals(buckets@) =~= buckets_spec(Seq::<EntryVals>::empty()));
    while k < entries.len()
        invariant
            k <= entries@.len(),
            es == entries_vals(entries@),
            buckets_vals(buckets@) == buckets_spec(es.subrange(0, k as int)),
        decreases entries@.len() - k,
    {
        let e = &entries[k];
        let ghost ev = entry_vals(*e);
        assert(es[k as int] == ev);
        assert(es.subrange(0, k + 1).drop_last() =~= es.subrange(0, k as int));
        assert(es.subrange(0, k + 1).last() == ev);
        let key = if e.channels.len() > 0 {
            assert(strings_view(e.channels@)[0] == e.channels@[0]@);
            e.channels[0].clone()
        } else {
            String::from_str(UNKNOWN_BUCKET)
        };
        assert(key@ == bucket_key(ev));
        let pkg = InstalledPackage {
            name: e.name.clone(),
            version: e.version.clone(),
            output: String::from_str("out"),
            store_path: e.source_file.clone(),
        };
        assert(pkg_vals(pkg) == entry_package(ev));
        let ghost bs = buckets_vals(buckets@);
        match find_bucket(&buckets, key.as_str()) {
            Some(i) => {
                let ghost ob = buckets@;
                let mut b = buckets.remove(i);
                let ghost old_pkgs = b.1@.map_values(|p: InstalledPackage| pkg_vals(p));
                assert(old_pkgs == bs[i as int].1);
                b.1.push(pkg);
                assert(b.1@.map_values(|p: InstalledPackage| pkg_vals(p)) =~= old_pkgs.push(entry_package(ev)));
                buckets.insert(i, b);
                assert(buckets@ =~= ob.update(i as int, b));
                assert(bucket_vals(b) == (bs[i as int].0, bs[i as int].1.push(entry_package(ev))));
                assert(buckets_vals(buckets@) =~= bs.update(i as int, (bs[i as int].0, bs[i as int].1.push(entry_package(ev)))));
                assert(buckets_vals(buckets@) == buckets_spec(es.subrange(0, k + 1)));
            },
            None => {
                let mut v: Vec<InstalledPackage> = Vec::new();
                v.push(pkg);
                assert(v@.map_values(|p: InstalledPackage| pkg_vals(p)) =~= seq![entry_package(ev)]);
                buckets.push((key, v));
                assert(buckets_vals(buckets@) =~= bs.push((bucket_key(ev), seq![entry_package(ev)])));
                assert(buckets_vals(buckets@) == buckets_spec(es.subrange(0, k + 1)));
            },
        }
        k += 1;
    }
    assert(es.subrange(0, es.len() as int) =~= es);
    proof {
        lemma_buckets_laws(es);
    }
    buckets
}

/// The packages of the bucket named `key`, if any.
pub fn bucket_get<'a>(buckets: &'a Vec<(String, Vec<InstalledPackage>)>, key: &str) -> (r: Option<&'a Vec<InstalledPackage>>)
    ensures
        match bucket_index_from(buckets_vals(buckets@), key@, 0) {
            Some(i) => r matches Some(v) && v@ == buckets@[i].1@,
            None => r is None,
        },
{
    match find_bucket(buckets, key) {
        Some(i) => {
            assert(buckets_vals(buckets@)[i as int] == bucket_vals(buckets@[i as int]));
            Some(&buckets[i].1)
        },
        None => None,
    }
}

} // verus!
