//! A minimal recutils reader for `guix package -s` and `--show`: `key:
//! value` fields, `+ ` continuing the previous field, blank lines between
//! records.

use vstd::prelude::*;
use crate::text::{chars_of, string_of, push_str, push_chars, sub_chars, strip_prefix_spec, strip_suffix_spec,
    strip_prefix_str, strip_suffix_str, decimal, decimal_chars, trim_spec, trim_start_spec, trim_chars,
    trim_start_chars, split_once_spec, split_once_str, eq_str, find_spec, find_str, lemma_find_spec};
use crate::discover::{split_char, first_char, lemma_first_char, split_on_char};
use crate::repl::{debug_quoted, debug_str};
use crate::error::GuixError;

verus! {

/// One record: its fields in order.
#[derive(Debug, Clone)]
pub struct Record {
    pub fields: Vec<(String, String)>,
}

pub open spec fn fields_view(v: Seq<(String, String)>) -> Seq<(Seq<char>, Seq<char>)> {
    v.map_values(|f: (String, String)| (f.0@, f.1@))
}

/// The value of the first field named `key`.
pub open spec fn record_get(fs: Seq<(Seq<char>, Seq<char>)>, key: Seq<char>) -> Option<Seq<char>>
    decreases fs.len(),
{
    if fs.len() == 0 {
        None
    } else if fs[0].0 == key {
        Some(fs[0].1)
    } else {
        record_get(fs.drop_first(), key)
    }
}

impl Record {
    /// The value of the first field named `key`.
    pub fn get(&self, key: &str) -> (r: Option<&String>)
        ensures
            match r {
                Some(v) => record_get(fields_view(self.fields@), key@) == Some(v@),
                None => record_get(fields_view(self.fields@), key@) is None,
            },
    {
        let mut i: usize = 0;
        let ghost fs = fields_view(self.fields@);
        assert(fs.subrange(0, fs.len() as int) =~= fs);
        while i < self.fields.len()
            invariant
                i <= self.fields@.len(),
                fs == fields_view(self.fields@),
                record_get(fs, key@) == record_get(fs.subrange(i as int, fs.len() as int), key@),
            decreases self.fields@.len() - i,
        {
            let ghost sub = fs.subrange(i as int, fs.len() as int);
            assert(sub.drop_first() =~= fs.subrange(i + 1, fs.len() as int));
            assert(sub[0] == (self.fields@[i as int].0@, self.fields@[i as int].1@));
            let k = chars_of(self.fields[i].0.as_str());
            if eq_str(&k, key) {
                return Some(&self.fields[i].1);
            }
            i += 1;
        }
        None
    }
}

/// The reader's state between lines: the records done, the fields of the
/// record in progress, and the key a continuation line extends.
pub struct RecState {
    pub records: Seq<Seq<(Seq<char>, Seq<char>)>>,
    pub current: Seq<(Seq<char>, Seq<char>)>,
    pub last_key: Option<Seq<char>>,
}

/// The last index of a field named `key` in `fs`, from `i` down.
pub open spec fn last_field(fs: Seq<(Seq<char>, Seq<char>)>, key: Seq<char>, i: int) -> Option<int>
    decreases i + 1,
{
    if i < 0 {
        None
    } else if i < fs.len() && fs[i].0 == key {
        Some(i)
    } else {
        last_field(fs, key, i - 1)
    }
}

/// `recutils line N: `.
pub open spec fn line_prefix(lineno: nat) -> Seq<char> {
    "recutils line "@ + decimal(lineno) + ": "@
}

/// The value part after `key:`: empty, or without the one space that
/// follows the colon.
pub open spec fn value_after_colon(line: Seq<char>, colon: int) -> Seq<char> {
    if line.len() == colon + 1 {
        Seq::empty()
    } else if line[colon + 1] == ' ' {
        line.subrange(colon + 2, line.len() as int)
    } else {
        line.subrange(colon + 1, line.len() as int)
    }
}

/// One line (numbered from 1) through the reader.
pub open spec fn rec_step(st: RecState, lineno: nat, raw: Seq<char>) -> Result<RecState, Seq<char>> {
    let line = match strip_suffix_spec(raw, "\r"@) { Some(l) => l, None => raw };
    if line.len() == 0 {
        if st.current.len() > 0 {
            Ok(RecState { records: st.records.push(st.current), current: Seq::empty(), last_key: None })
        } else {
            Ok(st)
        }
    } else {
        match strip_prefix_spec(line, "+ "@) {
            Some(rest) => match st.last_key {
                None => Err(line_prefix(lineno) + "continuation `+ \u{2026}` with no preceding field"@),
                Some(key) => match last_field(st.current, key, st.current.len() - 1) {
                    None => Err(line_prefix(lineno) + "continuation `+ \u{2026}` references field "@
                        + debug_quoted(key) + " that is not in the current record"@),
                    Some(i) => Ok(RecState {
                        current: st.current.update(i, (key, st.current[i].1 + "\n"@ + rest)),
                        ..st
                    }),
                },
            },
            None => match find_spec(line, ":"@) {
                None => Err(line_prefix(lineno) + "no `:` separator in "@ + debug_quoted(line)),
                Some(colon) => {
                    let key = line.subrange(0, colon);
                    Ok(RecState {
                        records: st.records,
                        current: st.current.push((key, value_after_colon(line, colon))),
                        last_key: Some(key),
                    })
                },
            },
        }
    }
}

/// The state after the lines `ls`, the first of which is line `first`.
pub open spec fn rec_run(ls: Seq<Seq<char>>) -> Result<RecState, Seq<char>>
    decreases ls.len(),
{
    if ls.len() == 0 {
        Ok(RecState { records: Seq::empty(), current: Seq::empty(), last_key: None })
    } else {
        match rec_run(ls.drop_last()) {
            Err(m) => Err(m),
            Ok(st) => rec_step(st, ls.len(), ls.last()),
        }
    }
}

/// The records of a recutils text, split on `\n`.
pub open spec fn recutils_spec(input: Seq<char>) -> Result<Seq<Seq<(Seq<char>, Seq<char>)>>, Seq<char>> {
    match rec_run(split_char(input, '\n')) {
        Err(m) => Err(m),
        Ok(st) => Ok(if st.current.len() > 0 { st.records.push(st.current) } else { st.records }),
    }
}

pub open spec fn records_view(v: Seq<Record>) -> Seq<Seq<(Seq<char>, Seq<char>)>> {
    v.map_values(|r: Record| fields_view(r.fields@))
}

fn find_last_field(current: &Vec<(String, String)>, key: &str) -> (r: Option<usize>)
    ensures
        match last_field(fields_view(current@), key@, current@.len() - 1) {
            Some(i) => r == Some(i as usize),
            None => r is None,
        },
        r matches Some(k) ==> k < current@.len() && last_field(fields_view(current@), key@, current@.len() - 1) == Some(k as int),
{
    let kc = chars_of(key);
    let mut j: usize = current.len();
    while j > 0
        invariant
            j <= current@.len(),
            kc@ == key@,
            last_field(fields_view(current@), key@, current@.len() - 1)
                == last_field(fields_view(current@), key@, j - 1),
        decreases j,
    {
        let kj = chars_of(current[j - 1].0.as_str());
        assert(fields_view(current@)[j - 1] == (current@[j - 1].0@, current@[j - 1].1@));
        if kj.len() == kc.len() && crate::text::matches_at(&kj, &kc, 0) {
            assert(kj@.subrange(0, kj@.len() as int) =~= kj@);
            return Some(j - 1);
        }
        proof {
            if kj@ == kc@ {
                assert(kj@.subrange(0, kc@.len() as int) =~= kj@);
            }
        }
        j -= 1;
    }
    None
}

fn line_prefix_exec(lineno: usize) -> (r: Vec<char>)
    ensures
        r@ == line_prefix(lineno as nat),
{
    let mut m: Vec<char> = Vec::new();
    push_str(&mut m, "recutils line ");
    let d = decimal_chars(lineno as u64);
    push_chars(&mut m, &d);
    push_str(&mut m, ": ");
    m
}

/// Parses a recutils text into records.
pub fn parse(input: &str) -> (r: Result<Vec<Record>, GuixError>)
    ensures
        match recutils_spec(input@) {
            Ok(rs) => r matches Ok(v) && records_view(v@) == rs,
            Err(m) => r matches Err(e) && e matches GuixError::Parse(msg) && msg@ == m,
        },
{
    let cs = chars_of(input);
    let lines = split_on_char(&cs, '\n');
    let ghost ls = lines@.map_values(|v: Vec<char>| v@);
    let mut records: Vec<Record> = Vec::new();
    let mut current: Vec<(String, String)> = Vec::new();
    let mut last_key: Option<String> = None;
    let mut i: usize = 0;
    assert(ls.subrange(0, 0) =~= Seq::<Seq<char>>::empty());
    assert(records_view(records@) =~= Seq::<Seq<(Seq<char>, Seq<char>)>>::empty());
    assert(fields_view(current@) =~= Seq::<(Seq<char>, Seq<char>)>::empty());
    while i < lines.len()
        invariant
            i <= lines@.len(),
            ls == lines@.map_values(|v: Vec<char>| v@),
            ls == split_char(input@, '\n'),
            rec_run(ls.subrange(0, i as int)) == Ok::<RecState, Seq<char>>(RecState {
                records: records_view(records@),
                current: fields_view(current@),
                last_key: crate::types::opt_view(last_key),
            }),
        decreases lines@.len() - i,
    {
        proof {
            assert(ls.subrange(0, i + 1).drop_last() =~= ls.subrange(0, i as int));
            assert(ls.subrange(0, i + 1).last() == lines@[i as int]@);
        }
        let lineno = i + 1;
        let raw = &lines[i];
        let ghost st0 = RecState {
            records: records_view(records@),
            current: fields_view(current@),
            last_key: crate::types::opt_view(last_key),
        };
        assert(rec_run(ls.subrange(0, i + 1)) == rec_step(st0, (i + 1) as nat, raw@));
        let line: Vec<char> = match strip_suffix_str(raw, "\r") {
            Some(l) => l,
            None => sub_chars(raw, 0, raw.len()),
        };
        assert(raw@.subrange(0, raw@.len() as int) =~= raw@);
        if line.len() == 0 {
            if current.len() > 0 {
                let ghost rv = records_view(records@);
                let ghost cv = fields_view(current@);
                let done = Record { fields: current };
                records.push(done);
                assert(records_view(records@) =~= rv.push(cv));
                current = Vec::new();
                last_key = None;
                proof {
                    assert(fields_view(current@) =~= Seq::<(Seq<char>, Seq<char>)>::empty());
                }
            }
        } else {
            match strip_prefix_str(&line, "+ ") {
                Some(rest) => {
                    let key = match &last_key {
                        None => {
                            let mut m = line_prefix_exec(lineno);
                            push_str(&mut m, "continuation `+ \u{2026}` with no preceding field");
                            proof { lemma_rec_err_extends(ls, i + 1); }
                            return Err(GuixError::Parse(string_of(&m)));
                        },
                        Some(k) => k.clone(),
                    };
                    let found = find_last_field(&current, key.as_str());
                    match found {
                        None => {
                            let mut m = line_prefix_exec(lineno);
                            push_str(&mut m, "continuation `+ \u{2026}` references field ");
                            let d = debug_str(key.as_str());
                            push_str(&mut m, d.as_str());
                            push_str(&mut m, " that is not in the current record");
                            proof { lemma_rec_err_extends(ls, i + 1); }
                            return Err(GuixError::Parse(string_of(&m)));
                        },
                        Some(k) => {
                            let mut v: Vec<char> = Vec::new();
                            push_str(&mut v, current[k].1.as_str());
                            push_str(&mut v, "\n");
                            push_chars(&mut v, &rest);
                            let ghost before = fields_view(current@);
                            current.set(k, (key, string_of(&v)));
                            assert(fields_view(current@) =~= before.update(k as int, (key@, before[k as int].1 + "\n"@ + rest@)));
                            assert(line@ == (match strip_suffix_spec(raw@, "\r"@) { Some(l) => l, None => raw@ }));
                            assert(strip_prefix_spec(line@, "+ "@) == Some(rest@));
                            assert(st0.last_key == Some(key@));
                            assert(last_field(st0.current, key@, st0.current.len() - 1) == Some(k as int));
                        },
                    }
                },
                None => {
                    proof { lemma_find_spec(line@, ":"@); reveal_strlit(":"); }
                    match find_str(&line, ":") {
                        None => {
                            let mut m = line_prefix_exec(lineno);
                            push_str(&mut m, "no `:` separator in ");
                            let ls_ = string_of(&line);
                            let d = debug_str(ls_.as_str());
                            push_str(&mut m, d.as_str());
                            proof { lemma_rec_err_extends(ls, i + 1); }
                            return Err(GuixError::Parse(string_of(&m)));
                        },
                        Some(colon) => {
                            let ll = line.len();
                            let key = sub_chars(&line, 0, colon);
                            let value = if ll == colon + 1 {
                                Vec::new()
                            } else if line[colon + 1] == ' ' {
                                sub_chars(&line, colon + 2, ll)
                            } else {
                                sub_chars(&line, colon + 1, ll)
                            };
                            assert(value@ == value_after_colon(line@, colon as int));
                            let ghost before = fields_view(current@);
                            current.push((string_of(&key), string_of(&value)));
                            last_key = Some(string_of(&key));
                            assert(fields_view(current@) =~= before.push((key@, value@)));
                            assert(strip_prefix_spec(line@, "+ "@) is None);
                            assert(find_spec(line@, ":"@) == Some(colon as int));
                        },
                    }
                },
            }
        }
        assert(rec_step(st0, (i + 1) as nat, raw@) == Ok::<RecState, Seq<char>>(RecState {
            records: records_view(records@),
            current: fields_view(current@),
            last_key: crate::types::opt_view(last_key),
        }));
        i += 1;
    }
    assert(ls.subrange(0, lines@.len() as int) =~= ls);
    if current.len() > 0 {
        records.push(Record { fields: current });
    }
    Ok(records)
}

proof fn lemma_rec_err_extends(ls: Seq<Seq<char>>, k: int)
    requires
        0 <= k <= ls.len(),
        rec_run(ls.subrange(0, k)) is Err,
    ensures
        rec_run(ls) == rec_run(ls.subrange(0, k)),
    decreases ls.len() - k,
{
    if k < ls.len() {
        assert(ls.subrange(0, k + 1).drop_last() =~= ls.subrange(0, k));
        lemma_rec_err_extends(ls, k + 1);
    } else {
        assert(ls.subrange(0, k) =~= ls);
    }
}

/// `str::lines`: split at `\n`, a `\r` before the `\n` dropped, and no
/// empty last line for a text ending in `\n` (nor any line for "").
pub open spec fn lines_spec(s: Seq<char>) -> Seq<Seq<char>> {
    let ps = split_char(s, '\n');
    let kept = if ps.len() > 0 && ps.last().len() == 0 { ps.drop_last() } else { ps };
    Seq::new(kept.len(), |i: int| if i < ps.len() - 1 {
        match strip_suffix_spec(kept[i], "\r"@) { Some(l) => l, None => kept[i] }
    } else {
        kept[i]
    })
}

pub proof fn lemma_split_nonempty_pub(s: Seq<char>, c: char)
    ensures
        split_char(s, c).len() >= 1,
{
    lemma_split_nonempty(s, c);
}

proof fn lemma_split_nonempty(s: Seq<char>, c: char)
    ensures
        split_char(s, c).len() >= 1,
    decreases s.len(),
{
    lemma_first_char(s, c, 0);
    match first_char(s, c, 0) {
        None => {},
        Some(i) => lemma_split_nonempty(s.subrange(i + 1, s.len() as int), c),
    }
}

/// `str::lines`.
pub fn lines_of(s: &[char]) -> (r: Vec<Vec<char>>)
    ensures
        r@.map_values(|v: Vec<char>| v@) == lines_spec(s@),
{
    let ps = split_on_char(s, '\n');
    let ghost pv = ps@.map_values(|v: Vec<char>| v@);
    proof { lemma_split_nonempty(s@, '\n'); }
    let n = ps.len();
    let kept = if n > 0 && ps[n - 1].len() == 0 { n - 1 } else { n };
    let mut out: Vec<Vec<char>> = Vec::new();
    let mut i: usize = 0;
    while i < kept
        invariant
            i <= kept <= n,
            n == ps@.len(),
            pv == ps@.map_values(|v: Vec<char>| v@),
            pv == split_char(s@, '\n'),
            kept == (if n > 0 && pv.last().len() == 0 { n - 1 } else { n as int }),
            out@.len() == i,
            forall|k: int| 0 <= k < i ==> #[trigger] out@[k]@ == lines_spec(s@)[k],
        decreases kept - i,
    {
        let piece = &ps[i];
        let l = if i + 1 < n {
            match strip_suffix_str(piece, "\r") {
                Some(l) => l,
                None => sub_chars(piece, 0, piece.len()),
            }
        } else {
            sub_chars(piece, 0, piece.len())
        };
        assert(piece@.subrange(0, piece@.len() as int) =~= piece@);
        out.push(l);
        i += 1;
    }
    assert(out@.map_values(|v: Vec<char>| v@) =~= lines_spec(s@));
    out
}

/// The whitespace-separated tokens of `s`, in order.
pub open spec fn ws_tokens(s: Seq<char>) -> Seq<Seq<char>>
    decreases s.len(),
{
    let t = trim_start_spec(s);
    if t.len() == 0 {
        Seq::empty()
    } else {
        let k = first_ws(t, 0);
        if k < 1 {
            Seq::empty()
        } else {
            proof {
                lemma_trim_start_len(s);
                lemma_first_ws_bound(t, 0);
            }
            seq![t.subrange(0, k)] + ws_tokens(t.subrange(k, t.len() as int))
        }
    }
}

pub proof fn lemma_trim_start_len(s: Seq<char>)
    ensures
        trim_start_spec(s).len() <= s.len(),
    decreases s.len(),
{
    if s.len() > 0 && crate::text::is_whitespace(s[0]) {
        lemma_trim_start_len(s.drop_first());
    }
}

pub proof fn lemma_first_ws_bound(t: Seq<char>, i: int)
    requires
        0 <= i,
    ensures
        first_ws(t, i) <= t.len(),
        i <= t.len() ==> i <= first_ws(t, i),
    decreases t.len() - i,
{
    if i < t.len() && !crate::text::is_whitespace(t[i]) {
        lemma_first_ws_bound(t, i + 1);
    }
}

/// The first whitespace index of `t` at or after `i` (or its length).
pub open spec fn first_ws(t: Seq<char>, i: int) -> int
    decreases t.len() - i,
{
    if i < 0 || i >= t.len() {
        t.len() as int
    } else if crate::text::is_whitespace(t[i]) {
        i
    } else {
        first_ws(t, i + 1)
    }
}

/// `str::split_whitespace`, collected.
pub fn split_ws(s: &str) -> (r: Vec<String>)
    ensures
        crate::types::strings_view(r@) == ws_tokens(s@),
{
    let cs = chars_of(s);
    let n = cs.len();
    let mut out: Vec<String> = Vec::new();
    let mut i: usize = 0;
    assert(cs@.subrange(0, n as int) =~= cs@);
    assert(crate::types::strings_view(out@) + ws_tokens(cs@) =~= ws_tokens(cs@));
    while i < n
        invariant
            i <= n == cs@.len(),
            cs@ == s@,
            ws_tokens(s@) == crate::types::strings_view(out@) + ws_tokens(cs@.subrange(i as int, n as int)),
        decreases n - i,
    {
        let j = crate::text::trim_start_index(&cs, i);
        if j == n {
            assert(cs@.subrange(j as int, n as int) =~= Seq::<char>::empty());
            i = n;
            assert(ws_tokens(cs@.subrange(i as int, n as int)) =~= Seq::<Seq<char>>::empty());
        } else {
            let mut k: usize = j;
            while k < n && !crate::text::char_is_whitespace(cs[k])
                invariant
                    j <= k <= n == cs@.len(),
                    first_ws(cs@.subrange(j as int, n as int), 0) == first_ws(cs@.subrange(j as int, n as int), k - j),
                decreases n - k,
            {
                k += 1;
            }
            let ghost t = cs@.subrange(j as int, n as int);
            assert(t.len() > 0);
            assert(first_ws(t, 0) == k - j);
            assert(k > j) by {
                assert(!crate::text::is_whitespace(t[0])) by {
                    assert(trim_start_spec(cs@.subrange(i as int, n as int)) == t);
                    lemma_trim_start_first(cs@.subrange(i as int, n as int));
                }
            }
            let tok = sub_chars(&cs, j, k);
            let ghost before = crate::types::strings_view(out@);
            out.push(string_of(&tok));
            proof {
                assert(tok@ =~= t.subrange(0, k - j));
                assert(t.subrange(k - j, t.len() as int) =~= cs@.subrange(k as int, n as int));
                assert(crate::types::strings_view(out@) =~= before.push(tok@));
                assert(before.push(tok@) + ws_tokens(cs@.subrange(k as int, n as int)) =~= before + (seq![tok@] + ws_tokens(cs@.subrange(k as int, n as int))));
            }
            i = k;
        }
    }
    out
}

pub proof fn lemma_trim_start_first(s: Seq<char>)
    ensures
        trim_start_spec(s).len() > 0 ==> !crate::text::is_whitespace(trim_start_spec(s)[0]),
    decreases s.len(),
{
    if s.len() > 0 && crate::text::is_whitespace(s[0]) {
        lemma_trim_start_first(s.drop_first());
    }
}

/// One output name per non-blank line: the text before any `:`, trimmed.
pub open spec fn outputs_spec(value: Seq<char>) -> Seq<Seq<char>>
    decreases lines_spec(value).len(),
{
    outputs_of_lines(lines_spec(value))
}

pub open spec fn output_of_line(l: Seq<char>) -> Option<Seq<char>> {
    let t = trim_start_spec(l);
    if t.len() == 0 {
        None
    } else {
        let name = match split_once_spec(t, ":"@) { Some((n, _)) => n, None => t };
        Some(trim_spec(name))
    }
}

pub open spec fn outputs_of_lines(ls: Seq<Seq<char>>) -> Seq<Seq<char>>
    decreases ls.len(),
{
    if ls.len() == 0 {
        Seq::empty()
    } else {
        outputs_of_lines(ls.drop_last()) + match output_of_line(ls.last()) {
            Some(o) => seq![o],
            None => Seq::empty(),
        }
    }
}

/// The output names listed in an `outputs:` field value.
pub fn parse_outputs(value: &str) -> (r: Vec<String>)
    ensures
        crate::types::strings_view(r@) == outputs_spec(value@),
{
    let cs = chars_of(value);
    let ls = lines_of(&cs);
    let ghost lv = ls@.map_values(|v: Vec<char>| v@);
    let mut out: Vec<String> = Vec::new();
    let mut i: usize = 0;
    assert(lv.subrange(0, 0) =~= Seq::<Seq<char>>::empty());
    assert(crate::types::strings_view(out@) =~= Seq::<Seq<char>>::empty());
    while i < ls.len()
        invariant
            i <= ls@.len(),
            lv == ls@.map_values(|v: Vec<char>| v@),
            crate::types::strings_view(out@) == outputs_of_lines(lv.subrange(0, i as int)),
        decreases ls@.len() - i,
    {
        assert(lv.subrange(0, i + 1).drop_last() =~= lv.subrange(0, i as int));
        assert(lv.subrange(0, i + 1).last() == ls@[i as int]@);
        let ghost before = crate::types::strings_view(out@);
        let t = trim_start_chars(&ls[i]);
        if t.len() > 0 {
            let name = match split_once_str(&t, ":") {
                Some((n, _)) => n,
                None => t,
            };
            let nm = trim_chars(&name);
            out.push(string_of(&nm));
            assert(crate::types::strings_view(out@) =~= before.push(nm@));
        } else {
            assert(before + Seq::<Seq<char>>::empty() =~= before);
        }
        i += 1;
    }
    assert(lv.subrange(0, ls@.len() as int) =~= lv);
    out
}

} // verus!
