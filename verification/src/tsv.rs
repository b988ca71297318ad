//! Readers for `guix package -I` (installed packages, one tab-separated
//! row each) and `guix package -l` (generations: a `Generation N` header
//! line, then indented package rows).

use vstd::prelude::*;
use crate::text::{chars_of, string_of, push_str, push_chars, trim_spec, trim_chars, decimal,
    decimal_chars, strip_prefix_spec, strip_prefix_str, trim_start_char_spec, trim_start_char, eq_str};
use crate::discover::{split_char, split_on_char, parse_u32_spec};
use crate::recutils::{lines_spec, lines_of};
use crate::repl::{debug_quoted, debug_str};
use crate::types::{InstalledPackage, Generation};
use crate::error::GuixError;

verus! {

/// An installed package as values: name, version, output, store path.
pub open spec fn pkg_view(p: InstalledPackage) -> (Seq<char>, Seq<char>, Seq<char>, Seq<char>) {
    (p.name@, p.version@, p.output@, p.store_path@)
}

pub open spec fn pkgs_view(v: Seq<InstalledPackage>) -> Seq<(Seq<char>, Seq<char>, Seq<char>, Seq<char>)> {
    v.map_values(|p: InstalledPackage| pkg_view(p))
}

/// One tab-separated row: at least four columns, each trimmed.
pub open spec fn pkg_row_spec(line: Seq<char>, lineno: nat) -> Result<(Seq<char>, Seq<char>, Seq<char>, Seq<char>), Seq<char>> {
    let cols = split_char(line, '\t');
    if cols.len() < 4 {
        Err("tsv line "@ + decimal(lineno) + ": expected 4 tab-separated cols, got "@ + decimal(cols.len())
            + " in "@ + debug_quoted(line))
    } else {
        Ok((trim_spec(cols[0]), trim_spec(cols[1]), trim_spec(cols[2]), trim_spec(cols[3])))
    }
}

fn parse_pkg_row(line: &[char], lineno: usize) -> (r: Result<InstalledPackage, GuixError>)
    ensures
        match pkg_row_spec(line@, lineno as nat) {
            Ok(p) => r matches Ok(x) && pkg_view(x) == p,
            Err(m) => r matches Err(e) && e matches GuixError::Parse(msg) && msg@ == m,
        },
{
    let cols = split_on_char(line, '\t');
    let ghost cv = cols@.map_values(|v: Vec<char>| v@);
    if cols.len() < 4 {
        let mut m: Vec<char> = Vec::new();
        push_str(&mut m, "tsv line ");
        let d = decimal_chars(lineno as u64);
        push_chars(&mut m, &d);
        push_str(&mut m, ": expected 4 tab-separated cols, got ");
        let c = decimal_chars(cols.len() as u64);
        push_chars(&mut m, &c);
        push_str(&mut m, " in ");
        let ls = string_of(line);
        let q = debug_str(ls.as_str());
        push_str(&mut m, q.as_str());
        return Err(GuixError::Parse(string_of(&m)));
    }
    assert(cv[0] == cols@[0]@ && cv[1] == cols@[1]@ && cv[2] == cols@[2]@ && cv[3] == cols@[3]@);
    let name = trim_chars(&cols[0]);
    let version = trim_chars(&cols[1]);
    let output = trim_chars(&cols[2]);
    let path = trim_chars(&cols[3]);
    Ok(InstalledPackage {
        name: string_of(&name),
        version: string_of(&version),
        output: string_of(&output),
        store_path: string_of(&path),
    })
}

/// The installed packages: one per non-blank line, numbered from 1.
pub open spec fn installed_run(ls: Seq<Seq<char>>) -> Result<Seq<(Seq<char>, Seq<char>, Seq<char>, Seq<char>)>, Seq<char>>
    decreases ls.len(),
{
    if ls.len() == 0 {
        Ok(Seq::empty())
    } else {
        match installed_run(ls.drop_last()) {
            Err(m) => Err(m),
            Ok(acc) => if trim_spec(ls.last()).len() == 0 {
                Ok(acc)
            } else {
                match pkg_row_spec(ls.last(), ls.len()) {
                    Err(m) => Err(m),
                    Ok(p) => Ok(acc.push(p)),
                }
            },
        }
    }
}

pub open spec fn installed_spec(input: Seq<char>) -> Result<Seq<(Seq<char>, Seq<char>, Seq<char>, Seq<char>)>, Seq<char>> {
    installed_run(lines_spec(input))
}

proof fn lemma_installed_err(ls: Seq<Seq<char>>, k: int)
    requires
        0 <= k <= ls.len(),
        installed_run(ls.subrange(0, k)) is Err,
    ensures
        installed_run(ls) == installed_run(ls.subrange(0, k)),
    decreases ls.len() - k,
{
    if k < ls.len() {
        assert(ls.subrange(0, k + 1).drop_last() =~= ls.subrange(0, k));
        lemma_installed_err(ls, k + 1);
    } else {
        assert(ls.subrange(0, k) =~= ls);
    }
}

/// Parses `guix package -I` output.
pub fn parse_installed(input: &str) -> (r: Result<Vec<InstalledPackage>, GuixError>)
    ensures
        match installed_spec(input@) {
            Ok(ps) => r matches Ok(v) && pkgs_view(v@) == ps,
            Err(m) => r matches Err(e) && e matches GuixError::Parse(msg) && msg@ == m,
        },
{
    let cs = chars_of(input);
    let ls = lines_of(&cs);
    let ghost lv = ls@.map_values(|v: Vec<char>| v@);
    let mut out: Vec<InstalledPackage> = Vec::new();
    let mut i: usize = 0;
    assert(lv.subrange(0, 0) =~= Seq::<Seq<char>>::empty());
    assert(pkgs_view(out@) =~= Seq::<(Seq<char>, Seq<char>, Seq<char>, Seq<char>)>::empty());
    while i < ls.len()
        invariant
            i <= ls@.len(),
            lv == ls@.map_values(|v: Vec<char>| v@),
            lv == lines_spec(input@),
            installed_run(lv.subrange(0, i as int)) == Ok::<Seq<(Seq<char>, Seq<char>, Seq<char>, Seq<char>)>, Seq<char>>(pkgs_view(out@)),
        decreases ls@.len() - i,
    {
        assert(lv.subrange(0, i + 1).drop_last() =~= lv.subrange(0, i as int));
        assert(lv.subrange(0, i + 1).last() == ls@[i as int]@);
        let t = trim_chars(&ls[i]);
        if t.len() > 0 {
            match parse_pkg_row(&ls[i], i + 1) {
                Err(e) => {
                    proof { lemma_installed_err(lv, i + 1); }
                    return Err(e);
                },
                Ok(p) => {
                    let ghost before = pkgs_view(out@);
                    out.push(p);
                    assert(pkgs_view(out@) =~= before.push(pkg_view(out@.last())));
                },
            }
        }
        i += 1;
    }
    assert(lv.subrange(0, ls@.len() as int) =~= lv);
    Ok(out)
}

/// What std's `ParseIntError` displays for a failed `u32` parse of `s`.
pub uninterp spec fn u32_parse_error_text(s: Seq<char>) -> Seq<char>;

/// The text `ParseIntError` displays when `s.parse::<u32>()` fails; named
/// after `s` alone.
#[verifier::external_body]
fn u32_parse_error(s: &str) -> (t: String)
    requires
        parse_u32_spec(s@) is None,
    ensures
        t@ == u32_parse_error_text(s@),
{
    match s.parse::<u32>() {
        Err(e) => e.to_string(),
        Ok(_) => String::new(),
    }
}

/// `s.parse::<u32>()`, with the error's text.
fn parse_u32_text(s: &str) -> (r: Result<u32, String>)
    ensures
        match r {
            Ok(n) => parse_u32_spec(s@) == Some(n),
            Err(t) => parse_u32_spec(s@) is None && t@ == u32_parse_error_text(s@),
        },
{
    let c = chars_of(s);
    match crate::discover::parse_u32(&c) {
        Some(n) => Ok(n),
        None => Err(u32_parse_error(s)),
    }
}

/// A generation as values.
pub struct GenView {
    pub number: u32,
    pub date: Seq<char>,
    pub current: bool,
    pub packages: Seq<(Seq<char>, Seq<char>, Seq<char>, Seq<char>)>,
}

pub open spec fn gen_view(g: Generation) -> GenView {
    GenView { number: g.number, date: g.date@, current: g.current, packages: pkgs_view(g.packages@) }
}

pub open spec fn gens_view(v: Seq<Generation>) -> Seq<GenView> {
    v.map_values(|g: Generation| gen_view(g))
}

/// The reader's state: generations done and the one being filled.
pub struct GenState {
    pub gens: Seq<GenView>,
    pub current: Option<GenView>,
}

pub open spec fn close_current(st: GenState) -> Seq<GenView> {
    match st.current {
        Some(g) => st.gens.push(g),
        None => st.gens,
    }
}

/// Whether some column, trimmed, reads `(current)`.
pub open spec fn has_current_marker(cols: Seq<Seq<char>>) -> bool {
    exists|i: int| 0 <= i < cols.len() && trim_spec(#[trigger] cols[i]) == "(current)"@
}

/// `generations line N: `.
pub open spec fn gen_prefix(lineno: nat) -> Seq<char> {
    "generations line "@ + decimal(lineno) + ": "@
}

/// One line (numbered from 1) of `guix package -l` output.
pub open spec fn gen_step(st: GenState, lineno: nat, raw: Seq<char>) -> Result<GenState, Seq<char>> {
    if trim_spec(raw).len() == 0 {
        Ok(GenState { gens: close_current(st), current: None })
    } else {
        match strip_prefix_spec(raw, "Generation "@) {
            Some(rest) => {
                let cols = split_char(rest, '\t');
                match parse_u32_spec(trim_spec(cols[0])) {
                    None => Err(gen_prefix(lineno) + "bad generation number "@ + debug_quoted(cols[0]) + ": "@
                        + u32_parse_error_text(trim_spec(cols[0]))),
                    Some(number) => Ok(GenState {
                        gens: close_current(st),
                        current: Some(GenView {
                            number,
                            date: if cols.len() > 1 { trim_spec(cols[1]) } else { Seq::empty() },
                            current: has_current_marker(cols),
                            packages: Seq::empty(),
                        }),
                    }),
                }
            },
            None => match pkg_row_spec(trim_start_char_spec(raw, ' '), lineno) {
                Err(m) => Err(m),
                Ok(p) => match st.current {
                    Some(g) => Ok(GenState { gens: st.gens, current: Some(GenView { packages: g.packages.push(p), ..g }) }),
                    None => Err(gen_prefix(lineno) + "package row before any `Generation N` header"@),
                },
            },
        }
    }
}

pub open spec fn gen_run(ls: Seq<Seq<char>>) -> Result<GenState, Seq<char>>
    decreases ls.len(),
{
    if ls.len() == 0 {
        Ok(GenState { gens: Seq::empty(), current: None })
    } else {
        match gen_run(ls.drop_last()) {
            Err(m) => Err(m),
            Ok(st) => gen_step(st, ls.len(), ls.last()),
        }
    }
}

pub open spec fn generations_spec(input: Seq<char>) -> Result<Seq<GenView>, Seq<char>> {
    match gen_run(lines_spec(input)) {
        Err(m) => Err(m),
        Ok(st) => Ok(close_current(st)),
    }
}

proof fn lemma_gen_err(ls: Seq<Seq<char>>, k: int)
    requires
        0 <= k <= ls.len(),
        gen_run(ls.subrange(0, k)) is Err,
    ensures
        gen_run(ls) == gen_run(ls.subrange(0, k)),
    decreases ls.len() - k,
{
    if k < ls.len() {
        assert(ls.subrange(0, k + 1).drop_last() =~= ls.subrange(0, k));
        lemma_gen_err(ls, k + 1);
    } else {
        assert(ls.subrange(0, k) =~= ls);
    }
}

fn gen_prefix_exec(lineno: usize) -> (r: Vec<char>)
    ensures
        r@ == gen_prefix(lineno as nat),
{
    let mut m: Vec<char> = Vec::new();
    push_str(&mut m, "generations line ");
    let d = decimal_chars(lineno as u64);
    push_chars(&mut m, &d);
    push_str(&mut m, ": ");
    m
}

fn any_current_marker(cols: &Vec<Vec<char>>) -> (r: bool)
    ensures
        r == has_current_marker(cols@.map_values(|v: Vec<char>| v@)),
{
    let ghost cv = cols@.map_values(|v: Vec<char>| v@);
    let mut i: usize = 0;
    while i < cols.len()
        invariant
            i <= cols@.len(),
            cv == cols@.map_values(|v: Vec<char>| v@),
            forall|k: int| 0 <= k < i ==> trim_spec(#[trigger] cv[k]) != "(current)"@,
        decreases cols@.len() - i,
    {
        let t = trim_chars(&cols[i]);
        assert(cv[i as int] == cols@[i as int]@);
        if eq_str(&t, "(current)") {
            return true;
        }
        i += 1;
    }
    false
}

/// Parses `guix package -l` output.
pub fn parse_generations(input: &str) -> (r: Result<Vec<Generation>, GuixError>)
    ensures
        match generations_spec(input@) {
            Ok(gs) => r matches Ok(v) && gens_view(v@) == gs,
            Err(m) => r matches Err(e) && e matches GuixError::Parse(msg) && msg@ == m,
        },
{
    let cs = chars_of(input);
    let ls = lines_of(&cs);
    let ghost lv = ls@.map_values(|v: Vec<char>| v@);
    let mut gens: Vec<Generation> = Vec::new();
    let mut current: Option<Generation> = None;
    let mut i: usize = 0;
    assert(lv.subrange(0, 0) =~= Seq::<Seq<char>>::empty());
    assert(gens_view(gens@) =~= Seq::<GenView>::empty());
    while i < ls.len()
        invariant
            i <= ls@.len(),
            lv == ls@.map_values(|v: Vec<char>| v@),
            lv == lines_spec(input@),
            gen_run(lv.subrange(0, i as int)) == Ok::<GenState, Seq<char>>(GenState {
                gens: gens_view(gens@),
                current: match current { Some(g) => Some(gen_view(g)), None => None },
            }),
        decreases ls@.len() - i,
    {
        assert(lv.subrange(0, i + 1).drop_last() =~= lv.subrange(0, i as int));
        assert(lv.subrange(0, i + 1).last() == ls@[i as int]@);
        let raw = &ls[i];
        let t = trim_chars(raw);
        if t.len() == 0 {
            if let Some(g) = current {
                let ghost before = gens_view(gens@);
                gens.push(g);
                assert(gens_view(gens@) =~= before.push(gen_view(g)));
            }
            current = None;
        } else {
            match strip_prefix_str(raw, "Generation ") {
                Some(rest) => {
                    let cols = split_on_char(&rest, '\t');
                    let ghost cv = cols@.map_values(|v: Vec<char>| v@);
                    proof { crate::recutils::lemma_split_nonempty_pub(rest@, '\t'); }
                    assert(cv[0] == cols@[0]@);
                    let c0 = trim_chars(&cols[0]);
                    let c0s = string_of(&c0);
                    let number = match parse_u32_text(c0s.as_str()) {
                        Ok(n) => n,
                        Err(e) => {
                            let mut m = gen_prefix_exec(i + 1);
                            push_str(&mut m, "bad generation number ");
                            let raw0 = string_of(&cols[0]);
                            let q = debug_str(raw0.as_str());
                            push_str(&mut m, q.as_str());
                            push_str(&mut m, ": ");
                            push_str(&mut m, e.as_str());
                            proof { lemma_gen_err(lv, i + 1); }
                            return Err(GuixError::Parse(string_of(&m)));
                        },
                    };
                    let date = if cols.len() > 1 {
                        assert(cv[1] == cols@[1]@);
                        let d = trim_chars(&cols[1]);
                        string_of(&d)
                    } else {
                        String::new()
                    };
                    let flag = any_current_marker(&cols);
                    if let Some(g) = current {
                        let ghost before = gens_view(gens@);
                        gens.push(g);
                        assert(gens_view(gens@) =~= before.push(gen_view(g)));
                    }
                    let g = Generation { number, date, current: flag, packages: Vec::new() };
                    assert(pkgs_view(g.packages@) =~= Seq::<(Seq<char>, Seq<char>, Seq<char>, Seq<char>)>::empty());
                    current = Some(g);
                },
                None => {
                    let line = trim_start_char(raw, ' ');
                    let pkg = match parse_pkg_row(&line, i + 1) {
                        Ok(p) => p,
                        Err(e) => {
                            proof { lemma_gen_err(lv, i + 1); }
                            return Err(e);
                        },
                    };
                    match current {
                        Some(mut g) => {
                            let ghost before = pkgs_view(g.packages@);
                            g.packages.push(pkg);
                            assert(pkgs_view(g.packages@) =~= before.push(pkg_view(g.packages@.last())));
                            current = Some(g);
                        },
                        None => {
                            let mut m = gen_prefix_exec(i + 1);
                            push_str(&mut m, "package row before any `Generation N` header");
                            proof { lemma_gen_err(lv, i + 1); }
                            return Err(GuixError::Parse(string_of(&m)));
                        },
                    }
                },
            }
        }
        i += 1;
    }
    assert(lv.subrange(0, ls@.len() as int) =~= lv);
    if let Some(g) = current {
        let ghost before = gens_view(gens@);
        gens.push(g);
        assert(gens_view(gens@) =~= before.push(gen_view(g)));
    }
    Ok(gens)
}

} // verus!
