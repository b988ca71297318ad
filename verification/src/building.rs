//! `guix build`: the argument vector a build request makes, which output
//! lines name store paths, and what a finished build's event stream
//! yields.

use vstd::prelude::*;
use crate::text::{chars_of, string_of, trim_spec, trim_chars, starts_with_str, any_whitespace, has_whitespace};
use crate::types::{ProgressEvent, ProgressStream, strings_view};
use crate::error::GuixError;

verus! {

/// `flag x` for each `x` of `xs`, in order.
pub open spec fn flag_pairs(flag: Seq<char>, xs: Seq<Seq<char>>) -> Seq<Seq<char>>
    decreases xs.len(),
{
    if xs.len() == 0 {
        Seq::empty()
    } else {
        flag_pairs(flag, xs.drop_last()) + seq![flag, xs.last()]
    }
}

/// `flag` when `on`, nothing otherwise.
pub open spec fn opt_flag(on: bool, flag: Seq<char>) -> Seq<Seq<char>> {
    if on { seq![flag] } else { Seq::empty() }
}

/// Appends `flag x` for each `x` of `xs`.
pub fn push_pairs(a: &mut Vec<String>, flag: &str, xs: &Vec<String>)
    ensures
        strings_view(final(a)@) == strings_view(old(a)@) + flag_pairs(flag@, strings_view(xs@)),
{
    let ghost start = strings_view(a@);
    let mut i: usize = 0;
    assert(strings_view(xs@).subrange(0, 0) =~= Seq::<Seq<char>>::empty());
    assert(strings_view(a@) =~= start + flag_pairs(flag@, Seq::<Seq<char>>::empty()));
    while i < xs.len()
        invariant
            i <= xs@.len(),
            strings_view(a@) == start + flag_pairs(flag@, strings_view(xs@).subrange(0, i as int)),
        decreases xs@.len() - i,
    {
        let ghost before = strings_view(a@);
        a.push(String::from_str(flag));
        a.push(xs[i].clone());
        assert(strings_view(xs@)[i as int] == xs@[i as int]@);
        assert(strings_view(a@) =~= before + seq![flag@, xs@[i as int]@]);
        assert(strings_view(xs@).subrange(0, i + 1).drop_last() =~= strings_view(xs@).subrange(0, i as int));
        i += 1;
    }
    assert(strings_view(xs@).subrange(0, xs@.len() as int) =~= strings_view(xs@));
}

/// Appends each of `xs`.
pub fn push_all(a: &mut Vec<String>, xs: &Vec<String>)
    ensures
        strings_view(final(a)@) == strings_view(old(a)@) + strings_view(xs@),
{
    let ghost start = strings_view(a@);
    let mut i: usize = 0;
    assert(strings_view(a@) =~= start + strings_view(xs@).subrange(0, 0));
    while i < xs.len()
        invariant
            i <= xs@.len(),
            strings_view(a@) == start + strings_view(xs@).subrange(0, i as int),
        decreases xs@.len() - i,
    {
        let ghost before = strings_view(a@);
        a.push(xs[i].clone());
        assert(strings_view(xs@)[i as int] == xs@[i as int]@);
        assert(strings_view(a@) =~= before.push(xs@[i as int]@));
        assert(strings_view(xs@).subrange(0, i + 1) =~= strings_view(xs@).subrange(0, i as int).push(xs@[i as int]@));
        i += 1;
    }
    assert(strings_view(xs@).subrange(0, xs@.len() as int) =~= strings_view(xs@));
}

fn push_flag(a: &mut Vec<String>, on: bool, flag: &str)
    ensures
        strings_view(final(a)@) == strings_view(old(a)@) + opt_flag(on, flag@),
{
    let ghost before = strings_view(a@);
    if on {
        a.push(String::from_str(flag));
        assert(strings_view(a@) =~= before + seq![flag@]);
    } else {
        assert(strings_view(a@) =~= before + Seq::<Seq<char>>::empty());
    }
}

/// A `guix build` request.
#[derive(Debug, Clone)]
pub struct BuildBuilder {
    pub packages: Vec<String>,
    pub expressions: Vec<String>,
    pub files: Vec<String>,
    pub manifests: Vec<String>,
    pub derivations: bool,
    pub dry_run: bool,
    pub check: bool,
    pub log_file: bool,
    pub quiet: bool,
    pub root: Option<String>,
}

/// `guix build`, then the switches in a fixed order (`-d -n --check
/// --log-file -q`), `-r ROOT`, each `-e EXPR`, `-f FILE`, `-m MANIFEST`,
/// and the packages last.
pub open spec fn build_argv_spec(b: BuildBuilder) -> Seq<Seq<char>> {
    seq!["build"@]
        + opt_flag(b.derivations, "-d"@)
        + opt_flag(b.dry_run, "-n"@)
        + opt_flag(b.check, "--check"@)
        + opt_flag(b.log_file, "--log-file"@)
        + opt_flag(b.quiet, "-q"@)
        + (match b.root { Some(r) => seq!["-r"@, r@], None => Seq::empty() })
        + flag_pairs("-e"@, strings_view(b.expressions@))
        + flag_pairs("-f"@, strings_view(b.files@))
        + flag_pairs("-m"@, strings_view(b.manifests@))
        + strings_view(b.packages@)
}

impl BuildBuilder {
    /// An empty request.
    pub fn new() -> (b: Self)
        ensures
            b.packages@.len() == 0,
            b.expressions@.len() == 0,
            b.files@.len() == 0,
            b.manifests@.len() == 0,
            !b.derivations && !b.dry_run && !b.check && !b.log_file && !b.quiet,
            b.root is None,
    {
        BuildBuilder {
            packages: Vec::new(),
            expressions: Vec::new(),
            files: Vec::new(),
            manifests: Vec::new(),
            derivations: false,
            dry_run: false,
            check: false,
            log_file: false,
            quiet: false,
            root: None,
        }
    }

    /// Adds a package.
    pub fn package(self, name: &str) -> (b: Self)
        ensures
            b == (BuildBuilder { packages: b.packages, ..self }),
            strings_view(b.packages@) == strings_view(self.packages@).push(name@),
    {
        let mut s = self;
        let ghost before = strings_view(s.packages@);
        s.packages.push(String::from_str(name));
        assert(strings_view(s.packages@) =~= before.push(name@));
        s
    }

    /// Adds packages, in order.
    pub fn packages(self, names: &[&str]) -> (b: Self)
        ensures
            b == (BuildBuilder { packages: b.packages, ..self }),
            strings_view(b.packages@) == strings_view(self.packages@) + names@.map_values(|n: &str| n@),
    {
        let mut s = self;
        let ghost start = strings_view(s.packages@);
        let ghost nv = names@.map_values(|n: &str| n@);
        let mut i: usize = 0;
        assert(strings_view(s.packages@) =~= start + nv.subrange(0, 0));
        while i < names.len()
            invariant
                i <= names@.len(),
                nv == names@.map_values(|n: &str| n@),
                strings_view(s.packages@) == start + nv.subrange(0, i as int),
                s == (BuildBuilder { packages: s.packages, ..self }),
            decreases names@.len() - i,
        {
            let ghost before = strings_view(s.packages@);
            s.packages.push(String::from_str(names[i]));
            assert(nv[i as int] == names@[i as int]@);
            assert(strings_view(s.packages@) =~= before.push(nv[i as int]));
            assert(nv.subrange(0, i + 1) =~= nv.subrange(0, i as int).push(nv[i as int]));
            i += 1;
        }
        assert(nv.subrange(0, nv.len() as int) =~= nv);
        s
    }

    /// `-e EXPR` (repeatable).
    pub fn expression(self, expr: &str) -> (b: Self)
        ensures
            b == (BuildBuilder { expressions: b.expressions, ..self }),
            strings_view(b.expressions@) == strings_view(self.expressions@).push(expr@),
    {
        let mut s = self;
        let ghost before = strings_view(s.expressions@);
        s.expressions.push(String::from_str(expr));
        assert(strings_view(s.expressions@) =~= before.push(expr@));
        s
    }

    /// `-f FILE`.
    pub fn file(self, path: &str) -> (b: Self)
        ensures
            b == (BuildBuilder { files: b.files, ..self }),
            strings_view(b.files@) == strings_view(self.files@).push(path@),
    {
        let mut s = self;
        let ghost before = strings_view(s.files@);
        s.files.push(String::from_str(path));
        assert(strings_view(s.files@) =~= before.push(path@));
        s
    }

    /// `-m FILE`.
    pub fn manifest(self, path: &str) -> (b: Self)
        ensures
            b == (BuildBuilder { manifests: b.manifests, ..self }),
            strings_view(b.manifests@) == strings_view(self.manifests@).push(path@),
    {
        let mut s = self;
        let ghost before = strings_view(s.manifests@);
        s.manifests.push(String::from_str(path));
        assert(strings_view(s.manifests@) =~= before.push(path@));
        s
    }

    /// `-d`: derivation paths instead of a build.
    pub fn derivations(self) -> (b: Self)
        ensures
            b == (BuildBuilder { derivations: true, ..self }),
    {
        BuildBuilder { derivations: true, ..self }
    }

    /// `-n`: what would be built, without building.
    pub fn dry_run(self) -> (b: Self)
        ensures
            b == (BuildBuilder { dry_run: true, ..self }),
    {
        BuildBuilder { dry_run: true, ..self }
    }

    /// `--check`: rebuild and compare.
    pub fn check(self) -> (b: Self)
        ensures
            b == (BuildBuilder { check: true, ..self }),
    {
        BuildBuilder { check: true, ..self }
    }

    /// `-r FILE`: register a GC root.
    pub fn root(self, path: &str) -> (b: Self)
        ensures
            b == (BuildBuilder { root: b.root, ..self }),
            b.root matches Some(r) && r@ == path@,
    {
        BuildBuilder { root: Some(String::from_str(path)), ..self }
    }

    /// `--log-file`: log file names instead of a build.
    pub fn log_file(self) -> (b: Self)
        ensures
            b == (BuildBuilder { log_file: true, ..self }),
    {
        BuildBuilder { log_file: true, ..self }
    }

    /// `-q`.
    pub fn quiet(self) -> (b: Self)
        ensures
            b == (BuildBuilder { quiet: true, ..self }),
    {
        BuildBuilder { quiet: true, ..self }
    }

    /// The full argument vector, `build` subcommand included.
    pub fn argv(&self) -> (r: Vec<String>)
        ensures
            strings_view(r@) == build_argv_spec(*self),
    {
        let mut a: Vec<String> = Vec::new();
        a.push(String::from_str("build"));
        assert(strings_view(a@) =~= seq!["build"@]);
        push_flag(&mut a, self.derivations, "-d");
        push_flag(&mut a, self.dry_run, "-n");
        push_flag(&mut a, self.check, "--check");
        push_flag(&mut a, self.log_file, "--log-file");
        push_flag(&mut a, self.quiet, "-q");
        let ghost mid = strings_view(a@);
        match &self.root {
            Some(r) => {
                a.push(String::from_str("-r"));
                a.push(r.clone());
                assert(strings_view(a@) =~= mid + seq!["-r"@, r@]);
            },
            None => {
                assert(strings_view(a@) =~= mid + Seq::<Seq<char>>::empty());
            },
        }
        push_pairs(&mut a, "-e", &self.expressions);
        push_pairs(&mut a, "-f", &self.files);
        push_pairs(&mut a, "-m", &self.manifests);
        push_all(&mut a, &self.packages);
        assert(strings_view(a@) =~= build_argv_spec(*self));
        a
    }
}

/// A line that is one bare `/gnu/store/...` token once trimmed (indented
/// listings count; lines that mention a store path among other words do
/// not).
pub open spec fn store_path_spec(text: Seq<char>) -> Option<Seq<char>> {
    let t = trim_spec(text);
    if t.len() >= 11 && t.subrange(0, 11) == "/gnu/store/"@ && !has_whitespace(t) {
        Some(t)
    } else {
        None
    }
}

pub fn parse_store_path(text: &str) -> (r: Option<String>)
    ensures
        match r {
            Some(p) => store_path_spec(text@) == Some(p@),
            None => store_path_spec(text@) is None,
        },
{
    let cs = chars_of(text);
    let t = trim_chars(&cs);
    proof {
        reveal_strlit("/gnu/store/");
    }
    if !starts_with_str(&t, "/gnu/store/") {
        return None;
    }
    if any_whitespace(&t) {
        return None;
    }
    Some(string_of(&t))
}

/// What the event stream of a finished build has yielded so far: the
/// store paths listed on stdout, and the last exit code seen.
pub struct StorePathCollector {
    pub paths: Vec<String>,
    pub last_exit: Option<i32>,
}

/// The collector after one more event.
pub open spec fn collect_step(paths: Seq<Seq<char>>, last_exit: Option<i32>, e: ProgressEvent) -> (Seq<Seq<char>>, Option<i32>) {
    match e {
        ProgressEvent::Line { stream: ProgressStream::Stdout, text, .. } => match store_path_spec(text@) {
            Some(p) => (paths.push(p), last_exit),
            None => (paths, last_exit),
        },
        ProgressEvent::StorePathListed { path } => match store_path_spec(path@) {
            Some(p) => (paths.push(p), last_exit),
            None => (paths, last_exit),
        },
        ProgressEvent::ExitSummary { code, .. } => (paths, Some(code)),
        _ => (paths, last_exit),
    }
}

impl StorePathCollector {
    pub fn new() -> (c: Self)
        ensures
            c.paths@.len() == 0,
            c.last_exit is None,
    {
        StorePathCollector { paths: Vec::new(), last_exit: None }
    }

    /// Takes in one event.
    pub fn observe(&mut self, e: &ProgressEvent)
        ensures
            (strings_view(final(self).paths@), final(self).last_exit)
                == collect_step(strings_view(old(self).paths@), old(self).last_exit, *e),
    {
        let ghost before = strings_view(self.paths@);
        match e {
            ProgressEvent::Line { stream: ProgressStream::Stdout, text, .. } => {
                if let Some(p) = parse_store_path(text.as_str()) {
                    self.paths.push(p);
                    assert(strings_view(self.paths@) =~= before.push(p@));
                }
            },
            ProgressEvent::StorePathListed { path } => {
                if let Some(p) = parse_store_path(path.as_str()) {
                    self.paths.push(p);
                    assert(strings_view(self.paths@) =~= before.push(p@));
                }
            },
            ProgressEvent::ExitSummary { code, .. } => {
                self.last_exit = Some(*code);
            },
            _ => {},
        }
    }

    /// The outcome once the stream has ended: the paths on exit 0, the
    /// failure on another code, cancellation when no exit was seen.
    pub fn finish(self) -> (r: Result<Vec<String>, GuixError>)
        ensures
            match self.last_exit {
                Some(code) => if code == 0 {
                    r matches Ok(v) && strings_view(v@) == strings_view(self.paths@)
                } else {
                    r matches Err(e) && e matches GuixError::OperationFailed { code: c, stderr_tail }
                        && c == code && stderr_tail@.len() == 0
                },
                None => r matches Err(e) && e is Cancelled,
            },
    {
        match self.last_exit {
            Some(code) => if code == 0 {
                Ok(self.paths)
            } else {
                Err(GuixError::OperationFailed { code, stderr_tail: String::new() })
            },
            None => Err(GuixError::Cancelled),
        }
    }
}

/// `guix archive --authorize` (the key is fed on standard input).
pub fn authorize_args() -> (r: Vec<String>)
    ensures
        strings_view(r@) == seq!["archive"@, "--authorize"@],
{
    let mut v: Vec<String> = Vec::new();
    v.push(String::from_str("archive"));
    v.push(String::from_str("--authorize"));
    assert(strings_view(v@) =~= seq!["archive"@, "--authorize"@]);
    v
}

} // verus!
