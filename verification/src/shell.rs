//! `guix shell`: the argument vector a shell request makes. A
//! "development" mark binds to the next package added, so the order of
//! the arguments is kept.

use vstd::prelude::*;
use crate::types::strings_view;
use crate::building::{flag_pairs, opt_flag, push_pairs, push_all};

verus! {

/// A positional package: its own outputs, or (`-D`) its inputs.
#[derive(Debug, Clone, PartialEq, Eq)]
pub enum ShellArg {
    Package(String),
    DevelopmentPackage(String),
}

/// The arguments one item makes.
pub open spec fn item_args(a: ShellArg) -> Seq<Seq<char>> {
    match a {
        ShellArg::Package(n) => seq![n@],
        ShellArg::DevelopmentPackage(n) => seq!["-D"@, n@],
    }
}

pub open spec fn items_args(items: Seq<ShellArg>) -> Seq<Seq<char>>
    decreases items.len(),
{
    if items.len() == 0 {
        Seq::empty()
    } else {
        items_args(items.drop_last()) + item_args(items.last())
    }
}

/// A `guix shell` request.
#[derive(Debug, Clone)]
pub struct ShellBuilder {
    pub items: Vec<ShellArg>,
    pub pending_dev: bool,
    pub manifest: Option<String>,
    pub pure: bool,
    pub container: bool,
    pub network: bool,
    pub preserve: Vec<String>,
    pub command: Option<(String, Vec<String>)>,
}

/// `guix shell`, then `--pure -C -N`, `-m MANIFEST`, each `-E REGEX`,
/// the packages in the order they were added, and `-- COMMAND ARGS...`.
pub open spec fn shell_argv_spec(b: ShellBuilder) -> Seq<Seq<char>> {
    seq!["shell"@]
        + opt_flag(b.pure, "--pure"@)
        + opt_flag(b.container, "-C"@)
        + opt_flag(b.network, "-N"@)
        + (match b.manifest { Some(m) => seq!["-m"@, m@], None => Seq::empty() })
        + flag_pairs("-E"@, strings_view(b.preserve@))
        + items_args(b.items@)
        + (match b.command {
            Some((c, args)) => seq!["--"@, c@] + strings_view(args@),
            None => Seq::empty(),
        })
}

/// The item that adding `name` makes, given the pending mark.
pub open spec fn next_item(pending_dev: bool, name: Seq<char>) -> Seq<Seq<char>> {
    if pending_dev { seq!["-D"@, name] } else { seq![name] }
}

impl ShellBuilder {
    /// An empty, interactive request.
    pub fn new() -> (b: Self)
        ensures
            b.items@.len() == 0,
            !b.pending_dev,
            b.manifest is None,
            !b.pure && !b.container && !b.network,
            b.preserve@.len() == 0,
            b.command is None,
    {
        ShellBuilder {
            items: Vec::new(),
            pending_dev: false,
            manifest: None,
            pure: false,
            container: false,
            network: false,
            preserve: Vec::new(),
            command: None,
        }
    }

    /// Adds a package: a development input when the mark is set (which
    /// then clears), the package itself otherwise.
    pub fn package(self, name: &str) -> (b: Self)
        ensures
            b == (ShellBuilder { items: b.items, pending_dev: false, ..self }),
            b.items@.len() == self.items@.len() + 1,
            b.items@.drop_last() == self.items@,
            item_args(b.items@.last()) == next_item(self.pending_dev, name@),
            items_args(b.items@) == items_args(self.items@) + next_item(self.pending_dev, name@),
    {
        let mut s = self;
        let ghost old_items = s.items@;
        if s.pending_dev {
            s.pending_dev = false;
            s.items.push(ShellArg::DevelopmentPackage(String::from_str(name)));
        } else {
            s.items.push(ShellArg::Package(String::from_str(name)));
        }
        assert(s.items@.drop_last() =~= old_items);
        s
    }

    /// Adds packages in order (a pending mark binds to the first).
    pub fn packages(self, names: &[&str]) -> (b: Self)
        ensures
            b == (ShellBuilder { items: b.items, pending_dev: b.pending_dev, ..self }),
            names@.len() == 0 ==> b.pending_dev == self.pending_dev,
            names@.len() > 0 ==> !b.pending_dev,
            b.items@.len() == self.items@.len() + names@.len(),
            b.items@.subrange(0, self.items@.len() as int) == self.items@,
    {
        let mut s = self;
        let mut i: usize = 0;
        while i < names.len()
            invariant
                i <= names@.len(),
                s == (ShellBuilder { items: s.items, pending_dev: s.pending_dev, ..self }),
                i == 0 ==> s.pending_dev == self.pending_dev,
                i > 0 ==> !s.pending_dev,
                s.items@.len() == self.items@.len() + i,
                s.items@.subrange(0, self.items@.len() as int) == self.items@,
            decreases names@.len() - i,
        {
            let ghost prev = s.items@;
            s = s.package(names[i]);
            assert(s.items@.subrange(0, self.items@.len() as int) =~= prev.subrange(0, self.items@.len() as int));
            i += 1;
        }
        s
    }

    /// Marks the next package as a development input (`-D`).
    pub fn development(self) -> (b: Self)
        ensures
            b == (ShellBuilder { pending_dev: true, ..self }),
    {
        ShellBuilder { pending_dev: true, ..self }
    }

    /// `-m FILE`.
    pub fn manifest(self, path: &str) -> (b: Self)
        ensures
            b == (ShellBuilder { manifest: b.manifest, ..self }),
            b.manifest matches Some(m) && m@ == path@,
    {
        ShellBuilder { manifest: Some(String::from_str(path)), ..self }
    }

    /// `--pure`.
    pub fn pure(self) -> (b: Self)
        ensures
            b == (ShellBuilder { pure: true, ..self }),
    {
        ShellBuilder { pure: true, ..self }
    }

    /// `-C`.
    pub fn container(self) -> (b: Self)
        ensures
            b == (ShellBuilder { container: true, ..self }),
    {
        ShellBuilder { container: true, ..self }
    }

    /// `-N` (meaningful with a container only).
    pub fn network(self) -> (b: Self)
        ensures
            b == (ShellBuilder { network: true, ..self }),
    {
        ShellBuilder { network: true, ..self }
    }

    /// `-E REGEX` (repeatable).
    pub fn preserve(self, regex: &str) -> (b: Self)
        ensures
            b == (ShellBuilder { preserve: b.preserve, ..self }),
            strings_view(b.preserve@) == strings_view(self.preserve@).push(regex@),
    {
        let mut s = self;
        let ghost before = strings_view(s.preserve@);
        s.preserve.push(String::from_str(regex));
        assert(strings_view(s.preserve@) =~= before.push(regex@));
        s
    }

    /// The trailing `-- COMMAND ARGS...` (without it the shell is
    /// interactive).
    pub fn command(self, cmd: &str, args: &[&str]) -> (b: Self)
        ensures
            b == (ShellBuilder { command: b.command, ..self }),
            b.command matches Some((c, a)) && c@ == cmd@ && strings_view(a@) == args@.map_values(|x: &str| x@),
    {
        let mut v: Vec<String> = Vec::new();
        let ghost av = args@.map_values(|x: &str| x@);
        let mut i: usize = 0;
        while i < args.len()
            invariant
                i <= args@.len(),
                av == args@.map_values(|x: &str| x@),
                strings_view(v@) == av.subrange(0, i as int),
            decreases args@.len() - i,
        {
            let ghost before = strings_view(v@);
            v.push(String::from_str(args[i]));
            assert(av[i as int] == args@[i as int]@);
            assert(strings_view(v@) =~= before.push(av[i as int]));
            assert(av.subrange(0, i + 1) =~= av.subrange(0, i as int).push(av[i as int]));
            i += 1;
        }
        assert(av.subrange(0, av.len() as int) =~= av);
        ShellBuilder { command: Some((String::from_str(cmd), v)), ..self }
    }

    /// The full argument vector, `shell` subcommand included.
    pub fn argv(&self) -> (r: Vec<String>)
        ensures
            strings_view(r@) == shell_argv_spec(*self),
    {
        let mut a: Vec<String> = Vec::new();
        a.push(String::from_str("shell"));
        assert(strings_view(a@) =~= seq!["shell"@]);
        let ghost s0 = strings_view(a@);
        if self.pure {
            a.push(String::from_str("--pure"));
        }
        assert(strings_view(a@) =~= s0 + opt_flag(self.pure, "--pure"@));
        let ghost s1 = strings_view(a@);
        if self.container {
            a.push(String::from_str("-C"));
        }
        assert(strings_view(a@) =~= s1 + opt_flag(self.container, "-C"@));
        let ghost s2 = strings_view(a@);
        if self.network {
            a.push(String::from_str("-N"));
        }
        assert(strings_view(a@) =~= s2 + opt_flag(self.network, "-N"@));
        let ghost s3 = strings_view(a@);
        match &self.manifest {
            Some(m) => {
                a.push(String::from_str("-m"));
                a.push(m.clone());
                assert(strings_view(a@) =~= s3 + seq!["-m"@, m@]);
            },
            None => {
                assert(strings_view(a@) =~= s3 + Seq::<Seq<char>>::empty());
            },
        }
        push_pairs(&mut a, "-E", &self.preserve);
        let ghost s4 = strings_view(a@);
        let mut i: usize = 0;
        assert(self.items@.subrange(0, 0) =~= Seq::<ShellArg>::empty());
        assert(strings_view(a@) =~= s4 + items_args(Seq::<ShellArg>::empty()));
        while i < self.items.len()
            invariant
                i <= self.items@.len(),
                strings_view(a@) == s4 + items_args(self.items@.subrange(0, i as int)),
            decreases self.items@.len() - i,
        {
            let ghost before = strings_view(a@);
            assert(self.items@.subrange(0, i + 1).drop_last() =~= self.items@.subrange(0, i as int));
            match &self.items[i] {
                ShellArg::Package(n) => {
                    a.push(n.clone());
                    assert(strings_view(a@) =~= before + seq![n@]);
                },
                ShellArg::DevelopmentPackage(n) => {
                    a.push(String::from_str("-D"));
                    a.push(n.clone());
                    assert(strings_view(a@) =~= before + seq!["-D"@, n@]);
                },
            }
            i += 1;
        }
        assert(self.items@.subrange(0, self.items@.len() as int) =~= self.items@);
        let ghost s5 = strings_view(a@);
        match &self.command {
            Some((c, args)) => {
                a.push(String::from_str("--"));
                a.push(c.clone());
                assert(strings_view(a@) =~= s5 + seq!["--"@, c@]);
                push_all(&mut a, args);
            },
            None => {
                assert(strings_view(a@) =~= s5 + Seq::<Seq<char>>::empty());
            },
        }
        assert(strings_view(a@) =~= shell_argv_spec(*self));
        a
    }
}

} // verus!
