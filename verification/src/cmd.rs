//! Where the profile flag goes in a `guix` command line, and which exit
//! classifier a privileged command is read with.

use vstd::prelude::*;
use crate::types::strings_view;
use crate::repl_op::strs_view;
use crate::argv::Privilege;
use crate::operation::ExitClassifier;

verus! {

/// The trusted-path `guix` that the polkit action is keyed on.
pub const POLKIT_GUIX_PATH: &'static str = "/run/current-system/profile/bin/guix";

/// The setuid `pkexec` on Guix System.
pub const PKEXEC_PATH: &'static str = "/run/privileged/bin/pkexec";

/// The subcommand, then `-p PROFILE` when a profile is given and the
/// subcommand takes one, then the remaining arguments.
pub open spec fn guix_argv_spec(profile: Option<Seq<char>>, with_profile: bool, args: Seq<Seq<char>>) -> Seq<Seq<char>> {
    if args.len() == 0 {
        Seq::empty()
    } else {
        seq![args[0]] + (match profile {
            Some(p) => if with_profile { seq!["-p"@, p] } else { Seq::empty() },
            None => Seq::empty(),
        }) + args.drop_first()
    }
}

/// The argument vector of a `guix` invocation (`-p` is a subcommand flag,
/// so it is spliced after the subcommand).
pub fn guix_argv(profile: Option<&str>, with_profile: bool, args: &[&str]) -> (r: Vec<String>)
    ensures
        strings_view(r@) == guix_argv_spec(
            match profile { Some(p) => Some(p@), None => None },
            with_profile,
            strs_view(args@),
        ),
{
    let mut out: Vec<String> = Vec::new();
    if args.len() == 0 {
        assert(strings_view(out@) =~= Seq::<Seq<char>>::empty());
        return out;
    }
    let ghost av = strs_view(args@);
    out.push(String::from_str(args[0]));
    let ghost mut head: Seq<Seq<char>> = seq![av[0]];
    assert(strings_view(out@) =~= head);
    if with_profile {
        if let Some(p) = profile {
            out.push(String::from_str("-p"));
            out.push(String::from_str(p));
            proof {
                head = head + seq!["-p"@, p@];
            }
            assert(strings_view(out@) =~= head);
        }
    }
    let mut i: usize = 1;
    while i < args.len()
        invariant
            1 <= i <= args@.len(),
            av == strs_view(args@),
            strings_view(out@) == head + av.subrange(1, i as int),
        decreases args@.len() - i,
    {
        let ghost before = strings_view(out@);
        out.push(String::from_str(args[i]));
        assert(av[i as int] == args@[i as int]@);
        assert(strings_view(out@) =~= before.push(av[i as int]));
        assert(av.subrange(1, i + 1) =~= av.subrange(1, i as int).push(av[i as int]));
        assert(strings_view(out@) =~= head + av.subrange(1, i + 1));
        i += 1;
    }
    assert(av.subrange(1, av.len() as int) =~= av.drop_first());
    assert(strings_view(out@) =~= guix_argv_spec(
        match profile { Some(p) => Some(p@), None => None },
        with_profile,
        av,
    ));
    out
}

/// The exit classifier for a privileged command: `pkexec`'s reserved
/// codes under `pkexec`, guix's own codes when already root.
pub fn classifier_for(privilege: Privilege) -> (r: ExitClassifier)
    ensures
        r == (match privilege {
            Privilege::Pkexec => ExitClassifier::Pkexec,
            Privilege::AlreadyRoot => ExitClassifier::Standard,
        }),
{
    match privilege {
        Privilege::Pkexec => ExitClassifier::Pkexec,
        Privilege::AlreadyRoot => ExitClassifier::Standard,
    }
}

/// The argument vector of a privileged command: under `pkexec`, the
/// trusted-path `guix` followed by `args` (run as `pkexec`'s arguments);
/// when already root, `args` for the caller's own `guix`.
pub fn privileged_argv(privilege: Privilege, args: &[String]) -> (r: Vec<String>)
    ensures
        strings_view(r@) == (match privilege {
            Privilege::Pkexec => seq![POLKIT_GUIX_PATH@] + strings_view(args@),
            Privilege::AlreadyRoot => strings_view(args@),
        }),
{
    let mut out: Vec<String> = Vec::new();
    let ghost mut head: Seq<Seq<char>> = Seq::empty();
    if let Privilege::Pkexec = privilege {
        out.push(String::from_str(POLKIT_GUIX_PATH));
        proof {
            head = seq![POLKIT_GUIX_PATH@];
        }
    }
    assert(strings_view(out@) =~= head);
    let mut i: usize = 0;
    while i < args.len()
        invariant
            i <= args@.len(),
            strings_view(out@) == head + strings_view(args@).subrange(0, i as int),
        decreases args@.len() - i,
    {
        let ghost before = strings_view(out@);
        out.push(args[i].clone());
        assert(strings_view(args@)[i as int] == args@[i as int]@);
        assert(strings_view(out@) =~= before.push(args@[i as int]@));
        assert(strings_view(args@).subrange(0, i + 1) =~= strings_view(args@).subrange(0, i as int).push(args@[i as int]@));
        assert(strings_view(out@) =~= head + strings_view(args@).subrange(0, i + 1));
        i += 1;
    }
    assert(strings_view(args@).subrange(0, args@.len() as int) =~= strings_view(args@));
    out
}

} // verus!
