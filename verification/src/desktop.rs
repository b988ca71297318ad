//! Which desktop environment is running, and how its application menu is
//! refreshed after an install (guix repoints the profile to a new store
//! path, which menu caches do not notice).

use vstd::prelude::*;
use crate::text::{chars_of, string_of, push_str, decimal, trim_spec, trim_chars, eq_str,
    trim_str};
use crate::discover::{split_char, split_on_char};

verus! {

#[derive(Debug, Clone, Copy, PartialEq, Eq, Structural)]
pub enum DesktopEnv {
    KdePlasma,
    Xfce,
    Mate,
    Lxqt,
    Gnome,
    Cinnamon,
    Unknown,
}

/// `c` in ASCII upper case.
pub open spec fn ascii_upper(c: char) -> char {
    if 'a' <= c <= 'z' {
        ((c as u32) - 32) as char
    } else {
        c
    }
}

pub open spec fn ascii_upper_seq(s: Seq<char>) -> Seq<char> {
    s.map_values(|c: char| ascii_upper(c))
}

fn to_ascii_uppercase(s: &[char]) -> (r: Vec<char>)
    ensures
        r@ == ascii_upper_seq(s@),
{
    let mut out: Vec<char> = Vec::new();
    let mut i: usize = 0;
    while i < s.len()
        invariant
            i <= s@.len(),
            out@ == ascii_upper_seq(s@.subrange(0, i as int)),
        decreases s@.len() - i,
    {
        let c = s[i];
        let u = if 'a' <= c && c <= 'z' {
            ((c as u8) - 32) as char
        } else {
            c
        };
        out.push(u);
        assert(ascii_upper_seq(s@.subrange(0, i + 1)) =~= ascii_upper_seq(s@.subrange(0, i as int)).push(ascii_upper(c)));
        i += 1;
    }
    assert(s@.subrange(0, s@.len() as int) =~= s@);
    out
}

/// The desktop an upper-cased token names.
pub open spec fn env_of_token(u: Seq<char>) -> DesktopEnv {
    if u == "KDE"@ {
        DesktopEnv::KdePlasma
    } else if u == "XFCE"@ {
        DesktopEnv::Xfce
    } else if u == "MATE"@ {
        DesktopEnv::Mate
    } else if u == "LXQT"@ {
        DesktopEnv::Lxqt
    } else if u == "GNOME"@ {
        DesktopEnv::Gnome
    } else if u == "X-CINNAMON"@ || u == "CINNAMON"@ {
        DesktopEnv::Cinnamon
    } else {
        DesktopEnv::Unknown
    }
}

/// The first of the tokens (trimmed, compared case-insensitively) that
/// names a known desktop.
pub open spec fn classify_tokens(ts: Seq<Seq<char>>) -> DesktopEnv
    decreases ts.len(),
{
    if ts.len() == 0 {
        DesktopEnv::Unknown
    } else {
        let de = env_of_token(ascii_upper_seq(trim_spec(ts[0])));
        if de != DesktopEnv::Unknown { de } else { classify_tokens(ts.drop_first()) }
    }
}

/// A colon-separated desktop list (`XDG_CURRENT_DESKTOP` style).
pub open spec fn classify_spec(value: Seq<char>) -> DesktopEnv {
    classify_tokens(split_char(value, ':'))
}

fn env_of_upper(u: &[char]) -> (de: DesktopEnv)
    ensures
        de == env_of_token(u@),
{
    if eq_str(u, "KDE") {
        DesktopEnv::KdePlasma
    } else if eq_str(u, "XFCE") {
        DesktopEnv::Xfce
    } else if eq_str(u, "MATE") {
        DesktopEnv::Mate
    } else if eq_str(u, "LXQT") {
        DesktopEnv::Lxqt
    } else if eq_str(u, "GNOME") {
        DesktopEnv::Gnome
    } else if eq_str(u, "X-CINNAMON") || eq_str(u, "CINNAMON") {
        DesktopEnv::Cinnamon
    } else {
        DesktopEnv::Unknown
    }
}

pub fn classify(value: &str) -> (de: DesktopEnv)
    ensures
        de == classify_spec(value@),
{
    let cs = chars_of(value);
    let tokens = split_on_char(&cs, ':');
    let ghost ts = tokens@.map_values(|v: Vec<char>| v@);
    let mut i: usize = 0;
    assert(ts.subrange(0, ts.len() as int) =~= ts);
    while i < tokens.len()
        invariant
            i <= tokens@.len(),
            ts == tokens@.map_values(|v: Vec<char>| v@),
            ts == split_char(value@, ':'),
            classify_tokens(ts) == classify_tokens(ts.subrange(i as int, ts.len() as int)),
        decreases tokens@.len() - i,
    {
        let ghost sub = ts.subrange(i as int, ts.len() as int);
        assert(sub.drop_first() =~= ts.subrange(i + 1, ts.len() as int));
        assert(sub[0] == tokens@[i as int]@);
        let t = trim_chars(&tokens[i]);
        let u = to_ascii_uppercase(&t);
        let de = env_of_upper(&u);
        if de != DesktopEnv::Unknown {
            return de;
        }
        i += 1;
    }
    DesktopEnv::Unknown
}

/// `XDG_CURRENT_DESKTOP` first; `DESKTOP_SESSION` when that names no
/// known desktop.
pub fn detect_from(xdg_current: &str, desktop_session: &str) -> (de: DesktopEnv)
    ensures
        de == (if classify_spec(xdg_current@) != DesktopEnv::Unknown {
            classify_spec(xdg_current@)
        } else {
            classify_spec(desktop_session@)
        }),
{
    let primary = classify(xdg_current);
    if primary != DesktopEnv::Unknown {
        return primary;
    }
    classify(desktop_session)
}

/// How a refresh command is run.
#[derive(Debug, Clone, Copy, PartialEq, Eq, Structural)]
pub enum Mode {
    /// Run to completion under a timeout (KDE, XFCE).
    Complete,
    /// Spawn and let it daemonize (MATE).
    Daemon,
    /// Kill the running panel and start it again (LXQt).
    Restart,
}

/// A program and its arguments.
#[derive(Debug, Clone)]
pub struct Cmd {
    pub prog: &'static str,
    pub args: Vec<&'static str>,
}

/// The candidate commands, in preference order, and how to run them.
#[derive(Debug, Clone)]
pub struct Refresh {
    pub candidates: Vec<Cmd>,
    pub mode: Mode,
}

pub open spec fn cmd_view(c: Cmd) -> (Seq<char>, Seq<Seq<char>>) {
    (c.prog@, c.args@.map_values(|a: &str| a@))
}

/// The refresh plan of each desktop; GNOME and Cinnamon notice the change
/// on their own, and an unknown desktop is left alone.
pub open spec fn plan_spec(de: DesktopEnv) -> Option<(Seq<(Seq<char>, Seq<Seq<char>>)>, Mode)> {
    match de {
        DesktopEnv::KdePlasma => Some((
            seq![("kbuildsycoca6"@, seq!["--noincremental"@]), ("kbuildsycoca5"@, seq!["--noincremental"@])],
            Mode::Complete,
        )),
        DesktopEnv::Xfce => Some((seq![("xfce4-panel"@, seq!["-r"@])], Mode::Complete)),
        DesktopEnv::Mate => Some((seq![("mate-panel"@, seq!["--replace"@])], Mode::Daemon)),
        DesktopEnv::Lxqt => Some((seq![("lxqt-panel"@, Seq::empty())], Mode::Restart)),
        _ => None,
    }
}

fn cmd(prog: &'static str, arg: Option<&'static str>) -> (c: Cmd)
    ensures
        cmd_view(c) == (prog@, match arg { Some(a) => seq![a@], None => Seq::<Seq<char>>::empty() }),
{
    let mut args: Vec<&'static str> = Vec::new();
    if let Some(a) = arg {
        args.push(a);
    }
    let c = Cmd { prog, args };
    assert(c.args@.map_values(|a: &str| a@) =~= match arg { Some(a) => seq![a@], None => Seq::<Seq<char>>::empty() });
    c
}

pub fn plan_for(de: DesktopEnv) -> (r: Option<Refresh>)
    ensures
        match plan_spec(de) {
            Some((cands, mode)) => r matches Some(p) && p.mode == mode
                && p.candidates@.map_values(|c: Cmd| cmd_view(c)) == cands,
            None => r is None,
        },
{
    match de {
        DesktopEnv::KdePlasma => {
            let mut v: Vec<Cmd> = Vec::new();
            v.push(cmd("kbuildsycoca6", Some("--noincremental")));
            v.push(cmd("kbuildsycoca5", Some("--noincremental")));
            assert(v@.map_values(|c: Cmd| cmd_view(c)) =~= seq![
                ("kbuildsycoca6"@, seq!["--noincremental"@]),
                ("kbuildsycoca5"@, seq!["--noincremental"@]),
            ]);
            Some(Refresh { candidates: v, mode: Mode::Complete })
        },
        DesktopEnv::Xfce => {
            let mut v: Vec<Cmd> = Vec::new();
            v.push(cmd("xfce4-panel", Some("-r")));
            assert(v@.map_values(|c: Cmd| cmd_view(c)) =~= seq![("xfce4-panel"@, seq!["-r"@])]);
            Some(Refresh { candidates: v, mode: Mode::Complete })
        },
        DesktopEnv::Mate => {
            let mut v: Vec<Cmd> = Vec::new();
            v.push(cmd("mate-panel", Some("--replace")));
            assert(v@.map_values(|c: Cmd| cmd_view(c)) =~= seq![("mate-panel"@, seq!["--replace"@])]);
            Some(Refresh { candidates: v, mode: Mode::Daemon })
        },
        DesktopEnv::Lxqt => {
            let mut v: Vec<Cmd> = Vec::new();
            v.push(cmd("lxqt-panel", None));
            assert(v@.map_values(|c: Cmd| cmd_view(c)) =~= seq![("lxqt-panel"@, Seq::<Seq<char>>::empty())]);
            Some(Refresh { candidates: v, mode: Mode::Restart })
        },
        _ => None,
    }
}

/// The outcome of a refresh attempt (logged, never shown to the user).
#[derive(Debug, Clone)]
pub enum MenuRefresh {
    Refreshed(DesktopEnv),
    NotNeeded(DesktopEnv),
    CommandMissing(DesktopEnv),
    Failed(DesktopEnv, String),
    Disabled,
}

/// What a refresh comes to before anything is run: disabled, nothing to
/// do for this desktop, no candidate on `PATH`, or the index of the first
/// candidate found on `PATH` (`on_path[i]` tells whether candidate `i`
/// is there).
pub enum RefreshDecision {
    Outcome(MenuRefresh),
    Run(Refresh, usize),
}

/// The first index at which `found` holds.
pub open spec fn first_found(found: Seq<bool>) -> Option<int>
    decreases found.len(),
{
    if found.len() == 0 {
        None
    } else if found[0] {
        Some(0)
    } else {
        match first_found(found.drop_first()) {
            Some(i) => Some(i + 1),
            None => None,
        }
    }
}

pub fn decide_refresh(enabled: bool, de: DesktopEnv, on_path: &Vec<bool>) -> (r: RefreshDecision)
    requires
        plan_spec(de) matches Some((cands, _)) ==> on_path@.len() == cands.len(),
    ensures
        !enabled ==> r matches RefreshDecision::Outcome(MenuRefresh::Disabled),
        enabled && plan_spec(de) is None ==> (r matches RefreshDecision::Outcome(MenuRefresh::NotNeeded(d)) && d == de),
        enabled && plan_spec(de) is Some ==> (match first_found(on_path@) {
            Some(i) => r matches RefreshDecision::Run(p, k) && k == i && p.mode == plan_spec(de).unwrap().1
                && p.candidates@.map_values(|c: Cmd| cmd_view(c)) == plan_spec(de).unwrap().0,
            None => r matches RefreshDecision::Outcome(MenuRefresh::CommandMissing(d)) && d == de,
        }),
{
    if !enabled {
        return RefreshDecision::Outcome(MenuRefresh::Disabled);
    }
    let plan = match plan_for(de) {
        Some(p) => p,
        None => return RefreshDecision::Outcome(MenuRefresh::NotNeeded(de)),
    };
    let mut i: usize = 0;
    assert(on_path@.subrange(0, on_path@.len() as int) =~= on_path@);
    while i < on_path.len()
        invariant
            i <= on_path@.len(),
            enabled,
            plan_spec(de) is Some,
            plan.mode == plan_spec(de).unwrap().1,
            plan.candidates@.map_values(|c: Cmd| cmd_view(c)) == plan_spec(de).unwrap().0,
            first_found(on_path@) == match first_found(on_path@.subrange(i as int, on_path@.len() as int)) {
                Some(j) => Some(j + i),
                None => None,
            },
        decreases on_path@.len() - i,
    {
        let ghost sub = on_path@.subrange(i as int, on_path@.len() as int);
        assert(sub.drop_first() =~= on_path@.subrange(i + 1, on_path@.len() as int));
        if on_path[i] {
            return RefreshDecision::Run(plan, i);
        }
        i += 1;
    }
    RefreshDecision::Outcome(MenuRefresh::CommandMissing(de))
}

/// The shell line that restarts a panel.
pub open spec fn restart_script_spec(bin: Seq<char>) -> Seq<char> {
    "killall -q "@ + bin + " 2>/dev/null; exec "@ + bin
}

pub fn restart_script(bin: &str) -> (r: String)
    ensures
        r@ == restart_script_spec(bin@),
{
    let mut v: Vec<char> = Vec::new();
    push_str(&mut v, "killall -q ");
    push_str(&mut v, bin);
    push_str(&mut v, " 2>/dev/null; exec ");
    push_str(&mut v, bin);
    string_of(&v)
}

/// The failure text of a refresh command that exited non-zero.
pub open spec fn exited_message_spec(prog: Seq<char>, code: int, stderr: Seq<char>) -> Seq<char> {
    prog + " exited "@ + (if code < 0 { "-"@ + decimal((-code) as nat) } else { decimal(code as nat) }) + ": "@
        + trim_spec(stderr)
}

pub fn exited_message(prog: &str, code: i32, stderr: &str) -> (r: String)
    ensures
        r@ == exited_message_spec(prog@, code as int, stderr@),
{
    let mut v: Vec<char> = Vec::new();
    push_str(&mut v, prog);
    push_str(&mut v, " exited ");
    let cs = crate::package::i64_string(code as i64);
    push_str(&mut v, cs.as_str());
    push_str(&mut v, ": ");
    let t = trim_str(stderr);
    push_str(&mut v, t.as_str());
    string_of(&v)
}

/// The failure text of a refresh command that ran too long.
pub fn timed_out_message(prog: &str) -> (r: String)
    ensures
        r@ == prog@ + " timed out"@,
{
    let mut v: Vec<char> = Vec::new();
    push_str(&mut v, prog);
    push_str(&mut v, " timed out");
    string_of(&v)
}

} // verus!
