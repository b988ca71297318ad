//! Command lines for the long-running write operations (`guix pull`,
//! `guix system reconfigure`, `guix system init`): the build flags that
//! are forwarded, the argument vectors, and the profile paths. Also the
//! rule that recognises a running polkit authentication agent by its
//! kernel `comm` name.

use vstd::prelude::*;
use vstd::string::StringSliceAdditionalSpecFns;
use vstd::utf8::{valid_utf8, decode_utf8};
use crate::text::{chars_of, string_of, push_str, push_chars, decimal, decimal_chars, trim_spec, trim_chars};

verus! {

/// How a privileged operation is elevated.
#[derive(Debug, Clone, Copy, PartialEq, Eq, Structural)]
pub enum Privilege {
    /// Through `pkexec` (the default).
    Pkexec,
    /// The caller already runs as root.
    AlreadyRoot,
}

impl Default for Privilege {
    fn default() -> (r: Self)
        ensures
            r == Privilege::Pkexec,
    {
        Privilege::Pkexec
    }
}

/// Build flags forwarded to `guix`.
#[derive(Debug, Clone, PartialEq, Eq)]
pub struct BuildOptions {
    pub substitute_urls: Vec<String>,
    pub no_substitutes: bool,
    pub fallback: bool,
    pub cores: Option<u32>,
    pub max_jobs: Option<u32>,
    pub system: Option<String>,
}

impl Default for BuildOptions {
    fn default() -> (r: Self)
        ensures
            r.substitute_urls@.len() == 0,
            !r.no_substitutes,
            !r.fallback,
            r.cores is None,
            r.max_jobs is None,
            r.system is None,
    {
        BuildOptions {
            substitute_urls: Vec::new(),
            no_substitutes: false,
            fallback: false,
            cores: None,
            max_jobs: None,
            system: None,
        }
    }
}

pub open spec fn strings_view(v: Seq<String>) -> Seq<Seq<char>> {
    v.map_values(|s: String| s@)
}

/// `xs` joined by single spaces.
pub open spec fn join_space(xs: Seq<Seq<char>>) -> Seq<char>
    decreases xs.len(),
{
    if xs.len() == 0 {
        Seq::empty()
    } else if xs.len() == 1 {
        xs[0]
    } else {
        join_space(xs.drop_last()) + " "@ + xs.last()
    }
}

/// The flags, in order: substitute URLs (space-joined, when any),
/// `--no-substitutes`, `--fallback`, `--cores=N`, `--max-jobs=N`,
/// `--system=S`.
pub open spec fn build_flags(o: BuildOptions) -> Seq<Seq<char>> {
    (if o.substitute_urls@.len() > 0 {
        seq!["--substitute-urls="@ + join_space(strings_view(o.substitute_urls@))]
    } else {
        Seq::empty()
    }) + (if o.no_substitutes { seq!["--no-substitutes"@] } else { Seq::empty() })
        + (if o.fallback { seq!["--fallback"@] } else { Seq::empty() })
        + (match o.cores { Some(c) => seq!["--cores="@ + decimal(c as nat)], None => Seq::empty() })
        + (match o.max_jobs { Some(j) => seq!["--max-jobs="@ + decimal(j as nat)], None => Seq::empty() })
        + (match o.system { Some(s) => seq!["--system="@ + s@], None => Seq::empty() })
}

fn flag_with(prefix: &str, value: &[char]) -> (r: String)
    ensures
        r@ == prefix@ + value@,
{
    let mut v: Vec<char> = Vec::new();
    push_str(&mut v, prefix);
    push_chars(&mut v, value);
    string_of(&v)
}

fn lit(s: &str) -> (r: String)
    ensures
        r@ == s@,
{
    String::from_str(s)
}

fn join_urls(urls: &Vec<String>) -> (joined: Vec<char>)
    ensures
        joined@ == join_space(strings_view(urls@)),
{
    let mut joined: Vec<char> = Vec::new();
    let mut i: usize = 0;
    while i < urls.len()
        invariant
            i <= urls@.len(),
            joined@ == join_space(strings_view(urls@).subrange(0, i as int)),
        decreases urls@.len() - i,
    {
        if i > 0 {
            push_str(&mut joined, " ");
        }
        let c = chars_of(urls[i].as_str());
        push_chars(&mut joined, &c);
        proof {
            let all = strings_view(urls@);
            let sub = all.subrange(0, i + 1);
            assert(sub.drop_last() =~= all.subrange(0, i as int));
            assert(sub.last() == urls@[i as int]@);
            if i == 0 {
                assert(all.subrange(0, 0) =~= Seq::<Seq<char>>::empty());
            }
            assert(joined@ =~= join_space(sub));
        }
        i += 1;
    }
    assert(strings_view(urls@).subrange(0, urls@.len() as int) =~= strings_view(urls@));
    joined
}

impl BuildOptions {
    /// Appends the build flags to `args`.
    #[verifier::rlimit(40)]
    pub fn append_args(&self, args: &mut Vec<String>)
        ensures
            strings_view(final(args)@) == strings_view(old(args)@) + build_flags(*self),
    {
        let ghost start = strings_view(args@);
        if self.substitute_urls.len() > 0 {
            let joined = join_urls(&self.substitute_urls);
            args.push(flag_with("--substitute-urls=", &joined));
        }
        let ghost a1 = strings_view(args@);
        if self.no_substitutes {
            args.push(lit("--no-substitutes"));
        }
        let ghost a2 = strings_view(args@);
        if self.fallback {
            args.push(lit("--fallback"));
        }
        let ghost a3 = strings_view(args@);
        if let Some(c) = self.cores {
            let d = decimal_chars(c as u64);
            args.push(flag_with("--cores=", &d));
        }
        let ghost a4 = strings_view(args@);
        if let Some(j) = self.max_jobs {
            let d = decimal_chars(j as u64);
            args.push(flag_with("--max-jobs=", &d));
        }
        let ghost a5 = strings_view(args@);
        if let Some(s) = &self.system {
            let c = chars_of(s.as_str());
            args.push(flag_with("--system=", &c));
        }
        proof {
            let o = *self;
            let p1: Seq<Seq<char>> = if o.substitute_urls@.len() > 0 {
                seq!["--substitute-urls="@ + join_space(strings_view(o.substitute_urls@))]
            } else {
                Seq::empty()
            };
            assert(a1 =~= start + p1);
            let p2: Seq<Seq<char>> = if o.no_substitutes { seq!["--no-substitutes"@] } else { Seq::empty() };
            assert(a2 =~= a1 + p2);
            let p3: Seq<Seq<char>> = if o.fallback { seq!["--fallback"@] } else { Seq::empty() };
            assert(a3 =~= a2 + p3);
            let p4: Seq<Seq<char>> = match o.cores { Some(c) => seq!["--cores="@ + decimal(c as nat)], None => Seq::empty() };
            assert(a4 =~= a3 + p4);
            let p5: Seq<Seq<char>> = match o.max_jobs { Some(j) => seq!["--max-jobs="@ + decimal(j as nat)], None => Seq::empty() };
            assert(a5 =~= a4 + p5);
            let p6: Seq<Seq<char>> = match o.system { Some(s) => seq!["--system="@ + s@], None => Seq::empty() };
            assert(strings_view(args@) =~= a5 + p6);
            assert(build_flags(o) =~= p1 + p2 + p3 + p4 + p5 + p6);
        }
    }
}

/// Options for a root-catalog `guix pull`.
#[derive(Debug, Clone)]
pub struct SystemPullOptions {
    pub dry_run: bool,
    /// A channels file to pull from instead of the default.
    pub channels: Option<String>,
    pub build: BuildOptions,
    pub privilege: Privilege,
}

impl Default for SystemPullOptions {
    fn default() -> (r: Self)
        ensures
            !r.dry_run,
            r.channels is None,
            build_flags(r.build) == Seq::<Seq<char>>::empty(),
            r.build.substitute_urls@.len() == 0,
            r.privilege == Privilege::Pkexec,
    {
        let build = BuildOptions::default();
        assert(build_flags(build) =~= Seq::<Seq<char>>::empty());
        SystemPullOptions { dry_run: false, channels: None, build, privilege: Privilege::Pkexec }
    }
}

/// `pull`, `--channels=FILE` when given, the build flags, `--dry-run`.
pub open spec fn pull_args_spec(o: SystemPullOptions) -> Seq<Seq<char>> {
    seq!["pull"@] + (match o.channels { Some(c) => seq!["--channels="@ + c@], None => Seq::empty() })
        + build_flags(o.build) + (if o.dry_run { seq!["--dry-run"@] } else { Seq::empty() })
}

/// The argument vector of a root-catalog pull.
pub fn build_pull_args(opts: &SystemPullOptions) -> (r: Vec<String>)
    ensures
        strings_view(r@) == pull_args_spec(*opts),
{
    let mut args: Vec<String> = Vec::new();
    args.push(lit("pull"));
    let ghost a0 = strings_view(args@);
    if let Some(c) = &opts.channels {
        let cs = chars_of(c.as_str());
        args.push(flag_with("--channels=", &cs));
    }
    let ghost a1 = strings_view(args@);
    opts.build.append_args(&mut args);
    let ghost a2 = strings_view(args@);
    if opts.dry_run {
        args.push(lit("--dry-run"));
    }
    proof {
        let o = *opts;
        assert(a0 =~= seq!["pull"@]);
        let p1: Seq<Seq<char>> = match o.channels { Some(c) => seq!["--channels="@ + c@], None => Seq::empty() };
        assert(a1 =~= a0 + p1);
        let p3: Seq<Seq<char>> = if o.dry_run { seq!["--dry-run"@] } else { Seq::empty() };
        assert(strings_view(args@) =~= a2 + p3);
        assert(pull_args_spec(o) =~= a0 + p1 + build_flags(o.build) + p3);
    }
    args
}

/// The root of guix's profiles.
pub const GUIX_PROFILES_ROOT: &'static str = "/var/guix/profiles";

/// The running system's configuration file.
pub const CURRENT_SYSTEM_CONFIG: &'static str = "/run/current-system/configuration.scm";

/// `ROOT/per-user/USER/current-guix`: the per-user pulled guix.
pub fn user_path(user: &str) -> (r: String)
    ensures
        r@ == GUIX_PROFILES_ROOT@ + "/per-user/"@ + user@ + "/current-guix"@,
{
    let mut v: Vec<char> = Vec::new();
    push_str(&mut v, GUIX_PROFILES_ROOT);
    push_str(&mut v, "/per-user/");
    push_str(&mut v, user);
    push_str(&mut v, "/current-guix");
    string_of(&v)
}

/// Root's pulled guix.
pub fn root_path() -> (r: String)
    ensures
        r@ == GUIX_PROFILES_ROOT@ + "/per-user/root/current-guix"@,
{
    let mut v: Vec<char> = Vec::new();
    push_str(&mut v, GUIX_PROFILES_ROOT);
    push_str(&mut v, "/per-user/root/current-guix");
    string_of(&v)
}

/// The system profile: `ROOT/system`.
pub fn system_profile_path() -> (r: String)
    ensures
        r@ == GUIX_PROFILES_ROOT@ + "/system"@,
{
    let mut v: Vec<char> = Vec::new();
    push_str(&mut v, GUIX_PROFILES_ROOT);
    push_str(&mut v, "/system");
    string_of(&v)
}

/// A `/proc` entry name that is a process id: ASCII digits only.
pub open spec fn is_pid_name_spec(name: Seq<char>) -> bool {
    forall|i: int| 0 <= i < name.len() ==> '0' <= #[trigger] name[i] <= '9'
}

pub fn is_pid_name(name: &str) -> (r: bool)
    ensures
        r == is_pid_name_spec(name@),
{
    let cs = chars_of(name);
    let mut i: usize = 0;
    while i < cs.len()
        invariant
            i <= cs@.len(),
            cs@ == name@,
            forall|j: int| 0 <= j < i ==> '0' <= #[trigger] cs@[j] <= '9',
        decreases cs@.len() - i,
    {
        if cs[i] < '0' || cs[i] > '9' {
            return false;
        }
        i += 1;
    }
    true
}

/// Options for `guix system reconfigure`.
#[derive(Debug, Clone)]
pub struct ReconfigureOptions {
    pub dry_run: bool,
    pub allow_downgrades: bool,
    pub load_paths: Vec<String>,
    pub build: BuildOptions,
    pub privilege: Privilege,
}

impl Default for ReconfigureOptions {
    fn default() -> (r: Self)
        ensures
            !r.dry_run,
            !r.allow_downgrades,
            r.load_paths@.len() == 0,
            build_flags(r.build) == Seq::<Seq<char>>::empty(),
            r.privilege == Privilege::Pkexec,
    {
        let build = BuildOptions::default();
        assert(build_flags(build) =~= Seq::<Seq<char>>::empty());
        ReconfigureOptions { dry_run: false, allow_downgrades: false, load_paths: Vec::new(), build, privilege: Privilege::Pkexec }
    }
}

/// Options for `guix system init`.
#[derive(Debug, Clone)]
pub struct InitOptions {
    pub load_paths: Vec<String>,
    pub build: BuildOptions,
    pub privilege: Privilege,
}

impl Default for InitOptions {
    fn default() -> (r: Self)
        ensures
            r.load_paths@.len() == 0,
            build_flags(r.build) == Seq::<Seq<char>>::empty(),
            r.privilege == Privilege::Pkexec,
    {
        let build = BuildOptions::default();
        assert(build_flags(build) =~= Seq::<Seq<char>>::empty());
        InitOptions { load_paths: Vec::new(), build, privilege: Privilege::Pkexec }
    }
}

/// `-L P` for each load path, in order.
pub open spec fn load_path_args(ps: Seq<Seq<char>>) -> Seq<Seq<char>>
    decreases ps.len(),
{
    if ps.len() == 0 {
        Seq::empty()
    } else {
        load_path_args(ps.drop_last()) + seq!["-L"@, ps.last()]
    }
}

fn push_load_paths(args: &mut Vec<String>, ps: &Vec<String>)
    ensures
        strings_view(final(args)@) == strings_view(old(args)@) + load_path_args(strings_view(ps@)),
{
    let ghost start = strings_view(args@);
    let mut i: usize = 0;
    assert(strings_view(ps@).subrange(0, 0) =~= Seq::<Seq<char>>::empty());
    assert(start + Seq::<Seq<char>>::empty() =~= start);
    while i < ps.len()
        invariant
            i <= ps@.len(),
            strings_view(args@) == start + load_path_args(strings_view(ps@).subrange(0, i as int)),
        decreases ps@.len() - i,
    {
        let ghost prev = strings_view(args@);
        args.push(lit("-L"));
        args.push(ps[i].clone());
        proof {
            let all = strings_view(ps@);
            let sub = all.subrange(0, i + 1);
            assert(sub.drop_last() =~= all.subrange(0, i as int));
            assert(sub.last() == ps@[i as int]@);
            assert(strings_view(args@) =~= prev + seq!["-L"@, ps@[i as int]@]);
        }
        i += 1;
    }
    assert(strings_view(ps@).subrange(0, ps@.len() as int) =~= strings_view(ps@));
}

/// `system reconfigure`, the load paths, the build flags, `--dry-run`,
/// `--allow-downgrades`, and the configuration file last.
pub open spec fn reconfigure_args_spec(config: Seq<char>, o: ReconfigureOptions) -> Seq<Seq<char>> {
    seq!["system"@, "reconfigure"@] + load_path_args(strings_view(o.load_paths@)) + build_flags(o.build)
        + (if o.dry_run { seq!["--dry-run"@] } else { Seq::empty() })
        + (if o.allow_downgrades { seq!["--allow-downgrades"@] } else { Seq::empty() }) + seq![config]
}

/// The argument vector of `guix system reconfigure CONFIG`.
pub fn build_reconfigure_args(config: &str, opts: &ReconfigureOptions) -> (r: Vec<String>)
    ensures
        strings_view(r@) == reconfigure_args_spec(config@, *opts),
{
    let mut args: Vec<String> = Vec::new();
    args.push(lit("system"));
    args.push(lit("reconfigure"));
    let ghost a0 = strings_view(args@);
    push_load_paths(&mut args, &opts.load_paths);
    opts.build.append_args(&mut args);
    let ghost a2 = strings_view(args@);
    if opts.dry_run {
        args.push(lit("--dry-run"));
    }
    let ghost a3 = strings_view(args@);
    if opts.allow_downgrades {
        args.push(lit("--allow-downgrades"));
    }
    let ghost a4 = strings_view(args@);
    args.push(String::from_str(config));
    proof {
        let o = *opts;
        assert(a0 =~= seq!["system"@, "reconfigure"@]);
        let p3: Seq<Seq<char>> = if o.dry_run { seq!["--dry-run"@] } else { Seq::empty() };
        assert(a3 =~= a2 + p3);
        let p4: Seq<Seq<char>> = if o.allow_downgrades { seq!["--allow-downgrades"@] } else { Seq::empty() };
        assert(a4 =~= a3 + p4);
        assert(strings_view(args@) =~= a4 + seq![config@]);
    }
    args
}

/// `system init`, the load paths, the build flags, the configuration file
/// and the target.
pub open spec fn init_args_spec(config: Seq<char>, target: Seq<char>, o: InitOptions) -> Seq<Seq<char>> {
    seq!["system"@, "init"@] + load_path_args(strings_view(o.load_paths@)) + build_flags(o.build)
        + seq![config, target]
}

/// The argument vector of `guix system init CONFIG TARGET`.
pub fn build_init_args(config: &str, target: &str, opts: &InitOptions) -> (r: Vec<String>)
    ensures
        strings_view(r@) == init_args_spec(config@, target@, *opts),
{
    let mut args: Vec<String> = Vec::new();
    args.push(lit("system"));
    args.push(lit("init"));
    let ghost a0 = strings_view(args@);
    push_load_paths(&mut args, &opts.load_paths);
    opts.build.append_args(&mut args);
    let ghost a2 = strings_view(args@);
    args.push(String::from_str(config));
    args.push(String::from_str(target));
    proof {
        assert(a0 =~= seq!["system"@, "init"@]);
        assert(strings_view(args@) =~= a2 + seq![config@, target@]);
    }
    args
}

/// `std::str::from_utf8`: the text when the bytes are valid UTF-8.
#[verifier::external_body]
fn str_from_utf8(bytes: &[u8]) -> (r: Option<String>)
    ensures
        r is Some <==> valid_utf8(bytes@),
        r matches Some(s) ==> s@ == decode_utf8(bytes@),
{
    match std::str::from_utf8(bytes) {
        Ok(s) => Some(s.to_string()),
        Err(_) => None,
    }
}

/// The kernel keeps at most 15 bytes of a process name.
pub const COMM_MAX: usize = 15;

/// A name as the kernel stores it in `comm`: its first 15 bytes, or
/// nothing when that cuts a character in two.
pub open spec fn truncate_comm_spec(s: Seq<char>) -> Seq<char> {
    let b = vstd::utf8::encode_utf8(s);
    let h = if b.len() < COMM_MAX { b } else { b.subrange(0, COMM_MAX as int) };
    if valid_utf8(h) {
        decode_utf8(h)
    } else {
        Seq::empty()
    }
}

/// Truncates a name to the kernel's `comm` limit.
pub fn truncate_comm(s: &str) -> (r: String)
    ensures
        r@ == truncate_comm_spec(s@),
{
    let bytes = s.as_bytes();
    let n = if bytes.len() < COMM_MAX { bytes.len() } else { COMM_MAX };
    let mut head: Vec<u8> = Vec::new();
    let mut i: usize = 0;
    while i < n
        invariant
            i <= n <= bytes@.len(),
            head@ == bytes@.subrange(0, i as int),
        decreases n - i,
    {
        head.push(bytes[i]);
        assert(bytes@.subrange(0, i + 1) == bytes@.subrange(0, i as int).push(bytes@[i as int]));
        i += 1;
    }
    assert(bytes@.subrange(0, bytes@.len() as int) =~= bytes@);
    match str_from_utf8(head.as_slice()) {
        Some(t) => t,
        None => String::new(),
    }
}

/// The polkit authentication agents recognised, by process name.
pub open spec fn agent_names() -> Seq<Seq<char>> {
    seq![
        "lxqt-policykit-agent"@,
        "polkit-gnome-authentication-agent-1"@,
        "polkit-mate-authentication-agent-1"@,
        "polkit-kde-authentication-agent-1"@,
        "mate-polkit-bin"@,
        "mate-polkit"@,
        "hyprpolkitagent"@,
        "xfce-polkit"@,
        "polkit-efl-auth"@,
        "polkit-1-auth-a"@,
        "polkit-dumb-agent"@,
    ]
}

fn agent_names_exec() -> (v: Vec<&'static str>)
    ensures
        v@.len() == agent_names().len(),
        forall|i: int| 0 <= i < v@.len() ==> #[trigger] v@[i]@ == agent_names()[i],
{
    let v = vec![
        "lxqt-policykit-agent",
        "polkit-gnome-authentication-agent-1",
        "polkit-mate-authentication-agent-1",
        "polkit-kde-authentication-agent-1",
        "mate-polkit-bin",
        "mate-polkit",
        "hyprpolkitagent",
        "xfce-polkit",
        "polkit-efl-auth",
        "polkit-1-auth-a",
        "polkit-dumb-agent",
    ];
    v
}

/// Whether a process `comm` (trimmed) equals the truncated name of a known
/// agent. Equality, not prefix: `xfce-polkit-x` is not `xfce-polkit`.
pub open spec fn comm_is_agent_spec(comm: Seq<char>) -> bool {
    exists|i: int| 0 <= i < agent_names().len() && trim_spec(comm) == truncate_comm_spec(#[trigger] agent_names()[i])
}

/// Whether a process name read from `/proc/PID/comm` is an auth agent.
pub fn comm_is_agent(comm: &str) -> (r: bool)
    ensures
        r == comm_is_agent_spec(comm@),
{
    let cs = chars_of(comm);
    let t = trim_chars(&cs);
    let names = agent_names_exec();
    let mut i: usize = 0;
    while i < names.len()
        invariant
            i <= names@.len(),
            names@.len() == agent_names().len(),
            forall|k: int| 0 <= k < names@.len() ==> #[trigger] names@[k]@ == agent_names()[k],
            t@ == trim_spec(comm@),
            forall|k: int| 0 <= k < i ==> t@ != truncate_comm_spec(#[trigger] agent_names()[k]),
        decreases names@.len() - i,
    {
        let needle = truncate_comm(names[i]);
        let nc = chars_of(needle.as_str());
        assert(names@[i as int]@ == agent_names()[i as int]);
        if t.len() == nc.len() && crate::text::matches_at(&t, &nc, 0) {
            assert(t@.subrange(0, t@.len() as int) =~= t@);
            return true;
        }
        proof {
            if t@ == nc@ {
                assert(t@.subrange(0, nc@.len() as int) =~= t@);
            }
        }
        i += 1;
    }
    false
}

/// What probing the system configuration file found.
pub enum ConfigProbe {
    Exists,
    NotFound,
    /// Any other failure (a permission error, say).
    Failed(std::io::Error),
}

/// What the probe of the configuration file found, from the outcome of
/// reading its metadata: an error of kind `NotFound` means absence, any
/// other error is kept.
pub fn config_probe_of(meta: Result<(), std::io::Error>) -> (p: ConfigProbe)
    ensures
        match meta {
            Ok(_) => p is Exists,
            Err(e) => if crate::error::io_error_is_not_found(e) { p is NotFound } else { p == ConfigProbe::Failed(e) },
        },
{
    match meta {
        Ok(_) => ConfigProbe::Exists,
        Err(e) => if crate::error::is_not_found(&e) { ConfigProbe::NotFound } else { ConfigProbe::Failed(e) },
    }
}

/// The running system's configuration path: an absent file means this is
/// not Guix System; any other probe failure is reported as such, not
/// mistaken for absence.
pub fn current_configuration_path_with(path: String, probe: ConfigProbe) -> (r: Result<String, crate::error::GuixError>)
    ensures
        match probe {
            ConfigProbe::Exists => r matches Ok(p) && p@ == path@,
            ConfigProbe::NotFound => r matches Err(crate::error::GuixError::NotOnGuixSystem),
            ConfigProbe::Failed(e) => r == Err::<String, crate::error::GuixError>(crate::error::GuixError::Spawn(e)),
        },
{
    match probe {
        ConfigProbe::Exists => Ok(path),
        ConfigProbe::NotFound => Err(crate::error::GuixError::NotOnGuixSystem),
        ConfigProbe::Failed(e) => Err(crate::error::GuixError::Spawn(e)),
    }
}

} // verus!
