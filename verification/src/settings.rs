//! The GUI's persisted settings: their defaults, the load paths handed to
//! `guix system reconfigure -L`, what a load does with what it read, and
//! where a first run looks for the system configuration.

use vstd::prelude::*;
use crate::text::{chars_of, trim_spec, trim_chars, trim_start_char, trim_start_char_spec, string_of};
use crate::paths::{parent, path_parent, same_path, path_eq, join, path_join, with_extension, path_with_extension};

verus! {

/// The GUI's tabs.
#[derive(Debug, Clone, Copy, PartialEq, Eq, Structural)]
pub enum Tab {
    Home,
    Search,
    Installed,
    Updates,
    Channels,
    System,
    About,
}

impl Default for Tab {
    fn default() -> (t: Self)
        ensures
            t == Tab::Home,
    {
        Tab::Home
    }
}

impl Tab {
    /// The message id of the tab's label.
    pub fn label_id(self) -> (r: &'static str)
        ensures
            r@ == (match self {
                Tab::Home => "tab-home"@,
                Tab::Search => "tab-search"@,
                Tab::Installed => "tab-installed"@,
                Tab::Updates => "tab-updates"@,
                Tab::Channels => "tab-channels"@,
                Tab::System => "tab-system"@,
                Tab::About => "tab-about"@,
            }),
    {
        match self {
            Tab::Home => "tab-home",
            Tab::Search => "tab-search",
            Tab::Installed => "tab-installed",
            Tab::Updates => "tab-updates",
            Tab::Channels => "tab-channels",
            Tab::System => "tab-system",
            Tab::About => "tab-about",
        }
    }
}

/// Opt-in fetching of icons and screenshots from third-party catalogs.
#[derive(Debug, Clone, Copy, PartialEq, Eq, Structural)]
pub struct AppMetadataSettings {
    pub enabled: bool,
    pub use_flathub: bool,
    pub use_debian_screenshots: bool,
}

impl Default for AppMetadataSettings {
    /// Off, with both catalogs selected for when it is turned on.
    fn default() -> (s: Self)
        ensures
            !s.enabled && s.use_flathub && s.use_debian_screenshots,
    {
        AppMetadataSettings { enabled: false, use_flathub: true, use_debian_screenshots: true }
    }
}

/// The settings; paths are held as text.
#[derive(Debug, Clone)]
pub struct Settings {
    pub source_config_path: Option<String>,
    /// Overrides `~/.config/guix/channels.scm` (for store-managed setups).
    pub channels_source_path: Option<String>,
    pub custom_load_paths: Vec<String>,
    pub show_log_by_default: bool,
    pub app_metadata: AppMetadataSettings,
    /// Whether the catalog-backed discovery surface exists at all.
    pub discovery_enabled: bool,
    /// A language tag overriding the system locale.
    pub language: Option<String>,
    /// Refresh the desktop's application menu after profile changes.
    pub desktop_menu_refresh: bool,
}

impl Default for Settings {
    /// Nothing configured, log hidden, catalogs off, menu refresh on.
    fn default() -> (s: Self)
        ensures
            s.source_config_path is None,
            s.channels_source_path is None,
            s.custom_load_paths@.len() == 0,
            !s.show_log_by_default,
            !s.app_metadata.enabled && s.app_metadata.use_flathub && s.app_metadata.use_debian_screenshots,
            !s.discovery_enabled,
            s.language is None,
            s.desktop_menu_refresh,
    {
        Settings {
            source_config_path: None,
            channels_source_path: None,
            custom_load_paths: Vec::new(),
            show_log_by_default: false,
            app_metadata: AppMetadataSettings::default(),
            discovery_enabled: false,
            language: None,
            desktop_menu_refresh: true,
        }
    }
}

/// Whether `p` is among `ps` (as paths).
pub open spec fn path_in(ps: Seq<Seq<char>>, p: Seq<char>) -> bool {
    exists|i: int| 0 <= i < ps.len() && path_eq(ps[i], p)
}

/// `ps` appended one at a time, skipping those already present.
pub open spec fn add_unique(out: Seq<Seq<char>>, ps: Seq<Seq<char>>) -> Seq<Seq<char>>
    decreases ps.len(),
{
    if ps.len() == 0 {
        out
    } else {
        let o2 = add_unique(out, ps.drop_last());
        if path_in(o2, ps.last()) { o2 } else { o2.push(ps.last()) }
    }
}

/// The directory of the source configuration first (when it has a
/// non-empty one), then the custom load paths, without repeats.
pub open spec fn load_paths_spec(config: Option<Seq<char>>, custom: Seq<Seq<char>>) -> Seq<Seq<char>> {
    let head: Seq<Seq<char>> = match config {
        Some(c) => match path_parent(c) {
            Some(d) => if d.len() > 0 { seq![d] } else { Seq::empty() },
            None => Seq::empty(),
        },
        None => Seq::empty(),
    };
    add_unique(head, custom)
}

pub open spec fn texts(v: Seq<String>) -> Seq<Seq<char>> {
    v.map_values(|s: String| s@)
}

fn contains_path(out: &Vec<String>, p: &str) -> (r: bool)
    ensures
        r == path_in(texts(out@), p@),
{
    let mut i: usize = 0;
    while i < out.len()
        invariant
            i <= out@.len(),
            forall|j: int| 0 <= j < i ==> !path_eq(#[trigger] texts(out@)[j], p@),
        decreases out@.len() - i,
    {
        assert(texts(out@)[i as int] == out@[i as int]@);
        if same_path(out[i].as_str(), p) {
            return true;
        }
        i += 1;
    }
    false
}

impl Settings {
    /// The load paths for reconfiguring: the configuration's own
    /// directory (so sibling modules import without setup), then the
    /// custom ones, each path once.
    pub fn effective_load_paths(&self) -> (r: Vec<String>)
        ensures
            texts(r@) == load_paths_spec(
                match self.source_config_path { Some(c) => Some(c@), None => None },
                texts(self.custom_load_paths@),
            ),
    {
        let mut out: Vec<String> = Vec::new();
        if let Some(cfg) = &self.source_config_path {
            if let Some(dir) = parent(cfg.as_str()) {
                if dir.as_str().unicode_len() > 0 {
                    out.push(dir);
                }
            }
        }
        let ghost head = texts(out@);
        assert(head =~= match self.source_config_path {
            Some(c) => match path_parent(c@) {
                Some(d) => if d.len() > 0 { seq![d] } else { Seq::<Seq<char>>::empty() },
                None => Seq::<Seq<char>>::empty(),
            },
            None => Seq::<Seq<char>>::empty(),
        });
        let ghost cs = texts(self.custom_load_paths@);
        let mut i: usize = 0;
        assert(cs.subrange(0, 0) =~= Seq::<Seq<char>>::empty());
        while i < self.custom_load_paths.len()
            invariant
                i <= self.custom_load_paths@.len(),
                cs == texts(self.custom_load_paths@),
                texts(out@) == add_unique(head, cs.subrange(0, i as int)),
            decreases self.custom_load_paths@.len() - i,
        {
            assert(cs.subrange(0, i + 1).drop_last() =~= cs.subrange(0, i as int));
            assert(cs[i as int] == self.custom_load_paths@[i as int]@);
            let p = &self.custom_load_paths[i];
            let ghost before = texts(out@);
            if !contains_path(&out, p.as_str()) {
                out.push(p.clone());
                assert(texts(out@) =~= before.push(p@));
            }
            i += 1;
        }
        assert(cs.subrange(0, cs.len() as int) =~= cs);
        out
    }
}

/// What reading the settings file gave.
pub enum ReadOutcome {
    Text(String),
    NotFound,
    /// Any other read failure.
    Failed,
}

/// What a load does next.
#[derive(Debug, Clone, Copy, PartialEq, Eq, Structural)]
pub enum LoadStep {
    /// Use the defaults.
    Defaults,
    /// Parse the text as JSON; a parse failure is then `BackupThenDefaults`.
    Parse,
    /// Keep a `.bak` copy of the unreadable file, then use the defaults.
    BackupThenDefaults,
}

/// A blank or missing file gives the defaults; a file that cannot be read
/// is backed up first; anything else is parsed.
pub fn load_step(read: &ReadOutcome) -> (r: LoadStep)
    ensures
        r == (match read {
            ReadOutcome::Text(s) => if trim_spec(s@).len() == 0 { LoadStep::Defaults } else { LoadStep::Parse },
            ReadOutcome::NotFound => LoadStep::Defaults,
            ReadOutcome::Failed => LoadStep::BackupThenDefaults,
        }),
{
    match read {
        ReadOutcome::Text(s) => {
            let cs = chars_of(s.as_str());
            let t = trim_chars(&cs);
            if t.len() == 0 { LoadStep::Defaults } else { LoadStep::Parse }
        },
        ReadOutcome::NotFound => LoadStep::Defaults,
        ReadOutcome::Failed => LoadStep::BackupThenDefaults,
    }
}

/// Where a corrupt settings file is copied (never over an existing copy).
pub fn backup_path(path: &str) -> (r: String)
    ensures
        r@ == path_with_extension(path@, "bak"@),
{
    proof {
        reveal_strlit("bak");
        assert(!"bak"@.contains('/'));
    }
    with_extension(path, "bak")
}

/// The system configurations a first run looks for, in order.
pub const FIRST_RUN_CONFIG_CANDIDATES: [&'static str; 2] = ["/etc/config.scm", "/etc/system.scm"];

/// The candidate files under `root`, in order (their leading `/` dropped
/// so they are joined under the root, not in place of it).
pub fn first_run_candidates(root: &str) -> (r: Vec<String>)
    ensures
        texts(r@) == seq![
            path_join(root@, trim_start_char_spec("/etc/config.scm"@, '/')),
            path_join(root@, trim_start_char_spec("/etc/system.scm"@, '/')),
        ],
{
    let mut out: Vec<String> = Vec::new();
    let a = chars_of("/etc/config.scm");
    let a2 = trim_start_char(&a, '/');
    let sa = string_of(&a2);
    out.push(join(root, sa.as_str()));
    let b = chars_of("/etc/system.scm");
    let b2 = trim_start_char(&b, '/');
    let sb = string_of(&b2);
    out.push(join(root, sb.as_str()));
    assert(texts(out@) =~= seq![
        path_join(root@, trim_start_char_spec("/etc/config.scm"@, '/')),
        path_join(root@, trim_start_char_spec("/etc/system.scm"@, '/')),
    ]);
    out
}

/// The first candidate that exists as a file (`is_file[i]` for
/// candidate `i`).
pub fn probe_first_run_config(candidates: &Vec<String>, is_file: &Vec<bool>) -> (r: Option<String>)
    requires
        candidates@.len() == is_file@.len(),
    ensures
        match r {
            Some(p) => exists|i: int| 0 <= i < candidates@.len() && is_file@[i] && p@ == candidates@[i]@
                && forall|j: int| 0 <= j < i ==> !is_file@[j],
            None => forall|j: int| 0 <= j < is_file@.len() ==> !is_file@[j],
        },
{
    let mut i: usize = 0;
    while i < candidates.len()
        invariant
            i <= candidates@.len() == is_file@.len(),
            forall|j: int| 0 <= j < i ==> !is_file@[j],
        decreases candidates@.len() - i,
    {
        if is_file[i] {
            return Some(candidates[i].clone());
        }
        i += 1;
    }
    None
}

} // verus!
