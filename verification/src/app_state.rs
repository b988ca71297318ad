//! The state behind the Search, Installed, Updates and System tabs, and
//! how each input or reply moves it. A search reply carries the sequence
//! number of the query it answers; a reply to an older query changes
//! nothing but the busy flag.

use vstd::prelude::*;
use crate::text::{chars_of, eq_str, trim_chars, trim_spec, trim_str, push_str, string_of};
use crate::types::{PackageSummary, InstalledPackage, Channel, opt_view};
use crate::package::SearchFastResult;
use crate::gui_flow::{SearchError, Localized, localized_view, build_search_error, search_summary_spec, arg};
use crate::settings::{Settings, texts, load_paths_spec};
use crate::discovery::{DiscoveredChannel, DiscoveredPackage};
use crate::app_metadata::AppMetadata;
use crate::channels::ChannelsFile;
use crate::settings::Tab;
use crate::settings::AppMetadataSettings;
use crate::gui_flow::{ChannelsFlow, ChannelsSubMode};

verus! {

/// The sequence number after `s`, wrapping at the top.
pub open spec fn next_seq(s: u64) -> u64 {
    if s == u64::MAX { 0 } else { (s + 1) as u64 }
}

/// The first result at or after `i` whose name is `name`.
pub open spec fn first_named(rs: Seq<PackageSummary>, name: Seq<char>, i: int) -> Option<int>
    decreases rs.len() - i,
{
    if i < 0 || i >= rs.len() {
        None
    } else if rs[i].name@ == name {
        Some(i)
    } else {
        first_named(rs, name, i + 1)
    }
}

/// The Search tab: the query, its sequence number, the last results and
/// whether a search is running.
pub struct SearchState {
    pub query: String,
    pub query_seq: u64,
    pub results: Vec<PackageSummary>,
    pub selected: Option<usize>,
    pub searching: bool,
    pub error: Option<SearchError>,
    pub truncated: bool,
    pub last_limit: usize,
    /// A name to select when the next current reply arrives; consumed by
    /// that reply whether or not the name is among its results.
    pub pending_select: Option<String>,
}

fn position_named(rs: &Vec<PackageSummary>, name: &str) -> (r: Option<usize>)
    ensures
        match first_named(rs@, name@, 0) {
            Some(i) => r == Some(i as usize),
            None => r is None,
        },
{
    let mut i: usize = 0;
    while i < rs.len()
        invariant
            i <= rs@.len(),
            first_named(rs@, name@, 0) == first_named(rs@, name@, i as int),
        decreases rs@.len() - i,
    {
        let nc = chars_of(rs[i].name.as_str());
        if eq_str(&nc, name) {
            return Some(i);
        }
        i += 1;
    }
    None
}

impl SearchState {
    /// An empty box with nothing searched yet.
    pub fn new() -> (s: Self)
        ensures
            s.query@ == Seq::<char>::empty(),
            s.query_seq == 0,
            s.results@.len() == 0,
            s.selected is None,
            !s.searching,
            s.error is None,
            !s.truncated,
            s.last_limit == 0,
            s.pending_select is None,
    {
        SearchState {
            query: String::new(),
            query_seq: 0,
            results: Vec::new(),
            selected: None,
            searching: false,
            error: None,
            truncated: false,
            last_limit: 0,
            pending_select: None,
        }
    }

    /// A keystroke: the query is replaced and its sequence number moves
    /// on. The result says whether to interrupt the search in flight,
    /// which is only safe once the REPL has warmed up.
    pub fn input_changed(&mut self, q: String, warmup_done: bool) -> (interrupt: bool)
        ensures
            final(self).query@ == q@,
            final(self).query_seq == next_seq(old(self).query_seq),
            interrupt == (warmup_done && old(self).searching),
            final(self).searching == old(self).searching,
            final(self).results == old(self).results,
            final(self).selected == old(self).selected,
            final(self).error == old(self).error,
            final(self).truncated == old(self).truncated,
            final(self).last_limit == old(self).last_limit,
            final(self).pending_select == old(self).pending_select,
    {
        self.query = q;
        self.query_seq = self.query_seq.wrapping_add(1);
        warmup_done && self.searching
    }

    /// A click on a suggested app: its name is queued for selection and
    /// searched for.
    pub fn search_and_select(&mut self, name: String, warmup_done: bool) -> (interrupt: bool)
        ensures
            final(self).query@ == name@,
            final(self).query_seq == next_seq(old(self).query_seq),
            interrupt == (warmup_done && old(self).searching),
            final(self).pending_select matches Some(p) && p@ == name@,
            final(self).searching == old(self).searching,
            final(self).results == old(self).results,
            final(self).selected == old(self).selected,
            final(self).error == old(self).error,
            final(self).truncated == old(self).truncated,
            final(self).last_limit == old(self).last_limit,
    {
        self.pending_select = Some(name.clone());
        self.input_changed(name, warmup_done)
    }

    /// The debounce delay for query `seq` ran out. A search starts, and
    /// the query to run is returned, only when `seq` is still the current
    /// query and that query is not blank; otherwise nothing changes.
    pub fn debounce_tick(&mut self, seq: u64) -> (q: Option<String>)
        ensures
            if seq != old(self).query_seq || trim_spec(old(self).query@).len() == 0 {
                &&& q is None
                &&& *final(self) == *old(self)
            } else {
                &&& q matches Some(s) && s@ == old(self).query@
                &&& final(self).searching
                &&& final(self).error is None
                &&& final(self).query == old(self).query
                &&& final(self).query_seq == old(self).query_seq
                &&& final(self).results == old(self).results
                &&& final(self).selected == old(self).selected
                &&& final(self).truncated == old(self).truncated
                &&& final(self).last_limit == old(self).last_limit
                &&& final(self).pending_select == old(self).pending_select
            },
    {
        if seq != self.query_seq {
            return None;
        }
        let qc = chars_of(self.query.as_str());
        let t = trim_chars(&qc);
        if t.len() == 0 {
            return None;
        }
        self.error = None;
        self.searching = true;
        Some(self.query.clone())
    }

    /// The reply to query `seq`: `Ok(None)` when its results were already
    /// taken. The busy flag clears whatever the reply; a reply to an older
    /// query changes nothing else. A current one replaces the results (or
    /// records the error) and, when a name was queued, selects the first
    /// result of that name; the index returned is the one whose details
    /// to fetch.
    pub fn completed(&mut self, seq: u64, result: Result<Option<SearchFastResult>, String>, search_failed_text: &str) -> (fetch: Option<usize>)
        ensures
            !final(self).searching,
            final(self).query == old(self).query,
            final(self).query_seq == old(self).query_seq,
            seq != old(self).query_seq ==> {
                &&& fetch is None
                &&& final(self).results == old(self).results
                &&& final(self).selected == old(self).selected
                &&& final(self).error == old(self).error
                &&& final(self).truncated == old(self).truncated
                &&& final(self).last_limit == old(self).last_limit
                &&& final(self).pending_select == old(self).pending_select
            },
            seq == old(self).query_seq ==> match result {
                Ok(Some(res)) => {
                    &&& final(self).results == res.results
                    &&& final(self).truncated == res.truncated
                    &&& final(self).last_limit == res.limit
                    &&& final(self).error is None
                    &&& final(self).pending_select is None
                    &&& match old(self).pending_select {
                        Some(n) => match first_named(res.results@, n@, 0) {
                            Some(i) => final(self).selected == Some(i as usize) && fetch == Some(i as usize),
                            None => final(self).selected is None && fetch is None,
                        },
                        None => final(self).selected is None && fetch is None,
                    }
                },
                Ok(None) => {
                    &&& fetch is None
                    &&& final(self).error is None
                    &&& final(self).results == old(self).results
                    &&& final(self).selected == old(self).selected
                    &&& final(self).truncated == old(self).truncated
                    &&& final(self).last_limit == old(self).last_limit
                    &&& final(self).pending_select == old(self).pending_select
                },
                Err(e) => {
                    &&& fetch is None
                    &&& final(self).error matches Some(se)
                        && se.details@ == e@
                        && se.summary@ == search_summary_spec(e@, search_failed_text@)
                    &&& final(self).results == old(self).results
                    &&& final(self).selected == old(self).selected
                    &&& final(self).truncated == old(self).truncated
                    &&& final(self).last_limit == old(self).last_limit
                    &&& final(self).pending_select == old(self).pending_select
                },
            },
    {
        self.searching = false;
        if seq != self.query_seq {
            return None;
        }
        match result {
            Ok(Some(res)) => {
                let pending = self.pending_select.take();
                self.results = res.results;
                self.truncated = res.truncated;
                self.last_limit = res.limit;
                self.selected = None;
                self.error = None;
                if let Some(name) = pending {
                    if let Some(i) = position_named(&self.results, name.as_str()) {
                        self.selected = Some(i);
                        return Some(i);
                    }
                }
                None
            },
            Ok(None) => {
                self.error = None;
                None
            },
            Err(e) => {
                self.error = Some(build_search_error(e, search_failed_text));
                None
            },
        }
    }
}

/// The Installed tab: the profile's packages as last listed.
pub struct InstalledState {
    pub packages: Vec<InstalledPackage>,
    pub refreshing: bool,
    pub error: Option<String>,
}

impl InstalledState {
    pub fn new() -> (s: Self)
        ensures
            s.packages@.len() == 0,
            !s.refreshing,
            s.error is None,
    {
        InstalledState { packages: Vec::new(), refreshing: false, error: None }
    }

    /// A listing starts; the last error is cleared.
    pub fn refresh_started(&mut self)
        ensures
            final(self).refreshing,
            final(self).error is None,
            final(self).packages == old(self).packages,
    {
        self.refreshing = true;
        self.error = None;
    }

    /// The listing came back: the packages are replaced, or on failure the
    /// old ones stay with the error beside them.
    pub fn loaded(&mut self, result: Result<Vec<InstalledPackage>, String>)
        ensures
            !final(self).refreshing,
            match result {
                Ok(ps) => final(self).packages == ps && final(self).error is None,
                Err(e) => final(self).packages == old(self).packages && final(self).error == Some(e),
            },
    {
        self.refreshing = false;
        match result {
            Ok(ps) => {
                self.packages = ps;
                self.error = None;
            },
            Err(e) => {
                self.error = Some(e);
            },
        }
    }
}

/// When each profile behind the Updates tab last changed, in seconds since
/// the Unix epoch; `None` where it could not be read.
#[derive(Debug, Clone, Copy, PartialEq, Eq, Default)]
pub struct PullMtimes {
    pub user_pull: Option<u64>,
    pub root_pull: Option<u64>,
    pub system_profile: Option<u64>,
}

/// The Updates tab: the channels the user pulls from and the profiles'
/// ages.
pub struct UpdatesState {
    pub channels: Vec<Channel>,
    pub loading_channels: bool,
    pub error: Option<String>,
    pub mtimes: PullMtimes,
}

impl UpdatesState {
    pub fn new() -> (s: Self)
        ensures
            s.channels@.len() == 0,
            !s.loading_channels,
            s.error is None,
            s.mtimes == (PullMtimes { user_pull: None, root_pull: None, system_profile: None }),
    {
        UpdatesState {
            channels: Vec::new(),
            loading_channels: false,
            error: None,
            mtimes: PullMtimes { user_pull: None, root_pull: None, system_profile: None },
        }
    }

    /// A channel listing starts; the last error is cleared.
    pub fn refresh_started(&mut self)
        ensures
            final(self).loading_channels,
            final(self).error is None,
            final(self).channels == old(self).channels,
            final(self).mtimes == old(self).mtimes,
    {
        self.loading_channels = true;
        self.error = None;
    }

    /// The channel listing came back: replaced, or on failure kept with
    /// the error beside it.
    pub fn channels_loaded(&mut self, result: Result<Vec<Channel>, String>)
        ensures
            !final(self).loading_channels,
            final(self).mtimes == old(self).mtimes,
            match result {
                Ok(cs) => final(self).channels == cs && final(self).error is None,
                Err(e) => final(self).channels == old(self).channels && final(self).error == Some(e),
            },
    {
        self.loading_channels = false;
        match result {
            Ok(cs) => {
                self.channels = cs;
                self.error = None;
            },
            Err(e) => {
                self.error = Some(e);
            },
        }
    }
}

/// A cached app icon: still loading, or fetched (`None` when there is
/// none).
#[derive(Debug, Clone, PartialEq, Eq)]
pub enum IconCacheEntry {
    Loading,
    Done(Option<Vec<u8>>),
}

/// A reconfigure as confirmed: the configuration and load path captured
/// when "Update system" was first clicked.
#[derive(Debug, Clone, PartialEq, Eq)]
pub struct PendingReconfigure {
    pub config_path: String,
    pub load_paths: Vec<String>,
}

/// The System tab: the running system's configuration, the source
/// configuration the user edits, and a reconfigure awaiting confirmation.
pub struct SystemState {
    pub current_config_display: Option<String>,
    pub current_config_error: Option<String>,
    pub source_input: String,
    pub validation_message: Option<Localized>,
    pub load_path_input: String,
    pub cache_action_message: Option<String>,
    pub channels_source_input: String,
    /// Captured on the first click and shown for confirmation, so that a
    /// settings change in between cannot alter what runs as root.
    pub pending_reconfigure: Option<PendingReconfigure>,
}

/// A path typed into a box: `None` when blank.
pub open spec fn typed_path(s: Seq<char>) -> Option<Seq<char>> {
    if trim_spec(s).len() == 0 { None } else { Some(s) }
}

/// The verdict on a source configuration path (already trimmed), given
/// whether it exists and whether it is a regular file.
pub open spec fn source_validation_spec(p: Seq<char>, exists: bool, is_file: bool) -> (Seq<char>, Seq<(Seq<char>, Seq<char>)>) {
    if p.len() == 0 {
        ("system-validation-empty"@, Seq::empty())
    } else if !exists {
        ("system-validation-missing"@, seq![("path"@, p)])
    } else if !is_file {
        ("system-validation-not-file"@, seq![("path"@, p)])
    } else {
        ("system-validation-ok"@, seq![("path"@, p)])
    }
}

pub fn source_validation(p: &str, exists: bool, is_file: bool) -> (r: Localized)
    ensures
        localized_view(r) == source_validation_spec(p@, exists, is_file),
{
    let mut args: Vec<(String, String)> = Vec::new();
    let id = if p.is_empty() {
        "system-validation-empty"
    } else {
        args.push(arg("path", String::from_str(p)));
        if !exists {
            "system-validation-missing"
        } else if !is_file {
            "system-validation-not-file"
        } else {
            "system-validation-ok"
        }
    };
    let r = Localized { id: String::from_str(id), args };
    assert(localized_view(r) =~= source_validation_spec(p@, exists, is_file));
    r
}

fn typed_path_of(s: &String) -> (r: Option<String>)
    ensures
        opt_view(r) == typed_path(s@),
{
    let t = trim_str(s.as_str());
    if t.as_str().is_empty() {
        None
    } else {
        Some(s.clone())
    }
}

impl SystemState {
    pub fn new() -> (s: Self)
        ensures
            s.current_config_display is None,
            s.current_config_error is None,
            s.source_input@ == Seq::<char>::empty(),
            s.validation_message is None,
            s.load_path_input@ == Seq::<char>::empty(),
            s.cache_action_message is None,
            s.channels_source_input@ == Seq::<char>::empty(),
            s.pending_reconfigure is None,
    {
        SystemState {
            current_config_display: None,
            current_config_error: None,
            source_input: String::new(),
            validation_message: None,
            load_path_input: String::new(),
            cache_action_message: None,
            channels_source_input: String::new(),
            pending_reconfigure: None,
        }
    }

    /// The running system's configuration path came back; on failure a
    /// path shown before stays.
    pub fn config_checked(&mut self, result: Result<String, String>)
        ensures
            match result {
                Ok(p) => final(self).current_config_display == Some(p) && final(self).current_config_error is None,
                Err(e) => final(self).current_config_display == old(self).current_config_display
                    && final(self).current_config_error == Some(e),
            },
            final(self).pending_reconfigure == old(self).pending_reconfigure,
    {
        match result {
            Ok(p) => {
                self.current_config_display = Some(p);
                self.current_config_error = None;
            },
            Err(e) => {
                self.current_config_error = Some(e);
            },
        }
    }

    /// The source configuration box changed: the setting follows it, blank
    /// meaning unset. A reconfigure awaiting confirmation keeps its
    /// snapshot.
    pub fn source_config_changed(&mut self, settings: &mut Settings, s: String)
        ensures
            final(self).source_input@ == s@,
            opt_view(final(settings).source_config_path) == typed_path(s@),
            final(settings).channels_source_path == old(settings).channels_source_path,
            final(settings).custom_load_paths == old(settings).custom_load_paths,
            final(settings).show_log_by_default == old(settings).show_log_by_default,
            final(settings).app_metadata == old(settings).app_metadata,
            final(settings).discovery_enabled == old(settings).discovery_enabled,
            final(settings).language == old(settings).language,
            final(settings).desktop_menu_refresh == old(settings).desktop_menu_refresh,
            final(self).pending_reconfigure == old(self).pending_reconfigure,
            final(self).load_path_input == old(self).load_path_input,
            final(self).channels_source_input == old(self).channels_source_input,
    {
        settings.source_config_path = typed_path_of(&s);
        self.source_input = s;
    }

    /// "Validate" on the source box; `exists` and `is_file` are what the
    /// filesystem says of the trimmed path.
    pub fn source_validate(&mut self, exists: bool, is_file: bool)
        ensures
            final(self).validation_message matches Some(m)
                && localized_view(m) == source_validation_spec(trim_spec(old(self).source_input@), exists, is_file),
            final(self).source_input == old(self).source_input,
            final(self).pending_reconfigure == old(self).pending_reconfigure,
    {
        let t = trim_str(self.source_input.as_str());
        self.validation_message = Some(source_validation(t.as_str(), exists, is_file));
    }

    /// "Add" beside the load-path box: the trimmed entry joins the custom
    /// load path and the box empties; a blank entry changes nothing. The
    /// result says whether the settings changed.
    pub fn load_path_add(&mut self, settings: &mut Settings) -> (changed: bool)
        ensures
            changed == (trim_spec(old(self).load_path_input@).len() > 0),
            changed ==> texts(final(settings).custom_load_paths@)
                == texts(old(settings).custom_load_paths@).push(trim_spec(old(self).load_path_input@)),
            changed ==> final(self).load_path_input@ == Seq::<char>::empty(),
            !changed ==> final(settings).custom_load_paths == old(settings).custom_load_paths
                && final(self).load_path_input == old(self).load_path_input,
            final(settings).source_config_path == old(settings).source_config_path,
            final(settings).channels_source_path == old(settings).channels_source_path,
            final(self).pending_reconfigure == old(self).pending_reconfigure,
    {
        let t = trim_str(self.load_path_input.as_str());
        if t.as_str().is_empty() {
            return false;
        }
        let ghost before = settings.custom_load_paths@;
        settings.custom_load_paths.push(t);
        assert(texts(settings.custom_load_paths@) =~= texts(before).push(trim_spec(self.load_path_input@)));
        self.load_path_input = String::new();
        true
    }

    /// "Remove" on the `i`th custom load path; out of range changes
    /// nothing. The result says whether the settings changed.
    pub fn load_path_remove(&mut self, settings: &mut Settings, i: usize) -> (changed: bool)
        ensures
            changed == (i < old(settings).custom_load_paths@.len()),
            changed ==> final(settings).custom_load_paths@ == old(settings).custom_load_paths@.remove(i as int),
            !changed ==> final(settings).custom_load_paths == old(settings).custom_load_paths,
            final(settings).source_config_path == old(settings).source_config_path,
            final(settings).channels_source_path == old(settings).channels_source_path,
            final(self).pending_reconfigure == old(self).pending_reconfigure,
    {
        if i < settings.custom_load_paths.len() {
            settings.custom_load_paths.remove(i);
            true
        } else {
            false
        }
    }

    /// The channels-file override box changed: the setting follows it,
    /// blank meaning the default file.
    pub fn channels_source_changed(&mut self, settings: &mut Settings, s: String)
        ensures
            final(self).channels_source_input@ == s@,
            opt_view(final(settings).channels_source_path) == typed_path(s@),
            final(settings).source_config_path == old(settings).source_config_path,
            final(settings).custom_load_paths == old(settings).custom_load_paths,
            final(self).pending_reconfigure == old(self).pending_reconfigure,
    {
        settings.channels_source_path = typed_path_of(&s);
        self.channels_source_input = s;
    }

    /// "Use default" for the channels file.
    pub fn channels_source_use_default(&mut self, settings: &mut Settings)
        ensures
            final(self).channels_source_input@ == Seq::<char>::empty(),
            final(settings).channels_source_path is None,
            final(settings).source_config_path == old(settings).source_config_path,
            final(settings).custom_load_paths == old(settings).custom_load_paths,
            final(self).pending_reconfigure == old(self).pending_reconfigure,
    {
        self.channels_source_input = String::new();
        settings.channels_source_path = None;
    }

    /// "Update system": with a source configuration set, its path and the
    /// effective load path are captured for confirmation (`true`); without
    /// one the user is asked to set it first (`false`).
    pub fn reconfigure_clicked(&mut self, settings: &Settings) -> (captured: bool)
        ensures
            captured == (settings.source_config_path is Some),
            match settings.source_config_path {
                Some(c) => {
                    &&& final(self).validation_message == old(self).validation_message
                    &&& final(self).pending_reconfigure matches Some(p)
                        && p.config_path@ == c@
                        && texts(p.load_paths@) == load_paths_spec(Some(c@), texts(settings.custom_load_paths@))
                },
                None => {
                    &&& final(self).pending_reconfigure == old(self).pending_reconfigure
                    &&& final(self).validation_message matches Some(m)
                        && localized_view(m) == ("app-set-source-config-first"@, Seq::<(Seq<char>, Seq<char>)>::empty())
                },
            },
    {
        match &settings.source_config_path {
            Some(c) => {
                let load_paths = settings.effective_load_paths();
                self.pending_reconfigure = Some(PendingReconfigure { config_path: c.clone(), load_paths });
                true
            },
            None => {
                let m = Localized { id: String::from_str("app-set-source-config-first"), args: Vec::new() };
                assert(localized_view(m).1 =~= Seq::<(Seq<char>, Seq<char>)>::empty());
                self.validation_message = Some(m);
                false
            },
        }
    }

    /// Confirmation: the captured reconfigure, taken, exactly as it was
    /// captured.
    pub fn reconfigure_confirmed(&mut self) -> (p: Option<PendingReconfigure>)
        ensures
            p == old(self).pending_reconfigure,
            final(self).pending_reconfigure is None,
    {
        self.pending_reconfigure.take()
    }
}

/// Whether a suggested app's tile is shown: always while app metadata is
/// off; otherwise unless its icon was fetched and there is none.
pub fn tile_is_visible(metadata_enabled: bool, icon: Option<&IconCacheEntry>) -> (r: bool)
    ensures
        r == (!metadata_enabled || !(icon matches Some(IconCacheEntry::Done(None)))),
{
    if !metadata_enabled {
        return true;
    }
    match icon {
        Some(IconCacheEntry::Done(None)) => false,
        _ => true,
    }
}

/// The catalog side of the Channels tab: the sub-view, the introduced
/// channels, and a debounced package search whose replies are matched to
/// their query by sequence number.
pub struct DiscoverState {
    pub sub_mode: ChannelsSubMode,
    pub channels: Vec<DiscoveredChannel>,
    pub channels_loading: bool,
    pub query: String,
    pub query_seq: u64,
    pub packages: Vec<DiscoveredPackage>,
    pub packages_loading: bool,
    pub error: Option<String>,
}

impl DiscoverState {
    pub fn new() -> (s: Self)
        ensures
            s.sub_mode == ChannelsSubMode::Installed,
            s.channels@.len() == 0,
            !s.channels_loading,
            s.query@ == Seq::<char>::empty(),
            s.query_seq == 0,
            s.packages@.len() == 0,
            !s.packages_loading,
            s.error is None,
    {
        DiscoverState {
            sub_mode: ChannelsSubMode::Installed,
            channels: Vec::new(),
            channels_loading: false,
            query: String::new(),
            query_seq: 0,
            packages: Vec::new(),
            packages_loading: false,
            error: None,
        }
    }

    /// The sub-view toggle. Discover is refused while the catalog is
    /// turned off; entering it with no channels loaded and none loading
    /// asks for a fetch (`true`).
    pub fn sub_mode_selected(&mut self, discovery_enabled: bool, mode: ChannelsSubMode) -> (fetch: bool)
        ensures
            !discovery_enabled && mode == ChannelsSubMode::Discover ==> !fetch && final(self).sub_mode == old(self).sub_mode,
            discovery_enabled || mode != ChannelsSubMode::Discover ==> {
                &&& final(self).sub_mode == mode
                &&& fetch == (mode == ChannelsSubMode::Discover && old(self).channels@.len() == 0 && !old(self).channels_loading)
            },
            final(self).channels == old(self).channels,
            final(self).channels_loading == old(self).channels_loading,
            final(self).error == old(self).error,
    {
        if !discovery_enabled && mode == ChannelsSubMode::Discover {
            return false;
        }
        self.sub_mode = mode;
        mode == ChannelsSubMode::Discover && self.channels.len() == 0 && !self.channels_loading
    }

    /// A channel fetch starts; the last error is cleared.
    pub fn channels_fetch_started(&mut self)
        ensures
            final(self).channels_loading,
            final(self).error is None,
            final(self).channels == old(self).channels,
    {
        self.channels_loading = true;
        self.error = None;
    }

    /// The channel list came back (`Ok(None)` when already taken).
    pub fn channels_loaded(&mut self, result: Result<Option<Vec<DiscoveredChannel>>, String>)
        ensures
            !final(self).channels_loading,
            match result {
                Ok(Some(cs)) => final(self).channels == cs && final(self).error is None,
                Ok(None) => final(self).channels == old(self).channels && final(self).error == old(self).error,
                Err(e) => final(self).channels == old(self).channels && final(self).error == Some(e),
            },
    {
        self.channels_loading = false;
        match result {
            Ok(Some(cs)) => {
                self.channels = cs;
                self.error = None;
            },
            Ok(None) => {},
            Err(e) => {
                self.error = Some(e);
            },
        }
    }

    /// A keystroke in the catalog search; its sequence number moves on.
    pub fn query_changed(&mut self, q: String)
        ensures
            final(self).query@ == q@,
            final(self).query_seq == next_seq(old(self).query_seq),
            final(self).packages == old(self).packages,
            final(self).packages_loading == old(self).packages_loading,
            final(self).error == old(self).error,
    {
        self.query = q;
        self.query_seq = self.query_seq.wrapping_add(1);
    }

    /// The debounce delay for query `seq` ran out. An older tick changes
    /// nothing; a blank query clears the hits; otherwise a search of the
    /// trimmed query starts and that query is returned.
    pub fn debounce_tick(&mut self, seq: u64) -> (q: Option<String>)
        ensures
            seq != old(self).query_seq ==> q is None && *final(self) == *old(self),
            seq == old(self).query_seq && trim_spec(old(self).query@).len() == 0 ==> {
                &&& q is None
                &&& final(self).packages@.len() == 0
                &&& !final(self).packages_loading
            },
            seq == old(self).query_seq && trim_spec(old(self).query@).len() > 0 ==> {
                &&& q matches Some(t) && t@ == trim_spec(old(self).query@)
                &&& final(self).packages_loading
                &&& final(self).packages == old(self).packages
            },
            final(self).query == old(self).query,
            final(self).query_seq == old(self).query_seq,
            final(self).error == old(self).error,
            final(self).channels == old(self).channels,
    {
        if seq != self.query_seq {
            return None;
        }
        let t = trim_str(self.query.as_str());
        if t.as_str().is_empty() {
            self.packages = Vec::new();
            self.packages_loading = false;
            return None;
        }
        self.packages_loading = true;
        Some(t)
    }

    /// The reply to catalog query `seq` (`Ok(None)` when already taken);
    /// a reply to an older query changes nothing.
    pub fn packages_loaded(&mut self, seq: u64, result: Result<Option<Vec<DiscoveredPackage>>, String>)
        ensures
            seq != old(self).query_seq ==> *final(self) == *old(self),
            seq == old(self).query_seq ==> {
                &&& !final(self).packages_loading
                &&& match result {
                    Ok(Some(ps)) => final(self).packages == ps && final(self).error is None,
                    Ok(None) => final(self).packages == old(self).packages && final(self).error == old(self).error,
                    Err(e) => final(self).packages == old(self).packages && final(self).error == Some(e),
                }
            },
            final(self).query == old(self).query,
            final(self).query_seq == old(self).query_seq,
    {
        if seq != self.query_seq {
            return;
        }
        self.packages_loading = false;
        match result {
            Ok(Some(ps)) => {
                self.packages = ps;
                self.error = None;
            },
            Ok(None) => {},
            Err(e) => {
                self.error = Some(e);
            },
        }
    }

    /// The catalog was turned on or off; off tears down everything it
    /// showed or had pending, so nothing stale resurfaces.
    pub fn discovery_toggled(&mut self, enabled: bool, flow: &mut ChannelsFlow)
        ensures
            !enabled ==> {
                &&& final(self).sub_mode == ChannelsSubMode::Installed
                &&& final(self).channels@.len() == 0
                &&& final(self).packages@.len() == 0
                &&& final(self).query@ == Seq::<char>::empty()
                &&& final(self).error is None
                &&& !final(self).channels_loading
                &&& !final(self).packages_loading
                &&& final(flow).discover_pending_add is None
                &&& final(flow).discover_pending_install is None
            },
            enabled ==> *final(self) == *old(self) && *final(flow) == *old(flow),
            final(self).query_seq == old(self).query_seq,
            final(flow).pending_pull_after_write == old(flow).pending_pull_after_write,
            final(flow).pending_install == old(flow).pending_install,
            final(flow).rollback_offer == old(flow).rollback_offer,
    {
        if enabled {
            return;
        }
        self.sub_mode = ChannelsSubMode::Installed;
        self.channels = Vec::new();
        self.packages = Vec::new();
        self.query = String::new();
        self.error = None;
        self.channels_loading = false;
        self.packages_loading = false;
        flow.discover_pending_add = None;
        flow.discover_pending_install = None;
    }
}

/// The names of a keyed list.
pub open spec fn keys_of<V>(es: Seq<(String, V)>) -> Seq<Seq<char>> {
    es.map_values(|e: (String, V)| e.0@)
}

/// The first position at or after `i` holding key `k`.
pub open spec fn first_key(ks: Seq<Seq<char>>, k: Seq<char>, i: int) -> Option<int>
    decreases ks.len() - i,
{
    if i < 0 || i >= ks.len() {
        None
    } else if ks[i] == k {
        Some(i)
    } else {
        first_key(ks, k, i + 1)
    }
}

/// No key occurs twice.
pub open spec fn distinct_keys(ks: Seq<Seq<char>>) -> bool {
    forall|i: int, j: int| 0 <= i < j < ks.len() ==> ks[i] != ks[j]
}

/// `first_key` finds the first occurrence, and finds none exactly when
/// the key is absent from the rest.
pub proof fn lemma_first_key(ks: Seq<Seq<char>>, k: Seq<char>, i: int)
    requires
        0 <= i,
    ensures
        first_key(ks, k, i) is None <==> (forall|j: int| i <= j < ks.len() ==> ks[j] != k),
        first_key(ks, k, i) matches Some(j) ==> i <= j < ks.len() && ks[j] == k
            && forall|l: int| i <= l < j ==> ks[l] != k,
    decreases ks.len() - i,
{
    if i < ks.len() && ks[i] != k {
        lemma_first_key(ks, k, i + 1);
    }
}

fn key_position<V>(es: &Vec<(String, V)>, key: &str) -> (r: Option<usize>)
    ensures
        match first_key(keys_of(es@), key@, 0) {
            Some(i) => r matches Some(u) && u as int == i && i < es@.len(),
            None => r is None,
        },
{
    let ghost ks = keys_of(es@);
    proof {
        lemma_first_key(ks, key@, 0);
    }
    let mut i: usize = 0;
    while i < es.len()
        invariant
            i <= es@.len(),
            ks == keys_of(es@),
            first_key(ks, key@, 0) == first_key(ks, key@, i as int),
        decreases es@.len() - i,
    {
        assert(ks[i as int] == es@[i as int].0@);
        let kc = chars_of(es[i].0.as_str());
        if eq_str(&kc, key) {
            return Some(i);
        }
        i += 1;
    }
    None
}

/// A key not present can be appended without a repeat.
proof fn lemma_push_distinct<V>(es: Seq<(String, V)>, e: (String, V))
    requires
        distinct_keys(keys_of(es)),
        first_key(keys_of(es), e.0@, 0) is None,
    ensures
        distinct_keys(keys_of(es.push(e))),
        keys_of(es.push(e)) == keys_of(es).push(e.0@),
{
    lemma_first_key(keys_of(es), e.0@, 0);
    assert(keys_of(es.push(e)) =~= keys_of(es).push(e.0@));
}

/// Metadata per package name; `None` marks a fetch in flight.
pub struct MetadataCache {
    pub entries: Vec<(String, Option<AppMetadata>)>,
}

impl MetadataCache {
    /// Each name has at most one entry.
    pub open spec fn wf(&self) -> bool {
        distinct_keys(keys_of(self.entries@))
    }

    pub fn new() -> (c: Self)
        ensures
            c.wf(),
            c.entries@.len() == 0,
    {
        MetadataCache { entries: Vec::new() }
    }

    /// The entry for a package, if any.
    pub fn get(&self, name: &str) -> (r: Option<&Option<AppMetadata>>)
        ensures
            match first_key(keys_of(self.entries@), name@, 0) {
                Some(i) => r matches Some(v) && *v == self.entries@[i].1,
                None => r is None,
            },
    {
        match key_position(&self.entries, name) {
            Some(i) => Some(&self.entries[i].1),
            None => None,
        }
    }

    /// Selecting search result `index`: when the feature is on, the index
    /// is valid and the package has no entry yet, its fetch is marked in
    /// flight and its name returned to fetch; otherwise nothing changes.
    pub fn begin_fetch(&mut self, enabled: bool, results: &Vec<PackageSummary>, index: usize) -> (fetch: Option<String>)
        requires
            old(self).wf(),
        ensures
            final(self).wf(),
            !enabled || index >= results@.len()
                || first_key(keys_of(old(self).entries@), results@[index as int].name@, 0) is Some
                ==> fetch is None && final(self).entries@ == old(self).entries@,
            enabled && index < results@.len()
                && first_key(keys_of(old(self).entries@), results@[index as int].name@, 0) is None
                ==> (fetch matches Some(n) && n@ == results@[index as int].name@
                    && final(self).entries@ == old(self).entries@.push((n, None::<AppMetadata>))),
    {
        if !enabled || index >= results.len() {
            return None;
        }
        let name = results[index].name.clone();
        if key_position(&self.entries, name.as_str()).is_some() {
            return None;
        }
        proof {
            lemma_push_distinct(self.entries@, (name, None::<AppMetadata>));
        }
        self.entries.push((name.clone(), None));
        Some(name)
    }

    /// A fetch came back: its metadata is stored, or, when there is none
    /// to store, the in-flight mark is dropped so a later selection
    /// retries.
    pub fn loaded(&mut self, name: String, metadata: Option<AppMetadata>)
        requires
            old(self).wf(),
        ensures
            final(self).wf(),
            match metadata {
                Some(m) => match first_key(keys_of(old(self).entries@), name@, 0) {
                    Some(i) => final(self).entries@ == old(self).entries@.update(i, (name, Some(m))),
                    None => final(self).entries@ == old(self).entries@.push((name, Some(m))),
                },
                None => match first_key(keys_of(old(self).entries@), name@, 0) {
                    Some(i) => final(self).entries@ == old(self).entries@.remove(i),
                    None => final(self).entries@ == old(self).entries@,
                },
            },
    {
        let ghost es = self.entries@;
        proof {
            lemma_first_key(keys_of(es), name@, 0);
        }
        match key_position(&self.entries, name.as_str()) {
            Some(i) => {
                match metadata {
                    Some(m) => {
                        self.entries.set(i, (name, Some(m)));
                        assert(keys_of(self.entries@) =~= keys_of(es));
                    },
                    None => {
                        self.entries.remove(i);
                        assert(keys_of(self.entries@) =~= keys_of(es).remove(i as int));
                    },
                }
            },
            None => {
                match metadata {
                    Some(m) => {
                        let ghost e = (name, Some(m));
                        proof {
                            lemma_push_distinct(es, e);
                        }
                        self.entries.push((name, Some(m)));
                    },
                    None => {},
                }
            },
        }
    }

    /// Everything forgotten (a cleared cache, a changed source).
    pub fn clear(&mut self)
        ensures
            final(self).wf(),
            final(self).entries@.len() == 0,
    {
        self.entries = Vec::new();
    }
}

/// The names a prefetch adds, in order: each name not already known and
/// not already added.
pub open spec fn newly_added(ks: Seq<Seq<char>>, names: Seq<Seq<char>>) -> Seq<Seq<char>>
    decreases names.len(),
{
    if names.len() == 0 {
        Seq::empty()
    } else {
        let a = newly_added(ks, names.drop_last());
        if (ks + a).contains(names.last()) { a } else { a.push(names.last()) }
    }
}

/// The Home tab's icons by app name.
pub struct HomeIcons {
    pub entries: Vec<(String, IconCacheEntry)>,
}

impl HomeIcons {
    /// Each name has at most one entry.
    pub open spec fn wf(&self) -> bool {
        distinct_keys(keys_of(self.entries@))
    }

    pub fn new() -> (h: Self)
        ensures
            h.wf(),
            h.entries@.len() == 0,
    {
        HomeIcons { entries: Vec::new() }
    }

    /// The entry for an app, if any.
    pub fn get(&self, name: &str) -> (r: Option<&IconCacheEntry>)
        ensures
            match first_key(keys_of(self.entries@), name@, 0) {
                Some(i) => r matches Some(v) && *v == self.entries@[i].1,
                None => r is None,
            },
    {
        match key_position(&self.entries, name) {
            Some(i) => Some(&self.entries[i].1),
            None => None,
        }
    }

    /// Starts icon fetches for the suggested apps: none unless app metadata
    /// and Flathub are both enabled; then every name without an entry is
    /// marked loading and returned, once each, in order.
    pub fn prefetch(&mut self, cfg: AppMetadataSettings, names: &[&str]) -> (fetch: Vec<String>)
        requires
            old(self).wf(),
        ensures
            final(self).wf(),
            !(cfg.enabled && cfg.use_flathub) ==> fetch@.len() == 0 && final(self).entries@ == old(self).entries@,
            cfg.enabled && cfg.use_flathub ==> {
                &&& texts_of(fetch@) == newly_added(keys_of(old(self).entries@), strs_of(names@))
                &&& keys_of(final(self).entries@) == keys_of(old(self).entries@) + texts_of(fetch@)
                &&& final(self).entries@.subrange(0, old(self).entries@.len() as int) == old(self).entries@
                &&& forall|i: int| old(self).entries@.len() <= i < final(self).entries@.len()
                    ==> #[trigger] final(self).entries@[i].1 == IconCacheEntry::Loading
            },
    {
        let mut fetch: Vec<String> = Vec::new();
        if !(cfg.enabled && cfg.use_flathub) {
            return fetch;
        }
        let ghost es0 = self.entries@;
        let ghost ks0 = keys_of(es0);
        let ghost ns = strs_of(names@);
        let mut k: usize = 0;
        while k < names.len()
            invariant
                k <= names@.len(),
                ns == strs_of(names@),
                ks0 == keys_of(es0),
                distinct_keys(keys_of(self.entries@)),
                texts_of(fetch@) == newly_added(ks0, ns.take(k as int)),
                keys_of(self.entries@) == ks0 + texts_of(fetch@),
                self.entries@.len() >= es0.len(),
                self.entries@.subrange(0, es0.len() as int) == es0,
                forall|i: int| es0.len() <= i < self.entries@.len() ==> #[trigger] self.entries@[i].1 == IconCacheEntry::Loading,
            decreases names@.len() - k,
        {
            let name = names[k];
            let ghost before = self.entries@;
            let ghost a = newly_added(ks0, ns.take(k as int));
            assert(ns.take(k + 1).drop_last() =~= ns.take(k as int));
            assert(ns.take(k + 1).last() == name@);
            proof {
                lemma_first_key(keys_of(before), name@, 0);
            }
            if key_position(&self.entries, name).is_none() {
                assert(!(ks0 + a).contains(name@)) by {
                    if (ks0 + a).contains(name@) {
                        let j = choose|j: int| 0 <= j < (ks0 + a).len() && (ks0 + a)[j] == name@;
                        assert(keys_of(before)[j] == name@);
                    }
                }
                let e = (String::from_str(name), IconCacheEntry::Loading);
                proof {
                    lemma_push_distinct(before, e);
                }
                self.entries.push(e);
                fetch.push(String::from_str(name));
                assert(texts_of(fetch@) =~= a.push(name@));
                assert(keys_of(self.entries@) =~= ks0 + texts_of(fetch@));
                assert(self.entries@.subrange(0, es0.len() as int) =~= before.subrange(0, es0.len() as int));
            } else {
                assert((ks0 + a).contains(name@)) by {
                    let j = choose|j: int| 0 <= j < keys_of(before).len() && keys_of(before)[j] == name@;
                    assert((ks0 + a)[j] == name@);
                }
            }
            k += 1;
        }
        assert(ns.take(names@.len() as int) =~= ns);
        fetch
    }

    /// An icon fetch came back (`None` when the app has no icon).
    pub fn loaded(&mut self, name: String, bytes: Option<Vec<u8>>)
        requires
            old(self).wf(),
        ensures
            final(self).wf(),
            match first_key(keys_of(old(self).entries@), name@, 0) {
                Some(i) => final(self).entries@ == old(self).entries@.update(i, (name, IconCacheEntry::Done(bytes))),
                None => final(self).entries@ == old(self).entries@.push((name, IconCacheEntry::Done(bytes))),
            },
    {
        let ghost es = self.entries@;
        proof {
            lemma_first_key(keys_of(es), name@, 0);
        }
        match key_position(&self.entries, name.as_str()) {
            Some(i) => {
                self.entries.set(i, (name, IconCacheEntry::Done(bytes)));
                assert(keys_of(self.entries@) =~= keys_of(es));
            },
            None => {
                let ghost e = (name, IconCacheEntry::Done(bytes));
                proof {
                    lemma_push_distinct(es, e);
                }
                self.entries.push((name, IconCacheEntry::Done(bytes)));
            },
        }
    }

    /// Everything forgotten.
    pub fn clear(&mut self)
        ensures
            final(self).wf(),
            final(self).entries@.len() == 0,
    {
        self.entries = Vec::new();
    }
}

pub open spec fn texts_of(v: Seq<String>) -> Seq<Seq<char>> {
    v.map_values(|s: String| s@)
}

pub open spec fn strs_of(v: Seq<&str>) -> Seq<Seq<char>> {
    v.map_values(|s: &str| s@)
}

/// What `url::Url::parse` makes of a text: its scheme and its
/// serialization, or `None` when the text is not an absolute URL.
pub uninterp spec fn url_parsed(s: Seq<char>) -> Option<(Seq<char>, Seq<char>)>;

/// `url::Url::parse`, kept as the scheme and the serialization
/// (`Url::scheme`, `Url::as_str`); a parse error becomes `None`. The
/// result is named after the text alone: the parse takes no base URL and
/// no other input.
#[verifier::external_body]
fn parse_url(s: &str) -> (r: Option<(String, String)>)
    ensures
        match r {
            Some((a, b)) => url_parsed(s@) == Some((a@, b@)),
            None => url_parsed(s@) is None,
        },
{
    url::Url::parse(s).ok().map(|u| (u.scheme().to_string(), u.as_str().to_string()))
}

/// An ASCII control character (below space, or DEL).
pub open spec fn is_control_char(c: char) -> bool {
    (c as u32) < 0x20 || (c as u32) == 0x7f
}

pub open spec fn has_control(s: Seq<char>) -> bool {
    exists|i: int| 0 <= i < s.len() && is_control_char(#[trigger] s[i])
}

/// The link handed to the system's opener: only http(s) URLs, in their
/// canonical form, and only when that holds no control character.
pub open spec fn url_verdict_spec(parsed: Option<(Seq<char>, Seq<char>)>) -> Option<Seq<char>> {
    match parsed {
        Some((scheme, canonical)) =>
            if (scheme == "http"@ || scheme == "https"@) && !has_control(canonical) { Some(canonical) } else { None },
        None => None,
    }
}

fn any_control(s: &str) -> (r: bool)
    ensures
        r == has_control(s@),
{
    let cs = chars_of(s);
    let mut i: usize = 0;
    while i < cs.len()
        invariant
            i <= cs@.len(),
            cs@ == s@,
            forall|j: int| 0 <= j < i ==> !is_control_char(#[trigger] cs@[j]),
        decreases cs@.len() - i,
    {
        let c = cs[i];
        if (c as u32) < 0x20 || (c as u32) == 0x7f {
            return true;
        }
        i += 1;
    }
    false
}

/// The verdict on a parsed URL (its scheme and serialization).
pub fn url_verdict(parsed: Option<(String, String)>) -> (r: Option<String>)
    ensures
        opt_view(r) == url_verdict_spec(match parsed { Some((a, b)) => Some((a@, b@)), None => None }),
{
    proof {
        reveal_strlit("http");
        reveal_strlit("https");
    }
    match parsed {
        Some((scheme, canonical)) => {
            let sc = chars_of(scheme.as_str());
            let web = eq_str(&sc, "http") || eq_str(&sc, "https");
            if web && !any_control(canonical.as_str()) {
                Some(canonical)
            } else {
                None
            }
        },
        None => None,
    }
}

/// A homepage link as it may be opened, or `None` to refuse it.
pub fn url_to_open(url: &str) -> (r: Option<String>)
    ensures
        opt_view(r) == url_verdict_spec(url_parsed(url@)),
{
    url_verdict(parse_url(url))
}

/// Lines joined by `\n`.
pub open spec fn join_lines(ls: Seq<Seq<char>>) -> Seq<char>
    decreases ls.len(),
{
    if ls.len() == 0 {
        Seq::empty()
    } else if ls.len() == 1 {
        ls[0]
    } else {
        join_lines(ls.drop_last()) + "\n"@ + ls.last()
    }
}

fn join_strings(ls: &Vec<String>) -> (r: Vec<char>)
    ensures
        r@ == join_lines(texts_of(ls@)),
{
    let ghost ts = texts_of(ls@);
    let mut out: Vec<char> = Vec::new();
    let mut i: usize = 0;
    while i < ls.len()
        invariant
            i <= ls@.len(),
            ts == texts_of(ls@),
            out@ == join_lines(ts.take(i as int)),
        decreases ls@.len() - i,
    {
        let ghost before = out@;
        assert(ts.take(i + 1).drop_last() =~= ts.take(i as int));
        assert(ts.take(i + 1).last() == ls@[i as int]@);
        if i > 0 {
            push_str(&mut out, "\n");
            proof {
                reveal_strlit("\n");
            }
        } else {
            assert(ts.take(0) =~= Seq::<Seq<char>>::empty());
        }
        push_str(&mut out, ls[i].as_str());
        assert(out@ =~= join_lines(ts.take(i + 1)));
        i += 1;
    }
    assert(ts.take(ls@.len() as int) =~= ts);
    out
}

/// What "copy the log" puts on the clipboard: the scrolled-off lines,
/// then the visible rows, then, after a blank line, the missing-module
/// help when it is shown.
pub open spec fn copy_payload_spec(scrollback: Seq<Seq<char>>, rows: Seq<Seq<char>>, help: Option<Seq<char>>) -> Seq<char> {
    let a = join_lines(scrollback);
    let b = if a.len() > 0 { a + "\n"@ } else { a };
    let c = b + join_lines(rows);
    match help {
        Some(h) => c + "\n\n"@ + h,
        None => c,
    }
}

pub fn terminal_copy_payload(scrollback: &Vec<String>, rows: &Vec<String>, help: Option<&str>) -> (r: String)
    ensures
        r@ == copy_payload_spec(texts_of(scrollback@), texts_of(rows@), match help { Some(h) => Some(h@), None => None }),
{
    proof {
        reveal_strlit("\n");
        reveal_strlit("\n\n");
    }
    let mut v = join_strings(scrollback);
    if v.len() > 0 {
        push_str(&mut v, "\n");
    }
    let r = join_strings(rows);
    crate::text::push_chars(&mut v, &r);
    if let Some(h) = help {
        push_str(&mut v, "\n\n");
        push_str(&mut v, h);
    }
    string_of(&v)
}

/// The refusal of a channels edit before anything runs: no file loaded,
/// or a store-managed file (read-only).
pub open spec fn apply_refusal_spec(file: Option<ChannelsFile>) -> Option<(Seq<char>, Seq<(Seq<char>, Seq<char>)>)> {
    match file {
        None => Some(("channels-no-file-loaded"@, Seq::empty())),
        Some(f) => if f.is_store_managed {
            Some(("channels-store-managed-error"@, seq![("path"@, f.path@)]))
        } else {
            None
        },
    }
}

fn store_managed_message(path: &str) -> (m: Localized)
    ensures
        localized_view(m) == ("channels-store-managed-error"@, seq![("path"@, path@)]),
{
    let mut args: Vec<(String, String)> = Vec::new();
    args.push(arg("path", String::from_str(path)));
    let m = Localized { id: String::from_str("channels-store-managed-error"), args };
    assert(localized_view(m).1 =~= seq![("path"@, path@)]);
    m
}

fn plain_message(id: &str) -> (m: Localized)
    ensures
        localized_view(m) == (id@, Seq::<(Seq<char>, Seq<char>)>::empty()),
{
    let m = Localized { id: String::from_str(id), args: Vec::new() };
    assert(localized_view(m).1 =~= Seq::<(Seq<char>, Seq<char>)>::empty());
    m
}

/// Whether an edit of the channels file may start, or the message why not.
pub fn apply_precheck(file: Option<&ChannelsFile>) -> (r: Result<(), Localized>)
    ensures
        match apply_refusal_spec(match file { Some(f) => Some(*f), None => None }) {
            None => r is Ok,
            Some(m) => r matches Err(l) && localized_view(l) == m,
        },
{
    match file {
        None => Err(plain_message("channels-no-file-loaded")),
        Some(f) => {
            if f.is_writable() {
                Ok(())
            } else {
                Err(store_managed_message(f.path.as_str()))
            }
        },
    }
}

/// Whether restoring the backup may start: a loaded file, a backup, and a
/// writable file, checked in that order.
pub fn restore_precheck(file: Option<&ChannelsFile>, backup: Option<&str>) -> (r: Result<(), Localized>)
    ensures
        match file {
            None => r matches Err(l) && localized_view(l) == ("channels-no-file-loaded"@, Seq::<(Seq<char>, Seq<char>)>::empty()),
            Some(f) => match backup {
                None => r matches Err(l) && localized_view(l) == ("channels-no-backup"@, Seq::<(Seq<char>, Seq<char>)>::empty()),
                Some(_) => if f.is_store_managed {
                    r matches Err(l) && localized_view(l) == ("channels-store-managed-error"@, seq![("path"@, f.path@)])
                } else {
                    r is Ok
                },
            },
        },
{
    match file {
        None => Err(plain_message("channels-no-file-loaded")),
        Some(f) => match backup {
            None => Err(plain_message("channels-no-backup")),
            Some(_) => {
                if f.is_writable() {
                    Ok(())
                } else {
                    Err(store_managed_message(f.path.as_str()))
                }
            },
        },
    }
}

/// The loads a tab switch starts.
#[derive(Debug, Clone, Copy, PartialEq, Eq, Structural)]
pub struct TabLoads {
    pub home_icons: bool,
    pub installed: bool,
    pub channel_list: bool,
    pub pull_times: bool,
    pub channels_file: bool,
    pub installed_by_channel: bool,
    pub system_config: bool,
}

/// What the GUI already has when a tab is selected.
#[derive(Debug, Clone, Copy, PartialEq, Eq, Structural)]
pub struct TabContext {
    pub installed_empty: bool,
    pub channels_file_loaded: bool,
    pub channels_file_loading: bool,
    pub by_channel_cached: bool,
    pub by_channel_loading: bool,
    pub system_config_known: bool,
}

pub open spec fn no_loads() -> TabLoads {
    TabLoads {
        home_icons: false,
        installed: false,
        channel_list: false,
        pull_times: false,
        channels_file: false,
        installed_by_channel: false,
        system_config: false,
    }
}

/// Home prefetches icons; Installed loads the list when it is empty;
/// Updates reloads the channels and the pull times; Channels loads the
/// file and the per-channel grouping when neither is present nor loading;
/// System reads the running configuration once.
pub open spec fn tab_loads_spec(tab: Tab, c: TabContext) -> TabLoads {
    match tab {
        Tab::Home => TabLoads { home_icons: true, ..no_loads() },
        Tab::Installed => TabLoads { installed: c.installed_empty, ..no_loads() },
        Tab::Updates => TabLoads { channel_list: true, pull_times: true, ..no_loads() },
        Tab::Channels => TabLoads {
            channels_file: !c.channels_file_loaded && !c.channels_file_loading,
            installed_by_channel: !c.by_channel_cached && !c.by_channel_loading,
            ..no_loads()
        },
        Tab::System => TabLoads { system_config: !c.system_config_known, ..no_loads() },
        _ => no_loads(),
    }
}

pub fn tab_loads(tab: Tab, c: TabContext) -> (r: TabLoads)
    ensures
        r == tab_loads_spec(tab, c),
{
    let none = TabLoads {
        home_icons: false,
        installed: false,
        channel_list: false,
        pull_times: false,
        channels_file: false,
        installed_by_channel: false,
        system_config: false,
    };
    match tab {
        Tab::Home => TabLoads { home_icons: true, ..none },
        Tab::Installed => TabLoads { installed: c.installed_empty, ..none },
        Tab::Updates => TabLoads { channel_list: true, pull_times: true, ..none },
        Tab::Channels => TabLoads {
            channels_file: !c.channels_file_loaded && !c.channels_file_loading,
            installed_by_channel: !c.by_channel_cached && !c.by_channel_loading,
            ..none
        },
        Tab::System => TabLoads { system_config: !c.system_config_known, ..none },
        _ => none,
    }
}

/// A change to one of the app-metadata settings.
#[derive(Debug, Clone, Copy, PartialEq, Eq, Structural)]
pub enum MetadataToggle {
    Enabled(bool),
    Flathub(bool),
    DebianScreenshots(bool),
}

/// What follows a metadata setting change: the selected search result to
/// fetch for, and whether to prefetch the Home icons.
#[derive(Debug, Clone, Copy, PartialEq, Eq, Structural)]
pub struct MetadataFollowUp {
    pub refetch_selected: Option<usize>,
    pub prefetch_home: bool,
}

/// Applies the change to the settings. Turning the feature on or off
/// refetches for the selected result (and, turned on while on Home,
/// prefetches icons); changing the Flathub source drops both caches
/// (and, turned on while on Home, prefetches icons); changing the Debian
/// source drops the metadata cache.
pub fn metadata_toggled(
    cfg: &mut AppMetadataSettings,
    toggle: MetadataToggle,
    cache: &mut MetadataCache,
    icons: &mut HomeIcons,
    on_home: bool,
    selected: Option<usize>,
) -> (r: MetadataFollowUp)
    requires
        old(cache).wf(),
        old(icons).wf(),
    ensures
        final(cache).wf(),
        final(icons).wf(),
        match toggle {
            MetadataToggle::Enabled(v) => {
                &&& *final(cfg) == (AppMetadataSettings { enabled: v, ..*old(cfg) })
                &&& r == (MetadataFollowUp { refetch_selected: selected, prefetch_home: v && on_home })
                &&& final(cache).entries@ == old(cache).entries@
                &&& final(icons).entries@ == old(icons).entries@
            },
            MetadataToggle::Flathub(v) => {
                &&& *final(cfg) == (AppMetadataSettings { use_flathub: v, ..*old(cfg) })
                &&& r == (MetadataFollowUp { refetch_selected: None, prefetch_home: v && on_home })
                &&& final(cache).entries@.len() == 0
                &&& final(icons).entries@.len() == 0
            },
            MetadataToggle::DebianScreenshots(v) => {
                &&& *final(cfg) == (AppMetadataSettings { use_debian_screenshots: v, ..*old(cfg) })
                &&& r == (MetadataFollowUp { refetch_selected: None, prefetch_home: false })
                &&& final(cache).entries@.len() == 0
                &&& final(icons).entries@ == old(icons).entries@
            },
        },
{
    match toggle {
        MetadataToggle::Enabled(v) => {
            cfg.enabled = v;
            MetadataFollowUp { refetch_selected: selected, prefetch_home: v && on_home }
        },
        MetadataToggle::Flathub(v) => {
            cfg.use_flathub = v;
            cache.clear();
            icons.clear();
            MetadataFollowUp { refetch_selected: None, prefetch_home: v && on_home }
        },
        MetadataToggle::DebianScreenshots(v) => {
            cfg.use_debian_screenshots = v;
            cache.clear();
            MetadataFollowUp { refetch_selected: None, prefetch_home: false }
        },
    }
}

} // verus!
