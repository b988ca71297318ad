use libguix::app_state::{
    apply_precheck, metadata_toggled, restore_precheck, tab_loads, MetadataFollowUp, MetadataToggle, TabContext, source_validation, terminal_copy_payload, tile_is_visible, url_to_open, url_verdict, DiscoverState, HomeIcons, IconCacheEntry, MetadataCache, InstalledState, PullMtimes, SearchState, SystemState, UpdatesState,
};
use libguix::channels::ChannelsFile;
use libguix::discovery::{DiscoveredChannel, DiscoveredPackage, DiscoveryError};
use libguix::gui_flow::{auto_load_path, show_bootstrap_help, ActiveOpState, ChannelsFlow, ChannelsSubMode, OpId, OpKind};
use libguix::humanize::truncate;
use libguix::package::SearchFastResult;
use libguix::app_metadata::AppMetadata;
use libguix::settings::{AppMetadataSettings, Settings, Tab};
use libguix::types::{Channel, InstalledPackage, PackageSummary};

fn summary(name: &str) -> PackageSummary {
    PackageSummary {
        name: name.to_string(),
        version: "1.0".to_string(),
        synopsis: String::new(),
        description: String::new(),
        homepage: String::new(),
        license: String::new(),
        outputs: vec!["out".to_string()],
    }
}

#[test]
fn stale_search_reply_clears_searching_flag() {
    let mut s = SearchState::new();
    s.searching = true;
    s.query_seq = 5;

    let stale = Ok(Some(SearchFastResult { results: Vec::new(), truncated: false, limit: 0 }));
    let fetch = s.completed(3, stale, "Search failed");

    assert!(
        !s.searching,
        "stale SearchCompleted must clear `searching` so a subsequent SearchInputChanged doesn't fire interrupt() against an idle repl"
    );
    assert!(s.results.is_empty());
    assert_eq!(fetch, None);
}

#[test]
fn interrupt_skipped_when_warmup_incomplete() {
    let mut s = SearchState::new();
    s.searching = true;

    let prev_seq = s.query_seq;
    let interrupt = s.input_changed("foo".into(), false);

    assert!(!interrupt);
    assert!(s.searching, "searching flag must persist");
    assert_eq!(s.query, "foo");
    assert_eq!(s.query_seq, prev_seq.wrapping_add(1), "seq must advance regardless of the interrupt gate");
}

#[test]
fn interrupt_requested_after_warmup_while_searching() {
    let mut s = SearchState::new();
    s.searching = true;
    assert!(s.input_changed("bar".into(), true));
    s.searching = false;
    assert!(!s.input_changed("baz".into(), true));
    assert_eq!(s.query_seq, 2);
}

#[test]
fn query_seq_wraps_at_the_top() {
    let mut s = SearchState::new();
    s.query_seq = u64::MAX;
    s.input_changed("x".into(), true);
    assert_eq!(s.query_seq, 0);
}

#[test]
fn debounce_tick_runs_only_current_nonblank_query() {
    let mut s = SearchState::new();
    s.input_changed("  ".into(), true);
    assert_eq!(s.debounce_tick(1), None);
    assert!(!s.searching);

    s.input_changed("emacs".into(), true);
    assert_eq!(s.debounce_tick(1), None, "an older tick is ignored");
    assert!(!s.searching);
    assert_eq!(s.debounce_tick(2).as_deref(), Some("emacs"));
    assert!(s.searching);
    assert!(s.error.is_none());
}

#[test]
fn current_reply_replaces_results_and_selects_pending_name() {
    let mut s = SearchState::new();
    let interrupt = s.search_and_select("hello".into(), true);
    assert!(!interrupt);
    assert_eq!(s.pending_select.as_deref(), Some("hello"));
    let seq = s.query_seq;
    s.debounce_tick(seq);

    let reply = SearchFastResult { results: vec![summary("hello-extra"), summary("hello"), summary("hello")], truncated: true, limit: 3 };
    let fetch = s.completed(seq, Ok(Some(reply)), "Search failed");
    assert_eq!(fetch, Some(1));
    assert_eq!(s.selected, Some(1));
    assert_eq!(s.results.len(), 3);
    assert!(s.truncated);
    assert_eq!(s.last_limit, 3);
    assert!(s.pending_select.is_none());
    assert!(!s.searching);
}

#[test]
fn pending_name_consumed_even_when_absent() {
    let mut s = SearchState::new();
    s.search_and_select("absent".into(), true);
    let seq = s.query_seq;
    let fetch = s.completed(seq, Ok(Some(SearchFastResult { results: vec![summary("other")], truncated: false, limit: 200 })), "x");
    assert_eq!(fetch, None);
    assert_eq!(s.selected, None);
    assert!(s.pending_select.is_none());
}

#[test]
fn failed_reply_records_error_and_keeps_results() {
    let mut s = SearchState::new();
    s.results = vec![summary("kept")];
    s.input_changed("q".into(), true);
    let seq = s.query_seq;
    s.completed(seq, Err("repl protocol error: boom\nmore".to_string()), "Search failed");
    let e = s.error.clone().expect("error recorded");
    assert_eq!(e.summary, "boom");
    assert_eq!(e.details, "repl protocol error: boom\nmore");
    assert_eq!(s.results.len(), 1);

    s.completed(seq, Ok(None), "Search failed");
    assert!(s.error.is_none());
    assert_eq!(s.results.len(), 1);
}

#[test]
fn installed_state_keeps_packages_on_error() {
    let mut s = InstalledState::new();
    s.refresh_started();
    assert!(s.refreshing);
    let p = InstalledPackage { name: "hello".into(), version: "2.12".into(), output: "out".into(), store_path: "/gnu/store/x-hello".into() };
    s.loaded(Ok(vec![p.clone()]));
    assert!(!s.refreshing);
    assert_eq!(s.packages, vec![p.clone()]);
    s.refresh_started();
    s.loaded(Err("boom".into()));
    assert_eq!(s.packages, vec![p]);
    assert_eq!(s.error.as_deref(), Some("boom"));
}

#[test]
fn updates_state_channels_loaded() {
    let mut s = UpdatesState::new();
    s.mtimes = PullMtimes { user_pull: Some(10), root_pull: None, system_profile: Some(3) };
    s.refresh_started();
    assert!(s.loading_channels);
    let c = Channel { name: "guix".into(), url: "https://git.guix.gnu.org/guix.git".into(), branch: None, commit: None, introduction_commit: None, introduction_fingerprint: None };
    s.channels_loaded(Ok(vec![c.clone()]));
    assert!(!s.loading_channels);
    assert_eq!(s.channels, vec![c]);
    s.channels_loaded(Err("no".into()));
    assert_eq!(s.channels.len(), 1);
    assert_eq!(s.error.as_deref(), Some("no"));
    assert_eq!(s.mtimes.user_pull, Some(10));
}

#[test]
fn source_validation_messages() {
    let e = source_validation("", false, false);
    assert_eq!(e.id, "system-validation-empty");
    assert!(e.args.is_empty());
    let m = source_validation("/etc/config.scm", false, false);
    assert_eq!(m.id, "system-validation-missing");
    assert_eq!(m.args, vec![("path".to_string(), "/etc/config.scm".to_string())]);
    assert_eq!(source_validation("/etc", true, false).id, "system-validation-not-file");
    assert_eq!(source_validation("/etc/config.scm", true, true).id, "system-validation-ok");
}

#[test]
fn source_config_blank_unsets_setting() {
    let mut sys = SystemState::new();
    let mut settings = Settings::default();
    sys.source_config_changed(&mut settings, "/etc/config.scm".into());
    assert_eq!(settings.source_config_path.as_deref(), Some("/etc/config.scm"));
    sys.source_config_changed(&mut settings, "   ".into());
    assert_eq!(settings.source_config_path, None);
    assert_eq!(sys.source_input, "   ");
}

#[test]
fn load_path_add_trims_and_skips_blank() {
    let mut sys = SystemState::new();
    let mut settings = Settings::default();
    sys.load_path_input = "  /srv/modules ".into();
    assert!(sys.load_path_add(&mut settings));
    assert_eq!(settings.custom_load_paths, vec!["/srv/modules".to_string()]);
    assert!(sys.load_path_input.is_empty());
    sys.load_path_input = "   ".into();
    assert!(!sys.load_path_add(&mut settings));
    assert_eq!(settings.custom_load_paths.len(), 1);
    assert!(!sys.load_path_remove(&mut settings, 1));
    assert!(sys.load_path_remove(&mut settings, 0));
    assert!(settings.custom_load_paths.is_empty());
}

#[test]
fn reconfigure_snapshot_survives_settings_change() {
    let mut sys = SystemState::new();
    let mut settings = Settings::default();
    assert!(!sys.reconfigure_clicked(&settings));
    assert_eq!(sys.validation_message.as_ref().map(|m| m.id.as_str()), Some("app-set-source-config-first"));
    assert!(sys.pending_reconfigure.is_none());

    settings.source_config_path = Some("/etc/guix/config.scm".into());
    settings.custom_load_paths = vec!["/srv/modules".into()];
    assert!(sys.reconfigure_clicked(&settings));

    sys.source_config_changed(&mut settings, "/other/config.scm".into());
    sys.load_path_input = "/more".into();
    sys.load_path_add(&mut settings);

    let p = sys.reconfigure_confirmed().expect("captured");
    assert_eq!(p.config_path, "/etc/guix/config.scm");
    assert_eq!(p.load_paths, vec!["/etc/guix".to_string(), "/srv/modules".to_string()]);
    assert!(sys.reconfigure_confirmed().is_none());
}

#[test]
fn channels_source_override_and_default() {
    let mut sys = SystemState::new();
    let mut settings = Settings::default();
    sys.channels_source_changed(&mut settings, "/etc/channels.scm".into());
    assert_eq!(settings.channels_source_path.as_deref(), Some("/etc/channels.scm"));
    sys.channels_source_use_default(&mut settings);
    assert_eq!(settings.channels_source_path, None);
    assert!(sys.channels_source_input.is_empty());
}

#[test]
fn config_checked_keeps_previous_display_on_error() {
    let mut sys = SystemState::new();
    sys.config_checked(Ok("/run/current-system/configuration.scm".into()));
    sys.config_checked(Err("denied".into()));
    assert_eq!(sys.current_config_display.as_deref(), Some("/run/current-system/configuration.scm"));
    assert_eq!(sys.current_config_error.as_deref(), Some("denied"));
}

#[test]
fn icon_cache_entries_compare() {
    assert_eq!(IconCacheEntry::Done(None), IconCacheEntry::Done(None));
    assert_ne!(IconCacheEntry::Loading, IconCacheEntry::Done(Some(vec![1])));
}

#[test]
fn tile_hidden_only_when_icon_known_missing() {
    assert!(tile_is_visible(false, Some(&IconCacheEntry::Done(None))));
    assert!(!tile_is_visible(true, Some(&IconCacheEntry::Done(None))));
    assert!(tile_is_visible(true, Some(&IconCacheEntry::Loading)));
    assert!(tile_is_visible(true, Some(&IconCacheEntry::Done(Some(vec![0x89])))));
    assert!(tile_is_visible(true, None));
}

#[test]
fn truncate_trims_then_cuts_with_ellipsis() {
    assert_eq!(truncate("  short  ", 10), "short");
    assert_eq!(truncate("abcdefgh", 3), "abc\u{2026}");
    assert_eq!(truncate("éèê", 3), "éèê");
    assert_eq!(truncate("", 0), "");
}

#[test]
fn discovery_error_messages() {
    assert_eq!(DiscoveryError::Parse("bad json".into()).message(), "parse error: bad json");
    assert_eq!(
        DiscoveryError::NoIntroductionForChannel("nonguix".into()).message(),
        "no introduction for channel: nonguix"
    );
}

fn catalog_pkg(name: &str) -> DiscoveredPackage {
    DiscoveredPackage {
        name: name.into(),
        version: "1".into(),
        channel: "glue".into(),
        synopsis: String::new(),
        description: String::new(),
        licenses: String::new(),
        homepage: String::new(),
        module: String::new(),
        file: String::new(),
    }
}

#[test]
fn discover_sub_mode_gated_by_setting() {
    let mut d = DiscoverState::new();
    assert!(!d.sub_mode_selected(false, ChannelsSubMode::Discover));
    assert_eq!(d.sub_mode, ChannelsSubMode::Installed);
    assert!(d.sub_mode_selected(true, ChannelsSubMode::Discover));
    assert_eq!(d.sub_mode, ChannelsSubMode::Discover);
    d.channels_fetch_started();
    assert!(!d.sub_mode_selected(true, ChannelsSubMode::Discover), "no second fetch while one runs");
    d.channels_loaded(Err("offline".into()));
    assert_eq!(d.error.as_deref(), Some("offline"));
    assert!(!d.channels_loading);
}

#[test]
fn discover_search_matches_replies_to_queries() {
    let mut d = DiscoverState::new();
    d.query_changed(" glue ".into());
    assert_eq!(d.debounce_tick(d.query_seq).as_deref(), Some("glue"));
    assert!(d.packages_loading);
    let seq = d.query_seq;
    d.query_changed("glu".into());
    d.packages_loaded(seq, Ok(Some(vec![catalog_pkg("stale")])));
    assert!(d.packages.is_empty(), "a reply to an older query is dropped");
    assert!(d.packages_loading);
    d.packages_loaded(d.query_seq, Ok(Some(vec![catalog_pkg("glue-utility")])));
    assert_eq!(d.packages.len(), 1);
    assert!(!d.packages_loading);

    d.query_changed("   ".into());
    assert_eq!(d.debounce_tick(d.query_seq), None);
    assert!(d.packages.is_empty());
}

#[test]
fn discover_teardown_when_disabled() {
    let mut d = DiscoverState::new();
    let mut flow = ChannelsFlow::new();
    d.sub_mode = ChannelsSubMode::Discover;
    d.query = "x".into();
    d.channels = vec![DiscoveredChannel {
        name: "glue".into(),
        url: "u".into(),
        branch: None,
        commit: None,
        packages_count: 1,
        services_count: 0,
        subscription_snippet: String::new(),
    }];
    flow.discover_pending_install = Some("pkg".into());
    d.discovery_toggled(true, &mut flow);
    assert_eq!(d.channels.len(), 1);
    d.discovery_toggled(false, &mut flow);
    assert_eq!(d.sub_mode, ChannelsSubMode::Installed);
    assert!(d.channels.is_empty());
    assert!(d.query.is_empty());
    assert!(flow.discover_pending_install.is_none());
}

#[test]
fn metadata_fetch_marks_in_flight_once() {
    let mut c = MetadataCache::new();
    let results = vec![summary("gimp"), summary("inkscape")];
    assert_eq!(c.begin_fetch(false, &results, 0), None, "feature off");
    assert_eq!(c.begin_fetch(true, &results, 5), None, "index out of range");
    assert_eq!(c.begin_fetch(true, &results, 1).as_deref(), Some("inkscape"));
    assert!(matches!(c.get("inkscape"), Some(None)));
    assert_eq!(c.begin_fetch(true, &results, 1), None, "already in flight");

    c.loaded("inkscape".into(), Some(AppMetadata { flathub: None, debian_screenshots: Vec::new() }));
    assert!(matches!(c.get("inkscape"), Some(Some(_))));
    assert_eq!(c.entries.len(), 1);

    c.begin_fetch(true, &results, 0);
    c.loaded("gimp".into(), None);
    assert!(c.get("gimp").is_none(), "a lost result clears the mark so a retry can happen");
    c.clear();
    assert!(c.entries.is_empty());
}

#[test]
fn home_icons_prefetch_each_name_once() {
    let mut h = HomeIcons::new();
    let off = AppMetadataSettings { enabled: true, use_flathub: false, use_debian_screenshots: true };
    assert!(h.prefetch(off, &["gimp"]).is_empty());
    let on = AppMetadataSettings { enabled: true, use_flathub: true, use_debian_screenshots: true };
    let first = h.prefetch(on, &["gimp", "inkscape", "gimp"]);
    assert_eq!(first, vec!["gimp".to_string(), "inkscape".to_string()]);
    assert_eq!(h.get("gimp"), Some(&IconCacheEntry::Loading));
    h.loaded("gimp".into(), None);
    assert_eq!(h.get("gimp"), Some(&IconCacheEntry::Done(None)));
    let second = h.prefetch(on, &["gimp", "krita"]);
    assert_eq!(second, vec!["krita".to_string()]);
    assert_eq!(h.entries.len(), 3);
    assert!(!tile_is_visible(true, h.get("gimp")));
}

#[test]
fn bootstrap_help_only_after_failed_reconfigure_with_hint() {
    let mut op = ActiveOpState::new(OpId(1), OpKind::Reconfigure);
    assert!(!show_bootstrap_help(Some(&op)));
    op.finished = true;
    op.bootstrap_likely = true;
    op.final_code = Some(1);
    assert!(show_bootstrap_help(Some(&op)));
    op.final_code = Some(0);
    assert!(!show_bootstrap_help(Some(&op)));
    op.final_code = None;
    assert!(show_bootstrap_help(Some(&op)));
    let pull = ActiveOpState { kind: OpKind::Pull, ..op };
    assert!(!show_bootstrap_help(Some(&pull)));
    assert!(!show_bootstrap_help(None));

    assert_eq!(auto_load_path(Some("/etc/guix/config.scm")).as_deref(), Some("/etc/guix"));
    assert_eq!(auto_load_path(Some("config.scm")), None, "a bare file name has an empty parent");
    assert_eq!(auto_load_path(Some("/")), None);
    assert_eq!(auto_load_path(None), None);
}

#[test]
fn only_canonical_web_links_are_opened() {
    assert_eq!(url_to_open("https://www.gnu.org/software/hello/").as_deref(), Some("https://www.gnu.org/software/hello/"));
    assert_eq!(url_to_open("HTTPS://Example.ORG").as_deref(), Some("https://example.org/"), "the canonical form is opened");
    assert_eq!(url_to_open("ftp://ftp.gnu.org/gnu/hello/"), None);
    assert_eq!(url_to_open("file:///etc/passwd"), None);
    assert_eq!(url_to_open("not a url"), None);
    assert_eq!(url_verdict(Some(("https".into(), "https://x.org/\u{1}".into()))), None);
    assert_eq!(url_verdict(Some(("http".into(), "http://x.org/".into()))).as_deref(), Some("http://x.org/"));
    assert_eq!(url_verdict(None), None);
}

#[test]
fn copy_payload_joins_scrollback_rows_and_help() {
    let sb = vec!["a".to_string(), "b".to_string()];
    let rows = vec!["c".to_string(), "".to_string()];
    assert_eq!(terminal_copy_payload(&sb, &rows, None), "a\nb\nc\n");
    assert_eq!(terminal_copy_payload(&Vec::new(), &rows, None), "c\n");
    assert_eq!(terminal_copy_payload(&Vec::new(), &vec!["x".to_string()], Some("help")), "x\n\nhelp");
}

#[test]
fn channel_edits_refused_without_a_writable_file() {
    let writable = ChannelsFile::seed("/home/u/.config/guix/channels.scm".into(), false).unwrap();
    let managed = ChannelsFile::seed("/home/u/.config/guix/channels.scm".into(), true).unwrap();
    assert_eq!(apply_precheck(None).unwrap_err().id, "channels-no-file-loaded");
    assert!(apply_precheck(Some(&writable)).is_ok());
    let e = apply_precheck(Some(&managed)).unwrap_err();
    assert_eq!(e.id, "channels-store-managed-error");
    assert_eq!(e.args, vec![("path".to_string(), "/home/u/.config/guix/channels.scm".to_string())]);

    assert_eq!(restore_precheck(None, Some("x")).unwrap_err().id, "channels-no-file-loaded");
    assert_eq!(restore_precheck(Some(&writable), None).unwrap_err().id, "channels-no-backup");
    assert_eq!(restore_precheck(Some(&managed), Some("x.bak")).unwrap_err().id, "channels-store-managed-error");
    assert!(restore_precheck(Some(&writable), Some("x.bak")).is_ok());
}

#[test]
fn tab_switch_loads_only_what_is_missing() {
    let fresh = TabContext {
        installed_empty: true,
        channels_file_loaded: false,
        channels_file_loading: false,
        by_channel_cached: false,
        by_channel_loading: false,
        system_config_known: false,
    };
    let home = tab_loads(Tab::Home, fresh);
    assert!(home.home_icons && !home.installed && !home.channel_list);
    assert!(tab_loads(Tab::Installed, fresh).installed);
    assert!(!tab_loads(Tab::Installed, TabContext { installed_empty: false, ..fresh }).installed);
    let upd = tab_loads(Tab::Updates, fresh);
    assert!(upd.channel_list && upd.pull_times && !upd.channels_file);
    let ch = tab_loads(Tab::Channels, fresh);
    assert!(ch.channels_file && ch.installed_by_channel);
    let ch2 = tab_loads(Tab::Channels, TabContext { channels_file_loading: true, by_channel_cached: true, ..fresh });
    assert!(!ch2.channels_file && !ch2.installed_by_channel);
    assert!(tab_loads(Tab::System, fresh).system_config);
    assert!(!tab_loads(Tab::System, TabContext { system_config_known: true, ..fresh }).system_config);
    let about = tab_loads(Tab::About, fresh);
    assert!(!about.home_icons && !about.installed && !about.system_config);
    let search = tab_loads(Tab::Search, fresh);
    assert!(!search.installed && !search.channel_list);
}

#[test]
fn metadata_toggles_clear_and_refetch() {
    let mut cfg = AppMetadataSettings { enabled: false, use_flathub: true, use_debian_screenshots: true };
    let mut cache = MetadataCache::new();
    let mut icons = HomeIcons::new();
    let results = vec![summary("gimp")];
    let on = AppMetadataSettings { enabled: true, use_flathub: true, use_debian_screenshots: true };
    cache.begin_fetch(true, &results, 0);
    icons.prefetch(on, &["gimp"]);

    let f = metadata_toggled(&mut cfg, MetadataToggle::Enabled(true), &mut cache, &mut icons, true, Some(0));
    assert_eq!(f, MetadataFollowUp { refetch_selected: Some(0), prefetch_home: true });
    assert!(cfg.enabled);
    assert_eq!(cache.entries.len(), 1);

    let f = metadata_toggled(&mut cfg, MetadataToggle::DebianScreenshots(false), &mut cache, &mut icons, true, Some(0));
    assert_eq!(f, MetadataFollowUp { refetch_selected: None, prefetch_home: false });
    assert!(!cfg.use_debian_screenshots);
    assert!(cache.entries.is_empty());
    assert_eq!(icons.entries.len(), 1);

    let f = metadata_toggled(&mut cfg, MetadataToggle::Flathub(false), &mut cache, &mut icons, true, None);
    assert_eq!(f, MetadataFollowUp { refetch_selected: None, prefetch_home: false });
    assert!(icons.entries.is_empty());
}
