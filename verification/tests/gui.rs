use libguix::app_metadata::{debian_screenshot_urls, flathub_screenshot_urls, pick, AppMetadata, DebianShot, FlathubIndex, FlathubShot, ShotSize};
use libguix::channel_list::parse_channels_list;
use libguix::desktop::{decide_refresh, detect_from, plan_for, restart_script, DesktopEnv, MenuRefresh, Mode, RefreshDecision};
use libguix::discovery::{filter_introduced_channels, filter_packages_by_introduced, DiscoveredChannel, DiscoveredPackage};
use libguix::gui_flow::{
    bootstrap_help_message, build_search_error, failure_text, line_visible, op_supports_cancel, running_status_text,
    should_render_remove_warning, subscription_hash, ActiveOpState, AddChannelForm, ChannelsFlow, FinishAction, FormError,
    Notice, OpId, OpIdGen, OpKind, BOOTSTRAP_HINT_PATTERN, SEARCH_ERROR_SUMMARY_CAP,
};
use libguix::humanize::{format_elapsed, humanize_age, humanize_duration, initial, short_hash, truncate_path_left};
use libguix::progress::{Failure, Stage};
use libguix::recommended::{grouped, recommended, required_channels, Category};
use libguix::settings::{backup_path, first_run_candidates, load_step, probe_first_run_config, LoadStep, ReadOutcome, Settings};
use libguix::types::{Channel, InstalledPackage, KnownBug, ProgressEvent, ProgressStream};
use std::collections::HashSet;
use std::time::Duration;

fn secs(d: Duration) -> String {
    humanize_duration(d.as_secs())
}

#[test]
fn humanize_just_now() {
    assert_eq!(secs(Duration::from_secs(0)), "Just now");
    assert_eq!(secs(Duration::from_secs(59)), "Just now");
}

#[test]
fn humanize_minutes() {
    assert_eq!(secs(Duration::from_secs(60)), "1 minute ago");
    assert_eq!(secs(Duration::from_secs(120)), "2 minutes ago");
    assert_eq!(secs(Duration::from_secs(59 * 60)), "59 minutes ago");
}

#[test]
fn humanize_hours() {
    assert_eq!(secs(Duration::from_secs(60 * 60)), "1 hour ago");
    assert_eq!(secs(Duration::from_secs(3 * 60 * 60)), "3 hours ago");
    assert_eq!(secs(Duration::from_secs(23 * 60 * 60)), "23 hours ago");
}

#[test]
fn humanize_days() {
    assert_eq!(secs(Duration::from_secs(24 * 60 * 60)), "1 day ago");
    assert_eq!(secs(Duration::from_secs(3 * 86_400)), "3 days ago");
    assert_eq!(secs(Duration::from_secs(29 * 86_400)), "29 days ago");
}

#[test]
fn humanize_months() {
    assert_eq!(secs(Duration::from_secs(30 * 86_400)), "1 month ago");
    assert_eq!(secs(Duration::from_secs(6 * 30 * 86_400)), "6 months ago");
    assert_eq!(secs(Duration::from_secs(11 * 30 * 86_400)), "11 months ago");
}

#[test]
fn humanize_over_a_year() {
    assert_eq!(secs(Duration::from_secs(12 * 30 * 86_400)), "over a year ago");
    assert_eq!(secs(Duration::from_secs(5 * 365 * 86_400)), "over a year ago");
}

#[test]
fn humanize_age_handles_future_timestamps() {
    let now = std::time::SystemTime::now().duration_since(std::time::UNIX_EPOCH).unwrap().as_secs();
    assert_eq!(humanize_age(now, now + 3600), "Just now");
    assert_eq!(humanize_age(now, now - 7200), "2 hours ago");
}

#[test]
fn short_hash_truncates() {
    assert_eq!(short_hash("abcdef1234567890"), "abcdef1");
    assert_eq!(short_hash("abc"), "abc");
    assert_eq!(short_hash(""), "");
    // Seven bytes that would split a character leave the id whole.
    assert_eq!(short_hash("abcdef\u{e9}xyz"), "abcdef\u{e9}xyz");
    assert_eq!(short_hash("abcd\u{e9}xyz"), "abcd\u{e9}x");
}

#[test]
fn truncate_path_left_short_passthrough() {
    assert_eq!(truncate_path_left("/gnu/store/x", 20), "/gnu/store/x");
}

#[test]
fn truncate_path_left_keeps_tail() {
    let p = "/gnu/store/abcdef-wpa-supplicant-2.10";
    let t = truncate_path_left(p, 20);
    assert!(t.starts_with('\u{2026}'), "expected leading ellipsis: {t:?}");
    assert!(t.ends_with("wpa-supplicant-2.10"), "expected tail preserved: {t:?}");
    assert!(t.chars().count() <= 20);
}

#[test]
fn elapsed_formats() {
    assert_eq!(format_elapsed(65), "01:05");
    assert_eq!(format_elapsed(3 * 3600 + 7), "03:00:07");
}

#[test]
fn initial_uppercases_first_char() {
    assert_eq!(initial("firefox"), 'F');
    assert_eq!(initial("gimp"), 'G');
}

#[test]
fn initial_handles_empty() {
    assert_eq!(initial(""), '?');
    assert_eq!(initial("0ad"), '0');
}

#[test]
fn detect_from_known_tokens() {
    assert_eq!(detect_from("XFCE", ""), DesktopEnv::Xfce);
    assert_eq!(detect_from("KDE", ""), DesktopEnv::KdePlasma);
    assert_eq!(detect_from("MATE", ""), DesktopEnv::Mate);
    assert_eq!(detect_from("LXQt", ""), DesktopEnv::Lxqt);
    assert_eq!(detect_from("ubuntu:GNOME", ""), DesktopEnv::Gnome);
    assert_eq!(detect_from("X-Cinnamon", ""), DesktopEnv::Cinnamon);
}

#[test]
fn detect_from_unknown_and_empty() {
    assert_eq!(detect_from("", ""), DesktopEnv::Unknown);
    assert_eq!(detect_from("Frobnicator", ""), DesktopEnv::Unknown);
}

#[test]
fn detect_from_falls_back_to_session() {
    assert_eq!(detect_from("", "xfce"), DesktopEnv::Xfce);
    assert_eq!(detect_from("Unknown", "kde-plasma:KDE"), DesktopEnv::KdePlasma);
}

#[test]
fn plan_for_known_first_candidate() {
    assert_eq!(plan_for(DesktopEnv::KdePlasma).unwrap().candidates[0].prog, "kbuildsycoca6");
    assert_eq!(plan_for(DesktopEnv::Xfce).unwrap().candidates[0].prog, "xfce4-panel");
    assert_eq!(plan_for(DesktopEnv::Mate).unwrap().candidates[0].prog, "mate-panel");
    assert_eq!(plan_for(DesktopEnv::Lxqt).unwrap().candidates[0].prog, "lxqt-panel");
}

#[test]
fn plan_for_noop_desktops() {
    assert!(plan_for(DesktopEnv::Gnome).is_none());
    assert!(plan_for(DesktopEnv::Cinnamon).is_none());
    assert!(plan_for(DesktopEnv::Unknown).is_none());
}

#[test]
fn refresh_decisions() {
    assert!(matches!(decide_refresh(false, DesktopEnv::Xfce, &vec![true]), RefreshDecision::Outcome(MenuRefresh::Disabled)));
    assert!(matches!(
        decide_refresh(true, DesktopEnv::Gnome, &vec![]),
        RefreshDecision::Outcome(MenuRefresh::NotNeeded(DesktopEnv::Gnome))
    ));
    match decide_refresh(true, DesktopEnv::KdePlasma, &vec![false, true]) {
        RefreshDecision::Run(plan, i) => {
            assert_eq!(i, 1);
            assert_eq!(plan.candidates[i].prog, "kbuildsycoca5");
            assert_eq!(plan.mode, Mode::Complete);
        }
        _ => panic!("expected a command to run"),
    }
    assert!(matches!(
        decide_refresh(true, DesktopEnv::Lxqt, &vec![false]),
        RefreshDecision::Outcome(MenuRefresh::CommandMissing(DesktopEnv::Lxqt))
    ));
    assert_eq!(restart_script("lxqt-panel"), "killall -q lxqt-panel 2>/dev/null; exec lxqt-panel");
}

fn dc(name: &str, snippet: &str) -> DiscoveredChannel {
    DiscoveredChannel {
        name: name.into(),
        url: format!("https://example.org/{name}"),
        branch: None,
        commit: None,
        packages_count: 0,
        services_count: 0,
        subscription_snippet: snippet.into(),
    }
}

const GLUE: &str = "(channel\n  (name 'glue)\n  (url \"https://git.sr.ht/~puercopop/glue\")\n  (branch \"default\")\n  (introduction\n    (make-channel-introduction\n      \"ea330f23fbebdb623892c1345d9bf6a0c4861276\"\n      (openpgp-fingerprint\n        \"D5A3 4BC7 B37F 4017 D091  5CF5 EEF6 BD0D 5626 DB0F\"))))\n";

#[test]
fn to_channel_returns_none_when_introduction_absent() {
    let d = DiscoveredChannel {
        name: "wigust".into(),
        url: "https://notabug.org/wigust/guix-wigust".into(),
        branch: Some("master".into()),
        commit: Some("83e86a2891dd57f54fc3568d6a56581fabbb02d2".into()),
        packages_count: 157,
        services_count: 0,
        subscription_snippet:
            "(channel\n  (name 'wigust)\n  (url \"https://notabug.org/wigust/guix-wigust\")\n  (branch \"master\"))\n".into(),
    };
    assert!(d.to_channel().is_none());
}

#[test]
fn to_channel_yields_channel_when_introduction_present() {
    let d = DiscoveredChannel {
        name: "glue".into(),
        url: "https://git.sr.ht/~puercopop/glue".into(),
        branch: Some("default".into()),
        commit: None,
        packages_count: 35,
        services_count: 3,
        subscription_snippet: GLUE.into(),
    };
    let ch = d.to_channel().expect("introduced snippet parses");
    assert_eq!(ch.name, "glue");
    assert_eq!(ch.introduction_commit.as_deref(), Some("ea330f23fbebdb623892c1345d9bf6a0c4861276"));
    assert!(ch.introduction_fingerprint.is_some());
}

#[test]
fn catalog_filters_keep_only_introduced() {
    let chans = vec![dc("wigust", "(channel (name 'wigust) (url \"u\"))"), dc("glue", GLUE), dc("bad", "((")];
    let kept = filter_introduced_channels(chans);
    assert_eq!(kept.len(), 1);
    assert_eq!(kept[0].name, "glue");
    let pkg = |name: &str, channel: &str| DiscoveredPackage {
        name: name.into(),
        version: String::new(),
        channel: channel.into(),
        synopsis: String::new(),
        description: String::new(),
        licenses: String::new(),
        homepage: String::new(),
        module: String::new(),
        file: String::new(),
    };
    let pkgs = vec![pkg("glue-utility", "glue"), pkg("wigust-thing", "wigust")];
    let kept = filter_packages_by_introduced(pkgs, &vec!["glue".to_string()]);
    assert_eq!(kept.len(), 1);
    assert_eq!(kept[0].name, "glue-utility");
}

fn mixed_channels() -> Vec<DiscoveredChannel> {
    vec![
        DiscoveredChannel {
            name: "wigust".into(),
            url: "https://notabug.org/wigust/guix-wigust".into(),
            branch: Some("master".into()),
            commit: None,
            packages_count: 157,
            services_count: 0,
            subscription_snippet:
                "(channel\n  (name 'wigust)\n  (url \"https://notabug.org/wigust/guix-wigust\")\n  (branch \"master\"))\n".into(),
        },
        DiscoveredChannel {
            name: "glue".into(),
            url: "https://git.sr.ht/~puercopop/glue".into(),
            branch: Some("default".into()),
            commit: None,
            packages_count: 35,
            services_count: 3,
            subscription_snippet: GLUE.into(),
        },
    ]
}

fn mixed_packages() -> Vec<DiscoveredPackage> {
    let pkg = |name: &str, channel: &str| DiscoveredPackage {
        name: name.into(),
        version: "1.0".into(),
        channel: channel.into(),
        synopsis: String::new(),
        description: String::new(),
        licenses: String::new(),
        homepage: String::new(),
        module: String::new(),
        file: String::new(),
    };
    vec![pkg("glue-utility", "glue"), pkg("wigust-tool", "wigust")]
}

#[test]
fn channels_filter_drops_no_intro_entries() {
    let raw = mixed_channels();
    assert_eq!(raw.len(), 2, "fixture has two entries");

    let filtered = filter_introduced_channels(raw);
    assert_eq!(filtered.len(), 1, "only the introduced channel survives");
    assert_eq!(filtered[0].name, "glue");
}

#[test]
fn packages_filter_drops_packages_from_no_intro_channels() {
    let filtered_channels = filter_introduced_channels(mixed_channels());
    let introduced_names: Vec<String> = filtered_channels.iter().map(|c| c.name.clone()).collect();

    let raw_packages = mixed_packages();
    assert_eq!(raw_packages.len(), 2);

    let filtered_packages = filter_packages_by_introduced(raw_packages, &introduced_names);
    assert_eq!(filtered_packages.len(), 1);
    assert_eq!(filtered_packages[0].name, "glue-utility");
    assert_eq!(filtered_packages[0].channel, "glue");
}

#[test]
fn subscription_snippet_parses_to_same_channel_as_libguix() {
    let raw = mixed_channels();
    let glue = raw.iter().find(|c| c.name == "glue").expect("glue entry present");

    let via_discovery = glue.to_channel().expect("introduced snippet yields Channel");

    let wrapped = format!("(list {})", glue.subscription_snippet);
    let via_libguix = parse_channels_list(&wrapped)
        .expect("snippet parses as channels-list")
        .into_channels()
        .into_iter()
        .next()
        .expect("at least one channel");

    assert_eq!(via_discovery, via_libguix);
}

#[test]
fn index_finds_single_match() {
    let idx = FlathubIndex::build(vec!["org.inkscape.Inkscape".into()]);
    assert_eq!(idx.lookup("inkscape"), Some("org.inkscape.Inkscape".to_string()));
}

#[test]
fn index_prefers_gnome_over_github() {
    let idx = FlathubIndex::build(vec!["com.github.someone.calculator".into(), "org.gnome.Calculator".into()]);
    assert_eq!(idx.lookup("calculator"), Some("org.gnome.Calculator".to_string()));
}

#[test]
fn index_misses_unknown() {
    let idx = FlathubIndex::build(vec!["org.gnome.Inkscape".into()]);
    assert!(idx.lookup("definitely-not-here").is_none());
}

#[test]
fn metadata_is_empty_when_both_sources_empty() {
    let m = AppMetadata { flathub: None, debian_screenshots: Vec::new() };
    assert!(m.is_empty());
}

#[test]
fn several_unpreferred_candidates_fall_back_to_first() {
    assert_eq!(pick(&vec!["io.github.a.x".into(), "com.github.b.x".into()]), Some("io.github.a.x".to_string()));
    assert_eq!(pick(&vec![]), None);
}

#[test]
fn screenshot_urls_prefer_sized_variants() {
    let shot = |sizes: Vec<ShotSize>, src: Option<&str>| FlathubShot { sizes, src: src.map(String::from) };
    let size = |src: Option<&str>, w: bool| ShotSize { src: src.map(String::from), has_width: w };
    let shots = vec![
        shot(vec![size(Some("a-nowidth"), false), size(Some("a-width"), true)], Some("a-top")),
        shot(vec![size(Some("b-nowidth"), false)], Some("b-top")),
        shot(vec![], Some("c-top")),
        shot(vec![], Some("d-top")),
    ];
    assert_eq!(flathub_screenshot_urls(&shots), vec!["a-width", "b-nowidth", "c-top"]);
    let deb = |l: Option<&str>, s: Option<&str>| DebianShot { large_image_url: l.map(String::from), screenshot_url: s.map(String::from) };
    let d = vec![deb(None, None), deb(Some("L1"), Some("S1")), deb(None, Some("S2")), deb(Some("L3"), None), deb(Some("L4"), None)];
    assert_eq!(debian_screenshot_urls(&d), vec!["L1", "S2", "L3"]);
}

#[test]
fn no_duplicate_names() {
    let mut seen: HashSet<&str> = HashSet::new();
    for app in recommended() {
        assert!(seen.insert(app.name), "duplicate recommended app: {}", app.name);
    }
}

#[test]
fn all_categories_have_at_least_one_app() {
    let groups = grouped();
    let cats_with_apps: HashSet<Category> = groups.iter().map(|(c, _)| *c).collect();
    for app in recommended() {
        assert!(cats_with_apps.contains(&app.category));
    }
}

#[test]
fn grouped_is_sorted_by_display_order() {
    let groups = grouped();
    let orders: Vec<u8> = groups.iter().map(|(c, _)| c.order()).collect();
    let mut sorted = orders.clone();
    sorted.sort();
    assert_eq!(orders, sorted);
}

#[test]
fn channel_gated_apps() {
    assert_eq!(required_channels("rnote"), vec!["pantherx"]);
    assert!(required_channels("gimp").is_empty());
    assert_eq!(Category::AudioVideo.label(), "Audio & Video");
}

#[test]
fn defaults_are_none() {
    let s = Settings::default();
    assert!(s.source_config_path.is_none());
    assert!(s.custom_load_paths.is_empty());
    assert!(!s.show_log_by_default);
}

#[test]
fn discovery_defaults_to_off() {
    let s = Settings::default();
    assert!(!s.discovery_enabled);
}

#[test]
fn desktop_menu_refresh_defaults_to_on() {
    assert!(Settings::default().desktop_menu_refresh);
}

#[test]
fn effective_load_paths_auto_derives_parent() {
    let s = Settings { source_config_path: Some("/home/me/dotfiles/system/config.scm".into()), ..Default::default() };
    assert_eq!(s.effective_load_paths(), vec!["/home/me/dotfiles/system".to_string()]);
}

#[test]
fn load_paths_dedup() {
    let s = Settings {
        source_config_path: Some("/home/me/dotfiles/system/config.scm".into()),
        custom_load_paths: vec!["/home/me/dotfiles/system".into(), "/home/me/dotfiles/extra".into()],
        ..Default::default()
    };
    assert_eq!(
        s.effective_load_paths(),
        vec!["/home/me/dotfiles/system".to_string(), "/home/me/dotfiles/extra".to_string()]
    );
}

#[test]
fn effective_load_paths_without_config() {
    let s = Settings { custom_load_paths: vec!["/srv/cfg".into()], ..Default::default() };
    assert_eq!(s.effective_load_paths(), vec!["/srv/cfg".to_string()]);
}

#[test]
fn corrupt_file_degrades_to_defaults() {
    assert_eq!(load_step(&ReadOutcome::Text("{ this is not valid json".into())), LoadStep::Parse);
    assert_eq!(load_step(&ReadOutcome::Text("  \n".into())), LoadStep::Defaults);
    assert_eq!(load_step(&ReadOutcome::NotFound), LoadStep::Defaults);
}

#[test]
fn corrupt_file_creates_backup() {
    assert_eq!(load_step(&ReadOutcome::Failed), LoadStep::BackupThenDefaults);
    assert_eq!(backup_path("/tmp/x/config.json"), "/tmp/x/config.bak");
}

#[test]
fn first_run_probes_etc_config() {
    let c = first_run_candidates("/tmp/root");
    assert_eq!(c, vec!["/tmp/root/etc/config.scm".to_string(), "/tmp/root/etc/system.scm".to_string()]);
    assert_eq!(probe_first_run_config(&c, &vec![true, true]).as_deref(), Some("/tmp/root/etc/config.scm"));
}

#[test]
fn first_run_falls_through_to_system_scm() {
    let c = first_run_candidates("/tmp/root");
    assert_eq!(probe_first_run_config(&c, &vec![false, true]).as_deref(), Some("/tmp/root/etc/system.scm"));
    assert_eq!(probe_first_run_config(&c, &vec![false, false]), None);
}

#[test]
fn subscription_hash_is_stable_and_distinguishes_ids() {
    let id_a = OpId(1);
    let id_b = OpId(2);
    let h1 = subscription_hash(OpKind::Install, id_a);
    let h2 = subscription_hash(OpKind::Install, id_a);
    assert_eq!(h1, h2, "same (kind, id) hashes equal twice in a row");
    let h3 = subscription_hash(OpKind::Install, id_b);
    assert_ne!(h1, h3, "different ids produce different hashes");
    let h4 = subscription_hash(OpKind::Remove, id_a);
    assert_ne!(h1, h4, "different kinds produce different hashes");
}

#[test]
fn op_id_is_monotonic() {
    let mut g = OpIdGen::new();
    let a = g.next_id();
    let b = g.next_id();
    let c = g.next_id();
    assert!(b.0 > a.0);
    assert!(c.0 > b.0);
}

#[test]
fn user_ops_support_cancel() {
    for k in [OpKind::Install, OpKind::Remove, OpKind::Upgrade, OpKind::Pull] {
        assert!(op_supports_cancel(k), "{k:?} must support cancel");
    }
}

#[test]
fn pkexec_ops_do_not_support_cancel() {
    assert!(!op_supports_cancel(OpKind::SystemPull));
    assert!(!op_supports_cancel(OpKind::Reconfigure));
}

#[test]
fn bootstrap_detection_matches_unbound_module_error() {
    let sample_stderr = "guix system: error: no code for module (px packages libguix)";
    assert!(sample_stderr.contains(BOOTSTRAP_HINT_PATTERN));
    let help = bootstrap_help_message(Some("/home/franz/dotfiles/system"), Some("/home/franz/dotfiles/system/framework.scm"));
    assert!(help.contains("Reconfigure failed"));
    assert!(help.contains("doesn't recognise"));
    assert!(help.contains("sudo guix system reconfigure -L"));
    assert!(help.contains("/home/franz/dotfiles/system"));
    assert!(help.contains("/home/franz/dotfiles/system/framework.scm"));
}

#[test]
fn bootstrap_help_renders_placeholders_without_settings() {
    let help = bootstrap_help_message(None, None);
    assert!(help.contains("<parent of config>"));
    assert!(help.contains("<set source config>"));
}

#[test]
fn search_error_summary_picks_first_line_strips_prefix() {
    let raw = "\n\nrepl protocol error: unbound variable: foo\nstderr tail:\n  line a\n  line b\n";
    let err = build_search_error(raw.to_string(), "Search failed");
    assert_eq!(err.summary, "unbound variable: foo");
    assert_eq!(err.details, raw);
}

#[test]
fn search_error_summary_truncates_long_text() {
    let long_line: String = "x".repeat(SEARCH_ERROR_SUMMARY_CAP + 50);
    let err = build_search_error(long_line.clone(), "Search failed");
    assert_eq!(err.summary.chars().count(), SEARCH_ERROR_SUMMARY_CAP);
    assert!(err.summary.ends_with('\u{2026}'));
    assert_eq!(err.details, long_line);
    assert_eq!(build_search_error("  \n".into(), "Search failed").summary, "Search failed");
}

fn one_pkg(name: &str) -> InstalledPackage {
    InstalledPackage { name: name.into(), version: "1.0".into(), output: "out".into(), store_path: "/gnu/store/x".into() }
}

#[test]
fn remove_warning_skipped_when_cache_not_loaded() {
    assert!(!should_render_remove_warning(Some("pantherx"), None, "pantherx"));
}

#[test]
fn remove_warning_renders_when_pending_and_has_affected() {
    let map = vec![("pantherx".to_string(), vec![one_pkg("panther-foo")])];
    assert!(should_render_remove_warning(Some("pantherx"), Some(&map), "pantherx"));
}

#[test]
fn remove_warning_skipped_when_no_affected_packages() {
    let map: Vec<(String, Vec<InstalledPackage>)> = Vec::new();
    assert!(!should_render_remove_warning(Some("pantherx"), Some(&map), "pantherx"));
}

#[test]
fn remove_warning_skipped_when_other_channel_pending() {
    let map = vec![("pantherx".to_string(), vec![one_pkg("panther-foo")])];
    assert!(!should_render_remove_warning(Some("nonguix"), Some(&map), "pantherx"));
}

#[test]
fn remove_warning_skipped_when_nothing_pending() {
    let map = vec![("pantherx".to_string(), vec![one_pkg("panther-foo")])];
    assert!(!should_render_remove_warning(None, Some(&map), "pantherx"));
}

fn finished_pull_op(final_code: Option<i32>, channel_shadow_seen: bool) -> ActiveOpState {
    ActiveOpState {
        id: OpId(1),
        kind: OpKind::Pull,
        final_code,
        finished: false,
        bootstrap_likely: false,
        channel_shadow_seen,
    }
}

#[test]
fn channel_shadow_event_sets_sticky_flag() {
    let mut op = finished_pull_op(None, false);
    let batch = vec![
        ProgressEvent::KnownBug(KnownBug::ChannelShadow74396),
        ProgressEvent::Line { stream: ProgressStream::Stderr, text: "ordinary line".into(), redraw: false },
    ];
    op.observe_batch(&batch);
    assert!(op.channel_shadow_seen);
}

#[test]
fn repl_op_line_filtered_when_debug_off() {
    let e = ProgressEvent::Line { stream: ProgressStream::Stderr, text: "[repl-op] (some-unknown-tag x)".into(), redraw: false };
    assert!(!line_visible(false, &e));
}

#[test]
fn repl_op_line_visible_when_debug_on() {
    let e = ProgressEvent::Line { stream: ProgressStream::Stderr, text: "[repl-op] (some-unknown-tag x)".into(), redraw: false };
    assert!(line_visible(true, &e));
    let plain = ProgressEvent::Line { stream: ProgressStream::Stderr, text: "hello".into(), redraw: false };
    assert!(line_visible(false, &plain));
}

#[test]
fn channels_pull_success_clears_pending_and_no_rollback() {
    let mut f = ChannelsFlow::new();
    f.pending_pull_after_write = true;
    f.last_message = Some(Notice::Updated);
    let mut op = finished_pull_op(Some(0), false);
    let a = f.on_finished(&mut op);
    assert!(!f.pending_pull_after_write);
    assert!(f.pending_install.is_none());
    assert!(f.rollback_offer.is_none());
    assert!(f.last_message.is_none());
    assert_eq!(a, FinishAction::RefreshAfterPull(None));
    assert!(op.finished);
}

#[test]
fn channels_pull_success_fires_install_when_pending() {
    let mut f = ChannelsFlow::new();
    f.pending_pull_after_write = true;
    f.pending_install = Some("nyxt".into());
    let a = f.on_finished(&mut finished_pull_op(Some(0), false));
    assert!(!f.pending_pull_after_write);
    assert!(f.pending_install.is_none());
    assert!(f.rollback_offer.is_none());
    assert_eq!(a, FinishAction::RefreshAfterPull(Some("nyxt".into())));
}

#[test]
fn channels_pull_failure_stages_rollback_without_bug() {
    let mut f = ChannelsFlow::new();
    f.pending_pull_after_write = true;
    f.pending_install = Some("emacs".into());
    f.backup_path = Some("/tmp/channels.scm.bak".into());
    let a = f.on_finished(&mut finished_pull_op(Some(1), false));
    assert_eq!(a, FinishAction::Nothing);
    assert!(!f.pending_pull_after_write);
    assert!(f.pending_install.is_none());
    let offer = f.rollback_offer.as_ref().expect("rollback");
    assert_eq!(offer.backup_path.as_deref(), Some("/tmp/channels.scm.bak"));
    assert!(offer.bug.is_none());
}

#[test]
fn channels_pull_failure_surfaces_channel_shadow_bug() {
    let mut f = ChannelsFlow::new();
    f.pending_pull_after_write = true;
    f.backup_path = Some("/tmp/channels.scm.bak".into());
    f.on_finished(&mut finished_pull_op(Some(1), true));
    let offer = f.rollback_offer.as_ref().expect("rollback");
    assert_eq!(offer.bug, Some(KnownBug::ChannelShadow74396));
}

#[test]
fn non_channels_pull_failure_does_not_stage_rollback() {
    let mut f = ChannelsFlow::new();
    f.pending_pull_after_write = false;
    f.on_finished(&mut finished_pull_op(Some(1), true));
    assert!(f.rollback_offer.is_none());
}

fn nonguix() -> Channel {
    Channel {
        name: "nonguix".into(),
        url: "https://gitlab.com/nonguix/nonguix".into(),
        branch: None,
        commit: None,
        introduction_commit: Some("abc".into()),
        introduction_fingerprint: Some("DEAD BEEF".into()),
    }
}

#[test]
fn discover_add_and_install_records_package_name() {
    let mut f = ChannelsFlow::new();
    f.discover_add_and_install(nonguix(), "steam".into());
    assert_eq!(f.discover_pending_add.as_ref().map(|c| &c.name), Some(&"nonguix".to_string()));
    assert_eq!(f.discover_pending_install.as_deref(), Some("steam"));
    f.discover_add(nonguix());
    assert!(f.discover_pending_install.is_none());
}

#[test]
fn toast_pull_and_install_sets_state() {
    let mut f = ChannelsFlow::new();
    f.toast_pull_and_install("emacs".into());
    assert!(f.pending_pull_after_write);
    assert_eq!(f.pending_install.as_deref(), Some("emacs"));
}

#[test]
fn toast_pull_only_does_not_set_install() {
    let mut f = ChannelsFlow::new();
    f.pending_install = Some("stale".into());
    f.toast_pull();
    assert!(f.pending_pull_after_write);
    assert!(f.pending_install.is_none());
}

#[test]
fn remove_clicked_arms_pending_and_triggers_introspection_fetch() {
    let mut f = ChannelsFlow::new();
    assert!(f.installed_by_channel.is_none());
    assert!(!f.installed_by_channel_loading);
    let fetch = f.remove_clicked("pantherx".into());
    assert_eq!(f.pending_remove.as_deref(), Some("pantherx"));
    assert!(fetch);
    f.installed_by_channel_loading = true;
    assert!(!f.remove_clicked("pantherx".into()));
}

#[test]
fn install_finished_invalidates_installed_by_channel_cache() {
    let mut f = ChannelsFlow::new();
    f.installed_by_channel = Some(vec![("guix".into(), vec![one_pkg("hello")])]);
    let mut op = ActiveOpState::new(OpId(2), OpKind::Install);
    op.final_code = Some(0);
    let a = f.on_finished(&mut op);
    assert!(f.installed_by_channel.is_none());
    assert_eq!(a, FinishAction::RefreshInstalled);
}

#[test]
fn pull_finished_does_not_invalidate_installed_by_channel_cache() {
    let mut f = ChannelsFlow::new();
    f.installed_by_channel = Some(vec![("guix".into(), vec![one_pkg("hello")])]);
    let mut op = ActiveOpState::new(OpId(2), OpKind::Pull);
    op.final_code = Some(0);
    f.on_finished(&mut op);
    assert!(f.installed_by_channel.is_some());
}

#[test]
fn installed_by_channel_failure_stores_empty_map() {
    let mut f = ChannelsFlow::new();
    f.installed_by_channel_loading = true;
    f.installed_by_channel_loaded(None);
    assert!(!f.installed_by_channel_loading);
    assert_eq!(f.installed_by_channel.as_ref().map(|m| m.len()), Some(0));
}

#[test]
fn rollback_dismissed_clears_offer() {
    let mut f = ChannelsFlow::new();
    f.pending_pull_after_write = true;
    f.on_finished(&mut finished_pull_op(Some(1), false));
    assert!(f.rollback_offer.is_some());
    f.rollback_dismissed();
    assert!(f.rollback_offer.is_none());
}

#[test]
fn apply_completed_turns_pairing_into_prompt() {
    let mut f = ChannelsFlow::new();
    f.discover_add_and_install(nonguix(), "steam".into());
    f.apply_completed(Some("/c.scm.bak".into()));
    assert_eq!(f.post_apply_install_prompt.as_deref(), Some("steam"));
    assert_eq!(f.last_message, Some(Notice::AddedInstallPrompt("steam".into())));
    assert!(f.discover_pending_install.is_none());
    f.apply_completed(None);
    assert_eq!(f.last_message, Some(Notice::Updated));
    assert!(f.post_apply_install_prompt.is_none());
}

#[test]
fn bootstrap_flag_from_stderr() {
    let mut op = ActiveOpState::new(OpId(3), OpKind::Reconfigure);
    op.observe_batch(&vec![
        ProgressEvent::Line { stream: ProgressStream::Stdout, text: "no code for module (x)".into(), redraw: false },
        ProgressEvent::ExitSummary { code: 1, duration_ms: 1 },
    ]);
    assert!(!op.bootstrap_likely, "stdout lines do not count");
    assert_eq!(op.final_code, Some(1));
    op.observe_batch(&vec![ProgressEvent::Line {
        stream: ProgressStream::Stderr,
        text: "error: no code for module (x)".into(),
        redraw: false,
    }]);
    assert!(op.bootstrap_likely);
}

#[test]
fn add_channel_form_checks_required_fields() {
    let mut form = AddChannelForm::new();
    assert_eq!(form.to_channel().unwrap_err(), FormError::NameRequired);
    form.name = " foo ".into();
    assert_eq!(form.to_channel().unwrap_err(), FormError::UrlRequired);
    form.url = "https://example.org/foo.git".into();
    form.intro_commit = "abc".into();
    assert_eq!(form.to_channel().unwrap_err(), FormError::IntroRequired);
    form.intro_fpr = " AA BB ".into();
    form.branch = "  ".into();
    let ch = form.to_channel().unwrap();
    assert_eq!(ch.name, "foo");
    assert_eq!(ch.branch, None);
    assert_eq!(ch.introduction_fingerprint.as_deref(), Some("AA BB"));
    assert_eq!(FormError::UrlRequired.message_id(), "channels-form-url-required");
    form.clear();
    assert!(form.name.is_empty());
}

#[test]
fn failure_and_status_texts() {
    let f = failure_text(&Failure::Exit { code: 2 });
    assert_eq!(f.id, "app-failed-exit");
    assert_eq!(f.args, vec![("code".to_string(), "2".to_string())]);
    let b = failure_text(&Failure::Build { name: "foo".into(), log_path: Some("/l".into()) });
    assert_eq!(b.id, "stage-build-failed-log");
    assert_eq!(running_status_text(Stage::Building, "Building"), "Building...");
    assert_eq!(running_status_text(Stage::Done, "ignored"), "Done.");
}

#[test]
fn progress_batch_updates_flags_and_summary() {
    let mut op = finished_pull_op(None, false);
    let mut summary = libguix::progress::Summary::new();
    let batch = vec![
        libguix::types::ProgressEvent::KnownBug(libguix::types::KnownBug::ChannelShadow74396),
        libguix::types::ProgressEvent::BuildStart { drv: "/gnu/store/a-foo.drv".into() },
        libguix::types::ProgressEvent::BuildDone { drv: "/gnu/store/a-foo.drv".into() },
    ];
    libguix::gui_flow::on_progress_batch(&mut op, &mut summary, &batch);
    assert!(op.channel_shadow_seen);
    assert_eq!(op.final_code, None);
    assert_eq!(summary.build_count_started, 1);
    assert_eq!(summary.build_count_done, 1);
    assert_eq!(summary.stage, Stage::Building);
}

#[test]
fn locale_chain_puts_override_first_and_en_last() {
    let sys = vec!["fr-FR".to_string(), "fr-FR".to_string(), "de".to_string()];
    assert_eq!(libguix::gui_flow::requested_languages(Some("de-DE"), &sys), vec!["de-DE", "fr-FR", "de", "en"]);
    let sys = vec!["en".to_string(), "pt-BR".to_string()];
    assert_eq!(libguix::gui_flow::requested_languages(None, &sys), vec!["en", "pt-BR"]);
    assert_eq!(libguix::gui_flow::requested_languages(Some("en"), &vec!["en".to_string()]), vec!["en"]);
    let empty: Vec<String> = Vec::new();
    assert_eq!(libguix::gui_flow::requested_languages(None, &empty), vec!["en"]);
}
