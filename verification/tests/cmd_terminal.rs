use libguix::cmd::guix_argv;
use libguix::terminal::{format_event, terminal_text};
use libguix::types::{KnownBug, ProgressEvent, ProgressStream};

#[test]
fn profile_flag_follows_the_subcommand() {
    assert_eq!(guix_argv(Some("/p"), true, &["package", "-I"]), vec!["package", "-p", "/p", "-I"]);
    assert_eq!(guix_argv(Some("/p"), false, &["gc", "--verify"]), vec!["gc", "--verify"]);
    assert_eq!(guix_argv(None, true, &["describe"]), vec!["describe"]);
    assert!(guix_argv(Some("/p"), true, &[]).is_empty());
}

#[test]
fn events_render_as_terminal_lines() {
    let line = ProgressEvent::Line { stream: ProgressStream::Stdout, text: "5%".into(), redraw: true };
    assert_eq!(terminal_text(&line), "5%\r");
    let settled = ProgressEvent::Line { stream: ProgressStream::Stdout, text: "done".into(), redraw: false };
    assert_eq!(terminal_text(&settled), "done\r\n");
    let exit = ProgressEvent::ExitSummary { code: 0, duration_ms: 1234 };
    assert_eq!(terminal_text(&exit), "\r\n--- exit 0 after 1.23s ---\r\n");
    let bug = ProgressEvent::KnownBug(KnownBug::ChannelShadow74396);
    assert_eq!(format_event(&bug), "known bug: ChannelShadow74396 (https://issues.guix.gnu.org/74396)");
    let phase = ProgressEvent::BuildPhase { drv: Some("x.drv".into()), phase: "build".into() };
    assert_eq!(terminal_text(&phase), "[x.drv] phase build\r\n");
    let dl = ProgressEvent::WouldDownload { bytes: 100, items: vec![] };
    assert_eq!(format_event(&dl), "would download 100 bytes");
    let lookup = ProgressEvent::SubstituteLookup { url: "https://ci".into(), percent: "50.0".into() };
    assert_eq!(format_event(&lookup), "substitute: https://ci 50.0%");
    let neg = ProgressEvent::ExitSummary { code: -1, duration_ms: 5 };
    assert_eq!(format_event(&neg), "exit -1 after 0.01s");
}
