use libguix::building::{authorize_args, parse_store_path, BuildBuilder, StorePathCollector};
use libguix::error::GuixError;
use libguix::shell::ShellBuilder;
use libguix::types::{ProgressEvent, ProgressStream};

fn build() -> BuildBuilder {
    BuildBuilder::new()
}

fn shell() -> ShellBuilder {
    ShellBuilder::new()
}

#[test]
fn authorize_args_are_archive_authorize() {
    assert_eq!(authorize_args(), vec!["archive".to_string(), "--authorize".to_string()]);
}

#[test]
fn run_emits_subcommand_and_packages() {
    let argv = build().package("hello").argv();
    assert_eq!(argv, vec!["build", "hello"]);
}

#[test]
fn derivations_with_multiple_packages() {
    let argv = build().derivations().packages(&["hello", "coreutils"]).argv();
    assert_eq!(argv, vec!["build", "-d", "hello", "coreutils"]);
}

#[test]
fn expression_file_manifest_all_present() {
    let argv = build().expression("(package foo)").file("./pkg.scm").manifest("./m.scm").argv();
    assert_eq!(argv, vec!["build", "-e", "(package foo)", "-f", "./pkg.scm", "-m", "./m.scm"]);
}

#[test]
fn root_check_dry_run_log_file_flags() {
    let argv = build().check().dry_run().log_file().root("/tmp/r").package("hello").argv();
    assert_eq!(argv, vec!["build", "-n", "--check", "--log-file", "-r", "/tmp/r", "hello"]);
}

#[test]
fn quiet_flag_present() {
    let argv = build().quiet().package("hello").argv();
    assert_eq!(argv, vec!["build", "-q", "hello"]);
}

#[test]
fn expression_repeatable_and_combined_with_packages() {
    let argv = build().expression("(a)").expression("(b)").package("hello").argv();
    assert_eq!(argv, vec!["build", "-e", "(a)", "-e", "(b)", "hello"]);
}

#[test]
fn parses_store_path_token() {
    assert_eq!(parse_store_path("/gnu/store/abc-hello-2.12"), Some("/gnu/store/abc-hello-2.12".to_string()));
    assert_eq!(parse_store_path("  /gnu/store/abc-hello-2.12  "), Some("/gnu/store/abc-hello-2.12".to_string()));
}

#[test]
fn rejects_non_store_lines_and_trailing_text() {
    assert_eq!(parse_store_path("hello world"), None);
    assert_eq!(parse_store_path("/gnu/store/abc-foo cached substitute"), None);
    assert_eq!(parse_store_path(""), None);
}

#[test]
fn collect_store_paths_drains_echoed_paths() {
    let mut c = StorePathCollector::new();
    for text in ["/gnu/store/abc-hello", "/gnu/store/def-coreutils", "not a store path"] {
        c.observe(&ProgressEvent::Line { stream: ProgressStream::Stdout, text: text.into(), redraw: false });
    }
    c.observe(&ProgressEvent::Line { stream: ProgressStream::Stderr, text: "/gnu/store/zzz-stderr".into(), redraw: false });
    c.observe(&ProgressEvent::ExitSummary { code: 0, duration_ms: 3 });
    assert_eq!(c.finish().unwrap(), vec!["/gnu/store/abc-hello".to_string(), "/gnu/store/def-coreutils".to_string()]);
}

#[test]
fn collector_outcomes_follow_the_exit() {
    let mut c = StorePathCollector::new();
    c.observe(&ProgressEvent::StorePathListed { path: "/gnu/store/p".into() });
    c.observe(&ProgressEvent::ExitSummary { code: 2, duration_ms: 3 });
    assert!(matches!(c.finish(), Err(GuixError::OperationFailed { code: 2, .. })));
    assert!(matches!(StorePathCollector::new().finish(), Err(GuixError::Cancelled)));
}

#[test]
fn run_emits_packages_then_double_dash_then_command() {
    let argv = shell().package("hello").package("coreutils").command("echo", &["hi", "world"]).argv();
    assert_eq!(argv, vec!["shell", "hello", "coreutils", "--", "echo", "hi", "world"]);
}

#[test]
fn pure_container_network_flags_present() {
    let argv = shell().pure().container().network().package("hello").argv();
    assert_eq!(argv, vec!["shell", "--pure", "-C", "-N", "hello"]);
}

#[test]
fn development_binds_to_next_package_in_order() {
    let argv = shell().development().package("hello").package("git").argv();
    assert_eq!(argv, vec!["shell", "-D", "hello", "git"]);
}

#[test]
fn manifest_and_multiple_preserve() {
    let argv = shell().manifest("/tmp/m.scm").preserve("^FOO_").preserve("^BAR_").argv();
    assert_eq!(argv, vec!["shell", "-m", "/tmp/m.scm", "-E", "^FOO_", "-E", "^BAR_"]);
}

#[test]
fn packages_iter_appends_in_order() {
    let argv = shell().packages(&["a", "b", "c"]).argv();
    assert_eq!(argv, vec!["shell", "a", "b", "c"]);
}

#[test]
fn development_resets_after_consumption() {
    let argv = shell().development().package("hello").package("git").development().package("coreutils").argv();
    assert_eq!(argv, vec!["shell", "-D", "hello", "git", "-D", "coreutils"]);
}
