use libguix::progress::{pretty_store_name, Failure, Stage, Summary};
use libguix::types::{ProgressEvent, ProgressStream};

fn line(text: &str) -> ProgressEvent {
    ProgressEvent::Line { stream: ProgressStream::Stderr, text: text.to_string(), redraw: false }
}

fn percent(s: &Summary) -> Option<f32> {
    s.percent_parts().map(|(d, t)| (d as f32 / t as f32).clamp(0.0, 1.0))
}

#[test]
fn pretty_store_name_drv() {
    assert_eq!(pretty_store_name("/gnu/store/abc123def456-foo-1.2.3.drv"), "foo-1.2.3");
}

#[test]
fn pretty_store_name_store_item() {
    assert_eq!(pretty_store_name("/gnu/store/abc123-hello-2.12.1-bin"), "hello-2.12.1-bin");
}

#[test]
fn pretty_store_name_non_matching() {
    assert_eq!(pretty_store_name("just-a-name"), "a-name");
    assert_eq!(pretty_store_name("noseparator"), "noseparator");
}

#[test]
fn stage_transitions_user_pull_happy_path() {
    let mut s = Summary::new();
    assert_eq!(s.stage, Stage::Starting);
    s.ingest(&line("Updating channel 'guix' from Git repository at ..."));
    assert_eq!(s.stage, Stage::ChannelUpdate);
    s.ingest(&ProgressEvent::PullComputingDerivation { system: "x86_64-linux".into() });
    assert_eq!(s.stage, Stage::ComputingDeriv);
    s.ingest(&ProgressEvent::BuildStart { drv: "/gnu/store/abc-guix-cache.drv".into() });
    assert_eq!(s.stage, Stage::Building);
    s.ingest(&ProgressEvent::BuildDone { drv: "/gnu/store/abc-guix-cache.drv".into() });
    assert_eq!(s.stage, Stage::Building);
    s.ingest(&ProgressEvent::ExitSummary { code: 0, duration_ms: 1200 });
    assert_eq!(s.stage, Stage::Done);
}

#[test]
fn downloading_doesnt_regress_from_building() {
    let mut s = Summary::new();
    s.ingest(&ProgressEvent::BuildStart { drv: "/gnu/store/x-foo.drv".into() });
    assert_eq!(s.stage, Stage::Building);
    s.ingest(&ProgressEvent::SubstituteDownload {
        item: "/gnu/store/y-bar".into(),
        bytes_done: 0,
        bytes_total: Some(1000),
    });
    assert_eq!(s.stage, Stage::Building);
}

#[test]
fn build_counters() {
    let mut s = Summary::new();
    s.ingest(&ProgressEvent::BuildStart { drv: "/gnu/store/a-foo.drv".into() });
    s.ingest(&ProgressEvent::BuildStart { drv: "/gnu/store/b-bar.drv".into() });
    s.ingest(&ProgressEvent::BuildDone { drv: "/gnu/store/a-foo.drv".into() });
    s.ingest(&ProgressEvent::BuildFailed { drv: "/gnu/store/b-bar.drv".into(), log_path: None });
    assert_eq!(s.build_count_started, 2);
    assert_eq!(s.build_count_done, 1);
    assert_eq!(s.build_count_failed, 1);
    assert_eq!(s.stage, Stage::Failed);
    assert!(matches!(s.failure, Some(Failure::Build { .. })));
}

#[test]
fn double_build_failed_does_not_double_count() {
    let mut s = Summary::new();
    s.ingest(&ProgressEvent::BuildStart { drv: "/gnu/store/b-bar.drv".into() });
    s.ingest(&ProgressEvent::BuildFailed { drv: "/gnu/store/b-bar.drv".into(), log_path: None });
    s.ingest(&ProgressEvent::BuildFailed { drv: "/gnu/store/b-bar.drv".into(), log_path: None });
    assert_eq!(s.build_count_failed, 1);
}

#[test]
fn download_upsert_updates_bytes() {
    let mut s = Summary::new();
    s.ingest(&ProgressEvent::SubstituteDownload { item: "/gnu/store/x-foo".into(), bytes_done: 500, bytes_total: Some(1000) });
    s.ingest(&ProgressEvent::SubstituteDownload { item: "/gnu/store/x-foo".into(), bytes_done: 900, bytes_total: Some(1000) });
    s.ingest(&ProgressEvent::SubstituteDownload { item: "/gnu/store/y-bar".into(), bytes_done: 200, bytes_total: Some(400) });
    assert_eq!(s.download_count_started, 2);
    assert_eq!(s.bytes_downloaded, 1100);
    assert_eq!(s.downloads.get("/gnu/store/x-foo").unwrap().bytes_done, 900);
}

#[test]
fn failed_exit_captures_failure() {
    let mut s = Summary::new();
    s.ingest(&ProgressEvent::ExitSummary { code: 1, duration_ms: 2000 });
    assert_eq!(s.stage, Stage::Failed);
    assert_eq!(s.failure, Some(Failure::Exit { code: 1 }));
}

#[test]
fn nothing_to_be_done_moves_to_done_early() {
    let mut s = Summary::new();
    s.ingest(&line("nothing to be done"));
    assert_eq!(s.stage, Stage::Done);
    assert!(s.finished_at.is_some());
}

#[test]
fn download_done_marks_entry_and_increments_counter() {
    let mut s = Summary::new();
    s.ingest(&ProgressEvent::SubstituteDownload { item: "/gnu/store/x-foo".into(), bytes_done: 0, bytes_total: Some(1000) });
    assert_eq!(s.download_count_done, 0);
    assert!(!s.downloads.get("/gnu/store/x-foo").unwrap().done);
    s.ingest(&ProgressEvent::SubstituteDownloadDone { item: "/gnu/store/x-foo".into(), bytes_total: Some(1000) });
    assert_eq!(s.download_count_done, 1);
    let entry = s.downloads.get("/gnu/store/x-foo").unwrap();
    assert!(entry.done);
    assert_eq!(entry.bytes_done, 1000);
}

#[test]
fn double_done_does_not_double_count() {
    let mut s = Summary::new();
    s.ingest(&ProgressEvent::SubstituteDownload { item: "/gnu/store/x-foo".into(), bytes_done: 0, bytes_total: Some(1000) });
    s.ingest(&ProgressEvent::SubstituteDownloadDone { item: "/gnu/store/x-foo".into(), bytes_total: Some(1000) });
    s.ingest(&ProgressEvent::SubstituteDownloadDone { item: "/gnu/store/x-foo".into(), bytes_total: Some(1000) });
    assert_eq!(s.download_count_done, 1);
}

#[test]
fn download_done_without_start_records_defensively() {
    let mut s = Summary::new();
    s.ingest(&ProgressEvent::SubstituteDownloadDone { item: "/gnu/store/orphan-foo".into(), bytes_total: Some(2048) });
    assert_eq!(s.download_count_started, 1);
    assert_eq!(s.download_count_done, 1);
    let entry = s.downloads.get("/gnu/store/orphan-foo").unwrap();
    assert!(entry.done);
    assert_eq!(entry.bytes_total, Some(2048));
}

#[test]
fn last_status_line_records_recent() {
    let mut s = Summary::new();
    s.ingest(&line("Updating channel 'guix' from ..."));
    s.ingest(&line("Computing Guix derivation for 'x86_64-linux'..."));
    assert_eq!(s.last_status_line.as_deref(), Some("Computing Guix derivation for 'x86_64-linux'..."));
}

#[test]
fn would_build_total_drives_percent_denominator() {
    let mut s = Summary::new();
    s.ingest(&ProgressEvent::WouldBuild {
        bytes: 0,
        items: vec!["/gnu/store/a-foo.drv".into(), "/gnu/store/b-bar.drv".into(), "/gnu/store/c-baz.drv".into()],
    });
    s.ingest(&ProgressEvent::BuildStart { drv: "/gnu/store/a-foo.drv".into() });
    s.ingest(&ProgressEvent::BuildDone { drv: "/gnu/store/a-foo.drv".into() });
    assert_eq!(s.build_count_started, 1);
    assert_eq!(s.would_build_count, Some(3));
    assert_eq!(s.percent_parts(), Some((1, 3)));
    assert_eq!(percent(&s), Some(1.0 / 3.0));
}

// The first failure is kept, and Failed is never left again.
#[test]
fn failed_is_absorbing_and_first_failure_sticks() {
    let mut s = Summary::new();
    s.ingest(&ProgressEvent::BuildStart { drv: "/gnu/store/a-foo.drv".into() });
    s.ingest(&ProgressEvent::BuildFailed { drv: "/gnu/store/a-foo.drv".into(), log_path: Some("/var/log/a".into()) });
    s.ingest(&ProgressEvent::ExitSummary { code: 1, duration_ms: 5 });
    s.ingest(&line("nothing to be done"));
    s.ingest(&ProgressEvent::ExitSummary { code: 0, duration_ms: 6 });
    assert_eq!(s.stage, Stage::Failed);
    match &s.failure {
        Some(Failure::Build { name, log_path }) => {
            assert_eq!(name, "foo");
            assert_eq!(log_path.as_deref(), Some("/var/log/a"));
        }
        other => panic!("unexpected {other:?}"),
    }
}

#[test]
fn no_total_means_no_percent_and_done_is_complete() {
    let mut s = Summary::new();
    assert_eq!(s.percent_parts(), None);
    s.ingest(&ProgressEvent::ExitSummary { code: 0, duration_ms: 1 });
    assert_eq!(s.percent_parts(), Some((1, 1)));
}

#[test]
fn batch_is_folded_in_order() {
    let batch = vec![
        ProgressEvent::BuildStart { drv: "/gnu/store/a-foo.drv".into() },
        ProgressEvent::BuildStart { drv: "/gnu/store/a-foo.drv".into() },
        ProgressEvent::BuildDone { drv: "/gnu/store/a-foo.drv".into() },
        ProgressEvent::SubstituteDownload { item: "/gnu/store/x-bar".into(), bytes_done: 10, bytes_total: Some(20) },
    ];
    let mut a = Summary::new();
    a.ingest_batch(&batch);
    let mut b = Summary::new();
    for e in &batch {
        b.ingest(e);
    }
    assert_eq!(a.build_count_started, 1);
    assert_eq!(a.build_count_done, 1);
    assert_eq!(a.download_count_started, 1);
    assert_eq!(a.bytes_downloaded, 10);
    assert_eq!(a.stage, b.stage);
    assert_eq!(a.builds.len(), b.builds.len());
    assert_eq!(a.stage, Stage::Building);
}

#[test]
fn repeated_item_events_change_nothing() {
    let events = vec![
        ProgressEvent::BuildStart { drv: "/gnu/store/a-foo.drv".into() },
        ProgressEvent::BuildDone { drv: "/gnu/store/b-foo.drv".into() },
        ProgressEvent::BuildFailed { drv: "/gnu/store/c-foo.drv".into(), log_path: None },
        ProgressEvent::SubstituteDownload { item: "/gnu/store/x-bar".into(), bytes_done: 5, bytes_total: None },
        ProgressEvent::SubstituteDownloadDone { item: "/gnu/store/y-bar".into(), bytes_total: Some(7) },
    ];
    for e in &events {
        let mut s = Summary::new();
        s.ingest(e);
        let once = (s.stage, s.build_count_started, s.build_count_done, s.build_count_failed,
            s.download_count_started, s.download_count_done, s.bytes_downloaded, s.builds.len(), s.downloads.len(),
            s.finished_at.is_some(), format!("{:?}", s.failure));
        s.ingest(e);
        let twice = (s.stage, s.build_count_started, s.build_count_done, s.build_count_failed,
            s.download_count_started, s.download_count_done, s.bytes_downloaded, s.builds.len(), s.downloads.len(),
            s.finished_at.is_some(), format!("{:?}", s.failure));
        assert_eq!(once, twice);
    }
}

#[test]
fn default_summary_has_no_start_and_clones() {
    let s = Summary::default();
    assert!(s.started_at.is_none());
    assert!(s.elapsed().is_none());
    assert_eq!(s.stage, Stage::Starting);
    let mut n = Summary::new();
    assert!(n.elapsed().is_some());
    n.ingest(&ProgressEvent::BuildStart { drv: "/gnu/store/a-foo.drv".into() });
    let c = n.clone();
    assert_eq!(c.build_count_started, 1);
    assert_eq!(c.builds.len(), 1);
}

#[test]
fn elapsed_freezes_at_finish() {
    let mut s = Summary::new();
    s.ingest(&ProgressEvent::ExitSummary { code: 0, duration_ms: 5 });
    let a = s.elapsed().unwrap();
    let mut spin = 0u64;
    while std::time::Instant::now() <= s.finished_at.unwrap() {
        spin += 1;
    }
    assert!(spin < u64::MAX);
    assert_eq!(s.elapsed().unwrap(), a);
    assert_eq!(a, s.finished_at.unwrap().duration_since(s.started_at.unwrap()));
}
