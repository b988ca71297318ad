use libguix::error::{GuixError, PolkitFailure};
use libguix::operation::{
    classify_pkexec_code, completion_result, status_code, track_exit, Coalescer, ExitClassifier,
    COALESCE_MAX_EVENTS,
};
use libguix::types::{KnownBug, ProgressEvent, ProgressStream};

fn line(s: &str) -> ProgressEvent {
    ProgressEvent::Line { stream: ProgressStream::Stdout, text: s.into(), redraw: false }
}

fn texts(b: &[ProgressEvent]) -> Vec<String> {
    b.iter()
        .filter_map(|e| match e {
            ProgressEvent::Line { text, .. } => Some(text.clone()),
            _ => None,
        })
        .collect()
}

#[test]
fn pkexec_classifier_maps_reserved_codes() {
    assert_eq!(classify_pkexec_code(126), Some(PolkitFailure::AuthFailed));
    assert_eq!(classify_pkexec_code(127), Some(PolkitFailure::NotAuthorized));
    assert_eq!(classify_pkexec_code(130), Some(PolkitFailure::KilledBySignal(2)));
    assert_eq!(classify_pkexec_code(137), Some(PolkitFailure::KilledBySignal(9)));
    assert_eq!(classify_pkexec_code(143), Some(PolkitFailure::KilledBySignal(15)));
    assert_eq!(classify_pkexec_code(0), None);
    assert_eq!(classify_pkexec_code(1), None);
    assert_eq!(classify_pkexec_code(125), None);
    assert_eq!(classify_pkexec_code(128), None);
}

#[test]
fn coalescer_flushes_first_event_per_idle_period() {
    let mut c = Coalescer::new();
    let first = c.on_event(line("A")).expect("first batch");
    assert_eq!(texts(&first), vec!["A"]);
    // The window elapses with nothing gathered.
    assert!(c.on_deadline().is_none());
    let second = c.on_event(line("B")).expect("second batch");
    assert_eq!(texts(&second), vec!["B"]);
}

#[test]
fn coalescer_bursts_coalesce_after_first() {
    let mut c = Coalescer::new();
    let a = c.on_event(line("A")).expect("A batch");
    assert_eq!(a.len(), 1);
    assert!(c.on_event(line("B")).is_none());
    assert!(c.on_event(line("C")).is_none());
    assert!(c.on_event(line("D")).is_none());
    let burst = c.on_deadline().expect("burst batch");
    assert_eq!(texts(&burst), vec!["B", "C", "D"]);
}

#[test]
fn coalescer_sends_a_full_window_early_and_flushes_on_close() {
    let mut c = Coalescer::new();
    assert!(c.on_event(line("first")).is_some());
    let mut sent = Vec::new();
    for i in 0..COALESCE_MAX_EVENTS {
        if let Some(b) = c.on_event(line(&i.to_string())) {
            sent.push(b);
        }
    }
    assert_eq!(sent.len(), 1);
    assert_eq!(sent[0].len(), COALESCE_MAX_EVENTS);
    // After a full window the next event goes out alone again.
    assert_eq!(c.on_event(line("x")).map(|b| b.len()), Some(1));
    assert!(c.on_event(line("y")).is_none());
    assert_eq!(texts(&c.on_close().expect("tail")), vec!["y"]);
}

#[test]
fn last_exit_code_wins() {
    let batch = vec![
        line("a"),
        ProgressEvent::ExitSummary { code: 3, duration_ms: 10 },
        ProgressEvent::ExitSummary { code: 0, duration_ms: 20 },
    ];
    assert_eq!(track_exit(None, &batch), Some(0));
    assert_eq!(track_exit(Some(7), &[line("b")]), Some(7));
}

#[test]
fn completion_outcomes() {
    assert!(completion_result(Some(0), None, ExitClassifier::Standard, String::new()).is_ok());
    assert!(matches!(
        completion_result(None, None, ExitClassifier::Standard, String::new()),
        Err(GuixError::Cancelled)
    ));
    assert!(matches!(
        completion_result(Some(1), Some(KnownBug::ChannelShadow74396), ExitClassifier::Pkexec, String::new()),
        Err(GuixError::KnownBug(KnownBug::ChannelShadow74396))
    ));
    match completion_result(Some(126), None, ExitClassifier::Pkexec, "tail".into()) {
        Err(GuixError::Polkit { kind, code, stderr_tail }) => {
            assert_eq!(kind, PolkitFailure::AuthFailed);
            assert_eq!(code, 126);
            assert_eq!(stderr_tail, "tail");
        }
        other => panic!("unexpected {other:?}"),
    }
    match completion_result(Some(126), None, ExitClassifier::Standard, "tail".into()) {
        Err(GuixError::OperationFailed { code, stderr_tail }) => {
            assert_eq!(code, 126);
            assert_eq!(stderr_tail, "tail");
        }
        other => panic!("unexpected {other:?}"),
    }
}

#[test]
fn status_code_prefers_exit_then_signal() {
    assert_eq!(status_code(Some(3), Some(9)), 3);
    assert_eq!(status_code(None, Some(9)), 137);
    assert_eq!(status_code(None, None), -1);
}

#[test]
fn full_window_closes_it() {
    let ev = || libguix::types::ProgressEvent::Line {
        stream: libguix::types::ProgressStream::Stdout,
        text: "x".into(),
        redraw: false,
    };
    let mut c = libguix::operation::Coalescer::new();
    assert!(c.on_event(ev()).is_some());
    for _ in 0..libguix::operation::COALESCE_MAX_EVENTS - 1 {
        assert!(c.on_event(ev()).is_none());
        assert!(c.windowing);
    }
    let full = c.on_event(ev()).expect("full window is sent");
    assert_eq!(full.len(), libguix::operation::COALESCE_MAX_EVENTS);
    assert!(!c.windowing);
    assert_eq!(c.on_event(ev()).map(|b| b.len()), Some(1));
}
