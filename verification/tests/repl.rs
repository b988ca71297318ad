use libguix::repl::{classify, on_frame, wrap_expr, EvalMode, FrameKind, FrameStep, StderrRing, STDERR_RING_BYTES};
use libguix::sexp::read_sexp;

#[test]
fn classify_banner() {
    let v = read_sexp("(repl-version 0 1 1)").unwrap();
    assert!(matches!(classify(v), FrameKind::Banner));
}

#[test]
fn classify_non_self_quoting() {
    let v = read_sexp("(values (non-self-quoting 2052 \"#<unspecified>\"))").unwrap();
    assert!(matches!(classify(v), FrameKind::NonSelfQuoting));
}

#[test]
fn classify_value() {
    let v = read_sexp("(values (value ((\"hello\" \"2.12.3\" \"x\"))))").unwrap();
    match classify(v) {
        FrameKind::Value(payload) => {
            assert!(payload.list_iter().is_some());
        }
        _ => panic!("expected Value"),
    }
}

#[test]
fn classify_exception_wrapper() {
    let v = read_sexp("(values (value (exception \"oh no\")))").unwrap();
    match classify(v) {
        FrameKind::Exception(m) => assert_eq!(m, "oh no"),
        _ => panic!("expected Exception"),
    }
}

#[test]
fn classify_bare_exception() {
    let v = read_sexp("(exception \"boom\")").unwrap();
    match classify(v) {
        FrameKind::Exception(m) => assert_eq!(m, "boom"),
        _ => panic!("expected Exception"),
    }
}

#[test]
fn classify_zero_hits_empty_list() {
    let v = read_sexp("(values (value ()))").unwrap();
    match classify(v) {
        FrameKind::Value(payload) => {
            assert!(payload.is_null() || payload.list_iter().is_some());
        }
        FrameKind::Empty => {}
        _ => panic!("expected Value(Null) or Empty"),
    }
}

#[test]
fn wrap_expr_includes_fresh_module() {
    let w = wrap_expr(EvalMode::Fresh, &["(gnu packages)".into()], "(+ 1 2)");
    assert!(w.contains("make-module"));
    assert!(w.contains("beautify-user-module!"));
    assert!(w.contains("resolve-interface"));
    assert!(w.contains("(gnu packages)"));
    assert!(w.contains("eval"));
    assert!(w.contains("(+ 1 2)"));
}

#[test]
fn wrap_expr_toggles_in_eval_flag_via_dynamic_wind() {
    let w = wrap_expr(EvalMode::Fresh, &[], "(+ 1 2)");
    assert!(w.contains("dynamic-wind"), "missing dynamic-wind: {w}");
    assert!(w.contains("(set! %guix-rs-in-eval? #t)"), "missing in-eval set: {w}");
    assert!(w.contains("(set! %guix-rs-in-eval? #f)"), "missing in-eval clear: {w}");
    let weh = w.find("with-exception-handler").expect("weh");
    let dw = w.find("dynamic-wind").expect("dw");
    assert!(weh < dw, "dynamic-wind must be inside with-exception-handler: {w}");
}

#[test]
fn wrap_expr_quotes_form_without_extra_parens() {
    let w = wrap_expr(EvalMode::Fresh, &[], "(+ 1 2)");
    assert!(w.contains("'(+ 1 2)"));
    assert!(!w.contains("'((+ 1 2))"));
}

#[test]
fn wrap_expr_omits_for_each_when_no_modules() {
    let w = wrap_expr(EvalMode::Fresh, &[], "(+ 1 2)");
    assert!(!w.contains("for-each"));
    assert!(w.contains("(+ 1 2)"));
}

#[test]
fn wrap_expr_persistent_targets_named_module() {
    let w = wrap_expr(EvalMode::Persistent, &[], "(+ 1 2)");
    assert!(w.contains("%libguix-rs-module"), "missing persistent namespace: {w}");
    assert!(!w.contains("make-module"), "persistent mode must not allocate a fresh module: {w}");
}

#[test]
fn stderr_ring_caps_at_limit() {
    let mut r = StderrRing::new();
    for _ in 0..(STDERR_RING_BYTES / 16 + 1024) {
        r.push_line("0123456789ABCDEF");
    }
    let snap = r.snapshot();
    assert!(snap.len() <= STDERR_RING_BYTES);
    assert!(!snap.is_empty());
}

#[test]
fn stderr_ring_rolls_at_cap() {
    let mut r = StderrRing::new();
    for _ in 0..2000 {
        r.push(b"0123456789ABCDEF0123456789ABCDEF\n");
    }
    let snap = r.snapshot();
    assert!(snap.len() <= STDERR_RING_BYTES);
    assert!(snap.ends_with("0123456789ABCDEF\n"));
}

#[test]
fn stderr_ring_keeps_everything_under_the_cap() {
    let mut r = StderrRing::new();
    r.push(b"abc");
    r.push(b"def");
    assert_eq!(r.snapshot(), "abcdef");
    assert_eq!(r.len(), 6);
}

#[test]
fn frame_loop_skips_banner_and_reads_value() {
    let (w, step) = on_frame(0, "(repl-version 0 1 1)");
    assert_eq!(w, 1);
    assert!(matches!(step, FrameStep::Skip));
    let (w, step) = on_frame(w, "(values (value 42))");
    assert_eq!(w, 2);
    match step {
        FrameStep::Value(v) => assert_eq!(v.as_u64(), Some(42)),
        other => panic!("unexpected {other:?}"),
    }
}

#[test]
fn frame_loop_reports_exceptions_and_unreadable_frames() {
    match on_frame(0, "(values (value (exception \"bad\")))").1 {
        FrameStep::Fail(m) => assert_eq!(m, "guile exception: bad"),
        other => panic!("unexpected {other:?}"),
    }
    match on_frame(0, "(unclosed").1 {
        FrameStep::Fail(m) => {
            assert!(m.starts_with("frame parse: "), "{m}");
            assert!(m.ends_with("; raw: \"(unclosed\""), "{m}");
        }
        other => panic!("unexpected {other:?}"),
    }
    assert!(matches!(on_frame(0, "(values)").1, FrameStep::Null));
}

#[test]
fn frame_loop_gives_up_after_too_many_frames() {
    let (w, step) = on_frame(libguix::repl::MAX_REPLY_FRAMES, "(values (value 1))");
    assert_eq!(w, libguix::repl::MAX_REPLY_FRAMES + 1);
    match step {
        FrameStep::Fail(m) => assert_eq!(m, "too many frames waiting for reply"),
        other => panic!("unexpected {other:?}"),
    }
}

#[test]
fn frame_step_decides_on_read_values() {
    let v = read_sexp("(repl-version 0 1 1)").unwrap();
    assert!(matches!(libguix::repl::frame_step(v), FrameStep::Skip));
    let v = read_sexp("(values (value 42))").unwrap();
    match libguix::repl::frame_step(v) {
        FrameStep::Value(p) => assert_eq!(p.as_u64(), Some(42)),
        other => panic!("unexpected {other:?}"),
    }
}
