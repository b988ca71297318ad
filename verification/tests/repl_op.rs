use libguix::repl_op::{build_package_payload, parse_event_sexp, scheme_string_literal, validate_arg, PULL_SCHEME};
use libguix::types::ProgressEvent;

#[test]
fn parses_build_started() {
    let e = parse_event_sexp(r#"(build-started "/gnu/store/abc-foo.drv" "-" "x86_64-linux" "")"#);
    match e {
        Some(ProgressEvent::BuildStart { drv }) => assert_eq!(drv, "/gnu/store/abc-foo.drv"),
        other => panic!("expected BuildStart, got {other:?}"),
    }
}

#[test]
fn parses_build_succeeded() {
    let e = parse_event_sexp(r#"(build-succeeded "/gnu/store/abc-foo.drv")"#);
    assert!(matches!(e, Some(ProgressEvent::BuildDone { .. })));
}

#[test]
fn parses_build_failed() {
    let e = parse_event_sexp(r#"(build-failed "/gnu/store/abc-foo.drv" "1")"#);
    match e {
        Some(ProgressEvent::BuildFailed { drv, log_path }) => {
            assert!(drv.ends_with("foo.drv"));
            assert!(log_path.is_none());
        }
        other => panic!("expected BuildFailed, got {other:?}"),
    }
}

#[test]
fn parses_download_started() {
    let e = parse_event_sexp(r#"(download-started "/gnu/store/xxx" "https://ci/x" "12345")"#);
    match e {
        Some(ProgressEvent::SubstituteDownload { item, bytes_done, bytes_total }) => {
            assert_eq!(item, "/gnu/store/xxx");
            assert_eq!(bytes_done, 0);
            assert_eq!(bytes_total, Some(12345));
        }
        other => panic!("expected SubstituteDownload, got {other:?}"),
    }
}

#[test]
fn parses_download_progress() {
    let e = parse_event_sexp(r#"(download-progress "/gnu/store/xxx" "https://ci/x" "12345" "6789")"#);
    match e {
        Some(ProgressEvent::SubstituteDownload { item, bytes_done, bytes_total }) => {
            assert_eq!(item, "/gnu/store/xxx");
            assert_eq!(bytes_done, 6789);
            assert_eq!(bytes_total, Some(12345));
        }
        other => panic!("expected SubstituteDownload, got {other:?}"),
    }
}

#[test]
fn parses_build_log_unwraps_text() {
    let e = parse_event_sexp(r#"(build-log 4415 "warning: collision\n")"#);
    match e {
        Some(ProgressEvent::Line { text, .. }) => assert_eq!(text, "warning: collision"),
        other => panic!("expected Line, got {other:?}"),
    }
}

#[test]
fn parses_download_succeeded() {
    let e = parse_event_sexp(r#"(download-succeeded "/gnu/store/xxx" "https://ci/x" 12345)"#);
    match e {
        Some(ProgressEvent::SubstituteDownloadDone { item, bytes_total }) => {
            assert_eq!(item, "/gnu/store/xxx");
            assert_eq!(bytes_total, Some(12345));
        }
        other => panic!("expected SubstituteDownloadDone, got {other:?}"),
    }
}

#[test]
fn drops_substituter_events() {
    assert!(parse_event_sexp(r#"(substituter-started "/gnu/store/xxx" "substitute")"#).is_none());
    assert!(parse_event_sexp(r#"(substituter-succeeded "/gnu/store/xxx")"#).is_none());
}

#[test]
fn drops_done_event() {
    assert!(parse_event_sexp("(done 0)").is_none());
    assert!(parse_event_sexp("(done 1)").is_none());
}

#[test]
fn parses_error_event() {
    let e = parse_event_sexp(r#"(error "oh no")"#);
    match e {
        Some(ProgressEvent::Line { text, .. }) => {
            assert!(text.contains("oh no"), "got text: {text}");
            assert!(text.starts_with("error:"));
        }
        other => panic!("expected Line, got {other:?}"),
    }
}

#[test]
fn unknown_event_falls_through_to_line() {
    let e = parse_event_sexp(r#"(some-unknown-tag "/gnu/store/xxx")"#);
    match e {
        Some(ProgressEvent::Line { text, .. }) => {
            assert!(text.contains("some-unknown-tag"));
            assert!(text.starts_with("[repl-op]"));
        }
        other => panic!("expected Line passthrough, got {other:?}"),
    }
}

#[test]
fn malformed_line_falls_through() {
    let e = parse_event_sexp("not actually s-exp )))");
    assert!(matches!(e, Some(ProgressEvent::Line { .. })));
}

#[test]
fn validate_arg_rejects_control_chars() {
    assert!(validate_arg("foo\nbar").is_err());
    assert!(validate_arg("foo\rbar").is_err());
    assert!(validate_arg("foo\0bar").is_err());
    assert!(validate_arg("").is_err());
}

#[test]
fn validate_arg_accepts_normal_names() {
    assert!(validate_arg("hello").is_ok());
    assert!(validate_arg("rust-").is_ok());
    assert!(validate_arg("gcc-toolchain@13").is_ok());
    assert!(validate_arg("a\"b").is_ok());
    assert!(validate_arg("a\\b").is_ok());
}

#[test]
fn scheme_string_literal_escapes() {
    assert_eq!(scheme_string_literal("hello"), "\"hello\"");
    assert_eq!(scheme_string_literal("a\"b"), "\"a\\\"b\"");
    assert_eq!(scheme_string_literal("a\\b"), "\"a\\\\b\"");
}

#[test]
fn build_package_payload_install_shape() {
    let p = build_package_payload(None, &["-i", "hello"]).expect("ok");
    assert!(p.contains("guix-package"));
    assert!(p.contains("\"-i\""));
    assert!(p.contains("\"hello\""));
    assert!(p.contains("call-with-status-verbosity"));
    assert!(!p.contains("\"-p\""));
}

#[test]
fn build_package_payload_rejects_bad_arg() {
    assert!(build_package_payload(None, &["-i", "foo\nbar"]).is_err());
}

#[test]
fn build_package_payload_threads_profile() {
    let p = build_package_payload(Some("/tmp/p"), &["-i", "hello"]).expect("ok");
    let p_idx = p.find("\"-p\"").expect("-p in payload");
    let path_idx = p.find("\"/tmp/p\"").expect("profile path in payload");
    let i_idx = p.find("\"-i\"").expect("-i in payload");
    let hello_idx = p.find("\"hello\"").expect("hello in payload");
    assert!(p_idx < path_idx);
    assert!(path_idx < i_idx);
    assert!(i_idx < hello_idx);
}

#[test]
fn build_package_payload_rejects_bad_profile_path() {
    assert!(build_package_payload(Some("/tmp/p\nx"), &["-i", "hello"]).is_err());
    assert!(build_package_payload(Some("/tmp/p\0x"), &["-i", "hello"]).is_err());
}

#[test]
fn rejected_arg_error_names_the_character() {
    match validate_arg("foo\nbar") {
        Err(libguix::error::GuixError::ReplProtocol { message, .. }) => assert!(message.contains("'\\n'"), "{message}"),
        other => panic!("unexpected {other:?}"),
    }
}

#[test]
fn pull_payload_streams_events() {
    assert!(PULL_SCHEME.contains("guix-pull"));
}

#[test]
fn read_values_decode_to_events() {
    let line = r#"(build-succeeded "/gnu/store/abc-foo.drv")"#;
    let v = libguix::sexp::read_sexp(line).unwrap();
    match libguix::repl_op::event_from_value(&v, line) {
        Some(ProgressEvent::BuildDone { drv }) => assert_eq!(drv, "/gnu/store/abc-foo.drv"),
        other => panic!("unexpected {other:?}"),
    }
    let v = libguix::sexp::read_sexp("(done)").unwrap();
    assert!(libguix::repl_op::event_from_value(&v, "(done)").is_none());
    let v = libguix::sexp::read_sexp("42").unwrap();
    match libguix::repl_op::event_from_value(&v, "42") {
        Some(ProgressEvent::Line { text, .. }) => assert_eq!(text, "[repl-op] 42"),
        other => panic!("unexpected {other:?}"),
    }
}
