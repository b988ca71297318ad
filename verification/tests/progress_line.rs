use libguix::progress_line::{is_channel_shadow_line, parse_line, parse_size_to_bytes};
use libguix::types::{KnownBug, ProgressEvent, ProgressStream};

fn parse(stream: ProgressStream, text: &str) -> ProgressEvent {
    parse_line(stream, text, false)
}

fn shadow(s: &str) -> bool {
    let cs: Vec<char> = s.chars().collect();
    is_channel_shadow_line(&cs)
}

#[test]
fn substitute_lookup_basic() {
    let evt = parse(
        ProgressStream::Stderr,
        "substitute: looking for substitutes on 'https://ci.example'... 50.0%",
    );
    match evt {
        ProgressEvent::SubstituteLookup { url, percent } => {
            assert_eq!(url, "https://ci.example");
            let p: f32 = percent.parse().unwrap();
            assert!((p - 50.0).abs() < f32::EPSILON);
        }
        other => panic!("expected SubstituteLookup, got {other:?}"),
    }
}

#[test]
fn substitute_lookup_with_repeated_prefix() {
    let evt = parse(
        ProgressStream::Stderr,
        "substitute: substitute: looking for substitutes on 'https://x.example'... 100.0%",
    );
    assert!(matches!(evt, ProgressEvent::SubstituteLookup { .. }));
}

#[test]
fn would_download_parses_bytes() {
    let evt = parse(ProgressStream::Stdout, "0.1 MB would be downloaded:");
    match evt {
        ProgressEvent::WouldDownload { bytes, .. } => assert_eq!(bytes, 100_000),
        other => panic!("expected WouldDownload, got {other:?}"),
    }
}

#[test]
fn would_built_parses_bytes() {
    let evt = parse(ProgressStream::Stdout, "12.0 MB would be built:");
    match evt {
        ProgressEvent::WouldBuild { bytes, .. } => assert_eq!(bytes, 12_000_000),
        other => panic!("expected WouldBuild, got {other:?}"),
    }
}

#[test]
fn store_path_indented_recognised() {
    let evt = parse(ProgressStream::Stdout, "  /gnu/store/ab584kfyc7pymc1cmdrkwzz3lwv86yf6-hello-2.12.3");
    match evt {
        ProgressEvent::StorePathListed { path } => assert!(path.starts_with("/gnu/store/")),
        other => panic!("expected StorePathListed, got {other:?}"),
    }
}

#[test]
fn build_start_done_failed() {
    let s = parse(ProgressStream::Stderr, "building /gnu/store/abc-foo.drv");
    assert!(matches!(s, ProgressEvent::BuildStart { .. }));
    let d = parse(ProgressStream::Stderr, "successfully built /gnu/store/abc-foo.drv");
    assert!(matches!(d, ProgressEvent::BuildDone { .. }));
    let f = parse(ProgressStream::Stderr, "build of /gnu/store/abc-foo.drv failed");
    match f {
        ProgressEvent::BuildFailed { drv, log_path } => {
            assert!(drv.ends_with("foo.drv"));
            assert!(log_path.is_none());
        }
        other => panic!("expected BuildFailed, got {other:?}"),
    }
}

#[test]
fn build_with_trailing_garbage_falls_through() {
    let e = parse(ProgressStream::Stderr, "building /gnu/store/abc-foo.drv: cached");
    match e {
        ProgressEvent::Line { text, redraw, .. } => {
            assert!(text.contains(": cached"));
            assert!(!redraw, "default-parse path uses redraw=false");
        }
        other => panic!("expected Line passthrough, got {other:?}"),
    }
}

#[test]
fn pull_computing_derivation() {
    let e = parse(ProgressStream::Stderr, "Computing Guix derivation for 'x86_64-linux'...");
    match e {
        ProgressEvent::PullComputingDerivation { system } => assert_eq!(system, "x86_64-linux"),
        other => panic!("expected PullComputingDerivation, got {other:?}"),
    }
}

#[test]
fn dryrun_header() {
    let e = parse(ProgressStream::Stdout, "The following package would be installed:");
    assert!(matches!(e, ProgressEvent::DryRunHeader { .. }));
}

#[test]
fn unknown_falls_through_to_line() {
    let e = parse(ProgressStream::Stderr, "this is something we do not parse");
    match e {
        ProgressEvent::Line { stream, text, .. } => {
            assert!(matches!(stream, ProgressStream::Stderr));
            assert!(text.contains("we do not parse"));
        }
        other => panic!("expected Line passthrough, got {other:?}"),
    }
}

#[test]
fn unknown_line_carries_redraw_flag_through() {
    let e = parse_line(ProgressStream::Stdout, "5% [###]", true);
    match e {
        ProgressEvent::Line { redraw, text, .. } => {
            assert!(redraw, "redraw bit must reach Line");
            assert_eq!(text, "5% [###]");
        }
        other => panic!("expected Line, got {other:?}"),
    }
    let e = parse_line(ProgressStream::Stdout, "5% [###]", false);
    match e {
        ProgressEvent::Line { redraw, .. } => assert!(!redraw),
        other => panic!("expected Line, got {other:?}"),
    }
}

#[test]
fn size_parser_variants() {
    assert_eq!(parse_size_to_bytes("0.1 MB"), Some(100_000));
    assert_eq!(parse_size_to_bytes("1.5 GB"), Some(1_500_000_000));
    assert_eq!(parse_size_to_bytes("128 KB"), Some(128_000));
    assert_eq!(parse_size_to_bytes("42 bytes"), Some(42));
    assert_eq!(parse_size_to_bytes("nope"), None);
}

#[test]
fn channel_shadow_matches_bare_line() {
    let e = parse(ProgressStream::Stderr, "no code for module (some-channel mod)");
    assert!(matches!(e, ProgressEvent::KnownBug(KnownBug::ChannelShadow74396)));
}

#[test]
fn channel_shadow_matches_prefixed_line() {
    let e = parse(
        ProgressStream::Stderr,
        "ice-9/boot-9.scm:1685:16: no code for module (px packages libguix)",
    );
    assert!(matches!(e, ProgressEvent::KnownBug(KnownBug::ChannelShadow74396)));
}

#[test]
fn channel_shadow_does_not_match_unrelated_lines() {
    let cases = [
        "no code for the module (foo bar)",
        "no code for module ()",
        "loaded module (some-channel mod)",
        "guix system: error: failed to build derivation",
        "",
    ];
    for c in cases {
        let e = parse(ProgressStream::Stderr, c);
        assert!(!matches!(e, ProgressEvent::KnownBug(_)), "false positive on {c:?}: {e:?}");
    }
}

#[test]
fn channel_shadow_rejects_whitespace_only_parens() {
    let cases = [
        "no code for module (   )",
        "no code for module (\t)",
        "no code for module ( )",
        "guix prefix no code for module (\t   \t)",
    ];
    for c in cases {
        assert!(!shadow(c), "whitespace-only parens must not match: {c:?}");
    }
    assert!(shadow("no code for module (x)"));
}

#[test]
fn size_parser_exact_decimals() {
    assert_eq!(parse_size_to_bytes("2.5 KiB"), None);
    assert_eq!(parse_size_to_bytes("0.001 KB"), Some(1));
    assert_eq!(parse_size_to_bytes("3 MB"), Some(3_000_000));
}
