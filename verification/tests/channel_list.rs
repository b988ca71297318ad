use libguix::channel_list::{channels_from_output, describe_args, parse_channels, parse_channels_list, ChannelsList};

const DESCRIBE: &str = r#"(list (channel
        (name 'pantherx)
        (url "https://codeberg.org/gofranz/panther.git")
        (branch "master")
        (commit
          "d7dd8f5d95ad0c8ba6ca0928cf6627e8ad39a31c")
        (introduction
          (make-channel-introduction
            "54b4056ac571611892c743b65f4c47dc298c49da"
            (openpgp-fingerprint
              "A36A D41E ECC7 A871 1003  5D24 524F EB1A 9D33 C9CB"))))
      (channel
        (name 'guix)
        (url "https://git.savannah.gnu.org/git/guix.git")
        (branch "master")
        (commit
          "0123456789abcdef0123456789abcdef01234567")
        (introduction
          (make-channel-introduction
            "9edb3f66fd807b096b48283debdcddccfea34bad"
            (openpgp-fingerprint
              "BBB0 2DDF 2CEA F6A8 0D1D  E643 A2A0 6DF2 A33A 54FA"))))
      (channel
        (name 'nonguix)
        (url "https://gitlab.com/nonguix/nonguix")
        (branch "master")))
"#;

#[test]
fn parses_channels_fixture() {
    let chans = parse_channels(DESCRIBE).unwrap();
    assert_eq!(chans.len(), 3);
    assert_eq!(chans[0].name, "pantherx");
    assert_eq!(chans[0].url, "https://codeberg.org/gofranz/panther.git");
    assert_eq!(chans[0].branch.as_deref(), Some("master"));
    assert_eq!(chans[0].commit.as_deref(), Some("d7dd8f5d95ad0c8ba6ca0928cf6627e8ad39a31c"));
    assert_eq!(
        chans[0].introduction_commit.as_deref(),
        Some("54b4056ac571611892c743b65f4c47dc298c49da")
    );
    assert!(chans[0].introduction_fingerprint.as_deref().unwrap().starts_with("A36A D41E"));
    assert_eq!(chans[1].name, "guix");
    assert_eq!(chans[2].name, "nonguix");
}

#[test]
fn list_head_yields_explicit() {
    let s = "(list (channel (name 'a) (url \"https://a\")) (channel (name 'b) (url \"https://b\")) (channel (name 'c) (url \"https://c\")))";
    match parse_channels_list(s).unwrap() {
        ChannelsList::Explicit(v) => assert_eq!(v.len(), 3),
        other => panic!("expected Explicit, got {other:?}"),
    }
}

#[test]
fn cons_star_head_yields_with_defaults() {
    let s = "(cons* (channel (name 'pantherx) (url \"https://codeberg.org/gofranz/panther.git\")) %default-channels)";
    match parse_channels_list(s).unwrap() {
        ChannelsList::WithDefaults(v) => {
            assert_eq!(v.len(), 1);
            assert_eq!(v[0].name, "pantherx");
        }
        other => panic!("expected WithDefaults, got {other:?}"),
    }
}

#[test]
fn cons_head_yields_with_defaults() {
    let s = "(cons (channel (name 'pantherx) (url \"https://codeberg.org/gofranz/panther.git\")) %default-channels)";
    match parse_channels_list(s).unwrap() {
        ChannelsList::WithDefaults(v) => {
            assert_eq!(v.len(), 1);
            assert_eq!(v[0].name, "pantherx");
        }
        other => panic!("expected WithDefaults, got {other:?}"),
    }
}

#[test]
fn minimal_channel_only_name_and_url() {
    let s = "(list (channel (name 'guix-pod) (url \"https://example.org/guix-pod.git\")))";
    let chans = parse_channels(s).unwrap();
    assert_eq!(chans.len(), 1);
    assert_eq!(chans[0].name, "guix-pod");
    assert!(chans[0].branch.is_none());
    assert!(chans[0].commit.is_none());
    assert!(chans[0].introduction_commit.is_none());
}

#[test]
fn no_introduction_is_lenient() {
    let s = "(list (channel (name 'bare) (url \"https://example.org/bare.git\") (branch \"main\")))";
    let chans = parse_channels(s).unwrap();
    assert_eq!(chans.len(), 1);
    assert!(chans[0].introduction_commit.is_none());
}

#[test]
fn preamble_use_modules_is_skipped() {
    let s = "(use-modules (guix channels))\n(list (channel (name 'guix) (url \"https://g\")) (channel (name 'nonguix) (url \"https://n\")))";
    match parse_channels_list(s).unwrap() {
        ChannelsList::Explicit(v) => assert_eq!(v.len(), 2),
        other => panic!("expected Explicit, got {other:?}"),
    }
}

#[test]
fn wrapper_form_walks_one_level_in() {
    let s = ";; my channels\n(list (channel-with-substitutes-available (channel (name 'guix) (url \"https://g\")) \"https://ci.guix.gnu.org\")\n      ;; extra\n      (channel (name 'nonguix) (url \"https://n\")))";
    let chans = parse_channels_list(s).unwrap().into_channels();
    assert!(chans.iter().any(|c| c.name == "guix"), "expected wrapped `guix` channel to surface");
    assert!(chans.iter().any(|c| c.name == "nonguix"), "expected `nonguix` channel");
}

#[test]
fn cons_must_end_in_default_channels() {
    assert!(parse_channels_list("(cons* (channel (name 'a) (url \"u\")) other)").is_err());
    assert!(parse_channels_list("(cons (channel (name 'a) (url \"u\")) (channel (name 'b) (url \"v\")) %default-channels)").is_err());
}

#[test]
fn channels_read_from_command_output() {
    let chans = channels_from_output(DESCRIBE.as_bytes()).unwrap();
    assert_eq!(chans.len(), 3);
    assert_eq!(describe_args(None), vec!["describe", "-f", "channels"]);
    assert_eq!(describe_args(Some("/p")), vec!["describe", "-p", "/p", "-f", "channels"]);
}

#[test]
fn value_text_matches_lexpr_debug() {
    for t in ["(a \"b\\\"c\" 1 -2 2.5 #t #f () (x . y) #\\z #:kw)", "\"s\"", "sym", "42", "(1 (2 3) . 4)"] {
        let ours = libguix::sexp::read_sexp(t).unwrap();
        let theirs = lexpr::from_str(t).unwrap();
        assert_eq!(libguix::sexp::sexp_debug_string(&ours), format!("{theirs:?}"), "{t}");
    }
}

#[test]
fn cons_form_with_bad_tail_names_the_tail() {
    let r = parse_channels_list("(cons* (channel (name 'a) (url \"u\")) foo)");
    match r {
        Err(libguix::error::GuixError::Parse(m)) => {
            assert_eq!(m, "channels: cons* form must end in `%default-channels`, got Symbol(\"foo\")")
        }
        other => panic!("unexpected {other:?}"),
    }
}

#[test]
fn forms_are_interpreted_without_rereading() {
    let (forms, err) = libguix::sexp::read_sexps("(use-modules (guix)) (list (channel (name 'x) (url \"u\")))");
    match libguix::channel_list::channels_list_from_forms(&forms, err) {
        Ok(ChannelsList::Explicit(v)) => {
            assert_eq!(v.len(), 1);
            assert_eq!(v[0].name, "x");
            assert_eq!(v[0].url, "u");
        }
        other => panic!("unexpected {other:?}"),
    }
    let none: Vec<libguix::sexp::SExp> = Vec::new();
    match libguix::channel_list::channels_list_from_forms(&none, Some("boom".into())) {
        Err(libguix::error::GuixError::Parse(m)) => assert_eq!(m, "channels: lexpr parse: boom"),
        other => panic!("unexpected {other:?}"),
    }
}
