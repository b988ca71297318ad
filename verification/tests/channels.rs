use libguix::channel_list::ChannelsList;
use libguix::channels::{
    apply_form, channel_to_sexp, default_channels_path, interpret_response, is_valid_channel_name,
    resolves_into_store, scheme_quote_string, symlink_refusal, validate_branch, validate_form,
    validate_introduction_commit, validate_introduction_fingerprint, validate_url, write_precheck,
    ChannelOp, ChannelsError, ChannelsFile,
};
use libguix::error::GuixError;
use libguix::sexp::read_sexp;
use libguix::types::Channel;

fn channel(name: &str) -> Channel {
    Channel {
        name: name.into(),
        url: format!("https://example.org/{name}.git"),
        branch: None,
        commit: None,
        introduction_commit: Some("abcdef0123".into()),
        introduction_fingerprint: Some("AABB CCDD".into()),
    }
}

#[test]
fn seed_yields_empty_writable_non_store_defaults() {
    let p = "/tmp/some-dir/channels.scm".to_string();
    let cf = ChannelsFile::seed(p.clone(), false).expect("seed");
    assert_eq!(cf.raw, "(cons* %default-channels)");
    assert!(cf.list.channels().is_empty(), "seed has no custom channels");
    assert!(!cf.is_store_managed, "tempdir seed must not be store-managed");
    assert!(cf.is_writable());
    assert_eq!(cf.path, p);
}

#[test]
fn seed_none_resolves_default_path() {
    let cf = ChannelsFile::seed(default_channels_path("/home/me"), false).expect("seed");
    assert!(cf.path.ends_with(".config/guix/channels.scm"));
    assert_eq!(cf.path, "/home/me/.config/guix/channels.scm");
    assert!(cf.list.channels().is_empty());
}

#[test]
fn quote_string_escapes_backslash_and_quote() {
    assert_eq!(scheme_quote_string("a\\b\"c"), r#""a\\b\"c""#);
}

#[test]
fn channel_to_sexp_includes_optional_fields() {
    let ch = Channel {
        name: "foo".into(),
        url: "https://example/foo.git".into(),
        branch: Some("master".into()),
        commit: Some("deadbeef".into()),
        introduction_commit: Some("intro-commit".into()),
        introduction_fingerprint: Some("AA BB".into()),
    };
    let s = channel_to_sexp(&ch);
    assert!(s.contains("(name 'foo)"));
    assert!(s.contains("(url \"https://example/foo.git\")"));
    assert!(s.contains("(branch \"master\")"));
    assert!(s.contains("(commit \"deadbeef\")"));
    assert!(s.contains("(introduction"));
    assert!(s.contains("\"AA BB\""));
}

#[test]
fn channel_to_sexp_omits_missing_optionals() {
    let ch = Channel {
        name: "foo".into(),
        url: "https://example/foo.git".into(),
        branch: None,
        commit: None,
        introduction_commit: None,
        introduction_fingerprint: None,
    };
    let s = channel_to_sexp(&ch);
    assert!(!s.contains("branch"));
    assert!(!s.contains("commit"));
    assert!(!s.contains("introduction"));
}

#[test]
fn is_valid_channel_name_accepts_scheme_safe() {
    assert!(is_valid_channel_name("good-name_1.2"));
    assert!(is_valid_channel_name("guix"));
    assert!(is_valid_channel_name("non+guix"));
}

#[test]
fn is_valid_channel_name_rejects_pathological() {
    assert!(!is_valid_channel_name(""));
    assert!(!is_valid_channel_name("bad name"));
    assert!(!is_valid_channel_name("nope;(drop)"));
    assert!(!is_valid_channel_name("with/slash"));
}

#[test]
fn validate_url_accepts_known_schemes() {
    assert!(validate_url("https://example.org/foo.git").is_ok());
    assert!(validate_url("http://example.org/foo.git").is_ok());
    assert!(validate_url("git://example.org/foo.git").is_ok());
    assert!(validate_url("ssh://git@example.org/foo.git").is_ok());
    assert!(validate_url("file:///srv/repos/foo.git").is_ok());
}

#[test]
fn validate_url_rejects_unknown_scheme() {
    let err = validate_url("javascript:alert(1)").unwrap_err();
    assert!(matches!(err, ChannelsError::Invalid { field, .. } if field == "url"));
}

#[test]
fn validate_url_rejects_control_chars() {
    assert!(validate_url("https://example.org/foo\nbar").is_err());
    assert!(validate_url("https://example.org/foo\0bar").is_err());
    assert!(validate_url("https://example.org/foo\u{7f}bar").is_err());
}

#[test]
fn validate_url_rejects_deceptive_unicode() {
    assert!(validate_url("https://example.org/foo\u{202E}bar").is_err());
    assert!(validate_url("https://example.org/\u{200B}example.com").is_err());
    assert!(validate_url("https://example.org/\u{2028}").is_err());
    assert!(validate_url("https://example.org/foo\u{00AD}bar").is_err());
}

#[test]
fn validate_url_rejects_over_length() {
    let mut s = String::from("https://example.org/");
    s.push_str(&"a".repeat(2048));
    assert!(validate_url(&s).is_err());
}

#[test]
fn validate_branch_accepts_typical_names() {
    assert!(validate_branch("master").is_ok());
    assert!(validate_branch("release/1.2.3").is_ok());
    assert!(validate_branch("feature/foo-bar_baz+x").is_ok());
}

#[test]
fn validate_branch_rejects_bad_chars() {
    assert!(validate_branch("").is_err());
    assert!(validate_branch("bad name").is_err());
    assert!(validate_branch("bad;name").is_err());
    assert!(validate_branch("bad\nname").is_err());
    assert!(validate_branch(&"x".repeat(201)).is_err());
}

#[test]
fn validate_introduction_commit_accepts_hex() {
    assert!(validate_introduction_commit("abcdef0").is_ok());
    assert!(validate_introduction_commit(&"a".repeat(64)).is_ok());
    assert!(validate_introduction_commit("DEADBEEF").is_ok());
}

#[test]
fn validate_introduction_commit_rejects_non_hex_or_bad_length() {
    assert!(validate_introduction_commit("xyz1234").is_err());
    assert!(validate_introduction_commit("abc").is_err());
    assert!(validate_introduction_commit(&"a".repeat(65)).is_err());
    assert!(validate_introduction_commit("dead beef").is_err());
}

#[test]
fn validate_introduction_fingerprint_accepts_hex_with_spaces() {
    assert!(validate_introduction_fingerprint("AABBCCDD").is_ok());
    assert!(validate_introduction_fingerprint("AA BB CC DD EE FF").is_ok());
    assert!(validate_introduction_fingerprint("BBB0 2EA2 96C4 B96B 8BA8  5DEA 16CD AC4F 0386 5722").is_ok());
}

#[test]
fn validate_introduction_fingerprint_rejects_non_hex_or_bad_length() {
    assert!(validate_introduction_fingerprint("nothex!").is_err());
    assert!(validate_introduction_fingerprint("AA").is_err());
    assert!(validate_introduction_fingerprint(&"A".repeat(129)).is_err());
    assert!(validate_introduction_fingerprint("AA\nBB CC DD").is_err());
}

#[test]
fn resolves_into_store_detects_dangling_store_link() {
    assert!(resolves_into_store(
        "/tmp/x/channels.scm",
        Some("/gnu/store/00000000000000000000000000000000-channels/channels.scm"),
    ));
}

#[test]
fn resolves_into_store_false_for_regular_file() {
    assert!(!resolves_into_store("/tmp/x/channels.scm", None));
    assert!(!resolves_into_store("/tmp/x/channels.scm", Some("dotfiles/channels.scm")));
}

#[test]
fn backup_path_is_always_scm_bak() {
    let mk = |path: &str| ChannelsFile {
        path: path.to_string(),
        list: ChannelsList::Explicit(Vec::new()),
        raw: String::new(),
        is_store_managed: false,
    };
    assert_eq!(mk("/tmp/channels.scm").backup_path(), "/tmp/channels.scm.bak");
    assert_eq!(mk("/tmp/channels").backup_path(), "/tmp/channels.scm.bak");
    assert_eq!(mk("/tmp/foo.txt").backup_path(), "/tmp/foo.scm.bak");
}

#[test]
fn relative_link_into_store_is_detected() {
    assert!(resolves_into_store("/gnu/store/abc-home/channels.scm", Some("channels-real.scm")));
}

#[test]
fn store_managed_file_refuses_writes() {
    let cf = ChannelsFile::seed("/home/me/.config/guix/channels.scm".into(), true).unwrap();
    assert!(!cf.is_writable());
    match write_precheck(&cf) {
        Err(ChannelsError::StoreManaged { path }) => assert_eq!(path, "/home/me/.config/guix/channels.scm"),
        other => panic!("unexpected {other:?}"),
    }
    let ok = ChannelsFile::seed("/tmp/c.scm".into(), false).unwrap();
    assert!(write_precheck(&ok).is_ok());
}

#[test]
fn preflight_rejects_duplicates_and_missing_introductions() {
    let cf = ChannelsFile::from_source(
        "/tmp/c.scm".into(),
        "(cons* (channel (name 'foo) (url \"https://example.org/foo.git\")) %default-channels)".into(),
        false,
    )
    .unwrap();
    assert_eq!(cf.list.channels().len(), 1);
    assert!(matches!(
        cf.preflight(&ChannelOp::AddChannel(channel("foo"))),
        Err(ChannelsError::DuplicateName { .. })
    ));
    let mut bare = channel("bar");
    bare.introduction_fingerprint = None;
    assert!(matches!(
        cf.preflight(&ChannelOp::AddChannel(bare)),
        Err(ChannelsError::MissingIntroduction { .. })
    ));
    assert!(matches!(
        cf.preflight(&ChannelOp::AddChannel(channel("bad name"))),
        Err(ChannelsError::InvalidName { .. })
    ));
    assert!(cf.preflight(&ChannelOp::AddChannel(channel("bar"))).is_ok());
    assert!(matches!(
        cf.preflight(&ChannelOp::RemoveChannelByName("nope".into())),
        Err(ChannelsError::NotFound { .. })
    ));
    assert!(cf.preflight(&ChannelOp::RemoveChannelByName("foo".into())).is_ok());
}

#[test]
fn response_of_the_helper_is_read() {
    let ok = read_sexp("(ok \"(list)\")").unwrap();
    assert_eq!(interpret_response(&ok).unwrap(), "(list)");
    let err = read_sexp("(error parse-error \"bad\" 3 4)").unwrap();
    match interpret_response(&err) {
        Err(ChannelsError::ParseError { message, line, column }) => {
            assert_eq!(message, "bad");
            assert_eq!(line, Some(3));
            assert_eq!(column, Some(4));
        }
        other => panic!("unexpected {other:?}"),
    }
}

#[test]
fn forms_quote_their_source() {
    let f = validate_form("(list)");
    assert!(f.contains("\"(list)\""));
    let a = apply_form("(list)", &ChannelOp::RemoveChannelByName("foo".into()));
    assert!(a.starts_with("(libguix-rs:apply-channel-op \"(list)\" '"), "{a}");
}

#[test]
fn error_messages_read_as_displayed() {
    let e = ChannelsError::ParseError { message: "oops".into(), line: Some(2), column: Some(5) };
    assert_eq!(e.message(), "parse error at 2:5: oops");
    let e = ChannelsError::DuplicateName { name: "foo".into() };
    assert_eq!(e.message(), "channel `foo` already exists");
    let e = ChannelsError::Guix(GuixError::Cancelled);
    assert_eq!(e.message(), "operation cancelled");
    let e = symlink_refusal("/home/me/channels.scm");
    assert_eq!(
        e.message(),
        "invalid path: /home/me/channels.scm is a symlink; refusing to replace it. Resolve or remove the link first."
    );
}

#[test]
fn malformed_responses_carry_the_value_text() {
    let v = read_sexp("\"hi\"").unwrap();
    match interpret_response(&v) {
        Err(ChannelsError::ParseError { message, .. }) => assert_eq!(message, "response is not a list: String(\"hi\")"),
        other => panic!("unexpected {other:?}"),
    }
    let v = read_sexp("(1 2)").unwrap();
    match interpret_response(&v) {
        Err(ChannelsError::ParseError { message, .. }) => assert_eq!(
            message,
            "response missing head: Cons((Number(PosInt(1)) . Cons((Number(PosInt(2)) . Null))))"
        ),
        other => panic!("unexpected {other:?}"),
    }
    let v = read_sexp("()").unwrap();
    match interpret_response(&v) {
        Err(ChannelsError::ParseError { message, .. }) => assert_eq!(message, "response missing head: Null"),
        other => panic!("unexpected {other:?}"),
    }
    let v = read_sexp("(ok #t)").unwrap();
    match interpret_response(&v) {
        Err(ChannelsError::ParseError { message, .. }) => assert_eq!(message, "ok payload not a string: Bool(true)"),
        other => panic!("unexpected {other:?}"),
    }
    let v = read_sexp("(weird -3)").unwrap();
    match interpret_response(&v) {
        Err(ChannelsError::ParseError { message, .. }) => assert_eq!(
            message,
            "unexpected response head `weird`: Cons((Symbol(\"weird\") . Cons((Number(NegInt(-3)) . Null))))"
        ),
        other => panic!("unexpected {other:?}"),
    }
}

#[test]
fn written_channel_reads_back() {
    let mut ch = channel("foo");
    ch.branch = Some("main".into());
    ch.commit = Some("abc".into());
    ch.introduction_commit = Some("0123".into());
    ch.introduction_fingerprint = Some("AAAA BBBB".into());
    let text = format!("(list {})", channel_to_sexp(&ch));
    match libguix::channel_list::parse_channels_list(&text) {
        Ok(ChannelsList::Explicit(v)) => assert_eq!(v, vec![ch]),
        other => panic!("unexpected {other:?}"),
    }
}
