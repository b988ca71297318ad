use libguix::discover::{
    candidate_paths, check_version_line, first_line, looks_like_release_version, release_version_at_least,
    resolve_binary,
};
use libguix::error::GuixError;

#[test]
fn release_compare() {
    assert_eq!(release_version_at_least("1.4.0", "1.4.0"), Some(true));
    assert_eq!(release_version_at_least("1.4.1", "1.4.0"), Some(true));
    assert_eq!(release_version_at_least("2.0.0", "1.4.0"), Some(true));
    assert_eq!(release_version_at_least("1.3.0", "1.4.0"), Some(false));
}

#[test]
fn release_compare_malformed_returns_none() {
    assert_eq!(release_version_at_least("1.foo", "1.4.0"), None);
    assert_eq!(release_version_at_least("foo.bar", "1.4.0"), None);
}

#[test]
fn looks_like_release() {
    assert!(looks_like_release_version("1.4.0"));
    assert!(!looks_like_release_version("fc27102e8acb19"));
}

#[test]
fn old_release_is_refused_and_commit_builds_pass() {
    match check_version_line("guix (GNU Guix) 1.3.0") {
        Err(GuixError::VersionUnsupported { found, min }) => {
            assert_eq!(found, "1.3.0");
            assert!(min.contains("2025-05-01"));
        }
        other => panic!("unexpected {other:?}"),
    }
    assert!(check_version_line("guix (GNU Guix) 1.4.0").is_ok());
    assert!(check_version_line("guix (GNU Guix) fc27102e8acb19").is_ok());
}

#[test]
fn first_line_of_output() {
    assert_eq!(first_line(b"guix (GNU Guix) 1.4.0\r\nCopyright\n"), "guix (GNU Guix) 1.4.0");
    assert_eq!(first_line(b"single"), "single");
}

#[test]
fn binary_resolution_picks_first_usable() {
    let c = vec!["/a/guix".to_string(), "/b/guix".to_string(), "/c/guix".to_string()];
    assert_eq!(resolve_binary(&c, &[false, true, true]).unwrap(), "/b/guix");
    match resolve_binary(&c, &[false, false, false]) {
        Err(GuixError::Spawn(e)) => assert!(e.to_string().contains("/a/guix, /b/guix, /c/guix"), "{e}"),
        other => panic!("unexpected {other:?}"),
    }
}

#[test]
fn candidates_in_order() {
    let paths = vec!["/usr/bin".to_string(), "/bin/".to_string()];
    assert_eq!(
        candidate_paths(Some("/p"), Some("/home/me"), &paths),
        vec![
            "/p/bin/guix",
            "/home/me/.config/guix/current/bin/guix",
            "/run/current-system/profile/bin/guix",
            "/usr/bin/guix",
            "/bin/guix",
        ]
    );
    assert_eq!(candidate_paths(None, None, &Vec::new()), vec!["/run/current-system/profile/bin/guix"]);
}

#[test]
fn not_found_message_names_every_candidate() {
    let c = vec!["/a/guix".to_string(), "/b/guix".to_string()];
    assert_eq!(
        libguix::discover::binary_not_found_message(&c),
        "could not find a `guix` binary in any of: /a/guix, /b/guix"
    );
    assert_eq!(libguix::discover::binary_not_found_message(&[]), "could not find a `guix` binary in any of: ");
    match resolve_binary(&c, &[false, false]) {
        Err(GuixError::Spawn(e)) => {
            assert_eq!(e.kind(), std::io::ErrorKind::NotFound);
            assert_eq!(e.to_string(), "could not find a `guix` binary in any of: /a/guix, /b/guix");
        }
        other => panic!("unexpected {other:?}"),
    }
}
