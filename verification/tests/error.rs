use libguix::error::{looks_transient, GuixError, PolkitFailure};
use libguix::types::KnownBug;

#[test]
fn transient_operation_failed() {
    let e = GuixError::OperationFailed { code: 1, stderr_tail: "guix substitute: error: Connection timed out".into() };
    assert!(e.is_transient());
}

#[test]
fn ordinary_build_failure_is_not_transient() {
    let e = GuixError::NonZeroExit { code: 1, stderr: "guix build: error: build failed".into() };
    assert!(!e.is_transient());
}

#[test]
fn cancelled_is_not_transient() {
    assert!(!GuixError::Cancelled.is_transient());
}

#[test]
fn polkit_is_not_transient() {
    let e = GuixError::Polkit { kind: PolkitFailure::AuthFailed, code: 126, stderr_tail: "connection refused".into() };
    assert!(!e.is_transient());
}

#[test]
fn match_is_case_insensitive() {
    let e = GuixError::OperationFailed { code: 1, stderr_tail: "CONNECTION REFUSED by substitute server".into() };
    assert!(e.is_transient());
}

#[test]
fn repl_errors_look_at_message_and_tail() {
    let e = GuixError::ReplProtocol { message: "x".into(), stderr_tail: "temporary failure in name resolution".into() };
    assert!(e.is_transient());
    assert!(!GuixError::repl("unbound variable".into()).is_transient());
    assert!(looks_transient("HTTP 502 Bad Gateway"));
    assert!(!looks_transient("no such package"));
}

#[test]
fn messages_read_as_displayed() {
    assert_eq!(GuixError::Parse("bad".into()).message(), "parse error: bad");
    assert_eq!(
        GuixError::NonZeroExit { code: -1, stderr: "boom".into() }.message(),
        "guix exited with code -1: boom"
    );
    assert_eq!(
        GuixError::OperationFailed { code: 1, stderr_tail: String::new() }.message(),
        "operation failed with code 1"
    );
    assert_eq!(
        GuixError::OperationFailed { code: 1, stderr_tail: "t".into() }.message(),
        "operation failed with code 1\n--- recent stderr ---\nt"
    );
    assert_eq!(
        GuixError::Polkit { kind: PolkitFailure::KilledBySignal(9), code: 137, stderr_tail: String::new() }.message(),
        "polkit failure: KilledBySignal(9) (code 137)"
    );
    assert_eq!(
        GuixError::KnownBug(KnownBug::ChannelShadow74396).message(),
        "hit known guix bug: ChannelShadow74396 \u{2014} see https://issues.guix.gnu.org/74396"
    );
    let io = std::io::Error::new(std::io::ErrorKind::NotFound, "gone");
    assert_eq!(GuixError::Spawn(io).message(), "failed to spawn guix subprocess: gone");
}
