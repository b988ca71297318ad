use libguix::error::GuixError;
use libguix::gc::{gc_args, ByteSize, GcOptions};
use libguix::retry::RetryPolicy;

#[test]
fn gc_args_in_order() {
    let o = GcOptions { free_space: Some(ByteSize::megabytes(5)), delete_unused_after_secs: Some(86400), verify: true };
    assert_eq!(gc_args(&o), vec!["gc", "-F5000000", "--delete-generations=86400s", "--verify"]);
    let bare = GcOptions { free_space: None, delete_unused_after_secs: None, verify: false };
    assert_eq!(gc_args(&bare), vec!["gc"]);
    assert_eq!(ByteSize::gigabytes(2).as_bytes(), 2_000_000_000);
    assert_eq!(ByteSize::bytes(7).as_bytes(), 7);
}

#[test]
fn retries_only_transient_failures_while_backoffs_remain() {
    let p = RetryPolicy::installer_default();
    assert_eq!(p.backoffs, vec![0, 60, 300]);
    let transient = GuixError::OperationFailed { code: 1, stderr_tail: "connection reset by peer".into() };
    let hard = GuixError::OperationFailed { code: 1, stderr_tail: "build failed".into() };
    assert_eq!(p.retry_delay(0, &transient), Some(0));
    assert_eq!(p.retry_delay(2, &transient), Some(300));
    assert_eq!(p.retry_delay(3, &transient), None);
    assert_eq!(p.retry_delay(0, &hard), None);
    assert_eq!(RetryPolicy::none().retry_delay(0, &transient), None);
    assert_eq!(RetryPolicy::from_secs(&[5, 7]).backoffs, vec![5, 7]);
}
