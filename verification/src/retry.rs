//! Retrying an operation that failed with a transient substitute/network
//! error, after a backoff per attempt.

use vstd::prelude::*;
use crate::error::{GuixError, is_transient_spec};

verus! {

/// The backoff before each retry, in seconds; no entries means no retry.
#[derive(Debug, Clone, PartialEq, Eq)]
pub struct RetryPolicy {
    pub backoffs: Vec<u64>,
}

impl RetryPolicy {
    /// No retries.
    pub fn none() -> (r: Self)
        ensures
            r.backoffs@ == Seq::<u64>::empty(),
    {
        RetryPolicy { backoffs: Vec::new() }
    }

    /// Three attempts after the first: at once, after one minute, after
    /// five minutes.
    pub fn installer_default() -> (r: Self)
        ensures
            r.backoffs@ == seq![0u64, 60u64, 300u64],
    {
        let mut v: Vec<u64> = Vec::new();
        v.push(0);
        v.push(60);
        v.push(300);
        RetryPolicy { backoffs: v }
    }

    /// The given backoffs, in seconds.
    pub fn from_secs(secs: &[u64]) -> (r: Self)
        ensures
            r.backoffs@ == secs@,
    {
        let mut v: Vec<u64> = Vec::new();
        let mut i: usize = 0;
        while i < secs.len()
            invariant
                i <= secs@.len(),
                v@ == secs@.subrange(0, i as int),
            decreases secs@.len() - i,
        {
            v.push(secs[i]);
            assert(secs@.subrange(0, i + 1) == secs@.subrange(0, i as int).push(secs@[i as int]));
            i += 1;
        }
        assert(secs@.subrange(0, secs@.len() as int) =~= secs@);
        RetryPolicy { backoffs: v }
    }

    /// After failed attempt number `attempt` (from 0) with `err`: the
    /// backoff before trying again, or `None` to give up. Only transient
    /// errors are retried, and only while backoffs remain.
    pub fn retry_delay(&self, attempt: usize, err: &GuixError) -> (r: Option<u64>)
        ensures
            r == (if attempt < self.backoffs@.len() && is_transient_spec(*err) {
                Some(self.backoffs@[attempt as int])
            } else {
                None::<u64>
            }),
    {
        if attempt < self.backoffs.len() && err.is_transient() {
            Some(self.backoffs[attempt])
        } else {
            None
        }
    }
}

} // verus!
