//! The retry policy of the bulk asset downloader: a transient network failure is retried up to
//! `MAX_RETRIES` times, each after a linear backoff. Other failures are never retried.
use vstd::prelude::*;

verus! {

/// How many times a download is retried after its first attempt.
pub const MAX_RETRIES: u32 = 3;

/// The backoff step: the wait before a retry is this many milliseconds times the number of
/// failures so far.
pub const BACKOFF_STEP_MS: u64 = 500;

/// What to do after a download attempt failed.
#[derive(Debug, Clone, Copy, PartialEq, Eq, Structural)]
pub enum RetryStep {
    /// Wait this many milliseconds, then try again.
    RetryAfter(u64),
    /// Report the failure.
    GiveUp,
}

/// The step after the `failures`-th failed attempt (counting from one), whose error was
/// `transient` or not: the first `MAX_RETRIES` transient failures are retried, after
/// `BACKOFF_STEP_MS` times the failure count.
pub open spec fn step_after(failures: nat, transient: bool) -> RetryStep {
    if !transient || failures > MAX_RETRIES {
        RetryStep::GiveUp
    } else {
        RetryStep::RetryAfter((BACKOFF_STEP_MS * failures) as u64)
    }
}

/// What to do once an attempt has failed, given how many attempts had failed before it.
pub fn after_failure(failed_before: u32, transient: bool) -> (r: RetryStep)
    ensures
        r == step_after(failed_before as nat + 1, transient),
{
    if !transient || failed_before >= MAX_RETRIES {
        RetryStep::GiveUp
    } else {
        RetryStep::RetryAfter(BACKOFF_STEP_MS * (failed_before as u64 + 1))
    }
}

} // verus!
