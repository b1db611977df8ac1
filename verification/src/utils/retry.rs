//! Retry with exponential back-off: the decisions. The caller runs the
//! operation and sleeps; this module says how long to wait and when to
//! stop.

use vstd::prelude::*;

verus! {

/// 2^n, saturating at `u64::MAX`.
pub open spec fn pow2_saturating(n: nat) -> int
    decreases n,
{
    if n == 0 {
        1
    } else {
        let p = 2 * pow2_saturating((n - 1) as nat);
        if p > u64::MAX {
            u64::MAX as int
        } else {
            p
        }
    }
}

/// Each further attempt doubles the back-off factor until it saturates at
/// `u64::MAX`; the factor is never zero.
pub proof fn law_backoff_doubles(n: nat)
    ensures
        1 <= pow2_saturating(n) <= u64::MAX,
        2 * pow2_saturating(n) <= u64::MAX ==> pow2_saturating(n + 1) == 2 * pow2_saturating(n),
        2 * pow2_saturating(n) > u64::MAX ==> pow2_saturating(n + 1) == u64::MAX,
    decreases n,
{
    if n > 0 {
        law_backoff_doubles((n - 1) as nat);
    }
    assert(pow2_saturating(n + 1) == if 2 * pow2_saturating(n) > u64::MAX {
        u64::MAX as int
    } else {
        2 * pow2_saturating(n)
    });
}

/// `2u64.saturating_pow(n)`.
pub fn two_saturating_pow(n: u32) -> (r: u64)
    ensures
        r == pow2_saturating(n as nat),
{
    let mut acc: u64 = 1;
    let mut i: u32 = 0;
    while i < n
        invariant
            i <= n,
            acc == pow2_saturating(i as nat),
        decreases n - i,
    {
        if acc > u64::MAX / 2 {
            acc = u64::MAX;
        } else {
            acc = acc * 2;
        }
        i = i + 1;
    }
    acc
}

/// What to do after an attempt of a retried operation.
#[derive(Clone, Copy, Debug, PartialEq, Eq, Structural)]
pub enum RetryAction {
    /// The attempt succeeded: return its value.
    Return,
    /// The attempt failed: wait `delay_ms`, then attempt again.
    RetryAfter { delay_ms: u64 },
    /// The attempt failed: wait `delay_ms`, then give up with its error.
    GiveUpAfter { delay_ms: u64 },
}

/// The wait after failed attempt number `attempt` (counted from 0):
/// `base_delay_ms * 2^attempt`, the power saturating at `u64::MAX`.
pub fn backoff_delay_ms(base_delay_ms: u64, attempt: u32) -> (r: u64)
    requires
        base_delay_ms * pow2_saturating(attempt as nat) <= u64::MAX,
    ensures
        r == base_delay_ms * pow2_saturating(attempt as nat),
{
    base_delay_ms * two_saturating_pow(attempt)
}

/// The decision after attempt number `attempt` (counted from 0) out of
/// `max_attempts`: success returns; a failure waits the back-off delay and
/// then retries, or gives up after the last attempt.
pub fn retry_step(max_attempts: u32, base_delay_ms: u64, attempt: u32, succeeded: bool) -> (r:
    RetryAction)
    requires
        attempt < max_attempts,
        !succeeded ==> base_delay_ms * pow2_saturating(attempt as nat) <= u64::MAX,
    ensures
        succeeded ==> r == RetryAction::Return,
        !succeeded && attempt + 1 < max_attempts ==> r == (RetryAction::RetryAfter {
            delay_ms: (base_delay_ms * pow2_saturating(attempt as nat)) as u64,
        }),
        !succeeded && attempt + 1 >= max_attempts ==> r == (RetryAction::GiveUpAfter {
            delay_ms: (base_delay_ms * pow2_saturating(attempt as nat)) as u64,
        }),
{
    if succeeded {
        return RetryAction::Return;
    }
    let delay_ms = backoff_delay_ms(base_delay_ms, attempt);
    if attempt + 1 < max_attempts {
        RetryAction::RetryAfter { delay_ms }
    } else {
        RetryAction::GiveUpAfter { delay_ms }
    }
}

} // verus!
