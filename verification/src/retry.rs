//! When and how long to wait before asking the provider again.

use vstd::prelude::*;

use crate::time::{max_nanos, Duration};

verus! {

/// How many times to retry and how long to wait.
#[derive(Debug, Clone, Copy, PartialEq, Eq)]
pub struct RetryPolicy {
    pub max_retries: u32,
    pub base_delay: Duration,
    pub max_delay: Duration,
}

/// `attempt`, but at least 1.
pub open spec fn at_least_one(attempt: u32) -> int {
    if attempt < 1 {
        1
    } else {
        attempt as int
    }
}

/// The wait before retry `attempt`: the base delay times the attempt (at least once),
/// capped at the maximum delay.
pub open spec fn delay_nanos(p: RetryPolicy, attempt: u32) -> int {
    let scaled = p.base_delay.total() * at_least_one(attempt);
    if scaled <= p.max_delay.total() {
        scaled
    } else {
        p.max_delay.total()
    }
}

impl RetryPolicy {
    /// Two retries, 250 ms apart at first, never more than 5 s.
    pub fn default_policy() -> (p: RetryPolicy)
        ensures
            p.max_retries == 2,
            p.base_delay.total() == 250_000_000,
            p.max_delay.total() == 5_000_000_000,
    {
        RetryPolicy {
            max_retries: 2,
            base_delay: Duration::from_millis(250),
            max_delay: Duration::from_secs(5),
        }
    }

    /// Whether attempt number `attempt` (counted from 0) may be retried.
    pub fn should_retry(&self, attempt: u32) -> (r: bool)
        ensures
            r == (attempt < self.max_retries),
    {
        attempt < self.max_retries
    }

    /// How long to wait before retry `attempt`.
    pub fn delay_for(&self, attempt: u32) -> (d: Duration)
        requires
            self.base_delay.total() * at_least_one(attempt) <= max_nanos(),
        ensures
            d.total() == delay_nanos(*self, attempt),
    {
        let k = if attempt < 1 {
            1
        } else {
            attempt
        };
        match self.base_delay.checked_mul(k) {
            Some(scaled) => scaled.min(self.max_delay),
            None => self.max_delay,
        }
    }

    /// Counts one more attempt and gives the wait before it, or none once the retries
    /// are used up.
    pub fn retry_delay(&self, attempt: &mut u32) -> (d: Option<Duration>)
        requires
            *old(attempt) < self.max_retries ==> self.base_delay.total() * (*old(attempt) + 1)
                <= max_nanos(),
        ensures
            *old(attempt) < self.max_retries ==> *final(attempt) == *old(attempt) + 1 && d is Some
                && d->0.total() == delay_nanos(*self, *final(attempt)),
            *old(attempt) >= self.max_retries ==> *final(attempt) == *old(attempt) && d is None,
    {
        if !self.should_retry(*attempt) {
            return None;
        }
        *attempt = *attempt + 1;
        Some(self.delay_for(*attempt))
    }
}

impl Default for RetryPolicy {
    fn default() -> (p: RetryPolicy)
        ensures
            p.max_retries == 2,
            p.base_delay.total() == 250_000_000,
            p.max_delay.total() == 5_000_000_000,
    {
        RetryPolicy::default_policy()
    }
}

/// The wait never exceeds the maximum delay, and never shrinks from one attempt to a later one.
pub proof fn lemma_delay_is_capped_and_grows(p: RetryPolicy, a: u32, b: u32)
    requires
        a <= b,
        p.base_delay.total() >= 0,
    ensures
        delay_nanos(p, a) <= p.max_delay.total(),
        delay_nanos(p, a) <= delay_nanos(p, b),
{
    Duration::lemma_total_nonneg(p.base_delay);
    assert(p.base_delay.total() * at_least_one(a) <= p.base_delay.total() * at_least_one(b))
        by (nonlinear_arith)
        requires
            p.base_delay.total() >= 0,
            at_least_one(a) <= at_least_one(b),
    ;
}

} // verus!
