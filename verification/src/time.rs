//! Spans of time, in whole nanoseconds.

use vstd::prelude::*;

verus! {

/// The longest span: `u64::MAX` seconds and 999 999 999 nanoseconds.
pub open spec fn max_nanos() -> int {
    18_446_744_073_709_551_615_999_999_999int
}

/// A span of time, as `std::time::Duration` holds it: at most `u64::MAX` seconds and
/// 999 999 999 nanoseconds.
#[derive(Debug, Clone, Copy, PartialEq, Eq, PartialOrd, Ord, Hash, Structural)]
pub struct Duration {
    nanos: u128,
}

impl Duration {
    #[verifier::type_invariant]
    spec fn fits(self) -> bool {
        self.nanos <= max_nanos()
    }

    /// The span in nanoseconds.
    pub closed spec fn total(self) -> int {
        self.nanos as int
    }

    /// No span is negative.
    pub proof fn lemma_total_nonneg(d: Duration)
        ensures
            d.total() >= 0,
    {
    }

    /// `secs` seconds.
    pub fn from_secs(secs: u64) -> (d: Duration)
        ensures
            d.total() == secs * 1_000_000_000,
    {
        Duration { nanos: secs as u128 * 1_000_000_000 }
    }

    /// `millis` milliseconds.
    pub fn from_millis(millis: u64) -> (d: Duration)
        ensures
            d.total() == millis * 1_000_000,
    {
        Duration { nanos: millis as u128 * 1_000_000 }
    }

    /// Whole seconds of the span.
    pub fn as_secs(&self) -> (s: u64)
        ensures
            s == self.total() / 1_000_000_000,
    {
        proof {
            use_type_invariant(self);
        }
        (self.nanos / 1_000_000_000) as u64
    }

    /// Nanoseconds past the whole seconds.
    pub fn subsec_nanos(&self) -> (n: u32)
        ensures
            n == self.total() % 1_000_000_000,
    {
        (self.nanos % 1_000_000_000) as u32
    }

    /// Whole milliseconds of the span.
    pub fn as_millis(&self) -> (m: u128)
        ensures
            m == self.total() / 1_000_000,
    {
        self.nanos / 1_000_000
    }

    /// The span times `k`; `None` where it would pass the longest span.
    pub fn checked_mul(&self, k: u32) -> (r: Option<Duration>)
        ensures
            match r {
                Some(d) => d.total() == self.total() * k,
                None => self.total() * k > max_nanos(),
            },
    {
        proof {
            use_type_invariant(self);
            assert(self.nanos * k <= max_nanos() * 4_294_967_295) by (nonlinear_arith)
                requires
                    self.nanos <= max_nanos(),
                    k <= 4_294_967_295,
            ;
        }
        let product = self.nanos * (k as u128);
        if product <= 18_446_744_073_709_551_615_999_999_999 {
            Some(Duration { nanos: product })
        } else {
            None
        }
    }

    /// The shorter of two spans.
    pub fn min(self, other: Duration) -> (d: Duration)
        ensures
            d.total() == if self.total() <= other.total() {
                self.total()
            } else {
                other.total()
            },
    {
        if self.nanos <= other.nanos {
            self
        } else {
            other
        }
    }

    /// Whether two spans are equal.
    pub fn same_as(&self, other: &Duration) -> (r: bool)
        ensures
            r == (self.total() == other.total()),
    {
        self.nanos == other.nanos
    }
}

} // verus!
