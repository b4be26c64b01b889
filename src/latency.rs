use vstd::prelude::*;

verus! {

/// `a + b`, or `u64::MAX` where the sum does not fit.
pub open spec fn saturating_sum(a: nat, b: nat) -> nat {
    if a + b > u64::MAX {
        u64::MAX as nat
    } else {
        a + b
    }
}

/// Running sum of elapsed durations, in nanoseconds, and the number of durations.
#[derive(Debug)]
pub struct LatencyAccumulator {
    total_nanos: u64,
    count: u64,
}

impl LatencyAccumulator {
    /// The sum of the recorded durations, in nanoseconds.
    pub closed spec fn spec_total(&self) -> nat {
        self.total_nanos as nat
    }

    /// The number of recorded durations.
    pub closed spec fn spec_count(&self) -> nat {
        self.count as nat
    }

    /// The average duration: the sum over the count, or the sum itself where nothing
    /// was recorded, so that a count of zero never divides.
    pub open spec fn spec_average(&self) -> nat {
        if self.spec_count() == 0 {
            self.spec_total()
        } else {
            self.spec_total() / self.spec_count()
        }
    }

    pub fn new() -> (a: Self)
        ensures
            a.spec_total() == 0,
            a.spec_count() == 0,
    {
        LatencyAccumulator { total_nanos: 0, count: 0 }
    }

    /// Adds one duration of `nanos` nanoseconds; both counters stop at `u64::MAX`.
    pub fn record(&mut self, nanos: u64)
        ensures
            final(self).spec_total() == saturating_sum(old(self).spec_total(), nanos as nat),
            final(self).spec_count() == saturating_sum(old(self).spec_count(), 1),
    {
        self.total_nanos = self.total_nanos.saturating_add(nanos);
        self.count = self.count.saturating_add(1);
    }

    /// The sum of the recorded durations, in nanoseconds.
    pub fn total_nanos(&self) -> (n: u64)
        ensures
            n == self.spec_total(),
    {
        self.total_nanos
    }

    /// The number of recorded durations.
    pub fn iterations(&self) -> (n: u64)
        ensures
            n == self.spec_count(),
    {
        self.count
    }

    /// The average recorded duration in nanoseconds; with nothing recorded the divisor
    /// is taken as one.
    pub fn average_nanos(&self) -> (n: u64)
        ensures
            n == self.spec_average(),
    {
        let divisor: u64 = if self.count > 0 {
            self.count
        } else {
            1
        };
        self.total_nanos / divisor
    }
}

} // verus!
