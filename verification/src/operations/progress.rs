//! Progress counts of a running job.

use vstd::prelude::*;

verus! {

/// Progress counts for ETL pipeline execution: the expected total, and the
/// records processed so far, each a success or a failure.
pub struct ProgressTracker {
    total: usize,
    processed: usize,
    success: usize,
    failed: usize,
}

impl ProgressTracker {
    #[verifier::type_invariant]
    spec fn counts_add_up(&self) -> bool {
        self.processed == self.success + self.failed
    }

    /// The expected total.
    pub closed spec fn total_view(&self) -> int {
        self.total as int
    }

    /// Records processed so far.
    pub closed spec fn processed_view(&self) -> int {
        self.processed as int
    }

    /// Successful records so far.
    pub closed spec fn success_view(&self) -> int {
        self.success as int
    }

    /// Failed records so far.
    pub closed spec fn failed_view(&self) -> int {
        self.failed as int
    }

    /// Creates a new progress tracker for the given total record count.
    pub fn new(total: usize) -> (t: Self)
        ensures
            t.total_view() == total,
            t.processed_view() == 0,
            t.success_view() == 0,
            t.failed_view() == 0,
    {
        ProgressTracker { total, processed: 0, success: 0, failed: 0 }
    }

    /// Increments the success counter.
    pub fn inc_success(&mut self)
        requires
            old(self).processed_view() < usize::MAX,
        ensures
            final(self).total_view() == old(self).total_view(),
            final(self).processed_view() == old(self).processed_view() + 1,
            final(self).success_view() == old(self).success_view() + 1,
            final(self).failed_view() == old(self).failed_view(),
    {
        proof {
            use_type_invariant(&*self);
        }
        *self = ProgressTracker {
            total: self.total,
            processed: self.processed + 1,
            success: self.success + 1,
            failed: self.failed,
        };
    }

    /// Increments the failure counter.
    pub fn inc_failure(&mut self)
        requires
            old(self).processed_view() < usize::MAX,
        ensures
            final(self).total_view() == old(self).total_view(),
            final(self).processed_view() == old(self).processed_view() + 1,
            final(self).success_view() == old(self).success_view(),
            final(self).failed_view() == old(self).failed_view() + 1,
    {
        proof {
            use_type_invariant(&*self);
        }
        *self = ProgressTracker {
            total: self.total,
            processed: self.processed + 1,
            success: self.success,
            failed: self.failed + 1,
        };
    }

    /// Records a batch completion with success and failure counts.
    pub fn record_batch(&mut self, success_count: usize, failure_count: usize)
        requires
            old(self).processed_view() + success_count + failure_count <= usize::MAX,
        ensures
            final(self).total_view() == old(self).total_view(),
            final(self).processed_view() == old(self).processed_view() + success_count + failure_count,
            final(self).success_view() == old(self).success_view() + success_count,
            final(self).failed_view() == old(self).failed_view() + failure_count,
    {
        proof {
            use_type_invariant(&*self);
        }
        *self = ProgressTracker {
            total: self.total,
            processed: self.processed + (success_count + failure_count),
            success: self.success + success_count,
            failed: self.failed + failure_count,
        };
    }

    /// The expected total.
    pub fn total(&self) -> (n: usize)
        ensures
            n == self.total_view(),
    {
        self.total
    }

    /// Records processed so far; every one of them counted once, as a
    /// success or a failure.
    pub fn processed(&self) -> (n: usize)
        ensures
            n == self.processed_view(),
            n == self.success_view() + self.failed_view(),
    {
        proof {
            use_type_invariant(self);
        }
        self.processed
    }

    /// Successful records so far.
    pub fn success(&self) -> (n: usize)
        ensures
            n == self.success_view(),
    {
        self.success
    }

    /// Failed records so far.
    pub fn failed(&self) -> (n: usize)
        ensures
            n == self.failed_view(),
    {
        self.failed
    }
}

} // verus!
