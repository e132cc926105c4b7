//! The rate bookkeeping of the loader's rate limiter: the configured rate,
//! the current (possibly reduced) rate, and recovery after a streak of
//! successful batches.

use vstd::prelude::*;

verus! {

/// Consecutive successes required to trigger rate recovery.
pub const RECOVERY_THRESHOLD: u32 = 10;

/// The step by which recovery raises a rate: a tenth of it, rounded down,
/// and at least 1.
pub open spec fn recovery_step(current: int) -> int {
    if current / 10 >= 1 {
        current / 10
    } else {
        1
    }
}

/// The rate that recovery moves `current` to: raised toward `target` by
/// `recovery_step` (10%, at least 1), but not above `target`; unchanged
/// when it is already at or above `target`.
pub open spec fn recovered_rate(current: int, target: int) -> int {
    if current < target {
        let raised = current + recovery_step(current);
        if raised < target {
            raised
        } else {
            target
        }
    } else {
        current
    }
}

/// The configured rate, the current effective rate, and the streak of
/// successful batches since the last recovery attempt or reset.
pub struct RateRecovery {
    original_rate: usize,
    current_rate: usize,
    consecutive_successes: u32,
}

impl RateRecovery {
    #[verifier::type_invariant]
    spec fn streak_below_threshold(&self) -> bool {
        self.consecutive_successes < RECOVERY_THRESHOLD
    }

    /// The configured rate.
    pub closed spec fn original(&self) -> int {
        self.original_rate as int
    }

    /// The current effective rate.
    pub closed spec fn current(&self) -> int {
        self.current_rate as int
    }

    /// The number of consecutive successes counted so far.
    pub closed spec fn streak(&self) -> int {
        self.consecutive_successes as int
    }

    /// Starts at the configured rate with no successes counted.
    pub fn new(requests_per_second: usize) -> (r: Self)
        ensures
            r.original() == requests_per_second,
            r.current() == requests_per_second,
            r.streak() == 0,
    {
        RateRecovery { original_rate: requests_per_second, current_rate: requests_per_second, consecutive_successes: 0 }
    }

    /// Sets the current effective rate.
    pub fn adjust_rate(&mut self, new_rate: usize)
        ensures
            final(self).current() == new_rate,
            final(self).original() == old(self).original(),
            final(self).streak() == old(self).streak(),
    {
        proof {
            use_type_invariant(&*self);
        }
        self.current_rate = new_rate;
    }

    /// Gets the current effective rate.
    pub fn get_rate(&self) -> (r: usize)
        ensures
            r == self.current(),
    {
        self.current_rate
    }

    /// Returns the original configured rate.
    pub fn original_rate(&self) -> (r: usize)
        ensures
            r == self.original(),
    {
        self.original_rate
    }

    /// Records a successful batch. The threshold-th consecutive success
    /// triggers a recovery attempt, which raises a rate below the
    /// configured one by 10% (at least 1) toward it, and starts a new
    /// streak. Returns the new rate when
    /// the rate changed.
    pub fn record_success(&mut self) -> (r: Option<usize>)
        ensures
            final(self).original() == old(self).original(),
            old(self).streak() + 1 < RECOVERY_THRESHOLD ==> final(self).streak() == old(self).streak() + 1
                && final(self).current() == old(self).current() && r is None,
            old(self).streak() + 1 >= RECOVERY_THRESHOLD ==> final(self).streak() == 0 && final(self).current()
                == recovered_rate(old(self).current(), old(self).original()),
            r is Some <==> final(self).current() != old(self).current(),
            r matches Some(n) ==> n == final(self).current(),
            final(self).current() >= old(self).current(),
            old(self).streak() + 1 >= RECOVERY_THRESHOLD && old(self).current() < old(self).original()
                ==> final(self).current() > old(self).current(),
            old(self).current() <= old(self).original() ==> final(self).current() <= final(self).original(),
    {
        proof {
            use_type_invariant(&*self);
        }
        let count = self.consecutive_successes + 1;
        if count >= RECOVERY_THRESHOLD {
            let current = self.current_rate;
            let target = self.original_rate;
            let mut changed: Option<usize> = None;
            if current < target {
                let step = if current / 10 >= 1 {
                    current / 10
                } else {
                    1
                };
                let new_rate = if step < target - current {
                    current + step
                } else {
                    target
                };
                self.current_rate = new_rate;
                changed = Some(new_rate);
            }
            self.consecutive_successes = 0;
            changed
        } else {
            self.consecutive_successes = count;
            None
        }
    }

    /// Resets the success streak counter; a rate-limit error calls for it,
    /// so that recovery does not start too early.
    pub fn reset_success_streak(&mut self)
        ensures
            final(self).streak() == 0,
            final(self).current() == old(self).current(),
            final(self).original() == old(self).original(),
    {
        proof {
            use_type_invariant(&*self);
        }
        self.consecutive_successes = 0;
    }
}

} // verus!
