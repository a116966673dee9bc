//! A wall-clock deadline: a start instant and a millisecond budget, polled by
//! the time-bounded searches. Nothing can be promised of what the clock
//! returns, so the expiry query carries no contract; searches state what holds
//! of their result whichever way it answers.

use vstd::prelude::*;

verus! {

#[verifier::external_type_specification]
#[verifier::external_body]
pub struct ExInstant(std::time::Instant);

/// Relies on `std::time::Instant::now`: the current instant of a monotonic
/// clock. Nothing is promised of the value.
#[verifier::external_body]
fn instant_now() -> std::time::Instant {
    std::time::Instant::now()
}

/// Relies on `std::time::Instant::elapsed`: the time passed since the given
/// instant. Nothing is promised of the value.
#[verifier::external_body]
fn instant_elapsed(t: &std::time::Instant) -> std::time::Duration {
    t.elapsed()
}

/// Relies on `std::time::Duration::as_millis`: the duration in whole
/// milliseconds, rounded down.
#[verifier::external_body]
fn duration_as_millis(d: &std::time::Duration) -> u128 {
    d.as_millis()
}

/// A deadline: construction records the current instant; `is_time_over`
/// reports whether the budget has passed since then.
pub struct TimeKeeper {
    start_time: std::time::Instant,
    time_threshold: u64,
}

impl TimeKeeper {
    /// The millisecond budget this deadline was made with.
    pub closed spec fn spec_threshold(self) -> u64 {
        self.time_threshold
    }

    /// A deadline of `time_threshold` milliseconds, starting now.
    pub fn new(time_threshold: u64) -> (r: TimeKeeper)
        ensures
            r.spec_threshold() == time_threshold,
    {
        TimeKeeper { start_time: instant_now(), time_threshold }
    }

    /// Whether at least the configured budget has passed since construction.
    /// The answer depends on the wall clock, so no more is stated of it.
    pub fn is_time_over(&self) -> bool {
        duration_as_millis(&instant_elapsed(&self.start_time)) >= self.time_threshold as u128
    }
}

} // verus!
