//! The frame clock.
//!
//! Each `tick` reads the monotonic clock and records the time elapsed
//! since the previous tick, in nanoseconds, accumulating the total. What
//! the clock reads is outside anyone's control, so the contracts only
//! relate the accumulated total to the measured delta; nothing is
//! claimed about the delta's value.

use vstd::prelude::*;

use std::time::Duration;
use std::time::Instant;

verus! {

/// A reading of the monotonic clock, opaque to the core.
#[verifier::external_type_specification]
#[verifier::external_body]
pub struct ExInstant(Instant);

/// Relies on std::time::Instant::now: an opaque monotonic clock reading.
/// Nothing is assumed about its value.
#[verifier::external_body]
fn instant_now() -> Instant {
    Instant::now()
}

/// Relies on std::time::Instant::saturating_duration_since: the time
/// elapsed from `earlier` to `later`, or zero when `earlier` is the
/// later reading; it never panics. Nothing is assumed about the value.
#[verifier::external_body]
fn elapsed_between(later: &Instant, earlier: &Instant) -> Duration {
    later.saturating_duration_since(*earlier)
}

/// Relies on std::time::Duration::as_nanos: the whole duration in
/// nanoseconds. Nothing is assumed about the value.
#[verifier::external_body]
fn duration_nanos(d: &Duration) -> u128 {
    d.as_nanos()
}

/// Wall-clock bookkeeping for the frame loop: the previous tick's
/// reading, the last measured frame delta and the accumulated run time,
/// both in nanoseconds. Deltas too large for 64 bits — centuries — are
/// clamped, and the total saturates instead of wrapping.
pub struct Time {
    last: Instant,
    delta_nanos: u64,
    total_nanos: u64,
}

impl Time {
    /// The last measured frame delta, in nanoseconds.
    pub closed spec fn delta_spec(self) -> u64 {
        self.delta_nanos
    }

    /// The accumulated run time, in nanoseconds.
    pub closed spec fn total_spec(self) -> u64 {
        self.total_nanos
    }

    /// A clock started now: no delta measured yet, nothing accumulated.
    pub fn new() -> (r: Time)
        ensures
            r.delta_spec() == 0,
            r.total_spec() == 0,
    {
        Time { last: instant_now(), delta_nanos: 0, total_nanos: 0 }
    }

    /// Measure the time since the previous tick and accumulate it. The
    /// delta's value comes from the clock; the total grows by exactly
    /// that delta, saturating instead of overflowing.
    pub fn tick(&mut self)
        ensures
            final(self).total_spec() == if old(self).total_spec() + final(self).delta_spec()
                <= u64::MAX {
                old(self).total_spec() + final(self).delta_spec()
            } else {
                u64::MAX as int
            },
    {
        let now = instant_now();
        let wide = duration_nanos(&elapsed_between(&now, &self.last));
        let delta: u64 = if wide > u64::MAX as u128 {
            u64::MAX
        } else {
            wide as u64
        };
        self.last = now;
        self.delta_nanos = delta;
        self.total_nanos = if self.total_nanos <= u64::MAX - delta {
            self.total_nanos + delta
        } else {
            u64::MAX
        };
    }

    /// The last measured frame delta, in nanoseconds.
    pub fn delta_nanos(&self) -> (r: u64)
        ensures
            r == self.delta_spec(),
    {
        self.delta_nanos
    }

    /// The accumulated run time, in nanoseconds.
    pub fn total_nanos(&self) -> (r: u64)
        ensures
            r == self.total_spec(),
    {
        self.total_nanos
    }
}

} // verus!
