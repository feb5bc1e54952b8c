//! Monotonic timestamps and elapsed-time computation.
//!
//! A timestamp is a plain `(seconds, nanoseconds)` pair read from the raw
//! monotonic clock.  Elapsed time between two timestamps is computed as a
//! single signed difference of the two timestamps converted to a common
//! unit — never by subtracting the two fields independently, which would go
//! wrong whenever the nanosecond component decreases across a second
//! boundary.

use vstd::prelude::*;
use crate::customerror::CustomError;
use crate::fixed::trunc_div;

verus! {

/// Upper bound assumed of the seconds field of a monotonic timestamp.  The
/// raw monotonic clock counts from boot, so 8 000 000 000 seconds (over
/// 250 years) is far above any reading; the bound keeps every difference
/// of two timestamps, converted to nanoseconds, inside `i64`.
pub const MAX_CLOCK_SECONDS: i64 = 8_000_000_000;

pub const NANOS_PER_SECOND: i64 = 1_000_000_000;

pub const NANOS_PER_MILLI: i64 = 1_000_000;

/// The clock a timestamp is read from.
#[derive(Clone, Copy, Debug, PartialEq, Eq, Structural)]
pub enum Clock {
    ClockMonotonicRaw,
}

impl Clock {
    /// Returns the raw clock id handed to the system's clock call.
    pub fn value(&self) -> (r: i32)
        ensures
            r == 4,
    {
        match *self {
            Clock::ClockMonotonicRaw => 4,
        }
    }
}

/// A reading of the monotonic clock: seconds and nanoseconds since some
/// fixed starting point (boot, for the raw monotonic clock).
#[derive(Clone, Copy, Debug, PartialEq, Eq, Structural)]
pub struct MyTimestamp {
    pub sec: i64,
    pub nsec: i64,
}

impl Default for MyTimestamp {
    fn default() -> (r: Self)
        ensures
            r == (MyTimestamp { sec: 0, nsec: 0 }),
    {
        Self::new()
    }
}

impl MyTimestamp {
    /// A plausible clock reading: nanoseconds within one second, seconds
    /// non-negative and bounded as `MAX_CLOCK_SECONDS` describes.
    pub open spec fn wf(self) -> bool {
        0 <= self.sec <= MAX_CLOCK_SECONDS && 0 <= self.nsec < NANOS_PER_SECOND
    }

    /// Returns the zero timestamp.
    pub fn new() -> (r: Self)
        ensures
            r == (MyTimestamp { sec: 0, nsec: 0 }),
            r.wf(),
    {
        MyTimestamp { sec: 0, nsec: 0 }
    }

    /// The time from `self` to `end` in nanoseconds: one signed difference
    /// of the two timestamps in a common unit.
    pub open spec fn elapsed_nanos_spec(self, end: Self) -> int {
        (end.sec - self.sec) * (NANOS_PER_SECOND as int) + (end.nsec - self.nsec)
    }

    /// The time from `self` to `end` in whole milliseconds, rounded toward
    /// zero.
    pub open spec fn elapsed_millis_spec(self, end: Self) -> int {
        trunc_div(self.elapsed_nanos_spec(end), NANOS_PER_MILLI as int)
    }

    /// The elapsed time from `self` to `end` in nanoseconds.  Negative if
    /// `end` is the earlier reading.
    pub fn elapsed_nanos(&self, end: Self) -> (r: i64)
        requires
            self.wf(),
            end.wf(),
        ensures
            r == self.elapsed_nanos_spec(end),
            -9_000_000_000_000_000_000 <= r <= 9_000_000_000_000_000_000,
    {
        (end.sec - self.sec) * NANOS_PER_SECOND + (end.nsec - self.nsec)
    }

    /// Computes the passed time between two timestamps in milliseconds.
    pub fn compute_time_millis(&self, end: Self) -> (r: i64)
        requires
            self.wf(),
            end.wf(),
        ensures
            r == self.elapsed_millis_spec(end),
    {
        self.elapsed_nanos(end) / NANOS_PER_MILLI
    }

    /// Read the monotonic clock into `self`.
    ///
    /// Relies on `nix::time::clock_gettime` (the `clock_gettime` system
    /// call) with the raw monotonic clock id: on success the returned
    /// timespec holds the time since boot with a non-negative second count
    /// far below `MAX_CLOCK_SECONDS` and nanoseconds in `[0, 1e9)`; on
    /// failure the call reports an error and the timestamp is left as it
    /// was.
    #[verifier::external_body]
    pub fn gettime(&mut self, clock: Clock) -> (r: Result<(), CustomError>)
        ensures
            match r {
                Ok(u) => final(self).wf(),
                Err(e) => e == CustomError::TimerError && *final(self) == *old(self),
            },
    {
        match nix::time::clock_gettime(nix::time::ClockId::from_raw(clock.value())) {
            Ok(ts) => {
                self.sec = ts.tv_sec();
                self.nsec = ts.tv_nsec();
                Ok(())
            },
            Err(_) => Err(CustomError::TimerError),
        }
    }
}

} // verus!
