//! A clock measured in nanoseconds since a fixed origin, read from
//! `std::time::Instant` (which std documents as monotonic; no contract here
//! states anything of the readings).
//!
//! The circuit breaker and the recall gate of the memory backend only ever
//! compare points in time and add durations to them.  They therefore work on
//! plain integers, nanoseconds since an origin `Instant` taken when their
//! owner was created, and read the clock through this module.
use vstd::prelude::*;

verus! {

#[verifier::external_type_specification]
#[verifier::external_body]
pub struct ExInstant(std::time::Instant);

/// `std::time::Instant::now`: the current instant.  What it returns depends
/// on the machine and the moment of the call, so nothing is stated of it.
#[verifier::external_body]
fn instant_now() -> std::time::Instant {
    std::time::Instant::now()
}

/// `std::time::Instant::elapsed` of `origin`, taken in whole nanoseconds
/// (`Duration::as_nanos`).  It depends on the moment of the call, so nothing
/// is stated of it.
#[verifier::external_body]
fn nanos_since(origin: &std::time::Instant) -> u128 {
    origin.elapsed().as_nanos()
}

/// A clock whose readings are nanoseconds since its creation, taken from
/// `std::time::Instant`.
#[derive(Clone, Copy, Debug)]
pub struct MonotonicClock {
    origin: std::time::Instant,
}

impl MonotonicClock {
    /// Starts a clock at the current instant.
    pub fn start() -> (c: MonotonicClock) {
        MonotonicClock { origin: instant_now() }
    }

    /// The nanoseconds elapsed since the clock started, capped at `u64::MAX`
    /// (about 584 years).  The reading depends on the moment of the call, so
    /// nothing more is stated of it.
    pub fn now_nanos(&self) -> u64 {
        let raw = nanos_since(&self.origin);
        if raw > 0xffff_ffff_ffff_ffffu128 {
            0xffff_ffff_ffff_ffffu64
        } else {
            raw as u64
        }
    }
}

} // verus!
