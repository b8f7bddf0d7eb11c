//! Monotonic time for the cache and the rate limiter.
//!
//! What the clock reads depends on the machine and the moment, so the
//! wrappers below promise nothing of the instants and durations they return;
//! the code that uses them is proved correct for every value they could give.

use std::time::{Duration, Instant};
use vstd::prelude::*;

verus! {

#[verifier::external_type_specification]
#[verifier::external_body]
pub struct ExInstant(Instant);

/// Calls `std::time::Instant::now`. The instant read from the clock is not
/// described.
#[verifier::external_body]
pub(crate) fn instant_now() -> Instant {
    Instant::now()
}

/// Calls `std::time::Instant::elapsed`: the time since `start`. Its length
/// depends on the clock and is not described.
#[verifier::external_body]
pub(crate) fn instant_elapsed(start: &Instant) -> Duration {
    start.elapsed()
}

/// Calls `std::time::Duration::as_nanos`: the whole length of `d` in
/// nanoseconds. Only durations read from the clock reach it, so the number is
/// as open as the clock reading it comes from, and no clause describes it.
#[verifier::external_body]
pub(crate) fn duration_as_nanos(d: &Duration) -> u128 {
    d.as_nanos()
}

/// A nanosecond count, saturated to what a `u64` holds.
pub open spec fn saturate_u64(n: u128) -> u64 {
    if n <= u64::MAX as u128 {
        n as u64
    } else {
        u64::MAX
    }
}

pub(crate) fn saturating_u64(n: u128) -> (r: u64)
    ensures
        r == saturate_u64(n),
{
    if n <= u64::MAX as u128 {
        n as u64
    } else {
        u64::MAX
    }
}

/// Nanoseconds elapsed since `start`, saturated to `u64::MAX`.
pub(crate) fn nanos_since(start: &Instant) -> u64 {
    let d = instant_elapsed(start);
    saturating_u64(duration_as_nanos(&d))
}

} // verus!
