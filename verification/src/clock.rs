//! Monotonic-clock readings for the latency sampler. A reading is opaque;
//! only elapsed time since a reading can be observed, and its value depends
//! on the clock, so nothing is promised of it.

use vstd::prelude::*;

verus! {

#[verifier::external_type_specification]
#[verifier::external_body]
pub struct ExInstant(std::time::Instant);

/// Relies on `std::time::Instant::now`: an opaque monotonic-clock reading.
#[verifier::external_body]
pub fn monotonic_now() -> std::time::Instant {
    std::time::Instant::now()
}

/// Relies on `Instant::elapsed` and `Duration::as_micros`: the whole
/// microseconds elapsed since `start` was taken.
#[verifier::external_body]
pub fn elapsed_micros(start: &std::time::Instant) -> u64 {
    start.elapsed().as_micros() as u64
}

} // verus!
