//! Monotonic clock readings (std `Instant`). Their values depend on when they are
//! taken, so nothing is promised of them beyond their type.
use vstd::prelude::*;

verus! {

#[verifier::external_type_specification]
#[verifier::external_body]
pub struct ExInstant(std::time::Instant);

/// Reads the monotonic clock (std `Instant::now`).
#[verifier::external_body]
pub fn instant_now() -> (i: std::time::Instant) {
    std::time::Instant::now()
}

/// Whole milliseconds elapsed since `start` (std `Instant::elapsed`, `Duration::as_millis`,
/// truncated to 64 bits).
#[verifier::external_body]
pub fn millis_since(start: &std::time::Instant) -> (ms: u64) {
    start.elapsed().as_millis() as u64
}

/// Whole seconds elapsed since `start` (std `Instant::elapsed`, `Duration::as_secs`).
#[verifier::external_body]
pub fn secs_since(start: &std::time::Instant) -> (s: u64) {
    start.elapsed().as_secs()
}

/// The whole milliseconds of a std `Duration`, truncated to 64 bits, as
/// `Duration::as_millis` gives them.
pub uninterp spec fn millis_of_duration(d: std::time::Duration) -> u64;

/// Whole milliseconds of a std `Duration` (`Duration::as_millis`, truncated to 64 bits); the
/// result depends on the duration alone and is named by `millis_of_duration`.
#[verifier::external_body]
pub fn duration_millis(d: &std::time::Duration) -> (ms: u64)
    ensures
        ms == millis_of_duration(*d),
{
    d.as_millis() as u64
}

} // verus!
