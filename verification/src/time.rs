//! Timing a piece of work.
use vstd::prelude::*;
use std::time::{Duration, Instant};

verus! {

/// A point in time from the monotonic clock.
#[verifier::external_type_specification]
#[verifier::external_body]
pub struct ExInstant(Instant);

/// The current time of the monotonic clock.
///
/// Trusted: calls `Instant::now`; nothing is stated of the time it returns.
#[verifier::external_body]
fn instant_now() -> (r: Instant) {
    Instant::now()
}

/// The time that has passed since `start`.
///
/// Trusted: calls `Instant::elapsed`; nothing is stated of the duration it
/// returns, which depends on the clock.
#[verifier::external_body]
fn elapsed_since(start: &Instant) -> (r: Duration) {
    start.elapsed()
}

/// A value and how long it took to compute.
pub struct TimedValue<T> {
    pub duration: Duration,
    pub value: T,
}

/// Runs `block` once and returns how long it took. Of the duration nothing
/// is stated, as it is read from the clock; that `block` ran is stated by its
/// postcondition holding.
pub fn measure_time<F: Fn()>(block: F) -> (r: Duration)
    requires
        call_requires(block, ()),
    ensures
        call_ensures(block, (), ()),
{
    let start = instant_now();
    block();
    elapsed_since(&start)
}

/// Runs `block` once and returns its value with how long it took.
pub fn measure_timed_value<T, F: Fn() -> T>(block: F) -> (r: TimedValue<T>)
    requires
        call_requires(block, ()),
    ensures
        call_ensures(block, (), r.value),
{
    let start = instant_now();
    let value = block();
    TimedValue { duration: elapsed_since(&start), value }
}

} // verus!
