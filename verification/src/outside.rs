//! The points where the game meets the outside world: the monotonic clock of
//! the standard library and the random generator of `rand`.
use vstd::prelude::*;
use rand::Rng;

verus! {

/// A point on the standard library's monotonic clock.
#[verifier::external_type_specification]
#[verifier::external_body]
pub struct ExInstant(std::time::Instant);

/// Reads the monotonic clock (`std::time::Instant::now`). Nothing is claimed of
/// the value: it depends on when the call happens.
#[verifier::external_body]
pub(crate) fn clock_now() -> (t: std::time::Instant) {
    std::time::Instant::now()
}

/// Time elapsed since `origin` on the monotonic clock
/// (`std::time::Instant::elapsed`). Nothing is claimed of the value: it
/// depends on when the call happens.
#[verifier::external_body]
pub(crate) fn elapsed_since(origin: &std::time::Instant) -> (d: std::time::Duration) {
    origin.elapsed()
}

/// Whole nanoseconds of a duration (`std::time::Duration::as_nanos`).
/// Nothing is claimed of the value: a `Duration` is opaque here.
#[verifier::external_body]
pub(crate) fn whole_nanos(d: &std::time::Duration) -> (ns: u128) {
    d.as_nanos()
}

/// A uniformly random byte (`rand::random::<u8>`). Any byte may come back.
#[verifier::external_body]
pub(crate) fn random_byte() -> (b: u8) {
    rand::random::<u8>()
}

/// The thread-local random generator of `rand`.
#[verifier::external_type_specification]
#[verifier::external_body]
pub struct ExThreadRng(rand::rngs::ThreadRng);

/// A handle on the thread-local random generator (`rand::thread_rng`).
#[verifier::external_body]
pub(crate) fn thread_generator() -> (rng: rand::rngs::ThreadRng) {
    rand::thread_rng()
}

/// A uniformly random index below `len` (`rand::Rng::gen_range(0..len)`).
/// The source asserts that the range is not empty and returns the lower
/// bound plus a value below the width of the range.
#[verifier::external_body]
pub(crate) fn random_below(rng: &mut rand::rngs::ThreadRng, len: usize) -> (i: usize)
    requires
        len > 0,
    ensures
        i < len,
{
    rng.gen_range(0..len)
}

} // verus!
