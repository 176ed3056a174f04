//! The monotonic clock the timers read (`tokio::time::Instant`).
use vstd::prelude::*;
use tokio::time::Instant;

verus! {

/// `tokio::time::Instant`, a point on the monotonic clock.
#[verifier::external_type_specification]
#[verifier::external_body]
pub struct ExInstant(Instant);

/// `Instant::now`. Nothing is stated of the value: it is the time.
#[verifier::external_body]
pub(crate) fn now() -> (r: Instant) {
    Instant::now()
}

/// `Instant::elapsed`, in nanoseconds. Nothing is stated of the value: it
/// depends on the time of the call.
#[verifier::external_body]
pub(crate) fn elapsed_nanos(since: &Instant) -> (r: u128) {
    since.elapsed().as_nanos()
}

/// Nanoseconds in a second.
pub const NANOS_PER_SEC: u128 = 1_000_000_000;

} // verus!
