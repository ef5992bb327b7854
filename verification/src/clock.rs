//! Monotonic time readings, as nanoseconds since a caller-held origin.
use vstd::prelude::*;

verus! {

#[verifier::external_type_specification]
#[verifier::external_body]
pub struct ExInstant(std::time::Instant);

/// `Instant::now`: a reading of the monotonic clock, used as an origin.
///
/// Nothing is promised about the value: it depends on the machine's clock.
#[verifier::external_body]
pub fn instant_now() -> (r: std::time::Instant) {
    std::time::Instant::now()
}

/// `Instant::elapsed`, converted to whole nanoseconds: the monotonic time
/// passed since `origin`, zero if the clock reads earlier.
///
/// Nothing is promised about the value: it depends on the machine's clock.
#[verifier::external_body]
pub fn elapsed_nanos(origin: &std::time::Instant) -> (r: u128) {
    origin.elapsed().as_nanos()
}

/// `Instant::now().checked_add(Duration::new(secs, nanos))`: whether a
/// deadline that far from now is representable on this machine's clock.
///
/// Nothing is promised about the answer: it depends on the current reading
/// of the clock.
#[verifier::external_body]
pub(crate) fn instant_admits(secs: u64, nanos: u32) -> (r: bool)
    requires
        nanos < 1_000_000_000,
{
    std::time::Instant::now().checked_add(std::time::Duration::new(secs, nanos)).is_some()
}

} // verus!
