//! The monotonic clock, for the ages of the file index and of the git status.
use vstd::prelude::*;

verus! {

#[verifier::external_type_specification]
#[verifier::external_body]
pub struct ExInstant(std::time::Instant);

/// `Instant::now()`.
#[verifier::external_body]
pub(crate) fn instant_now() -> std::time::Instant {
    std::time::Instant::now()
}

/// Whole seconds since `t` (`t.elapsed().as_secs()`); it depends on the clock,
/// so nothing is stated of it.
#[verifier::external_body]
pub(crate) fn elapsed_secs(t: &std::time::Instant) -> u64 {
    t.elapsed().as_secs()
}

/// Nanoseconds since `t` (`t.elapsed().as_nanos()`); it depends on the clock,
/// so nothing is stated of it.
#[verifier::external_body]
pub(crate) fn elapsed_nanos(t: &std::time::Instant) -> u128 {
    t.elapsed().as_nanos()
}

} // verus!
