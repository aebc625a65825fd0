//! The monotonic clock.

use vstd::prelude::*;

verus! {

/// A reading of the monotonic clock. Nothing is known of what it holds.
#[verifier::external_type_specification]
#[verifier::external_body]
pub struct ExInstant(std::time::Instant);

/// Reads the monotonic clock by `std::time::Instant::now`. No claim is made
/// of the reading: two calls may give any two instants.
#[verifier::external_body]
pub(crate) fn current_instant() -> std::time::Instant {
    std::time::Instant::now()
}

} // verus!
