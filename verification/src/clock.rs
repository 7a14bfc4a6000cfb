//! The monotonic clock, for the short-lived highlights of the UI.

use vstd::prelude::*;

verus! {

#[verifier::external_type_specification]
#[verifier::external_body]
pub struct ExInstant(std::time::Instant);

/// `std::time::Instant::now`. Nothing is promised of the value.
#[verifier::external_body]
pub fn now() -> std::time::Instant {
    std::time::Instant::now()
}

/// Whole milliseconds since `t`, as `Instant::elapsed` then
/// `Duration::as_millis` report them. Nothing is promised of the value.
#[verifier::external_body]
pub fn millis_since(t: &std::time::Instant) -> u128 {
    t.elapsed().as_millis()
}

} // verus!
