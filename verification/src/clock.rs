//! The monotonic clock by which the registry ages its nodes.

use vstd::prelude::*;

verus! {

/// A point on the monotonic clock of std. Opaque: only differences are read.
#[verifier::external_type_specification]
#[verifier::external_body]
pub struct ExInstant(std::time::Instant);

/// `Instant::now` of std: the present point on the monotonic clock. Nothing
/// is claimed of it.
pub assume_specification[ std::time::Instant::now ]() -> (now: std::time::Instant)
;

/// `Instant::elapsed` of std: the time that has passed since `start`.
/// Nothing is claimed of it.
pub assume_specification[ std::time::Instant::elapsed ](start: &std::time::Instant) -> (passed:
    std::time::Duration)
;

/// `Duration::as_nanos` of std: the whole duration in nanoseconds. Nothing
/// is claimed of it.
pub assume_specification[ std::time::Duration::as_nanos ](span: &std::time::Duration) -> (nanos:
    u128)
;

/// Nanoseconds that have passed since `epoch`.
pub(crate) fn nanos_since(epoch: &std::time::Instant) -> (nanos: u128) {
    epoch.elapsed().as_nanos()
}

} // verus!
