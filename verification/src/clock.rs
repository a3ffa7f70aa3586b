//! The wall clock, read at the edge of the decision logic.
use vstd::prelude::*;

verus! {

/// Seconds since the Unix epoch, or 0 when the system clock is before it.
/// Nothing is promised of the reading: it is whatever the clock says.
#[verifier::external_body]
pub(crate) fn now_secs() -> u64 {
    std::time::SystemTime::now().duration_since(std::time::UNIX_EPOCH).map(|d| d.as_secs()).unwrap_or(0)
}

/// Milliseconds since the Unix epoch, or 0 when the system clock is before it.
/// Nothing is promised of the reading.
#[verifier::external_body]
pub(crate) fn now_millis() -> u64 {
    std::time::SystemTime::now().duration_since(std::time::UNIX_EPOCH).map(|d| d.as_millis() as u64).unwrap_or(0)
}

} // verus!
