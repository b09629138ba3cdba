//! The wall clock.
use vstd::prelude::*;

verus! {

/// Relies on `SystemTime::now` and `SystemTime::duration_since(UNIX_EPOCH)`:
/// whole seconds since the Unix epoch, 0 for a clock set before it. Nothing is
/// promised of the value.
#[verifier::external_body]
pub(crate) fn unix_now() -> (r: u64) {
    std::time::SystemTime::now().duration_since(std::time::UNIX_EPOCH).unwrap_or_default().as_secs()
}

} // verus!
