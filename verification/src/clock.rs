//! The wall clock, in milliseconds.

use vstd::prelude::*;

verus! {

/// Milliseconds since the Unix epoch.
///
/// Trusted: reads `std::time::SystemTime::now` and measures it from
/// `UNIX_EPOCH`; a clock set before the epoch reads as zero. Nothing is
/// promised of the value: it depends on the machine's clock.
#[verifier::external_body]
pub(crate) fn now_millis() -> (r: u64) {
    match std::time::SystemTime::now().duration_since(std::time::UNIX_EPOCH) {
        Ok(d) => d.as_millis() as u64,
        Err(_) => 0,
    }
}

} // verus!
