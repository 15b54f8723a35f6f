//! Wall-clock time, read in one place.
use vstd::prelude::*;

verus! {

/// Reads the system clock (`std::time::SystemTime::now`) and returns milliseconds since
/// the Unix epoch, or 0 for a clock set before the epoch. Nothing is promised of the value:
/// it depends on the machine's clock.
#[verifier::external_body]
pub fn now_millis() -> (r: u64) {
    match std::time::SystemTime::now().duration_since(std::time::UNIX_EPOCH) {
        Ok(d) => d.as_millis() as u64,
        Err(_) => 0,
    }
}

/// Reads the system clock (`std::time::SystemTime::now`) and returns nanoseconds since
/// the Unix epoch, held to `u64::MAX`, or 0 for a clock set before the epoch. Nothing is
/// promised of the value: it depends on the machine's clock.
#[verifier::external_body]
pub fn now_nanos() -> (r: u64) {
    match std::time::SystemTime::now().duration_since(std::time::UNIX_EPOCH) {
        Ok(d) => u64::try_from(d.as_nanos()).unwrap_or(u64::MAX),
        Err(_) => 0,
    }
}

} // verus!
