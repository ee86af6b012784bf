//! The wall clock, read in milliseconds.
use vstd::prelude::*;

verus! {

/// Relies on `std::time::SystemTime::now` and `Duration::as_millis`: the
/// milliseconds since the Unix epoch at the time of the call (0 before the
/// epoch). Nothing is promised of the value.
#[verifier::external_body]
pub fn now_millis() -> (r: u64) {
    match std::time::SystemTime::now().duration_since(std::time::UNIX_EPOCH) {
        Ok(d) => d.as_millis() as u64,
        Err(_) => 0,
    }
}

} // verus!
