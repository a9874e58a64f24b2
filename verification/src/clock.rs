//! The library's only view of the wall clock, wrapped so that the
//! liveness bookkeeping around it is verified for every reading.

use vstd::prelude::*;

verus! {

/// Relies on std::time::SystemTime::now and duration_since: the
/// milliseconds since the epoch, or zero before it. Nothing can be
/// promised of a clock reading.
#[verifier::external_body]
pub(crate) fn now_millis() -> u64 {
    match std::time::SystemTime::now().duration_since(std::time::UNIX_EPOCH) {
        Ok(d) => d.as_millis() as u64,
        Err(_) => 0,
    }
}

} // verus!
