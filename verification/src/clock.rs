//! The clock.
use vstd::prelude::*;

verus! {

/// Reads the clock: the seconds since the start of 1970, UTC.
///
/// The call is `chrono::Utc::now`, then `timestamp`. The reading is the
/// machine's, so nothing is claimed of it; the call panics on a machine
/// whose clock stands before 1970.
#[verifier::external_body]
pub(crate) fn unix_now() -> (now: i64) {
    chrono::Utc::now().timestamp()
}

} // verus!
