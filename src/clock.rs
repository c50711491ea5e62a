//! Wall-clock time.
use vstd::prelude::*;

verus! {

/// Relies on `chrono::Utc::now` and `DateTime::timestamp`: the current time
/// in whole seconds since the Unix epoch. Nothing is known of the value.
#[verifier::external_body]
pub fn unix_now() -> (r: i64) {
    chrono::Utc::now().timestamp()
}

} // verus!
