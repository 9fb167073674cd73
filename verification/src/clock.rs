//! The moment a key is written or read, as `chrono` gives it.

use vstd::prelude::*;

verus! {

/// Calls `chrono::Utc::now` and `DateTime::timestamp_micros`: the time of the
/// system clock when the call is made, in microseconds since the Unix epoch.
/// Claimed: it is not negative, since `Utc::now` panics where the clock is
/// set before 1970. Which moment it is depends on the clock alone and is not
/// stated.
#[verifier::external_body]
pub(crate) fn current_time() -> (r: i64)
    ensures
        r >= 0,
{
    chrono::Utc::now().timestamp_micros()
}

} // verus!
