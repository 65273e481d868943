//! The wall clock, read through `chrono`.

use vstd::prelude::*;

verus! {

/// `chrono::Utc::now()` and `DateTime::timestamp_millis`: the milliseconds
/// since the Unix epoch. Nothing is proved of it. `Utc::now` does not return
/// while the system clock stands before the epoch, so a reading is never
/// negative; that is all the contract claims.
#[verifier::external_body]
pub(crate) fn now_millis() -> (now: i64)
    ensures
        now >= 0,
{
    chrono::Utc::now().timestamp_millis()
}

} // verus!
