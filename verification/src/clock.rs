//! The system clock.

use vstd::prelude::*;

verus! {

/// Calls `chrono::Utc::now` and reads the `timestamp` of what it returns: the
/// whole seconds from 1970-01-01T00:00:00Z to now on the system clock.
/// `Utc::now` makes its result with `DateTime::from_timestamp`, which takes
/// only seconds whose day, counted as `seconds / 86_400 + 719_163`, fits an
/// `i32`. It panics where the system clock stands before 1970.
#[verifier::external_body]
pub(crate) fn unix_now() -> (seconds: i64)
    ensures
        seconds / 86_400 + 719_163 <= i32::MAX,
{
    chrono::Utc::now().timestamp()
}

} // verus!
