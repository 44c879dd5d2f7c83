//! The wall clock.
use vstd::prelude::*;

verus! {

/// Reads the clock with `chrono::Utc::now().timestamp()`.
///
/// Trusted: the reading is never negative. `Utc::now` measures the time since
/// the Unix epoch and does not return when the system clock stands before it.
/// Nothing else is known of the value: two readings may differ in any way.
#[verifier::external_body]
pub(crate) fn utc_timestamp() -> (r: i64)
    ensures
        r >= 0,
{
    chrono::Utc::now().timestamp()
}

/// The current time, in seconds since the Unix epoch.
pub fn unix_time() -> (now: u64)
    ensures
        now <= i64::MAX,
{
    let reading: i64 = utc_timestamp();
    reading as u64
}

} // verus!
