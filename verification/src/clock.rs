//! The wall clock.

use vstd::prelude::*;

verus! {

/// Seconds since the Unix epoch, as `chrono::Utc::now().timestamp()` reads
/// them from the system clock, in the type in which credentials count
/// seconds. Nothing is promised of the value: two calls may differ in either
/// direction. The call panics where the system clock stands before 1970 or
/// beyond the range of `chrono::DateTime`.
#[verifier::external_body]
pub(crate) fn unix_now() -> (seconds: usize) {
    chrono::Utc::now().timestamp() as usize
}

} // verus!
