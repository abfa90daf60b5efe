//! The wall clock. Every rule in the library takes the current time as a
//! plain argument; this is the one place a clock is actually read.

use vstd::prelude::*;

verus! {

/// Relies on `chrono::Utc::now` and `DateTime::timestamp`: the wall clock as
/// unix seconds. Nothing is promised of the value; callers state what holds
/// whatever the clock returned.
#[verifier::external_body]
fn now_unix_raw() -> i64 {
    chrono::Utc::now().timestamp()
}

/// The current unix time in seconds, clamped below at zero so that every
/// age computation stays in unsigned arithmetic.
pub fn unix_now() -> u64 {
    let t = now_unix_raw();
    if t < 0 {
        0
    } else {
        t as u64
    }
}

} // verus!
