//! Wall-clock acquisition for session timestamps.

use vstd::prelude::*;

verus! {

/// Relies on chrono::Utc::now and chrono::DateTime::timestamp_nanos_opt:
/// the current wall-clock time as whole nanoseconds since the Unix epoch,
/// or `None` when that count does not fit an `i64`.  Nothing can be
/// promised of the clock's value.
#[verifier::external_body]
fn utc_now_raw_ns() -> Option<i64> {
    chrono::Utc::now().timestamp_nanos_opt()
}

/// The current time as non-negative nanoseconds since the Unix epoch.
/// A clock reading before the epoch, or one the clock cannot represent,
/// is reported as the epoch itself.
pub fn now_timestamp_ns() -> u64 {
    match utc_now_raw_ns() {
        Some(n) => if n >= 0 {
            n as u64
        } else {
            0
        },
        None => 0,
    }
}

} // verus!
