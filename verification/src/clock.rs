//! The process clock, behind a trusted boundary.

use vstd::prelude::*;

verus! {

/// Relies on chrono::Utc::now: the current Unix time in milliseconds.
/// Nothing is promised of the clock's reading but its machine bounds;
/// callers state what holds at every instant.
#[verifier::external_body]
pub fn now_unix_millis() -> (r: u64)
    ensures
        r <= i64::MAX as u64,
{
    let ms = chrono::Utc::now().timestamp_millis();
    if ms < 0 {
        0
    } else {
        ms as u64
    }
}

} // verus!
