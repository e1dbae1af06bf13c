//! The clock, behind a trusted boundary.

use vstd::prelude::*;

verus! {

/// Relies on `chrono::Local::now` and `DateTime::timestamp_millis`: the
/// current local instant, as milliseconds since the Unix epoch. Nothing is
/// promised of the value; every caller states what holds whatever instant
/// comes back.
#[verifier::external_body]
pub fn now_millis() -> i64 {
    chrono::Local::now().timestamp_millis()
}

} // verus!
