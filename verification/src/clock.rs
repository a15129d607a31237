//! The wall clock.
use vstd::prelude::*;

verus! {

/// Calls `chrono::Utc::now` and gives its `timestamp_millis`, the milliseconds since the
/// Unix epoch. Nothing is stated of the value: it is the time at the call.
#[verifier::external_body]
pub(crate) fn now_millis() -> i64 {
    chrono::Utc::now().timestamp_millis()
}

} // verus!
