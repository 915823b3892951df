//! The wall clock, as the storage layer sees it.

use vstd::prelude::*;

verus! {

/// Relies on `chrono::Local::now`: the current local wall-clock instant,
/// taken as a naive (zone-less) timestamp and counted in microseconds since
/// the epoch. Nothing is promised of the value: the clock may move freely
/// between calls.
#[verifier::external_body]
pub(crate) fn now_micros() -> i64 {
    chrono::Local::now().naive_local().and_utc().timestamp_micros()
}

} // verus!
