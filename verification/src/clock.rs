use vstd::prelude::*;

verus! {

/// Relies on chrono's `Utc::now`, read as milliseconds since the Unix epoch.
/// The value depends on when the call happens, so nothing is promised of it.
#[verifier::external_body]
pub(crate) fn now_utc_millis() -> i64 {
    chrono::Utc::now().timestamp_millis()
}

} // verus!
