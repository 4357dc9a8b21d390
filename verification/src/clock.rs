use vstd::prelude::*;

verus! {

/// chrono: `Utc::now().timestamp_nanos_opt()`, the wall clock in nanoseconds
/// since the UNIX epoch, `None` outside the range of an `i64`. Nothing is
/// claimed of the value: it is the time.
#[verifier::external_body]
pub(crate) fn utc_now_nanos() -> (r: Option<i64>) {
    chrono::Utc::now().timestamp_nanos_opt()
}

/// chrono: `Utc::now().timestamp_millis()`, the wall clock in milliseconds
/// since the UNIX epoch. Nothing is claimed of the value: it is the time.
#[verifier::external_body]
pub(crate) fn utc_now_millis() -> (r: i64) {
    chrono::Utc::now().timestamp_millis()
}

} // verus!
