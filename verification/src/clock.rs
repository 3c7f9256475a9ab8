//! The current time, as seconds and nanoseconds since the Unix epoch.
use vstd::prelude::*;

verus! {

/// The current UTC time in whole seconds since the Unix epoch, read through
/// `chrono::Utc::now`.  It depends on the clock, so nothing is promised of it.
#[verifier::external_body]
fn utc_now_seconds() -> (t: i64) {
    chrono::Utc::now().timestamp()
}

/// The current UTC time in nanoseconds since the Unix epoch (0 when it does not
/// fit), read through `chrono::Utc::now`; nothing is promised of it.
#[verifier::external_body]
fn utc_now_nanos() -> (t: i64) {
    chrono::Utc::now().timestamp_nanos_opt().unwrap_or(0)
}

/// The current time in seconds since the Unix epoch.
pub fn now() -> (t: i64) {
    utc_now_seconds()
}

/// The current time in nanoseconds since the Unix epoch.
pub fn now_nanos() -> (t: i64) {
    utc_now_nanos()
}

} // verus!
