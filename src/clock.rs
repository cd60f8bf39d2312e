use vstd::prelude::*;

verus! {

/// Relies on chrono's `DateTime<Utc>: From<SystemTime>` and
/// `DateTime::timestamp_millis`: the current wall-clock time in milliseconds
/// since the Unix epoch (negative for a clock set before it). Nothing is
/// promised of the value, which depends on the moment of the call.
#[verifier::external_body]
pub fn now_millis() -> (r: i64) {
    chrono::DateTime::<chrono::Utc>::from(std::time::SystemTime::now()).timestamp_millis()
}

/// Relies on chrono's `DateTime<Utc>: From<SystemTime>` and
/// `DateTime::timestamp`: the current wall-clock time in seconds since the
/// Unix epoch (negative for a clock set before it). Nothing is promised of the
/// value, which depends on the moment of the call.
#[verifier::external_body]
pub fn now_seconds() -> (r: i64) {
    chrono::DateTime::<chrono::Utc>::from(std::time::SystemTime::now()).timestamp()
}

} // verus!
