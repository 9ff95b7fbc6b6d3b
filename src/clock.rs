use vstd::prelude::*;

verus! {

/// Relies on std's `SystemTime::now` and chrono's `From<SystemTime> for
/// DateTime<Utc>` with `DateTime::timestamp_millis`: the wall clock in
/// milliseconds since the Unix epoch, negative for a clock set before it.
/// Nothing is promised of the value.
#[verifier::external_body]
pub fn now_millis() -> (r: i64) {
    chrono::DateTime::<chrono::Utc>::from(std::time::SystemTime::now()).timestamp_millis()
}

} // verus!
