//! The time of the system clock, in milliseconds since the Unix epoch.

use vstd::prelude::*;

verus! {

/// `std::time::SystemTime`: a reading of the system clock. Nothing is known
/// of what is inside.
#[verifier::external_type_specification]
#[verifier::external_body]
pub struct ExSystemTime(std::time::SystemTime);

/// `std::time::SystemTime::now`. Nothing is claimed of the result.
#[verifier::external_body]
fn system_now() -> (r: std::time::SystemTime) {
    std::time::SystemTime::now()
}

/// `std::time::SystemTime::duration_since` the Unix epoch; `None` where the
/// clock stands before it. Nothing else is claimed of the result.
#[verifier::external_body]
fn since_epoch(now: &std::time::SystemTime) -> (r: Option<std::time::Duration>) {
    now.duration_since(std::time::UNIX_EPOCH).ok()
}

/// `std::time::Duration::as_millis`. Nothing is claimed of the result.
#[verifier::external_body]
fn whole_millis(elapsed: &std::time::Duration) -> (r: u128) {
    elapsed.as_millis()
}

/// The timestamp for a clock that stands `elapsed_ms` milliseconds after the
/// epoch, or before the epoch where `elapsed_ms` is `None`: the milliseconds
/// themselves while they fit, and `0` for a clock before the epoch.
pub fn timestamp_of(elapsed_ms: Option<u128>) -> (r: i64)
    ensures
        elapsed_ms.is_none() ==> r == 0,
        elapsed_ms matches Some(ms) ==> (ms <= i64::MAX ==> r == ms),
{
    match elapsed_ms {
        Some(ms) => {
            #[verifier::truncate]
            let timestamp = ms as i64;
            timestamp
        },
        None => 0,
    }
}

/// The time now, in milliseconds since the Unix epoch.
pub fn now_ms() -> (r: i64) {
    let now = system_now();
    match since_epoch(&now) {
        Some(elapsed) => timestamp_of(Some(whole_millis(&elapsed))),
        None => timestamp_of(None),
    }
}

/// The timestamp that the store writes on a record it creates or changes.
pub fn now_timestamp_ms() -> (r: i64) {
    now_ms()
}

} // verus!
