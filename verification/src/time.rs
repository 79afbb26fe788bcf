//! Points in time as std measures them; the library carries them through.
use vstd::prelude::*;

verus! {

/// A reading of the monotonic clock.
#[verifier::external_type_specification]
#[verifier::external_body]
pub struct ExInstant(std::time::Instant);

/// A reading of the system clock.
#[verifier::external_type_specification]
#[verifier::external_body]
pub struct ExSystemTime(std::time::SystemTime);

/// The current reading of the monotonic clock; nothing is stated of it.
pub assume_specification[ std::time::Instant::now ]() -> std::time::Instant;

/// The current reading of the system clock; nothing is stated of it.
pub assume_specification[ std::time::SystemTime::now ]() -> std::time::SystemTime;

/// An instant is `Copy`; its clone is the same instant.
pub assume_specification[ <std::time::Instant as Clone>::clone ](i: &std::time::Instant) -> (r:
    std::time::Instant)
    ensures
        r == *i,
;

/// A system time is `Copy`; its clone is the same time.
pub assume_specification[ <std::time::SystemTime as Clone>::clone ](t: &std::time::SystemTime) -> (r:
    std::time::SystemTime)
    ensures
        r == *t,
;

/// `chrono::Utc::now().timestamp_millis()`: the wall clock in milliseconds since
/// the Unix epoch.  Nothing is stated of the reading.
#[verifier::external_body]
pub(crate) fn unix_time_ms() -> i64 {
    chrono::Utc::now().timestamp_millis()
}

/// Milliseconds from clock reading `then` to clock reading `now`; none when `now`
/// is earlier.
pub open spec fn elapsed_ms(now: u64, then: u64) -> int {
    if now >= then {
        now - then
    } else {
        0
    }
}

/// Milliseconds from `then` to `now`, none when `now` is earlier.
pub fn elapsed_between(now: u64, then: u64) -> (d: u64)
    ensures
        d == elapsed_ms(now, then),
{
    if now >= then {
        now - then
    } else {
        0
    }
}

} // verus!
