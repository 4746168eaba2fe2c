//! The wall clock.
use vstd::prelude::*;
use std::time::{Duration, SystemTime};

verus! {

#[verifier::external_type_specification]
#[verifier::external_body]
pub struct ExSystemTime(SystemTime);

/// `SystemTime::now()`: the machine's clock. Nothing is promised of it.
#[verifier::external_body]
fn system_now() -> SystemTime {
    SystemTime::now()
}

/// `t.duration_since(UNIX_EPOCH)`: the time since the Unix epoch, `None` for a time
/// before it. Nothing more is stated.
#[verifier::external_body]
fn since_epoch(t: &SystemTime) -> Option<Duration> {
    t.duration_since(std::time::UNIX_EPOCH).ok()
}

/// `Duration::as_millis`: the whole milliseconds of `d`. Nothing more is stated.
#[verifier::external_body]
pub(crate) fn duration_millis(d: &Duration) -> u128 {
    d.as_millis()
}

/// `Duration::as_micros`: the whole microseconds of `d`. Nothing more is stated.
#[verifier::external_body]
pub(crate) fn duration_micros(d: &Duration) -> u128 {
    d.as_micros()
}

/// The time since the Unix epoch on the machine's clock, `None` for a clock set before it.
pub(crate) fn now_since_epoch() -> Option<Duration> {
    let t = system_now();
    since_epoch(&t)
}

/// Milliseconds since the Unix epoch, read from the machine's clock (0 for a clock set
/// before the epoch; the count is cut to 64 bits). Nothing is promised of the value.
pub(crate) fn now_millis() -> i64 {
    match now_since_epoch() {
        Some(d) => {
            let ms = duration_millis(&d);
            #[verifier::truncate]
            (ms as i64)
        },
        None => 0,
    }
}

/// The clock as a non-negative count of milliseconds (0 before the epoch).
pub fn now_millis_u64() -> u64 {
    let t = now_millis();
    if t < 0 {
        0
    } else {
        t as u64
    }
}

} // verus!
