//! The wall clock.
use vstd::prelude::*;

verus! {

/// Relies on std's SystemTime::now and duration_since(UNIX_EPOCH): nanoseconds since
/// the Unix epoch, or zero for a clock set before it. Nothing is known of the value.
#[verifier::external_body]
pub(crate) fn unix_time_nanos() -> (r: u128) {
    std::time::SystemTime::now().duration_since(std::time::UNIX_EPOCH).unwrap_or_default().as_nanos()
}

/// Seconds since the Unix epoch, now.
pub fn chrono_timestamp() -> (r: i64)
    ensures
        r >= 0,
{
    let nanos = unix_time_nanos();
    let secs = nanos / 1_000_000_000;
    if secs > i64::MAX as u128 {
        i64::MAX
    } else {
        secs as i64
    }
}

} // verus!
