//! Wall-clock access. Packet processing stamps events with the current
//! Unix time in milliseconds; everything downstream treats the stamp as an
//! opaque input, so nothing is assumed about what the clock returns.

use vstd::prelude::*;

verus! {

/// Relies on chrono's Utc::now and DateTime::timestamp_millis: the current
/// Unix time in milliseconds. The value depends on the system clock, so
/// nothing is promised of it; the process aborts if the system clock is
/// set before the Unix epoch.
#[verifier::external_body]
fn current_timestamp_millis() -> i64 {
    chrono::Utc::now().timestamp_millis()
}

/// The current Unix time in milliseconds, clamped to zero for clocks set
/// before the epoch.
pub fn now_ms() -> (r: u64)
{
    let t = current_timestamp_millis();
    if t < 0 {
        0
    } else {
        t as u64
    }
}

} // verus!
