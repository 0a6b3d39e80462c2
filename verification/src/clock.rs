//! The wall clock, read through `std::time::SystemTime` (and, for the
//! names of queued events, through `chrono`).
//!
//! Nothing is promised of what the clock reads: the callers' contracts hold
//! whatever it returns.
use vstd::prelude::*;

verus! {

/// `SystemTime::now().duration_since(UNIX_EPOCH)`, as whole seconds and the
/// nanoseconds within the second (std documents the latter to be below one
/// billion); a clock set before the epoch reads as zero.
#[verifier::external_body]
pub(crate) fn unix_time() -> (r: (u64, u32))
    ensures
        r.1 < 1_000_000_000,
{
    match std::time::SystemTime::now().duration_since(std::time::UNIX_EPOCH) {
        Ok(d) => (d.as_secs(), d.subsec_nanos()),
        Err(_) => (0, 0),
    }
}

/// Milliseconds from whole seconds and the nanoseconds within the second
/// (`Duration::as_millis`).
pub open spec fn millis_of(secs: u64, nanos: u32) -> int {
    secs * 1000 + nanos / 1_000_000
}

/// `Duration::as_millis` of a duration given as seconds and nanoseconds.
pub fn duration_millis(secs: u64, nanos: u32) -> (r: u128)
    ensures
        r == millis_of(secs, nanos),
{
    (secs as u128) * 1000 + (nanos as u128) / 1_000_000
}

/// The current time since the Unix epoch in whole seconds.
pub fn unix_time_secs() -> (r: u64) {
    let (secs, _) = unix_time();
    secs
}

/// The current time in milliseconds, truncated to 32 bits (as the run state
/// reports carry it).
pub fn now_ms_u32() -> (r: u32) {
    let (secs, nanos) = unix_time();
    let ms = duration_millis(secs, nanos);
    ms as u32
}

/// The current time in milliseconds since the Unix epoch, read as
/// `chrono::DateTime::<Utc>::from(SystemTime::now()).timestamp_millis()`;
/// chrono's conversion takes a clock set before the epoch as a negative
/// time. It depends on the machine's clock, so nothing is claimed of it.
#[verifier::external_body]
pub(crate) fn now_ms_i64() -> (r: i64) {
    chrono::DateTime::<chrono::Utc>::from(std::time::SystemTime::now()).timestamp_millis()
}

/// A weak random suffix for event names: the nanoseconds within the current
/// second.
pub fn rand_suffix() -> (r: u32)
    ensures
        r < 1_000_000_000,
{
    let (_, nanos) = unix_time();
    nanos
}

} // verus!
