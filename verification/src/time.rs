//! Nanosecond time arithmetic shared by the codec and the diagnostic server.
use vstd::prelude::*;

verus! {

/// Nanoseconds in one millisecond.
pub const NANOS_PER_MILLI: u64 = 1_000_000;

/// Nanoseconds in one microsecond.
pub const NANOS_PER_MICRO: u64 = 1_000;

/// `ms` milliseconds expressed in nanoseconds.
pub open spec fn millis(ms: int) -> int {
    ms * 1_000_000
}

/// `us` microseconds expressed in nanoseconds.
pub open spec fn micros(us: int) -> int {
    us * 1_000
}

/// Time elapsed from `since` to `now`, zero when `since` lies in the future.
pub open spec fn elapsed(now: u64, since: u64) -> u64 {
    if now >= since {
        (now - since) as u64
    } else {
        0
    }
}

/// Converts a millisecond count to nanoseconds.
pub fn from_millis(ms: u64) -> (ns: u64)
    requires
        millis(ms as int) <= u64::MAX,
    ensures
        ns == millis(ms as int),
{
    ms * NANOS_PER_MILLI
}

/// Converts a microsecond count to nanoseconds.
pub fn from_micros(us: u64) -> (ns: u64)
    requires
        micros(us as int) <= u64::MAX,
    ensures
        ns == micros(us as int),
{
    us * NANOS_PER_MICRO
}

/// Time elapsed from `since` to `now`, saturating at zero.
pub fn elapsed_since(now: u64, since: u64) -> (d: u64)
    ensures
        d == elapsed(now, since),
{
    now.saturating_sub(since)
}

} // verus!
