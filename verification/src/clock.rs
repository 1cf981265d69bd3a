//! Host time: nanoseconds of a monotonic clock since some fixed moment.

use vstd::prelude::*;

verus! {

/// The longest time that is told apart, so that it fits a signed 64-bit field.
pub const MAX_AGE_NS: u64 = 0x7FFF_FFFF_FFFF_FFFF;

/// Time from `since` to `now`, zero if it lies ahead, capped at `MAX_AGE_NS`.
pub open spec fn elapsed(since: u64, now: u64) -> u64 {
    if now <= since {
        0
    } else if now - since > MAX_AGE_NS {
        MAX_AGE_NS
    } else {
        (now - since) as u64
    }
}

pub fn elapsed_ns(since: u64, now: u64) -> (r: u64)
    ensures
        r == elapsed(since, now),
{
    let gap: u64 = now.saturating_sub(since);
    if gap > MAX_AGE_NS {
        MAX_AGE_NS
    } else {
        gap
    }
}

/// The time between two moments in order is their difference, and none if they
/// are not in order; no time is counted as longer than 2^63 - 1 ns.
pub proof fn elapsed_time_is_the_difference(since: u64, now: u64)
    ensures
        since <= now && now - since < 0x8000_0000_0000_0000 ==> elapsed(since, now) == now - since,
        now <= since ==> elapsed(since, now) == 0,
        elapsed(since, now) < 0x8000_0000_0000_0000,
        now > since && now - since >= 0x8000_0000_0000_0000 ==> elapsed(since, now)
            == 0x7FFF_FFFF_FFFF_FFFF,
{
}

} // verus!
