//! Refresh scheduling: when a tick is due, and the user-adjustable
//! refresh interval with its fixed step and bounds.

use vstd::prelude::*;

verus! {

/// Smallest allowed refresh interval, in milliseconds. Never zero, so the
/// refresh loop cannot busy-spin.
pub const MIN_INTERVAL_MS: u64 = 1;

/// Largest allowed refresh interval, in milliseconds.
pub const MAX_INTERVAL_MS: u64 = 10000;

/// One adjustment step of the refresh interval, in milliseconds.
pub const INTERVAL_STEP_MS: u64 = 100;

/// A refresh is due when at least the interval has passed since the last
/// one.
pub open spec fn spec_due(last_ms: u64, interval_ms: u64, now_ms: u64) -> bool {
    now_ms >= last_ms + interval_ms
}

/// Whether a refresh is due at `now_ms`, given the last refresh time and
/// the interval. A clock reading earlier than the last refresh counts as
/// not due.
pub fn due(last_ms: u64, interval_ms: u64, now_ms: u64) -> (r: bool)
    ensures
        r == spec_due(last_ms, interval_ms, now_ms),
{
    if now_ms < last_ms {
        false
    } else {
        now_ms - last_ms >= interval_ms
    }
}

/// The interval one step shorter, held at the lower bound.
pub open spec fn spec_shorter_interval(ms: u64) -> int {
    let stepped = if ms >= INTERVAL_STEP_MS {
        ms - INTERVAL_STEP_MS
    } else {
        0
    };
    if stepped >= MIN_INTERVAL_MS {
        stepped
    } else {
        MIN_INTERVAL_MS as int
    }
}

/// The interval one step longer, held at the upper bound.
pub open spec fn spec_longer_interval(ms: u64) -> int {
    if ms + INTERVAL_STEP_MS <= MAX_INTERVAL_MS {
        ms + INTERVAL_STEP_MS
    } else {
        MAX_INTERVAL_MS as int
    }
}

/// Shorten the refresh interval by one step, at least to the lower bound.
pub fn shorter_interval(ms: u64) -> (r: u64)
    ensures
        r == spec_shorter_interval(ms),
{
    let stepped = if ms >= INTERVAL_STEP_MS {
        ms - INTERVAL_STEP_MS
    } else {
        0
    };
    if stepped >= MIN_INTERVAL_MS {
        stepped
    } else {
        MIN_INTERVAL_MS
    }
}

/// Lengthen the refresh interval by one step, at most to the upper bound.
pub fn longer_interval(ms: u64) -> (r: u64)
    ensures
        r == spec_longer_interval(ms),
{
    if ms <= MAX_INTERVAL_MS - INTERVAL_STEP_MS {
        ms + INTERVAL_STEP_MS
    } else {
        MAX_INTERVAL_MS
    }
}

/// Law: however often the interval is adjusted, in either direction, it
/// stays within its bounds — in particular it never reaches zero.
pub proof fn lemma_interval_bounds(ms: u64)
    ensures
        MIN_INTERVAL_MS <= spec_shorter_interval(ms),
        ms <= MAX_INTERVAL_MS ==> spec_shorter_interval(ms) <= MAX_INTERVAL_MS,
        spec_longer_interval(ms) <= MAX_INTERVAL_MS,
        MIN_INTERVAL_MS <= ms ==> MIN_INTERVAL_MS <= spec_longer_interval(ms),
{
}

} // verus!
