//! Retry budget and the capped exponential backoff schedule of the
//! download orchestrator.

use vstd::prelude::*;
use vstd::arithmetic::power2::pow2;
use vstd::arithmetic::power2::lemma2_to64;

verus! {

/// Fixed attempt budget of one download invocation.
pub const MAX_DOWNLOAD_ATTEMPTS: u32 = 3;

/// Delay before the second attempt, in milliseconds.
pub const BASE_BACKOFF_MS: u64 = 250;

/// Upper bound on any backoff delay, in milliseconds.
pub const MAX_BACKOFF_MS: u64 = 1500;

/// Delay inserted before attempt number `attempt` (1-based): no delay
/// before the first attempt, then a doubling schedule starting at
/// `BASE_BACKOFF_MS`, capped at `MAX_BACKOFF_MS`.
pub open spec fn spec_backoff_delay(attempt: u32) -> u64 {
    if attempt <= 1 {
        0u64
    } else {
        let shift = if attempt - 2 < 4 {
            attempt - 2
        } else {
            4
        };
        let raw = (BASE_BACKOFF_MS as nat) * pow2(shift as nat);
        if raw > MAX_BACKOFF_MS {
            MAX_BACKOFF_MS
        } else {
            raw as u64
        }
    }
}

/// How long to wait before acting on attempt number `attempt`.
pub fn backoff_delay(attempt: u32) -> (delay: u64)
    ensures
        delay == spec_backoff_delay(attempt),
        delay <= MAX_BACKOFF_MS,
{
    if attempt <= 1 {
        return 0;
    }
    let shift: u32 = if attempt - 2 < 4 {
        attempt - 2
    } else {
        4
    };
    let multiplier: u64 = if shift == 0 {
        1
    } else if shift == 1 {
        2
    } else if shift == 2 {
        4
    } else if shift == 3 {
        8
    } else {
        16
    };
    proof {
        lemma2_to64();
    }
    let raw: u64 = BASE_BACKOFF_MS * multiplier;
    if raw > MAX_BACKOFF_MS {
        MAX_BACKOFF_MS
    } else {
        raw
    }
}

} // verus!
