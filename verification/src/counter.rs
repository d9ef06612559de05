//! Event counters that wrap around on overflow, as atomic `fetch_add` does.
use vstd::prelude::*;

verus! {

/// The value after `x` in a wrapping `u64` counter.
pub open spec fn count_up(x: u64) -> u64 {
    if x == u64::MAX {
        0
    } else {
        (x + 1) as u64
    }
}

} // verus!
