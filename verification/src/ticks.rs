//! Logical time.
//!
//! The core never reads a clock; callers hand in the current tick and
//! every deadline, visibility bound and expiry is computed from it with
//! saturating arithmetic, so late times clamp to the largest tick
//! instead of wrapping around.

use vstd::prelude::*;

verus! {

/// `a + b`, clamped to the largest tick.
pub open spec fn spec_sat_add(a: u64, b: u64) -> u64 {
    if a + b > u64::MAX {
        u64::MAX
    } else {
        (a + b) as u64
    }
}

pub fn sat_add(a: u64, b: u64) -> (r: u64)
    ensures
        r == spec_sat_add(a, b),
{
    if b > u64::MAX - a {
        u64::MAX
    } else {
        a + b
    }
}

} // verus!
