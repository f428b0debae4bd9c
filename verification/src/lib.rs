//! Numeric helper operations for a dynamically typed host runtime:
//! pairwise addition and sequential left-fold ("reduce") engines, together
//! with the bridge that hands values across the host's foreign-function
//! boundary.

pub mod engine;
pub mod host;

use vstd::prelude::*;

verus! {

/// Pure native addition on fixed-width unsigned integers.
///
/// The overflow policy is wrapping: the result is the mathematical sum
/// reduced modulo 2^64. This is an explicit decision, stated in the
/// contract rather than left to chance.
pub fn add_native(a: u64, b: u64) -> (r: u64)
    ensures
        r == (a + b) % 0x1_0000_0000_0000_0000,
{
    a.wrapping_add(b)
}

} // verus!
