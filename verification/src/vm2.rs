//! A sketch of a second machine, of which only the sum is there.

use vstd::prelude::*;

verus! {

/// The sum of two numbers, which must fit.
pub fn add(left: u64, right: u64) -> (sum: u64)
    requires
        left + right <= u64::MAX,
    ensures
        sum == left + right,
{
    left + right
}

} // verus!
