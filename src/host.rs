//! The host function that the demonstration program lends to compiled code.
use vstd::prelude::*;

verus! {

/// Adds 100 to `x`.
pub fn add_100(x: i32) -> (r: i32)
    requires
        x <= i32::MAX - 100,
    ensures
        r == x + 100,
{
    x + 100
}

} // verus!
