//! Small documented functions: a documented constant-returning function
//! and a function with an explicit return.

use vstd::prelude::*;

verus! {

/// Returns the number 2.
pub fn document_comment() -> (r: i32)
    ensures
        r == 2,
{
    2
}

/// The successor of its argument.
pub fn function_has_returns(x: i32) -> (r: i32)
    requires
        x < i32::MAX,
    ensures
        r == x + 1,
{
    return x + 1;
}

} // verus!
