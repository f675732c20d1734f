//! Vegetables of the garden, and asparagus in particular.

use super::has_eaten_before;
use super::Vegetables;

use vstd::prelude::*;

verus! {

/// The asparagus of the garden.
#[derive(Debug)]
pub struct Asparagus {}

impl Asparagus {
    /// Asparagus has never been eaten before.
    pub fn has_eaten_asparagus() -> (r: bool)
        ensures
            !r,
    {
        has_eaten_before(Vegetables::Asparagus)
    }
}

} // verus!
