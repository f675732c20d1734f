//! The garden: vegetables and which of them have been eaten before.

pub mod vegetables;

use vstd::prelude::*;

verus! {

/// A vegetable of the garden.
pub enum Vegetables {
    Broccoli,
    Carrot,
    Onion,
    Potato,
    Pumpkin,
    Asparagus,
}

/// Every vegetable but broccoli and asparagus has been eaten before.
pub fn has_eaten_before(input: Vegetables) -> (r: bool)
    ensures
        r == match input {
            Vegetables::Broccoli => false,
            Vegetables::Asparagus => false,
            _ => true,
        },
{
    match input {
        Vegetables::Broccoli => false,
        Vegetables::Asparagus => false,
        _ => true,
    }
}

} // verus!
