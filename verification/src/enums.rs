//! Enum exercises: optional increment and a pair of states with their
//! years of admission.

use vstd::prelude::*;

verus! {

/// Adds one inside the option, passing absence through.
pub fn plus_one(x: Option<i32>) -> (r: Option<i32>)
    requires
        x matches Some(i) ==> i < i32::MAX,
    ensures
        r == match x {
            None => None::<i32>,
            Some(i) => Some((i + 1) as i32),
        },
{
    match x {
        None => None,
        Some(i) => Some(i + 1),
    }
}

/// A state of the union.
pub enum UsState {
    Alabama,
    Alaska,
}

impl UsState {
    /// Did the state already exist in the given year?
    pub fn existed_in(&self, year: u16) -> (r: bool)
        ensures
            r == match *self {
                UsState::Alabama => year >= 1819,
                UsState::Alaska => year >= 1959,
            },
    {
        match self {
            UsState::Alabama => year >= 1819,
            UsState::Alaska => year >= 1959,
        }
    }
}

} // verus!
