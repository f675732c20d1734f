//! A rectangle with containment and area checks, and a guess held within
//! fixed bounds.

use vstd::prelude::*;

verus! {

/// A rectangle, by its side lengths.
#[derive(Debug)]
pub struct Rectangle {
    pub width: u32,
    pub height: u32,
}

impl Rectangle {
    /// Can `other` fit strictly inside this rectangle?
    pub fn can_hold(&self, other: &Rectangle) -> (r: bool)
        ensures
            r == (self.width > other.width && self.height > other.height),
    {
        self.width > other.width && self.height > other.height
    }

    /// The area of the rectangle.
    pub fn square(&self) -> (r: u32)
        requires
            self.width * self.height <= u32::MAX,
        ensures
            r == self.width * self.height,
    {
        self.width * self.height
    }
}

/// A guess in a number game; only values between 1 and 100 can be held.
pub struct Guess {
    value: i32,
}

impl Guess {
    /// The held value.
    pub closed spec fn spec_value(&self) -> i32 {
        self.value
    }

    /// Wrap a value between 1 and 100; other values are not accepted.
    pub fn new(value: i32) -> (g: Guess)
        requires
            1 <= value <= 100,
        ensures
            g.spec_value() == value,
    {
        Guess { value }
    }
}

} // verus!
