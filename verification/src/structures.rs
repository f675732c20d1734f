//! Structure exercises: a user record, tuple-struct vectors, and a
//! rectangle with area and containment checks.

use vstd::prelude::*;

verus! {

/// An account record.
pub struct User {
    pub active: bool,
    pub username: String,
    pub email: String,
    pub sign_in_count: u64,
}

/// A fresh, active account with a single sign-in.
pub fn build_user(email: String, username: String) -> (u: User)
    ensures
        u.active,
        u.username == username,
        u.email == email,
        u.sign_in_count == 1,
{
    User { active: true, username, email, sign_in_count: 1 }
}

/// A point in three dimensions.
pub struct Point(pub i32, pub i32, pub i32);

/// Componentwise vector addition.
pub fn add_vectors(a: Point, b: Point) -> (r: Point)
    requires
        i32::MIN <= a.0 + b.0 <= i32::MAX,
        i32::MIN <= a.1 + b.1 <= i32::MAX,
        i32::MIN <= a.2 + b.2 <= i32::MAX,
    ensures
        r.0 == a.0 + b.0,
        r.1 == a.1 + b.1,
        r.2 == a.2 + b.2,
{
    Point(a.0 + b.0, a.1 + b.1, a.2 + b.2)
}

/// A rectangle, by its side lengths.
#[derive(Debug)]
pub struct Rectangle {
    pub width: u32,
    pub height: u32,
}

impl Rectangle {
    /// The area of the rectangle.
    pub fn area(&self) -> (r: u32)
        requires
            self.width * self.height <= u32::MAX,
        ensures
            r == self.width * self.height,
    {
        self.width * self.height
    }

    /// Can `other` fit strictly inside this rectangle?
    pub fn can_hold(&self, other: &Rectangle) -> (r: bool)
        ensures
            r == (self.width > other.width && self.height > other.height),
    {
        self.width > other.width && self.height > other.height
    }

    /// A square with the given side length.
    pub fn square(size: u32) -> (r: Self)
        ensures
            r.width == size,
            r.height == size,
    {
        Self { width: size, height: size }
    }
}

} // verus!
