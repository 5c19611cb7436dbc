//! Rectangles and their areas, together with a simple `User` record.

use vstd::prelude::*;

verus! {

/// A rectangle described by its width and height in pixels.
#[derive(Debug)]
pub struct Rect {
    pub width: u32,
    pub height: u32,
}

impl Rect {
    /// The area of the rectangle.
    pub fn area(&self) -> (a: u32)
        requires
            self.width * self.height <= u32::MAX,
        ensures
            a == self.width * self.height,
    {
        self.width * self.height
    }

    /// Whether `other` fits strictly inside `self`.
    pub fn can_hold(&self, other: &Rect) -> (r: bool)
        ensures
            r == (self.width > other.width && self.height > other.height),
    {
        self.width > other.width && self.height > other.height
    }

    /// A square with the given side length.
    pub fn square(size: u32) -> (r: Rect)
        ensures
            r.width == size,
            r.height == size,
    {
        Rect { width: size, height: size }
    }
}

/// The area of a rectangle given as two sides.
pub fn area_simple(width: u32, height: u32) -> (a: u32)
    requires
        width * height <= u32::MAX,
    ensures
        a == width * height,
{
    width * height
}

/// The area of a rectangle given as a (width, height) tuple.
pub fn area_tuple(dimensions: (u32, u32)) -> (a: u32)
    requires
        dimensions.0 * dimensions.1 <= u32::MAX,
    ensures
        a == dimensions.0 * dimensions.1,
{
    dimensions.0 * dimensions.1
}

/// The area of a rectangle given by reference.
pub fn area(rect: &Rect) -> (a: u32)
    requires
        rect.width * rect.height <= u32::MAX,
    ensures
        a == rect.width * rect.height,
{
    rect.width * rect.height
}

/// An account record.
pub struct User {
    pub username: String,
    pub email: String,
    pub sign_in_count: u64,
    pub active: bool,
}

/// Builds a fresh, inactive account from an email address and a user name.
pub fn build_user(email: String, username: String) -> (u: User)
    ensures
        u.email@ == email@,
        u.username@ == username@,
        u.sign_in_count == 0,
        !u.active,
{
    User { email, username, sign_in_count: 0, active: false }
}

} // verus!
