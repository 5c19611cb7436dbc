//! Small items exercised by the crate's test suite: an addition helper, a
//! bounded guess, and a rectangle comparison.

use vstd::prelude::*;

verus! {

/// A rectangle used to compare sizes.
#[derive(Debug)]
pub struct Rect {
    pub width: u32,
    pub height: u32,
}

impl Rect {
    /// Whether `other` fits strictly inside `self`.
    pub fn can_hold(&self, other: &Rect) -> (r: bool)
        ensures
            r == (self.width > other.width && self.height > other.height),
    {
        self.width > other.width && self.height > other.height
    }
}

/// A guess known to lie between 1 and 100 inclusive.
pub struct Guess {
    value: i32,
}

impl Guess {
    /// The guessed number.
    pub closed spec fn value(&self) -> i32 {
        self.value
    }

    /// Wraps a number known to be in range; only values from 1 to 100 are
    /// guesses at all, so anything else is excluded here.
    pub fn new(value: i32) -> (g: Guess)
        requires
            1 <= value <= 100,
        ensures
            g.value() == value,
    {
        Guess { value }
    }
}

/// Adds two to a number.
pub fn add_two(a: i32) -> (r: i32)
    requires
        a + 2 <= i32::MAX,
    ensures
        r == a + 2,
{
    a + 2
}

} // verus!
