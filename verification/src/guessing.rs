//! A guess constrained to the range 1 to 100.

use vstd::prelude::*;

verus! {

/// A guess known to lie between 1 and 100 inclusive.
pub struct Guess {
    value: i32,
}

impl Guess {
    /// The guessed number.
    pub closed spec fn value(&self) -> i32 {
        self.value
    }

    /// The range every constructed guess lies in.
    pub open spec fn wf(&self) -> bool {
        1 <= self.value() <= 100
    }

    /// Wraps a number known to be in range; only values from 1 to 100 are
    /// guesses at all, so anything else is excluded here.
    pub fn new(value: i32) -> (g: Guess)
        requires
            1 <= value <= 100,
        ensures
            g.value() == value,
            g.wf(),
    {
        Guess { value }
    }

    /// The guessed number.
    pub fn get(&self) -> (v: i32)
        ensures
            v == self.value(),
    {
        self.value
    }
}

} // verus!
