//! The Q7 fixed-point number: one sign bit and seven fraction bits.
//!
//! Conversions to and from the machine's floating-point types live at the
//! crate's boundary; the verified library holds the representation itself.

use vstd::prelude::*;

verus! {

/// A Q7 fixed-point number: the stored byte denotes the value divided by
/// 128, covering -1 to just under 1.
#[derive(Debug, Clone, Copy, PartialEq, Eq, Structural)]
pub struct Q7(pub i8);

impl Q7 {
    /// The raw stored byte.
    pub fn bits(&self) -> (b: i8)
        ensures
            b == self.0,
    {
        self.0
    }

    /// The Q7 number stored as the given byte.
    pub fn from_bits(b: i8) -> (q: Q7)
        ensures
            q.0 == b,
    {
        Q7(b)
    }
}

} // verus!
