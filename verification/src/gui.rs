//! The text model of the interface demo: an owned string wrapper.

use vstd::prelude::*;

verus! {

/// A piece of text shown in the interface.
pub struct Text {
    pub value: String,
}

impl Text {
    /// An empty text.
    pub fn new() -> (t: Text)
        ensures
            t.value@ == Seq::<char>::empty(),
    {
        Text { value: String::new() }
    }

    /// Text copied from a borrowed string.
    pub fn from(value: &str) -> (t: Text)
        ensures
            t.value@ == value@,
    {
        Text { value: value.to_owned() }
    }
}

} // verus!
