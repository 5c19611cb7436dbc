//! A greeting trait whose implementations announce their own type name,
//! each implementation written out by hand, just as a derive macro would
//! have generated it.

use vstd::prelude::*;

verus! {

/// Announces the implementing type.
pub trait HelloMacro {
    /// The greeting naming the type.
    fn hello_macro() -> String;
}

/// The type the greeting is derived for.
pub struct Pancakes;

impl HelloMacro for Pancakes {
    /// What the derive would have generated for `Pancakes`.
    fn hello_macro() -> (r: String)
        ensures
            r@ == "Hello, Macro! My name is Pancakes!"@,
    {
        "Hello, Macro! My name is Pancakes!".to_owned()
    }
}

/// The worked example: the derived greeting for `Pancakes`.
pub fn procedural() -> (r: String)
    ensures
        r@ == "Hello, Macro! My name is Pancakes!"@,
{
    Pancakes::hello_macro()
}

} // verus!
