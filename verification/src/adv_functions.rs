//! Functions as values: passing a function to a function and returning a
//! closure from one.

use vstd::prelude::*;

verus! {

/// Adds one.
pub fn add_one(x: i32) -> (r: i32)
    requires
        x < i32::MAX,
    ensures
        r == x + 1,
{
    x + 1
}

/// Applies `f` to `arg` twice and adds the results.
pub fn do_twice<F: Fn(i32) -> i32>(f: F, arg: i32) -> (r: i32)
    requires
        f.requires((arg,)),
        forall|o1: i32, o2: i32|
            f.ensures((arg,), o1) && f.ensures((arg,), o2) ==> o1 + o2 <= i32::MAX && o1 + o2
                >= i32::MIN,
    ensures
        exists|o1: i32, o2: i32|
            f.ensures((arg,), o1) && f.ensures((arg,), o2) && r == o1 + o2,
{
    f(arg) + f(arg)
}

/// Hands back a closure that adds one to its argument.
pub fn return_closure() -> (f: impl Fn(i32) -> i32)
    ensures
        forall|x: i32| x < i32::MAX ==> #[trigger] f.requires((x,)),
        forall|x: i32, r: i32| f.ensures((x,), r) ==> r == x + 1,
{
    |x: i32| -> (r: i32)
        requires
            x < i32::MAX,
        ensures
            r == x + 1,
        { x + 1 }
}

/// The worked example: the closure handed back by `return_closure` maps two
/// to three, checked statically.
pub fn closures() {
    let f = return_closure();
    let r = f(2);
    assert(r == 3);
}

} // verus!
