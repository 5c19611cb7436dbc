//! Destructuring a struct with patterns, checked statically.

use vstd::prelude::*;

verus! {

/// A point on the plane.
pub struct Point {
    pub x: i32,
    pub y: i32,
}

/// Destructures a point two ways — naming the bindings and with the
/// shorthand — and checks that the pieces are the original fields.
pub fn destructure_struct() {
    let p = Point { x: 0, y: 7 };

    let Point { x: a, y: b } = p;
    assert(a == 0);
    assert(b == 7);

    let Point { x, y } = p;
    assert(x == 0);
    assert(y == 7);
}

} // verus!
