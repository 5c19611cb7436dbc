//! Integer-valued pieces of the fractal renderer: the image size and the
//! mapping from iteration counts to shading characters.

use vstd::prelude::*;

verus! {

/// The width and height of the rendered image.
pub struct Size {
    pub width: usize,
    pub height: usize,
}

impl Size {
    /// A size of the given width and height.
    pub fn new(width: usize, height: usize) -> (s: Size)
        ensures
            s.width == width,
            s.height == height,
    {
        Size { width, height }
    }
}

/// The shading character for an escape-iteration count, from the palette
/// the renderer prints with: blank for the fastest escapes up to '%' for
/// points that never escape.
pub fn shade(val: usize) -> (c: char)
    ensures
        c == spec_shade(val as nat),
{
    if val <= 2 {
        ' '
    } else if val <= 5 {
        '.'
    } else if val <= 10 {
        'o'
    } else if val <= 30 {
        '*'
    } else if val <= 100 {
        '+'
    } else if val <= 200 {
        'x'
    } else if val <= 400 {
        '$'
    } else if val <= 700 {
        '#'
    } else {
        '%'
    }
}

/// The shading palette as a function of the iteration count.
pub open spec fn spec_shade(val: nat) -> char {
    if val <= 2 {
        ' '
    } else if val <= 5 {
        '.'
    } else if val <= 10 {
        'o'
    } else if val <= 30 {
        '*'
    } else if val <= 100 {
        '+'
    } else if val <= 200 {
        'x'
    } else if val <= 400 {
        '$'
    } else if val <= 700 {
        '#'
    } else {
        '%'
    }
}

/// Renders one row of iteration counts as its line of shading characters.
pub fn render_row(row: &Vec<usize>) -> (line: Vec<char>)
    ensures
        line@.len() == row@.len(),
        forall|i: int| 0 <= i < row@.len() ==> line@[i] == spec_shade(row@[i] as nat),
{
    let mut line: Vec<char> = Vec::new();
    let mut i: usize = 0;
    while i < row.len()
        invariant
            i <= row@.len(),
            line@.len() == i,
            forall|j: int| 0 <= j < i ==> line@[j] == spec_shade(row@[j] as nat),
        decreases row@.len() - i,
    {
        line.push(shade(row[i]));
        i = i + 1;
    }
    line
}

} // verus!
