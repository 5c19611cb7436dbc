//! Trait techniques: a minimal iterator shape, operator-style addition,
//! associated functions, and the underline-printing supertrait replaced by
//! an explicit text method.

use crate::strconv::{i64_to_string, spec_decimal_int};
use vstd::prelude::*;

verus! {

/// The shape of an iterator, with the item type left to the implementor.
pub trait Iterator {
    /// The type of the items handed out.
    type Item;

    /// The next item, or `None` once the iterator is over.
    fn next(&mut self) -> Option<Self::Item>;
}

/// A point on the plane.
#[derive(Debug, PartialEq, Eq, Structural, Clone, Copy)]
pub struct Point {
    pub x: i32,
    pub y: i32,
}

impl Point {
    /// Componentwise addition, written as a plain method.
    pub fn add(self, other: Point) -> (r: Point)
        requires
            i32::MIN <= self.x + other.x <= i32::MAX,
            i32::MIN <= self.y + other.y <= i32::MAX,
        ensures
            r.x == self.x + other.x,
            r.y == self.y + other.y,
    {
        Point { x: self.x + other.x, y: self.y + other.y }
    }
}

/// Adding two points adds their coordinates, checked statically.
pub fn operator_overload() {
    let sum = (Point { x: 1, y: 0 }).add(Point { x: 2, y: 3 });
    assert(sum == (Point { x: 3, y: 3 }));
}

/// A length in millimetres.
pub struct Millimeters(pub u32);

/// A length in metres.
pub struct Meters(pub u32);

impl Millimeters {
    /// Adds a metre length to a millimetre length.
    pub fn add(self, other: Meters) -> (r: Millimeters)
        requires
            self.0 + other.0 * 1000 <= u32::MAX,
        ensures
            r.0 == self.0 + other.0 * 1000,
    {
        Millimeters(self.0 + other.0 * 1000)
    }
}

/// Things whose young have a name of their own.
pub trait Animal {
    /// What a baby of this animal is called.
    fn baby_name() -> String;
}

/// A dog.
pub struct Dog;

impl Dog {
    /// What this particular dog's puppy is called.
    pub fn baby_name() -> (r: String)
        ensures
            r@ == "Spot"@,
    {
        "Spot".to_owned()
    }
}

impl Animal for Dog {
    /// What a baby dog is called in general.
    fn baby_name() -> (r: String)
        ensures
            r@ == "Puppy"@,
    {
        "Puppy".to_owned()
    }
}

/// A line of hyphens as long as `len`.
fn dashes(len: usize) -> (r: String)
    ensures
        r@ == Seq::new(len as nat, |i: int| '-'),
{
    let mut s = String::new();
    let mut i: usize = 0;
    proof {
        reveal_strlit("-");
    }
    while i < len
        invariant
            i <= len,
            s@ == Seq::new(i as nat, |j: int| '-'),
        decreases len - i,
    {
        s.append("-");
        proof {
            reveal_strlit("-");
            assert("-"@ =~= seq!['-']);
            assert(s@ =~= Seq::new((i + 1) as nat, |j: int| '-'));
        }
        i = i + 1;
    }
    s
}

/// Things that can print themselves with an underline.  The text to
/// display is a method of the trait itself.
pub trait UnderlinePrint {
    /// The text to display.
    fn display_text(&self) -> String;

    /// The text over a line of hyphens of the same length.
    fn underline_print(&self) -> String;
}

/// A text over a line of hyphens of the same length.
pub open spec fn spec_underlined(text: Seq<char>) -> Seq<char> {
    text + "\n"@ + Seq::new(text.len(), |i: int| '-')
}

/// Puts `text` over a line of hyphens of equal length.
pub fn underline(text: &str) -> (r: String)
    ensures
        r@ == spec_underlined(text@),
{
    let mut s = text.to_owned();
    s.append("\n");
    let line = dashes(text.unicode_len());
    s.append(line.as_str());
    s
}

impl UnderlinePrint for Point {
    /// "(x, y)".
    fn display_text(&self) -> (r: String)
        ensures
            r@ == "("@ + spec_decimal_int(self.x as int) + ", "@ + spec_decimal_int(
                self.y as int,
            ) + ")"@,
    {
        let mut s = "(".to_owned();
        s.append(i64_to_string(self.x as i64).as_str());
        s.append(", ");
        s.append(i64_to_string(self.y as i64).as_str());
        s.append(")");
        s
    }

    fn underline_print(&self) -> (r: String)
        ensures
            r@ == spec_underlined(
                "("@ + spec_decimal_int(self.x as int) + ", "@ + spec_decimal_int(self.y as int)
                    + ")"@,
            ),
    {
        let text = self.display_text();
        underline(text.as_str())
    }
}

/// The supertrait example: a point printed and underlined.
pub fn supertraits() -> (r: String)
    ensures
        r@ == spec_underlined("("@ + spec_decimal_int(1) + ", "@ + spec_decimal_int(2) + ")"@),
{
    let p = Point { x: 1, y: 2 };
    p.underline_print()
}

/// A list of strings wrapped so that local traits can apply to it.
pub struct Wrapper(pub Vec<String>);

impl UnderlinePrint for Wrapper {
    /// "[first,second,...]": the entries joined with commas, in brackets.
    fn display_text(&self) -> (r: String)
        ensures
            r@ == seq!['['] + spec_join(self.0.deep_view()) + seq![']'],
    {
        proof {
            reveal_strlit("[");
            reveal_strlit("]");
            reveal_strlit(",");
            assert("["@ =~= seq!['[']);
            assert("]"@ =~= seq![']']);
            assert(","@ =~= seq![',']);
        }
        let mut s = "[".to_owned();
        let mut i: usize = 0;
        while i < self.0.len()
            invariant
                i <= self.0@.len(),
                s@ == seq!['['] + spec_join(self.0.deep_view().take(i as int)),
            decreases self.0@.len() - i,
        {
            proof {
                reveal_strlit(",");
                assert(","@ =~= seq![',']);
                assert(self.0.deep_view().take(i + 1).drop_last() =~= self.0.deep_view().take(
                    i as int,
                ));
                assert(self.0.deep_view().take(i + 1).last() == self.0@[i as int]@);
            }
            if i > 0 {
                s.append(",");
            }
            s.append(self.0[i].as_str());
            proof {
                assert(s@ =~= seq!['['] + spec_join(self.0.deep_view().take(i + 1)));
            }
            i = i + 1;
        }
        proof {
            assert(self.0.deep_view().take(self.0@.len() as int) =~= self.0.deep_view());
        }
        s.append("]");
        s
    }

    fn underline_print(&self) -> (r: String)
        ensures
            r@ == spec_underlined(seq!['['] + spec_join(self.0.deep_view()) + seq![']']),
    {
        let text = self.display_text();
        underline(text.as_str())
    }
}

/// The entries joined with commas: empty for no entries, otherwise each
/// entry after the first behind a comma.
pub open spec fn spec_join(entries: Seq<Seq<char>>) -> Seq<char>
    decreases entries.len(),
{
    if entries.len() == 0 {
        Seq::empty()
    } else if entries.len() == 1 {
        entries[0]
    } else {
        spec_join(entries.drop_last()) + seq![','] + entries.last()
    }
}

/// The newtype example: a wrapped list printed and underlined.
pub fn newtype() -> (r: String)
    ensures
        r@ == spec_underlined(seq!['['] + "Hello"@ + seq![','] + "world"@ + seq![']']),
{
    let mut entries: Vec<String> = Vec::new();
    entries.push("Hello".to_owned());
    entries.push("world".to_owned());
    let wrapper = Wrapper(entries);
    let r = wrapper.underline_print();
    proof {
        let dv = wrapper.0.deep_view();
        assert(dv.len() == 2);
        assert(dv[0] == "Hello"@);
        assert(dv[1] == "world"@);
        assert(dv.drop_last() =~= seq!["Hello"@]);
        assert(spec_join(seq!["Hello"@]) == "Hello"@);
        assert(spec_join(dv) =~= "Hello"@ + seq![','] + "world"@);
    }
    r
}

} // verus!
