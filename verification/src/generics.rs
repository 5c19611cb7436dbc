//! Generic functions and types: the largest element of a slice, a generic
//! point, summaries behind a trait, and lifetime-carrying borrows.

use core::cmp::Ordering;
use vstd::prelude::*;
use vstd::std_specs::cmp::PartialOrdSpec;

verus! {

/// The largest element of the slice: `None` exactly when it is empty.
///
/// For types whose comparison operators follow a lawful partial order —
/// which `vstd::laws_cmp` establishes for the primitive types — no element
/// compares greater than the result.
pub fn largest<T: PartialOrd + Copy>(list: &[T]) -> (r: Option<T>)
    ensures
        r is None <==> list@.len() == 0,
        r matches Some(m) ==> list@.contains(m),
        (T::obeys_partial_cmp_spec()
            && vstd::laws_cmp::obeys_partial_cmp_spec_properties::<T>()) ==> (r matches Some(m)
            ==> forall|i: int|
                0 <= i < list@.len() ==> list@[i].partial_cmp_spec(&m) != Some(Ordering::Greater)),
{
    if list.len() == 0 {
        return None;
    }

    let mut largest: T = list[0];
    let ghost lawful = T::obeys_partial_cmp_spec()
        && vstd::laws_cmp::obeys_partial_cmp_spec_properties::<T>();

    let mut i: usize = 0;
    while i < list.len()
        invariant
            0 < list@.len(),
            0 <= i <= list@.len(),
            list@.contains(largest),
            lawful == (T::obeys_partial_cmp_spec()
                && vstd::laws_cmp::obeys_partial_cmp_spec_properties::<T>()),
            lawful ==> forall|j: int|
                0 <= j < i ==> list@[j].partial_cmp_spec(&largest) != Some(Ordering::Greater),
        decreases list@.len() - i,
    {
        let elem = list[i];
        if elem.gt(&largest) {
            proof {
                if lawful {
                    reveal(vstd::laws_cmp::obeys_partial_cmp_spec_properties);
                    assert(elem.partial_cmp_spec(&largest) == Some(Ordering::Greater));
                    assert forall|j: int|
                        0 <= j < i implies list@[j].partial_cmp_spec(&elem) != Some(
                        Ordering::Greater,
                    ) by {
                        if list@[j].partial_cmp_spec(&elem) == Some(Ordering::Greater) {
                            assert(list@[j].partial_cmp_spec(&largest) == Some(Ordering::Greater));
                        }
                    }
                }
            }
            largest = elem;
            proof {
                assert(list@[i as int] == largest);
            }
        }
        i = i + 1;
    }
    Some(largest)
}

/// A point with coordinates of any one type.
#[derive(Debug)]
pub struct Point<T> {
    pub x: T,
    pub y: T,
}

impl<T> Point<T> {
    /// A borrow of the x coordinate.
    pub fn x(&self) -> (r: &T)
        ensures
            *r == self.x,
    {
        &self.x
    }
}

/// Something that can summarise itself.
pub trait Summary {
    /// The author line of the summary.
    fn author(&self) -> String;

    /// The full summary.
    fn summarize(&self) -> String;

    /// The fallback summary: a teaser around the author line.
    fn default_summary(&self) -> String;
}

/// A news article.
pub struct Article {
    pub headline: String,
    pub author: String,
    pub content: String,
}

impl Summary for Article {
    /// The author's name, as given.
    fn author(&self) -> (r: String)
        ensures
            r@ == self.author@,
    {
        self.author.clone()
    }

    /// "headline [author] content".
    fn summarize(&self) -> (r: String)
        ensures
            r@ == self.headline@ + " ["@ + self.author@ + "] "@ + self.content@,
    {
        let mut s = self.headline.clone();
        s.append(" [");
        s.append(self.author.as_str());
        s.append("] ");
        s.append(self.content.as_str());
        s
    }

    /// "Read more from {author}...".
    fn default_summary(&self) -> (r: String)
        ensures
            r@ == "Read more from "@ + self.author@ + "..."@,
    {
        let mut s = "Read more from ".to_owned();
        s.append(self.author.as_str());
        s.append("...");
        s
    }
}

/// A short post by one user.
pub struct Tweet {
    pub username: String,
    pub content: String,
}

impl Summary for Tweet {
    /// The user name behind an at-sign.
    fn author(&self) -> (r: String)
        ensures
            r@ == "@"@ + self.username@,
    {
        let mut s = "@".to_owned();
        s.append(self.username.as_str());
        s
    }

    /// "@username: content".
    fn summarize(&self) -> (r: String)
        ensures
            r@ == "@"@ + self.username@ + ": "@ + self.content@,
    {
        let mut s = "@".to_owned();
        s.append(self.username.as_str());
        s.append(": ");
        s.append(self.content.as_str());
        s
    }

    /// "Read more from @username...".
    fn default_summary(&self) -> (r: String)
        ensures
            r@ == "Read more from "@ + "@"@ + self.username@ + "..."@,
    {
        let mut s = "Read more from ".to_owned();
        s.append("@");
        s.append(self.username.as_str());
        s.append("...");
        s
    }
}

/// The longer of two strings, measured in characters; ties go to the
/// second.
pub fn longest<'a>(x: &'a str, y: &'a str) -> (r: &'a str)
    ensures
        x@.len() > y@.len() ==> r@ == x@,
        x@.len() <= y@.len() ==> r@ == y@,
{
    if x.unicode_len() > y.unicode_len() {
        x
    } else {
        y
    }
}

/// An excerpt borrowing part of a longer text.
pub struct Excerpt<'a> {
    pub part: &'a str,
}

impl<'a> Excerpt<'a> {
    /// The importance level of an excerpt; always three.
    pub fn level(&self) -> (r: i32)
        ensures
            r == 3,
    {
        3
    }

    /// Hands the borrowed part back.
    pub fn announce_and_return_part(&self, _announcement: &str) -> (r: &'a str)
        ensures
            r@ == self.part@,
    {
        self.part
    }
}

} // verus!
