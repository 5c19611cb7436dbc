//! Hand-rolled iteration: a minimal iterator trait, a bounded counter, and
//! filtering shoes by size.

use vstd::prelude::*;

verus! {

/// The shape of an iterator: repeatedly hand out the next item until there
/// is none.
pub trait IteratorExample {
    /// The type of the items handed out.
    type Item;

    /// The next item, or `None` once the iterator is exhausted.
    fn next(&mut self) -> Option<Self::Item>;
}

/// A shoe: its size and its style.
#[derive(PartialEq, Debug)]
pub struct Shoe {
    pub size: u32,
    pub style: String,
}

/// Keeps exactly the shoes of the given size, in their original order.
pub fn shoes_in_my_size(shoes: Vec<Shoe>, shoe_size: u32) -> (r: Vec<Shoe>)
    ensures
        r@ == shoes@.filter(|s: Shoe| s.size == shoe_size),
{
    broadcast use vstd::seq_lib::group_seq_properties;

    let ghost orig = shoes@;
    let mut rest = shoes;
    let mut result: Vec<Shoe> = Vec::new();
    let ghost mut i: int = 0;
    proof {
        assert(orig.subrange(0, 0).filter(|s: Shoe| s.size == shoe_size) =~= Seq::empty());
    }
    while rest.len() > 0
        invariant
            0 <= i <= orig.len(),
            rest@ == orig.subrange(i, orig.len() as int),
            result@ == orig.subrange(0, i).filter(|s: Shoe| s.size == shoe_size),
        decreases rest@.len(),
    {
        let s = rest.remove(0);
        proof {
            assert(s == orig[i]);
            assert(rest@ =~= orig.subrange(i + 1, orig.len() as int));
            assert(orig.subrange(0, i + 1).drop_last() =~= orig.subrange(0, i));
            assert(orig.subrange(0, i + 1).last() == orig[i]);
            reveal(Seq::filter);
        }
        if s.size == shoe_size {
            result.push(s);
        }
        proof {
            i = i + 1;
        }
    }
    proof {
        assert(orig.subrange(0, orig.len() as int) =~= orig);
    }
    result
}

/// Counts from one up to five, then stops.
pub struct CounterTo5 {
    count: u32,
}

impl CounterTo5 {
    /// How many items have been handed out so far.
    pub closed spec fn count(&self) -> u32 {
        self.count
    }

    /// A counter that has not yet handed anything out.
    pub fn new() -> (c: CounterTo5)
        ensures
            c.count() == 0,
    {
        CounterTo5 { count: 0 }
    }
}

impl IteratorExample for CounterTo5 {
    type Item = u32;

    /// Hands out 1 through 5 in order, then `None` forever.
    fn next(&mut self) -> (r: Option<u32>)
        ensures
            old(self).count() < 5 ==> {
                &&& final(self).count() == old(self).count() + 1
                &&& r == Some((old(self).count() + 1) as u32)
            },
            old(self).count() >= 5 ==> final(self).count() == old(self).count() && r is None,
    {
        if self.count < 5 {
            self.count = self.count + 1;
            Some(self.count)
        } else {
            None
        }
    }
}

} // verus!
