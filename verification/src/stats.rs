//! The mode of a list of numbers: an element no other element outnumbers.

use vstd::prelude::*;

verus! {

/// How many times `x` occurs in `s`.
pub open spec fn count_of(s: Seq<i32>, x: i32) -> nat
    decreases s.len(),
{
    if s.len() == 0 {
        0
    } else {
        count_of(s.drop_last(), x) + if s.last() == x {
            1nat
        } else {
            0nat
        }
    }
}

/// Counts the occurrences of `x` in `list`.
fn count_occurrences(list: &Vec<i32>, x: i32) -> (n: usize)
    ensures
        n == count_of(list@, x),
{
    let mut n: usize = 0;
    let mut i: usize = 0;
    while i < list.len()
        invariant
            i <= list@.len(),
            n == count_of(list@.subrange(0, i as int), x),
            n <= i,
        decreases list@.len() - i,
    {
        proof {
            assert(list@.subrange(0, i + 1).drop_last() =~= list@.subrange(0, i as int));
            assert(list@.subrange(0, i + 1).last() == list@[i as int]);
        }
        if list[i] == x {
            n = n + 1;
        }
        i = i + 1;
    }
    proof {
        assert(list@.subrange(0, list@.len() as int) =~= list@);
    }
    n
}

/// An element occurring at least as often as every other element; 0 for an
/// empty list.  Among equally frequent elements the earliest occurrence
/// wins.
pub fn mode(list: &Vec<i32>) -> (m: i32)
    ensures
        list@.len() == 0 ==> m == 0,
        list@.len() > 0 ==> list@.contains(m),
        forall|j: int|
            0 <= j < list@.len() ==> count_of(list@, list@[j]) <= count_of(list@, m),
{
    if list.len() == 0 {
        return 0;
    }
    let mut best: i32 = list[0];
    let mut best_count: usize = count_occurrences(list, best);
    let mut i: usize = 1;
    while i < list.len()
        invariant
            1 <= i <= list@.len(),
            list@.len() > 0,
            list@.contains(best),
            best_count == count_of(list@, best),
            forall|j: int| 0 <= j < i ==> count_of(list@, list@[j]) <= best_count,
        decreases list@.len() - i,
    {
        let candidate = list[i];
        let c = count_occurrences(list, candidate);
        if c > best_count {
            best = candidate;
            best_count = c;
            proof {
                assert(list@.contains(best)) by {
                    assert(list@[i as int] == best);
                }
            }
        }
        i = i + 1;
    }
    best
}

} // verus!
