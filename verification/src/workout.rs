//! A memoising wrapper around an expensive calculation, and the workout
//! planner built on it.

use vstd::prelude::*;

verus! {

/// Runs a calculation at most once per argument, remembering results.
///
/// The cache only ever holds values the calculation could have produced for
/// their key.
pub struct Cacher<T> where T: Fn(u32) -> u32 {
    calculation: T,
    values: std::collections::HashMap<u32, u32>,
}

impl<T> Cacher<T> where T: Fn(u32) -> u32 {
    /// The wrapped calculation.
    pub closed spec fn func(&self) -> T {
        self.calculation
    }

    /// Every cached value is a possible result of the calculation on its
    /// key.
    pub closed spec fn wf(&self) -> bool {
        forall|k: u32|
            self.values@.contains_key(k) ==> self.calculation.ensures((k,), self.values@[k])
    }

    /// Wraps a calculation with an empty cache.
    pub fn new(calculation: T) -> (c: Cacher<T>)
        ensures
            c.wf(),
            c.func() == calculation,
    {
        broadcast use vstd::std_specs::hash::group_hash_axioms;

        Cacher { calculation, values: std::collections::HashMap::new() }
    }

    /// The calculation's result for `arg`: served from the cache when
    /// present, computed (and remembered) otherwise.  Either way the result
    /// is one the calculation can produce for `arg`.
    pub fn value(&mut self, arg: u32) -> (v: u32)
        requires
            old(self).wf(),
            old(self).func().requires((arg,)),
        ensures
            final(self).wf(),
            final(self).func() == old(self).func(),
            old(self).func().ensures((arg,), v),
    {
        broadcast use vstd::std_specs::hash::group_hash_axioms;

        match self.values.get(&arg) {
            Some(v) => *v,
            None => {
                let value = (self.calculation)(arg);
                self.values.insert(arg, value);
                value
            },
        }
    }
}

/// A workout decision: what the planner announces, as data.
#[derive(Clone, Copy, Debug, PartialEq, Eq, Structural)]
pub enum Workout {
    /// Two rounds of pushups at low intensity.
    Pushups { first: u32, next: u32 },
    /// The lucky number came up: rest today.
    Break,
    /// A run, in minutes.
    Run { minutes: u32 },
}

/// Plans a workout: below intensity 25 it is two rounds of pushups at the
/// (memoised) intensity; otherwise the random number 3 grants a break and
/// anything else means a run of that intensity in minutes.
pub fn generate_workout(intensity: u32, random_number: u32) -> (w: Workout)
    ensures
        intensity < 25 ==> w == (Workout::Pushups { first: intensity, next: intensity }),
        intensity >= 25 && random_number == 3 ==> w == Workout::Break,
        intensity >= 25 && random_number != 3 ==> w == (Workout::Run { minutes: intensity }),
{
    let calculation = |num: u32| -> (r: u32) ensures r == num { num };
    let mut expensive_result = Cacher::new(calculation);

    if intensity < 25 {
        let first = expensive_result.value(intensity);
        let next = expensive_result.value(intensity);
        Workout::Pushups { first, next }
    } else {
        if random_number == 3 {
            Workout::Break
        } else {
            let minutes = expensive_result.value(intensity);
            Workout::Run { minutes }
        }
    }
}

/// The worked example: a low-intensity day plans two rounds of ten pushups.
pub fn run() {
    let simulated_user_value: u32 = 10;
    let simulated_random_number: u32 = 7;

    let w = generate_workout(simulated_user_value, simulated_random_number);
    assert(w == (Workout::Pushups { first: 10u32, next: 10u32 }));
}

} // verus!
