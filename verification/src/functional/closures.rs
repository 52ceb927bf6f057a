//! A memoizing cache around a closure, and closures that capture their
//! environment.

use std::collections::hash_map::Entry;
use std::collections::hash_map::HashMap;
use std::hash::Hash;
use vstd::prelude::*;
use vstd::std_specs::hash::obeys_key_model;

verus! {

broadcast use vstd::std_specs::hash::group_hash_axioms;

/// Remembers, for each argument seen, what `calculation` returned for it, so
/// that the calculation runs at most once per argument.
#[verifier::reject_recursive_types(K)]
#[verifier::reject_recursive_types(V)]
pub struct Cacher<T, K, V> where T: Fn(K) -> V, K: Eq + Hash + Copy, V: Copy {
    calculation: T,
    values: HashMap<K, V>,
}

impl<T, K, V> Cacher<T, K, V> where T: Fn(K) -> V, K: Eq + Hash + Copy, V: Copy {
    /// The closure whose results are cached.
    pub closed spec fn calculation(self) -> T {
        self.calculation
    }

    /// The results remembered so far, by argument.
    pub closed spec fn cached(self) -> Map<K, V> {
        self.values@
    }

    /// Every remembered value is one that the calculation may return for its
    /// argument.
    pub open spec fn wf(self) -> bool {
        forall|k: K| #[trigger]
            self.cached().contains_key(k) ==> call_ensures(
                self.calculation(),
                (k,),
                self.cached()[k],
            )
    }

    /// An empty cache around `calculation`.
    pub fn new(calculation: T) -> (cacher: Cacher<T, K, V>)
        ensures
            cacher.calculation() == calculation,
            cacher.cached() == Map::<K, V>::empty(),
            cacher.wf(),
    {
        Cacher { calculation, values: HashMap::new() }
    }

    /// The value for `arg`: the remembered one if there is one, else a fresh
    /// result of the calculation, which is then remembered.
    pub fn value(&mut self, arg: K) -> (v: V)
        requires
            obeys_key_model::<K>(),
            old(self).wf(),
            call_requires(old(self).calculation(), (arg,)),
        ensures
            final(self).wf(),
            final(self).calculation() == old(self).calculation(),
            old(self).cached().contains_key(arg) ==> v == old(self).cached()[arg]
                && final(self).cached() == old(self).cached(),
            !old(self).cached().contains_key(arg) ==> call_ensures(
                old(self).calculation(),
                (arg,),
                v,
            ) && final(self).cached() == old(self).cached().insert(arg, v),
    {
        let entry = self.values.entry(arg);
        let found = match entry {
            Entry::Occupied(o) => { *(o.get()) },
            Entry::Vacant(v) => {
                let val = (self.calculation)(arg);
                v.insert(val);
                val
            },
        };
        proof {
            assert forall|k: K| #[trigger] self.cached().contains_key(k) implies call_ensures(
                self.calculation(),
                (k,),
                self.cached()[k],
            ) by {
                if k != arg {
                    assert(old(self).cached().contains_key(k));
                    assert(self.cached()[k] == old(self).cached()[k]);
                } else if old(self).cached().contains_key(arg) {
                    assert(self.cached() == old(self).cached());
                } else {
                    assert(self.cached()[k] == found);
                }
            }
        }
        found
    }
}

/// What to do today.
#[derive(PartialEq, Eq, Structural, Debug, Clone, Copy)]
pub enum Workout {
    /// Pushups first, then situps.
    Strength { pushups: i32, situps: i32 },
    /// A day off.
    Rest,
    /// A run of so many minutes.
    Cardio { minutes: i32 },
}

/// Plans a workout from the wished intensity and a random number. The costly
/// `calculation` is consulted through a cache: once for a strength day,
/// although its result is used twice; once for a run; never for a day off.
pub fn generate_workout<T: Fn(i32) -> i32>(calculation: T, intensity: i32, random_number: i32) -> (plan: Workout)
    requires
        call_requires(calculation, (intensity,)),
    ensures
        intensity < 25 ==> (plan matches Workout::Strength { pushups, situps } && pushups == situps
            && call_ensures(calculation, (intensity,), pushups)),
        intensity >= 25 && random_number == 3 ==> plan == Workout::Rest,
        intensity >= 25 && random_number != 3 ==> (plan matches Workout::Cardio { minutes }
            && call_ensures(calculation, (intensity,), minutes)),
{
    let mut expensive_result = Cacher::new(calculation);
    if intensity < 25 {
        let pushups = expensive_result.value(intensity);
        let situps = expensive_result.value(intensity);
        Workout::Strength { pushups, situps }
    } else {
        if random_number == 3 {
            Workout::Rest
        } else {
            Workout::Cardio { minutes: expensive_result.value(intensity) }
        }
    }
}

/// A closure reads `x` from the scope that defines it.
pub fn capture() {
    let x: i32 = 4;
    let equal_to_x = |z: i32| -> (same: bool)
        ensures
            same == (z == x),
        { z == x };
    let y: i32 = 4;
    let same = equal_to_x(y);
    assert(same);
}

/// A `move` closure takes the vector it compares with into itself.
pub fn move_environment() {
    let x: Vec<i32> = vec![1, 2, 3];
    let equal_to_x = move |z: Vec<i32>| -> (same: bool)
        ensures
            same == (z@ == x@),
        {
            let same = z == x;
            assert(same == (z@ =~= x@));
            same
        };
    let y: Vec<i32> = vec![1, 2, 3];
    let first = equal_to_x(y);
    assert(first);
    let y: Vec<i32> = vec![1, 2, 3];
    let second = equal_to_x(y);
    assert(second);
}

/// Plans the workout for intensity 10 and random number 7 with a calculation
/// that returns its argument, then exercises `capture`.
pub fn run() -> (plan: Workout)
    ensures
        plan == (Workout::Strength { pushups: 10, situps: 10 }),
{
    let simulated_user_specified_value: i32 = 10;
    let simulated_random_number: i32 = 7;
    let calculation = |nums: i32| -> (same: i32)
        ensures
            same == nums,
        { nums };
    let plan = generate_workout(calculation, simulated_user_specified_value, simulated_random_number);
    capture();
    plan
}

} // verus!
