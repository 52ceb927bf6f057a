//! A counter that is stepped by hand, the way an iterator is.

use vstd::prelude::*;

verus! {

/// Counts from 1 to 5, then is exhausted.
pub struct Counter {
    count: u32,
}

impl Counter {
    /// How many times the counter has been stepped.
    pub closed spec fn count(self) -> u32 {
        self.count
    }

    /// A counter that has not been stepped yet.
    pub fn new() -> (counter: Counter)
        ensures
            counter.count() == 0,
    {
        Counter { count: 0 }
    }

    /// Steps the counter and yields the new count while it is below six.
    pub fn next(&mut self) -> (item: Option<u32>)
        requires
            old(self).count() < u32::MAX,
        ensures
            final(self).count() == old(self).count() + 1,
            item == if old(self).count() < 5 {
                Some((old(self).count() + 1) as u32)
            } else {
                None::<u32>
            },
    {
        self.count += 1;
        if self.count < 6 {
            Some(self.count)
        } else {
            None
        }
    }
}

/// Walks over the numbers one to three and hands back what it visited.
pub fn iterate() -> (visited: Vec<i32>)
    ensures
        visited@ == seq![1i32, 2i32, 3i32],
{
    let v1: Vec<i32> = vec![1, 2, 3];
    let mut visited: Vec<i32> = Vec::new();
    for val in it: v1.iter()
        invariant
            it.seq() == v1@.map_values(|x: i32| &x),
            visited@ == v1@.take(it.index() as int),
    {
        visited.push(*val);
        assert(v1@.take(it.index() + 1) == v1@.take(it.index() as int).push(*val));
    }
    assert(v1@.take(v1@.len() as int) == v1@);
    visited
}

/// Runs the walk of `iterate`.
pub fn run() -> (visited: Vec<i32>)
    ensures
        visited@ == seq![1i32, 2i32, 3i32],
{
    iterate()
}

} // verus!
