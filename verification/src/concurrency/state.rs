//! A counter that several workers share: each adds one while it holds the
//! lock.

use vstd::prelude::*;

verus! {

/// What one worker does to the counter while it holds the lock.
pub fn increment(num: &mut i32)
    requires
        *old(num) < i32::MAX,
    ensures
        *final(num) == *old(num) + 1,
{
    *num += 1;
}

/// What a counter that starts at `start` holds when `workers` workers each
/// had their turn, one after the other, as a lock makes them.
pub fn count_up(start: i32, workers: u32) -> (counter: i32)
    requires
        start + workers <= i32::MAX,
    ensures
        counter == start + workers,
{
    let mut counter = start;
    let mut done: u32 = 0;
    while done < workers
        invariant
            done <= workers,
            counter == start + done,
            start + workers <= i32::MAX,
        decreases workers - done,
    {
        increment(&mut counter);
        done += 1;
    }
    counter
}

} // verus!
