//! Lifetimes: how long a reference that a function hands back stays valid.

use crate::text::byte_len;
use vstd::prelude::*;

verus! {

/// The longer of two string slices, by their length in bytes; the second
/// where both are equally long.
pub fn longest<'a>(x: &'a str, y: &'a str) -> (longer: &'a str)
    ensures
        longer@ == if byte_len(x@) > byte_len(y@) {
            x@
        } else {
            y@
        },
{
    if x.as_bytes().len() > y.as_bytes().len() {
        x
    } else {
        y
    }
}

/// Adds one to the number that `x` borrows.
pub fn add_one<'a>(x: &'a mut i32)
    requires
        *old(x) < i32::MAX,
    ensures
        *final(x) == *old(x) + 1,
{
    *x += 1;
}

/// Hands back the first of two references, which have lifetimes of their own.
pub fn pass_x<'a, 'b>(x: &'a i32, _y: &'b i32) -> (same: &'a i32)
    ensures
        same == x,
{
    x
}

/// A part of a text, borrowed from it.
pub struct ImportantExcerpt<'a> {
    pub part: &'a str,
}

impl<'a, 'b> ImportantExcerpt<'a> {
    /// The level of importance, which is three.
    pub fn level(&'b self) -> (level: i32)
        ensures
            level == 3,
    {
        3
    }

    /// The next level of importance, which is three as well.
    pub fn next_level(&self) -> (level: i32)
        ensures
            level == 3,
    {
        3
    }
}

} // verus!
