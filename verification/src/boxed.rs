//! A value on the heap and a reference that lives as long as the program.

use vstd::prelude::*;

verus! {

/// The number that `bar` refers to.
pub const X: i32 = 5;

/// Five, in a box on the heap.
pub fn foo() -> (boxed: Box<i32>)
    ensures
        *boxed == 5,
{
    Box::new(5)
}

/// A reference to five that never expires.
pub fn bar() -> (r: &'static i32)
    ensures
        *r == 5,
{
    &X
}

} // verus!
