//! A wrapper around one value that can be dereferenced like a box.

use std::ops::Deref;
use vstd::prelude::*;

verus! {

/// A value in a wrapper.
pub struct MyBox<T>(T);

impl<T> MyBox<T> {
    /// The value inside.
    pub closed spec fn inner(self) -> T {
        self.0
    }

    /// Wraps `x`.
    pub fn new(x: T) -> (wrapped: MyBox<T>)
        ensures
            wrapped.inner() == x,
    {
        MyBox(x)
    }
}

impl<T> Deref for MyBox<T> {
    type Target = T;

    /// A reference to the value inside.
    fn deref(&self) -> (inner: &T)
        ensures
            *inner == self.inner(),
    {
        &self.0
    }
}

/// Wrapping five leaves five outside and puts five inside.
pub fn run() {
    let x: i32 = 5;
    let y = MyBox::new(x);
    assert(5 == x);
    let inside: i32 = *y;
    assert(5 == inside);
}

} // verus!
