//! A rectangle and its methods.

use vstd::prelude::*;

verus! {

/// A rectangle with integral side lengths.
#[derive(Debug)]
pub struct Rectangle {
    pub length: u32,
    pub width: u32,
}

impl Rectangle {
    /// The area, which must fit a `u32`.
    pub fn area(&self) -> (area: u32)
        requires
            self.length * self.width <= u32::MAX,
        ensures
            area == self.length * self.width,
    {
        self.length * self.width
    }

    /// Tells whether `other` fits strictly inside `self` without being turned.
    pub fn can_hold(&self, other: &Rectangle) -> (fits: bool)
        ensures
            fits == (self.length > other.length && self.width > other.width),
    {
        self.length > other.length && self.width > other.width
    }

    /// Takes the rectangle over and lets it go.
    pub fn take_own(self) {
    }

    /// The square of side `size`.
    pub fn square(size: u32) -> (square: Rectangle)
        ensures
            square.length == size,
            square.width == size,
    {
        Rectangle { length: size, width: size }
    }
}

} // verus!
