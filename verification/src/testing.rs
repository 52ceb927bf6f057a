//! Rectangles, a tiny adder and a bounded guess: subjects for unit tests.

use vstd::prelude::*;

verus! {

/// A rectangle with integral side lengths.
#[derive(Debug)]
pub struct Rectangle {
    pub length: u32,
    pub width: u32,
}

impl Rectangle {
    /// Whether `other` fits strictly inside `self`, either as it lies or
    /// turned by a quarter.
    pub open spec fn spec_can_hold(self, other: Rectangle) -> bool {
        (self.length > other.length && self.width > other.width)
            || (self.width > other.length && self.length > other.width)
    }

    /// Tells whether `other` fits strictly inside `self`, rotation allowed.
    pub fn can_hold(&self, other: &Rectangle) -> (fits: bool)
        ensures
            fits == self.spec_can_hold(*other),
    {
        (self.length > other.length && self.width > other.width)
            || (self.width > other.length && self.length > other.width)
    }
}

/// A rectangle that can be compared for equality, side by side.
#[derive(PartialEq, Eq, Structural, Debug)]
pub struct CmpRectangle {
    pub length: u32,
    pub width: u32,
}

/// Adds two to `a`.
pub fn add_two(a: i32) -> (sum: i32)
    requires
        a + 2 <= i32::MAX,
    ensures
        sum == a + 2,
{
    a + 2
}

/// Greets, whoever asks, with the same words.
pub fn greet(_name: &str) -> (greeting: String)
    ensures
        greeting@ == "Hello, Bothra"@,
{
    "Hello, Bothra".to_string()
}

/// A guess between 1 and 100.
pub struct Guess {
    value: u32,
}

impl Guess {
    /// The number guessed.
    pub closed spec fn value(self) -> u32 {
        self.value
    }

    /// A guess of `value`, which must lie between 1 and 100.
    pub fn new(value: u32) -> (guess: Guess)
        requires
            1 <= value <= 100,
        ensures
            guess.value() == value,
    {
        Guess { value }
    }

    /// A guess of `value`, which must lie between 1 and 100.
    pub fn new_diff(value: u32) -> (guess: Guess)
        requires
            1 <= value <= 100,
        ensures
            guess.value() == value,
    {
        Guess { value }
    }
}

} // verus!
