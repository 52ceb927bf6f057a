//! From a reference to a wrapped string to a string slice, by dereferencing.

use crate::smart_pointers::deref::mybox::MyBox;
use std::ops::Deref;
use vstd::prelude::*;

verus! {

/// Greets "foo" twice: once through the wrapper's own dereferencing, once
/// through the slice taken by hand.
pub fn run() -> (greetings: (String, String))
    ensures
        greetings.0@ == "Hello, "@ + "foo"@,
        greetings.1@ == "Hello, "@ + "foo"@,
{
    let m = MyBox::new("foo".to_string());
    let first = hello(m.deref().as_str());
    let second = hello((*m).as_str());
    (first, second)
}

/// The greeting for `m`.
pub fn hello(m: &str) -> (greeting: String)
    ensures
        greeting@ == "Hello, "@ + m@,
{
    let mut greeting = "Hello, ".to_string();
    greeting.push_str(m);
    greeting
}

} // verus!
