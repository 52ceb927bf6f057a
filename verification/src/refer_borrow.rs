//! References and borrowing: reading through `&`, changing through `&mut`.

use crate::text::byte_len;
use vstd::prelude::*;

verus! {

/// Appends "abhay " to the string that `name` borrows.
pub fn add_name(name: &mut String)
    ensures
        final(name)@ == old(name)@ + "abhay "@,
{
    name.push_str("abhay ");
}

/// Takes a string over, appends "abhay " to it and lets it go: the caller
/// sees nothing of the change, for it has given the string away.
pub fn add_name_move(name: String) {
    let mut name = name;
    name.push_str("abhay ");
}

/// The length of `s` in bytes.
pub fn calculate_length(s: &String) -> (length: usize)
    ensures
        length == byte_len(s@),
{
    s.as_str().as_bytes().len()
}

/// Appends "World!" to the string that `s` borrows.
pub fn add_world(s: &mut String)
    ensures
        final(s)@ == old(s)@ + "World!"@,
{
    s.push_str("World!")
}

/// A reference that cannot dangle: the text lives as long as the program.
pub fn dangle() -> (s: &'static str)
    ensures
        s@ == "hello"@,
{
    return "hello";
}

} // verus!
