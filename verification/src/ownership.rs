//! Ownership: values move into functions and out of them again.

use crate::seqs::lemma_filter_step;
use crate::text::byte_len;
use vstd::prelude::*;

verus! {

broadcast use vstd::string::group_string_axioms;

/// Makes a string and hands its ownership to the caller.
pub fn gives_ownership() -> (some_string: String)
    ensures
        some_string@ == "hello"@,
{
    let some_string = "hello".to_string();
    some_string
}

/// Takes a string and gives the same string back, along with its length in
/// bytes.
pub fn takes_and_gives_back(a_string: String) -> (back: (String, usize))
    ensures
        back.0@ == a_string@,
        back.1 == byte_len(a_string@),
{
    let length = a_string.as_str().as_bytes().len();
    (a_string, length)
}

/// The five lowercase vowels of the English alphabet.
pub open spec fn is_vowel(c: char) -> bool {
    c == 'a' || c == 'e' || c == 'i' || c == 'o' || c == 'u'
}

/// Given a string, returns a new string that is the same as the input string
/// but does not contain any lowercase vowel of the English alphabet.
pub fn remove_vowels(name: String) -> (output: String)
    ensures
        output@ == name@.filter(|c: char| !is_vowel(c)),
{
    let ghost kept = |c: char| !is_vowel(c);
    let mut output: String = String::new();
    for c in it: name.as_str().chars()
        invariant
            it.seq() == name@,
            kept == (|c: char| !is_vowel(c)),
            output@ == name@.take(it.index() as int).filter(kept),
    {
        proof {
            lemma_filter_step(name@, kept, it.index() as int);
        }
        match c {
            'a' | 'e' | 'i' | 'o' | 'u' => {},
            _ => {
                output.push(c);
            },
        }
    }
    assert(name@.take(name@.len() as int) == name@);
    output
}

} // verus!
