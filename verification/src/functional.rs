//! Closures and iterators, and the two combined in a filter over shoes.

use crate::seqs::lemma_filter_step;
use vstd::prelude::*;

pub mod closures;
pub mod iterators;

verus! {

/// A shoe of some size and style.
#[derive(PartialEq, Debug)]
pub struct Shoe {
    pub size: i32,
    pub style: String,
}

/// Keeps the shoes of size `shoe_size`, in their order.
pub fn shoes_in_my_size(shoes: Vec<Shoe>, shoe_size: i32) -> (fitting: Vec<Shoe>)
    ensures
        fitting@ == shoes@.filter(|s: Shoe| s.size == shoe_size),
{
    let ghost wanted = |s: Shoe| s.size == shoe_size;
    let mut fitting: Vec<Shoe> = Vec::new();
    for shoe in it: shoes
        invariant
            it.seq() == shoes@,
            wanted == (|s: Shoe| s.size == shoe_size),
            fitting@ == shoes@.take(it.index() as int).filter(wanted),
    {
        proof {
            lemma_filter_step(shoes@, wanted, it.index() as int);
        }
        if shoe.size == shoe_size {
            fitting.push(shoe);
        }
    }
    assert(shoes@.take(shoes@.len() as int) == shoes@);
    fitting
}

} // verus!
