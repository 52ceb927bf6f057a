//! Small, self-contained exercises on ownership, borrowing, traits, closures,
//! iterators, collections and error handling, each with a machine-checked
//! contract.

pub mod boxed;
pub mod collections;
pub mod communicator;
pub mod concurrency;
pub mod enums;
pub mod functional;
pub mod generics_traits;
pub mod guessing_game;
pub mod library;
pub mod lifetimes;
pub mod minigrep;
pub mod oops;
pub mod ownership;
pub mod refer_borrow;
pub mod seqs;
pub mod slices;
pub mod smart_pointers;
pub mod structs;
pub mod testing;
pub mod text;
pub mod use_key;
