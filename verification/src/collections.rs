//! Exercises on vectors, strings and maps.

pub mod exercises;
pub mod hash_maps;
