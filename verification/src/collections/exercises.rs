//! Statistics of a list of integers, pig latin, and a company's departments.

pub mod one;
pub mod three;
pub mod two;
