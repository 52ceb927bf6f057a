//! A box of one's own, and what dereferencing it gives.

pub mod coercion;
pub mod mybox;
