//! Modules beside and inside one another, each with a `connect` of its own.

pub mod client;
pub mod network;
