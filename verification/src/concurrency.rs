//! What the workers of the concurrent examples compute. Spawning them,
//! locking and sending are left to the caller.

pub mod messages;
pub mod state;
