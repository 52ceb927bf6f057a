//! The network, with a client and a server of its own.

use vstd::prelude::*;

pub mod client;
pub mod server;

verus! {

/// Connects the network. There is nothing to connect to yet.
pub fn connect() {
}

} // verus!
