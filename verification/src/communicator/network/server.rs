//! The network's server.

use vstd::prelude::*;

verus! {

/// Connects the network's server. There is nothing to connect to yet.
pub fn connect() {
}

} // verus!
