//! The network's client.

use vstd::prelude::*;

verus! {

/// Connects the network's client. There is nothing to connect to yet.
pub fn connect() {
}

} // verus!
