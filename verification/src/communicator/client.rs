//! The client at the crate's top.

use vstd::prelude::*;

verus! {

/// Connects the client. There is nothing to connect to yet.
pub fn connect() {
}

} // verus!
