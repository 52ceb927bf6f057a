//! The outer of two nested modules.

use vstd::prelude::*;

pub mod inside;

verus! {

/// Open to everyone.
pub fn middle_function() {
}

/// Open to this module and to the modules inside it.
pub(crate) fn middle_secret_function() {
}

} // verus!
