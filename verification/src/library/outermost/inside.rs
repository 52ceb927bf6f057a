//! The inner of two nested modules.

use vstd::prelude::*;

verus! {

/// Reaches its parent through `super`, the parent's private function through
/// the crate's root, and its own neighbour without any path.
pub fn inner_function() {
    super::middle_function();
    crate::library::outermost::middle_secret_function();
    secret_function();
}

/// Does nothing, in a module of its own.
pub fn secret_function() {
}

} // verus!
