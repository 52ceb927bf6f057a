//! Privacy between nested modules: a public item is reached through any of
//! its parent modules, a private one only from its own module and below.

use vstd::prelude::*;

pub mod outermost;

verus! {

/// Calls what the crate root may call in the modules below it.
pub fn try_me() {
    outermost::middle_function();
    outermost::inside::inner_function();
    outermost::inside::secret_function();
}

} // verus!
