//! Trait objects: a screen that draws components of any type that can be
//! drawn.

use vstd::prelude::*;

verus! {

/// Something that can be drawn.
pub trait Draw {
    fn draw(&self);
}

/// A screen and the components on it, which may be of different types.
pub struct Screen {
    pub components: Vec<Box<dyn Draw>>,
}

impl Screen {
    /// Draws every component, in their order.
    pub fn run(&self) {
        let mut i: usize = 0;
        while i < self.components.len()
            invariant
                i <= self.components.len(),
            decreases self.components.len() - i,
        {
            self.components[i].draw();
            i += 1;
        }
    }
}

/// A button of some size with a label.
pub struct Button {
    pub width: u32,
    pub height: u32,
    pub label: String,
}

impl Draw for Button {
    /// Draws the button, which for now takes no drawing at all.
    fn draw(&self) {
    }
}

} // verus!
