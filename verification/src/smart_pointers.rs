//! Boxes, dereferencing, clean-up on drop, and a quota tracker that reports
//! through a messenger it only borrows.

pub mod boxy;
pub mod deref;
pub mod dropper;
pub mod refcell;
