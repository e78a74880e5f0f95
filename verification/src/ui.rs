//! What a window shows of a buffer, and the widgets that a screen is made
//! of.

pub mod tree;
pub mod viewport;
pub mod widget;
