//! The widgets of the user interface.

use vstd::prelude::*;

pub mod content;
pub mod cursor;
pub mod root;

verus! {

/// The number that tells one widget from another.
pub type WidgetId = usize;

} // verus!
