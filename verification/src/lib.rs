//! Text layout core of a modal terminal editor.
//!
//! The crate turns the lines of a text buffer into the rows of a fixed-size
//! window: the display width of every character, a per-line index of
//! cumulative widths, and the viewport that maps buffer lines to window rows
//! under the three wrapping policies.

pub mod buf;
pub mod cart;
pub mod evloop;
pub mod ui;
pub mod uuid;
