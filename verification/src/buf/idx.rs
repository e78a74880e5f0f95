//! Indexes over a buffer's lines.

pub mod widx;
