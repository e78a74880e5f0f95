//! A tree of nodes that are held in one place and told apart by their ids.

pub mod inode;
pub mod itree;
