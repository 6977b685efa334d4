//! The logic of a passthrough filesystem that injects content into chosen files.

pub mod attr;
pub mod fs;
pub mod inode_map;
pub mod intercept;
pub mod invariants;
pub mod laws;
pub mod path;
pub mod path_index;
pub mod protocol;
pub mod provider;
pub mod state;
