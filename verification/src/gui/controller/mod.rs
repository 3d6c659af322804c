//! What the keys of each panel do.

pub mod commit_files;
pub mod conflict_mode;
pub mod input_normalization;
pub mod worktrees;
