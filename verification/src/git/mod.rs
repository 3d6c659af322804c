//! What the client asks of git, and how it reads the answers.

pub mod ai_commit;
pub mod conflict_task;
pub mod file;
pub mod merge_conflict;
pub mod worktree;

use vstd::prelude::*;

verus! {

/// The git commands of one repository: each names the arguments of a git call, or
/// reads what a call answered.
#[derive(Debug)]
pub struct GitCommands {
    pub repo_path: String,
}

} // verus!
