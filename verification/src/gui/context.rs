//! The panels and the lists in them.

use vstd::prelude::*;

verus! {

/// A list of the user interface that can be active.
#[derive(Debug, Clone, Copy, PartialEq, Eq, Structural)]
pub enum ContextId {
    Status,
    Files,
    Worktrees,
    Submodules,
    Branches,
    Remotes,
    RemoteBranches,
    Tags,
    Commits,
    Reflog,
    Stash,
    CommitFiles,
    StashFiles,
    BranchCommits,
    BranchCommitFiles,
}

impl ContextId {
    /// The name of the context.
    pub open spec fn name(self) -> Seq<char> {
        match self {
            ContextId::Status => "Status"@,
            ContextId::Files => "Files"@,
            ContextId::Worktrees => "Worktrees"@,
            ContextId::Submodules => "Submodules"@,
            ContextId::Branches => "Branches"@,
            ContextId::Remotes => "Remotes"@,
            ContextId::RemoteBranches => "RemoteBranches"@,
            ContextId::Tags => "Tags"@,
            ContextId::Commits => "Commits"@,
            ContextId::Reflog => "Reflog"@,
            ContextId::Stash => "Stash"@,
            ContextId::CommitFiles => "CommitFiles"@,
            ContextId::StashFiles => "StashFiles"@,
            ContextId::BranchCommits => "BranchCommits"@,
            ContextId::BranchCommitFiles => "BranchCommitFiles"@,
        }
    }

    /// The name of the context.
    pub fn name_str(&self) -> (r: &'static str)
        ensures
            r@ == self.name(),
    {
        match self {
            ContextId::Status => "Status",
            ContextId::Files => "Files",
            ContextId::Worktrees => "Worktrees",
            ContextId::Submodules => "Submodules",
            ContextId::Branches => "Branches",
            ContextId::Remotes => "Remotes",
            ContextId::RemoteBranches => "RemoteBranches",
            ContextId::Tags => "Tags",
            ContextId::Commits => "Commits",
            ContextId::Reflog => "Reflog",
            ContextId::Stash => "Stash",
            ContextId::CommitFiles => "CommitFiles",
            ContextId::StashFiles => "StashFiles",
            ContextId::BranchCommits => "BranchCommits",
            ContextId::BranchCommitFiles => "BranchCommitFiles",
        }
    }

    /// Whether the context lists the files of a commit or a stash.
    pub open spec fn lists_commit_files(self) -> bool {
        self is CommitFiles || self is StashFiles || self is BranchCommitFiles
    }

    /// Whether the context lists the files of a commit or a stash.
    pub fn is_commit_files(&self) -> (r: bool)
        ensures
            r == self.lists_commit_files(),
    {
        matches!(
            self,
            ContextId::CommitFiles | ContextId::StashFiles | ContextId::BranchCommitFiles
        )
    }

    /// Whether the context lists what has a hash of its own.
    pub open spec fn lists_hashes(self) -> bool {
        self is Commits || self is Reflog || self is BranchCommits || self is Stash
    }
}

/// The context that is left for its parent, if it is one that opens out of another.
pub open spec fn parent_context(c: ContextId) -> ContextId {
    match c {
        ContextId::CommitFiles => ContextId::Commits,
        ContextId::StashFiles => ContextId::Stash,
        ContextId::BranchCommitFiles => ContextId::Branches,
        ContextId::BranchCommits => ContextId::Branches,
        ContextId::RemoteBranches => ContextId::Remotes,
        _ => c,
    }
}

/// Leaves a context that opens out of another for the list at its root.
pub fn exit_sub_contexts(active: ContextId) -> (r: ContextId)
    ensures
        r == parent_context(active),
        parent_context(r) == r,
{
    let mut c = active;
    if c == ContextId::CommitFiles {
        c = ContextId::Commits;
    }
    if c == ContextId::StashFiles {
        c = ContextId::Stash;
    }
    if c == ContextId::BranchCommitFiles {
        c = ContextId::BranchCommits;
    }
    if c == ContextId::BranchCommits {
        c = ContextId::Branches;
    }
    if c == ContextId::RemoteBranches {
        c = ContextId::Remotes;
    }
    c
}

/// How much of the screen the side panel leaves to the diff.
#[derive(Debug, Clone, Copy, PartialEq, Eq, Structural)]
pub enum ScreenMode {
    Normal,
    Half,
    Full,
}

impl ScreenMode {
    /// The mode after this one.
    pub open spec fn after(self) -> ScreenMode {
        match self {
            ScreenMode::Normal => ScreenMode::Half,
            ScreenMode::Half => ScreenMode::Full,
            ScreenMode::Full => ScreenMode::Normal,
        }
    }

    /// The mode before this one.
    pub open spec fn before(self) -> ScreenMode {
        match self {
            ScreenMode::Normal => ScreenMode::Full,
            ScreenMode::Half => ScreenMode::Normal,
            ScreenMode::Full => ScreenMode::Half,
        }
    }

    /// The mode after this one.
    pub fn next_screen_mode(self) -> (r: ScreenMode)
        ensures
            r == self.after(),
    {
        match self {
            ScreenMode::Normal => ScreenMode::Half,
            ScreenMode::Half => ScreenMode::Full,
            ScreenMode::Full => ScreenMode::Normal,
        }
    }

    /// The mode before this one.
    pub fn prev_screen_mode(self) -> (r: ScreenMode)
        ensures
            r == self.before(),
    {
        match self {
            ScreenMode::Normal => ScreenMode::Full,
            ScreenMode::Half => ScreenMode::Normal,
            ScreenMode::Full => ScreenMode::Half,
        }
    }
}

/// Going on and going back undo each other, and three steps come round.
pub proof fn screen_modes_go_round(m: ScreenMode)
    ensures
        m.after().before() == m,
        m.before().after() == m,
        m.after().after().after() == m,
{
}

/// The lists that open out of another are left for the one at the root; any other is not left.
pub proof fn lists_are_left_for_their_root(c: ContextId)
    ensures
        parent_context(ContextId::CommitFiles) is Commits,
        parent_context(ContextId::StashFiles) is Stash,
        parent_context(ContextId::BranchCommits) is Branches,
        parent_context(ContextId::BranchCommitFiles) is Branches,
        parent_context(ContextId::RemoteBranches) is Remotes,
        parent_context(c) != c <==> c.lists_commit_files() || c is BranchCommits
            || c is RemoteBranches,
{
}

/// The side panel grows from a part of the screen to a half and to the whole.
pub proof fn screen_modes_grow()
    ensures
        ScreenMode::Normal.after() is Half,
        ScreenMode::Half.after() is Full,
        ScreenMode::Full.after() is Normal,
{
}

} // verus!
