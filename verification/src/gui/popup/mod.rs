//! The windows that open over the panels.

pub mod checklist;
pub mod commands;
pub mod commit_input;
pub mod commit_menu;
pub mod conflict_blocks;
pub mod history;
pub mod input;
pub mod keys;
pub mod menu;
pub mod menus;
pub mod mouse;
pub mod palette;
pub mod paste;
pub mod pickers;
pub mod ref_pickers;

use crate::git::merge_conflict::ResolveChoice;
use crate::gui::undo::ReflogUndoAction;
use vstd::prelude::*;

verus! {

/// What a message is about.
#[derive(Debug, Clone, Copy, PartialEq, Eq, Structural)]
pub enum MessageKind {
    Info,
    Error,
}

/// A message for the user.
#[derive(Debug)]
pub struct Notice {
    pub title: String,
    pub message: String,
    pub kind: MessageKind,
}

impl Notice {
    /// Whether the notice is an error with a title and a message.
    pub open spec fn is_error(self, title: Seq<char>, message: Seq<char>) -> bool {
        self.title@ == title && self.message@ == message && self.kind is Error
    }

    /// An error message.
    pub fn error(title: &str, message: &str) -> (r: Notice)
        ensures
            r.is_error(title@, message@),
    {
        Notice {
            title: title.to_string(),
            message: message.to_string(),
            kind: MessageKind::Error,
        }
    }
}

/// What is done when something is chosen or confirmed.
#[derive(Debug)]
pub enum Action {
    /// Something that a panel has registered under a number.
    Callback(usize),
    ResolveConflict { path: String, choice: ResolveChoice },
    OpenBlockResolver { path: String },
    EditConflict { path: String },
    MarkResolved { path: String },
    ShowConflictMenu { path: String },
    ContinueRebase,
    AbortRebase,
    SkipRebase,
    ContinueMerge,
    AbortMerge,
    ContinueCherryPick,
    AbortCherryPick,
    SkipCherryPick,
    RestoreEditor,
    AskCoAuthor,
    AppendCoAuthor,
    PasteMessage,
    ClearMessage,
    GenerateMessage,
    /// The program goes on with another repository.
    OpenRepo { path: String },
    /// The program starts anew in another directory.
    OpenInstance { path: String },
    RemoveWorktree { path: String },
    /// A path for a new worktree was typed.
    WorktreePath,
    /// The branch for a new worktree is to be picked, or typed.
    WorktreePickBranch { path: String },
    WorktreeAskBranch { path: String },
    /// The name of a new branch for a worktree was typed.
    WorktreeBranch { path: String },
    /// A branch for a new worktree was picked.
    WorktreeExisting { path: String },
    /// What the new branch of a worktree starts from was picked.
    WorktreeBase { path: String, branch: String },
    CopyText { text: String },
    /// What a file holds at a revision is copied.
    CopyFileAt { revision: String, path: String },
    /// The changes of a file in a commit are copied.
    CopyDiff { hash: String, path: String },
    DoNothing,
    StageHunk { index: usize },
    RevertHunk { index: usize },
    RebaseOnto,
    ResetTo,
    /// HEAD goes where a step of undo or redo leads, which is then the step that was
    /// made last.
    MoveHead { target: ReflogUndoAction, index: usize },
    CreateCommit,
    CreateBranch { name: String },
}

/// What has to be loaded anew.
#[derive(Debug, Clone, Copy, PartialEq, Eq, Structural)]
pub struct Refresh {
    pub all: bool,
    pub files: bool,
    pub diff: bool,
}

} // verus!
