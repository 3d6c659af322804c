//! The data that git listings are read into.

use crate::text;
use vstd::prelude::*;

verus! {

/// What happened to a file, in one word.
#[derive(Debug, Clone, Copy, PartialEq, Eq, Structural)]
pub enum FileStatus {
    Untracked,
    Added,
    Modified,
    Deleted,
    Renamed,
    Copied,
    Unmerged,
}

/// A changed file of the working tree.
#[derive(Debug, Clone, PartialEq, Eq)]
pub struct File {
    pub name: String,
    pub display_name: String,
    pub status: FileStatus,
    pub has_staged_changes: bool,
    pub has_unstaged_changes: bool,
    pub is_tracked: bool,
    pub added: bool,
    pub deleted: bool,
    pub has_merge_conflicts: bool,
    pub short_status: String,
    pub hunk_count: usize,
    pub additions: usize,
    pub deletions: usize,
}

/// The contents of a file entry.
pub struct FileEntry {
    pub name: Seq<char>,
    pub display_name: Seq<char>,
    pub status: FileStatus,
    pub has_staged_changes: bool,
    pub has_unstaged_changes: bool,
    pub is_tracked: bool,
    pub added: bool,
    pub deleted: bool,
    pub has_merge_conflicts: bool,
    pub short_status: Seq<char>,
    pub hunk_count: nat,
    pub additions: nat,
    pub deletions: nat,
}

impl View for File {
    type V = FileEntry;

    open spec fn view(&self) -> FileEntry {
        FileEntry {
            name: self.name@,
            display_name: self.display_name@,
            status: self.status,
            has_staged_changes: self.has_staged_changes,
            has_unstaged_changes: self.has_unstaged_changes,
            is_tracked: self.is_tracked,
            added: self.added,
            deleted: self.deleted,
            has_merge_conflicts: self.has_merge_conflicts,
            short_status: self.short_status@,
            hunk_count: self.hunk_count as nat,
            additions: self.additions as nat,
            deletions: self.deletions as nat,
        }
    }
}

/// The contents of file entries, in order.
pub open spec fn file_entries(v: Seq<File>) -> Seq<FileEntry> {
    Seq::new(v.len(), |i: int| v[i]@)
}

/// The path that a file has now: behind the arrow of a rename, or the whole name.
pub open spec fn path_now(name: Seq<char>) -> Seq<char> {
    match text::find_text(name, " -> "@) {
        Some(i) => name.skip(i + 4),
        None => name,
    }
}

/// The path that a file has now, from its name in a listing.
pub fn current_path_of(name: &str) -> (r: String)
    ensures
        r@ == path_now(name@),
{
    let chars = text::chars_of(name);
    let arrow = text::chars_of(" -> ");
    proof {
        reveal_strlit(" -> ");
        assert(arrow@.len() == 4);
    }
    let n: usize = chars.len();
    match text::find_text_of(chars.as_slice(), arrow.as_slice()) {
        Some(i) => text::string_of(
            text::copy_range(chars.as_slice(), i + 4, n).as_slice(),
        ),
        None => text::string_of(chars.as_slice()),
    }
}

impl File {
    /// The path that the file has now.
    pub fn current_path(&self) -> (r: String)
        ensures
            r@ == path_now(self.name@),
    {
        current_path_of(self.name.as_str())
    }
}

/// A working tree of the repository.
#[derive(Debug, Clone, PartialEq, Eq)]
pub struct Worktree {
    pub path: String,
    pub branch: String,
    pub hash: String,
    pub is_current: bool,
    pub is_main: bool,
}

/// The contents of a working tree entry.
pub struct WorktreeEntry {
    pub path: Seq<char>,
    pub branch: Seq<char>,
    pub hash: Seq<char>,
    pub is_current: bool,
    pub is_main: bool,
}

impl View for Worktree {
    type V = WorktreeEntry;

    open spec fn view(&self) -> WorktreeEntry {
        WorktreeEntry {
            path: self.path@,
            branch: self.branch@,
            hash: self.hash@,
            is_current: self.is_current,
            is_main: self.is_main,
        }
    }
}

/// The contents of working tree entries, in order.
pub open spec fn worktree_entries(v: Seq<Worktree>) -> Seq<WorktreeEntry> {
    Seq::new(v.len(), |i: int| v[i]@)
}

/// The paths that a diff of a file concerns: both sides of a rename, or the name.
pub open spec fn paths_of(name: Seq<char>) -> Seq<Seq<char>> {
    match text::find_text(name, " -> "@) {
        Some(i) => seq![name.take(i), name.skip(i + 4)],
        None => seq![name],
    }
}

impl File {
    /// The paths that a diff of the file concerns.
    pub fn diff_paths(&self) -> (r: Vec<String>)
        ensures
            text::texts(r@) == paths_of(self.name@),
    {
        let chars = text::chars_of(self.name.as_str());
        let arrow = text::chars_of(" -> ");
        proof {
            reveal_strlit(" -> ");
            assert(arrow@.len() == 4);
        }
        let n: usize = chars.len();
        let r = match text::find_text_of(chars.as_slice(), arrow.as_slice()) {
            Some(i) => vec![
                text::string_of(text::copy_range(chars.as_slice(), 0, i).as_slice()),
                text::string_of(text::copy_range(chars.as_slice(), i + 4, n).as_slice()),
            ],
            None => vec![self.name.clone()],
        };
        assert(text::texts(r@) =~= paths_of(self.name@));
        r
    }
}

/// A commit.
#[derive(Debug, Clone, PartialEq, Eq)]
pub struct Commit {
    pub hash: String,
    pub name: String,
    pub author_name: String,
}

/// An entry of the stash.
#[derive(Debug, Clone, PartialEq, Eq)]
pub struct StashEntry {
    pub hash: String,
    pub name: String,
    pub index: usize,
}

/// What a commit did to a file.
#[derive(Debug, Clone, Copy, PartialEq, Eq, Structural)]
pub enum FileChangeStatus {
    Added,
    Modified,
    Deleted,
    Renamed,
    Copied,
}

/// A file of a commit or a stash.
#[derive(Debug, Clone, PartialEq, Eq)]
pub struct CommitFile {
    pub name: String,
    pub status: FileChangeStatus,
}

impl CommitFile {
    /// The path that the file has after the commit.
    pub fn current_path(&self) -> (r: String)
        ensures
            r@ == path_now(self.name@),
    {
        current_path_of(self.name.as_str())
    }
}

impl CommitFile {
    /// The path that the file had before the commit.
    pub fn old_path(&self) -> (r: String)
        ensures
            r@ == paths_of(self.name@)[0],
    {
        let chars = text::chars_of(self.name.as_str());
        let arrow = text::chars_of(" -> ");
        proof {
            reveal_strlit(" -> ");
            assert(arrow@.len() == 4);
        }
        match text::find_text_of(chars.as_slice(), arrow.as_slice()) {
            Some(i) => {
                let part = text::copy_range(chars.as_slice(), 0, i);
                assert(part@ =~= self.name@.take(i as int));
                text::string_of(part.as_slice())
            },
            None => self.name.clone(),
        }
    }
}

/// A branch.
#[derive(Debug, Clone, PartialEq, Eq)]
pub struct Branch {
    pub name: String,
    pub hash: String,
    pub recency: String,
    pub pushables: String,
    pub pullables: String,
    pub upstream: Option<String>,
    pub head: bool,
}

/// A branch of a remote.
#[derive(Debug, Clone, PartialEq, Eq)]
pub struct RemoteBranch {
    pub name: String,
}

/// A remote with its branches.
#[derive(Debug, Clone, PartialEq, Eq)]
pub struct Remote {
    pub name: String,
    pub branches: Vec<RemoteBranch>,
}

/// A repository inside the repository.
#[derive(Debug, Clone, PartialEq, Eq)]
pub struct Submodule {
    pub name: String,
    pub path: String,
}

/// A tag.
#[derive(Debug, Clone, PartialEq, Eq)]
pub struct Tag {
    pub name: String,
}

/// A node of a file tree: a file, or a directory with the files below it.
#[derive(Debug, Clone, PartialEq, Eq)]
pub struct TreeNode {
    pub path: String,
    pub name: String,
    pub is_dir: bool,
    pub file_index: Option<usize>,
    pub child_file_indices: Vec<usize>,
}

/// What is known of the repository.
#[derive(Debug)]
pub struct Model {
    pub repo_name: String,
    pub head_hash: String,
    pub head_branch_name: String,
    pub files: Vec<File>,
    pub worktrees: Vec<Worktree>,
    pub submodules: Vec<Submodule>,
    pub branches: Vec<Branch>,
    pub remotes: Vec<Remote>,
    pub sub_remote_branches: Vec<RemoteBranch>,
    pub tags: Vec<Tag>,
    pub commits: Vec<Commit>,
    pub reflog_commits: Vec<Commit>,
    pub sub_commits: Vec<Commit>,
    pub stash_entries: Vec<StashEntry>,
    pub commit_files: Vec<CommitFile>,
    pub is_rebasing: bool,
    pub is_merging: bool,
    pub is_cherry_picking: bool,
    pub is_bisecting: bool,
    pub rebase_onto_hash: String,
    pub total_additions: usize,
    pub total_deletions: usize,
    pub repo_url: String,
    pub contributors: Vec<String>,
}

/// A part of what is known of the repository, as it comes in.
#[derive(Debug)]
pub enum ModelPart {
    Files(Vec<File>),
    Branches(Vec<Branch>),
    Commits(Vec<Commit>),
    Stash(Vec<StashEntry>),
    Remotes(Vec<Remote>),
    Tags(Vec<Tag>),
    Worktrees(Vec<Worktree>),
    Submodules(Vec<Submodule>),
    Reflog(Vec<Commit>),
    DiffStats { additions: usize, deletions: usize },
    RepoStatus {
        is_rebasing: bool,
        is_merging: bool,
        is_cherry_picking: bool,
        is_bisecting: bool,
        rebase_onto_hash: String,
    },
    Head { hash: String, branch_name: String },
    RepoUrl(String),
    Contributors(Vec<String>),
}

// ---------------------------------------------------------------------------
// Laws
// ---------------------------------------------------------------------------

/// The first arrow of a name parts a rename: the path that the file has now is what
/// stands behind it, and a diff concerns both sides.
pub proof fn the_arrow_parts_a_rename(from: Seq<char>, to: Seq<char>)
    requires
        !text::contains(from + " ->"@, " -> "@),
    ensures
        text::find_text(from + " -> "@ + to, " -> "@) == Some(from.len() as int),
        path_now(from + " -> "@ + to) == to,
        paths_of(from + " -> "@ + to) == seq![from, to],
{
    reveal_strlit(" -> ");
    reveal_strlit(" ->");
    let arrow = " -> "@;
    let s = from + arrow + to;
    let n = from.len() as int;
    text::find_text_is_first_occurrence(s, arrow);
    assert(s.subrange(n, n + 4) =~= arrow);
    assert(text::occurs_at(s, arrow, n));
    let j = text::find_text(s, arrow)->0;
    if j < n {
        let t = from + " ->"@;
        assert(t.subrange(j, j + 4) =~= s.subrange(j, j + 4));
        assert(text::occurs_at(t, arrow, j));
    }
    assert(s.take(n) =~= from);
    assert(s.skip(n + 4) =~= to);
}

/// A name without an arrow is the path itself.
pub proof fn a_plain_name_is_the_path(name: Seq<char>)
    requires
        !text::contains(name, " -> "@),
    ensures
        path_now(name) == name,
        paths_of(name) == seq![name],
{
    text::find_text_is_first_occurrence(name, " -> "@);
}

} // verus!
