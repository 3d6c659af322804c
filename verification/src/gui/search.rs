//! The search in the lists.

use crate::gui::context::ContextId;
use crate::gui::diff_jobs::Selection;
use crate::gui::input::{KeyCode, KeyEvent};
use crate::gui::popup::input;
use crate::gui::textarea;
use crate::gui::textarea::TextField;
use crate::model::{
    Branch, Commit, CommitFile, File, Model, Remote, RemoteBranch, StashEntry, Submodule, Tag,
    TreeNode, Worktree,
};
use crate::text;
use vstd::prelude::*;

verus! {

// ---------------------------------------------------------------------------
// Hits
// ---------------------------------------------------------------------------

/// Whether a text holds another one, given in lower case, whatever its own case.
pub open spec fn contains_lowered(s: Seq<char>, lowered: Seq<char>) -> bool {
    text::contains(text::lowercase(s), lowered)
}

fn holds_lowered(s: &str, lowered: &str) -> (r: bool)
    ensures
        r == contains_lowered(s@, lowered@),
{
    let own = s.to_lowercase();
    text::contains_str(own.as_str(), lowered)
}

fn begins_with(s: &str, start: &str) -> (r: bool)
    ensures
        r == start@.is_prefix_of(s@),
{
    let chars = text::chars_of(s);
    text::starts_with(chars.as_slice(), start)
}

/// Whether a node of a tree is a hit.
pub open spec fn node_hit(x: TreeNode, lowered: Seq<char>) -> bool {
    contains_lowered(x.path@, lowered) || contains_lowered(x.name@, lowered)
}

/// Which ones are hits.
pub open spec fn node_hits(v: Seq<TreeNode>, lowered: Seq<char>) -> Seq<bool> {
    Seq::new(v.len(), |i: int| node_hit(v[i], lowered))
}

fn find_node(v: &Vec<TreeNode>, lowered: &str) -> (r: Vec<bool>)
    ensures
        r@ == node_hits(v@, lowered@),
{
    let mut r: Vec<bool> = Vec::new();
    let mut i: usize = 0;
    while i < v.len()
        invariant
            i <= v@.len(),
            r@.len() == i,
            forall|j: int| 0 <= j < i ==> #[trigger] r@[j] == node_hit(v@[j], lowered@),
        decreases v@.len() - i,
    {
        let hit = holds_lowered(v[i].path.as_str(), lowered) || holds_lowered(v[i].name.as_str(), lowered);
        r.push(hit);
        i = i + 1;
    }
    assert(r@ =~= node_hits(v@, lowered@));
    r
}

/// Whether a file is a hit.
pub open spec fn file_hit(x: File, lowered: Seq<char>) -> bool {
    contains_lowered(x.name@, lowered)
}

/// Which ones are hits.
pub open spec fn file_hits(v: Seq<File>, lowered: Seq<char>) -> Seq<bool> {
    Seq::new(v.len(), |i: int| file_hit(v[i], lowered))
}

fn find_file(v: &Vec<File>, lowered: &str) -> (r: Vec<bool>)
    ensures
        r@ == file_hits(v@, lowered@),
{
    let mut r: Vec<bool> = Vec::new();
    let mut i: usize = 0;
    while i < v.len()
        invariant
            i <= v@.len(),
            r@.len() == i,
            forall|j: int| 0 <= j < i ==> #[trigger] r@[j] == file_hit(v@[j], lowered@),
        decreases v@.len() - i,
    {
        let hit = holds_lowered(v[i].name.as_str(), lowered);
        r.push(hit);
        i = i + 1;
    }
    assert(r@ =~= file_hits(v@, lowered@));
    r
}

/// Whether a branch is a hit.
pub open spec fn branch_hit(x: Branch, lowered: Seq<char>) -> bool {
    contains_lowered(x.name@, lowered)
}

/// Which ones are hits.
pub open spec fn branch_hits(v: Seq<Branch>, lowered: Seq<char>) -> Seq<bool> {
    Seq::new(v.len(), |i: int| branch_hit(v[i], lowered))
}

fn find_branch(v: &Vec<Branch>, lowered: &str) -> (r: Vec<bool>)
    ensures
        r@ == branch_hits(v@, lowered@),
{
    let mut r: Vec<bool> = Vec::new();
    let mut i: usize = 0;
    while i < v.len()
        invariant
            i <= v@.len(),
            r@.len() == i,
            forall|j: int| 0 <= j < i ==> #[trigger] r@[j] == branch_hit(v@[j], lowered@),
        decreases v@.len() - i,
    {
        let hit = holds_lowered(v[i].name.as_str(), lowered);
        r.push(hit);
        i = i + 1;
    }
    assert(r@ =~= branch_hits(v@, lowered@));
    r
}

/// Whether a commit is a hit.
pub open spec fn commit_hit(x: Commit, query: Seq<char>, lowered: Seq<char>) -> bool {
    contains_lowered(x.name@, lowered) || query.is_prefix_of(x.hash@) || contains_lowered(x.author_name@, lowered)
}

/// Which ones are hits.
pub open spec fn commit_hits(v: Seq<Commit>, query: Seq<char>, lowered: Seq<char>) -> Seq<bool> {
    Seq::new(v.len(), |i: int| commit_hit(v[i], query, lowered))
}

fn find_commit(v: &Vec<Commit>, query: &str, lowered: &str) -> (r: Vec<bool>)
    ensures
        r@ == commit_hits(v@, query@, lowered@),
{
    let mut r: Vec<bool> = Vec::new();
    let mut i: usize = 0;
    while i < v.len()
        invariant
            i <= v@.len(),
            r@.len() == i,
            forall|j: int| 0 <= j < i ==> #[trigger] r@[j] == commit_hit(v@[j], query@, lowered@),
        decreases v@.len() - i,
    {
        let hit = holds_lowered(v[i].name.as_str(), lowered) || begins_with(v[i].hash.as_str(), query) || holds_lowered(v[i].author_name.as_str(), lowered);
        r.push(hit);
        i = i + 1;
    }
    assert(r@ =~= commit_hits(v@, query@, lowered@));
    r
}

/// Whether an entry of the reflog is a hit.
pub open spec fn reflog_hit(x: Commit, query: Seq<char>, lowered: Seq<char>) -> bool {
    contains_lowered(x.name@, lowered) || query.is_prefix_of(x.hash@)
}

/// Which ones are hits.
pub open spec fn reflog_hits(v: Seq<Commit>, query: Seq<char>, lowered: Seq<char>) -> Seq<bool> {
    Seq::new(v.len(), |i: int| reflog_hit(v[i], query, lowered))
}

fn find_reflog(v: &Vec<Commit>, query: &str, lowered: &str) -> (r: Vec<bool>)
    ensures
        r@ == reflog_hits(v@, query@, lowered@),
{
    let mut r: Vec<bool> = Vec::new();
    let mut i: usize = 0;
    while i < v.len()
        invariant
            i <= v@.len(),
            r@.len() == i,
            forall|j: int| 0 <= j < i ==> #[trigger] r@[j] == reflog_hit(v@[j], query@, lowered@),
        decreases v@.len() - i,
    {
        let hit = holds_lowered(v[i].name.as_str(), lowered) || begins_with(v[i].hash.as_str(), query);
        r.push(hit);
        i = i + 1;
    }
    assert(r@ =~= reflog_hits(v@, query@, lowered@));
    r
}

/// Whether an entry of the stash is a hit.
pub open spec fn stash_hit(x: StashEntry, lowered: Seq<char>) -> bool {
    contains_lowered(x.name@, lowered)
}

/// Which ones are hits.
pub open spec fn stash_hits(v: Seq<StashEntry>, lowered: Seq<char>) -> Seq<bool> {
    Seq::new(v.len(), |i: int| stash_hit(v[i], lowered))
}

fn find_stash(v: &Vec<StashEntry>, lowered: &str) -> (r: Vec<bool>)
    ensures
        r@ == stash_hits(v@, lowered@),
{
    let mut r: Vec<bool> = Vec::new();
    let mut i: usize = 0;
    while i < v.len()
        invariant
            i <= v@.len(),
            r@.len() == i,
            forall|j: int| 0 <= j < i ==> #[trigger] r@[j] == stash_hit(v@[j], lowered@),
        decreases v@.len() - i,
    {
        let hit = holds_lowered(v[i].name.as_str(), lowered);
        r.push(hit);
        i = i + 1;
    }
    assert(r@ =~= stash_hits(v@, lowered@));
    r
}

/// Whether a tag is a hit.
pub open spec fn tag_hit(x: Tag, lowered: Seq<char>) -> bool {
    contains_lowered(x.name@, lowered)
}

/// Which ones are hits.
pub open spec fn tag_hits(v: Seq<Tag>, lowered: Seq<char>) -> Seq<bool> {
    Seq::new(v.len(), |i: int| tag_hit(v[i], lowered))
}

fn find_tag(v: &Vec<Tag>, lowered: &str) -> (r: Vec<bool>)
    ensures
        r@ == tag_hits(v@, lowered@),
{
    let mut r: Vec<bool> = Vec::new();
    let mut i: usize = 0;
    while i < v.len()
        invariant
            i <= v@.len(),
            r@.len() == i,
            forall|j: int| 0 <= j < i ==> #[trigger] r@[j] == tag_hit(v@[j], lowered@),
        decreases v@.len() - i,
    {
        let hit = holds_lowered(v[i].name.as_str(), lowered);
        r.push(hit);
        i = i + 1;
    }
    assert(r@ =~= tag_hits(v@, lowered@));
    r
}

/// Whether a remote is a hit.
pub open spec fn remote_hit(x: Remote, lowered: Seq<char>) -> bool {
    contains_lowered(x.name@, lowered)
}

/// Which ones are hits.
pub open spec fn remote_hits(v: Seq<Remote>, lowered: Seq<char>) -> Seq<bool> {
    Seq::new(v.len(), |i: int| remote_hit(v[i], lowered))
}

fn find_remote(v: &Vec<Remote>, lowered: &str) -> (r: Vec<bool>)
    ensures
        r@ == remote_hits(v@, lowered@),
{
    let mut r: Vec<bool> = Vec::new();
    let mut i: usize = 0;
    while i < v.len()
        invariant
            i <= v@.len(),
            r@.len() == i,
            forall|j: int| 0 <= j < i ==> #[trigger] r@[j] == remote_hit(v@[j], lowered@),
        decreases v@.len() - i,
    {
        let hit = holds_lowered(v[i].name.as_str(), lowered);
        r.push(hit);
        i = i + 1;
    }
    assert(r@ =~= remote_hits(v@, lowered@));
    r
}

/// Whether a branch of a remote is a hit.
pub open spec fn remote_branch_hit(x: RemoteBranch, lowered: Seq<char>) -> bool {
    contains_lowered(x.name@, lowered)
}

/// Which ones are hits.
pub open spec fn remote_branch_hits(v: Seq<RemoteBranch>, lowered: Seq<char>) -> Seq<bool> {
    Seq::new(v.len(), |i: int| remote_branch_hit(v[i], lowered))
}

fn find_remote_branch(v: &Vec<RemoteBranch>, lowered: &str) -> (r: Vec<bool>)
    ensures
        r@ == remote_branch_hits(v@, lowered@),
{
    let mut r: Vec<bool> = Vec::new();
    let mut i: usize = 0;
    while i < v.len()
        invariant
            i <= v@.len(),
            r@.len() == i,
            forall|j: int| 0 <= j < i ==> #[trigger] r@[j] == remote_branch_hit(v@[j], lowered@),
        decreases v@.len() - i,
    {
        let hit = holds_lowered(v[i].name.as_str(), lowered);
        r.push(hit);
        i = i + 1;
    }
    assert(r@ =~= remote_branch_hits(v@, lowered@));
    r
}

/// Whether a worktree is a hit.
pub open spec fn worktree_hit(x: Worktree, lowered: Seq<char>) -> bool {
    contains_lowered(x.branch@, lowered) || contains_lowered(x.path@, lowered)
}

/// Which ones are hits.
pub open spec fn worktree_hits(v: Seq<Worktree>, lowered: Seq<char>) -> Seq<bool> {
    Seq::new(v.len(), |i: int| worktree_hit(v[i], lowered))
}

fn find_worktree(v: &Vec<Worktree>, lowered: &str) -> (r: Vec<bool>)
    ensures
        r@ == worktree_hits(v@, lowered@),
{
    let mut r: Vec<bool> = Vec::new();
    let mut i: usize = 0;
    while i < v.len()
        invariant
            i <= v@.len(),
            r@.len() == i,
            forall|j: int| 0 <= j < i ==> #[trigger] r@[j] == worktree_hit(v@[j], lowered@),
        decreases v@.len() - i,
    {
        let hit = holds_lowered(v[i].branch.as_str(), lowered) || holds_lowered(v[i].path.as_str(), lowered);
        r.push(hit);
        i = i + 1;
    }
    assert(r@ =~= worktree_hits(v@, lowered@));
    r
}

/// Whether a submodule is a hit.
pub open spec fn submodule_hit(x: Submodule, lowered: Seq<char>) -> bool {
    contains_lowered(x.name@, lowered) || contains_lowered(x.path@, lowered)
}

/// Which ones are hits.
pub open spec fn submodule_hits(v: Seq<Submodule>, lowered: Seq<char>) -> Seq<bool> {
    Seq::new(v.len(), |i: int| submodule_hit(v[i], lowered))
}

fn find_submodule(v: &Vec<Submodule>, lowered: &str) -> (r: Vec<bool>)
    ensures
        r@ == submodule_hits(v@, lowered@),
{
    let mut r: Vec<bool> = Vec::new();
    let mut i: usize = 0;
    while i < v.len()
        invariant
            i <= v@.len(),
            r@.len() == i,
            forall|j: int| 0 <= j < i ==> #[trigger] r@[j] == submodule_hit(v@[j], lowered@),
        decreases v@.len() - i,
    {
        let hit = holds_lowered(v[i].name.as_str(), lowered) || holds_lowered(v[i].path.as_str(), lowered);
        r.push(hit);
        i = i + 1;
    }
    assert(r@ =~= submodule_hits(v@, lowered@));
    r
}

/// Whether a file of a commit is a hit.
pub open spec fn commit_file_hit(x: CommitFile, lowered: Seq<char>) -> bool {
    contains_lowered(x.name@, lowered)
}

/// Which ones are hits.
pub open spec fn commit_file_hits(v: Seq<CommitFile>, lowered: Seq<char>) -> Seq<bool> {
    Seq::new(v.len(), |i: int| commit_file_hit(v[i], lowered))
}

fn find_commit_file(v: &Vec<CommitFile>, lowered: &str) -> (r: Vec<bool>)
    ensures
        r@ == commit_file_hits(v@, lowered@),
{
    let mut r: Vec<bool> = Vec::new();
    let mut i: usize = 0;
    while i < v.len()
        invariant
            i <= v@.len(),
            r@.len() == i,
            forall|j: int| 0 <= j < i ==> #[trigger] r@[j] == commit_file_hit(v@[j], lowered@),
        decreases v@.len() - i,
    {
        let hit = holds_lowered(v[i].name.as_str(), lowered);
        r.push(hit);
        i = i + 1;
    }
    assert(r@ =~= commit_file_hits(v@, lowered@));
    r
}

/// Whether a commit of a branch is a hit.
pub open spec fn branch_commit_hit(x: Commit, lowered: Seq<char>) -> bool {
    contains_lowered(x.name@, lowered) || contains_lowered(x.hash@, lowered) || contains_lowered(x.author_name@, lowered)
}

/// Which ones are hits.
pub open spec fn branch_commit_hits(v: Seq<Commit>, lowered: Seq<char>) -> Seq<bool> {
    Seq::new(v.len(), |i: int| branch_commit_hit(v[i], lowered))
}

fn find_branch_commit(v: &Vec<Commit>, lowered: &str) -> (r: Vec<bool>)
    ensures
        r@ == branch_commit_hits(v@, lowered@),
{
    let mut r: Vec<bool> = Vec::new();
    let mut i: usize = 0;
    while i < v.len()
        invariant
            i <= v@.len(),
            r@.len() == i,
            forall|j: int| 0 <= j < i ==> #[trigger] r@[j] == branch_commit_hit(v@[j], lowered@),
        decreases v@.len() - i,
    {
        let hit = holds_lowered(v[i].name.as_str(), lowered) || holds_lowered(v[i].hash.as_str(), lowered) || holds_lowered(v[i].author_name.as_str(), lowered);
        r.push(hit);
        i = i + 1;
    }
    assert(r@ =~= branch_commit_hits(v@, lowered@));
    r
}

/// Which entries of the active list are hits; in a tree, which of its nodes.
pub open spec fn list_hits(s: Selection, m: Model, query: Seq<char>, lowered: Seq<char>) -> Seq<bool> {
    match s.active {
        ContextId::Files => if s.show_file_tree {
            node_hits(s.file_tree_nodes@, lowered)
        } else {
            file_hits(m.files@, lowered)
        },
        ContextId::Branches => branch_hits(m.branches@, lowered),
        ContextId::Commits => commit_hits(m.commits@, query, lowered),
        ContextId::Reflog => reflog_hits(m.reflog_commits@, query, lowered),
        ContextId::Stash => stash_hits(m.stash_entries@, lowered),
        ContextId::Tags => tag_hits(m.tags@, lowered),
        ContextId::Remotes => remote_hits(m.remotes@, lowered),
        ContextId::RemoteBranches => remote_branch_hits(m.sub_remote_branches@, lowered),
        ContextId::Worktrees => worktree_hits(m.worktrees@, lowered),
        ContextId::Submodules => submodule_hits(m.submodules@, lowered),
        ContextId::BranchCommits => branch_commit_hits(m.sub_commits@, lowered),
        ContextId::CommitFiles | ContextId::StashFiles | ContextId::BranchCommitFiles =>
        if s.show_commit_file_tree {
            node_hits(s.commit_file_tree_nodes@, lowered)
        } else {
            commit_file_hits(m.commit_files@, lowered)
        },
        ContextId::Status => seq![],
    }
}

/// Finds which entries of the active list are hits.
pub fn find_hits(s: &Selection, m: &Model, query: &str, lowered: &str) -> (r: Vec<bool>)
    ensures
        r@ == list_hits(*s, *m, query@, lowered@),
{
    match s.active {
        ContextId::Files => if s.show_file_tree {
            find_node(&s.file_tree_nodes, lowered)
        } else {
            find_file(&m.files, lowered)
        },
        ContextId::Branches => find_branch(&m.branches, lowered),
        ContextId::Commits => find_commit(&m.commits, query, lowered),
        ContextId::Reflog => find_reflog(&m.reflog_commits, query, lowered),
        ContextId::Stash => find_stash(&m.stash_entries, lowered),
        ContextId::Tags => find_tag(&m.tags, lowered),
        ContextId::Remotes => find_remote(&m.remotes, lowered),
        ContextId::RemoteBranches => find_remote_branch(&m.sub_remote_branches, lowered),
        ContextId::Worktrees => find_worktree(&m.worktrees, lowered),
        ContextId::Submodules => find_submodule(&m.submodules, lowered),
        ContextId::BranchCommits => find_branch_commit(&m.sub_commits, lowered),
        ContextId::CommitFiles | ContextId::StashFiles | ContextId::BranchCommitFiles => {
            if s.show_commit_file_tree {
                find_node(&s.commit_file_tree_nodes, lowered)
            } else {
                find_commit_file(&m.commit_files, lowered)
            }
        },
        ContextId::Status => Vec::new(),
    }
}

/// The indices of the hits among the first `n`, in order.
pub open spec fn hit_indices(hits: Seq<bool>, n: int) -> Seq<int>
    decreases n,
{
    if n <= 0 {
        seq![]
    } else if hits[n - 1] {
        hit_indices(hits, n - 1).push(n - 1)
    } else {
        hit_indices(hits, n - 1)
    }
}

/// Indices as plain numbers.
pub open spec fn ints(v: Seq<usize>) -> Seq<int> {
    Seq::new(v.len(), |i: int| v[i] as int)
}

fn collect_hits(hits: &Vec<bool>) -> (r: Vec<usize>)
    ensures
        ints(r@) == hit_indices(hits@, hits@.len() as int),
{
    let mut r: Vec<usize> = Vec::new();
    let mut i: usize = 0;
    assert(ints(r@) =~= seq![]);
    while i < hits.len()
        invariant
            i <= hits@.len(),
            ints(r@) == hit_indices(hits@, i as int),
        decreases hits@.len() - i,
    {
        if hits[i] {
            let ghost before = r@;
            r.push(i);
            assert(ints(r@) =~= ints(before).push(i as int));
        }
        i = i + 1;
    }
    r
}

// ---------------------------------------------------------------------------
// The search
// ---------------------------------------------------------------------------

/// A search in a list: what is searched for, and where it was found.
#[derive(Debug)]
pub struct Search {
    /// Whether the text to search for is being typed.
    pub active: bool,
    pub query: String,
    /// The indices of the hits, in order.
    pub matches: Vec<usize>,
    /// Which of the hits one is at.
    pub match_idx: usize,
    pub field: Option<TextField>,
}

impl Search {
    /// One is at one of the hits, if there are any.
    pub open spec fn wf(self) -> bool {
        self.matches@.len() > 0 ==> self.match_idx < self.matches@.len()
    }

    /// Whether nothing is searched for.
    pub open spec fn is_clear(self) -> bool {
        self.query@.len() == 0 && self.matches@.len() == 0 && self.match_idx == 0
    }

    /// No search.
    pub fn new() -> (r: Self)
        ensures
            !r.active,
            r.is_clear(),
            r.field is None,
            r.wf(),
    {
        Search {
            active: false,
            query: String::new(),
            matches: Vec::new(),
            match_idx: 0,
            field: None,
        }
    }

    /// Begins to ask for a text to search for.
    pub fn start(&mut self)
        ensures
            final(self).active,
            final(self).is_clear(),
            final(self).field matches Some(t) && input::holds(t, seq![]),
            final(self).wf(),
    {
        self.active = true;
        self.query = String::new();
        self.matches = Vec::new();
        self.match_idx = 0;
        self.field = Some(TextField::new());
    }

    /// Forgets the search.
    pub fn clear(&mut self)
        ensures
            final(self).is_clear(),
            final(self).active == old(self).active,
            final(self).field == old(self).field,
            final(self).wf(),
    {
        self.query = String::new();
        self.matches = Vec::new();
        self.match_idx = 0;
    }

    /// Takes the hits of what is searched for. Gives the index of the first, which is
    /// to be selected.
    pub fn place_matches(&mut self, hits: &Vec<bool>) -> (r: Option<usize>)
        requires
            old(self).wf(),
        ensures
            final(self).wf(),
            *final(self) == (Search {
                matches: final(self).matches,
                match_idx: final(self).match_idx,
                ..*old(self)
            }),
            ({
                let found = hit_indices(hits@, hits@.len() as int);
                &&& ints(final(self).matches@) == if old(self).query@.len() == 0 {
                    seq![]
                } else {
                    found
                }
                &&& if old(self).query@.len() == 0 || found.len() == 0 {
                    r is None && final(self).match_idx == old(self).match_idx
                } else {
                    (r matches Some(i) && i == found[0]) && final(self).match_idx == 0
                }
            }),
    {
        self.matches = Vec::new();
        assert(ints(self.matches@) =~= seq![]);
        if text::is_empty_str(self.query.as_str()) {
            return None;
        }
        self.matches = collect_hits(hits);
        assert(ints(self.matches@).len() == self.matches@.len());
        if self.matches.len() > 0 {
            self.match_idx = 0;
            assert(ints(self.matches@)[0] == self.matches@[0]);
            Some(self.matches[0])
        } else {
            None
        }
    }

    /// Searches the active list anew. Gives the index of the first hit, which is to be
    /// selected. Letter case does not matter, but for hashes that are given by their
    /// start.
    pub fn update_search_matches(&mut self, s: &Selection, m: &Model) -> (r: Option<usize>)
        requires
            old(self).wf(),
        ensures
            final(self).wf(),
            *final(self) == (Search {
                matches: final(self).matches,
                match_idx: final(self).match_idx,
                ..*old(self)
            }),
            ({
                let hits = list_hits(*s, *m, old(self).query@, text::lowercase(old(self).query@));
                let found = hit_indices(hits, hits.len() as int);
                &&& ints(final(self).matches@) == if old(self).query@.len() == 0 {
                    seq![]
                } else {
                    found
                }
                &&& if old(self).query@.len() == 0 || found.len() == 0 {
                    r is None && final(self).match_idx == old(self).match_idx
                } else {
                    (r matches Some(i) && i == found[0]) && final(self).match_idx == 0
                }
            }),
    {
        let lowered = self.query.to_lowercase();
        let hits = find_hits(s, m, self.query.as_str(), lowered.as_str());
        self.place_matches(&hits)
    }

    /// Goes to the next hit, from the last on to the first. Gives its index.
    pub fn goto_next(&mut self) -> (r: Option<usize>)
        requires
            old(self).wf(),
        ensures
            final(self).wf(),
            if old(self).matches@.len() == 0 {
                r is None && *final(self) == *old(self)
            } else {
                *final(self) == (Search {
                    match_idx: next_place(old(self).match_idx as int, old(self).matches@.len() as int) as usize,
                    ..*old(self)
                }) && r == Some(old(self).matches@[final(self).match_idx as int])
            },
    {
        let n: usize = self.matches.len();
        if n == 0 {
            return None;
        }
        self.match_idx = if self.match_idx + 1 == n {
            0
        } else {
            self.match_idx + 1
        };
        Some(self.matches[self.match_idx])
    }

    /// Goes to the hit before, from the first on to the last. Gives its index.
    pub fn goto_prev(&mut self) -> (r: Option<usize>)
        requires
            old(self).wf(),
        ensures
            final(self).wf(),
            if old(self).matches@.len() == 0 {
                r is None && *final(self) == *old(self)
            } else {
                *final(self) == (Search {
                    match_idx: prev_place(old(self).match_idx as int, old(self).matches@.len() as int) as usize,
                    ..*old(self)
                }) && r == Some(old(self).matches@[final(self).match_idx as int])
            },
    {
        let n: usize = self.matches.len();
        if n == 0 {
            return None;
        }
        self.match_idx = if self.match_idx == 0 {
            n - 1
        } else {
            self.match_idx - 1
        };
        Some(self.matches[self.match_idx])
    }

    /// Applies a key while the text to search for is typed. Gives the index that is to
    /// be selected, and whether the list has to be searched anew.
    pub fn key(&mut self, key: KeyEvent) -> (r: SearchStep)
        requires
            old(self).wf(),
        ensures
            final(self).wf(),
            match old(self).field {
                None => r is Stay && *final(self) == *old(self),
                Some(f) => match key.code {
                    KeyCode::Esc => r is Stay && !final(self).active && final(self).is_clear()
                        && final(self).field is None,
                    KeyCode::Enter => {
                        &&& !final(self).active
                        &&& final(self).field is None
                        &&& final(self).query == old(self).query
                        &&& final(self).matches == old(self).matches
                        &&& if old(self).matches@.len() > 0 {
                            r == SearchStep::Select(old(self).matches@[0]) && final(self).match_idx
                                == 0
                        } else {
                            r is Stay && final(self).match_idx == old(self).match_idx
                        }
                    },
                    _ => {
                        &&& r is SearchAnew
                        &&& final(self).field matches Some(f2) && (exists|taken: bool| #[trigger]
                            textarea::key_applied(f, key, f2, taken)) && final(self).query@
                            == text::join(f2.text().lines, seq![])
                        &&& *final(self) == (Search {
                            query: final(self).query,
                            field: final(self).field,
                            ..*old(self)
                        })
                    },
                },
            },
    {
        match self.field.take() {
            None => SearchStep::Stay,
            Some(field) => match key.code {
                KeyCode::Esc => {
                    self.active = false;
                    self.clear();
                    SearchStep::Stay
                },
                KeyCode::Enter => {
                    self.active = false;
                    if self.matches.len() > 0 {
                        self.match_idx = 0;
                        SearchStep::Select(self.matches[0])
                    } else {
                        SearchStep::Stay
                    }
                },
                _ => {
                    let mut field = field;
                    let ghost before = field;
                    let taken = textarea::textarea_input(&mut field, key);
                    assert(textarea::key_applied(before, key, field, taken));
                    self.query = field.joined();
                    let ghost typed = field;
                    self.field = Some(field);
                    assert(self.query@ == text::join(typed.text().lines, seq![]));
                    assert(textarea::key_applied(before, key, self.field->0, taken));
                    SearchStep::SearchAnew
                },
            },
        }
    }
}

/// What a key leads to while the text to search for is typed.
#[derive(Debug, Clone, Copy, PartialEq, Eq, Structural)]
pub enum SearchStep {
    Stay,
    Select(usize),
    SearchAnew,
}

/// The place after another among `n`, from the last on to the first.
pub open spec fn next_place(i: int, n: int) -> int {
    if i + 1 == n {
        0
    } else {
        i + 1
    }
}

/// The place before another among `n`, from the first on to the last.
pub open spec fn prev_place(i: int, n: int) -> int {
    if i == 0 {
        n - 1
    } else {
        i - 1
    }
}

// ---------------------------------------------------------------------------
// Laws
// ---------------------------------------------------------------------------

/// The places of a search hold exactly the hits, in ascending order.
pub proof fn matches_are_the_hits(hits: Seq<bool>, n: int)
    requires
        0 <= n <= hits.len(),
    ensures
        forall|k: int| 0 <= k < n ==> (hits[k] <==> hit_indices(hits, n).contains(k)),
        forall|a: int|
            0 <= a < hit_indices(hits, n).len() ==> 0 <= #[trigger] hit_indices(hits, n)[a] < n,
        forall|a: int, b: int|
            0 <= a < b < hit_indices(hits, n).len() ==> hit_indices(hits, n)[a] < hit_indices(
                hits,
                n,
            )[b],
    decreases n,
{
    if n > 0 {
        matches_are_the_hits(hits, n - 1);
        let rest = hit_indices(hits, n - 1);
        let all = hit_indices(hits, n);
        assert forall|k: int| 0 <= k < n implies (hits[k] <==> all.contains(k)) by {
            if k < n - 1 {
                if rest.contains(k) {
                    let a = choose|a: int| 0 <= a < rest.len() && rest[a] == k;
                    assert(all[a] == k);
                }
                if all.contains(k) {
                    let a = choose|a: int| 0 <= a < all.len() && all[a] == k;
                    assert(a < rest.len());
                    assert(rest[a] == k);
                }
            } else {
                if hits[k] {
                    assert(all.last() == k);
                }
                if all.contains(k) && !hits[k] {
                    let a = choose|a: int| 0 <= a < all.len() && all[a] == k;
                    assert(rest[a] == k);
                }
            }
        }
    }
}

/// Going to the next hit and back to the one before leads to where one was, and the
/// other way round.
pub proof fn hits_go_round(i: int, n: int)
    requires
        0 <= i < n,
    ensures
        0 <= next_place(i, n) < n,
        0 <= prev_place(i, n) < n,
        prev_place(next_place(i, n), n) == i,
        next_place(prev_place(i, n), n) == i,
{
}

/// The next hit is the one behind, and behind the last comes the first; the hit before is
/// the one above, and above the first comes the last.
pub proof fn the_next_hit_is_the_one_behind(i: int, n: int)
    requires
        0 <= i < n,
    ensures
        i + 1 < n ==> next_place(i, n) == i + 1,
        i + 1 == n ==> next_place(i, n) == 0,
        i > 0 ==> prev_place(i, n) == i - 1,
        i == 0 ==> prev_place(i, n) == n - 1,
{
}

/// Whether a text holds what is searched for, in lower case.
pub open spec fn holds_text(s: Seq<char>, lowered: Seq<char>) -> bool {
    text::find_text(text::lowercase(s), lowered) is Some
}

/// Each list is searched entry by entry, in the names that it shows, whatever their case;
/// commits are also found by their author and the start of their hash, trees by paths.
pub proof fn each_list_is_searched(s: Selection, m: Model, query: Seq<char>, q: Seq<char>, i: int)
    requires
        0 <= i < list_hits(s, m, query, q).len(),
    ensures
        ({
            let hit = list_hits(s, m, query, q)[i];
            &&& s.active is Files && !s.show_file_tree ==> (hit <==> holds_text(m.files@[i].name@, q))
            &&& s.active is Files && s.show_file_tree ==> (hit <==> holds_text(
                s.file_tree_nodes@[i].path@,
                q,
            ) || holds_text(s.file_tree_nodes@[i].name@, q))
            &&& s.active is Branches ==> (hit <==> holds_text(m.branches@[i].name@, q))
            &&& s.active is Commits ==> (hit <==> holds_text(m.commits@[i].name@, q) || holds_text(
                m.commits@[i].author_name@,
                q,
            ) || query.is_prefix_of(m.commits@[i].hash@))
            &&& s.active is Reflog ==> (hit <==> holds_text(m.reflog_commits@[i].name@, q)
                || query.is_prefix_of(m.reflog_commits@[i].hash@))
            &&& s.active is Stash ==> (hit <==> holds_text(m.stash_entries@[i].name@, q))
            &&& s.active is Tags ==> (hit <==> holds_text(m.tags@[i].name@, q))
            &&& s.active is Remotes ==> (hit <==> holds_text(m.remotes@[i].name@, q))
            &&& s.active is RemoteBranches ==> (hit <==> holds_text(
                m.sub_remote_branches@[i].name@,
                q,
            ))
            &&& s.active is Worktrees ==> (hit <==> holds_text(m.worktrees@[i].branch@, q)
                || holds_text(m.worktrees@[i].path@, q))
            &&& s.active is Submodules ==> (hit <==> holds_text(m.submodules@[i].name@, q)
                || holds_text(m.submodules@[i].path@, q))
            &&& s.active is BranchCommits ==> (hit <==> holds_text(m.sub_commits@[i].name@, q)
                || holds_text(m.sub_commits@[i].hash@, q) || holds_text(
                m.sub_commits@[i].author_name@,
                q,
            ))
            &&& s.active.lists_commit_files() && !s.show_commit_file_tree ==> (hit <==> holds_text(
                m.commit_files@[i].name@,
                q,
            ))
            &&& s.active.lists_commit_files() && s.show_commit_file_tree ==> (hit <==> holds_text(
                s.commit_file_tree_nodes@[i].path@,
                q,
            ) || holds_text(s.commit_file_tree_nodes@[i].name@, q))
            &&& !(s.active is Status)
        }),
{
    match s.active {
        ContextId::Files => if s.show_file_tree {
            lemma_holds(s.file_tree_nodes@[i].path@, q);
            lemma_holds(s.file_tree_nodes@[i].name@, q);
        } else {
            lemma_holds(m.files@[i].name@, q);
        },
        ContextId::Branches => lemma_holds(m.branches@[i].name@, q),
        ContextId::Commits => {
            lemma_holds(m.commits@[i].name@, q);
            lemma_holds(m.commits@[i].author_name@, q);
        },
        ContextId::Reflog => lemma_holds(m.reflog_commits@[i].name@, q),
        ContextId::Stash => lemma_holds(m.stash_entries@[i].name@, q),
        ContextId::Tags => lemma_holds(m.tags@[i].name@, q),
        ContextId::Remotes => lemma_holds(m.remotes@[i].name@, q),
        ContextId::RemoteBranches => lemma_holds(m.sub_remote_branches@[i].name@, q),
        ContextId::Worktrees => {
            lemma_holds(m.worktrees@[i].branch@, q);
            lemma_holds(m.worktrees@[i].path@, q);
        },
        ContextId::Submodules => {
            lemma_holds(m.submodules@[i].name@, q);
            lemma_holds(m.submodules@[i].path@, q);
        },
        ContextId::BranchCommits => {
            lemma_holds(m.sub_commits@[i].name@, q);
            lemma_holds(m.sub_commits@[i].hash@, q);
            lemma_holds(m.sub_commits@[i].author_name@, q);
        },
        ContextId::CommitFiles | ContextId::StashFiles | ContextId::BranchCommitFiles =>
        if s.show_commit_file_tree {
            lemma_holds(s.commit_file_tree_nodes@[i].path@, q);
            lemma_holds(s.commit_file_tree_nodes@[i].name@, q);
        } else {
            lemma_holds(m.commit_files@[i].name@, q);
        },
        ContextId::Status => {},
    }
}

proof fn lemma_holds(s: Seq<char>, lowered: Seq<char>)
    ensures
        contains_lowered(s, lowered) == holds_text(s, lowered),
{
    text::find_text_is_first_occurrence(text::lowercase(s), lowered);
}

/// Every entry of the active list is searched.
pub proof fn the_whole_list_is_searched(s: Selection, m: Model, query: Seq<char>, q: Seq<char>)
    ensures
        ({
            let n = list_hits(s, m, query, q).len();
            &&& s.active is Files && !s.show_file_tree ==> n == m.files@.len()
            &&& s.active is Files && s.show_file_tree ==> n == s.file_tree_nodes@.len()
            &&& s.active is Branches ==> n == m.branches@.len()
            &&& s.active is Commits ==> n == m.commits@.len()
            &&& s.active is Reflog ==> n == m.reflog_commits@.len()
            &&& s.active is Stash ==> n == m.stash_entries@.len()
            &&& s.active is Tags ==> n == m.tags@.len()
            &&& s.active is Remotes ==> n == m.remotes@.len()
            &&& s.active is RemoteBranches ==> n == m.sub_remote_branches@.len()
            &&& s.active is Worktrees ==> n == m.worktrees@.len()
            &&& s.active is Submodules ==> n == m.submodules@.len()
            &&& s.active is BranchCommits ==> n == m.sub_commits@.len()
            &&& s.active is Status ==> n == 0
        }),
{
}

/// A search that is clear has no query and no hits, and is at the first place.
pub proof fn a_clear_search_has_nothing(s: Search)
    requires
        s.is_clear(),
    ensures
        s.query@.len() == 0,
        s.matches@.len() == 0,
        s.match_idx == 0,
        s.wf(),
{
}

} // verus!
