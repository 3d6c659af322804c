//! Which diff is asked for, and the loads that bring it.

use crate::git::merge_conflict;
use crate::gui::context::ContextId;
use crate::gui::diff_cache;
use crate::gui::diff_pane;
use crate::gui::diff_pane::DiffPane;
use crate::model;
use crate::model::{Commit, CommitFile, File, Model, TreeNode};
use crate::text;
use vstd::prelude::*;

verus! {

// ---------------------------------------------------------------------------
// The scheduler
// ---------------------------------------------------------------------------

/// How many diffs are loaded at once.
pub const MAX_CONCURRENT_DIFF_JOBS: usize = 2;

/// Starts loads at once while there is room, and keeps only the newest of those
/// that have to wait.
#[derive(Debug)]
pub struct DiffScheduler<J> {
    pub active_jobs: usize,
    pub pending: Option<(u64, J)>,
}

impl<J> DiffScheduler<J> {
    /// No more loads run than may.
    pub open spec fn wf(self) -> bool {
        self.active_jobs <= MAX_CONCURRENT_DIFF_JOBS
    }

    /// An idle scheduler.
    pub fn new() -> (r: Self)
        ensures
            r.wf(),
            r.active_jobs == 0,
            r.pending is None,
    {
        DiffScheduler { active_jobs: 0, pending: None }
    }

    /// The scheduler after a load was asked for by the request with a number, of
    /// which `current` is the newest, and the load if it is started at once. A load
    /// of an older request is dropped.
    pub open spec fn arrived(self, generation: u64, job: J, current: u64) -> (
        DiffScheduler<J>,
        Option<J>,
    ) {
        if generation != current {
            (self, None)
        } else if self.active_jobs < MAX_CONCURRENT_DIFF_JOBS {
            (DiffScheduler { active_jobs: (self.active_jobs + 1) as usize, ..self }, Some(job))
        } else {
            (DiffScheduler { pending: Some((generation, job)), ..self }, None)
        }
    }

    /// The scheduler after a load ended, and the one that waited if it is started
    /// now: it is dropped if something newer was asked for since.
    pub open spec fn completed(self, current: u64) -> (DiffScheduler<J>, Option<J>) {
        let left = if self.active_jobs > 0 {
            (self.active_jobs - 1) as usize
        } else {
            0
        };
        match self.pending {
            Some((g, job)) => if g == current {
                (DiffScheduler { active_jobs: (left + 1) as usize, pending: None }, Some(job))
            } else {
                (DiffScheduler { active_jobs: left, pending: None }, None)
            },
            None => (DiffScheduler { active_jobs: left, pending: None }, None),
        }
    }

    /// A load was asked for. Hands it back if it is to be started now.
    pub fn on_job(&mut self, generation: u64, job: J, current: u64) -> (r: Option<J>)
        requires
            old(self).wf(),
        ensures
            final(self).wf(),
            (*final(self), r) == old(self).arrived(generation, job, current),
    {
        if generation != current {
            return None;
        }
        if self.active_jobs < MAX_CONCURRENT_DIFF_JOBS {
            self.active_jobs = self.active_jobs + 1;
            Some(job)
        } else {
            self.pending = Some((generation, job));
            None
        }
    }

    /// A load ended. Hands the waiting one back if it is to be started now.
    pub fn on_complete(&mut self, current: u64) -> (r: Option<J>)
        requires
            old(self).wf(),
        ensures
            final(self).wf(),
            (*final(self), r) == old(self).completed(current),
    {
        self.active_jobs = self.active_jobs.saturating_sub(1);
        match self.pending.take() {
            Some((generation, job)) => if generation == current {
                self.active_jobs = self.active_jobs + 1;
                Some(job)
            } else {
                None
            },
            None => None,
        }
    }
}

/// Whether a load may go on: it stops before and after its work once something
/// newer was asked for.
pub fn diff_job_is_current(generation: u64, current: u64) -> (r: bool)
    ensures
        r == (generation == current),
{
    generation == current
}

/// Of several loads that have to wait, only the newest is started when there is
/// room again.
pub proof fn newest_waiting_job_wins<J>(s: DiffScheduler<J>, g: u64, a: J, b: J)
    requires
        s.active_jobs == MAX_CONCURRENT_DIFF_JOBS,
    ensures
        s.arrived(g, a, g).0.arrived(g, b, g).0.completed(g).1 == Some(b),
        s.arrived(g, a, g).0.arrived(g, b, g).0.completed(g).0.pending is None,
{
}

/// A load that waits is not started once something newer was asked for.
pub proof fn outdated_waiting_job_is_dropped<J>(s: DiffScheduler<J>, g: u64, a: J, current: u64)
    requires
        s.active_jobs == MAX_CONCURRENT_DIFF_JOBS,
        g != current,
    ensures
        s.arrived(g, a, g).0.completed(current).1 is None,
{
}

// ---------------------------------------------------------------------------
// Keys
// ---------------------------------------------------------------------------

/// What is selected in a list of files or in the tree over it.
pub enum Picked {
    File(Seq<char>),
    Dir(Seq<char>),
    Nothing,
}

/// The part of a key that names what is selected.
pub open spec fn picked_text(p: Picked) -> Seq<char> {
    match p {
        Picked::File(name) => "file:"@ + name,
        Picked::Dir(path) => "dir:"@ + path,
        Picked::Nothing => "none"@,
    }
}

/// What is selected: in a tree, the file of the selected node or else its
/// directory; in a list, the selected file.
pub open spec fn picked(
    tree: bool,
    nodes: Seq<TreeNode>,
    names: Seq<Seq<char>>,
    selected: int,
) -> Picked {
    if tree {
        if selected < nodes.len() {
            match nodes[selected].file_index {
                Some(i) => if i < names.len() {
                    Picked::File(names[i as int])
                } else {
                    Picked::Dir(nodes[selected].path@)
                },
                None => Picked::Dir(nodes[selected].path@),
            }
        } else {
            Picked::Nothing
        }
    } else if selected < names.len() {
        Picked::File(names[selected])
    } else {
        Picked::Nothing
    }
}

/// The names of files, in order.
pub open spec fn file_names(v: Seq<File>) -> Seq<Seq<char>> {
    Seq::new(v.len(), |i: int| v[i].name@)
}

/// The names of the files of a commit, in order.
pub open spec fn commit_file_names(v: Seq<CommitFile>) -> Seq<Seq<char>> {
    Seq::new(v.len(), |i: int| v[i].name@)
}

/// The comparison of two references, while it is on.
#[derive(Debug)]
pub struct DiffModeSelection {
    pub ref_a: String,
    pub ref_b: String,
    pub show_tree: bool,
    pub tree_nodes: Vec<TreeNode>,
    pub diff_files: Vec<CommitFile>,
    pub selected: usize,
}

/// What decides which diff is shown.
#[derive(Debug)]
pub struct Selection {
    pub active: ContextId,
    pub selected: usize,
    pub show_file_tree: bool,
    pub file_tree_nodes: Vec<TreeNode>,
    pub show_commit_file_tree: bool,
    pub commit_file_tree_nodes: Vec<TreeNode>,
    pub commit_files_hash: String,
}

/// The hash of the selected commit, or a word where there is none.
pub open spec fn hash_or_none(v: Seq<Commit>, i: int) -> Seq<char> {
    if i < v.len() {
        v[i].hash@
    } else {
        "none"@
    }
}

/// The key of the diff of what is selected.
pub open spec fn diff_key(s: Selection, m: Model, mode: Option<DiffModeSelection>) -> Seq<char> {
    match mode {
        Some(d) => "DiffMode:"@ + d.ref_a@ + ".."@ + d.ref_b@ + ":"@ + picked_text(
            picked(
                d.show_tree,
                d.tree_nodes@,
                commit_file_names(d.diff_files@),
                d.selected as int,
            ),
        ),
        None => {
            let start = s.active.name() + ":"@;
            let i = s.selected as int;
            match s.active {
                ContextId::Files => start + picked_text(
                    picked(s.show_file_tree, s.file_tree_nodes@, file_names(m.files@), i),
                ),
                ContextId::Commits => start + hash_or_none(m.commits@, i),
                ContextId::Reflog => start + hash_or_none(m.reflog_commits@, i),
                ContextId::BranchCommits => start + hash_or_none(m.sub_commits@, i),
                ContextId::Stash => start + if i < m.stash_entries@.len() {
                    m.stash_entries@[i].hash@
                } else {
                    "none"@
                },
                ContextId::CommitFiles | ContextId::StashFiles | ContextId::BranchCommitFiles =>
                    start + s.commit_files_hash@ + ":"@ + picked_text(
                    picked(
                        s.show_commit_file_tree,
                        s.commit_file_tree_nodes@,
                        commit_file_names(m.commit_files@),
                        i,
                    ),
                ),
                _ => start + text::decimal(s.selected as nat),
            }
        },
    }
}

fn push_picked_file(key: &mut String, name: &str)
    ensures
        final(key)@ == old(key)@ + picked_text(Picked::File(name@)),
{
    key.append("file:");
    key.append(name);
    assert(key@ =~= old(key)@ + picked_text(Picked::File(name@)));
}

fn push_picked_dir(key: &mut String, path: &str)
    ensures
        final(key)@ == old(key)@ + picked_text(Picked::Dir(path@)),
{
    key.append("dir:");
    key.append(path);
    assert(key@ =~= old(key)@ + picked_text(Picked::Dir(path@)));
}

fn push_file_pick(
    key: &mut String,
    tree: bool,
    nodes: &Vec<TreeNode>,
    files: &Vec<File>,
    selected: usize,
)
    ensures
        final(key)@ == old(key)@ + picked_text(
            picked(tree, nodes@, file_names(files@), selected as int),
        ),
{
    if tree {
        if selected < nodes.len() {
            match nodes[selected].file_index {
                Some(i) if i < files.len() => push_picked_file(key, files[i].name.as_str()),
                _ => push_picked_dir(key, nodes[selected].path.as_str()),
            }
        } else {
            key.append("none");
        }
    } else if selected < files.len() {
        push_picked_file(key, files[selected].name.as_str());
    } else {
        key.append("none");
    }
}

fn push_commit_file_pick(
    key: &mut String,
    tree: bool,
    nodes: &Vec<TreeNode>,
    files: &Vec<CommitFile>,
    selected: usize,
)
    ensures
        final(key)@ == old(key)@ + picked_text(
            picked(tree, nodes@, commit_file_names(files@), selected as int),
        ),
{
    if tree {
        if selected < nodes.len() {
            match nodes[selected].file_index {
                Some(i) if i < files.len() => push_picked_file(key, files[i].name.as_str()),
                _ => push_picked_dir(key, nodes[selected].path.as_str()),
            }
        } else {
            key.append("none");
        }
    } else if selected < files.len() {
        push_picked_file(key, files[selected].name.as_str());
    } else {
        key.append("none");
    }
}

fn push_hash(key: &mut String, commits: &Vec<Commit>, i: usize)
    ensures
        final(key)@ == old(key)@ + hash_or_none(commits@, i as int),
{
    if i < commits.len() {
        key.append(commits[i].hash.as_str());
    } else {
        key.append("none");
    }
}

/// The key of the diff of what is selected.
pub fn current_diff_key(s: &Selection, m: &Model, mode: &Option<DiffModeSelection>) -> (r: String)
    ensures
        r@ == diff_key(*s, *m, *mode),
{
    match mode {
        Some(d) => {
            let mut key = "DiffMode:".to_string();
            key.append(d.ref_a.as_str());
            key.append("..");
            key.append(d.ref_b.as_str());
            key.append(":");
            push_commit_file_pick(&mut key, d.show_tree, &d.tree_nodes, &d.diff_files, d.selected);
            key
        },
        None => {
            let mut key = s.active.name_str().to_string();
            key.append(":");
            match s.active {
                ContextId::Files => push_file_pick(
                    &mut key,
                    s.show_file_tree,
                    &s.file_tree_nodes,
                    &m.files,
                    s.selected,
                ),
                ContextId::Commits => push_hash(&mut key, &m.commits, s.selected),
                ContextId::Reflog => push_hash(&mut key, &m.reflog_commits, s.selected),
                ContextId::BranchCommits => push_hash(&mut key, &m.sub_commits, s.selected),
                ContextId::Stash => {
                    if s.selected < m.stash_entries.len() {
                        key.append(m.stash_entries[s.selected].hash.as_str());
                    } else {
                        key.append("none");
                    }
                },
                ContextId::CommitFiles | ContextId::StashFiles | ContextId::BranchCommitFiles => {
                    key.append(s.commit_files_hash.as_str());
                    key.append(":");
                    push_commit_file_pick(
                        &mut key,
                        s.show_commit_file_tree,
                        &s.commit_file_tree_nodes,
                        &m.commit_files,
                        s.selected,
                    );
                },
                _ => {
                    key.append(text::decimal_of(s.selected).as_str());
                },
            }
            key
        },
    }
}

proof fn lemma_prefix_of_sum(p: Seq<char>, a: Seq<char>, b: Seq<char>)
    requires
        p.len() <= a.len(),
    ensures
        p.is_prefix_of(a + b) == p.is_prefix_of(a),
{
    assert((a + b).subrange(0, p.len() as int) =~= a.subrange(0, p.len() as int));
}

proof fn lemma_starts_differ(p: Seq<char>, s: Seq<char>, i: int)
    requires
        0 <= i < p.len(),
        i < s.len(),
        p[i] != s[i],
    ensures
        !p.is_prefix_of(s),
{
    if p.is_prefix_of(s) {
        assert(s.subrange(0, p.len() as int)[i] == s[i]);
    }
}

/// A key stands for something that can never change exactly where what is selected
/// has a hash of its own; keys of files, also of those of a commit, do not.
pub proof fn only_hash_keys_are_immutable(s: Selection, m: Model)
    ensures
        diff_cache::immutable_key(diff_key(s, m, None)) == s.active.lists_hashes(),
{
    reveal_strlit("Commits:");
    reveal_strlit("Reflog:");
    reveal_strlit("BranchCommits:");
    reveal_strlit("Stash:");
    reveal_strlit(":");
    reveal_strlit("Status");
    reveal_strlit("Files");
    reveal_strlit("Worktrees");
    reveal_strlit("Submodules");
    reveal_strlit("Branches");
    reveal_strlit("Remotes");
    reveal_strlit("RemoteBranches");
    reveal_strlit("Tags");
    reveal_strlit("Commits");
    reveal_strlit("Reflog");
    reveal_strlit("Stash");
    reveal_strlit("CommitFiles");
    reveal_strlit("StashFiles");
    reveal_strlit("BranchCommits");
    reveal_strlit("BranchCommitFiles");
    let key = diff_key(s, m, None);
    let start = s.active.name() + ":"@;
    assert(exists|rest: Seq<char>| key =~= start + rest) by {
        assert(key =~= start + key.skip(start.len() as int));
    }
    let rest = key.skip(start.len() as int);
    assert(key =~= start + rest);
    match s.active {
        ContextId::Commits => {
            assert(start =~= "Commits:"@);
            lemma_prefix_of_sum("Commits:"@, start, rest);
            assert("Commits:"@.subrange(0, 8) =~= "Commits:"@);
        },
        ContextId::Reflog => {
            assert(start =~= "Reflog:"@);
            lemma_prefix_of_sum("Reflog:"@, start, rest);
            assert("Reflog:"@.subrange(0, 7) =~= "Reflog:"@);
        },
        ContextId::BranchCommits => {
            assert(start =~= "BranchCommits:"@);
            lemma_prefix_of_sum("BranchCommits:"@, start, rest);
            assert("BranchCommits:"@.subrange(0, 14) =~= "BranchCommits:"@);
        },
        ContextId::Stash => {
            assert(start =~= "Stash:"@);
            lemma_prefix_of_sum("Stash:"@, start, rest);
            assert("Stash:"@.subrange(0, 6) =~= "Stash:"@);
        },
        ContextId::CommitFiles => {
            lemma_starts_differ("Commits:"@, key, 6);
            lemma_starts_differ("Reflog:"@, key, 0);
            lemma_starts_differ("BranchCommits:"@, key, 0);
            lemma_starts_differ("Stash:"@, key, 0);
        },
        ContextId::StashFiles => {
            lemma_starts_differ("Commits:"@, key, 0);
            lemma_starts_differ("Reflog:"@, key, 0);
            lemma_starts_differ("BranchCommits:"@, key, 0);
            lemma_starts_differ("Stash:"@, key, 5);
        },
        ContextId::BranchCommitFiles => {
            lemma_starts_differ("Commits:"@, key, 0);
            lemma_starts_differ("Reflog:"@, key, 0);
            lemma_starts_differ("BranchCommits:"@, key, 12);
            lemma_starts_differ("Stash:"@, key, 0);
        },
        ContextId::Branches => {
            lemma_starts_differ("Commits:"@, key, 0);
            lemma_starts_differ("Reflog:"@, key, 0);
            lemma_starts_differ("BranchCommits:"@, key, 6);
            lemma_starts_differ("Stash:"@, key, 0);
        },
        ContextId::Status => {
            lemma_starts_differ("Commits:"@, key, 0);
            lemma_starts_differ("Reflog:"@, key, 0);
            lemma_starts_differ("BranchCommits:"@, key, 0);
            lemma_starts_differ("Stash:"@, key, 3);
        },
        ContextId::Submodules => {
            lemma_starts_differ("Commits:"@, key, 0);
            lemma_starts_differ("Reflog:"@, key, 0);
            lemma_starts_differ("BranchCommits:"@, key, 0);
            lemma_starts_differ("Stash:"@, key, 1);
        },
        ContextId::Remotes | ContextId::RemoteBranches => {
            lemma_starts_differ("Commits:"@, key, 0);
            lemma_starts_differ("Reflog:"@, key, 2);
            lemma_starts_differ("BranchCommits:"@, key, 0);
            lemma_starts_differ("Stash:"@, key, 0);
        },
        _ => {
            lemma_starts_differ("Commits:"@, key, 0);
            lemma_starts_differ("Reflog:"@, key, 0);
            lemma_starts_differ("BranchCommits:"@, key, 0);
            lemma_starts_differ("Stash:"@, key, 0);
        },
    }
}

// ---------------------------------------------------------------------------
// Loads
// ---------------------------------------------------------------------------

/// The pathspec of a node of a tree: none for the root, and a directory's contents
/// otherwise.
pub open spec fn tree_pathspec(path: Seq<char>) -> Option<Seq<char>> {
    if path.len() == 0 || path == "."@ {
        None
    } else if path.last() == '/' {
        Some(path)
    } else {
        Some(path.push('/'))
    }
}

/// The pathspec of a node of a tree.
pub fn pathspec_for_tree_path(path: &str) -> (r: Option<String>)
    ensures
        match r {
            Some(s) => tree_pathspec(path@) == Some(s@),
            None => tree_pathspec(path@) is None,
        },
{
    let chars = text::chars_of(path);
    if chars.len() == 0 || text::is_text(chars.as_slice(), ".") {
        return None;
    }
    if chars[chars.len() - 1] == '/' {
        return Some(path.to_string());
    }
    let mut s = path.to_string();
    s.push('/');
    Some(s)
}

/// The added lines of a new file.
pub open spec fn added_lines(l: Seq<Seq<char>>, n: int) -> Seq<char>
    decreases n,
{
    if n <= 0 {
        seq![]
    } else {
        added_lines(l, n - 1) + seq!['+'] + l[n - 1] + seq!['\n']
    }
}

/// A unified diff that adds a file with its contents.
pub open spec fn new_file_diff(f: Seq<char>, content: Seq<char>) -> Seq<char> {
    let l = text::lines(content);
    "diff --git a/"@ + f + " b/"@ + f + "\nnew file mode 100644\n--- /dev/null\n+++ b/"@ + f
        + "\n@@ -0,0 +1,"@ + text::decimal(l.len()) + " @@\n"@ + added_lines(l, l.len() as int)
}

/// Writes a unified diff for a file that git does not know yet, so that it can stand
/// among the diffs of other files.
pub fn synthesize_new_file_diff(filename: &str, content: &str) -> (r: String)
    ensures
        r@ == new_file_diff(filename@, content@),
{
    let chars = text::chars_of(content);
    let lines = text::lines_of(chars.as_slice());
    let ghost l = text::lines(content@);
    let mut diff = "diff --git a/".to_string();
    diff.append(filename);
    diff.append(" b/");
    diff.append(filename);
    diff.append("\nnew file mode 100644\n--- /dev/null\n+++ b/");
    diff.append(filename);
    diff.append("\n@@ -0,0 +1,");
    assert(text::pieces(lines@).len() == lines@.len());
    diff.append(text::decimal_of(lines.len()).as_str());
    diff.append(" @@\n");
    let ghost head = diff@;
    let mut i: usize = 0;
    assert(head + added_lines(l, 0) =~= head);
    while i < lines.len()
        invariant
            i <= lines@.len(),
            text::pieces(lines@) == l,
            diff@ == head + added_lines(l, i as int),
        decreases lines@.len() - i,
    {
        assert(l[i as int] == lines@[i as int]@);
        diff.push('+');
        diff.append(text::string_of(lines[i].as_slice()).as_str());
        diff.push('\n');
        assert(diff@ =~= head + added_lines(l, i as int + 1));
        i = i + 1;
    }
    diff
}

/// A unified diff that adds a file whose contents are not shown.
pub open spec fn binary_file_diff(f: Seq<char>) -> Seq<char> {
    "diff --git a/"@ + f + " b/"@ + f
        + "\nnew file mode 100644\nindex 0000000..1111111\nBinary files /dev/null and b/"@ + f
        + " differ\n"@
}

/// Writes a unified diff for a file that cannot be shown as text.
pub fn synthesize_binary_file_diff(filename: &str) -> (r: String)
    ensures
        r@ == binary_file_diff(filename@),
{
    let mut diff = "diff --git a/".to_string();
    diff.append(filename);
    diff.append(" b/");
    diff.append(filename);
    diff.append(
        "\nnew file mode 100644\nindex 0000000..1111111\nBinary files /dev/null and b/",
    );
    diff.append(filename);
    diff.append(" differ\n");
    diff
}

/// The diff of what is selected, as it has to be loaded.
#[derive(Debug)]
pub enum DiffLoad {
    File {
        name: String,
        current_path: String,
        diff_paths: Vec<String>,
        has_staged: bool,
        has_unstaged: bool,
        has_conflicts: bool,
        is_tracked: bool,
    },
    Directory { pathspec: Option<String>, dir_name: String, untracked: Vec<String> },
    Commit { hash: String, from_reflog: bool },
    Stash { index: usize },
    CommitFile { hash: String, name: String, current_path: String },
    CommitDirectory { hash: String, pathspec: Option<String>, dir_name: String },
}

/// The diff of what is selected, as plain values.
pub enum Load {
    File(model::FileEntry),
    Directory(Option<Seq<char>>, Seq<char>, Seq<Seq<char>>),
    Commit(Seq<char>, bool),
    Stash(nat),
    CommitFile(Seq<char>, Seq<char>),
    CommitDirectory(Seq<char>, Option<Seq<char>>, Seq<char>),
}

impl DiffLoad {
    /// Whether the load is the one that plain values describe.
    pub open spec fn is_load(self, l: Load) -> bool {
        match (self, l) {
            (
                DiffLoad::File {
                    name,
                    current_path,
                    diff_paths,
                    has_staged,
                    has_unstaged,
                    has_conflicts,
                    is_tracked,
                },
                Load::File(e),
            ) => {
                &&& name@ == e.name
                &&& current_path@ == model::path_now(e.name)
                &&& text::texts(diff_paths@) == model::paths_of(e.name)
                &&& has_staged == e.has_staged_changes
                &&& has_unstaged == e.has_unstaged_changes
                &&& has_conflicts == e.has_merge_conflicts
                &&& is_tracked == e.is_tracked
            },
            (
                DiffLoad::Directory { pathspec, dir_name, untracked },
                Load::Directory(p, d, u),
            ) => text::opt_text(pathspec) == p && dir_name@ == d && text::texts(untracked@) == u,
            (DiffLoad::Commit { hash, from_reflog }, Load::Commit(h, f)) => hash@ == h
                && from_reflog == f,
            (DiffLoad::Stash { index }, Load::Stash(i)) => index == i,
            (DiffLoad::CommitFile { hash, name, current_path }, Load::CommitFile(h, n)) => hash@
                == h && name@ == n && current_path@ == model::path_now(n),
            (
                DiffLoad::CommitDirectory { hash, pathspec, dir_name },
                Load::CommitDirectory(h, p, d),
            ) => hash@ == h && text::opt_text(pathspec) == p && dir_name@ == d,
            _ => false,
        }
    }
}

/// The index of the selected file: in a tree, that of the selected node.
pub open spec fn picked_index(tree: bool, nodes: Seq<TreeNode>, selected: usize) -> Option<usize> {
    if tree {
        if selected < nodes.len() {
            nodes[selected as int].file_index
        } else {
            None
        }
    } else {
        Some(selected)
    }
}

fn index_of_pick(tree: bool, nodes: &Vec<TreeNode>, selected: usize) -> (r: Option<usize>)
    ensures
        r == picked_index(tree, nodes@, selected),
{
    if tree {
        if selected < nodes.len() {
            nodes[selected].file_index
        } else {
            None
        }
    } else {
        Some(selected)
    }
}

/// Whether a tree's selected node is a directory with files below it.
pub open spec fn on_directory(tree: bool, nodes: Seq<TreeNode>, selected: int) -> bool {
    tree && selected < nodes.len() && nodes[selected].is_dir
        && nodes[selected].child_file_indices@.len() > 0
}

/// The paths of the files that git does not know yet, among the first `n` of those
/// named by indices.
pub open spec fn untracked_paths(files: Seq<File>, indices: Seq<usize>, n: int) -> Seq<Seq<char>>
    decreases n,
{
    if n <= 0 {
        seq![]
    } else {
        let i = indices[n - 1] as int;
        if i < files.len() && !files[i].is_tracked {
            untracked_paths(files, indices, n - 1).push(model::path_now(files[i].name@))
        } else {
            untracked_paths(files, indices, n - 1)
        }
    }
}

/// The load for what is selected; none where there is nothing to show.
pub open spec fn wanted_load(s: Selection, m: Model) -> Option<Load> {
    let i = s.selected as int;
    match s.active {
        ContextId::Files => {
            let picked = picked_index(s.show_file_tree, s.file_tree_nodes@, s.selected);
            if picked is Some && picked->0 < m.files@.len() {
                Some(Load::File(m.files@[picked->0 as int]@))
            } else if on_directory(s.show_file_tree, s.file_tree_nodes@, i) {
                let node = s.file_tree_nodes@[i];
                Some(
                    Load::Directory(
                        tree_pathspec(node.path@),
                        node.name@,
                        untracked_paths(
                            m.files@,
                            node.child_file_indices@,
                            node.child_file_indices@.len() as int,
                        ),
                    ),
                )
            } else {
                None
            }
        },
        ContextId::Commits => if i < m.commits@.len() {
            Some(Load::Commit(m.commits@[i].hash@, false))
        } else {
            None
        },
        ContextId::Reflog => if i < m.reflog_commits@.len() {
            Some(Load::Commit(m.reflog_commits@[i].hash@, true))
        } else {
            None
        },
        ContextId::BranchCommits => if i < m.sub_commits@.len() {
            Some(Load::Commit(m.sub_commits@[i].hash@, false))
        } else {
            None
        },
        ContextId::Stash => if i < m.stash_entries@.len() {
            Some(Load::Stash(m.stash_entries@[i].index as nat))
        } else {
            None
        },
        ContextId::CommitFiles | ContextId::StashFiles | ContextId::BranchCommitFiles => {
            let picked = picked_index(
                s.show_commit_file_tree,
                s.commit_file_tree_nodes@,
                s.selected,
            );
            if picked is Some && picked->0 < m.commit_files@.len() {
                Some(
                    Load::CommitFile(
                        s.commit_files_hash@,
                        m.commit_files@[picked->0 as int].name@,
                    ),
                )
            } else if on_directory(s.show_commit_file_tree, s.commit_file_tree_nodes@, i) {
                let node = s.commit_file_tree_nodes@[i];
                Some(
                    Load::CommitDirectory(
                        s.commit_files_hash@,
                        tree_pathspec(node.path@),
                        node.name@,
                    ),
                )
            } else {
                None
            }
        },
        _ => None,
    }
}

fn collect_untracked(files: &Vec<File>, indices: &Vec<usize>) -> (r: Vec<String>)
    ensures
        text::texts(r@) == untracked_paths(files@, indices@, indices@.len() as int),
{
    let mut r: Vec<String> = Vec::new();
    let mut k: usize = 0;
    assert(text::texts(r@) =~= seq![]);
    while k < indices.len()
        invariant
            k <= indices@.len(),
            text::texts(r@) == untracked_paths(files@, indices@, k as int),
        decreases indices@.len() - k,
    {
        let i: usize = indices[k];
        if i < files.len() && !files[i].is_tracked {
            let ghost before = r@;
            r.push(files[i].current_path());
            assert(text::texts(r@) =~= text::texts(before).push(r@.last()@));
        }
        k = k + 1;
    }
    r
}

fn commit_load(commits: &Vec<Commit>, i: usize, from_reflog: bool) -> (r: Option<DiffLoad>)
    ensures
        if i < commits@.len() {
            r is Some && r->0.is_load(Load::Commit(commits@[i as int].hash@, from_reflog))
        } else {
            r is None
        },
{
    if i < commits.len() {
        Some(DiffLoad::Commit { hash: commits[i].hash.clone(), from_reflog })
    } else {
        None
    }
}

/// The load for what is selected.
pub fn plan_diff_load(s: &Selection, m: &Model) -> (r: Option<DiffLoad>)
    ensures
        match wanted_load(*s, *m) {
            Some(l) => r is Some && r->0.is_load(l),
            None => r is None,
        },
{
    match s.active {
        ContextId::Files => {
            match index_of_pick(s.show_file_tree, &s.file_tree_nodes, s.selected) {
                Some(i) if i < m.files.len() => {
                    let file = &m.files[i];
                    return Some(
                        DiffLoad::File {
                            name: file.name.clone(),
                            current_path: file.current_path(),
                            diff_paths: file.diff_paths(),
                            has_staged: file.has_staged_changes,
                            has_unstaged: file.has_unstaged_changes,
                            has_conflicts: file.has_merge_conflicts,
                            is_tracked: file.is_tracked,
                        },
                    );
                },
                _ => {},
            }
            if s.show_file_tree && s.selected < s.file_tree_nodes.len() {
                let node = &s.file_tree_nodes[s.selected];
                if node.is_dir && node.child_file_indices.len() > 0 {
                    return Some(
                        DiffLoad::Directory {
                            pathspec: pathspec_for_tree_path(node.path.as_str()),
                            dir_name: node.name.clone(),
                            untracked: collect_untracked(&m.files, &node.child_file_indices),
                        },
                    );
                }
            }
            None
        },
        ContextId::Commits => commit_load(&m.commits, s.selected, false),
        ContextId::Reflog => commit_load(&m.reflog_commits, s.selected, true),
        ContextId::BranchCommits => commit_load(&m.sub_commits, s.selected, false),
        ContextId::Stash => if s.selected < m.stash_entries.len() {
            Some(DiffLoad::Stash { index: m.stash_entries[s.selected].index })
        } else {
            None
        },
        ContextId::CommitFiles | ContextId::StashFiles | ContextId::BranchCommitFiles => {
            match index_of_pick(s.show_commit_file_tree, &s.commit_file_tree_nodes, s.selected) {
                Some(i) if i < m.commit_files.len() => {
                    let file = &m.commit_files[i];
                    return Some(
                        DiffLoad::CommitFile {
                            hash: s.commit_files_hash.clone(),
                            name: file.name.clone(),
                            current_path: file.current_path(),
                        },
                    );
                },
                _ => {},
            }
            if s.show_commit_file_tree && s.selected < s.commit_file_tree_nodes.len() {
                let node = &s.commit_file_tree_nodes[s.selected];
                if node.is_dir && node.child_file_indices.len() > 0 {
                    return Some(
                        DiffLoad::CommitDirectory {
                            hash: s.commit_files_hash.clone(),
                            pathspec: pathspec_for_tree_path(node.path.as_str()),
                            dir_name: node.name.clone(),
                        },
                    );
                }
            }
            None
        },
        _ => None,
    }
}

/// A load that has to be started.
#[derive(Debug)]
pub enum DiffRequest {
    /// The comparison of two references loads its own diffs.
    DiffMode { generation: u64, diff_key: String },
    Load { generation: u64, diff_key: String, load: DiffLoad },
}

/// The pane with a load under way for a key.
pub open spec fn awaiting(p: DiffPane, after: DiffPane, key: Seq<char>, now: u64) -> bool {
    &&& after.last_key@ == key
    &&& after == (DiffPane {
        last_key: after.last_key,
        needs_refresh: false,
        generation: diff_pane::next_number(p.generation),
        loading: true,
        loading_since: Some(now),
        ..p
    })
}

/// The pane with nothing on show, for a key that has no diff.
pub open spec fn nothing_shown(p: DiffPane, after: DiffPane, key: Seq<char>) -> bool {
    &&& after.last_key@ == key
    &&& after.displayed_key@.len() == 0
    &&& after.view.is_fresh(p.view.wrap, p.view.view_layout)
    &&& after.cache.entries@ == if p.shows_something() {
        p.cache_with_view()
    } else {
        p.cache.entries@
    }
    &&& after == (DiffPane {
        last_key: after.last_key,
        displayed_key: after.displayed_key,
        view: after.view,
        cache: after.cache,
        needs_refresh: false,
        generation: diff_pane::next_number(p.generation),
        loading: false,
        loading_since: None,
        ..p
    })
}

/// Whether what is selected leaves the pane as `after` and starts the load `r`.
pub open spec fn requested(
    p: DiffPane,
    s: Selection,
    m: Model,
    mode: Option<DiffModeSelection>,
    now: u64,
    after: DiffPane,
    r: Option<DiffRequest>,
) -> bool {
    let key = diff_key(s, m, mode);
    if diff_pane::request_course(p, key) is Load {
        match mode {
            Some(_) => awaiting(p, after, key, now) && (r matches Some(
                DiffRequest::DiffMode { generation, diff_key },
            ) && generation == after.generation && diff_key@ == key),
            None => match wanted_load(s, m) {
                Some(l) => awaiting(p, after, key, now) && (r matches Some(
                    DiffRequest::Load { generation, diff_key, load },
                ) && generation == after.generation && diff_key@ == key && load.is_load(l)),
                None => r is None && nothing_shown(p, after, key),
            },
        }
    } else {
        r is None && p.begun(key, now, after, None)
    }
}

/// Brings the pane up to date with what is selected: asks for the diff where it is
/// not at hand, and blanks the pane where there is none.
pub fn maybe_request_diff(
    pane: &mut DiffPane,
    rebase_active: bool,
    s: &Selection,
    m: &Model,
    mode: &Option<DiffModeSelection>,
    now: u64,
) -> (r: Option<DiffRequest>)
    requires
        old(pane).wf(),
    ensures
        final(pane).wf(),
        rebase_active ==> r is None && *final(pane) == *old(pane),
        !rebase_active ==> requested(*old(pane), *s, *m, *mode, now, *final(pane), r),
{
    if rebase_active {
        return None;
    }
    let key = current_diff_key(s, m, mode);
    let generation: u64 = match pane.begin_diff_request(key.clone(), now) {
        Some(g) => g,
        None => {
            return None;
        },
    };
    if mode.is_some() {
        pane.loading = true;
        pane.loading_since = Some(now);
        return Some(DiffRequest::DiffMode { generation, diff_key: key });
    }
    match plan_diff_load(s, m) {
        Some(load) => {
            pane.loading = true;
            pane.loading_since = Some(now);
            Some(DiffRequest::Load { generation, diff_key: key, load })
        },
        None => {
            pane.clear_diff_view();
            None
        },
    }
}

// ---------------------------------------------------------------------------
// Loading ahead
// ---------------------------------------------------------------------------

/// What is at a place of a list whose diffs can be loaded ahead: the key of the
/// diff and the load that brings it.
pub open spec fn ahead(m: Model, context: ContextId, i: int) -> Option<(Seq<char>, Load)> {
    match context {
        ContextId::Commits => if i < m.commits@.len() {
            Some(("Commits:"@ + m.commits@[i].hash@, Load::Commit(m.commits@[i].hash@, false)))
        } else {
            None
        },
        ContextId::BranchCommits => if i < m.sub_commits@.len() {
            Some(
                (
                    "BranchCommits:"@ + m.sub_commits@[i].hash@,
                    Load::Commit(m.sub_commits@[i].hash@, false),
                ),
            )
        } else {
            None
        },
        ContextId::Reflog => if i < m.reflog_commits@.len() {
            Some(
                (
                    "Reflog:"@ + m.reflog_commits@[i].hash@,
                    Load::Commit(m.reflog_commits@[i].hash@, true),
                ),
            )
        } else {
            None
        },
        ContextId::Stash => if i < m.stash_entries@.len() {
            Some(
                (
                    "Stash:"@ + m.stash_entries@[i].hash@,
                    Load::Stash(m.stash_entries@[i].index as nat),
                ),
            )
        } else {
            None
        },
        _ => None,
    }
}

/// A load ahead of its request.
#[derive(Debug)]
pub struct PrefetchJob {
    pub diff_key: String,
    pub load: DiffLoad,
}

fn keyed(start: &str, hash: &str) -> (r: String)
    ensures
        r@ == start@ + hash@,
{
    let mut s = start.to_string();
    s.append(hash);
    s
}

/// What is at a place of a list whose diffs can be loaded ahead.
pub fn prefetch_target(m: &Model, context: ContextId, index: usize) -> (r: Option<PrefetchJob>)
    ensures
        match ahead(*m, context, index as int) {
            Some((key, load)) => r is Some && r->0.diff_key@ == key && r->0.load.is_load(load),
            None => r is None,
        },
{
    match context {
        ContextId::Commits => match commit_load(&m.commits, index, false) {
            Some(load) => Some(
                PrefetchJob {
                    diff_key: keyed("Commits:", m.commits[index].hash.as_str()),
                    load,
                },
            ),
            None => None,
        },
        ContextId::BranchCommits => match commit_load(&m.sub_commits, index, false) {
            Some(load) => Some(
                PrefetchJob {
                    diff_key: keyed("BranchCommits:", m.sub_commits[index].hash.as_str()),
                    load,
                },
            ),
            None => None,
        },
        ContextId::Reflog => match commit_load(&m.reflog_commits, index, true) {
            Some(load) => Some(
                PrefetchJob {
                    diff_key: keyed("Reflog:", m.reflog_commits[index].hash.as_str()),
                    load,
                },
            ),
            None => None,
        },
        ContextId::Stash => if index < m.stash_entries.len() {
            Some(
                PrefetchJob {
                    diff_key: keyed("Stash:", m.stash_entries[index].hash.as_str()),
                    load: DiffLoad::Stash { index: m.stash_entries[index].index },
                },
            )
        } else {
            None
        },
        _ => None,
    }
}

/// The places whose diffs are loaded ahead, in order of their worth: those after
/// the selected one, then those before it; elsewhere the selected commit.
pub open spec fn prefetch_places(active: ContextId, selected: int, in_commits: int) -> Seq<
    (ContextId, int),
> {
    match active {
        ContextId::Commits | ContextId::Reflog | ContextId::BranchCommits | ContextId::Stash => {
            let after = Seq::new(
                diff_pane::DIFF_PREFETCH_AHEAD as nat,
                |i: int| (active, selected + 1 + i),
            );
            let n = if selected < diff_pane::DIFF_PREFETCH_BEHIND {
                selected
            } else {
                diff_pane::DIFF_PREFETCH_BEHIND as int
            };
            after + Seq::new(n as nat, |i: int| (active, selected - 1 - i))
        },
        _ => seq![(ContextId::Commits, in_commits)],
    }
}

/// Places as plain values.
pub open spec fn places(v: Seq<(ContextId, usize)>) -> Seq<(ContextId, int)> {
    Seq::new(v.len(), |i: int| (v[i].0, v[i].1 as int))
}

/// The places whose diffs are loaded ahead.
pub fn prefetch_plan(active: ContextId, selected: usize, in_commits: usize) -> (r: Vec<
    (ContextId, usize),
>)
    requires
        selected + diff_pane::DIFF_PREFETCH_AHEAD <= usize::MAX,
    ensures
        places(r@) == prefetch_places(active, selected as int, in_commits as int),
{
    let mut r: Vec<(ContextId, usize)> = Vec::new();
    match active {
        ContextId::Commits | ContextId::Reflog | ContextId::BranchCommits | ContextId::Stash => {
            let mut step: usize = 1;
            while step <= diff_pane::DIFF_PREFETCH_AHEAD
                invariant
                    1 <= step <= diff_pane::DIFF_PREFETCH_AHEAD + 1,
                    selected + diff_pane::DIFF_PREFETCH_AHEAD <= usize::MAX,
                    r@.len() == step - 1,
                    forall|i: int|
                        0 <= i < r@.len() ==> #[trigger] r@[i] == (active, (selected + 1 + i) as usize),
                decreases diff_pane::DIFF_PREFETCH_AHEAD + 1 - step,
            {
                r.push((active, selected + step));
                step = step + 1;
            }
            let ghost front = r@;
            let mut back: usize = 1;
            while back <= diff_pane::DIFF_PREFETCH_BEHIND && back <= selected
                invariant
                    1 <= back <= diff_pane::DIFF_PREFETCH_BEHIND + 1,
                    back <= selected + 1,
                    r@.len() == front.len() + back - 1,
                    forall|i: int| 0 <= i < front.len() ==> #[trigger] r@[i] == front[i],
                    forall|i: int|
                        front.len() <= i < r@.len() ==> #[trigger] r@[i] == (
                            active,
                            (selected - 1 - (i - front.len())) as usize,
                        ),
                decreases diff_pane::DIFF_PREFETCH_BEHIND + 1 - back,
            {
                r.push((active, selected - back));
                back = back + 1;
            }
            assert(places(r@) =~= prefetch_places(active, selected as int, in_commits as int));
        },
        _ => {
            r.push((ContextId::Commits, in_commits));
            assert(places(r@) =~= prefetch_places(active, selected as int, in_commits as int));
        },
    }
    r
}

/// The diffs that are begun to be loaded ahead, and what is in flight after: each
/// place in order, if it is worth it when its turn comes.
pub open spec fn prefetched(
    p: DiffPane,
    m: Model,
    l: Seq<(ContextId, int)>,
    inflight: Set<Seq<char>>,
    n: nat,
) -> Seq<(Seq<char>, Load)>
    decreases l.len(),
{
    if l.len() == 0 {
        seq![]
    } else {
        match ahead(m, l[0].0, l[0].1) {
            Some((key, load)) => if n < diff_pane::DIFF_PREFETCH_INFLIGHT_MAX && key != p.last_key@
                && key != p.displayed_key@ && !inflight.contains(key) && diff_cache::find_key(
                p.cache.entries@,
                key,
                0,
            ) is None {
                seq![(key, load)] + prefetched(p, m, l.skip(1), inflight.insert(key), n + 1)
            } else {
                prefetched(p, m, l.skip(1), inflight, n)
            },
            None => prefetched(p, m, l.skip(1), inflight, n),
        }
    }
}

/// Whether jobs are those that plain values describe.
pub open spec fn jobs_are(v: Seq<PrefetchJob>, l: Seq<(Seq<char>, Load)>) -> bool {
    v.len() == l.len() && forall|i: int|
        0 <= i < v.len() ==> (#[trigger] v[i]).diff_key@ == l[i].0 && v[i].load.is_load(l[i].1)
}

/// The texts of strings, as a set.
pub open spec fn key_set(v: Seq<String>) -> Set<Seq<char>> {
    text::texts(v).to_set()
}

proof fn lemma_in_flight(v: Seq<String>, key: Seq<char>)
    ensures
        diff_pane::in_flight(v, key) == key_set(v).contains(key),
{
    if diff_pane::in_flight(v, key) {
        let i = choose|i: int| 0 <= i < v.len() && (#[trigger] v[i])@ == key;
        assert(text::texts(v)[i] == key);
    }
    if key_set(v).contains(key) {
        let i = choose|i: int| 0 <= i < text::texts(v).len() && text::texts(v)[i] == key;
        assert(v[i]@ == key);
    }
}

/// Loads diffs ahead that are likely to be asked for next. Nothing is loaded ahead
/// while the panels show something else than lists (`busy`).
pub fn maybe_prefetch_diffs(
    pane: &mut DiffPane,
    busy: bool,
    active: ContextId,
    selected: usize,
    in_commits: usize,
    m: &Model,
) -> (r: Vec<PrefetchJob>)
    requires
        old(pane).wf(),
        selected + diff_pane::DIFF_PREFETCH_AHEAD <= usize::MAX,
    ensures
        final(pane).wf(),
        *final(pane) == (DiffPane { inflight: final(pane).inflight, ..*old(pane) }),
        final(pane).inflight@.len() == old(pane).inflight@.len() + r@.len(),
        final(pane).inflight@.take(old(pane).inflight@.len() as int) == old(pane).inflight@,
        forall|i: int|
            0 <= i < r@.len() ==> final(pane).inflight@[old(pane).inflight@.len() + i]@ == (
            #[trigger] r@[i]).diff_key@,
        busy ==> r@.len() == 0,
        !busy ==> jobs_are(
            r@,
            prefetched(
                *old(pane),
                *m,
                prefetch_places(active, selected as int, in_commits as int),
                key_set(old(pane).inflight@),
                old(pane).inflight@.len(),
            ),
        ),
{
    let mut r: Vec<PrefetchJob> = Vec::new();
    let ghost start = *pane;
    let ghost goal = prefetched(
        start,
        *m,
        prefetch_places(active, selected as int, in_commits as int),
        key_set(start.inflight@),
        start.inflight@.len(),
    );
    assert(start.inflight@.take(start.inflight@.len() as int) =~= start.inflight@);
    if busy {
        return r;
    }
    let plan = prefetch_plan(active, selected, in_commits);
    let mut i: usize = 0;
    let ghost whole = prefetch_places(active, selected as int, in_commits as int);
    assert(whole.skip(0) =~= whole);
    while i < plan.len()
        invariant
            i <= plan@.len(),
            whole == places(plan@),
            pane.wf(),
            *pane == (DiffPane { inflight: pane.inflight, ..start }),
            pane.inflight@.len() == start.inflight@.len() + r@.len(),
            pane.inflight@.take(start.inflight@.len() as int) == start.inflight@,
            forall|k: int|
                0 <= k < r@.len() ==> pane.inflight@[start.inflight@.len() + k]@ == (
                #[trigger] r@[k]).diff_key@,
            r@.len() <= goal.len(),
            jobs_are(r@, goal.take(r@.len() as int)),
            goal.skip(r@.len() as int) == prefetched(
                start,
                *m,
                whole.skip(i as int),
                key_set(pane.inflight@),
                pane.inflight@.len(),
            ),
        decreases plan@.len() - i,
    {
        let (context, index) = plan[i];
        let ghost rest = whole.skip(i as int);
        assert(rest.skip(1) =~= whole.skip(i as int + 1));
        assert(rest[0] == (context, index as int));
        let ghost before = *pane;
        let ghost left = goal.skip(r@.len() as int);
        match prefetch_target(m, context, index) {
            Some(job) => {
                proof {
                    lemma_in_flight(pane.inflight@, job.diff_key@);
                }
                if pane.maybe_prefetch_one(job.diff_key.as_str()) {
                    proof {
                        let t = text::texts(before.inflight@);
                        assert(text::texts(pane.inflight@) =~= t.push(job.diff_key@)) by {
                            assert(pane.inflight@ =~= before.inflight@.push(
                                pane.inflight@.last(),
                            ));
                        }
                        assert(t.push(job.diff_key@).to_set() =~= t.to_set().insert(
                            job.diff_key@,
                        )) by {
                            assert forall|x: Seq<char>|
                                t.push(job.diff_key@).to_set().contains(x) == t.to_set().insert(
                                    job.diff_key@,
                                ).contains(x) by {
                                let u = t.push(job.diff_key@);
                                if t.contains(x) {
                                    let k = choose|k: int| 0 <= k < t.len() && t[k] == x;
                                    assert(u[k] == x);
                                }
                                assert(u[t.len() as int] == job.diff_key@);
                                if u.contains(x) {
                                    let k = choose|k: int| 0 <= k < u.len() && u[k] == x;
                                    if k < t.len() {
                                        assert(t[k] == x);
                                    }
                                }
                            }
                        }
                        assert(pane.inflight@.take(start.inflight@.len() as int)
                            =~= start.inflight@) by {
                            assert forall|k: int| 0 <= k < start.inflight@.len() implies
                                pane.inflight@[k] == start.inflight@[k] by {
                                assert(pane.inflight@.drop_last()[k] == before.inflight@[k]);
                                assert(before.inflight@.take(start.inflight@.len() as int)[k]
                                    == start.inflight@[k]);
                            }
                        }
                        assert forall|k: int| 0 <= k < r@.len() implies
                            pane.inflight@[start.inflight@.len() + k]@ == (
                        #[trigger] r@[k]).diff_key@ by {
                            assert(pane.inflight@.drop_last()[start.inflight@.len() + k]
                                == before.inflight@[start.inflight@.len() + k]);
                        }
                        let tail = prefetched(
                            start,
                            *m,
                            rest.skip(1),
                            key_set(before.inflight@).insert(job.diff_key@),
                            before.inflight@.len() + 1,
                        );
                        assert(left == seq![ahead(*m, context, index as int)->0] + tail);
                        assert(left[0] == goal[r@.len() as int]);
                        assert(left.skip(1) =~= goal.skip(r@.len() as int + 1));
                        assert(left.skip(1) =~= tail);
                    }
                    let ghost sofar = r@;
                    r.push(job);
                    proof {
                        let t = goal.take(r@.len() as int);
                        assert forall|k: int| 0 <= k < r@.len() implies (
                        #[trigger] r@[k]).diff_key@ == t[k].0 && r@[k].load.is_load(t[k].1) by {
                            if k < sofar.len() {
                                assert(sofar[k] == r@[k]);
                                assert(goal.take(sofar.len() as int)[k] == t[k]);
                            }
                        }
                    }
                }
            },
            None => {},
        }
        i = i + 1;
    }
    assert(goal.take(r@.len() as int) =~= goal);
    r
}

// ---------------------------------------------------------------------------
// Details of a commit
// ---------------------------------------------------------------------------

/// The hash of the commit whose details are shown, if there is one.
pub open spec fn details_hash(s: Selection, m: Model) -> Option<Seq<char>> {
    let i = s.selected as int;
    match s.active {
        ContextId::Commits => if i < m.commits@.len() {
            Some(m.commits@[i].hash@)
        } else {
            None
        },
        ContextId::BranchCommits => if i < m.sub_commits@.len() {
            Some(m.sub_commits@[i].hash@)
        } else {
            None
        },
        ContextId::Reflog => if i < m.reflog_commits@.len() {
            Some(m.reflog_commits@[i].hash@)
        } else {
            None
        },
        ContextId::CommitFiles | ContextId::StashFiles | ContextId::BranchCommitFiles =>
        if s.commit_files_hash@.len() > 0 {
            Some(s.commit_files_hash@)
        } else {
            None
        },
        _ => None,
    }
}

fn hash_at(commits: &Vec<Commit>, i: usize) -> (r: Option<String>)
    ensures
        text::opt_text(r) == if i < commits@.len() {
            Some(commits@[i as int].hash@)
        } else {
            None
        },
{
    if i < commits.len() {
        Some(commits[i].hash.clone())
    } else {
        None
    }
}

/// The commit whose details were asked for last.
#[derive(Debug)]
pub struct DetailsRequest {
    pub last_key: String,
    /// Counts the requests; the work for an older one stops.
    pub generation: u64,
}

/// Details of a commit that have to be fetched.
#[derive(Debug)]
pub struct DetailsJob {
    pub hash: String,
    pub generation: u64,
    pub needs_stat: bool,
    pub needs_message: bool,
}

impl DetailsRequest {
    /// Whether `after` is the request once nothing is asked for any more.
    pub open spec fn given_up(self, after: DetailsRequest) -> bool {
        if self.last_key@.len() > 0 {
            after.last_key@.len() == 0 && after.generation == diff_pane::next_number(
                self.generation,
            )
        } else {
            after == self
        }
    }

    /// Nothing is asked for any more.
    pub fn give_up(&mut self)
        ensures
            old(self).given_up(*final(self)),
    {
        if !text::is_empty_str(self.last_key.as_str()) {
            self.last_key = String::new();
            self.generation = self.generation.wrapping_add(1);
        }
    }

    /// The commit to show the details of, if it is to be asked for anew: the details
    /// are shown, one is selected, and it is not the one that was asked for last.
    pub fn maybe_request_commit_details(
        &mut self,
        show_commit_details: bool,
        s: &Selection,
        m: &Model,
    ) -> (r: Option<String>)
        ensures
            match details_hash(*s, *m) {
                Some(hash) if show_commit_details => {
                    let key = s.active.name() + ":"@ + hash;
                    if key == old(self).last_key@ {
                        r is None && *final(self) == *old(self)
                    } else {
                        text::opt_text(r) == Some(hash) && final(self).last_key@ == key && final(
                            self).generation == diff_pane::next_number(old(self).generation)
                    }
                },
                _ => r is None && old(self).given_up(*final(self)),
            },
    {
        if !show_commit_details {
            self.give_up();
            return None;
        }
        let hash = match s.active {
            ContextId::Commits => hash_at(&m.commits, s.selected),
            ContextId::BranchCommits => hash_at(&m.sub_commits, s.selected),
            ContextId::Reflog => hash_at(&m.reflog_commits, s.selected),
            ContextId::CommitFiles | ContextId::StashFiles | ContextId::BranchCommitFiles => {
                if !text::is_empty_str(s.commit_files_hash.as_str()) {
                    Some(s.commit_files_hash.clone())
                } else {
                    None
                }
            },
            _ => None,
        };
        match hash {
            None => {
                self.give_up();
                None
            },
            Some(hash) => {
                let mut key = s.active.name_str().to_string();
                key.append(":");
                key.append(hash.as_str());
                if text::same_str(key.as_str(), self.last_key.as_str()) {
                    return None;
                }
                self.last_key = key;
                self.generation = self.generation.wrapping_add(1);
                Some(hash)
            },
        }
    }

    /// What has to be fetched for a commit whose details were asked for: nothing
    /// where all of it is at hand.
    pub fn details_job(&self, hash: String, stat_known: bool, message_known: bool) -> (r: Option<
        DetailsJob,
    >)
        ensures
            stat_known && message_known ==> r is None,
            !(stat_known && message_known) ==> r == Some(
                DetailsJob {
                    hash,
                    generation: self.generation,
                    needs_stat: !stat_known,
                    needs_message: !message_known,
                },
            ),
    {
        if stat_known && message_known {
            return None;
        }
        Some(
            DetailsJob {
                hash,
                generation: self.generation,
                needs_stat: !stat_known,
                needs_message: !message_known,
            },
        )
    }
}

/// Only what can never change is loaded ahead: the diff of a commit, of a reflog
/// entry or of a stash, by its hash.
pub proof fn only_the_immutable_is_loaded_ahead(
    p: DiffPane,
    m: Model,
    l: Seq<(ContextId, int)>,
    inflight: Set<Seq<char>>,
    n: nat,
)
    ensures
        forall|i: int|
            0 <= i < prefetched(p, m, l, inflight, n).len() ==> diff_cache::immutable_key(
                (#[trigger] prefetched(p, m, l, inflight, n)[i]).0,
            ),
    decreases l.len(),
{
    if l.len() > 0 {
        let rest = l.skip(1);
        match ahead(m, l[0].0, l[0].1) {
            Some((key, load)) => {
                lemma_ahead_is_immutable(m, l[0].0, l[0].1);
                only_the_immutable_is_loaded_ahead(p, m, rest, inflight.insert(key), n + 1);
                only_the_immutable_is_loaded_ahead(p, m, rest, inflight, n);
                let all = prefetched(p, m, l, inflight, n);
                let one = seq![(key, load)];
                let taken = prefetched(p, m, rest, inflight.insert(key), n + 1);
                let passed = prefetched(p, m, rest, inflight, n);
                assert(all == one + taken || all == passed);
                assert forall|i: int| 0 <= i < all.len() implies diff_cache::immutable_key(
                    (#[trigger] all[i]).0,
                ) by {
                    if all == one + taken {
                        if i > 0 {
                            assert(all[i] == taken[i - 1]);
                        } else {
                            assert(all[i] == one[0]);
                        }
                    } else {
                        assert(all[i] == passed[i]);
                    }
                }
            },
            None => {
                only_the_immutable_is_loaded_ahead(p, m, rest, inflight, n);
                let passed = prefetched(p, m, rest, inflight, n);
                assert(prefetched(p, m, l, inflight, n) == passed);
                assert(forall|i: int|
                    0 <= i < passed.len() ==> diff_cache::immutable_key((#[trigger] passed[i]).0));
            },
        }
    }
}

proof fn lemma_ahead_is_immutable(m: Model, context: ContextId, i: int)
    requires
        ahead(m, context, i) is Some,
    ensures
        diff_cache::immutable_key((ahead(m, context, i)->0).0),
{
    let key = (ahead(m, context, i)->0).0;
    match context {
        ContextId::Commits => {
            assert("Commits:"@ =~= key.subrange(0, "Commits:"@.len() as int));
        },
        ContextId::BranchCommits => {
            assert("BranchCommits:"@ =~= key.subrange(0, "BranchCommits:"@.len() as int));
        },
        ContextId::Reflog => {
            assert("Reflog:"@ =~= key.subrange(0, "Reflog:"@.len() as int));
        },
        _ => {
            assert("Stash:"@ =~= key.subrange(0, "Stash:"@.len() as int));
        },
    }
}

/// A load that is asked for now is started while fewer than two run, and else waits; one that
/// nobody asks for any more is dropped. A load that ends makes room for the one that waits.
pub proof fn two_loads_run_at_once<J>(s: DiffScheduler<J>, g: u64, job: J, current: u64)
    requires
        s.wf(),
    ensures
        g == current && s.active_jobs < 2 ==> s.arrived(g, job, current).1 == Some(job) && s.arrived(
            g,
            job,
            current,
        ).0.active_jobs == s.active_jobs + 1 && s.arrived(g, job, current).0.pending == s.pending,
        g == current && s.active_jobs == 2 ==> s.arrived(g, job, current).1 is None && s.arrived(
            g,
            job,
            current,
        ).0.pending == Some((g, job)) && s.arrived(g, job, current).0.active_jobs == 2,
        g != current ==> s.arrived(g, job, current) == (s, None::<J>),
        s.pending is None && s.active_jobs > 0 ==> s.completed(current).0.active_jobs
            == s.active_jobs - 1 && s.completed(current).1 is None,
        s.pending == Some((current, job)) && s.active_jobs > 0 ==> s.completed(current).1 == Some(
            job,
        ) && s.completed(current).0.active_jobs == s.active_jobs,
        s.completed(current).0.pending is None,
{
}

/// What is loaded ahead is what will be asked for: the key and the load at a place of a list
/// are those of the same place once it is selected.
pub proof fn what_is_loaded_ahead_is_asked_for(s: Selection, m: Model)
    requires
        s.active is Commits || s.active is BranchCommits || s.active is Reflog || s.active is Stash,
    ensures
        match ahead(m, s.active, s.selected as int) {
            Some((key, load)) => key == diff_key(s, m, None) && wanted_load(s, m) == Some(load),
            None => wanted_load(s, m) is None,
        },
{
    reveal_strlit("Commits");
    reveal_strlit("BranchCommits");
    reveal_strlit("Reflog");
    reveal_strlit("Stash");
    reveal_strlit(":");
    reveal_strlit("Commits:");
    reveal_strlit("BranchCommits:");
    reveal_strlit("Reflog:");
    reveal_strlit("Stash:");
    assert("Commits"@ + ":"@ =~= "Commits:"@);
    assert("BranchCommits"@ + ":"@ =~= "BranchCommits:"@);
    assert("Reflog"@ + ":"@ =~= "Reflog:"@);
    assert("Stash"@ + ":"@ =~= "Stash:"@);
}

/// The diff of the selected thing is loaded: the commit with its hash, the stash with its
/// number, the file with its name; an empty place, or a list without diffs, loads nothing.
pub proof fn the_selected_thing_is_loaded(s: Selection, m: Model)
    ensures
        ({
            let i = s.selected as int;
            let l = wanted_load(s, m);
            &&& s.active is Commits && i < m.commits@.len() ==> l == Some(
                Load::Commit(m.commits@[i].hash@, false),
            )
            &&& s.active is BranchCommits && i < m.sub_commits@.len() ==> l == Some(
                Load::Commit(m.sub_commits@[i].hash@, false),
            )
            &&& s.active is Reflog && i < m.reflog_commits@.len() ==> l == Some(
                Load::Commit(m.reflog_commits@[i].hash@, true),
            )
            &&& s.active is Stash && i < m.stash_entries@.len() ==> l == Some(
                Load::Stash(m.stash_entries@[i].index as nat),
            )
            &&& s.active is Files && !s.show_file_tree && i < m.files@.len() ==> l == Some(
                Load::File(m.files@[i]@),
            )
            &&& s.active.lists_commit_files() && !s.show_commit_file_tree && i
                < m.commit_files@.len() ==> l == Some(
                Load::CommitFile(s.commit_files_hash@, m.commit_files@[i].name@),
            )
            &&& s.active is Files && !s.show_file_tree && i >= m.files@.len() ==> l is None
            &&& s.active is Branches || s.active is Tags || s.active is Remotes
                || s.active is Status || s.active is Worktrees || s.active is Submodules
                || s.active is RemoteBranches ==> l is None
        }),
{
}

/// In a tree the file of the selected node is loaded, and for a directory the changes below
/// it, with those of its files that git does not know.
pub proof fn a_node_of_the_tree_is_loaded(s: Selection, m: Model)
    requires
        s.active is Files,
        s.show_file_tree,
        s.selected < s.file_tree_nodes@.len(),
    ensures
        ({
            let node = s.file_tree_nodes@[s.selected as int];
            let l = wanted_load(s, m);
            &&& node.file_index matches Some(i) ==> i < m.files@.len() ==> l == Some(
                Load::File(m.files@[i as int]@),
            )
            &&& node.file_index is None && node.is_dir && node.child_file_indices@.len() > 0 ==> (
            l matches Some(Load::Directory(p, name, u)) && name == node.name@ && p
                == tree_pathspec(node.path@))
            &&& node.file_index is None && !node.is_dir ==> l is None
        }),
{
}

/// The untracked paths below a directory are the present paths of those of its files that git
/// does not know, in order.
pub proof fn untracked_paths_go_file_by_file(files: Seq<File>, indices: Seq<usize>, i: usize)
    ensures
        untracked_paths(files, indices.push(i), indices.len() as int + 1) == untracked_paths(
            files,
            indices,
            indices.len() as int,
        ) + (if i < files.len() && !files[i as int].is_tracked {
            seq![model::path_now(files[i as int].name@)]
        } else {
            seq![]
        }),
        untracked_paths(files, Seq::<usize>::empty(), 0) == Seq::<Seq<char>>::empty(),
{
    let all = indices.push(i);
    lemma_untracked_same(files, all, indices, indices.len() as int);
    assert(all[indices.len() as int] == i);
    assert(untracked_paths(files, all, indices.len() as int + 1) =~= untracked_paths(
        files,
        indices,
        indices.len() as int,
    ) + (if i < files.len() && !files[i as int].is_tracked {
        seq![model::path_now(files[i as int].name@)]
    } else {
        seq![]
    }));
}

proof fn lemma_untracked_same(files: Seq<File>, a: Seq<usize>, b: Seq<usize>, n: int)
    requires
        0 <= n <= b.len() <= a.len(),
        forall|k: int| 0 <= k < b.len() ==> a[k] == #[trigger] b[k],
    ensures
        untracked_paths(files, a, n) == untracked_paths(files, b, n),
    decreases n,
{
    if n > 0 {
        lemma_untracked_same(files, a, b, n - 1);
        assert(a[n - 1] == b[n - 1]);
    }
}

/// The pathspec of a directory ends with a slash and is else its path; the root has none.
pub proof fn a_pathspec_is_the_path_with_a_slash(path: Seq<char>)
    ensures
        tree_pathspec(Seq::<char>::empty()) is None,
        tree_pathspec("."@) is None,
        path.len() > 0 && path != "."@ ==> (tree_pathspec(path) matches Some(p) && p.last() == '/'
            && (p == path || p == path + "/"@)),
        path.len() > 0 && path.last() == '/' ==> tree_pathspec(path) == Some(path),
{
    reveal_strlit(".");
    reveal_strlit("/");
    assert(path.push('/') =~= path + "/"@);
    assert("."@.last() == '.');
}

/// The diff of a new file names it on both sides, says that it is new, counts its lines in the
/// one hunk it has, and adds each of them.
pub proof fn a_new_file_is_added_line_by_line(f: Seq<char>, content: Seq<char>)
    requires
        !f.contains('\n'),
        f.len() > 0,
        f.last() != '\r',
        !content.contains('\r'),
    ensures
        text::lines(new_file_diff(f, content)) == seq![
            "diff --git a/"@ + f + " b/"@ + f,
            "new file mode 100644"@,
            "--- /dev/null"@,
            "+++ b/"@ + f,
            "@@ -0,0 +1,"@ + text::decimal(text::lines(content).len()) + " @@"@,
        ] + text::lines(content).map_values(|l: Seq<char>| seq!['+'] + l),
{
    reveal_strlit("diff --git a/");
    reveal_strlit(" b/");
    reveal_strlit("\nnew file mode 100644\n--- /dev/null\n+++ b/");
    reveal_strlit("new file mode 100644");
    reveal_strlit("--- /dev/null");
    reveal_strlit("+++ b/");
    reveal_strlit("\n@@ -0,0 +1,");
    reveal_strlit("@@ -0,0 +1,");
    reveal_strlit(" @@\n");
    reveal_strlit(" @@");
    reveal_strlit("\n");
    let l = text::lines(content);
    let d = text::decimal(l.len());
    text::decimals_are_digits(l.len());
    let body = added_lines(l, l.len() as int);
    let l1 = "diff --git a/"@ + f + " b/"@ + f;
    let l2 = "new file mode 100644"@;
    let l3 = "--- /dev/null"@;
    let l4 = "+++ b/"@ + f;
    let l5 = "@@ -0,0 +1,"@ + d + " @@"@;
    let nl = "\n"@;
    let r5 = l5 + nl + body;
    let r4 = l4 + nl + r5;
    let r3 = l3 + nl + r4;
    let r2 = l2 + nl + r3;
    assert(new_file_diff(f, content) =~= l1 + nl + r2) by {
        assert("\nnew file mode 100644\n--- /dev/null\n+++ b/"@ =~= nl + l2 + nl + l3 + nl
            + "+++ b/"@);
        assert("\n@@ -0,0 +1,"@ =~= nl + "@@ -0,0 +1,"@);
        assert(" @@\n"@ =~= " @@"@ + nl);
        lemma_new_file_parts(f, d, body);
    }
    lemma_one_line("diff --git a/"@, f, " b/"@ + f);
    assert(l1 =~= "diff --git a/"@ + f + (" b/"@ + f));
    lemma_one_line("+++ b/"@, f, seq![]);
    assert(l4 =~= "+++ b/"@ + f + Seq::<char>::empty());
    lemma_digits_line(d);
    text::lines_go_line_by_line(l1, r2);
    text::lines_go_line_by_line(l2, r3);
    text::lines_go_line_by_line(l3, r4);
    text::lines_go_line_by_line(l4, r5);
    text::lines_go_line_by_line(l5, body);
    lemma_content_lines(content);
    lemma_added_lines(l, l.len() as int);
    let added = l.map_values(|x: Seq<char>| seq!['+'] + x);
    assert(text::lines(body) =~= added);
    assert(seq![l1] + (seq![l2] + (seq![l3] + (seq![l4] + (seq![l5] + added)))) =~= seq![
        l1,
        l2,
        l3,
        l4,
        l5,
    ] + added);
}

proof fn lemma_new_file_parts(f: Seq<char>, d: Seq<char>, body: Seq<char>)
    ensures
        "diff --git a/"@ + f + " b/"@ + f + ("\n"@ + "new file mode 100644"@ + "\n"@
            + "--- /dev/null"@ + "\n"@ + "+++ b/"@) + f + ("\n"@ + "@@ -0,0 +1,"@) + d + (" @@"@
            + "\n"@) + body == ("diff --git a/"@ + f + " b/"@ + f) + "\n"@ + (
        "new file mode 100644"@ + "\n"@ + ("--- /dev/null"@ + "\n"@ + (("+++ b/"@ + f) + "\n"@ + ((
        "@@ -0,0 +1,"@ + d + " @@"@) + "\n"@ + body)))),
{
    let a = "diff --git a/"@ + f + " b/"@ + f;
    let n = "\n"@;
    let x = "new file mode 100644"@;
    let y = "--- /dev/null"@;
    let z = "+++ b/"@;
    let h = "@@ -0,0 +1,"@;
    let e = " @@"@;
    assert(a + (n + x + n + y + n + z) + f + (n + h) + d + (e + n) + body =~= a + n + (x + n + (y + n
        + ((z + f) + n + ((h + d + e) + n + body)))));
}

proof fn lemma_one_line(a: Seq<char>, f: Seq<char>, b: Seq<char>)
    requires
        a == "diff --git a/"@ || a == "+++ b/"@,
        !f.contains('\n'),
        f.len() > 0,
        f.last() != '\r',
        b == " b/"@ + f || b.len() == 0,
    ensures
        !(a + f + b).contains('\n'),
        (a + f + b).last() != '\r',
{
    reveal_strlit("diff --git a/");
    reveal_strlit("+++ b/");
    reveal_strlit(" b/");
    let s = a + f + b;
    if s.contains('\n') {
        let j = choose|j: int| 0 <= j < s.len() && s[j] == '\n';
        if j < a.len() {
            assert(a[j] == '\n');
        } else if j < a.len() + f.len() {
            assert(f[j - a.len()] == '\n');
        } else {
            let k = j - a.len() - f.len();
            assert(b[k] == '\n');
            if k >= 3 {
                assert(f[k - 3] == '\n');
            }
        }
    }
    if b.len() > 0 {
        assert(s.last() == f.last());
    } else {
        assert(s =~= a + f);
    }
}

proof fn lemma_digits_line(d: Seq<char>)
    requires
        forall|j: int| 0 <= j < d.len() ==> text::is_digit(#[trigger] d[j]),
    ensures
        !("@@ -0,0 +1,"@ + d + " @@"@).contains('\n'),
        ("@@ -0,0 +1,"@ + d + " @@"@).last() != '\r',
        !"new file mode 100644"@.contains('\n') && "new file mode 100644"@.last() != '\r',
        !"--- /dev/null"@.contains('\n') && "--- /dev/null"@.last() != '\r',
{
    reveal_strlit("@@ -0,0 +1,");
    reveal_strlit(" @@");
    reveal_strlit("new file mode 100644");
    reveal_strlit("--- /dev/null");
    let a = "@@ -0,0 +1,"@;
    let s = a + d + " @@"@;
    if s.contains('\n') {
        let j = choose|j: int| 0 <= j < s.len() && s[j] == '\n';
        if j >= a.len() && j < a.len() + d.len() {
            assert(text::is_digit(d[j - a.len()]));
        }
    }
}

proof fn lemma_content_lines(content: Seq<char>)
    requires
        !content.contains('\r'),
    ensures
        forall|k: int|
            0 <= k < text::lines(content).len() ==> !(#[trigger] text::lines(content)[k]).contains(
                '\n',
            ) && !text::lines(content)[k].contains('\r'),
{
    let l = text::lines_inclusive(content);
    text::lines_inclusive_shape(content);
    text::lines_inclusive_rebuild(content);
    assert forall|k: int| 0 <= k < text::lines(content).len() implies !(#[trigger] text::lines(
        content,
    )[k]).contains('\n') && !text::lines(content)[k].contains('\r') by {
        let x = l[k];
        let y = text::strip_line_end(x);
        assert(text::lines(content)[k] == y);
        assert(y.len() <= x.len() && forall|j: int| 0 <= j < y.len() ==> y[j] == x[j]);
        assert(x.last() == '\n' ==> y.len() < x.len());
        if y.contains('\n') {
            let j = choose|j: int| 0 <= j < y.len() && y[j] == '\n';
            assert(x[j] == '\n');
        }
        if y.contains('\r') {
            let j = choose|j: int| 0 <= j < y.len() && y[j] == '\r';
            assert(x[j] == '\r');
            text::lemma_part_of_concat(l, k, j);
        }
    }
}

proof fn lemma_added_lines(l: Seq<Seq<char>>, n: int)
    requires
        0 <= n <= l.len(),
        forall|k: int|
            0 <= k < l.len() ==> !(#[trigger] l[k]).contains('\n') && !l[k].contains('\r'),
    ensures
        text::lines(added_lines(l, n)) == Seq::new(n as nat, |k: int| seq!['+'] + l[k]),
        n > 0 ==> added_lines(l, n).last() == '\n',
    decreases n,
{
    reveal_strlit("\n");
    let none = Seq::<char>::empty();
    if n > 0 {
        lemma_added_lines(l, n - 1);
        let a = added_lines(l, n - 1);
        let x = seq!['+'] + l[n - 1];
        assert(!l[n - 1].contains('\n') && !l[n - 1].contains('\r'));
        assert(!x.contains('\n')) by {
            if x.contains('\n') {
                let j = choose|j: int| 0 <= j < x.len() && x[j] == '\n';
                assert(l[n - 1][j - 1] == '\n');
            }
        }
        if x.last() == '\r' {
            assert(l[n - 1][x.len() - 2] == '\r');
        }
        assert(merge_conflict::whole_lines(a)) by {
            if n == 1 {
                assert(a =~= none);
            }
        }
        text::lines_go_line_by_line(x, none);
        let b = x + "\n"@;
        assert(b + none =~= b);
        merge_conflict::lemma_lines_of_both(a, b);
        assert(added_lines(l, n) =~= a + b);
        assert(text::lines(a + b) =~= text::lines(a) + text::lines(b));
        assert(text::lines(none) =~= Seq::<Seq<char>>::empty());
        assert(text::lines(b) =~= seq![x]);
        assert(text::lines(added_lines(l, n)) =~= Seq::new(n as nat, |k: int| seq!['+'] + l[k]));
    } else {
        assert(added_lines(l, 0) =~= none);
        text::lines_go_line_by_line(none, none);
        assert(text::lines(none) =~= Seq::new(0nat, |k: int| seq!['+'] + l[k]));
    }
}

/// The three below the selected one are loaded ahead, the nearest first, and after them the
/// one above; elsewhere the selected commit is.
pub proof fn the_nearest_are_loaded_ahead(active: ContextId, selected: int, in_commits: int)
    requires
        0 <= selected,
    ensures
        active is Commits || active is Reflog || active is BranchCommits || active is Stash
            ==> prefetch_places(active, selected, in_commits) == seq![
            (active, selected + 1),
            (active, selected + 2),
            (active, selected + 3),
        ] + (if selected > 0 {
            seq![(active, selected - 1)]
        } else {
            seq![]
        }),
        active is Files ==> prefetch_places(active, selected, in_commits) == seq![
            (ContextId::Commits, in_commits),
        ],
{
    let p = prefetch_places(active, selected, in_commits);
    if active is Commits || active is Reflog || active is BranchCommits || active is Stash {
        assert(p =~= seq![(active, selected + 1), (active, selected + 2), (active, selected + 3)] + (
        if selected > 0 {
            seq![(active, selected - 1)]
        } else {
            seq![]
        }));
    }
}

/// Nothing is loaded ahead that is at hand or on its way, and never more than two at once.
pub proof fn nothing_is_loaded_ahead_twice(
    p: DiffPane,
    m: Model,
    l: Seq<(ContextId, int)>,
    inflight: Set<Seq<char>>,
    n: nat,
)
    requires
        n <= 2,
    ensures
        n + prefetched(p, m, l, inflight, n).len() <= 2,
        forall|i: int|
            #![trigger prefetched(p, m, l, inflight, n)[i]]
            0 <= i < prefetched(p, m, l, inflight, n).len() ==> {
                let key = prefetched(p, m, l, inflight, n)[i].0;
                &&& key != p.last_key@ && key != p.displayed_key@ && !inflight.contains(key)
                &&& forall|j: int|
                    0 <= j < p.cache.entries@.len() ==> (#[trigger] p.cache.entries@[j]).key@ != key
            },
    decreases l.len(),
{
    if l.len() > 0 {
        match ahead(m, l[0].0, l[0].1) {
            Some((key, load)) => {
                nothing_is_loaded_ahead_twice(p, m, l.skip(1), inflight, n);
                if n < 2 {
                    nothing_is_loaded_ahead_twice(p, m, l.skip(1), inflight.insert(key), n + 1);
                }
                diff_cache::the_view_of_a_key_is_found(p.cache.entries@, key);
                let r = prefetched(p, m, l.skip(1), inflight.insert(key), n + 1);
                let all = prefetched(p, m, l, inflight, n);
                assert forall|i: int| #![trigger all[i]] 0 <= i < all.len() implies {
                    let key = all[i].0;
                    &&& key != p.last_key@ && key != p.displayed_key@ && !inflight.contains(key)
                    &&& forall|j: int|
                        0 <= j < p.cache.entries@.len() ==> (#[trigger] p.cache.entries@[j]).key@
                            != key
                } by {
                    if all == seq![(key, load)] + r && i > 0 {
                        assert(all[i] == r[i - 1]);
                    }
                }
            },
            None => {
                nothing_is_loaded_ahead_twice(p, m, l.skip(1), inflight, n);
            },
        }
    }
}

/// The details that are shown are those of the selected commit, or of the commit whose files
/// are listed.
pub proof fn details_are_of_the_selected_commit(s: Selection, m: Model)
    ensures
        ({
            let i = s.selected as int;
            let h = details_hash(s, m);
            &&& s.active is Commits && i < m.commits@.len() ==> h == Some(m.commits@[i].hash@)
            &&& s.active is BranchCommits && i < m.sub_commits@.len() ==> h == Some(
                m.sub_commits@[i].hash@,
            )
            &&& s.active is Reflog && i < m.reflog_commits@.len() ==> h == Some(
                m.reflog_commits@[i].hash@,
            )
            &&& s.active.lists_commit_files() && s.commit_files_hash@.len() > 0 ==> h == Some(
                s.commit_files_hash@,
            )
            &&& h is Some ==> !(s.active is Files) && !(s.active is Stash)
        }),
{
}

/// What is selected is what was asked for last. A load is started only where the diff is not
/// at hand and something has one; where nothing has, the pane is blank, and its view was kept.
pub proof fn the_pane_follows_the_selection(
    p: DiffPane,
    s: Selection,
    m: Model,
    mode: Option<DiffModeSelection>,
    now: u64,
    after: DiffPane,
    r: Option<DiffRequest>,
)
    requires
        requested(p, s, m, mode, now, after, r),
    ensures
        ({
            let key = diff_key(s, m, mode);
            let load = diff_pane::request_course(p, key) is Load;
            &&& after.last_key@ == key
            &&& r is Some <==> load && (mode is Some || wanted_load(s, m) is Some)
            &&& r is Some ==> after.loading && after.loading_since == Some(now) && after.view
                == p.view && after.generation == diff_pane::next_number(p.generation)
            &&& load && r is None ==> !after.loading && after.view.blank()
                && after.displayed_key@.len() == 0 && after.generation == diff_pane::next_number(
                p.generation,
            )
            &&& load ==> !after.needs_refresh
            &&& r matches Some(DiffRequest::Load { generation, diff_key: k, load: l }) ==> generation
                == after.generation && k@ == key && mode is None
            &&& r matches Some(DiffRequest::DiffMode { generation, diff_key: k }) ==> generation
                == after.generation && k@ == key && mode is Some
        }),
{
}

/// In a list the selected file is picked by its number; in a tree the file of the selected
/// node, or its directory where it has none. Behind the end nothing is.
pub proof fn what_is_selected_is_picked(nodes: Seq<TreeNode>, names: Seq<Seq<char>>, selected: int)
    requires
        0 <= selected,
    ensures
        selected < names.len() ==> picked(false, nodes, names, selected) == Picked::File(
            names[selected],
        ),
        selected >= names.len() ==> picked(false, nodes, names, selected) is Nothing,
        selected >= nodes.len() ==> picked(true, nodes, names, selected) is Nothing,
        selected < nodes.len() && nodes[selected].file_index is None ==> picked(
            true,
            nodes,
            names,
            selected,
        ) == Picked::Dir(nodes[selected].path@),
        selected < nodes.len() ==> (nodes[selected].file_index matches Some(i) ==> i < names.len()
            ==> picked(true, nodes, names, selected) == Picked::File(names[i as int])),
{
}

} // verus!
