//! What follows once everything was loaded anew.

use crate::gui::context::ContextId;
use crate::gui::diff_jobs;
use crate::gui::diff_jobs::Selection;
use crate::gui::main_loop::CommitFilters;
use crate::gui::popup::keys::{PopupState, Popups};
use crate::gui::popup::{MessageKind, Notice};
use crate::model::{Commit, File, Model, Remote, RemoteBranch, TreeNode};
use crate::text;
use vstd::prelude::*;

verus! {

/// What has to be loaded or built again because it went with what was known before.
#[derive(Debug, Clone, Copy, PartialEq, Eq, Structural)]
pub struct Reload {
    /// The commits that the filters show.
    pub filtered_commits: bool,
    pub file_tree: bool,
    pub branch_commits: bool,
    pub remote_branches: bool,
    pub commit_files: bool,
    pub commit_file_tree: bool,
}

/// What the lists show beside what is known of the repository.
#[derive(Debug)]
pub struct Drilled {
    pub branch_commits_name: String,
    pub remote_branches_name: String,
    pub sub_commits_parent: ContextId,
}

/// Whether the commits of a branch are on show, or the files of one of them.
pub open spec fn in_branch_commits(active: ContextId) -> bool {
    active is BranchCommits || active is BranchCommitFiles
}

/// What has to be loaded or built again.
pub open spec fn reload(s: Selection, d: Drilled, filters: CommitFilters) -> Reload {
    let files = s.active.lists_commit_files() && s.commit_files_hash@.len() > 0;
    Reload {
        filtered_commits: filters.any(),
        file_tree: s.show_file_tree,
        branch_commits: in_branch_commits(s.active) && d.branch_commits_name@.len() > 0,
        remote_branches: d.remote_branches_name@.len() > 0 && (s.active is RemoteBranches || (
        in_branch_commits(s.active) && d.sub_commits_parent is RemoteBranches)),
        commit_files: files,
        commit_file_tree: files && s.show_commit_file_tree,
    }
}

/// Decides what has to be loaded or built again once everything was loaded anew.
pub fn after_model_refresh(s: &Selection, d: &Drilled, filters: &CommitFilters) -> (r: Reload)
    ensures
        r == reload(*s, *d, *filters),
{
    let active = s.active;
    let branch = active == ContextId::BranchCommits || active == ContextId::BranchCommitFiles;
    let files = active.is_commit_files() && !text::is_empty_str(s.commit_files_hash.as_str());
    Reload {
        filtered_commits: filters.is_set(),
        file_tree: s.show_file_tree,
        branch_commits: branch && !text::is_empty_str(d.branch_commits_name.as_str()),
        remote_branches: !text::is_empty_str(d.remote_branches_name.as_str()) && (active
            == ContextId::RemoteBranches || (branch && d.sub_commits_parent
            == ContextId::RemoteBranches)),
        commit_files: files,
        commit_file_tree: files && s.show_commit_file_tree,
    }
}

/// The first remote with a name, from `i` on.
pub open spec fn remote_named(remotes: Seq<Remote>, name: Seq<char>, i: int) -> Option<int>
    decreases remotes.len() - i,
{
    if i < 0 || i >= remotes.len() {
        None
    } else if remotes[i].name@ == name {
        Some(i)
    } else {
        remote_named(remotes, name, i + 1)
    }
}

/// The names of branches of a remote.
pub open spec fn remote_branch_names(v: Seq<RemoteBranch>) -> Seq<Seq<char>> {
    Seq::new(v.len(), |i: int| v[i].name@)
}

/// Shows the branches of a remote again, if it is still there.
pub fn reload_remote_branches(m: &mut Model, name: &str)
    ensures
        *final(m) == (Model { sub_remote_branches: final(m).sub_remote_branches, ..*old(m) }),
        match remote_named(old(m).remotes@, name@, 0) {
            Some(i) => remote_branch_names(final(m).sub_remote_branches@) == remote_branch_names(
                old(m).remotes@[i].branches@,
            ),
            None => final(m).sub_remote_branches == old(m).sub_remote_branches,
        },
{
    let mut i: usize = 0;
    while i < m.remotes.len() && !text::same_str(m.remotes[i].name.as_str(), name)
        invariant
            i <= m.remotes@.len(),
            remote_named(m.remotes@, name@, 0) == remote_named(m.remotes@, name@, i as int),
        decreases m.remotes@.len() - i,
    {
        i = i + 1;
    }
    if i >= m.remotes.len() {
        return;
    }
    let ghost names = remote_branch_names(m.remotes@[i as int].branches@);
    let mut found: Vec<RemoteBranch> = Vec::new();
    let mut k: usize = 0;
    while k < m.remotes[i].branches.len()
        invariant
            i < m.remotes@.len(),
            k <= m.remotes@[i as int].branches@.len(),
            names == remote_branch_names(m.remotes@[i as int].branches@),
            found@.len() == k,
            forall|j: int| 0 <= j < k ==> (#[trigger] found@[j]).name@ == names[j],
        decreases m.remotes@[i as int].branches@.len() - k,
    {
        found.push(RemoteBranch { name: m.remotes[i].branches[k].name.clone() });
        k = k + 1;
    }
    assert(remote_branch_names(found@) =~= names);
    m.sub_remote_branches = found;
}

// ---------------------------------------------------------------------------
// The rebase under way
// ---------------------------------------------------------------------------

/// What the view of a rebase is at.
#[derive(Debug, Clone, Copy, PartialEq, Eq, Structural)]
pub enum RebasePhase {
    Planning,
    InProgress,
}

/// How far a step of a rebase is.
#[derive(Debug, Clone, Copy, PartialEq, Eq, Structural)]
pub enum EntryStatus {
    Done,
    Current,
    Pending,
}

/// A step of a rebase.
#[derive(Debug)]
pub struct RebaseEntry {
    pub hash: String,
    pub status: EntryStatus,
}

/// The view of a rebase.
#[derive(Debug)]
pub struct RebaseView {
    pub active: bool,
    pub phase: RebasePhase,
    /// Whether the view of the rebase under way was closed by hand.
    pub in_progress_dismissed: bool,
    pub entries: Vec<RebaseEntry>,
    pub selected: usize,
    pub scroll: usize,
    pub visible_height: usize,
    pub branch_name: String,
    pub total_count: usize,
}

/// The first step from `i` on that is being made.
pub open spec fn current_step(v: Seq<RebaseEntry>, i: int) -> Option<int>
    decreases v.len() - i,
{
    if i < 0 || i >= v.len() {
        None
    } else if v[i].status is Current {
        Some(i)
    } else {
        current_step(v, i + 1)
    }
}

/// The hash of the step that is being made.
pub open spec fn current_hash(v: Seq<RebaseEntry>) -> Option<Seq<char>> {
    match current_step(v, 0) {
        Some(i) => Some(v[i].hash@),
        None => None,
    }
}

/// The first step from `i` on with a hash.
pub open spec fn step_with_hash(v: Seq<RebaseEntry>, hash: Seq<char>, i: int) -> Option<int>
    decreases v.len() - i,
{
    if i < 0 || i >= v.len() {
        None
    } else if v[i].hash@ == hash {
        Some(i)
    } else {
        step_with_hash(v, hash, i + 1)
    }
}

fn find_current(v: &Vec<RebaseEntry>) -> (r: Option<usize>)
    ensures
        match current_step(v@, 0) {
            Some(i) => r matches Some(k) && k == i && k < v@.len(),
            None => r is None,
        },
{
    let mut i: usize = 0;
    while i < v.len()
        invariant
            i <= v@.len(),
            current_step(v@, 0) == current_step(v@, i as int),
        decreases v@.len() - i,
    {
        match v[i].status {
            EntryStatus::Current => {
                return Some(i);
            },
            _ => {},
        }
        i = i + 1;
    }
    None
}

fn find_hash(v: &Vec<RebaseEntry>, hash: &str) -> (r: Option<usize>)
    ensures
        match step_with_hash(v@, hash@, 0) {
            Some(i) => r matches Some(k) && k == i && k < v@.len(),
            None => r is None,
        },
{
    let mut i: usize = 0;
    while i < v.len()
        invariant
            i <= v@.len(),
            step_with_hash(v@, hash@, 0) == step_with_hash(v@, hash@, i as int),
        decreases v@.len() - i,
    {
        if text::same_str(v[i].hash.as_str(), hash) {
            return Some(i);
        }
        i = i + 1;
    }
    None
}

/// What is remembered of the view of a rebase while it is brought up to date.
#[derive(Debug)]
pub struct RebasePlace {
    pub current_hash: Option<String>,
    pub selected_hash: Option<String>,
    pub scroll: usize,
}

impl RebaseView {
    /// Whether the rebase under way is on show.
    pub open spec fn shows_progress(self) -> bool {
        self.active && self.phase is InProgress
    }

    /// Remembers where one is in the view; nothing where the rebase under way is not on
    /// show.
    pub fn place(&self) -> (r: RebasePlace)
        ensures
            r.scroll == self.scroll,
            text::opt_text(r.current_hash) == if self.shows_progress() {
                current_hash(self.entries@)
            } else {
                None
            },
            text::opt_text(r.selected_hash) == if self.shows_progress() && self.selected
                < self.entries@.len() {
                Some(self.entries@[self.selected as int].hash@)
            } else {
                None
            },
    {
        let shown = self.active && match self.phase {
            RebasePhase::InProgress => true,
            RebasePhase::Planning => false,
        };
        if !shown {
            return RebasePlace { current_hash: None, selected_hash: None, scroll: self.scroll };
        }
        RebasePlace {
            current_hash: match find_current(&self.entries) {
                Some(i) => Some(self.entries[i].hash.clone()),
                None => None,
            },
            selected_hash: if self.selected < self.entries.len() {
                Some(self.entries[self.selected].hash.clone())
            } else {
                None
            },
            scroll: self.scroll,
        }
    }

    /// Goes back to where one was once the view is up to date, if the same step is
    /// still being made and the selected one is still there; tells whether that was so
    /// and the selection has to be brought into view.
    pub fn return_to(&mut self, was: &RebasePlace) -> (r: bool)
        requires
            old(self).entries@.len() < usize::MAX,
        ensures
            ({
                let same = was.current_hash is Some && text::opt_text(was.current_hash)
                    == current_hash(old(self).entries@);
                let found = match was.selected_hash {
                    Some(h) => step_with_hash(old(self).entries@, h@, 0),
                    None => None,
                };
                let most = crate::gui::picker::minus(
                    old(self).entries@.len() as int + 1,
                    old(self).visible_height as int,
                );
                &&& r == (same && found is Some)
                &&& r ==> *final(self) == (RebaseView {
                    selected: found->0 as usize,
                    scroll: crate::gui::picker::at_most(was.scroll as int, most) as usize,
                    ..*old(self)
                })
                &&& !r ==> *final(self) == *old(self)
            }),
    {
        let now = find_current(&self.entries);
        let same = match (&was.current_hash, now) {
            (Some(h), Some(i)) => text::same_str(h.as_str(), self.entries[i].hash.as_str()),
            _ => false,
        };
        if !same {
            return false;
        }
        match &was.selected_hash {
            Some(h) => match find_hash(&self.entries, h.as_str()) {
                Some(i) => {
                    self.selected = i;
                    let most: usize = (self.entries.len() + 1).saturating_sub(
                        self.visible_height,
                    );
                    self.scroll = if was.scroll <= most {
                        was.scroll
                    } else {
                        most
                    };
                    true
                },
                None => false,
            },
            None => false,
        }
    }
}

/// What follows for the view of a rebase.
#[derive(Debug, Clone, Copy, PartialEq, Eq, Structural)]
pub enum RebaseCourse {
    Nothing,
    /// The view is opened or brought up to date.
    Sync,
    /// The rebase is over: its view closes, and this is told.
    Finished,
}

/// What follows for the view of a rebase: one that is under way is shown unless its
/// view was closed by hand; one that is over is told.
pub open spec fn rebase_course(rebasing: bool, v: RebaseView) -> RebaseCourse {
    if rebasing {
        if (!v.active && !v.in_progress_dismissed) || v.shows_progress() {
            RebaseCourse::Sync
        } else {
            RebaseCourse::Nothing
        }
    } else if v.shows_progress() {
        RebaseCourse::Finished
    } else {
        RebaseCourse::Nothing
    }
}

/// What is told of a rebase that is over.
pub open spec fn rebase_done(branch: Seq<char>, count: nat) -> Seq<char> {
    "Successfully rebased '"@ + branch + "' ("@ + text::decimal(count) + " commit"@ + (if count
        == 1 {
        seq![]
    } else {
        seq!['s']
    }) + ")."@
}

/// Decides what follows for the view of a rebase once everything was loaded anew.
/// The view of one that is over is left. Once no rebase is under way, the next one is
/// shown again.
pub fn follow_rebase(rebasing: bool, v: &mut RebaseView, popups: &mut Popups) -> (r: RebaseCourse)
    ensures
        r == rebase_course(rebasing, *old(v)),
        *final(v) == (RebaseView {
            in_progress_dismissed: if rebasing {
                old(v).in_progress_dismissed
            } else {
                false
            },
            active: old(v).active && !(r is Finished),
            ..*old(v)
        }),
        if r is Finished {
            *final(popups) == old(popups).with(final(popups).popup) && (final(
                popups).popup matches PopupState::Message(n) && n.title@ == "Rebase complete"@
                && n.message@ == rebase_done(old(v).branch_name@, old(v).total_count as nat)
                && n.kind is Info)
        } else {
            *final(popups) == *old(popups)
        },
{
    let shown = v.active && match v.phase {
        RebasePhase::InProgress => true,
        RebasePhase::Planning => false,
    };
    if rebasing {
        if (!v.active && !v.in_progress_dismissed) || shown {
            return RebaseCourse::Sync;
        }
        return RebaseCourse::Nothing;
    }
    v.in_progress_dismissed = false;
    if shown {
        let mut message = "Successfully rebased '".to_string();
        message.append(v.branch_name.as_str());
        message.append("' (");
        message.append(text::decimal_of(v.total_count).as_str());
        message.append(" commit");
        if v.total_count != 1 {
            message.push('s');
        }
        message.append(").");
        assert(message@ =~= rebase_done(v.branch_name@, v.total_count as nat));
        popups.popup = PopupState::Message(
            Notice { title: "Rebase complete".to_string(), message, kind: MessageKind::Info },
        );
        v.active = false;
        RebaseCourse::Finished
    } else {
        RebaseCourse::Nothing
    }
}

// ---------------------------------------------------------------------------
// What is selected
// ---------------------------------------------------------------------------

impl Selection {
    /// Takes over the tree of the changed files, or drops it where the files are listed
    /// without one. Gives how many entries the tree has, which then stands for the number
    /// of files.
    pub fn update_file_tree_state(&mut self, built: Vec<TreeNode>) -> (r: Option<usize>)
        ensures
            *final(self) == (Selection {
                file_tree_nodes: final(self).file_tree_nodes,
                ..*old(self)
            }),
            if old(self).show_file_tree {
                final(self).file_tree_nodes == built && r == Some(built.len())
            } else {
                final(self).file_tree_nodes@.len() == 0 && r is None
            },
    {
        if self.show_file_tree {
            self.file_tree_nodes = built;
            Some(self.file_tree_nodes.len())
        } else {
            self.file_tree_nodes.clear();
            None
        }
    }
}

/// The index of the selected file: none where a directory is selected.
pub fn selected_file_index(s: &Selection) -> (r: Option<usize>)
    ensures
        r == diff_jobs::picked_index(s.show_file_tree, s.file_tree_nodes@, s.selected),
{
    if s.show_file_tree {
        if s.selected < s.file_tree_nodes.len() {
            s.file_tree_nodes[s.selected].file_index
        } else {
            None
        }
    } else {
        Some(s.selected)
    }
}

/// The selected file among the changed ones, if one is selected.
pub open spec fn selected_file(s: Selection, files: Seq<File>) -> Option<File> {
    let i = diff_jobs::picked_index(s.show_file_tree, s.file_tree_nodes@, s.selected);
    if s.active is Files && i is Some && i->0 < files.len() {
        Some(files[i->0 as int])
    } else {
        None
    }
}

/// The name of the selected file, if it is in conflict.
pub fn selected_conflicted_file_name(s: &Selection, files: &Vec<File>) -> (r: Option<String>)
    ensures
        text::opt_text(r) == match selected_file(*s, files@) {
            Some(f) => if f.has_merge_conflicts {
                Some(f.name@)
            } else {
                None
            },
            None => None,
        },
{
    if s.active != ContextId::Files {
        return None;
    }
    match selected_file_index(s) {
        Some(i) if i < files.len() => if files[i].has_merge_conflicts {
            Some(files[i].name.clone())
        } else {
            None
        },
        _ => None,
    }
}

/// Tells whether the selected file has changes that are not staged.
pub fn selected_file_has_unstaged_changes(s: &Selection, files: &Vec<File>) -> (r: bool)
    ensures
        r == (selected_file(*s, files@) matches Some(f) && f.has_unstaged_changes),
{
    if s.active != ContextId::Files {
        return false;
    }
    match selected_file_index(s) {
        Some(i) if i < files.len() => files[i].has_unstaged_changes,
        _ => false,
    }
}

/// Whether a commit with a hash is known.
pub open spec fn knows_commit(m: Model, hash: Seq<char>) -> bool {
    crate::gui::background::has_hash(m.commits@, hash) || crate::gui::background::has_hash(
        m.sub_commits@,
        hash,
    ) || crate::gui::background::has_hash(m.reflog_commits@, hash)
}

/// Whether the details of a commit are on show: they are switched on, and the commit
/// is there.
pub open spec fn details_shown(show: bool, s: Selection, m: Model) -> bool {
    show && match s.active {
        ContextId::Commits => s.selected < m.commits@.len(),
        ContextId::BranchCommits => s.selected < m.sub_commits@.len(),
        ContextId::Reflog => s.selected < m.reflog_commits@.len(),
        ContextId::CommitFiles | ContextId::BranchCommitFiles | ContextId::StashFiles =>
        s.commit_files_hash@.len() > 0 && knows_commit(m, s.commit_files_hash@),
        _ => false,
    }
}

fn any_with_hash(v: &Vec<Commit>, hash: &str) -> (r: bool)
    ensures
        r == crate::gui::background::has_hash(v@, hash@),
{
    let mut i: usize = 0;
    while i < v.len()
        invariant
            i <= v@.len(),
            forall|j: int| 0 <= j < i ==> (#[trigger] v@[j]).hash@ != hash@,
        decreases v@.len() - i,
    {
        if text::same_str(v[i].hash.as_str(), hash) {
            assert(v@[i as int].hash@ == hash@);
            return true;
        }
        i = i + 1;
    }
    false
}

/// Tells whether the details of a commit are on show.
pub fn details_panel_applies(show: bool, s: &Selection, m: &Model) -> (r: bool)
    ensures
        r == details_shown(show, *s, *m),
{
    if !show {
        return false;
    }
    match s.active {
        ContextId::Commits => s.selected < m.commits.len(),
        ContextId::BranchCommits => s.selected < m.sub_commits.len(),
        ContextId::Reflog => s.selected < m.reflog_commits.len(),
        ContextId::CommitFiles | ContextId::BranchCommitFiles | ContextId::StashFiles => {
            let hash = s.commit_files_hash.as_str();
            !text::is_empty_str(hash) && (any_with_hash(&m.commits, hash) || any_with_hash(
                &m.sub_commits,
                hash,
            ) || any_with_hash(&m.reflog_commits, hash))
        },
        _ => false,
    }
}

// ---------------------------------------------------------------------------
// Laws
// ---------------------------------------------------------------------------

/// A rebase under way whose view was closed by hand does not open it again, until no
/// rebase was under way in between.
pub proof fn a_closed_view_stays_closed(v: RebaseView)
    requires
        !v.active,
        v.in_progress_dismissed,
    ensures
        rebase_course(true, v) is Nothing,
        rebase_course(true, RebaseView { in_progress_dismissed: false, ..v }) is Sync,
{
}

/// What is on show is brought up to date once everything was loaded anew, and nothing else:
/// the commits of a branch and the branches of a remote where they are on show, the files of
/// a commit where a commit is known, trees where they are shown.
pub proof fn what_is_on_show_is_loaded_again(s: Selection, d: Drilled, f: CommitFilters)
    ensures
        ({
            let r = reload(s, d, f);
            let files = s.active is CommitFiles || s.active is StashFiles
                || s.active is BranchCommitFiles;
            let drilled = s.active is BranchCommits || s.active is BranchCommitFiles;
            &&& r.branch_commits <==> drilled && d.branch_commits_name@.len() > 0
            &&& r.commit_files <==> files && s.commit_files_hash@.len() > 0
            &&& r.commit_file_tree <==> r.commit_files && s.show_commit_file_tree
            &&& r.file_tree <==> s.show_file_tree
            &&& r.filtered_commits <==> f.branches@.len() > 0 || f.path is Some || f.authors@.len()
                > 0
            &&& s.active is RemoteBranches ==> (r.remote_branches <==> d.remote_branches_name@.len()
                > 0)
            &&& !drilled && !(s.active is RemoteBranches) ==> !r.remote_branches
            &&& drilled && d.remote_branches_name@.len() > 0 ==> (r.remote_branches
                <==> d.sub_commits_parent is RemoteBranches)
        }),
{
}

/// The step that is being made is the first that says so.
pub proof fn the_current_step_is_the_first(v: Seq<RebaseEntry>, i: int)
    requires
        0 <= i <= v.len(),
    ensures
        match current_step(v, i) {
            Some(k) => i <= k < v.len() && v[k].status is Current && forall|j: int|
                i <= j < k ==> !((#[trigger] v[j]).status is Current),
            None => forall|j: int| i <= j < v.len() ==> !((#[trigger] v[j]).status is Current),
        },
    decreases v.len() - i,
{
    if i < v.len() && !(v[i].status is Current) {
        the_current_step_is_the_first(v, i + 1);
    }
}

/// A step is found by its hash, the first with it.
pub proof fn a_step_is_found_by_its_hash(v: Seq<RebaseEntry>, hash: Seq<char>, i: int)
    requires
        0 <= i <= v.len(),
    ensures
        match step_with_hash(v, hash, i) {
            Some(k) => i <= k < v.len() && v[k].hash@ == hash && forall|j: int|
                i <= j < k ==> (#[trigger] v[j]).hash@ != hash,
            None => forall|j: int| i <= j < v.len() ==> (#[trigger] v[j]).hash@ != hash,
        },
    decreases v.len() - i,
{
    if i < v.len() && v[i].hash@ != hash {
        a_step_is_found_by_its_hash(v, hash, i + 1);
    }
}

/// A remote is found by its name, the first with it.
pub proof fn a_remote_is_found_by_its_name(remotes: Seq<Remote>, name: Seq<char>, i: int)
    requires
        0 <= i <= remotes.len(),
    ensures
        match remote_named(remotes, name, i) {
            Some(k) => i <= k < remotes.len() && remotes[k].name@ == name && forall|j: int|
                i <= j < k ==> (#[trigger] remotes[j]).name@ != name,
            None => forall|j: int| i <= j < remotes.len() ==> (#[trigger] remotes[j]).name@ != name,
        },
    decreases remotes.len() - i,
{
    if i < remotes.len() && remotes[i].name@ != name {
        a_remote_is_found_by_its_name(remotes, name, i + 1);
    }
}

/// A rebase is told to be over exactly where its progress was on show and none is under way
/// any more; one under way is shown unless the view was closed or something is planned.
pub proof fn a_rebase_is_followed(rebasing: bool, v: RebaseView)
    ensures
        rebase_course(rebasing, v) is Finished <==> !rebasing && v.active && v.phase is InProgress,
        rebase_course(rebasing, v) is Sync <==> rebasing && ((v.active && v.phase is InProgress)
            || (!v.active && !v.in_progress_dismissed)),
{
}

/// What is told of a rebase that is over names the branch and counts the commits, one of
/// them without an `s`.
pub proof fn a_finished_rebase_is_told(branch: Seq<char>, n: nat)
    ensures
        n != 1 ==> rebase_done(branch, n) == "Successfully rebased '"@ + branch + "' ("@
            + text::decimal(n) + " commits)."@,
        rebase_done(branch, 1) == "Successfully rebased '"@ + branch + "' (1 commit)."@,
{
    reveal_strlit(" commit");
    reveal_strlit(" commits).");
    reveal_strlit(").");
    reveal_strlit("' (");
    reveal_strlit("' (1 commit).");
    let head = "Successfully rebased '"@ + branch;
    assert(rebase_done(branch, n) =~= head + "' ("@ + text::decimal(n) + (" commit"@ + (if n == 1 {
        seq![]
    } else {
        seq!['s']
    }) + ")."@));
    assert(" commit"@ + seq!['s'] + ")."@ =~= " commits)."@);
    assert("' ("@ + text::decimal(1) + (" commit"@ + Seq::<char>::empty() + ")."@)
        =~= "' (1 commit)."@);
    assert(rebase_done(branch, 1) =~= head + ("' ("@ + text::decimal(1) + (" commit"@
        + Seq::<char>::empty() + ")."@)));
}

/// The selected file is the one at the selected place: in a plain list that with its number,
/// and none in any other list.
pub proof fn the_selected_file_is_at_its_place(s: Selection, files: Seq<File>)
    ensures
        !(s.active is Files) ==> selected_file(s, files) is None,
        s.active is Files && !s.show_file_tree && s.selected < files.len() ==> selected_file(
            s,
            files,
        ) == Some(files[s.selected as int]),
        s.active is Files && !s.show_file_tree && s.selected >= files.len() ==> selected_file(
            s,
            files,
        ) is None,
{
}

/// The details of a commit are on show only where they are switched on and a commit is
/// selected.
pub proof fn details_need_a_commit(show: bool, s: Selection, m: Model)
    ensures
        !show ==> !details_shown(show, s, m),
        show && s.active is Commits ==> (details_shown(show, s, m) <==> s.selected
            < m.commits@.len()),
        show && s.active is BranchCommits ==> (details_shown(show, s, m) <==> s.selected
            < m.sub_commits@.len()),
        show && s.active is Reflog ==> (details_shown(show, s, m) <==> s.selected
            < m.reflog_commits@.len()),
        s.active.lists_commit_files() && s.commit_files_hash@.len() == 0 ==> !details_shown(
            show,
            s,
            m,
        ),
        details_shown(show, s, m) ==> s.active.lists_commit_files() || s.active is Commits
            || s.active is BranchCommits || s.active is Reflog,
{
}

/// A commit is known from any of the three lists of commits.
pub proof fn a_commit_is_known_from_any_list(m: Model, i: int)
    ensures
        0 <= i < m.commits@.len() ==> knows_commit(m, m.commits@[i].hash@),
        0 <= i < m.sub_commits@.len() ==> knows_commit(m, m.sub_commits@[i].hash@),
        0 <= i < m.reflog_commits@.len() ==> knows_commit(m, m.reflog_commits@[i].hash@),
{
}

/// No other commit is known.
pub proof fn no_other_commit_is_known(m: Model, hash: Seq<char>)
    requires
        forall|i: int| 0 <= i < m.commits@.len() ==> (#[trigger] m.commits@[i]).hash@ != hash,
        forall|i: int|
            0 <= i < m.sub_commits@.len() ==> (#[trigger] m.sub_commits@[i]).hash@ != hash,
        forall|i: int|
            0 <= i < m.reflog_commits@.len() ==> (#[trigger] m.reflog_commits@[i]).hash@ != hash,
    ensures
        !knows_commit(m, hash),
{
}

} // verus!
