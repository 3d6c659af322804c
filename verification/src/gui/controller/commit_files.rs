//! The keys of the list of files of a commit or a stash.

use crate::gui::context::ContextId;
use crate::gui::diff_jobs;
use crate::gui::diff_jobs::Selection;
use crate::gui::input::{KeyCode, KeyEvent};
use crate::gui::popup::menu::{Menu, MenuItem};
use crate::gui::popup::Action;
use crate::gui::startup::Preferences;
use crate::model;
use crate::model::{CommitFile, FileChangeStatus, TreeNode};
use crate::text;
use vstd::prelude::*;

verus! {

/// The list of files of a commit or a stash, or the tree over it.
#[derive(Debug)]
pub struct CommitFilesView {
    pub show_tree: bool,
    pub nodes: Vec<TreeNode>,
    /// The directories that are folded; none occurs twice.
    pub collapsed: Vec<String>,
    pub hash: String,
    /// The list to go back to, where it is not the usual one.
    pub parent: Option<ContextId>,
}

/// Takes over the tree of the files of a commit, or drops it where the files are listed
/// without one. Gives how many entries the tree has, which then stands for the number of
/// files.
pub fn update_commit_file_tree_state(view: &mut CommitFilesView, built: Vec<TreeNode>) -> (r:
    Option<usize>)
    ensures
        *final(view) == (CommitFilesView { nodes: final(view).nodes, ..*old(view) }),
        if old(view).show_tree {
            final(view).nodes == built && r == Some(built.len())
        } else {
            final(view).nodes@.len() == 0 && r is None
        },
{
    if view.show_tree {
        view.nodes = built;
        Some(view.nodes.len())
    } else {
        view.nodes.clear();
        None
    }
}

/// What a key leads to.
#[derive(Debug)]
pub enum CommitFilesStep {
    Stay,
    /// The commits are filtered by a path.
    FilterByPath(Option<String>),
    /// The list is left for another, and the diff is shown anew.
    Leave(ContextId),
    /// The tree has to be built anew.
    RebuildTree,
    FocusDiff,
    /// The tree was switched on or off: it has to be built anew, this is kept, and the
    /// first entry is selected.
    TreeSwitched,
    /// The file with this path in the working tree is edited.
    Edit(String),
    ShowMenu(Menu),
}

/// What a key does in the list.
#[derive(Debug, Clone, Copy, PartialEq, Eq, Structural)]
pub enum CommitFilesKey {
    Filter,
    Leave,
    Enter,
    SwitchTree,
    Edit,
    Copy,
    Nothing,
}

/// What a key does in the list, given which bindings it matches.
pub open spec fn commit_files_key(key: KeyEvent, log_menu: bool, tree: bool, edit: bool) -> CommitFilesKey {
    if log_menu {
        CommitFilesKey::Filter
    } else if key.code is Esc {
        CommitFilesKey::Leave
    } else if key.code is Enter {
        CommitFilesKey::Enter
    } else if tree {
        CommitFilesKey::SwitchTree
    } else if edit {
        CommitFilesKey::Edit
    } else if key.code == KeyCode::Char('y') {
        CommitFilesKey::Copy
    } else {
        CommitFilesKey::Nothing
    }
}

fn classify(key: KeyEvent, log_menu: bool, tree: bool, edit: bool) -> (r: CommitFilesKey)
    ensures
        r == commit_files_key(key, log_menu, tree, edit),
{
    if log_menu {
        CommitFilesKey::Filter
    } else if key.code == KeyCode::Esc {
        CommitFilesKey::Leave
    } else if key.code == KeyCode::Enter {
        CommitFilesKey::Enter
    } else if tree {
        CommitFilesKey::SwitchTree
    } else if edit {
        CommitFilesKey::Edit
    } else if key.code == KeyCode::Char('y') {
        CommitFilesKey::Copy
    } else {
        CommitFilesKey::Nothing
    }
}

/// The list that this one is left for.
pub open spec fn parent_of(active: ContextId, given: Option<ContextId>) -> ContextId {
    match given {
        Some(c) => c,
        None => match active {
            ContextId::StashFiles => ContextId::Stash,
            ContextId::BranchCommitFiles => ContextId::BranchCommits,
            _ => ContextId::Commits,
        },
    }
}

/// The folded directories with one folded, or no longer.
pub open spec fn folded(s: Set<Seq<char>>, path: Seq<char>) -> Set<Seq<char>> {
    if s.contains(path) {
        s.remove(path)
    } else {
        s.insert(path)
    }
}

/// The texts of strings, as a set.
pub open spec fn as_set(v: Seq<String>) -> Set<Seq<char>> {
    text::texts(v).to_set()
}

/// Whether no text occurs twice.
pub open spec fn no_repeats(v: Seq<String>) -> bool {
    forall|i: int, j: int| 0 <= i < j < v.len() ==> (#[trigger] v[i])@ != (#[trigger] v[j])@
}

/// Folds a directory, or unfolds it.
pub fn toggle_dir(dirs: &mut Vec<String>, path: &str)
    requires
        no_repeats(old(dirs)@),
    ensures
        no_repeats(final(dirs)@),
        as_set(final(dirs)@) == folded(as_set(old(dirs)@), path@),
{
    let ghost before = dirs@;
    let ghost l = text::texts(before);
    let mut i: usize = 0;
    while i < dirs.len()
        invariant
            i <= dirs@.len(),
            dirs@ == before,
            before == old(dirs)@,
            l == text::texts(before),
            no_repeats(before),
            forall|j: int| 0 <= j < i ==> (#[trigger] before[j])@ != path@,
        decreases dirs@.len() - i,
    {
        if text::same_str(dirs[i].as_str(), path) {
            dirs.remove(i);
            proof {
                let after = text::texts(dirs@);
                assert(after =~= l.remove(i as int));
                assert(l[i as int] == path@);
                assert(l.contains(path@));
                assert forall|x: Seq<char>| after.to_set().contains(x) == l.to_set().remove(
                    path@,
                ).contains(x) by {
                    if l.contains(x) && x != path@ {
                        let k = choose|k: int| 0 <= k < l.len() && l[k] == x;
                        assert(after[if k < i { k } else { k - 1 }] == x);
                    }
                    if after.contains(x) {
                        let k = choose|k: int| 0 <= k < after.len() && after[k] == x;
                        let m = if k < i { k } else { k + 1 };
                        assert(l[m] == x);
                        assert(before[m]@ == x);
                        assert(before[i as int]@ == path@);
                    }
                }
                assert(as_set(dirs@) =~= folded(as_set(before), path@));
            }
            return;
        }
        i = i + 1;
    }
    dirs.push(path.to_string());
    proof {
        let after = text::texts(dirs@);
        assert(after =~= l.push(path@));
        assert(!l.contains(path@)) by {
            if l.contains(path@) {
                let k = choose|k: int| 0 <= k < l.len() && l[k] == path@;
                assert(before[k]@ == path@);
            }
        }
        assert forall|x: Seq<char>| after.to_set().contains(x) == l.to_set().insert(
            path@,
        ).contains(x) by {
            if l.contains(x) {
                let k = choose|k: int| 0 <= k < l.len() && l[k] == x;
                assert(after[k] == x);
            }
            assert(after[l.len() as int] == path@);
            if after.contains(x) {
                let k = choose|k: int| 0 <= k < after.len() && after[k] == x;
                if k < l.len() {
                    assert(l[k] == x);
                }
            }
        }
        assert(as_set(dirs@) =~= folded(as_set(before), path@));
    }
}

// ---------------------------------------------------------------------------
// The menu
// ---------------------------------------------------------------------------

/// The path that a file had before the commit.
pub open spec fn path_before(name: Seq<char>) -> Seq<char> {
    model::paths_of(name)[0]
}

/// Whether an item is one of the menu: its label, its description, its key.
pub open spec fn is_item(i: MenuItem, label: Seq<char>, description: Seq<char>, key: Option<Seq<char>>) -> bool {
    i.label@ == label && i.description@ == description && text::opt_text(i.key) == key
}

/// Whether a menu offers to copy what a commit did to a file. An added file has no
/// old contents, a deleted one no new ones.
pub open spec fn offers_copies(m: Menu, f: CommitFile, hash: Seq<char>) -> bool {
    let has_old = !(f.status is Added);
    let has_new = !(f.status is Deleted);
    &&& m.title@ == "Copy to clipboard"@
    &&& m.selected == 0
    &&& m.loading_index is None
    &&& m.items@.len() == 5
    &&& is_item(m.items@[0], "File name"@, seq![], Some("n"@))
    &&& m.items@[0].action matches Some(Action::CopyText { text }) && text@ == f.name@
    &&& is_item(
        m.items@[1],
        "Old content (parent)"@,
        if has_old {
            seq![]
        } else {
            "File was added — no old content"@
        },
        Some("o"@),
    )
    &&& if has_old {
        m.items@[1].action matches Some(Action::CopyFileAt { revision, path }) && revision@ == hash
            + "^1"@ && path@ == path_before(f.name@)
    } else {
        m.items@[1].action is None
    }
    &&& is_item(
        m.items@[2],
        "New content (commit)"@,
        if has_new {
            seq![]
        } else {
            "File was deleted — no new content"@
        },
        Some("w"@),
    )
    &&& if has_new {
        m.items@[2].action matches Some(Action::CopyFileAt { revision, path }) && revision@ == hash
            && path@ == model::path_now(f.name@)
    } else {
        m.items@[2].action is None
    }
    &&& is_item(m.items@[3], "Diff"@, seq![], Some("d"@))
    &&& m.items@[3].action matches Some(Action::CopyDiff { hash: h, path: p }) && h@ == hash && p@
        == f.name@
    &&& is_item(m.items@[4], "Cancel"@, seq![], None)
    &&& m.items@[4].action == Some(Action::DoNothing)
}

fn item(label: &str, description: &str, key: Option<&str>, action: Option<Action>) -> (r: MenuItem)
    ensures
        is_item(
            r,
            label@,
            description@,
            match key {
                Some(k) => Some(k@),
                None => None,
            },
        ),
        r.action == action,
{
    MenuItem {
        label: label.to_string(),
        description: description.to_string(),
        key: match key {
            Some(k) => Some(k.to_string()),
            None => None,
        },
        action,
    }
}

/// The menu that offers to copy what a commit did to a file.
pub fn copy_menu(f: &CommitFile, hash: &str) -> (r: Menu)
    ensures
        offers_copies(r, *f, hash@),
{
    proof {
        reveal_strlit("");
        assert(""@ =~= seq![]);
    }
    let has_old = match f.status {
        FileChangeStatus::Added => false,
        _ => true,
    };
    let has_new = match f.status {
        FileChangeStatus::Deleted => false,
        _ => true,
    };
    let mut items: Vec<MenuItem> = Vec::new();
    items.push(
        item("File name", "", Some("n"), Some(Action::CopyText { text: f.name.clone() })),
    );
    if has_old {
        let mut revision = hash.to_string();
        revision.append("^1");
        items.push(
            item(
                "Old content (parent)",
                "",
                Some("o"),
                Some(Action::CopyFileAt { revision, path: f.old_path() }),
            ),
        );
    } else {
        items.push(
            item("Old content (parent)", "File was added — no old content", Some("o"), None),
        );
    }
    if has_new {
        items.push(
            item(
                "New content (commit)",
                "",
                Some("w"),
                Some(Action::CopyFileAt { revision: hash.to_string(), path: f.current_path() }),
            ),
        );
    } else {
        items.push(
            item("New content (commit)", "File was deleted — no new content", Some("w"), None),
        );
    }
    items.push(
        item(
            "Diff",
            "",
            Some("d"),
            Some(Action::CopyDiff { hash: hash.to_string(), path: f.name.clone() }),
        ),
    );
    items.push(item("Cancel", "", None, Some(Action::DoNothing)));
    Menu::new("Copy to clipboard".to_string(), items)
}

// ---------------------------------------------------------------------------
// Keys
// ---------------------------------------------------------------------------

impl CommitFilesView {
    /// No directory is folded twice.
    pub open spec fn wf(self) -> bool {
        no_repeats(self.collapsed@)
    }

    /// The selected file, if a file is selected.
    pub open spec fn picked(self, selected: usize, files: Seq<CommitFile>) -> Option<CommitFile> {
        let i = diff_jobs::picked_index(self.show_tree, self.nodes@, selected);
        if i is Some && i->0 < files.len() {
            Some(files[i->0 as int])
        } else {
            None
        }
    }

    /// The path that is selected, whether it is a file's or a directory's.
    pub open spec fn picked_path(self, selected: int, files: Seq<CommitFile>) -> Option<Seq<char>> {
        if self.show_tree {
            if selected < self.nodes@.len() {
                Some(self.nodes@[selected].path@)
            } else {
                None
            }
        } else if selected < files.len() {
            Some(model::path_now(files[selected].name@))
        } else {
            None
        }
    }

    /// Whether a directory is selected.
    pub open spec fn on_dir(self, selected: int) -> bool {
        self.show_tree && selected < self.nodes@.len() && self.nodes@[selected].is_dir
    }

    fn pick(&self, selected: usize, len: usize) -> (r: Option<usize>)
        ensures
            r == match diff_jobs::picked_index(self.show_tree, self.nodes@, selected) {
                Some(i) if i < len => Some(i),
                _ => None,
            },
    {
        let i = if self.show_tree {
            if selected < self.nodes.len() {
                self.nodes[selected].file_index
            } else {
                None
            }
        } else {
            Some(selected)
        };
        match i {
            Some(i) if i < len => Some(i),
            _ => None,
        }
    }

    /// Whether a key turns the list into another and leads to a step.
    pub open spec fn answered(
        self,
        key: CommitFilesKey,
        active: ContextId,
        selected: usize,
        files: Seq<CommitFile>,
        diff_empty: bool,
        after: CommitFilesView,
        r: CommitFilesStep,
    ) -> bool {
        match key {
            CommitFilesKey::Filter => after == self && (r matches CommitFilesStep::FilterByPath(p)
                && text::opt_text(p) == self.picked_path(selected as int, files)),
            CommitFilesKey::Leave => r == CommitFilesStep::Leave(parent_of(active, self.parent))
                && after.nodes@.len() == 0 && after.hash@.len() == 0 && after.parent is None
                && after.show_tree == self.show_tree && after.collapsed == self.collapsed,
            CommitFilesKey::Enter => if self.on_dir(selected as int) {
                r is RebuildTree && after == (CommitFilesView {
                    collapsed: after.collapsed,
                    ..self
                }) && as_set(after.collapsed@) == folded(
                    as_set(self.collapsed@),
                    self.nodes@[selected as int].path@,
                )
            } else {
                after == self && if diff_empty {
                    r is Stay
                } else {
                    r is FocusDiff
                }
            },
            CommitFilesKey::SwitchTree => r is TreeSwitched && after == (CommitFilesView {
                show_tree: !self.show_tree,
                ..self
            }),
            CommitFilesKey::Edit => after == self && match self.picked(selected, files) {
                Some(f) => r matches CommitFilesStep::Edit(p) && p@ == model::path_now(f.name@),
                None => r is Stay,
            },
            CommitFilesKey::Copy => after == self && match self.picked(selected, files) {
                Some(f) if self.hash@.len() > 0 => r matches CommitFilesStep::ShowMenu(m)
                    && offers_copies(m, f, self.hash@),
                _ => r is Stay,
            },
            CommitFilesKey::Nothing => after == self && r is Stay,
        }
    }

    /// What follows once the list was switched to a tree or back: the list of changed
    /// files is shown in the same way, which is what is remembered, and the first entry is
    /// selected.
    pub fn after_tree_switched(&self, preferences: &mut Preferences, s: &mut Selection)
        ensures
            *final(preferences) == (Preferences {
                show_file_tree: self.show_tree,
                ..*old(preferences)
            }),
            *final(s) == (Selection {
                show_file_tree: self.show_tree,
                show_commit_file_tree: self.show_tree,
                selected: 0,
                ..*old(s)
            }),
    {
        preferences.show_file_tree = self.show_tree;
        s.show_file_tree = self.show_tree;
        s.show_commit_file_tree = self.show_tree;
        s.selected = 0;
    }

    /// Applies a key to the list, given which bindings it matches.
    pub fn handle_key(
        &mut self,
        key: KeyEvent,
        log_menu: bool,
        toggle_tree: bool,
        edit: bool,
        active: ContextId,
        selected: usize,
        files: &Vec<CommitFile>,
        diff_empty: bool,
    ) -> (r: CommitFilesStep)
        requires
            old(self).wf(),
        ensures
            final(self).wf(),
            old(self).answered(
                commit_files_key(key, log_menu, toggle_tree, edit),
                active,
                selected,
                files@,
                diff_empty,
                *final(self),
                r,
            ),
    {
        match classify(key, log_menu, toggle_tree, edit) {
            CommitFilesKey::Filter => {
                let path = if self.show_tree {
                    if selected < self.nodes.len() {
                        Some(self.nodes[selected].path.clone())
                    } else {
                        None
                    }
                } else if selected < files.len() {
                    Some(files[selected].current_path())
                } else {
                    None
                };
                CommitFilesStep::FilterByPath(path)
            },
            CommitFilesKey::Leave => {
                let parent = match self.parent.take() {
                    Some(c) => c,
                    None => match active {
                        ContextId::StashFiles => ContextId::Stash,
                        ContextId::BranchCommitFiles => ContextId::BranchCommits,
                        _ => ContextId::Commits,
                    },
                };
                self.nodes = Vec::new();
                self.hash = String::new();
                CommitFilesStep::Leave(parent)
            },
            CommitFilesKey::Enter => {
                if self.show_tree && selected < self.nodes.len() && self.nodes[selected].is_dir {
                    let path = self.nodes[selected].path.clone();
                    toggle_dir(&mut self.collapsed, path.as_str());
                    return CommitFilesStep::RebuildTree;
                }
                if diff_empty {
                    CommitFilesStep::Stay
                } else {
                    CommitFilesStep::FocusDiff
                }
            },
            CommitFilesKey::SwitchTree => {
                self.show_tree = !self.show_tree;
                CommitFilesStep::TreeSwitched
            },
            CommitFilesKey::Edit => match self.pick(selected, files.len()) {
                Some(i) => CommitFilesStep::Edit(files[i].current_path()),
                None => CommitFilesStep::Stay,
            },
            CommitFilesKey::Copy => match self.pick(selected, files.len()) {
                Some(i) => {
                    if text::is_empty_str(self.hash.as_str()) {
                        CommitFilesStep::Stay
                    } else {
                        CommitFilesStep::ShowMenu(copy_menu(&files[i], self.hash.as_str()))
                    }
                },
                None => CommitFilesStep::Stay,
            },
            CommitFilesKey::Nothing => CommitFilesStep::Stay,
        }
    }
}

/// What is told of a file of a commit that is no longer there to be edited.
pub fn missing_file(rel_path: &str) -> (r: String)
    ensures
        r@ == "no longer in the working tree: "@ + rel_path@,
{
    let mut s = "no longer in the working tree: ".to_string();
    s.append(rel_path);
    s
}

// ---------------------------------------------------------------------------
// Laws
// ---------------------------------------------------------------------------

/// Folding a directory twice changes nothing.
pub proof fn folding_twice_changes_nothing(s: Set<Seq<char>>, path: Seq<char>)
    ensures
        folded(folded(s, path), path) == s,
{
    assert(folded(folded(s, path), path) =~= s);
}

/// What each key does in the list: escape leaves it, enter opens what is selected, `y` copies;
/// the keys that are bound come as they are bound, the filter before all.
pub proof fn the_list_of_files_has_its_keys(key: KeyEvent, tree: bool, edit: bool)
    ensures
        commit_files_key(key, true, tree, edit) is Filter,
        key.code is Esc ==> commit_files_key(key, false, tree, edit) is Leave,
        key.code is Enter ==> commit_files_key(key, false, tree, edit) is Enter,
        !(key.code is Esc) && !(key.code is Enter) ==> commit_files_key(key, false, true, edit)
            is SwitchTree && commit_files_key(key, false, false, true) is Edit,
        key.code == KeyCode::Char('y') ==> commit_files_key(key, false, false, false) is Copy,
        key.code is Up ==> commit_files_key(key, false, false, false) is Nothing,
{
}

/// The files of a commit are left for the commits, those of a stash for the stash, and those
/// of a commit of a branch for its commits, unless another list is to be gone back to.
pub proof fn the_files_are_left_for_their_list(c: ContextId)
    ensures
        parent_of(ContextId::CommitFiles, None) is Commits,
        parent_of(ContextId::StashFiles, None) is Stash,
        parent_of(ContextId::BranchCommitFiles, None) is BranchCommits,
        parent_of(ContextId::CommitFiles, Some(c)) == c,
        parent_of(ContextId::StashFiles, Some(c)) == c,
{
}

/// Folding a directory folds it where it was not and unfolds it where it was, and no other.
pub proof fn folding_changes_one_directory(s: Set<Seq<char>>, path: Seq<char>, other: Seq<char>)
    ensures
        folded(s, path).contains(path) <==> !s.contains(path),
        other != path ==> (folded(s, path).contains(other) <==> s.contains(other)),
{
}

/// In a plain list the selected file is the one with the selected number, and its path the one
/// it has now; in a tree it is that of the selected node.
pub proof fn the_selected_file_of_a_commit(
    v: CommitFilesView,
    selected: usize,
    files: Seq<CommitFile>,
)
    ensures
        !v.show_tree && selected < files.len() ==> v.picked(selected, files) == Some(
            files[selected as int],
        ) && v.picked_path(selected as int, files) == Some(
            model::path_now(files[selected as int].name@),
        ),
        !v.show_tree && selected >= files.len() ==> v.picked(selected, files) is None
            && v.picked_path(selected as int, files) is None,
        v.show_tree && selected < v.nodes@.len() ==> v.picked_path(selected as int, files) == Some(
            v.nodes@[selected as int].path@,
        ),
        !v.show_tree ==> !v.on_dir(selected as int),
{
}

} // verus!
