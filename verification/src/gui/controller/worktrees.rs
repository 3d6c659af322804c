//! The keys of the list of worktrees, and what they ask for.

use super::input_normalization;
use super::input_normalization::replace_spaces_with_dashes;
use crate::gui::input::{KeyCode, KeyEvent};
use crate::gui::picker;
use crate::gui::picker::{ListPickerItem, PickerEntry};
use crate::gui::popup::input;
use crate::gui::popup::input::InputPopup;
use crate::gui::popup::keys::{ConfirmPopup, PopupState};
use crate::gui::popup::menu::{Menu, MenuItem};
use crate::gui::popup::pickers;
use crate::gui::popup::pickers::RefPicker;
use crate::gui::popup::Action;
use crate::gui::textarea::TextField;
use crate::model::{Branch, Commit, Model, Remote, Tag, Worktree};
use crate::text;
use vstd::prelude::*;

verus! {

// ---------------------------------------------------------------------------
// Names
// ---------------------------------------------------------------------------

/// Whether a character may stand in a suggested name.
pub open spec fn is_name_char(c: char) -> bool {
    ||| 48 <= c as int <= 57
    ||| 65 <= c as int <= 90
    ||| 97 <= c as int <= 122
    ||| c == '.'
    ||| c == '_'
    ||| c == '-'
}

/// The text with a dash for each character that may not stand in a name; there is no
/// dash at its start, and no two follow each other.
pub open spec fn dashed(s: Seq<char>) -> Seq<char>
    decreases s.len(),
{
    if s.len() == 0 {
        seq![]
    } else {
        let rest = dashed(s.drop_last());
        let c = if is_name_char(s.last()) {
            s.last()
        } else {
            '-'
        };
        if c == '-' && (rest.len() == 0 || rest.last() == '-') {
            rest
        } else {
            rest.push(c)
        }
    }
}

/// Whether a character is cut off both ends of a suggested name.
pub open spec fn is_edge(c: char) -> bool {
    c == '-' || c == '.'
}

/// The text without dashes and dots at its start.
pub open spec fn edge_start(s: Seq<char>) -> Seq<char>
    decreases s.len(),
{
    if s.len() > 0 && is_edge(s[0]) {
        edge_start(s.skip(1))
    } else {
        s
    }
}

/// The text without dashes and dots at its end.
pub open spec fn edge_end(s: Seq<char>) -> Seq<char>
    decreases s.len(),
{
    if s.len() > 0 && is_edge(s.last()) {
        edge_end(s.drop_last())
    } else {
        s
    }
}

/// The name suggested for a branch; none where nothing is left of the text.
pub open spec fn suggestion(raw: Seq<char>) -> Option<Seq<char>> {
    let s = edge_end(edge_start(dashed(text::trim(raw))));
    if s.len() == 0 {
        None
    } else {
        Some(s)
    }
}

fn name_char(c: char) -> (r: bool)
    ensures
        r == is_name_char(c),
{
    let n: u32 = c as u32;
    (48 <= n && n <= 57) || (65 <= n && n <= 90) || (97 <= n && n <= 122) || c == '.' || c == '_'
        || c == '-'
}

/// Suggests a name for a branch after a text.
pub fn sanitize_branch_name_suggestion(raw: &str) -> (r: Option<String>)
    ensures
        text::opt_text(r) == suggestion(raw@),
{
    let chars = text::chars_of(raw);
    let trimmed = text::trim_of(chars.as_slice());
    let ghost t = text::trim(raw@);
    let mut kept: Vec<char> = Vec::new();
    let mut i: usize = 0;
    assert(kept@ =~= dashed(t.take(0)));
    while i < trimmed.len()
        invariant
            i <= trimmed@.len(),
            trimmed@ == t,
            kept@ == dashed(t.take(i as int)),
        decreases trimmed@.len() - i,
    {
        assert(t.take(i as int + 1).drop_last() =~= t.take(i as int));
        let c = if name_char(trimmed[i]) {
            trimmed[i]
        } else {
            '-'
        };
        if c != '-' || (kept.len() > 0 && kept[kept.len() - 1] != '-') {
            kept.push(c);
        }
        i = i + 1;
    }
    assert(t.take(t.len() as int) =~= t);
    let mut start: usize = 0;
    assert(kept@.skip(0) =~= kept@);
    while start < kept.len() && (kept[start] == '-' || kept[start] == '.')
        invariant
            start <= kept@.len(),
            edge_start(kept@) == edge_start(kept@.skip(start as int)),
        decreases kept@.len() - start,
    {
        assert(kept@.skip(start as int).skip(1) =~= kept@.skip(start as int + 1));
        start = start + 1;
    }
    let ghost front = kept@.skip(start as int);
    let mut end: usize = kept.len();
    assert(kept@.subrange(start as int, end as int) =~= front);
    while end > start && (kept[end - 1] == '-' || kept[end - 1] == '.')
        invariant
            start <= end <= kept@.len(),
            edge_end(front) == edge_end(kept@.subrange(start as int, end as int)),
        decreases end - start,
    {
        assert(kept@.subrange(start as int, end as int).drop_last() =~= kept@.subrange(
            start as int,
            end - 1,
        ));
        end = end - 1;
    }
    if start >= end {
        return None;
    }
    let part = text::copy_range(kept.as_slice(), start, end);
    Some(text::string_of(part.as_slice()))
}

/// The names in a path that lead somewhere: not the empty ones between slashes, nor
/// single dots.
pub open spec fn path_names(l: Seq<Seq<char>>) -> Seq<Seq<char>>
    decreases l.len(),
{
    if l.len() == 0 {
        seq![]
    } else if l.last().len() == 0 || l.last() == "."@ {
        path_names(l.drop_last())
    } else {
        path_names(l.drop_last()).push(l.last())
    }
}

/// The file that a path names: its last name, unless that leads up.
pub open spec fn file_name(path: Seq<char>) -> Option<Seq<char>> {
    let names = path_names(text::split(path, '/'));
    if names.len() == 0 || names.last() == ".."@ {
        None
    } else {
        Some(names.last())
    }
}

proof fn lemma_last_name(l: Seq<Seq<char>>, n: int)
    requires
        0 <= n <= l.len(),
        forall|i: int| n <= i < l.len() ==> (#[trigger] l[i]).len() == 0 || l[i] == "."@,
    ensures
        path_names(l) == path_names(l.take(n)),
    decreases l.len() - n,
{
    if n < l.len() {
        assert(l[l.len() - 1].len() == 0 || l[l.len() - 1] == "."@);
        lemma_last_name(l.drop_last(), n);
        assert(l.drop_last().take(n) =~= l.take(n));
    } else {
        assert(l.take(n) =~= l);
    }
}

fn file_name_of(path: &str) -> (r: Option<String>)
    ensures
        text::opt_text(r) == file_name(path@),
{
    let chars = text::chars_of(path);
    let parts = text::split_at_char(chars.as_slice(), '/');
    let ghost l = text::split(path@, '/');
    let mut n: usize = parts.len();
    assert(text::pieces(parts@).len() == parts@.len());
    while n > 0 && (parts[n - 1].len() == 0 || text::is_text(parts[n - 1].as_slice(), "."))
        invariant
            n <= parts@.len(),
            text::pieces(parts@) == l,
            forall|i: int| n <= i < l.len() ==> (#[trigger] l[i]).len() == 0 || l[i] == "."@,
        decreases n,
    {
        assert(l[n - 1] == parts@[n - 1]@);
        n = n - 1;
    }
    proof {
        lemma_last_name(l, n as int);
    }
    if n == 0 {
        assert(l.take(0) =~= seq![]);
        return None;
    }
    assert(l[n - 1] == parts@[n - 1]@);
    assert(l.take(n as int).last() == l[n - 1]);
    if text::is_text(parts[n - 1].as_slice(), "..") {
        None
    } else {
        Some(text::string_of(parts[n - 1].as_slice()))
    }
}

/// Suggests a name for the branch of a worktree after its path.
pub fn default_branch_name_from_path(path: &str) -> (r: Option<String>)
    ensures
        text::opt_text(r) == match file_name(path@) {
            Some(n) => suggestion(n),
            None => None,
        },
{
    match file_name_of(path) {
        Some(n) => sanitize_branch_name_suggestion(n.as_str()),
        None => None,
    }
}

// ---------------------------------------------------------------------------
// Branches
// ---------------------------------------------------------------------------

/// Whether a worktree has a branch checked out.
pub open spec fn occupied(worktrees: Seq<Worktree>, branch: Seq<char>) -> bool {
    exists|i: int|
        0 <= i < worktrees.len() && text::trim((#[trigger] worktrees[i]).branch@) == branch
            && branch != "(detached)"@
}

/// Whether a branch can be given to a new worktree.
pub open spec fn available(b: Branch, worktrees: Seq<Worktree>) -> bool {
    text::trim(b.name@).len() > 0 && !occupied(worktrees, text::trim(b.name@))
}

/// An item whose value is what it shows.
pub open spec fn named_entry(name: Seq<char>, category: Seq<char>) -> PickerEntry {
    PickerEntry { value: name, label: name, category }
}

/// The items for the branches, among the first `n`, that a new worktree can be given.
pub open spec fn branch_entries(branches: Seq<Branch>, worktrees: Seq<Worktree>, n: int) -> Seq<
    PickerEntry,
>
    decreases n,
{
    if n <= 0 {
        seq![]
    } else if available(branches[n - 1], worktrees) {
        branch_entries(branches, worktrees, n - 1).push(
            named_entry(text::trim(branches[n - 1].name@), "Local Branches"@),
        )
    } else {
        branch_entries(branches, worktrees, n - 1)
    }
}

fn is_occupied(worktrees: &Vec<Worktree>, branch: &str) -> (r: bool)
    ensures
        r == occupied(worktrees@, branch@),
{
    if text::same_str(branch, "(detached)") {
        return false;
    }
    let mut i: usize = 0;
    while i < worktrees.len()
        invariant
            i <= worktrees@.len(),
            branch@ != "(detached)"@,
            forall|j: int|
                0 <= j < i ==> text::trim((#[trigger] worktrees@[j]).branch@) != branch@,
        decreases worktrees@.len() - i,
    {
        let there = text::trim_str(worktrees[i].branch.as_str());
        if text::same_str(there.as_str(), branch) {
            assert(text::trim(worktrees@[i as int].branch@) == branch@);
            return true;
        }
        i = i + 1;
    }
    false
}

fn push_named(items: &mut Vec<ListPickerItem>, name: String, category: &str)
    ensures
        picker::entries(final(items)@) == picker::entries(old(items)@).push(
            named_entry(name@, category@),
        ),
{
    let ghost before = items@;
    items.push(
        ListPickerItem { value: name.clone(), label: name, category: category.to_string() },
    );
    assert(picker::entries(items@) =~= picker::entries(before).push(
        named_entry(name@, category@),
    ));
}

/// The branches that a new worktree can be given: those that no worktree has checked
/// out.
pub fn existing_local_branch_items(branches: &Vec<Branch>, worktrees: &Vec<Worktree>) -> (r: Vec<
    ListPickerItem,
>)
    ensures
        picker::entries(r@) == branch_entries(branches@, worktrees@, branches@.len() as int),
{
    let mut r: Vec<ListPickerItem> = Vec::new();
    let mut i: usize = 0;
    assert(picker::entries(r@) =~= seq![]);
    while i < branches.len()
        invariant
            i <= branches@.len(),
            picker::entries(r@) == branch_entries(branches@, worktrees@, i as int),
        decreases branches@.len() - i,
    {
        let name = text::trim_str(branches[i].name.as_str());
        if !text::is_empty_str(name.as_str()) && !is_occupied(worktrees, name.as_str()) {
            push_named(&mut r, name, "Local Branches");
        }
        i = i + 1;
    }
    r
}

/// Whether a branch is one of the values in a list, spaces around it aside.
pub open spec fn is_listed(branch: Seq<char>, e: Seq<PickerEntry>) -> bool {
    text::trim(branch).len() > 0 && exists|i: int|
        0 <= i < e.len() && (#[trigger] e[i]).value == text::trim(branch)
}

/// Tells whether a branch is one of those in a list.
pub fn is_allowed_existing_local_branch(branch: &str, items: &Vec<ListPickerItem>) -> (r: bool)
    ensures
        r == is_listed(branch@, picker::entries(items@)),
{
    let trimmed = text::trim_str(branch);
    if text::is_empty_str(trimmed.as_str()) {
        return false;
    }
    let ghost e = picker::entries(items@);
    let mut i: usize = 0;
    while i < items.len()
        invariant
            i <= items@.len(),
            e == picker::entries(items@),
            trimmed@ == text::trim(branch@),
            trimmed@.len() > 0,
            forall|j: int| 0 <= j < i ==> (#[trigger] e[j]).value != trimmed@,
        decreases items@.len() - i,
    {
        assert(e[i as int] == items@[i as int]@);
        if text::same_str(items[i].value.as_str(), trimmed.as_str()) {
            assert(e[i as int].value == trimmed@);
            return true;
        }
        i = i + 1;
    }
    false
}

// ---------------------------------------------------------------------------
// References
// ---------------------------------------------------------------------------

/// The items for branches, without the one that is checked out.
pub open spec fn other_branches(branches: Seq<Branch>, skip_head: bool, n: int) -> Seq<PickerEntry>
    decreases n,
{
    if n <= 0 {
        seq![]
    } else if skip_head && branches[n - 1].head {
        other_branches(branches, skip_head, n - 1)
    } else {
        other_branches(branches, skip_head, n - 1).push(
            named_entry(branches[n - 1].name@, "Branches"@),
        )
    }
}

/// The items for the first `n` branches of a remote.
pub open spec fn branches_of_remote(r: Remote, n: int) -> Seq<PickerEntry>
    decreases n,
{
    if n <= 0 {
        seq![]
    } else {
        branches_of_remote(r, n - 1).push(
            named_entry(r.name@ + "/"@ + r.branches@[n - 1].name@, "Remote Branches"@),
        )
    }
}

/// The items for the branches of the first `n` remotes.
pub open spec fn remote_branches(remotes: Seq<Remote>, n: int) -> Seq<PickerEntry>
    decreases n,
{
    if n <= 0 {
        seq![]
    } else {
        remote_branches(remotes, n - 1) + branches_of_remote(
            remotes[n - 1],
            remotes[n - 1].branches@.len() as int,
        )
    }
}

/// The items for tags.
pub open spec fn tag_entries(tags: Seq<Tag>) -> Seq<PickerEntry> {
    Seq::new(tags.len(), |i: int| named_entry(tags[i].name@, "Tags"@))
}

/// The items for commits: by their hashes, with the short hash and the subject on
/// show.
pub open spec fn commit_entries(commits: Seq<Commit>) -> Seq<PickerEntry> {
    Seq::new(
        commits.len(),
        |i: int|
            PickerEntry {
                value: commits[i].hash@,
                label: text::short_hash(commits[i].hash@) + " "@ + commits[i].name@,
                category: "Commits"@,
            },
    )
}

/// Whether the hashes of all commits can be cut short.
pub open spec fn hashes_can_be_shortened(commits: Seq<Commit>) -> bool {
    forall|i: int| 0 <= i < commits.len() ==> text::can_shorten((#[trigger] commits[i]).hash@)
}

/// Adds the items for branches, those of remotes, and tags.
pub fn push_refs(items: &mut Vec<ListPickerItem>, m: &Model, skip_head: bool)
    ensures
        picker::entries(final(items)@) == picker::entries(old(items)@) + other_branches(
            m.branches@,
            skip_head,
            m.branches@.len() as int,
        ) + remote_branches(m.remotes@, m.remotes@.len() as int) + tag_entries(m.tags@),
{
    let ghost start = picker::entries(items@);
    let mut i: usize = 0;
    assert(start + other_branches(m.branches@, skip_head, 0) =~= start);
    while i < m.branches.len()
        invariant
            i <= m.branches@.len(),
            picker::entries(items@) == start + other_branches(m.branches@, skip_head, i as int),
        decreases m.branches@.len() - i,
    {
        if !(skip_head && m.branches[i].head) {
            push_named(items, m.branches[i].name.clone(), "Branches");
            assert(picker::entries(items@) =~= start + other_branches(
                m.branches@,
                skip_head,
                i as int + 1,
            ));
        }
        i = i + 1;
    }
    let ghost with_branches = picker::entries(items@);
    let mut k: usize = 0;
    assert(with_branches + remote_branches(m.remotes@, 0) =~= with_branches);
    while k < m.remotes.len()
        invariant
            k <= m.remotes@.len(),
            picker::entries(items@) == with_branches + remote_branches(m.remotes@, k as int),
        decreases m.remotes@.len() - k,
    {
        let ghost sofar = picker::entries(items@);
        let remote = &m.remotes[k];
        let mut j: usize = 0;
        assert(sofar + branches_of_remote(*remote, 0) =~= sofar);
        while j < remote.branches.len()
            invariant
                j <= remote.branches@.len(),
                picker::entries(items@) == sofar + branches_of_remote(*remote, j as int),
            decreases remote.branches@.len() - j,
        {
            let mut full = remote.name.clone();
            full.append("/");
            full.append(remote.branches[j].name.as_str());
            push_named(items, full, "Remote Branches");
            assert(picker::entries(items@) =~= sofar + branches_of_remote(*remote, j as int + 1));
            j = j + 1;
        }
        assert(picker::entries(items@) =~= with_branches + remote_branches(
            m.remotes@,
            k as int + 1,
        ));
        k = k + 1;
    }
    let ghost with_remotes = picker::entries(items@);
    let mut t: usize = 0;
    assert(with_remotes + tag_entries(m.tags@).take(0) =~= with_remotes);
    while t < m.tags.len()
        invariant
            t <= m.tags@.len(),
            picker::entries(items@) == with_remotes + tag_entries(m.tags@).take(t as int),
        decreases m.tags@.len() - t,
    {
        push_named(items, m.tags[t].name.clone(), "Tags");
        assert(picker::entries(items@) =~= with_remotes + tag_entries(m.tags@).take(t as int + 1));
        t = t + 1;
    }
    assert(tag_entries(m.tags@).take(t as int) =~= tag_entries(m.tags@));
}

/// Adds the items for commits from an index on.
pub fn push_commits(items: &mut Vec<ListPickerItem>, commits: &Vec<Commit>, from: usize)
    requires
        hashes_can_be_shortened(commits@),
        from <= commits@.len(),
    ensures
        picker::entries(final(items)@) == picker::entries(old(items)@) + commit_entries(
            commits@,
        ).skip(from as int),
{
    let ghost start = picker::entries(items@);
    let ghost all = commit_entries(commits@);
    let mut i: usize = from;
    assert(start + all.subrange(from as int, from as int) =~= start);
    while i < commits.len()
        invariant
            from <= i <= commits@.len(),
            hashes_can_be_shortened(commits@),
            all == commit_entries(commits@),
            picker::entries(items@) == start + all.subrange(from as int, i as int),
        decreases commits@.len() - i,
    {
        let ghost before = items@;
        let mut label = text::short_hash_of(commits[i].hash.as_str());
        label.append(" ");
        label.append(commits[i].name.as_str());
        items.push(
            ListPickerItem {
                value: commits[i].hash.clone(),
                label,
                category: "Commits".to_string(),
            },
        );
        assert(picker::entries(items@) =~= picker::entries(before).push(all[i as int]));
        assert(picker::entries(items@) =~= start + all.subrange(from as int, i as int + 1));
        i = i + 1;
    }
    assert(all.subrange(from as int, all.len() as int) =~= all.skip(from as int));
}

/// The item for where one is: the branch that is checked out, or else the commit.
/// Its value is empty, which stands for just that.
pub open spec fn current_entry(m: Model) -> Seq<PickerEntry> {
    if text::trim(m.head_branch_name@).len() > 0 {
        seq![
            PickerEntry {
                value: seq![],
                label: m.head_branch_name@ + " (current, default)"@,
                category: "Current Branch"@,
            },
        ]
    } else if text::trim(m.head_hash@).len() > 0 {
        seq![
            PickerEntry {
                value: seq![],
                label: m.head_hash@ + " (current HEAD, default)"@,
                category: "Current HEAD"@,
            },
        ]
    } else {
        seq![]
    }
}

/// What the new branch of a worktree can start from.
pub open spec fn base_entries(m: Model) -> Seq<PickerEntry> {
    current_entry(m) + other_branches(m.branches@, true, m.branches@.len() as int)
        + remote_branches(m.remotes@, m.remotes@.len() as int) + tag_entries(m.tags@)
        + commit_entries(m.commits@)
}

/// What the new branch of a worktree can start from.
pub fn worktree_base_ref_items(m: &Model) -> (r: Vec<ListPickerItem>)
    requires
        hashes_can_be_shortened(m.commits@),
    ensures
        picker::entries(r@) == base_entries(*m),
{
    let mut items: Vec<ListPickerItem> = Vec::new();
    let branch = text::trim_str(m.head_branch_name.as_str());
    let hash = text::trim_str(m.head_hash.as_str());
    let nothing = String::new();
    assert(nothing@ =~= seq![]);
    assert(picker::entries(items@) =~= seq![]);
    if !text::is_empty_str(branch.as_str()) {
        let mut label = m.head_branch_name.clone();
        label.append(" (current, default)");
        items.push(
            ListPickerItem { value: nothing, label, category: "Current Branch".to_string() },
        );
    } else if !text::is_empty_str(hash.as_str()) {
        let mut label = m.head_hash.clone();
        label.append(" (current HEAD, default)");
        items.push(
            ListPickerItem { value: nothing, label, category: "Current HEAD".to_string() },
        );
    }
    assert(picker::entries(items@) =~= current_entry(*m));
    push_refs(&mut items, m, true);
    push_commits(&mut items, &m.commits, 0);
    assert(commit_entries(m.commits@).skip(0) =~= commit_entries(m.commits@));
    items
}

// ---------------------------------------------------------------------------
// Windows
// ---------------------------------------------------------------------------

/// Whether a question is the one before a worktree is gone to or removed.
pub open spec fn asks_about(
    c: ConfirmPopup,
    title: Seq<char>,
    start: Seq<char>,
    end: Seq<char>,
    w: Worktree,
) -> bool {
    c.title@ == title && c.message@ == start + w.branch@ + "' ("@ + w.path@ + end
}

fn ask_about(title: &str, start: &str, end: &str, w: &Worktree, on_confirm: Action) -> (r:
    ConfirmPopup)
    ensures
        asks_about(r, title@, start@, end@, *w),
        r.on_confirm == on_confirm,
{
    let mut message = start.to_string();
    message.append(w.branch.as_str());
    message.append("' (");
    message.append(w.path.as_str());
    message.append(end);
    ConfirmPopup { title: title.to_string(), message, on_confirm }
}

/// Asks whether to go to the selected worktree; not for the one that is open.
pub fn switch_worktree(worktrees: &Vec<Worktree>, selected: usize) -> (r: Option<ConfirmPopup>)
    ensures
        if selected < worktrees@.len() && !worktrees@[selected as int].is_current {
            r is Some && asks_about(
                r->0,
                "Switch worktree"@,
                "Open lazygitrs in worktree '"@,
                ")?\nThis will launch a new instance."@,
                worktrees@[selected as int],
            ) && (r->0.on_confirm matches Action::OpenInstance { path } && path@
                == worktrees@[selected as int].path@)
        } else {
            r is None
        },
{
    if selected >= worktrees.len() || worktrees[selected].is_current {
        return None;
    }
    let w = &worktrees[selected];
    Some(
        ask_about(
            "Switch worktree",
            "Open lazygitrs in worktree '",
            ")?\nThis will launch a new instance.",
            w,
            Action::OpenInstance { path: w.path.clone() },
        ),
    )
}

/// Asks whether to remove the selected worktree; not for the one that is open, nor
/// for the main one.
pub fn remove_worktree(worktrees: &Vec<Worktree>, selected: usize) -> (r: Option<ConfirmPopup>)
    ensures
        if selected < worktrees@.len() && !worktrees@[selected as int].is_current
            && !worktrees@[selected as int].is_main {
            r is Some && asks_about(
                r->0,
                "Remove worktree"@,
                "Remove worktree '"@,
                ")?\nThis won't delete the branch."@,
                worktrees@[selected as int],
            ) && (r->0.on_confirm matches Action::RemoveWorktree { path } && path@
                == worktrees@[selected as int].path@)
        } else {
            r is None
        },
{
    if selected >= worktrees.len() || worktrees[selected].is_current
        || worktrees[selected].is_main {
        return None;
    }
    let w = &worktrees[selected];
    Some(
        ask_about(
            "Remove worktree",
            "Remove worktree '",
            ")?\nThis won't delete the branch.",
            w,
            Action::RemoveWorktree { path: w.path.clone() },
        ),
    )
}

/// Whether a window asks for one line.
pub open spec fn asks_line(p: InputPopup, title: Seq<char>) -> bool {
    p.title@ == title && !p.is_commit && !p.confirm_focused
}

/// Asks for the path of a new worktree.
pub fn prompt_worktree_path() -> (r: InputPopup)
    ensures
        asks_line(r, "New worktree path"@),
        input::holds(r.textarea, seq![]),
        r.on_confirm is WorktreePath,
{
    InputPopup {
        title: "New worktree path".to_string(),
        textarea: TextField::new(),
        is_commit: false,
        confirm_focused: false,
        on_confirm: Action::WorktreePath,
    }
}

/// The branch that is suggested for a worktree at a path: nothing where its last part
/// gives no name.
pub open spec fn suggested_branch(path: Seq<char>) -> Seq<char> {
    match file_name(path) {
        Some(n) => match suggestion(n) {
            Some(s) => s,
            None => seq![],
        },
        None => seq![],
    }
}

/// Asks for the name of a new branch for a worktree, and suggests one after its path.
pub fn prompt_worktree_branch(path: String) -> (r: InputPopup)
    ensures
        asks_line(r, "New worktree branch"@),
        input::holds(r.textarea, suggested_branch(path@)),
        r.on_confirm == (Action::WorktreeBranch { path }),
{
    let start = match default_branch_name_from_path(path.as_str()) {
        Some(s) => s,
        None => {
            let s = String::new();
            assert(s@ =~= seq![]);
            s
        },
    };
    InputPopup {
        title: "New worktree branch".to_string(),
        textarea: TextField::with_text(start.as_str()),
        is_commit: false,
        confirm_focused: false,
        on_confirm: Action::WorktreeBranch { path },
    }
}

/// Whether a menu offers a branch that exists and a new one.
pub open spec fn offers_branches(m: Menu, path: Seq<char>) -> bool {
    &&& m.title@ == "Create worktree"@
    &&& m.selected == 0
    &&& m.loading_index is None
    &&& m.items@.len() == 2
    &&& m.items@[0].label@ == "Existing local branch"@
    &&& m.items@[0].description@ == "Create a worktree from an available local branch"@
    &&& text::opt_text(m.items@[0].key) == Some("e"@)
    &&& m.items@[0].action matches Some(Action::WorktreePickBranch { path: p }) && p@ == path
    &&& m.items@[1].label@ == "New branch"@
    &&& m.items@[1].description@ == "Create a new branch for the worktree"@
    &&& text::opt_text(m.items@[1].key) == Some("n"@)
    &&& m.items@[1].action matches Some(Action::WorktreeAskBranch { path: p2 }) && p2@ == path
}

/// Asks how the branch of a new worktree is got: where none is available there is
/// only a new one.
pub fn prompt_worktree_creation_mode(m: &Model, path: String) -> (r: PopupState)
    ensures
        if branch_entries(m.branches@, m.worktrees@, m.branches@.len() as int).len() == 0 {
            r matches PopupState::Input(p) && asks_line(p, "New worktree branch"@)
                && input::holds(p.textarea, suggested_branch(path@)) && p.on_confirm == (
            Action::WorktreeBranch { path })
        } else {
            r matches PopupState::Menu(menu) && offers_branches(menu, path@)
        },
{
    let available = existing_local_branch_items(&m.branches, &m.worktrees);
    assert(picker::entries(available@).len() == available@.len());
    if available.len() == 0 {
        return PopupState::Input(prompt_worktree_branch(path));
    }
    let mut items: Vec<MenuItem> = Vec::new();
    items.push(
        MenuItem {
            label: "Existing local branch".to_string(),
            description: "Create a worktree from an available local branch".to_string(),
            key: Some("e".to_string()),
            action: Some(Action::WorktreePickBranch { path: path.clone() }),
        },
    );
    items.push(
        MenuItem {
            label: "New branch".to_string(),
            description: "Create a new branch for the worktree".to_string(),
            key: Some("n".to_string()),
            action: Some(Action::WorktreeAskBranch { path }),
        },
    );
    PopupState::Menu(Menu::new("Create worktree".to_string(), items))
}

/// What follows a path that was typed for a new worktree: an empty one is asked for
/// again.
pub fn after_worktree_path(m: &Model, typed: &str) -> (r: PopupState)
    ensures
        ({
            let path = input_normalization::dashed(typed@);
            if path.len() == 0 {
                r matches PopupState::Input(p) && asks_line(p, "New worktree path"@)
                    && input::holds(p.textarea, seq![]) && p.on_confirm is WorktreePath
            } else if branch_entries(m.branches@, m.worktrees@, m.branches@.len() as int).len()
                == 0 {
                r matches PopupState::Input(p) && asks_line(p, "New worktree branch"@)
                    && input::holds(p.textarea, suggested_branch(path)) && (
                p.on_confirm matches Action::WorktreeBranch { path: p2 } && p2@ == path)
            } else {
                r matches PopupState::Menu(menu) && offers_branches(menu, path)
            }
        }),
{
    let path = replace_spaces_with_dashes(typed);
    if text::is_empty_str(path.as_str()) {
        PopupState::Input(prompt_worktree_path())
    } else {
        prompt_worktree_creation_mode(m, path)
    }
}

/// Asks for the branch of a new worktree.
pub fn prompt_worktree_existing_branch(m: &Model, path: String) -> (r: RefPicker)
    ensures
        r.title@ == "Existing local branch for worktree"@,
        picker::entries(r.core.items@) == branch_entries(
            m.branches@,
            m.worktrees@,
            m.branches@.len() as int,
        ),
        r.core.selected == 0,
        r.core.scroll_offset == 0,
        input::holds(r.core.search_textarea, seq![]),
        !r.allow_freeform,
        r.on_confirm == (Action::WorktreeExisting { path }),
{
    let items = existing_local_branch_items(&m.branches, &m.worktrees);
    RefPicker {
        title: "Existing local branch for worktree".to_string(),
        core: pickers::fresh_core(items, 0),
        allow_freeform: false,
        on_confirm: Action::WorktreeExisting { path },
    }
}

/// Whether a branch that was picked may be used: it has to be in the list still. What
/// is told otherwise.
pub fn check_existing_branch(m: &Model, branch: &str) -> (r: Result<(), String>)
    ensures
        is_listed(
            branch@,
            branch_entries(m.branches@, m.worktrees@, m.branches@.len() as int),
        ) ==> r is Ok,
        !is_listed(
            branch@,
            branch_entries(m.branches@, m.worktrees@, m.branches@.len() as int),
        ) ==> (r matches Err(e) && e@ == "Select an existing local branch from the list"@),
{
    let items = existing_local_branch_items(&m.branches, &m.worktrees);
    if is_allowed_existing_local_branch(branch, &items) {
        Ok(())
    } else {
        Err("Select an existing local branch from the list".to_string())
    }
}

/// Asks what the new branch of a worktree starts from.
pub fn prompt_worktree_base_ref(m: &Model, path: String, branch: String) -> (r: RefPicker)
    requires
        hashes_can_be_shortened(m.commits@),
    ensures
        r.title@ == "Base ref for worktree"@,
        picker::entries(r.core.items@) == base_entries(*m),
        r.core.selected == 0,
        r.core.scroll_offset == 0,
        input::holds(r.core.search_textarea, seq![]),
        r.allow_freeform,
        r.on_confirm == (Action::WorktreeBase { path, branch }),
{
    let items = worktree_base_ref_items(m);
    RefPicker {
        title: "Base ref for worktree".to_string(),
        core: pickers::fresh_core(items, 0),
        allow_freeform: true,
        on_confirm: Action::WorktreeBase { path, branch },
    }
}

/// What follows a name that was typed for the branch of a worktree: an empty one is
/// asked for again.
pub fn after_worktree_branch(m: &Model, path: String, typed: &str) -> (r: PopupState)
    requires
        hashes_can_be_shortened(m.commits@),
    ensures
        ({
            let branch = input_normalization::dashed(typed@);
            if branch.len() == 0 {
                r matches PopupState::Input(p) && asks_line(p, "New worktree branch"@)
                    && input::holds(p.textarea, suggested_branch(path@)) && p.on_confirm == (
                Action::WorktreeBranch { path })
            } else {
                r matches PopupState::RefPicker(p) && p.title@ == "Base ref for worktree"@
                    && picker::entries(p.core.items@) == base_entries(*m) && p.core.selected == 0
                    && p.core.scroll_offset == 0 && input::holds(p.core.search_textarea, seq![])
                    && p.allow_freeform && (p.on_confirm matches Action::WorktreeBase {
                    path: p2,
                    branch: b,
                } && p2 == path && b@ == branch)
            }
        }),
{
    let branch = replace_spaces_with_dashes(typed);
    if text::is_empty_str(branch.as_str()) {
        PopupState::Input(prompt_worktree_branch(path))
    } else {
        PopupState::RefPicker(prompt_worktree_base_ref(m, path, branch))
    }
}

/// What a key does in the list of worktrees.
#[derive(Debug, Clone, Copy, PartialEq, Eq, Structural)]
pub enum WorktreeKey {
    Switch,
    Create,
    Remove,
    Nothing,
}

/// Decides what a key does in the list of worktrees.
pub fn handle_key(key: KeyEvent) -> (r: WorktreeKey)
    ensures
        r == match key.code {
            KeyCode::Char(' ') => WorktreeKey::Switch,
            KeyCode::Char('n') => WorktreeKey::Create,
            KeyCode::Char('d') => WorktreeKey::Remove,
            _ => WorktreeKey::Nothing,
        },
{
    match key.code {
        KeyCode::Char(' ') => WorktreeKey::Switch,
        KeyCode::Char('n') => WorktreeKey::Create,
        KeyCode::Char('d') => WorktreeKey::Remove,
        _ => WorktreeKey::Nothing,
    }
}

// ---------------------------------------------------------------------------
// Laws
// ---------------------------------------------------------------------------

/// Whether every character may stand in a name, and no two dashes follow each other.
pub open spec fn well_named(s: Seq<char>) -> bool {
    &&& forall|i: int| 0 <= i < s.len() ==> is_name_char(#[trigger] s[i])
    &&& forall|i: int| 0 < i < s.len() && #[trigger] s[i] == '-' ==> s[i - 1] != '-'
}

proof fn lemma_dashed(s: Seq<char>)
    ensures
        well_named(dashed(s)),
    decreases s.len(),
{
    if s.len() > 0 {
        lemma_dashed(s.drop_last());
    }
}

proof fn lemma_edge_start(s: Seq<char>)
    requires
        well_named(s),
    ensures
        well_named(edge_start(s)),
        edge_start(s).len() > 0 ==> !is_edge(edge_start(s)[0]),
    decreases s.len(),
{
    if s.len() > 0 && is_edge(s[0]) {
        let t = s.skip(1);
        assert forall|i: int| 0 < i < t.len() && #[trigger] t[i] == '-' implies t[i - 1] != '-' by {
            assert(s[i + 1] == '-');
        }
        lemma_edge_start(t);
    }
}

proof fn lemma_edge_end(s: Seq<char>)
    requires
        well_named(s),
    ensures
        well_named(edge_end(s)),
        edge_end(s).len() > 0 ==> !is_edge(edge_end(s).last()) && edge_end(s)[0] == s[0],
    decreases s.len(),
{
    if s.len() > 0 && is_edge(s.last()) {
        lemma_edge_end(s.drop_last());
    }
}

/// A suggested name has letters, digits, dots, underscores and dashes only, no two
/// dashes follow each other, and it neither starts nor ends with a dash or a dot.
pub proof fn suggestions_are_clean(raw: Seq<char>)
    ensures
        suggestion(raw) matches Some(s) ==> well_named(s) && s.len() > 0 && !is_edge(s[0])
            && !is_edge(s.last()),
{
    let d = dashed(text::trim(raw));
    lemma_dashed(text::trim(raw));
    lemma_edge_start(d);
    lemma_edge_end(edge_start(d));
}

/// A well formed name that does not start with a dash has nothing to be dashed.
proof fn lemma_dashed_kept(s: Seq<char>)
    requires
        well_named(s),
        s.len() > 0 ==> s[0] != '-',
    ensures
        dashed(s) == s,
    decreases s.len(),
{
    if s.len() > 0 {
        let t = s.drop_last();
        assert forall|i: int| 0 < i < t.len() && #[trigger] t[i] == '-' implies t[i - 1] != '-' by {
            assert(s[i] == '-');
        }
        lemma_dashed_kept(t);
        let last = s[s.len() - 1];
        if t.len() > 0 && last == '-' {
            assert(t.last() == s[s.len() - 2]);
        }
        assert(t.push(last) =~= s);
    }
}

/// A suggested name is suggested as it is.
pub proof fn suggesting_twice_changes_nothing(raw: Seq<char>)
    ensures
        suggestion(raw) matches Some(s) ==> suggestion(s) == Some(s),
{
    if suggestion(raw) is Some {
        let s = suggestion(raw)->0;
        suggestions_are_clean(raw);
        assert(is_name_char(s[0]) && is_name_char(s[s.len() - 1]));
        assert(text::trim(s) == s);
        lemma_dashed_kept(s);
    }
}

/// Whether a character is kept in a suggested name wherever it stands: a letter, a digit
/// or an underscore.
pub open spec fn is_solid(c: char) -> bool {
    is_name_char(c) && !is_edge(c)
}

/// Whether a text holds a letter, a digit or an underscore.
pub open spec fn has_solid(s: Seq<char>) -> bool {
    exists|i: int| 0 <= i < s.len() && is_solid(#[trigger] s[i])
}

proof fn lemma_solid_push(s: Seq<char>, c: char)
    ensures
        has_solid(s.push(c)) == (has_solid(s) || is_solid(c)),
{
    let t = s.push(c);
    if has_solid(s) {
        let i = choose|i: int| 0 <= i < s.len() && is_solid(#[trigger] s[i]);
        assert(is_solid(t[i]));
    }
    if is_solid(c) {
        assert(is_solid(t[s.len() as int]));
    }
    if has_solid(t) {
        let i = choose|i: int| 0 <= i < t.len() && is_solid(#[trigger] t[i]);
        if i < s.len() {
            assert(is_solid(s[i]));
        }
    }
}

proof fn lemma_solid_skip(s: Seq<char>)
    requires
        s.len() > 0,
    ensures
        has_solid(s) == (is_solid(s[0]) || has_solid(s.skip(1))),
{
    let t = s.skip(1);
    if has_solid(s) {
        let i = choose|i: int| 0 <= i < s.len() && is_solid(#[trigger] s[i]);
        if i > 0 {
            assert(is_solid(t[i - 1]));
        }
    }
    if has_solid(t) {
        let i = choose|i: int| 0 <= i < t.len() && is_solid(#[trigger] t[i]);
        assert(is_solid(s[i + 1]));
    }
}

proof fn lemma_solid_last(s: Seq<char>)
    requires
        s.len() > 0,
    ensures
        has_solid(s) == (is_solid(s.last()) || has_solid(s.drop_last())),
{
    lemma_solid_push(s.drop_last(), s.last());
    assert(s.drop_last().push(s.last()) =~= s);
}

proof fn lemma_solid_trim_start(s: Seq<char>)
    ensures
        has_solid(text::trim_start(s)) == has_solid(s),
        has_solid(edge_start(s)) == has_solid(s),
    decreases s.len(),
{
    if s.len() > 0 {
        lemma_solid_skip(s);
        lemma_solid_trim_start(s.skip(1));
    }
}

proof fn lemma_solid_trim_end(s: Seq<char>)
    ensures
        has_solid(text::trim_end(s)) == has_solid(s),
        has_solid(edge_end(s)) == has_solid(s),
    decreases s.len(),
{
    if s.len() > 0 {
        lemma_solid_last(s);
        lemma_solid_trim_end(s.drop_last());
    }
}

proof fn lemma_solid_dashed(s: Seq<char>)
    ensures
        has_solid(dashed(s)) == has_solid(s),
    decreases s.len(),
{
    if s.len() > 0 {
        lemma_solid_last(s);
        lemma_solid_dashed(s.drop_last());
        let c = if is_name_char(s.last()) {
            s.last()
        } else {
            '-'
        };
        lemma_solid_push(dashed(s.drop_last()), c);
    }
}

/// A name is suggested exactly after a text that holds a letter, a digit or an
/// underscore.
pub proof fn a_name_is_suggested_where_something_is_left(raw: Seq<char>)
    ensures
        suggestion(raw) is Some <==> has_solid(raw),
{
    let t = text::trim(raw);
    let d = dashed(t);
    let s = edge_end(edge_start(d));
    lemma_solid_trim_start(raw);
    lemma_solid_trim_end(text::trim_start(raw));
    lemma_solid_dashed(t);
    lemma_solid_trim_start(d);
    lemma_solid_trim_end(edge_start(d));
    if s.len() > 0 {
        suggestions_are_clean(raw);
        assert(is_name_char(s[0]));
        assert(is_solid(s[0]));
    }
}

/// A branch that is offered for a new worktree is not checked out in any other.
pub proof fn offered_branches_are_free(branches: Seq<Branch>, worktrees: Seq<Worktree>, n: int, i: int)
    requires
        0 <= n <= branches.len(),
        0 <= i < branch_entries(branches, worktrees, n).len(),
    ensures
        !occupied(worktrees, branch_entries(branches, worktrees, n)[i].value),
        branch_entries(branches, worktrees, n)[i].value.len() > 0,
    decreases n,
{
    if n > 0 {
        let rest = branch_entries(branches, worktrees, n - 1);
        if i < rest.len() {
            offered_branches_are_free(branches, worktrees, n - 1, i);
        }
    }
}

/// A name that is clean already is suggested as it is.
pub proof fn a_clean_name_is_suggested(s: Seq<char>)
    requires
        well_named(s),
        s.len() > 0,
        !is_edge(s[0]),
        !is_edge(s.last()),
    ensures
        suggestion(s) == Some(s),
{
    lemma_name_is_no_space(s[0]);
    lemma_name_is_no_space(s.last());
    let none = Seq::<char>::empty();
    text::trimming_looks_inside(none, s, none);
    assert(none + s + none =~= s);
    lemma_dashed_kept(s);
    assert(edge_start(s) == s);
    assert(edge_end(s) == s);
}

proof fn lemma_name_is_no_space(c: char)
    ensures
        is_name_char(c) ==> !text::is_space(c),
{
    if is_name_char(c) {
        text::ascii_space(c);
    }
}

/// The letters, digits and underscores of a text are all in the name that is suggested after
/// it, in their order, and no others.
pub proof fn a_suggestion_keeps_the_letters(raw: Seq<char>)
    ensures
        suggestion(raw) matches Some(s) ==> s.filter(|c: char| is_solid(c)) == raw.filter(
            |c: char| is_solid(c),
        ),
{
    let t = text::trim(raw);
    lemma_keep_trim_start(raw);
    lemma_keep_trim_end(text::trim_start(raw));
    lemma_keep_dashed(t);
    lemma_keep_edge_start(dashed(t));
    lemma_keep_edge_end(edge_start(dashed(t)));
}

proof fn lemma_keep_first(s: Seq<char>)
    requires
        s.len() > 0,
        !is_solid(s[0]),
    ensures
        s.skip(1).filter(|c: char| is_solid(c)) == s.filter(|c: char| is_solid(c)),
{
    let p = |c: char| is_solid(c);
    let one = seq![s[0]];
    assert(s =~= one + s.skip(1));
    Seq::filter_distributes_over_add(one, s.skip(1), p);
    reveal_with_fuel(Seq::filter, 2);
    assert(one.drop_last() =~= Seq::<char>::empty());
    assert(!p(one.last()));
    assert(one.filter(p) =~= Seq::<char>::empty());
    assert(Seq::<char>::empty() + s.skip(1).filter(p) =~= s.skip(1).filter(p));
}

proof fn lemma_keep_last(s: Seq<char>)
    requires
        s.len() > 0,
    ensures
        s.filter(|c: char| is_solid(c)) == if is_solid(s.last()) {
            s.drop_last().filter(|c: char| is_solid(c)).push(s.last())
        } else {
            s.drop_last().filter(|c: char| is_solid(c))
        },
{
    reveal(Seq::filter);
}

proof fn lemma_keep_trim_start(s: Seq<char>)
    ensures
        text::trim_start(s).filter(|c: char| is_solid(c)) == s.filter(|c: char| is_solid(c)),
    decreases s.len(),
{
    if s.len() > 0 && text::is_space(s[0]) {
        lemma_name_is_no_space(s[0]);
        lemma_keep_first(s);
        lemma_keep_trim_start(s.skip(1));
    }
}

proof fn lemma_keep_trim_end(s: Seq<char>)
    ensures
        text::trim_end(s).filter(|c: char| is_solid(c)) == s.filter(|c: char| is_solid(c)),
    decreases s.len(),
{
    if s.len() > 0 && text::is_space(s.last()) {
        lemma_name_is_no_space(s.last());
        lemma_keep_last(s);
        lemma_keep_trim_end(s.drop_last());
    }
}

proof fn lemma_keep_edge_start(s: Seq<char>)
    ensures
        edge_start(s).filter(|c: char| is_solid(c)) == s.filter(|c: char| is_solid(c)),
    decreases s.len(),
{
    if s.len() > 0 && is_edge(s[0]) {
        lemma_keep_first(s);
        lemma_keep_edge_start(s.skip(1));
    }
}

proof fn lemma_keep_edge_end(s: Seq<char>)
    ensures
        edge_end(s).filter(|c: char| is_solid(c)) == s.filter(|c: char| is_solid(c)),
    decreases s.len(),
{
    if s.len() > 0 && is_edge(s.last()) {
        lemma_keep_last(s);
        lemma_keep_edge_end(s.drop_last());
    }
}

proof fn lemma_keep_dashed(s: Seq<char>)
    ensures
        dashed(s).filter(|c: char| is_solid(c)) == s.filter(|c: char| is_solid(c)),
    decreases s.len(),
{
    if s.len() > 0 {
        lemma_keep_dashed(s.drop_last());
        lemma_keep_last(s);
        let rest = dashed(s.drop_last());
        let c = if is_name_char(s.last()) {
            s.last()
        } else {
            '-'
        };
        lemma_keep_last(rest.push(c));
        assert(rest.push(c).drop_last() =~= rest);
    } else {
        assert(s =~= dashed(s));
    }
}

/// Two clean names with something between them that may not stand in a name, a space or a
/// slash, are joined by a dash.
pub proof fn words_are_joined_by_dashes(a: Seq<char>, c: char, b: Seq<char>)
    requires
        well_named(a) && well_named(b),
        a.len() > 0 && b.len() > 0,
        !is_edge(a[0]) && !is_edge(a.last()),
        !is_edge(b[0]) && !is_edge(b.last()),
        !is_name_char(c),
    ensures
        suggestion(a + seq![c] + b) == Some(a + seq!['-'] + b),
{
    let s = a + seq![c] + b;
    lemma_name_is_no_space(a[0]);
    lemma_name_is_no_space(b.last());
    let none = Seq::<char>::empty();
    text::trimming_looks_inside(none, s, none);
    assert(none + s + none =~= s);
    assert(s.last() == b.last());
    lemma_dashed_kept(a);
    let ac = a + seq![c];
    assert(ac.drop_last() =~= a);
    assert(dashed(ac) =~= a + seq!['-']);
    lemma_dashed_behind(ac, b, b.len() as int);
    assert(b.take(b.len() as int) =~= b);
    let r = a + seq!['-'] + b;
    assert(edge_start(r) == r);
    assert(r.last() == b.last());
    assert(edge_end(r) == r);
}

proof fn lemma_dashed_behind(front: Seq<char>, b: Seq<char>, n: int)
    requires
        0 <= n <= b.len(),
        well_named(b),
        b.len() > 0,
        !is_edge(b[0]),
        dashed(front).len() > 0,
    ensures
        dashed(front + b.take(n)) == dashed(front) + b.take(n),
    decreases n,
{
    if n > 0 {
        lemma_dashed_behind(front, b, n - 1);
        let s = front + b.take(n);
        assert(s.drop_last() =~= front + b.take(n - 1));
        assert(s.last() == b[n - 1]);
        assert(is_name_char(b[n - 1]));
        let rest = dashed(front) + b.take(n - 1);
        if b[n - 1] == '-' {
            assert(n > 1);
            assert(b[n - 2] != '-');
            assert(rest.last() == b[n - 2]);
        }
        assert(dashed(s) =~= dashed(front) + b.take(n));
    } else {
        assert(front + b.take(0) =~= front);
        assert(dashed(front) + b.take(0) =~= dashed(front));
    }
}

/// The file that a path names is what stands behind its last slash; slashes at the end do not
/// count, and a path that ends by leading up names none.
pub proof fn the_last_part_names_the_file(dir: Seq<char>, name: Seq<char>)
    requires
        !name.contains('/'),
    ensures
        name.len() > 0 && name != "."@ && name != ".."@ ==> file_name(dir + "/"@ + name) == Some(
            name,
        ) && file_name(name) == Some(name),
        file_name(dir + "/"@) == file_name(dir),
        file_name(dir + "/"@ + "."@) == file_name(dir),
        file_name(dir + "/"@ + ".."@) is None,
{
    reveal_strlit("/");
    reveal_strlit(".");
    reveal_strlit("..");
    let none = Seq::<char>::empty();
    assert("/"@ =~= seq!['/']);
    assert("."@.len() == 1 && ".."@.len() == 2);
    lemma_name_behind(dir, name);
    lemma_name_behind(dir, none);
    assert(!none.contains('/'));
    assert(dir + seq!['/'] + none =~= dir + seq!['/']);
    assert(!"."@.contains('/'));
    assert(!".."@.contains('/'));
    lemma_name_behind(dir, "."@);
    lemma_name_behind(dir, ".."@);
    text::splitting_goes_piece_by_piece(name, '/', none);
    assert(seq![name].drop_last() =~= Seq::<Seq<char>>::empty());
    reveal_with_fuel(path_names, 2);
}

proof fn lemma_name_behind(dir: Seq<char>, name: Seq<char>)
    requires
        !name.contains('/'),
    ensures
        path_names(text::split(dir + seq!['/'] + name, '/')) == if name.len() == 0 || name == "."@ {
            path_names(text::split(dir, '/'))
        } else {
            path_names(text::split(dir, '/')).push(name)
        },
{
    assert forall|j: int| 0 <= j < name.len() implies name[j] != '/' by {
        if name[j] == '/' {
            assert(name.contains('/'));
        }
    }
    text::lemma_split_behind(dir, '/', name, 0);
    let l = text::split(dir, '/');
    assert(l.push(name).drop_last() =~= l);
    assert(l.push(name).last() == name);
}

/// Every branch that can be given to a new worktree is offered, in order, by its name.
pub proof fn every_free_branch_is_offered(branches: Seq<Branch>, worktrees: Seq<Worktree>)
    ensures
        branch_entries(branches, worktrees, branches.len() as int) == branches.filter(
            |b: Branch| available(b, worktrees),
        ).map_values(
            |b: Branch|
                PickerEntry {
                    value: text::trim(b.name@),
                    label: text::trim(b.name@),
                    category: "Local Branches"@,
                },
        ),
    decreases branches.len(),
{
    reveal(Seq::filter);
    let f = |b: Branch|
        PickerEntry {
            value: text::trim(b.name@),
            label: text::trim(b.name@),
            category: "Local Branches"@,
        };
    let p = |b: Branch| available(b, worktrees);
    if branches.len() > 0 {
        let d = branches.drop_last();
        every_free_branch_is_offered(d, worktrees);
        lemma_entries_same(branches, d, worktrees, d.len() as int);
        let x = branches.last();
        if p(x) {
            assert(branches.filter(p).map_values(f) =~= d.filter(p).map_values(f).push(f(x)));
        } else {
            assert(branches.filter(p).map_values(f) =~= d.filter(p).map_values(f));
        }
    } else {
        assert(branches.filter(p).map_values(f) =~= seq![]);
    }
}

proof fn lemma_entries_same(a: Seq<Branch>, b: Seq<Branch>, worktrees: Seq<Worktree>, n: int)
    requires
        0 <= n <= b.len() <= a.len(),
        forall|i: int| 0 <= i < b.len() ==> a[i] == #[trigger] b[i],
    ensures
        branch_entries(a, worktrees, n) == branch_entries(b, worktrees, n),
        other_branches(a, true, n) == other_branches(b, true, n),
        other_branches(a, false, n) == other_branches(b, false, n),
    decreases n,
{
    if n > 0 {
        lemma_entries_same(a, b, worktrees, n - 1);
        assert(a[n - 1] == b[n - 1]);
    }
}

/// The branches are listed in order by their names, the one that is checked out left out only
/// where it is asked for.
pub proof fn branches_are_listed_in_order(branches: Seq<Branch>, skip_head: bool)
    ensures
        other_branches(branches, skip_head, branches.len() as int) == branches.filter(
            |b: Branch| !(skip_head && b.head),
        ).map_values(
            |b: Branch|
                PickerEntry { value: b.name@, label: b.name@, category: "Branches"@ },
        ),
    decreases branches.len(),
{
    reveal(Seq::filter);
    let f = |b: Branch| PickerEntry { value: b.name@, label: b.name@, category: "Branches"@ };
    let p = |b: Branch| !(skip_head && b.head);
    if branches.len() > 0 {
        let d = branches.drop_last();
        branches_are_listed_in_order(d, skip_head);
        lemma_entries_same(branches, d, Seq::empty(), d.len() as int);
        let x = branches.last();
        if p(x) {
            assert(branches.filter(p).map_values(f) =~= d.filter(p).map_values(f).push(f(x)));
        } else {
            assert(branches.filter(p).map_values(f) =~= d.filter(p).map_values(f));
        }
    } else {
        assert(branches.filter(p).map_values(f) =~= seq![]);
    }
}

/// The branches of a remote are listed under its name and theirs, those of one remote behind
/// those of the one before.
pub proof fn remote_branches_have_two_names(remotes: Seq<Remote>, n: int, r: Remote, k: int)
    requires
        0 <= n < remotes.len(),
        remotes[n] == r,
        0 <= k < r.branches@.len(),
    ensures
        ({
            let at = remote_branches(remotes, n).len() + k;
            let all = remote_branches(remotes, n + 1);
            &&& all.len() == remote_branches(remotes, n).len() + r.branches@.len()
            &&& all[at as int].value == r.name@ + "/"@ + r.branches@[k].name@
            &&& all[at as int].label == r.name@ + "/"@ + r.branches@[k].name@
            &&& remote_branches(remotes, n).is_prefix_of(all)
        }),
{
    lemma_branches_of_remote(r, r.branches@.len() as int);
    let before = remote_branches(remotes, n);
    let all = remote_branches(remotes, n + 1);
    assert(before =~= all.subrange(0, before.len() as int));
}

proof fn lemma_branches_of_remote(r: Remote, n: int)
    requires
        0 <= n <= r.branches@.len(),
    ensures
        branches_of_remote(r, n).len() == n,
        forall|k: int|
            0 <= k < n ==> (#[trigger] branches_of_remote(r, n)[k]) == named_entry(
                r.name@ + "/"@ + r.branches@[k].name@,
                "Remote Branches"@,
            ),
    decreases n,
{
    if n > 0 {
        lemma_branches_of_remote(r, n - 1);
    }
}

/// A new branch can start from where one is, which comes first and is the default, from any
/// other branch, a branch of a remote, a tag or a commit, in that order.
pub proof fn a_new_branch_can_start_anywhere(m: Model)
    ensures
        base_entries(m) == current_entry(m) + other_branches(
            m.branches@,
            true,
            m.branches@.len() as int,
        ) + remote_branches(m.remotes@, m.remotes@.len() as int) + tag_entries(m.tags@)
            + commit_entries(m.commits@),
        text::trim(m.head_branch_name@).len() > 0 ==> base_entries(m)[0].value.len() == 0
            && base_entries(m)[0].label == m.head_branch_name@ + " (current, default)"@,
        text::trim(m.head_branch_name@).len() == 0 && text::trim(m.head_hash@).len() > 0
            ==> base_entries(m)[0].value.len() == 0 && base_entries(m)[0].label == m.head_hash@
            + " (current HEAD, default)"@,
        forall|i: int|
            0 <= i < m.commits@.len() ==> (#[trigger] commit_entries(m.commits@)[i]).value
                == m.commits@[i].hash@ && commit_entries(m.commits@)[i].label == text::short_hash(
                m.commits@[i].hash@,
            ) + " "@ + m.commits@[i].name@,
        forall|i: int|
            0 <= i < m.tags@.len() ==> (#[trigger] tag_entries(m.tags@)[i]).value
                == m.tags@[i].name@,
{
}

} // verus!
