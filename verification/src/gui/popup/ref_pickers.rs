//! The lists that the program opens itself: references, themes and repositories.

use super::input;
use super::keys::{PopupState, Popups};
use super::menu::{Menu, MenuItem};
use super::pickers;
use super::pickers::{RefPicker, ThemePicker};
use super::Action;
use crate::gui::controller::worktrees;
use crate::gui::picker;
use crate::gui::picker::{ListPickerItem, PickerEntry};
use crate::model::Model;
use vstd::prelude::*;

verus! {

/// The references to rebase onto or to reset to: branches, those of remotes, tags, and
/// the commits below the newest, on which neither would do anything.
pub open spec fn reset_rebase_entries(m: Model, skip_head: bool) -> Seq<PickerEntry> {
    worktrees::other_branches(m.branches@, skip_head, m.branches@.len() as int)
        + worktrees::remote_branches(m.remotes@, m.remotes@.len() as int)
        + worktrees::tag_entries(m.tags@) + (if m.commits@.len() > 0 {
        worktrees::commit_entries(m.commits@).skip(1)
    } else {
        seq![]
    })
}

/// Lists the references to rebase onto or to reset to; the branch that is checked out is
/// left out where `skip_head` says so.
pub fn collect_reset_rebase_picker_items(m: &Model, skip_head: bool) -> (r: Vec<ListPickerItem>)
    requires
        worktrees::hashes_can_be_shortened(m.commits@),
    ensures
        picker::entries(r@) == reset_rebase_entries(*m, skip_head),
{
    let mut items: Vec<ListPickerItem> = Vec::new();
    assert(picker::entries(items@) =~= seq![]);
    worktrees::push_refs(&mut items, m, skip_head);
    if m.commits.len() > 0 {
        worktrees::push_commits(&mut items, &m.commits, 1);
    }
    assert(picker::entries(items@) =~= reset_rebase_entries(*m, skip_head));
    items
}

/// Whether a list of references was just opened.
pub open spec fn ref_list(p: PopupState, title: Seq<char>, entries: Seq<PickerEntry>, action: Action) -> bool {
    p matches PopupState::RefPicker(q) && q.title@ == title && picker::entries(q.core.items@)
        == entries && q.core.selected == 0 && q.core.scroll_offset == 0 && input::holds(
        q.core.search_textarea,
        seq![],
    ) && q.allow_freeform && q.on_confirm == action
}

/// Opens the list of what the current branch can be rebased onto. The branch itself is
/// not on it.
pub fn show_interactive_rebase_picker(popups: &mut Popups, m: &Model)
    requires
        worktrees::hashes_can_be_shortened(m.commits@),
    ensures
        *final(popups) == old(popups).with(final(popups).popup),
        ref_list(
            final(popups).popup,
            "Interactive rebase current branch onto"@,
            reset_rebase_entries(*m, true),
            Action::RebaseOnto,
        ),
{
    let items = collect_reset_rebase_picker_items(m, true);
    popups.popup = PopupState::RefPicker(
        RefPicker {
            title: "Interactive rebase current branch onto".to_string(),
            core: pickers::fresh_core(items, 0),
            allow_freeform: true,
            on_confirm: Action::RebaseOnto,
        },
    );
}

/// Opens the list of what the current branch can be reset to. The branch itself is on it,
/// by name.
pub fn show_reset_picker(popups: &mut Popups, m: &Model)
    requires
        worktrees::hashes_can_be_shortened(m.commits@),
    ensures
        *final(popups) == old(popups).with(final(popups).popup),
        ref_list(
            final(popups).popup,
            "Reset to:"@,
            reset_rebase_entries(*m, false),
            Action::ResetTo,
        ),
{
    let items = collect_reset_rebase_picker_items(m, false);
    popups.popup = PopupState::RefPicker(
        RefPicker {
            title: "Reset to:".to_string(),
            core: pickers::fresh_core(items, 0),
            allow_freeform: true,
            on_confirm: Action::ResetTo,
        },
    );
}

/// Opens the list of themes, given the id and the name of each, at the one on show.
pub fn show_theme_picker(popups: &mut Popups, themes: &Vec<(String, String)>)
    ensures
        *final(popups) == old(popups).with(final(popups).popup),
        final(popups).popup matches PopupState::ThemePicker(p) && p.core.selected == old(
            popups).current_theme && p.original_theme_index == old(popups).current_theme
            && p.core.scroll_offset == 0 && input::holds(p.core.search_textarea, seq![])
            && picker::entries(p.core.items@) == theme_entries(themes@),
{
    let mut items: Vec<ListPickerItem> = Vec::new();
    let ghost all = theme_entries(themes@);
    let mut i: usize = 0;
    assert(picker::entries(items@) =~= all.take(0));
    while i < themes.len()
        invariant
            i <= themes@.len(),
            all == theme_entries(themes@),
            picker::entries(items@) == all.take(i as int),
        decreases themes@.len() - i,
    {
        let category = String::new();
        assert(category@ =~= seq![]);
        let ghost before = items@;
        items.push(
            ListPickerItem { value: themes[i].0.clone(), label: themes[i].1.clone(), category },
        );
        assert(picker::entries(items@) =~= picker::entries(before).push(all[i as int]));
        assert(all.take(i as int + 1) =~= all.take(i as int).push(all[i as int]));
        i = i + 1;
    }
    assert(all.take(i as int) =~= all);
    let current: usize = popups.current_theme;
    popups.popup = PopupState::ThemePicker(ThemePicker::open(items, current));
}

/// The themes as items of a list.
pub open spec fn theme_entries(themes: Seq<(String, String)>) -> Seq<PickerEntry> {
    Seq::new(
        themes.len(),
        |i: int| PickerEntry { value: themes[i].0@, label: themes[i].1@, category: seq![] },
    )
}

/// Whether an item of a menu opens a repository.
pub open spec fn opens_repo(i: MenuItem, path: Seq<char>) -> bool {
    &&& i.label@ == path
    &&& i.description@.len() == 0
    &&& i.key is None
    &&& i.action matches Some(Action::OpenRepo { path: p }) && p@ == path
}

/// Opens the menu of the repositories that were open before; there is none where there
/// are none.
pub fn show_recent_repos(popups: &mut Popups, recent: &Vec<String>)
    ensures
        if recent@.len() == 0 {
            *final(popups) == *old(popups)
        } else {
            *final(popups) == old(popups).with(final(popups).popup) && (final(
                popups).popup matches PopupState::Menu(m) && m.title@ == "Recent repos"@
                && m.selected == 0 && m.loading_index is None && m.items@.len() == recent@.len()
                && forall|i: int|
                0 <= i < recent@.len() ==> opens_repo(#[trigger] m.items@[i], recent@[i]@))
        },
{
    if recent.len() == 0 {
        return;
    }
    let mut items: Vec<MenuItem> = Vec::new();
    let mut i: usize = 0;
    while i < recent.len()
        invariant
            i <= recent@.len(),
            items@.len() == i,
            forall|j: int| 0 <= j < i ==> opens_repo(#[trigger] items@[j], recent@[j]@),
        decreases recent@.len() - i,
    {
        items.push(
            MenuItem {
                label: recent[i].clone(),
                description: String::new(),
                key: None,
                action: Some(Action::OpenRepo { path: recent[i].clone() }),
            },
        );
        i = i + 1;
    }
    popups.popup = PopupState::Menu(Menu::new("Recent repos".to_string(), items));
}

// ---------------------------------------------------------------------------
// Laws
// ---------------------------------------------------------------------------

/// The branch that is checked out is never offered to rebase itself onto.
pub proof fn the_current_branch_is_not_rebased_onto_itself(m: Model, i: int)
    requires
        0 <= i < worktrees::other_branches(m.branches@, true, m.branches@.len() as int).len(),
    ensures
        exists|k: int|
            0 <= k < m.branches@.len() && !(#[trigger] m.branches@[k]).head && m.branches@[k].name@
                == reset_rebase_entries(m, true)[i].value,
{
    lemma_no_head(m, i, m.branches@.len() as int);
}

proof fn lemma_no_head(m: Model, i: int, n: int)
    requires
        0 <= n <= m.branches@.len(),
        0 <= i < worktrees::other_branches(m.branches@, true, n).len(),
    ensures
        exists|k: int|
            0 <= k < n && !(#[trigger] m.branches@[k]).head && m.branches@[k].name@
                == worktrees::other_branches(m.branches@, true, n)[i].value,
    decreases n,
{
    if n > 0 {
        let before = worktrees::other_branches(m.branches@, true, n - 1);
        if i < before.len() {
            lemma_no_head(m, i, n - 1);
        } else {
            assert(!m.branches@[n - 1].head);
        }
    }
}

/// Every branch can be reset to, by its name and in order; the newest commit is the only one
/// that is not offered, and the others come last.
pub proof fn all_but_the_newest_commit_are_offered(m: Model, skip_head: bool, k: int)
    requires
        1 <= k < m.commits@.len(),
    ensures
        ({
            let e = reset_rebase_entries(m, skip_head);
            let n = worktrees::other_branches(m.branches@, skip_head, m.branches@.len() as int);
            let r = worktrees::remote_branches(m.remotes@, m.remotes@.len() as int);
            &&& e.len() + 1 == n.len() + r.len() + m.tags@.len() + m.commits@.len()
            &&& e.take(n.len() as int) == n
            &&& e[e.len() - m.commits@.len() + k].value == m.commits@[k].hash@
        }),
{
    let e = reset_rebase_entries(m, skip_head);
    let n = worktrees::other_branches(m.branches@, skip_head, m.branches@.len() as int);
    assert(e.take(n.len() as int) =~= n);
}

/// Tags come before the commits, and branches of remotes before the tags.
pub proof fn references_come_in_their_order(m: Model, skip_head: bool, k: int)
    ensures
        ({
            let e = reset_rebase_entries(m, skip_head);
            let n = worktrees::other_branches(
                m.branches@,
                skip_head,
                m.branches@.len() as int,
            ).len() as int;
            let r = worktrees::remote_branches(m.remotes@, m.remotes@.len() as int);
            &&& 0 <= k < r.len() ==> e[n + k] == r[k]
            &&& 0 <= k < m.tags@.len() ==> e[n + r.len() + k].value == m.tags@[k].name@
        }),
{
}

/// A theme is listed by its name and known by its id.
pub proof fn themes_are_listed_by_name(themes: Seq<(String, String)>, i: int)
    requires
        0 <= i < themes.len(),
    ensures
        theme_entries(themes).len() == themes.len(),
        theme_entries(themes)[i].value == themes[i].0@,
        theme_entries(themes)[i].label == themes[i].1@,
        theme_entries(themes)[i].category.len() == 0,
{
}

} // verus!
