//! What the palette lists: the commands of each list, and those of the diff.

use super::input;
use super::keys::{PopupState, Popups};
use super::palette::{CommandAction, CommandEntry, CommandPalette, CommandSection};
use crate::gui::context::ContextId;
use crate::gui::input::KeyEvent;
use crate::gui::textarea::TextField;
use crate::text;
use vstd::prelude::*;

verus! {

/// The keys that hold everywhere.
#[derive(Debug)]
pub struct UniversalKeys {
    pub quit: String,
    pub quit_alt1: String,
    pub return_key: String,
    pub toggle_panel: String,
    pub toggle_panel_reverse: String,
    pub prev_item: String,
    pub next_item: String,
    pub prev_page: String,
    pub next_page: String,
    pub goto_top: String,
    pub goto_bottom: String,
    pub prev_block: String,
    pub next_block: String,
    pub start_search: String,
    pub next_match: String,
    pub prev_match: String,
    pub scroll_up_main_alt1: String,
    pub scroll_down_main_alt1: String,
    pub scroll_left: String,
    pub scroll_right: String,
    pub undo: String,
    pub redo: String,
    pub refresh: String,
    pub push_files: String,
    pub pull_files: String,
    pub next_screen_mode: String,
    pub prev_screen_mode: String,
    pub create_rebase_options_menu: String,
    pub create_patch_options_menu: String,
    pub toggle_diff_view_layout: String,
    pub edit: String,
    pub open_file: String,
    pub revert_block: String,
    pub undo_revert_block: String,
}

/// The keys for files.
#[derive(Debug)]
pub struct FilesKeys {
    pub commit_changes: String,
    pub generate_ai_commit: String,
    pub amend_last_commit: String,
    pub commit_changes_with_editor: String,
    pub toggle_staged_all: String,
    pub stash_all_changes: String,
    pub view_stash_options: String,
    pub toggle_tree_view: String,
    pub fetch: String,
    pub ignore_file: String,
}

/// The keys for branches.
#[derive(Debug)]
pub struct BranchesKeys {
    pub merge_into_current_branch: String,
    pub rebase_branch: String,
    pub rename_branch: String,
    pub fast_forward: String,
    pub set_upstream: String,
    pub create_pull_request: String,
}

/// The keys for commits.
#[derive(Debug)]
pub struct CommitsKeys {
    pub cherry_pick_copy: String,
    pub squash_down: String,
    pub rename_commit: String,
    pub view_reset_options: String,
    pub mark_commit_as_fixup: String,
    pub create_fixup_commit: String,
    pub squash_above_commits: String,
    pub move_up_commit: String,
    pub move_down_commit: String,
    pub amend_to_commit: String,
    pub pick_commit: String,
    pub revert_commit: String,
    pub tag_commit: String,
    pub checkout_commit: String,
    pub view_bisect_options: String,
    pub interactive_rebase: String,
    pub open_log_menu: String,
    pub paste_commits: String,
}

/// The keys for stashes.
#[derive(Debug)]
pub struct StashKeys {
    pub pop_stash: String,
    pub rename_stash: String,
}

/// The configured keys, as they are written.
#[derive(Debug)]
pub struct Keybinding {
    pub universal: UniversalKeys,
    pub files: FilesKeys,
    pub branches: BranchesKeys,
    pub commits: CommitsKeys,
    pub stash: StashKeys,
}

/// A line of the palette, as plain values.
pub struct Line {
    pub key: Seq<char>,
    pub description: Seq<char>,
    /// Whether it opens the list of themes; any other line stands for its key.
    pub themes: bool,
}

/// The line of a key.
pub open spec fn line(key: Seq<char>, description: Seq<char>) -> Line {
    Line { key, description, themes: false }
}

/// The line that opens the list of themes.
pub open spec fn theme_line() -> Line {
    Line { key: ""@, description: "Color theme..."@, themes: true }
}

/// A command as a line.
pub open spec fn as_line(e: CommandEntry) -> Line {
    Line {
        key: e.key@,
        description: e.description@,
        themes: e.action == CommandAction::OpenThemePicker,
    }
}

/// Commands as lines.
pub open spec fn lines_of(v: Seq<CommandEntry>) -> Seq<Line> {
    Seq::new(v.len(), |i: int| as_line(v[i]))
}

/// Whether commands are these lines, and those with a key do nothing yet.
pub open spec fn lists(v: Seq<CommandEntry>, l: Seq<Line>) -> bool {
    &&& lines_of(v) == l
    &&& forall|i: int| 0 <= i < v.len() && !l[i].themes ==> (#[trigger] v[i]).action is Unavailable
}

fn put(v: &mut Vec<CommandEntry>, key: &str, description: &str)
    ensures
        forall|l: Seq<Line>| #[trigger]
            lists(old(v)@, l) ==> lists(final(v)@, l.push(line(key@, description@))),
{
    v.push(
        CommandEntry {
            key: key.to_string(),
            description: description.to_string(),
            action: CommandAction::Unavailable,
        },
    );
    assert forall|l: Seq<Line>| #[trigger] lists(old(v)@, l) implies lists(
        v@,
        l.push(line(key@, description@)),
    ) by {
        assert(lines_of(v@) =~= l.push(line(key@, description@)));
    }
}

fn put_themes(v: &mut Vec<CommandEntry>)
    ensures
        forall|l: Seq<Line>| #[trigger] lists(old(v)@, l) ==> lists(final(v)@, l.push(theme_line())),
{
    v.push(
        CommandEntry {
            key: "".to_string(),
            description: "Color theme...".to_string(),
            action: CommandAction::OpenThemePicker,
        },
    );
    assert forall|l: Seq<Line>| #[trigger] lists(old(v)@, l) implies lists(
        v@,
        l.push(theme_line()),
    ) by {
        assert(lines_of(v@) =~= l.push(theme_line()));
    }
}

fn start() -> (r: Vec<CommandEntry>)
    ensures
        lists(r@, Seq::empty()),
{
    let r: Vec<CommandEntry> = Vec::new();
    assert(lines_of(r@) =~= Seq::empty());
    r
}

/// The lines for every list.
pub open spec fn universal_lines(k: Keybinding) -> Seq<Line> {
    Seq::empty()
        .push(line(k.universal.quit@, "Quit"@))
        .push(line(k.universal.quit_alt1@, "Quit (alt)"@))
        .push(line(k.universal.return_key@, "Return / Cancel"@))
        .push(line(k.universal.toggle_panel@, "Next panel"@))
        .push(line(k.universal.toggle_panel_reverse@, "Previous panel"@))
        .push(line(k.universal.prev_item@, "Previous item"@))
        .push(line(k.universal.next_item@, "Next item"@))
        .push(line(k.universal.prev_page@, "Page up"@))
        .push(line(k.universal.next_page@, "Page down"@))
        .push(line(k.universal.goto_top@, "Go to top"@))
        .push(line(k.universal.goto_bottom@, "Go to bottom"@))
        .push(line(k.universal.prev_block@, "Previous panel"@))
        .push(line(k.universal.next_block@, "Next panel"@))
        .push(line(k.universal.start_search@, "Search"@))
        .push(line(k.universal.next_match@, "Next search match"@))
        .push(line(k.universal.prev_match@, "Previous search match"@))
        .push(line(k.universal.scroll_up_main_alt1@, "Scroll diff up"@))
        .push(line(k.universal.scroll_down_main_alt1@, "Scroll diff down"@))
        .push(line(k.universal.scroll_left@, "Scroll left"@))
        .push(line(k.universal.scroll_right@, "Scroll right"@))
        .push(line(k.universal.undo@, "Undo"@))
        .push(line(k.universal.redo@, "Redo"@))
        .push(line(k.universal.refresh@, "Refresh"@))
        .push(line(k.universal.push_files@, "Push"@))
        .push(line(k.universal.pull_files@, "Pull"@))
        .push(line(k.universal.next_screen_mode@, "Enlarge panel"@))
        .push(line(k.universal.prev_screen_mode@, "Shrink panel"@))
        .push(line(k.universal.create_rebase_options_menu@, "Rebase/merge/conflict options"@))
        .push(line(k.universal.create_patch_options_menu@, "Patch options"@))
        .push(line("{/}"@, "Previous/next hunk"@))
        .push(line(";"@, "Toggle command log"@))
        .push(line("W"@, "Compare / Diff mode"@))
        .push(line("I"@, "Interactive rebase onto..."@))
        .push(line("G"@, "Reset to..."@))
        .push(line("1-5"@, "Jump to panel"@))
        .push(line("?"@, "Show command palette"@))
        .push(theme_line())
}

fn universal_commands(k: &Keybinding) -> (r: Vec<CommandEntry>)
    ensures
        lists(r@, universal_lines(*k)),
{
    let mut v = start();
    put(&mut v, k.universal.quit.as_str(), "Quit");
    put(&mut v, k.universal.quit_alt1.as_str(), "Quit (alt)");
    put(&mut v, k.universal.return_key.as_str(), "Return / Cancel");
    put(&mut v, k.universal.toggle_panel.as_str(), "Next panel");
    put(&mut v, k.universal.toggle_panel_reverse.as_str(), "Previous panel");
    put(&mut v, k.universal.prev_item.as_str(), "Previous item");
    put(&mut v, k.universal.next_item.as_str(), "Next item");
    put(&mut v, k.universal.prev_page.as_str(), "Page up");
    put(&mut v, k.universal.next_page.as_str(), "Page down");
    put(&mut v, k.universal.goto_top.as_str(), "Go to top");
    put(&mut v, k.universal.goto_bottom.as_str(), "Go to bottom");
    put(&mut v, k.universal.prev_block.as_str(), "Previous panel");
    put(&mut v, k.universal.next_block.as_str(), "Next panel");
    put(&mut v, k.universal.start_search.as_str(), "Search");
    put(&mut v, k.universal.next_match.as_str(), "Next search match");
    put(&mut v, k.universal.prev_match.as_str(), "Previous search match");
    put(&mut v, k.universal.scroll_up_main_alt1.as_str(), "Scroll diff up");
    put(&mut v, k.universal.scroll_down_main_alt1.as_str(), "Scroll diff down");
    put(&mut v, k.universal.scroll_left.as_str(), "Scroll left");
    put(&mut v, k.universal.scroll_right.as_str(), "Scroll right");
    put(&mut v, k.universal.undo.as_str(), "Undo");
    put(&mut v, k.universal.redo.as_str(), "Redo");
    put(&mut v, k.universal.refresh.as_str(), "Refresh");
    put(&mut v, k.universal.push_files.as_str(), "Push");
    put(&mut v, k.universal.pull_files.as_str(), "Pull");
    put(&mut v, k.universal.next_screen_mode.as_str(), "Enlarge panel");
    put(&mut v, k.universal.prev_screen_mode.as_str(), "Shrink panel");
    put(&mut v, k.universal.create_rebase_options_menu.as_str(), "Rebase/merge/conflict options");
    put(&mut v, k.universal.create_patch_options_menu.as_str(), "Patch options");
    put(&mut v, "{/}", "Previous/next hunk");
    put(&mut v, ";", "Toggle command log");
    put(&mut v, "W", "Compare / Diff mode");
    put(&mut v, "I", "Interactive rebase onto...");
    put(&mut v, "G", "Reset to...");
    put(&mut v, "1-5", "Jump to panel");
    put(&mut v, "?", "Show command palette");
    put_themes(&mut v);
    v
}

/// The lines for the changed files.
pub open spec fn files_lines(k: Keybinding) -> Seq<Line> {
    Seq::empty()
        .push(line("<enter>"@, "Toggle dir / Focus diff"@))
        .push(line("<space>"@, "Stage / Unstage"@))
        .push(line(k.universal.toggle_diff_view_layout@, "Toggle unified / side-by-side view"@))
        .push(line(k.files.commit_changes@, "Commit"@))
        .push(line(k.files.generate_ai_commit@, "Generate AI commit"@))
        .push(line(k.files.amend_last_commit@, "Amend last commit"@))
        .push(line(k.files.commit_changes_with_editor@, "Commit with editor"@))
        .push(line(k.files.toggle_staged_all@, "Toggle stage all"@))
        .push(line(k.files.stash_all_changes@, "Stash changes"@))
        .push(line(k.files.view_stash_options@, "Stash options"@))
        .push(line(k.files.toggle_tree_view@, "Toggle tree view"@))
        .push(line(k.files.fetch@, "Fetch"@))
        .push(line(k.files.ignore_file@, "Ignore file"@))
        .push(line("d"@, "Discard changes"@))
        .push(line(k.universal.edit@, "Open in editor"@))
        .push(line(k.universal.open_file@, "Open in default program"@))
        .push(line("y"@, "Copy to clipboard menu"@))
        .push(line("{/}"@, "Cycle prev/next revert block in diff"@))
        .push(line(k.universal.revert_block@, "Open hunk menu (revert selected block)"@))
        .push(line(k.universal.undo_revert_block@, "Undo last revert (session)"@))
}

fn files_commands(k: &Keybinding) -> (r: Vec<CommandEntry>)
    ensures
        lists(r@, files_lines(*k)),
{
    let mut v = start();
    put(&mut v, "<enter>", "Toggle dir / Focus diff");
    put(&mut v, "<space>", "Stage / Unstage");
    put(&mut v, k.universal.toggle_diff_view_layout.as_str(), "Toggle unified / side-by-side view");
    put(&mut v, k.files.commit_changes.as_str(), "Commit");
    put(&mut v, k.files.generate_ai_commit.as_str(), "Generate AI commit");
    put(&mut v, k.files.amend_last_commit.as_str(), "Amend last commit");
    put(&mut v, k.files.commit_changes_with_editor.as_str(), "Commit with editor");
    put(&mut v, k.files.toggle_staged_all.as_str(), "Toggle stage all");
    put(&mut v, k.files.stash_all_changes.as_str(), "Stash changes");
    put(&mut v, k.files.view_stash_options.as_str(), "Stash options");
    put(&mut v, k.files.toggle_tree_view.as_str(), "Toggle tree view");
    put(&mut v, k.files.fetch.as_str(), "Fetch");
    put(&mut v, k.files.ignore_file.as_str(), "Ignore file");
    put(&mut v, "d", "Discard changes");
    put(&mut v, k.universal.edit.as_str(), "Open in editor");
    put(&mut v, k.universal.open_file.as_str(), "Open in default program");
    put(&mut v, "y", "Copy to clipboard menu");
    put(&mut v, "{/}", "Cycle prev/next revert block in diff");
    put(&mut v, k.universal.revert_block.as_str(), "Open hunk menu (revert selected block)");
    put(&mut v, k.universal.undo_revert_block.as_str(), "Undo last revert (session)");
    v
}

/// The lines for the worktrees.
pub open spec fn worktrees_lines() -> Seq<Line> {
    Seq::empty()
        .push(line("<space>"@, "Switch to worktree"@))
        .push(line("n"@, "Create worktree"@))
        .push(line("d"@, "Remove worktree"@))
}

fn worktrees_commands() -> (r: Vec<CommandEntry>)
    ensures
        lists(r@, worktrees_lines()),
{
    let mut v = start();
    put(&mut v, "<space>", "Switch to worktree");
    put(&mut v, "n", "Create worktree");
    put(&mut v, "d", "Remove worktree");
    v
}

/// The lines for the submodules.
pub open spec fn submodules_lines() -> Seq<Line> {
    Seq::empty()
        .push(line("<space>"@, "Update submodule"@))
        .push(line("a"@, "Add submodule"@))
        .push(line("d"@, "Remove submodule"@))
        .push(line("e"@, "Enter submodule"@))
        .push(line("u"@, "Update all submodules"@))
        .push(line("i"@, "Init submodules"@))
}

fn submodules_commands() -> (r: Vec<CommandEntry>)
    ensures
        lists(r@, submodules_lines()),
{
    let mut v = start();
    put(&mut v, "<space>", "Update submodule");
    put(&mut v, "a", "Add submodule");
    put(&mut v, "d", "Remove submodule");
    put(&mut v, "e", "Enter submodule");
    put(&mut v, "u", "Update all submodules");
    put(&mut v, "i", "Init submodules");
    v
}

/// The lines for the branches.
pub open spec fn branches_lines(k: Keybinding) -> Seq<Line> {
    Seq::empty()
        .push(line("<enter>"@, "View branch commits"@))
        .push(line("<space>"@, "Checkout branch"@))
        .push(line("c"@, "Checkout ref"@))
        .push(line("-"@, "Checkout previous branch"@))
        .push(line("n"@, "New branch"@))
        .push(line("d"@, "Delete branch"@))
        .push(line(k.branches.merge_into_current_branch@, "Merge into current"@))
        .push(line(k.branches.rebase_branch@, "Rebase"@))
        .push(line(k.branches.rename_branch@, "Rename branch"@))
        .push(line(k.branches.fast_forward@, "Fast-forward"@))
        .push(line(k.branches.set_upstream@, "Set upstream"@))
        .push(line("y"@, "Copy to clipboard menu"@))
        .push(line(k.branches.create_pull_request@, "Open in browser menu"@))
}

fn branches_commands(k: &Keybinding) -> (r: Vec<CommandEntry>)
    ensures
        lists(r@, branches_lines(*k)),
{
    let mut v = start();
    put(&mut v, "<enter>", "View branch commits");
    put(&mut v, "<space>", "Checkout branch");
    put(&mut v, "c", "Checkout ref");
    put(&mut v, "-", "Checkout previous branch");
    put(&mut v, "n", "New branch");
    put(&mut v, "d", "Delete branch");
    put(&mut v, k.branches.merge_into_current_branch.as_str(), "Merge into current");
    put(&mut v, k.branches.rebase_branch.as_str(), "Rebase");
    put(&mut v, k.branches.rename_branch.as_str(), "Rename branch");
    put(&mut v, k.branches.fast_forward.as_str(), "Fast-forward");
    put(&mut v, k.branches.set_upstream.as_str(), "Set upstream");
    put(&mut v, "y", "Copy to clipboard menu");
    put(&mut v, k.branches.create_pull_request.as_str(), "Open in browser menu");
    v
}

/// The lines for the commits of a branch.
pub open spec fn branch_commits_lines(k: Keybinding) -> Seq<Line> {
    Seq::empty()
        .push(line("<enter>"@, "View commit files"@))
        .push(line("<esc>"@, "Back to branches"@))
        .push(line(k.universal.toggle_diff_view_layout@, "Toggle unified / side-by-side view"@))
        .push(line(k.universal.edit@, "Open in editor"@))
        .push(line("."@, "Toggle commit details panel"@))
}

fn branch_commits_commands(k: &Keybinding) -> (r: Vec<CommandEntry>)
    ensures
        lists(r@, branch_commits_lines(*k)),
{
    let mut v = start();
    put(&mut v, "<enter>", "View commit files");
    put(&mut v, "<esc>", "Back to branches");
    put(&mut v, k.universal.toggle_diff_view_layout.as_str(), "Toggle unified / side-by-side view");
    put(&mut v, k.universal.edit.as_str(), "Open in editor");
    put(&mut v, ".", "Toggle commit details panel");
    v
}

/// The lines for the commits.
pub open spec fn commits_lines(k: Keybinding, can_paste: bool) -> Seq<Line> {
    let first: Seq<Line> = if can_paste {
        Seq::empty().push(line(k.commits.paste_commits@, "Paste (cherry-pick)"@))
    } else {
        Seq::empty()
    };
    first
        .push(line(k.commits.cherry_pick_copy@, "Copy (cherry-pick)"@))
        .push(line("<enter>"@, "View commit files"@))
        .push(line(k.commits.squash_down@, "Squash down"@))
        .push(line(k.commits.rename_commit@, "Reword commit"@))
        .push(line(k.commits.view_reset_options@, "Reset options"@))
        .push(line(k.commits.mark_commit_as_fixup@, "Fixup commit"@))
        .push(line(k.commits.create_fixup_commit@, "Create fixup commit"@))
        .push(line(k.commits.squash_above_commits@, "Apply fixup commits"@))
        .push(line(k.commits.move_up_commit@, "Move commit up"@))
        .push(line(k.commits.move_down_commit@, "Move commit down"@))
        .push(line(k.commits.amend_to_commit@, "Amend to commit"@))
        .push(line(k.commits.pick_commit@, "Pick / Drop commit"@))
        .push(line(k.commits.revert_commit@, "Revert commit"@))
        .push(line("v"@, "Toggle range select"@))
        .push(line(k.universal.toggle_diff_view_layout@, "Toggle unified / side-by-side view"@))
        .push(line(k.commits.tag_commit@, "Tag commit"@))
        .push(line(k.commits.checkout_commit@, "Checkout commit"@))
        .push(line(k.commits.view_bisect_options@, "Bisect options"@))
        .push(line("o"@, "Open in browser"@))
        .push(line("y"@, "Copy to clipboard menu"@))
        .push(line(k.commits.interactive_rebase@, "Interactive rebase"@))
        .push(line(k.commits.open_log_menu@, "Filter commits"@))
        .push(line("."@, "Toggle commit details panel"@))
}

fn commits_commands(k: &Keybinding, can_paste: bool) -> (r: Vec<CommandEntry>)
    ensures
        lists(r@, commits_lines(*k, can_paste)),
{
    let mut v = start();
    if can_paste {
        put(&mut v, k.commits.paste_commits.as_str(), "Paste (cherry-pick)");
    }
    put(&mut v, k.commits.cherry_pick_copy.as_str(), "Copy (cherry-pick)");
    put(&mut v, "<enter>", "View commit files");
    put(&mut v, k.commits.squash_down.as_str(), "Squash down");
    put(&mut v, k.commits.rename_commit.as_str(), "Reword commit");
    put(&mut v, k.commits.view_reset_options.as_str(), "Reset options");
    put(&mut v, k.commits.mark_commit_as_fixup.as_str(), "Fixup commit");
    put(&mut v, k.commits.create_fixup_commit.as_str(), "Create fixup commit");
    put(&mut v, k.commits.squash_above_commits.as_str(), "Apply fixup commits");
    put(&mut v, k.commits.move_up_commit.as_str(), "Move commit up");
    put(&mut v, k.commits.move_down_commit.as_str(), "Move commit down");
    put(&mut v, k.commits.amend_to_commit.as_str(), "Amend to commit");
    put(&mut v, k.commits.pick_commit.as_str(), "Pick / Drop commit");
    put(&mut v, k.commits.revert_commit.as_str(), "Revert commit");
    put(&mut v, "v", "Toggle range select");
    put(&mut v, k.universal.toggle_diff_view_layout.as_str(), "Toggle unified / side-by-side view");
    put(&mut v, k.commits.tag_commit.as_str(), "Tag commit");
    put(&mut v, k.commits.checkout_commit.as_str(), "Checkout commit");
    put(&mut v, k.commits.view_bisect_options.as_str(), "Bisect options");
    put(&mut v, "o", "Open in browser");
    put(&mut v, "y", "Copy to clipboard menu");
    put(&mut v, k.commits.interactive_rebase.as_str(), "Interactive rebase");
    put(&mut v, k.commits.open_log_menu.as_str(), "Filter commits");
    put(&mut v, ".", "Toggle commit details panel");
    v
}

/// The lines for the files of a commit.
pub open spec fn commit_files_lines(k: Keybinding) -> Seq<Line> {
    Seq::empty()
        .push(line("<enter>"@, "Toggle dir / Focus diff"@))
        .push(line("<esc>"@, "Back to commits"@))
        .push(line(k.universal.edit@, "Edit file"@))
        .push(line(k.universal.open_file@, "Open file"@))
        .push(line(k.universal.toggle_diff_view_layout@, "Toggle unified / side-by-side view"@))
        .push(line(k.files.toggle_tree_view@, "Toggle tree view"@))
        .push(line(k.universal.edit@, "Open in editor"@))
        .push(line("y"@, "Copy to clipboard menu"@))
        .push(line("."@, "Toggle commit details panel"@))
}

fn commit_files_commands(k: &Keybinding) -> (r: Vec<CommandEntry>)
    ensures
        lists(r@, commit_files_lines(*k)),
{
    let mut v = start();
    put(&mut v, "<enter>", "Toggle dir / Focus diff");
    put(&mut v, "<esc>", "Back to commits");
    put(&mut v, k.universal.edit.as_str(), "Edit file");
    put(&mut v, k.universal.open_file.as_str(), "Open file");
    put(&mut v, k.universal.toggle_diff_view_layout.as_str(), "Toggle unified / side-by-side view");
    put(&mut v, k.files.toggle_tree_view.as_str(), "Toggle tree view");
    put(&mut v, k.universal.edit.as_str(), "Open in editor");
    put(&mut v, "y", "Copy to clipboard menu");
    put(&mut v, ".", "Toggle commit details panel");
    v
}

/// The lines for the reflog.
pub open spec fn reflog_lines(k: Keybinding) -> Seq<Line> {
    Seq::empty()
        .push(line("<enter>"@, "View commit files"@))
        .push(line(k.universal.toggle_diff_view_layout@, "Toggle unified / side-by-side view"@))
        .push(line(k.commits.checkout_commit@, "Checkout commit"@))
        .push(line(k.commits.view_reset_options@, "Reset options"@))
        .push(line(k.commits.cherry_pick_copy@, "Copy (cherry-pick)"@))
        .push(line("y"@, "Copy to clipboard menu"@))
        .push(line("."@, "Toggle commit details panel"@))
}

fn reflog_commands(k: &Keybinding) -> (r: Vec<CommandEntry>)
    ensures
        lists(r@, reflog_lines(*k)),
{
    let mut v = start();
    put(&mut v, "<enter>", "View commit files");
    put(&mut v, k.universal.toggle_diff_view_layout.as_str(), "Toggle unified / side-by-side view");
    put(&mut v, k.commits.checkout_commit.as_str(), "Checkout commit");
    put(&mut v, k.commits.view_reset_options.as_str(), "Reset options");
    put(&mut v, k.commits.cherry_pick_copy.as_str(), "Copy (cherry-pick)");
    put(&mut v, "y", "Copy to clipboard menu");
    put(&mut v, ".", "Toggle commit details panel");
    v
}

/// The lines for the stashes.
pub open spec fn stash_lines(k: Keybinding) -> Seq<Line> {
    Seq::empty()
        .push(line("<enter>"@, "View stash files"@))
        .push(line("<space>"@, "Apply stash"@))
        .push(line(k.universal.toggle_diff_view_layout@, "Toggle unified / side-by-side view"@))
        .push(line(k.stash.pop_stash@, "Pop stash"@))
        .push(line(k.stash.rename_stash@, "Rename stash"@))
        .push(line("d"@, "Drop stash"@))
}

fn stash_commands(k: &Keybinding) -> (r: Vec<CommandEntry>)
    ensures
        lists(r@, stash_lines(*k)),
{
    let mut v = start();
    put(&mut v, "<enter>", "View stash files");
    put(&mut v, "<space>", "Apply stash");
    put(&mut v, k.universal.toggle_diff_view_layout.as_str(), "Toggle unified / side-by-side view");
    put(&mut v, k.stash.pop_stash.as_str(), "Pop stash");
    put(&mut v, k.stash.rename_stash.as_str(), "Rename stash");
    put(&mut v, "d", "Drop stash");
    v
}

/// The lines for the files of a stash.
pub open spec fn stash_files_lines(k: Keybinding) -> Seq<Line> {
    Seq::empty()
        .push(line("<enter>"@, "Toggle dir / Focus diff"@))
        .push(line("<esc>"@, "Back to stash"@))
        .push(line(k.universal.toggle_diff_view_layout@, "Toggle unified / side-by-side view"@))
        .push(line(k.files.toggle_tree_view@, "Toggle tree view"@))
        .push(line(k.universal.edit@, "Open in editor"@))
        .push(line("y"@, "Copy to clipboard menu"@))
}

fn stash_files_commands(k: &Keybinding) -> (r: Vec<CommandEntry>)
    ensures
        lists(r@, stash_files_lines(*k)),
{
    let mut v = start();
    put(&mut v, "<enter>", "Toggle dir / Focus diff");
    put(&mut v, "<esc>", "Back to stash");
    put(&mut v, k.universal.toggle_diff_view_layout.as_str(), "Toggle unified / side-by-side view");
    put(&mut v, k.files.toggle_tree_view.as_str(), "Toggle tree view");
    put(&mut v, k.universal.edit.as_str(), "Open in editor");
    put(&mut v, "y", "Copy to clipboard menu");
    v
}

/// The lines for the remotes.
pub open spec fn remotes_lines(k: Keybinding) -> Seq<Line> {
    Seq::empty()
        .push(line("<enter>"@, "View remote branches"@))
        .push(line("f"@, "Fetch from remote"@))
        .push(line("F"@, "Add fork remote"@))
        .push(line("n"@, "Add new remote"@))
        .push(line("e"@, "Edit remote"@))
        .push(line("d"@, "Delete remote"@))
        .push(line(k.universal.push_files@, "Push"@))
        .push(line(k.universal.pull_files@, "Pull"@))
}

fn remotes_commands(k: &Keybinding) -> (r: Vec<CommandEntry>)
    ensures
        lists(r@, remotes_lines(*k)),
{
    let mut v = start();
    put(&mut v, "<enter>", "View remote branches");
    put(&mut v, "f", "Fetch from remote");
    put(&mut v, "F", "Add fork remote");
    put(&mut v, "n", "Add new remote");
    put(&mut v, "e", "Edit remote");
    put(&mut v, "d", "Delete remote");
    put(&mut v, k.universal.push_files.as_str(), "Push");
    put(&mut v, k.universal.pull_files.as_str(), "Pull");
    v
}

/// The lines for the branches of a remote.
pub open spec fn remote_branches_lines(k: Keybinding) -> Seq<Line> {
    Seq::empty()
        .push(line("<enter>"@, "View branch commits"@))
        .push(line("<space>"@, "Checkout as local branch"@))
        .push(line(k.branches.merge_into_current_branch@, "Merge into current"@))
        .push(line(k.branches.rebase_branch@, "Rebase"@))
        .push(line("d"@, "Delete remote branch"@))
        .push(line("<esc>"@, "Back to remotes"@))
}

fn remote_branches_commands(k: &Keybinding) -> (r: Vec<CommandEntry>)
    ensures
        lists(r@, remote_branches_lines(*k)),
{
    let mut v = start();
    put(&mut v, "<enter>", "View branch commits");
    put(&mut v, "<space>", "Checkout as local branch");
    put(&mut v, k.branches.merge_into_current_branch.as_str(), "Merge into current");
    put(&mut v, k.branches.rebase_branch.as_str(), "Rebase");
    put(&mut v, "d", "Delete remote branch");
    put(&mut v, "<esc>", "Back to remotes");
    v
}

/// The lines for the tags.
pub open spec fn tags_lines() -> Seq<Line> {
    Seq::empty()
        .push(line("<enter>"@, "View tag commits"@))
        .push(line("n"@, "Create tag"@))
        .push(line("d"@, "Delete tag"@))
        .push(line("P"@, "Push tag"@))
        .push(line("g"@, "Reset options"@))
}

fn tags_commands() -> (r: Vec<CommandEntry>)
    ensures
        lists(r@, tags_lines()),
{
    let mut v = start();
    put(&mut v, "<enter>", "View tag commits");
    put(&mut v, "n", "Create tag");
    put(&mut v, "d", "Delete tag");
    put(&mut v, "P", "Push tag");
    put(&mut v, "g", "Reset options");
    v
}

/// The lines for the status.
pub open spec fn status_lines() -> Seq<Line> {
    Seq::empty()
        .push(line("<enter>"@, "Recent repos"@))
        .push(line("y"@, "Copy to clipboard menu"@))
        .push(line("o"@, "Open in browser menu"@))
}

fn status_commands() -> (r: Vec<CommandEntry>)
    ensures
        lists(r@, status_lines()),
{
    let mut v = start();
    put(&mut v, "<enter>", "Recent repos");
    put(&mut v, "y", "Copy to clipboard menu");
    put(&mut v, "o", "Open in browser menu");
    v
}

/// The title of the lines for a list.
pub open spec fn context_title(c: ContextId) -> Seq<char> {
    match c {
        ContextId::Files => "Files"@,
        ContextId::Worktrees => "Worktrees"@,
        ContextId::Submodules => "Submodules"@,
        ContextId::Branches => "Branches"@,
        ContextId::BranchCommits | ContextId::BranchCommitFiles => "Branch Commits"@,
        ContextId::Commits => "Commits"@,
        ContextId::CommitFiles => "Commit Files"@,
        ContextId::Reflog => "Reflog"@,
        ContextId::Stash => "Stash"@,
        ContextId::StashFiles => "Stash Files"@,
        ContextId::Remotes => "Remotes"@,
        ContextId::RemoteBranches => "Remote Branches"@,
        ContextId::Tags => "Tags"@,
        ContextId::Status => "Status"@,
    }
}

/// The lines for a list.
pub open spec fn context_lines(c: ContextId, k: Keybinding, can_paste: bool) -> Seq<Line> {
    match c {
        ContextId::Files => files_lines(k),
        ContextId::Worktrees => worktrees_lines(),
        ContextId::Submodules => submodules_lines(),
        ContextId::Branches => branches_lines(k),
        ContextId::BranchCommits | ContextId::BranchCommitFiles => branch_commits_lines(k),
        ContextId::Commits => commits_lines(k, can_paste),
        ContextId::CommitFiles => commit_files_lines(k),
        ContextId::Reflog => reflog_lines(k),
        ContextId::Stash => stash_lines(k),
        ContextId::StashFiles => stash_files_lines(k),
        ContextId::Remotes => remotes_lines(k),
        ContextId::RemoteBranches => remote_branches_lines(k),
        ContextId::Tags => tags_lines(),
        ContextId::Status => status_lines(),
    }
}

fn context_section(c: ContextId, k: &Keybinding, can_paste: bool) -> (r: CommandSection)
    ensures
        r.title@ == context_title(c),
        lists(r.entries@, context_lines(c, *k, can_paste)),
{
    match c {
        ContextId::Files => CommandSection {
            title: "Files".to_string(),
            entries: files_commands(k),
        },
        ContextId::Worktrees => CommandSection {
            title: "Worktrees".to_string(),
            entries: worktrees_commands(),
        },
        ContextId::Submodules => CommandSection {
            title: "Submodules".to_string(),
            entries: submodules_commands(),
        },
        ContextId::Branches => CommandSection {
            title: "Branches".to_string(),
            entries: branches_commands(k),
        },
        ContextId::BranchCommits | ContextId::BranchCommitFiles => CommandSection {
            title: "Branch Commits".to_string(),
            entries: branch_commits_commands(k),
        },
        ContextId::Commits => CommandSection {
            title: "Commits".to_string(),
            entries: commits_commands(k, can_paste),
        },
        ContextId::CommitFiles => CommandSection {
            title: "Commit Files".to_string(),
            entries: commit_files_commands(k),
        },
        ContextId::Reflog => CommandSection {
            title: "Reflog".to_string(),
            entries: reflog_commands(k),
        },
        ContextId::Stash => CommandSection {
            title: "Stash".to_string(),
            entries: stash_commands(k),
        },
        ContextId::StashFiles => CommandSection {
            title: "Stash Files".to_string(),
            entries: stash_files_commands(k),
        },
        ContextId::Remotes => CommandSection {
            title: "Remotes".to_string(),
            entries: remotes_commands(k),
        },
        ContextId::RemoteBranches => CommandSection {
            title: "Remote Branches".to_string(),
            entries: remote_branches_commands(k),
        },
        ContextId::Tags => CommandSection {
            title: "Tags".to_string(),
            entries: tags_commands(),
        },
        ContextId::Status => CommandSection {
            title: "Status".to_string(),
            entries: status_commands(),
        },
    }
}

/// Whether a palette was just opened.
pub open spec fn just_opened(p: CommandPalette) -> bool {
    p.selected == 0 && p.scroll_offset == 0 && p.search().len() == 0 && input::holds(
        p.search_textarea,
        seq![],
    )
}

fn open_palette(sections: Vec<CommandSection>) -> (r: CommandPalette)
    ensures
        just_opened(r),
        r.sections == sections,
{
    let search_textarea = TextField::new();
    assert(text::join(search_textarea.text().lines, seq![]).len() == 0);
    CommandPalette { sections, selected: 0, search_textarea, scroll_offset: 0 }
}

/// Opens the palette with the commands of the active list, and below them those of every
/// list. Pasting is on it where commits were copied.
pub fn show_command_palette(popups: &mut Popups, active: ContextId, k: &Keybinding, can_paste: bool)
    ensures
        *final(popups) == old(popups).with(final(popups).popup),
        final(popups).popup matches PopupState::CommandPalette(p) && just_opened(p)
            && p.sections@.len() == 2 && p.sections@[0].title@ == context_title(active) && lists(
            p.sections@[0].entries@,
            context_lines(active, *k, can_paste),
        ) && p.sections@[1].title@ == "Universal"@ && lists(
            p.sections@[1].entries@,
            universal_lines(*k),
        ),
{
    let mut sections: Vec<CommandSection> = Vec::new();
    sections.push(context_section(active, k, can_paste));
    sections.push(
        CommandSection { title: "Universal".to_string(), entries: universal_commands(k) },
    );
    popups.popup = PopupState::CommandPalette(open_palette(sections));
}

/// What the line for taking a revert back says: how many can be taken back, of how many
/// there were.
pub open spec fn undo_description(left: nat, most: nat) -> Seq<char> {
    if left == 0 {
        "Undo last revert (nothing to undo)"@
    } else {
        "Undo last revert ("@ + text::decimal(left) + "/"@ + text::decimal(most) + ")"@
    }
}

/// The lines for a diff.
pub open spec fn diff_lines(k: Keybinding, left: nat, most: nat) -> Seq<Line> {
    Seq::empty()
        .push(line("j/k"@, "Scroll down / up"@))
        .push(line("h/l"@, "Scroll left / right"@))
        .push(line("{/}"@, "Cycle prev / next hunk (selects revert block in Files)"@))
        .push(line("["@, "Toggle old-only view"@))
        .push(line("]"@, "Toggle new-only view"@))
        .push(line(k.universal.toggle_diff_view_layout@, "Toggle unified / side-by-side view"@))
        .push(line("z"@, "Toggle line wrap"@))
        .push(line("g/G"@, "Go to top / bottom"@))
        .push(line("PgUp/PgDn"@, "Page up / down"@))
        .push(line("/"@, "Search in diff"@))
        .push(line("n/N"@, "Next / previous search match"@))
        .push(line("<enter>"@, "Open hunk menu on selected block (Files)"@))
        .push(line("click 󰧛"@, "Click revert icon to revert that block"@))
        .push(line("u"@, undo_description(left, most)))
        .push(line("e"@, "Edit file at line"@))
        .push(line("o"@, "Open file in default program"@))
        .push(line("y"@, "Copy selected text"@))
        .push(line("q"@, "Quit"@))
        .push(line("+/_"@, "Enlarge / shrink panel"@))
        .push(line(";"@, "Toggle command log"@))
        .push(line("1-5"@, "Jump to sidebar panel"@))
        .push(line("esc"@, "Return to sidebar"@))
        .push(line("?"@, "Show command palette"@))
        .push(theme_line())
}

fn diff_commands(k: &Keybinding, left: usize, most: usize) -> (r: Vec<CommandEntry>)
    ensures
        lists(r@, diff_lines(*k, left as nat, most as nat)),
{
    let undo = if left == 0 {
        "Undo last revert (nothing to undo)".to_string()
    } else {
        let mut t = "Undo last revert (".to_string();
        t.append(text::decimal_of(left).as_str());
        t.append("/");
        t.append(text::decimal_of(most).as_str());
        t.append(")");
        t
    };
    let mut v = start();
    put(&mut v, "j/k", "Scroll down / up");
    put(&mut v, "h/l", "Scroll left / right");
    put(&mut v, "{/}", "Cycle prev / next hunk (selects revert block in Files)");
    put(&mut v, "[", "Toggle old-only view");
    put(&mut v, "]", "Toggle new-only view");
    put(&mut v, k.universal.toggle_diff_view_layout.as_str(), "Toggle unified / side-by-side view");
    put(&mut v, "z", "Toggle line wrap");
    put(&mut v, "g/G", "Go to top / bottom");
    put(&mut v, "PgUp/PgDn", "Page up / down");
    put(&mut v, "/", "Search in diff");
    put(&mut v, "n/N", "Next / previous search match");
    put(&mut v, "<enter>", "Open hunk menu on selected block (Files)");
    put(&mut v, "click 󰧛", "Click revert icon to revert that block");
    put(&mut v, "u", undo.as_str());
    put(&mut v, "e", "Edit file at line");
    put(&mut v, "o", "Open file in default program");
    put(&mut v, "y", "Copy selected text");
    put(&mut v, "q", "Quit");
    put(&mut v, "+/_", "Enlarge / shrink panel");
    put(&mut v, ";", "Toggle command log");
    put(&mut v, "1-5", "Jump to sidebar panel");
    put(&mut v, "esc", "Return to sidebar");
    put(&mut v, "?", "Show command palette");
    put_themes(&mut v);
    v
}

/// Opens the palette with the commands of the diff, given how many reverts can be taken
/// back and of how many.
pub fn show_diff_command_palette(popups: &mut Popups, k: &Keybinding, left: usize, most: usize)
    ensures
        *final(popups) == old(popups).with(final(popups).popup),
        final(popups).popup matches PopupState::CommandPalette(p) && just_opened(p)
            && p.sections@.len() == 1 && p.sections@[0].title@ == "Diff Viewer"@ && lists(
            p.sections@[0].entries@,
            diff_lines(*k, left as nat, most as nat),
        ),
{
    let mut sections: Vec<CommandSection> = Vec::new();
    sections.push(
        CommandSection { title: "Diff Viewer".to_string(), entries: diff_commands(k, left, most) },
    );
    popups.popup = PopupState::CommandPalette(open_palette(sections));
}

/// What a command does once its key was read: what opens the themes stays, and any other
/// does what its key does, if it is one key.
pub open spec fn bound(e: CommandEntry, key: Option<KeyEvent>) -> CommandAction {
    if e.action == CommandAction::OpenThemePicker {
        CommandAction::OpenThemePicker
    } else {
        match key {
            Some(k) => CommandAction::Dispatch(k),
            None => CommandAction::Unavailable,
        }
    }
}

/// Lets the commands of a section do what their keys do, given the key that each text
/// stands for.
pub fn bind_commands(section: &mut CommandSection, keys: &Vec<Option<KeyEvent>>)
    requires
        keys@.len() == old(section).entries@.len(),
    ensures
        final(section).title == old(section).title,
        final(section).entries@.len() == old(section).entries@.len(),
        forall|i: int|
            0 <= i < keys@.len() ==> #[trigger] final(section).entries@[i] == (CommandEntry {
                action: bound(old(section).entries@[i], keys@[i]),
                ..old(section).entries@[i]
            }),
{
    let ghost before = section.entries@;
    let mut i: usize = 0;
    while i < section.entries.len()
        invariant
            i <= section.entries@.len(),
            section.title == old(section).title,
            before == old(section).entries@,
            section.entries@.len() == before.len(),
            keys@.len() == before.len(),
            forall|j: int|
                0 <= j < i ==> #[trigger] section.entries@[j] == (CommandEntry {
                    action: bound(before[j], keys@[j]),
                    ..before[j]
                }),
            forall|j: int| i <= j < before.len() ==> #[trigger] section.entries@[j] == before[j],
        decreases section.entries@.len() - i,
    {
        let action = match (section.entries[i].action, keys[i]) {
            (CommandAction::OpenThemePicker, _) => CommandAction::OpenThemePicker,
            (_, Some(k)) => CommandAction::Dispatch(k),
            (_, None) => CommandAction::Unavailable,
        };
        let entry = CommandEntry {
            key: section.entries[i].key.clone(),
            description: section.entries[i].description.clone(),
            action,
        };
        section.entries.set(i, entry);
        i = i + 1;
    }
}

// ---------------------------------------------------------------------------
// Laws
// ---------------------------------------------------------------------------

/// Pasting commits is on the palette exactly where commits were copied, and it comes
/// first.
pub proof fn pasting_is_offered_after_copying(k: Keybinding)
    ensures
        commits_lines(k, true)[0] == line(k.commits.paste_commits@, "Paste (cherry-pick)"@),
        commits_lines(k, true).len() == commits_lines(k, false).len() + 1,
        forall|i: int|
            0 <= i < commits_lines(k, false).len() ==> #[trigger] commits_lines(k, true)[i + 1]
                == commits_lines(k, false)[i],
{
}

/// A command does what its key does; without a key it does nothing, unless it opens the list
/// of themes.
pub proof fn commands_do_what_their_keys_do(e: CommandEntry, key: KeyEvent)
    ensures
        e.action is OpenThemePicker ==> bound(e, Some(key)) is OpenThemePicker && bound(e, None)
            is OpenThemePicker,
        !(e.action is OpenThemePicker) ==> bound(e, Some(key)) == CommandAction::Dispatch(key)
            && bound(e, None) is Unavailable,
{
}

/// Every list has the commands of its own above those of all lists, each with a title.
pub proof fn every_list_has_commands(c: ContextId, k: Keybinding, can_paste: bool)
    ensures
        context_lines(c, k, can_paste).len() > 0,
        forall|i: int|
            0 <= i < context_lines(c, k, can_paste).len() ==> !(#[trigger] context_lines(
                c,
                k,
                can_paste,
            )[i]).themes,
        universal_lines(k).last().themes,
{
}

/// It is told how many reverts can be taken back, of how many there were.
pub proof fn reverts_left_are_told(left: nat, most: nat)
    ensures
        undo_description(0, most) == "Undo last revert (nothing to undo)"@,
        left > 0 ==> undo_description(left, most) == "Undo last revert ("@ + text::decimal(left)
            + "/"@ + text::decimal(most) + ")"@,
{
}

} // verus!
