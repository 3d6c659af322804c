//! The blocks of changes of a file: staging one, reverting one, and taking that back.

use crate::gui::context::ContextId;
use crate::gui::diff_jobs;
use crate::gui::diff_jobs::Selection;
use crate::gui::input::{diff_block_mode_actionable, rect_contains, Rect};
use crate::gui::popup::keys::{PopupState, Popups};
use crate::gui::popup::menu::{Menu, MenuItem};
use crate::gui::popup::{Action, MessageKind, Notice, Refresh};
use crate::gui::refresh;
use crate::gui::selection::TextSelection;
use crate::model::File;
use crate::text;
use vstd::prelude::*;

verus! {

// ---------------------------------------------------------------------------
// The menu of a block
// ---------------------------------------------------------------------------

/// Whether items are those of the menu of a block: first the one that does nothing, so
/// that an accidental Enter changes nothing.
pub open spec fn hunk_items(v: Seq<MenuItem>, index: usize) -> bool {
    &&& v.len() == 3
    &&& v[0].label@ == "Cancel"@ && v[0].description@.len() == 0 && v[0].key is None
    &&& v[0].action == Some(Action::DoNothing)
    &&& v[1].label@ == "Stage hunk"@ && v[1].description@ == "Apply this change block to the index"@
    &&& text::opt_text(v[1].key) == Some("s"@)
    &&& v[1].action == Some(Action::StageHunk { index })
    &&& v[2].label@ == "Revert hunk"@ && v[2].description@
        == "Remove this change block from the worktree"@
    &&& text::opt_text(v[2].key) == Some("r"@)
    &&& v[2].action == Some(Action::RevertHunk { index })
}

/// Opens the menu of a block.
pub fn show_hunk_context_menu(popups: &mut Popups, index: usize)
    ensures
        *final(popups) == old(popups).with(final(popups).popup),
        final(popups).popup matches PopupState::Menu(m) && m.title@ == "Hunk"@ && m.selected == 0
            && m.loading_index is None && hunk_items(m.items@, index),
{
    let mut items: Vec<MenuItem> = Vec::new();
    items.push(
        MenuItem {
            label: "Cancel".to_string(),
            description: String::new(),
            key: None,
            action: Some(Action::DoNothing),
        },
    );
    items.push(
        MenuItem {
            label: "Stage hunk".to_string(),
            description: "Apply this change block to the index".to_string(),
            key: Some("s".to_string()),
            action: Some(Action::StageHunk { index }),
        },
    );
    items.push(
        MenuItem {
            label: "Revert hunk".to_string(),
            description: "Remove this change block from the worktree".to_string(),
            key: Some("r".to_string()),
            action: Some(Action::RevertHunk { index }),
        },
    );
    popups.popup = PopupState::Menu(Menu::new("Hunk".to_string(), items));
}

// ---------------------------------------------------------------------------
// Block mode
// ---------------------------------------------------------------------------

/// Whether blocks can be chosen: the selected file has changes that are not staged, and
/// its diff has blocks.
pub open spec fn blocks_to_choose(s: Selection, files: Seq<File>, hunk_count: nat) -> bool {
    (refresh::selected_file(s, files) matches Some(f) && f.has_unstaged_changes) && hunk_count > 0
}

/// Starts choosing among blocks and tells so, or says why there are none to choose from.
pub fn enter_diff_block_mode_or_show_message(
    popups: &mut Popups,
    s: &Selection,
    files: &Vec<File>,
    hunk_count: usize,
) -> (r: bool)
    ensures
        r == blocks_to_choose(*s, files@, hunk_count as nat),
        r ==> *final(popups) == *old(popups),
        !r ==> *final(popups) == old(popups).with(final(popups).popup) && (final(
            popups).popup matches PopupState::Message(n) && n.title@ == "Block mode"@ && n.message@
            == "Block mode is available only for unstaged file changes."@ && n.kind is Info),
{
    let unstaged = refresh::selected_file_has_unstaged_changes(s, files);
    if diff_block_mode_actionable(unstaged, hunk_count) {
        return true;
    }
    popups.popup = PopupState::Message(
        Notice {
            title: "Block mode".to_string(),
            message: "Block mode is available only for unstaged file changes.".to_string(),
            kind: MessageKind::Info,
        },
    );
    false
}

// ---------------------------------------------------------------------------
// Staging and reverting a block
// ---------------------------------------------------------------------------

/// What is done with a block.
#[derive(Debug, Clone, Copy, PartialEq, Eq, Structural)]
pub enum BlockDeed {
    Stage,
    Revert,
}

/// What follows from asking for a block to be staged or reverted.
#[derive(Debug)]
pub enum BlockPlan {
    Nothing,
    /// The file has no changes for it: this is said.
    Refused,
    /// The diff of the file is read, and the block looked up in it.
    ReadDiff { file: String },
}

/// The lines that a block has on the old and on the new side, as the first and the last.
pub type BlockLines = (Option<(usize, usize)>, Option<(usize, usize)>);

/// The title under which a block is refused.
pub open spec fn refusal_title(deed: BlockDeed) -> Seq<char> {
    match deed {
        BlockDeed::Stage => "Stage block"@,
        BlockDeed::Revert => "Revert block"@,
    }
}

/// Why a block is refused.
pub open spec fn refusal_text(deed: BlockDeed) -> Seq<char> {
    match deed {
        BlockDeed::Stage => "Block staging is available only for unstaged changes."@,
        BlockDeed::Revert => "Block revert is available only for unstaged changes."@,
    }
}

/// The file at the selection, whatever list is active.
pub open spec fn file_at_selection(s: Selection, files: Seq<File>) -> Option<File> {
    let i = diff_jobs::picked_index(s.show_file_tree, s.file_tree_nodes@, s.selected);
    if i is Some && i->0 < files.len() {
        Some(files[i->0 as int])
    } else {
        None
    }
}

/// Whether a block has lines on one side at least.
pub open spec fn has_lines(lines: Option<BlockLines>) -> bool {
    lines matches Some((a, b)) && (a is Some || b is Some)
}

/// Decides what follows from asking for a block to be staged or reverted, given the lines
/// of the block where the diff on show has it.
pub fn plan_block(
    popups: &mut Popups,
    deed: BlockDeed,
    s: &Selection,
    files: &Vec<File>,
    lines: Option<BlockLines>,
) -> (r: BlockPlan)
    ensures
        match file_at_selection(*s, files@) {
            None => r is Nothing && *final(popups) == *old(popups),
            Some(f) => if !f.has_unstaged_changes {
                r is Refused && *final(popups) == old(popups).with(final(popups).popup) && (final(
                    popups).popup matches PopupState::Message(n) && n.title@ == refusal_title(deed)
                    && n.message@ == refusal_text(deed) && n.kind is Info)
            } else {
                *final(popups) == *old(popups) && if has_lines(lines) {
                    r matches BlockPlan::ReadDiff { file } && file@ == f.name@
                } else {
                    r is Nothing
                }
            },
        },
{
    let i: usize = match refresh::selected_file_index(s) {
        Some(i) => i,
        None => {
            return BlockPlan::Nothing;
        },
    };
    if i >= files.len() {
        return BlockPlan::Nothing;
    }
    if !files[i].has_unstaged_changes {
        let (title, message) = match deed {
            BlockDeed::Stage => (
                "Stage block".to_string(),
                "Block staging is available only for unstaged changes.".to_string(),
            ),
            BlockDeed::Revert => (
                "Revert block".to_string(),
                "Block revert is available only for unstaged changes.".to_string(),
            ),
        };
        popups.popup = PopupState::Message(Notice { title, message, kind: MessageKind::Info });
        return BlockPlan::Refused;
    }
    let present = match lines {
        Some((a, b)) => a.is_some() || b.is_some(),
        None => false,
    };
    if present {
        BlockPlan::ReadDiff { file: files[i].name.clone() }
    } else {
        BlockPlan::Nothing
    }
}

/// Tells whether the diff that was read has anything to stage or revert.
pub fn diff_has_changes(diff: &str) -> (r: bool)
    ensures
        r == (diff@.len() > 0),
{
    !text::is_empty_str(diff)
}

// ---------------------------------------------------------------------------
// Taking a revert back
// ---------------------------------------------------------------------------

/// A file as it was before a block of it was reverted.
#[derive(Debug)]
pub struct RevertUndoEntry {
    pub file_path: String,
    pub pre_revert_bytes: Vec<u8>,
}

/// The reverts that can be taken back, the last one at the end.
#[derive(Debug)]
pub struct RevertUndo {
    pub stack: Vec<RevertUndoEntry>,
    /// The most there were since there were none.
    pub high_water: usize,
}

impl RevertUndo {
    /// There were at least as many as there are.
    pub open spec fn wf(self) -> bool {
        self.stack@.len() <= self.high_water
    }

    /// Nothing to take back.
    pub fn new() -> (r: Self)
        ensures
            r.wf(),
            r.stack@.len() == 0,
            r.high_water == 0,
    {
        RevertUndo { stack: Vec::new(), high_water: 0 }
    }

    /// What can be taken back once one more revert was made: the oldest is forgotten
    /// where there are `cap` already.
    pub open spec fn with(self, entry: RevertUndoEntry, cap: nat) -> Seq<RevertUndoEntry> {
        if self.stack@.len() >= cap {
            self.stack@.subrange(1, self.stack@.len() as int).push(entry)
        } else {
            self.stack@.push(entry)
        }
    }

    /// Remembers a file as it was before a block of it was reverted.
    pub fn remember(&mut self, entry: RevertUndoEntry, cap: usize)
        requires
            old(self).stack@.len() >= cap ==> old(self).stack@.len() > 0,
        ensures
            final(self).stack@ == old(self).with(entry, cap as nat),
            final(self).high_water == crate::gui::picker::at_least(
                old(self).high_water as int,
                final(self).stack@.len() as int,
            ),
            final(self).wf(),
    {
        if self.stack.len() >= cap {
            self.stack.remove(0);
            assert(self.stack@ =~= old(self).stack@.subrange(1, old(self).stack@.len() as int));
        }
        self.stack.push(entry);
        let n: usize = self.stack.len();
        if n > self.high_water {
            self.high_water = n;
        }
    }

    /// Gives the last revert to take back, if there is one.
    pub fn undo_last(&mut self) -> (r: Option<RevertUndoEntry>)
        ensures
            if old(self).stack@.len() == 0 {
                r is None && *final(self) == *old(self)
            } else {
                &&& r == Some(old(self).stack@.last())
                &&& final(self).stack@ == old(self).stack@.drop_last()
                &&& final(self).high_water == old(self).high_water
            },
            old(self).wf() ==> final(self).wf(),
    {
        if self.stack.len() == 0 {
            return None;
        }
        self.stack.pop()
    }

    /// Starts counting anew once a file was restored and nothing is left to take back.
    pub fn restored(&mut self)
        ensures
            *final(self) == (RevertUndo {
                high_water: if old(self).stack@.len() == 0 {
                    0
                } else {
                    old(self).high_water
                },
                ..*old(self)
            }),
            old(self).wf() ==> final(self).wf(),
    {
        if self.stack.len() == 0 {
            self.high_water = 0;
        }
    }
}

/// What follows once a block was staged or reverted: nothing is selected in the diff any
/// more, and the files and the diff are loaded anew. A file that was read before a revert
/// can be restored. Gives the block that is marked as staged for a moment, if one was.
pub fn after_block(
    deed: BlockDeed,
    index: usize,
    before: Option<RevertUndoEntry>,
    cap: usize,
    undo: &mut RevertUndo,
    selection: &mut Option<TextSelection>,
) -> (r: (Option<usize>, Refresh))
    requires
        old(undo).stack@.len() >= cap ==> old(undo).stack@.len() > 0,
    ensures
        r.0 == if deed is Stage {
            Some(index)
        } else {
            None
        },
        r.1 == (Refresh { all: false, files: true, diff: true }),
        *final(selection) is None,
        if deed is Revert && before is Some {
            &&& final(undo).stack@ == old(undo).with(before->0, cap as nat)
            &&& final(undo).high_water == crate::gui::picker::at_least(
                old(undo).high_water as int,
                final(undo).stack@.len() as int,
            )
        } else {
            *final(undo) == *old(undo)
        },
        old(undo).wf() ==> final(undo).wf(),
{
    *selection = None;
    let refresh = Refresh { all: false, files: true, diff: true };
    match deed {
        BlockDeed::Stage => (Some(index), refresh),
        BlockDeed::Revert => {
            match before {
                Some(entry) => {
                    undo.remember(entry, cap);
                },
                None => {},
            }
            (None, refresh)
        },
    }
}

/// What follows once a file was written as it was before a revert: the files and the diff
/// are loaded anew, and with nothing left to take back the count starts anew. Where it
/// could not be written, this is told.
pub fn after_restore(undo: &mut RevertUndo, file_path: &str, failure: Option<&str>) -> (r: Result<
    Refresh,
    String,
>)
    ensures
        match failure {
            None => r == Ok::<Refresh, String>(Refresh { all: false, files: true, diff: true })
                && *final(undo) == (RevertUndo {
                high_water: if old(undo).stack@.len() == 0 {
                    0
                } else {
                    old(undo).high_water
                },
                ..*old(undo)
            }),
            Some(cause) => *final(undo) == *old(undo) && (r matches Err(e) && e@
                == "failed to restore "@ + file_path@ + ": "@ + cause@),
        },
        old(undo).wf() ==> final(undo).wf(),
{
    match failure {
        None => {
            undo.restored();
            Ok(Refresh { all: false, files: true, diff: true })
        },
        Some(cause) => {
            let mut e = "failed to restore ".to_string();
            e.append(file_path);
            e.append(": ");
            e.append(cause);
            Err(e)
        },
    }
}

// ---------------------------------------------------------------------------
// The mark of a block
// ---------------------------------------------------------------------------

/// Where the mouse is in a diff, as far as the diff itself tells.
#[derive(Debug, Clone, Copy)]
pub struct DiffCell {
    pub diff_empty: bool,
    /// The column between the two sides, where the marks stand.
    pub divider_x: Option<u16>,
    /// The line in the row of the mouse, and which of its rows it is.
    pub line: Option<(usize, usize)>,
    /// The block that begins with that line.
    pub hunk: Option<usize>,
}

/// The block at whose mark the mouse is: the mark stands between the sides, in the first
/// row of the first line of the block.
pub open spec fn marked_hunk(active: ContextId, panel: Rect, c: DiffCell, col: u16, row: u16) -> Option<
    usize,
> {
    if active is Files && !c.diff_empty && panel.contains(col as int, row as int) && c.divider_x
        == Some(col) && (c.line matches Some((_, k)) && k == 0) {
        c.hunk
    } else {
        None
    }
}

/// Tells the block at whose mark the mouse is.
pub fn revert_hunk_at_position(active: ContextId, panel: Rect, c: &DiffCell, col: u16, row: u16) -> (r:
    Option<usize>)
    ensures
        r == marked_hunk(active, panel, *c, col, row),
{
    if active != ContextId::Files || c.diff_empty || !rect_contains(panel, col, row) {
        return None;
    }
    match c.divider_x {
        Some(x) if x == col => {},
        _ => {
            return None;
        },
    }
    match c.line {
        Some((_, k)) if k == 0 => c.hunk,
        _ => None,
    }
}

/// Tells the block that a click on its mark reverts: none while two references are
/// compared.
pub fn try_handle_revert_block_click(
    diff_mode: bool,
    active: ContextId,
    panel: Rect,
    c: &DiffCell,
    col: u16,
    row: u16,
) -> (r: Option<usize>)
    ensures
        r == if diff_mode {
            None
        } else {
            marked_hunk(active, panel, *c, col, row)
        },
{
    if diff_mode {
        return None;
    }
    revert_hunk_at_position(active, panel, c, col, row)
}

// ---------------------------------------------------------------------------
// Laws
// ---------------------------------------------------------------------------

/// The last revert is the first to be taken back, and taking it back leaves what there
/// was before it, but for the oldest where there was no room.
pub proof fn the_last_revert_is_taken_back_first(u: RevertUndo, entry: RevertUndoEntry, cap: nat)
    requires
        u.stack@.len() >= cap ==> u.stack@.len() > 0,
    ensures
        u.with(entry, cap).last() == entry,
        u.stack@.len() < cap ==> u.with(entry, cap).drop_last() == u.stack@,
{
    if u.stack@.len() < cap {
        assert(u.with(entry, cap).drop_last() =~= u.stack@);
    }
}

/// No more reverts are remembered than there is room for.
pub proof fn reverts_stay_within_the_cap(u: RevertUndo, entry: RevertUndoEntry, cap: nat)
    requires
        0 < cap,
        u.stack@.len() <= cap,
    ensures
        u.with(entry, cap).len() <= cap,
{
}

/// Where there is no room the oldest revert is forgotten, and the others stay in order.
pub proof fn the_oldest_revert_is_forgotten(u: RevertUndo, entry: RevertUndoEntry, cap: nat)
    requires
        0 < cap <= u.stack@.len(),
    ensures
        u.with(entry, cap) == u.stack@.skip(1).push(entry),
{
    assert(u.with(entry, cap) =~= u.stack@.skip(1).push(entry));
}

/// The mark of a block stands between the sides of the diff of a changed file, in the first
/// row of its first line, and nowhere else.
pub proof fn a_mark_is_where_it_is_drawn(
    active: ContextId,
    panel: Rect,
    c: DiffCell,
    col: u16,
    row: u16,
)
    ensures
        marked_hunk(active, panel, c, col, row) is Some ==> active is Files && !c.diff_empty
            && c.divider_x == Some(col) && (c.line matches Some(l) && l.1 == 0) && panel.x <= col
            < panel.x + panel.width && panel.y <= row < panel.y + panel.height,
        active is Files && !c.diff_empty && c.divider_x == Some(col) && (c.line matches Some(l)
            && l.1 == 0) && panel.x <= col < panel.x + panel.width && panel.y <= row < panel.y
            + panel.height ==> marked_hunk(active, panel, c, col, row) == c.hunk,
{
}

/// A block has lines where it has some on the old or on the new side.
pub proof fn one_side_of_a_block_is_enough(a: (usize, usize), side: Option<(usize, usize)>)
    ensures
        has_lines(Some((Some(a), side))),
        has_lines(Some((side, Some(a)))),
        !has_lines(Some((None, None))),
        !has_lines(None),
{
}

/// What is refused is told by its name.
pub proof fn refusals_name_what_was_asked()
    ensures
        refusal_title(BlockDeed::Stage) == "Stage block"@,
        refusal_title(BlockDeed::Revert) == "Revert block"@,
        refusal_text(BlockDeed::Stage)
            == "Block staging is available only for unstaged changes."@,
        refusal_text(BlockDeed::Revert)
            == "Block revert is available only for unstaged changes."@,
{
}

} // verus!
