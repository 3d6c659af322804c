//! What a key means while the diff has the keys.

use crate::gui::context::ContextId;
use crate::gui::input;
use crate::gui::input::{is_diff_block_mode_toggle, KeyCode, KeyEvent};
use crate::gui::keys;
use crate::gui::diff_pane::DiffPane;
use crate::gui::interactive::EditRequest;
use crate::gui::keys::{Bindings, KeyCommand, SideWindow};
use crate::gui::startup::Gui;
use crate::gui::textarea;
use crate::gui::textarea::TextField;
use crate::pager::DiffViewState;
use crate::text;
use vstd::prelude::*;

verus! {

/// What the meaning of a key depends on.
#[derive(Debug, Clone, Copy, PartialEq, Eq, Structural)]
pub struct DiffKeyState {
    pub search_active: bool,
    pub has_search_query: bool,
    /// Whether some text is selected, and whether by a mere click.
    pub selection: Option<bool>,
    pub file_exists: bool,
    pub block_mode: bool,
    /// Whether blocks can be staged and reverted here.
    pub blocks_actionable: bool,
    pub selected_hunk: Option<usize>,
    pub hovered_hunk: Option<usize>,
    /// Whether a reverted block can be brought back.
    pub can_undo_revert: bool,
    pub active: ContextId,
    /// The window that a digit names.
    pub window: Option<SideWindow>,
}

/// What a key means.
#[derive(Debug, Clone, Copy, PartialEq, Eq, Structural)]
pub enum DiffCommand {
    Stay,
    ToSearch,
    EditSelection,
    CopySelection,
    PushOrPull,
    ExitBlockMode,
    EnterBlockMode,
    NextBlock,
    PrevBlock,
    RevertHunk(usize),
    StageHunk(usize),
    UndoRevert,
    /// A hunk is selected and the menu for it opened.
    ShowHunkMenu(usize),
    EditFile,
    OpenFile,
    NextScreenMode,
    PrevScreenMode,
    StartSearch,
    NextMatch,
    PrevMatch,
    ToggleCommandLog,
    ShowCommands,
    /// The keys go to a window of the side panel.
    FocusWindow(SideWindow),
    ClearHunk,
    ClearSearch,
    Unfocus,
    Quit,
    Scroll { down: bool, lines: usize },
    ScrollSideways { right: bool, columns: usize },
    NextHunk,
    PrevHunk,
    ToggleNewOnly,
    ToggleOldOnly,
    ToggleWrap,
    Top,
    Bottom,
}

/// What a key means, and whether the selected text is no longer selected after it.
#[derive(Debug, Clone, Copy, PartialEq, Eq, Structural)]
pub struct DiffKeyOutcome {
    pub drop_selection: bool,
    pub command: DiffCommand,
}

/// What a key means for selected text; none where it only ends the selection and goes
/// on. After a mere click any key ends it and goes nowhere.
pub open spec fn selection_command(key: KeyEvent, is_click: bool, file_exists: bool) -> Option<DiffCommand> {
    if key.code == KeyCode::Char('e') && file_exists {
        Some(DiffCommand::EditSelection)
    } else if key.code == KeyCode::Char('y') && !is_click {
        Some(DiffCommand::CopySelection)
    } else if key.code is Esc || is_click {
        Some(DiffCommand::Stay)
    } else {
        None
    }
}

/// What a key means while blocks are selected one by one.
pub open spec fn block_command(key: KeyEvent, s: DiffKeyState) -> DiffCommand {
    if !s.blocks_actionable {
        DiffCommand::ExitBlockMode
    } else if input::toggles_block_mode(key) {
        DiffCommand::ExitBlockMode
    } else {
        match key.code {
            KeyCode::Esc | KeyCode::Char('q') => DiffCommand::ExitBlockMode,
            KeyCode::Char('j') | KeyCode::Down | KeyCode::Char('}') => DiffCommand::NextBlock,
            KeyCode::Char('k') | KeyCode::Up | KeyCode::Char('{') => DiffCommand::PrevBlock,
            KeyCode::Char('r') => match s.selected_hunk {
                Some(h) => DiffCommand::RevertHunk(h),
                None => DiffCommand::Stay,
            },
            KeyCode::Char('s') => match s.selected_hunk {
                Some(h) => DiffCommand::StageHunk(h),
                None => DiffCommand::Stay,
            },
            KeyCode::Char('u') => if s.can_undo_revert {
                DiffCommand::UndoRevert
            } else {
                DiffCommand::Stay
            },
            KeyCode::Enter => match s.selected_hunk {
                Some(h) => DiffCommand::ShowHunkMenu(h),
                None => DiffCommand::Stay,
            },
            _ => DiffCommand::Stay,
        }
    }
}

/// The hunk that is acted upon: the selected one, or the one under the pointer.
pub open spec fn target_hunk(s: DiffKeyState) -> Option<usize> {
    match s.selected_hunk {
        Some(h) => Some(h),
        None => s.hovered_hunk,
    }
}

/// What a key means by how it is bound.
pub open spec fn bound_command(key: KeyEvent, b: Bindings, s: DiffKeyState) -> Option<DiffCommand> {
    let in_files = s.active == ContextId::Files;
    if input::toggles_block_mode(key) && in_files {
        Some(DiffCommand::EnterBlockMode)
    } else if b.edit {
        Some(DiffCommand::EditFile)
    } else if b.open_file {
        Some(DiffCommand::OpenFile)
    } else if b.next_screen_mode {
        Some(DiffCommand::NextScreenMode)
    } else if b.prev_screen_mode {
        Some(DiffCommand::PrevScreenMode)
    } else if b.start_search {
        Some(DiffCommand::StartSearch)
    } else if s.has_search_query && b.next_match {
        Some(DiffCommand::NextMatch)
    } else if s.has_search_query && b.prev_match {
        Some(DiffCommand::PrevMatch)
    } else if b.revert_block {
        Some(
            match target_hunk(s) {
                Some(h) if in_files => DiffCommand::ShowHunkMenu(h),
                _ => DiffCommand::Stay,
            },
        )
    } else if b.undo_revert_block {
        Some(
            if in_files && s.can_undo_revert {
                DiffCommand::UndoRevert
            } else {
                DiffCommand::Stay
            },
        )
    } else if key.code == KeyCode::Char(';') {
        Some(DiffCommand::ToggleCommandLog)
    } else if key.code == KeyCode::Char('?') {
        Some(DiffCommand::ShowCommands)
    } else if keys::is_window_digit(key) && s.window is Some {
        Some(DiffCommand::FocusWindow(s.window->0))
    } else if b.scroll_left {
        Some(DiffCommand::ScrollSideways { right: false, columns: 4 })
    } else if b.scroll_right {
        Some(DiffCommand::ScrollSideways { right: true, columns: 4 })
    } else {
        None
    }
}

/// What a key means that is not bound otherwise. Among the changed files, going from
/// hunk to hunk also selects them.
pub open spec fn fixed_command(key: KeyEvent, s: DiffKeyState) -> DiffCommand {
    let in_files = s.active == ContextId::Files;
    match key.code {
        KeyCode::Esc => if s.selected_hunk is Some {
            DiffCommand::ClearHunk
        } else if s.has_search_query {
            DiffCommand::ClearSearch
        } else {
            DiffCommand::Unfocus
        },
        KeyCode::Char('q') => DiffCommand::Quit,
        KeyCode::Char('j') | KeyCode::Down => DiffCommand::Scroll { down: true, lines: 1 },
        KeyCode::Char('k') | KeyCode::Up => DiffCommand::Scroll { down: false, lines: 1 },
        KeyCode::Char('h') | KeyCode::Left => DiffCommand::ScrollSideways {
            right: false,
            columns: 4,
        },
        KeyCode::Char('l') | KeyCode::Right => DiffCommand::ScrollSideways {
            right: true,
            columns: 4,
        },
        KeyCode::Char('}') => if in_files {
            DiffCommand::NextBlock
        } else {
            DiffCommand::NextHunk
        },
        KeyCode::Char('{') => if in_files {
            DiffCommand::PrevBlock
        } else {
            DiffCommand::PrevHunk
        },
        KeyCode::Char(']') => DiffCommand::ToggleNewOnly,
        KeyCode::Char('[') => DiffCommand::ToggleOldOnly,
        KeyCode::Char('z') => DiffCommand::ToggleWrap,
        KeyCode::PageDown => DiffCommand::Scroll { down: true, lines: 20 },
        KeyCode::PageUp => DiffCommand::Scroll { down: false, lines: 20 },
        KeyCode::Char('g') => DiffCommand::Top,
        KeyCode::Char('G') => DiffCommand::Bottom,
        _ => DiffCommand::Stay,
    }
}

/// What a key means once no selection claims it.
pub open spec fn unselected_command(key: KeyEvent, b: Bindings, s: DiffKeyState) -> DiffCommand {
    if b.push_files || b.pull_files {
        DiffCommand::PushOrPull
    } else if s.block_mode {
        block_command(key, s)
    } else {
        match bound_command(key, b, s) {
            Some(c) => c,
            None => fixed_command(key, s),
        }
    }
}

/// What a key means while the diff has the keys.
pub open spec fn diff_command(key: KeyEvent, b: Bindings, s: DiffKeyState) -> DiffKeyOutcome {
    if s.search_active {
        DiffKeyOutcome { drop_selection: false, command: DiffCommand::ToSearch }
    } else {
        match s.selection {
            Some(is_click) => DiffKeyOutcome {
                drop_selection: true,
                command: match selection_command(key, is_click, s.file_exists) {
                    Some(c) => c,
                    None => unselected_command(key, b, s),
                },
            },
            None => DiffKeyOutcome {
                drop_selection: false,
                command: unselected_command(key, b, s),
            },
        }
    }
}

fn block_of(key: KeyEvent, s: &DiffKeyState) -> (r: DiffCommand)
    ensures
        r == block_command(key, *s),
{
    if !s.blocks_actionable || is_diff_block_mode_toggle(key) {
        return DiffCommand::ExitBlockMode;
    }
    match key.code {
        KeyCode::Esc | KeyCode::Char('q') => DiffCommand::ExitBlockMode,
        KeyCode::Char('j') | KeyCode::Down | KeyCode::Char('}') => DiffCommand::NextBlock,
        KeyCode::Char('k') | KeyCode::Up | KeyCode::Char('{') => DiffCommand::PrevBlock,
        KeyCode::Char('r') => match s.selected_hunk {
            Some(h) => DiffCommand::RevertHunk(h),
            None => DiffCommand::Stay,
        },
        KeyCode::Char('s') => match s.selected_hunk {
            Some(h) => DiffCommand::StageHunk(h),
            None => DiffCommand::Stay,
        },
        KeyCode::Char('u') => if s.can_undo_revert {
            DiffCommand::UndoRevert
        } else {
            DiffCommand::Stay
        },
        KeyCode::Enter => match s.selected_hunk {
            Some(h) => DiffCommand::ShowHunkMenu(h),
            None => DiffCommand::Stay,
        },
        _ => DiffCommand::Stay,
    }
}

fn bound_of(key: KeyEvent, b: &Bindings, s: &DiffKeyState) -> (r: Option<DiffCommand>)
    ensures
        r == bound_command(key, *b, *s),
{
    let in_files = s.active == ContextId::Files;
    if is_diff_block_mode_toggle(key) && in_files {
        return Some(DiffCommand::EnterBlockMode);
    }
    if b.edit {
        return Some(DiffCommand::EditFile);
    }
    if b.open_file {
        return Some(DiffCommand::OpenFile);
    }
    if b.next_screen_mode {
        return Some(DiffCommand::NextScreenMode);
    }
    if b.prev_screen_mode {
        return Some(DiffCommand::PrevScreenMode);
    }
    if b.start_search {
        return Some(DiffCommand::StartSearch);
    }
    if s.has_search_query {
        if b.next_match {
            return Some(DiffCommand::NextMatch);
        }
        if b.prev_match {
            return Some(DiffCommand::PrevMatch);
        }
    }
    if b.revert_block {
        let hunk = match s.selected_hunk {
            Some(h) => Some(h),
            None => s.hovered_hunk,
        };
        return Some(
            match hunk {
                Some(h) if in_files => DiffCommand::ShowHunkMenu(h),
                _ => DiffCommand::Stay,
            },
        );
    }
    if b.undo_revert_block {
        return Some(
            if in_files && s.can_undo_revert {
                DiffCommand::UndoRevert
            } else {
                DiffCommand::Stay
            },
        );
    }
    if key.code == KeyCode::Char(';') {
        return Some(DiffCommand::ToggleCommandLog);
    }
    if key.code == KeyCode::Char('?') {
        return Some(DiffCommand::ShowCommands);
    }
    if keys::window_digit(key) {
        match s.window {
            Some(w) => {
                return Some(DiffCommand::FocusWindow(w));
            },
            None => {},
        }
    }
    if b.scroll_left {
        return Some(DiffCommand::ScrollSideways { right: false, columns: 4 });
    }
    if b.scroll_right {
        return Some(DiffCommand::ScrollSideways { right: true, columns: 4 });
    }
    None
}

fn fixed_of(key: KeyEvent, s: &DiffKeyState) -> (r: DiffCommand)
    ensures
        r == fixed_command(key, *s),
{
    let in_files = s.active == ContextId::Files;
    match key.code {
        KeyCode::Esc => {
            if s.selected_hunk.is_some() {
                DiffCommand::ClearHunk
            } else if s.has_search_query {
                DiffCommand::ClearSearch
            } else {
                DiffCommand::Unfocus
            }
        },
        KeyCode::Char('q') => DiffCommand::Quit,
        KeyCode::Char('j') | KeyCode::Down => DiffCommand::Scroll { down: true, lines: 1 },
        KeyCode::Char('k') | KeyCode::Up => DiffCommand::Scroll { down: false, lines: 1 },
        KeyCode::Char('h') | KeyCode::Left => DiffCommand::ScrollSideways {
            right: false,
            columns: 4,
        },
        KeyCode::Char('l') | KeyCode::Right => DiffCommand::ScrollSideways {
            right: true,
            columns: 4,
        },
        KeyCode::Char('}') => if in_files {
            DiffCommand::NextBlock
        } else {
            DiffCommand::NextHunk
        },
        KeyCode::Char('{') => if in_files {
            DiffCommand::PrevBlock
        } else {
            DiffCommand::PrevHunk
        },
        KeyCode::Char(']') => DiffCommand::ToggleNewOnly,
        KeyCode::Char('[') => DiffCommand::ToggleOldOnly,
        KeyCode::Char('z') => DiffCommand::ToggleWrap,
        KeyCode::PageDown => DiffCommand::Scroll { down: true, lines: 20 },
        KeyCode::PageUp => DiffCommand::Scroll { down: false, lines: 20 },
        KeyCode::Char('g') => DiffCommand::Top,
        KeyCode::Char('G') => DiffCommand::Bottom,
        _ => DiffCommand::Stay,
    }
}

/// Decides what a key means while the diff has the keys.
pub fn handle_diff_focused_key(key: KeyEvent, b: &Bindings, s: &DiffKeyState) -> (r: DiffKeyOutcome)
    ensures
        r == diff_command(key, *b, *s),
{
    if s.search_active {
        return DiffKeyOutcome { drop_selection: false, command: DiffCommand::ToSearch };
    }
    let mut drop_selection = false;
    match s.selection {
        Some(is_click) => {
            drop_selection = true;
            if key.code == KeyCode::Char('e') && s.file_exists {
                return DiffKeyOutcome { drop_selection, command: DiffCommand::EditSelection };
            }
            if key.code == KeyCode::Char('y') && !is_click {
                return DiffKeyOutcome { drop_selection, command: DiffCommand::CopySelection };
            }
            if key.code == KeyCode::Esc || is_click {
                return DiffKeyOutcome { drop_selection, command: DiffCommand::Stay };
            }
        },
        None => {},
    }
    let command = if b.push_files || b.pull_files {
        DiffCommand::PushOrPull
    } else if s.block_mode {
        block_of(key, s)
    } else {
        match bound_of(key, b, s) {
            Some(c) => c,
            None => fixed_of(key, s),
        }
    };
    DiffKeyOutcome { drop_selection, command }
}

// ---------------------------------------------------------------------------
// Search in the diff
// ---------------------------------------------------------------------------

/// What a key leads to while a text to search for is typed.
#[derive(Debug)]
pub enum DiffSearchStep {
    Dismiss,
    /// The field closes, and the first hit is shown.
    ShowFirst,
    /// Something else is searched for.
    Search(String),
}

/// Applies a key to the field in which a text to search for is typed.
pub fn handle_diff_focused_search_key(field: &mut TextField, key: KeyEvent, has_matches: bool) -> (r:
    DiffSearchStep)
    ensures
        match key.code {
            KeyCode::Esc => r is Dismiss && *final(field) == *old(field),
            KeyCode::Enter => *final(field) == *old(field) && if has_matches {
                r is ShowFirst
            } else {
                r is Dismiss
            },
            _ => (exists|taken: bool| #[trigger]
                textarea::key_applied(*old(field), key, *final(field), taken)) && (
            r matches DiffSearchStep::Search(q) && q@ == text::join(
                final(field).text().lines,
                seq![],
            )),
        },
{
    match key.code {
        KeyCode::Esc => DiffSearchStep::Dismiss,
        KeyCode::Enter => if has_matches {
            DiffSearchStep::ShowFirst
        } else {
            DiffSearchStep::Dismiss
        },
        _ => {
            let ghost before = *field;
            let taken = textarea::textarea_input(field, key);
            assert(textarea::key_applied(before, key, *field, taken));
            DiffSearchStep::Search(field.joined())
        },
    }
}

// ---------------------------------------------------------------------------
// Sides and places
// ---------------------------------------------------------------------------

/// Which sides of a diff are on show.
#[derive(Debug, Clone, Copy, PartialEq, Eq, Structural)]
pub enum DiffSideView {
    Both,
    OldOnly,
    NewOnly,
}

/// The sides on show after one of them was asked for alone, or no longer.
pub fn toggle_side(view: DiffSideView, new_only: bool) -> (r: DiffSideView)
    ensures
        r == if new_only {
            if view is NewOnly {
                DiffSideView::Both
            } else {
                DiffSideView::NewOnly
            }
        } else if view is OldOnly {
            DiffSideView::Both
        } else {
            DiffSideView::OldOnly
        },
{
    match (view, new_only) {
        (DiffSideView::NewOnly, true) => DiffSideView::Both,
        (_, true) => DiffSideView::NewOnly,
        (DiffSideView::OldOnly, false) => DiffSideView::Both,
        (_, false) => DiffSideView::OldOnly,
    }
}

/// The column of a file, counted from one, at which a column of the screen is: the
/// first for what lies before the text.
pub open spec fn edit_column(col: int, content_start: int, scroll: int) -> int {
    if col >= content_start {
        col - content_start + scroll + 1
    } else {
        1
    }
}

/// Finds the column of a file at which a column of the screen is.
pub fn selection_edit_column(top_col: u16, content_start: u16, horizontal_scroll: usize) -> (r: usize)
    requires
        horizontal_scroll + 0x10000 <= usize::MAX,
    ensures
        r == edit_column(top_col as int, content_start as int, horizontal_scroll as int),
{
    if top_col >= content_start {
        (top_col - content_start) as usize + horizontal_scroll + 1
    } else {
        1
    }
}

/// The last hunk among the first `n` that starts at the top of the view or above.
pub open spec fn hunk_above(starts: Seq<usize>, scroll: int, n: int) -> Option<usize>
    decreases n,
{
    if n <= 0 {
        None
    } else if starts[n - 1] <= scroll {
        Some(starts[n - 1])
    } else {
        hunk_above(starts, scroll, n - 1)
    }
}

/// The hunk to edit at: the last one that starts at the top of the view or above, or
/// else the first.
pub open spec fn hunk_in_view(starts: Seq<usize>, scroll: int) -> Option<usize> {
    match hunk_above(starts, scroll, starts.len() as int) {
        Some(h) => Some(h),
        None => if starts.len() > 0 {
            Some(starts[0])
        } else {
            None
        },
    }
}

/// Finds the line of the diff at which the hunk to edit starts.
pub fn active_hunk(hunk_starts: &Vec<usize>, scroll_offset: usize) -> (r: Option<usize>)
    ensures
        r == hunk_in_view(hunk_starts@, scroll_offset as int),
{
    let mut n: usize = hunk_starts.len();
    while n > 0
        invariant
            n <= hunk_starts@.len(),
            hunk_above(hunk_starts@, scroll_offset as int, hunk_starts@.len() as int)
                == hunk_above(hunk_starts@, scroll_offset as int, n as int),
        decreases n,
    {
        if hunk_starts[n - 1] <= scroll_offset {
            return Some(hunk_starts[n - 1]);
        }
        n = n - 1;
    }
    if hunk_starts.len() > 0 {
        Some(hunk_starts[0])
    } else {
        None
    }
}

/// What becomes of a file that is to be edited.
#[derive(Debug)]
pub enum EditFilePlan {
    Nothing,
    /// It does not exist, which is told.
    Missing(String),
    Open,
}

/// Decides what becomes of the file of the diff when it is to be edited.
pub fn open_diff_file_in_editor(rel_path: &str, on_disk: bool) -> (r: EditFilePlan)
    ensures
        if rel_path@.len() == 0 {
            r is Nothing
        } else if on_disk {
            r is Open
        } else {
            r matches EditFilePlan::Missing(e) && e@ == "file does not exist: "@ + rel_path@
        },
{
    if text::is_empty_str(rel_path) {
        EditFilePlan::Nothing
    } else if on_disk {
        EditFilePlan::Open
    } else {
        let mut s = "file does not exist: ".to_string();
        s.append(rel_path);
        EditFilePlan::Missing(s)
    }
}

/// What opening the file of selected text comes to: where the file is there, the editor
/// opens it at the line that was selected, or else the line that is shown there.
pub fn edit_selection(
    filename: &str,
    path: String,
    on_disk: bool,
    selected_line: Option<usize>,
    shown_line: Option<usize>,
    column: usize,
) -> (r: Result<EditRequest, String>)
    ensures
        if filename@.len() > 0 && on_disk {
            r matches Ok(q) && q.path == path && q.column == column && q.line == (
            match selected_line {
                Some(n) => Some(n),
                None => shown_line,
            })
        } else {
            r matches Err(e) && e@ == "file does not exist: "@ + filename@
        },
{
    if !text::is_empty_str(filename) && on_disk {
        let line = match selected_line {
            Some(n) => Some(n),
            None => shown_line,
        };
        Ok(EditRequest { path, line, column })
    } else {
        let mut e = "file does not exist: ".to_string();
        e.append(filename);
        Err(e)
    }
}

impl Gui {
    /// What a command makes of the state that the lists, the diff and the windows share.
    pub open spec fn commanded_in_diff(self, c: DiffCommand) -> Gui {
        match c {
            DiffCommand::Quit => self.commanded(KeyCommand::Quit),
            DiffCommand::NextScreenMode => self.commanded(KeyCommand::NextScreenMode),
            DiffCommand::PrevScreenMode => self.commanded(KeyCommand::PrevScreenMode),
            DiffCommand::ToggleCommandLog => self.commanded(KeyCommand::ToggleCommandLog),
            DiffCommand::Unfocus | DiffCommand::FocusWindow(_) => Gui {
                diff_focused: false,
                ..self
            },
            DiffCommand::ToggleWrap => Gui {
                pane: DiffPane {
                    view: DiffViewState { wrap: !self.pane.view.wrap, ..self.pane.view },
                    ..self.pane
                },
                ..self
            },
            _ => self,
        }
    }

    /// Carries out a command of the diff, as far as it is about that state.
    pub fn carry_out_in_diff(&mut self, c: DiffCommand)
        ensures
            *final(self) == old(self).commanded_in_diff(c),
    {
        match c {
            DiffCommand::Quit => {
                self.carry_out(KeyCommand::Quit);
            },
            DiffCommand::NextScreenMode => {
                self.carry_out(KeyCommand::NextScreenMode);
            },
            DiffCommand::PrevScreenMode => {
                self.carry_out(KeyCommand::PrevScreenMode);
            },
            DiffCommand::ToggleCommandLog => {
                self.carry_out(KeyCommand::ToggleCommandLog);
            },
            DiffCommand::Unfocus | DiffCommand::FocusWindow(_) => {
                self.diff_focused = false;
            },
            DiffCommand::ToggleWrap => {
                self.pane.view.wrap = !self.pane.view.wrap;
            },
            _ => {},
        }
    }
}

// ---------------------------------------------------------------------------
// Laws
// ---------------------------------------------------------------------------

/// A key that ends a selection made by a click does nothing else.
pub proof fn a_click_is_dismissed_by_any_key(key: KeyEvent, b: Bindings, s: DiffKeyState)
    requires
        !s.search_active,
        s.selection == Some(true),
    ensures
        diff_command(key, b, s).drop_selection,
        ({
            let c = diff_command(key, b, s).command;
            c is Stay || c is EditSelection
        }),
{
}

/// Blocks are staged and reverted by keys only where they can be, and no other hunk
/// than the selected one.
pub proof fn only_the_selected_block_is_changed(key: KeyEvent, b: Bindings, s: DiffKeyState)
    ensures
        ({
            let c = diff_command(key, b, s).command;
            &&& c matches DiffCommand::RevertHunk(h) ==> s.block_mode && s.blocks_actionable
                && s.selected_hunk == Some(h)
            &&& c matches DiffCommand::StageHunk(h) ==> s.block_mode && s.blocks_actionable
                && s.selected_hunk == Some(h)
        }),
{
}

/// Esc always leads out: first of the selected text, then of the blocks, the selected
/// hunk and the search, and at last of the diff.
pub proof fn esc_leads_out_of_the_diff(b: Bindings, s: DiffKeyState, key: KeyEvent)
    requires
        key.code is Esc,
        !s.search_active,
        s.selection is None,
        !s.block_mode,
        s.selected_hunk is None,
        !s.has_search_query,
        !b.push_files,
        !b.pull_files,
        bound_command(key, b, s) is None,
    ensures
        diff_command(key, b, s).command is Unfocus,
{
}

/// What each key does in the diff that is bound to nothing: the arrows and `h`, `j`, `k`
/// and `l` scroll, braces go from hunk to hunk, brackets show one side alone.
pub proof fn plain_keys_move_in_the_diff(key: KeyEvent, s: DiffKeyState)
    requires
        !s.search_active,
        s.selection is None,
        !s.block_mode,
    ensures
        ({
            let c = diff_command(key, keys::unbound(), s).command;
            let in_files = s.active is Files;
            let k = key.code;
            &&& k is Down || k == KeyCode::Char('j') ==> c == (DiffCommand::Scroll {
                down: true,
                lines: 1,
            })
            &&& k is Up || k == KeyCode::Char('k') ==> c == (DiffCommand::Scroll {
                down: false,
                lines: 1,
            })
            &&& k is PageDown ==> c == (DiffCommand::Scroll { down: true, lines: 20 })
            &&& k is PageUp ==> c == (DiffCommand::Scroll { down: false, lines: 20 })
            &&& k is Left || k == KeyCode::Char('h') ==> c == (DiffCommand::ScrollSideways {
                right: false,
                columns: 4,
            })
            &&& k is Right || k == KeyCode::Char('l') ==> c == (DiffCommand::ScrollSideways {
                right: true,
                columns: 4,
            })
            &&& k == KeyCode::Char('}') ==> c == if in_files {
                DiffCommand::NextBlock
            } else {
                DiffCommand::NextHunk
            }
            &&& k == KeyCode::Char('{') ==> c == if in_files {
                DiffCommand::PrevBlock
            } else {
                DiffCommand::PrevHunk
            }
            &&& k == KeyCode::Char(']') ==> c is ToggleNewOnly
            &&& k == KeyCode::Char('[') ==> c is ToggleOldOnly
            &&& k == KeyCode::Char('z') ==> c is ToggleWrap
            &&& k == KeyCode::Char('g') ==> c is Top
            &&& k == KeyCode::Char('G') ==> c is Bottom
            &&& k == KeyCode::Char('q') ==> c is Quit
            &&& k == KeyCode::Char(';') ==> c is ToggleCommandLog
            &&& k == KeyCode::Char('?') ==> c is ShowCommands
            &&& k == KeyCode::Char('B') && in_files ==> c is EnterBlockMode
            &&& k == KeyCode::Char('b') && key.modifiers.shift && in_files ==> c is EnterBlockMode
            &&& k is Esc && s.selected_hunk is Some ==> c is ClearHunk
            &&& k is Esc && s.selected_hunk is None && s.has_search_query ==> c is ClearSearch
            &&& k is Esc && s.selected_hunk is None && !s.has_search_query ==> c is Unfocus
            &&& (k matches KeyCode::Char(d) && '1' <= d <= '5') ==> match s.window {
                Some(w) => c == DiffCommand::FocusWindow(w),
                None => c is Stay,
            }
            &&& c is Quit ==> k == KeyCode::Char('q')
        }),
{
}

/// In the diff a key that is bound to one thing does what its binding says.
pub proof fn bound_keys_act_in_the_diff(key: KeyEvent, s: DiffKeyState)
    requires
        !s.search_active,
        s.selection is None,
        !s.block_mode,
        key.code is F,
    ensures
        ({
            let none = keys::unbound();
            let in_files = s.active is Files;
            let target = if s.selected_hunk is Some {
                s.selected_hunk
            } else {
                s.hovered_hunk
            };
            let reverted = diff_command(key, Bindings { revert_block: true, ..none }, s).command;
            &&& diff_command(key, Bindings { push_files: true, ..none }, s).command is PushOrPull
            &&& diff_command(key, Bindings { pull_files: true, ..none }, s).command is PushOrPull
            &&& diff_command(key, Bindings { edit: true, ..none }, s).command is EditFile
            &&& diff_command(key, Bindings { open_file: true, ..none }, s).command is OpenFile
            &&& diff_command(key, Bindings { next_screen_mode: true, ..none }, s).command
                is NextScreenMode
            &&& diff_command(key, Bindings { prev_screen_mode: true, ..none }, s).command
                is PrevScreenMode
            &&& diff_command(key, Bindings { start_search: true, ..none }, s).command is StartSearch
            &&& diff_command(key, Bindings { next_match: true, ..none }, s).command is NextMatch
                <==> s.has_search_query
            &&& diff_command(key, Bindings { prev_match: true, ..none }, s).command is PrevMatch
                <==> s.has_search_query
            &&& diff_command(key, Bindings { scroll_left: true, ..none }, s).command
                == (DiffCommand::ScrollSideways { right: false, columns: 4 })
            &&& diff_command(key, Bindings { scroll_right: true, ..none }, s).command
                == (DiffCommand::ScrollSideways { right: true, columns: 4 })
            &&& in_files && target is Some ==> reverted == DiffCommand::ShowHunkMenu(target->0)
            &&& !in_files || target is None ==> reverted is Stay
            &&& diff_command(key, Bindings { undo_revert_block: true, ..none }, s).command
                is UndoRevert <==> in_files && s.can_undo_revert
            &&& diff_command(key, none, s).command is Stay
        }),
{
}

/// While blocks are chosen one by one, `j` and `k` go from block to block, `s` and `r`
/// stage and revert the selected one, `u` takes a revert back, and escape ends the mode;
/// where there is nothing to choose any key ends it.
pub proof fn block_keys_act_on_the_selected_block(key: KeyEvent, b: Bindings, s: DiffKeyState, h: usize)
    requires
        !s.search_active,
        s.selection is None,
        s.block_mode,
        !b.push_files && !b.pull_files,
    ensures
        ({
            let c = diff_command(key, b, s).command;
            let k = key.code;
            if !s.blocks_actionable {
                c is ExitBlockMode
            } else {
                &&& k is Esc || k == KeyCode::Char('q') || k == KeyCode::Char('B') ==> c
                    is ExitBlockMode
                &&& k is Down || k == KeyCode::Char('j') || k == KeyCode::Char('}') ==> c
                    is NextBlock
                &&& k is Up || k == KeyCode::Char('k') || k == KeyCode::Char('{') ==> c is PrevBlock
                &&& k == KeyCode::Char('s') && s.selected_hunk == Some(h) ==> c
                    == DiffCommand::StageHunk(h)
                &&& k == KeyCode::Char('r') && s.selected_hunk == Some(h) ==> c
                    == DiffCommand::RevertHunk(h)
                &&& k is Enter && s.selected_hunk == Some(h) ==> c == DiffCommand::ShowHunkMenu(h)
                &&& k == KeyCode::Char('u') ==> (c is UndoRevert <==> s.can_undo_revert)
                &&& s.selected_hunk is None ==> !(c is StageHunk) && !(c is RevertHunk) && !(c
                    is ShowHunkMenu)
                &&& c is StageHunk ==> k == KeyCode::Char('s')
                &&& c is RevertHunk ==> k == KeyCode::Char('r')
            }
        }),
{
}

/// Selected text is edited with `e` where its file is there and copied with `y`; any key
/// ends the selection. A mere click is ended by any key that then goes nowhere.
pub proof fn keys_for_selected_text(key: KeyEvent, b: Bindings, s: DiffKeyState, click: bool)
    requires
        !s.search_active,
        s.selection == Some(click),
    ensures
        ({
            let o = diff_command(key, b, s);
            let k = key.code;
            &&& o.drop_selection
            &&& k == KeyCode::Char('e') && s.file_exists ==> o.command is EditSelection
            &&& k == KeyCode::Char('y') && !click ==> o.command is CopySelection
            &&& k is Esc ==> o.command is Stay
            &&& click && !(k == KeyCode::Char('e') && s.file_exists) ==> o.command is Stay
            &&& !click && !(k is Esc) && k != KeyCode::Char('e') && k != KeyCode::Char('y')
                ==> o.command == diff_command(key, b, (DiffKeyState { selection: None, ..s })).command
        }),
{
}

/// A column of the screen further right is a column further right in the file, and so is
/// one further scrolled; the first column of the text is the first of the line.
pub proof fn columns_of_the_screen_are_columns_of_the_file(col: int, start: int, scroll: int, d: int)
    requires
        0 <= d,
        start <= col,
        0 <= scroll,
    ensures
        edit_column(start, start, 0) == 1,
        edit_column(col + d, start, scroll) == edit_column(col, start, scroll) + d,
        edit_column(col, start, scroll + d) == edit_column(col, start, scroll) + d,
        d > 0 ==> edit_column(start - d, start, scroll) == 1,
{
}

/// The hunk to edit at is the last one that starts at the top of the view or above it; where
/// all start below, it is the first.
pub proof fn the_hunk_to_edit_is_the_last_above(starts: Seq<usize>, scroll: int)
    requires
        forall|i: int, j: int| 0 <= i < j < starts.len() ==> starts[i] < starts[j],
    ensures
        match hunk_in_view(starts, scroll) {
            None => starts.len() == 0,
            Some(h) => {
                &&& starts.contains(h)
                &&& h <= scroll ==> forall|i: int|
                    0 <= i < starts.len() && #[trigger] starts[i] <= scroll ==> starts[i] <= h
                &&& h > scroll ==> h == starts[0] && forall|i: int|
                    0 <= i < starts.len() ==> #[trigger] starts[i] > scroll
            },
        },
{
    lemma_hunk_above(starts, scroll, starts.len() as int);
    if starts.len() > 0 {
        assert(starts.contains(starts[0]));
    }
}

proof fn lemma_hunk_above(starts: Seq<usize>, scroll: int, n: int)
    requires
        0 <= n <= starts.len(),
        forall|i: int, j: int| 0 <= i < j < starts.len() ==> starts[i] < starts[j],
    ensures
        match hunk_above(starts, scroll, n) {
            None => forall|i: int| 0 <= i < n ==> #[trigger] starts[i] > scroll,
            Some(h) => {
                &&& h <= scroll
                &&& starts.contains(h)
                &&& forall|i: int|
                    0 <= i < n && #[trigger] starts[i] <= scroll ==> starts[i] <= h
            },
        },
    decreases n,
{
    if n > 0 {
        lemma_hunk_above(starts, scroll, n - 1);
        assert(starts.contains(starts[n - 1]));
    }
}

/// While a search is typed, every key goes to it, and the selected text stays.
pub proof fn a_search_gets_every_key(key: KeyEvent, b: Bindings, s: DiffKeyState)
    requires
        s.search_active,
    ensures
        diff_command(key, b, s).command is ToSearch,
        !diff_command(key, b, s).drop_selection,
{
}

} // verus!
