//! What a key means, by what has the keys.

use crate::gui::context::{ContextId, ScreenMode};
use crate::gui::input;
use crate::gui::input::{
    has_command_modifier, is_diff_block_mode_toggle, plain_char_key, KeyCode, KeyEvent,
    KeyModifiers,
};
use crate::gui::main_loop::Leaving;
use crate::gui::startup::{Gui, Preferences};
use vstd::prelude::*;

verus! {

/// A window of the side panel.
#[derive(Debug, Clone, Copy, PartialEq, Eq, Structural)]
pub enum SideWindow {
    Status,
    Files,
    Branches,
    Commits,
    Stash,
}

/// Which of the configured bindings a key matches.
#[derive(Debug, Clone, Copy, PartialEq, Eq, Structural)]
pub struct Bindings {
    pub shrink_side_panel: bool,
    pub expand_side_panel: bool,
    pub side_panel_full: bool,
    pub main_panel_full: bool,
    pub reset_side_panel: bool,
    pub toggle_diff_view_layout: bool,
    pub quit: bool,
    pub quit_alt1: bool,
    pub toggle_panel: bool,
    pub toggle_panel_reverse: bool,
    pub prev_block: bool,
    pub prev_block_alt: bool,
    pub next_block: bool,
    pub next_block_alt: bool,
    pub prev_item: bool,
    pub prev_item_alt: bool,
    pub next_item: bool,
    pub next_item_alt: bool,
    pub goto_top: bool,
    pub goto_bottom: bool,
    pub scroll_down_main_alt1: bool,
    pub scroll_up_main_alt1: bool,
    pub scroll_left: bool,
    pub scroll_right: bool,
    pub refresh: bool,
    pub create_rebase_options_menu: bool,
    pub push_files: bool,
    pub pull_files: bool,
    pub next_screen_mode: bool,
    pub prev_screen_mode: bool,
    pub undo: bool,
    pub redo: bool,
    pub create_patch_options_menu: bool,
    pub start_search: bool,
    pub next_match: bool,
    pub prev_match: bool,
    pub edit: bool,
    pub open_file: bool,
    pub revert_block: bool,
    pub undo_revert_block: bool,
}

/// What the meaning of a key depends on.
#[derive(Debug, Clone, Copy, PartialEq, Eq, Structural)]
pub struct KeyState {
    pub popup_open: bool,
    pub search_active: bool,
    pub conflict_mode: bool,
    pub rebase_mode: bool,
    pub diff_mode: bool,
    pub diff_focused: bool,
    pub patch_building: bool,
    pub active: ContextId,
    pub screen_mode: ScreenMode,
    pub screen_width: u16,
    pub screen_height: u16,
    /// The window that a digit names.
    pub window: Option<SideWindow>,
    pub is_rebasing: bool,
    pub is_merging: bool,
    pub is_cherry_picking: bool,
    /// Whether the selected file is in conflict.
    pub conflict_selected: bool,
    pub has_search_query: bool,
}

/// What a key means.
#[derive(Debug, Clone, Copy, PartialEq, Eq, Structural)]
pub enum KeyCommand {
    Ignore,
    /// The key goes to what is open or has the keys.
    ToPopup,
    ToSearch,
    ToConflictMode,
    ToRebaseMode,
    ToDiffMode,
    ToDiffPanel,
    /// The side panel gets smaller or larger by a step.
    ResizeSide { larger: bool },
    /// The side panel takes the whole screen, or none of it.
    SideFull { side: bool },
    ResetSide,
    EnterBlockMode,
    ToggleDiffLayout,
    Quit,
    /// A context that hangs off another is left for it.
    Activate(ContextId),
    JumpToWindow(SideWindow),
    NextWindow,
    PrevWindow,
    NextTab,
    PrevTab,
    /// The selected index goes down by one.
    PrevItem,
    /// The selected index goes up by one.
    NextItem,
    /// The first item is selected.
    Top,
    /// The last item is selected.
    Bottom,
    ScrollDiff { down: bool, lines: usize },
    ScrollDiffSideways { right: bool, columns: usize },
    NextHunk,
    PrevHunk,
    Refresh,
    ShowRebaseProgress,
    ShowRebaseOptions,
    PushOrPull,
    NextScreenMode,
    PrevScreenMode,
    EnterDiffMode,
    ToggleCommandLog,
    Undo,
    Redo,
    ShowPatchMenu,
    ShowCommands,
    StartSearch,
    ClearSearch,
    NextMatch,
    PrevMatch,
    ShowRebasePicker,
    ShowResetPicker,
    ToggleDetails,
    /// The context that is active decides, and after it the configured commands.
    ToContext,
}

/// How a command changes which item of a list is selected.
#[derive(Debug, Clone, Copy, PartialEq, Eq, Structural)]
pub enum SelectionMove {
    Stay,
    /// The selected index changes by so much.
    By(i32),
    /// This index is selected.
    To(usize),
}

/// How a command changes which item of a list of `len` items is selected.
pub open spec fn selection_move_of(c: KeyCommand, len: usize) -> SelectionMove {
    match c {
        KeyCommand::PrevItem => SelectionMove::By((-1) as i32),
        KeyCommand::NextItem => SelectionMove::By(1),
        KeyCommand::Top => SelectionMove::To(0),
        KeyCommand::Bottom => if len > 0 {
            SelectionMove::To((len - 1) as usize)
        } else {
            SelectionMove::Stay
        },
        _ => SelectionMove::Stay,
    }
}

/// Finds how a command changes which item of a list of `len` items is selected.
pub fn selection_move(c: KeyCommand, len: usize) -> (r: SelectionMove)
    ensures
        r == selection_move_of(c, len),
{
    match c {
        KeyCommand::PrevItem => SelectionMove::By(-1),
        KeyCommand::NextItem => SelectionMove::By(1),
        KeyCommand::Top => SelectionMove::To(0),
        KeyCommand::Bottom => if len > 0 {
            SelectionMove::To(len - 1)
        } else {
            SelectionMove::Stay
        },
        _ => SelectionMove::Stay,
    }
}

/// Whether the panels are stacked: the screen is narrow and high enough.
pub open spec fn is_portrait(mode: ScreenMode, width: int, height: int) -> bool {
    mode != ScreenMode::Full && width <= 84 && height > 25
}

/// Tells whether the panels are stacked.
pub fn portrait_layout(mode: ScreenMode, width: u16, height: u16) -> (r: bool)
    ensures
        r == is_portrait(mode, width as int, height as int),
{
    mode != ScreenMode::Full && width <= 84 && height > 25
}

/// Whether a context shows the details of a commit.
pub open spec fn has_details(c: ContextId) -> bool {
    match c {
        ContextId::Commits | ContextId::BranchCommits | ContextId::Reflog | ContextId::CommitFiles
        | ContextId::StashFiles | ContextId::BranchCommitFiles => true,
        _ => false,
    }
}

/// Tells whether a context shows the details of a commit.
pub fn context_has_commit_details(c: ContextId) -> (r: bool)
    ensures
        r == has_details(c),
{
    match c {
        ContextId::Commits | ContextId::BranchCommits | ContextId::Reflog | ContextId::CommitFiles
        | ContextId::StashFiles | ContextId::BranchCommitFiles => true,
        _ => false,
    }
}

/// Whether a character is one of the digits that name a window.
pub open spec fn is_window_digit(key: KeyEvent) -> bool {
    key.code == KeyCode::Char('1') || key.code == KeyCode::Char('2') || key.code == KeyCode::Char(
        '3',
    ) || key.code == KeyCode::Char('4') || key.code == KeyCode::Char('5')
}

pub(crate) fn window_digit(key: KeyEvent) -> (r: bool)
    ensures
        r == is_window_digit(key),
{
    match key.code {
        KeyCode::Char('1') | KeyCode::Char('2') | KeyCode::Char('3') | KeyCode::Char('4')
        | KeyCode::Char('5') => true,
        _ => false,
    }
}

/// Where the number of a window leads: from a context that hangs off it to the one
/// that this hangs off, else to the window.
pub open spec fn number_leads(active: ContextId, window: SideWindow) -> KeyCommand {
    match (active, window) {
        (ContextId::CommitFiles, SideWindow::Commits) => KeyCommand::Activate(ContextId::Commits),
        (ContextId::StashFiles, SideWindow::Stash) => KeyCommand::Activate(ContextId::Stash),
        (ContextId::BranchCommitFiles, SideWindow::Branches) => KeyCommand::Activate(
            ContextId::BranchCommits,
        ),
        (ContextId::BranchCommits, SideWindow::Branches) => KeyCommand::Activate(
            ContextId::Branches,
        ),
        (ContextId::RemoteBranches, SideWindow::Branches) => KeyCommand::Activate(
            ContextId::Remotes,
        ),
        _ => KeyCommand::JumpToWindow(window),
    }
}

fn number_command(active: ContextId, window: SideWindow) -> (r: KeyCommand)
    ensures
        r == number_leads(active, window),
{
    if active == ContextId::CommitFiles && window == SideWindow::Commits {
        return KeyCommand::Activate(ContextId::Commits);
    }
    if active == ContextId::StashFiles && window == SideWindow::Stash {
        return KeyCommand::Activate(ContextId::Stash);
    }
    if (active == ContextId::BranchCommits || active == ContextId::BranchCommitFiles) && window
        == SideWindow::Branches {
        if active == ContextId::BranchCommitFiles {
            return KeyCommand::Activate(ContextId::BranchCommits);
        } else {
            return KeyCommand::Activate(ContextId::Branches);
        }
    }
    if active == ContextId::RemoteBranches && window == SideWindow::Branches {
        return KeyCommand::Activate(ContextId::Remotes);
    }
    KeyCommand::JumpToWindow(window)
}

/// What takes the key before the panels do, if anything: a window, a search, a mode.
/// With the command key held, characters go nowhere, and other keys only to windows
/// and searches.
pub open spec fn taken_first(key: KeyEvent, s: KeyState) -> Option<KeyCommand> {
    let cmd = key.modifiers.command || key.modifiers.meta;
    if cmd && key.code is Char {
        Some(KeyCommand::Ignore)
    } else if s.popup_open {
        Some(KeyCommand::ToPopup)
    } else if s.search_active {
        Some(KeyCommand::ToSearch)
    } else if cmd {
        Some(KeyCommand::Ignore)
    } else if s.conflict_mode {
        Some(KeyCommand::ToConflictMode)
    } else if s.rebase_mode {
        Some(KeyCommand::ToRebaseMode)
    } else if s.diff_mode {
        Some(KeyCommand::ToDiffMode)
    } else {
        None
    }
}

/// What a key means for the layout, whichever panel has the keys.
pub open spec fn layout_command(key: KeyEvent, b: Bindings, s: KeyState) -> Option<KeyCommand> {
    let portrait = is_portrait(s.screen_mode, s.screen_width as int, s.screen_height as int);
    if b.shrink_side_panel || b.expand_side_panel {
        Some(KeyCommand::ResizeSide { larger: !b.shrink_side_panel })
    } else if b.side_panel_full {
        Some(KeyCommand::SideFull { side: !portrait })
    } else if b.main_panel_full {
        Some(KeyCommand::SideFull { side: portrait })
    } else if b.reset_side_panel {
        Some(KeyCommand::ResetSide)
    } else if input::toggles_block_mode(key) && s.active == ContextId::Files {
        Some(KeyCommand::EnterBlockMode)
    } else if b.toggle_diff_view_layout {
        Some(KeyCommand::ToggleDiffLayout)
    } else if s.diff_focused {
        Some(KeyCommand::ToDiffPanel)
    } else {
        None
    }
}

/// What a key means for moving about: between windows and tabs, in the list, and in
/// the diff beside it.
pub open spec fn move_command(key: KeyEvent, b: Bindings, s: KeyState) -> Option<KeyCommand> {
    if b.quit || b.quit_alt1 {
        Some(KeyCommand::Quit)
    } else if key.modifiers == KeyModifiers::none_held() && is_window_digit(key)
        && s.window is Some {
        Some(number_leads(s.active, s.window->0))
    } else if b.toggle_panel {
        Some(KeyCommand::NextWindow)
    } else if b.toggle_panel_reverse || b.prev_block || b.prev_block_alt {
        Some(KeyCommand::PrevWindow)
    } else if b.next_block || b.next_block_alt {
        Some(KeyCommand::NextWindow)
    } else if key.code == KeyCode::Char('[') {
        Some(KeyCommand::PrevTab)
    } else if key.code == KeyCode::Char(']') {
        Some(KeyCommand::NextTab)
    } else if b.prev_item || b.prev_item_alt {
        Some(KeyCommand::PrevItem)
    } else if b.next_item || b.next_item_alt {
        Some(KeyCommand::NextItem)
    } else if b.goto_top {
        Some(KeyCommand::Top)
    } else if b.goto_bottom {
        Some(KeyCommand::Bottom)
    } else if b.scroll_down_main_alt1 {
        Some(KeyCommand::ScrollDiff { down: true, lines: 1 })
    } else if b.scroll_up_main_alt1 {
        Some(KeyCommand::ScrollDiff { down: false, lines: 1 })
    } else if key.code is PageDown {
        Some(KeyCommand::ScrollDiff { down: true, lines: 20 })
    } else if key.code is PageUp {
        Some(KeyCommand::ScrollDiff { down: false, lines: 20 })
    } else if b.scroll_left {
        Some(KeyCommand::ScrollDiffSideways { right: false, columns: 4 })
    } else if b.scroll_right {
        Some(KeyCommand::ScrollDiffSideways { right: true, columns: 4 })
    } else if key.code == KeyCode::Char('{') {
        Some(KeyCommand::PrevHunk)
    } else if key.code == KeyCode::Char('}') {
        Some(KeyCommand::NextHunk)
    } else {
        None
    }
}

/// What a key means everywhere in the panels, after what moves about in them. A
/// rebase under way has its own view, unless a file in conflict is selected.
pub open spec fn general_command(key: KeyEvent, b: Bindings, s: KeyState) -> KeyCommand {
    if b.refresh {
        KeyCommand::Refresh
    } else if b.create_rebase_options_menu && s.is_rebasing && !s.conflict_selected {
        KeyCommand::ShowRebaseProgress
    } else if b.create_rebase_options_menu && (s.is_rebasing || s.is_merging
        || s.is_cherry_picking) {
        KeyCommand::ShowRebaseOptions
    } else if b.push_files || b.pull_files {
        KeyCommand::PushOrPull
    } else if b.next_screen_mode {
        KeyCommand::NextScreenMode
    } else if b.prev_screen_mode {
        KeyCommand::PrevScreenMode
    } else if key.code == KeyCode::Char('W') {
        KeyCommand::EnterDiffMode
    } else if key.code == KeyCode::Char(';') {
        KeyCommand::ToggleCommandLog
    } else if b.undo {
        KeyCommand::Undo
    } else if b.redo {
        KeyCommand::Redo
    } else if b.create_patch_options_menu && (s.active == ContextId::Commits || s.patch_building) {
        KeyCommand::ShowPatchMenu
    } else if key.code == KeyCode::Char('?') {
        KeyCommand::ShowCommands
    } else if b.start_search {
        KeyCommand::StartSearch
    } else if s.has_search_query && key.code is Esc {
        KeyCommand::ClearSearch
    } else if s.has_search_query && b.next_match {
        KeyCommand::NextMatch
    } else if s.has_search_query && b.prev_match {
        KeyCommand::PrevMatch
    } else if input::types_plain(key, 'I') {
        KeyCommand::ShowRebasePicker
    } else if input::types_plain(key, 'G') {
        KeyCommand::ShowResetPicker
    } else if key.code == KeyCode::Char('.') && has_details(s.active) {
        KeyCommand::ToggleDetails
    } else {
        KeyCommand::ToContext
    }
}

/// What a key means: the first of these that claims it.
pub open spec fn key_command(key: KeyEvent, b: Bindings, s: KeyState) -> KeyCommand {
    match taken_first(key, s) {
        Some(c) => c,
        None => match layout_command(key, b, s) {
            Some(c) => c,
            None => match move_command(key, b, s) {
                Some(c) => c,
                None => general_command(key, b, s),
            },
        },
    }
}

fn first_taker(key: KeyEvent, s: &KeyState) -> (r: Option<KeyCommand>)
    ensures
        r == taken_first(key, *s),
{
    let cmd = has_command_modifier(key.modifiers);
    let is_char = match key.code {
        KeyCode::Char(_) => true,
        _ => false,
    };
    if cmd && is_char {
        return Some(KeyCommand::Ignore);
    }
    if s.popup_open {
        return Some(KeyCommand::ToPopup);
    }
    if s.search_active {
        return Some(KeyCommand::ToSearch);
    }
    if cmd {
        return Some(KeyCommand::Ignore);
    }
    if s.conflict_mode {
        return Some(KeyCommand::ToConflictMode);
    }
    if s.rebase_mode {
        return Some(KeyCommand::ToRebaseMode);
    }
    if s.diff_mode {
        return Some(KeyCommand::ToDiffMode);
    }
    None
}

fn layout_of(key: KeyEvent, b: &Bindings, s: &KeyState) -> (r: Option<KeyCommand>)
    ensures
        r == layout_command(key, *b, *s),
{
    let portrait = portrait_layout(s.screen_mode, s.screen_width, s.screen_height);
    if b.shrink_side_panel || b.expand_side_panel {
        return Some(KeyCommand::ResizeSide { larger: !b.shrink_side_panel });
    }
    if b.side_panel_full {
        return Some(KeyCommand::SideFull { side: !portrait });
    }
    if b.main_panel_full {
        return Some(KeyCommand::SideFull { side: portrait });
    }
    if b.reset_side_panel {
        return Some(KeyCommand::ResetSide);
    }
    if is_diff_block_mode_toggle(key) && s.active == ContextId::Files {
        return Some(KeyCommand::EnterBlockMode);
    }
    if b.toggle_diff_view_layout {
        return Some(KeyCommand::ToggleDiffLayout);
    }
    if s.diff_focused {
        return Some(KeyCommand::ToDiffPanel);
    }
    None
}

fn move_of(key: KeyEvent, b: &Bindings, s: &KeyState) -> (r: Option<KeyCommand>)
    ensures
        r == move_command(key, *b, *s),
{
    if b.quit || b.quit_alt1 {
        return Some(KeyCommand::Quit);
    }
    if key.modifiers == KeyModifiers::none() && window_digit(key) {
        match s.window {
            Some(window) => {
                return Some(number_command(s.active, window));
            },
            None => {},
        }
    }
    if b.toggle_panel {
        return Some(KeyCommand::NextWindow);
    }
    if b.toggle_panel_reverse || b.prev_block || b.prev_block_alt {
        return Some(KeyCommand::PrevWindow);
    }
    if b.next_block || b.next_block_alt {
        return Some(KeyCommand::NextWindow);
    }
    if key.code == KeyCode::Char('[') {
        return Some(KeyCommand::PrevTab);
    }
    if key.code == KeyCode::Char(']') {
        return Some(KeyCommand::NextTab);
    }
    if b.prev_item || b.prev_item_alt {
        return Some(KeyCommand::PrevItem);
    }
    if b.next_item || b.next_item_alt {
        return Some(KeyCommand::NextItem);
    }
    if b.goto_top {
        return Some(KeyCommand::Top);
    }
    if b.goto_bottom {
        return Some(KeyCommand::Bottom);
    }
    if b.scroll_down_main_alt1 {
        return Some(KeyCommand::ScrollDiff { down: true, lines: 1 });
    }
    if b.scroll_up_main_alt1 {
        return Some(KeyCommand::ScrollDiff { down: false, lines: 1 });
    }
    if key.code == KeyCode::PageDown {
        return Some(KeyCommand::ScrollDiff { down: true, lines: 20 });
    }
    if key.code == KeyCode::PageUp {
        return Some(KeyCommand::ScrollDiff { down: false, lines: 20 });
    }
    if b.scroll_left {
        return Some(KeyCommand::ScrollDiffSideways { right: false, columns: 4 });
    }
    if b.scroll_right {
        return Some(KeyCommand::ScrollDiffSideways { right: true, columns: 4 });
    }
    if key.code == KeyCode::Char('{') {
        return Some(KeyCommand::PrevHunk);
    }
    if key.code == KeyCode::Char('}') {
        return Some(KeyCommand::NextHunk);
    }
    None
}

fn general_of(key: KeyEvent, b: &Bindings, s: &KeyState) -> (r: KeyCommand)
    ensures
        r == general_command(key, *b, *s),
{
    if b.refresh {
        return KeyCommand::Refresh;
    }
    if b.create_rebase_options_menu {
        if s.is_rebasing && !s.conflict_selected {
            return KeyCommand::ShowRebaseProgress;
        }
        if s.is_rebasing || s.is_merging || s.is_cherry_picking {
            return KeyCommand::ShowRebaseOptions;
        }
    }
    if b.push_files || b.pull_files {
        return KeyCommand::PushOrPull;
    }
    if b.next_screen_mode {
        return KeyCommand::NextScreenMode;
    }
    if b.prev_screen_mode {
        return KeyCommand::PrevScreenMode;
    }
    if key.code == KeyCode::Char('W') {
        return KeyCommand::EnterDiffMode;
    }
    if key.code == KeyCode::Char(';') {
        return KeyCommand::ToggleCommandLog;
    }
    if b.undo {
        return KeyCommand::Undo;
    }
    if b.redo {
        return KeyCommand::Redo;
    }
    if b.create_patch_options_menu && (s.active == ContextId::Commits || s.patch_building) {
        return KeyCommand::ShowPatchMenu;
    }
    if key.code == KeyCode::Char('?') {
        return KeyCommand::ShowCommands;
    }
    if b.start_search {
        return KeyCommand::StartSearch;
    }
    if s.has_search_query {
        if key.code == KeyCode::Esc {
            return KeyCommand::ClearSearch;
        }
        if b.next_match {
            return KeyCommand::NextMatch;
        }
        if b.prev_match {
            return KeyCommand::PrevMatch;
        }
    }
    if plain_char_key(key, 'I') {
        return KeyCommand::ShowRebasePicker;
    }
    if plain_char_key(key, 'G') {
        return KeyCommand::ShowResetPicker;
    }
    if key.code == KeyCode::Char('.') && context_has_commit_details(s.active) {
        return KeyCommand::ToggleDetails;
    }
    KeyCommand::ToContext
}

/// Decides what a key means.
pub fn handle_key(key: KeyEvent, b: &Bindings, s: &KeyState) -> (r: KeyCommand)
    ensures
        r == key_command(key, *b, *s),
{
    match first_taker(key, s) {
        Some(c) => {
            return c;
        },
        None => {},
    }
    match layout_of(key, b, s) {
        Some(c) => {
            return c;
        },
        None => {},
    }
    match move_of(key, b, s) {
        Some(c) => {
            return c;
        },
        None => {},
    }
    general_of(key, b, s)
}

impl Gui {
    /// What a command makes of the state that the lists, the diff and the windows share.
    pub open spec fn commanded(self, c: KeyCommand) -> Gui {
        match c {
            KeyCommand::Quit => Gui {
                leaving: Leaving { should_quit: true, ..self.leaving },
                ..self
            },
            KeyCommand::Refresh => Gui { needs_refresh: true, ..self },
            KeyCommand::NextScreenMode => Gui { screen_mode: self.screen_mode.after(), ..self },
            KeyCommand::PrevScreenMode => Gui { screen_mode: self.screen_mode.before(), ..self },
            KeyCommand::ToggleCommandLog => Gui {
                preferences: Preferences {
                    show_command_log: !self.preferences.show_command_log,
                    ..self.preferences
                },
                ..self
            },
            KeyCommand::ToggleDetails => Gui {
                preferences: Preferences {
                    show_commit_details: !self.preferences.show_commit_details,
                    ..self.preferences
                },
                ..self
            },
            _ => self,
        }
    }

    /// Carries out a command, as far as it is about that state.
    pub fn carry_out(&mut self, c: KeyCommand)
        ensures
            *final(self) == old(self).commanded(c),
    {
        match c {
            KeyCommand::Quit => {
                self.leaving.should_quit = true;
            },
            KeyCommand::Refresh => {
                self.needs_refresh = true;
            },
            KeyCommand::NextScreenMode => {
                self.screen_mode = self.screen_mode.next_screen_mode();
            },
            KeyCommand::PrevScreenMode => {
                self.screen_mode = self.screen_mode.prev_screen_mode();
            },
            KeyCommand::ToggleCommandLog => {
                self.preferences.show_command_log = !self.preferences.show_command_log;
            },
            KeyCommand::ToggleDetails => {
                self.preferences.show_commit_details = !self.preferences.show_commit_details;
            },
            _ => {},
        }
    }
}

// ---------------------------------------------------------------------------
// Contexts
// ---------------------------------------------------------------------------

/// What handles the keys of a context.
#[derive(Debug, Clone, Copy, PartialEq, Eq, Structural)]
pub enum Controller {
    Files,
    Branches,
    Commits,
    Reflog,
    Stash,
    Remotes,
    Tags,
    Status,
    Worktrees,
    Submodules,
    RemoteBranches,
    CommitFiles,
    BranchCommits,
}

/// What handles the keys of a context: the files of commits, stashes and branch
/// commits share theirs.
pub open spec fn controller_for(active: ContextId) -> Controller {
    match active {
        ContextId::Files => Controller::Files,
        ContextId::Branches => Controller::Branches,
        ContextId::Commits => Controller::Commits,
        ContextId::Reflog => Controller::Reflog,
        ContextId::Stash => Controller::Stash,
        ContextId::Remotes => Controller::Remotes,
        ContextId::Tags => Controller::Tags,
        ContextId::Status => Controller::Status,
        ContextId::Worktrees => Controller::Worktrees,
        ContextId::Submodules => Controller::Submodules,
        ContextId::RemoteBranches => Controller::RemoteBranches,
        ContextId::CommitFiles | ContextId::StashFiles | ContextId::BranchCommitFiles => Controller::CommitFiles,
        ContextId::BranchCommits => Controller::BranchCommits,
    }
}

/// Finds what handles the keys of a context.
pub fn handle_context_key(active: ContextId) -> (r: Controller)
    ensures
        r == controller_for(active),
{
    match active {
        ContextId::Files => Controller::Files,
        ContextId::Branches => Controller::Branches,
        ContextId::Commits => Controller::Commits,
        ContextId::Reflog => Controller::Reflog,
        ContextId::Stash => Controller::Stash,
        ContextId::Remotes => Controller::Remotes,
        ContextId::Tags => Controller::Tags,
        ContextId::Status => Controller::Status,
        ContextId::Worktrees => Controller::Worktrees,
        ContextId::Submodules => Controller::Submodules,
        ContextId::RemoteBranches => Controller::RemoteBranches,
        ContextId::CommitFiles | ContextId::StashFiles | ContextId::BranchCommitFiles => Controller::CommitFiles,
        ContextId::BranchCommits => Controller::BranchCommits,
    }
}

// ---------------------------------------------------------------------------
// Laws
// ---------------------------------------------------------------------------

/// A character with the command key held does nothing, whatever is open and however
/// the keys are bound.
pub proof fn command_characters_do_nothing(key: KeyEvent, b: Bindings, s: KeyState)
    requires
        key.code is Char,
        key.modifiers.command || key.modifiers.meta,
    ensures
        key_command(key, b, s) is Ignore,
{
}

/// While a window is open every other key goes to it.
pub proof fn an_open_window_has_the_keys(key: KeyEvent, b: Bindings, s: KeyState)
    requires
        s.popup_open,
        !(key.code is Char) || !(key.modifiers.command || key.modifiers.meta),
    ensures
        key_command(key, b, s) is ToPopup,
{
}

/// A mode that is on keeps every key from the panels, and at most one mode gets a
/// key: the resolver of conflicts before the rebase before the comparison.
pub proof fn modes_come_before_panels(key: KeyEvent, b: Bindings, s: KeyState)
    requires
        s.conflict_mode || s.rebase_mode || s.diff_mode,
    ensures
        ({
            let c = key_command(key, b, s);
            c is Ignore || c is ToPopup || c is ToSearch || (c is ToConflictMode && s.conflict_mode)
                || (c is ToRebaseMode && !s.conflict_mode) || (c is ToDiffMode && !s.conflict_mode
                && !s.rebase_mode)
        }),
{
}

/// The program quits by a key only from the panels: with no window open, no search
/// going on, no mode on and the diff without the keys.
pub proof fn quitting_needs_the_panels(key: KeyEvent, b: Bindings, s: KeyState)
    requires
        key_command(key, b, s) is Quit,
    ensures
        b.quit || b.quit_alt1,
        !s.popup_open,
        !s.search_active,
        !s.conflict_mode,
        !s.rebase_mode,
        !s.diff_mode,
        !s.diff_focused,
{
}

/// What a key switches, the same key switches back; so do the two keys for the screen.
pub proof fn switching_twice_changes_nothing(g: Gui)
    ensures
        g.commanded(KeyCommand::ToggleCommandLog).commanded(KeyCommand::ToggleCommandLog) == g,
        g.commanded(KeyCommand::ToggleDetails).commanded(KeyCommand::ToggleDetails) == g,
        g.commanded(KeyCommand::NextScreenMode).commanded(KeyCommand::PrevScreenMode) == g,
        g.commanded(KeyCommand::PrevScreenMode).commanded(KeyCommand::NextScreenMode) == g,
{
}

/// The bindings of a key that is bound to nothing.
pub open spec fn unbound() -> Bindings {
    Bindings {
        shrink_side_panel: false,
        expand_side_panel: false,
        side_panel_full: false,
        main_panel_full: false,
        reset_side_panel: false,
        toggle_diff_view_layout: false,
        quit: false,
        quit_alt1: false,
        toggle_panel: false,
        toggle_panel_reverse: false,
        prev_block: false,
        prev_block_alt: false,
        next_block: false,
        next_block_alt: false,
        prev_item: false,
        prev_item_alt: false,
        next_item: false,
        next_item_alt: false,
        goto_top: false,
        goto_bottom: false,
        scroll_down_main_alt1: false,
        scroll_up_main_alt1: false,
        scroll_left: false,
        scroll_right: false,
        refresh: false,
        create_rebase_options_menu: false,
        push_files: false,
        pull_files: false,
        next_screen_mode: false,
        prev_screen_mode: false,
        undo: false,
        redo: false,
        create_patch_options_menu: false,
        start_search: false,
        next_match: false,
        prev_match: false,
        edit: false,
        open_file: false,
        revert_block: false,
        undo_revert_block: false,
    }
}

/// Whether the panels get a key: the command key is not held, no window is open, no
/// search goes on and no mode is on.
pub open spec fn panels_get(key: KeyEvent, s: KeyState) -> bool {
    &&& !key.modifiers.command && !key.modifiers.meta
    &&& !s.popup_open && !s.search_active
    &&& !s.conflict_mode && !s.rebase_mode && !s.diff_mode
}

/// Whether a key names a window, switches tabs or means the block mode by itself.
pub open spec fn means_a_place(key: KeyEvent, s: KeyState) -> bool {
    ||| key.code == KeyCode::Char('1')
    ||| key.code == KeyCode::Char('2')
    ||| key.code == KeyCode::Char('3')
    ||| key.code == KeyCode::Char('4')
    ||| key.code == KeyCode::Char('5')
    ||| key.code == KeyCode::Char('[')
    ||| key.code == KeyCode::Char(']')
    ||| key.code == KeyCode::Char('B') && s.active is Files
    ||| key.code == KeyCode::Char('b') && s.active is Files
}

/// Whether a key means something by itself, whatever it is bound to.
pub open spec fn means_something(key: KeyEvent, s: KeyState) -> bool {
    ||| means_a_place(key, s)
    ||| key.code is PageDown
    ||| key.code is PageUp
    ||| key.code is Esc
    ||| key.code == KeyCode::Char('{')
    ||| key.code == KeyCode::Char('}')
    ||| key.code == KeyCode::Char('W')
    ||| key.code == KeyCode::Char(';')
    ||| key.code == KeyCode::Char('?')
    ||| key.code == KeyCode::Char('I')
    ||| key.code == KeyCode::Char('G')
    ||| key.code == KeyCode::Char('.')
}

/// In the panels a key that is bound to the next item, and to nothing that comes before
/// it, moves the selected index up by one, and one that is bound to the item before moves
/// it down by one; the keys for the top and the bottom select the first and the last
/// item. Whatever else the key is bound to does not matter.
pub proof fn item_keys_move_the_selection(key: KeyEvent, b: Bindings, s: KeyState, len: usize)
    requires
        panels_get(key, s),
        !s.diff_focused,
        !means_a_place(key, s),
        !b.shrink_side_panel && !b.expand_side_panel && !b.side_panel_full,
        !b.main_panel_full && !b.reset_side_panel && !b.toggle_diff_view_layout,
        !b.quit && !b.quit_alt1 && !b.toggle_panel && !b.toggle_panel_reverse,
        !b.prev_block && !b.prev_block_alt && !b.next_block && !b.next_block_alt,
    ensures
        ({
            let c = key_command(key, b, s);
            let prev = b.prev_item || b.prev_item_alt;
            let next = b.next_item || b.next_item_alt;
            &&& next && !prev ==> c == KeyCommand::NextItem && selection_move_of(c, len)
                == SelectionMove::By(1)
            &&& prev ==> c == KeyCommand::PrevItem && selection_move_of(c, len)
                == SelectionMove::By((-1) as i32)
            &&& !prev && !next && b.goto_top ==> c == KeyCommand::Top && selection_move_of(c, len)
                == SelectionMove::To(0)
            &&& !prev && !next && !b.goto_top && b.goto_bottom ==> c == KeyCommand::Bottom && (len
                > 0 ==> selection_move_of(c, len) == SelectionMove::To((len - 1) as usize))
            &&& !prev && !next && !b.goto_top && !b.goto_bottom ==> selection_move_of(c, len)
                == SelectionMove::Stay
        }),
        selection_move_of(key_command(key, b, s), 0) == SelectionMove::To(0) ==> b.goto_top,
{
}

/// In the panels a key that is bound to one thing moves about as its binding says.
pub proof fn bound_keys_move_about(key: KeyEvent, s: KeyState)
    requires
        panels_get(key, s),
        !s.diff_focused,
        !means_something(key, s),
    ensures
        key_command(key, Bindings { quit: true, ..unbound() }, s) is Quit,
        key_command(key, Bindings { quit_alt1: true, ..unbound() }, s) is Quit,
        key_command(key, Bindings { toggle_panel: true, ..unbound() }, s) is NextWindow,
        key_command(key, Bindings { toggle_panel_reverse: true, ..unbound() }, s) is PrevWindow,
        key_command(key, Bindings { prev_block: true, ..unbound() }, s) is PrevWindow,
        key_command(key, Bindings { prev_block_alt: true, ..unbound() }, s) is PrevWindow,
        key_command(key, Bindings { next_block: true, ..unbound() }, s) is NextWindow,
        key_command(key, Bindings { next_block_alt: true, ..unbound() }, s) is NextWindow,
        key_command(key, Bindings { prev_item: true, ..unbound() }, s) is PrevItem,
        key_command(key, Bindings { prev_item_alt: true, ..unbound() }, s) is PrevItem,
        key_command(key, Bindings { next_item: true, ..unbound() }, s) is NextItem,
        key_command(key, Bindings { next_item_alt: true, ..unbound() }, s) is NextItem,
        key_command(key, Bindings { goto_top: true, ..unbound() }, s) is Top,
        key_command(key, Bindings { goto_bottom: true, ..unbound() }, s) is Bottom,
        key_command(key, Bindings { scroll_down_main_alt1: true, ..unbound() }, s)
            == (KeyCommand::ScrollDiff { down: true, lines: 1 }),
        key_command(key, Bindings { scroll_up_main_alt1: true, ..unbound() }, s)
            == (KeyCommand::ScrollDiff { down: false, lines: 1 }),
        key_command(key, Bindings { scroll_left: true, ..unbound() }, s)
            == (KeyCommand::ScrollDiffSideways { right: false, columns: 4 }),
        key_command(key, Bindings { scroll_right: true, ..unbound() }, s)
            == (KeyCommand::ScrollDiffSideways { right: true, columns: 4 }),
        key_command(key, unbound(), s) is ToContext,
{
}

/// In the panels a key that is bound to one thing does what its binding says.
pub proof fn bound_keys_act(key: KeyEvent, s: KeyState)
    requires
        panels_get(key, s),
        !s.diff_focused,
        !means_something(key, s),
    ensures
        key_command(key, Bindings { refresh: true, ..unbound() }, s) is Refresh,
        key_command(key, Bindings { push_files: true, ..unbound() }, s) is PushOrPull,
        key_command(key, Bindings { pull_files: true, ..unbound() }, s) is PushOrPull,
        key_command(key, Bindings { next_screen_mode: true, ..unbound() }, s) is NextScreenMode,
        key_command(key, Bindings { prev_screen_mode: true, ..unbound() }, s) is PrevScreenMode,
        key_command(key, Bindings { undo: true, ..unbound() }, s) is Undo,
        key_command(key, Bindings { redo: true, ..unbound() }, s) is Redo,
        key_command(key, Bindings { start_search: true, ..unbound() }, s) is StartSearch,
        key_command(key, Bindings { next_match: true, ..unbound() }, s) is NextMatch
            <==> s.has_search_query,
        key_command(key, Bindings { prev_match: true, ..unbound() }, s) is PrevMatch
            <==> s.has_search_query,
        key_command(key, Bindings { create_patch_options_menu: true, ..unbound() }, s)
            is ShowPatchMenu <==> s.active is Commits || s.patch_building,
        key_command(key, Bindings { create_rebase_options_menu: true, ..unbound() }, s)
            is ShowRebaseProgress <==> s.is_rebasing && !s.conflict_selected,
        key_command(key, Bindings { create_rebase_options_menu: true, ..unbound() }, s)
            is ShowRebaseOptions <==> (s.is_rebasing && s.conflict_selected) || (!s.is_rebasing && (
        s.is_merging || s.is_cherry_picking)),
        key_command(key, Bindings { edit: true, ..unbound() }, s) is ToContext,
        key_command(key, Bindings { open_file: true, ..unbound() }, s) is ToContext,
        key_command(key, Bindings { revert_block: true, ..unbound() }, s) is ToContext,
        key_command(key, Bindings { undo_revert_block: true, ..unbound() }, s) is ToContext,
{
}

/// The keys for the layout work whichever panel has the keys, the diff among them. In a
/// stacked layout the keys for a full panel mean the other panel.
pub proof fn layout_keys_work_everywhere(key: KeyEvent, s: KeyState)
    requires
        panels_get(key, s),
        key.code != KeyCode::Char('B'),
        key.code != KeyCode::Char('b'),
    ensures
        ({
            let stacked = !(s.screen_mode is Full) && s.screen_width <= 84 && s.screen_height > 25;
            &&& key_command(key, Bindings { shrink_side_panel: true, ..unbound() }, s)
                == (KeyCommand::ResizeSide { larger: false })
            &&& key_command(key, Bindings { expand_side_panel: true, ..unbound() }, s)
                == (KeyCommand::ResizeSide { larger: true })
            &&& key_command(key, Bindings { side_panel_full: true, ..unbound() }, s)
                == (KeyCommand::SideFull { side: !stacked })
            &&& key_command(key, Bindings { main_panel_full: true, ..unbound() }, s)
                == (KeyCommand::SideFull { side: stacked })
            &&& key_command(key, Bindings { reset_side_panel: true, ..unbound() }, s) is ResetSide
            &&& key_command(key, Bindings { toggle_diff_view_layout: true, ..unbound() }, s)
                is ToggleDiffLayout
        }),
{
}

/// Where the diff has the keys, it gets every key that is not one for the layout.
pub proof fn the_diff_gets_the_rest(key: KeyEvent, b: Bindings, s: KeyState)
    requires
        panels_get(key, s),
        s.diff_focused,
        !(s.active is Files),
        !b.shrink_side_panel && !b.expand_side_panel && !b.side_panel_full,
        !b.main_panel_full && !b.reset_side_panel && !b.toggle_diff_view_layout,
    ensures
        key_command(key, b, s) is ToDiffPanel,
{
}

/// What the keys mean that cannot be bound to anything else.
pub proof fn fixed_keys_have_their_meaning(key: KeyEvent, s: KeyState)
    requires
        panels_get(key, s),
        !s.diff_focused,
    ensures
        ({
            let c = key_command(key, unbound(), s);
            let bare = key.modifiers == (KeyModifiers {
                shift: false,
                control: false,
                alt: false,
                command: false,
                hyper: false,
                meta: false,
            });
            &&& key.code == KeyCode::Char('[') ==> c is PrevTab
            &&& key.code == KeyCode::Char(']') ==> c is NextTab
            &&& key.code is PageDown ==> c == (KeyCommand::ScrollDiff { down: true, lines: 20 })
            &&& key.code is PageUp ==> c == (KeyCommand::ScrollDiff { down: false, lines: 20 })
            &&& key.code == KeyCode::Char('{') ==> c is PrevHunk
            &&& key.code == KeyCode::Char('}') ==> c is NextHunk
            &&& key.code == KeyCode::Char('W') ==> c is EnterDiffMode
            &&& key.code == KeyCode::Char(';') ==> c is ToggleCommandLog
            &&& key.code == KeyCode::Char('?') ==> c is ShowCommands
            &&& key.code is Esc ==> (c is ClearSearch <==> s.has_search_query)
            &&& key.code == KeyCode::Char('B') && s.active is Files ==> c is EnterBlockMode
            &&& key.code == KeyCode::Char('b') && key.modifiers.shift && s.active is Files ==> c
                is EnterBlockMode
            &&& input::types_plain(key, 'I') ==> c is ShowRebasePicker
            &&& input::types_plain(key, 'G') ==> c is ShowResetPicker
            &&& key.code == KeyCode::Char('.') ==> (c is ToggleDetails <==> s.active is Commits
                || s.active is BranchCommits || s.active is Reflog || s.active is CommitFiles
                || s.active is StashFiles || s.active is BranchCommitFiles)
            &&& bare && key.code == KeyCode::Char('3') ==> (s.window matches Some(w) ==> c
                == number_leads(s.active, w))
            &&& !bare && key.code == KeyCode::Char('3') ==> c is ToContext
        }),
{
}

/// The digits one to five, without a modifier, lead to the window that they name, or out
/// of a list that hangs off one of that window to the one that it hangs off. From any
/// other list a number leads to its window.
pub proof fn numbers_lead_to_windows(key: KeyEvent, b: Bindings, s: KeyState, w: SideWindow)
    requires
        panels_get(key, s),
        !s.diff_focused,
        key.code matches KeyCode::Char(c) && '1' <= c <= '5',
        key.modifiers == (KeyModifiers {
            shift: false,
            control: false,
            alt: false,
            command: false,
            hyper: false,
            meta: false,
        }),
        s.window == Some(w),
        b == unbound(),
    ensures
        ({
            let c = key_command(key, b, s);
            &&& s.active is CommitFiles && w is Commits ==> c == KeyCommand::Activate(
                ContextId::Commits,
            )
            &&& s.active is StashFiles && w is Stash ==> c == KeyCommand::Activate(ContextId::Stash)
            &&& s.active is BranchCommitFiles && w is Branches ==> c == KeyCommand::Activate(
                ContextId::BranchCommits,
            )
            &&& s.active is BranchCommits && w is Branches ==> c == KeyCommand::Activate(
                ContextId::Branches,
            )
            &&& s.active is RemoteBranches && w is Branches ==> c == KeyCommand::Activate(
                ContextId::Remotes,
            )
            &&& c is Activate || c == KeyCommand::JumpToWindow(w)
            &&& c is Activate ==> w is Commits || w is Stash || w is Branches
            &&& w is Commits && c is Activate ==> s.active is CommitFiles
            &&& w is Stash && c is Activate ==> s.active is StashFiles
            &&& w is Branches && c is Activate ==> s.active is BranchCommitFiles
                || s.active is BranchCommits || s.active is RemoteBranches
        }),
{
}

/// A key that is bound to several things does the first of them, in this order: the
/// layout, quitting, the windows, the items, the top and the bottom, scrolling, and what
/// is left; what comes behind does not matter.
pub proof fn the_first_binding_counts(key: KeyEvent, b: Bindings, s: KeyState)
    requires
        panels_get(key, s),
        !s.diff_focused,
        !means_something(key, s),
    ensures
        ({
            let c = key_command(key, b, s);
            let layout = b.shrink_side_panel || b.expand_side_panel || b.side_panel_full
                || b.main_panel_full || b.reset_side_panel || b.toggle_diff_view_layout;
            let quits = b.quit || b.quit_alt1;
            let windows = b.toggle_panel || b.toggle_panel_reverse || b.prev_block
                || b.prev_block_alt || b.next_block || b.next_block_alt;
            let items = b.prev_item || b.prev_item_alt || b.next_item || b.next_item_alt
                || b.goto_top || b.goto_bottom;
            let scrolls = b.scroll_down_main_alt1 || b.scroll_up_main_alt1 || b.scroll_left
                || b.scroll_right;
            &&& layout ==> c is ResizeSide || c is SideFull || c is ResetSide
                || c is ToggleDiffLayout
            &&& !layout && quits ==> c is Quit
            &&& !layout && !quits && windows ==> c is NextWindow || c is PrevWindow
            &&& !layout && !quits && !windows && items ==> c is PrevItem || c is NextItem || c is Top
                || c is Bottom
            &&& !layout && !quits && !windows && !items && scrolls ==> c is ScrollDiff
                || c is ScrollDiffSideways
            &&& c is Quit ==> quits
            &&& c is Refresh ==> b.refresh
            &&& c is Undo ==> b.undo
            &&& c is Redo ==> b.redo && !b.undo
            &&& c is PushOrPull ==> b.push_files || b.pull_files
        }),
{
}

/// Each list has its own keys; the files of a commit, a stash and a commit of a branch
/// have the same, and no two others share theirs.
pub proof fn lists_have_their_own_keys(a: ContextId, b: ContextId)
    ensures
        controller_for(a) == controller_for(b) <==> a == b || (a.lists_commit_files()
            && b.lists_commit_files()),
        controller_for(ContextId::Files) is Files,
        controller_for(ContextId::Branches) is Branches,
        controller_for(ContextId::Commits) is Commits,
        controller_for(ContextId::Reflog) is Reflog,
        controller_for(ContextId::Stash) is Stash,
        controller_for(ContextId::Remotes) is Remotes,
        controller_for(ContextId::Tags) is Tags,
        controller_for(ContextId::Status) is Status,
        controller_for(ContextId::Worktrees) is Worktrees,
        controller_for(ContextId::Submodules) is Submodules,
        controller_for(ContextId::RemoteBranches) is RemoteBranches,
        controller_for(ContextId::CommitFiles) is CommitFiles,
        controller_for(ContextId::BranchCommits) is BranchCommits,
{
}

/// A command changes at most what it is about: quitting asks to leave, refreshing asks
/// for a refresh, the screen keys change the screen, and all other commands leave the
/// state that the panels share as it is.
pub proof fn commands_do_what_they_say(g: Gui, c: KeyCommand)
    ensures
        g.commanded(KeyCommand::Quit).leaving.should_quit,
        g.commanded(KeyCommand::Refresh).needs_refresh,
        g.commanded(KeyCommand::NextScreenMode).screen_mode != g.screen_mode,
        g.commanded(KeyCommand::PrevScreenMode).screen_mode != g.screen_mode,
        g.commanded(KeyCommand::NextScreenMode).screen_mode == match g.screen_mode {
            ScreenMode::Normal => ScreenMode::Half,
            ScreenMode::Half => ScreenMode::Full,
            ScreenMode::Full => ScreenMode::Normal,
        },
        g.commanded(KeyCommand::ToggleCommandLog).preferences.show_command_log
            != g.preferences.show_command_log,
        g.commanded(KeyCommand::ToggleDetails).preferences.show_commit_details
            != g.preferences.show_commit_details,
        !(c is Quit) ==> g.commanded(c).leaving == g.leaving,
        !(c is Refresh) ==> g.commanded(c).needs_refresh == g.needs_refresh,
        !(c is NextScreenMode) && !(c is PrevScreenMode) ==> g.commanded(c).screen_mode
            == g.screen_mode,
        !(c is ToggleCommandLog) && !(c is ToggleDetails) ==> g.commanded(c).preferences
            == g.preferences,
{
}

} // verus!
