//! What the program starts with: what was chosen before, and how it sets up the terminal.

use crate::gui::context::{ContextId, ScreenMode};
use crate::gui::diff_pane::DiffPane;
use crate::gui::main_loop::Leaving;
use crate::gui::popup::history;
use crate::gui::popup::history::CommitHistory;
use crate::gui::popup::keys::{PopupState, Popups};
use crate::pager::DiffViewLayout;
use crate::text;
use vstd::prelude::*;

verus! {

// ---------------------------------------------------------------------------
// What was chosen before
// ---------------------------------------------------------------------------

/// What was chosen in an earlier run, as far as it was.
#[derive(Debug)]
pub struct SavedState {
    pub show_file_tree: Option<bool>,
    pub show_command_log: Option<bool>,
    pub diff_line_wrap: Option<bool>,
    pub diff_view: Option<DiffViewLayout>,
    pub show_commit_details: Option<bool>,
    pub color_theme: Option<String>,
}

/// What the user configured.
#[derive(Debug, Clone, Copy, PartialEq, Eq, Structural)]
pub struct GuiConfig {
    pub show_file_tree: bool,
    pub show_command_log: bool,
}

/// How things are shown.
#[derive(Debug, Clone, Copy, PartialEq, Eq, Structural)]
pub struct Preferences {
    pub show_file_tree: bool,
    pub show_command_log: bool,
    pub diff_line_wrap: bool,
    pub diff_view: DiffViewLayout,
    pub show_commit_details: bool,
}

/// What was chosen, or else what holds without a choice.
pub open spec fn chosen_or(c: Option<bool>, otherwise: bool) -> bool {
    match c {
        Some(b) => b,
        None => otherwise,
    }
}

fn or_else(c: Option<bool>, otherwise: bool) -> (r: bool)
    ensures
        r == chosen_or(c, otherwise),
{
    match c {
        Some(b) => b,
        None => otherwise,
    }
}

/// How things are shown at the start: as chosen before, or else as configured. Without a
/// choice lines are not wrapped, the sides of a diff stand side by side, and the details
/// of a commit are on show.
pub open spec fn preferences(s: SavedState, c: GuiConfig) -> Preferences {
    Preferences {
        show_file_tree: chosen_or(s.show_file_tree, c.show_file_tree),
        show_command_log: chosen_or(s.show_command_log, c.show_command_log),
        diff_line_wrap: chosen_or(s.diff_line_wrap, false),
        diff_view: match s.diff_view {
            Some(v) => v,
            None => DiffViewLayout::SideBySide,
        },
        show_commit_details: chosen_or(s.show_commit_details, true),
    }
}

/// Tells how things are shown at the start.
pub fn starting_preferences(s: &SavedState, c: GuiConfig) -> (r: Preferences)
    ensures
        r == preferences(*s, c),
{
    Preferences {
        show_file_tree: or_else(s.show_file_tree, c.show_file_tree),
        show_command_log: or_else(s.show_command_log, c.show_command_log),
        diff_line_wrap: or_else(s.diff_line_wrap, false),
        diff_view: match s.diff_view {
            Some(v) => v,
            None => DiffViewLayout::SideBySide,
        },
        show_commit_details: or_else(s.show_commit_details, true),
    }
}

/// The first theme from `i` on with an id, or none.
pub open spec fn theme_with_id(ids: Seq<Seq<char>>, id: Seq<char>, i: int) -> Option<int>
    decreases ids.len() - i,
{
    if i < 0 || i >= ids.len() {
        None
    } else if ids[i] == id {
        Some(i)
    } else {
        theme_with_id(ids, id, i + 1)
    }
}

/// The theme at the start: the chosen one if there is still such a theme, and else the
/// first.
pub open spec fn starting_theme_of(ids: Seq<Seq<char>>, chosen: Option<Seq<char>>) -> int {
    match chosen {
        Some(id) => match theme_with_id(ids, id, 0) {
            Some(i) => i,
            None => 0,
        },
        None => 0,
    }
}

/// Finds the theme at the start.
pub fn starting_theme(ids: &Vec<String>, chosen: &Option<String>) -> (r: usize)
    ensures
        r == starting_theme_of(text::texts(ids@), text::opt_text(*chosen)),
{
    match chosen {
        Some(id) => {
            let ghost all = text::texts(ids@);
            let mut i: usize = 0;
            while i < ids.len()
                invariant
                    i <= ids@.len(),
                    all == text::texts(ids@),
                    text::opt_text(*chosen) == Some(id@),
                    theme_with_id(all, id@, 0) == theme_with_id(all, id@, i as int),
                decreases ids@.len() - i,
            {
                assert(all[i as int] == ids@[i as int]@);
                if text::same_str(ids[i].as_str(), id.as_str()) {
                    return i;
                }
                i = i + 1;
            }
            0
        },
        None => 0,
    }
}

// ---------------------------------------------------------------------------
// The state at the start
// ---------------------------------------------------------------------------

/// The state of the program that windows, the diff and the lists share.
#[derive(Debug)]
pub struct Gui {
    pub preferences: Preferences,
    pub popups: Popups,
    pub pane: DiffPane,
    pub leaving: Leaving,
    pub screen_mode: ScreenMode,
    pub diff_focused: bool,
    /// Whether the files of commits are shown as a tree.
    pub show_commit_file_tree: bool,
    pub sub_commits_parent: ContextId,
    pub undo_reflog_idx: usize,
    pub needs_refresh: bool,
    pub needs_files_refresh: bool,
}

impl Gui {
    /// The state at the start: nothing is open and nothing asked for but a diff, and the
    /// messages of earlier commits are there again.
    pub fn new(s: &SavedState, c: GuiConfig, theme_ids: &Vec<String>, messages: Option<&str>) -> (r:
        Gui)
        ensures
            r.preferences == preferences(*s, c),
            r.popups.popup is Closed,
            r.popups.pending_commit is None,
            r.popups.saved_commit is None,
            r.popups.pending_menu is None,
            r.popups.current_theme == starting_theme_of(
                text::texts(theme_ids@),
                text::opt_text(s.color_theme),
            ),
            r.popups.history.wf(),
            text::texts(r.popups.history.messages@) == match messages {
                Some(t) => history::read_history(t@),
                None => seq![],
            },
            r.popups.history.idx is None,
            r.popups.history.draft@.len() == 0,
            r.pane.wf(),
            r.pane.view.is_fresh(r.preferences.diff_line_wrap, r.preferences.diff_view),
            r.pane.cache.entries@.len() == 0,
            r.pane.last_key@.len() == 0,
            r.pane.displayed_key@.len() == 0,
            !r.pane.loading,
            r.pane.loading_since is None,
            r.pane.needs_refresh,
            r.pane.generation == 0,
            r.pane.inflight@.len() == 0,
            !r.leaving.should_quit,
            r.leaving.pending_repo_open is None,
            r.screen_mode is Normal,
            !r.diff_focused,
            r.show_commit_file_tree == r.preferences.show_file_tree,
            r.sub_commits_parent is Branches,
            r.undo_reflog_idx == 0,
            !r.needs_refresh,
            !r.needs_files_refresh,
    {
        let preferences = starting_preferences(s, c);
        let current_theme: usize = starting_theme(theme_ids, &s.color_theme);
        Gui {
            preferences,
            popups: Popups {
                popup: PopupState::Closed,
                pending_commit: None,
                saved_commit: None,
                pending_menu: None,
                history: CommitHistory::new(history::load_commit_history(messages)),
                current_theme,
            },
            pane: DiffPane::new(preferences.diff_line_wrap, preferences.diff_view),
            leaving: Leaving::new(),
            screen_mode: ScreenMode::Normal,
            diff_focused: false,
            show_commit_file_tree: preferences.show_file_tree,
            sub_commits_parent: ContextId::Branches,
            undo_reflog_idx: 0,
            needs_refresh: false,
            needs_files_refresh: false,
        }
    }

    /// The id of the theme in use; none where its index leads nowhere, so that the
    /// default one is used.
    pub fn active_theme<'a>(&self, theme_ids: &'a Vec<String>) -> (r: Option<&'a String>)
        ensures
            match r {
                Some(id) => self.popups.current_theme < theme_ids@.len() && *id
                    == theme_ids@[self.popups.current_theme as int],
                None => self.popups.current_theme >= theme_ids@.len(),
            },
    {
        if self.popups.current_theme < theme_ids.len() {
            Some(&theme_ids[self.popups.current_theme])
        } else {
            None
        }
    }

    /// Leaves for another repository.
    pub fn request_repo_open(&mut self, path: String)
        ensures
            *final(self) == (Gui {
                leaving: Leaving { should_quit: true, pending_repo_open: Some(path) },
                ..*old(self)
            }),
    {
        self.leaving.request_repo_open(path);
    }

    /// Takes the repository that is to be opened next.
    pub fn take_pending_repo_open(&mut self) -> (r: Option<String>)
        ensures
            r == old(self).leaving.pending_repo_open,
            *final(self) == (Gui {
                leaving: Leaving { pending_repo_open: None, ..old(self).leaving },
                ..*old(self)
            }),
    {
        self.leaving.take_pending_repo_open()
    }

    /// Keeps for later runs whether the commands that were run are shown.
    pub fn persist_command_log_visibility(&self, state: &mut SavedState)
        ensures
            *final(state) == (SavedState {
                show_command_log: Some(self.preferences.show_command_log),
                ..*old(state)
            }),
    {
        state.show_command_log = Some(self.preferences.show_command_log);
    }

    /// Keeps for later runs whether the files are shown as a tree.
    pub fn persist_file_tree_visibility(&self, state: &mut SavedState)
        ensures
            *final(state) == (SavedState {
                show_file_tree: Some(self.preferences.show_file_tree),
                ..*old(state)
            }),
    {
        state.show_file_tree = Some(self.preferences.show_file_tree);
    }

    /// Keeps for later runs whether the details of a commit are shown.
    pub fn persist_commit_details_visibility(&self, state: &mut SavedState)
        ensures
            *final(state) == (SavedState {
                show_commit_details: Some(self.preferences.show_commit_details),
                ..*old(state)
            }),
    {
        state.show_commit_details = Some(self.preferences.show_commit_details);
    }

    /// Keeps for later runs whether the lines of a diff are wrapped.
    pub fn persist_diff_line_wrap(&self, state: &mut SavedState)
        ensures
            *final(state) == (SavedState {
                diff_line_wrap: Some(self.pane.view.wrap),
                ..*old(state)
            }),
    {
        state.diff_line_wrap = Some(self.pane.view.wrap);
    }

    /// Keeps for later runs how the sides of a diff are shown.
    pub fn persist_diff_view_layout(&self, state: &mut SavedState)
        ensures
            *final(state) == (SavedState {
                diff_view: Some(self.pane.view.view_layout),
                ..*old(state)
            }),
    {
        state.diff_view = Some(self.pane.view.view_layout);
    }
}

// ---------------------------------------------------------------------------
// The terminal
// ---------------------------------------------------------------------------

/// What a terminal can be asked to tell about keys beyond the plain text.
#[derive(Debug, Clone, Copy, PartialEq, Eq, Structural)]
pub struct KeyboardEnhancement {
    pub disambiguate_escape_codes: bool,
    pub report_event_types: bool,
    pub report_alternate_keys: bool,
    pub report_all_keys_as_escape_codes: bool,
}

/// What the terminal is asked to tell about keys: which escape codes are keys, and no
/// more. Were every key reported as an escape code, what a keyboard layout or an input
/// method makes of it would be lost; were repeats reported as such, they would be
/// dropped.
pub fn keyboard_enhancement_flags() -> (r: KeyboardEnhancement)
    ensures
        r.disambiguate_escape_codes,
        !r.report_event_types,
        !r.report_alternate_keys,
        !r.report_all_keys_as_escape_codes,
{
    KeyboardEnhancement {
        disambiguate_escape_codes: true,
        report_event_types: false,
        report_alternate_keys: false,
        report_all_keys_as_escape_codes: false,
    }
}

/// What makes a terminal report buttons, drags and the wheel, but no mere motion.
pub fn mouse_capture_without_hover() -> (r: String)
    ensures
        r@ == "\x1b[?1000h\x1b[?1002h\x1b[?1015h\x1b[?1006h"@,
{
    "\x1b[?1000h\x1b[?1002h\x1b[?1015h\x1b[?1006h".to_string()
}

/// A system the program runs on, as far as its clipboard goes.
#[derive(Debug, Clone, Copy, PartialEq, Eq, Structural)]
pub enum ClipboardSystem {
    MacOs,
    Windows,
    Other,
}

/// The command that prints the clipboard.
pub fn clipboard_command(system: ClipboardSystem) -> (r: String)
    ensures
        r@ == match system {
            ClipboardSystem::MacOs => "pbpaste"@,
            ClipboardSystem::Windows => "powershell.exe -command Get-Clipboard"@,
            ClipboardSystem::Other => "xclip -selection clipboard -o"@,
        },
{
    match system {
        ClipboardSystem::MacOs => "pbpaste".to_string(),
        ClipboardSystem::Windows => "powershell.exe -command Get-Clipboard".to_string(),
        ClipboardSystem::Other => "xclip -selection clipboard -o".to_string(),
    }
}

/// Reads the clipboard from what the command for it printed, if that succeeded: white
/// space around it is dropped.
pub fn read_clipboard(succeeded: bool, output: &str) -> (r: Option<String>)
    ensures
        text::opt_text(r) == if succeeded {
            Some(text::trim(output@))
        } else {
            None
        },
{
    if succeeded {
        Some(text::trim_str(output))
    } else {
        None
    }
}

// ---------------------------------------------------------------------------
// Laws
// ---------------------------------------------------------------------------

/// What was kept of one run is how the next one starts, whatever is configured, and it
/// changes nothing else.
pub proof fn a_choice_is_kept(s: SavedState, c: GuiConfig, on: bool, layout: DiffViewLayout)
    ensures
        preferences(SavedState { show_command_log: Some(on), ..s }, c) == (Preferences {
            show_command_log: on,
            ..preferences(s, c)
        }),
        preferences(SavedState { show_file_tree: Some(on), ..s }, c) == (Preferences {
            show_file_tree: on,
            ..preferences(s, c)
        }),
        preferences(SavedState { show_commit_details: Some(on), ..s }, c) == (Preferences {
            show_commit_details: on,
            ..preferences(s, c)
        }),
        preferences(SavedState { diff_line_wrap: Some(on), ..s }, c) == (Preferences {
            diff_line_wrap: on,
            ..preferences(s, c)
        }),
        preferences(SavedState { diff_view: Some(layout), ..s }, c) == (Preferences {
            diff_view: layout,
            ..preferences(s, c)
        }),
{
}

/// The theme at the start is one there is, if there is any; a chosen id leads to the
/// theme with that id.
pub proof fn the_starting_theme_exists(ids: Seq<Seq<char>>, chosen: Option<Seq<char>>)
    ensures
        ids.len() > 0 ==> 0 <= starting_theme_of(ids, chosen) < ids.len(),
        chosen is Some && ids.contains(chosen->0) ==> ids[starting_theme_of(ids, chosen)] == chosen->0,
{
    if chosen is Some {
        lemma_theme_with_id(ids, chosen->0, 0);
        if ids.contains(chosen->0) {
            let k = choose|k: int| 0 <= k < ids.len() && ids[k] == chosen->0;
            assert(ids[k] == chosen->0);
        }
    }
}

proof fn lemma_theme_with_id(ids: Seq<Seq<char>>, id: Seq<char>, i: int)
    requires
        0 <= i <= ids.len(),
    ensures
        match theme_with_id(ids, id, i) {
            Some(k) => i <= k < ids.len() && ids[k] == id,
            None => forall|k: int| i <= k < ids.len() ==> ids[k] != id,
        },
    decreases ids.len() - i,
{
    if i < ids.len() && ids[i] != id {
        lemma_theme_with_id(ids, id, i + 1);
    }
}

/// Without a choice the configured settings hold, lines are not wrapped, the sides of a diff
/// stand side by side, and the details of a commit are on show.
pub proof fn settings_without_a_choice(s: SavedState, c: GuiConfig)
    ensures
        s.show_file_tree is None ==> preferences(s, c).show_file_tree == c.show_file_tree,
        s.show_command_log is None ==> preferences(s, c).show_command_log == c.show_command_log,
        s.diff_line_wrap is None ==> !preferences(s, c).diff_line_wrap,
        s.diff_view is None ==> preferences(s, c).diff_view is SideBySide,
        s.show_commit_details is None ==> preferences(s, c).show_commit_details,
{
}

/// A chosen theme that is no longer there, or none chosen, leads to the first.
pub proof fn an_unknown_theme_leads_to_the_first(ids: Seq<Seq<char>>, id: Seq<char>)
    ensures
        starting_theme_of(ids, None) == 0,
        !ids.contains(id) ==> starting_theme_of(ids, Some(id)) == 0,
{
    lemma_theme_with_id(ids, id, 0);
    match theme_with_id(ids, id, 0) {
        Some(k) => {
            assert(ids.contains(ids[k]));
        },
        None => {},
    }
}

} // verus!
