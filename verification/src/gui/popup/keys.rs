//! What the keys do while a window is open.

use super::checklist;
use super::checklist::{Checklist, ChecklistStep};
use super::commit_input::{BodyEdit, CommitInput, CommitStep};
use super::conflict_blocks::{ConflictBlocks, ConflictBlocksStep};
use super::history::CommitHistory;
use super::input;
use super::input::{InputPopup, InputStep};
use super::menu;
use super::menu::{Menu, MenuStep};
use super::menus;
use super::palette;
use super::palette::{CommandAction, CommandPalette, PaletteStep};
use super::pickers;
use super::pickers::{ListPicker, PickStep, RefPicker, ThemePicker, ThemeStep};
use super::{Action, Notice, Refresh};
use crate::git::merge_conflict::ResolveChoice;
use crate::gui::input::{KeyCode, KeyEvent};
use crate::gui::picker;
use crate::text;
use vstd::prelude::*;

verus! {

/// A question that is answered with yes or no.
#[derive(Debug)]
pub struct ConfirmPopup {
    pub title: String,
    pub message: String,
    pub on_confirm: Action,
}

/// The window that is open.
#[derive(Debug)]
pub enum PopupState {
    Closed,
    Confirm(ConfirmPopup),
    Message(Notice),
    Menu(Menu),
    ConflictBlocks(ConflictBlocks),
    Input(InputPopup),
    CommitInput(CommitInput),
    Checklist(Checklist),
    Loading { title: String, message: String },
    CommandPalette(CommandPalette),
    RefPicker(RefPicker),
    ListPicker(ListPicker),
    ThemePicker(ThemePicker),
}

/// The window that is open, and those that are put aside.
#[derive(Debug)]
pub struct Popups {
    pub popup: PopupState,
    /// The editor of a commit message behind its menu.
    pub pending_commit: Option<PopupState>,
    /// The editor of a commit message that was left, to come back to.
    pub saved_commit: Option<PopupState>,
    /// The menu whose item is being run.
    pub pending_menu: Option<PopupState>,
    pub history: CommitHistory,
    pub current_theme: usize,
}

/// What a key leads to, beyond the windows.
#[derive(Debug)]
pub enum PopupEffect {
    Nothing,
    /// A question was answered with yes.
    RunConfirm(Action),
    /// The item with this index of the menu put aside is run.
    RunMenu(usize),
    ResolveBlocks { path: String, choices: Vec<ResolveChoice> },
    /// A text was confirmed; where it joined the history, that is to be saved.
    RunInput { action: Action, text: String, save_history: bool },
    GenerateMessage,
    EditBody(BodyEdit),
    LoadBody(String),
    RunChecked { action: Action, labels: Vec<String> },
    SyncChecklist(String),
    RunPick { action: Action, value: String },
    SyncListPicker,
    Dispatch(KeyEvent),
    OpenThemePicker,
    SaveTheme(usize),
}

/// What a key in a window depends on beside the windows.
#[derive(Debug)]
pub struct PopupEnv {
    pub screen_width: u16,
    pub screen_height: u16,
    /// The width for commit messages, zero for none.
    pub wrap_width: usize,
    /// Whether the key is the one that opens the menu of the editor.
    pub menu_key: bool,
    /// Whether the key is the one that has a message generated.
    pub ai_key: bool,
    /// The command that generates a message, empty for none.
    pub generate_command: String,
    /// What the body of the commit message holds.
    pub body: String,
    /// The value that confirming the free list gives, if there is one.
    pub picked: Option<String>,
}

/// How many rows of a list are in view.
pub open spec fn rows_in_view(env: PopupEnv) -> usize {
    picker::visible_rows(env.screen_height as int) as usize
}

/// How many rows of the palette are in view.
pub open spec fn palette_in_view(env: PopupEnv) -> usize {
    palette::palette_rows(env.screen_height as int) as usize
}

impl PopupState {
    /// Whether the window can take a key: its numbers leave room for the sums formed
    /// with them.
    pub open spec fn takes(self, key: KeyEvent, env: PopupEnv) -> bool {
        match self {
            PopupState::Menu(m) => m.wf(),
            PopupState::ConflictBlocks(b) => b.fits(),
            PopupState::Input(_) => env.screen_width * 60 <= u16::MAX,
            PopupState::Checklist(c) => c.selected < usize::MAX,
            PopupState::CommandPalette(p) => p.fits(),
            PopupState::RefPicker(p) => p.fits(),
            PopupState::ListPicker(p) => p.core.fits(),
            PopupState::ThemePicker(p) => p.core.fits(),
            _ => true,
        }
    }

    /// Whether a list can follow a key: down, it has a row on the screen to show the
    /// selection in or begins below it, and up, a list of themes has one.
    pub open spec fn follows(self, key: KeyEvent, env: PopupEnv) -> bool {
        let rows = rows_in_view(env) as int;
        match self {
            PopupState::CommandPalette(p) => key.code is Down ==> p.follows_down(
                palette::shown_entries(p.sections@, text::lowercase(p.search())),
                palette_in_view(env) as int,
            ),
            PopupState::RefPicker(p) => key.code is Down ==> pickers::follows_down(p.core, rows),
            PopupState::ListPicker(p) => key.code is Down ==> pickers::follows_down(p.core, rows),
            PopupState::ThemePicker(p) => {
                &&& key.code is Down ==> ThemePicker::follows_down(p.core, rows)
                &&& key.code is Up ==> p.core.items@.len() > 0
            },
            _ => true,
        }
    }

    /// Tells whether a list can follow a key.
    pub fn can_follow(&self, key: KeyEvent, env: &PopupEnv) -> (r: bool)
        requires
            self.takes(key, *env),
        ensures
            r == self.follows(key, *env),
    {
        let down = key.code == KeyCode::Down;
        let up = key.code == KeyCode::Up;
        let rows: usize = picker::list_picker_visible_height(env.screen_height as usize);
        assert(rows == rows_in_view(*env));
        match self {
            PopupState::CommandPalette(p) => {
                let height: usize = palette::palette_visible_height(env.screen_height as usize);
                assert(height == palette_in_view(*env));
                let shown = p.shown();
                !down || p.can_follow_down(&shown, height)
            },
            PopupState::RefPicker(p) => !down || pickers::can_follow_down(&p.core, rows),
            PopupState::ListPicker(p) => !down || pickers::can_follow_down(&p.core, rows),
            PopupState::ThemePicker(p) => (!down || p.can_follow_down(rows)) && (!up
                || p.core.items.len() > 0),
            _ => true,
        }
    }
}

impl Popups {
    /// The same with another window open.
    pub open spec fn with(self, popup: PopupState) -> Popups {
        Popups { popup, ..self }
    }

    /// Whether `after` is this with the menu of the editor open and the editor behind
    /// it.
    pub open spec fn behind_editor_menu(self, after: Popups, generate: Seq<char>) -> bool {
        after == (Popups {
            popup: after.popup,
            pending_commit: Some(self.popup),
            ..self
        }) && after.popup is Menu && menus::is_editor_menu(after.popup->Menu_0, generate)
    }

    /// Puts the editor of a commit message behind its menu.
    pub fn show_commit_editor_menu(&mut self, generate: &str)
        ensures
            old(self).behind_editor_menu(*final(self), generate@),
    {
        let mut popup = PopupState::Menu(menus::commit_editor_menu(generate));
        core::mem::swap(&mut self.popup, &mut popup);
        self.pending_commit = Some(popup);
    }

    /// Whether a key in a question leaves the windows as `after` with an effect.
    pub open spec fn confirm_answered(self, c: ConfirmPopup, key: KeyEvent, after: Popups, r: PopupEffect) -> bool {
        after == self.with(PopupState::Closed) && r == if key.code == KeyCode::Char('y')
            || key.code is Enter {
            PopupEffect::RunConfirm(c.on_confirm)
        } else {
            PopupEffect::Nothing
        }
    }

    /// Whether a key in a menu leaves the windows as `after` with an effect. What is
    /// run finds its menu put aside; leaving the menu of the editor leads back there.
    pub open spec fn menu_answered(self, m: Menu, key: KeyEvent, after: Popups, r: PopupEffect) -> bool {
        let (at, step) = menu::menu_after(m, key);
        match step {
            MenuStep::Stay => after == self.with(
                PopupState::Menu(Menu { selected: at as usize, ..m }),
            ) && r is Nothing,
            MenuStep::Run(i) => after == (Popups {
                popup: PopupState::Closed,
                pending_menu: Some(PopupState::Menu(m)),
                ..self
            }) && r == PopupEffect::RunMenu(i),
            MenuStep::Close => after == self.with(PopupState::Closed) && r is Nothing,
            MenuStep::Leave => after == (Popups {
                popup: match self.pending_commit {
                    Some(p) => p,
                    None => PopupState::Closed,
                },
                pending_commit: None,
                ..self
            }) && r is Nothing,
        }
    }

    /// Whether a key in the list of blocks leaves the windows as `after` with an
    /// effect.
    pub open spec fn blocks_answered(self, b: ConflictBlocks, key: KeyEvent, after: Popups, r: PopupEffect) -> bool {
        exists|b2: ConflictBlocks, step: ConflictBlocksStep| #[trigger]
            b.answered(key, b2, step) && match step {
                ConflictBlocksStep::Stay => after == self.with(PopupState::ConflictBlocks(b2))
                    && r is Nothing,
                ConflictBlocksStep::Resolve(choices) => after == self.with(PopupState::Closed) && r
                    == PopupEffect::ResolveBlocks { path: b.path, choices },
                ConflictBlocksStep::Leave => after == self.with(PopupState::Closed) && r is Nothing,
            }
    }

    /// Whether a key in a window with one field leaves the windows as `after` with an
    /// effect.
    pub open spec fn input_answered(
        self,
        p: InputPopup,
        key: KeyEvent,
        env: PopupEnv,
        after: Popups,
        r: PopupEffect,
    ) -> bool {
        exists|p2: InputPopup, h2: CommitHistory, step: InputStep| #[trigger]
            p.answered(
                key,
                self.history,
                env.menu_key,
                input::inner_width(env.screen_width as int) as usize,
                env.wrap_width,
                p2,
                h2,
                step,
            ) && {
                let now = Popups { history: h2, ..self };
                match step {
                    InputStep::Stay => after == now.with(PopupState::Input(p2)) && r is Nothing,
                    InputStep::Confirm { text, save_history } => after == now.with(
                        PopupState::Closed,
                    ) && r == PopupEffect::RunInput { action: p.on_confirm, text, save_history },
                    InputStep::Leave => after == now.with(PopupState::Closed) && r is Nothing,
                    InputStep::OpenMenu => now.with(PopupState::Input(p2)).behind_editor_menu(
                        after,
                        env.generate_command@,
                    ) && r is Nothing,
                }
            }
    }

    /// Whether a key in the editor of a commit message leaves the windows as `after`
    /// with an effect. A message that is used leaves no editor to come back to; an
    /// editor that is left is kept.
    pub open spec fn commit_answered(
        self,
        p: CommitInput,
        key: KeyEvent,
        env: PopupEnv,
        after: Popups,
        r: PopupEffect,
    ) -> bool {
        exists|p2: CommitInput, h2: CommitHistory, step: CommitStep| #[trigger]
            p.answered(
                key,
                env.body@,
                self.history,
                env.menu_key,
                env.ai_key,
                p2,
                h2,
                step,
            ) && {
                let now = Popups { history: h2, popup: PopupState::CommitInput(p2), ..self };
                match step {
                    CommitStep::Stay => after == now && r is Nothing,
                    CommitStep::Edit(e) => after == now && r == PopupEffect::EditBody(e),
                    CommitStep::LoadBody(b) => after == now && r == PopupEffect::LoadBody(b),
                    CommitStep::Submit { text, save_history } => after == (Popups {
                        popup: PopupState::Closed,
                        saved_commit: None,
                        ..now
                    }) && r == PopupEffect::RunInput { action: p.on_confirm, text, save_history },
                    CommitStep::Stash => after == (Popups {
                        popup: PopupState::Closed,
                        saved_commit: Some(PopupState::CommitInput(p2)),
                        ..now
                    }) && r is Nothing,
                    CommitStep::OpenMenu => now.behind_editor_menu(after, env.generate_command@)
                        && r is Nothing,
                    CommitStep::Generate => after == now && r is GenerateMessage,
                }
            }
    }

    /// Whether a key in a checklist leaves the windows as `after` with an effect.
    pub open spec fn checklist_answered(self, c: Checklist, key: KeyEvent, after: Popups, r: PopupEffect) -> bool {
        exists|c2: Checklist, step: ChecklistStep| #[trigger]
            c.answered(key, checklist::visibility(c.items@, c.search()), c2, step) && match step {
                ChecklistStep::Stay => after == self.with(PopupState::Checklist(c2))
                    && r is Nothing,
                ChecklistStep::Confirm(labels) => after == self.with(PopupState::Closed) && r
                    == PopupEffect::RunChecked { action: c.on_confirm, labels },
                ChecklistStep::Leave => after == self.with(PopupState::Closed) && r is Nothing,
                ChecklistStep::Search(s) => after == self.with(PopupState::Checklist(c2)) && r
                    == PopupEffect::SyncChecklist(s),
            }
    }

    /// Whether a key in the palette leaves the windows as `after` with an effect. A
    /// command closes it, unless it is only listed.
    pub open spec fn palette_answered(
        self,
        p: CommandPalette,
        key: KeyEvent,
        env: PopupEnv,
        after: Popups,
        r: PopupEffect,
    ) -> bool {
        exists|p2: CommandPalette, step: PaletteStep| #[trigger]
            p.answered(
                key,
                palette::shown_entries(p.sections@, text::lowercase(p.search())),
                palette_in_view(env),
                p2,
                step,
            ) && match step {
                PaletteStep::Stay => after == self.with(PopupState::CommandPalette(p2))
                    && r is Nothing,
                PaletteStep::Leave => after == self.with(PopupState::Closed) && r is Nothing,
                PaletteStep::Run(CommandAction::Dispatch(k)) => after == self.with(
                    PopupState::Closed,
                ) && r == PopupEffect::Dispatch(k),
                PaletteStep::Run(CommandAction::OpenThemePicker) => after == self.with(
                    PopupState::Closed,
                ) && r is OpenThemePicker,
                PaletteStep::Run(CommandAction::Unavailable) => after == self.with(
                    PopupState::CommandPalette(p2),
                ) && r is Nothing,
            }
    }

    /// Whether a key in a list of references leaves the windows as `after` with an
    /// effect.
    pub open spec fn ref_answered(
        self,
        p: RefPicker,
        key: KeyEvent,
        env: PopupEnv,
        after: Popups,
        r: PopupEffect,
    ) -> bool {
        exists|p2: RefPicker, step: PickStep| #[trigger]
            p.answered(key, rows_in_view(env), p2, step) && match step {
                PickStep::Confirm(value) => after == self.with(PopupState::Closed) && r
                    == PopupEffect::RunPick { action: p.on_confirm, value },
                PickStep::Leave => after == self.with(PopupState::Closed) && r is Nothing,
                _ => after == self.with(PopupState::RefPicker(p2)) && r is Nothing,
            }
    }

    /// Whether a key in a free list leaves the windows as `after` with an effect.
    pub open spec fn list_answered(
        self,
        p: ListPicker,
        key: KeyEvent,
        env: PopupEnv,
        after: Popups,
        r: PopupEffect,
    ) -> bool {
        exists|p2: ListPicker, step: PickStep| #[trigger]
            p.answered(key, env.picked, rows_in_view(env), p2, step) && match step {
                PickStep::Confirm(value) => after == self.with(PopupState::Closed) && r
                    == PopupEffect::RunPick { action: p.on_confirm, value },
                PickStep::Leave => after == self.with(PopupState::Closed) && r is Nothing,
                PickStep::Sync => after == self.with(PopupState::ListPicker(p2)) && r
                    is SyncListPicker,
                PickStep::Stay => after == self.with(PopupState::ListPicker(p2)) && r is Nothing,
            }
    }

    /// Whether a key in the list of themes leaves the windows as `after` with an
    /// effect.
    pub open spec fn theme_answered(
        self,
        p: ThemePicker,
        key: KeyEvent,
        env: PopupEnv,
        after: Popups,
        r: PopupEffect,
    ) -> bool {
        exists|p2: ThemePicker, theme: usize, step: ThemeStep| #[trigger]
            p.answered(key, self.current_theme, rows_in_view(env), p2, theme, step) && {
                let now = Popups { current_theme: theme, ..self };
                match step {
                    ThemeStep::Stay => after == now.with(PopupState::ThemePicker(p2))
                        && r is Nothing,
                    ThemeStep::Leave => after == now.with(PopupState::Closed) && r is Nothing,
                    ThemeStep::Confirm(i) => after == now.with(PopupState::Closed) && r
                        == PopupEffect::SaveTheme(i),
                }
            }
    }

    /// Whether a key leaves the windows as `after` with an effect.
    pub open spec fn answered(self, key: KeyEvent, env: PopupEnv, after: Popups, r: PopupEffect) -> bool {
        match self.popup {
            PopupState::Closed => after == self && r is Nothing,
            PopupState::Loading { .. } => after == self && r is Nothing,
            PopupState::Confirm(c) => self.confirm_answered(c, key, after, r),
            PopupState::Message(_) => after == self.with(PopupState::Closed) && r is Nothing,
            PopupState::Menu(m) => self.menu_answered(m, key, after, r),
            PopupState::ConflictBlocks(b) => self.blocks_answered(b, key, after, r),
            PopupState::Input(p) => self.input_answered(p, key, env, after, r),
            PopupState::CommitInput(p) => self.commit_answered(p, key, env, after, r),
            PopupState::Checklist(c) => self.checklist_answered(c, key, after, r),
            PopupState::CommandPalette(p) => self.palette_answered(p, key, env, after, r),
            PopupState::RefPicker(p) => self.ref_answered(p, key, env, after, r),
            PopupState::ListPicker(p) => self.list_answered(p, key, env, after, r),
            PopupState::ThemePicker(p) => self.theme_answered(p, key, env, after, r),
        }
    }

    fn menu_key(&mut self, m: Menu, key: KeyEvent) -> (r: PopupEffect)
        requires
            m.wf(),
            old(self).popup is Closed,
        ensures
            forall|b: Popups| b == old(self).with(PopupState::Menu(m)) ==> #[trigger]
                b.menu_answered(m, key, *final(self), r),
            final(self).history == old(self).history,
    {
        let ghost before = m;
        let mut m = m;
        match m.key(key) {
            MenuStep::Stay => {
                self.popup = PopupState::Menu(m);
                PopupEffect::Nothing
            },
            MenuStep::Run(i) => {
                assert(m == before);
                self.pending_menu = Some(PopupState::Menu(m));
                PopupEffect::RunMenu(i)
            },
            MenuStep::Close => PopupEffect::Nothing,
            MenuStep::Leave => {
                match self.pending_commit.take() {
                    Some(p) => {
                        self.popup = p;
                    },
                    None => {},
                }
                PopupEffect::Nothing
            },
        }
    }

    fn input_key(&mut self, p: InputPopup, key: KeyEvent, env: &PopupEnv) -> (r: PopupEffect)
        requires
            env.screen_width * 60 <= u16::MAX,
            old(self).popup is Closed,
            old(self).history.wf(),
        ensures
            forall|b: Popups| b == old(self).with(PopupState::Input(p)) ==> #[trigger]
                b.input_answered(p, key, *env, *final(self), r),
            final(self).history.wf(),
    {
        let ghost before = p;
        let ghost h1 = self.history;
        let inner: usize = input::popup_inner_width(env.screen_width);
        assert(inner == input::inner_width(env.screen_width as int) as usize);
        let mut p = p;
        let step = p.key(key, &mut self.history, env.menu_key, inner, env.wrap_width);
        assert(before.answered(
            key,
            h1,
            env.menu_key,
            inner,
            env.wrap_width,
            p,
            self.history,
            step,
        ));
        match step {
            InputStep::Stay => {
                self.popup = PopupState::Input(p);
                PopupEffect::Nothing
            },
            InputStep::Confirm { text, save_history } => PopupEffect::RunInput {
                action: p.on_confirm,
                text,
                save_history,
            },
            InputStep::Leave => PopupEffect::Nothing,
            InputStep::OpenMenu => {
                self.popup = PopupState::Input(p);
                self.show_commit_editor_menu(env.generate_command.as_str());
                PopupEffect::Nothing
            },
        }
    }

    fn commit_key(&mut self, p: CommitInput, key: KeyEvent, env: &PopupEnv) -> (r: PopupEffect)
        requires
            old(self).popup is Closed,
            old(self).history.wf(),
        ensures
            forall|b: Popups| b == old(self).with(PopupState::CommitInput(p)) ==> #[trigger]
                b.commit_answered(p, key, *env, *final(self), r),
            final(self).history.wf(),
    {
        let ghost before = p;
        let ghost h1 = self.history;
        let mut p = p;
        let step = p.key(
            key,
            env.body.as_str(),
            &mut self.history,
            env.menu_key,
            env.ai_key,
        );
        assert(before.answered(
            key,
            env.body@,
            h1,
            env.menu_key,
            env.ai_key,
            p,
            self.history,
            step,
        ));
        match step {
            CommitStep::Submit { text, save_history } => {
                self.saved_commit = None;
                PopupEffect::RunInput { action: p.on_confirm, text, save_history }
            },
            CommitStep::Stash => {
                self.saved_commit = Some(PopupState::CommitInput(p));
                PopupEffect::Nothing
            },
            CommitStep::Stay => {
                self.popup = PopupState::CommitInput(p);
                PopupEffect::Nothing
            },
            CommitStep::Edit(e) => {
                self.popup = PopupState::CommitInput(p);
                PopupEffect::EditBody(e)
            },
            CommitStep::LoadBody(b) => {
                self.popup = PopupState::CommitInput(p);
                PopupEffect::LoadBody(b)
            },
            CommitStep::OpenMenu => {
                self.popup = PopupState::CommitInput(p);
                self.show_commit_editor_menu(env.generate_command.as_str());
                PopupEffect::Nothing
            },
            CommitStep::Generate => {
                self.popup = PopupState::CommitInput(p);
                PopupEffect::GenerateMessage
            },
        }
    }

    fn palette_key(&mut self, p: CommandPalette, key: KeyEvent, env: &PopupEnv) -> (r: PopupEffect)
        requires
            p.fits(),
            key.code is Down ==> p.follows_down(
                palette::shown_entries(p.sections@, text::lowercase(p.search())),
                palette_in_view(*env) as int,
            ),
            old(self).popup is Closed,
        ensures
            forall|b: Popups| b == old(self).with(PopupState::CommandPalette(p)) ==> #[trigger]
                b.palette_answered(p, key, *env, *final(self), r),
            final(self).history == old(self).history,
    {
        let ghost before = p;
        let shown = p.shown();
        let height: usize = palette::palette_visible_height(env.screen_height as usize);
        assert(height == palette_in_view(*env));
        let mut p = p;
        let step = p.key_with(key, &shown, height);
        assert(before.answered(
            key,
            palette::shown_entries(before.sections@, text::lowercase(before.search())),
            height,
            p,
            step,
        ));
        match step {
            PaletteStep::Stay => {
                self.popup = PopupState::CommandPalette(p);
                PopupEffect::Nothing
            },
            PaletteStep::Leave => PopupEffect::Nothing,
            PaletteStep::Run(CommandAction::Dispatch(k)) => PopupEffect::Dispatch(k),
            PaletteStep::Run(CommandAction::OpenThemePicker) => PopupEffect::OpenThemePicker,
            PaletteStep::Run(CommandAction::Unavailable) => {
                self.popup = PopupState::CommandPalette(p);
                PopupEffect::Nothing
            },
        }
    }

    /// Applies a key to the window that is open.
    pub fn handle_popup_key(&mut self, key: KeyEvent, env: PopupEnv) -> (r: PopupEffect)
        requires
            old(self).popup.takes(key, env),
            old(self).popup.follows(key, env),
            old(self).history.wf(),
        ensures
            old(self).answered(key, env, *final(self), r),
            final(self).history.wf(),
    {
        let ghost start = *self;
        let mut popup = PopupState::Closed;
        core::mem::swap(&mut self.popup, &mut popup);
        let height: usize = picker::list_picker_visible_height(env.screen_height as usize);
        assert(height == rows_in_view(env));
        match popup {
            PopupState::Closed => PopupEffect::Nothing,
            PopupState::Loading { title, message } => {
                self.popup = PopupState::Loading { title, message };
                PopupEffect::Nothing
            },
            PopupState::Confirm(c) => {
                if key.code == KeyCode::Char('y') || key.code == KeyCode::Enter {
                    PopupEffect::RunConfirm(c.on_confirm)
                } else {
                    PopupEffect::Nothing
                }
            },
            PopupState::Message(_) => PopupEffect::Nothing,
            PopupState::Menu(m) => {
                assert(start == self.with(PopupState::Menu(m)));
                self.menu_key(m, key)
            },
            PopupState::ConflictBlocks(b) => {
                let ghost before = b;
                let mut b = b;
                let step = b.key(key);
                assert(before.answered(key, b, step));
                match step {
                    ConflictBlocksStep::Stay => {
                        self.popup = PopupState::ConflictBlocks(b);
                        PopupEffect::Nothing
                    },
                    ConflictBlocksStep::Resolve(choices) => PopupEffect::ResolveBlocks {
                        path: b.path,
                        choices,
                    },
                    ConflictBlocksStep::Leave => PopupEffect::Nothing,
                }
            },
            PopupState::Input(p) => {
                assert(start == self.with(PopupState::Input(p)));
                self.input_key(p, key, &env)
            },
            PopupState::CommitInput(p) => {
                assert(start == self.with(PopupState::CommitInput(p)));
                self.commit_key(p, key, &env)
            },
            PopupState::Checklist(c) => {
                let ghost before = c;
                let visible = c.visible();
                let mut c = c;
                let step = c.key_with(key, &visible);
                assert(before.answered(
                    key,
                    checklist::visibility(before.items@, before.search()),
                    c,
                    step,
                ));
                match step {
                    ChecklistStep::Stay => {
                        self.popup = PopupState::Checklist(c);
                        PopupEffect::Nothing
                    },
                    ChecklistStep::Confirm(labels) => PopupEffect::RunChecked {
                        action: c.on_confirm,
                        labels,
                    },
                    ChecklistStep::Leave => PopupEffect::Nothing,
                    ChecklistStep::Search(s) => {
                        self.popup = PopupState::Checklist(c);
                        PopupEffect::SyncChecklist(s)
                    },
                }
            },
            PopupState::CommandPalette(p) => {
                assert(start == self.with(PopupState::CommandPalette(p)));
                self.palette_key(p, key, &env)
            },
            PopupState::RefPicker(p) => {
                let ghost before = p;
                let mut p = p;
                let step = p.key(key, height);
                assert(before.answered(key, height, p, step));
                match step {
                    PickStep::Confirm(value) => PopupEffect::RunPick { action: p.on_confirm, value },
                    PickStep::Leave => PopupEffect::Nothing,
                    _ => {
                        self.popup = PopupState::RefPicker(p);
                        PopupEffect::Nothing
                    },
                }
            },
            PopupState::ListPicker(p) => {
                let ghost before = p;
                let ghost picked = env.picked;
                let mut p = p;
                let step = p.key(key, env.picked, height);
                assert(before.answered(key, picked, height, p, step));
                match step {
                    PickStep::Confirm(value) => PopupEffect::RunPick { action: p.on_confirm, value },
                    PickStep::Leave => PopupEffect::Nothing,
                    PickStep::Sync => {
                        self.popup = PopupState::ListPicker(p);
                        PopupEffect::SyncListPicker
                    },
                    PickStep::Stay => {
                        self.popup = PopupState::ListPicker(p);
                        PopupEffect::Nothing
                    },
                }
            },
            PopupState::ThemePicker(p) => {
                let ghost before = p;
                let ghost theme = self.current_theme;
                let mut p = p;
                let step = p.key(key, &mut self.current_theme, height);
                assert(before.answered(key, theme, height, p, self.current_theme, step));
                match step {
                    ThemeStep::Stay => {
                        self.popup = PopupState::ThemePicker(p);
                        PopupEffect::Nothing
                    },
                    ThemeStep::Leave => PopupEffect::Nothing,
                    ThemeStep::Confirm(i) => PopupEffect::SaveTheme(i),
                }
            },
        }
    }

    /// Applies a key to the window that is open, unless it is a list that cannot follow
    /// it.
    pub fn try_popup_key(&mut self, key: KeyEvent, env: PopupEnv) -> (r: Option<PopupEffect>)
        requires
            old(self).popup.takes(key, env),
            old(self).history.wf(),
        ensures
            match r {
                Some(effect) => old(self).popup.follows(key, env) && old(self).answered(
                    key,
                    env,
                    *final(self),
                    effect,
                ),
                None => !old(self).popup.follows(key, env) && *final(self) == *old(self),
            },
            final(self).history.wf(),
    {
        if self.popup.can_follow(key, &env) {
            Some(self.handle_popup_key(key, env))
        } else {
            None
        }
    }

    /// Shows an error.
    pub fn show_error(&mut self, title: &str, message: &str)
        ensures
            *final(self) == old(self).with(final(self).popup),
            final(self).popup matches PopupState::Message(n) && n.is_error(title@, message@),
    {
        self.popup = PopupState::Message(Notice::error(title, message));
    }

    /// Shows a list from which a value can be picked or typed.
    pub fn show_list_picker(
        &mut self,
        title: String,
        items: Vec<picker::ListPickerItem>,
        free_entry_category: String,
        on_confirm: Action,
    )
        ensures
            *final(self) == old(self).with(final(self).popup),
            final(self).popup matches PopupState::ListPicker(p) && p.title == title && p.core.items
                == items && p.core.selected == 0 && p.core.scroll_offset == 0 && super::input::holds(
                p.core.search_textarea,
                seq![],
            ) && p.free_entry_category == free_entry_category && p.on_confirm
                == on_confirm,
    {
        self.popup = PopupState::ListPicker(
            ListPicker::open(title, items, free_entry_category, on_confirm),
        );
    }

    /// What follows once an action was run: an error is shown.
    pub fn after_action(&mut self, error: Option<&str>)
        ensures
            match error {
                Some(e) => *final(self) == old(self).with(final(self).popup) && (
                final(self).popup matches PopupState::Message(n) && n.is_error("Error"@, e@)),
                None => *final(self) == *old(self),
            },
    {
        match error {
            Some(e) => {
                self.show_error("Error", e);
            },
            None => {},
        }
    }

    /// What follows once the item of a menu was run: the menu that was put aside is
    /// dropped, unless the item took it back, and an error is shown.
    pub fn after_menu_action(&mut self, error: Option<&str>)
        ensures
            match error {
                Some(e) => *final(self) == (Popups {
                    popup: final(self).popup,
                    pending_menu: None,
                    ..*old(self)
                }) && (final(self).popup matches PopupState::Message(n) && n.is_error(
                    "Error"@,
                    e@,
                )),
                None => *final(self) == (Popups { pending_menu: None, ..*old(self) }),
            },
    {
        self.pending_menu = None;
        self.after_action(error);
    }

    /// What follows once the blocks of a file were resolved: everything is loaded
    /// anew, or the error is shown.
    pub fn after_resolve_blocks(&mut self, error: Option<&str>) -> (r: Refresh)
        ensures
            r.all == error is None,
            r.files == error is None,
            r.diff == error is None,
            match error {
                Some(e) => *final(self) == old(self).with(final(self).popup) && (
                final(self).popup matches PopupState::Message(n) && n.is_error("Error"@, e@)),
                None => *final(self) == *old(self),
            },
    {
        self.after_action(error);
        let done = error.is_none();
        Refresh { all: done, files: done, diff: done }
    }
}

// ---------------------------------------------------------------------------
// Laws
// ---------------------------------------------------------------------------

/// While something is loading, keys do nothing.
pub proof fn loading_blocks_every_key(s: Popups, key: KeyEvent, env: PopupEnv, after: Popups, r: PopupEffect)
    requires
        s.popup is Loading,
        s.answered(key, env, after, r),
    ensures
        after == s,
        r is Nothing,
{
}

/// A key in a window never loses an editor that was left earlier, unless a message is
/// submitted or another editor is left.
pub proof fn a_left_editor_is_kept(s: Popups, key: KeyEvent, env: PopupEnv, after: Popups, r: PopupEffect)
    requires
        s.answered(key, env, after, r),
        !(s.popup is CommitInput),
    ensures
        after.saved_commit == s.saved_commit,
{
}

/// Leaving the editor of a commit message keeps it with all that was typed.
pub proof fn esc_keeps_what_was_typed(
    s: Popups,
    p: CommitInput,
    key: KeyEvent,
    env: PopupEnv,
    after: Popups,
    r: PopupEffect,
)
    requires
        s.popup == PopupState::CommitInput(p),
        key.code is Esc,
        s.answered(key, env, after, r),
    ensures
        after.popup is Closed,
        after.saved_commit == Some(PopupState::CommitInput(p)),
        r is Nothing,
{
    let (p2, h2, step) = choose|p2: CommitInput, h2: CommitHistory, step: CommitStep| #[trigger]
        p.answered(key, env.body@, s.history, env.menu_key, env.ai_key, p2, h2, step) && {
            let now = Popups { history: h2, popup: PopupState::CommitInput(p2), ..s };
            match step {
                CommitStep::Stay => after == now && r is Nothing,
                CommitStep::Edit(e) => after == now && r == PopupEffect::EditBody(e),
                CommitStep::LoadBody(b) => after == now && r == PopupEffect::LoadBody(b),
                CommitStep::Submit { text, save_history } => after == (Popups {
                    popup: PopupState::Closed,
                    saved_commit: None,
                    ..now
                }) && r == PopupEffect::RunInput { action: p.on_confirm, text, save_history },
                CommitStep::Stash => after == (Popups {
                    popup: PopupState::Closed,
                    saved_commit: Some(PopupState::CommitInput(p2)),
                    ..now
                }) && r is Nothing,
                CommitStep::OpenMenu => now.behind_editor_menu(after, env.generate_command@)
                    && r is Nothing,
                CommitStep::Generate => after == now && r is GenerateMessage,
            }
        };
    assert(p2 == p);
    assert(step is Stash);
}

/// A question is answered with yes by `y` and enter, and with no by any other key; either
/// way it closes. A message is closed by any key.
pub proof fn only_yes_runs_what_was_asked(
    s: Popups,
    key: KeyEvent,
    env: PopupEnv,
    after: Popups,
    r: PopupEffect,
)
    requires
        s.answered(key, env, after, r),
    ensures
        s.popup matches PopupState::Confirm(c) ==> after.popup is Closed && (if key.code
            == KeyCode::Char('y') || key.code is Enter {
            r == PopupEffect::RunConfirm(c.on_confirm)
        } else {
            r is Nothing
        }),
        s.popup is Message ==> after.popup is Closed && r is Nothing,
        s.popup is Closed ==> after == s && r is Nothing,
        r is RunConfirm ==> s.popup is Confirm,
{
}

/// What is confirmed in a window is what that window was opened for.
pub proof fn what_is_confirmed_is_what_was_asked_for(
    s: Popups,
    key: KeyEvent,
    env: PopupEnv,
    after: Popups,
    r: PopupEffect,
)
    requires
        s.answered(key, env, after, r),
    ensures
        r matches PopupEffect::RunInput { action, .. } ==> (s.popup matches PopupState::Input(p)
            && action == p.on_confirm) || (s.popup matches PopupState::CommitInput(p) && action
            == p.on_confirm),
        r matches PopupEffect::RunChecked { action, .. } ==> (
        s.popup matches PopupState::Checklist(c) && action == c.on_confirm),
        r matches PopupEffect::RunPick { action, .. } ==> (s.popup matches PopupState::RefPicker(p)
            && action == p.on_confirm) || (s.popup matches PopupState::ListPicker(p) && action
            == p.on_confirm),
        r matches PopupEffect::ResolveBlocks { path, .. } ==> (
        s.popup matches PopupState::ConflictBlocks(b) && path == b.path),
        r is RunInput || r is RunChecked || r is RunPick || r is ResolveBlocks || r is RunConfirm
            || r is SaveTheme ==> after.popup is Closed,
        r is RunMenu ==> s.popup is Menu && after.pending_menu == Some(s.popup),
        r is Dispatch || r is OpenThemePicker ==> s.popup is CommandPalette && after.popup is Closed,
{
}

/// Leaving a menu leads back to the editor that it was opened over, if there is one, and
/// else closes it.
pub proof fn leaving_a_menu_leads_back(
    s: Popups,
    m: Menu,
    key: KeyEvent,
    env: PopupEnv,
    after: Popups,
    r: PopupEffect,
)
    requires
        s.popup == PopupState::Menu(m),
        key.code is Esc,
        s.answered(key, env, after, r),
    ensures
        s.pending_commit matches Some(p) ==> after.popup == p,
        s.pending_commit is None ==> after.popup is Closed,
        after.pending_commit is None,
        r is Nothing,
{
}

} // verus!
