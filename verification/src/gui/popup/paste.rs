//! What pasted text does while a window is open.

use super::checklist::Checklist;
use super::commit_input::CommitInput;
use super::input;
use super::input::InputPopup;
use super::keys::{PopupState, Popups};
use super::palette::CommandPalette;
use super::pickers::{ListPicker, RefPicker, ThemePicker};
use crate::gui::textarea;
use crate::text;
use vstd::prelude::*;

verus! {

/// What pasting leads to, beyond the windows.
#[derive(Debug)]
pub enum PasteEffect {
    Nothing,
    /// A text goes into the body of the commit message.
    InsertBody(String),
    SyncChecklist(String),
    SyncListPicker,
}

impl InputPopup {
    /// Whether a pasted text turns the window into another.
    pub open spec fn took(self, data: Seq<char>, inner: int, configured: int, after: InputPopup) -> bool {
        if self.confirm_focused {
            after == self
        } else {
            after == (InputPopup { textarea: after.textarea, ..self }) && input::put_in(
                self.textarea,
                if self.is_commit {
                    data
                } else {
                    input::single_line(data)
                },
                after.textarea,
                self.is_commit,
                inner,
                configured,
            )
        }
    }
}

impl PopupState {
    /// Whether the window can take a pasted text: its numbers leave room for the sums
    /// formed with them.
    pub open spec fn takes_paste(self, screen_width: u16) -> bool {
        match self {
            PopupState::Input(_) => screen_width * 60 <= u16::MAX,
            PopupState::RefPicker(p) => p.fits(),
            _ => true,
        }
    }
}

impl Popups {
    /// Whether a pasted text leaves the windows as `after` with an effect.
    pub open spec fn pasted(
        self,
        data: Seq<char>,
        screen_width: u16,
        configured: usize,
        after: Popups,
        r: PasteEffect,
    ) -> bool {
        if data.len() == 0 {
            after == self && r is Nothing
        } else {
            match self.popup {
                PopupState::Input(p) => exists|p2: InputPopup| #[trigger]
                    p.took(
                        data,
                        input::inner_width(screen_width as int),
                        configured as int,
                        p2,
                    ) && after == self.with(PopupState::Input(p2)) && r is Nothing,
                PopupState::CommitInput(p) => exists|p2: CommitInput, rest: Option<String>| #[trigger]
                    p.pasted(data, p2, rest) && after == self.with(PopupState::CommitInput(p2))
                        && r == match rest {
                        Some(b) => PasteEffect::InsertBody(b),
                        None => PasteEffect::Nothing,
                    },
                PopupState::CommandPalette(p) => exists|p2: CommandPalette| #[trigger]
                    p.pasted(data, p2) && after == self.with(PopupState::CommandPalette(p2))
                        && r is Nothing,
                PopupState::Checklist(p) => exists|p2: Checklist, s: String| #[trigger]
                    p.pasted(data, p2, s) && after == self.with(PopupState::Checklist(p2)) && r
                        == PasteEffect::SyncChecklist(s),
                PopupState::RefPicker(p) => exists|p2: RefPicker| #[trigger]
                    p.pasted(data, p2) && after == self.with(PopupState::RefPicker(p2))
                        && r is Nothing,
                PopupState::ListPicker(p) => exists|p2: ListPicker| #[trigger]
                    p.pasted(data, p2) && after == self.with(PopupState::ListPicker(p2))
                        && r is SyncListPicker,
                PopupState::ThemePicker(p) => exists|p2: ThemePicker, theme: usize| #[trigger]
                    p.pasted(data, self.current_theme, p2, theme) && after == (Popups {
                        popup: PopupState::ThemePicker(p2),
                        current_theme: theme,
                        ..self
                    }) && r is Nothing,
                _ => after == self && r is Nothing,
            }
        }
    }

    /// Puts a pasted text into the window that is open.
    pub fn handle_paste(&mut self, data: &str, screen_width: u16, configured: usize) -> (r:
        PasteEffect)
        requires
            old(self).popup.takes_paste(screen_width),
        ensures
            old(self).pasted(data@, screen_width, configured, *final(self), r),
    {
        if text::is_empty_str(data) {
            return PasteEffect::Nothing;
        }
        let ghost start = *self;
        let mut popup = PopupState::Closed;
        core::mem::swap(&mut self.popup, &mut popup);
        match popup {
            PopupState::Input(p) => {
                let ghost before = p;
                let inner: usize = input::popup_inner_width(screen_width);
                let mut p = p;
                p.paste(data, inner, configured);
                assert(before.took(data@, inner as int, configured as int, p));
                self.popup = PopupState::Input(p);
                PasteEffect::Nothing
            },
            PopupState::CommitInput(p) => {
                let ghost before = p;
                let mut p = p;
                let rest = p.paste(data);
                assert(before.pasted(data@, p, rest));
                self.popup = PopupState::CommitInput(p);
                match rest {
                    Some(b) => PasteEffect::InsertBody(b),
                    None => PasteEffect::Nothing,
                }
            },
            PopupState::CommandPalette(p) => {
                let ghost before = p;
                let mut p = p;
                p.paste(data);
                assert(before.pasted(data@, p));
                self.popup = PopupState::CommandPalette(p);
                PasteEffect::Nothing
            },
            PopupState::Checklist(p) => {
                let ghost before = p;
                let mut p = p;
                let s = p.paste(data);
                assert(before.pasted(data@, p, s));
                self.popup = PopupState::Checklist(p);
                PasteEffect::SyncChecklist(s)
            },
            PopupState::RefPicker(p) => {
                let ghost before = p;
                let mut p = p;
                p.paste(data);
                assert(before.pasted(data@, p));
                self.popup = PopupState::RefPicker(p);
                PasteEffect::Nothing
            },
            PopupState::ListPicker(p) => {
                let ghost before = p;
                let mut p = p;
                p.paste(data);
                assert(before.pasted(data@, p));
                self.popup = PopupState::ListPicker(p);
                PasteEffect::SyncListPicker
            },
            PopupState::ThemePicker(p) => {
                let ghost before = p;
                let ghost theme = self.current_theme;
                let mut p = p;
                p.paste(data, &mut self.current_theme);
                assert(before.pasted(data@, theme, p, self.current_theme));
                self.popup = PopupState::ThemePicker(p);
                PasteEffect::Nothing
            },
            other => {
                self.popup = other;
                assert(*self == start);
                PasteEffect::Nothing
            },
        }
    }
}

} // verus!
