//! What the items of the menu do that opens over the editor of a commit message.

use super::commit_input;
use super::commit_input::CommitInput;
use super::history;
use super::input;
use super::input::InputPopup;
use super::keys::{PopupState, Popups};
use super::Action;
use crate::gui::textarea;
use crate::gui::textarea::TextField;
use crate::text;
use vstd::prelude::*;

verus! {

/// The windows with the editor open again that stood behind its menu, if one did.
pub open spec fn editor_back(p: Popups) -> Popups {
    match p.pending_commit {
        Some(e) => Popups { popup: e, pending_commit: None, ..p },
        None => p,
    }
}

/// Whether a window asks for a co-author.
pub open spec fn asks_co_author(p: PopupState) -> bool {
    p matches PopupState::Input(q) && q.title@ == "Co-author (Name <email>)"@ && !q.is_commit
        && !q.confirm_focused && input::holds(q.textarea, seq![]) && q.on_confirm is AppendCoAuthor
}

/// Whether an editor holds the first line of a message in place of its summary, and the
/// rest is for its body.
pub open spec fn message_put(before: CommitInput, after: CommitInput, message: Seq<char>, body: Seq<char>) -> bool {
    &&& after == (CommitInput { summary_textarea: after.summary_textarea, ..before })
    &&& after.summary_textarea.unselected()
    &&& after.summary_textarea.text() == textarea::retyped(
        before.summary_textarea.text(),
        history::first_line_split(message).0,
    )
    &&& body == history::first_line_split(message).1
}

/// Whether an editor was emptied: its summary is wiped and gets the keys.
pub open spec fn emptied(before: CommitInput, after: CommitInput) -> bool {
    &&& after.focus is Summary
    &&& after.kind == before.kind
    &&& after.on_confirm == before.on_confirm
    &&& after.summary_textarea.unselected()
    &&& after.summary_textarea.text() == before.summary_textarea.text().at_end().start_cut()
}

impl Popups {
    /// Leads back to the editor behind its menu.
    pub fn restore_editor(&mut self)
        ensures
            *final(self) == editor_back(*old(self)),
    {
        match self.pending_commit.take() {
            Some(e) => {
                self.popup = e;
            },
            None => {},
        }
    }

    /// Asks for a co-author. Gives the editor that waits for one, which is lost where none
    /// is given.
    pub fn ask_co_author(&mut self) -> (r: Option<PopupState>)
        ensures
            r == old(self).pending_commit,
            *final(self) == (Popups {
                popup: final(self).popup,
                pending_commit: None,
                ..*old(self)
            }),
            asks_co_author(final(self).popup),
    {
        self.popup = PopupState::Input(
            InputPopup {
                title: "Co-author (Name <email>)".to_string(),
                textarea: TextField::new(),
                is_commit: false,
                confirm_focused: false,
                on_confirm: Action::AppendCoAuthor,
            },
        );
        self.pending_commit.take()
    }

    /// Opens the editor again that waited for a co-author. Gives what is appended at the end
    /// of its body, if anything is.
    pub fn append_co_author(&mut self, editor: Option<PopupState>, name: &str) -> (r: Option<String>)
        ensures
            match editor {
                Some(e) => *final(self) == old(self).with(e) && text::opt_text(r)
                    == if e is CommitInput && name@.len() > 0 {
                    Some(commit_input::co_author_trailer(name@))
                } else {
                    None
                },
                None => r is None && *final(self) == *old(self),
            },
    {
        match editor {
            Some(e) => {
                let has_body = match &e {
                    PopupState::CommitInput(_) => true,
                    _ => false,
                };
                self.popup = e;
                if has_body {
                    commit_input::co_author(name)
                } else {
                    None
                }
            },
            None => None,
        }
    }

    /// Leads back to the editor behind its menu, with the message from the clipboard in
    /// place of what it held, if there is one. Gives the text for its body.
    pub fn paste_message(&mut self, clipboard: Option<&str>) -> (r: Option<String>)
        ensures
            match (old(self).pending_commit, clipboard) {
                (Some(PopupState::CommitInput(e)), Some(m)) if m@.len() > 0 => {
                    &&& *final(self) == editor_back(*old(self)).with(final(self).popup)
                    &&& final(self).popup matches PopupState::CommitInput(after) && r is Some
                        && message_put(e, after, m@, r->0@)
                },
                _ => r is None && *final(self) == editor_back(*old(self)),
            },
    {
        match self.pending_commit.take() {
            Some(PopupState::CommitInput(e)) => {
                let mut e = e;
                let body = match clipboard {
                    Some(m) => if text::is_empty_str(m) {
                        None
                    } else {
                        Some(e.replace_message(m))
                    },
                    None => None,
                };
                self.popup = PopupState::CommitInput(e);
                body
            },
            Some(other) => {
                self.popup = other;
                None
            },
            None => None,
        }
    }

    /// Leads back to the editor behind its menu, emptied; an editor that was left before is
    /// not come back to. Tells whether the body is to be emptied.
    pub fn clear_message(&mut self) -> (r: bool)
        ensures
            final(self).saved_commit is None,
            match old(self).pending_commit {
                Some(PopupState::CommitInput(e)) => {
                    &&& r
                    &&& *final(self) == (Popups {
                        popup: final(self).popup,
                        saved_commit: None,
                        ..editor_back(*old(self))
                    })
                    &&& final(self).popup matches PopupState::CommitInput(after) && emptied(
                        e,
                        after,
                    )
                },
                _ => !r && *final(self) == (Popups {
                    saved_commit: None,
                    ..editor_back(*old(self))
                }),
            },
    {
        self.saved_commit = None;
        match self.pending_commit.take() {
            Some(PopupState::CommitInput(e)) => {
                let mut e = e;
                e.clear();
                self.popup = PopupState::CommitInput(e);
                true
            },
            Some(other) => {
                self.popup = other;
                false
            },
            None => false,
        }
    }
}

// ---------------------------------------------------------------------------
// Laws
// ---------------------------------------------------------------------------

/// The editor comes back from behind its menu as it was.
pub proof fn the_editor_comes_back_from_its_menu(p: Popups, menu: Popups, generate: Seq<char>)
    requires
        p.behind_editor_menu(menu, generate),
        p.pending_commit is None,
    ensures
        editor_back(menu) == p,
{
}

} // verus!
