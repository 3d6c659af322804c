//! The editor of a commit message: a line for the summary and a body below it.

use super::history;
use super::history::CommitHistory;
use super::input;
use super::Action;
use crate::gui::input::{has_command_modifier, KeyCode, KeyEvent};
use crate::gui::textarea;
use crate::gui::textarea::TextField;
use crate::text;
use vstd::prelude::*;

verus! {

/// Which part of the editor has the keys.
#[derive(Debug, Clone, Copy, PartialEq, Eq, Structural)]
pub enum CommitInputFocus {
    Summary,
    Body,
}

/// What the message is for.
#[derive(Debug, Clone, Copy, PartialEq, Eq, Structural)]
pub enum CommitInputKind {
    Commit,
    Reword,
}

/// The editor of a commit message. The body is edited through `BodyEdit`: what is on
/// show of it is only a wrapped picture.
#[derive(Debug)]
pub struct CommitInput {
    pub kind: CommitInputKind,
    pub focus: CommitInputFocus,
    pub summary_textarea: TextField,
    pub on_confirm: Action,
}

/// An edit of the body.
#[derive(Debug, Clone, Copy, PartialEq, Eq, Structural)]
pub enum BodyEdit {
    Insert(char),
    DeleteToVisualLineStart,
    DeleteWordLeft,
    Backspace,
    Delete,
    VisualLineStart,
    VisualLineEnd,
    WordLeft,
    WordRight,
    Left,
    Right,
    VisualUp,
    VisualDown,
    Home,
    End,
}

/// What a key does to the body.
pub open spec fn body_edit(key: KeyEvent) -> Option<BodyEdit> {
    let alt = key.modifiers.alt;
    let ctrl = key.modifiers.control;
    let cmd = key.modifiers.command || key.modifiers.meta;
    match key.code {
        KeyCode::Char(c) => if !ctrl && !alt && !cmd {
            Some(BodyEdit::Insert(c))
        } else if ctrl && c == 'u' {
            Some(BodyEdit::DeleteToVisualLineStart)
        } else if ctrl && c == 'w' {
            Some(BodyEdit::DeleteWordLeft)
        } else if ctrl && c == 'a' {
            Some(BodyEdit::VisualLineStart)
        } else if ctrl && c == 'e' {
            Some(BodyEdit::VisualLineEnd)
        } else if alt && c == 'b' {
            Some(BodyEdit::WordLeft)
        } else if alt && c == 'f' {
            Some(BodyEdit::WordRight)
        } else {
            None
        },
        KeyCode::Backspace => if cmd {
            Some(BodyEdit::DeleteToVisualLineStart)
        } else if alt {
            Some(BodyEdit::DeleteWordLeft)
        } else {
            Some(BodyEdit::Backspace)
        },
        KeyCode::Delete => Some(BodyEdit::Delete),
        KeyCode::Left => if cmd {
            Some(BodyEdit::VisualLineStart)
        } else if alt {
            Some(BodyEdit::WordLeft)
        } else {
            Some(BodyEdit::Left)
        },
        KeyCode::Right => if cmd {
            Some(BodyEdit::VisualLineEnd)
        } else if alt {
            Some(BodyEdit::WordRight)
        } else {
            Some(BodyEdit::Right)
        },
        KeyCode::Up => Some(BodyEdit::VisualUp),
        KeyCode::Down => Some(BodyEdit::VisualDown),
        KeyCode::Home => Some(BodyEdit::Home),
        KeyCode::End => Some(BodyEdit::End),
        _ => None,
    }
}

/// Decides what a key does to the body.
pub fn classify_body_key(key: KeyEvent) -> (r: Option<BodyEdit>)
    ensures
        r == body_edit(key),
{
    let alt = key.modifiers.alt;
    let ctrl = key.modifiers.control;
    let cmd = has_command_modifier(key.modifiers);
    match key.code {
        KeyCode::Char(c) if !ctrl && !alt && !cmd => Some(BodyEdit::Insert(c)),
        KeyCode::Backspace if cmd => Some(BodyEdit::DeleteToVisualLineStart),
        KeyCode::Char('u') if ctrl => Some(BodyEdit::DeleteToVisualLineStart),
        KeyCode::Backspace if alt => Some(BodyEdit::DeleteWordLeft),
        KeyCode::Char('w') if ctrl => Some(BodyEdit::DeleteWordLeft),
        KeyCode::Backspace => Some(BodyEdit::Backspace),
        KeyCode::Delete => Some(BodyEdit::Delete),
        KeyCode::Left if cmd => Some(BodyEdit::VisualLineStart),
        KeyCode::Right if cmd => Some(BodyEdit::VisualLineEnd),
        KeyCode::Char('a') if ctrl => Some(BodyEdit::VisualLineStart),
        KeyCode::Char('e') if ctrl => Some(BodyEdit::VisualLineEnd),
        KeyCode::Left if alt => Some(BodyEdit::WordLeft),
        KeyCode::Right if alt => Some(BodyEdit::WordRight),
        KeyCode::Char('b') if alt => Some(BodyEdit::WordLeft),
        KeyCode::Char('f') if alt => Some(BodyEdit::WordRight),
        KeyCode::Left => Some(BodyEdit::Left),
        KeyCode::Right => Some(BodyEdit::Right),
        KeyCode::Up => Some(BodyEdit::VisualUp),
        KeyCode::Down => Some(BodyEdit::VisualDown),
        KeyCode::Home => Some(BodyEdit::Home),
        KeyCode::End => Some(BodyEdit::End),
        _ => None,
    }
}

/// What a key does in the editor.
#[derive(Debug, Clone, Copy, PartialEq, Eq, Structural)]
pub enum CommitCourse {
    ToggleFocus,
    /// A line break goes into the body, which gets the keys.
    NewLine,
    Submit,
    Stash,
    OpenMenu,
    Generate,
    History { up: bool },
    TypeSummary,
    EditBody(Option<BodyEdit>),
}

/// What a key does in the editor. `menu_key` and `ai_key` tell whether it is the one
/// that opens the menu or has a message generated.
pub open spec fn commit_course(
    focus: CommitInputFocus,
    key: KeyEvent,
    has_history: bool,
    menu_key: bool,
    ai_key: bool,
) -> CommitCourse {
    if key.code is Tab {
        CommitCourse::ToggleFocus
    } else if (key.code is Enter && (focus is Body || key.modifiers.shift)) || (key.code
        == KeyCode::Char('j') && key.modifiers.control) {
        CommitCourse::NewLine
    } else if focus is Summary && key.code is Enter {
        CommitCourse::Submit
    } else if key.code is Esc {
        CommitCourse::Stash
    } else if menu_key {
        CommitCourse::OpenMenu
    } else if ai_key {
        CommitCourse::Generate
    } else if focus is Summary && (key.code is Up || key.code is Down) && has_history {
        CommitCourse::History { up: key.code is Up }
    } else if focus is Summary {
        CommitCourse::TypeSummary
    } else {
        CommitCourse::EditBody(body_edit(key))
    }
}

/// Decides what a key does in the editor.
pub fn classify_commit_key(
    focus: CommitInputFocus,
    key: KeyEvent,
    has_history: bool,
    menu_key: bool,
    ai_key: bool,
) -> (r: CommitCourse)
    ensures
        r == commit_course(focus, key, has_history, menu_key, ai_key),
{
    let in_body = focus == CommitInputFocus::Body;
    if key.code == KeyCode::Tab {
        CommitCourse::ToggleFocus
    } else if (key.code == KeyCode::Enter && (in_body || key.modifiers.shift)) || (key.code
        == KeyCode::Char('j') && key.modifiers.control) {
        CommitCourse::NewLine
    } else if !in_body && key.code == KeyCode::Enter {
        CommitCourse::Submit
    } else if key.code == KeyCode::Esc {
        CommitCourse::Stash
    } else if menu_key {
        CommitCourse::OpenMenu
    } else if ai_key {
        CommitCourse::Generate
    } else if !in_body && (key.code == KeyCode::Up || key.code == KeyCode::Down) && has_history {
        CommitCourse::History { up: key.code == KeyCode::Up }
    } else if !in_body {
        CommitCourse::TypeSummary
    } else {
        CommitCourse::EditBody(classify_body_key(key))
    }
}

/// What a key leads to, beyond the summary and the focus.
#[derive(Debug)]
pub enum CommitStep {
    Stay,
    /// The body is edited.
    Edit(BodyEdit),
    /// The body is replaced by a text, whose lines are unwrapped first.
    LoadBody(String),
    /// The message is used. Where it joined the history, that is to be saved.
    Submit { text: String, save_history: bool },
    /// The editor is put aside as it is.
    Stash,
    OpenMenu,
    Generate,
}

impl CommitInput {
    /// The text of the summary.
    pub open spec fn summary(self) -> Seq<char> {
        text::join(self.summary_textarea.text().lines, seq![])
    }

    /// Whether a message is on show in `after`: its first line in the summary, and
    /// its body to be loaded.
    pub open spec fn shows_message(after: CommitInput, body: Seq<char>, message: Seq<char>) -> bool {
        input::holds(after.summary_textarea, history::split_message(message).0) && body
            == history::split_message(message).1
    }

    fn load(&mut self, message: &str) -> (r: CommitStep)
        ensures
            *final(self) == (CommitInput {
                summary_textarea: final(self).summary_textarea,
                ..*old(self)
            }),
            r matches CommitStep::LoadBody(body) && CommitInput::shows_message(
                *final(self),
                body@,
                message@,
            ),
    {
        let (summary, body) = history::split_commit_message(message);
        self.summary_textarea = TextField::with_text(summary.as_str());
        CommitStep::LoadBody(body)
    }

    /// Whether a key turns the editor and the history into others and leads to a step.
    pub open spec fn answered(
        self,
        key: KeyEvent,
        body: Seq<char>,
        h1: CommitHistory,
        menu_key: bool,
        ai_key: bool,
        after: CommitInput,
        h2: CommitHistory,
        r: CommitStep,
    ) -> bool {
        &&& after.kind == self.kind
        &&& after.on_confirm == self.on_confirm
        &&& match commit_course(
            self.focus,
            key,
            h1.messages@.len() > 0,
            menu_key,
            ai_key,
        ) {
            CommitCourse::ToggleFocus => r is Stay && h2 == h1
                && after == (CommitInput {
                focus: if self.focus is Summary {
                    CommitInputFocus::Body
                } else {
                    CommitInputFocus::Summary
                },
                ..self
            }),
            CommitCourse::NewLine => r == CommitStep::Edit(BodyEdit::Insert('\n')) && h2 == h1 && after == (CommitInput {
                focus: CommitInputFocus::Body,
                ..self
            }),
            CommitCourse::Submit => {
                &&& after == self
                &&& h2.idx is None
                &&& h2.draft == h1.draft
                &&& r matches CommitStep::Submit { text, save_history } && text@
                    == history::joined_message(self.summary(), body) && save_history == (
                text::trim(text@).len() > 0) && text::texts(h2.messages@)
                    == if save_history {
                    history::remembered(text::texts(h1.messages@), text@)
                } else {
                    text::texts(h1.messages@)
                }
            },
            CommitCourse::Stash => r is Stash && after == self && h2
                == (CommitHistory { idx: None, ..h1 }),
            CommitCourse::OpenMenu => r is OpenMenu && after == self && h2 == h1,
            CommitCourse::Generate => r is Generate && after == self && h2 == h1,
            CommitCourse::History { up } => {
                &&& after.focus == self.focus
                &&& h2.messages == h1.messages
                &&& if !up && h1.idx is None {
                    r is Stay && after == self && h2 == h1
                } else {
                    &&& h2.place() == if up {
                        h1.place().older(
                            history::draft_message(self.summary(), body),
                            h1.messages@.len(),
                        )
                    } else {
                        h1.place().newer()
                    }
                    &&& r matches CommitStep::LoadBody(b) && CommitInput::shows_message(
                        after,
                        b@,
                        h2.place().shown(text::texts(h1.messages@)),
                    )
                }
            },
            CommitCourse::TypeSummary => r is Stay && h2 == h1
                && after.focus == self.focus && exists|taken: bool| #[trigger]
                textarea::key_applied(
                    self.summary_textarea,
                    key,
                    after.summary_textarea,
                    taken,
                ),
            CommitCourse::EditBody(edit) => after == self && h2
                == h1 && match edit {
                Some(e) => r == CommitStep::Edit(e),
                None => r is Stay,
            },
        }
    }

    /// Applies a key to the editor. `body` is what the body holds.
    pub fn key(
        &mut self,
        key: KeyEvent,
        body: &str,
        history: &mut CommitHistory,
        menu_key: bool,
        ai_key: bool,
    ) -> (r: CommitStep)
        requires
            old(history).wf(),
        ensures
            final(history).wf(),
            old(self).answered(
                key,
                body@,
                *old(history),
                menu_key,
                ai_key,
                *final(self),
                *final(history),
                r,
            ),
    {
        match classify_commit_key(
            self.focus,
            key,
            history.messages.len() > 0,
            menu_key,
            ai_key,
        ) {
            CommitCourse::ToggleFocus => {
                self.focus = match self.focus {
                    CommitInputFocus::Summary => CommitInputFocus::Body,
                    CommitInputFocus::Body => CommitInputFocus::Summary,
                };
                CommitStep::Stay
            },
            CommitCourse::NewLine => {
                self.focus = CommitInputFocus::Body;
                CommitStep::Edit(BodyEdit::Insert('\n'))
            },
            CommitCourse::Submit => {
                let summary = self.summary_textarea.joined();
                let text = history::join_commit_message(summary.as_str(), body);
                let save_history = history.remember(text.as_str());
                CommitStep::Submit { text, save_history }
            },
            CommitCourse::Stash => {
                history.idx = None;
                CommitStep::Stash
            },
            CommitCourse::OpenMenu => CommitStep::OpenMenu,
            CommitCourse::Generate => CommitStep::Generate,
            CommitCourse::History { up } => {
                if up {
                    let summary = self.summary_textarea.joined();
                    let draft = history::draft_of(summary.as_str(), body);
                    let message = history.older(draft);
                    self.load(message.as_str())
                } else {
                    match history.newer() {
                        Some(message) => self.load(message.as_str()),
                        None => CommitStep::Stay,
                    }
                }
            },
            CommitCourse::TypeSummary => {
                let ghost before = self.summary_textarea;
                let taken = textarea::textarea_input(&mut self.summary_textarea, key);
                assert(textarea::key_applied(before, key, self.summary_textarea, taken));
                CommitStep::Stay
            },
            CommitCourse::EditBody(edit) => match edit {
                Some(e) => CommitStep::Edit(e),
                None => CommitStep::Stay,
            },
        }
    }

    /// Whether a pasted text turns the editor into another, with a text for the body.
    pub open spec fn pasted(self, data: Seq<char>, after: CommitInput, r: Option<String>) -> bool {
        &&& after == (CommitInput {
            summary_textarea: after.summary_textarea,
            ..self
        })
        &&& match self.focus {
            CommitInputFocus::Summary => {
                let (first, rest) = history::first_line_split(data);
                &&& textarea::pasted(
                    self.summary_textarea,
                    after.summary_textarea,
                    if data.contains('\n') {
                        without_returns(first)
                    } else {
                        data
                    },
                )
                &&& text::opt_text(r) == if rest.len() > 0 {
                    Some(rest)
                } else {
                    None
                }
            },
            CommitInputFocus::Body => after == self && text::opt_text(r) == Some(
                data,
            ),
        }
    }

    /// Puts a pasted text in. A text of several lines that is pasted into the summary
    /// is split: its first line goes there, and the rest is what comes back for the
    /// body. What is pasted into the body all comes back.
    pub fn paste(&mut self, data: &str) -> (r: Option<String>)
        ensures
            old(self).pasted(data@, *final(self), r),
    {
        match self.focus {
            CommitInputFocus::Summary => {
                let (first, rest) = history::split_first_line(data);
                let chars = text::chars_of(data);
                proof {
                    text::lemma_find_from(data@, '\n', 0);
                }
                let at: usize = text::find_char_from(chars.as_slice(), '\n', 0);
                if at < chars.len() {
                    assert(data@[at as int] == '\n');
                    let cleaned = drop_returns(first.as_str());
                    self.summary_textarea.insert_str(cleaned.as_str());
                } else {
                    self.summary_textarea.insert_str(data);
                }
                if text::is_empty_str(rest.as_str()) {
                    None
                } else {
                    Some(rest)
                }
            },
            CommitInputFocus::Body => Some(data.to_string()),
        }
    }

    /// Puts a message in place of the one in the editor. Gives the text for the body.
    pub fn replace_message(&mut self, message: &str) -> (r: String)
        ensures
            *final(self) == (CommitInput {
                summary_textarea: final(self).summary_textarea,
                ..*old(self)
            }),
            final(self).summary_textarea.unselected(),
            final(self).summary_textarea.text() == textarea::retyped(
                old(self).summary_textarea.text(),
                history::first_line_split(message@).0,
            ),
            r@ == history::first_line_split(message@).1,
    {
        let (summary, body) = history::split_first_line(message);
        self.summary_textarea.retype(summary.as_str());
        body
    }

    /// Empties the summary, which gets the keys. The body is to be emptied too.
    pub fn clear(&mut self)
        ensures
            final(self).focus is Summary,
            final(self).kind == old(self).kind,
            final(self).on_confirm == old(self).on_confirm,
            final(self).summary_textarea.unselected(),
            final(self).summary_textarea.text()
                == old(self).summary_textarea.text().at_end().start_cut(),
    {
        self.summary_textarea.wipe();
        self.focus = CommitInputFocus::Summary;
    }
}

/// The trailer that names a co-author.
pub open spec fn co_author_trailer(name: Seq<char>) -> Seq<char> {
    "\n\nCo-authored-by: "@ + name
}

/// What is appended to the body for a co-author: nothing for an empty name.
pub fn co_author(name: &str) -> (r: Option<String>)
    ensures
        text::opt_text(r) == if name@.len() > 0 {
            Some(co_author_trailer(name@))
        } else {
            None
        },
{
    if text::is_empty_str(name) {
        return None;
    }
    let mut s = "\n\nCo-authored-by: ".to_string();
    s.append(name);
    Some(s)
}

/// The text without carriage returns.
pub open spec fn without_returns(s: Seq<char>) -> Seq<char>
    decreases s.len(),
{
    if s.len() == 0 {
        seq![]
    } else if s.last() == '\r' {
        without_returns(s.drop_last())
    } else {
        without_returns(s.drop_last()).push(s.last())
    }
}

fn drop_returns(s: &str) -> (r: String)
    ensures
        r@ == without_returns(s@),
{
    let chars = text::chars_of(s);
    let mut r = String::new();
    let mut i: usize = 0;
    assert(r@ =~= without_returns(s@.take(0)));
    while i < chars.len()
        invariant
            i <= chars@.len(),
            chars@ == s@,
            r@ == without_returns(s@.take(i as int)),
        decreases chars@.len() - i,
    {
        assert(s@.take(i as int + 1).drop_last() =~= s@.take(i as int));
        let c = chars[i];
        if c != '\r' {
            r.push(c);
        }
        i = i + 1;
    }
    assert(s@.take(s@.len() as int) =~= s@);
    r
}

// ---------------------------------------------------------------------------
// Laws
// ---------------------------------------------------------------------------

/// Whatever the modifiers, Esc always puts the editor aside, from the summary and
/// from the body: no text is lost.
pub proof fn esc_keeps_the_editor(
    focus: CommitInputFocus,
    key: KeyEvent,
    has_history: bool,
    menu_key: bool,
    ai_key: bool,
)
    requires
        key.code is Esc,
    ensures
        commit_course(focus, key, has_history, menu_key, ai_key) is Stash,
{
}

/// A message is submitted only by Enter in the summary.
pub proof fn only_enter_in_the_summary_submits(
    focus: CommitInputFocus,
    key: KeyEvent,
    has_history: bool,
    menu_key: bool,
    ai_key: bool,
)
    requires
        commit_course(focus, key, has_history, menu_key, ai_key) is Submit,
    ensures
        focus is Summary,
        key.code is Enter,
        !key.modifiers.shift,
{
}

/// What each key does to the body: a plain character is inserted, the arrows move, by words
/// with alt and to the ends of the row with the command key, and the keys of a shell work
/// with control held.
pub proof fn the_body_has_its_keys(key: KeyEvent)
    requires
        !key.modifiers.command,
        !key.modifiers.meta,
    ensures
        ({
            let e = body_edit(key);
            let alt = key.modifiers.alt;
            let ctrl = key.modifiers.control;
            let k = key.code;
            &&& k matches KeyCode::Char(c) ==> !alt && !ctrl ==> e == Some(BodyEdit::Insert(c))
            &&& k is Left && !alt ==> e == Some(BodyEdit::Left)
            &&& k is Right && !alt ==> e == Some(BodyEdit::Right)
            &&& k is Left && alt ==> e == Some(BodyEdit::WordLeft)
            &&& k is Right && alt ==> e == Some(BodyEdit::WordRight)
            &&& k is Up ==> e == Some(BodyEdit::VisualUp)
            &&& k is Down ==> e == Some(BodyEdit::VisualDown)
            &&& k is Home ==> e == Some(BodyEdit::Home)
            &&& k is End ==> e == Some(BodyEdit::End)
            &&& k is Delete ==> e == Some(BodyEdit::Delete)
            &&& k is Backspace && !alt ==> e == Some(BodyEdit::Backspace)
            &&& k is Backspace && alt ==> e == Some(BodyEdit::DeleteWordLeft)
            &&& k == KeyCode::Char('u') && ctrl ==> e == Some(BodyEdit::DeleteToVisualLineStart)
            &&& k == KeyCode::Char('w') && ctrl ==> e == Some(BodyEdit::DeleteWordLeft)
            &&& k == KeyCode::Char('a') && ctrl ==> e == Some(BodyEdit::VisualLineStart)
            &&& k == KeyCode::Char('e') && ctrl ==> e == Some(BodyEdit::VisualLineEnd)
            &&& k == KeyCode::Char('b') && alt && !ctrl ==> e == Some(BodyEdit::WordLeft)
            &&& k == KeyCode::Char('f') && alt && !ctrl ==> e == Some(BodyEdit::WordRight)
            &&& e matches Some(BodyEdit::Insert(c)) ==> k == KeyCode::Char(c)
        }),
{
}

/// With the command key held, the arrows go to the ends of the row, backspace deletes up to
/// its start, and no character is inserted.
pub proof fn the_command_key_in_the_body(key: KeyEvent)
    requires
        key.modifiers.command || key.modifiers.meta,
    ensures
        key.code is Left ==> body_edit(key) == Some(BodyEdit::VisualLineStart),
        key.code is Right ==> body_edit(key) == Some(BodyEdit::VisualLineEnd),
        key.code is Backspace ==> body_edit(key) == Some(BodyEdit::DeleteToVisualLineStart),
        !(body_edit(key) matches Some(BodyEdit::Insert(_))),
{
}

/// What each key does in the editor: enter submits from the summary and breaks the line in the
/// body, tab goes from one to the other, the arrows go through the history from the summary.
pub proof fn the_editor_has_its_keys(
    focus: CommitInputFocus,
    key: KeyEvent,
    has_history: bool,
    menu_key: bool,
    ai_key: bool,
)
    ensures
        ({
            let c = commit_course(focus, key, has_history, menu_key, ai_key);
            let k = key.code;
            let plain = !menu_key && !ai_key;
            &&& k is Tab <==> c is ToggleFocus
            &&& k is Enter && focus is Summary && !key.modifiers.shift ==> c is Submit
            &&& k is Enter && (focus is Body || key.modifiers.shift) ==> c is NewLine
            &&& k == KeyCode::Char('j') && key.modifiers.control ==> c is NewLine
            &&& k is Up && focus is Summary && plain ==> c == if has_history {
                CommitCourse::History { up: true }
            } else {
                CommitCourse::TypeSummary
            }
            &&& k is Down && focus is Summary && plain ==> c == if has_history {
                CommitCourse::History { up: false }
            } else {
                CommitCourse::TypeSummary
            }
            &&& k is Backspace && menu_key ==> c is OpenMenu
            &&& k is Backspace && ai_key && !menu_key ==> c is Generate
            &&& k is Backspace && plain && focus is Summary ==> c is TypeSummary
            &&& k is Backspace && plain && focus is Body ==> c == CommitCourse::EditBody(
                body_edit(key),
            )
            &&& c is OpenMenu ==> menu_key
            &&& c is Generate ==> ai_key
        }),
{
}

/// A submitted message is the summary, an empty line and the trimmed body, and joins the
/// history unless it is blank.
pub proof fn a_message_is_submitted_whole(
    p: CommitInput,
    key: KeyEvent,
    body: Seq<char>,
    h1: CommitHistory,
    menu_key: bool,
    ai_key: bool,
    after: CommitInput,
    h2: CommitHistory,
    r: CommitStep,
)
    requires
        p.answered(key, body, h1, menu_key, ai_key, after, h2, r),
        p.focus is Summary,
        key.code is Enter,
        !key.modifiers.shift,
    ensures
        r matches CommitStep::Submit { text, save_history } && {
            &&& text@ == if text::trim(body).len() == 0 {
                p.summary()
            } else {
                p.summary() + "\n\n"@ + text::trim(body)
            }
            &&& save_history <==> text::trim(text@).len() > 0
            &&& !save_history ==> text::texts(h2.messages@) == text::texts(h1.messages@)
            &&& save_history ==> text::texts(h2.messages@)[0] == text@
        },
{
    match r {
        CommitStep::Submit { text, save_history } => {
            history::a_used_message_comes_first_and_once(text::texts(h1.messages@), text@);
        },
        _ => {},
    }
}

/// A text without carriage returns is one from which they are taken out and nothing else.
pub proof fn only_returns_are_taken_out(s: Seq<char>)
    ensures
        without_returns(s) == s.filter(|c: char| c != '\r'),
    decreases s.len(),
{
    reveal(Seq::filter);
    if s.len() > 0 {
        only_returns_are_taken_out(s.drop_last());
    }
}

/// The trailer stands behind an empty line and names the co-author.
pub proof fn a_co_author_has_a_line(name: Seq<char>)
    ensures
        co_author_trailer(name) == "\n\n"@ + "Co-authored-by: "@ + name,
{
    reveal_strlit("\n\n");
    reveal_strlit("Co-authored-by: ");
    reveal_strlit("\n\nCo-authored-by: ");
    assert("\n\n"@ + "Co-authored-by: "@ =~= "\n\nCo-authored-by: "@);
}

/// A message that is put on show has its first line in the summary and what follows the empty
/// line in the body.
pub proof fn a_shown_message_is_in_its_two_parts(
    after: CommitInput,
    body: Seq<char>,
    summary: Seq<char>,
    rest: Seq<char>,
)
    requires
        !summary.contains('\n'),
        CommitInput::shows_message(after, body, summary + "\n\n"@ + rest),
    ensures
        input::holds(after.summary_textarea, summary),
        body == rest,
{
    history::body_follows_the_blank_line(summary, rest);
}

} // verus!
