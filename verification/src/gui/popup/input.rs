//! A window with one text field: a single line, or a commit message.

use super::history;
use super::history::CommitHistory;
use super::Action;
use crate::gui::input::{KeyCode, KeyEvent};
use crate::gui::picker;
use crate::gui::textarea;
use crate::gui::textarea::TextField;
use crate::text;
use vstd::prelude::*;

verus! {

// ---------------------------------------------------------------------------
// Widths
// ---------------------------------------------------------------------------

/// How wide the window is on a screen: three fifths of it, at least thirty columns
/// and at most sixty, and no wider than `limit`.
pub open spec fn popup_width(screen: int, limit: int) -> int {
    picker::at_most(picker::at_least(picker::at_most(screen * 60 / 100, 60), 30), limit)
}

/// The columns inside the window.
pub open spec fn inner_width(screen: int) -> int {
    picker::minus(popup_width(screen, screen), 4)
}

/// The width to wrap at: the columns inside the window, or fewer where a width is
/// configured.
pub open spec fn wrap_width(inner: int, configured: int) -> int {
    if configured > 0 {
        picker::at_most(inner, configured)
    } else {
        inner
    }
}

fn width_of(screen: u16, limit: u16) -> (r: u16)
    requires
        screen * 60 <= u16::MAX,
    ensures
        r == popup_width(screen as int, limit as int),
{
    let share: u16 = screen * 60 / 100;
    let wide: u16 = if share <= 60 {
        share
    } else {
        60
    };
    let wanted: u16 = if wide >= 30 {
        wide
    } else {
        30
    };
    if wanted <= limit {
        wanted
    } else {
        limit
    }
}

/// The columns inside the window on a screen.
pub fn popup_inner_width(screen: u16) -> (r: usize)
    requires
        screen * 60 <= u16::MAX,
    ensures
        r == inner_width(screen as int),
{
    width_of(screen, screen).saturating_sub(4) as usize
}

/// The width to wrap at.
pub fn effective_wrap_width(inner: usize, configured: usize) -> (r: usize)
    ensures
        r == wrap_width(inner as int, configured as int),
{
    if configured > 0 && configured < inner {
        configured
    } else {
        inner
    }
}

/// The width at which the body of a commit message is wrapped: never less than one
/// column.
pub open spec fn body_width(screen: int, configured: int) -> int {
    picker::at_least(
        wrap_width(
            picker::minus(popup_width(screen, picker::at_least(screen, 1)), 4),
            configured,
        ),
        1,
    )
}

/// The width at which the body of a commit message is wrapped.
pub fn commit_body_wrap_width(screen: u16, configured: usize) -> (r: usize)
    requires
        screen * 60 <= u16::MAX,
    ensures
        r == body_width(screen as int, configured as int),
{
    let limit: u16 = if screen >= 1 {
        screen
    } else {
        1
    };
    let inner: usize = width_of(screen, limit).saturating_sub(4) as usize;
    let w: usize = effective_wrap_width(inner, configured);
    if w >= 1 {
        w
    } else {
        1
    }
}

// ---------------------------------------------------------------------------
// The window
// ---------------------------------------------------------------------------

/// A window with a text field. For a commit message the field has several lines and
/// a button below it.
#[derive(Debug)]
pub struct InputPopup {
    pub title: String,
    pub textarea: TextField,
    pub is_commit: bool,
    pub confirm_focused: bool,
    pub on_confirm: Action,
}

/// What a key leads to, beyond the field.
#[derive(Debug)]
pub enum InputStep {
    Stay,
    /// The text is confirmed. Where it joined the history, that is to be saved.
    Confirm { text: String, save_history: bool },
    Leave,
    OpenMenu,
}

/// What a key does in the window.
#[derive(Debug, Clone, Copy, PartialEq, Eq, Structural)]
pub enum InputCourse {
    ToggleFocus,
    Confirm,
    Leave,
    /// Up or down at a commit message, with a history to go through.
    History { up: bool },
    OpenMenu,
    Type,
    Nothing,
}

/// What a key does in the window. `menu_key` tells whether it is the one that opens
/// the menu of the editor.
pub open spec fn input_course(
    is_commit: bool,
    confirm_focused: bool,
    key: KeyEvent,
    has_history: bool,
    menu_key: bool,
) -> InputCourse {
    if is_commit && key.code is Tab {
        InputCourse::ToggleFocus
    } else if (is_commit && key.code == KeyCode::Char('s') && key.modifiers.control) || (is_commit
        && confirm_focused && key.code is Enter) || (!is_commit && key.code is Enter) {
        InputCourse::Confirm
    } else if key.code is Esc {
        InputCourse::Leave
    } else if is_commit && !confirm_focused && (key.code is Up || key.code is Down)
        && has_history {
        InputCourse::History { up: key.code is Up }
    } else if is_commit && !confirm_focused && menu_key {
        InputCourse::OpenMenu
    } else if !confirm_focused {
        InputCourse::Type
    } else {
        InputCourse::Nothing
    }
}

/// Decides what a key does in the window.
pub fn classify_input_key(
    is_commit: bool,
    confirm_focused: bool,
    key: KeyEvent,
    has_history: bool,
    menu_key: bool,
) -> (r: InputCourse)
    ensures
        r == input_course(is_commit, confirm_focused, key, has_history, menu_key),
{
    if is_commit && key.code == KeyCode::Tab {
        InputCourse::ToggleFocus
    } else if (is_commit && key.code == KeyCode::Char('s') && key.modifiers.control) || (is_commit
        && confirm_focused && key.code == KeyCode::Enter) || (!is_commit && key.code
        == KeyCode::Enter) {
        InputCourse::Confirm
    } else if key.code == KeyCode::Esc {
        InputCourse::Leave
    } else if is_commit && !confirm_focused && (key.code == KeyCode::Up || key.code
        == KeyCode::Down) && has_history {
        InputCourse::History { up: key.code == KeyCode::Up }
    } else if is_commit && !confirm_focused && menu_key {
        InputCourse::OpenMenu
    } else if !confirm_focused {
        InputCourse::Type
    } else {
        InputCourse::Nothing
    }
}

/// The text that the window confirms: the lines of a commit message, or the single
/// line however it is wrapped.
pub open spec fn confirmed_text(p: InputPopup) -> Seq<char> {
    if p.is_commit {
        text::join(p.textarea.text().lines, "\n"@)
    } else {
        text::join(p.textarea.text().lines, seq![])
    }
}

/// Whether the cursor is at the edge of the field where a key goes on into the
/// history: the first line going up, the last one going down.
pub open spec fn at_edge(t: TextField, up: bool) -> bool {
    if up {
        t.text().row == 0
    } else {
        t.text().row >= picker::minus(t.text().lines.len() as int, 1)
    }
}

/// Whether a key that is typed turns a field into another. A commit message is
/// wrapped at the width for good; a single line only for show.
pub open spec fn typed_in(
    before: TextField,
    key: KeyEvent,
    after: TextField,
    is_commit: bool,
    inner: int,
    configured: int,
) -> bool {
    exists|mid: TextField, taken: bool| #[trigger]
        textarea::key_applied(before, key, mid, taken) && if is_commit {
            textarea::hard_wrapped_to(mid, after, wrap_width(inner, configured) as nat)
        } else {
            textarea::soft_wrapped_to(mid, after, inner as nat)
        }
}

/// Whether a text put in at the cursor turns a field into another, wrapped as if it
/// had been typed.
pub open spec fn put_in(
    before: TextField,
    s: Seq<char>,
    after: TextField,
    is_commit: bool,
    inner: int,
    configured: int,
) -> bool {
    exists|mid: TextField| #[trigger]
        textarea::pasted(before, mid, s) && if is_commit {
            textarea::hard_wrapped_to(mid, after, wrap_width(inner, configured) as nat)
        } else {
            textarea::soft_wrapped_to(mid, after, inner as nat)
        }
}

/// Whether a field holds a text as it was inserted into an empty one.
pub open spec fn holds(t: TextField, s: Seq<char>) -> bool {
    t.unselected() && t.text() == textarea::filled_with(s)
}

/// What an empty field of a window shows, by what is asked for.
pub open spec fn placeholder_text(is_commit: bool, on_confirm: Action) -> Seq<char> {
    if is_commit {
        "Enter commit message..."@
    } else {
        match on_confirm {
            Action::AppendCoAuthor => "Name <email@example.com>"@,
            Action::WorktreePath => "Path"@,
            Action::WorktreeBranch { path: _ } => "Branch name"@,
            _ => ""@,
        }
    }
}

impl InputPopup {
    /// What the field shows while it is empty.
    pub fn placeholder(&self) -> (r: String)
        ensures
            r@ == placeholder_text(self.is_commit, self.on_confirm),
    {
        let s = if self.is_commit {
            "Enter commit message..."
        } else {
            match &self.on_confirm {
                Action::AppendCoAuthor => "Name <email@example.com>",
                Action::WorktreePath => "Path",
                Action::WorktreeBranch { path: _ } => "Branch name",
                _ => "",
            }
        };
        s.to_string()
    }

    /// Whether a key turns the window and the history into others and leads to a step.
    pub open spec fn answered(
        self,
        key: KeyEvent,
        h1: CommitHistory,
        menu_key: bool,
        inner: usize,
        configured: usize,
        after: InputPopup,
        h2: CommitHistory,
        r: InputStep,
    ) -> bool {
        &&& after.title == self.title
        &&& after.is_commit == self.is_commit
        &&& after.on_confirm == self.on_confirm
        &&& match input_course(
            self.is_commit,
            self.confirm_focused,
            key,
            h1.messages@.len() > 0,
            menu_key,
        ) {
            InputCourse::ToggleFocus => r is Stay && h2 == h1
                && after == (InputPopup {
                confirm_focused: !self.confirm_focused,
                ..self
            }),
            InputCourse::Confirm => {
                &&& after == self
                &&& h2.idx is None
                &&& h2.draft == h1.draft
                &&& r matches InputStep::Confirm { text, save_history } && text@
                    == confirmed_text(self) && save_history == (self.is_commit
                    && text::trim(text@).len() > 0) && text::texts(h2.messages@)
                    == if save_history {
                    history::remembered(text::texts(h1.messages@), text@)
                } else {
                    text::texts(h1.messages@)
                }
            },
            InputCourse::Leave => r is Leave && after == self && h2
                == (CommitHistory { idx: None, ..h1 }),
            InputCourse::History { up } => {
                &&& r is Stay
                &&& after.confirm_focused == self.confirm_focused
                &&& h2.messages == h1.messages
                &&& if !at_edge(self.textarea, up) {
                    h2 == h1 && exists|taken: bool| #[trigger]
                        textarea::key_applied(
                            self.textarea,
                            key,
                            after.textarea,
                            taken,
                        )
                } else if up {
                    h2.place() == h1.place().older(
                        text::join(self.textarea.text().lines, "\n"@),
                        h1.messages@.len(),
                    ) && holds(
                        after.textarea,
                        h2.place().shown(text::texts(h1.messages@)),
                    )
                } else if h1.idx is None {
                    h2 == h1 && after == self
                } else {
                    h2.place() == h1.place().newer() && holds(
                        after.textarea,
                        h2.place().shown(text::texts(h1.messages@)),
                    )
                }
            },
            InputCourse::OpenMenu => r is OpenMenu && after == self
                && h2 == h1,
            InputCourse::Type => r is Stay && h2 == h1 && after.confirm_focused == self.confirm_focused && typed_in(
                self.textarea,
                key,
                after.textarea,
                self.is_commit,
                inner as int,
                configured as int,
            ),
            InputCourse::Nothing => r is Stay && after == self && h2
                == h1,
        }
    }

    /// Applies a key to the window. `inner` is the number of columns inside it and
    /// `configured` the width for commit messages, zero for none.
    pub fn key(
        &mut self,
        key: KeyEvent,
        history: &mut CommitHistory,
        menu_key: bool,
        inner: usize,
        configured: usize,
    ) -> (r: InputStep)
        requires
            old(history).wf(),
        ensures
            final(history).wf(),
            old(self).answered(
                key,
                *old(history),
                menu_key,
                inner,
                configured,
                *final(self),
                *final(history),
                r,
            ),
    {
        match classify_input_key(
            self.is_commit,
            self.confirm_focused,
            key,
            history.messages.len() > 0,
            menu_key,
        ) {
            InputCourse::ToggleFocus => {
                self.confirm_focused = !self.confirm_focused;
                InputStep::Stay
            },
            InputCourse::Confirm => {
                let text = if self.is_commit {
                    self.textarea.joined_lines()
                } else {
                    self.textarea.joined()
                };
                if self.is_commit {
                    let save_history = history.remember(text.as_str());
                    InputStep::Confirm { text, save_history }
                } else {
                    history.idx = None;
                    InputStep::Confirm { text, save_history: false }
                }
            },
            InputCourse::Leave => {
                history.idx = None;
                InputStep::Leave
            },
            InputCourse::History { up } => {
                let (row, _) = self.textarea.cursor();
                let lines = self.textarea.lines();
                let count: usize = lines.len();
                assert(text::texts(lines@).len() == lines@.len());
                let edge = if up {
                    row == 0
                } else {
                    row >= count.saturating_sub(1)
                };
                if !edge {
                    let ghost before = self.textarea;
                    let taken = textarea::textarea_input(&mut self.textarea, key);
                    assert(textarea::key_applied(before, key, self.textarea, taken));
                } else if up {
                    let current = self.textarea.joined_lines();
                    let message = history.older(current);
                    self.textarea = TextField::with_text(message.as_str());
                } else {
                    match history.newer() {
                        Some(message) => {
                            self.textarea = TextField::with_text(message.as_str());
                        },
                        None => {},
                    }
                }
                InputStep::Stay
            },
            InputCourse::OpenMenu => InputStep::OpenMenu,
            InputCourse::Type => {
                let ghost before = self.textarea;
                let taken = textarea::textarea_input(&mut self.textarea, key);
                let ghost mid = self.textarea;
                assert(textarea::key_applied(before, key, mid, taken));
                if self.is_commit {
                    let w: usize = effective_wrap_width(inner, configured);
                    textarea::auto_wrap_textarea(&mut self.textarea, w);
                } else {
                    textarea::soft_wrap(&mut self.textarea, inner);
                }
                InputStep::Stay
            },
            InputCourse::Nothing => InputStep::Stay,
        }
    }

    /// Puts a pasted text into the field. In a single line, line ends become spaces.
    pub fn paste(&mut self, data: &str, inner: usize, configured: usize)
        ensures
            final(self).title == old(self).title,
            final(self).is_commit == old(self).is_commit,
            final(self).on_confirm == old(self).on_confirm,
            final(self).confirm_focused == old(self).confirm_focused,
            if old(self).confirm_focused {
                *final(self) == *old(self)
            } else {
                put_in(
                    old(self).textarea,
                    if old(self).is_commit {
                        data@
                    } else {
                        single_line(data@)
                    },
                    final(self).textarea,
                    old(self).is_commit,
                    inner as int,
                    configured as int,
                )
            },
    {
        if self.confirm_focused {
            return;
        }
        let ghost before = self.textarea;
        if self.is_commit {
            self.textarea.insert_str(data);
            assert(textarea::pasted(before, self.textarea, data@));
            let w: usize = effective_wrap_width(inner, configured);
            textarea::auto_wrap_textarea(&mut self.textarea, w);
        } else {
            let cleaned = flatten(data);
            self.textarea.insert_str(cleaned.as_str());
            assert(textarea::pasted(before, self.textarea, single_line(data@)));
            textarea::soft_wrap(&mut self.textarea, inner);
        }
    }
}

/// A text on a single line: without carriage returns, a space for each line feed.
pub open spec fn single_line(s: Seq<char>) -> Seq<char>
    decreases s.len(),
{
    if s.len() == 0 {
        seq![]
    } else if s.last() == '\r' {
        single_line(s.drop_last())
    } else if s.last() == '\n' {
        single_line(s.drop_last()).push(' ')
    } else {
        single_line(s.drop_last()).push(s.last())
    }
}

/// Puts a text on a single line.
pub fn flatten(data: &str) -> (r: String)
    ensures
        r@ == single_line(data@),
{
    let chars = text::chars_of(data);
    let mut r = String::new();
    let mut i: usize = 0;
    assert(r@ =~= single_line(data@.take(0)));
    while i < chars.len()
        invariant
            i <= chars@.len(),
            chars@ == data@,
            r@ == single_line(data@.take(i as int)),
        decreases chars@.len() - i,
    {
        assert(data@.take(i as int + 1).drop_last() =~= data@.take(i as int));
        let c = chars[i];
        if c == '\n' {
            r.push(' ');
        } else if c != '\r' {
            r.push(c);
        }
        i = i + 1;
    }
    assert(data@.take(data@.len() as int) =~= data@);
    r
}

// ---------------------------------------------------------------------------
// Laws
// ---------------------------------------------------------------------------

/// The window takes three fifths of the screen, between thirty and sixty columns, and never
/// more than there are; four of them go to its border and margin.
pub proof fn the_width_of_the_window(screen: int)
    requires
        0 <= screen,
    ensures
        screen >= 100 ==> popup_width(screen, screen) == 60 && inner_width(screen) == 56,
        50 <= screen < 100 ==> popup_width(screen, screen) == screen * 3 / 5,
        30 <= screen <= 50 ==> popup_width(screen, screen) == 30 && inner_width(screen) == 26,
        screen < 30 ==> popup_width(screen, screen) == screen,
        screen >= 4 ==> inner_width(screen) == popup_width(screen, screen) - 4,
{
    assert(screen * 60 / 100 == screen * 3 / 5);
}

/// A configured width is kept where it fits, and never reaches beyond the window; zero stands
/// for none. The body of a message always has a column.
pub proof fn the_width_to_wrap_at(inner: int, configured: int, screen: int)
    requires
        0 <= inner,
        0 <= configured,
        0 <= screen,
    ensures
        wrap_width(inner, 0) == inner,
        0 < configured <= inner ==> wrap_width(inner, configured) == configured,
        configured > inner ==> wrap_width(inner, configured) == inner,
        body_width(screen, configured) >= 1,
        screen >= 100 && configured == 0 ==> body_width(screen, configured) == 56,
        screen >= 100 && 0 < configured <= 56 ==> body_width(screen, configured) == configured,
{
}

/// What each key does in the window: enter confirms a single line, and a message from its
/// button or with control and `s`; tab goes to the button of a message and back, and escape
/// leaves.
pub proof fn the_window_has_its_keys(
    is_commit: bool,
    focused: bool,
    key: KeyEvent,
    has_history: bool,
    menu_key: bool,
)
    ensures
        ({
            let c = input_course(is_commit, focused, key, has_history, menu_key);
            let k = key.code;
            &&& !is_commit && k is Enter ==> c is Confirm
            &&& is_commit && focused && k is Enter ==> c is Confirm
            &&& is_commit && !focused && k is Enter && !menu_key ==> c is Type
            &&& is_commit && k == KeyCode::Char('s') && key.modifiers.control ==> c is Confirm
            &&& is_commit && k is Tab ==> c is ToggleFocus
            &&& k is Esc ==> c is Leave
            &&& is_commit && !focused && k is Up && has_history ==> c == (InputCourse::History {
                up: true,
            })
            &&& is_commit && !focused && k is Down && has_history ==> c == (InputCourse::History {
                up: false,
            })
            &&& !is_commit && !focused && !(k is Enter) && !(k is Esc) ==> c is Type
            &&& c is OpenMenu ==> menu_key && is_commit && !focused
            &&& c is Confirm ==> k is Enter || (k == KeyCode::Char('s') && key.modifiers.control)
        }),
{
}

/// A text on a single line holds no line end, and every other character stays in its order:
/// joining two texts joins what they become.
pub proof fn a_single_line_has_no_line_end(a: Seq<char>, b: Seq<char>)
    ensures
        single_line(a + b) == single_line(a) + single_line(b),
        !single_line(a).contains('\n') && !single_line(a).contains('\r'),
        !a.contains('\n') && !a.contains('\r') ==> single_line(a) == a,
        single_line(seq!['\n']) == seq![' '],
        single_line(seq!['\r']) == Seq::<char>::empty(),
    decreases a.len() + b.len(),
{
    reveal_with_fuel(single_line, 2);
    assert(seq!['\n'].drop_last() =~= Seq::<char>::empty());
    assert(seq!['\r'].drop_last() =~= Seq::<char>::empty());
    assert(single_line(seq!['\n']) =~= seq![' ']);
    if b.len() > 0 {
        a_single_line_has_no_line_end(a, b.drop_last());
        assert((a + b).drop_last() =~= a + b.drop_last());
        assert((a + b).last() == b.last());
        assert(single_line(a + b) =~= single_line(a) + single_line(b));
    } else if a.len() > 0 {
        let none = Seq::<char>::empty();
        assert(b =~= none);
        assert(a + b =~= a);
        assert(single_line(a) + single_line(b) =~= single_line(a));
        let d = a.drop_last();
        a_single_line_has_no_line_end(d, none);
        assert(single_line(a) == if a.last() == '\r' {
            single_line(d)
        } else if a.last() == '\n' {
            single_line(d).push(' ')
        } else {
            single_line(d).push(a.last())
        });
        lemma_push_contains(single_line(d), ' ');
        lemma_push_contains(single_line(d), a.last());
        if !a.contains('\n') && !a.contains('\r') {
            assert(a.contains(a[a.len() - 1]));
            assert(!d.contains('\n') && !d.contains('\r')) by {
                if d.contains('\n') {
                    let j = choose|j: int| 0 <= j < d.len() && d[j] == '\n';
                    assert(a[j] == '\n');
                }
                if d.contains('\r') {
                    let j = choose|j: int| 0 <= j < d.len() && d[j] == '\r';
                    assert(a[j] == '\r');
                }
            }
            assert(single_line(a) =~= a);
        }
    } else {
        assert(a + b =~= a);
        assert(single_line(a) =~= a);
        assert(single_line(a) + single_line(b) =~= single_line(a));
    }
}

proof fn lemma_push_contains(s: Seq<char>, c: char)
    ensures
        !s.contains('\n') && c != '\n' ==> !s.push(c).contains('\n'),
        !s.contains('\r') && c != '\r' ==> !s.push(c).contains('\r'),
{
    if s.push(c).contains('\n') {
        let j = choose|j: int| 0 <= j < s.push(c).len() && s.push(c)[j] == '\n';
        if j < s.len() {
            assert(s[j] == '\n');
        }
    }
    if s.push(c).contains('\r') {
        let j = choose|j: int| 0 <= j < s.push(c).len() && s.push(c)[j] == '\r';
        if j < s.len() {
            assert(s[j] == '\r');
        }
    }
}

/// A message goes into the history from the first line of its field upwards, and from the
/// last one downwards; elsewhere the arrows move within it.
pub proof fn the_history_is_at_the_edges(t: TextField)
    requires
        t.text().lines.len() > 0,
    ensures
        at_edge(t, true) <==> t.text().row == 0,
        at_edge(t, false) <==> t.text().row >= t.text().lines.len() - 1,
{
}

} // verus!
