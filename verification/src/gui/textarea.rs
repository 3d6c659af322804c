//! Text fields: the editor widget with what is known of it, and the wrapping of
//! its lines.

use crate::gui::input::{has_command_modifier, KeyCode, KeyEvent};
use crate::text;
use tui_textarea::{CursorMove, Input, Key, TextArea};
use vstd::prelude::*;

verus! {

/// A text field: the editor widget `tui_textarea::TextArea`, with its lines, its
/// cursor, its selection, and state that is not looked at here (undo history,
/// yanked text, styles). Its cursor always stands at a place in the text, and so does the
/// start of its selection: every edit drops the selection, and moving or selecting does
/// not change the text.
#[verifier::external_body]
#[derive(Debug)]
pub struct TextField {
    area: TextArea<'static>,
}

/// The lines that a text field holds.
pub uninterp spec fn field_lines(t: TextField) -> Seq<Seq<char>>;

/// Where the cursor of a text field stands: the row, and the column in
/// characters.
pub uninterp spec fn field_cursor(t: TextField) -> (nat, nat);

/// Where the selection of a text field starts, while there is one.
pub uninterp spec fn field_selection(t: TextField) -> Option<(nat, nat)>;

/// Lines of text with a cursor in them.
#[verifier::ext_equal]
pub struct Edited {
    pub lines: Seq<Seq<char>>,
    pub row: nat,
    pub col: nat,
}

/// A way to move the cursor.
#[derive(Debug, Clone, Copy, PartialEq, Eq, Structural)]
pub enum Motion {
    Head,
    End,
    Top,
    Down,
    Forward,
    WordBack,
    WordForward,
    Jump(u16, u16),
}

/// The kinds of characters that make up words.
pub enum CharKind {
    Space,
    Punctuation,
    Other,
}

/// The kind of a character.
pub open spec fn char_kind(c: char) -> CharKind {
    if text::is_space(c) {
        CharKind::Space
    } else if '!' <= c <= '/' || ':' <= c <= '@' || '[' <= c <= '`' || '{' <= c <= '~' {
        CharKind::Punctuation
    } else {
        CharKind::Other
    }
}

/// Whether another kind of characters begins at a column of a line.
pub open spec fn kind_changes(line: Seq<char>, i: int) -> bool {
    char_kind(line[i]) != char_kind(line[i - 1])
}

/// The first column from `i` on at which a word begins, behind something else.
pub open spec fn next_word_start(line: Seq<char>, i: int) -> Option<int>
    decreases line.len() - i,
{
    if i >= line.len() {
        None
    } else if kind_changes(line, i) && !(char_kind(line[i]) is Space) {
        Some(i)
    } else {
        next_word_start(line, i + 1)
    }
}

/// The first column from `i` on at which a word has ended and something else begins.
pub open spec fn next_word_end(line: Seq<char>, i: int) -> Option<int>
    decreases line.len() - i,
{
    if i >= line.len() {
        None
    } else if kind_changes(line, i) && !(char_kind(line[i - 1]) is Space) {
        Some(i)
    } else {
        next_word_end(line, i + 1)
    }
}

/// The last column up to `i` at which a word begins.
pub open spec fn last_word_start(line: Seq<char>, i: int) -> Option<int>
    decreases i + 1,
{
    if i < 0 {
        None
    } else if !(char_kind(line[i]) is Space) && (i == 0 || kind_changes(line, i)) {
        Some(i)
    } else {
        last_word_start(line, i - 1)
    }
}

/// Where the cursor comes to stand when it moves by a word, back or forward, from
/// a place in the lines: where a word begins in the line, or else in the line above or
/// below.
pub open spec fn word_target(
    lines: Seq<Seq<char>>,
    row: nat,
    col: nat,
    forward: bool,
) -> (nat, nat) {
    let line = lines[row as int];
    if forward {
        match next_word_start(line, col as int + 1) {
            Some(i) => (row, i as nat),
            None => if row + 1 < lines.len() {
                (row + 1, 0)
            } else {
                (row, line.len())
            },
        }
    } else {
        match last_word_start(line, col as int - 1) {
            Some(i) => (row, i as nat),
            None => if row > 0 {
                ((row - 1) as nat, lines[row as int - 1].len())
            } else {
                (row, 0)
            },
        }
    }
}

/// The columns that a text takes on a screen: the sum of the widths of its characters
/// (`UnicodeWidthChar::width`, nothing for a control character). It is only named.
pub uninterp spec fn columns(s: Seq<char>) -> nat;

/// Whether a text is made of printable characters of ASCII.
pub open spec fn printable(s: Seq<char>) -> bool {
    forall|i: int| 0 <= i < s.len() ==> ' ' <= #[trigger] s[i] <= '~'
}

/// The lesser of two numbers.
pub open spec fn least(a: nat, b: nat) -> nat {
    if a <= b {
        a
    } else {
        b
    }
}

impl Edited {
    /// The text after a motion. A motion that has nowhere to go leaves the cursor.
    pub open spec fn moved(self, m: Motion) -> Edited {
        let len = self.lines[self.row as int].len();
        match m {
            Motion::Head => Edited { col: 0, ..self },
            Motion::End => Edited { col: len, ..self },
            Motion::Top => Edited { row: 0, col: least(self.col, self.lines[0].len()), ..self },
            Motion::Down => if self.row + 1 < self.lines.len() {
                Edited {
                    row: self.row + 1,
                    col: least(self.col, self.lines[self.row as int + 1].len()),
                    ..self
                }
            } else {
                self
            },
            Motion::Forward => if self.col < len {
                Edited { col: self.col + 1, ..self }
            } else if self.row + 1 < self.lines.len() {
                Edited { row: self.row + 1, col: 0, ..self }
            } else {
                self
            },
            Motion::WordBack => {
                let w = word_target(self.lines, self.row, self.col, false);
                Edited { row: w.0, col: w.1, ..self }
            },
            Motion::WordForward => {
                let w = word_target(self.lines, self.row, self.col, true);
                Edited { row: w.0, col: w.1, ..self }
            },
            Motion::Jump(r, c) => {
                let row = least(r as nat, (self.lines.len() - 1) as nat);
                Edited { row, col: least(c as nat, self.lines[row as int].len()), ..self }
            },
        }
    }

    /// The text after the same motion several times.
    pub open spec fn moved_times(self, m: Motion, n: nat) -> Edited
        decreases n,
    {
        if n == 0 {
            self
        } else {
            self.moved_times(m, (n - 1) as nat).moved(m)
        }
    }

    /// The text with the line of the cursor joined to the one above.
    pub open spec fn line_joined(self) -> Edited {
        if self.row == 0 {
            self
        } else {
            let above = self.lines[self.row - 1];
            Edited {
                lines: self.lines.remove(self.row as int).update(
                    self.row - 1,
                    above + self.lines[self.row as int],
                ),
                row: (self.row - 1) as nat,
                col: above.len(),
            }
        }
    }

    /// The text without the character before the cursor; at the head of a line,
    /// joined to the line above.
    pub open spec fn char_deleted(self) -> Edited {
        if self.col == 0 {
            self.line_joined()
        } else {
            Edited {
                lines: self.lines.update(
                    self.row as int,
                    self.lines[self.row as int].remove(self.col - 1),
                ),
                col: (self.col - 1) as nat,
                ..self
            }
        }
    }

    /// The text without the character behind the cursor; at the end of a line,
    /// joined to the line below.
    pub open spec fn next_deleted(self) -> Edited {
        let ahead = self.moved(Motion::Forward);
        if ahead.row == self.row && ahead.col == self.col {
            self
        } else {
            ahead.char_deleted()
        }
    }

    /// The text without what stands before the cursor in its line; at the head of
    /// a line, joined to the line above.
    pub open spec fn head_deleted(self) -> Edited {
        if self.col == 0 {
            self.line_joined()
        } else {
            Edited {
                lines: self.lines.update(
                    self.row as int,
                    self.lines[self.row as int].skip(self.col as int),
                ),
                col: 0,
                ..self
            }
        }
    }

    /// The text without what stands behind the cursor in its line; at the end of a
    /// line, joined to the line below.
    pub open spec fn tail_deleted(self) -> Edited {
        let line = self.lines[self.row as int];
        if self.col < line.len() {
            Edited {
                lines: self.lines.update(self.row as int, line.take(self.col as int)),
                ..self
            }
        } else {
            self.next_deleted()
        }
    }

    /// The text without the word before the cursor; where none begins in the line, without
    /// what stands before the cursor in it.
    pub open spec fn word_deleted(self) -> Edited {
        let line = self.lines[self.row as int];
        let start = word_target(self.lines, self.row, self.col, false);
        if start.0 == self.row {
            Edited {
                lines: self.lines.update(
                    self.row as int,
                    line.take(start.1 as int) + line.skip(self.col as int),
                ),
                col: start.1,
                ..self
            }
        } else {
            self.head_deleted()
        }
    }

    /// The text without what stands between the cursor and the end of the next word; where
    /// none ends in the line, without what stands behind the cursor in it.
    pub open spec fn next_word_deleted(self) -> Edited {
        let line = self.lines[self.row as int];
        match next_word_end(line, self.col as int + 1) {
            Some(i) => Edited {
                lines: self.lines.update(
                    self.row as int,
                    line.take(self.col as int) + line.skip(i),
                ),
                ..self
            },
            None => self.tail_deleted(),
        }
    }

    /// The text with the cursor in another row, no further along than that reaches.
    pub open spec fn at_row(self, row: int) -> Edited {
        Edited { row: row as nat, col: least(self.col, self.lines[row].len()), ..self }
    }

    /// Whether the cursor stands at a place in the text.
    pub open spec fn inside(self) -> bool {
        self.row < self.lines.len() && self.col <= self.lines[self.row as int].len()
    }

    /// The text with pieces inserted at the cursor, a line end between each two;
    /// the cursor is behind them.
    pub open spec fn inserted(self, p: Seq<Seq<char>>) -> Edited {
        let line = self.lines[self.row as int];
        let before = line.take(self.col as int);
        let behind = line.skip(self.col as int);
        let n = p.len();
        if n == 0 {
            self
        } else if n == 1 {
            Edited {
                lines: self.lines.update(self.row as int, before + p[0] + behind),
                col: self.col + p[0].len(),
                ..self
            }
        } else {
            Edited {
                lines: self.lines.take(self.row as int) + seq![before + p[0]] + p.subrange(
                    1,
                    n - 1,
                ) + seq![p[n - 1] + behind] + self.lines.skip(self.row as int + 1),
                row: (self.row + n - 1) as nat,
                col: p[n - 1].len(),
            }
        }
    }

    /// The text with everything selected: the cursor jumps to the end, as far as
    /// a jump reaches.
    pub open spec fn at_end(self) -> Edited {
        self.moved(Motion::Jump(u16::MAX, u16::MAX))
    }

    /// The text with the cursor one character back; at the head of a line, at the end of
    /// the line above.
    pub open spec fn back(self) -> Edited {
        if self.col > 0 {
            Edited { col: (self.col - 1) as nat, ..self }
        } else if self.row > 0 {
            Edited { row: (self.row - 1) as nat, col: self.lines[self.row - 1].len(), ..self }
        } else {
            self
        }
    }

    /// The text with the cursor one line up.
    pub open spec fn up(self) -> Edited {
        if self.row > 0 {
            Edited {
                row: (self.row - 1) as nat,
                col: least(self.col, self.lines[self.row - 1].len()),
                ..self
            }
        } else {
            self
        }
    }

    /// The text without what stands between the cursor and another place; the cursor is
    /// where that began.
    pub open spec fn without(self, p: (nat, nat)) -> Edited {
        let c = (self.row, self.col);
        let (start, end) = if p.0 < c.0 || (p.0 == c.0 && p.1 <= c.1) {
            (p, c)
        } else {
            (c, p)
        };
        Edited {
            lines: self.lines.take(start.0 as int) + seq![
                self.lines[start.0 as int].take(start.1 as int) + self.lines[end.0 as int].skip(
                    end.1 as int,
                ),
            ] + self.lines.skip(end.0 as int + 1),
            row: start.0,
            col: start.1,
        }
    }

    /// The text without what stands before the cursor.
    pub open spec fn start_cut(self) -> Edited {
        Edited {
            lines: seq![self.lines[self.row as int].skip(self.col as int)] + self.lines.skip(
                self.row as int + 1,
            ),
            row: 0,
            col: 0,
        }
    }
}

/// The lines of a text to insert: cut at line feeds, each without a carriage return
/// at its end.
pub open spec fn insert_pieces(s: Seq<char>) -> Seq<Seq<char>> {
    let p = text::split(s, '\n');
    Seq::new(
        p.len(),
        |i: int|
            if p[i].len() > 0 && p[i].last() == '\r' {
                p[i].drop_last()
            } else {
                p[i]
            },
    )
}

/// A text with a cursor in it, and where a selection that reaches to the cursor starts,
/// while there is one.
#[verifier::ext_equal]
pub struct Marked {
    pub text: Edited,
    pub from: Option<(nat, nat)>,
}

impl Marked {
    /// Whether the selection starts at a place in the text.
    pub open spec fn placed(self) -> bool {
        match self.from {
            Some(p) => p == (0nat, 0nat) || (p.0 < self.text.lines.len() && p.1
                <= self.text.lines[p.0 as int].len()),
            None => true,
        }
    }

    /// Whether any character or line end is selected.
    pub open spec fn selects(self) -> bool {
        self.from is Some && self.from->0 != (self.text.row, self.text.col)
    }

    /// The text without what is selected.
    pub open spec fn bare(self) -> Edited {
        if self.selects() {
            self.text.without(self.from->0)
        } else {
            self.text
        }
    }

    /// The text after pieces were typed in place of what is selected.
    pub open spec fn typed(self, p: Seq<Seq<char>>) -> Marked {
        unmarked(self.bare().inserted(p))
    }

    /// The text after what is selected was deleted, or else the character before the
    /// cursor.
    pub open spec fn char_deleted(self) -> Marked {
        unmarked(
            if self.selects() {
                self.bare()
            } else {
                self.text.char_deleted()
            },
        )
    }

    /// The text after what is selected was deleted, or else the character behind the
    /// cursor.
    pub open spec fn next_deleted(self) -> Marked {
        unmarked(
            if self.selects() {
                self.bare()
            } else {
                self.text.next_deleted()
            },
        )
    }

    /// The text after what is selected was deleted, or else what stands before the cursor
    /// in its line.
    pub open spec fn head_deleted(self) -> Marked {
        unmarked(
            if self.selects() {
                self.bare()
            } else {
                self.text.head_deleted()
            },
        )
    }

    /// The text after what is selected was deleted, or else what stands behind the cursor
    /// in its line.
    pub open spec fn tail_deleted(self) -> Marked {
        unmarked(
            if self.selects() {
                self.bare()
            } else {
                self.text.tail_deleted()
            },
        )
    }

    /// The text after what is selected was deleted, or else the word before the cursor.
    pub open spec fn word_deleted(self) -> Marked {
        unmarked(
            if self.selects() {
                self.bare()
            } else {
                self.text.word_deleted()
            },
        )
    }

    /// The text after what is selected was deleted, or else up to the end of the next
    /// word.
    pub open spec fn next_word_deleted(self) -> Marked {
        unmarked(
            if self.selects() {
                self.bare()
            } else {
                self.text.next_word_deleted()
            },
        )
    }

    /// What stands before the cursor in its line, without what is selected.
    pub open spec fn ahead(self) -> Seq<char> {
        let t = self.bare();
        t.lines[t.row as int].take(t.col as int)
    }

    /// The text after spaces were typed in place of what is selected, up to the next
    /// column that is a multiple of four, where this many columns stand before the cursor.
    pub open spec fn tabbed(self, columns: nat) -> Marked {
        self.typed(seq![Seq::new((4 - columns % 4) as nat, |i: int| ' ')])
    }

    /// The text with the cursor at the next paragraph, or in the last line.
    pub open spec fn to_next_paragraph(self, shift: bool) -> Marked {
        self.gone_to(
            self.text.at_row(next_paragraph(self.text.lines, self.text.row as int + 1)),
            shift,
        )
    }

    /// The text with the cursor at the paragraph before, or in the first line.
    pub open spec fn to_previous_paragraph(self, shift: bool) -> Marked {
        if self.text.row == 0 {
            self
        } else {
            self.gone_to(
                self.text.at_row(previous_paragraph(self.text.lines, self.text.row as int - 1)),
                shift,
            )
        }
    }

    /// The text after several characters before the cursor were deleted.
    pub open spec fn chars_deleted(self, n: nat) -> Marked
        decreases n,
    {
        if n == 0 {
            self
        } else {
            self.chars_deleted((n - 1) as nat).char_deleted()
        }
    }

    /// The text after several characters behind the cursor were deleted.
    pub open spec fn nexts_deleted(self, n: nat) -> Marked
        decreases n,
    {
        if n == 0 {
            self
        } else {
            self.nexts_deleted((n - 1) as nat).next_deleted()
        }
    }

    /// The text with the cursor elsewhere. With shift held the selection goes on, or
    /// begins where the cursor was; otherwise it ends.
    pub open spec fn gone_to(self, there: Edited, shift: bool) -> Marked {
        Marked {
            text: there,
            from: if !shift {
                None
            } else if self.from is Some {
                self.from
            } else {
                Some((self.text.row, self.text.col))
            },
        }
    }

    /// The text with the cursor a step away, if it can take the step.
    pub open spec fn stepped(self, there: Edited, shift: bool) -> Marked {
        if there.row == self.text.row && there.col == self.text.col {
            self
        } else {
            self.gone_to(there, shift)
        }
    }
}

/// A text without a selection.
pub open spec fn unmarked(t: Edited) -> Marked {
    Marked { text: t, from: None }
}

/// The first line from `i` on that starts a paragraph, or the last line.
pub open spec fn next_paragraph(l: Seq<Seq<char>>, i: int) -> int
    decreases l.len() - i,
{
    if i >= l.len() {
        l.len() - 1
    } else if l[i].len() > 0 && l[i - 1].len() == 0 {
        i
    } else {
        next_paragraph(l, i + 1)
    }
}

/// The last line up to `i` that starts a paragraph, or the first line.
pub open spec fn previous_paragraph(l: Seq<Seq<char>>, i: int) -> int
    decreases i,
{
    if i <= 0 {
        0
    } else if l[i].len() > 0 && l[i - 1].len() == 0 {
        i
    } else {
        previous_paragraph(l, i - 1)
    }
}

/// What the control key with a character does, as far as it is told.
pub open spec fn widget_control(t: Marked, c: char, shift: bool) -> Option<Marked> {
    match c {
        'm' => Some(t.typed(seq![seq![], seq![]])),
        'h' => Some(t.char_deleted()),
        'd' => Some(t.next_deleted()),
        'k' => Some(t.tail_deleted()),
        'j' => Some(t.head_deleted()),
        'n' => Some(t.stepped(t.text.moved(Motion::Down), shift)),
        'p' => Some(t.stepped(t.text.up(), shift)),
        'f' => Some(t.stepped(t.text.moved(Motion::Forward), shift)),
        'b' => Some(t.stepped(t.text.back(), shift)),
        'a' => Some(t.gone_to(t.text.moved(Motion::Head), shift)),
        'e' => Some(t.gone_to(t.text.moved(Motion::End), shift)),
        'x' => Some(unmarked(t.bare())),
        'c' => Some(unmarked(t.text)),
        'w' => Some(t.word_deleted()),
        'u' | 'r' | 'y' | 'v' => None,
        _ => Some(t),
    }
}

/// What the alt key with a character does, as far as it is told.
pub open spec fn widget_alt(t: Marked, c: char, shift: bool) -> Option<Marked> {
    match c {
        '<' => Some(t.gone_to(t.text.moved(Motion::Top), shift)),
        '>' => Some(t.gone_to(t.text.at_row(t.text.lines.len() - 1), shift)),
        'f' => Some(t.gone_to(t.text.moved(Motion::WordForward), shift)),
        'b' => Some(t.gone_to(t.text.moved(Motion::WordBack), shift)),
        ']' | 'n' => Some(t.to_next_paragraph(shift)),
        '[' | 'p' => Some(t.to_previous_paragraph(shift)),
        'h' => Some(t.word_deleted()),
        'd' => Some(t.next_word_deleted()),
        'v' => None,
        _ => Some(t),
    }
}

/// What the widget does with a key: a character is put in place of what is selected,
/// Enter breaks the line, Backspace and Delete take away what is selected or a
/// character, the arrows move the cursor, and shortcuts do the same and delete or go
/// further. Not told are the shortcuts for undoing, redoing and putting back what was
/// deleted and for paging. A key that is no shortcut does nothing.
pub open spec fn widget_key(t: Marked, key: KeyEvent) -> Option<Marked> {
    let ctrl = key.modifiers.control;
    let alt = key.modifiers.alt;
    let plain = !ctrl && !alt;
    let shift = key.modifiers.shift;
    match key.code {
        KeyCode::Enter => Some(t.typed(seq![seq![], seq![]])),
        KeyCode::Char(c) => if plain {
            if c == '\n' || c == '\r' {
                Some(t.typed(seq![seq![], seq![]]))
            } else {
                Some(t.typed(seq![seq![c]]))
            }
        } else if !alt {
            widget_control(t, c, shift)
        } else if !ctrl {
            widget_alt(t, c, shift)
        } else {
            match c {
                'b' => Some(t.gone_to(t.text.moved(Motion::Head), shift)),
                'f' => Some(t.gone_to(t.text.moved(Motion::End), shift)),
                'p' => Some(t.gone_to(t.text.moved(Motion::Top), shift)),
                'n' => Some(t.gone_to(t.text.at_row(t.text.lines.len() - 1), shift)),
                _ => Some(t),
            }
        },
        KeyCode::Backspace => Some(
            if plain {
                t.char_deleted()
            } else if !ctrl {
                t.word_deleted()
            } else {
                t
            },
        ),
        KeyCode::Delete => Some(
            if plain {
                t.next_deleted()
            } else if !ctrl {
                t.next_word_deleted()
            } else {
                t
            },
        ),
        KeyCode::Left => Some(
            if plain {
                t.stepped(t.text.back(), shift)
            } else if !alt {
                t.gone_to(t.text.moved(Motion::WordBack), shift)
            } else if ctrl {
                t.gone_to(t.text.moved(Motion::Head), shift)
            } else {
                t
            },
        ),
        KeyCode::Right => Some(
            if plain {
                t.stepped(t.text.moved(Motion::Forward), shift)
            } else if !alt {
                t.gone_to(t.text.moved(Motion::WordForward), shift)
            } else if ctrl {
                t.gone_to(t.text.moved(Motion::End), shift)
            } else {
                t
            },
        ),
        KeyCode::Home => Some(t.gone_to(t.text.moved(Motion::Head), shift)),
        KeyCode::End => Some(t.gone_to(t.text.moved(Motion::End), shift)),
        KeyCode::Up => if plain {
            Some(t.stepped(t.text.up(), shift))
        } else if !alt {
            Some(t.to_previous_paragraph(shift))
        } else if ctrl {
            Some(t.gone_to(t.text.moved(Motion::Top), shift))
        } else {
            Some(t)
        },
        KeyCode::Down => if plain {
            Some(t.stepped(t.text.moved(Motion::Down), shift))
        } else if !alt {
            Some(t.to_next_paragraph(shift))
        } else if ctrl {
            Some(t.gone_to(t.text.at_row(t.text.lines.len() - 1), shift))
        } else {
            Some(t)
        },
        KeyCode::Tab => Some(
            if plain {
                t.tabbed(columns(t.ahead()))
            } else {
                t
            },
        ),
        KeyCode::Esc | KeyCode::F(_) | KeyCode::BackTab | KeyCode::Other => Some(t),
        KeyCode::PageUp | KeyCode::PageDown => None,
    }
}

/// Whether a key is Tab without a modifier that makes it another shortcut.
pub open spec fn is_tab(key: KeyEvent) -> bool {
    key.code is Tab && !key.modifiers.control && !key.modifiers.alt
}

/// Whether a key puts something into the text.
pub open spec fn widget_types(key: KeyEvent) -> bool {
    let ctrl = key.modifiers.control;
    let alt = key.modifiers.alt;
    match key.code {
        KeyCode::Enter => true,
        KeyCode::Tab => !ctrl && !alt,
        KeyCode::Char(c) => !alt && (!ctrl || c == 'm'),
        _ => false,
    }
}

/// Whether a key takes something away from the text, if there is something, as far as it
/// is told what it does.
pub open spec fn widget_deletes(key: KeyEvent) -> bool {
    let ctrl = key.modifiers.control;
    let alt = key.modifiers.alt;
    match key.code {
        KeyCode::Char(c) => if ctrl && !alt {
            c == 'h' || c == 'd' || c == 'k' || c == 'j' || c == 'w' || c == 'x'
        } else {
            alt && !ctrl && (c == 'h' || c == 'd')
        },
        KeyCode::Backspace | KeyCode::Delete => !ctrl,
        _ => false,
    }
}

/// Whether `r` tells what a key did: typing changes the text, deleting does so where there
/// was something to delete, and any other key of which it is told what it does changes
/// nothing in it.
pub open spec fn widget_told(before: Marked, key: KeyEvent, after: Marked, r: bool) -> bool {
    if widget_types(key) {
        r
    } else if widget_deletes(key) {
        r == (after.text.lines != before.text.lines)
    } else {
        widget_key(before, key) is Some ==> !r
    }
}

impl TextField {
    /// The lines and the cursor of the field.
    pub open spec fn text(self) -> Edited {
        Edited {
            lines: field_lines(self),
            row: field_cursor(self).0,
            col: field_cursor(self).1,
        }
    }

    /// The text of the field with its selection.
    pub open spec fn marked(self) -> Marked {
        Marked { text: self.text(), from: field_selection(self) }
    }

    /// Whether nothing is selected.
    pub open spec fn unselected(self) -> bool {
        field_selection(self) is None
    }

    /// An empty field (`TextArea::default`): one line without characters, the
    /// cursor in it, nothing selected.
    #[verifier::external_body]
    fn empty() -> (r: TextField)
        ensures
            field_lines(r) == seq![Seq::<char>::empty()],
            field_cursor(r) == (0nat, 0nat),
            field_selection(r) is None,
    {
        TextField { area: TextArea::default() }
    }

    /// Copies the lines (`TextArea::lines`).
    #[verifier::external_body]
    fn copy_lines(&self) -> (r: Vec<String>)
        ensures
            text::texts(r@) == field_lines(*self),
    {
        self.area.lines().to_vec()
    }

    /// Where the cursor stands (`TextArea::cursor`).
    #[verifier::external_body]
    fn place(&self) -> (r: (usize, usize))
        ensures
            field_cursor(*self) == (r.0 as nat, r.1 as nat),
    {
        self.area.cursor()
    }

    /// Inserts a text at the cursor (`TextArea::insert_str`), in place of what is
    /// selected.
    #[verifier::external_body]
    fn insert(&mut self, s: &str)
        ensures
            final(self).marked() == old(self).marked().typed(insert_pieces(s@)),
    {
        self.area.insert_str(s);
    }

    /// Moves the cursor (`TextArea::move_cursor`). The lines stay, and what is
    /// selected starts where it did. A word is a run of punctuation of ASCII, or of
    /// characters that are neither that nor white space.
    #[verifier::external_body]
    fn go(&mut self, m: Motion)
        ensures
            final(self).text() == old(self).text().moved(m),
            field_selection(*final(self)) == field_selection(*old(self)),
    {
        self.area.move_cursor(match m {
            Motion::Head => CursorMove::Head,
            Motion::End => CursorMove::End,
            Motion::Top => CursorMove::Top,
            Motion::Down => CursorMove::Down,
            Motion::Forward => CursorMove::Forward,
            Motion::WordBack => CursorMove::WordBack,
            Motion::WordForward => CursorMove::WordForward,
            Motion::Jump(row, col) => CursorMove::Jump(row, col),
        });
    }

    /// Selects everything (`TextArea::select_all`): the selection starts at the
    /// first character and the cursor jumps to the end, as far as a jump reaches. There
    /// is always a line.
    #[verifier::external_body]
    fn select_all(&mut self)
        ensures
            field_lines(*final(self)).len() > 0,
            final(self).text() == old(self).text().at_end(),
            field_selection(*final(self)) == Some((0nat, 0nat)),
    {
        self.area.select_all();
    }

    /// Deletes what is selected (`TextArea::cut`). Nothing is selected afterwards.
    #[verifier::external_body]
    fn cut(&mut self)
        ensures
            final(self).unselected(),
            final(self).text() == old(self).marked().bare(),
    {
        self.area.cut();
    }

    /// Deletes what is selected, or else to the head of the line
    /// (`TextArea::delete_line_by_head`).
    #[verifier::external_body]
    fn delete_to_head(&mut self)
        ensures
            final(self).marked() == old(self).marked().head_deleted(),
    {
        self.area.delete_line_by_head();
    }

    /// Deletes what is selected, or else the character before the cursor
    /// (`TextArea::delete_char`).
    #[verifier::external_body]
    fn delete_char(&mut self)
        ensures
            final(self).marked() == old(self).marked().char_deleted(),
    {
        self.area.delete_char();
    }

    /// Deletes what is selected, or else the character behind the cursor
    /// (`TextArea::delete_next_char`).
    #[verifier::external_body]
    fn delete_next_char(&mut self)
        ensures
            final(self).marked() == old(self).marked().next_deleted(),
    {
        self.area.delete_next_char();
    }

    /// Hands a key to the widget (`TextArea::input`), which edits or moves by its own
    /// shortcuts and tells whether the text changed. What they do is stated, but for those
    /// that undo, redo, put back what was deleted or page: these rest on its history, its
    /// yanked text and its viewport. How far a tab reaches rests on the widths of the
    /// characters before it; printable ones of ASCII are one column wide. Whatever the
    /// key, the cursor and the start of the selection stay in the text.
    #[verifier::external_body]
    fn hand_over(&mut self, key: KeyEvent) -> (r: bool)
        ensures
            widget_key(old(self).marked(), key) matches Some(m) ==> final(self).marked() == m,
            is_tab(key) ==> final(self).marked() == old(self).marked().tabbed(
                columns(old(self).marked().ahead()),
            ),
            is_tab(key) && printable(old(self).marked().ahead()) ==> final(self).marked() == old(
                self,
            ).marked().tabbed(old(self).marked().ahead().len()),
            final(self).marked().placed() && final(self).text().inside(),
            widget_told(old(self).marked(), key, final(self).marked(), r),
    {
        let code = match key.code {
            KeyCode::Char(c) => Key::Char(c), KeyCode::F(n) => Key::F(n),
            KeyCode::Backspace => Key::Backspace, KeyCode::Enter => Key::Enter,
            KeyCode::Left => Key::Left, KeyCode::Right => Key::Right,
            KeyCode::Up => Key::Up, KeyCode::Down => Key::Down,
            KeyCode::Tab => Key::Tab, KeyCode::Delete => Key::Delete,
            KeyCode::Home => Key::Home, KeyCode::End => Key::End,
            KeyCode::PageUp => Key::PageUp, KeyCode::PageDown => Key::PageDown,
            KeyCode::Esc => Key::Esc, KeyCode::BackTab | KeyCode::Other => Key::Null,
        };
        let m = key.modifiers;
        self.area.input(Input { key: code, ctrl: m.control, alt: m.alt, shift: m.shift })
    }

    /// An empty field.
    pub fn new() -> (r: TextField)
        ensures
            r.text() == (Edited { lines: seq![Seq::<char>::empty()], row: 0, col: 0 }),
            r.text() == filled_with(seq![]),
            r.unselected(),
    {
        proof {
            filled_with_nothing();
        }
        TextField::empty()
    }

    /// A field with a text in it, the cursor behind it.
    pub fn with_text(s: &str) -> (r: TextField)
        ensures
            r.text() == filled_with(s@),
            r.unselected(),
    {
        let mut t = TextField::empty();
        t.insert(s);
        t
    }

    /// The lines of the field.
    pub fn lines(&self) -> (r: Vec<String>)
        ensures
            text::texts(r@) == self.text().lines,
    {
        self.copy_lines()
    }

    /// The row and the column of the cursor.
    pub fn cursor(&self) -> (r: (usize, usize))
        ensures
            self.text().row == r.0,
            self.text().col == r.1,
    {
        self.place()
    }

    /// The text of a field of one line, however its lines are wrapped.
    pub fn joined(&self) -> (r: String)
        ensures
            r@ == text::join(self.text().lines, seq![]),
    {
        let lines = self.copy_lines();
        proof {
            reveal_strlit("");
            assert(""@ =~= seq![]);
        }
        text::join_strings(&lines, "")
    }

    /// The text of a field of several lines.
    pub fn joined_lines(&self) -> (r: String)
        ensures
            r@ == text::join(self.text().lines, "\n"@),
    {
        let lines = self.copy_lines();
        text::join_strings(&lines, "\n")
    }

    /// Inserts a text at the cursor.
    pub fn insert_str(&mut self, s: &str)
        ensures
            pasted(*old(self), *final(self), s@),
    {
        self.insert(s);
    }

    /// Deletes the whole text, as far as a jump to its end reaches.
    pub fn wipe(&mut self)
        ensures
            final(self).unselected(),
            final(self).text() == old(self).text().at_end().start_cut(),
    {
        self.select_all();
        proof {
            lemma_start_cut(self.text());
        }
        self.cut();
    }

    /// Puts another text in place of the whole text, the cursor behind it.
    pub fn retype(&mut self, s: &str)
        ensures
            final(self).unselected(),
            final(self).text() == retyped(old(self).text(), s@),
    {
        self.select_all();
        proof {
            lemma_start_cut(self.text());
        }
        self.cut();
        self.insert(s);
    }

    fn go_times(&mut self, m: Motion, n: usize)
        ensures
            final(self).text() == old(self).text().moved_times(m, n as nat),
            field_selection(*final(self)) == field_selection(*old(self)),
    {
        let ghost start = *self;
        let mut i: usize = 0;
        while i < n
            invariant
                i <= n,
                self.text() == start.text().moved_times(m, i as nat),
                field_selection(*self) == field_selection(start),
            decreases n - i,
        {
            self.go(m);
            i = i + 1;
        }
    }

    /// Puts another text in place of the whole text, and the cursor at a row and
    /// column of it.
    fn refill(&mut self, s: &str, row: usize, col: usize)
        ensures
            final(self).unselected(),
            final(self).text() == refilled(old(self).text(), s@, row as nat, col as nat),
    {
        self.select_all();
        proof {
            lemma_start_cut(self.text());
        }
        self.cut();
        self.insert(s);
        self.go(Motion::Top);
        self.go(Motion::Head);
        self.go_times(Motion::Down, row);
        self.go_times(Motion::Forward, col);
    }
}

proof fn lemma_start_cut(t: Edited)
    requires
        t.lines.len() > 0,
    ensures
        (Marked { text: t, from: Some((0nat, 0nat)) }).bare() == t.start_cut(),
{
    let m = Marked { text: t, from: Some((0nat, 0nat)) };
    let line = t.lines[t.row as int].skip(t.col as int);
    if m.selects() {
        assert(t.lines[0].take(0) + line =~= line);
    } else {
        assert(line =~= t.lines[0]);
    }
    assert(m.bare().lines =~= t.start_cut().lines);
}

/// A text in place of another, the cursor behind it.
pub open spec fn retyped(t: Edited, s: Seq<char>) -> Edited {
    t.at_end().start_cut().inserted(insert_pieces(s))
}

/// A text in place of another: everything up to where a jump reaches is cut, the
/// new text inserted, and the cursor led from its start down and forward.
pub open spec fn refilled(t: Edited, s: Seq<char>, row: nat, col: nat) -> Edited {
    t.at_end().start_cut().inserted(insert_pieces(s)).moved(Motion::Top).moved(
        Motion::Head,
    ).moved_times(Motion::Down, row).moved_times(Motion::Forward, col)
}

// ---------------------------------------------------------------------------
// Keys
// ---------------------------------------------------------------------------

/// What a key does to a text field.
#[derive(Debug, Clone, Copy, PartialEq, Eq, Structural)]
pub enum FieldEdit {
    Move(Motion),
    DeleteToHead,
    DeleteWordBack,
    Refuse,
    HandOver,
}

/// What a key does to a text field: with a command or control key the arrows go to
/// the ends of the line and Backspace deletes to its head, with alt they go by
/// words; what is not handled here is handed to the widget.
pub open spec fn field_edit(key: KeyEvent) -> FieldEdit {
    let cmd = key.modifiers.command || key.modifiers.meta;
    let ctrl = key.modifiers.control;
    let alt = key.modifiers.alt;
    match key.code {
        KeyCode::Left => if cmd || ctrl {
            FieldEdit::Move(Motion::Head)
        } else if alt {
            FieldEdit::Move(Motion::WordBack)
        } else {
            FieldEdit::HandOver
        },
        KeyCode::Right => if cmd || ctrl {
            FieldEdit::Move(Motion::End)
        } else if alt {
            FieldEdit::Move(Motion::WordForward)
        } else {
            FieldEdit::HandOver
        },
        KeyCode::Home => FieldEdit::Move(Motion::Head),
        KeyCode::End => FieldEdit::Move(Motion::End),
        KeyCode::Backspace => if cmd || ctrl {
            FieldEdit::DeleteToHead
        } else if alt {
            FieldEdit::DeleteWordBack
        } else {
            FieldEdit::HandOver
        },
        KeyCode::Char(c) => if cmd {
            FieldEdit::Refuse
        } else if ctrl && c == 'a' {
            FieldEdit::Move(Motion::Head)
        } else if ctrl && c == 'e' {
            FieldEdit::Move(Motion::End)
        } else if ctrl && c == 'u' {
            FieldEdit::DeleteToHead
        } else {
            FieldEdit::HandOver
        },
        _ => FieldEdit::HandOver,
    }
}

/// Decides what a key does to a text field.
pub fn classify_field_key(key: KeyEvent) -> (r: FieldEdit)
    ensures
        r == field_edit(key),
{
    let cmd = has_command_modifier(key.modifiers);
    let ctrl = key.modifiers.control;
    let alt = key.modifiers.alt;
    match key.code {
        KeyCode::Left if cmd || ctrl => FieldEdit::Move(Motion::Head),
        KeyCode::Right if cmd || ctrl => FieldEdit::Move(Motion::End),
        KeyCode::Home => FieldEdit::Move(Motion::Head),
        KeyCode::End => FieldEdit::Move(Motion::End),
        KeyCode::Backspace if cmd || ctrl => FieldEdit::DeleteToHead,
        KeyCode::Left if alt => FieldEdit::Move(Motion::WordBack),
        KeyCode::Right if alt => FieldEdit::Move(Motion::WordForward),
        KeyCode::Backspace if alt => FieldEdit::DeleteWordBack,
        KeyCode::Char(_) if cmd => FieldEdit::Refuse,
        KeyCode::Char('a') if ctrl => FieldEdit::Move(Motion::Head),
        KeyCode::Char('e') if ctrl => FieldEdit::Move(Motion::End),
        KeyCode::Char('u') if ctrl => FieldEdit::DeleteToHead,
        _ => FieldEdit::HandOver,
    }
}

/// The text without the word before the cursor. Where that word starts in the same
/// line, what lies between is deleted; otherwise the start of the line is, with
/// the line end before it. A selection goes with the cursor, and is deleted first.
pub open spec fn word_deleted(t: Marked) -> Marked {
    let back = Marked { text: t.text.moved(Motion::WordBack), ..t };
    if back.text.row == t.text.row {
        back.nexts_deleted(
            if back.text.col < t.text.col {
                (t.text.col - back.text.col) as nat
            } else {
                0
            },
        )
    } else {
        (Marked {
            text: back.text.moved(Motion::Jump(t.text.row as u16, t.text.col as u16)),
            ..back
        }).chars_deleted(t.text.col + 1)
    }
}

/// Whether a key turns a field into another, with `r` telling whether it was taken.
pub open spec fn key_applied(before: TextField, key: KeyEvent, after: TextField, r: bool) -> bool {
    let t = before.marked();
    match field_edit(key) {
        FieldEdit::Move(m) => r && after.marked() == (Marked { text: t.text.moved(m), ..t }),
        FieldEdit::DeleteToHead => r && after.marked() == t.head_deleted(),
        FieldEdit::DeleteWordBack => r && after.marked() == word_deleted(t),
        FieldEdit::Refuse => !r && after == before,
        FieldEdit::HandOver => {
            &&& widget_key(t, key) matches Some(m) ==> after.marked() == m
            &&& is_tab(key) && printable(t.ahead()) ==> after.marked() == t.tabbed(t.ahead().len())
            &&& after.marked().placed() && after.text().inside()
            &&& widget_told(t, key, after.marked(), r)
        },
    }
}

/// Applies a key to a text field; tells whether the key was taken.
pub fn textarea_input(t: &mut TextField, key: KeyEvent) -> (r: bool)
    ensures
        key_applied(*old(t), key, *final(t), r),
{
    match classify_field_key(key) {
        FieldEdit::Move(m) => {
            t.go(m);
            true
        },
        FieldEdit::DeleteToHead => {
            t.delete_to_head();
            true
        },
        FieldEdit::DeleteWordBack => {
            let (row, col) = t.place();
            t.go(Motion::WordBack);
            let (new_row, new_col) = t.place();
            let ghost back = *t;
            if new_row == row {
                let n: usize = if new_col < col {
                    col - new_col
                } else {
                    0
                };
                let mut i: usize = 0;
                while i < n
                    invariant
                        i <= n,
                        t.marked() == back.marked().nexts_deleted(i as nat),
                    decreases n - i,
                {
                    t.delete_next_char();
                    i = i + 1;
                }
            } else {
                t.go(Motion::Jump(row as u16, col as u16));
                let ghost there = *t;
                let mut i: usize = 0;
                while i < col
                    invariant
                        i <= col,
                        t.marked() == there.marked().chars_deleted(i as nat),
                    decreases col - i,
                {
                    t.delete_char();
                    i = i + 1;
                }
                t.delete_char();
            }
            true
        },
        FieldEdit::Refuse => false,
        FieldEdit::HandOver => t.hand_over(key),
    }
}

// ---------------------------------------------------------------------------
// Soft wrapping
// ---------------------------------------------------------------------------

/// The text from position `i` on in pieces of `w` characters, the last of which may
/// be shorter.
pub open spec fn chunks_from(s: Seq<char>, w: nat, i: int) -> Seq<Seq<char>>
    decreases s.len() - i,
{
    if w == 0 || i < 0 || i >= s.len() {
        seq![]
    } else if s.len() - i <= w {
        seq![s.subrange(i, s.len() as int)]
    } else {
        seq![s.subrange(i, i + w)] + chunks_from(s, w, i + w)
    }
}

/// A text in lines of `w` characters, the last of which may be shorter.
pub open spec fn chunks(s: Seq<char>, w: nat) -> Seq<Seq<char>> {
    chunks_from(s, w, 0)
}

/// Whether every line but the last has exactly `w` characters, and the last no
/// more.
pub open spec fn laid_out(l: Seq<Seq<char>>, w: nat) -> bool {
    forall|i: int|
        0 <= i < l.len() ==> if i < l.len() - 1 {
            (#[trigger] l[i]).len() == w
        } else {
            l[i].len() <= w
        }
}

/// How many characters stand before a place in the lines, counted from line `i` on.
pub open spec fn offset_from(l: Seq<Seq<char>>, row: nat, col: nat, i: int) -> nat
    decreases l.len() - i,
{
    if i < 0 || i >= l.len() {
        0
    } else if i < row {
        l[i].len() + offset_from(l, row, col, i + 1)
    } else {
        least(col, l[i].len())
    }
}

/// How many characters stand before a place in the lines.
pub open spec fn offset(l: Seq<Seq<char>>, row: nat, col: nat) -> nat {
    offset_from(l, row, col, 0)
}

/// What a soft wrap puts in place of the lines: the new text and the row and column
/// to which the cursor is led. Nothing where the lines are laid out as they should
/// be.
pub open spec fn soft_wrapped(t: Edited, w: nat) -> Option<(Seq<char>, nat, nat)> {
    let raw = text::concat(t.lines);
    if w == 0 || raw.len() == 0 || laid_out(t.lines, w) {
        None
    } else {
        let place = chunk_place(offset(t.lines, t.row, t.col), raw.len(), w);
        Some((text::join(chunks(raw, w), "\n"@), place.0, place.1))
    }
}

/// The row and the column of the place that `at` of `len` characters come before,
/// in lines of `w` characters: the start of a line rather than the end of the one
/// above, but behind the last character the end of the last line.
pub open spec fn chunk_place(at: nat, len: nat, w: nat) -> (nat, nat) {
    if at == len && at > 0 && at % w == 0 {
        ((at / w - 1) as nat, w)
    } else {
        (at / w, at % w)
    }
}

proof fn lemma_join_nothing(l: Seq<Seq<char>>)
    ensures
        text::join(l, seq![]) == text::concat(l),
    decreases l.len(),
{
    if l.len() == 1 {
        text::lemma_concat_one(l[0]);
        assert(l =~= seq![l[0]]);
    } else if l.len() > 1 {
        lemma_join_nothing(l.drop_last());
        assert(text::join(l, seq![]) =~= text::concat(l));
    }
}

proof fn lemma_concat_front(l: Seq<Seq<char>>, i: int)
    requires
        0 <= i < l.len(),
    ensures
        text::concat(l.skip(i)).len() == l[i].len() + text::concat(l.skip(i + 1)).len(),
{
    assert(l.skip(i) =~= seq![l[i]] + l.skip(i + 1));
    text::lemma_concat_add(seq![l[i]], l.skip(i + 1));
    text::lemma_concat_one(l[i]);
}

proof fn lemma_offset_bound(l: Seq<Seq<char>>, row: nat, col: nat, i: int)
    requires
        0 <= i <= l.len(),
    ensures
        offset_from(l, row, col, i) <= text::concat(l.skip(i)).len(),
    decreases l.len() - i,
{
    if i < l.len() {
        lemma_concat_front(l, i);
        lemma_offset_bound(l, row, col, i + 1);
    }
}

/// Computes what a soft wrap puts in place of the lines.
pub fn soft_wrap_plan(lines: &Vec<String>, row: usize, col: usize, wrap_width: usize) -> (r: Option<
    (String, usize, usize),
>)
    ensures
        match r {
            Some(p) => soft_wrapped(
                Edited { lines: text::texts(lines@), row: row as nat, col: col as nat },
                wrap_width as nat,
            ) == Some((p.0@, p.1 as nat, p.2 as nat)),
            None => soft_wrapped(
                Edited { lines: text::texts(lines@), row: row as nat, col: col as nat },
                wrap_width as nat,
            ) is None,
        },
{
    if wrap_width == 0 {
        return None;
    }
    let ghost l = text::texts(lines@);
    proof {
        lemma_join_nothing(l);
        reveal_strlit("");
        assert(""@ =~= seq![]);
    }
    let raw = text::join_strings(lines, "");
    let chars = text::chars_of(raw.as_str());
    if chars.len() == 0 {
        return None;
    }
    let total: usize = chars.len();
    // The lengths of the lines, and whether they are laid out already.
    let mut ok = true;
    let mut at: usize = 0;
    let mut counting = true;
    let mut i: usize = 0;
    assert(l.skip(0) =~= l);
    proof {
        lemma_offset_bound(l, row as nat, col as nat, 0);
    }
    while i < lines.len()
        invariant
            i <= lines@.len(),
            l == text::texts(lines@),
            ok == (forall|j: int|
                0 <= j < i ==> if j < l.len() - 1 {
                    (#[trigger] l[j]).len() == wrap_width
                } else {
                    l[j].len() <= wrap_width
                }),
            counting ==> at + offset_from(l, row as nat, col as nat, i as int) == offset(
                l,
                row as nat,
                col as nat,
            ),
            !counting ==> at == offset(l, row as nat, col as nat),
            offset(l, row as nat, col as nat) <= total,
        decreases lines@.len() - i,
    {
        assert(l[i as int] == lines@[i as int]@);
        let line = text::chars_of(lines[i].as_str());
        let n: usize = line.len();
        if i < lines.len() - 1 {
            if n != wrap_width {
                ok = false;
            }
        } else {
            if n > wrap_width {
                ok = false;
            }
        }
        if counting {
            if i < row {
                at = at + n;
            } else {
                at = at + if col <= n {
                    col
                } else {
                    n
                };
                counting = false;
            }
        }
        i = i + 1;
    }
    if ok {
        return None;
    }
    let mut wrapped: Vec<String> = Vec::new();
    let mut start: usize = 0;
    assert(text::texts(wrapped@) + chunks_from(chars@, wrap_width as nat, 0) =~= chunks(
        chars@,
        wrap_width as nat,
    ));
    while start < total
        invariant
            start <= total,
            total == chars@.len(),
            wrap_width > 0,
            text::texts(wrapped@) + chunks_from(chars@, wrap_width as nat, start as int) == chunks(
                chars@,
                wrap_width as nat,
            ),
        decreases total - start,
    {
        let end: usize = if total - start <= wrap_width {
            total
        } else {
            start + wrap_width
        };
        let ghost before = wrapped@;
        wrapped.push(text::string_of(text::copy_range(chars.as_slice(), start, end).as_slice()));
        assert(text::texts(wrapped@) =~= text::texts(before).push(
            chars@.subrange(start as int, end as int),
        ));
        assert(text::texts(before) + chunks_from(chars@, wrap_width as nat, start as int)
            =~= text::texts(wrapped@) + chunks_from(chars@, wrap_width as nat, end as int));
        start = end;
    }
    assert(text::texts(wrapped@) + chunks_from(chars@, wrap_width as nat, start as int)
        =~= text::texts(wrapped@));
    let new_text = text::join_strings(&wrapped, "\n");
    if at == total && at % wrap_width == 0 {
        assert(at / wrap_width >= 1) by (nonlinear_arith)
            requires
                at > 0,
                at % wrap_width == 0,
                wrap_width > 0,
        ;
        Some((new_text, at / wrap_width - 1, wrap_width))
    } else {
        Some((new_text, at / wrap_width, at % wrap_width))
    }
}

/// Wraps a field of one line to a width for display. The breaks are no part of the
/// text: joining the lines gives it back.
pub fn soft_wrap_textarea(t: &mut TextField, wrap_width: usize)
    ensures
        match soft_wrapped(old(t).text(), wrap_width as nat) {
            None => *final(t) == *old(t),
            Some((s, row, col)) => final(t).unselected() && final(t).text() == refilled(
                old(t).text(),
                s,
                row,
                col,
            ),
        },
{
    let lines = t.copy_lines();
    let (row, col) = t.place();
    match soft_wrap_plan(&lines, row, col, wrap_width) {
        Some((new_text, new_row, new_col)) => {
            t.refill(new_text.as_str(), new_row, new_col);
        },
        None => {},
    }
}

// ---------------------------------------------------------------------------
// Hard wrapping
// ---------------------------------------------------------------------------

/// The last position before `k` that holds a space, or `k` where there is none or
/// only the first one.
pub open spec fn break_at(s: Seq<char>, k: int, i: int) -> int
    decreases i,
{
    if i <= 1 {
        k
    } else if s[i - 1] == ' ' {
        i - 1
    } else {
        break_at(s, k, i - 1)
    }
}

/// Where a line that is too long is cut: at the last space among the characters that
/// fit in `w` bytes or, where there is none, behind those characters. One character
/// always stays before the cut, though it be wider.
pub open spec fn cut_at(s: Seq<char>, w: nat) -> int {
    let fit = text::chars_within(s, w as int);
    let k = if fit > 0 {
        fit
    } else {
        1
    };
    break_at(s, k, k)
}

/// What a line that is too long goes on with behind its cut: the spaces there are
/// left out.
pub open spec fn behind_cut(s: Seq<char>, w: nat) -> Seq<char> {
    text::trim_start(s.skip(cut_at(s, w)))
}

/// A line in pieces of at most `w` bytes, cut at the last space that fits or, where
/// there is none, at the last character that does; the spaces at a cut are left
/// out.
pub open spec fn wrapped_line(s: Seq<char>, w: nat) -> Seq<Seq<char>>
    decreases s.len(),
{
    if text::byte_len(s) <= w {
        if s.len() == 0 {
            seq![]
        } else {
            seq![s]
        }
    } else {
        proof {
            lemma_cut_at(s, w);
        }
        seq![s.take(cut_at(s, w))] + wrapped_line(behind_cut(s, w), w)
    }
}

/// The first `n` lines, each wrapped; a line that fits stays, also an empty one.
pub open spec fn wrapped_lines(l: Seq<Seq<char>>, w: nat, n: int) -> Seq<Seq<char>>
    decreases n,
{
    if n <= 0 {
        seq![]
    } else if text::byte_len(l[n - 1]) <= w {
        wrapped_lines(l, w, n - 1).push(l[n - 1])
    } else {
        wrapped_lines(l, w, n - 1) + wrapped_line(l[n - 1], w)
    }
}

/// How far behind the start a place in the lines lies: the bytes of the lines above
/// it, one for each line end, and the column, at most the bytes of its line. Counted
/// from line `i` on.
pub open spec fn distance_from(l: Seq<Seq<char>>, row: nat, col: nat, i: int) -> nat
    decreases l.len() - i,
{
    if i < 0 || i >= l.len() {
        0
    } else if i < row {
        text::byte_len(l[i]) + 1 + distance_from(l, row, col, i + 1)
    } else {
        least(col, text::byte_len(l[i]))
    }
}

/// How far behind the start of the lines a place lies.
pub open spec fn distance(l: Seq<Seq<char>>, row: nat, col: nat) -> nat {
    distance_from(l, row, col, 0)
}

/// The row and column to which a distance leads from the start of line `i`: in the
/// first line that reaches so far, or behind the last one.
pub open spec fn place_at(l: Seq<Seq<char>>, left: nat, i: int) -> (nat, nat)
    decreases l.len() - i,
{
    if i < 0 || i >= l.len() {
        (l.len(), 0)
    } else if text::byte_len(l[i]) >= left {
        (i as nat, left)
    } else {
        place_at(l, (left - text::byte_len(l[i]) - 1) as nat, i + 1)
    }
}

/// Whether a line is too long for the width.
pub open spec fn too_long(l: Seq<Seq<char>>, w: nat) -> bool {
    exists|i: int| 0 <= i < l.len() && text::byte_len(#[trigger] l[i]) > w
}

/// Where a place in the lines lies after they were wrapped: as far behind the start as
/// before.
pub open spec fn place_after_wrap(t: Edited, w: nat) -> (nat, nat) {
    place_at(
        wrapped_lines(t.lines, w, t.lines.len() as int),
        distance(t.lines, t.row, t.col),
        0,
    )
}

/// What a hard wrap puts in place of the lines: the new text and the row and column
/// to which the cursor is led. Nothing where every line fits.
pub open spec fn hard_wrapped(t: Edited, w: nat) -> Option<(Seq<char>, nat, nat)> {
    if w == 0 || !too_long(t.lines, w) {
        None
    } else {
        let place = place_after_wrap(t, w);
        Some((text::join(wrapped_lines(t.lines, w, t.lines.len() as int), "\n"@), place.0, place.1))
    }
}

/// A line that is too long is cut behind at least one character, and what follows is
/// shorter.
pub proof fn lemma_cut_at(s: Seq<char>, w: nat)
    requires
        text::byte_len(s) > w,
    ensures
        1 <= cut_at(s, w) <= s.len(),
        behind_cut(s, w).len() <= s.len() - cut_at(s, w),
{
    text::lemma_chars_within(s, w as int);
    let fit = text::chars_within(s, w as int);
    let k = if fit > 0 {
        fit
    } else {
        1
    };
    lemma_break_at(s, k, k);
    text::lemma_trim_start_shorter(s.skip(cut_at(s, w)));
}

proof fn lemma_break_at(s: Seq<char>, k: int, i: int)
    requires
        1 <= k <= s.len(),
        0 <= i <= k,
    ensures
        1 <= break_at(s, k, i) <= k,
    decreases i,
{
    if i > 1 && s[i - 1] != ' ' {
        lemma_break_at(s, k, i - 1);
    }
}

fn find_break(s: &[char], k: usize) -> (r: usize)
    requires
        1 <= k <= s@.len(),
    ensures
        r == break_at(s@, k as int, k as int),
        1 <= r <= k,
{
    proof {
        lemma_break_at(s@, k as int, k as int);
    }
    let mut i: usize = k;
    while i > 1
        invariant
            i <= k <= s@.len(),
            break_at(s@, k as int, k as int) == break_at(s@, k as int, i as int),
        decreases i,
    {
        if s[i - 1] == ' ' {
            return i - 1;
        }
        i = i - 1;
    }
    k
}

/// Cuts a line that is too long; gives the length of the piece before the cut and
/// how much of the line stands before what goes on behind it.
fn cut_line(s: &[char], w: usize) -> (r: (usize, usize))
    requires
        text::byte_len(s@) > w,
    ensures
        r.0 == cut_at(s@, w as nat),
        r.1 == s@.len() - behind_cut(s@, w as nat).len(),
        1 <= r.0 <= r.1 <= s@.len(),
        s@.skip(r.1 as int) == behind_cut(s@, w as nat),
{
    let fit: usize = text::chars_within_of(s, w);
    proof {
        lemma_cut_at(s@, w as nat);
    }
    let b: usize = find_break(
        s,
        if fit > 0 {
            fit
        } else {
            1
        },
    );
    let behind = vstd::slice::slice_subrange(s, b, s.len());
    assert(behind@ =~= s@.skip(b as int));
    let next = text::trim_start_of(behind);
    proof {
        text::lemma_trim_start_shorter(behind@);
        lemma_trim_start_suffix(behind@);
        let n = next@.len() as int;
        assert(s@.skip(s@.len() - n) =~= behind@.skip(behind@.len() - n));
    }
    (b, s.len() - next.len())
}

proof fn lemma_trim_start_suffix(s: Seq<char>)
    ensures
        text::trim_start(s).len() <= s.len(),
        text::trim_start(s) == s.skip(s.len() - text::trim_start(s).len()),
    decreases s.len(),
{
    if s.len() > 0 && text::is_space(s[0]) {
        lemma_trim_start_suffix(s.skip(1));
        let n = text::trim_start(s).len() as int;
        assert(s.skip(1).skip(s.len() - 1 - n) =~= s.skip(s.len() - n));
    } else {
        assert(s.skip(0) =~= s);
    }
}

fn wrap_line(line: &[char], w: usize, out: &mut Vec<Vec<char>>)
    ensures
        text::pieces(final(out)@) == text::pieces(old(out)@) + wrapped_line(line@, w as nat),
{
    let ghost first = text::pieces(out@);
    let mut start: usize = 0;
    assert(line@.skip(0) =~= line@);
    loop
        invariant
            start <= line@.len(),
            first == text::pieces(old(out)@),
            first + wrapped_line(line@, w as nat) == text::pieces(out@) + wrapped_line(
                line@.skip(start as int),
                w as nat,
            ),
        decreases line@.len() - start,
    {
        let ghost before = text::pieces(out@);
        let rest = vstd::slice::slice_subrange(line, start, line.len());
        assert(rest@ =~= line@.skip(start as int));
        if text::chars_within_of(rest, w) == rest.len() {
            if rest.len() > 0 {
                out.push(text::copy_range(rest, 0, rest.len()));
                assert(rest@.subrange(0, rest@.len() as int) =~= rest@);
                assert(text::pieces(out@) =~= before.push(rest@));
            }
            assert(text::pieces(out@) =~= before + wrapped_line(rest@, w as nat));
            return;
        }
        let (b, next) = cut_line(rest, w);
        out.push(text::copy_range(rest, 0, b));
        proof {
            assert(rest@.subrange(0, b as int) =~= rest@.take(b as int));
            assert(text::pieces(out@) =~= before.push(rest@.take(b as int)));
            assert(line@.skip(start + next) =~= rest@.skip(next as int));
            assert(before + wrapped_line(rest@, w as nat) =~= text::pieces(out@) + wrapped_line(
                line@.skip(start + next),
                w as nat,
            ));
        }
        start = start + next;
    }
}

proof fn lemma_distance(l: Seq<Seq<char>>, row: nat, col: nat, i: int)
    requires
        0 <= i <= row < l.len(),
    ensures
        distance_from(l, row, col, i) == total_bytes(l, row as int) - total_bytes(l, i) + least(
            col,
            text::byte_len(l[row as int]),
        ),
    decreases row - i,
{
    if i < row {
        lemma_distance(l, row, col, i + 1);
    }
}

/// How many bytes the first `n` lines take, with one for each line end.
pub open spec fn total_bytes(l: Seq<Seq<char>>, n: int) -> nat
    decreases n,
{
    if n <= 0 {
        0
    } else {
        total_bytes(l, n - 1) + text::byte_len(l[n - 1]) + 1
    }
}

/// Computes how far behind the start a place in the lines lies.
fn distance_of(lines: &Vec<String>, row: usize, col: usize) -> (r: u128)
    ensures
        r == distance(text::texts(lines@), row as nat, col as nat),
{
    let ghost l = text::texts(lines@);
    let mut above: u128 = 0;
    let mut i: usize = 0;
    while i < lines.len()
        invariant
            i <= lines@.len(),
            i <= row,
            l == text::texts(lines@),
            above <= i * 0x1_0000_0000_0000_0000,
            distance(l, row as nat, col as nat) == above + distance_from(
                l,
                row as nat,
                col as nat,
                i as int,
            ),
        decreases lines@.len() - i,
    {
        assert(l[i as int] == lines@[i as int]@);
        let n: usize = text::byte_len_of(lines[i].as_str());
        if i == row {
            let along: usize = if col <= n {
                col
            } else {
                n
            };
            return above + along as u128;
        }
        above = above + n as u128 + 1;
        i = i + 1;
    }
    above
}

/// Finds the row and column to which a distance leads.
fn place_for(lines: &Vec<String>, distance: u128) -> (r: (usize, usize))
    ensures
        place_at(text::texts(lines@), distance as nat, 0) == (r.0 as nat, r.1 as nat),
{
    let ghost l = text::texts(lines@);
    let mut left: u128 = distance;
    let mut i: usize = 0;
    while i < lines.len()
        invariant
            i <= lines@.len(),
            l == text::texts(lines@),
            place_at(l, distance as nat, 0) == place_at(l, left as nat, i as int),
        decreases lines@.len() - i,
    {
        assert(l[i as int] == lines@[i as int]@);
        let n: usize = text::byte_len_of(lines[i].as_str());
        if n as u128 >= left {
            return (i, left as usize);
        }
        left = left - n as u128 - 1;
        i = i + 1;
    }
    (i, 0)
}

/// Computes what a hard wrap puts in place of the lines.
pub fn hard_wrap_plan(lines: &Vec<String>, row: usize, col: usize, wrap_width: usize) -> (r: Option<
    (String, usize, usize),
>)
    ensures
        match r {
            Some(p) => hard_wrapped(
                Edited { lines: text::texts(lines@), row: row as nat, col: col as nat },
                wrap_width as nat,
            ) == Some((p.0@, p.1 as nat, p.2 as nat)),
            None => hard_wrapped(
                Edited { lines: text::texts(lines@), row: row as nat, col: col as nat },
                wrap_width as nat,
            ) is None,
        },
{
    if wrap_width == 0 {
        return None;
    }
    let ghost l = text::texts(lines@);
    let ghost w = wrap_width as nat;
    let mut long = false;
    let mut wrapped: Vec<Vec<char>> = Vec::new();
    let mut i: usize = 0;
    assert(text::pieces(wrapped@) =~= seq![]);
    while i < lines.len()
        invariant
            i <= lines@.len(),
            l == text::texts(lines@),
            w == wrap_width,
            long == exists|j: int| 0 <= j < i && text::byte_len(#[trigger] l[j]) > w,
            text::pieces(wrapped@) == wrapped_lines(l, w, i as int),
        decreases lines@.len() - i,
    {
        assert(l[i as int] == lines@[i as int]@);
        let line = text::chars_of(lines[i].as_str());
        if text::chars_within_of(line.as_slice(), wrap_width) == line.len() {
            let ghost before = wrapped@;
            wrapped.push(line);
            assert(text::pieces(wrapped@) =~= text::pieces(before).push(l[i as int]));
        } else {
            long = true;
            wrap_line(line.as_slice(), wrap_width, &mut wrapped);
            assert(text::byte_len(l[i as int]) > w);
        }
        i = i + 1;
    }
    if !long {
        return None;
    }
    let new_lines = text::strings_of(&wrapped);
    let (new_row, new_col) = place_for(&new_lines, distance_of(lines, row, col));
    Some((text::join_strings(&new_lines, "\n"), new_row, new_col))
}

/// Wraps the lines of a field to a width, with breaks that are part of the text.
pub fn auto_wrap_textarea(t: &mut TextField, wrap_width: usize)
    ensures
        hard_wrapped_to(*old(t), *final(t), wrap_width as nat),
{
    let lines = t.copy_lines();
    let (row, col) = t.place();
    match hard_wrap_plan(&lines, row, col, wrap_width) {
        Some((new_text, new_row, new_col)) => {
            t.refill(new_text.as_str(), new_row, new_col);
        },
        None => {},
    }
}

/// Whether a field is wrapped for good at a width; where every line fits it stays as
/// it is.
pub open spec fn hard_wrapped_to(before: TextField, after: TextField, w: nat) -> bool {
    match hard_wrapped(before.text(), w) {
        None => after == before,
        Some((s, row, col)) => after.unselected() && after.text() == refilled(
            before.text(),
            s,
            row,
            col,
        ),
    }
}

/// Whether a field is wrapped for show at a width; where that is zero it stays as it
/// is.
pub open spec fn soft_wrapped_to(before: TextField, after: TextField, w: nat) -> bool {
    if w == 0 {
        after == before
    } else {
        match soft_wrapped(before.text(), w) {
            None => after == before,
            Some((s, row, col)) => after.unselected() && after.text() == refilled(
                before.text(),
                s,
                row,
                col,
            ),
        }
    }
}

/// Wraps a field for show.
pub fn soft_wrap(t: &mut TextField, wrap_width: usize)
    ensures
        soft_wrapped_to(*old(t), *final(t), wrap_width as nat),
{
    if wrap_width > 0 {
        soft_wrap_textarea(t, wrap_width);
    }
}

/// Whether a text was put in at the cursor, in place of what was selected.
pub open spec fn pasted(before: TextField, after: TextField, s: Seq<char>) -> bool {
    after.marked() == before.marked().typed(insert_pieces(s))
}

/// Inserting nothing into an empty field leaves it empty.
proof fn filled_with_nothing()
    ensures
        filled_with(seq![]) == (Edited { lines: seq![Seq::<char>::empty()], row: 0, col: 0 }),
{
    let e = Seq::<char>::empty();
    assert(e.subrange(0, 0) =~= e);
    assert(text::split(e, '\n') =~= seq![e]);
    assert(text::split(seq![], '\n') =~= seq![e]);
    assert(insert_pieces(seq![]) =~= seq![e]);
    let t = Edited { lines: seq![e], row: 0, col: 0 };
    assert(e.take(0) + e + e.skip(0) =~= e);
    assert(t.lines.update(0, e) =~= t.lines);
}

/// A text as it was inserted into an empty field.
pub open spec fn filled_with(s: Seq<char>) -> Edited {
    (Edited { lines: seq![Seq::<char>::empty()], row: 0, col: 0 }).inserted(insert_pieces(s))
}

// ---------------------------------------------------------------------------
// Laws
// ---------------------------------------------------------------------------

proof fn lemma_chunks_from(s: Seq<char>, w: nat, i: int)
    requires
        w > 0,
        0 <= i <= s.len(),
    ensures
        text::concat(chunks_from(s, w, i)) == s.subrange(i, s.len() as int),
        laid_out(chunks_from(s, w, i), w),
        i < s.len() ==> chunks_from(s, w, i).len() > 0,
        forall|a: int, b: int|
            #![trigger chunks_from(s, w, i)[a][b]]
            0 <= a < chunks_from(s, w, i).len() && 0 <= b < chunks_from(s, w, i)[a].len()
                ==> s.contains(chunks_from(s, w, i)[a][b]),
    decreases s.len() - i,
{
    let c = chunks_from(s, w, i);
    if i == s.len() {
        assert(s.subrange(i, i) =~= seq![]);
    } else if s.len() - i <= w {
        text::lemma_concat_one(s.subrange(i, s.len() as int));
        assert forall|a: int, b: int|
            #![trigger c[a][b]]
            0 <= a < c.len() && 0 <= b < c[a].len() implies s.contains(c[a][b]) by {
            assert(c[a][b] == s[i + b]);
        }
    } else {
        lemma_chunks_from(s, w, i + w);
        let head = s.subrange(i, i + w);
        let rest = chunks_from(s, w, i + w);
        text::lemma_concat_add(seq![head], rest);
        text::lemma_concat_one(head);
        assert(head + s.subrange(i + w, s.len() as int) =~= s.subrange(i, s.len() as int));
        assert forall|k: int| 0 <= k < c.len() implies if k < c.len() - 1 {
            (#[trigger] c[k]).len() == w
        } else {
            c[k].len() <= w
        } by {
            if k > 0 {
                assert(c[k] == rest[k - 1]);
            }
        }
        assert forall|a: int, b: int|
            #![trigger c[a][b]]
            0 <= a < c.len() && 0 <= b < c[a].len() implies s.contains(c[a][b]) by {
            if a == 0 {
                assert(c[a][b] == s[i + b]);
            } else {
                assert(c[a] == rest[a - 1]);
                assert(s.contains(rest[a - 1][b]));
            }
        }
    }
}

/// Wrapping softly loses nothing: the new lines joined are the text, all but the
/// last are as wide as the field, and the last is no wider.
pub proof fn soft_wrap_keeps_the_text(s: Seq<char>, w: nat)
    requires
        w > 0,
    ensures
        text::concat(chunks(s, w)) == s,
        laid_out(chunks(s, w), w),
{
    lemma_chunks_from(s, w, 0);
    assert(s.subrange(0, s.len() as int) =~= s);
}

proof fn lemma_downs(t: Edited, n: nat)
    requires
        t.col == 0,
        t.row + n < t.lines.len(),
    ensures
        t.moved_times(Motion::Down, n) == (Edited { row: t.row + n, ..t }),
    decreases n,
{
    if n > 0 {
        lemma_downs(t, (n - 1) as nat);
    }
}

proof fn lemma_forwards(t: Edited, n: nat)
    requires
        t.row < t.lines.len(),
        t.col + n <= t.lines[t.row as int].len(),
    ensures
        t.moved_times(Motion::Forward, n) == (Edited { col: t.col + n, ..t }),
    decreases n,
{
    if n > 0 {
        lemma_forwards(t, (n - 1) as nat);
    }
}

/// Whether lines can be put into a field one by one: none holds a line feed, or ends
/// in a carriage return, which would be dropped.
pub open spec fn insertable(l: Seq<Seq<char>>) -> bool {
    &&& l.len() > 0
    &&& forall|i: int| 0 <= i < l.len() ==> !(#[trigger] l[i]).contains('\n')
    &&& forall|i: int|
        0 <= i < l.len() ==> (#[trigger] l[i]).len() > 0 ==> l[i].last() != '\r'
}

/// Whether a jump to the end crosses all lines of a text.
pub open spec fn crossable(t: Edited) -> bool {
    0 < t.lines.len() <= 0x10000 && t.lines.last().len() <= 0xffff
}

/// Putting lines in place of the whole text gives those lines, with the cursor where
/// it was aimed at. This holds of fields that a jump can cross.
pub proof fn refilling_gives_the_lines(t: Edited, l: Seq<Seq<char>>, row: nat, col: nat)
    requires
        crossable(t),
        insertable(l),
        row < l.len(),
        col <= l[row as int].len(),
    ensures
        refilled(t, text::join(l, "\n"@), row, col) == (Edited { lines: l, row, col }),
{
    let s = text::join(l, "\n"@);
    reveal_strlit("\n");
    assert("\n"@ =~= seq!['\n']);
    assert forall|a: int, b: int|
        #![trigger l[a][b]]
        0 <= a < l.len() && 0 <= b < l[a].len() implies l[a][b] != '\n' by {
        assert(l[a].contains(l[a][b]));
    }
    text::split_undoes_join(l, '\n');
    let p = insert_pieces(s);
    assert(p =~= l);
    let end = t.at_end();
    assert(end.row == t.lines.len() - 1);
    assert(end.col == t.lines.last().len());
    let cut = end.start_cut();
    assert(t.lines.last().skip(end.col as int) =~= seq![]);
    assert(cut.lines =~= seq![Seq::<char>::empty()]);
    let filled = cut.inserted(p);
    assert(cut.lines[0].take(0) =~= seq![]);
    assert(cut.lines[0].skip(0) =~= seq![]);
    if l.len() == 1 {
        assert(Seq::<char>::empty() + l[0] + Seq::<char>::empty() =~= l[0]);
    } else {
        assert(Seq::<char>::empty() + l[0] =~= l[0]);
        assert(l[l.len() - 1] + Seq::<char>::empty() =~= l[l.len() - 1]);
    }
    assert(filled.lines =~= l);
    let home = filled.moved(Motion::Top).moved(Motion::Head);
    lemma_downs(home, row);
    lemma_forwards(home.moved_times(Motion::Down, row), col);
}

proof fn lemma_chunk_start(s: Seq<char>, w: nat, i: int, k: int)
    requires
        w > 0,
        0 <= i <= s.len(),
        0 <= k < chunks_from(s, w, i).len(),
    ensures
        i + k * w < s.len(),
        chunks_from(s, w, i)[k] == s.subrange(
            i + k * w,
            if i + (k + 1) * w <= s.len() {
                i + (k + 1) * w
            } else {
                s.len() as int
            },
        ),
        k < chunks_from(s, w, i).len() - 1 ==> i + (k + 1) * w < s.len(),
        k == chunks_from(s, w, i).len() - 1 ==> i + (k + 1) * w >= s.len(),
    decreases s.len() - i,
{
    assert(k * w + w == (k + 1) * w) by (nonlinear_arith);
    if s.len() - i <= w {
        assert(0 * w == 0);
    } else if k == 0 {
        lemma_chunks_from(s, w, i + w);
        assert(0 * w == 0);
    } else {
        lemma_chunk_start(s, w, i + w, k - 1);
        assert((k - 1) * w + w == k * w) by (nonlinear_arith);
        assert(chunks_from(s, w, i)[k] == chunks_from(s, w, i + w)[k - 1]);
    }
}

proof fn lemma_offset_in_laid_out(l: Seq<Seq<char>>, w: nat, row: nat, col: nat, i: int)
    requires
        laid_out(l, w),
        0 <= i <= row < l.len(),
        col <= l[row as int].len(),
    ensures
        offset_from(l, row, col, i) == (row - i) * w + col,
    decreases row - i,
{
    if i < row {
        lemma_offset_in_laid_out(l, w, row, col, i + 1);
        assert((row - i - 1) * w + w == (row - i) * w) by (nonlinear_arith);
    } else {
        assert(0 * w == 0);
    }
}

proof fn lemma_chunk_place(s: Seq<char>, w: nat, at: nat)
    requires
        w > 0,
        0 < s.len(),
        at <= s.len(),
    ensures
        ({
            let p = chunk_place(at, s.len(), w);
            &&& p.0 < chunks(s, w).len()
            &&& p.1 <= chunks(s, w)[p.0 as int].len()
            &&& offset(chunks(s, w), p.0, p.1) == at
        }),
{
    let c = chunks(s, w);
    let p = chunk_place(at, s.len(), w);
    let row = p.0 as int;
    let last = c.len() - 1;
    lemma_chunks_from(s, w, 0);
    lemma_chunk_start(s, w, 0, last);
    let q = (at / w) as int;
    assert(at == q * w + at % w && at % w < w && q >= 0) by (nonlinear_arith)
        requires
            w > 0,
            q == at / w,
    ;
    if at == s.len() && at % w == 0 {
        assert(q >= 1) by (nonlinear_arith)
            requires
                q * w > 0,
                w > 0,
                q >= 0,
        ;
        assert((q - 1) * w + w == q * w) by (nonlinear_arith);
    }
    assert(row * w + p.1 == at);
    assert(row * w < s.len());
    assert(row <= last) by (nonlinear_arith)
        requires
            row * w < s.len(),
            (last + 1) * w >= s.len(),
            w > 0,
    ;
    lemma_chunk_start(s, w, 0, row);
    assert((row + 1) * w == row * w + w) by (nonlinear_arith);
    lemma_offset_in_laid_out(c, w, p.0, p.1, 0);
    assert((row - 0) * w == row * w);
}

/// A soft wrap loses nothing: the field's lines become the text cut at the width,
/// so what it hands out on submit is what was typed; the cursor stays behind as many
/// characters as before, and a second wrap changes nothing. This holds of text
/// without line feeds in which no line comes to end in a carriage return, in fields
/// that a jump can cross.
pub proof fn soft_wrap_round_trips(t: Edited, w: nat)
    requires
        w > 0,
        crossable(t),
        insertable(chunks(text::concat(t.lines), w)),
    ensures
        match soft_wrapped(t, w) {
            None => true,
            Some((s, row, col)) => {
                let after = refilled(t, s, row, col);
                &&& after.lines == chunks(text::concat(t.lines), w)
                &&& text::join(after.lines, seq![]) == text::join(t.lines, seq![])
                &&& offset(after.lines, after.row, after.col) == offset(t.lines, t.row, t.col)
                &&& soft_wrapped(after, w) is None
            },
        },
{
    let raw = text::concat(t.lines);
    if soft_wrapped(t, w) is Some {
        let c = chunks(raw, w);
        let at = offset(t.lines, t.row, t.col);
        let place = chunk_place(at, raw.len(), w);
        lemma_chunks_from(raw, w, 0);
        assert(raw.subrange(0, raw.len() as int) =~= raw);
        lemma_offset_bound(t.lines, t.row, t.col, 0);
        assert(t.lines.skip(0) =~= t.lines);
        lemma_chunk_place(raw, w, at);
        refilling_gives_the_lines(t, c, place.0, place.1);
        lemma_join_nothing(c);
        lemma_join_nothing(t.lines);
    }
}

/// Whether a line takes at most `w` bytes, or is a single character that takes more.
pub open spec fn fits(s: Seq<char>, w: nat) -> bool {
    text::byte_len(s) <= w || (s.len() == 1 && text::utf8_width(s[0]) > w)
}

proof fn lemma_wrapped_line_fits(s: Seq<char>, w: nat)
    requires
        w > 0,
    ensures
        forall|i: int|
            0 <= i < wrapped_line(s, w).len() ==> fits(#[trigger] wrapped_line(s, w)[i], w)
                && wrapped_line(s, w)[i].len() <= w,
    decreases s.len(),
{
    if text::byte_len(s) > w {
        lemma_cut_at(s, w);
        text::lemma_chars_within(s, w as int);
        let b = cut_at(s, w);
        let fit = text::chars_within(s, w as int);
        let piece = s.take(b);
        if fit > 0 {
            lemma_break_at(s, fit, fit);
            text::lemma_byte_len_grows(s.take(fit), b);
            assert(s.take(fit).take(b) =~= piece);
        } else {
            text::lemma_byte_len_first(piece);
            assert(s.take(1) =~= piece);
            assert(piece.skip(1) =~= seq![]);
        }
        lemma_len_in_bytes(piece);
        let rest = behind_cut(s, w);
        lemma_wrapped_line_fits(rest, w);
        let l = wrapped_line(s, w);
        let r = wrapped_line(rest, w);
        assert forall|i: int| 0 <= i < l.len() implies fits(#[trigger] l[i], w) && l[i].len()
            <= w by {
            if i > 0 {
                assert(l[i] == r[i - 1]);
            }
        }
    } else {
        lemma_len_in_bytes(s);
    }
}

proof fn lemma_len_in_bytes(s: Seq<char>)
    ensures
        s.len() <= text::byte_len(s),
    decreases s.len(),
{
    if s.len() > 0 {
        lemma_len_in_bytes(s.drop_last());
    }
}

/// After a hard wrap no line has more characters than the width, and none takes more
/// bytes, but for a single character that is wider itself.
pub proof fn hard_wrap_fits(l: Seq<Seq<char>>, w: nat, n: int)
    requires
        w > 0,
        0 <= n <= l.len(),
    ensures
        forall|i: int|
            0 <= i < wrapped_lines(l, w, n).len() ==> fits(#[trigger] wrapped_lines(l, w, n)[i], w)
                && wrapped_lines(l, w, n)[i].len() <= w,
    decreases n,
{
    if n > 0 {
        hard_wrap_fits(l, w, n - 1);
        lemma_wrapped_line_fits(l[n - 1], w);
        lemma_len_in_bytes(l[n - 1]);
        let before = wrapped_lines(l, w, n - 1);
        let all = wrapped_lines(l, w, n);
        assert forall|i: int| 0 <= i < all.len() implies fits(#[trigger] all[i], w) && all[i].len()
            <= w by {
            if i < before.len() {
                assert(all[i] == before[i]);
            } else if text::byte_len(l[n - 1]) > w {
                assert(all[i] == wrapped_line(l[n - 1], w)[i - before.len()]);
            }
        }
    }
}

/// What is left of a text without its white space.
pub open spec fn ink(s: Seq<char>) -> Seq<char>
    decreases s.len(),
{
    if s.len() == 0 {
        seq![]
    } else if text::is_space(s[0]) {
        ink(s.skip(1))
    } else {
        seq![s[0]] + ink(s.skip(1))
    }
}

proof fn lemma_ink_add(a: Seq<char>, b: Seq<char>)
    ensures
        ink(a + b) == ink(a) + ink(b),
    decreases a.len(),
{
    if a.len() == 0 {
        assert(a + b =~= b);
        assert(ink(a) + ink(b) =~= ink(b));
    } else {
        lemma_ink_add(a.skip(1), b);
        assert((a + b).skip(1) =~= a.skip(1) + b);
        assert(ink(a + b) =~= ink(a) + ink(b));
    }
}

proof fn lemma_ink_trim_start(s: Seq<char>)
    ensures
        ink(text::trim_start(s)) == ink(s),
    decreases s.len(),
{
    if s.len() > 0 && text::is_space(s[0]) {
        lemma_ink_trim_start(s.skip(1));
    }
}

proof fn lemma_wrapped_line_ink(s: Seq<char>, w: nat)
    requires
        w > 0,
    ensures
        ink(text::concat(wrapped_line(s, w))) == ink(s),
    decreases s.len(),
{
    if text::byte_len(s) <= w {
        if s.len() > 0 {
            text::lemma_concat_one(s);
        }
    } else {
        lemma_cut_at(s, w);
        let b = cut_at(s, w);
        let rest = behind_cut(s, w);
        lemma_wrapped_line_ink(rest, w);
        lemma_ink_trim_start(s.skip(b));
        text::lemma_concat_add(seq![s.take(b)], wrapped_line(rest, w));
        text::lemma_concat_one(s.take(b));
        lemma_ink_add(s.take(b), text::concat(wrapped_line(rest, w)));
        lemma_ink_add(s.take(b), s.skip(b));
        assert(s.take(b) + s.skip(b) =~= s);
    }
}

/// A hard wrap changes white space only: all other characters of the lines stay, in
/// their order.
pub proof fn hard_wrap_keeps_the_characters(l: Seq<Seq<char>>, w: nat)
    requires
        w > 0,
    ensures
        ink(text::join(wrapped_lines(l, w, l.len() as int), "\n"@)) == ink(text::join(l, "\n"@)),
{
    lemma_wrapped_lines_ink(l, w, l.len() as int);
    assert(l.take(l.len() as int) =~= l);
    lemma_ink_join(wrapped_lines(l, w, l.len() as int));
    lemma_ink_join(l);
}

proof fn lemma_wrapped_lines_ink(l: Seq<Seq<char>>, w: nat, n: int)
    requires
        w > 0,
        0 <= n <= l.len(),
    ensures
        ink(text::concat(wrapped_lines(l, w, n))) == ink(text::concat(l.take(n))),
    decreases n,
{
    if n > 0 {
        lemma_wrapped_lines_ink(l, w, n - 1);
        lemma_wrapped_line_ink(l[n - 1], w);
        let before = wrapped_lines(l, w, n - 1);
        assert(l.take(n).drop_last() =~= l.take(n - 1));
        lemma_ink_add(text::concat(l.take(n - 1)), l[n - 1]);
        if text::byte_len(l[n - 1]) <= w {
            assert(before.push(l[n - 1]).drop_last() =~= before);
            lemma_ink_add(text::concat(before), l[n - 1]);
        } else {
            text::lemma_concat_add(before, wrapped_line(l[n - 1], w));
            lemma_ink_add(text::concat(before), text::concat(wrapped_line(l[n - 1], w)));
        }
    }
}

/// The text before a place in the lines, without the line ends.
pub open spec fn text_before(l: Seq<Seq<char>>, row: nat, col: nat) -> Seq<char> {
    text::concat(l.take(row as int)) + l[row as int].take(col as int)
}

proof fn lemma_place_at(l: Seq<Seq<char>>, left: nat, i: int)
    requires
        0 <= i <= l.len(),
    ensures
        ({
            let p = place_at(l, left, i);
            &&& i <= p.0 <= l.len()
            &&& p.0 < l.len() ==> p.1 <= text::byte_len(l[p.0 as int]) && total_bytes(
                l,
                p.0 as int,
            ) + p.1 == total_bytes(l, i) + left
            &&& p.0 == l.len() ==> p.1 == 0 && (i < l.len() ==> total_bytes(l, i) + left
                >= total_bytes(l, l.len() as int))
        }),
    decreases l.len() - i,
{
    if i < l.len() && text::byte_len(l[i]) < left {
        lemma_place_at(l, (left - text::byte_len(l[i]) - 1) as nat, i + 1);
    }
}

proof fn lemma_total_bytes_grows(l: Seq<Seq<char>>, i: int, n: int)
    requires
        0 <= i < n <= l.len(),
    ensures
        total_bytes(l, i) + text::byte_len(l[i]) + 1 <= total_bytes(l, n),
    decreases n - i,
{
    if i < n - 1 {
        lemma_total_bytes_grows(l, i, n - 1);
    }
}

/// A hard wrap leads the cursor as far behind the start of the new lines as it stood
/// behind that of the old ones, or behind the last line where the new lines do not
/// reach so far.
pub proof fn hard_wrap_keeps_the_distance(t: Edited, w: nat)
    requires
        t.row < t.lines.len(),
    ensures
        ({
            let new = wrapped_lines(t.lines, w, t.lines.len() as int);
            let p = place_after_wrap(t, w);
            let d = distance(t.lines, t.row, t.col);
            if d < total_bytes(new, new.len() as int) {
                &&& p.0 < new.len()
                &&& p.1 <= text::byte_len(new[p.0 as int])
                &&& distance(new, p.0, p.1) == d
            } else {
                p == (new.len(), 0nat)
            }
        }),
{
    let new = wrapped_lines(t.lines, w, t.lines.len() as int);
    let p = place_after_wrap(t, w);
    let d = distance(t.lines, t.row, t.col);
    lemma_place_at(new, d, 0);
    if p.0 < new.len() {
        lemma_distance(new, p.0, p.1, 0);
        lemma_total_bytes_grows(new, p.0 as int, new.len() as int);
    }
}

proof fn lemma_place_shift(a: Seq<Seq<char>>, m: Seq<Seq<char>>, left: nat, j: int)
    requires
        0 <= j <= m.len(),
    ensures
        place_at(a + m, left, a.len() + j) == ({
            let q = place_at(m, left, j);
            ((a.len() + q.0) as nat, q.1)
        }),
    decreases m.len() - j,
{
    if j < m.len() {
        assert((a + m)[a.len() + j] == m[j]);
        if text::byte_len(m[j]) < left {
            lemma_place_shift(a, m, (left - text::byte_len(m[j]) - 1) as nat, j + 1);
        }
    }
}

proof fn lemma_place_behind(a: Seq<Seq<char>>, m: Seq<Seq<char>>, left: nat, i: int)
    requires
        0 <= i <= a.len(),
    ensures
        place_at(
            a + m,
            (total_bytes(a, a.len() as int) - total_bytes(a, i) + left) as nat,
            i,
        ) == place_at(a + m, left, a.len() as int),
        total_bytes(a, i) <= total_bytes(a, a.len() as int),
    decreases a.len() - i,
{
    if i < a.len() {
        lemma_place_behind(a, m, left, i + 1);
        assert((a + m)[i] == a[i]);
    }
}

proof fn lemma_place_before(m: Seq<Seq<char>>, b: Seq<Seq<char>>, left: nat, i: int)
    requires
        0 <= i <= m.len(),
        place_at(m, left, i).0 < m.len(),
    ensures
        place_at(m + b, left, i) == place_at(m, left, i),
    decreases m.len() - i,
{
    if i < m.len() {
        assert((m + b)[i] == m[i]);
        if text::byte_len(m[i]) < left {
            lemma_place_before(m, b, (left - text::byte_len(m[i]) - 1) as nat, i + 1);
        }
    }
}

proof fn lemma_total_bytes_add(a: Seq<Seq<char>>, m: Seq<Seq<char>>, n: int)
    requires
        0 <= n <= m.len(),
    ensures
        total_bytes(a + m, a.len() + n) == total_bytes(a, a.len() as int) + total_bytes(m, n),
    decreases n,
{
    if n > 0 {
        lemma_total_bytes_add(a, m, n - 1);
        assert((a + m)[a.len() + n - 1] == m[n - 1]);
    } else {
        lemma_total_bytes_start(a, m, a.len() as int);
    }
}

proof fn lemma_total_bytes_start(a: Seq<Seq<char>>, m: Seq<Seq<char>>, n: int)
    requires
        0 <= n <= a.len(),
    ensures
        total_bytes(a + m, n) == total_bytes(a, n),
    decreases n,
{
    if n > 0 {
        lemma_total_bytes_start(a, m, n - 1);
        assert((a + m)[n - 1] == a[n - 1]);
    }
}

/// Whether each character of a text takes one byte.
pub open spec fn narrow(s: Seq<char>) -> bool {
    forall|i: int| 0 <= i < s.len() ==> text::utf8_width(#[trigger] s[i]) == 1
}

proof fn lemma_narrow(s: Seq<char>)
    requires
        narrow(s),
    ensures
        text::byte_len(s) == s.len(),
    decreases s.len(),
{
    if s.len() > 0 {
        assert(narrow(s.drop_last()));
        lemma_narrow(s.drop_last());
    }
}

/// Whether each cut of a line that lies before a column leaves out one space and has
/// something behind it.
pub open spec fn evenly_cut(s: Seq<char>, w: nat, col: nat) -> bool
    decreases s.len(),
{
    if text::byte_len(s) <= w || col <= cut_at(s, w) {
        true
    } else {
        proof {
            lemma_cut_at(s, w);
        }
        &&& 0 < behind_cut(s, w).len() == s.len() - cut_at(s, w) - 1
        &&& evenly_cut(behind_cut(s, w), w, (col - cut_at(s, w) - 1) as nat)
    }
}

proof fn lemma_even_line(s: Seq<char>, w: nat, col: nat)
    requires
        w > 0,
        text::byte_len(s) > w,
        col <= s.len(),
        narrow(s),
        evenly_cut(s, w, col),
    ensures
        ({
            let l = wrapped_line(s, w);
            let p = place_at(l, col, 0);
            &&& p.0 < l.len()
            &&& p.1 <= l[p.0 as int].len()
            &&& ink(text_before(l, p.0, p.1)) == ink(s.take(col as int))
            &&& col == s.len() ==> total_bytes(l, l.len() as int) == s.len() + 1
        }),
    decreases s.len(),
{
    lemma_cut_at(s, w);
    lemma_narrow(s);
    let b = cut_at(s, w);
    let l = wrapped_line(s, w);
    let p = place_at(l, col, 0);
    let piece = s.take(b);
    assert(narrow(piece));
    lemma_narrow(piece);
    assert(b < s.len()) by {
        let fit = text::chars_within(s, w as int);
        text::lemma_chars_within(s, w as int);
        assert(narrow(s.take(fit)));
        lemma_narrow(s.take(fit));
        let k = if fit > 0 {
            fit
        } else {
            1
        };
        lemma_break_at(s, k, k);
    }
    assert(l[0] == piece);
    if col <= b {
        assert(l.take(0) =~= seq![]);
        assert(text_before(l, 0, col) =~= s.take(col as int));
    } else {
        let rest = behind_cut(s, w);
        let m = wrapped_line(rest, w);
        let left = (col - b - 1) as nat;
        let q = place_at(m, left, 0);
        lemma_trim_start_suffix(s.skip(b));
        assert(rest =~= s.skip(b + 1));
        assert(text::is_space(s[b])) by {
            if !text::is_space(s.skip(b)[0]) {
                assert(text::trim_start(s.skip(b)) =~= s.skip(b));
            }
        }
        assert(narrow(rest));
        lemma_narrow(rest);
        if text::byte_len(rest) > w {
            lemma_even_line(rest, w, left);
        } else {
            assert(m =~= seq![rest]);
            assert(m.take(0) =~= seq![]);
            assert(q == (0nat, left));
            assert(text_before(m, 0, left) =~= rest.take(left as int));
            lemma_total_of_one(rest);
        }
        assert(l =~= seq![piece] + m);
        lemma_total_of_one(piece);
        lemma_place_behind(seq![piece], m, left, 0);
        lemma_place_shift(seq![piece], m, left, 0);
        assert(p == ((q.0 + 1) as nat, q.1));
        lemma_total_bytes_add(seq![piece], m, m.len() as int);
        assert(l[p.0 as int] == m[q.0 as int]);
        assert(l.take(p.0 as int) =~= seq![piece] + m.take(q.0 as int));
        text::lemma_concat_add(seq![piece], m.take(q.0 as int));
        text::lemma_concat_one(piece);
        assert(text_before(l, p.0, p.1) =~= piece + text_before(m, q.0, q.1));
        assert(s.take(col as int) =~= piece + seq![s[b]] + rest.take(left as int));
        lemma_ink_over_space(piece, s[b], rest.take(left as int), text_before(m, q.0, q.1));
    }
}

proof fn lemma_total_of_one(s: Seq<char>)
    ensures
        total_bytes(seq![s], 1) == text::byte_len(s) + 1,
{
    reveal_with_fuel(total_bytes, 2);
}

proof fn lemma_ink_over_space(a: Seq<char>, space: char, b: Seq<char>, c: Seq<char>)
    requires
        text::is_space(space),
        ink(b) == ink(c),
    ensures
        ink(a + seq![space] + b) == ink(a + c),
{
    let gap = seq![space];
    lemma_ink_add(a + gap, b);
    lemma_ink_add(a, gap);
    lemma_ink_add(a, c);
    assert(ink(gap) =~= seq![]) by {
        assert(gap.skip(1) =~= seq![]);
        reveal_with_fuel(ink, 2);
    }
    assert(ink(a) + Seq::<char>::empty() =~= ink(a));
}

proof fn lemma_even_lines(l: Seq<Seq<char>>, w: nat, n: int)
    requires
        w > 0,
        0 <= n <= l.len(),
        forall|i: int| 0 <= i < n ==> narrow(#[trigger] l[i]) && evenly_cut(l[i], w, l[i].len()),
    ensures
        total_bytes(wrapped_lines(l, w, n), wrapped_lines(l, w, n).len() as int) == total_bytes(
            l,
            n,
        ),
    decreases n,
{
    if n > 0 {
        lemma_even_lines(l, w, n - 1);
        let s = l[n - 1];
        let above = wrapped_lines(l, w, n - 1);
        assert(narrow(s));
        lemma_narrow(s);
        let part = if text::byte_len(s) > w {
            lemma_even_line(s, w, s.len());
            wrapped_line(s, w)
        } else {
            lemma_total_of_one(s);
            seq![s]
        };
        assert(wrapped_lines(l, w, n) =~= above + part);
        lemma_total_bytes_add(above, part, part.len() as int);
    }
}

proof fn lemma_wrapped_lines_start(l: Seq<Seq<char>>, w: nat, i: int, n: int)
    requires
        0 <= i <= n <= l.len(),
    ensures
        wrapped_lines(l, w, i).len() <= wrapped_lines(l, w, n).len(),
        wrapped_lines(l, w, n).take(wrapped_lines(l, w, i).len() as int) == wrapped_lines(l, w, i),
    decreases n - i,
{
    if i < n {
        lemma_wrapped_lines_start(l, w, i, n - 1);
        assert(wrapped_lines(l, w, n).take(wrapped_lines(l, w, i).len() as int)
            =~= wrapped_lines(l, w, n - 1).take(wrapped_lines(l, w, i).len() as int));
    } else {
        let all = wrapped_lines(l, w, n);
        assert(all.take(all.len() as int) =~= all);
    }
}

/// A hard wrap that only puts breaks in place of spaces, up to the cursor, keeps the
/// cursor at its character: the place it is led to lies in the new lines, and the same
/// characters stand before it, white space aside. This holds of characters of one
/// byte.
pub proof fn hard_wrap_keeps_the_cursor(t: Edited, w: nat)
    requires
        w > 0,
        t.row < t.lines.len(),
        t.col <= t.lines[t.row as int].len(),
        forall|i: int| 0 <= i <= t.row ==> narrow(#[trigger] t.lines[i]),
        forall|i: int|
            0 <= i < t.row ==> evenly_cut(#[trigger] t.lines[i], w, t.lines[i].len()),
        evenly_cut(t.lines[t.row as int], w, t.col),
    ensures
        ({
            let new = wrapped_lines(t.lines, w, t.lines.len() as int);
            let p = place_after_wrap(t, w);
            &&& p.0 < new.len()
            &&& p.1 <= new[p.0 as int].len()
            &&& ink(text_before(new, p.0, p.1)) == ink(text_before(t.lines, t.row, t.col))
        }),
{
    let l = t.lines;
    let row = t.row as int;
    let line = l[row];
    let above = wrapped_lines(l, w, row);
    let upto = wrapped_lines(l, w, row + 1);
    let new = wrapped_lines(l, w, l.len() as int);
    let p = place_after_wrap(t, w);
    lemma_wrapped_lines_start(l, w, row + 1, l.len() as int);
    lemma_wrapped_lines_ink(l, w, row);
    lemma_even_lines(l, w, row);
    assert(narrow(line));
    lemma_narrow(line);
    let part = if text::byte_len(line) > w {
        lemma_even_line(line, w, t.col);
        wrapped_line(line, w)
    } else {
        assert(seq![line].take(0) =~= seq![]);
        assert(text_before(seq![line], 0, t.col) =~= line.take(t.col as int));
        seq![line]
    };
    let q = place_at(part, t.col, 0);
    assert(upto =~= above + part);
    let tail = new.skip(upto.len() as int);
    assert(new =~= upto + tail);
    assert(new =~= above + (part + tail));
    lemma_distance(l, t.row, t.col, 0);
    lemma_place_behind(above, part + tail, t.col, 0);
    lemma_place_shift(above, part + tail, t.col, 0);
    lemma_place_before(part, tail, t.col, 0);
    assert(p == ((above.len() + q.0) as nat, q.1));
    assert(new[p.0 as int] == part[q.0 as int]);
    assert(new.take(p.0 as int) =~= above + part.take(q.0 as int));
    text::lemma_concat_add(above, part.take(q.0 as int));
    assert(text_before(new, p.0, p.1) =~= text::concat(above) + text_before(part, q.0, q.1));
    lemma_ink_add(text::concat(above), text_before(part, q.0, q.1));
    lemma_ink_add(text::concat(l.take(row)), line.take(t.col as int));
}

proof fn lemma_downs_stop(t: Edited, n: nat)
    requires
        t.col == 0,
        t.row < t.lines.len() <= t.row + n,
    ensures
        t.moved_times(Motion::Down, n) == (Edited { row: (t.lines.len() - 1) as nat, ..t }),
    decreases n,
{
    if n > 0 {
        if t.row + n - 1 < t.lines.len() {
            lemma_downs(t, (n - 1) as nat);
        } else {
            lemma_downs_stop(t, (n - 1) as nat);
        }
    }
}

proof fn lemma_moves_keep_lines(t: Edited, m: Motion, n: nat)
    ensures
        t.moved_times(m, n).lines == t.lines,
    decreases n,
{
    if n > 0 {
        lemma_moves_keep_lines(t, m, (n - 1) as nat);
    }
}

/// A hard wrap of a field gives the wrapped lines. The cursor stands where it is led to
/// or, where that is behind the last line, at the head of that line. This holds of
/// lines without line feeds, none of which comes to end in a carriage return, in
/// fields that a jump can cross.
pub proof fn hard_wrap_gives_the_lines(t: Edited, w: nat)
    requires
        crossable(t),
        insertable(wrapped_lines(t.lines, w, t.lines.len() as int)),
    ensures
        match hard_wrapped(t, w) {
            None => true,
            Some((s, row, col)) => {
                let new = wrapped_lines(t.lines, w, t.lines.len() as int);
                let after = refilled(t, s, row, col);
                &&& after.lines == new
                &&& row < new.len() && col <= new[row as int].len() ==> after.row == row
                    && after.col == col
                &&& row >= new.len() ==> after.row == new.len() - 1 && after.col == 0
            },
        },
{
    if let Some((s, row, col)) = hard_wrapped(t, w) {
        let new = wrapped_lines(t.lines, w, t.lines.len() as int);
        refilling_gives_the_lines(t, new, 0, 0);
        let home = refilled(t, s, 0, 0);
        assert(home == (Edited { lines: new, row: 0, col: 0 }));
        lemma_moves_keep_lines(home, Motion::Down, row);
        lemma_moves_keep_lines(home.moved_times(Motion::Down, row), Motion::Forward, col);
        if row < new.len() && col <= new[row as int].len() {
            refilling_gives_the_lines(t, new, row, col);
        }
        if row >= new.len() {
            lemma_place_at(new, distance(t.lines, t.row, t.col), 0);
            lemma_downs_stop(home, row);
        }
    }
}

proof fn lemma_ink_join(l: Seq<Seq<char>>)
    ensures
        ink(text::join(l, "\n"@)) == ink(text::concat(l)),
    decreases l.len(),
{
    reveal_strlit("\n");
    if l.len() == 1 {
        text::lemma_concat_one(l[0]);
        assert(l =~= seq![l[0]]);
    } else if l.len() > 1 {
        lemma_ink_join(l.drop_last());
        lemma_ink_add(text::join(l.drop_last(), "\n"@) + "\n"@, l.last());
        lemma_ink_add(text::join(l.drop_last(), "\n"@), "\n"@);
        lemma_ink_add(text::concat(l.drop_last()), l.last());
        let first = ink(text::join(l.drop_last(), "\n"@));
        assert("\n"@.len() == 1 && text::is_space("\n"@[0]));
        assert(ink("\n"@.skip(1)) =~= Seq::<char>::empty());
        assert(ink("\n"@) =~= Seq::<char>::empty());
        assert(first + ink("\n"@) =~= first);
    }
}

/// Backspace takes back the character or the line end that was typed last; what was
/// selected before stays deleted.
pub proof fn backspace_takes_typing_back(t: Marked, key: KeyEvent, erase: KeyEvent)
    requires
        t.bare().row < t.bare().lines.len(),
        t.bare().col <= t.bare().lines[t.bare().row as int].len(),
        key.code is Char || key.code is Enter,
        !key.modifiers.control && !key.modifiers.alt,
        erase.code is Backspace,
        !erase.modifiers.control && !erase.modifiers.alt,
    ensures
        widget_key(t, key) is Some,
        widget_key(widget_key(t, key)->0, erase) == Some(unmarked(t.bare())),
{
    let b = t.bare();
    let line = b.lines[b.row as int];
    let before = line.take(b.col as int);
    let behind = line.skip(b.col as int);
    assert(before + behind =~= line);
    let broken = seq![Seq::<char>::empty(), Seq::<char>::empty()];
    if key.code is Char && key.code->Char_0 != '\n' && key.code->Char_0 != '\r' {
        let p = seq![seq![key.code->Char_0]];
        let after = b.inserted(p);
        assert(widget_key(t, key) == Some(unmarked(after)));
        assert((before + p[0] + behind).remove(b.col as int) =~= line);
        assert(after.lines.update(b.row as int, line) =~= b.lines);
        assert(widget_key(unmarked(after), erase) == Some(unmarked(after.char_deleted())));
    } else {
        let after = b.inserted(broken);
        assert(widget_key(t, key) == Some(unmarked(after)));
        assert(widget_key(unmarked(after), erase) == Some(unmarked(after.char_deleted())));
        let above = before + broken[0];
        let below = broken[1] + behind;
        assert(above =~= before && below =~= behind);
        assert(broken.subrange(1, 1) =~= Seq::<Seq<char>>::empty());
        assert(after.lines =~= b.lines.take(b.row as int) + seq![before, behind] + b.lines.skip(
            b.row as int + 1,
        ));
        assert(after.lines[b.row as int] == before && after.lines[b.row as int + 1] == behind);
        assert(after.char_deleted().lines =~= b.lines);
    }
}

/// A soft wrap puts new lines exactly where a line but the last is not as wide as the field,
/// or the last is wider.
pub proof fn a_soft_wrap_acts_where_lines_are_off(t: Edited, w: nat)
    requires
        w > 0,
        text::concat(t.lines).len() > 0,
    ensures
        soft_wrapped(t, w) is Some <==> (exists|i: int|
            0 <= i < t.lines.len() && ((#[trigger] t.lines[i]).len() > w || (i + 1 < t.lines.len()
                && t.lines[i].len() < w))),
{
    if forall|i: int|
        0 <= i < t.lines.len() ==> (#[trigger] t.lines[i]).len() <= w && (i + 1 < t.lines.len()
            ==> t.lines[i].len() >= w) {
        assert(laid_out(t.lines, w));
    }
}

/// A line that is too long is cut at the last space behind which it still fits.
pub proof fn a_line_is_cut_at_the_last_space(s: Seq<char>, w: nat, j: int)
    requires
        text::byte_len(s) > w,
        1 <= j < s.len(),
        s[j] == ' ',
        text::byte_len(s.take(j + 1)) <= w,
    ensures
        j <= cut_at(s, w) < s.len(),
        s[cut_at(s, w)] == ' ',
        text::byte_len(s.take(cut_at(s, w) + 1)) <= w,
        wrapped_line(s, w)[0] == s.take(cut_at(s, w)),
{
    text::lemma_chars_within(s, w as int);
    let fit = text::chars_within(s, w as int);
    if fit < j + 1 {
        lemma_bytes_grow(s, fit + 1, j + 1);
    }
    lemma_break_is_last(s, fit, fit, j);
    lemma_bytes_grow(s, cut_at(s, w) + 1, fit);
}

proof fn lemma_bytes_grow(s: Seq<char>, i: int, j: int)
    requires
        0 <= i <= j <= s.len(),
    ensures
        text::byte_len(s.take(i)) <= text::byte_len(s.take(j)),
{
    text::lemma_byte_len_grows(s.take(j), i);
    assert(s.take(j).take(i) =~= s.take(i));
}

proof fn lemma_break_is_last(s: Seq<char>, k: int, i: int, j: int)
    requires
        1 <= j < i <= k <= s.len(),
        s[j] == ' ',
    ensures
        j <= break_at(s, k, i) < i,
        s[break_at(s, k, i)] == ' ',
    decreases i,
{
    if s[i - 1] != ' ' {
        lemma_break_is_last(s, k, i - 1, j);
    }
}

/// A line without a space behind its first character is cut behind the last character that
/// fits.
pub proof fn a_long_word_is_cut_where_it_ends_to_fit(s: Seq<char>, w: nat)
    requires
        text::byte_len(s) > w,
        text::utf8_width(s[0]) <= w,
        forall|j: int| 1 <= j < s.len() ==> #[trigger] s[j] != ' ',
    ensures
        text::byte_len(s.take(cut_at(s, w))) <= w,
        text::byte_len(s.take(cut_at(s, w) + 1)) > w,
        wrapped_line(s, w)[0] == s.take(cut_at(s, w)),
{
    text::lemma_chars_within(s, w as int);
    let fit = text::chars_within(s, w as int);
    text::lemma_chars_within(s.skip(1), w - text::utf8_width(s[0]));
    lemma_no_break(s, fit, fit);
}

proof fn lemma_no_break(s: Seq<char>, k: int, i: int)
    requires
        1 <= k <= s.len(),
        0 <= i <= k,
        forall|j: int| 1 <= j < s.len() ==> #[trigger] s[j] != ' ',
    ensures
        break_at(s, k, i) == k,
    decreases i,
{
    if i > 1 {
        assert(s[i - 1] != ' ');
        lemma_no_break(s, k, i - 1);
    }
}

/// Lines are wrapped one by one: one that fits stays as it is, and one that does not gives
/// way to what stands before its cut and to what follows the spaces behind it, wrapped in
/// turn.
pub proof fn lines_are_wrapped_one_by_one(l: Seq<Seq<char>>, x: Seq<char>, w: nat)
    requires
        w > 0,
    ensures
        ({
            let all = wrapped_lines(l.push(x), w, l.len() as int + 1);
            let before = wrapped_lines(l, w, l.len() as int);
            &&& text::byte_len(x) <= w ==> all == before.push(x)
            &&& text::byte_len(x) > w ==> all == before + (seq![x.take(cut_at(x, w))]
                + wrapped_line(text::trim_start(x.skip(cut_at(x, w))), w))
        }),
{
    lemma_wrapped_same(l.push(x), l, w, l.len() as int);
}

/// A hard wrap puts new lines exactly where a line takes more bytes than the width.
pub proof fn a_hard_wrap_acts_where_a_line_is_too_long(t: Edited, w: nat)
    requires
        w > 0,
    ensures
        hard_wrapped(t, w) is Some <==> (exists|i: int|
            0 <= i < t.lines.len() && text::byte_len(#[trigger] t.lines[i]) > w),
{
}

proof fn lemma_wrapped_same(a: Seq<Seq<char>>, b: Seq<Seq<char>>, w: nat, n: int)
    requires
        0 <= n <= b.len() <= a.len(),
        forall|i: int| 0 <= i < b.len() ==> a[i] == #[trigger] b[i],
    ensures
        wrapped_lines(a, w, n) == wrapped_lines(b, w, n),
    decreases n,
{
    if n > 0 {
        lemma_wrapped_same(a, b, w, n - 1);
        assert(a[n - 1] == b[n - 1]);
    }
}

/// The keys that a field handles itself: with a command key or control the arrows go to the
/// ends of the line and Backspace deletes to its head, with alt they go by words and it
/// deletes one; a command key with a character is refused, and all else goes to the widget.
pub proof fn a_field_has_keys_of_its_own(key: KeyEvent)
    ensures
        ({
            let m = key.modifiers;
            let line = m.command || m.meta || m.control;
            let word = m.alt && !line;
            &&& key.code is Left ==> field_edit(key) == if line {
                FieldEdit::Move(Motion::Head)
            } else if word {
                FieldEdit::Move(Motion::WordBack)
            } else {
                FieldEdit::HandOver
            }
            &&& key.code is Right ==> field_edit(key) == if line {
                FieldEdit::Move(Motion::End)
            } else if word {
                FieldEdit::Move(Motion::WordForward)
            } else {
                FieldEdit::HandOver
            }
            &&& key.code is Home ==> field_edit(key) == FieldEdit::Move(Motion::Head)
            &&& key.code is End ==> field_edit(key) == FieldEdit::Move(Motion::End)
            &&& key.code is Backspace ==> field_edit(key) == if line {
                FieldEdit::DeleteToHead
            } else if word {
                FieldEdit::DeleteWordBack
            } else {
                FieldEdit::HandOver
            }
            &&& key.code is Char ==> (field_edit(key) is Refuse <==> m.command || m.meta)
            &&& key.code is Char && !m.control && !m.command && !m.meta ==> field_edit(key)
                is HandOver
            &&& key.code is Enter || key.code is Delete || key.code is Up || key.code is Down
                || key.code is Tab ==> field_edit(key) is HandOver
        }),
        key.code == KeyCode::Char('a') && key.modifiers.control && !key.modifiers.command
            && !key.modifiers.meta ==> field_edit(key) == FieldEdit::Move(Motion::Head),
        key.code == KeyCode::Char('e') && key.modifiers.control && !key.modifiers.command
            && !key.modifiers.meta ==> field_edit(key) == FieldEdit::Move(Motion::End),
        key.code == KeyCode::Char('u') && key.modifiers.control && !key.modifiers.command
            && !key.modifiers.meta ==> field_edit(key) is DeleteToHead,
{
}

/// Deleting a word takes away what stands between its start and the cursor, and leaves the
/// cursor where the word started.
pub proof fn a_deleted_word_is_gone(t: Edited)
    requires
        t.inside(),
        last_word_start(t.lines[t.row as int], t.col as int - 1) is Some,
    ensures
        ({
            let line = t.lines[t.row as int];
            let start = last_word_start(line, t.col as int - 1)->0;
            word_deleted(unmarked(t)) == unmarked(
                Edited {
                    lines: t.lines.update(
                        t.row as int,
                        line.take(start) + line.skip(t.col as int),
                    ),
                    row: t.row,
                    col: start as nat,
                },
            )
        }),
{
    let line = t.lines[t.row as int];
    lemma_word_start(line, t.col as int - 1);
    let start = last_word_start(line, t.col as int - 1)->0;
    let back = t.moved(Motion::WordBack);
    assert(back == (Edited { col: start as nat, ..t }));
    lemma_nexts_deleted(back, (t.col - start) as nat);
}

proof fn lemma_word_start(line: Seq<char>, i: int)
    requires
        -1 <= i < line.len(),
    ensures
        last_word_start(line, i) matches Some(k) ==> 0 <= k <= i,
    decreases i + 1,
{
    if i >= 0 {
        lemma_word_start(line, i - 1);
    }
}

proof fn lemma_nexts_deleted(t: Edited, n: nat)
    requires
        t.inside(),
        t.col + n <= t.lines[t.row as int].len(),
    ensures
        unmarked(t).nexts_deleted(n) == unmarked(
            Edited {
                lines: t.lines.update(
                    t.row as int,
                    t.lines[t.row as int].take(t.col as int) + t.lines[t.row as int].skip(
                        t.col as int + n,
                    ),
                ),
                ..t
            },
        ),
    decreases n,
{
    let line = t.lines[t.row as int];
    let c = t.col as int;
    if n == 0 {
        assert(line.take(c) + line.skip(c) =~= line);
        assert(t.lines.update(t.row as int, line) =~= t.lines);
    } else {
        lemma_nexts_deleted(t, (n - 1) as nat);
        let l = line.take(c) + line.skip(c + n - 1);
        let u = Edited { lines: t.lines.update(t.row as int, l), ..t };
        assert(unmarked(t).nexts_deleted((n - 1) as nat) == unmarked(u));
        assert(l.remove(c) =~= line.take(c) + line.skip(c + n));
        let after = u.next_deleted();
        assert(u.moved(Motion::Forward) == (Edited { col: u.col + 1, ..u }));
        assert(after.lines =~= t.lines.update(t.row as int, l.remove(c)));
        assert(after.col == t.col && after.row == t.row);
    }
}

} // verus!
