//! Keys, mouse events and screen areas.

use vstd::prelude::*;

verus! {

/// A key of the keyboard.
#[derive(Debug, Clone, Copy, PartialEq, Eq, Structural)]
pub enum KeyCode {
    Char(char),
    Enter,
    Esc,
    Tab,
    BackTab,
    Backspace,
    Delete,
    Up,
    Down,
    Left,
    Right,
    Home,
    End,
    PageUp,
    PageDown,
    F(u8),
    Other,
}

/// The modifiers that are held while a key is pressed.
#[derive(Debug, Clone, Copy, PartialEq, Eq, Structural)]
pub struct KeyModifiers {
    pub shift: bool,
    pub control: bool,
    pub alt: bool,
    pub command: bool,
    pub hyper: bool,
    pub meta: bool,
}

/// A key press.
#[derive(Debug, Clone, Copy, PartialEq, Eq, Structural)]
pub struct KeyEvent {
    pub code: KeyCode,
    pub modifiers: KeyModifiers,
}

impl KeyModifiers {
    /// No modifier.
    pub open spec fn none_held() -> KeyModifiers {
        KeyModifiers {
            shift: false,
            control: false,
            alt: false,
            command: false,
            hyper: false,
            meta: false,
        }
    }

    /// No modifier.
    pub fn none() -> (r: KeyModifiers)
        ensures
            r == KeyModifiers::none_held(),
    {
        KeyModifiers {
            shift: false,
            control: false,
            alt: false,
            command: false,
            hyper: false,
            meta: false,
        }
    }
}

impl KeyEvent {
    /// A key press with modifiers.
    pub fn new(code: KeyCode, modifiers: KeyModifiers) -> (r: KeyEvent)
        ensures
            r == (KeyEvent { code, modifiers }),
    {
        KeyEvent { code, modifiers }
    }

    /// Whether the key is this character, whatever modifiers are held.
    pub open spec fn is_char(self, c: char) -> bool {
        self.code == KeyCode::Char(c)
    }

    /// Whether the key is this character, whatever modifiers are held.
    pub fn char_is(&self, c: char) -> (r: bool)
        ensures
            r == self.is_char(c),
    {
        self.code == KeyCode::Char(c)
    }
}

/// Whether a character has the Unicode property `Uppercase`.
pub uninterp spec fn char_is_uppercase(c: char) -> bool;

/// `char::is_uppercase`: true of characters with the Unicode property
/// `Uppercase`. Of the ASCII characters these are the letters `A` to `Z`.
pub assume_specification[ char::is_uppercase ](c: char) -> (r: bool)
    ensures
        r == char_is_uppercase(c),
        c as int <= 0x7f ==> r == (0x41 <= c as int <= 0x5a),
;

/// A key that types a character and nothing else: shift is held for upper case,
/// and no other modifier.
pub open spec fn types_plain(key: KeyEvent, expected: char) -> bool {
    key.code == KeyCode::Char(expected) && key.modifiers == (KeyModifiers {
        shift: char_is_uppercase(expected),
        ..KeyModifiers::none_held()
    })
}

/// Whether a key types the expected character and nothing else.
pub fn plain_char_key(key: KeyEvent, expected: char) -> (r: bool)
    ensures
        r == types_plain(key, expected),
{
    let modifiers = KeyModifiers {
        shift: expected.is_uppercase(),
        control: false,
        alt: false,
        command: false,
        hyper: false,
        meta: false,
    };
    key.code == KeyCode::Char(expected) && key.modifiers == modifiers
}

/// Whether a command key is held, under either of the names that terminals give
/// it.
pub fn has_command_modifier(modifiers: KeyModifiers) -> (r: bool)
    ensures
        r == (modifiers.command || modifiers.meta),
{
    modifiers.command || modifiers.meta
}

/// The key that switches the diff's block mode, in both forms that terminals send
/// for a shifted letter.
pub open spec fn toggles_block_mode(key: KeyEvent) -> bool {
    key.code == KeyCode::Char('B') || (key.code == KeyCode::Char('b') && key.modifiers.shift)
}

/// Whether a key switches the diff's block mode.
pub fn is_diff_block_mode_toggle(key: KeyEvent) -> (r: bool)
    ensures
        r == toggles_block_mode(key),
{
    key.code == KeyCode::Char('B') || (key.code == KeyCode::Char('b') && key.modifiers.shift)
}

/// Whether the diff's block mode has anything to act on.
pub fn diff_block_mode_actionable(has_unstaged_changes: bool, hunk_count: usize) -> (r: bool)
    ensures
        r == (has_unstaged_changes && hunk_count > 0),
{
    has_unstaged_changes && hunk_count > 0
}

/// A button of the mouse.
#[derive(Debug, Clone, Copy, PartialEq, Eq, Structural)]
pub enum MouseButton {
    Left,
    Right,
    Middle,
}

/// What the mouse did.
#[derive(Debug, Clone, Copy, PartialEq, Eq, Structural)]
pub enum MouseEventKind {
    Down(MouseButton),
    Up(MouseButton),
    Drag(MouseButton),
    Moved,
    ScrollUp,
    ScrollDown,
    ScrollLeft,
    ScrollRight,
}

/// A mouse event at a cell of the screen.
#[derive(Debug, Clone, Copy, PartialEq, Eq, Structural)]
pub struct MouseEvent {
    pub kind: MouseEventKind,
    pub column: u16,
    pub row: u16,
    pub modifiers: KeyModifiers,
}

/// An area of the screen.
#[derive(Debug, Clone, Copy, PartialEq, Eq, Structural)]
pub struct Rect {
    pub x: u16,
    pub y: u16,
    pub width: u16,
    pub height: u16,
}

impl Rect {
    /// Whether a cell lies in the area.
    pub open spec fn contains(self, col: int, row: int) -> bool {
        self.x <= col < self.x + self.width && self.y <= row < self.y + self.height
    }
}

/// Whether a cell lies in an area.
pub fn rect_contains(r: Rect, col: u16, row: u16) -> (b: bool)
    ensures
        b == r.contains(col as int, row as int),
{
    col >= r.x && col - r.x < r.width && row >= r.y && row - r.y < r.height
}

// ---------------------------------------------------------------------------
// Laws
// ---------------------------------------------------------------------------

/// A key that types a character and nothing else is typed with no modifier but shift, which
/// goes with upper case; it types no other character.
pub proof fn a_plain_key_has_no_modifier(key: KeyEvent, c: char, d: char)
    requires
        types_plain(key, c),
    ensures
        key.code == KeyCode::Char(c),
        !key.modifiers.control && !key.modifiers.alt && !key.modifiers.command,
        !key.modifiers.hyper && !key.modifiers.meta,
        key.modifiers.shift <==> char_is_uppercase(c),
        types_plain(key, d) ==> c == d,
{
}

/// The block mode is switched by an upper case `B`, however a terminal sends it, and by no
/// other key.
pub proof fn only_b_switches_the_block_mode(key: KeyEvent)
    ensures
        key.is_char('B') ==> toggles_block_mode(key),
        key.is_char('b') ==> (toggles_block_mode(key) <==> key.modifiers.shift),
        !key.is_char('B') && !key.is_char('b') ==> !toggles_block_mode(key),
{
}

/// An area holds as many columns and rows as it is wide and high, from its corner on.
pub proof fn an_area_has_four_sides(a: Rect, i: int, j: int)
    ensures
        a.contains(a.x + i, a.y + j) <==> 0 <= i < a.width && 0 <= j < a.height,
{
}

} // verus!
