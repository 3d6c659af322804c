//! Menus: items of which one is selected, some with a key of their own.

use super::Action;
use crate::gui::input::{KeyCode, KeyEvent};
use crate::text;
use vstd::prelude::*;

verus! {

/// An item of a menu; one without an action cannot be chosen.
#[derive(Debug)]
pub struct MenuItem {
    pub label: String,
    pub description: String,
    pub key: Option<String>,
    pub action: Option<Action>,
}

/// A menu. While an item works in the background, `loading_index` names it.
#[derive(Debug)]
pub struct Menu {
    pub title: String,
    pub items: Vec<MenuItem>,
    pub selected: usize,
    pub loading_index: Option<usize>,
}

/// What a key leads to, beyond the selection.
#[derive(Debug, Clone, Copy, PartialEq, Eq, Structural)]
pub enum MenuStep {
    Stay,
    /// An item with an action is chosen.
    Run(usize),
    /// The menu closes without a choice, because nothing can be chosen at the
    /// selection.
    Close,
    /// The menu is left.
    Leave,
}

/// The first item from `i` on that can be chosen.
pub open spec fn next_enabled(items: Seq<MenuItem>, i: int) -> Option<int>
    decreases items.len() - i,
{
    if i < 0 || i >= items.len() {
        None
    } else if items[i].action is Some {
        Some(i)
    } else {
        next_enabled(items, i + 1)
    }
}

/// The last item before `i` that can be chosen.
pub open spec fn prev_enabled(items: Seq<MenuItem>, i: int) -> Option<int>
    decreases i,
{
    if i <= 0 {
        None
    } else if items[i - 1].action is Some {
        Some(i - 1)
    } else {
        prev_enabled(items, i - 1)
    }
}

/// The first item from `i` on with a key of one character.
pub open spec fn with_key(items: Seq<MenuItem>, c: char, i: int) -> Option<int>
    decreases items.len() - i,
{
    if i < 0 || i >= items.len() {
        None
    } else if text::opt_text(items[i].key) == Some(seq![c]) {
        Some(i)
    } else {
        with_key(items, c, i + 1)
    }
}

/// The item that is chosen at an index, if there is one that can be.
pub open spec fn chosen(items: Seq<MenuItem>, i: int) -> MenuStep {
    if 0 <= i < items.len() && items[i].action is Some {
        MenuStep::Run(i as usize)
    } else {
        MenuStep::Close
    }
}

/// The selection after a key, and what it leads to. A menu at work takes only Esc.
pub open spec fn menu_after(m: Menu, key: KeyEvent) -> (int, MenuStep) {
    let at = m.selected as int;
    if m.loading_index is Some && !(key.code is Esc) {
        (at, MenuStep::Stay)
    } else {
        match key.code {
            KeyCode::Char('j') | KeyCode::Down => (
                match next_enabled(m.items@, at + 1) {
                    Some(i) => i,
                    None => at,
                },
                MenuStep::Stay,
            ),
            KeyCode::Char('k') | KeyCode::Up => (
                match prev_enabled(m.items@, at) {
                    Some(i) => i,
                    None => at,
                },
                MenuStep::Stay,
            ),
            KeyCode::Enter => (at, chosen(m.items@, at)),
            KeyCode::Esc => (at, MenuStep::Leave),
            KeyCode::Char(c) => (
                at,
                match with_key(m.items@, c, 0) {
                    Some(i) => if m.items@[i].action is Some {
                        MenuStep::Run(i as usize)
                    } else {
                        MenuStep::Stay
                    },
                    None => MenuStep::Stay,
                },
            ),
            _ => (at, MenuStep::Stay),
        }
    }
}

fn key_is(item: &MenuItem, c: char) -> (r: bool)
    ensures
        r == (text::opt_text(item.key) == Some(seq![c])),
{
    match &item.key {
        Some(k) => {
            let chars = text::chars_of(k.as_str());
            let r = chars.len() == 1 && chars[0] == c;
            assert(r ==> chars@ =~= seq![c]);
            r
        },
        None => false,
    }
}

impl Menu {
    /// Whether the selection is on an item, or just behind the last.
    pub open spec fn wf(self) -> bool {
        self.selected <= self.items@.len() && self.items@.len() < usize::MAX
    }

    /// A menu with its first item selected.
    pub fn new(title: String, items: Vec<MenuItem>) -> (r: Menu)
        ensures
            r == (Menu { title, items, selected: 0, loading_index: None }),
    {
        Menu { title, items, selected: 0, loading_index: None }
    }

    /// Applies a key to the menu.
    pub fn key(&mut self, key: KeyEvent) -> (r: MenuStep)
        requires
            old(self).wf(),
        ensures
            final(self).wf(),
            *final(self) == (Menu { selected: menu_after(*old(self), key).0 as usize, ..*old(self) }),
            r == menu_after(*old(self), key).1,
    {
        if self.loading_index.is_some() && key.code != KeyCode::Esc {
            return MenuStep::Stay;
        }
        match key.code {
            KeyCode::Char('j') | KeyCode::Down => {
                let mut next: usize = self.selected + 1;
                while next < self.items.len() && self.items[next].action.is_none()
                    invariant
                        self.items@.len() < usize::MAX,
                        next_enabled(self.items@, self.selected + 1) == next_enabled(
                            self.items@,
                            next as int,
                        ),
                    decreases self.items@.len() - next,
                {
                    next = next + 1;
                }
                if next < self.items.len() {
                    self.selected = next;
                }
                MenuStep::Stay
            },
            KeyCode::Char('k') | KeyCode::Up => {
                if self.selected > 0 {
                    let mut prev: usize = self.selected - 1;
                    while prev > 0 && self.items[prev].action.is_none()
                        invariant
                            prev < self.items@.len(),
                            prev_enabled(self.items@, self.selected as int) == prev_enabled(
                                self.items@,
                                prev + 1,
                            ),
                        decreases prev,
                    {
                        prev = prev - 1;
                    }
                    assert(prev_enabled(self.items@, 0) is None);
                    if self.items[prev].action.is_some() {
                        self.selected = prev;
                    }
                }
                MenuStep::Stay
            },
            KeyCode::Enter => {
                if self.selected < self.items.len() && self.items[self.selected].action.is_some() {
                    MenuStep::Run(self.selected)
                } else {
                    MenuStep::Close
                }
            },
            KeyCode::Esc => MenuStep::Leave,
            KeyCode::Char(c) => {
                let mut i: usize = 0;
                while i < self.items.len() && !key_is(&self.items[i], c)
                    invariant
                        i <= self.items@.len(),
                        with_key(self.items@, c, 0) == with_key(self.items@, c, i as int),
                    decreases self.items@.len() - i,
                {
                    i = i + 1;
                }
                if i < self.items.len() && self.items[i].action.is_some() {
                    MenuStep::Run(i)
                } else {
                    MenuStep::Stay
                }
            },
            _ => MenuStep::Stay,
        }
    }
}

// ---------------------------------------------------------------------------
// Laws
// ---------------------------------------------------------------------------

proof fn lemma_next_enabled(items: Seq<MenuItem>, i: int)
    ensures
        next_enabled(items, i) matches Some(k) ==> i <= k < items.len() && items[k].action is Some,
    decreases items.len() - i,
{
    if 0 <= i < items.len() {
        lemma_next_enabled(items, i + 1);
    }
}

proof fn lemma_prev_enabled(items: Seq<MenuItem>, i: int)
    ensures
        prev_enabled(items, i) matches Some(k) ==> 0 <= k < i && items[k].action is Some,
    decreases i,
{
    if i > 0 {
        lemma_prev_enabled(items, i - 1);
    }
}

proof fn lemma_with_key(items: Seq<MenuItem>, c: char, i: int)
    ensures
        with_key(items, c, i) matches Some(k) ==> i <= k < items.len(),
    decreases items.len() - i,
{
    if 0 <= i < items.len() {
        lemma_with_key(items, c, i + 1);
    }
}

/// The selection moves only onto items that can be chosen.
pub proof fn disabled_items_are_skipped(m: Menu, key: KeyEvent)
    requires
        m.wf(),
    ensures
        ({
            let at = menu_after(m, key).0;
            at != m.selected ==> 0 <= at < m.items@.len() && m.items@[at].action is Some
        }),
{
    lemma_next_enabled(m.items@, m.selected + 1);
    lemma_prev_enabled(m.items@, m.selected as int);
}

/// What is run is an item that can be chosen, and nothing is run while another item
/// is at work.
pub proof fn only_enabled_items_run(m: Menu, key: KeyEvent)
    requires
        m.wf(),
    ensures
        menu_after(m, key).1 matches MenuStep::Run(i) ==> i < m.items@.len()
            && m.items@[i as int].action is Some && m.loading_index is None,
{
    match key.code {
        KeyCode::Char(c) => {
            lemma_with_key(m.items@, c, 0);
        },
        _ => {},
    }
}

proof fn lemma_between_disabled(items: Seq<MenuItem>, i: int)
    requires
        0 <= i <= items.len(),
    ensures
        match next_enabled(items, i) {
            Some(k) => forall|j: int| i <= j < k ==> (#[trigger] items[j]).action is None,
            None => forall|j: int| i <= j < items.len() ==> (#[trigger] items[j]).action is None,
        },
    decreases items.len() - i,
{
    if i < items.len() && items[i].action is None {
        lemma_between_disabled(items, i + 1);
    }
}

proof fn lemma_between_disabled_above(items: Seq<MenuItem>, i: int)
    requires
        0 <= i <= items.len(),
    ensures
        match prev_enabled(items, i) {
            Some(k) => forall|j: int| k < j < i ==> (#[trigger] items[j]).action is None,
            None => forall|j: int| 0 <= j < i ==> (#[trigger] items[j]).action is None,
        },
    decreases i,
{
    if i > 0 && items[i - 1].action is None {
        lemma_between_disabled_above(items, i - 1);
    }
}

/// Moving down selects the nearest item below that can be chosen, and moving up the nearest
/// above; where there is none the selection stays.
pub proof fn moving_selects_the_nearest_item(m: Menu, key: KeyEvent, i: int)
    requires
        m.wf(),
        m.loading_index is None,
        0 <= i < m.items@.len(),
        m.items@[i].action is Some,
    ensures
        ({
            let at = menu_after(m, key).0;
            &&& (key.code is Down || key.code == KeyCode::Char('j')) && i > m.selected ==> m.selected
                < at <= i && m.items@[at].action is Some
            &&& (key.code is Up || key.code == KeyCode::Char('k')) && i < m.selected ==> i <= at
                < m.selected && m.items@[at].action is Some
            &&& key.code is Down || key.code == KeyCode::Char('j') ==> at >= m.selected
            &&& key.code is Up || key.code == KeyCode::Char('k') ==> at <= m.selected
        }),
{
    let at = m.selected as int;
    lemma_next_enabled(m.items@, at + 1);
    lemma_prev_enabled(m.items@, at);
    if at + 1 <= m.items@.len() {
        lemma_between_disabled(m.items@, at + 1);
    }
    lemma_between_disabled_above(m.items@, at);
}

proof fn lemma_first_with_key(items: Seq<MenuItem>, c: char, i: int)
    requires
        0 <= i <= items.len(),
    ensures
        match with_key(items, c, i) {
            Some(k) => i <= k < items.len() && text::opt_text(items[k].key) == Some(seq![c])
                && forall|j: int|
                i <= j < k ==> text::opt_text((#[trigger] items[j]).key) != Some(seq![c]),
            None => forall|j: int|
                i <= j < items.len() ==> text::opt_text((#[trigger] items[j]).key) != Some(
                    seq![c],
                ),
        },
    decreases items.len() - i,
{
    if i < items.len() && text::opt_text(items[i].key) != Some(seq![c]) {
        lemma_first_with_key(items, c, i + 1);
    }
}

/// Enter runs the selected item and a letter the first item with it as its key, if they can
/// be chosen; escape leaves the menu, and no key but these runs anything.
pub proof fn keys_run_their_items(m: Menu, key: KeyEvent, i: int)
    requires
        m.wf(),
        m.loading_index is None,
        0 <= i < m.items@.len(),
        m.items@[i].action is Some,
    ensures
        key.code is Enter && m.selected == i ==> menu_after(m, key).1 == MenuStep::Run(i as usize),
        key.code is Esc ==> menu_after(m, key).1 is Leave,
        key.code is Enter && (m.selected >= m.items@.len() || m.items@[m.selected as int].action
            is None) ==> menu_after(m, key).1 is Close,
        key.code matches KeyCode::Char(c) ==> c != 'j' && c != 'k' && text::opt_text(m.items@[i].key)
            == Some(seq![c]) && (forall|j: int|
            0 <= j < i ==> text::opt_text((#[trigger] m.items@[j]).key) != Some(seq![c]))
            ==> menu_after(m, key) == (m.selected as int, MenuStep::Run(i as usize)),
        menu_after(m, key).1 is Run ==> key.code is Enter || key.code is Char,
{
    match key.code {
        KeyCode::Char(c) => {
            lemma_first_with_key(m.items@, c, 0);
        },
        _ => {},
    }
}

} // verus!
