//! A searchable list of which any number of items can be checked.

use super::Action;
use crate::gui::input::{KeyCode, KeyEvent, KeyModifiers};
use crate::gui::textarea;
use crate::gui::textarea::TextField;
use crate::text;
use vstd::prelude::*;

verus! {

/// An item that can be checked. A free entry stands for what was typed.
#[derive(Debug, Clone)]
pub struct ChecklistItem {
    pub label: String,
    pub checked: bool,
    pub is_free_entry: bool,
}

/// A searchable list of items that can be checked; the selection counts those that
/// are visible.
#[derive(Debug)]
pub struct Checklist {
    pub title: String,
    pub items: Vec<ChecklistItem>,
    pub selected: usize,
    pub search_textarea: TextField,
    pub free_entry_category: Option<String>,
    pub on_confirm: Action,
}

/// What a key leads to, beyond the selection and the checks.
#[derive(Debug)]
pub enum ChecklistStep {
    Stay,
    /// The labels of the checked items are confirmed.
    Confirm(Vec<String>),
    Leave,
    /// The search changed to a text, for which the free entry has to be brought up
    /// to date.
    Search(String),
}

/// Whether an item is visible under a search.
pub open spec fn is_visible(item: ChecklistItem, search: Seq<char>) -> bool {
    item.is_free_entry || search.len() == 0 || text::contains(
        text::lowercase(item.label@),
        text::lowercase(search),
    )
}

/// Which items are visible under a search.
pub open spec fn visibility(items: Seq<ChecklistItem>, search: Seq<char>) -> Seq<bool> {
    Seq::new(items.len(), |i: int| is_visible(items[i], search))
}

/// Tells which items are visible under a search. Letter case does not matter.
pub fn visible_items(items: &Vec<ChecklistItem>, search: &str) -> (r: Vec<bool>)
    ensures
        r@ == visibility(items@, search@),
{
    let lowered = search.to_lowercase();
    let empty = text::is_empty_str(search);
    let mut r: Vec<bool> = Vec::new();
    let mut i: usize = 0;
    while i < items.len()
        invariant
            i <= items@.len(),
            lowered@ == text::lowercase(search@),
            empty == (search@.len() == 0),
            r@.len() == i,
            forall|j: int| 0 <= j < i ==> #[trigger] r@[j] == is_visible(items@[j], search@),
        decreases items@.len() - i,
    {
        let label = items[i].label.to_lowercase();
        let hit = text::contains_str(label.as_str(), lowered.as_str());
        r.push(items[i].is_free_entry || empty || hit);
        i = i + 1;
    }
    assert(r@ =~= visibility(items@, search@));
    r
}

/// How many of the first `n` are visible.
pub open spec fn visible_count(visible: Seq<bool>, n: int) -> nat
    decreases n,
{
    if n <= 0 {
        0
    } else {
        visible_count(visible, n - 1) + if visible[n - 1] {
            1nat
        } else {
            0
        }
    }
}

/// The index of the visible item with a number, from `i` on.
pub open spec fn nth_visible(visible: Seq<bool>, n: int, i: int) -> Option<int>
    decreases visible.len() - i,
{
    if i < 0 || i >= visible.len() {
        None
    } else if visible[i] {
        if n == 0 {
            Some(i)
        } else {
            nth_visible(visible, n - 1, i + 1)
        }
    } else {
        nth_visible(visible, n, i + 1)
    }
}

/// The labels of the checked items among the first `n`.
pub open spec fn checked_labels(items: Seq<ChecklistItem>, n: int) -> Seq<Seq<char>>
    decreases n,
{
    if n <= 0 {
        seq![]
    } else if items[n - 1].checked {
        checked_labels(items, n - 1).push(items[n - 1].label@)
    } else {
        checked_labels(items, n - 1)
    }
}

fn count_visible(visible: &Vec<bool>) -> (r: usize)
    ensures
        r == visible_count(visible@, visible@.len() as int),
        r <= visible@.len(),
{
    let mut r: usize = 0;
    let mut i: usize = 0;
    while i < visible.len()
        invariant
            i <= visible@.len(),
            r <= i,
            r == visible_count(visible@, i as int),
        decreases visible@.len() - i,
    {
        if visible[i] {
            r = r + 1;
        }
        i = i + 1;
    }
    r
}

pub(crate) fn find_visible(visible: &Vec<bool>, n: usize) -> (r: Option<usize>)
    ensures
        match r {
            Some(i) => nth_visible(visible@, n as int, 0) == Some(i as int) && i < visible@.len(),
            None => nth_visible(visible@, n as int, 0) is None,
        },
{
    let mut left: usize = n;
    let mut i: usize = 0;
    while i < visible.len()
        invariant
            i <= visible@.len(),
            nth_visible(visible@, n as int, 0) == nth_visible(visible@, left as int, i as int),
        decreases visible@.len() - i,
    {
        if visible[i] {
            if left == 0 {
                return Some(i);
            }
            left = left - 1;
        }
        i = i + 1;
    }
    None
}

/// What a key does in the list.
#[derive(Debug, Clone, Copy, PartialEq, Eq, Structural)]
pub enum ChecklistKey {
    Down,
    Up,
    Toggle,
    Confirm,
    Leave,
    Search,
}

/// What a key does in the list: only bare arrows and a bare space act on it; letters
/// go to the search.
pub open spec fn checklist_key(key: KeyEvent) -> ChecklistKey {
    let bare = key.modifiers == KeyModifiers::none_held();
    match key.code {
        KeyCode::Down if bare => ChecklistKey::Down,
        KeyCode::Up if bare => ChecklistKey::Up,
        KeyCode::Char(' ') if bare => ChecklistKey::Toggle,
        KeyCode::Enter => ChecklistKey::Confirm,
        KeyCode::Esc => ChecklistKey::Leave,
        _ => ChecklistKey::Search,
    }
}

fn classify(key: KeyEvent) -> (r: ChecklistKey)
    ensures
        r == checklist_key(key),
{
    let bare = key.modifiers == KeyModifiers::none();
    match key.code {
        KeyCode::Down if bare => ChecklistKey::Down,
        KeyCode::Up if bare => ChecklistKey::Up,
        KeyCode::Char(' ') if bare => ChecklistKey::Toggle,
        KeyCode::Enter => ChecklistKey::Confirm,
        KeyCode::Esc => ChecklistKey::Leave,
        _ => ChecklistKey::Search,
    }
}

/// The items with one of them checked, or no longer.
pub open spec fn toggled(items: Seq<ChecklistItem>, i: int) -> Seq<ChecklistItem> {
    items.update(i, ChecklistItem { checked: !items[i].checked, ..items[i] })
}

impl Checklist {
    /// What is searched for.
    pub open spec fn search(self) -> Seq<char> {
        text::join(self.search_textarea.text().lines, seq![])
    }

    fn collect_checked(&self) -> (r: Vec<String>)
        ensures
            text::texts(r@) == checked_labels(self.items@, self.items@.len() as int),
    {
        let mut r: Vec<String> = Vec::new();
        let mut i: usize = 0;
        assert(text::texts(r@) =~= seq![]);
        while i < self.items.len()
            invariant
                i <= self.items@.len(),
                text::texts(r@) == checked_labels(self.items@, i as int),
            decreases self.items@.len() - i,
        {
            if self.items[i].checked {
                let ghost before = r@;
                r.push(self.items[i].label.clone());
                assert(text::texts(r@) =~= text::texts(before).push(r@.last()@));
            }
            i = i + 1;
        }
        r
    }

    /// Whether a key turns the list into another and leads to a step, given which of its
    /// items are visible.
    pub open spec fn answered(
        self,
        key: KeyEvent,
        visible: Seq<bool>,
        after: Checklist,
        r: ChecklistStep,
    ) -> bool {
        &&& after.title == self.title
        &&& after.on_confirm == self.on_confirm
        &&& after.free_entry_category == self.free_entry_category
        &&& match checklist_key(key) {
            ChecklistKey::Down => {
                let n = visible_count(visible, visible.len() as int);
                &&& r is Stay
                &&& after == (Checklist {
                    selected: if n == 0 {
                        self.selected
                    } else if self.selected + 1 < n {
                        (self.selected + 1) as usize
                    } else {
                        (n - 1) as usize
                    },
                    ..self
                })
            },
            ChecklistKey::Up => r is Stay && after == (Checklist {
                selected: if self.selected > 0 {
                    (self.selected - 1) as usize
                } else {
                    0
                },
                ..self
            }),
            ChecklistKey::Toggle => {
                &&& r is Stay
                &&& after == (Checklist { items: after.items, ..self })
                &&& after.items@ == match nth_visible(
                    visible,
                    self.selected as int,
                    0,
                ) {
                    Some(i) => toggled(self.items@, i),
                    None => self.items@,
                }
            },
            ChecklistKey::Confirm => after == self && (
            r matches ChecklistStep::Confirm(labels) && text::texts(labels@) == checked_labels(
                self.items@,
                self.items@.len() as int,
            )),
            ChecklistKey::Leave => r is Leave && after == self,
            ChecklistKey::Search => {
                &&& after.items == self.items
                &&& exists|taken: bool| #[trigger]
                    textarea::key_applied(
                        self.search_textarea,
                        key,
                        after.search_textarea,
                        taken,
                    )
                &&& if after.search() == self.search() {
                    r is Stay && after.selected == self.selected
                } else {
                    after.selected == 0 && (r matches ChecklistStep::Search(s) && s@
                        == after.search())
                }
            },
        }
    }

    /// Applies a key to the list, given which of its items are visible.
    pub fn key_with(&mut self, key: KeyEvent, visible: &Vec<bool>) -> (r: ChecklistStep)
        requires
            visible@.len() == old(self).items@.len(),
            old(self).selected < usize::MAX,
        ensures
            old(self).answered(key, visible@, *final(self), r),
    {
        match classify(key) {
            ChecklistKey::Down => {
                let n: usize = count_visible(visible);
                if n > 0 {
                    self.selected = if self.selected + 1 < n {
                        self.selected + 1
                    } else {
                        n - 1
                    };
                }
                ChecklistStep::Stay
            },
            ChecklistKey::Up => {
                self.selected = self.selected.saturating_sub(1);
                ChecklistStep::Stay
            },
            ChecklistKey::Toggle => {
                match find_visible(visible, self.selected) {
                    Some(i) => {
                        let item = ChecklistItem {
                            label: self.items[i].label.clone(),
                            checked: !self.items[i].checked,
                            is_free_entry: self.items[i].is_free_entry,
                        };
                        self.items.set(i, item);
                    },
                    None => {},
                }
                ChecklistStep::Stay
            },
            ChecklistKey::Confirm => ChecklistStep::Confirm(self.collect_checked()),
            ChecklistKey::Leave => ChecklistStep::Leave,
            ChecklistKey::Search => {
                let before = self.search_textarea.joined();
                let ghost field = self.search_textarea;
                let taken = textarea::textarea_input(&mut self.search_textarea, key);
                assert(textarea::key_applied(field, key, self.search_textarea, taken));
                let after = self.search_textarea.joined();
                if text::same_str(after.as_str(), before.as_str()) {
                    ChecklistStep::Stay
                } else {
                    self.selected = 0;
                    ChecklistStep::Search(after)
                }
            },
        }
    }

    /// Tells which items are visible under what is searched for.
    pub fn visible(&self) -> (r: Vec<bool>)
        ensures
            r@ == visibility(self.items@, self.search()),
    {
        let search = self.search_textarea.joined();
        visible_items(&self.items, search.as_str())
    }

    /// Whether a pasted text turns the list into another, with what is searched for.
    pub open spec fn pasted(self, data: Seq<char>, after: Checklist, r: String) -> bool {
        &&& after == (Checklist {
            search_textarea: after.search_textarea,
            selected: 0,
            ..self
        })
        &&& textarea::pasted(
            self.search_textarea,
            after.search_textarea,
            super::input::single_line(data),
        )
        &&& r@ == after.search()
    }

    /// Puts a pasted text into the search. Gives what is searched for, to bring the
    /// free entry up to date.
    pub fn paste(&mut self, data: &str) -> (r: String)
        ensures
            old(self).pasted(data@, *final(self), r),
    {
        let cleaned = super::input::flatten(data);
        self.search_textarea.insert_str(cleaned.as_str());
        self.selected = 0;
        self.search_textarea.joined()
    }
}

// ---------------------------------------------------------------------------
// Laws
// ---------------------------------------------------------------------------

proof fn lemma_nth_visible(visible: Seq<bool>, n: int, i: int)
    requires
        0 <= i <= visible.len(),
        0 <= n,
    ensures
        match nth_visible(visible, n, i) {
            Some(k) => i <= k < visible.len() && visible[k] && visible_count(visible, k)
                - visible_count(visible, i) == n,
            None => visible_count(visible, visible.len() as int) - visible_count(visible, i) <= n,
        },
    decreases visible.len() - i,
{
    if i < visible.len() {
        if visible[i] {
            if n > 0 {
                lemma_nth_visible(visible, n - 1, i + 1);
            }
        } else {
            lemma_nth_visible(visible, n, i + 1);
        }
    }
}

/// What is toggled is a visible item: the one with as many visible items before it
/// as the selection counts. There is one exactly when the selection is within the
/// visible items.
pub proof fn toggling_hits_the_visible_item(visible: Seq<bool>, n: int)
    requires
        0 <= n,
    ensures
        match nth_visible(visible, n, 0) {
            Some(k) => 0 <= k < visible.len() && visible[k] && visible_count(visible, k) == n,
            None => visible_count(visible, visible.len() as int) <= n,
        },
{
    lemma_nth_visible(visible, n, 0);
}

/// Toggling an item twice gives the items back.
pub proof fn toggling_twice_changes_nothing(items: Seq<ChecklistItem>, i: int)
    requires
        0 <= i < items.len(),
    ensures
        toggled(toggled(items, i), i) == items,
{
    assert(toggled(toggled(items, i), i) =~= items);
}

/// What is confirmed are the labels of the checked items, in order, visible or not.
pub proof fn the_checked_items_are_confirmed(items: Seq<ChecklistItem>)
    ensures
        checked_labels(items, items.len() as int) == items.filter(
            |x: ChecklistItem| x.checked,
        ).map_values(|x: ChecklistItem| x.label@),
    decreases items.len(),
{
    reveal(Seq::filter);
    let all = items.filter(|x: ChecklistItem| x.checked).map_values(|x: ChecklistItem| x.label@);
    if items.len() > 0 {
        let d = items.drop_last();
        the_checked_items_are_confirmed(d);
        lemma_labels_same(items, d, d.len() as int);
        let before = d.filter(|x: ChecklistItem| x.checked).map_values(
            |x: ChecklistItem| x.label@,
        );
        if items.last().checked {
            assert(all =~= before.push(items.last().label@));
        } else {
            assert(all =~= before);
        }
    } else {
        assert(all =~= seq![]);
    }
}

proof fn lemma_labels_same(a: Seq<ChecklistItem>, b: Seq<ChecklistItem>, n: int)
    requires
        0 <= n <= b.len() <= a.len(),
        forall|i: int| 0 <= i < b.len() ==> a[i] == #[trigger] b[i],
    ensures
        checked_labels(a, n) == checked_labels(b, n),
    decreases n,
{
    if n > 0 {
        lemma_labels_same(a, b, n - 1);
        assert(a[n - 1] == b[n - 1]);
    }
}

/// Without a search every item is visible; with one those whose label holds what is searched
/// for, whatever its case, and what was typed.
pub proof fn a_search_hides_what_does_not_match(item: ChecklistItem, search: Seq<char>)
    ensures
        is_visible(item, Seq::<char>::empty()),
        item.is_free_entry ==> is_visible(item, search),
        !item.is_free_entry && search.len() > 0 ==> (is_visible(item, search) <==> text::find_text(
            text::lowercase(item.label@),
            text::lowercase(search),
        ) is Some),
{
    text::find_text_is_first_occurrence(text::lowercase(item.label@), text::lowercase(search));
}

/// A bare space checks the selected item, or no longer, and nothing else; the arrows move by
/// one item and stay within the visible ones.
pub proof fn keys_of_a_checklist(
    c: Checklist,
    key: KeyEvent,
    visible: Seq<bool>,
    after: Checklist,
    r: ChecklistStep,
)
    requires
        c.answered(key, visible, after, r),
        visible.len() == c.items@.len(),
        key.modifiers == KeyModifiers::none_held(),
        c.selected < visible_count(visible, visible.len() as int),
        c.selected < usize::MAX,
    ensures
        key.code is Down ==> after.selected == if c.selected + 1 < visible_count(
            visible,
            visible.len() as int,
        ) {
            c.selected + 1
        } else {
            c.selected as int
        },
        key.code is Up ==> after.selected == if c.selected > 0 {
            c.selected - 1
        } else {
            0
        },
        key.code is Down || key.code is Up ==> after.items == c.items && r is Stay,
        key.code == KeyCode::Char(' ') ==> after.selected == c.selected && exists|i: int|
            #![trigger c.items@[i]]
            0 <= i < c.items@.len() && visible[i] && visible_count(visible, i) == c.selected
                && after.items@[i].checked == !c.items@[i].checked && after.items@[i].label
                == c.items@[i].label && forall|j: int|
                0 <= j < c.items@.len() && j != i ==> #[trigger] after.items@[j] == c.items@[j],
        key.code is Esc <==> r is Leave,
        key.code is Enter <==> r is Confirm,
{
    toggling_hits_the_visible_item(visible, c.selected as int);
    if key.code == KeyCode::Char(' ') {
        let i = nth_visible(visible, c.selected as int, 0)->0;
        assert(0 <= i < c.items@.len() && visible[i]);
        assert(after.items@ == toggled(c.items@, i));
        let x = c.items@[i];
    }
}

} // verus!
