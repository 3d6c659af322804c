//! Windows with a searchable list from which one thing is picked.

use super::input;
use super::palette;
use super::Action;
use crate::gui::input::{KeyCode, KeyEvent};
use crate::gui::picker;
use crate::gui::picker::{ListPickerCore, ListPickerItem};
use crate::gui::textarea;
use crate::gui::textarea::TextField;
use crate::text;
use vstd::prelude::*;

verus! {

/// A list of references; where free text is allowed, what was typed can be picked.
#[derive(Debug)]
pub struct RefPicker {
    pub title: String,
    pub core: ListPickerCore,
    pub allow_freeform: bool,
    pub on_confirm: Action,
}

/// A list in which what was typed stands as an item under a category of its own.
#[derive(Debug)]
pub struct ListPicker {
    pub title: String,
    pub core: ListPickerCore,
    pub free_entry_category: String,
    pub on_confirm: Action,
}

/// The list of colour themes; the selected one is on show at once.
#[derive(Debug)]
pub struct ThemePicker {
    pub core: ListPickerCore,
    pub original_theme_index: usize,
}

/// What a key leads to, beyond the list.
#[derive(Debug)]
pub enum PickStep {
    Stay,
    Leave,
    /// A value is picked.
    Confirm(String),
    /// The search changed: the item for what was typed has to be brought up to date.
    Sync,
}

/// What a key does in a list.
#[derive(Debug, Clone, Copy, PartialEq, Eq, Structural)]
pub enum PickKey {
    Leave,
    Confirm,
    Down,
    Up,
    Search,
}

/// What a key does in a list.
pub open spec fn pick_key(key: KeyEvent) -> PickKey {
    match key.code {
        KeyCode::Esc => PickKey::Leave,
        KeyCode::Enter => PickKey::Confirm,
        KeyCode::Down => PickKey::Down,
        KeyCode::Up => PickKey::Up,
        _ => PickKey::Search,
    }
}

fn classify(key: KeyEvent) -> (r: PickKey)
    ensures
        r == pick_key(key),
{
    match key.code {
        KeyCode::Esc => PickKey::Leave,
        KeyCode::Enter => PickKey::Confirm,
        KeyCode::Down => PickKey::Down,
        KeyCode::Up => PickKey::Up,
        _ => PickKey::Search,
    }
}

/// What is searched for in a list.
pub open spec fn search_of(core: ListPickerCore) -> Seq<char> {
    text::join(core.search_textarea.text().lines, seq![])
}

/// A list with nothing searched for and nothing scrolled.
pub fn fresh_core(items: Vec<ListPickerItem>, selected: usize) -> (r: ListPickerCore)
    ensures
        r.items == items,
        r.selected == selected,
        r.scroll_offset == 0,
        input::holds(r.search_textarea, seq![]),
        search_of(r).len() == 0,
{
    let search_textarea = TextField::new();
    assert(text::join(search_textarea.text().lines, seq![]).len() == 0);
    ListPickerCore { items, selected, search_textarea, scroll_offset: 0 }
}

/// The list with the item below selected and in view.
pub open spec fn moved_down(core: ListPickerCore, height: int) -> ListPickerCore {
    let at = palette::stepped_down(core.selected as int, core.items@.len() as int);
    ListPickerCore {
        selected: at as usize,
        scroll_offset: palette::down_to(
            picker::display_row(picker::entries(core.items@), at),
            core.scroll_offset as int,
            height,
        ) as usize,
        ..core
    }
}

/// The list with the item above selected and in view.
pub open spec fn moved_up(core: ListPickerCore) -> ListPickerCore {
    let at = picker::minus(core.selected as int, 1);
    ListPickerCore {
        selected: at as usize,
        scroll_offset: palette::up_to(
            at,
            picker::display_row(picker::entries(core.items@), at),
            core.scroll_offset as int,
        ) as usize,
        ..core
    }
}

/// Whether a list of which some rows are in view can follow the key that goes down.
pub open spec fn follows_down(core: ListPickerCore, height: int) -> bool {
    picker::can_follow(
        picker::display_row(
            picker::entries(core.items@),
            palette::stepped_down(core.selected as int, core.items@.len() as int),
        ),
        core.scroll_offset as int,
        height,
    )
}

/// Tells whether a list can follow the key that goes down.
pub fn can_follow_down(core: &ListPickerCore, list_height: usize) -> (r: bool)
    requires
        core.fits(),
    ensures
        r == follows_down(*core, list_height as int),
{
    if list_height > 0 {
        return true;
    }
    let total: usize = core.items.len();
    let at: usize = if total == 0 {
        core.selected
    } else if core.selected + 1 < total {
        core.selected + 1
    } else {
        total - 1
    };
    picker::list_picker_display_idx(&core.items, at) < core.scroll_offset
}

fn move_down(core: &mut ListPickerCore, list_height: usize)
    requires
        old(core).fits(),
        list_height <= 0x10000,
        follows_down(*old(core), list_height as int),
    ensures
        *final(core) == moved_down(*old(core), list_height as int),
{
    let total: usize = core.items.len();
    if total > 0 {
        core.selected = if core.selected + 1 < total {
            core.selected + 1
        } else {
            total - 1
        };
    }
    let row: usize = picker::list_picker_display_idx(&core.items, core.selected);
    if row >= core.scroll_offset + list_height {
        core.scroll_offset = row.saturating_sub(list_height - 1);
    }
}

fn move_up(core: &mut ListPickerCore)
    requires
        old(core).fits(),
    ensures
        *final(core) == moved_up(*old(core)),
{
    core.selected = core.selected.saturating_sub(1);
    if core.selected == 0 {
        core.scroll_offset = 0;
    } else {
        let row: usize = picker::list_picker_display_idx(&core.items, core.selected);
        if row <= core.scroll_offset {
            core.scroll_offset = row.saturating_sub(1);
        }
    }
}

/// Whether a list is as a search leaves it: its items, the selection and the scroll
/// offset.
pub open spec fn search_placed(
    before: Seq<ListPickerItem>,
    after: ListPickerCore,
    search: Seq<char>,
    free: bool,
    height: int,
) -> bool {
    let lowered = text::lowercase(search);
    let rest = picker::without_free_entry(picker::entries(before));
    let s = picker::searched(
        rest,
        search,
        lowered.len() == 0,
        picker::search_hits(rest, lowered),
        free,
        height,
    );
    &&& picker::entries(after.items@) == s.0
    &&& after.selected == s.1
    &&& after.scroll_offset == s.2
}

impl RefPicker {
    /// Whether the numbers of the list leave room for the sums formed with them.
    pub open spec fn fits(self) -> bool {
        self.core.fits() && picker::countable(self.core.items@.len() + 1)
    }

    /// Whether a key turns the list into another and leads to a step.
    pub open spec fn answered(self, key: KeyEvent, list_height: usize, after: RefPicker, r: PickStep) -> bool {
        &&& after == (RefPicker { core: after.core, ..self })
        &&& match pick_key(key) {
            PickKey::Leave => r is Leave && after == self,
            PickKey::Confirm => after == self && match picker::confirmed(
                picker::entries(self.core.items@),
                self.core.selected as int,
                search_of(self.core),
                self.allow_freeform,
            ) {
                Some(v) => r matches PickStep::Confirm(s) && s@ == v,
                None => r is Stay,
            },
            PickKey::Down => r is Stay && after.core == moved_down(
                self.core,
                list_height as int,
            ),
            PickKey::Up => r is Stay && after.core == moved_up(self.core),
            PickKey::Search => {
                &&& r is Stay
                &&& exists|taken: bool| #[trigger]
                    textarea::key_applied(
                        self.core.search_textarea,
                        key,
                        after.core.search_textarea,
                        taken,
                    )
                &&& if search_of(after.core) == search_of(self.core) {
                    after.core == (ListPickerCore {
                        search_textarea: after.core.search_textarea,
                        ..self.core
                    })
                } else {
                    search_placed(
                        self.core.items@,
                        after.core,
                        search_of(after.core),
                        self.allow_freeform,
                        list_height as int,
                    )
                }
            },
        }
    }

    /// Applies a key to the list, of which `list_height` rows are in view.
    pub fn key(&mut self, key: KeyEvent, list_height: usize) -> (r: PickStep)
        requires
            old(self).fits(),
            list_height <= 0x10000,
            key.code is Down ==> follows_down(old(self).core, list_height as int),
        ensures
            old(self).answered(key, list_height, *final(self), r),
    {
        match classify(key) {
            PickKey::Leave => PickStep::Leave,
            PickKey::Confirm => {
                let search = self.core.search_textarea.joined();
                match picker::ref_picker_confirm_value(
                    &self.core,
                    search.as_str(),
                    self.allow_freeform,
                ) {
                    Some(v) => PickStep::Confirm(v),
                    None => PickStep::Stay,
                }
            },
            PickKey::Down => {
                move_down(&mut self.core, list_height);
                PickStep::Stay
            },
            PickKey::Up => {
                move_up(&mut self.core);
                PickStep::Stay
            },
            PickKey::Search => {
                let before = self.core.search_textarea.joined();
                let ghost field = self.core.search_textarea;
                let taken = textarea::textarea_input(&mut self.core.search_textarea, key);
                assert(textarea::key_applied(field, key, self.core.search_textarea, taken));
                let after = self.core.search_textarea.joined();
                if !text::same_str(after.as_str(), before.as_str()) {
                    picker::update_ref_picker_search(
                        &mut self.core,
                        after.as_str(),
                        self.allow_freeform,
                        list_height,
                    );
                }
                PickStep::Stay
            },
        }
    }

    /// Whether a pasted text turns the list into another.
    pub open spec fn pasted(self, data: Seq<char>, after: RefPicker) -> bool {
        &&& after == (RefPicker { core: after.core, ..self })
        &&& textarea::pasted(
            self.core.search_textarea,
            after.core.search_textarea,
            input::single_line(data),
        )
        &&& search_placed(
            self.core.items@,
            after.core,
            search_of(after.core),
            self.allow_freeform,
            0,
        )
    }

    /// Puts a pasted text into the search.
    pub fn paste(&mut self, data: &str)
        requires
            old(self).fits(),
        ensures
            old(self).pasted(data@, *final(self)),
    {
        let cleaned = input::flatten(data);
        self.core.search_textarea.insert_str(cleaned.as_str());
        let search = self.core.search_textarea.joined();
        picker::update_ref_picker_search(
            &mut self.core,
            search.as_str(),
            self.allow_freeform,
            0,
        );
    }
}

impl ListPicker {
    /// Opens a list from which a value can be picked or typed.
    pub fn open(
        title: String,
        items: Vec<ListPickerItem>,
        free_entry_category: String,
        on_confirm: Action,
    ) -> (r: ListPicker)
        ensures
            r.title == title,
            r.core.items == items,
            r.core.selected == 0,
            r.core.scroll_offset == 0,
            input::holds(r.core.search_textarea, seq![]),
            search_of(r.core).len() == 0,
            r.free_entry_category == free_entry_category,
            r.on_confirm == on_confirm,
    {
        ListPicker { title, core: fresh_core(items, 0), free_entry_category, on_confirm }
    }

    /// Whether a key turns the list into another and leads to a step, given the value that
    /// confirming it gives.
    pub open spec fn answered(
        self,
        key: KeyEvent,
        picked: Option<String>,
        list_height: usize,
        after: ListPicker,
        r: PickStep,
    ) -> bool {
        &&& after == (ListPicker { core: after.core, ..self })
        &&& match pick_key(key) {
            PickKey::Leave => r is Leave && after == self,
            PickKey::Confirm => after == self && match picked {
                Some(v) => r == PickStep::Confirm(v),
                None => r is Stay,
            },
            PickKey::Down => r is Stay && after.core == moved_down(
                self.core,
                list_height as int,
            ),
            PickKey::Up => r is Stay && after.core == moved_up(self.core),
            PickKey::Search => {
                &&& exists|taken: bool| #[trigger]
                    textarea::key_applied(
                        self.core.search_textarea,
                        key,
                        after.core.search_textarea,
                        taken,
                    )
                &&& after.core == (ListPickerCore {
                    search_textarea: after.core.search_textarea,
                    ..self.core
                })
                &&& if search_of(after.core) == search_of(self.core) {
                    r is Stay
                } else {
                    r is Sync
                }
            },
        }
    }

    /// Applies a key to the list. `picked` is the value that confirming it gives, if
    /// there is one.
    pub fn key(&mut self, key: KeyEvent, picked: Option<String>, list_height: usize) -> (r: PickStep)
        requires
            old(self).core.fits(),
            list_height <= 0x10000,
            key.code is Down ==> follows_down(old(self).core, list_height as int),
        ensures
            old(self).answered(key, picked, list_height, *final(self), r),
    {
        match classify(key) {
            PickKey::Leave => PickStep::Leave,
            PickKey::Confirm => match picked {
                Some(v) => PickStep::Confirm(v),
                None => PickStep::Stay,
            },
            PickKey::Down => {
                move_down(&mut self.core, list_height);
                PickStep::Stay
            },
            PickKey::Up => {
                move_up(&mut self.core);
                PickStep::Stay
            },
            PickKey::Search => {
                let before = self.core.search_textarea.joined();
                let ghost field = self.core.search_textarea;
                let taken = textarea::textarea_input(&mut self.core.search_textarea, key);
                assert(textarea::key_applied(field, key, self.core.search_textarea, taken));
                let after = self.core.search_textarea.joined();
                if text::same_str(after.as_str(), before.as_str()) {
                    PickStep::Stay
                } else {
                    PickStep::Sync
                }
            },
        }
    }

    /// Brings the selection to the middle of the view, once the item for what was
    /// typed is up to date and if anything was.
    pub fn center_selection(&mut self, list_height: usize)
        requires
            old(self).core.fits(),
        ensures
            *final(self) == (ListPicker { core: final(self).core, ..*old(self) }),
            final(self).core == (ListPickerCore {
                scroll_offset: if search_of(old(self).core).len() == 0 {
                    old(self).core.scroll_offset
                } else {
                    picker::minus(
                        picker::display_row(
                            picker::entries(old(self).core.items@),
                            old(self).core.selected as int,
                        ),
                        list_height as int / 2,
                    ) as usize
                },
                ..old(self).core
            }),
    {
        let search = self.core.search_textarea.joined();
        if !text::is_empty_str(search.as_str()) {
            let row: usize = picker::list_picker_display_idx(&self.core.items, self.core.selected);
            self.core.scroll_offset = row.saturating_sub(list_height / 2);
        }
    }

    /// Whether a pasted text turns the list into another.
    pub open spec fn pasted(self, data: Seq<char>, after: ListPicker) -> bool {
        &&& after == (ListPicker { core: after.core, ..self })
        &&& after.core == (ListPickerCore {
            search_textarea: after.core.search_textarea,
            scroll_offset: 0,
            ..self.core
        })
        &&& textarea::pasted(
            self.core.search_textarea,
            after.core.search_textarea,
            input::single_line(data),
        )
    }

    /// Puts a pasted text into the search and goes back to the top. The item for what
    /// was typed has to be brought up to date.
    pub fn paste(&mut self, data: &str)
        ensures
            old(self).pasted(data@, *final(self)),
    {
        let cleaned = input::flatten(data);
        self.core.search_textarea.insert_str(cleaned.as_str());
        self.core.scroll_offset = 0;
    }
}

/// What a key leads to in the list of themes.
#[derive(Debug, Clone, Copy, PartialEq, Eq, Structural)]
pub enum ThemeStep {
    Stay,
    Leave,
    /// The theme is kept, and to be saved if there is one with the index.
    Confirm(usize),
}

/// The place of a search in the list of themes: a hit is selected and brought to the
/// middle of the view; without a search the theme is the one from before; without a
/// hit nothing changes.
pub open spec fn theme_searched(
    core: ListPickerCore,
    original: int,
    lowered_is_empty: bool,
    hit: Option<int>,
    height: int,
) -> (int, int) {
    if lowered_is_empty {
        (original, picker::minus(original, height / 2))
    } else {
        match hit {
            Some(i) => (i, picker::minus(i, height / 2)),
            None => (core.selected as int, core.scroll_offset as int),
        }
    }
}

/// Which themes match a search, given in lower case: only their labels count.
pub open spec fn theme_hits(e: Seq<picker::PickerEntry>, lowered: Seq<char>) -> Seq<bool> {
    Seq::new(e.len(), |i: int| text::contains(text::lowercase(e[i].label), lowered))
}

fn find_theme(items: &Vec<ListPickerItem>, lowered: &str) -> (r: Option<usize>)
    ensures
        match picker::first_hit(theme_hits(picker::entries(items@), lowered@), 0) {
            Some(i) => r matches Some(k) && k == i && k < items@.len(),
            None => r is None,
        },
{
    let ghost hits = theme_hits(picker::entries(items@), lowered@);
    let mut i: usize = 0;
    while i < items.len()
        invariant
            i <= items@.len(),
            hits == theme_hits(picker::entries(items@), lowered@),
            picker::first_hit(hits, 0) == picker::first_hit(hits, i as int),
        decreases items@.len() - i,
    {
        let label = items[i].label.to_lowercase();
        assert(picker::entries(items@)[i as int] == items@[i as int]@);
        if text::contains_str(label.as_str(), lowered) {
            return Some(i);
        }
        i = i + 1;
    }
    None
}

impl ThemePicker {
    /// Opens the list of themes at the one on show.
    pub fn open(items: Vec<ListPickerItem>, current_theme: usize) -> (r: ThemePicker)
        ensures
            r.core.items == items,
            r.core.selected == current_theme,
            r.core.scroll_offset == 0,
            input::holds(r.core.search_textarea, seq![]),
            search_of(r.core).len() == 0,
            r.original_theme_index == current_theme,
    {
        ThemePicker {
            core: fresh_core(items, current_theme),
            original_theme_index: current_theme,
        }
    }

    /// Places a search, given the theme that it hits, if any.
    pub fn place_search(
        &mut self,
        current_theme: &mut usize,
        lowered_is_empty: bool,
        hit: Option<usize>,
        list_height: usize,
    )
        ensures
            final(self).original_theme_index == old(self).original_theme_index,
            ({
                let p = theme_searched(
                    old(self).core,
                    old(self).original_theme_index as int,
                    lowered_is_empty,
                    match hit {
                        Some(i) => Some(i as int),
                        None => None,
                    },
                    list_height as int,
                );
                final(self).core == (ListPickerCore {
                    selected: p.0 as usize,
                    scroll_offset: p.1 as usize,
                    ..old(self).core
                })
            }),
            *final(current_theme) == if lowered_is_empty || hit is Some {
                final(self).core.selected
            } else {
                *old(current_theme)
            },
    {
        if lowered_is_empty {
            self.core.selected = self.original_theme_index;
            *current_theme = self.original_theme_index;
            self.core.scroll_offset = self.original_theme_index.saturating_sub(list_height / 2);
        } else {
            match hit {
                Some(i) => {
                    self.core.selected = i;
                    *current_theme = i;
                    self.core.scroll_offset = i.saturating_sub(list_height / 2);
                },
                None => {},
            }
        }
    }

    /// The theme below the selected one, from the last on the first.
    pub open spec fn index_below(core: ListPickerCore) -> int {
        let n = core.items@.len() as int;
        if n > 0 {
            (core.selected + 1) % n
        } else {
            core.selected as int
        }
    }

    /// Whether a list of which some rows are in view can follow the key that goes down.
    pub open spec fn follows_down(core: ListPickerCore, height: int) -> bool {
        picker::can_follow(ThemePicker::index_below(core), core.scroll_offset as int, height)
    }

    /// Tells whether the list can follow the key that goes down.
    pub fn can_follow_down(&self, list_height: usize) -> (r: bool)
        requires
            self.core.fits(),
        ensures
            r == ThemePicker::follows_down(self.core, list_height as int),
    {
        let total: usize = self.core.items.len();
        let at: usize = if total > 0 {
            (self.core.selected + 1) % total
        } else {
            self.core.selected
        };
        list_height > 0 || at < self.core.scroll_offset
    }

    /// The list with the theme below selected, from the last on to the first.
    pub open spec fn below(core: ListPickerCore, height: int) -> ListPickerCore {
        let at = ThemePicker::index_below(core);
        ListPickerCore {
            selected: at as usize,
            scroll_offset: if at == 0 {
                0
            } else {
                palette::down_to(at, core.scroll_offset as int, height) as usize
            },
            ..core
        }
    }

    /// The list with the theme above selected, from the first on to the last.
    pub open spec fn above(core: ListPickerCore, height: int) -> ListPickerCore {
        let n = core.items@.len() as int;
        let at = if core.selected == 0 {
            n - 1
        } else {
            core.selected - 1
        };
        ListPickerCore {
            selected: at as usize,
            scroll_offset: if at == n - 1 {
                picker::minus(n, height) as usize
            } else if at < core.scroll_offset {
                at as usize
            } else {
                core.scroll_offset
            },
            ..core
        }
    }

    /// Whether a key turns the list and the theme on show into others and leads to a
    /// step.
    pub open spec fn answered(
        self,
        key: KeyEvent,
        theme1: usize,
        list_height: usize,
        after: ThemePicker,
        theme2: usize,
        r: ThemeStep,
    ) -> bool {
        &&& after.original_theme_index == self.original_theme_index
        &&& match pick_key(key) {
            PickKey::Leave => r is Leave && after == self && theme2
                == self.original_theme_index,
            PickKey::Confirm => r == ThemeStep::Confirm(self.core.selected)
                && after == self && theme2
                == self.core.selected,
            PickKey::Down => r is Stay && after.core == ThemePicker::below(
                self.core,
                list_height as int,
            ) && theme2 == after.core.selected,
            PickKey::Up => r is Stay && after.core == ThemePicker::above(
                self.core,
                list_height as int,
            ) && theme2 == after.core.selected,
            PickKey::Search => {
                let search = search_of(after.core);
                let lowered = text::lowercase(search);
                let hit = picker::first_hit(
                    theme_hits(picker::entries(self.core.items@), lowered),
                    0,
                );
                let p = if search == search_of(self.core) {
                    (self.core.selected as int, self.core.scroll_offset as int)
                } else {
                    theme_searched(
                        self.core,
                        self.original_theme_index as int,
                        lowered.len() == 0,
                        hit,
                        list_height as int,
                    )
                };
                &&& r is Stay
                &&& exists|taken: bool| #[trigger]
                    textarea::key_applied(
                        self.core.search_textarea,
                        key,
                        after.core.search_textarea,
                        taken,
                    )
                &&& after.core == (ListPickerCore {
                    search_textarea: after.core.search_textarea,
                    selected: p.0 as usize,
                    scroll_offset: p.1 as usize,
                    ..self.core
                })
                &&& theme2 == if search != search_of(self.core) && (
                lowered.len() == 0 || hit is Some) {
                    after.core.selected
                } else {
                    theme1
                }
            },
        }
    }

    /// Applies a key to the list of themes; `current_theme` is the one on show.
    pub fn key(&mut self, key: KeyEvent, current_theme: &mut usize, list_height: usize) -> (r:
        ThemeStep)
        requires
            old(self).core.fits(),
            list_height <= 0x10000,
            key.code is Down ==> ThemePicker::follows_down(old(self).core, list_height as int),
            key.code is Up ==> old(self).core.items@.len() > 0,
        ensures
            old(self).answered(
                key,
                *old(current_theme),
                list_height,
                *final(self),
                *final(current_theme),
                r,
            ),
    {
        match classify(key) {
            PickKey::Leave => {
                *current_theme = self.original_theme_index;
                ThemeStep::Leave
            },
            PickKey::Confirm => {
                *current_theme = self.core.selected;
                ThemeStep::Confirm(self.core.selected)
            },
            PickKey::Down => {
                let total: usize = self.core.items.len();
                if total > 0 {
                    self.core.selected = (self.core.selected + 1) % total;
                }
                *current_theme = self.core.selected;
                if self.core.selected >= self.core.scroll_offset + list_height {
                    self.core.scroll_offset = self.core.selected.saturating_sub(list_height - 1);
                }
                if self.core.selected == 0 {
                    self.core.scroll_offset = 0;
                }
                ThemeStep::Stay
            },
            PickKey::Up => {
                let total: usize = self.core.items.len();
                self.core.selected = if self.core.selected == 0 {
                    total - 1
                } else {
                    self.core.selected - 1
                };
                *current_theme = self.core.selected;
                if self.core.selected < self.core.scroll_offset {
                    self.core.scroll_offset = self.core.selected;
                }
                if self.core.selected == total - 1 {
                    self.core.scroll_offset = total.saturating_sub(list_height);
                }
                ThemeStep::Stay
            },
            PickKey::Search => {
                let before = self.core.search_textarea.joined();
                let ghost field = self.core.search_textarea;
                let taken = textarea::textarea_input(&mut self.core.search_textarea, key);
                assert(textarea::key_applied(field, key, self.core.search_textarea, taken));
                let after = self.core.search_textarea.joined();
                if !text::same_str(after.as_str(), before.as_str()) {
                    let lowered = after.to_lowercase();
                    let hit = find_theme(&self.core.items, lowered.as_str());
                    let empty = text::is_empty_str(lowered.as_str());
                    self.place_search(current_theme, empty, hit, list_height);
                }
                ThemeStep::Stay
            },
        }
    }

    /// Whether a pasted text turns the list and the theme on show into others.
    pub open spec fn pasted(self, data: Seq<char>, theme1: usize, after: ThemePicker, theme2: usize) -> bool {
        &&& after.original_theme_index == self.original_theme_index
        &&& textarea::pasted(
            self.core.search_textarea,
            after.core.search_textarea,
            input::single_line(data),
        )
        &&& ({
            let lowered = text::lowercase(search_of(after.core));
            let hit = picker::first_hit(
                theme_hits(picker::entries(self.core.items@), lowered),
                0,
            );
            match hit {
                Some(i) if lowered.len() > 0 => after.core == (ListPickerCore {
                    search_textarea: after.core.search_textarea,
                    selected: i as usize,
                    scroll_offset: i as usize,
                    ..self.core
                }) && theme2 == i,
                _ => after.core == (ListPickerCore {
                    search_textarea: after.core.search_textarea,
                    ..self.core
                }) && theme2 == theme1,
            }
        })
    }

    /// Puts a pasted text into the search: a theme that it hits is selected, on show,
    /// and first in view.
    pub fn paste(&mut self, data: &str, current_theme: &mut usize)
        ensures
            old(self).pasted(data@, *old(current_theme), *final(self), *final(current_theme)),
    {
        let cleaned = input::flatten(data);
        self.core.search_textarea.insert_str(cleaned.as_str());
        let search = self.core.search_textarea.joined();
        let lowered = search.to_lowercase();
        if !text::is_empty_str(lowered.as_str()) {
            match find_theme(&self.core.items, lowered.as_str()) {
                Some(i) => {
                    self.core.selected = i;
                    *current_theme = i;
                    self.core.scroll_offset = i;
                },
                None => {},
            }
        }
    }
}

// ---------------------------------------------------------------------------
// Laws
// ---------------------------------------------------------------------------

/// Going down through the themes and up again leads back to where one was.
pub proof fn themes_go_round(core: ListPickerCore, height: int)
    requires
        core.items@.len() > 0,
        core.items@.len() <= usize::MAX,
        core.selected < core.items@.len(),
    ensures
        ThemePicker::above(ThemePicker::below(core, height), height).selected == core.selected,
        ThemePicker::below(ThemePicker::above(core, height), height).selected == core.selected,
{
    let n = core.items@.len() as int;
    if core.selected + 1 == n {
        vstd::arithmetic::div_mod::lemma_mod_self_0(n);
    } else {
        vstd::arithmetic::div_mod::lemma_small_mod((core.selected + 1) as nat, n as nat);
    }
    if core.selected == 0 {
        vstd::arithmetic::div_mod::lemma_mod_self_0(n);
    } else {
        vstd::arithmetic::div_mod::lemma_small_mod(core.selected as nat, n as nat);
    }
}

/// An item that is moved to is in view: going down it is not below the rows that are
/// in view.
pub proof fn moving_down_stays_in_view(core: ListPickerCore, height: int)
    requires
        core.fits(),
        0 < height <= 0x10000,
    ensures
        ({
            let a = moved_down(core, height);
            picker::display_row(picker::entries(core.items@), a.selected as int) < a.scroll_offset
                + height
        }),
{
    let e = picker::entries(core.items@);
    let at = palette::stepped_down(core.selected as int, core.items@.len() as int);
    picker::rows_are_bounded(e, at);
}

/// Going down a list selects the item below and going up the one above; at the ends the
/// selection stays. Nothing else of the list changes but how far it is scrolled.
pub proof fn a_list_is_walked_item_by_item(core: ListPickerCore, height: int)
    requires
        core.selected < core.items@.len(),
        core.items@.len() <= usize::MAX,
    ensures
        moved_down(core, height).selected == if core.selected + 1 < core.items@.len() {
            core.selected + 1
        } else {
            core.selected as int
        },
        moved_up(core).selected == if core.selected > 0 {
            core.selected - 1
        } else {
            0
        },
        moved_down(core, height).items == core.items && moved_up(core).items == core.items,
        moved_down(core, height).search_textarea == core.search_textarea,
        moved_up(core).search_textarea == core.search_textarea,
{
}

/// The themes go round: below the last comes the first, and above the first the last; else
/// the next one is one further down or up.
pub proof fn themes_are_walked_one_by_one(core: ListPickerCore, height: int)
    requires
        core.selected < core.items@.len(),
        core.items@.len() <= usize::MAX,
    ensures
        ThemePicker::below(core, height).selected == if core.selected + 1 < core.items@.len() {
            core.selected + 1
        } else {
            0
        },
        ThemePicker::above(core, height).selected == if core.selected > 0 {
            core.selected - 1
        } else {
            core.items@.len() - 1
        },
{
    let n = core.items@.len() as int;
    if core.selected + 1 < n {
        vstd::arithmetic::div_mod::lemma_small_mod((core.selected + 1) as nat, n as nat);
    } else {
        vstd::arithmetic::div_mod::lemma_mod_self_0(n);
    }
}

/// The theme that is selected is on show; leaving the list brings back the one from before,
/// and confirming keeps the selected one.
pub proof fn a_theme_is_on_show_while_it_is_selected(
    p: ThemePicker,
    key: KeyEvent,
    theme: usize,
    height: usize,
    after: ThemePicker,
    shown: usize,
    r: ThemeStep,
)
    requires
        p.answered(key, theme, height, after, shown, r),
    ensures
        key.code is Esc ==> shown == p.original_theme_index && r is Leave,
        key.code is Enter ==> shown == p.core.selected && r == ThemeStep::Confirm(p.core.selected),
        key.code is Down || key.code is Up ==> shown == after.core.selected && r is Stay,
        r is Confirm ==> key.code is Enter,
        r is Leave ==> key.code is Esc,
        after.original_theme_index == p.original_theme_index,
{
}

/// Enter picks the value of the selected item, escape leaves the list, and no other key does.
pub proof fn a_reference_is_picked_by_enter(
    p: RefPicker,
    key: KeyEvent,
    height: usize,
    after: RefPicker,
    r: PickStep,
)
    requires
        p.answered(key, height, after, r),
    ensures
        key.code is Enter && p.core.selected < p.core.items@.len() ==> (
        r matches PickStep::Confirm(v) && v@ == p.core.items@[p.core.selected as int].value@),
        key.code is Esc ==> r is Leave,
        r is Confirm ==> key.code is Enter,
        r is Leave ==> key.code is Esc,
        key.code is Down ==> after.core == moved_down(p.core, height as int),
        key.code is Up ==> after.core == moved_up(p.core),
{
    picker::the_selected_item_is_confirmed(
        picker::entries(p.core.items@),
        p.core.selected as int,
        search_of(p.core),
        p.allow_freeform,
    );
}

/// A search among the themes selects the first whose label matches and shows it in the middle
/// of the view; an emptied search leads back to the theme from before, and one that matches
/// none leaves things as they are.
pub proof fn a_search_selects_a_theme(
    core: ListPickerCore,
    original: int,
    hit: Option<int>,
    height: int,
)
    requires
        0 <= height,
    ensures
        theme_searched(core, original, true, hit, height).0 == original,
        hit matches Some(i) ==> theme_searched(core, original, false, hit, height).0 == i,
        hit is None ==> theme_searched(core, original, false, hit, height) == (
            core.selected as int,
            core.scroll_offset as int,
        ),
        hit matches Some(i) ==> i >= height / 2 ==> theme_searched(
            core,
            original,
            false,
            hit,
            height,
        ).1 + height / 2 == i,
{
}

/// Going down selects the theme below, from the last on the first, which is on top of the
/// view; going up the one above, from the first on the last, which is at the bottom.
pub proof fn the_view_goes_round_with_the_themes(core: ListPickerCore, height: int)
    requires
        core.selected < core.items@.len() <= usize::MAX,
        0 < height,
    ensures
        ({
            let n = core.items@.len();
            let down = ThemePicker::below(core, height);
            let up = ThemePicker::above(core, height);
            &&& core.selected + 1 < n ==> down.selected == core.selected + 1
            &&& core.selected + 1 == n ==> down.selected == 0 && down.scroll_offset == 0
            &&& core.selected > 0 ==> up.selected == core.selected - 1
            &&& core.selected == 0 ==> up.selected == n - 1
            &&& core.selected == 0 && n >= height ==> up.scroll_offset == n - height
            &&& core.selected == 0 && n < height ==> up.scroll_offset == 0
            &&& 0 < core.selected && core.selected - 1 >= core.scroll_offset ==> up.scroll_offset
                == core.scroll_offset
            &&& 0 < core.selected && core.selected - 1 < core.scroll_offset ==> up.scroll_offset
                == core.selected - 1
        }),
{
    if core.selected + 1 < core.items@.len() {
        vstd::arithmetic::div_mod::lemma_small_mod(
            (core.selected + 1) as nat,
            core.items@.len(),
        );
    } else {
        vstd::arithmetic::div_mod::lemma_mod_self_0(core.items@.len() as int);
    }
}

} // verus!
