//! Searchable lists: items under category headers, of which one is selected.

use crate::gui::input::{MouseButton, MouseEvent, MouseEventKind};
use crate::gui::textarea::TextField;
use crate::text;
use vstd::prelude::*;

verus! {

/// An item of a list.
#[derive(Debug, Clone, PartialEq, Eq)]
pub struct ListPickerItem {
    pub value: String,
    pub label: String,
    pub category: String,
}

/// The texts of an item.
pub struct PickerEntry {
    pub value: Seq<char>,
    pub label: Seq<char>,
    pub category: Seq<char>,
}

impl View for ListPickerItem {
    type V = PickerEntry;

    open spec fn view(&self) -> PickerEntry {
        PickerEntry { value: self.value@, label: self.label@, category: self.category@ }
    }
}

/// The texts of items, in order.
pub open spec fn entries(v: Seq<ListPickerItem>) -> Seq<PickerEntry> {
    Seq::new(v.len(), |i: int| v[i]@)
}

/// A searchable list: what it holds, what is selected, and how far it is scrolled.
#[derive(Debug)]
pub struct ListPickerCore {
    pub items: Vec<ListPickerItem>,
    pub selected: usize,
    pub search_textarea: TextField,
    pub scroll_offset: usize,
}

/// Whether a number leaves room for the sums that are formed with it.
pub open spec fn countable(n: nat) -> bool {
    4 * n + 0x10000 <= usize::MAX
}

impl ListPickerCore {
    /// Whether the numbers of the list leave room for the sums formed with them.
    pub open spec fn fits(self) -> bool {
        countable(self.items@.len()) && countable(self.selected as nat) && countable(
            self.scroll_offset as nat,
        )
    }
}

// ---------------------------------------------------------------------------
// Rows
// ---------------------------------------------------------------------------

/// The category that was last named before item `i`.
pub open spec fn category_before(e: Seq<PickerEntry>, i: int) -> Seq<char>
    decreases i,
{
    if i <= 0 {
        seq![]
    } else if e[i - 1].category.len() > 0 {
        e[i - 1].category
    } else {
        category_before(e, i - 1)
    }
}

/// Whether a header row stands above item `i`: it names a category other than the
/// one named last.
pub open spec fn has_header(e: Seq<PickerEntry>, i: int) -> bool {
    e[i].category.len() > 0 && e[i].category != category_before(e, i)
}

/// How many header rows the first `n` items have.
pub open spec fn headers(e: Seq<PickerEntry>, n: int) -> nat
    decreases n,
{
    if n <= 0 {
        0
    } else {
        headers(e, n - 1) + if has_header(e, n - 1) {
            1nat
        } else {
            0
        }
    }
}

/// The row of an item, headers counted; behind the last item, the number of rows.
pub open spec fn display_row(e: Seq<PickerEntry>, sel: int) -> int {
    if sel < e.len() {
        sel + headers(e, sel + 1)
    } else {
        e.len() as int + headers(e, e.len() as int)
    }
}

proof fn lemma_headers_bound(e: Seq<PickerEntry>, n: int)
    requires
        0 <= n,
    ensures
        headers(e, n) <= n,
    decreases n,
{
    if n > 0 {
        lemma_headers_bound(e, n - 1);
    }
}

proof fn lemma_headers_grow(e: Seq<PickerEntry>, m: int, n: int)
    requires
        0 <= m <= n,
    ensures
        headers(e, m) <= headers(e, n),
    decreases n - m,
{
    if m < n {
        lemma_headers_grow(e, m, n - 1);
    }
}

/// A row is at most twice the number of items.
pub proof fn rows_are_bounded(e: Seq<PickerEntry>, sel: int)
    requires
        0 <= sel,
    ensures
        0 <= display_row(e, sel) <= 2 * e.len(),
{
    if sel < e.len() {
        lemma_headers_bound(e, sel + 1);
        lemma_headers_grow(e, sel + 1, e.len() as int);
        lemma_headers_bound(e, e.len() as int);
    } else {
        lemma_headers_bound(e, e.len() as int);
    }
}

/// Finds the row of an item.
pub fn list_picker_display_idx(items: &Vec<ListPickerItem>, sel: usize) -> (r: usize)
    requires
        countable(items@.len()),
    ensures
        r == display_row(entries(items@), sel as int),
{
    let ghost e = entries(items@);
    let mut di: usize = 0;
    let mut last_cat: Vec<char> = Vec::new();
    let mut ei: usize = 0;
    while ei < items.len()
        invariant
            ei <= items@.len(),
            e == entries(items@),
            countable(items@.len()),
            di == ei + headers(e, ei as int),
            di <= 2 * ei,
            last_cat@ == category_before(e, ei as int),
            ei <= sel,
        decreases items@.len() - ei,
    {
        assert(e[ei as int] == items@[ei as int]@);
        let cat = text::chars_of(items[ei].category.as_str());
        if cat.len() > 0 && !text::same(cat.as_slice(), last_cat.as_slice()) {
            di = di + 1;
            last_cat = cat;
        }
        if ei == sel {
            return di;
        }
        di = di + 1;
        ei = ei + 1;
    }
    di
}

/// How many rows of a list are visible: the popup takes three fifths of the
/// screen, at least ten rows and never the last four, less two for its border and
/// three for the search field and the hint.
pub open spec fn visible_rows(h: int) -> int {
    let wanted = if h * 60 / 100 >= 10 {
        h * 60 / 100
    } else {
        10
    };
    let limit = if h >= 4 {
        h - 4
    } else {
        0
    };
    let popup = if wanted <= limit {
        wanted
    } else {
        limit
    };
    if popup >= 5 {
        popup - 5
    } else {
        0
    }
}

/// The number of visible rows of a list on a screen of a height.
pub fn list_picker_visible_height(terminal_height: usize) -> (r: usize)
    requires
        terminal_height * 60 <= usize::MAX,
    ensures
        r == visible_rows(terminal_height as int),
{
    let share: usize = terminal_height * 60 / 100;
    let wanted: usize = if share >= 10 {
        share
    } else {
        10
    };
    let limit: usize = terminal_height.saturating_sub(4);
    let popup: usize = if wanted <= limit {
        wanted
    } else {
        limit
    };
    popup.saturating_sub(2).saturating_sub(3)
}

// ---------------------------------------------------------------------------
// References
// ---------------------------------------------------------------------------

/// The category of the item that stands for what was typed.
pub open spec fn free_entry_category() -> Seq<char> {
    "[ref]"@
}

/// What is confirmed: the selected item's value, or the typed text where free text
/// is allowed and there is any.
pub open spec fn confirmed(e: Seq<PickerEntry>, selected: int, search: Seq<char>, free: bool) -> Option<
    Seq<char>,
> {
    if selected < e.len() {
        Some(e[selected].value)
    } else if free && text::trim(search).len() > 0 {
        Some(text::trim(search))
    } else {
        None
    }
}

/// The value that a reference list confirms.
pub fn ref_picker_confirm_value(core: &ListPickerCore, search: &str, allow_freeform: bool) -> (r:
    Option<String>)
    ensures
        match r {
            Some(s) => confirmed(
                entries(core.items@),
                core.selected as int,
                search@,
                allow_freeform,
            ) == Some(s@),
            None => confirmed(
                entries(core.items@),
                core.selected as int,
                search@,
                allow_freeform,
            ) is None,
        },
{
    if core.selected < core.items.len() {
        return Some(core.items[core.selected].value.clone());
    }
    if allow_freeform {
        let t = text::trim_str(search);
        if !text::is_empty_str(t.as_str()) {
            return Some(t);
        }
    }
    None
}

/// The items without the one that stood for what was typed before.
pub open spec fn without_free_entry(e: Seq<PickerEntry>) -> Seq<PickerEntry> {
    if e.len() > 0 && e[0].category == free_entry_category() {
        e.remove(0)
    } else {
        e
    }
}

/// The item that stands for what is typed.
pub open spec fn free_entry(search: Seq<char>) -> PickerEntry {
    PickerEntry {
        value: text::trim(search),
        label: text::trim(search),
        category: free_entry_category(),
    }
}

/// The first item from index `i` on that is a hit.
pub open spec fn first_hit(hits: Seq<bool>, i: int) -> Option<int>
    decreases hits.len() - i,
{
    if i < 0 || i >= hits.len() {
        None
    } else if hits[i] {
        Some(i)
    } else {
        first_hit(hits, i + 1)
    }
}

/// The items, the selection and the scroll offset after a search in a list without
/// an item for typed text: what was typed comes first where free text is allowed;
/// the first hit behind it is selected and brought to the middle. Without a hit the
/// typed text is selected, or nothing.
pub open spec fn searched(
    rest: Seq<PickerEntry>,
    search: Seq<char>,
    lowered_is_empty: bool,
    hits: Seq<bool>,
    free: bool,
    height: int,
) -> (Seq<PickerEntry>, int, int) {
    if lowered_is_empty {
        (rest, 0, 0)
    } else {
        let all = if free {
            rest.insert(0, free_entry(search))
        } else {
            rest
        };
        let start = if free {
            1int
        } else {
            0
        };
        match first_hit(hits, 0) {
            Some(i) => {
                let row = display_row(all, i + start);
                let half = height / 2;
                (
                    all,
                    i + start,
                    if height == 0 || row < half {
                        0
                    } else {
                        row - half
                    },
                )
            },
            None => (
                all,
                if free {
                    0
                } else {
                    all.len() as int
                },
                0,
            ),
        }
    }
}

fn find_hit(hits: &Vec<bool>) -> (r: Option<usize>)
    ensures
        match r {
            Some(i) => first_hit(hits@, 0) == Some(i as int) && i < hits@.len(),
            None => first_hit(hits@, 0) is None,
        },
{
    let mut i: usize = 0;
    while i < hits.len()
        invariant
            i <= hits@.len(),
            first_hit(hits@, 0) == first_hit(hits@, i as int),
        decreases hits@.len() - i,
    {
        if hits[i] {
            return Some(i);
        }
        i = i + 1;
    }
    None
}

fn drop_free_entry(items: &mut Vec<ListPickerItem>)
    ensures
        entries(final(items)@) == without_free_entry(entries(old(items)@)),
{
    let ghost before = items@;
    if items.len() > 0 && text::same_str(items[0].category.as_str(), "[ref]") {
        items.remove(0);
        assert(entries(items@) =~= entries(before).remove(0));
    } else if items.len() > 0 {
        assert(entries(before)[0] == before[0]@);
    }
}

/// Applies a search to a list without an item for typed text, given which of its
/// items are hits.
pub fn place_ref_picker_search(
    core: &mut ListPickerCore,
    new_search: &str,
    lowered_is_empty: bool,
    hits: &Vec<bool>,
    allow_freeform: bool,
    list_height: usize,
)
    requires
        countable(old(core).items@.len() + 1),
        hits@.len() == old(core).items@.len(),
    ensures
        ({
            let s = searched(
                entries(old(core).items@),
                new_search@,
                lowered_is_empty,
                hits@,
                allow_freeform,
                list_height as int,
            );
            &&& entries(final(core).items@) == s.0
            &&& final(core).selected == s.1
            &&& final(core).scroll_offset == s.2
        }),
        final(core).search_textarea == old(core).search_textarea,
{
    if lowered_is_empty {
        core.selected = 0;
        core.scroll_offset = 0;
        return;
    }
    let ghost rest = core.items@;
    if allow_freeform {
        let typed = text::trim_str(new_search);
        core.items.insert(
            0,
            ListPickerItem {
                value: typed.clone(),
                label: typed,
                category: "[ref]".to_string(),
            },
        );
        assert(entries(core.items@) =~= entries(rest).insert(0, free_entry(new_search@)));
    }
    let list_start: usize = if allow_freeform {
        1
    } else {
        0
    };
    match find_hit(hits) {
        Some(idx) => {
            core.selected = idx + list_start;
            if list_height == 0 {
                core.scroll_offset = 0;
            } else {
                let row: usize = list_picker_display_idx(&core.items, core.selected);
                core.scroll_offset = row.saturating_sub(list_height / 2);
            }
        },
        None => {
            core.selected = if allow_freeform {
                0
            } else {
                core.items.len()
            };
            core.scroll_offset = 0;
        },
    }
}

/// Whether an item matches a search, given in lower case.
pub open spec fn matches_search(e: PickerEntry, lowered: Seq<char>) -> bool {
    text::contains(text::lowercase(e.label), lowered) || text::contains(
        text::lowercase(e.value),
        lowered,
    )
}

/// Which items match a search.
pub open spec fn search_hits(e: Seq<PickerEntry>, lowered: Seq<char>) -> Seq<bool> {
    Seq::new(e.len(), |i: int| matches_search(e[i], lowered))
}

fn hits_of(items: &Vec<ListPickerItem>, lowered: &str) -> (r: Vec<bool>)
    ensures
        r@ == search_hits(entries(items@), lowered@),
{
    let mut r: Vec<bool> = Vec::new();
    let mut i: usize = 0;
    while i < items.len()
        invariant
            i <= items@.len(),
            r@.len() == i,
            forall|j: int|
                0 <= j < i ==> #[trigger] r@[j] == matches_search(items@[j]@, lowered@),
        decreases items@.len() - i,
    {
        let label = items[i].label.to_lowercase();
        let value = items[i].value.to_lowercase();
        r.push(
            text::contains_str(label.as_str(), lowered) || text::contains_str(
                value.as_str(),
                lowered,
            ),
        );
        i = i + 1;
    }
    assert(r@ =~= search_hits(entries(items@), lowered@));
    r
}

/// Applies what was typed to a reference list. Letter case does not matter.
pub fn update_ref_picker_search(
    core: &mut ListPickerCore,
    new_search: &str,
    allow_freeform: bool,
    list_height: usize,
)
    requires
        countable(old(core).items@.len() + 1),
    ensures
        ({
            let lowered = text::lowercase(new_search@);
            let rest = without_free_entry(entries(old(core).items@));
            let s = searched(
                rest,
                new_search@,
                lowered.len() == 0,
                search_hits(rest, lowered),
                allow_freeform,
                list_height as int,
            );
            &&& entries(final(core).items@) == s.0
            &&& final(core).selected == s.1
            &&& final(core).scroll_offset == s.2
        }),
        final(core).search_textarea == old(core).search_textarea,
{
    drop_free_entry(&mut core.items);
    let lowered = new_search.to_lowercase();
    let hits = hits_of(&core.items, lowered.as_str());
    let empty = text::is_empty_str(lowered.as_str());
    assert(entries(core.items@).len() == core.items@.len());
    place_ref_picker_search(core, new_search, empty, &hits, allow_freeform, list_height);
}

// ---------------------------------------------------------------------------
// Mouse
// ---------------------------------------------------------------------------

/// Whether any item names a category.
pub open spec fn has_categories(e: Seq<PickerEntry>) -> bool {
    exists|i: int| 0 <= i < e.len() && (#[trigger] e[i]).category.len() > 0
}

/// The number of rows of the list, headers counted where there are categories.
pub open spec fn row_count(e: Seq<PickerEntry>) -> int {
    if has_categories(e) {
        display_row(e, e.len() - 1) + 1
    } else {
        e.len() as int
    }
}

/// The greater of two numbers.
pub open spec fn at_least(a: int, b: int) -> int {
    if a >= b {
        a
    } else {
        b
    }
}

/// The lesser of two numbers.
pub open spec fn at_most(a: int, b: int) -> int {
    if a <= b {
        a
    } else {
        b
    }
}

/// A difference, or zero where it is negative.
pub open spec fn minus(a: int, b: int) -> int {
    if a >= b {
        a - b
    } else {
        0
    }
}

/// Where the popup of a list stands on the screen and where its rows are.
pub struct PickerArea {
    pub x: int,
    pub width: int,
    pub first_row: int,
    pub rows: int,
}

/// The popup of a list on a screen of a width and a height.
pub open spec fn picker_area(w: int, h: int) -> PickerArea {
    let width = at_least(at_most(w * 60 / 100, 60), 30);
    let height = at_most(at_least(h * 60 / 100, 10), minus(h, 4));
    PickerArea {
        x: minus(w, width) / 2,
        width,
        first_row: minus(h, height) / 2 + 3,
        rows: minus(minus(height, 2), 3),
    }
}

/// The item whose row a click on a list hits, if it hits one: a header is none.
pub open spec fn clicked_item(
    e: Seq<PickerEntry>,
    scroll: int,
    a: PickerArea,
    col: int,
    row: int,
    i: int,
) -> bool {
    let shown = at_most(scroll, minus(row_count(e), a.rows));
    &&& a.first_row <= row < a.first_row + a.rows
    &&& a.x <= col < a.x + a.width
    &&& 0 <= i < e.len()
    &&& (if has_categories(e) {
        display_row(e, i)
    } else {
        i
    }) == shown + (row - a.first_row)
}

/// Rows of items grow with the items.
pub proof fn rows_are_in_order(e: Seq<PickerEntry>, i: int, j: int)
    requires
        0 <= i < j < e.len(),
    ensures
        display_row(e, i) < display_row(e, j),
{
    lemma_headers_grow(e, i + 1, j + 1);
}

fn any_category(items: &Vec<ListPickerItem>) -> (r: bool)
    ensures
        r == has_categories(entries(items@)),
{
    let ghost e = entries(items@);
    let mut i: usize = 0;
    while i < items.len()
        invariant
            i <= items@.len(),
            e == entries(items@),
            forall|j: int| 0 <= j < i ==> (#[trigger] e[j]).category.len() == 0,
        decreases items@.len() - i,
    {
        assert(e[i as int] == items@[i as int]@);
        if !text::is_empty_str(items[i].category.as_str()) {
            return true;
        }
        i = i + 1;
    }
    false
}

/// Finds the item that stands in a row.
fn item_in_row(items: &Vec<ListPickerItem>, row: usize) -> (r: Option<usize>)
    requires
        countable(items@.len()),
    ensures
        match r {
            Some(i) => i < items@.len() && display_row(entries(items@), i as int) == row,
            None => forall|i: int|
                0 <= i < items@.len() ==> #[trigger] display_row(entries(items@), i) != row,
        },
{
    let ghost e = entries(items@);
    let mut i: usize = 0;
    while i < items.len()
        invariant
            i <= items@.len(),
            e == entries(items@),
            countable(items@.len()),
            forall|j: int| 0 <= j < i ==> #[trigger] display_row(e, j) != row,
        decreases items@.len() - i,
    {
        if list_picker_display_idx(items, i) == row {
            return Some(i);
        }
        i = i + 1;
    }
    None
}

/// Whether a click can be handled: it needs a screen of a size that the popup's share
/// of it can be computed for.
pub open spec fn click_handled(kind: MouseEventKind, w: int, h: int) -> bool {
    kind == MouseEventKind::Down(MouseButton::Left) ==> w * 60 <= u16::MAX && h * 60 <= u16::MAX
}

/// Whether a view can follow a selection down to a row: it has a row to show it in, or
/// begins below it.
pub open spec fn can_follow(row: int, scroll: int, rows: int) -> bool {
    rows > 0 || row < scroll
}

/// The row to which the wheel turns a list down.
pub open spec fn wheel_row(core: ListPickerCore) -> int {
    let e = entries(core.items@);
    display_row(e, at_most(core.selected + 1, minus(e.len() as int, 1)))
}

/// Whether a list can follow the wheel.
pub open spec fn follows_wheel(core: ListPickerCore, kind: MouseEventKind, h: int) -> bool {
    kind == MouseEventKind::ScrollDown ==> can_follow(
        wheel_row(core),
        core.scroll_offset as int,
        visible_rows(h),
    )
}

/// Tells whether a list can follow the wheel.
pub fn can_follow_wheel(core: &ListPickerCore, kind: MouseEventKind, h: u16) -> (r: bool)
    requires
        core.fits(),
    ensures
        r == follows_wheel(*core, kind, h as int),
{
    if kind != MouseEventKind::ScrollDown || list_picker_visible_height(h as usize) > 0 {
        return true;
    }
    let last: usize = core.items.len().saturating_sub(1);
    let at: usize = if core.selected + 1 <= last {
        core.selected + 1
    } else {
        last
    };
    list_picker_display_idx(&core.items, at) < core.scroll_offset
}

/// Whether the mouse turns a list into another: the wheel moves the selection and keeps
/// it in view, a click selects the item that it hits.
pub open spec fn list_moused(core: ListPickerCore, mouse: MouseEvent, w: u16, h: u16, after: ListPickerCore) -> bool {
    &&& after.items == core.items
    &&& after.search_textarea == core.search_textarea
    &&& match mouse.kind {
        MouseEventKind::ScrollUp => {
            &&& after.selected == minus(core.selected as int, 1)
            &&& after.scroll_offset == at_most(
                core.scroll_offset as int,
                after.selected as int,
            )
        },
        MouseEventKind::ScrollDown => {
            let e = entries(core.items@);
            let rows = visible_rows(h as int);
            let row = display_row(e, after.selected as int);
            &&& after.selected == at_most(core.selected + 1, minus(e.len() as int, 1))
            &&& after.scroll_offset == if row >= core.scroll_offset + rows {
                minus(row, rows - 1)
            } else {
                core.scroll_offset as int
            }
        },
        MouseEventKind::Down(MouseButton::Left) => {
            let e = entries(core.items@);
            let a = picker_area(w as int, h as int);
            let scroll = core.scroll_offset as int;
            &&& after.scroll_offset == core.scroll_offset
            &&& after.selected == core.selected || clicked_item(
                e,
                scroll,
                a,
                mouse.column as int,
                mouse.row as int,
                after.selected as int,
            )
            &&& forall|i: int|
                #[trigger] clicked_item(e, scroll, a, mouse.column as int, mouse.row as int, i)
                    ==> after.selected == i
        },
        _ => after == core,
    }
}

/// What the mouse does to a list: the wheel moves the selection and keeps it in
/// view, a click selects the item that it hits.
pub fn handle_list_picker_mouse(
    core: &mut ListPickerCore,
    mouse: MouseEvent,
    layout_width: u16,
    layout_height: u16,
)
    requires
        old(core).fits(),
        click_handled(mouse.kind, layout_width as int, layout_height as int),
        follows_wheel(*old(core), mouse.kind, layout_height as int),
    ensures
        list_moused(*old(core), mouse, layout_width, layout_height, *final(core)),
{
    let total: usize = core.items.len();
    match mouse.kind {
        MouseEventKind::ScrollUp => {
            core.selected = core.selected.saturating_sub(1);
            if core.selected < core.scroll_offset {
                core.scroll_offset = core.selected;
            }
        },
        MouseEventKind::ScrollDown => {
            let lh: usize = list_picker_visible_height(layout_height as usize);
            let last: usize = total.saturating_sub(1);
            core.selected = if core.selected + 1 <= last {
                core.selected + 1
            } else {
                last
            };
            let di: usize = list_picker_display_idx(&core.items, core.selected);
            if di >= core.scroll_offset + lh {
                core.scroll_offset = di.saturating_sub(lh - 1);
            }
        },
        MouseEventKind::Down(MouseButton::Left) => {
            let mut popup_width: u16 = layout_width * 60 / 100;
            if popup_width > 60 {
                popup_width = 60;
            }
            if popup_width < 30 {
                popup_width = 30;
            }
            let mut popup_height: u16 = layout_height * 60 / 100;
            if popup_height < 10 {
                popup_height = 10;
            }
            let limit: u16 = layout_height.saturating_sub(4);
            if popup_height > limit {
                popup_height = limit;
            }
            let x: u16 = layout_width.saturating_sub(popup_width) / 2;
            let y: u16 = layout_height.saturating_sub(popup_height) / 2;
            let list_start: u16 = y + 3;
            let list_height: u16 = popup_height.saturating_sub(2).saturating_sub(3);
            let ghost e = entries(core.items@);
            let ghost a = picker_area(layout_width as int, layout_height as int);
            assert(a.x == x && a.width == popup_width && a.first_row == list_start && a.rows
                == list_height);
            if mouse.row >= list_start && mouse.row < list_start + list_height && mouse.column >= x
                && mouse.column < x + popup_width {
                let row_in_list: usize = (mouse.row - list_start) as usize;
                let categories = any_category(&core.items);
                let rows: usize = if categories {
                    proof {
                        lemma_headers_bound(e, total as int);
                    }
                    list_picker_display_idx(&core.items, total.saturating_sub(1)) + 1
                } else {
                    total
                };
                let most: usize = rows.saturating_sub(list_height as usize);
                let shown: usize = if core.scroll_offset <= most {
                    core.scroll_offset
                } else {
                    most
                };
                let wanted: usize = shown + row_in_list;
                if categories {
                    match item_in_row(&core.items, wanted) {
                        Some(i) => {
                            core.selected = i;
                            assert forall|j: int|
                                #[trigger] clicked_item(
                                    e,
                                    old(core).scroll_offset as int,
                                    a,
                                    mouse.column as int,
                                    mouse.row as int,
                                    j,
                                ) implies i == j by {
                                if i < j {
                                    rows_are_in_order(e, i as int, j);
                                } else if j < i {
                                    rows_are_in_order(e, j, i as int);
                                }
                            }
                        },
                        None => {},
                    }
                } else if wanted < total {
                    core.selected = wanted;
                }
            }
        },
        _ => {},
    }
}

/// A row shows one item at most.
pub proof fn a_click_hits_one_item(
    e: Seq<PickerEntry>,
    scroll: int,
    a: PickerArea,
    col: int,
    row: int,
    i: int,
    j: int,
)
    requires
        clicked_item(e, scroll, a, col, row, i),
        clicked_item(e, scroll, a, col, row, j),
    ensures
        i == j,
{
    if has_categories(e) {
        if i < j {
            rows_are_in_order(e, i, j);
        } else if j < i {
            rows_are_in_order(e, j, i);
        }
    }
}

/// The greater and the lesser of two numbers are one of them, and bound both; a difference
/// never falls below zero.
pub proof fn bounds_are_what_they_say(a: int, b: int)
    ensures
        at_least(a, b) >= a && at_least(a, b) >= b,
        at_least(a, b) == a || at_least(a, b) == b,
        at_most(a, b) <= a && at_most(a, b) <= b,
        at_most(a, b) == a || at_most(a, b) == b,
        minus(a, b) >= 0,
        a >= b ==> minus(a, b) + b == a,
        a <= b ==> minus(a, b) == 0,
{
}

/// An item stands right below the one before it, or with one row for a header between them
/// where it names another category; the first item of a category is the only one with a
/// header.
pub proof fn a_header_stands_where_the_category_changes(e: Seq<PickerEntry>, i: int)
    requires
        0 <= i < e.len() - 1,
        e[i].category.len() > 0,
    ensures
        e[i + 1].category == e[i].category || e[i + 1].category.len() == 0 ==> display_row(e, i + 1)
            == display_row(e, i) + 1,
        e[i + 1].category != e[i].category && e[i + 1].category.len() > 0 ==> display_row(e, i + 1)
            == display_row(e, i) + 2,
        e[0].category.len() > 0 ==> display_row(e, 0) == 1,
        e[0].category.len() == 0 ==> display_row(e, 0) == 0,
{
    reveal_with_fuel(headers, 2);
    assert(category_before(e, i + 1) == e[i].category);
    assert(headers(e, i + 2) == headers(e, i + 1) + if has_header(e, i + 1) {
        1nat
    } else {
        0
    });
}

/// Without categories an item stands in the row of its number.
pub proof fn rows_without_categories(e: Seq<PickerEntry>, n: int)
    requires
        !has_categories(e),
        0 <= n <= e.len(),
    ensures
        headers(e, n) == 0,
        n < e.len() ==> display_row(e, n) == n,
        row_count(e) == e.len(),
    decreases n,
{
    if n > 0 {
        rows_without_categories(e, n - 1);
        assert(e[n - 1].category.len() == 0);
    }
    if n < e.len() {
        assert(e[n].category.len() == 0);
        assert(!has_header(e, n));
        assert(headers(e, n + 1) == headers(e, n));
    }
}

/// The selected item is confirmed, whatever was typed; with nothing selected it is the
/// typed text without the space around it, where free text is allowed.
pub proof fn the_selected_item_is_confirmed(
    e: Seq<PickerEntry>,
    selected: int,
    search: Seq<char>,
    free: bool,
)
    requires
        0 <= selected,
    ensures
        selected < e.len() ==> confirmed(e, selected, search, free) == Some(e[selected].value),
        selected >= e.len() && !free ==> confirmed(e, selected, search, free) is None,
        selected >= e.len() && free && text::trim(search).len() > 0 ==> confirmed(
            e,
            selected,
            search,
            free,
        ) == Some(text::trim(search)),
        selected >= e.len() && text::trim(search).len() == 0 ==> confirmed(
            e,
            selected,
            search,
            free,
        ) is None,
{
}

proof fn lemma_first_hit(hits: Seq<bool>, i: int)
    requires
        0 <= i <= hits.len(),
    ensures
        match first_hit(hits, i) {
            Some(k) => i <= k < hits.len() && hits[k] && forall|j: int|
                i <= j < k ==> !#[trigger] hits[j],
            None => forall|j: int| i <= j < hits.len() ==> !#[trigger] hits[j],
        },
    decreases hits.len() - i,
{
    if i < hits.len() && !hits[i] {
        lemma_first_hit(hits, i + 1);
    }
}

/// A search keeps all items in order and puts what was typed in front where free text is
/// allowed; it selects the first item that matches. Where none does, what was typed is
/// selected, or nothing.
pub proof fn a_search_selects_the_first_match(
    rest: Seq<PickerEntry>,
    search: Seq<char>,
    lowered: Seq<char>,
    free: bool,
    height: int,
)
    requires
        lowered.len() > 0,
    ensures
        ({
            let s = searched(rest, search, false, search_hits(rest, lowered), free, height);
            let none = forall|j: int|
                0 <= j < rest.len() ==> !matches_search(#[trigger] rest[j], lowered);
            &&& s.0 == if free {
                seq![
                    PickerEntry {
                        value: text::trim(search),
                        label: text::trim(search),
                        category: "[ref]"@,
                    },
                ] + rest
            } else {
                rest
            }
            &&& none ==> s.1 == if free {
                0
            } else {
                rest.len() as int
            }
            &&& !none ==> {
                let i = if free {
                    s.1 - 1
                } else {
                    s.1
                };
                &&& 0 <= i < rest.len()
                &&& matches_search(rest[i], lowered)
                &&& forall|j: int| 0 <= j < i ==> !matches_search(#[trigger] rest[j], lowered)
            }
        }),
        searched(rest, search, true, search_hits(rest, lowered), free, height) == (rest, 0int, 0int),
{
    let hits = search_hits(rest, lowered);
    lemma_first_hit(hits, 0);
    assert(forall|j: int| 0 <= j < rest.len() ==> hits[j] == matches_search(#[trigger] rest[j], lowered));
    let s = searched(rest, search, false, hits, free, height);
    if free {
        assert(rest.insert(0, free_entry(search)) =~= seq![free_entry(search)] + rest);
    }
    match first_hit(hits, 0) {
        Some(k) => {
            assert(hits[k]);
            assert(matches_search(rest[k], lowered));
            assert forall|j: int| 0 <= j < k implies !matches_search(#[trigger] rest[j], lowered) by {
                assert(!hits[j]);
            }
        },
        None => {
            assert forall|j: int| 0 <= j < rest.len() implies !matches_search(
                #[trigger] rest[j],
                lowered,
            ) by {
                assert(!hits[j]);
            }
        },
    }
}

/// What was typed before is taken out again before what is typed now comes in, so that a
/// list never holds two of them.
pub proof fn typed_text_is_replaced(rest: Seq<PickerEntry>, search: Seq<char>)
    requires
        rest.len() > 0 ==> rest[0].category != "[ref]"@,
    ensures
        without_free_entry(seq![free_entry(search)] + rest) == rest,
        without_free_entry(rest) == rest,
{
    let all = seq![free_entry(search)] + rest;
    assert(all[0] == free_entry(search));
    assert(all.remove(0) =~= rest);
}

/// The rows of a list are those between its search field and its hint, on any screen: what
/// is scrolled and what is clicked go by the same number. They never reach beyond the
/// screen.
pub proof fn the_rows_are_those_on_the_screen(w: int, h: int)
    requires
        0 <= w,
        0 <= h,
    ensures
        picker_area(w, h).rows == visible_rows(h),
        0 <= visible_rows(h),
        visible_rows(h) > 0 ==> picker_area(w, h).first_row + picker_area(w, h).rows < h,
        h >= 20 ==> visible_rows(h) == h * 3 / 5 - 5,
        w >= 100 ==> picker_area(w, h).width == 60,
{
    assert(h >= 20 ==> h * 60 / 100 == h * 3 / 5);
}

/// The list has one row behind that of its last item, and as many as items where no header is
/// shown.
pub proof fn the_last_item_has_the_last_row(e: Seq<PickerEntry>)
    requires
        e.len() > 0,
    ensures
        has_categories(e) ==> row_count(e) == display_row(e, e.len() - 1) + 1 && row_count(e)
            == e.len() + headers(e, e.len() as int),
        !has_categories(e) ==> row_count(e) == e.len(),
{
}

} // verus!
