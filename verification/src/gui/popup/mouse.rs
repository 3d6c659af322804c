//! What the mouse does while a window is open.

use super::checklist;
use super::checklist::{Checklist, ChecklistItem};
use super::keys::{PopupState, Popups};
use super::menu;
use super::menu::{Menu, MenuStep};
use super::palette;
use super::palette::{CommandPalette, CommandSection};
use super::pickers::ThemePicker;
use crate::gui::input::{MouseButton, MouseEvent, MouseEventKind};
use crate::gui::picker;
use crate::gui::picker::{ListPickerCore, PickerArea};
use crate::text;
use vstd::prelude::*;

verus! {

/// What the mouse depends on beside the windows.
#[derive(Debug, Clone, Copy, PartialEq, Eq, Structural)]
pub struct MouseEnv {
    pub screen_width: u16,
    pub screen_height: u16,
    /// The item of the menu or of the checklist under the mouse, if one is.
    pub item_at: Option<usize>,
}

/// What the mouse leads to, beyond the windows.
#[derive(Debug, Clone, Copy, PartialEq, Eq, Structural)]
pub enum PopupMouseEffect {
    Nothing,
    /// The item with this index of the menu put aside is run.
    RunMenu(usize),
}

// ---------------------------------------------------------------------------
// The palette of commands
// ---------------------------------------------------------------------------

/// The rows of the palette: its visible commands, and a title above each section
/// that has some.
pub open spec fn palette_lines(f: Seq<Seq<bool>>) -> int {
    (palette::total(f, f.len() as int) + palette::titles(f, f.len() as int)) as int
}

/// The window of a palette with some rows, on a screen of a width and a height.
pub open spec fn palette_area(w: int, h: int, rows: int) -> PickerArea {
    let width = picker::at_least(picker::at_most(w * 70 / 100, 72), 36);
    let height = picker::at_least(
        picker::at_most(picker::at_least(rows, 1) + 5, picker::minus(h, 4)),
        10,
    );
    PickerArea {
        x: picker::minus(w, width) / 2,
        width,
        first_row: picker::minus(h, height) / 2 + 3,
        rows: height - 5,
    }
}

/// Whether a click hits the row of a visible command of the palette.
pub open spec fn clicked_command(
    f: Seq<Seq<bool>>,
    scroll: int,
    a: PickerArea,
    col: int,
    row: int,
    i: int,
) -> bool {
    &&& a.first_row <= row < a.first_row + a.rows
    &&& a.x <= col < a.x + a.width
    &&& 0 <= i < palette::total(f, f.len() as int)
    &&& palette::display_row(f, i) == scroll + (row - a.first_row)
}

fn count_lines(sections: &Vec<CommandSection>, shown: &Vec<Vec<bool>>) -> (r: usize)
    requires
        palette::fit_sections(palette::flags(shown@), sections@),
        palette::all_entries(sections@, sections@.len() as int) + sections@.len() <= usize::MAX,
    ensures
        r == palette_lines(palette::flags(shown@)),
{
    let n: usize = palette::count_visible(sections, shown);
    proof {
        let f = palette::flags(shown@);
        palette::lemma_section_of(f, n as int, 0);
        if palette::section_of(f, n as int, 0) is Some {
            palette::lemma_totals_grow(
                f,
                palette::section_of(f, n as int, 0)->0 + 1,
                f.len() as int,
            );
        }
    }
    palette::find_display_idx(sections, shown, n)
}

impl CommandPalette {
    /// Whether the mouse turns the palette into another, given which commands are
    /// visible: the wheel moves the view, a click selects the command it hits.
    pub open spec fn moused(
        self,
        mouse: MouseEvent,
        f: Seq<Seq<bool>>,
        w: int,
        h: int,
        after: CommandPalette,
    ) -> bool {
        match mouse.kind {
            MouseEventKind::ScrollUp => after == (CommandPalette {
                scroll_offset: picker::minus(self.scroll_offset as int, 3) as usize,
                ..self
            }),
            MouseEventKind::ScrollDown => after == (CommandPalette {
                scroll_offset: picker::at_most(
                    self.scroll_offset + 3,
                    picker::minus(palette_lines(f), 1),
                ) as usize,
                ..self
            }),
            MouseEventKind::Down(MouseButton::Left) => {
                let a = palette_area(w, h, palette_lines(f));
                let scroll = self.scroll_offset as int;
                let (col, row) = (mouse.column as int, mouse.row as int);
                &&& after == (CommandPalette { selected: after.selected, ..self })
                &&& after.selected == self.selected || clicked_command(
                    f,
                    scroll,
                    a,
                    col,
                    row,
                    after.selected as int,
                )
                &&& forall|i: int|
                    #[trigger] clicked_command(f, scroll, a, col, row, i) ==> after.selected == i
            },
            _ => after == self,
        }
    }

    /// Whether the palette can take a mouse event: a click needs a screen and a number
    /// of rows that the size of the window can be computed for.
    pub open spec fn takes_mouse(self, kind: MouseEventKind, w: int) -> bool {
        &&& self.fits()
        &&& kind == MouseEventKind::Down(MouseButton::Left) ==> w * 70 <= u16::MAX
            && palette::all_entries(self.sections@, self.sections@.len() as int)
            + self.sections@.len() + 5 <= u16::MAX
    }

    /// Applies the mouse to the palette, given which commands are visible.
    pub fn mouse_with(&mut self, mouse: MouseEvent, shown: &Vec<Vec<bool>>, w: u16, h: u16)
        requires
            old(self).takes_mouse(mouse.kind, w as int),
            palette::fit_sections(palette::flags(shown@), old(self).sections@),
        ensures
            old(self).moused(mouse, palette::flags(shown@), w as int, h as int, *final(self)),
    {
        let ghost f = palette::flags(shown@);
        let lines: usize = count_lines(&self.sections, shown);
        match mouse.kind {
            MouseEventKind::ScrollUp => {
                self.scroll_offset = self.scroll_offset.saturating_sub(3);
            },
            MouseEventKind::ScrollDown => {
                let last: usize = lines.saturating_sub(1);
                self.scroll_offset = if self.scroll_offset + 3 <= last {
                    self.scroll_offset + 3
                } else {
                    last
                };
            },
            MouseEventKind::Down(MouseButton::Left) => {
                proof {
                    palette::lemma_counts(f, self.sections@, f.len() as int);
                }
                let share: u16 = w * 70 / 100;
                let width: u16 = if share >= 72 {
                    72
                } else if share <= 36 {
                    36
                } else {
                    share
                };
                let wanted: u16 = if lines >= 1 {
                    lines as u16 + 5
                } else {
                    6
                };
                let limit: u16 = h.saturating_sub(4);
                let at_limit: u16 = if wanted <= limit {
                    wanted
                } else {
                    limit
                };
                let height: u16 = if at_limit >= 10 {
                    at_limit
                } else {
                    10
                };
                let x: u16 = w.saturating_sub(width) / 2;
                let first_row: u16 = h.saturating_sub(height) / 2 + 3;
                let rows: u16 = height - 5;
                let ghost a = palette_area(w as int, h as int, palette_lines(f));
                assert(a.x == x && a.width == width && a.first_row == first_row && a.rows == rows);
                if mouse.row >= first_row && mouse.row - first_row < rows && mouse.column >= x
                    && mouse.column - x < width {
                    let row: usize = (mouse.row - first_row) as usize;
                    self.select_row(shown, row);
                }
            },
            _ => {},
        }
    }

    fn select_row(&mut self, shown: &Vec<Vec<bool>>, row: usize)
        requires
            old(self).fits(),
            palette::fit_sections(palette::flags(shown@), old(self).sections@),
        ensures
            *final(self) == (CommandPalette { selected: final(self).selected, ..*old(self) }),
            ({
                let f = palette::flags(shown@);
                let n = palette::total(f, f.len() as int);
                let at = old(self).scroll_offset + row;
                &&& final(self).selected == old(self).selected || (final(self).selected < n
                    && palette::display_row(f, final(self).selected as int) == at)
                &&& forall|i: int|
                    0 <= i < n && #[trigger] palette::display_row(f, i) == at ==> final(self).selected == i
            }),
    {
        let ghost f = palette::flags(shown@);
        let ghost sel = self.selected;
        let count: usize = palette::count_visible(&self.sections, shown);
        let mut i: usize = 0;
        while i < count
            invariant
                i <= count,
                count == palette::total(f, f.len() as int),
                f == palette::flags(shown@),
                self.fits(),
                palette::fit_sections(f, self.sections@),
                *self == *old(self),
                forall|k: int|
                    0 <= k < i ==> #[trigger] palette::display_row(f, k) != old(self).scroll_offset
                        + row,
            decreases count - i,
        {
            let line: usize = palette::find_display_idx(&self.sections, shown, i);
            if line >= self.scroll_offset && line - self.scroll_offset == row {
                self.selected = i;
                assert forall|k: int|
                    0 <= k < count && #[trigger] palette::display_row(f, k) == old(self).scroll_offset
                        + row implies k == i by {
                    if k > i {
                        palette::rows_follow_the_commands(f, i as int, k);
                    }
                }
                return;
            }
            i = i + 1;
        }
    }
}

// ---------------------------------------------------------------------------
// Themes
// ---------------------------------------------------------------------------

/// The item in the row of a plain list that a click hits, if it hits one.
pub open spec fn clicked_plain(
    len: int,
    scroll: int,
    a: PickerArea,
    col: int,
    row: int,
) -> Option<int> {
    let at = picker::at_most(scroll, picker::minus(len, a.rows)) + (row - a.first_row);
    if a.first_row <= row < a.first_row + a.rows && a.x <= col < a.x + a.width && at < len {
        Some(at)
    } else {
        None
    }
}

/// The list of themes after the mouse did something: the wheel moves the selection and
/// keeps it in view, a click selects the theme it hits.
pub open spec fn theme_moused(core: ListPickerCore, mouse: MouseEvent, w: int, h: int) -> ListPickerCore {
    let n = core.items@.len() as int;
    match mouse.kind {
        MouseEventKind::ScrollUp => {
            let at = picker::minus(core.selected as int, 1);
            ListPickerCore {
                selected: at as usize,
                scroll_offset: picker::at_most(core.scroll_offset as int, at) as usize,
                ..core
            }
        },
        MouseEventKind::ScrollDown => {
            let at = picker::at_most(core.selected + 1, picker::minus(n, 1));
            ListPickerCore {
                selected: at as usize,
                scroll_offset: palette::down_to(
                    at,
                    core.scroll_offset as int,
                    picker::visible_rows(h),
                ) as usize,
                ..core
            }
        },
        MouseEventKind::Down(MouseButton::Left) => match clicked_plain(
            n,
            core.scroll_offset as int,
            picker::picker_area(w, h),
            mouse.column as int,
            mouse.row as int,
        ) {
            Some(i) => ListPickerCore { selected: i as usize, ..core },
            None => core,
        },
        _ => core,
    }
}

/// Whether the mouse picks a theme, which is on show at once.
pub open spec fn picks_theme(core: ListPickerCore, mouse: MouseEvent, w: int, h: int) -> bool {
    match mouse.kind {
        MouseEventKind::ScrollUp => true,
        MouseEventKind::ScrollDown => true,
        MouseEventKind::Down(MouseButton::Left) => clicked_plain(
            core.items@.len() as int,
            core.scroll_offset as int,
            picker::picker_area(w, h),
            mouse.column as int,
            mouse.row as int,
        ) is Some,
        _ => false,
    }
}

/// Whether the list of themes can follow the wheel.
pub open spec fn theme_follows_wheel(core: ListPickerCore, kind: MouseEventKind, h: int) -> bool {
    kind == MouseEventKind::ScrollDown ==> picker::can_follow(
        picker::at_most(core.selected + 1, picker::minus(core.items@.len() as int, 1)),
        core.scroll_offset as int,
        picker::visible_rows(h),
    )
}

impl ThemePicker {
    /// Tells whether the list of themes can follow the wheel.
    pub fn can_follow_wheel(&self, kind: MouseEventKind, h: u16) -> (r: bool)
        requires
            self.core.fits(),
        ensures
            r == theme_follows_wheel(self.core, kind, h as int),
    {
        let last: usize = self.core.items.len().saturating_sub(1);
        let at: usize = if self.core.selected + 1 <= last {
            self.core.selected + 1
        } else {
            last
        };
        kind != MouseEventKind::ScrollDown || picker::list_picker_visible_height(h as usize) > 0
            || at < self.core.scroll_offset
    }

    /// Applies the mouse to the list of themes.
    pub fn mouse(&mut self, mouse: MouseEvent, current_theme: &mut usize, w: u16, h: u16)
        requires
            old(self).core.fits(),
            picker::click_handled(mouse.kind, w as int, h as int),
            theme_follows_wheel(old(self).core, mouse.kind, h as int),
        ensures
            *final(self) == (ThemePicker {
                core: theme_moused(old(self).core, mouse, w as int, h as int),
                ..*old(self)
            }),
            *final(current_theme) == if picks_theme(old(self).core, mouse, w as int, h as int) {
                final(self).core.selected
            } else {
                *old(current_theme)
            },
    {
        let n: usize = self.core.items.len();
        match mouse.kind {
            MouseEventKind::ScrollUp => {
                self.core.selected = self.core.selected.saturating_sub(1);
                *current_theme = self.core.selected;
                if self.core.selected < self.core.scroll_offset {
                    self.core.scroll_offset = self.core.selected;
                }
            },
            MouseEventKind::ScrollDown => {
                let rows: usize = picker::list_picker_visible_height(h as usize);
                let last: usize = n.saturating_sub(1);
                self.core.selected = if self.core.selected + 1 <= last {
                    self.core.selected + 1
                } else {
                    last
                };
                *current_theme = self.core.selected;
                if self.core.selected >= self.core.scroll_offset + rows {
                    self.core.scroll_offset = self.core.selected.saturating_sub(rows - 1);
                }
            },
            MouseEventKind::Down(MouseButton::Left) => {
                let share: u16 = w * 60 / 100;
                let width: u16 = if share >= 60 {
                    60
                } else if share <= 30 {
                    30
                } else {
                    share
                };
                let tall: u16 = h * 60 / 100;
                let wanted: u16 = if tall >= 10 {
                    tall
                } else {
                    10
                };
                let limit: u16 = h.saturating_sub(4);
                let height: u16 = if wanted <= limit {
                    wanted
                } else {
                    limit
                };
                let x: u16 = w.saturating_sub(width) / 2;
                let first_row: u16 = h.saturating_sub(height) / 2 + 3;
                let rows: u16 = height.saturating_sub(2).saturating_sub(3);
                let ghost a = picker::picker_area(w as int, h as int);
                assert(a.x == x && a.width == width && a.first_row == first_row && a.rows == rows);
                if mouse.row >= first_row && mouse.row - first_row < rows && mouse.column >= x
                    && mouse.column - x < width {
                    let row: usize = (mouse.row - first_row) as usize;
                    let furthest: usize = n.saturating_sub(rows as usize);
                    let shown: usize = if self.core.scroll_offset <= furthest {
                        self.core.scroll_offset
                    } else {
                        furthest
                    };
                    if shown + row < n {
                        self.core.selected = shown + row;
                        *current_theme = self.core.selected;
                    }
                }
            },
            _ => {},
        }
    }
}

// ---------------------------------------------------------------------------
// Menus and checklists
// ---------------------------------------------------------------------------

/// Where a click on an item of a menu leads: the first one selects the item, one on the
/// selected item chooses it.
pub open spec fn menu_clicked(m: Menu, i: usize) -> (usize, MenuStep) {
    if m.selected == i {
        (m.selected, menu::chosen(m.items@, i as int))
    } else {
        (i, MenuStep::Stay)
    }
}

impl Menu {
    /// Applies a click on an item.
    pub fn click(&mut self, i: usize) -> (r: MenuStep)
        ensures
            *final(self) == (Menu { selected: menu_clicked(*old(self), i).0, ..*old(self) }),
            r == menu_clicked(*old(self), i).1,
            old(self).wf() && i < old(self).items@.len() ==> final(self).wf(),
    {
        if self.selected == i {
            if i < self.items.len() && self.items[i].action.is_some() {
                MenuStep::Run(i)
            } else {
                MenuStep::Close
            }
        } else {
            self.selected = i;
            MenuStep::Stay
        }
    }
}

impl Checklist {
    /// Whether a click on a visible item turns the list into another: the first one
    /// selects the item, one on the selected item checks or unchecks it.
    pub open spec fn clicked(self, i: usize, visible: Seq<bool>, after: Checklist) -> bool {
        if self.selected == i {
            match checklist::nth_visible(visible, i as int, 0) {
                Some(k) => after == (Checklist { items: after.items, ..self }) && after.items@
                    == checklist::toggled(self.items@, k),
                None => after == self,
            }
        } else {
            after == (Checklist { selected: i, ..self })
        }
    }

    /// Applies a click on a visible item, given which items are visible.
    pub fn click_with(&mut self, i: usize, visible: &Vec<bool>)
        requires
            visible@.len() == old(self).items@.len(),
        ensures
            old(self).clicked(i, visible@, *final(self)),
    {
        if self.selected == i {
            match checklist::find_visible(visible, i) {
                Some(k) => {
                    let item = ChecklistItem {
                        label: self.items[k].label.clone(),
                        checked: !self.items[k].checked,
                        is_free_entry: self.items[k].is_free_entry,
                    };
                    self.items.set(k, item);
                },
                None => {},
            }
        } else {
            self.selected = i;
        }
    }
}

// ---------------------------------------------------------------------------
// The window that is open
// ---------------------------------------------------------------------------

impl PopupState {
    /// Whether the window has the mouse.
    pub open spec fn has_mouse(self) -> bool {
        self is CommandPalette || self is RefPicker || self is ListPicker || self is ThemePicker
            || self is Menu || self is Checklist
    }

    /// Tells whether the window has the mouse.
    pub fn takes_the_mouse(&self) -> (r: bool)
        ensures
            r == self.has_mouse(),
    {
        match self {
            PopupState::CommandPalette(_) => true,
            PopupState::RefPicker(_) => true,
            PopupState::ListPicker(_) => true,
            PopupState::ThemePicker(_) => true,
            PopupState::Menu(_) => true,
            PopupState::Checklist(_) => true,
            _ => false,
        }
    }

    /// Whether the window can take a mouse event.
    pub open spec fn can_take(self, kind: MouseEventKind, env: MouseEnv) -> bool {
        let (w, h) = (env.screen_width as int, env.screen_height as int);
        match self {
            PopupState::CommandPalette(p) => p.takes_mouse(kind, w),
            PopupState::RefPicker(p) => p.core.fits() && picker::click_handled(kind, w, h),
            PopupState::ListPicker(p) => p.core.fits() && picker::click_handled(kind, w, h),
            PopupState::ThemePicker(p) => p.core.fits() && picker::click_handled(kind, w, h),
            _ => true,
        }
    }

    /// Whether a list can follow the wheel down: it has a row on the screen to show the
    /// selection in, or begins below it.
    pub open spec fn follows_wheel(self, kind: MouseEventKind, env: MouseEnv) -> bool {
        let h = env.screen_height as int;
        match self {
            PopupState::RefPicker(p) => picker::follows_wheel(p.core, kind, h),
            PopupState::ListPicker(p) => picker::follows_wheel(p.core, kind, h),
            PopupState::ThemePicker(p) => theme_follows_wheel(p.core, kind, h),
            _ => true,
        }
    }

    /// Tells whether a list can follow the wheel.
    pub fn can_follow_wheel(&self, kind: MouseEventKind, env: MouseEnv) -> (r: bool)
        requires
            self.can_take(kind, env),
        ensures
            r == self.follows_wheel(kind, env),
    {
        let h: u16 = env.screen_height;
        match self {
            PopupState::RefPicker(p) => picker::can_follow_wheel(&p.core, kind, h),
            PopupState::ListPicker(p) => picker::can_follow_wheel(&p.core, kind, h),
            PopupState::ThemePicker(p) => p.can_follow_wheel(kind, h),
            _ => true,
        }
    }
}

impl Popups {
    /// Whether the mouse in a menu leaves the windows as `after` with an effect.
    pub open spec fn menu_moused(
        self,
        m: Menu,
        kind: MouseEventKind,
        item_at: Option<usize>,
        after: Popups,
        r: PopupMouseEffect,
    ) -> bool {
        if kind == MouseEventKind::Down(MouseButton::Left) && item_at is Some {
            let (at, step) = menu_clicked(m, item_at->0);
            match step {
                MenuStep::Run(i) => after == (Popups {
                    popup: PopupState::Closed,
                    pending_menu: Some(PopupState::Menu(m)),
                    ..self
                }) && r == PopupMouseEffect::RunMenu(i),
                MenuStep::Stay => after == self.with(PopupState::Menu(Menu { selected: at, ..m }))
                    && r is Nothing,
                _ => after == self.with(PopupState::Closed) && r is Nothing,
            }
        } else {
            after == self && r is Nothing
        }
    }

    /// Whether the mouse leaves the windows as `after` with an effect.
    pub open spec fn moused(self, mouse: MouseEvent, env: MouseEnv, after: Popups, r: PopupMouseEffect) -> bool {
        let (w, h) = (env.screen_width, env.screen_height);
        let left = mouse.kind == MouseEventKind::Down(MouseButton::Left);
        match self.popup {
            PopupState::CommandPalette(p) => r is Nothing && after == self.with(after.popup) && (
            after.popup matches PopupState::CommandPalette(q) && p.moused(
                mouse,
                palette::shown_entries(p.sections@, text::lowercase(p.search())),
                w as int,
                h as int,
                q,
            )),
            PopupState::RefPicker(p) => r is Nothing && after == self.with(after.popup) && (
            after.popup matches PopupState::RefPicker(q) && q == (super::pickers::RefPicker {
                core: q.core,
                ..p
            }) && picker::list_moused(p.core, mouse, w, h, q.core)),
            PopupState::ListPicker(p) => r is Nothing && after == self.with(after.popup) && (
            after.popup matches PopupState::ListPicker(q) && q == (super::pickers::ListPicker {
                core: q.core,
                ..p
            }) && picker::list_moused(p.core, mouse, w, h, q.core)),
            PopupState::ThemePicker(p) => {
                let core = theme_moused(p.core, mouse, w as int, h as int);
                &&& r is Nothing
                &&& after == (Popups {
                    popup: PopupState::ThemePicker(ThemePicker { core, ..p }),
                    current_theme: if picks_theme(p.core, mouse, w as int, h as int) {
                        core.selected
                    } else {
                        self.current_theme
                    },
                    ..self
                })
            },
            PopupState::Menu(m) => self.menu_moused(m, mouse.kind, env.item_at, after, r),
            PopupState::Checklist(c) => r is Nothing && if left && env.item_at is Some {
                after == self.with(after.popup) && (after.popup matches PopupState::Checklist(d)
                    && c.clicked(
                    env.item_at->0,
                    checklist::visibility(c.items@, c.search()),
                    d,
                ))
            } else {
                after == self
            },
            _ => after == self && r is Nothing,
        }
    }

    /// Applies the mouse to the window that is open.
    pub fn handle_popup_mouse(&mut self, mouse: MouseEvent, env: MouseEnv) -> (r: PopupMouseEffect)
        requires
            old(self).popup.can_take(mouse.kind, env),
            old(self).popup.follows_wheel(mouse.kind, env),
        ensures
            old(self).moused(mouse, env, *final(self), r),
    {
        let ghost start = *self;
        let mut popup = PopupState::Closed;
        core::mem::swap(&mut self.popup, &mut popup);
        let (w, h) = (env.screen_width, env.screen_height);
        let left = mouse.kind == MouseEventKind::Down(MouseButton::Left);
        match popup {
            PopupState::CommandPalette(p) => {
                let mut p = p;
                let shown = p.shown();
                p.mouse_with(mouse, &shown, w, h);
                self.popup = PopupState::CommandPalette(p);
                PopupMouseEffect::Nothing
            },
            PopupState::RefPicker(p) => {
                let mut p = p;
                picker::handle_list_picker_mouse(&mut p.core, mouse, w, h);
                self.popup = PopupState::RefPicker(p);
                PopupMouseEffect::Nothing
            },
            PopupState::ListPicker(p) => {
                let mut p = p;
                picker::handle_list_picker_mouse(&mut p.core, mouse, w, h);
                self.popup = PopupState::ListPicker(p);
                PopupMouseEffect::Nothing
            },
            PopupState::ThemePicker(p) => {
                let mut p = p;
                p.mouse(mouse, &mut self.current_theme, w, h);
                self.popup = PopupState::ThemePicker(p);
                PopupMouseEffect::Nothing
            },
            PopupState::Menu(m) => {
                let mut m = m;
                match env.item_at {
                    Some(i) if left => match m.click(i) {
                        MenuStep::Run(k) => {
                            self.pending_menu = Some(PopupState::Menu(m));
                            PopupMouseEffect::RunMenu(k)
                        },
                        MenuStep::Stay => {
                            self.popup = PopupState::Menu(m);
                            PopupMouseEffect::Nothing
                        },
                        _ => PopupMouseEffect::Nothing,
                    },
                    _ => {
                        self.popup = PopupState::Menu(m);
                        PopupMouseEffect::Nothing
                    },
                }
            },
            PopupState::Checklist(c) => {
                let mut c = c;
                match env.item_at {
                    Some(i) if left => {
                        let visible = c.visible();
                        c.click_with(i, &visible);
                        self.popup = PopupState::Checklist(c);
                    },
                    _ => {
                        self.popup = PopupState::Checklist(c);
                    },
                }
                PopupMouseEffect::Nothing
            },
            _ => {
                self.popup = popup;
                PopupMouseEffect::Nothing
            },
        }
    }
}

// ---------------------------------------------------------------------------
// Laws
// ---------------------------------------------------------------------------

/// A click never runs an item of a menu that was not selected before.
pub proof fn the_first_click_only_selects(m: Menu, i: usize)
    requires
        m.selected != i,
    ensures
        menu_clicked(m, i).1 is Stay,
        menu_clicked(m, i).0 == i,
{
}

/// Two clicks on an item of a menu choose it.
pub proof fn the_second_click_chooses(m: Menu, i: usize)
    requires
        m.selected != i,
    ensures
        menu_clicked(Menu { selected: menu_clicked(m, i).0, ..m }, i).1 == menu::chosen(
            m.items@,
            i as int,
        ),
{
}

/// The palette stands in the middle of the screen, seven tenths as wide but not wider than 72
/// columns nor narrower than 36.
pub proof fn the_palette_stands_in_the_middle(w: int, h: int, rows: int)
    requires
        0 <= w,
        0 <= h,
    ensures
        ({
            let a = palette_area(w, h, rows);
            &&& 36 <= a.width <= 72
            &&& 36 < a.width < 72 ==> a.width * 100 <= w * 70 < (a.width + 1) * 100
            &&& a.width == 36 ==> w * 70 < 3700
            &&& a.width == 72 ==> w * 70 >= 7200
            &&& w >= 36 ==> 0 <= w - a.width - 2 * a.x <= 1
            &&& w < 36 ==> a.x == 0
        }),
{
}

/// The palette shows all its rows where the screen has room for them and for nine more, and
/// five rows at least.
pub proof fn the_palette_is_as_high_as_its_rows(w: int, h: int, rows: int)
    requires
        0 <= h,
    ensures
        ({
            let a = palette_area(w, h, rows);
            &&& 5 <= rows <= h - 9 ==> a.rows == rows
            &&& rows < 5 ==> a.rows == 5
            &&& rows >= 5 && rows > h - 9 && h >= 14 ==> a.rows == h - 9
            &&& h < 14 ==> a.rows == 5
            &&& h >= a.rows + 5 ==> 0 <= h - (a.rows + 5) - 2 * (a.first_row - 3) <= 1
        }),
{
}

/// The wheel moves the palette by three rows, not above the first nor below the last, and
/// leaves the selection.
pub proof fn the_wheel_moves_the_palette(
    p: CommandPalette,
    mouse: MouseEvent,
    f: Seq<Seq<bool>>,
    w: int,
    h: int,
    after: CommandPalette,
)
    requires
        p.moused(mouse, f, w, h, after),
        palette_lines(f) <= usize::MAX,
        p.scroll_offset < palette_lines(f),
    ensures
        mouse.kind is ScrollUp || mouse.kind is ScrollDown ==> after.selected == p.selected,
        mouse.kind is ScrollUp && p.scroll_offset >= 3 ==> after.scroll_offset == p.scroll_offset
            - 3,
        mouse.kind is ScrollUp && p.scroll_offset < 3 ==> after.scroll_offset == 0,
        mouse.kind is ScrollDown && p.scroll_offset + 3 < palette_lines(f) ==> after.scroll_offset
            == p.scroll_offset + 3,
        mouse.kind is ScrollDown && p.scroll_offset + 3 >= palette_lines(f) ==> after.scroll_offset
            == palette_lines(f) - 1,
        mouse.kind is Moved ==> after == p,
{
}

/// A click in a plain list hits the item in its row, counted from the first one in view; one
/// beside the list or below its last item hits none.
pub proof fn a_click_hits_the_row_it_is_on(len: int, scroll: int, a: PickerArea, col: int, row: int)
    requires
        0 <= scroll,
        scroll + a.rows <= len,
        a.rows >= 0,
    ensures
        a.x <= col < a.x + a.width && a.first_row <= row < a.first_row + a.rows ==> clicked_plain(
            len,
            scroll,
            a,
            col,
            row,
        ) == Some(scroll + row - a.first_row),
        !(a.x <= col < a.x + a.width) ==> clicked_plain(len, scroll, a, col, row) is None,
        !(a.first_row <= row < a.first_row + a.rows) ==> clicked_plain(len, scroll, a, col, row)
            is None,
{
}

/// The wheel selects the theme before or behind, and stays at the first and at the last; what
/// it selects is on show.
pub proof fn the_wheel_goes_through_the_themes(core: ListPickerCore, mouse: MouseEvent, w: int, h: int)
    requires
        core.selected < core.items@.len() <= usize::MAX,
    ensures
        ({
            let after = theme_moused(core, mouse, w, h);
            let n = core.items@.len();
            &&& mouse.kind is ScrollUp && core.selected > 0 ==> after.selected == core.selected - 1
            &&& mouse.kind is ScrollUp && core.selected == 0 ==> after.selected == 0
            &&& mouse.kind is ScrollUp ==> after.scroll_offset <= after.selected
            &&& mouse.kind is ScrollDown && core.selected + 1 < n ==> after.selected
                == core.selected + 1
            &&& mouse.kind is ScrollDown && core.selected + 1 == n ==> after.selected
                == core.selected
            &&& mouse.kind is ScrollUp || mouse.kind is ScrollDown ==> picks_theme(
                core,
                mouse,
                w,
                h,
            )
            &&& mouse.kind is Moved ==> after == core && !picks_theme(core, mouse, w, h)
        }),
{
}

/// A click on the selected item of a menu runs it, with the menu put aside; one on another
/// item selects it and runs nothing, and one beside the items does nothing.
pub proof fn a_menu_runs_what_is_clicked_twice(
    p: Popups,
    m: Menu,
    kind: MouseEventKind,
    at: Option<usize>,
    after: Popups,
    r: PopupMouseEffect,
)
    requires
        p.menu_moused(m, kind, at, after, r),
    ensures
        r matches PopupMouseEffect::RunMenu(i) ==> at == Some(i) && m.selected == i
            && after.popup is Closed && after.pending_menu == Some(PopupState::Menu(m)),
        kind == MouseEventKind::Down(MouseButton::Left) && at is Some && at != Some(m.selected)
            ==> after.popup == PopupState::Menu(Menu { selected: at->0, ..m }),
        kind == MouseEventKind::Down(MouseButton::Left) && at == Some(m.selected) && (menu::chosen(
            m.items@,
            m.selected as int,
        ) matches MenuStep::Run(_)) ==> r is RunMenu,
        at is None || kind != MouseEventKind::Down(MouseButton::Left) ==> after == p,
{
}

} // verus!
