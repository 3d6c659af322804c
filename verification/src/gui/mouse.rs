//! What the mouse means, by what has it.

use crate::gui::areas;
use crate::gui::areas::{area_above_status, inner_area, Edge};
use crate::gui::context::{ContextId, ScreenMode};
use crate::gui::hunks;
use crate::gui::hunks::DiffCell;
use crate::gui::input::{rect_contains, MouseButton, MouseEvent, MouseEventKind, Rect};
use crate::gui::keys::SideWindow;
use crate::gui::layout;
use crate::gui::layout::FrameLayout;
use crate::gui::picker;
use crate::gui::popup::keys::PopupState;
use crate::gui::refresh::{RebasePhase, RebaseView};
use crate::gui::selection::DiffPanel;
use crate::text;
use vstd::prelude::*;

verus! {

// ---------------------------------------------------------------------------
// The divider
// ---------------------------------------------------------------------------

/// Whether the side panel is being resized, and from where.
#[derive(Debug, Clone, Copy, PartialEq, Eq, Structural)]
pub struct SideResize {
    pub resizing: bool,
    /// The rows between the grabbed one and the end of the side panel.
    pub row_offset: u16,
}

/// What the mouse does to the divider.
#[derive(Debug, Clone, Copy, PartialEq, Eq, Structural)]
pub enum ResizeStep {
    /// The mouse means something else.
    PassOn,
    /// The divider is grabbed; a selection in the diff is dropped, and the divider goes
    /// where the mouse is.
    Grab,
    /// The divider goes where the mouse is.
    Follow,
    /// The divider is let go.
    LetGo,
}

impl SideResize {
    /// What the mouse does to the divider, and how the resizing goes on. `grips` tells
    /// whether the mouse is where the divider can be grabbed, and `offset` from where.
    pub open spec fn moved(self, kind: MouseEventKind, grips: bool, offset: u16) -> (
        SideResize,
        ResizeStep,
    ) {
        let idle = SideResize { resizing: false, row_offset: 0 };
        if self.resizing {
            match kind {
                MouseEventKind::Drag(MouseButton::Left) => (self, ResizeStep::Follow),
                MouseEventKind::Down(MouseButton::Left) => (self, ResizeStep::Follow),
                MouseEventKind::Up(MouseButton::Left) => (idle, ResizeStep::LetGo),
                _ => (idle, ResizeStep::PassOn),
            }
        } else if grips && kind == MouseEventKind::Down(MouseButton::Left) {
            (SideResize { resizing: true, row_offset: offset }, ResizeStep::Grab)
        } else {
            (self, ResizeStep::PassOn)
        }
    }

    /// Applies the mouse to the divider.
    pub fn mouse(&mut self, kind: MouseEventKind, grips: bool, offset: u16) -> (r: ResizeStep)
        ensures
            (*final(self), r) == old(self).moved(kind, grips, offset),
    {
        if self.resizing {
            match kind {
                MouseEventKind::Drag(MouseButton::Left) => ResizeStep::Follow,
                MouseEventKind::Down(MouseButton::Left) => ResizeStep::Follow,
                MouseEventKind::Up(MouseButton::Left) => {
                    self.resizing = false;
                    self.row_offset = 0;
                    ResizeStep::LetGo
                },
                _ => {
                    self.resizing = false;
                    self.row_offset = 0;
                    ResizeStep::PassOn
                },
            }
        } else if grips && kind == MouseEventKind::Down(MouseButton::Left) {
            self.resizing = true;
            self.row_offset = offset;
            ResizeStep::Grab
        } else {
            ResizeStep::PassOn
        }
    }
}

// ---------------------------------------------------------------------------
// Who has the mouse
// ---------------------------------------------------------------------------

/// What the meaning of the mouse depends on.
#[derive(Debug, Clone, Copy, PartialEq, Eq, Structural)]
pub struct MouseState {
    /// Whether the mouse is used at all.
    pub mouse_events: bool,
    pub screen_mode: ScreenMode,
    pub rebase_mode: bool,
    pub diff_mode: bool,
    /// Whether the mouse is on the divider, and the rows from there to the end of the
    /// side panel.
    pub on_divider: bool,
    pub divider_offset: u16,
    /// Where the button that generates a message is, if it is on show.
    pub ai_button: Option<Rect>,
    /// Where the body of a message is, if it is on show.
    pub message_body: Option<Rect>,
}

/// What the mouse means.
#[derive(Debug, Clone, Copy, PartialEq, Eq, Structural)]
pub enum MouseCourse {
    Ignore,
    /// The divider is grabbed, follows or is let go.
    Resize(ResizeStep),
    GenerateMessage,
    /// There is no command that generates a message: what it takes is looked up.
    ShowHowTo,
    /// The body of a message moves by three rows.
    ScrollMessage { down: bool },
    ToRebase,
    ToDiffMode,
    ToPopup,
    ToPanels,
}

/// What a click or a turn of the wheel in the editor of a commit message means.
pub open spec fn editor_course(
    mouse: MouseEvent,
    s: MouseState,
    generate: Seq<char>,
) -> Option<MouseCourse> {
    let (col, row) = (mouse.column as int, mouse.row as int);
    if mouse.kind == MouseEventKind::Down(MouseButton::Left) && s.ai_button is Some
        && s.ai_button->0.contains(col, row) {
        if text::trim(generate).len() > 0 {
            Some(MouseCourse::GenerateMessage)
        } else {
            Some(MouseCourse::ShowHowTo)
        }
    } else if s.message_body is Some && s.message_body->0.contains(col, row) {
        match mouse.kind {
            MouseEventKind::ScrollUp => Some(MouseCourse::ScrollMessage { down: false }),
            MouseEventKind::ScrollDown => Some(MouseCourse::ScrollMessage { down: true }),
            _ => None,
        }
    } else {
        None
    }
}

/// What the mouse means behind the divider and the editor of a message.
pub open spec fn mode_course(mouse: MouseEvent, s: MouseState, popup: PopupState) -> MouseCourse {
    if s.rebase_mode {
        MouseCourse::ToRebase
    } else if s.diff_mode {
        match popup {
            PopupState::CommandPalette(_) => if mouse.kind is ScrollUp || mouse.kind is ScrollDown {
                MouseCourse::ToPopup
            } else {
                MouseCourse::Ignore
            },
            PopupState::RefPicker(_) => MouseCourse::ToPopup,
            PopupState::ListPicker(_) => MouseCourse::ToPopup,
            _ => MouseCourse::ToDiffMode,
        }
    } else if popup.has_mouse() {
        MouseCourse::ToPopup
    } else {
        MouseCourse::ToPanels
    }
}

/// Whether the divider can be grabbed where the mouse is.
pub open spec fn grips(s: MouseState, popup: PopupState) -> bool {
    popup is Closed && s.screen_mode is Normal && s.on_divider
}

/// What the mouse means: first the divider has it, next the editor of a commit message,
/// and next the modes, the windows and the panels.
pub open spec fn mouse_course(
    mouse: MouseEvent,
    s: MouseState,
    resize: SideResize,
    popup: PopupState,
    generate: Seq<char>,
) -> (SideResize, MouseCourse) {
    if !s.mouse_events {
        (resize, MouseCourse::Ignore)
    } else {
        let (after, step) = resize.moved(mouse.kind, grips(s, popup), s.divider_offset);
        if !(step is PassOn) {
            (after, MouseCourse::Resize(step))
        } else if popup is CommitInput && editor_course(mouse, s, generate) is Some {
            (after, editor_course(mouse, s, generate)->0)
        } else {
            (after, mode_course(mouse, s, popup))
        }
    }
}

fn editor_of(mouse: MouseEvent, s: &MouseState, generate: &str) -> (r: Option<MouseCourse>)
    ensures
        r == editor_course(mouse, *s, generate@),
{
    let over_button = match s.ai_button {
        Some(area) => rect_contains(area, mouse.column, mouse.row),
        None => false,
    };
    if mouse.kind == MouseEventKind::Down(MouseButton::Left) && over_button {
        if text::is_empty_str(text::trim_str(generate).as_str()) {
            return Some(MouseCourse::ShowHowTo);
        }
        return Some(MouseCourse::GenerateMessage);
    }
    let over_body = match s.message_body {
        Some(area) => rect_contains(area, mouse.column, mouse.row),
        None => false,
    };
    if !over_body {
        return None;
    }
    match mouse.kind {
        MouseEventKind::ScrollUp => Some(MouseCourse::ScrollMessage { down: false }),
        MouseEventKind::ScrollDown => Some(MouseCourse::ScrollMessage { down: true }),
        _ => None,
    }
}

fn mode_of(mouse: MouseEvent, s: &MouseState, popup: &PopupState) -> (r: MouseCourse)
    ensures
        r == mode_course(mouse, *s, *popup),
{
    if s.rebase_mode {
        return MouseCourse::ToRebase;
    }
    if s.diff_mode {
        return match popup {
            PopupState::CommandPalette(_) => if mouse.kind == MouseEventKind::ScrollUp
                || mouse.kind == MouseEventKind::ScrollDown {
                MouseCourse::ToPopup
            } else {
                MouseCourse::Ignore
            },
            PopupState::RefPicker(_) => MouseCourse::ToPopup,
            PopupState::ListPicker(_) => MouseCourse::ToPopup,
            _ => MouseCourse::ToDiffMode,
        };
    }
    if popup.takes_the_mouse() {
        MouseCourse::ToPopup
    } else {
        MouseCourse::ToPanels
    }
}

/// Tells what the mouse means, and applies it to the divider.
pub fn handle_mouse(
    mouse: MouseEvent,
    s: &MouseState,
    resize: &mut SideResize,
    popup: &PopupState,
    generate: &str,
) -> (r: MouseCourse)
    ensures
        (*final(resize), r) == mouse_course(mouse, *s, *old(resize), *popup, generate@),
{
    if !s.mouse_events {
        return MouseCourse::Ignore;
    }
    let closed = match popup {
        PopupState::Closed => true,
        _ => false,
    };
    let can_grip = closed && s.screen_mode == ScreenMode::Normal && s.on_divider;
    let step = resize.mouse(mouse.kind, can_grip, s.divider_offset);
    if step != ResizeStep::PassOn {
        return MouseCourse::Resize(step);
    }
    match popup {
        PopupState::CommitInput(_) => match editor_of(mouse, s, generate) {
            Some(course) => {
                return course;
            },
            None => {},
        },
        _ => {},
    }
    mode_of(mouse, s, popup)
}

/// The block of changes at whose mark the mouse is known to be, after it did something
/// that means this: while the panels have the mouse it is followed, else what was known
/// stays.
pub open spec fn hovered_after(
    course: MouseCourse,
    mouse: MouseEvent,
    active: ContextId,
    panel: Rect,
    cell: DiffCell,
    hovered: Option<usize>,
) -> Option<usize> {
    if course is ToPanels {
        hunks::marked_hunk(active, panel, cell, mouse.column, mouse.row)
    } else {
        hovered
    }
}

/// Follows the mouse over the marks of the blocks of changes.
pub fn follow_hover(
    course: MouseCourse,
    mouse: MouseEvent,
    active: ContextId,
    panel: Rect,
    cell: &DiffCell,
    hovered: &mut Option<usize>,
)
    ensures
        *final(hovered) == hovered_after(course, mouse, active, panel, *cell, *old(hovered)),
{
    match course {
        MouseCourse::ToPanels => {
            *hovered = hunks::revert_hunk_at_position(
                active,
                panel,
                cell,
                mouse.column,
                mouse.row,
            );
        },
        _ => {},
    }
}

// ---------------------------------------------------------------------------
// The rebase
// ---------------------------------------------------------------------------

/// The row of the list of a rebase under the mouse: the list stands below a line, and
/// below a banner of two rows while the rebase is under way.
pub open spec fn rebase_row(outer: Rect, phase: RebasePhase, row: u16) -> Option<int> {
    let inner = areas::within_border(outer);
    let above = if phase is InProgress {
        3int
    } else {
        1
    };
    let first = inner.y + above;
    if first <= row < first + picker::minus(inner.height as int, above) {
        Some(row - first)
    } else {
        None
    }
}

impl RebaseView {
    /// The view after the mouse did something: the wheel moves the list by three rows, a
    /// click selects the step it hits.
    pub open spec fn moused(self, kind: MouseEventKind, row: u16, outer: Rect) -> RebaseView {
        let turned = |delta: int|
            RebaseView {
                scroll: layout::moved_view(
                    self.scroll as int,
                    delta,
                    self.entries@.len() as int + 1,
                    self.visible_height as int,
                ) as usize,
                ..self
            };
        match kind {
            MouseEventKind::ScrollDown => turned(3),
            MouseEventKind::ScrollUp => turned(-3),
            MouseEventKind::Down(MouseButton::Left) => match rebase_row(outer, self.phase, row) {
                Some(k) => match layout::item_in_row(
                    self.scroll as int,
                    k,
                    self.entries@.len() as int,
                ) {
                    Some(i) => RebaseView { selected: i, ..self },
                    None => self,
                },
                None => self,
            },
            _ => self,
        }
    }

    /// Applies the mouse to the view, given the area that the view takes.
    pub fn mouse_in(&mut self, kind: MouseEventKind, row: u16, outer: Rect)
        requires
            old(self).entries@.len() < usize::MAX,
        ensures
            *final(self) == old(self).moused(kind, row, outer),
    {
        let n: usize = self.entries.len();
        match kind {
            MouseEventKind::ScrollDown => {
                self.scroll = layout::scroll_viewport(
                    self.scroll,
                    true,
                    3,
                    n + 1,
                    self.visible_height,
                );
            },
            MouseEventKind::ScrollUp => {
                self.scroll = layout::scroll_viewport(
                    self.scroll,
                    false,
                    3,
                    n + 1,
                    self.visible_height,
                );
            },
            MouseEventKind::Down(MouseButton::Left) => {
                let inner = inner_area(outer, Edge::Around);
                let above: u16 = match self.phase {
                    RebasePhase::InProgress => 3,
                    RebasePhase::Planning => 1,
                };
                if row >= inner.y && row - inner.y >= above {
                    let k: u16 = row - inner.y - above;
                    if k < inner.height.saturating_sub(above) {
                        match layout::list_item_in_row(self.scroll, k, n) {
                            Some(i) => {
                                self.selected = i;
                            },
                            None => {},
                        }
                    }
                }
            },
            _ => {},
        }
    }

    /// Applies the mouse to the view, which takes the screen above the status bar.
    pub fn mouse(&mut self, kind: MouseEventKind, row: u16, width: u16, height: u16)
        requires
            old(self).entries@.len() < usize::MAX,
        ensures
            *final(self) == old(self).moused(kind, row, areas::above_last_row(width, height)),
    {
        let outer = area_above_status(width, height);
        self.mouse_in(kind, row, outer);
    }
}

// ---------------------------------------------------------------------------
// The panels
// ---------------------------------------------------------------------------

/// What the mouse depends on while no mode and no window has it.
#[derive(Debug, Clone, Copy, PartialEq, Eq, Structural)]
pub struct PanelState {
    pub screen_mode: ScreenMode,
    pub diff_focused: bool,
    pub diff_empty: bool,
    /// The block of changes at whose mark the mouse is.
    pub revert_hunk: Option<usize>,
    /// The side of the diff in whose columns the mouse is.
    pub panel: Option<DiffPanel>,
    pub active: SideWindow,
}

/// What a click on the lists means.
#[derive(Debug, Clone, Copy, PartialEq, Eq, Structural)]
pub enum ClickCommand {
    Nothing,
    /// The item in this row of the active list is selected.
    SelectRow(u16),
    FocusDiff,
    /// The side panel gets the keys, and no more.
    FocusSide,
    /// The title of a window was hit at a column: the tab there is opened, or else the
    /// last context of the window.
    Title { window: SideWindow, column: u16 },
    /// A row of a window was hit; a window that is not active opens its last context
    /// first.
    Item { window: SideWindow, switch: bool, row: u16 },
}

/// What the mouse means to the panels.
#[derive(Debug, Clone, Copy, PartialEq, Eq, Structural)]
pub enum PanelCommand {
    Nothing,
    /// The block of changes is selected and reverted; the diff gets the keys.
    RevertBlock(usize),
    /// A selection begins on a side of the diff, which gets the keys.
    BeginSelection(DiffPanel),
    /// The selection is dropped, and the diff gets the keys.
    DropSelection,
    /// The selection is dropped, and the lists are clicked.
    Click(ClickCommand),
    DragSelection,
    EndSelection,
    /// The details of the commit move by two rows.
    ScrollDetails { down: bool },
    /// The selection is dropped, and the diff moves by three rows.
    ScrollDiff { down: bool },
    /// The diff moves by four columns; the selection may be dropped.
    ScrollDiffSideways { right: bool, drop_selection: bool },
    /// The selection is dropped, and the list moves by three rows, without what is
    /// selected in it.
    ScrollList { down: bool },
}

/// The first window of the side panel from `i` on that has a cell.
pub open spec fn side_panel_at(v: Seq<Rect>, col: u16, row: u16, i: int) -> Option<int>
    decreases v.len() - i,
{
    if i < 0 || i >= v.len() {
        None
    } else if v[i].contains(col as int, row as int) {
        Some(i)
    } else {
        side_panel_at(v, col, row, i + 1)
    }
}

/// What a click on the lists means. The details of a commit take no clicks.
pub open spec fn click_command(f: FrameLayout, s: PanelState, col: u16, row: u16) -> ClickCommand {
    let in_main = f.main_panel.contains(col as int, row as int);
    if layout::in_details(f, col, row) {
        ClickCommand::Nothing
    } else if s.screen_mode is Full && !s.diff_focused {
        if in_main {
            ClickCommand::SelectRow(picker::minus(row as int, f.main_panel.y + 1) as u16)
        } else {
            ClickCommand::Nothing
        }
    } else if in_main {
        if s.diff_empty {
            ClickCommand::Nothing
        } else {
            ClickCommand::FocusDiff
        }
    } else {
        match side_panel_at(f.side_panels@, col, row, 0) {
            Some(i) => {
                let area = f.side_panels@[i];
                match layout::window_of(i) {
                    Some(window) => if row == area.y {
                        ClickCommand::Title { window, column: (col - area.x) as u16 }
                    } else {
                        ClickCommand::Item {
                            window,
                            switch: s.active != window,
                            row: (row - area.y - 1) as u16,
                        }
                    },
                    None => ClickCommand::FocusSide,
                }
            },
            None => ClickCommand::Nothing,
        }
    }
}

/// Tells what a click on the lists means.
pub fn handle_mouse_click(f: &FrameLayout, s: &PanelState, col: u16, row: u16) -> (r: ClickCommand)
    ensures
        r == click_command(*f, *s, col, row),
{
    if layout::is_in_commit_details_panel(f, col, row) {
        return ClickCommand::Nothing;
    }
    let in_main = rect_contains(f.main_panel, col, row);
    if s.screen_mode == ScreenMode::Full && !s.diff_focused {
        if in_main {
            return ClickCommand::SelectRow((row - f.main_panel.y).saturating_sub(1));
        }
        return ClickCommand::Nothing;
    }
    if in_main {
        if s.diff_empty {
            return ClickCommand::Nothing;
        }
        return ClickCommand::FocusDiff;
    }
    let mut i: usize = 0;
    while i < f.side_panels.len()
        invariant
            i <= f.side_panels@.len(),
            side_panel_at(f.side_panels@, col, row, 0) == side_panel_at(
                f.side_panels@,
                col,
                row,
                i as int,
            ),
            click_command(*f, *s, col, row) == match side_panel_at(f.side_panels@, col, row, 0) {
                Some(k) => {
                    let area = f.side_panels@[k];
                    match layout::window_of(k) {
                        Some(window) => if row == area.y {
                            ClickCommand::Title { window, column: (col - area.x) as u16 }
                        } else {
                            ClickCommand::Item {
                                window,
                                switch: s.active != window,
                                row: (row - area.y - 1) as u16,
                            }
                        },
                        None => ClickCommand::FocusSide,
                    }
                },
                None => ClickCommand::Nothing,
            },
        decreases f.side_panels@.len() - i,
    {
        let area = f.side_panels[i];
        if rect_contains(area, col, row) {
            return match layout::window_at(i) {
                Some(window) => if row == area.y {
                    ClickCommand::Title { window, column: col - area.x }
                } else {
                    ClickCommand::Item {
                        window,
                        switch: s.active != window,
                        row: row - area.y - 1,
                    }
                },
                None => ClickCommand::FocusSide,
            };
        }
        i = i + 1;
    }
    ClickCommand::Nothing
}

/// Whether the mouse is at the diff: it has the keys, or the mouse is in its panel.
pub open spec fn at_diff(f: FrameLayout, s: PanelState, col: u16, row: u16) -> bool {
    s.diff_focused || (!(s.screen_mode is Full) && f.main_panel.contains(col as int, row as int))
}

/// What a turn of the wheel means to the panels.
pub open spec fn wheel_command(f: FrameLayout, s: PanelState, mouse: MouseEvent, down: bool) -> PanelCommand {
    if layout::in_details(f, mouse.column, mouse.row) {
        PanelCommand::ScrollDetails { down }
    } else if !at_diff(f, s, mouse.column, mouse.row) {
        PanelCommand::ScrollList { down }
    } else if mouse.modifiers.shift {
        PanelCommand::ScrollDiffSideways { right: down, drop_selection: true }
    } else {
        PanelCommand::ScrollDiff { down }
    }
}

/// What a sideways turn of the wheel means to the panels.
pub open spec fn sideways_command(f: FrameLayout, s: PanelState, mouse: MouseEvent, right: bool) -> PanelCommand {
    if !layout::in_details(f, mouse.column, mouse.row) && at_diff(f, s, mouse.column, mouse.row) {
        PanelCommand::ScrollDiffSideways { right, drop_selection: false }
    } else {
        PanelCommand::Nothing
    }
}

/// What the mouse means to the panels.
pub open spec fn panel_command(f: FrameLayout, s: PanelState, mouse: MouseEvent) -> PanelCommand {
    let (col, row) = (mouse.column, mouse.row);
    match mouse.kind {
        MouseEventKind::Down(MouseButton::Left) => if f.main_panel.contains(col as int, row as int)
            && !s.diff_empty && (!(s.screen_mode is Full) || s.diff_focused) {
            match s.revert_hunk {
                Some(h) => PanelCommand::RevertBlock(h),
                None => match s.panel {
                    Some(p) => PanelCommand::BeginSelection(p),
                    None => PanelCommand::DropSelection,
                },
            }
        } else {
            PanelCommand::Click(click_command(f, s, col, row))
        },
        MouseEventKind::Drag(MouseButton::Left) => PanelCommand::DragSelection,
        MouseEventKind::Up(MouseButton::Left) => PanelCommand::EndSelection,
        MouseEventKind::ScrollUp => wheel_command(f, s, mouse, false),
        MouseEventKind::ScrollDown => wheel_command(f, s, mouse, true),
        MouseEventKind::ScrollLeft => sideways_command(f, s, mouse, false),
        MouseEventKind::ScrollRight => sideways_command(f, s, mouse, true),
        _ => PanelCommand::Nothing,
    }
}

fn is_at_diff(f: &FrameLayout, s: &PanelState, col: u16, row: u16) -> (r: bool)
    ensures
        r == at_diff(*f, *s, col, row),
{
    s.diff_focused || (s.screen_mode != ScreenMode::Full && rect_contains(f.main_panel, col, row))
}

fn wheel_of(f: &FrameLayout, s: &PanelState, mouse: MouseEvent, down: bool) -> (r: PanelCommand)
    ensures
        r == wheel_command(*f, *s, mouse, down),
{
    if layout::is_in_commit_details_panel(f, mouse.column, mouse.row) {
        PanelCommand::ScrollDetails { down }
    } else if !is_at_diff(f, s, mouse.column, mouse.row) {
        PanelCommand::ScrollList { down }
    } else if mouse.modifiers.shift {
        PanelCommand::ScrollDiffSideways { right: down, drop_selection: true }
    } else {
        PanelCommand::ScrollDiff { down }
    }
}

fn sideways_of(f: &FrameLayout, s: &PanelState, mouse: MouseEvent, right: bool) -> (r: PanelCommand)
    ensures
        r == sideways_command(*f, *s, mouse, right),
{
    if !layout::is_in_commit_details_panel(f, mouse.column, mouse.row) && is_at_diff(
        f,
        s,
        mouse.column,
        mouse.row,
    ) {
        PanelCommand::ScrollDiffSideways { right, drop_selection: false }
    } else {
        PanelCommand::Nothing
    }
}

/// Tells what the mouse means to the panels.
pub fn handle_panel_mouse(f: &FrameLayout, s: &PanelState, mouse: MouseEvent) -> (r: PanelCommand)
    ensures
        r == panel_command(*f, *s, mouse),
{
    match mouse.kind {
        MouseEventKind::Down(MouseButton::Left) => {
            let in_main = rect_contains(f.main_panel, mouse.column, mouse.row);
            if in_main && !s.diff_empty && (s.screen_mode != ScreenMode::Full || s.diff_focused) {
                match s.revert_hunk {
                    Some(h) => PanelCommand::RevertBlock(h),
                    None => match s.panel {
                        Some(p) => PanelCommand::BeginSelection(p),
                        None => PanelCommand::DropSelection,
                    },
                }
            } else {
                PanelCommand::Click(handle_mouse_click(f, s, mouse.column, mouse.row))
            }
        },
        MouseEventKind::Drag(MouseButton::Left) => PanelCommand::DragSelection,
        MouseEventKind::Up(MouseButton::Left) => PanelCommand::EndSelection,
        MouseEventKind::ScrollUp => wheel_of(f, s, mouse, false),
        MouseEventKind::ScrollDown => wheel_of(f, s, mouse, true),
        MouseEventKind::ScrollLeft => sideways_of(f, s, mouse, false),
        MouseEventKind::ScrollRight => sideways_of(f, s, mouse, true),
        _ => PanelCommand::Nothing,
    }
}

// ---------------------------------------------------------------------------
// Laws
// ---------------------------------------------------------------------------

/// With the mouse switched off, nothing it does means anything.
pub proof fn a_mouse_switched_off_does_nothing(
    mouse: MouseEvent,
    s: MouseState,
    resize: SideResize,
    popup: PopupState,
    generate: Seq<char>,
)
    requires
        !s.mouse_events,
    ensures
        mouse_course(mouse, s, resize, popup, generate) == (resize, MouseCourse::Ignore),
{
}

/// From grabbing the divider to letting it go, dragging the mouse only resizes.
pub proof fn a_grabbed_divider_has_the_mouse(
    mouse: MouseEvent,
    s: MouseState,
    resize: SideResize,
    popup: PopupState,
    generate: Seq<char>,
)
    requires
        s.mouse_events,
        resize.resizing,
        mouse.kind == MouseEventKind::Drag(MouseButton::Left) || mouse.kind == MouseEventKind::Up(
            MouseButton::Left,
        ),
    ensures
        mouse_course(mouse, s, resize, popup, generate).1 is Resize,
        mouse_course(mouse, s, resize, popup, generate).0.resizing == (mouse.kind is Drag),
{
}

/// The divider is not grabbed while a window is open.
pub proof fn an_open_window_keeps_the_divider(
    mouse: MouseEvent,
    s: MouseState,
    resize: SideResize,
    popup: PopupState,
    generate: Seq<char>,
)
    requires
        !(popup is Closed),
        !resize.resizing,
    ensures
        !mouse_course(mouse, s, resize, popup, generate).0.resizing,
        !(mouse_course(mouse, s, resize, popup, generate).1 is Resize),
{
}

/// The details of a commit take no clicks, and the wheel over them moves nothing else.
pub proof fn details_keep_the_mouse(f: FrameLayout, s: PanelState, mouse: MouseEvent)
    requires
        layout::in_details(f, mouse.column, mouse.row),
        !f.main_panel.contains(mouse.column as int, mouse.row as int),
    ensures
        mouse.kind == MouseEventKind::Down(MouseButton::Left) ==> panel_command(f, s, mouse)
            == PanelCommand::Click(ClickCommand::Nothing),
        mouse.kind is ScrollUp || mouse.kind is ScrollDown ==> panel_command(
            f,
            s,
            mouse,
        ) is ScrollDetails,
        mouse.kind is ScrollLeft || mouse.kind is ScrollRight ==> panel_command(
            f,
            s,
            mouse,
        ) is Nothing,
{
}

/// A click in the main panel on a diff with anything in it acts on the diff: it reverts the
/// block whose mark it hits, begins a selection on the side it hits, or drops the selection.
/// Elsewhere it goes to the lists.
pub proof fn a_click_in_the_diff_acts_on_it(f: FrameLayout, s: PanelState, mouse: MouseEvent)
    requires
        mouse.kind == MouseEventKind::Down(MouseButton::Left),
    ensures
        ({
            let c = panel_command(f, s, mouse);
            let main = f.main_panel.contains(mouse.column as int, mouse.row as int);
            let diff = main && !s.diff_empty && (s.diff_focused || !(s.screen_mode is Full));
            &&& diff && s.revert_hunk is Some ==> c == PanelCommand::RevertBlock(s.revert_hunk->0)
            &&& diff && s.revert_hunk is None && s.panel is Some ==> c
                == PanelCommand::BeginSelection(s.panel->0)
            &&& diff && s.revert_hunk is None && s.panel is None ==> c is DropSelection
            &&& !diff ==> c is Click
        }),
{
}

/// A click on a window of the side panel hits its title in the first row, and below it the
/// items, row by row; a window that is not active is switched to.
pub proof fn a_click_on_a_window_hits_its_row(
    f: FrameLayout,
    s: PanelState,
    col: u16,
    row: u16,
    i: int,
    w: SideWindow,
)
    requires
        !(s.screen_mode is Full) || s.diff_focused,
        f.commit_details_panel is None,
        !f.main_panel.contains(col as int, row as int),
        0 <= i < f.side_panels@.len(),
        f.side_panels@[i].contains(col as int, row as int),
        forall|j: int|
            0 <= j < i ==> !(#[trigger] f.side_panels@[j]).contains(col as int, row as int),
        layout::window_of(i) == Some(w),
    ensures
        row == f.side_panels@[i].y ==> click_command(f, s, col, row) == (ClickCommand::Title {
            window: w,
            column: (col - f.side_panels@[i].x) as u16,
        }),
        row > f.side_panels@[i].y ==> click_command(f, s, col, row) == (ClickCommand::Item {
            window: w,
            switch: s.active != w,
            row: (row - f.side_panels@[i].y - 1) as u16,
        }),
{
    lemma_side_panel(f.side_panels@, col, row, 0, i);
}

proof fn lemma_side_panel(v: Seq<Rect>, col: u16, row: u16, from: int, i: int)
    requires
        0 <= from <= i < v.len(),
        v[i].contains(col as int, row as int),
        forall|j: int| 0 <= j < i ==> !(#[trigger] v[j]).contains(col as int, row as int),
    ensures
        side_panel_at(v, col, row, from) == Some(i),
    decreases i - from,
{
    if from < i {
        assert(!v[from].contains(col as int, row as int));
        lemma_side_panel(v, col, row, from + 1, i);
    }
}

/// On the full screen a click selects the item in its row, the first of them below the
/// border; a click outside of everything means nothing.
pub proof fn a_click_on_the_full_screen_selects(f: FrameLayout, s: PanelState, col: u16, row: u16)
    requires
        s.screen_mode is Full,
        !s.diff_focused,
        f.commit_details_panel is None,
    ensures
        f.main_panel.contains(col as int, row as int) && row > f.main_panel.y ==> click_command(
            f,
            s,
            col,
            row,
        ) == ClickCommand::SelectRow((row - f.main_panel.y - 1) as u16),
        !f.main_panel.contains(col as int, row as int) ==> click_command(f, s, col, row) is Nothing,
{
}

/// The wheel moves the diff where the mouse is at it, by columns with shift held, the
/// details where it is over them, and else the list; down is down and right is right.
pub proof fn the_wheel_moves_what_it_is_over(f: FrameLayout, s: PanelState, mouse: MouseEvent)
    requires
        f.commit_details_panel is None,
    ensures
        ({
            let c = panel_command(f, s, mouse);
            let main = f.main_panel.contains(mouse.column as int, mouse.row as int);
            let diff = s.diff_focused || (main && !(s.screen_mode is Full));
            let shift = mouse.modifiers.shift;
            let turned = mouse.kind is ScrollDown || mouse.kind is ScrollUp;
            let down = mouse.kind is ScrollDown;
            let sideways = mouse.kind is ScrollLeft || mouse.kind is ScrollRight;
            &&& turned && !diff ==> c == (PanelCommand::ScrollList { down })
            &&& turned && diff && !shift ==> c == (PanelCommand::ScrollDiff { down })
            &&& turned && diff && shift ==> c == (PanelCommand::ScrollDiffSideways {
                right: down,
                drop_selection: true,
            })
            &&& sideways && diff ==> c == (PanelCommand::ScrollDiffSideways {
                right: mouse.kind is ScrollRight,
                drop_selection: false,
            })
            &&& sideways && !diff ==> c is Nothing
            &&& mouse.kind == MouseEventKind::Drag(MouseButton::Left) ==> c is DragSelection
            &&& mouse.kind == MouseEventKind::Up(MouseButton::Left) ==> c is EndSelection
            &&& mouse.kind is Moved ==> c is Nothing
        }),
{
}

/// The divider is grabbed by a click where it can be, follows the mouse while it is dragged,
/// and is let go with the button; anything else ends the resizing and means something else.
pub proof fn the_divider_follows_the_mouse(r: SideResize, kind: MouseEventKind, offset: u16)
    ensures
        !r.resizing && kind == MouseEventKind::Down(MouseButton::Left) ==> r.moved(
            kind,
            true,
            offset,
        ) == (SideResize { resizing: true, row_offset: offset }, ResizeStep::Grab),
        !r.resizing ==> r.moved(kind, false, offset) == (r, ResizeStep::PassOn),
        r.resizing && kind == MouseEventKind::Drag(MouseButton::Left) ==> r.moved(
            kind,
            true,
            offset,
        ) == (r, ResizeStep::Follow) && r.moved(kind, false, offset) == (r, ResizeStep::Follow),
        r.resizing && kind == MouseEventKind::Up(MouseButton::Left) ==> r.moved(
            kind,
            false,
            offset,
        ).1 is LetGo && !r.moved(kind, false, offset).0.resizing,
        r.resizing && (kind is Moved || kind is ScrollUp || kind is ScrollDown) ==> r.moved(
            kind,
            false,
            offset,
        ).1 is PassOn && !r.moved(kind, false, offset).0.resizing,
{
}

/// Behind the divider and the editor of a message the rebase has the mouse before the
/// comparison, and that before the windows, and those before the panels.
pub proof fn modes_have_the_mouse_before_windows(
    mouse: MouseEvent,
    s: MouseState,
    popup: PopupState,
)
    ensures
        s.rebase_mode ==> mode_course(mouse, s, popup) is ToRebase,
        !s.rebase_mode && s.diff_mode && popup is Closed ==> mode_course(mouse, s, popup)
            is ToDiffMode,
        !s.rebase_mode && s.diff_mode && (popup is RefPicker || popup is ListPicker) ==> mode_course(
            mouse,
            s,
            popup,
        ) is ToPopup,
        !s.rebase_mode && s.diff_mode && popup is CommandPalette ==> (mode_course(mouse, s, popup)
            is ToPopup <==> mouse.kind is ScrollUp || mouse.kind is ScrollDown),
        !s.rebase_mode && !s.diff_mode && popup.has_mouse() ==> mode_course(mouse, s, popup)
            is ToPopup,
        !s.rebase_mode && !s.diff_mode && !popup.has_mouse() ==> mode_course(mouse, s, popup)
            is ToPanels,
{
}

/// In the editor of a message a click on its button generates a message, where there is a
/// command for it, and the wheel over the body moves it.
pub proof fn the_editor_of_a_message_has_the_mouse(
    mouse: MouseEvent,
    s: MouseState,
    generate: Seq<char>,
)
    ensures
        ({
            let c = editor_course(mouse, s, generate);
            let at = (mouse.column as int, mouse.row as int);
            let click = mouse.kind == MouseEventKind::Down(MouseButton::Left);
            let button = s.ai_button matches Some(r) && r.contains(at.0, at.1);
            let body = s.message_body matches Some(r) && r.contains(at.0, at.1);
            &&& click && button && text::trim(generate).len() > 0 ==> c == Some(
                MouseCourse::GenerateMessage,
            )
            &&& click && button && text::trim(generate).len() == 0 ==> c == Some(
                MouseCourse::ShowHowTo,
            )
            &&& mouse.kind is ScrollDown && body ==> c == Some(
                MouseCourse::ScrollMessage { down: true },
            )
            &&& mouse.kind is ScrollUp && body ==> c == Some(
                MouseCourse::ScrollMessage { down: false },
            )
            &&& !button && !body ==> c is None
        }),
{
}

/// The wheel moves the list of a rebase by three rows as far as it goes, and a click selects
/// the step in its row; the first row stands below the border and a line, and two rows
/// further down while the rebase is under way.
pub proof fn the_mouse_in_the_list_of_a_rebase(
    v: RebaseView,
    kind: MouseEventKind,
    row: u16,
    outer: Rect,
)
    requires
        outer.height >= 6,
        outer.y + outer.height <= u16::MAX,
        v.entries@.len() < usize::MAX,
        v.scroll + v.visible_height <= v.entries@.len() + 1,
    ensures
        ({
            let a = v.moused(kind, row, outer);
            let top = outer.y + if v.phase is InProgress {
                4int
            } else {
                2
            };
            let k = row - top;
            &&& kind is ScrollDown ==> v.scroll <= a.scroll <= v.scroll + 3 && (a.scroll < v.scroll
                + 3 ==> a.scroll + v.visible_height == v.entries@.len() + 1)
            &&& kind is ScrollUp ==> a.scroll <= v.scroll && (a.scroll > 0 ==> a.scroll == v.scroll
                - 3)
            &&& kind is ScrollUp || kind is ScrollDown ==> a.selected == v.selected
            &&& kind == MouseEventKind::Down(MouseButton::Left) ==> a.scroll == v.scroll && if top
                <= row < outer.y + outer.height - 1 && v.scroll + k < v.entries@.len() {
                a.selected == v.scroll + k
            } else {
                a.selected == v.selected
            }
            &&& a.entries == v.entries && a.active == v.active && a.phase == v.phase
        }),
{
}

} // verus!
