//! What the mouse means while two references are compared.

use crate::gui::input::{rect_contains, MouseButton, MouseEvent, MouseEventKind, Rect};
use crate::gui::layout;
use crate::gui::areas;
use crate::gui::areas::{area_above_status, split_area, Axis, Extent};
use crate::gui::picker;
use crate::gui::selection::DiffPanel;
use vstd::prelude::*;

verus! {

/// How many results of a search are on show at once.
pub const DROPDOWN_ROWS: usize = 10;

/// One of the two references.
#[derive(Debug, Clone, Copy, PartialEq, Eq, Structural)]
pub enum DiffModeSelector {
    A,
    B,
}

/// What has the keys.
#[derive(Debug, Clone, Copy, PartialEq, Eq, Structural)]
pub enum DiffModeFocus {
    SelectorA,
    SelectorB,
    CommitFiles,
    DiffExploration,
}

/// What the mouse depends on.
#[derive(Debug, Clone, Copy, PartialEq, Eq, Structural)]
pub struct DiffModeState {
    /// The reference that is being searched for.
    pub editing: Option<DiffModeSelector>,
    pub result_count: usize,
    pub search_selected: usize,
    pub dropdown_scroll: usize,
    pub file_count: usize,
    pub files_scroll: usize,
    pub diff_empty: bool,
    /// The side of the diff in whose columns the mouse is.
    pub panel: Option<DiffPanel>,
}

/// Where things stand.
#[derive(Debug, Clone, Copy, PartialEq, Eq, Structural)]
pub struct DiffModeAreas {
    pub selector_a: Rect,
    pub selector_b: Rect,
    pub files: Rect,
    pub diff: Rect,
}

/// What the mouse means.
#[derive(Debug, Clone, Copy, PartialEq, Eq, Structural)]
pub enum DiffModeCommand {
    Nothing,
    /// The result with this index is taken for the reference.
    PickResult(usize),
    /// The result with this index is selected and brought into view.
    SelectResult(usize),
    /// A selection begins on a side of the diff, which gets the keys.
    BeginSelection(DiffPanel),
    /// The selection is dropped, and the diff gets the keys.
    FocusDiff,
    /// The selection is dropped, and the reference is searched for.
    Edit(DiffModeSelector),
    /// The selection is dropped, the files get the keys, and one may be selected.
    FocusFiles { select: Option<usize> },
    /// The selection is dropped.
    DropSelection,
    DragSelection,
    EndSelection,
    /// The selection is dropped, and the diff moves by three rows.
    ScrollDiff { down: bool },
    /// The diff moves by four columns; the selection may be dropped.
    ScrollDiffSideways { right: bool, drop_selection: bool },
    /// The list of files gets this first row in view, without what is selected in it.
    ScrollFiles { to: usize },
}

/// Where the results of a search are on show: below the field of the reference, ten at
/// most and no further than the screen goes, in a border.
pub open spec fn dropdown_area(s: DiffModeState, a: DiffModeAreas, height: u16) -> (Rect, int) {
    let anchor = if s.editing == Some(DiffModeSelector::A) {
        a.selector_a
    } else {
        a.selector_b
    };
    let below = anchor.y + anchor.height;
    let rows = picker::at_most(
        picker::at_most(DROPDOWN_ROWS as int, s.result_count as int) + 2,
        picker::minus(height as int, below),
    );
    (anchor, rows)
}

/// Whether the mouse is over the results of a search.
pub open spec fn over_dropdown(s: DiffModeState, a: DiffModeAreas, height: u16, col: u16, row: u16) -> bool {
    let (anchor, rows) = dropdown_area(s, a, height);
    &&& s.editing is Some && s.result_count > 0
    &&& anchor.x <= col < anchor.x + anchor.width
    &&& anchor.y + anchor.height <= row < anchor.y + anchor.height + rows
}

/// What the mouse means over the results of a search.
pub open spec fn dropdown_command(
    s: DiffModeState,
    a: DiffModeAreas,
    height: u16,
    mouse: MouseEvent,
) -> Option<DiffModeCommand> {
    let (anchor, _) = dropdown_area(s, a, height);
    match mouse.kind {
        MouseEventKind::Down(MouseButton::Left) => Some(
            match layout::item_in_row(
                s.dropdown_scroll as int,
                picker::minus(mouse.row as int, anchor.y + anchor.height + 1),
                s.result_count as int,
            ) {
                Some(i) => DiffModeCommand::PickResult(i),
                None => DiffModeCommand::Nothing,
            },
        ),
        MouseEventKind::ScrollUp => Some(
            if s.search_selected > 0 {
                DiffModeCommand::SelectResult(picker::minus(s.search_selected as int, 3) as usize)
            } else {
                DiffModeCommand::Nothing
            },
        ),
        MouseEventKind::ScrollDown => Some(
            DiffModeCommand::SelectResult(
                picker::at_most(s.search_selected + 3, s.result_count - 1) as usize,
            ),
        ),
        _ => None,
    }
}

/// What a click means elsewhere.
pub open spec fn area_click(s: DiffModeState, a: DiffModeAreas, col: u16, row: u16) -> DiffModeCommand {
    let (c, r) = (col as int, row as int);
    if a.diff.contains(c, r) && !s.diff_empty {
        match s.panel {
            Some(p) => DiffModeCommand::BeginSelection(p),
            None => DiffModeCommand::FocusDiff,
        }
    } else if a.selector_a.contains(c, r) {
        DiffModeCommand::Edit(DiffModeSelector::A)
    } else if a.selector_b.contains(c, r) {
        DiffModeCommand::Edit(DiffModeSelector::B)
    } else if a.files.contains(c, r) {
        DiffModeCommand::FocusFiles {
            select: layout::item_in_row(
                s.files_scroll as int,
                picker::minus(r, a.files.y + 1),
                s.file_count as int,
            ),
        }
    } else if a.diff.contains(c, r) {
        DiffModeCommand::FocusDiff
    } else {
        DiffModeCommand::DropSelection
    }
}

/// What a turn of the wheel means elsewhere.
pub open spec fn area_wheel(s: DiffModeState, a: DiffModeAreas, mouse: MouseEvent, down: bool) -> DiffModeCommand {
    let (c, r) = (mouse.column as int, mouse.row as int);
    if a.diff.contains(c, r) {
        if mouse.modifiers.shift {
            DiffModeCommand::ScrollDiffSideways { right: down, drop_selection: true }
        } else {
            DiffModeCommand::ScrollDiff { down }
        }
    } else if a.files.contains(c, r) {
        DiffModeCommand::ScrollFiles {
            to: layout::moved_view(
                s.files_scroll as int,
                if down {
                    3
                } else {
                    -3
                },
                s.file_count as int,
                picker::minus(a.files.height as int, 2),
            ) as usize,
        }
    } else {
        DiffModeCommand::Nothing
    }
}

/// What the mouse means: over the results of a search their list has it.
pub open spec fn diff_mode_command(
    s: DiffModeState,
    a: DiffModeAreas,
    height: u16,
    mouse: MouseEvent,
) -> DiffModeCommand {
    let (col, row) = (mouse.column, mouse.row);
    if over_dropdown(s, a, height, col, row) && dropdown_command(s, a, height, mouse) is Some {
        dropdown_command(s, a, height, mouse)->0
    } else {
        match mouse.kind {
            MouseEventKind::Down(MouseButton::Left) => area_click(s, a, col, row),
            MouseEventKind::Drag(MouseButton::Left) => DiffModeCommand::DragSelection,
            MouseEventKind::Up(MouseButton::Left) => DiffModeCommand::EndSelection,
            MouseEventKind::ScrollUp => area_wheel(s, a, mouse, false),
            MouseEventKind::ScrollDown => area_wheel(s, a, mouse, true),
            MouseEventKind::ScrollLeft => if a.diff.contains(col as int, row as int) {
                DiffModeCommand::ScrollDiffSideways { right: false, drop_selection: false }
            } else {
                DiffModeCommand::Nothing
            },
            MouseEventKind::ScrollRight => if a.diff.contains(col as int, row as int) {
                DiffModeCommand::ScrollDiffSideways { right: true, drop_selection: false }
            } else {
                DiffModeCommand::Nothing
            },
            _ => DiffModeCommand::Nothing,
        }
    }
}

fn dropdown_of(s: &DiffModeState, a: &DiffModeAreas, height: u16, mouse: MouseEvent) -> (r: Option<
    DiffModeCommand,
>)
    ensures
        r == if over_dropdown(*s, *a, height, mouse.column, mouse.row) {
            dropdown_command(*s, *a, height, mouse)
        } else {
            None
        },
{
    if s.editing.is_none() || s.result_count == 0 {
        return None;
    }
    let anchor = match s.editing {
        Some(DiffModeSelector::A) => a.selector_a,
        _ => a.selector_b,
    };
    let below: u32 = anchor.y as u32 + anchor.height as u32;
    let shown: u32 = if s.result_count >= DROPDOWN_ROWS {
        DROPDOWN_ROWS as u32
    } else {
        s.result_count as u32
    };
    let room: u32 = if height as u32 >= below {
        height as u32 - below
    } else {
        0
    };
    let rows: u32 = if shown + 2 <= room {
        shown + 2
    } else {
        room
    };
    let row: u32 = mouse.row as u32;
    if mouse.column < anchor.x || mouse.column - anchor.x >= anchor.width || row < below || row
        - below >= rows {
        return None;
    }
    match mouse.kind {
        MouseEventKind::Down(MouseButton::Left) => {
            let inner: u16 = (row - below).saturating_sub(1) as u16;
            Some(
                match layout::list_item_in_row(s.dropdown_scroll, inner, s.result_count) {
                    Some(i) => DiffModeCommand::PickResult(i),
                    None => DiffModeCommand::Nothing,
                },
            )
        },
        MouseEventKind::ScrollUp => Some(
            if s.search_selected > 0 {
                DiffModeCommand::SelectResult(s.search_selected.saturating_sub(3))
            } else {
                DiffModeCommand::Nothing
            },
        ),
        MouseEventKind::ScrollDown => {
            let next: usize = s.search_selected.saturating_add(3);
            Some(
                DiffModeCommand::SelectResult(
                    if next <= s.result_count - 1 {
                        next
                    } else {
                        s.result_count - 1
                    },
                ),
            )
        },
        _ => None,
    }
}

fn click_of(s: &DiffModeState, a: &DiffModeAreas, col: u16, row: u16) -> (r: DiffModeCommand)
    ensures
        r == area_click(*s, *a, col, row),
{
    let in_diff = rect_contains(a.diff, col, row);
    if in_diff && !s.diff_empty {
        match s.panel {
            Some(p) => DiffModeCommand::BeginSelection(p),
            None => DiffModeCommand::FocusDiff,
        }
    } else if rect_contains(a.selector_a, col, row) {
        DiffModeCommand::Edit(DiffModeSelector::A)
    } else if rect_contains(a.selector_b, col, row) {
        DiffModeCommand::Edit(DiffModeSelector::B)
    } else if rect_contains(a.files, col, row) {
        let inner: u16 = (row - a.files.y).saturating_sub(1);
        DiffModeCommand::FocusFiles {
            select: layout::list_item_in_row(s.files_scroll, inner, s.file_count),
        }
    } else if in_diff {
        DiffModeCommand::FocusDiff
    } else {
        DiffModeCommand::DropSelection
    }
}

fn wheel_of(s: &DiffModeState, a: &DiffModeAreas, mouse: MouseEvent, down: bool) -> (r:
    DiffModeCommand)
    ensures
        r == area_wheel(*s, *a, mouse, down),
{
    if rect_contains(a.diff, mouse.column, mouse.row) {
        if mouse.modifiers.shift {
            DiffModeCommand::ScrollDiffSideways { right: down, drop_selection: true }
        } else {
            DiffModeCommand::ScrollDiff { down }
        }
    } else if rect_contains(a.files, mouse.column, mouse.row) {
        let height: usize = a.files.height.saturating_sub(2) as usize;
        DiffModeCommand::ScrollFiles {
            to: layout::scroll_viewport(s.files_scroll, down, 3, s.file_count, height),
        }
    } else {
        DiffModeCommand::Nothing
    }
}

/// Tells what the mouse means, given where things stand.
pub fn mouse_in_areas(s: &DiffModeState, a: &DiffModeAreas, height: u16, mouse: MouseEvent) -> (r:
    DiffModeCommand)
    ensures
        r == diff_mode_command(*s, *a, height, mouse),
{
    match dropdown_of(s, a, height, mouse) {
        Some(command) => {
            return command;
        },
        None => {},
    }
    match mouse.kind {
        MouseEventKind::Down(MouseButton::Left) => click_of(s, a, mouse.column, mouse.row),
        MouseEventKind::Drag(MouseButton::Left) => DiffModeCommand::DragSelection,
        MouseEventKind::Up(MouseButton::Left) => DiffModeCommand::EndSelection,
        MouseEventKind::ScrollUp => wheel_of(s, a, mouse, false),
        MouseEventKind::ScrollDown => wheel_of(s, a, mouse, true),
        MouseEventKind::ScrollLeft => if rect_contains(a.diff, mouse.column, mouse.row) {
            DiffModeCommand::ScrollDiffSideways { right: false, drop_selection: false }
        } else {
            DiffModeCommand::Nothing
        },
        MouseEventKind::ScrollRight => if rect_contains(a.diff, mouse.column, mouse.row) {
            DiffModeCommand::ScrollDiffSideways { right: true, drop_selection: false }
        } else {
            DiffModeCommand::Nothing
        },
        _ => DiffModeCommand::Nothing,
    }
}

/// In which rows the two references end, of those above the status: each has three rows
/// while that leaves one for the files, and otherwise they share what that row leaves.
pub open spec fn reference_rows(rows: int) -> (int, int) {
    if rows >= 7 {
        (3, 6)
    } else if rows >= 1 {
        (rows / 2, rows - 1)
    } else {
        (0, 0)
    }
}

/// Where things stand on a screen: above a row for the status, a third of it for the
/// references and the files, and the rest for the diff.
pub open spec fn areas_on(width: u16, height: u16) -> DiffModeAreas {
    let left = ((33 * width + 50) / 100) as u16;
    let rows = areas::above_last_row(width, height).height;
    let (a, b) = reference_rows(rows as int);
    DiffModeAreas {
        selector_a: Rect { x: 0, y: 0, width: left, height: a as u16 },
        selector_b: Rect { x: 0, y: a as u16, width: left, height: (b - a) as u16 },
        files: Rect { x: 0, y: b as u16, width: left, height: (rows - b) as u16 },
        diff: Rect { x: left, y: 0, width: (width - left) as u16, height: rows },
    }
}

/// Gives where things stand on a screen.
pub fn diff_mode_areas(width: u16, height: u16) -> (r: DiffModeAreas)
    ensures
        r == areas_on(width, height),
{
    let outer = area_above_status(width, height);
    let mut across: Vec<Extent> = Vec::new();
    across.push(Extent::Percentage(33));
    across.push(Extent::Percentage(67));
    let content = split_area(outer, Axis::Horizontal, &across);
    let mut down: Vec<Extent> = Vec::new();
    down.push(Extent::Length(3));
    down.push(Extent::Length(3));
    down.push(Extent::Min(1));
    proof {
        reveal_with_fuel(areas::percentages, 3);
        assert(areas::across(Axis::Horizontal, content@[0]) == areas::across(
            Axis::Horizontal,
            outer,
        ));
        assert(areas::percentages(across@, 2) == 100 && areas::percentages(across@, 1) == 33);
        assert(areas::shares_of_the_whole(across@));
        assert(areas::along(Axis::Horizontal, content@[1]).0 == (33 * width + 50) / 100);
    }
    let side = split_area(content[0], Axis::Vertical, &down);
    proof {
        reveal_with_fuel(areas::lengths, 4);
        let e = down@;
        assert(areas::lengths(e, 3) == 6 && areas::lengths(e, 2) == 6 && areas::lengths(e, 1) == 3);
        let rows = outer.height as int;
        let (a, b) = reference_rows(rows);
        if rows >= 7 {
            assert(areas::one_takes_the_rest(e, rows, 2));
        } else {
            assert(areas::compete(e, rows, 2));
        }
        assert(areas::along(Axis::Vertical, side@[0]) == (0int, a));
        assert(areas::along(Axis::Vertical, side@[1]) == (a, b - a));
        assert(areas::along(Axis::Vertical, side@[2]) == (b, rows - b));
    }
    DiffModeAreas { selector_a: side[0], selector_b: side[1], files: side[2], diff: content[1] }
}

/// Tells what the mouse means.
pub fn handle_diff_mode_mouse(s: &DiffModeState, width: u16, height: u16, mouse: MouseEvent) -> (r:
    DiffModeCommand)
    ensures
        r == diff_mode_command(*s, areas_on(width, height), height, mouse),
{
    let a = diff_mode_areas(width, height);
    mouse_in_areas(s, &a, height, mouse)
}

/// What follows once a result was taken for a reference.
#[derive(Debug, Clone, Copy, PartialEq, Eq, Structural)]
pub enum AfterPick {
    /// Both references are there: the files are loaded and get the keys.
    LoadFiles,
    /// The other reference is searched for.
    Edit(DiffModeSelector),
}

/// Tells what follows once a result was taken for a reference.
pub fn after_pick(has_a: bool, has_b: bool) -> (r: AfterPick)
    ensures
        r == if has_a && has_b {
            AfterPick::LoadFiles
        } else if !has_a {
            AfterPick::Edit(DiffModeSelector::A)
        } else {
            AfterPick::Edit(DiffModeSelector::B)
        },
{
    if has_a && has_b {
        AfterPick::LoadFiles
    } else if !has_a {
        AfterPick::Edit(DiffModeSelector::A)
    } else {
        AfterPick::Edit(DiffModeSelector::B)
    }
}

// ---------------------------------------------------------------------------
// Laws
// ---------------------------------------------------------------------------

/// Only a result that is there is taken or selected, and only a file that is there.
pub proof fn only_what_is_listed_is_picked(
    s: DiffModeState,
    a: DiffModeAreas,
    height: u16,
    mouse: MouseEvent,
)
    requires
        s.search_selected < s.result_count || s.result_count == 0,
    ensures
        match diff_mode_command(s, a, height, mouse) {
            DiffModeCommand::PickResult(i) => i < s.result_count,
            DiffModeCommand::SelectResult(i) => i < s.result_count,
            DiffModeCommand::FocusFiles { select: Some(i) } => i < s.file_count,
            _ => true,
        },
{
}

/// While no reference is searched for, the mouse takes no result.
pub proof fn no_result_without_a_search(
    s: DiffModeState,
    a: DiffModeAreas,
    height: u16,
    mouse: MouseEvent,
)
    requires
        s.editing is None,
    ensures
        !(diff_mode_command(s, a, height, mouse) is PickResult),
        !(diff_mode_command(s, a, height, mouse) is SelectResult),
{
}

/// A click does what the place under it stands for: a reference is searched for, a file is
/// selected, the diff gets the keys or a selection begins in it.
pub proof fn a_click_means_its_place(
    s: DiffModeState,
    a: DiffModeAreas,
    height: u16,
    mouse: MouseEvent,
)
    requires
        mouse.kind == MouseEventKind::Down(MouseButton::Left),
        s.editing is None,
    ensures
        ({
            let c = diff_mode_command(s, a, height, mouse);
            let at = (mouse.column as int, mouse.row as int);
            let diff = a.diff.contains(at.0, at.1);
            let sel_a = a.selector_a.contains(at.0, at.1);
            let sel_b = a.selector_b.contains(at.0, at.1);
            let files = a.files.contains(at.0, at.1);
            &&& sel_a && !diff ==> c == DiffModeCommand::Edit(DiffModeSelector::A)
            &&& sel_b && !sel_a && !diff ==> c == DiffModeCommand::Edit(DiffModeSelector::B)
            &&& diff && !s.diff_empty && s.panel is None ==> c is FocusDiff
            &&& diff && !s.diff_empty && s.panel is Some ==> c == DiffModeCommand::BeginSelection(
                s.panel->0,
            )
            &&& diff && s.diff_empty && !sel_a && !sel_b && !files ==> c is FocusDiff
            &&& !diff && !sel_a && !sel_b && !files ==> c is DropSelection
            &&& files && !diff && !sel_a && !sel_b ==> (c matches DiffModeCommand::FocusFiles {
                select,
            } && match select {
                Some(i) => i < s.file_count && (mouse.row > a.files.y ==> i - s.files_scroll
                    == mouse.row - a.files.y - 1),
                None => mouse.row > a.files.y ==> s.files_scroll + (mouse.row - a.files.y - 1)
                    >= s.file_count,
            })
        }),
{
}

/// The wheel moves what is under it: the diff by rows, or by columns with shift held, the
/// list of files by three rows without leaving rows empty.
pub proof fn the_wheel_moves_what_is_under_it(
    s: DiffModeState,
    a: DiffModeAreas,
    height: u16,
    mouse: MouseEvent,
)
    requires
        s.editing is None,
        !a.diff.contains(mouse.column as int, mouse.row as int) || !a.files.contains(
            mouse.column as int,
            mouse.row as int,
        ),
        s.files_scroll + (a.files.height - 2) <= s.file_count,
        a.files.height >= 2,
    ensures
        ({
            let c = diff_mode_command(s, a, height, mouse);
            let diff = a.diff.contains(mouse.column as int, mouse.row as int);
            let files = a.files.contains(mouse.column as int, mouse.row as int);
            let shift = mouse.modifiers.shift;
            let down = mouse.kind is ScrollDown;
            let turned = mouse.kind is ScrollDown || mouse.kind is ScrollUp;
            &&& turned && diff && !shift ==> c == (DiffModeCommand::ScrollDiff { down })
            &&& turned && diff && shift ==> c == (DiffModeCommand::ScrollDiffSideways {
                right: down,
                drop_selection: true,
            })
            &&& mouse.kind is ScrollRight && diff ==> c == (DiffModeCommand::ScrollDiffSideways {
                right: true,
                drop_selection: false,
            })
            &&& mouse.kind is ScrollLeft && diff ==> c == (DiffModeCommand::ScrollDiffSideways {
                right: false,
                drop_selection: false,
            })
            &&& mouse.kind is ScrollDown && files ==> (c matches DiffModeCommand::ScrollFiles { to }
                && s.files_scroll <= to <= s.files_scroll + 3 && (to < s.files_scroll + 3 ==> to
                + a.files.height - 2 == s.file_count))
            &&& mouse.kind is ScrollUp && files ==> (c matches DiffModeCommand::ScrollFiles { to }
                && to <= s.files_scroll && (to > 0 ==> to == s.files_scroll - 3))
            &&& turned && !diff && !files ==> c is Nothing
            &&& mouse.kind == MouseEventKind::Drag(MouseButton::Left) ==> c is DragSelection
            &&& mouse.kind == MouseEventKind::Up(MouseButton::Left) ==> c is EndSelection
        }),
{
}

/// A click on the results of a search takes the one in its row, the first of them right
/// below the border under the field of the reference.
pub proof fn a_result_is_taken_by_its_row(
    s: DiffModeState,
    a: DiffModeAreas,
    height: u16,
    mouse: MouseEvent,
    k: int,
)
    requires
        mouse.kind == MouseEventKind::Down(MouseButton::Left),
        s.editing is Some,
        0 <= k < 10,
        s.dropdown_scroll + k < s.result_count,
        k < s.result_count,
        ({
            let field = if s.editing == Some(DiffModeSelector::A) {
                a.selector_a
            } else {
                a.selector_b
            };
            &&& field.x <= mouse.column < field.x + field.width
            &&& mouse.row == field.y + field.height + 1 + k
            &&& mouse.row < height
        }),
    ensures
        diff_mode_command(s, a, height, mouse) == DiffModeCommand::PickResult(
            (s.dropdown_scroll + k) as usize,
        ),
{
}

/// The references, the files and the diff fill the screen above the status row and do not
/// overlap: a third of the width for the first three, one below another, and the rest for
/// the diff beside them.
pub proof fn the_areas_fill_the_screen(width: u16, height: u16)
    requires
        height >= 2,
    ensures
        ({
            let a = areas_on(width, height);
            &&& a.selector_a.x == 0 && a.selector_a.y == 0
            &&& a.selector_b.x == 0 && a.selector_b.y == a.selector_a.height
            &&& a.files.x == 0 && a.files.y == a.selector_b.y + a.selector_b.height
            &&& a.files.y + a.files.height == height - 1
            &&& a.selector_a.width == a.selector_b.width && a.selector_a.width == a.files.width
            &&& a.diff.x == a.files.width && a.diff.x + a.diff.width == width
            &&& a.diff.y == 0 && a.diff.height == height - 1
            &&& height >= 8 ==> a.selector_a.height == 3 && a.selector_b.height == 3
            &&& -50 <= 100 * a.files.width - 33 * width <= 50
        }),
{
}

} // verus!
