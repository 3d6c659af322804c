//! Where things stand on the screen, and what a cell of it belongs to.

use crate::gui::context::ScreenMode;
use crate::gui::input::{rect_contains, Rect};
use crate::gui::keys::SideWindow;
use crate::gui::picker;
use vstd::prelude::*;

verus! {

/// How many windows the side panel has.
pub const SIDE_WINDOWS: usize = 5;

/// The areas of a frame.
#[derive(Debug)]
pub struct FrameLayout {
    /// The windows of the side panel, from the top.
    pub side_panels: Vec<Rect>,
    pub main_panel: Rect,
    pub commit_details_panel: Option<Rect>,
    /// Whether the side panel is above the main one, and not beside it.
    pub portrait: bool,
}

/// The place of a window in the side panel.
pub open spec fn window_index(w: SideWindow) -> int {
    match w {
        SideWindow::Status => 0,
        SideWindow::Files => 1,
        SideWindow::Branches => 2,
        SideWindow::Commits => 3,
        SideWindow::Stash => 4,
    }
}

/// The window at a place in the side panel.
pub open spec fn window_of(i: int) -> Option<SideWindow> {
    if i == 0 {
        Some(SideWindow::Status)
    } else if i == 1 {
        Some(SideWindow::Files)
    } else if i == 2 {
        Some(SideWindow::Branches)
    } else if i == 3 {
        Some(SideWindow::Commits)
    } else if i == 4 {
        Some(SideWindow::Stash)
    } else {
        None
    }
}

/// Tells the place of a window in the side panel.
pub fn index_of_window(w: SideWindow) -> (r: usize)
    ensures
        r == window_index(w),
        r < SIDE_WINDOWS,
{
    match w {
        SideWindow::Status => 0,
        SideWindow::Files => 1,
        SideWindow::Branches => 2,
        SideWindow::Commits => 3,
        SideWindow::Stash => 4,
    }
}

/// Tells the window at a place in the side panel.
pub fn window_at(i: usize) -> (r: Option<SideWindow>)
    ensures
        r == window_of(i as int),
{
    if i == 0 {
        Some(SideWindow::Status)
    } else if i == 1 {
        Some(SideWindow::Files)
    } else if i == 2 {
        Some(SideWindow::Branches)
    } else if i == 3 {
        Some(SideWindow::Commits)
    } else if i == 4 {
        Some(SideWindow::Stash)
    } else {
        None
    }
}

/// The window that takes the room of the side panel: that of the status stays small,
/// and that of the files is large in its place.
pub open spec fn large_window(active: SideWindow) -> int {
    if window_index(active) == 0 {
        1
    } else {
        window_index(active)
    }
}

/// The screen above the status bar.
pub open spec fn content_area(width: u16, height: u16) -> Rect {
    Rect { x: 0, y: 0, width, height: picker::minus(height as int, 1) as u16 }
}

/// Tells the screen above the status bar.
pub fn content_area_rect(width: u16, height: u16) -> (r: Rect)
    ensures
        r == content_area(width, height),
{
    Rect { x: 0, y: 0, width, height: height.saturating_sub(1) }
}

// ---------------------------------------------------------------------------
// The divider between the side panel and the main one
// ---------------------------------------------------------------------------

/// Whether a cell of the content is on the divider of a frame whose side panel is
/// above: the upper border of the main panel, or the lower one of the large window.
pub open spec fn portrait_divider(f: FrameLayout, content: Rect, active: SideWindow, row: int) -> bool {
    if f.side_panels@.len() == 0 {
        row == content.y
    } else if f.main_panel.height == 0 {
        row == content.y + picker::minus(content.height as int, 1)
    } else if row == f.main_panel.y {
        true
    } else {
        let i = large_window(active);
        i < f.side_panels@.len() && f.side_panels@[i].height > 0 && row == f.side_panels@[i].y
            + f.side_panels@[i].height - 1
    }
}

/// Whether a cell of the content is on the divider of a frame whose side panel is
/// at the left: a strip of three columns around the first one of the main panel.
pub open spec fn landscape_divider(f: FrameLayout, content: Rect, col: int) -> bool {
    if f.side_panels@.len() == 0 {
        col == content.x
    } else if f.main_panel.width == 0 {
        col == content.x + picker::minus(content.width as int, 1)
    } else {
        f.main_panel.x - 1 <= col <= f.main_panel.x + 1
    }
}

/// Whether a cell is on the divider between the side panel and the main one. There is
/// one to drag only where both are on show.
pub open spec fn on_divider(
    f: FrameLayout,
    mode: ScreenMode,
    width: u16,
    height: u16,
    active: SideWindow,
    col: u16,
    row: u16,
) -> bool {
    let content = content_area(width, height);
    &&& mode is Normal
    &&& content.contains(col as int, row as int)
    &&& if f.portrait {
        portrait_divider(f, content, active, row as int)
    } else {
        landscape_divider(f, content, col as int)
    }
}

/// Tells whether a cell is on the divider between the side panel and the main one.
pub fn sidebar_divider_hit(
    f: &FrameLayout,
    mode: ScreenMode,
    width: u16,
    height: u16,
    active: SideWindow,
    col: u16,
    row: u16,
) -> (r: bool)
    ensures
        r == on_divider(*f, mode, width, height, active, col, row),
{
    if mode != ScreenMode::Normal {
        return false;
    }
    let content = content_area_rect(width, height);
    if !rect_contains(content, col, row) {
        return false;
    }
    if f.portrait {
        if f.side_panels.len() == 0 {
            return row == content.y;
        }
        if f.main_panel.height == 0 {
            return row == content.height.saturating_sub(1);
        }
        if row == f.main_panel.y {
            return true;
        }
        let index: usize = index_of_window(active);
        let large: usize = if index == 0 {
            1
        } else {
            index
        };
        if large >= f.side_panels.len() {
            return false;
        }
        let panel = f.side_panels[large];
        panel.height > 0 && row >= panel.y && row - panel.y == panel.height - 1
    } else if f.side_panels.len() == 0 {
        col == content.x
    } else if f.main_panel.width == 0 {
        col == content.width.saturating_sub(1)
    } else {
        let x: u16 = f.main_panel.x;
        col >= x.saturating_sub(1) && (col <= x || col - x == 1)
    }
}

/// The rows between a grabbed one and the end of the side panel: none at the upper
/// border of the main panel; at the lower border of the large window that row and
/// those of the windows below, which are small.
pub open spec fn resize_offset(f: FrameLayout, active: SideWindow, row: u16) -> int {
    if !f.portrait || (f.main_panel.height > 0 && row == f.main_panel.y) {
        0
    } else {
        SIDE_WINDOWS - large_window(active)
    }
}

/// Tells the rows between a grabbed one and the end of the side panel.
pub fn portrait_sidebar_resize_offset(f: &FrameLayout, active: SideWindow, row: u16) -> (r: u16)
    ensures
        r == resize_offset(*f, active, row),
{
    if !f.portrait {
        return 0;
    }
    if f.main_panel.height > 0 && row == f.main_panel.y {
        return 0;
    }
    match active {
        SideWindow::Status => 4,
        SideWindow::Files => 4,
        SideWindow::Branches => 3,
        SideWindow::Commits => 2,
        SideWindow::Stash => 1,
    }
}

/// The share of the content that the side panel takes when its end is dragged to a
/// cell: so many cells of so many.
pub open spec fn dragged_share(
    portrait: bool,
    width: u16,
    height: u16,
    offset: u16,
    col: u16,
    row: u16,
) -> Option<(int, int)> {
    let content = content_area(width, height);
    if content.width == 0 || content.height == 0 {
        None
    } else if portrait {
        Some(
            (
                picker::at_most(row + offset, content.height as int),
                content.height as int,
            ),
        )
    } else {
        Some((picker::at_most(col as int, content.width as int), content.width as int))
    }
}

/// Tells the share of the content that the side panel takes when its end is dragged
/// to a cell; none where there is no content.
pub fn sidebar_ratio_from_mouse(
    portrait: bool,
    width: u16,
    height: u16,
    offset: u16,
    col: u16,
    row: u16,
) -> (r: Option<(u16, u16)>)
    ensures
        match dragged_share(portrait, width, height, offset, col, row) {
            Some((part, whole)) => r matches Some((p, w)) && p == part && w == whole,
            None => r is None,
        },
{
    let content = content_area_rect(width, height);
    if content.width == 0 || content.height == 0 {
        return None;
    }
    if portrait {
        let end: u16 = row.saturating_add(offset);
        Some(
            (
                if end <= content.height {
                    end
                } else {
                    content.height
                },
                content.height,
            ),
        )
    } else {
        Some(
            (
                if col <= content.width {
                    col
                } else {
                    content.width
                },
                content.width,
            ),
        )
    }
}

// ---------------------------------------------------------------------------
// Lists
// ---------------------------------------------------------------------------

/// The rows that the list of the active window shows: those of its area without the
/// border. On the full screen it takes the main panel.
pub open spec fn visible_list_rows(
    f: FrameLayout,
    mode: ScreenMode,
    diff_focused: bool,
    active: SideWindow,
) -> int {
    let i = window_index(active);
    let area = if (mode is Full && !diff_focused) || i >= f.side_panels@.len() {
        f.main_panel
    } else {
        f.side_panels@[i]
    };
    picker::minus(area.height as int, 2)
}

/// Tells how many rows the list of the active window shows.
pub fn sidebar_visible_height(
    f: &FrameLayout,
    mode: ScreenMode,
    diff_focused: bool,
    active: SideWindow,
) -> (r: usize)
    ensures
        r == visible_list_rows(*f, mode, diff_focused, active),
{
    let i: usize = index_of_window(active);
    let height: u16 = if (mode == ScreenMode::Full && !diff_focused) || i >= f.side_panels.len() {
        f.main_panel.height
    } else {
        f.side_panels[i].height
    };
    height.saturating_sub(2) as usize
}

/// Whether a cell is in the panel with the details of a commit.
pub open spec fn in_details(f: FrameLayout, col: u16, row: u16) -> bool {
    f.commit_details_panel matches Some(r) && r.contains(col as int, row as int)
}

/// Tells whether a cell is in the panel with the details of a commit.
pub fn is_in_commit_details_panel(f: &FrameLayout, col: u16, row: u16) -> (r: bool)
    ensures
        r == in_details(*f, col, row),
{
    match f.commit_details_panel {
        Some(area) => rect_contains(area, col, row),
        None => false,
    }
}

/// The first row of a list that is in view after its view moved by some rows: never
/// so far that rows stay empty at its end.
pub open spec fn moved_view(offset: int, delta: int, len: int, height: int) -> int {
    let last = picker::minus(len, height);
    if offset + delta < 0 {
        0
    } else {
        picker::at_most(offset + delta, last)
    }
}

/// Moves the view of a list by some rows, without its selection.
pub fn scroll_viewport(offset: usize, down: bool, rows: usize, len: usize, height: usize) -> (r: usize)
    ensures
        r == moved_view(
            offset as int,
            if down {
                rows as int
            } else {
                -rows
            },
            len as int,
            height as int,
        ),
{
    let last: usize = len.saturating_sub(height);
    let at: usize = if down {
        offset.saturating_add(rows)
    } else {
        offset.saturating_sub(rows)
    };
    if at <= last {
        at
    } else {
        last
    }
}

/// The item of a list in a row of its area, if there is one there.
pub open spec fn item_in_row(scroll: int, row: int, len: int) -> Option<usize> {
    if scroll + row < len {
        Some((scroll + row) as usize)
    } else {
        None
    }
}

/// Tells the item of a list in a row of its area.
pub fn list_item_in_row(scroll: usize, row: u16, len: usize) -> (r: Option<usize>)
    ensures
        r == item_in_row(scroll as int, row as int, len as int),
{
    if scroll < len && (row as usize) < len - scroll {
        Some(scroll + row as usize)
    } else {
        None
    }
}

// ---------------------------------------------------------------------------
// Laws
// ---------------------------------------------------------------------------

/// Grabbing the divider at the large window or at the main panel, where the windows
/// below the large one have a row each, drags the side panel to the same share.
pub proof fn both_grips_drag_alike(
    f: FrameLayout,
    width: u16,
    height: u16,
    active: SideWindow,
    row: u16,
    col: u16,
)
    requires
        f.portrait,
        f.main_panel.height > 0,
        f.side_panels@.len() == SIDE_WINDOWS,
        f.side_panels@[large_window(active)].height > 0,
        row == f.side_panels@[large_window(active)].y + f.side_panels@[large_window(active)].height
            - 1,
        f.main_panel.y == row + SIDE_WINDOWS - large_window(active),
    ensures
        dragged_share(true, width, height, resize_offset(f, active, row) as u16, col, row)
            == dragged_share(
            true,
            width,
            height,
            resize_offset(f, active, f.main_panel.y) as u16,
            col,
            f.main_panel.y,
        ),
{
}

/// The side panel never takes more than there is.
pub proof fn a_share_is_a_share(
    portrait: bool,
    width: u16,
    height: u16,
    offset: u16,
    col: u16,
    row: u16,
)
    ensures
        dragged_share(portrait, width, height, offset, col, row) matches Some((part, whole)) ==> 0
            <= part <= whole && whole > 0,
{
}

/// Moving a view never leaves empty rows that an item could fill, and never moves it
/// out of the list.
pub proof fn a_moved_view_stays_in_the_list(offset: int, delta: int, len: int, height: int)
    requires
        0 <= offset,
        0 <= len,
        0 <= height,
    ensures
        0 <= moved_view(offset, delta, len, height),
        moved_view(offset, delta, len, height) + height <= len || moved_view(
            offset,
            delta,
            len,
            height,
        ) == 0,
{
}

/// A window stands at its place in the side panel, from the top: the status, the files, the
/// branches, the commits and the stash.
pub proof fn windows_have_their_places(w: SideWindow, i: int)
    ensures
        window_of(window_index(w)) == Some(w),
        window_of(i) is Some <==> 0 <= i < 5,
        window_of(i) matches Some(v) ==> window_index(v) == i,
        window_of(0) == Some(SideWindow::Status),
        window_of(1) == Some(SideWindow::Files),
        window_of(2) == Some(SideWindow::Branches),
        window_of(3) == Some(SideWindow::Commits),
        window_of(4) == Some(SideWindow::Stash),
{
}

/// The view of a list moves by as many rows as it is asked to, in the direction asked for,
/// as far as the list goes.
pub proof fn a_view_moves_as_asked(offset: int, rows: int, len: int, height: int)
    requires
        0 <= rows,
        0 <= height,
        0 <= offset,
        offset + height <= len,
    ensures
        offset + rows + height <= len ==> moved_view(offset, rows, len, height) == offset + rows,
        offset + rows + height > len ==> moved_view(offset, rows, len, height) + height == len,
        rows <= offset ==> moved_view(offset, -rows, len, height) == offset - rows,
        rows > offset ==> moved_view(offset, -rows, len, height) == 0,
        moved_view(offset, 0, len, height) == offset,
{
}

/// The first row of a list's area shows its first item in view, and each row below the next
/// one; below the last item there is none.
pub proof fn rows_show_the_items_in_order(scroll: int, row: int, len: int)
    requires
        0 <= scroll,
        0 <= row,
        len <= usize::MAX,
    ensures
        match item_in_row(scroll, row, len) {
            Some(i) => i - scroll == row && i < len,
            None => scroll + row >= len,
        },
{
}

/// Dragging the end of the side panel to a cell gives it the cells up to there: columns
/// where it is at the left, rows where it is above.
pub proof fn the_side_panel_ends_where_it_is_dragged(
    width: u16,
    height: u16,
    offset: u16,
    col: u16,
    row: u16,
)
    requires
        width > 0,
        height > 1,
    ensures
        col <= width ==> dragged_share(false, width, height, offset, col, row) == Some(
            (col as int, width as int),
        ),
        row + offset < height ==> dragged_share(true, width, height, offset, col, row) == Some(
            (row + offset, height - 1),
        ),
        dragged_share(false, 0, height, offset, col, row) is None,
        dragged_share(true, width, 1, offset, col, row) is None,
{
}

/// There is a divider to drag only on the normal screen, within the content; at the left it
/// is the border of the main panel and a column on either side.
pub proof fn the_divider_is_at_the_border(
    f: FrameLayout,
    mode: ScreenMode,
    width: u16,
    height: u16,
    active: SideWindow,
    col: u16,
    row: u16,
)
    requires
        !f.portrait,
        f.side_panels@.len() > 0,
        f.main_panel.width > 0,
    ensures
        on_divider(f, mode, width, height, active, col, row) <==> mode is Normal && col < width
            && row + 1 < height && (col == f.main_panel.x || col == f.main_panel.x + 1 || col
            == f.main_panel.x - 1),
{
}

/// The list of a window shows the rows within its border; on the full screen it has the main
/// panel.
pub proof fn a_list_shows_the_rows_within_its_border(
    f: FrameLayout,
    mode: ScreenMode,
    diff_focused: bool,
    active: SideWindow,
)
    requires
        f.side_panels@.len() == 5,
    ensures
        mode is Full && !diff_focused ==> visible_list_rows(f, mode, diff_focused, active) == if
            f.main_panel.height >= 2 {
            f.main_panel.height - 2
        } else {
            0
        },
        !(mode is Full) ==> visible_list_rows(f, mode, diff_focused, active) == if
            f.side_panels@[window_index(active)].height >= 2 {
            f.side_panels@[window_index(active)].height - 2
        } else {
            0
        },
{
}

/// With the side panel above, the divider is the upper border of the main panel; where one of
/// the two is not on show, it is the edge of the content at which that would be.
pub proof fn the_divider_of_a_high_screen(f: FrameLayout, content: Rect, active: SideWindow, row: int)
    requires
        content.height > 0,
    ensures
        f.side_panels@.len() == 0 ==> (portrait_divider(f, content, active, row) <==> row
            == content.y),
        f.side_panels@.len() > 0 && f.main_panel.height == 0 ==> (portrait_divider(
            f,
            content,
            active,
            row,
        ) <==> row == content.y + content.height - 1),
        f.side_panels@.len() > 0 && f.main_panel.height > 0 && row == f.main_panel.y
            ==> portrait_divider(f, content, active, row),
{
}

/// With the side panel at the left, the divider is three columns wide; where one of the two
/// is not on show, it is the edge of the content at which that would be.
pub proof fn the_divider_of_a_wide_screen(f: FrameLayout, content: Rect, col: int)
    requires
        content.width > 0,
    ensures
        f.side_panels@.len() == 0 ==> (landscape_divider(f, content, col) <==> col == content.x),
        f.side_panels@.len() > 0 && f.main_panel.width == 0 ==> (landscape_divider(f, content, col)
            <==> col == content.x + content.width - 1),
        f.side_panels@.len() > 0 && f.main_panel.width > 0 ==> (landscape_divider(f, content, col)
            <==> col == f.main_panel.x - 1 || col == f.main_panel.x || col == f.main_panel.x + 1),
{
}

} // verus!
