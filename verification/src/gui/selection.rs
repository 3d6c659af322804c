//! The text that the mouse marks in a diff.

use crate::gui::picker;
use vstd::prelude::*;

verus! {

/// A side of a diff.
#[derive(Debug, Clone, Copy, PartialEq, Eq, Structural)]
pub enum DiffPanel {
    Old,
    New,
}

/// A piece of a diff from one cell of the screen to another.
#[derive(Debug)]
pub struct TextSelection {
    pub panel: DiffPanel,
    pub start_col: u16,
    pub start_row: u16,
    pub end_col: u16,
    pub end_row: u16,
    pub dragging: bool,
    /// Whether it is a mere click, at which the file can be edited.
    pub is_click: bool,
    pub text: String,
    pub edit_line_number: Option<usize>,
    pub edit_column_number: Option<usize>,
}

/// The cells that a side of a diff takes: columns and rows from the first one to the
/// one behind the last.
#[derive(Debug, Clone, Copy, PartialEq, Eq, Structural)]
pub struct PanelCells {
    pub content_start: u16,
    pub content_end: u16,
    pub inner_y: u16,
    pub inner_end_y: u16,
}

/// A number brought between two bounds; where they cross, the upper one holds.
pub open spec fn between(n: int, low: int, high: int) -> int {
    picker::at_most(picker::at_least(n, low), high)
}

fn bring_between(n: u16, low: u16, high: u16) -> (r: u16)
    ensures
        r == between(n as int, low as int, high as int),
{
    let m: u16 = if n >= low {
        n
    } else {
        low
    };
    if m <= high {
        m
    } else {
        high
    }
}

impl TextSelection {
    /// Whether the selection is one that was just begun at a cell.
    pub open spec fn begun(self, panel: DiffPanel, col: u16, row: u16) -> bool {
        &&& self.panel == panel
        &&& self.start_col == col
        &&& self.start_row == row
        &&& self.end_col == col
        &&& self.end_row == row
        &&& self.dragging
        &&& !self.is_click
        &&& self.text@.len() == 0
        &&& self.edit_line_number is None
        &&& self.edit_column_number is None
    }

    /// Begins a selection at a cell.
    pub fn begin(panel: DiffPanel, col: u16, row: u16) -> (r: TextSelection)
        ensures
            r.begun(panel, col, row),
    {
        TextSelection {
            panel,
            start_col: col,
            start_row: row,
            end_col: col,
            end_row: row,
            dragging: true,
            is_click: false,
            text: String::new(),
            edit_line_number: None,
            edit_column_number: None,
        }
    }

    /// The selection with its end dragged to a cell: it stays on its side of the diff,
    /// of which the five columns before the content are a part.
    pub open spec fn dragged(self, cells: PanelCells, col: u16, row: u16) -> TextSelection {
        if self.dragging {
            TextSelection {
                end_col: between(
                    col as int,
                    picker::minus(cells.content_start as int, 5),
                    picker::minus(cells.content_end as int, 1),
                ) as u16,
                end_row: between(
                    row as int,
                    cells.inner_y as int,
                    picker::minus(cells.inner_end_y as int, 1),
                ) as u16,
                ..self
            }
        } else {
            self
        }
    }

    /// Drags the end of the selection to a cell.
    pub fn drag(&mut self, cells: PanelCells, col: u16, row: u16)
        ensures
            *final(self) == old(self).dragged(cells, col, row),
    {
        if self.dragging {
            self.end_col = bring_between(
                col,
                cells.content_start.saturating_sub(5),
                cells.content_end.saturating_sub(1),
            );
            self.end_row = bring_between(row, cells.inner_y, cells.inner_end_y.saturating_sub(1));
        }
    }

    /// Whether the selection covers one cell only.
    pub open spec fn single(self) -> bool {
        self.start_col == self.end_col && self.start_row == self.end_row
    }
}

/// What is left of a selection when the mouse button is let go: one of a single cell
/// is a click, which is kept only where there is a file to edit.
pub open spec fn released(s: Option<TextSelection>, file_exists: bool) -> Option<TextSelection> {
    match s {
        Some(t) => if !t.single() {
            Some(TextSelection { dragging: false, ..t })
        } else if file_exists {
            Some(TextSelection { dragging: false, is_click: true, ..t })
        } else {
            None
        },
        None => None,
    }
}

/// Ends the selection when the mouse button is let go.
pub fn release(s: Option<TextSelection>, file_exists: bool) -> (r: Option<TextSelection>)
    ensures
        r == released(s, file_exists),
{
    match s {
        Some(t) => {
            let mut t = t;
            t.dragging = false;
            if t.start_col == t.end_col && t.start_row == t.end_row {
                if file_exists {
                    t.is_click = true;
                    Some(t)
                } else {
                    None
                }
            } else {
                Some(t)
            }
        },
        None => None,
    }
}

// ---------------------------------------------------------------------------
// Laws
// ---------------------------------------------------------------------------

/// A selection that was let go no longer follows the mouse.
pub proof fn what_is_let_go_stays(
    s: Option<TextSelection>,
    file_exists: bool,
    cells: PanelCells,
    col: u16,
    row: u16,
)
    ensures
        released(s, file_exists) matches Some(t) ==> t.dragged(cells, col, row) == t,
{
}

/// However far the mouse is dragged, the selection ends within its side of the diff.
pub proof fn a_selection_stays_on_its_side(s: TextSelection, cells: PanelCells, col: u16, row: u16)
    requires
        s.dragging,
        cells.content_start < cells.content_end,
        cells.inner_y < cells.inner_end_y,
    ensures
        ({
            let t = s.dragged(cells, col, row);
            &&& cells.content_start - 5 <= t.end_col < cells.content_end
            &&& cells.inner_y <= t.end_row < cells.inner_end_y
            &&& t.start_col == s.start_col && t.start_row == s.start_row && t.panel == s.panel
        }),
{
}

/// The selection ends at the cell that the mouse is dragged to, and at the nearest one of its
/// side where the mouse has left it.
pub proof fn a_selection_follows_the_mouse(s: TextSelection, cells: PanelCells, col: u16, row: u16)
    requires
        s.dragging,
        5 <= cells.content_start < cells.content_end,
        cells.inner_y < cells.inner_end_y,
    ensures
        ({
            let t = s.dragged(cells, col, row);
            &&& cells.content_start - 5 <= col < cells.content_end ==> t.end_col == col
            &&& col < cells.content_start - 5 ==> t.end_col == cells.content_start - 5
            &&& col >= cells.content_end ==> t.end_col == cells.content_end - 1
            &&& cells.inner_y <= row < cells.inner_end_y ==> t.end_row == row
            &&& row < cells.inner_y ==> t.end_row == cells.inner_y
            &&& row >= cells.inner_end_y ==> t.end_row == cells.inner_end_y - 1
            &&& t.dragging && t.is_click == s.is_click && t.text == s.text
        }),
{
}

/// When the button is let go, a selection of one cell becomes a click where there is a file
/// and is dropped where there is none; a longer one is kept as it is.
pub proof fn what_is_left_of_a_selection(s: TextSelection, file_exists: bool)
    ensures
        s.single() && !file_exists ==> released(Some(s), file_exists) is None,
        s.single() && file_exists ==> (released(Some(s), file_exists) matches Some(t)
            && t.is_click && !t.dragging && t.start_col == s.start_col && t.start_row
            == s.start_row && t.end_col == s.end_col && t.end_row == s.end_row && t.panel
            == s.panel),
        s.start_col != s.end_col || s.start_row != s.end_row ==> (released(
            Some(s),
            file_exists,
        ) matches Some(t) && t.is_click == s.is_click && !t.dragging && t.text == s.text
            && t.start_col == s.start_col && t.start_row == s.start_row && t.end_col == s.end_col
            && t.end_row == s.end_row && t.panel == s.panel),
        released(None, file_exists) is None,
{
}

} // verus!
