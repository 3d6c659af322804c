//! Parts of the screen: how an area is split, and what is within its edge.

use crate::gui::input::Rect;
use crate::gui::picker;
use ratatui::layout::{Constraint, Direction, Layout};
use ratatui::widgets::{Block, Borders};
use vstd::prelude::*;

verus! {

/// How much of an area a part of it takes.
#[derive(Debug, Clone, Copy, PartialEq, Eq, Structural)]
pub enum Extent {
    Min(u16),
    Length(u16),
    Percentage(u16),
}

/// Which way an area is split.
#[derive(Debug, Clone, Copy, PartialEq, Eq, Structural)]
pub enum Axis {
    /// One part below another.
    Vertical,
    /// One part beside another.
    Horizontal,
}

/// Where an area begins along an axis, and how far it reaches.
pub open spec fn along(axis: Axis, a: Rect) -> (int, int) {
    match axis {
        Axis::Vertical => (a.y as int, a.height as int),
        Axis::Horizontal => (a.x as int, a.width as int),
    }
}

/// Where an area begins across an axis, and how far it reaches.
pub open spec fn across(axis: Axis, a: Rect) -> (int, int) {
    match axis {
        Axis::Vertical => along(Axis::Horizontal, a),
        Axis::Horizontal => along(Axis::Vertical, a),
    }
}

/// The sum of the lengths among the first `n` extents.
pub open spec fn lengths(e: Seq<Extent>, n: int) -> int
    decreases n,
{
    if n <= 0 {
        0
    } else {
        lengths(e, n - 1) + match e[n - 1] {
            Extent::Length(k) => k as int,
            _ => 0,
        }
    }
}

/// The sum of the percentages among the first `n` extents.
pub open spec fn percentages(e: Seq<Extent>, n: int) -> int
    decreases n,
{
    if n <= 0 {
        0
    } else {
        percentages(e, n - 1) + match e[n - 1] {
            Extent::Percentage(k) => k as int,
            _ => 0,
        }
    }
}

/// Whether extents are lengths but for one, which takes the rest, and there is room for
/// all of them.
pub open spec fn one_takes_the_rest(e: Seq<Extent>, size: int, at: int) -> bool {
    &&& 0 <= at < e.len()
    &&& forall|i: int| 0 <= i < e.len() ==> if i == at {
        #[trigger] e[i] is Min && e[i]->Min_0 <= 0x7fff && lengths(e, e.len() as int)
            + e[i]->Min_0 <= size
    } else {
        e[i] is Length
    }
}

/// Whether extents are percentages that make up the whole.
pub open spec fn shares_of_the_whole(e: Seq<Extent>) -> bool {
    &&& forall|i: int| 0 <= i < e.len() ==> #[trigger] e[i] is Percentage
    &&& percentages(e, e.len() as int) == 100
}

/// Where part `i` begins, counted from the start of the area, if the extent at `at` takes
/// the rest.
pub open spec fn edge_with_rest(e: Seq<Extent>, size: int, at: int, i: int) -> int {
    lengths(e, i) + if i > at {
        size - lengths(e, e.len() as int)
    } else {
        0
    }
}

/// Where part `i` begins, counted from the start of the area, if the extents are shares
/// of the whole: at the nearest cell.
pub open spec fn edge_of_shares(e: Seq<Extent>, size: int, i: int) -> int {
    (percentages(e, i) * size + 50) / 100
}

/// Whether extents are a minimum with a length before or behind it, or behind two equal
/// lengths, and there is not room for all of them.
pub open spec fn compete(e: Seq<Extent>, size: int, at: int) -> bool {
    &&& e.len() == 2 || (e.len() == 3 && at == 2 && e[0] == e[1])
    &&& 0 <= at < e.len()
    &&& forall|i: int| 0 <= i < e.len() ==> if i == at {
        #[trigger] e[i] is Min && e[i]->Min_0 <= 0x7fff && lengths(e, e.len() as int)
            + e[i]->Min_0 > size
    } else {
        e[i] is Length
    }
}

/// Where part `i` begins, counted from the start of the area, if there is not room for all
/// extents: the minimum comes first, a length gets what is left, and of two equal ones each
/// a half, to the nearest cell.
pub open spec fn edge_in_need(e: Seq<Extent>, size: int, at: int, i: int) -> int {
    let first = picker::at_most(e[at]->Min_0 as int, size);
    if i <= 0 {
        0
    } else if i >= e.len() {
        size
    } else if i > at {
        first
    } else if i == at {
        size - first
    } else {
        (size - first + 1) / 2
    }
}

/// Splits an area into parts. The call is `ratatui::layout::Layout::split`, of a layout
/// with a direction and constraints. It gives one part for each constraint; across the
/// direction every part reaches as far as the area does, and along it no part leaves the
/// area. Where the constraints can all be met, they are: a length is kept and a single
/// minimum gets the rest, and percentages of the whole are rounded to cells. Where a
/// minimum and a length or two equal ones compete, the minimum is kept first, as it weighs
/// more, and two equal lengths are kept as like each other as can be, which is what the
/// weakest constraint on neighbours asks for. How far the parts reach where other
/// constraints compete is left unsaid.
#[verifier::external_body]
pub(crate) fn split_area(area: Rect, axis: Axis, extents: &Vec<Extent>) -> (r: Vec<Rect>)
    requires
        along(axis, area).0 + along(axis, area).1 <= u16::MAX,
    ensures
        r@.len() == extents@.len(),
        forall|i: int|
            0 <= i < r@.len() ==> across(axis, #[trigger] r@[i]) == across(axis, area) && along(
                axis,
                area,
            ).0 <= along(axis, r@[i]).0 && along(axis, r@[i]).0 + along(axis, r@[i]).1 <= along(
                axis,
                area,
            ).0 + along(axis, area).1,
        forall|at: int, i: int|
            #![trigger one_takes_the_rest(extents@, along(axis, area).1, at), r@[i]]
            one_takes_the_rest(extents@, along(axis, area).1, at) && 0 <= i < r@.len() ==> along(
                axis,
                r@[i],
            ) == (
                along(axis, area).0 + edge_with_rest(extents@, along(axis, area).1, at, i),
                edge_with_rest(extents@, along(axis, area).1, at, i + 1) - edge_with_rest(
                    extents@,
                    along(axis, area).1,
                    at,
                    i,
                ),
            ),
        forall|at: int, i: int|
            #![trigger compete(extents@, along(axis, area).1, at), r@[i]]
            compete(extents@, along(axis, area).1, at) && 0 <= i < r@.len() ==> along(axis, r@[i])
                == (
                along(axis, area).0 + edge_in_need(extents@, along(axis, area).1, at, i),
                edge_in_need(extents@, along(axis, area).1, at, i + 1) - edge_in_need(
                    extents@,
                    along(axis, area).1,
                    at,
                    i,
                ),
            ),
        forall|i: int|
            shares_of_the_whole(extents@) && 0 <= i < r@.len() ==> along(axis, #[trigger] r@[i])
                == (
                along(axis, area).0 + edge_of_shares(extents@, along(axis, area).1, i),
                edge_of_shares(extents@, along(axis, area).1, i + 1) - edge_of_shares(
                    extents@,
                    along(axis, area).1,
                    i,
                ),
            ),
{
    let direction = match axis {
        Axis::Vertical => Direction::Vertical,
        Axis::Horizontal => Direction::Horizontal,
    };
    let constraints = extents.iter().map(|e| match *e {
        Extent::Min(n) => Constraint::Min(n),
        Extent::Length(n) => Constraint::Length(n),
        Extent::Percentage(n) => Constraint::Percentage(n),
    });
    let Rect { x, y, width, height } = area;
    let whole = ratatui::layout::Rect { x, y, width, height };
    let parts = Layout::default().direction(direction).constraints(constraints).split(whole);
    parts.iter().map(|p| Rect { x: p.x, y: p.y, width: p.width, height: p.height }).collect()
}

/// An area without a border of one cell all round; the border of an area that is too
/// small for it covers the area.
pub open spec fn within_border(a: Rect) -> Rect {
    Rect {
        x: picker::at_most(picker::at_most(a.x + 1, a.x + a.width), u16::MAX as int) as u16,
        y: picker::at_most(picker::at_most(a.y + 1, a.y + a.height), u16::MAX as int) as u16,
        width: picker::minus(a.width as int, 2) as u16,
        height: picker::minus(a.height as int, 2) as u16,
    }
}

/// An area without a row for its title and a border of one cell at its right.
pub open spec fn below_title(a: Rect) -> Rect {
    Rect {
        x: a.x,
        y: picker::at_most(picker::at_most(a.y + 1, a.y + a.height), u16::MAX as int) as u16,
        width: picker::minus(a.width as int, 1) as u16,
        height: picker::minus(a.height as int, 1) as u16,
    }
}

/// What surrounds an area.
#[derive(Debug, Clone, Copy, PartialEq, Eq, Structural)]
pub enum Edge {
    /// A border all round.
    Around,
    /// A title above, and a border at the right.
    TitleAndRight,
}

/// The area within its edge. The call is `ratatui::widgets::Block::inner`, of a block
/// without padding, with all its borders or with a title and its right border: each
/// border takes a row or a column, and so does a title that no border is there for.
#[verifier::external_body]
pub(crate) fn inner_area(area: Rect, edge: Edge) -> (r: Rect)
    ensures
        r == match edge {
            Edge::Around => within_border(area),
            Edge::TitleAndRight => below_title(area),
        },
{
    let Rect { x, y, width, height } = area;
    let block = match edge {
        Edge::Around => Block::default().borders(Borders::ALL),
        Edge::TitleAndRight => Block::default().title(" ").borders(Borders::RIGHT),
    };
    let inner = block.inner(ratatui::layout::Rect { x, y, width, height });
    Rect { x: inner.x, y: inner.y, width: inner.width, height: inner.height }
}

/// The screen but for its last row, if it has more than one.
pub open spec fn above_last_row(width: u16, height: u16) -> Rect {
    Rect {
        x: 0,
        y: 0,
        width,
        height: if height >= 2 {
            (height - 1) as u16
        } else {
            height
        },
    }
}

/// Gives the screen above a row for the status.
pub fn area_above_status(width: u16, height: u16) -> (r: Rect)
    ensures
        r == above_last_row(width, height),
{
    let mut extents: Vec<Extent> = Vec::new();
    extents.push(Extent::Min(1));
    extents.push(Extent::Length(1));
    let parts = split_area(Rect { x: 0, y: 0, width, height }, Axis::Vertical, &extents);
    proof {
        reveal_with_fuel(lengths, 3);
        let e = extents@;
        assert(lengths(e, 2) == 1 && lengths(e, 1) == 0 && lengths(e, 0) == 0);
        if height >= 2 {
            assert(one_takes_the_rest(e, height as int, 0));
        } else {
            assert(compete(e, height as int, 0));
        }
        assert(along(Axis::Vertical, parts@[0]) == (0int, above_last_row(
            width,
            height,
        ).height as int));
    }
    parts[0]
}

// ---------------------------------------------------------------------------
// Laws
// ---------------------------------------------------------------------------

/// The cells within a border are those whose neighbours on all sides are in the area.
pub proof fn a_border_takes_the_outer_cells(a: Rect, col: int, row: int)
    requires
        a.x + a.width <= u16::MAX,
        a.y + a.height <= u16::MAX,
    ensures
        within_border(a).contains(col, row) <==> a.contains(col - 1, row) && a.contains(
            col + 1,
            row,
        ) && a.contains(col, row - 1) && a.contains(col, row + 1),
{
}

/// The cells below a title and left of a border are those with a cell above and one at the
/// right in the area.
pub proof fn a_title_takes_the_first_row(a: Rect, col: int, row: int)
    requires
        a.x + a.width <= u16::MAX,
        a.y + a.height <= u16::MAX,
    ensures
        below_title(a).contains(col, row) <==> a.contains(col, row - 1) && a.contains(col, row)
            && a.contains(col + 1, row),
{
}

/// The last row is left for the status, unless it is the only one.
pub proof fn the_last_row_is_for_the_status(width: u16, height: u16, col: int, row: int)
    ensures
        height >= 2 ==> (above_last_row(width, height).contains(col, row) <==> 0 <= col < width
            && 0 <= row && row + 1 < height),
        height == 1 ==> (above_last_row(width, height).contains(col, row) <==> 0 <= col < width
            && row == 0),
{
}

} // verus!
