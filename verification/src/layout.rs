//! Placing the log window: a rectangle centred in the terminal, laid out by
//! ratatui's constraint solver.

use vstd::prelude::*;
use ratatui::layout::{Constraint, Direction, Layout, Rect};

verus! {

/// A rectangle of terminal cells.
#[derive(Debug, Clone, Copy, PartialEq, Eq, Structural)]
pub struct Area {
    pub x: u16,
    pub y: u16,
    pub width: u16,
    pub height: u16,
}

/// The direction in which an area is split.
#[derive(Debug, Clone, Copy, PartialEq, Eq, Structural)]
pub enum Axis {
    Vertical,
    Horizontal,
}

/// An area as the tuple `(x, y, width, height)`.
pub open spec fn cells(a: Area) -> (u16, u16, u16, u16) {
    (a.x, a.y, a.width, a.height)
}

/// Name for what ratatui's `Layout::split` gives when it splits the area
/// `(x, y, width, height)` along the given axis (vertically when `vertical`)
/// into three parts with the given percentage constraints, when these add up
/// to at most 100.
pub uninterp spec fn percent_split(
    vertical: bool,
    first: u16,
    second: u16,
    third: u16,
    x: u16,
    y: u16,
    width: u16,
    height: u16,
) -> ((u16, u16, u16, u16), (u16, u16, u16, u16), (u16, u16, u16, u16));

/// The three parts of an area split by percentages, as ratatui lays them out.
pub open spec fn split_spec(axis: Axis, first: u16, second: u16, third: u16, area: Area) -> (
    (u16, u16, u16, u16),
    (u16, u16, u16, u16),
    (u16, u16, u16, u16),
) {
    percent_split(
        axis == Axis::Vertical,
        first,
        second,
        third,
        area.x,
        area.y,
        area.width,
        area.height,
    )
}

/// Calls ratatui's `Layout::split` with three `Constraint::Percentage`
/// constraints along `axis`. Its contract claims that the three parts are
/// `percent_split` of the arguments; nothing more is claimed of them. The
/// percentages must add up to at most 100: then every constraint can be met
/// exactly and the solver's answer does not depend on the order in which it
/// visits its variables. Every part lies inside the area: the solver is
/// given the required constraints that all segment bounds lie between the
/// area's start and end, and the rounded bounds are turned into parts that
/// keep the area's other coordinate and extent.
#[verifier::external_body]
fn split_percent(axis: Axis, first: u16, second: u16, third: u16, area: Area) -> (parts: (Area, Area, Area))
    requires
        first + second + third <= 100,
    ensures
        (cells(parts.0), cells(parts.1), cells(parts.2)) == percent_split(
            axis == Axis::Vertical,
            first,
            second,
            third,
            area.x,
            area.y,
            area.width,
            area.height,
        ),
        inside(parts.0, area),
        inside(parts.1, area),
        inside(parts.2, area),
{
    let dir = match axis { Axis::Vertical => Direction::Vertical, Axis::Horizontal => Direction::Horizontal };
    let p = Constraint::Percentage;
    let r = Layout::new(dir, [p(first), p(second), p(third)]).split(Rect::new(area.x, area.y, area.width, area.height));
    (
        Area { x: r[0].x, y: r[0].y, width: r[0].width, height: r[0].height },
        Area { x: r[1].x, y: r[1].y, width: r[1].width, height: r[1].height },
        Area { x: r[2].x, y: r[2].y, width: r[2].width, height: r[2].height },
    )
}

/// `inner` lies inside `outer`.
pub open spec fn inside(inner: Area, outer: Area) -> bool {
    &&& outer.x <= inner.x
    &&& inner.x + inner.width <= outer.x + outer.width
    &&& outer.y <= inner.y
    &&& inner.y + inner.height <= outer.y + outer.height
}

/// The middle part of an area split into margin, `pct` percent, margin.
pub open spec fn middle_spec(axis: Axis, pct: u16, area: Area) -> (u16, u16, u16, u16) {
    split_spec(axis, ((100 - pct) / 2) as u16, pct, ((100 - pct) / 2) as u16, area).1
}

/// The area as a value.
pub open spec fn area_of(t: (u16, u16, u16, u16)) -> Area {
    Area { x: t.0, y: t.1, width: t.2, height: t.3 }
}

/// A rectangle `pct_x` percent wide and `pct_y` percent high, centred in `r`:
/// the middle row of a vertical split, then the middle of that row.
pub fn centered_rect(pct_x: u16, pct_y: u16, r: Area) -> (c: Area)
    requires
        pct_x <= 100,
        pct_y <= 100,
    ensures
        cells(c) == middle_spec(Axis::Horizontal, pct_x, area_of(middle_spec(Axis::Vertical, pct_y, r))),
        inside(c, r),
{
    let margin_y = (100 - pct_y) / 2;
    assert(margin_y + pct_y + margin_y <= 100);
    let rows = split_percent(Axis::Vertical, margin_y, pct_y, margin_y, r);
    let margin_x = (100 - pct_x) / 2;
    assert(margin_x + pct_x + margin_x <= 100);
    let cols = split_percent(Axis::Horizontal, margin_x, pct_x, margin_x, rows.1);
    assert(area_of(cells(rows.1)) == rows.1);
    cols.1
}

} // verus!
