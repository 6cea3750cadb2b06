//! The screen's layout: the desktop view above, and below it a toolbar of two
//! page buttons around a carousel of button rows.

use vstd::prelude::*;
use crate::screen::Rect;
use ratatui::layout::{Constraint as C, Direction as D, Layout as L, Rect as R};

verus! {

/// The direction in which an area is split.
#[derive(Clone, Copy, Debug, PartialEq, Eq, Structural)]
pub enum Axis {
    Vertical,
    Horizontal,
}

/// A size constraint on one part of a split area.
#[derive(Clone, Copy, Debug, PartialEq, Eq, Structural)]
pub enum Constraint {
    Min(u16),
    Length(u16),
    Ratio(u32, u32),
}

/// Whether every part keeps the extent of `area` across the direction of the split.
pub open spec fn spans_across(axis: Axis, area: Rect, parts: Seq<Rect>) -> bool {
    forall|i: int|
        0 <= i < parts.len() ==> match axis {
            Axis::Vertical => (#[trigger] parts[i]).x == area.x && parts[i].width == area.width,
            Axis::Horizontal => (#[trigger] parts[i]).y == area.y && parts[i].height == area.height,
        }
}

/// Whether every part lies within `area` along the direction of the split.
pub open spec fn within_along(axis: Axis, area: Rect, parts: Seq<Rect>) -> bool {
    forall|i: int|
        0 <= i < parts.len() ==> match axis {
            Axis::Vertical => area.y <= (#[trigger] parts[i]).y && parts[i].y + parts[i].height <= area.y
                + area.height,
            Axis::Horizontal => area.x <= (#[trigger] parts[i]).x && parts[i].x + parts[i].width <= area.x
                + area.width,
        }
}

/// That `parts` is one outcome of ratatui's layout solver for splitting `area` in
/// direction `axis` under `constraints`. The solver's result is not a function of
/// its arguments alone (its pivot choices walk hash maps), so this names the
/// relation between arguments and outcome, not a function.
pub uninterp spec fn split_outcome(axis: Axis, constraints: Seq<Constraint>, area: Rect, parts: Seq<Rect>) -> bool;

/// Calls `ratatui::layout::Layout::split` with the given direction and constraints
/// and no margin or spacing. The parts are an outcome of the solver for exactly
/// these arguments (`split_outcome`); of every outcome the source shows that there
/// is one part per constraint, each spanning the area across the direction of the
/// split and lying within it along that direction (the solver's required
/// constraints keep every boundary between the area's start and end, and the
/// rounding to cells keeps them there). Those required constraints can always be
/// met, so the call does not fail. Where along the split each part falls is left
/// unsaid.
#[verifier::external_body]
fn split_area(axis: Axis, constraints: &Vec<Constraint>, area: Rect) -> (r: Vec<Rect>)
    ensures
        split_outcome(axis, constraints@, area, r@),
        r@.len() == constraints@.len(),
        spans_across(axis, area, r@),
        within_along(axis, area, r@),
{
    let cs: Vec<C> = constraints.iter().map(|c| match *c {
        Constraint::Min(v) => C::Min(v),
        Constraint::Length(v) => C::Length(v),
        Constraint::Ratio(a, b) => C::Ratio(a, b),
    }).collect();
    let d = match axis { Axis::Vertical => D::Vertical, Axis::Horizontal => D::Horizontal };
    let a = R { x: area.x, y: area.y, width: area.width, height: area.height };
    let parts = L::default().direction(d).constraints(cs).split(a);
    parts.iter().map(|p| Rect { x: p.x, y: p.y, width: p.width, height: p.height }).collect()
}

/// The areas of the screen.
pub struct ScreenLayout {
    /// Where the desktop is drawn.
    pub desktop_view: Rect,
    /// The toolbar below it.
    pub toolbar: Rect,
    /// The button that shows the previous page.
    pub prev_button: Rect,
    /// Where the pages of buttons slide.
    pub carousel: Rect,
    /// The button that shows the next page.
    pub next_button: Rect,
    /// The carousel's two rows.
    pub rows: Vec<Rect>,
    /// The four button cells of a page's top row.
    pub top_row: Vec<Rect>,
    /// The four button cells of a page's bottom row.
    pub bottom_row: Vec<Rect>,
}

/// The constraints of the screen's split into desktop view and toolbar.
pub open spec fn screen_split() -> Seq<Constraint> {
    seq![Constraint::Min(5), Constraint::Length(8)]
}

/// The constraints of the toolbar's split into buttons and carousel.
pub open spec fn toolbar_split() -> Seq<Constraint> {
    seq![Constraint::Length(4), Constraint::Min(10), Constraint::Length(4)]
}

/// The constraints of the carousel's split into two rows.
pub open spec fn rows_split() -> Seq<Constraint> {
    seq![Constraint::Ratio(1, 2), Constraint::Ratio(1, 2)]
}

/// The constraints of a row's split into four cells.
pub open spec fn cells_split() -> Seq<Constraint> {
    seq![Constraint::Ratio(1, 4), Constraint::Ratio(1, 4), Constraint::Ratio(1, 4), Constraint::Ratio(1, 4)]
}

/// The layout of the screen `area`: split vertically into the desktop view (at
/// least 5 rows) and a toolbar of 8 rows; the toolbar split horizontally into a
/// 4-column button on each side of the carousel (at least 10 columns); the carousel
/// split vertically into two halves, and each half horizontally into four quarters.
pub fn screen_layout(area: Rect) -> (l: ScreenLayout)
    ensures
        split_outcome(Axis::Vertical, screen_split(), area, seq![l.desktop_view, l.toolbar]),
        split_outcome(
            Axis::Horizontal,
            toolbar_split(),
            l.toolbar,
            seq![l.prev_button, l.carousel, l.next_button],
        ),
        split_outcome(Axis::Vertical, rows_split(), l.carousel, l.rows@),
        l.rows@.len() == 2,
        split_outcome(Axis::Horizontal, cells_split(), l.rows@[0], l.top_row@),
        split_outcome(Axis::Horizontal, cells_split(), l.rows@[1], l.bottom_row@),
        l.desktop_view.x == area.x && l.desktop_view.width == area.width,
        l.prev_button.y == l.carousel.y && l.carousel.y == l.next_button.y,
        l.prev_button.height == l.carousel.height && l.carousel.height == l.next_button.height,
        l.top_row@.len() == 4 && l.bottom_row@.len() == 4,
        within_along(Axis::Vertical, area, seq![l.desktop_view, l.toolbar]),
        within_along(Axis::Horizontal, l.toolbar, seq![l.prev_button, l.carousel, l.next_button]),
        within_along(Axis::Horizontal, l.rows@[0], l.top_row@),
        within_along(Axis::Horizontal, l.rows@[1], l.bottom_row@),
{
    let screen = vec![Constraint::Min(5), Constraint::Length(8)];
    assert(screen@ == screen_split());
    let main = split_area(Axis::Vertical, &screen, area);
    let tools = vec![Constraint::Length(4), Constraint::Min(10), Constraint::Length(4)];
    assert(tools@ == toolbar_split());
    let toolbar = split_area(Axis::Horizontal, &tools, main[1]);
    let carousel = toolbar[1];
    let halves = vec![Constraint::Ratio(1, 2), Constraint::Ratio(1, 2)];
    assert(halves@ == rows_split());
    let rows = split_area(Axis::Vertical, &halves, carousel);
    let quarters = vec![
        Constraint::Ratio(1, 4),
        Constraint::Ratio(1, 4),
        Constraint::Ratio(1, 4),
        Constraint::Ratio(1, 4),
    ];
    assert(quarters@ == cells_split());
    let top_row = split_area(Axis::Horizontal, &quarters, rows[0]);
    let bottom_row = split_area(Axis::Horizontal, &quarters, rows[1]);
    assert(main@ =~= seq![main@[0], main@[1]]);
    assert(toolbar@ =~= seq![toolbar@[0], toolbar@[1], toolbar@[2]]);
    ScreenLayout {
        desktop_view: main[0],
        toolbar: main[1],
        prev_button: toolbar[0],
        carousel,
        next_button: toolbar[2],
        rows,
        top_row,
        bottom_row,
    }
}

} // verus!
