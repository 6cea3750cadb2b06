//! Terminal-screen geometry: rectangles, hit-testing, clipping of the sliding
//! buttons, placement of window boxes, and the screen's layout.

use vstd::prelude::*;
use crate::desktop::{fits, Monitor};

verus! {

/// A rectangle of terminal cells.
#[derive(Clone, Copy, Debug, PartialEq, Eq, Structural)]
pub struct Rect {
    pub x: u16,
    pub y: u16,
    pub width: u16,
    pub height: u16,
}

/// Whether the cell `(x, y)` lies in `r`.
pub open spec fn rect_contains(r: Rect, x: int, y: int) -> bool {
    x >= r.x && x < r.x + r.width && y >= r.y && y < r.y + r.height
}

/// Whether testing `(x, y)` against `r` stays within `u16`: the right edge is
/// computed when `x` is not left of `r`, the bottom edge when `(x, y)` is within
/// `r`'s columns and not above it.
pub open spec fn hit_fits(r: Rect, x: int, y: int) -> bool {
    &&& x >= r.x ==> r.x + r.width <= u16::MAX
    &&& (x >= r.x && x < r.x + r.width && y >= r.y) ==> r.y + r.height <= u16::MAX
}

/// Whether the cell `(x, y)` lies in `r`.
pub fn contains_cell(r: &Rect, x: u16, y: u16) -> (b: bool)
    requires
        hit_fits(*r, x as int, y as int),
    ensures
        b == rect_contains(*r, x as int, y as int),
{
    x >= r.x && (x as u32) < r.x as u32 + r.width as u32 && y >= r.y && (y as u32) < r.y as u32
        + r.height as u32
}

/// Whether hit-testing the entries of `map` from the last to the first, up to the
/// first hit, stays within `u16`.
pub open spec fn topmost_fits<T>(map: Seq<(Rect, T)>, x: int, y: int) -> bool {
    forall|i: int|
        0 <= i < map.len() && (forall|k: int| i < k < map.len() ==> !rect_contains(#[trigger] map[k].0, x, y))
            ==> hit_fits(#[trigger] map[i].0, x, y)
}

/// The index of the last entry of `map` whose rectangle holds `(x, y)`.
pub open spec fn last_hit<T>(map: Seq<(Rect, T)>, x: int, y: int) -> Option<int> {
    if exists|i: int| 0 <= i < map.len() && rect_contains(#[trigger] map[i].0, x, y) {
        Some(
            choose|i: int|
                0 <= i < map.len() && rect_contains(#[trigger] map[i].0, x, y) && forall|k: int|
                    i < k < map.len() ==> !rect_contains(#[trigger] map[k].0, x, y),
        )
    } else {
        None
    }
}

/// The index of the first entry of `map` whose rectangle holds `(x, y)`.
pub open spec fn first_hit<T>(map: Seq<(Rect, T)>, x: int, y: int) -> Option<int> {
    if exists|i: int| 0 <= i < map.len() && rect_contains(#[trigger] map[i].0, x, y) {
        Some(
            choose|i: int|
                0 <= i < map.len() && rect_contains(#[trigger] map[i].0, x, y) && forall|k: int|
                    0 <= k < i ==> !rect_contains(#[trigger] map[k].0, x, y),
        )
    } else {
        None
    }
}

proof fn lemma_last_hit<T>(map: Seq<(Rect, T)>, x: int, y: int, i: int)
    requires
        0 <= i < map.len(),
        rect_contains(map[i].0, x, y),
        forall|k: int| i < k < map.len() ==> !rect_contains(#[trigger] map[k].0, x, y),
    ensures
        last_hit(map, x, y) == Some(i),
{
    let c = choose|c: int|
        0 <= c < map.len() && rect_contains(#[trigger] map[c].0, x, y) && forall|k: int|
            c < k < map.len() ==> !rect_contains(#[trigger] map[k].0, x, y);
    assert(0 <= c < map.len() && rect_contains(map[c].0, x, y) && forall|k: int|
        c < k < map.len() ==> !rect_contains(#[trigger] map[k].0, x, y));
    if c < i {
        assert(!rect_contains(map[i].0, x, y));
    }
    if i < c {
        assert(!rect_contains(map[c].0, x, y));
    }
}

proof fn lemma_first_hit<T>(map: Seq<(Rect, T)>, x: int, y: int, i: int)
    requires
        0 <= i < map.len(),
        rect_contains(map[i].0, x, y),
        forall|k: int| 0 <= k < i ==> !rect_contains(#[trigger] map[k].0, x, y),
    ensures
        first_hit(map, x, y) == Some(i),
{
    let c = choose|c: int|
        0 <= c < map.len() && rect_contains(#[trigger] map[c].0, x, y) && forall|k: int|
            0 <= k < c ==> !rect_contains(#[trigger] map[k].0, x, y);
    assert(0 <= c < map.len() && rect_contains(map[c].0, x, y) && forall|k: int|
        0 <= k < c ==> !rect_contains(#[trigger] map[k].0, x, y));
    if c < i {
        assert(!rect_contains(map[c].0, x, y));
    }
    if i < c {
        assert(!rect_contains(map[i].0, x, y));
    }
}

/// The last entry of `map` whose rectangle holds `(x, y)`: the topmost of boxes
/// drawn in order.
pub fn topmost_at<T>(map: &Vec<(Rect, T)>, x: u16, y: u16) -> (r: Option<usize>)
    requires
        topmost_fits(map@, x as int, y as int),
    ensures
        match r {
            Some(i) => last_hit(map@, x as int, y as int) == Some(i as int),
            None => last_hit(map@, x as int, y as int) is None,
        },
        match r {
            Some(i) => i < map@.len() && rect_contains(map@[i as int].0, x as int, y as int) && forall|k: int|
                i < k < map@.len() ==> !rect_contains(#[trigger] map@[k].0, x as int, y as int),
            None => forall|k: int| 0 <= k < map@.len() ==> !rect_contains(#[trigger] map@[k].0, x as int, y as int),
        },
{
    let mut i: usize = map.len();
    while i > 0
        invariant
            i <= map@.len(),
            topmost_fits(map@, x as int, y as int),
            forall|k: int| i <= k < map@.len() ==> !rect_contains(#[trigger] map@[k].0, x as int, y as int),
        decreases i,
    {
        assert(hit_fits(map@[i - 1].0, x as int, y as int));
        if contains_cell(&map[i - 1].0, x, y) {
            proof {
                lemma_last_hit(map@, x as int, y as int, i - 1);
            }
            return Some(i - 1);
        }
        i = i - 1;
    }
    None
}

/// Whether hit-testing the entries of `map` from the first, up to the first hit,
/// stays within `u16`.
pub open spec fn first_fits<T>(map: Seq<(Rect, T)>, x: int, y: int) -> bool {
    forall|i: int|
        0 <= i < map.len() && (forall|k: int| 0 <= k < i ==> !rect_contains(#[trigger] map[k].0, x, y))
            ==> hit_fits(#[trigger] map[i].0, x, y)
}

/// The first entry of `map` whose rectangle holds `(x, y)`.
pub fn first_at<T>(map: &Vec<(Rect, T)>, x: u16, y: u16) -> (r: Option<usize>)
    requires
        first_fits(map@, x as int, y as int),
    ensures
        match r {
            Some(i) => first_hit(map@, x as int, y as int) == Some(i as int),
            None => first_hit(map@, x as int, y as int) is None,
        },
        match r {
            Some(i) => i < map@.len() && rect_contains(map@[i as int].0, x as int, y as int) && forall|k: int|
                0 <= k < i ==> !rect_contains(#[trigger] map@[k].0, x as int, y as int),
            None => forall|k: int| 0 <= k < map@.len() ==> !rect_contains(#[trigger] map@[k].0, x as int, y as int),
        },
{
    let mut i: usize = 0;
    while i < map.len()
        invariant
            i <= map@.len(),
            first_fits(map@, x as int, y as int),
            forall|k: int| 0 <= k < i ==> !rect_contains(#[trigger] map@[k].0, x as int, y as int),
        decreases map@.len() - i,
    {
        assert(hit_fits(map@[i as int].0, x as int, y as int));
        if contains_cell(&map[i].0, x, y) {
            proof {
                lemma_first_hit(map@, x as int, y as int, i as int);
            }
            return Some(i);
        }
        i = i + 1;
    }
    None
}

/// The part of the button `base`, slid sideways by `offset_x`, that lies within
/// the columns of `bounds`; `None` if no column of it does.
pub open spec fn clipped_button(base: Rect, offset_x: int, bounds: Rect) -> Option<Rect> {
    let left = base.x + offset_x;
    let x1 = if left >= bounds.x {
        left
    } else {
        bounds.x as int
    };
    let right = left + base.width;
    let x2 = if right <= bounds.x + bounds.width {
        right
    } else {
        bounds.x + bounds.width
    };
    if x1 < x2 {
        Some(Rect { x: x1 as u16, y: base.y, width: (x2 - x1) as u16, height: base.height })
    } else {
        None
    }
}

/// The visible part of a sliding button.
pub fn clip_button(base: Rect, offset_x: i32, bounds: Rect) -> (r: Option<Rect>)
    requires
        fits(base.x + offset_x),
        fits(base.x + offset_x + base.width),
        bounds.x + bounds.width <= u16::MAX,
    ensures
        r == clipped_button(base, offset_x as int, bounds),
        r matches Some(c) ==> c.x >= bounds.x && c.x + c.width <= bounds.x + bounds.width && c.y == base.y
            && c.height == base.height,
{
    let theoretical_x: i32 = base.x as i32 + offset_x;
    let x1: i32 = if theoretical_x >= bounds.x as i32 {
        theoretical_x
    } else {
        bounds.x as i32
    };
    let right: i32 = theoretical_x + base.width as i32;
    let edge: i32 = (bounds.x + bounds.width) as i32;
    let x2: i32 = if right <= edge {
        right
    } else {
        edge
    };
    if x1 < x2 {
        Some(Rect { x: x1 as u16, y: base.y, width: (x2 - x1) as u16, height: base.height })
    } else {
        None
    }
}

/// The rectangle that `ratatui::layout::Rect::new` builds: the width and height are
/// cut so that the right and bottom edges do not pass `u16::MAX`.
pub open spec fn new_rect(x: u16, y: u16, width: u16, height: u16) -> Rect {
    Rect {
        x,
        y,
        width: if width > u16::MAX - x {
            (u16::MAX - x) as u16
        } else {
            width
        },
        height: if height > u16::MAX - y {
            (u16::MAX - y) as u16
        } else {
            height
        },
    }
}

/// Calls `ratatui::layout::Rect::new`, which keeps `x` and `y` and cuts the width
/// and height so that the rectangle ends at `u16::MAX` at the latest.
#[verifier::external_body]
fn ratatui_rect(x: u16, y: u16, width: u16, height: u16) -> (r: Rect)
    ensures
        r == new_rect(x, y, width, height),
{
    let r = ratatui::layout::Rect::new(x, y, width, height);
    Rect { x: r.x, y: r.y, width: r.width, height: r.height }
}

/// The box of a window in the terminal area `area`, given its scaled position and
/// size `(tx, ty, tw, th)` relative to the area: the position is kept on the area,
/// and the size cut at the area's right and bottom edges.
pub open spec fn window_box(tx: u16, ty: u16, tw: u16, th: u16, area: Rect) -> Rect {
    let max_x: int = if area.width >= 1 {
        area.width - 1
    } else {
        0
    };
    let max_y: int = if area.height >= 1 {
        area.height - 1
    } else {
        0
    };
    let rx = if tx <= max_x {
        tx as int
    } else {
        max_x
    };
    let ry = if ty <= max_y {
        ty as int
    } else {
        max_y
    };
    let rw = if tw <= area.width - rx {
        tw as int
    } else {
        area.width - rx
    };
    let rh = if th <= area.height - ry {
        th as int
    } else {
        area.height - ry
    };
    new_rect((area.x + rx) as u16, (area.y + ry) as u16, rw as u16, rh as u16)
}

/// Whether placing a window box on `area` stays within `u16`.
pub open spec fn window_box_fits(tx: u16, ty: u16, area: Rect) -> bool {
    &&& area.x + (if tx < area.width { tx as int } else if area.width >= 1 { area.width - 1 } else { 0 })
        <= u16::MAX
    &&& area.y + (if ty < area.height { ty as int } else if area.height >= 1 { area.height - 1 } else { 0 })
        <= u16::MAX
}

/// The box of a window on the terminal area `area`; it lies within the area's
/// columns and rows.
pub fn place_window_box(tx: u16, ty: u16, tw: u16, th: u16, area: Rect) -> (r: Rect)
    requires
        window_box_fits(tx, ty, area),
    ensures
        r == window_box(tx, ty, tw, th, area),
        r.x >= area.x && r.y >= area.y,
        r.x + r.width <= area.x + area.width || area.width == 0,
        r.y + r.height <= area.y + area.height || area.height == 0,
{
    let max_x = area.width.saturating_sub(1);
    let max_y = area.height.saturating_sub(1);
    let rx = if tx <= max_x {
        tx
    } else {
        max_x
    };
    let ry = if ty <= max_y {
        ty
    } else {
        max_y
    };
    let rw = if tw <= area.width - rx {
        tw
    } else {
        area.width - rx
    };
    let rh = if th <= area.height - ry {
        th
    } else {
        area.height - ry
    };
    ratatui_rect(area.x + rx, area.y + ry, rw, rh)
}

/// The span of the desktop that the deck draws: it covers every monitor and at
/// least the rectangle from the origin to 1920 by 1080.
#[derive(Clone, Copy, Debug, PartialEq, Eq, Structural)]
pub struct DesktopSpan {
    pub min_x: i32,
    pub min_y: i32,
    pub max_x: i32,
    pub max_y: i32,
}

/// Whether the monitors' right and bottom edges are within `i32`.
pub open spec fn edges_fit(ms: Seq<Monitor>) -> bool {
    forall|i: int| 0 <= i < ms.len() ==> fits(#[trigger] ms[i].x + ms[i].width) && fits(ms[i].y + ms[i].height)
}

/// `s` is the smallest span that holds the origin, the point (1920, 1080) and every
/// monitor.
pub open spec fn is_span_of(ms: Seq<Monitor>, s: DesktopSpan) -> bool {
    &&& s.min_x <= 0 && s.min_y <= 0 && s.max_x >= 1920 && s.max_y >= 1080
    &&& forall|i: int|
        0 <= i < ms.len() ==> s.min_x <= #[trigger] ms[i].x && s.min_y <= ms[i].y && ms[i].x + ms[i].width
            <= s.max_x && ms[i].y + ms[i].height <= s.max_y
    &&& s.min_x == 0 || exists|i: int| 0 <= i < ms.len() && #[trigger] ms[i].x == s.min_x
    &&& s.min_y == 0 || exists|i: int| 0 <= i < ms.len() && #[trigger] ms[i].y == s.min_y
    &&& s.max_x == 1920 || exists|i: int| 0 <= i < ms.len() && #[trigger] ms[i].x + ms[i].width == s.max_x
    &&& s.max_y == 1080 || exists|i: int| 0 <= i < ms.len() && #[trigger] ms[i].y + ms[i].height == s.max_y
}

/// The span `s` holds the origin, the point (1920, 1080) and the first `n`
/// monitors, and each of its edges is the base one or an edge of one of them.
pub open spec fn spans_first(ms: Seq<Monitor>, n: int, s: DesktopSpan) -> bool {
    &&& s.min_x <= 0 && s.min_y <= 0 && s.max_x >= 1920 && s.max_y >= 1080
    &&& forall|i: int|
        0 <= i < n ==> s.min_x <= #[trigger] ms[i].x && s.min_y <= ms[i].y && ms[i].x + ms[i].width
            <= s.max_x && ms[i].y + ms[i].height <= s.max_y
    &&& s.min_x == 0 || exists|i: int| 0 <= i < n && #[trigger] ms[i].x == s.min_x
    &&& s.min_y == 0 || exists|i: int| 0 <= i < n && #[trigger] ms[i].y == s.min_y
    &&& s.max_x == 1920 || exists|i: int| 0 <= i < n && #[trigger] ms[i].x + ms[i].width == s.max_x
    &&& s.max_y == 1080 || exists|i: int| 0 <= i < n && #[trigger] ms[i].y + ms[i].height == s.max_y
}

/// The span of the desktop.
pub fn desktop_span(ms: &Vec<Monitor>) -> (s: DesktopSpan)
    requires
        edges_fit(ms@),
    ensures
        is_span_of(ms@, s),
{
    let mut s = DesktopSpan { min_x: 0, min_y: 0, max_x: 1920, max_y: 1080 };
    let mut i: usize = 0;
    while i < ms.len()
        invariant
            i <= ms@.len(),
            edges_fit(ms@),
            spans_first(ms@, i as int, s),
        decreases ms@.len() - i,
    {
        let m = ms[i];
        let ghost before = s;
        assert(fits(ms@[i as int].x + ms@[i as int].width));
        if m.x < s.min_x {
            s.min_x = m.x;
        }
        if m.y < s.min_y {
            s.min_y = m.y;
        }
        if m.x + m.width > s.max_x {
            s.max_x = m.x + m.width;
        }
        if m.y + m.height > s.max_y {
            s.max_y = m.y + m.height;
        }
        proof {
            let n = i + 1;
            assert(ms@[i as int] == m);
            if s.min_x != 0 {
                if s.min_x == m.x {
                    assert(ms@[i as int].x == s.min_x);
                } else {
                    let k = choose|k: int| 0 <= k < i && #[trigger] ms@[k].x == before.min_x;
                    assert(ms@[k].x == s.min_x);
                }
            }
            if s.min_y != 0 {
                if s.min_y == m.y {
                    assert(ms@[i as int].y == s.min_y);
                } else {
                    let k = choose|k: int| 0 <= k < i && #[trigger] ms@[k].y == before.min_y;
                    assert(ms@[k].y == s.min_y);
                }
            }
            if s.max_x != 1920 {
                if s.max_x == m.x + m.width {
                    assert(ms@[i as int].x + ms@[i as int].width == s.max_x);
                } else {
                    let k = choose|k: int| 0 <= k < i && #[trigger] ms@[k].x + ms@[k].width == before.max_x;
                    assert(ms@[k].x + ms@[k].width == s.max_x);
                }
            }
            if s.max_y != 1080 {
                if s.max_y == m.y + m.height {
                    assert(ms@[i as int].y + ms@[i as int].height == s.max_y);
                } else {
                    let k = choose|k: int| 0 <= k < i && #[trigger] ms@[k].y + ms@[k].height == before.max_y;
                    assert(ms@[k].y + ms@[k].height == s.max_y);
                }
            }
            assert(spans_first(ms@, n as int, s));
        }
        i = i + 1;
    }
    s
}

/// The width and height of the span, at least 1 each.
pub fn span_extent(s: &DesktopSpan) -> (r: (i32, i32))
    requires
        fits(s.max_x - s.min_x),
        fits(s.max_y - s.min_y),
    ensures
        r.0 == (if s.max_x - s.min_x >= 1 { s.max_x - s.min_x } else { 1 }),
        r.1 == (if s.max_y - s.min_y >= 1 { s.max_y - s.min_y } else { 1 }),
{
    let w = s.max_x - s.min_x;
    let h = s.max_y - s.min_y;
    (if w >= 1 { w } else { 1 }, if h >= 1 { h } else { 1 })
}


/// Whether testing `(x, y)` against `r` stays within `u16`, and whether `r` holds
/// it, computed without overflow.
fn hit_fits_and_contains(r: &Rect, x: u16, y: u16) -> (res: (bool, bool))
    ensures
        res.0 == hit_fits(*r, x as int, y as int),
        res.1 == rect_contains(*r, x as int, y as int),
{
    let right = r.x as u32 + r.width as u32;
    let bottom = r.y as u32 + r.height as u32;
    let in_cols = x >= r.x && (x as u32) < right;
    let fit = (x < r.x || right <= 65535) && (!(in_cols && y >= r.y) || bottom <= 65535);
    (fit, in_cols && y >= r.y && (y as u32) < bottom)
}

/// Whether `topmost_fits` holds, computed.
pub fn topmost_fits_exec<T>(map: &Vec<(Rect, T)>, x: u16, y: u16) -> (r: bool)
    ensures
        r == topmost_fits(map@, x as int, y as int),
{
    let mut i: usize = map.len();
    while i > 0
        invariant
            i <= map@.len(),
            forall|k: int| i <= k < map@.len() ==> !rect_contains(#[trigger] map@[k].0, x as int, y as int),
            forall|k: int| i <= k < map@.len() ==> hit_fits(#[trigger] map@[k].0, x as int, y as int),
        decreases i,
    {
        let (fit, hit) = hit_fits_and_contains(&map[i - 1].0, x, y);
        if !fit {
            return false;
        }
        if hit {
            assert forall|j: int|
                0 <= j < map@.len() && (forall|k: int| j < k < map@.len() ==> !rect_contains(#[trigger] map@[k].0, x as int, y as int))
                    implies hit_fits(#[trigger] map@[j].0, x as int, y as int) by {
                if j < i - 1 {
                    assert(rect_contains(map@[i - 1].0, x as int, y as int));
                }
            }
            return true;
        }
        i = i - 1;
    }
    true
}

/// Whether `first_fits` holds, computed.
pub fn first_fits_exec<T>(map: &Vec<(Rect, T)>, x: u16, y: u16) -> (r: bool)
    ensures
        r == first_fits(map@, x as int, y as int),
{
    let mut i: usize = 0;
    while i < map.len()
        invariant
            i <= map@.len(),
            forall|k: int| 0 <= k < i ==> !rect_contains(#[trigger] map@[k].0, x as int, y as int),
            forall|k: int| 0 <= k < i ==> hit_fits(#[trigger] map@[k].0, x as int, y as int),
        decreases map@.len() - i,
    {
        let (fit, hit) = hit_fits_and_contains(&map[i].0, x, y);
        if !fit {
            return false;
        }
        if hit {
            assert forall|j: int|
                0 <= j < map@.len() && (forall|k: int| 0 <= k < j ==> !rect_contains(#[trigger] map@[k].0, x as int, y as int))
                    implies hit_fits(#[trigger] map@[j].0, x as int, y as int) by {
                if j > i {
                    assert(rect_contains(map@[i as int].0, x as int, y as int));
                }
            }
            return true;
        }
        i = i + 1;
    }
    true
}

} // verus!
