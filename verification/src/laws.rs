//! Properties of the deck that span several functions or hold of every input.

use vstd::prelude::*;
use crate::actions::{decimal, digit_char, i32_text};
use crate::desktop::{
    area, area_keys, assembly_fits, is_desktop_of, lemma_fold_keeps_shape, left_keys, monitor_of, panels_fold,
    panel_step, select, usable_monitors, Desktop, EntryKind, Monitor, Window,
};
use crate::order::is_stable_desc_order;
use crate::text::{all_digits, digits_value, is_digit, parse_i32_spec};
use crate::screen::{first_hit, last_hit, Rect};
use crate::actions::{button_spec, shortcut_name, Action, Shortcut};
use crate::text::{contains_seq, occurs_at};
use crate::ui::{elapsed, pages_valid, press_spec, settled, PressView, UiView, DOUBLE_CLICK_NS};
use crate::tiling::{
    custom_target, half, lemma_first_on, lemma_first_with_id, slot_rect, Placement,
    assigned_to, is_tileable, monitor_moves, plan_moves, tileable_indices,
    auto_assigned, center_x, first_on, grid_fits, grid_of, on_monitor, tile_rect, TileMode, GAP,
};

verus! {

/// Tiles on a monitor keep one gap between neighbours and one gap from the usable
/// area's left and top edges; the right and bottom gaps are one gap wide, or one
/// pixel more where the space left after three gaps is odd. The left and right
/// halves, and the quarters, do not overlap.
pub proof fn law_tile_gaps(m: Monitor)
    requires
        grid_fits(m, false),
    ensures
        grid_of(m).xl == m.ux + GAP,
        grid_of(m).yt == m.uy + GAP,
        grid_of(m).xr == grid_of(m).xl + grid_of(m).hw + GAP,
        grid_of(m).yb == grid_of(m).yt + grid_of(m).hh + GAP,
        m.uw >= 3 * GAP ==> m.ux + m.uw - GAP - 1 <= grid_of(m).xr + grid_of(m).hw <= m.ux + m.uw - GAP,
        m.uh >= 3 * GAP ==> m.uy + m.uh - GAP - 1 <= grid_of(m).yb + grid_of(m).hh <= m.uy + m.uh - GAP,
        m.uw >= 3 * GAP ==> tile_rect(TileMode::LeftHalf, grid_of(m)).x + tile_rect(
            TileMode::LeftHalf,
            grid_of(m),
        ).width < tile_rect(TileMode::RightHalf, grid_of(m)).x,
        m.uh >= 3 * GAP ==> tile_rect(TileMode::TopLeft, grid_of(m)).y + tile_rect(
            TileMode::TopLeft,
            grid_of(m),
        ).height < tile_rect(TileMode::BotLeft, grid_of(m)).y,
{
}

/// In automatic tiling, a window that is assigned a monitor is assigned one that
/// holds its centre, and a window that is assigned none has its centre on no
/// monitor.
pub proof fn law_auto_tile_on_centre(ws: Seq<Window>, ms: Seq<Monitor>, tiles: Seq<usize>, k: int)
    requires
        0 <= k < tiles.len(),
        ms.len() <= usize::MAX,
        forall|j: int| 0 <= j < tiles.len() ==> #[trigger] tiles[j] < ws.len(),
    ensures
        match auto_assigned(ws, ms, tiles)[k] {
            Some(i) => i < ms.len() && on_monitor(ms[i as int], center_x(ws[tiles[k] as int])),
            None => forall|i: int| 0 <= i < ms.len() ==> !on_monitor(#[trigger] ms[i], center_x(ws[tiles[k] as int])),
        },
{
    let cx = center_x(ws[tiles[k] as int]);
    if exists|i: int| 0 <= i < ms.len() && on_monitor(#[trigger] ms[i], cx) {
        let w = choose|i: int| 0 <= i < ms.len() && on_monitor(#[trigger] ms[i], cx);
        lemma_least_on(ms, cx, w);
        let c = choose|i: int|
            0 <= i < ms.len() && on_monitor(#[trigger] ms[i], cx) && forall|j: int|
                0 <= j < i ==> !on_monitor(#[trigger] ms[j], cx);
        assert(first_on(ms, cx) == Some(c));
        assert(auto_assigned(ws, ms, tiles)[k] == Some(c as usize));
    }
}

proof fn lemma_least_on(ms: Seq<Monitor>, cx: int, w: int)
    requires
        0 <= w < ms.len(),
        on_monitor(ms[w], cx),
    ensures
        exists|i: int|
            0 <= i < ms.len() && on_monitor(#[trigger] ms[i], cx) && forall|k: int|
                0 <= k < i ==> !on_monitor(#[trigger] ms[k], cx),
    decreases w,
{
    if exists|k: int| 0 <= k < w && on_monitor(#[trigger] ms[k], cx) {
        let k = choose|k: int| 0 <= k < w && on_monitor(#[trigger] ms[k], cx);
        lemma_least_on(ms, cx, k);
    } else {
        assert(forall|k: int| 0 <= k < w ==> !on_monitor(#[trigger] ms[k], cx));
    }
}


/// Two presses on the same window box, the second within the double-click time of
/// the first, focus the window and then maximize it; after that no press is
/// remembered, so a third press focuses it again. (A first press that itself
/// completes an earlier double click is the exception the requirement leaves out.)
pub proof fn law_double_click_maximizes(
    s: UiView,
    wins: Seq<(Rect, String)>,
    buttons: Seq<(Rect, Action)>,
    monitors: nat,
    x: u16,
    y: u16,
    t1: u64,
    t2: u64,
)
    requires
        !s.animating,
        last_hit(wins, x as int, y as int) is Some,
        !(s.last_clicked == Some(wins[last_hit(wins, x as int, y as int).unwrap()].1@) && elapsed(
            t1,
            s.last_click_at,
        ) < DOUBLE_CLICK_NS),
        t1 <= t2,
        t2 - t1 < DOUBLE_CLICK_NS,
    ensures
        ({
            let id = wins[last_hit(wins, x as int, y as int).unwrap()].1@;
            let (s1, p1) = press_spec(s, wins, buttons, monitors, x, y, t1);
            let (s2, p2) = press_spec(s1, wins, buttons, monitors, x, y, t2);
            &&& p1 == PressView::Activate(id)
            &&& p2 == PressView::Maximize(id)
            &&& s2.last_clicked is None
        }),
{
}

/// A press on a page button (no window box under it) starts a slide to the
/// neighbouring page when there is one, and changes nothing else.
proof fn lemma_page_press(
    s: UiView,
    wins: Seq<(Rect, String)>,
    buttons: Seq<(Rect, Action)>,
    monitors: nat,
    x: u16,
    y: u16,
    t: u64,
    forward: bool,
)
    requires
        !s.animating,
        last_hit(wins, x as int, y as int) is None,
        first_hit(buttons, x as int, y as int) matches Some(b) && buttons[b].1 == (if forward {
            Action::NextPage
        } else {
            Action::PrevPage
        }),
    ensures
        ({
            let s1 = press_spec(s, wins, buttons, monitors, x, y, t).0;
            &&& forward && s.current_page < 1 ==> s1.animating && s1.target_page == s.current_page + 1
                && s1.current_page == s.current_page
            &&& !forward && s.current_page > 0 ==> s1.animating && s1.target_page == s.current_page - 1
                && s1.current_page == s.current_page
        }),
{
}

/// Sliding to the next page and back, each slide run to its end, shows the first
/// page again; the pages stay in range throughout.
pub proof fn law_next_then_previous_page(
    s: UiView,
    wins: Seq<(Rect, String)>,
    buttons: Seq<(Rect, Action)>,
    monitors: nat,
    next_x: u16,
    next_y: u16,
    prev_x: u16,
    prev_y: u16,
    t1: u64,
    t2: u64,
)
    requires
        pages_valid(s),
        !s.animating,
        s.current_page == 0,
        s.target_page == 0,
        last_hit(wins, next_x as int, next_y as int) is None,
        first_hit(buttons, next_x as int, next_y as int) matches Some(b) && buttons[b].1 == Action::NextPage,
        last_hit(wins, prev_x as int, prev_y as int) is None,
        first_hit(buttons, prev_x as int, prev_y as int) matches Some(b) && buttons[b].1 == Action::PrevPage,
    ensures
        ({
            let s1 = settled(press_spec(s, wins, buttons, monitors, next_x, next_y, t1).0);
            let s2 = settled(press_spec(s1, wins, buttons, monitors, prev_x, prev_y, t2).0);
            &&& s1.current_page == 1 && pages_valid(s1)
            &&& s2.current_page == 0 && pages_valid(s2)
        }),
{
    lemma_page_press(s, wins, buttons, monitors, next_x, next_y, t1, true);
    let s1 = settled(press_spec(s, wins, buttons, monitors, next_x, next_y, t1).0);
    assert(s1.current_page == 1 && !s1.animating);
    lemma_page_press(s1, wins, buttons, monitors, prev_x, prev_y, t2, false);
}

proof fn lemma_digit_char(d: int)
    requires
        0 <= d < 10,
    ensures
        is_digit(digit_char(d)),
        digit_char(d) as int - '0' as int == d,
{
    reveal_strlit("0123456789");
    if d == 0 {
        assert(digit_char(d) == '0');
    } else if d == 1 {
        assert(digit_char(d) == '1');
    } else if d == 2 {
        assert(digit_char(d) == '2');
    } else if d == 3 {
        assert(digit_char(d) == '3');
    } else if d == 4 {
        assert(digit_char(d) == '4');
    } else if d == 5 {
        assert(digit_char(d) == '5');
    } else if d == 6 {
        assert(digit_char(d) == '6');
    } else if d == 7 {
        assert(digit_char(d) == '7');
    } else if d == 8 {
        assert(digit_char(d) == '8');
    } else {
        assert(digit_char(d) == '9');
    }
}

proof fn lemma_decimal(n: nat)
    ensures
        decimal(n).len() >= 1,
        all_digits(decimal(n)),
        digits_value(decimal(n)) == n,
    decreases n,
{
    if n >= 10 {
        lemma_decimal(n / 10);
        lemma_digit_char((n % 10) as int);
        let d = decimal(n);
        assert(d.drop_last() =~= decimal(n / 10));
        assert(forall|i: int| 0 <= i < d.len() - 1 ==> #[trigger] d[i] == decimal(n / 10)[i]);
        assert(d.last() == digit_char((n % 10) as int));
        assert(digits_value(d) == 10 * digits_value(d.drop_last()) + (d.last() as int - '0' as int));
        assert(n == 10 * (n / 10) + n % 10) by (nonlinear_arith);
    } else {
        lemma_digit_char(n as int);
        let d = decimal(n);
        assert(d.drop_last() =~= Seq::<char>::empty());
        assert(digits_value(d.drop_last()) == 0);
        assert(d.last() == digit_char(n as int));
        assert(digits_value(d) == 10 * digits_value(d.drop_last()) + (d.last() as int - '0' as int));
    }
}

/// Formatting an `i32` in decimal and parsing the text back gives the number.
pub proof fn law_format_parse_roundtrip(v: i32)
    ensures
        parse_i32_spec(i32_text(v)) == Some(v),
{
    if v < 0 {
        let m = (-v) as nat;
        lemma_decimal(m);
        let t = i32_text(v);
        assert(t.skip(1) =~= decimal(m));
    } else {
        lemma_decimal(v as nat);
        assert(is_digit(decimal(v as nat)[0]));
    }
}


proof fn lemma_tileable_indices(ws: Seq<Window>)
    requires
        ws.len() <= usize::MAX,
    ensures
        forall|k: int|
            0 <= k < tileable_indices(ws).len() ==> #[trigger] tileable_indices(ws)[k] < ws.len()
                && is_tileable(ws[tileable_indices(ws)[k] as int]),
    decreases ws.len(),
{
    if ws.len() > 0 {
        let d = ws.drop_last();
        lemma_tileable_indices(d);
        let prev = tileable_indices(d);
        let cur = tileable_indices(ws);
        assert forall|k: int| 0 <= k < cur.len() implies #[trigger] cur[k] < ws.len() && is_tileable(
            ws[cur[k] as int],
        ) by {
            if k < prev.len() {
                assert(cur[k] == prev[k]);
                assert(d[prev[k] as int] == ws[prev[k] as int]);
            } else {
                assert(cur[k] == (ws.len() - 1) as usize);
            }
        }
    }
}

proof fn lemma_assigned_to(assign: Seq<Option<usize>>, i: int)
    ensures
        forall|j: int|
            0 <= j < assigned_to(assign, i).len() ==> 0 <= #[trigger] assigned_to(assign, i)[j] < assign.len(),
    decreases assign.len(),
{
    if assign.len() > 0 {
        lemma_assigned_to(assign.drop_last(), i);
        let prev = assigned_to(assign.drop_last(), i);
        let cur = assigned_to(assign, i);
        assert forall|j: int| 0 <= j < cur.len() implies 0 <= #[trigger] cur[j] < assign.len() by {
            if j < prev.len() {
                assert(cur[j] == prev[j]);
            }
        }
    }
}

proof fn lemma_plan_members(tiles: Seq<usize>, assign: Seq<Option<usize>>, ms: Seq<Monitor>, n: int)
    requires
        assign.len() == tiles.len(),
    ensures
        forall|t: int|
            0 <= t < plan_moves(tiles, assign, ms, n).len() ==> tiles.contains(
                #[trigger] plan_moves(tiles, assign, ms, n)[t].0,
            ),
    decreases n,
{
    if n > 0 {
        lemma_plan_members(tiles, assign, ms, n - 1);
        lemma_assigned_to(assign, n - 1);
        let prev = plan_moves(tiles, assign, ms, n - 1);
        let cur = monitor_moves(tiles, assign, ms, n - 1);
        let list = assigned_to(assign, n - 1);
        assert(plan_moves(tiles, assign, ms, n) == prev + cur);
        assert forall|t: int| 0 <= t < plan_moves(tiles, assign, ms, n).len() implies tiles.contains(
            #[trigger] plan_moves(tiles, assign, ms, n)[t].0,
        ) by {
            if t < prev.len() {
                assert(plan_moves(tiles, assign, ms, n)[t] == prev[t]);
            } else {
                let j = t - prev.len();
                assert(plan_moves(tiles, assign, ms, n)[t] == cur[j]);
                assert(0 <= list[j] < assign.len());
                assert(tiles[list[j]] == cur[j].0);
            }
        }
    }
}

/// Tiling, automatic or chaotic, moves only windows over 250 by 250.
pub proof fn law_tiling_moves_only_large_windows(ws: Seq<Window>, ms: Seq<Monitor>, assign: Seq<Option<usize>>)
    requires
        ws.len() <= usize::MAX,
        assign.len() == tileable_indices(ws).len(),
    ensures
        forall|t: int|
            0 <= t < plan_moves(tileable_indices(ws), assign, ms, ms.len() as int).len() ==> is_tileable(
                ws[#[trigger] plan_moves(tileable_indices(ws), assign, ms, ms.len() as int)[t].0 as int],
            ),
{
    let tiles = tileable_indices(ws);
    lemma_tileable_indices(ws);
    lemma_plan_members(tiles, assign, ms, ms.len() as int);
    assert forall|t: int| 0 <= t < plan_moves(tiles, assign, ms, ms.len() as int).len() implies is_tileable(
        ws[#[trigger] plan_moves(tiles, assign, ms, ms.len() as int)[t].0 as int],
    ) by {
        assert(tiles.contains(plan_moves(tiles, assign, ms, ms.len() as int)[t].0));
        let k = choose|k: int| 0 <= k < tiles.len() && tiles[k] == plan_moves(tiles, assign, ms, ms.len() as int)[t].0;
        assert(is_tileable(ws[tiles[k] as int]));
    }
}


/// Whether two placements share no pixel.
pub open spec fn disjoint(a: Placement, b: Placement) -> bool {
    a.x + a.width <= b.x || b.x + b.width <= a.x || a.y + a.height <= b.y || b.y + b.height <= a.y
}

/// Whether a placement lies within the monitor's usable area, a gap from each edge.
pub open spec fn inside_with_gaps(p: Placement, m: Monitor) -> bool {
    &&& m.ux + GAP <= p.x && p.x + p.width <= m.ux + m.uw - GAP
    &&& m.uy + GAP <= p.y && p.y + p.height <= m.uy + m.uh - GAP
    &&& p.width >= 1 && p.height >= 1
}

/// When up to four windows are laid out on a monitor with room for them (more than
/// three gaps each way), each window lies within the usable area a gap from its
/// edges, and no two of them overlap. One window fills the area less a gap on each
/// side; two take the left and the right half at full height; with three, the first
/// takes the left column at full height, the second the top-right quarter and the
/// third the bottom-right quarter; four take the quarters in reading order.
pub proof fn law_slots_tile_the_monitor(m: Monitor, count: int, j: int, k: int)
    requires
        grid_fits(m, true),
        m.uw >= 3 * GAP + 2,
        m.uh >= 3 * GAP + 2,
        1 <= count <= 4,
        0 <= j < count,
        0 <= k < count,
    ensures
        inside_with_gaps(slot_rect(count, j, grid_of(m)), m),
        j != k ==> disjoint(slot_rect(count, j, grid_of(m)), slot_rect(count, k, grid_of(m))),
        count == 1 ==> slot_rect(1, 0, grid_of(m)) == (Placement {
            x: (m.ux + GAP) as i32,
            y: (m.uy + GAP) as i32,
            width: (m.uw - 2 * GAP) as i32,
            height: (m.uh - 2 * GAP) as i32,
        }),
        count == 2 ==> slot_rect(2, j, grid_of(m)) == (Placement {
            x: (m.ux + GAP + j * (GAP + half(m.uw - 3 * GAP))) as i32,
            y: (m.uy + GAP) as i32,
            width: half(m.uw - 3 * GAP) as i32,
            height: (m.uh - 2 * GAP) as i32,
        }),
        count == 4 ==> slot_rect(4, j, grid_of(m)) == (Placement {
            x: (m.ux + GAP + (j % 2) * (GAP + half(m.uw - 3 * GAP))) as i32,
            y: (m.uy + GAP + (j / 2) * (GAP + half(m.uh - 3 * GAP))) as i32,
            width: half(m.uw - 3 * GAP) as i32,
            height: half(m.uh - 3 * GAP) as i32,
        }),
        count == 3 ==> slot_rect(3, 0, grid_of(m)) == (Placement {
            x: (m.ux + GAP) as i32,
            y: (m.uy + GAP) as i32,
            width: half(m.uw - 3 * GAP) as i32,
            height: (m.uh - 2 * GAP) as i32,
        }),
        count == 3 ==> slot_rect(3, 1, grid_of(m)) == (Placement {
            x: (m.ux + 2 * GAP + half(m.uw - 3 * GAP)) as i32,
            y: (m.uy + GAP) as i32,
            width: half(m.uw - 3 * GAP) as i32,
            height: half(m.uh - 3 * GAP) as i32,
        }),
        count == 3 ==> slot_rect(3, 2, grid_of(m)) == (Placement {
            x: (m.ux + 2 * GAP + half(m.uw - 3 * GAP)) as i32,
            y: (m.uy + 2 * GAP + half(m.uh - 3 * GAP)) as i32,
            width: half(m.uw - 3 * GAP) as i32,
            height: half(m.uh - 3 * GAP) as i32,
        }),
{
    let g = grid_of(m);
    let hw = half(m.uw - 3 * GAP);
    let hh = half(m.uh - 3 * GAP);
    assert(hw >= 1 && 2 * hw <= m.uw - 3 * GAP);
    assert(hh >= 1 && 2 * hh <= m.uh - 3 * GAP);
    assert(g.hw == hw && g.hh == hh);
    assert(g.fw == m.uw - 2 * GAP && g.fh == m.uh - 2 * GAP);
    assert(g.xl == m.ux + GAP && g.xr == m.ux + 2 * GAP + hw);
    assert(g.yt == m.uy + GAP && g.yb == m.uy + 2 * GAP + hh);
    if count == 4 {
        if j == 0 {
            assert(j % 2 == 0 && j / 2 == 0);
        } else if j == 1 {
            assert(j % 2 == 1 && j / 2 == 0);
        } else if j == 2 {
            assert(j % 2 == 0 && j / 2 == 1);
        } else {
            assert(j % 2 == 1 && j / 2 == 1);
        }
    }
}


proof fn lemma_area_in_i64(w: Window)
    ensures
        (area(w) as i64) as int == area(w),
{
    assert(-0x4000_0000_0000_0000 <= w.width as int * w.height as int <= 0x4000_0000_0000_0000) by (nonlinear_arith)
        requires
            -0x8000_0000 <= w.width < 0x8000_0000,
            -0x8000_0000 <= w.height < 0x8000_0000,
    ;
}

/// In the desktop built from the reports, the windows are the ordinary windows
/// (each of them once), listed by non-increasing area `width * height`, windows of
/// equal area in the order they were reported, and the
/// monitors are listed by non-decreasing left edge, one per desktop background.
pub proof fn law_desktop_order(entries: Seq<Window>, kinds: Seq<EntryKind>, d: Desktop)
    requires
        assembly_fits(entries, kinds),
        is_desktop_of(entries, kinds, d),
    ensures
        d.windows@.len() == select(entries, kinds, EntryKind::Regular).len(),
        forall|k: int|
            0 <= k < d.windows@.len() ==> select(entries, kinds, EntryKind::Regular).contains(
                #[trigger] d.windows@[k],
            ),
        forall|k: int, l: int|
            0 <= k < l < d.windows@.len() ==> (#[trigger] d.windows@[k]).width as int * d.windows@[k].height
                >= (#[trigger] d.windows@[l]).width as int * d.windows@[l].height,
        exists|order: Seq<usize>|
            #[trigger] crate::desktop::is_reordering(select(entries, kinds, EntryKind::Regular), order, d.windows@)
                && (forall|k: int|
                0 <= k < order.len() ==> #[trigger] order[k] < select(entries, kinds, EntryKind::Regular).len())
                && (forall|k: int, l: int|
                0 <= k < order.len() && 0 <= l < order.len() && k != l ==> #[trigger] order[k] != #[trigger] order[l])
                && (forall|k: int, l: int|
                0 <= k < l < order.len() && (#[trigger] d.windows@[k]).width as int * d.windows@[k].height
                    == (#[trigger] d.windows@[l]).width as int * d.windows@[l].height ==> order[k] < order[l]),
        d.monitors@.len() == select(entries, kinds, EntryKind::Monitor).len(),
        forall|k: int, l: int|
            0 <= k < l < d.monitors@.len() ==> (#[trigger] d.monitors@[k]).x <= (#[trigger] d.monitors@[l]).x,
{
    let regular = select(entries, kinds, EntryKind::Regular);
    let raws = select(entries, kinds, EntryKind::Monitor);
    let panels = select(entries, kinds, EntryKind::Panel);
    let wo = choose|order: Seq<usize>|
        is_stable_desc_order(area_keys(regular), order) && #[trigger] crate::desktop::is_reordering(
            regular,
            order,
            d.windows@,
        );
    let mo = choose|order: Seq<usize>|
        is_stable_desc_order(left_keys(raws), order) && #[trigger] crate::desktop::is_reordering(
            usable_monitors(raws, panels),
            order,
            d.monitors@,
        );
    assert forall|k: int| 0 <= k < d.windows@.len() implies regular.contains(#[trigger] d.windows@[k]) by {
        assert(d.windows@[k] == regular[wo[k] as int]);
    }
    assert forall|k: int, l: int| 0 <= k < l < d.windows@.len() implies (#[trigger] d.windows@[k]).width as int
        * d.windows@[k].height >= (#[trigger] d.windows@[l]).width as int * d.windows@[l].height by {
        let a = wo[k] as int;
        let b = wo[l] as int;
        assert(area_keys(regular)[a] >= area_keys(regular)[b]);
        lemma_area_in_i64(regular[a]);
        lemma_area_in_i64(regular[b]);
        assert(d.windows@[k] == regular[a] && d.windows@[l] == regular[b]);
    }
    assert forall|k: int, l: int|
        0 <= k < l < wo.len() && (#[trigger] d.windows@[k]).width as int * d.windows@[k].height
            == (#[trigger] d.windows@[l]).width as int * d.windows@[l].height implies wo[k] < wo[l] by {
        let a = wo[k] as int;
        let b = wo[l] as int;
        lemma_area_in_i64(regular[a]);
        lemma_area_in_i64(regular[b]);
        assert(d.windows@[k] == regular[a] && d.windows@[l] == regular[b]);
        assert(area_keys(regular)[a] == area_keys(regular)[b]);
    }
    assert forall|k: int, l: int| 0 <= k < l < d.monitors@.len() implies (#[trigger] d.monitors@[k]).x
        <= (#[trigger] d.monitors@[l]).x by {
        let a = mo[k] as int;
        let b = mo[l] as int;
        assert(left_keys(raws)[a] >= left_keys(raws)[b]);
        assert(panels_fold(monitor_of(raws[a]), panels) is Some);
        assert(panels_fold(monitor_of(raws[b]), panels) is Some);
        lemma_fold_keeps_shape(raws[a], panels);
        lemma_fold_keeps_shape(raws[b], panels);
        assert(d.monitors@[k] == usable_monitors(raws, panels)[a]);
        assert(d.monitors@[l] == usable_monitors(raws, panels)[b]);
    }
}


/// What one panel does to a monitor. A panel whose left edge is not within the
/// monitor's columns leaves it as it is. Otherwise a panel whose top is at most 10
/// below the monitor's top pushes the usable top down to at least the panel's
/// bottom (never up), and the usable area then reaches the monitor's bottom; a
/// panel lower down whose bottom is within 10 of the monitor's bottom ends the
/// usable area at or above its own top, keeping the usable top, and any other
/// panel changes nothing. The monitor's own area and the usable columns never
/// change.
pub proof fn law_panel_effect(m: Monitor, p: Window)
    requires
        panel_step(m, p) is Some,
    ensures
        ({
            let r = panel_step(m, p).unwrap();
            let on_columns = m.x <= p.x && p.x < m.x + m.width;
            &&& r.x == m.x && r.y == m.y && r.width == m.width && r.height == m.height
            &&& r.ux == m.ux && r.uw == m.uw
            &&& !on_columns ==> r == m
            &&& on_columns && p.y <= m.y + 10 ==> r.uy >= p.y + p.height && r.uy >= m.uy && r.uy + r.uh == m.y
                + m.height && (r.uy == m.uy || r.uy == p.y + p.height)
            &&& on_columns && p.y > m.y + 10 && p.y + p.height >= m.y + m.height - 10 ==> r.uy == m.uy
                && r.uy + r.uh <= p.y && r.uh <= m.uh && (r.uh == m.uh || r.uy + r.uh == p.y)
            &&& on_columns && p.y > m.y + 10 && p.y + p.height < m.y + m.height - 10 ==> r == m
        }),
{
}


/// A custom tile goes to the monitor that holds the active window's centre: when
/// the first window with the active id has its centre column `x + width / 2`
/// (rounded toward zero) on some monitor, the tile is on the first such monitor;
/// when there is no such window, or its centre is on no monitor, the tile is on the
/// first monitor.
pub proof fn law_custom_tile_monitor(ws: Seq<Window>, ms: Seq<Monitor>, active: Seq<char>, wi: int)
    requires
        0 <= wi < ws.len(),
        ws[wi].id@ == active,
        forall|k: int| 0 <= k < wi ==> (#[trigger] ws[k]).id@ != active,
    ensures
        ({
            let w = ws[wi];
            let cx = w.x + (if w.width >= 0 {
                w.width / 2
            } else {
                -((-w.width) / 2)
            });
            &&& forall|mi: int|
                0 <= mi < ms.len() && ms[mi].x <= cx <= ms[mi].x + ms[mi].width && (forall|k: int|
                    0 <= k < mi ==> !(ms[k].x <= cx && cx <= #[trigger] ms[k].x + ms[k].width)) ==> custom_target(
                    ws,
                    ms,
                    active,
                ) == Some(mi)
            &&& (forall|k: int| 0 <= k < ms.len() ==> !(ms[k].x <= cx && cx <= #[trigger] ms[k].x + ms[k].width))
                && ms.len() > 0 ==> custom_target(ws, ms, active) == Some(0int)
        }),
{
    lemma_first_with_id(ws, active, wi);
    let w = ws[wi];
    let cx = center_x(w);
    assert forall|mi: int|
        0 <= mi < ms.len() && ms[mi].x <= cx <= ms[mi].x + ms[mi].width && (forall|k: int|
            0 <= k < mi ==> !(ms[k].x <= cx && cx <= #[trigger] ms[k].x + ms[k].width)) implies custom_target(
        ws,
        ms,
        active,
    ) == Some(mi) by {
        assert forall|k: int| 0 <= k < mi implies !on_monitor(#[trigger] ms[k], cx) by {
            assert(!(ms[k].x <= cx && cx <= ms[k].x + ms[k].width));
        }
        lemma_first_on(ms, cx, mi);
    }
    if forall|k: int| 0 <= k < ms.len() ==> !(ms[k].x <= cx && cx <= #[trigger] ms[k].x + ms[k].width) {
        assert(!exists|i: int| 0 <= i < ms.len() && on_monitor(#[trigger] ms[i], cx));
    }
}

/// Without a window of the active id, a custom tile goes to the first monitor.
pub proof fn law_custom_tile_without_window(ws: Seq<Window>, ms: Seq<Monitor>, active: Seq<char>)
    requires
        forall|k: int| 0 <= k < ws.len() ==> (#[trigger] ws[k]).id@ != active,
    ensures
        custom_target(ws, ms, active) == (if ms.len() > 0 {
            Some(0int)
        } else {
            None
        }),
{
}


/// Different shortcuts invoke different KWin shortcuts.
pub proof fn law_shortcut_names_distinct(a: Shortcut, b: Shortcut)
    requires
        a != b,
    ensures
        shortcut_name(a) != shortcut_name(b),
{
    reveal_strlit("Window One Screen to the Left");
    reveal_strlit("Window One Screen to the Right");
    reveal_strlit("Window Maximize");
    reveal_strlit("Window Fullscreen");
    reveal_strlit("Window Minimize");
    if shortcut_name(a) == shortcut_name(b) {
        let na = shortcut_name(a);
        let nb = shortcut_name(b);
        assert(na.len() == nb.len());
        assert(na[8] == nb[8]);
        assert(na[26] == nb[26]);
    }
}

/// A direction or size word that a shortcut button's label shows, and the word
/// that the KWin shortcut it invokes carries.
pub open spec fn shortcut_words(s: Shortcut) -> (Seq<char>, Seq<char>) {
    match s {
        Shortcut::ToLeftScreen => ("LEFT"@, "Left"@),
        Shortcut::ToRightScreen => ("RIGHT"@, "Right"@),
        Shortcut::Maximize => ("MAX"@, "Maximize"@),
        Shortcut::Fullscreen => ("FULLSCREEN"@, "Fullscreen"@),
        Shortcut::Minimize => ("MINIMIZE"@, "Minimize"@),
    }
}

/// Every shortcut button invokes the KWin shortcut that its label names: the
/// label shows the direction or size word and the shortcut's name carries it.
pub proof fn law_shortcut_buttons_match_names(first: bool, row: int, col: int)
    requires
        0 <= row < 2,
        0 <= col < 4,
    ensures
        button_spec(first, row, col).1 matches Action::KdeShortcut(s) ==> contains_seq(
            button_spec(first, row, col).0,
            shortcut_words(s).0,
        ) && contains_seq(shortcut_name(s), shortcut_words(s).1),
{
    reveal_strlit("Window One Screen to the Left");
    reveal_strlit("Window One Screen to the Right");
    reveal_strlit("Window Maximize");
    reveal_strlit("Window Fullscreen");
    reveal_strlit("Window Minimize");
    reveal_strlit("LEFT");
    reveal_strlit("RIGHT");
    reveal_strlit("MAX");
    reveal_strlit("FULLSCREEN");
    reveal_strlit("MINIMIZE");
    reveal_strlit("Left");
    reveal_strlit("Right");
    reveal_strlit("Maximize");
    reveal_strlit("Fullscreen");
    reveal_strlit("Minimize");
    reveal_strlit("📺 TO LEFT MON");
    reveal_strlit("TO RIGHT MON 📺");
    reveal_strlit("🗗 TOGGLE MAX");
    reveal_strlit("🔲 FULLSCREEN");
    reveal_strlit("🔽 MINIMIZE");
    let b = button_spec(first, row, col);
    match b.1 {
        Action::KdeShortcut(s) => {
            let (lw, nw) = shortcut_words(s);
            let (li, ni): (int, int) = match s {
                Shortcut::ToLeftScreen => (5, 25),
                Shortcut::ToRightScreen => (3, 25),
                Shortcut::Maximize => (9, 7),
                Shortcut::Fullscreen => (2, 7),
                Shortcut::Minimize => (2, 7),
            };
            assert(b.0.subrange(li, li + lw.len()) =~= lw);
            assert(occurs_at(b.0, lw, li));
            assert(shortcut_name(s).subrange(ni, ni + nw.len()) =~= nw);
            assert(occurs_at(shortcut_name(s), nw, ni));
        },
        _ => {},
    }
}

} // verus!
