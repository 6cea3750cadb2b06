//! Tiling geometry: where the deck moves windows on a monitor's usable area.

use vstd::prelude::*;
use crate::desktop::{fits, Monitor, Window};

verus! {

/// The gap, in pixels, that the deck leaves around and between tiled windows.
pub const GAP: i32 = 16;

/// A target half or quarter of a monitor.
#[derive(Clone, Copy, Debug, PartialEq, Eq, Structural)]
pub enum TileMode {
    LeftHalf,
    RightHalf,
    TopLeft,
    TopRight,
    BotLeft,
    BotRight,
}

/// Where and how large a window is to be.
#[derive(Clone, Copy, Debug, PartialEq, Eq, Structural)]
pub struct Placement {
    pub x: i32,
    pub y: i32,
    pub width: i32,
    pub height: i32,
}

/// `v / 2` rounded toward zero, as `i32` division rounds.
pub open spec fn half(v: int) -> int {
    if v >= 0 {
        v / 2
    } else {
        -((-v) / 2)
    }
}

/// The grid that the deck lays on a monitor's usable area: half and full sizes
/// with gaps, and the left/right columns and top/bottom rows.
#[derive(Clone, Copy, Debug, PartialEq, Eq, Structural)]
pub struct Grid {
    pub hw: i32,
    pub hh: i32,
    pub fw: i32,
    pub fh: i32,
    pub xl: i32,
    pub xr: i32,
    pub yt: i32,
    pub yb: i32,
}

/// The grid on `m`: a half is what is left of the usable size after three gaps,
/// halved; a full size what is left after two gaps.
pub open spec fn grid_of(m: Monitor) -> Grid {
    let hw = half(m.uw - 3 * GAP);
    let hh = half(m.uh - 3 * GAP);
    Grid {
        hw: hw as i32,
        hh: hh as i32,
        fw: (m.uw - 2 * GAP) as i32,
        fh: (m.uh - 2 * GAP) as i32,
        xl: (m.ux + GAP) as i32,
        xr: (m.ux + 2 * GAP + hw) as i32,
        yt: (m.uy + GAP) as i32,
        yb: (m.uy + 2 * GAP + hh) as i32,
    }
}

/// Whether computing the grid on `m` stays within `i32` (the deck computes the
/// full width only when it lays out several windows at once: `with_full_width`).
pub open spec fn grid_fits(m: Monitor, with_full_width: bool) -> bool {
    let hw = half(m.uw - 3 * GAP);
    let hh = half(m.uh - 3 * GAP);
    &&& fits(m.uw - 3 * GAP)
    &&& fits(m.uh - 3 * GAP)
    &&& with_full_width ==> fits(m.uw - 2 * GAP)
    &&& fits(m.uh - 2 * GAP)
    &&& fits(m.ux + GAP)
    &&& fits(m.ux + 2 * GAP)
    &&& fits(m.ux + 2 * GAP + hw)
    &&& fits(m.uy + GAP)
    &&& fits(m.uy + 2 * GAP)
    &&& fits(m.uy + 2 * GAP + hh)
}

/// The grid on `m`.
pub fn grid(m: &Monitor, with_full_width: bool) -> (g: Grid)
    requires
        grid_fits(*m, with_full_width),
    ensures
        g.hw == grid_of(*m).hw && g.hh == grid_of(*m).hh && g.fh == grid_of(*m).fh,
        g.xl == grid_of(*m).xl && g.xr == grid_of(*m).xr,
        g.yt == grid_of(*m).yt && g.yb == grid_of(*m).yb,
        with_full_width ==> g.fw == grid_of(*m).fw,
        !with_full_width ==> g.fw == 0,
{
    let uw = m.uw as i64;
    let uh = m.uh as i64;
    let a = uw - 48;
    let b = uh - 48;
    let hw: i64 = if a >= 0 {
        a / 2
    } else {
        -((-a) / 2)
    };
    let hh: i64 = if b >= 0 {
        b / 2
    } else {
        -((-b) / 2)
    };
    let fw: i32 = if with_full_width {
        (uw - 32) as i32
    } else {
        0
    };
    Grid {
        hw: hw as i32,
        hh: hh as i32,
        fw,
        fh: (uh - 32) as i32,
        xl: (m.ux as i64 + 16) as i32,
        xr: (m.ux as i64 + 32 + hw) as i32,
        yt: (m.uy as i64 + 16) as i32,
        yb: (m.uy as i64 + 32 + hh) as i32,
    }
}

/// The placement of `mode` on the grid `g`.
pub open spec fn tile_rect(mode: TileMode, g: Grid) -> Placement {
    match mode {
        TileMode::LeftHalf => Placement { x: g.xl, y: g.yt, width: g.hw, height: g.fh },
        TileMode::RightHalf => Placement { x: g.xr, y: g.yt, width: g.hw, height: g.fh },
        TileMode::TopLeft => Placement { x: g.xl, y: g.yt, width: g.hw, height: g.hh },
        TileMode::TopRight => Placement { x: g.xr, y: g.yt, width: g.hw, height: g.hh },
        TileMode::BotLeft => Placement { x: g.xl, y: g.yb, width: g.hw, height: g.hh },
        TileMode::BotRight => Placement { x: g.xr, y: g.yb, width: g.hw, height: g.hh },
    }
}

/// The placement of `mode` on `m`.
pub fn tile_placement(m: &Monitor, mode: TileMode) -> (p: Placement)
    requires
        grid_fits(*m, false),
    ensures
        p == tile_rect(mode, grid_of(*m)),
{
    let g = grid(m, false);
    match mode {
        TileMode::LeftHalf => Placement { x: g.xl, y: g.yt, width: g.hw, height: g.fh },
        TileMode::RightHalf => Placement { x: g.xr, y: g.yt, width: g.hw, height: g.fh },
        TileMode::TopLeft => Placement { x: g.xl, y: g.yt, width: g.hw, height: g.hh },
        TileMode::TopRight => Placement { x: g.xr, y: g.yt, width: g.hw, height: g.hh },
        TileMode::BotLeft => Placement { x: g.xl, y: g.yb, width: g.hw, height: g.hh },
        TileMode::BotRight => Placement { x: g.xr, y: g.yb, width: g.hw, height: g.hh },
    }
}

/// The placement of the `j`-th of `count` windows laid out on the grid `g`: one
/// window fills the area; two split it into halves; three take the left half and
/// the two right quarters; four or more take the quarters, and every window past
/// the fourth goes to the bottom-right quarter.
pub open spec fn slot_rect(count: int, j: int, g: Grid) -> Placement {
    let limit = if count < 4 {
        count
    } else {
        4
    };
    if limit == 1 && j == 0 {
        Placement { x: g.xl, y: g.yt, width: g.fw, height: g.fh }
    } else if limit == 2 && j == 0 {
        Placement { x: g.xl, y: g.yt, width: g.hw, height: g.fh }
    } else if limit == 2 && j == 1 {
        Placement { x: g.xr, y: g.yt, width: g.hw, height: g.fh }
    } else if limit == 3 && j == 0 {
        Placement { x: g.xl, y: g.yt, width: g.hw, height: g.fh }
    } else if limit == 3 && j == 1 {
        Placement { x: g.xr, y: g.yt, width: g.hw, height: g.hh }
    } else if limit == 3 && j == 2 {
        Placement { x: g.xr, y: g.yb, width: g.hw, height: g.hh }
    } else if limit == 4 && j == 0 {
        Placement { x: g.xl, y: g.yt, width: g.hw, height: g.hh }
    } else if limit == 4 && j == 1 {
        Placement { x: g.xr, y: g.yt, width: g.hw, height: g.hh }
    } else if limit == 4 && j == 2 {
        Placement { x: g.xl, y: g.yb, width: g.hw, height: g.hh }
    } else {
        Placement { x: g.xr, y: g.yb, width: g.hw, height: g.hh }
    }
}

/// The placement of the `j`-th of `count` windows laid out on the grid `g`.
pub fn slot_placement(count: usize, j: usize, g: &Grid) -> (p: Placement)
    ensures
        p == slot_rect(count as int, j as int, *g),
{
    let limit = if count < 4 {
        count
    } else {
        4
    };
    if limit == 1 && j == 0 {
        Placement { x: g.xl, y: g.yt, width: g.fw, height: g.fh }
    } else if limit == 2 && j == 0 {
        Placement { x: g.xl, y: g.yt, width: g.hw, height: g.fh }
    } else if limit == 2 && j == 1 {
        Placement { x: g.xr, y: g.yt, width: g.hw, height: g.fh }
    } else if limit == 3 && j == 0 {
        Placement { x: g.xl, y: g.yt, width: g.hw, height: g.fh }
    } else if limit == 3 && j == 1 {
        Placement { x: g.xr, y: g.yt, width: g.hw, height: g.hh }
    } else if limit == 3 && j == 2 {
        Placement { x: g.xr, y: g.yb, width: g.hw, height: g.hh }
    } else if limit == 4 && j == 0 {
        Placement { x: g.xl, y: g.yt, width: g.hw, height: g.hh }
    } else if limit == 4 && j == 1 {
        Placement { x: g.xr, y: g.yt, width: g.hw, height: g.hh }
    } else if limit == 4 && j == 2 {
        Placement { x: g.xl, y: g.yb, width: g.hw, height: g.hh }
    } else {
        Placement { x: g.xr, y: g.yb, width: g.hw, height: g.hh }
    }
}

/// One step of the xorshift generator that scatters windows in chaos tiling.
pub open spec fn xorshift(s: u32) -> u32 {
    let a = s ^ (s << 13u32);
    let b = a ^ (a >> 17u32);
    b ^ (b << 5u32)
}

/// One step of the xorshift generator.
pub fn xorshift_step(s: u32) -> (r: u32)
    ensures
        r == xorshift(s),
{
    let mut seed = s;
    seed ^= seed << 13u32;
    seed ^= seed >> 17u32;
    seed ^= seed << 5u32;
    seed
}


/// The horizontal centre of a window, `x + width / 2`.
pub open spec fn center_x(w: Window) -> int {
    w.x + half(w.width as int)
}

/// Whether the column `cx` lies on monitor `m`, edges included.
pub open spec fn on_monitor(m: Monitor, cx: int) -> bool {
    cx >= m.x && cx <= m.x + m.width
}

/// Whether scanning `ms` in order for the first monitor holding `cx` stays within
/// `i32`: the right edge of a monitor is computed when no earlier monitor holds
/// `cx` and `cx` is not left of it.
pub open spec fn scan_fits(ms: Seq<Monitor>, cx: int) -> bool {
    forall|j: int|
        0 <= j < ms.len() && (forall|k: int| 0 <= k < j ==> !on_monitor(#[trigger] ms[k], cx)) && cx
            >= ms[j].x ==> fits(#[trigger] ms[j].x + ms[j].width)
}

/// The first monitor that holds the column `cx`.
pub fn monitor_at(ms: &Vec<Monitor>, cx: i32) -> (r: Option<usize>)
    requires
        scan_fits(ms@, cx as int),
    ensures
        match r {
            Some(i) => i < ms@.len() && on_monitor(ms@[i as int], cx as int) && forall|k: int|
                0 <= k < i ==> !on_monitor(#[trigger] ms@[k], cx as int),
            None => forall|k: int| 0 <= k < ms@.len() ==> !on_monitor(#[trigger] ms@[k], cx as int),
        },
{
    let mut i: usize = 0;
    while i < ms.len()
        invariant
            i <= ms@.len(),
            scan_fits(ms@, cx as int),
            forall|k: int| 0 <= k < i ==> !on_monitor(#[trigger] ms@[k], cx as int),
        decreases ms@.len() - i,
    {
        let m = &ms[i];
        if cx >= m.x {
            assert(fits(ms@[i as int].x + ms@[i as int].width));
            if cx <= m.x + m.width {
                return Some(i);
            }
        }
        i = i + 1;
    }
    None
}

/// The first window with the given id.
pub fn find_window(ws: &Vec<Window>, id: &str) -> (r: Option<usize>)
    ensures
        match r {
            Some(i) => i < ws@.len() && ws@[i as int].id@ == id@ && forall|k: int|
                0 <= k < i ==> (#[trigger] ws@[k]).id@ != id@,
            None => forall|k: int| 0 <= k < ws@.len() ==> (#[trigger] ws@[k]).id@ != id@,
        },
{
    let mut i: usize = 0;
    while i < ws.len()
        invariant
            i <= ws@.len(),
            forall|k: int| 0 <= k < i ==> (#[trigger] ws@[k]).id@ != id@,
        decreases ws@.len() - i,
    {
        if crate::text::str_eq(ws[i].id.as_str(), id) {
            return Some(i);
        }
        i = i + 1;
    }
    None
}

/// The index of the first window with id `id`, if any.
pub open spec fn first_with_id(ws: Seq<Window>, id: Seq<char>) -> Option<int> {
    if exists|i: int| 0 <= i < ws.len() && (#[trigger] ws[i]).id@ == id {
        let i = choose|i: int|
            0 <= i < ws.len() && (#[trigger] ws[i]).id@ == id && forall|k: int|
                0 <= k < i ==> (#[trigger] ws[k]).id@ != id;
        Some(i)
    } else {
        None
    }
}

/// The index of the first monitor that holds `cx`, if any.
pub open spec fn first_on(ms: Seq<Monitor>, cx: int) -> Option<int> {
    if exists|i: int| 0 <= i < ms.len() && on_monitor(#[trigger] ms[i], cx) {
        let i = choose|i: int|
            0 <= i < ms.len() && on_monitor(#[trigger] ms[i], cx) && forall|k: int|
                0 <= k < i ==> !on_monitor(#[trigger] ms[k], cx);
        Some(i)
    } else {
        None
    }
}


/// The first window with the given id is the one that `first_with_id` picks.
pub proof fn lemma_first_with_id(ws: Seq<Window>, id: Seq<char>, i: int)
    requires
        0 <= i < ws.len(),
        ws[i].id@ == id,
        forall|k: int| 0 <= k < i ==> (#[trigger] ws[k]).id@ != id,
    ensures
        first_with_id(ws, id) == Some(i),
{
    let c = choose|c: int|
        0 <= c < ws.len() && (#[trigger] ws[c]).id@ == id && forall|k: int|
            0 <= k < c ==> (#[trigger] ws[k]).id@ != id;
    assert(0 <= c < ws.len() && ws[c].id@ == id && forall|k: int| 0 <= k < c ==> (#[trigger] ws[k]).id@ != id);
    if c < i {
        assert(ws[c].id@ != id);
    }
    if i < c {
        assert(ws[i].id@ != id);
    }
}

/// The first monitor that holds `cx` is the one that `first_on` picks.
pub proof fn lemma_first_on(ms: Seq<Monitor>, cx: int, i: int)
    requires
        0 <= i < ms.len(),
        on_monitor(ms[i], cx),
        forall|k: int| 0 <= k < i ==> !on_monitor(#[trigger] ms[k], cx),
    ensures
        first_on(ms, cx) == Some(i),
{
    let c = choose|c: int|
        0 <= c < ms.len() && on_monitor(#[trigger] ms[c], cx) && forall|k: int|
            0 <= k < c ==> !on_monitor(#[trigger] ms[k], cx);
    assert(0 <= c < ms.len() && on_monitor(ms[c], cx) && forall|k: int| 0 <= k < c ==> !on_monitor(#[trigger] ms[k], cx));
    if c < i {
        assert(!on_monitor(ms[c], cx));
    }
    if i < c {
        assert(!on_monitor(ms[i], cx));
    }
}

/// The monitor that a custom tile goes to: the first monitor that holds the
/// centre of the first window with id `active`, or else the first monitor.
pub open spec fn custom_target(ws: Seq<Window>, ms: Seq<Monitor>, active: Seq<char>) -> Option<int> {
    let first = if ms.len() > 0 {
        Some(0int)
    } else {
        None
    };
    match first_with_id(ws, active) {
        Some(wi) => match first_on(ms, center_x(ws[wi])) {
            Some(mi) => Some(mi),
            None => first,
        },
        None => first,
    }
}

/// Whether the custom tile's arithmetic stays within `i32`.
pub open spec fn custom_fits(ws: Seq<Window>, ms: Seq<Monitor>, active: Seq<char>) -> bool {
    &&& match first_with_id(ws, active) {
        Some(wi) => fits(center_x(ws[wi])) && scan_fits(ms, center_x(ws[wi])),
        None => true,
    }
    &&& match custom_target(ws, ms, active) {
        Some(t) => grid_fits(ms[t], false),
        None => true,
    }
}

/// Where a custom tile of mode `mode` puts the active window: that part of the
/// grid on the monitor that holds the window's centre (or on the first monitor).
/// `None` when there is no monitor.
pub fn custom_tile(ws: &Vec<Window>, ms: &Vec<Monitor>, active: &str, mode: TileMode) -> (r: Option<Placement>)
    requires
        custom_fits(ws@, ms@, active@),
    ensures
        r == (match custom_target(ws@, ms@, active@) {
            Some(t) => Some(tile_rect(mode, grid_of(ms@[t]))),
            None => None,
        }),
{
    let mut target: Option<usize> = if ms.len() > 0 {
        Some(0)
    } else {
        None
    };
    let found = find_window(ws, active);
    match found {
        Some(wi) => {
            proof {
                lemma_first_with_id(ws@, active@, wi as int);
            }
            let w = &ws[wi];
            let cx = w.x + w.width / 2;
            match monitor_at(ms, cx) {
                Some(mi) => {
                    proof {
                        lemma_first_on(ms@, cx as int, mi as int);
                    }
                    target = Some(mi);
                },
                None => {},
            }
        },
        None => {},
    }
    match target {
        Some(t) => Some(tile_placement(&ms[t], mode)),
        None => None,
    }
}


/// Whether a window is large enough (over 250 by 250) to be tiled automatically.
pub open spec fn is_tileable(w: Window) -> bool {
    w.width > 250 && w.height > 250
}

/// The indices of the tileable windows, in order.
pub open spec fn tileable_indices(ws: Seq<Window>) -> Seq<usize>
    decreases ws.len(),
{
    if ws.len() == 0 {
        Seq::empty()
    } else {
        let prev = tileable_indices(ws.drop_last());
        if is_tileable(ws.last()) {
            prev.push((ws.len() - 1) as usize)
        } else {
            prev
        }
    }
}

/// The indices of the windows that automatic tiling moves.
pub fn tileable_windows(ws: &Vec<Window>) -> (r: Vec<usize>)
    ensures
        r@ == tileable_indices(ws@),
        forall|k: int| 0 <= k < r@.len() ==> #[trigger] r@[k] < ws@.len(),
{
    let mut out: Vec<usize> = Vec::new();
    let mut i: usize = 0;
    assert(ws@.take(0) =~= Seq::<Window>::empty());
    while i < ws.len()
        invariant
            i <= ws@.len(),
            out@ == tileable_indices(ws@.take(i as int)),
            forall|k: int| 0 <= k < out@.len() ==> #[trigger] out@[k] < i,
        decreases ws@.len() - i,
    {
        assert(ws@.take(i + 1).drop_last() =~= ws@.take(i as int));
        if ws[i].width > 250 && ws[i].height > 250 {
            out.push(i);
        }
        i = i + 1;
    }
    assert(ws@.take(ws@.len() as int) =~= ws@);
    out
}

/// Whether automatic assignment stays within `i32` for the given windows.
pub open spec fn auto_fits(ws: Seq<Window>, ms: Seq<Monitor>, tiles: Seq<usize>) -> bool {
    forall|k: int|
        0 <= k < tiles.len() ==> fits(center_x(ws[#[trigger] tiles[k] as int])) && scan_fits(
            ms,
            center_x(ws[tiles[k] as int]),
        )
}

/// The monitor each tileable window goes to in automatic tiling: the first one
/// that holds its centre (none if no monitor does).
pub open spec fn auto_assigned(ws: Seq<Window>, ms: Seq<Monitor>, tiles: Seq<usize>) -> Seq<Option<usize>> {
    Seq::new(
        tiles.len(),
        |k: int|
            match first_on(ms, center_x(ws[tiles[k] as int])) {
                Some(i) => Some(i as usize),
                None => None,
            },
    )
}

/// The monitors that automatic tiling sends the windows `tiles` to.
pub fn auto_assignment(ws: &Vec<Window>, ms: &Vec<Monitor>, tiles: &Vec<usize>) -> (r: Vec<Option<usize>>)
    requires
        forall|k: int| 0 <= k < tiles@.len() ==> #[trigger] tiles@[k] < ws@.len(),
        auto_fits(ws@, ms@, tiles@),
    ensures
        r@ == auto_assigned(ws@, ms@, tiles@),
{
    let mut out: Vec<Option<usize>> = Vec::new();
    let mut k: usize = 0;
    while k < tiles.len()
        invariant
            k <= tiles@.len(),
            forall|j: int| 0 <= j < tiles@.len() ==> #[trigger] tiles@[j] < ws@.len(),
            auto_fits(ws@, ms@, tiles@),
            out@.len() == k,
            forall|j: int| 0 <= j < k ==> #[trigger] out@[j] == auto_assigned(ws@, ms@, tiles@)[j],
        decreases tiles@.len() - k,
    {
        let w = &ws[tiles[k]];
        assert(fits(center_x(ws@[tiles@[k as int] as int])));
        let cx = w.x + w.width / 2;
        let a = monitor_at(ms, cx);
        match a {
            Some(i) => {
                proof {
                    lemma_first_on(ms@, cx as int, i as int);
                }
            },
            None => {},
        }
        out.push(a);
        k = k + 1;
    }
    assert(out@ =~= auto_assigned(ws@, ms@, tiles@));
    out
}

/// The generator state after `k` steps from `s`.
pub open spec fn xorshift_iter(s: u32, k: nat) -> u32
    decreases k,
{
    if k == 0 {
        s
    } else {
        xorshift(xorshift_iter(s, (k - 1) as nat))
    }
}

/// The monitor each of `count` windows goes to in chaos tiling: the generator is
/// seeded with the clock's sub-second nanoseconds (at least 1) and stepped once per
/// window; its state modulo the number of monitors picks the monitor.
pub open spec fn chaos_assigned(count: nat, monitors: nat, nanos: u32) -> Seq<Option<usize>> {
    let seed: u32 = if nanos >= 1 {
        nanos
    } else {
        1
    };
    Seq::new(count, |k: int| Some((xorshift_iter(seed, (k + 1) as nat) as nat % monitors) as usize))
}

/// The monitors that chaos tiling sends `count` windows to.
pub fn chaos_assignment(count: usize, monitors: usize, nanos: u32) -> (r: Vec<Option<usize>>)
    requires
        monitors > 0,
    ensures
        r@ == chaos_assigned(count as nat, monitors as nat, nanos),
        forall|k: int| 0 <= k < r@.len() ==> ((#[trigger] r@[k]) matches Some(i) && i < monitors),
{
    let mut seed: u32 = if nanos >= 1 {
        nanos
    } else {
        1
    };
    let ghost s0 = seed;
    let mut out: Vec<Option<usize>> = Vec::new();
    let mut k: usize = 0;
    while k < count
        invariant
            k <= count,
            monitors > 0,
            s0 == (if nanos >= 1 { nanos } else { 1u32 }),
            seed == xorshift_iter(s0, k as nat),
            out@.len() == k,
            forall|j: int| 0 <= j < k ==> #[trigger] out@[j] == chaos_assigned(count as nat, monitors as nat, nanos)[j],
        decreases count - k,
    {
        seed = xorshift_step(seed);
        assert(seed == xorshift_iter(s0, (k + 1) as nat));
        out.push(Some((seed as usize) % monitors));
        k = k + 1;
    }
    assert(out@ =~= chaos_assigned(count as nat, monitors as nat, nanos));
    out
}


/// The positions (in `assign`) of the windows assigned to monitor `i`, in order.
pub open spec fn assigned_to(assign: Seq<Option<usize>>, i: int) -> Seq<int>
    decreases assign.len(),
{
    if assign.len() == 0 {
        Seq::empty()
    } else {
        let prev = assigned_to(assign.drop_last(), i);
        if assign.last() == Some(i as usize) {
            prev.push(assign.len() - 1)
        } else {
            prev
        }
    }
}

/// A window (by index) and where tiling moves it.
pub type Move = (usize, Placement);

/// The moves on monitor `i`: its windows, in order, in the slots for their count.
pub open spec fn monitor_moves(tiles: Seq<usize>, assign: Seq<Option<usize>>, ms: Seq<Monitor>, i: int) -> Seq<Move> {
    let list = assigned_to(assign, i);
    Seq::new(
        list.len(),
        |j: int| (tiles[list[j]], slot_rect(list.len() as int, j, grid_of(ms[i]))),
    )
}

/// The moves on the first `n` monitors, monitor by monitor.
pub open spec fn plan_moves(tiles: Seq<usize>, assign: Seq<Option<usize>>, ms: Seq<Monitor>, n: int) -> Seq<Move>
    decreases n,
{
    if n <= 0 {
        Seq::empty()
    } else {
        plan_moves(tiles, assign, ms, n - 1) + monitor_moves(tiles, assign, ms, n - 1)
    }
}

/// Whether every monitor's grid, full width included, stays within `i32` (the
/// deck computes it for every monitor when tiling).
pub open spec fn all_grids_fit(ms: Seq<Monitor>) -> bool {
    forall|i: int| 0 <= i < ms.len() ==> grid_fits(#[trigger] ms[i], true)
}

/// The positions of the windows assigned to monitor `i`.
fn positions_on(assign: &Vec<Option<usize>>, i: usize) -> (r: Vec<usize>)
    ensures
        r@.len() == assigned_to(assign@, i as int).len(),
        forall|j: int| 0 <= j < r@.len() ==> #[trigger] r@[j] as int == assigned_to(assign@, i as int)[j],
        forall|j: int| 0 <= j < r@.len() ==> #[trigger] r@[j] < assign@.len(),
{
    let mut out: Vec<usize> = Vec::new();
    let mut k: usize = 0;
    assert(assign@.take(0) =~= Seq::<Option<usize>>::empty());
    while k < assign.len()
        invariant
            k <= assign@.len(),
            out@.len() == assigned_to(assign@.take(k as int), i as int).len(),
            forall|j: int| 0 <= j < out@.len() ==> #[trigger] out@[j] as int == assigned_to(assign@.take(k as int), i as int)[j],
            forall|j: int| 0 <= j < out@.len() ==> #[trigger] out@[j] < k,
        decreases assign@.len() - k,
    {
        assert(assign@.take(k + 1).drop_last() =~= assign@.take(k as int));
        if assign[k] == Some(i) {
            out.push(k);
        }
        k = k + 1;
    }
    assert(assign@.take(assign@.len() as int) =~= assign@);
    out
}

/// The moves that tiling makes, given which monitor each tileable window goes to.
pub fn plan_from_assignment(ms: &Vec<Monitor>, tiles: &Vec<usize>, assign: &Vec<Option<usize>>) -> (r: Vec<Move>)
    requires
        assign@.len() == tiles@.len(),
        all_grids_fit(ms@),
    ensures
        r@ == plan_moves(tiles@, assign@, ms@, ms@.len() as int),
{
    let mut out: Vec<Move> = Vec::new();
    let mut i: usize = 0;
    while i < ms.len()
        invariant
            i <= ms@.len(),
            assign@.len() == tiles@.len(),
            all_grids_fit(ms@),
            out@ == plan_moves(tiles@, assign@, ms@, i as int),
        decreases ms@.len() - i,
    {
        let g = grid(&ms[i], true);
        let list = positions_on(assign, i);
        let ghost before = out@;
        let ghost expected = monitor_moves(tiles@, assign@, ms@, i as int);
        let mut j: usize = 0;
        while j < list.len()
            invariant
                j <= list@.len(),
                assign@.len() == tiles@.len(),
                list@.len() == assigned_to(assign@, i as int).len(),
                forall|t: int| 0 <= t < list@.len() ==> #[trigger] list@[t] as int == assigned_to(assign@, i as int)[t],
                forall|t: int| 0 <= t < list@.len() ==> #[trigger] list@[t] < assign@.len(),
                expected == monitor_moves(tiles@, assign@, ms@, i as int),
                g.hw == grid_of(ms@[i as int]).hw && g.hh == grid_of(ms@[i as int]).hh,
                g.fw == grid_of(ms@[i as int]).fw && g.fh == grid_of(ms@[i as int]).fh,
                g.xl == grid_of(ms@[i as int]).xl && g.xr == grid_of(ms@[i as int]).xr,
                g.yt == grid_of(ms@[i as int]).yt && g.yb == grid_of(ms@[i as int]).yb,
                out@ =~= before + expected.take(j as int),
            decreases list@.len() - j,
        {
            let p = slot_placement(list.len(), j, &g);
            assert(g == grid_of(ms@[i as int]));
            out.push((tiles[list[j]], p));
            assert(expected.take(j + 1) =~= expected.take(j as int).push(expected[j as int]));
            j = j + 1;
        }
        assert(expected.take(list@.len() as int) =~= expected);
        i = i + 1;
    }
    out
}

/// The moves of automatic tiling: each window over 250 by 250 goes to the first
/// monitor that holds its centre, and each monitor's windows are laid out by count.
pub fn auto_tile_plan(ws: &Vec<Window>, ms: &Vec<Monitor>) -> (r: Vec<Move>)
    requires
        auto_fits(ws@, ms@, tileable_indices(ws@)),
        all_grids_fit(ms@),
    ensures
        r@ == plan_moves(
            tileable_indices(ws@),
            auto_assigned(ws@, ms@, tileable_indices(ws@)),
            ms@,
            ms@.len() as int,
        ),
{
    let tiles = tileable_windows(ws);
    let assign = auto_assignment(ws, ms, &tiles);
    plan_from_assignment(ms, &tiles, &assign)
}

/// The moves of chaos tiling: each window over 250 by 250 goes to a monitor that
/// the generator seeded with `nanos` picks, and each monitor's windows are laid out
/// by count.
pub fn chaos_tile_plan(ws: &Vec<Window>, ms: &Vec<Monitor>, nanos: u32) -> (r: Vec<Move>)
    requires
        ms@.len() > 0,
        all_grids_fit(ms@),
    ensures
        r@ == plan_moves(
            tileable_indices(ws@),
            chaos_assigned(tileable_indices(ws@).len(), ms@.len(), nanos),
            ms@,
            ms@.len() as int,
        ),
{
    let tiles = tileable_windows(ws);
    let assign = chaos_assignment(tiles.len(), ms.len(), nanos);
    plan_from_assignment(ms, &tiles, &assign)
}


/// Whether computing the grid on `m` stays within `i32`.
pub fn grid_fits_exec(m: &Monitor, with_full_width: bool) -> (r: bool)
    ensures
        r == grid_fits(*m, with_full_width),
{
    let lo: i64 = -2147483648;
    let hi: i64 = 2147483647;
    let uw = m.uw as i64;
    let uh = m.uh as i64;
    let ux = m.ux as i64;
    let uy = m.uy as i64;
    let a = uw - 48;
    let b = uh - 48;
    if a < lo || b < lo {
        return false;
    }
    let hw: i64 = if a >= 0 {
        a / 2
    } else {
        -((-a) / 2)
    };
    let hh: i64 = if b >= 0 {
        b / 2
    } else {
        -((-b) / 2)
    };
    let full_ok = !with_full_width || uw - 32 >= lo;
    full_ok && uh - 32 >= lo && ux + 16 <= hi && ux + 32 <= hi && lo <= ux + 32 + hw && ux + 32 + hw
        <= hi && uy + 16 <= hi && uy + 32 <= hi && lo <= uy + 32 + hh && uy + 32 + hh <= hi
}

/// Whether every monitor's grid, full width included, stays within `i32`.
pub fn all_grids_fit_exec(ms: &Vec<Monitor>) -> (r: bool)
    ensures
        r == all_grids_fit(ms@),
{
    let mut i: usize = 0;
    while i < ms.len()
        invariant
            i <= ms@.len(),
            forall|j: int| 0 <= j < i ==> grid_fits(#[trigger] ms@[j], true),
        decreases ms@.len() - i,
    {
        if !grid_fits_exec(&ms[i], true) {
            return false;
        }
        i = i + 1;
    }
    true
}

/// Whether scanning for the monitor that holds `cx` stays within `i32`.
fn scan_fits_exec(ms: &Vec<Monitor>, cx: i32) -> (r: bool)
    ensures
        r == scan_fits(ms@, cx as int),
{
    let mut i: usize = 0;
    while i < ms.len()
        invariant
            i <= ms@.len(),
            forall|k: int| 0 <= k < i ==> !on_monitor(#[trigger] ms@[k], cx as int),
            forall|j: int|
                0 <= j < i && (forall|k: int| 0 <= k < j ==> !on_monitor(#[trigger] ms@[k], cx as int))
                    && cx >= ms@[j].x ==> fits(#[trigger] ms@[j].x + ms@[j].width),
        decreases ms@.len() - i,
    {
        let m = &ms[i];
        if cx >= m.x {
            let right = m.x as i64 + m.width as i64;
            if right > 2147483647 || right < -2147483648 {
                assert(!fits(ms@[i as int].x + ms@[i as int].width));
                return false;
            }
            if (cx as i64) <= right {
                assert forall|j: int|
                    0 <= j < ms@.len() && (forall|k: int| 0 <= k < j ==> !on_monitor(#[trigger] ms@[k], cx as int))
                        && cx >= ms@[j].x implies fits(#[trigger] ms@[j].x + ms@[j].width) by {
                    if j > i {
                        assert(!on_monitor(ms@[i as int], cx as int));
                    }
                }
                return true;
            }
        }
        i = i + 1;
    }
    true
}

/// Whether the custom tile's arithmetic stays within `i32`.
pub fn custom_tile_fits(ws: &Vec<Window>, ms: &Vec<Monitor>, active: &str) -> (r: bool)
    ensures
        r == custom_fits(ws@, ms@, active@),
{
    let mut target: Option<usize> = if ms.len() > 0 {
        Some(0)
    } else {
        None
    };
    match find_window(ws, active) {
        Some(wi) => {
            proof {
                lemma_first_with_id(ws@, active@, wi as int);
            }
            let w = &ws[wi];
            let c = w.x as i64 + (w.width / 2) as i64;
            if c < -2147483648 || c > 2147483647 {
                return false;
            }
            let cx = c as i32;
            if !scan_fits_exec(ms, cx) {
                return false;
            }
            match monitor_at(ms, cx) {
                Some(mi) => {
                    proof {
                        lemma_first_on(ms@, cx as int, mi as int);
                    }
                    target = Some(mi);
                },
                None => {},
            }
        },
        None => {},
    }
    match target {
        Some(t) => grid_fits_exec(&ms[t], false),
        None => true,
    }
}

/// Whether automatic assignment stays within `i32` for the tileable windows.
pub fn auto_tile_fits(ws: &Vec<Window>, ms: &Vec<Monitor>) -> (r: bool)
    ensures
        r == auto_fits(ws@, ms@, tileable_indices(ws@)),
{
    let tiles = tileable_windows(ws);
    let mut k: usize = 0;
    while k < tiles.len()
        invariant
            k <= tiles@.len(),
            tiles@ == tileable_indices(ws@),
            forall|j: int| 0 <= j < tiles@.len() ==> #[trigger] tiles@[j] < ws@.len(),
            forall|j: int|
                0 <= j < k ==> fits(center_x(ws@[#[trigger] tiles@[j] as int])) && scan_fits(
                    ms@,
                    center_x(ws@[tiles@[j] as int]),
                ),
        decreases tiles@.len() - k,
    {
        let w = &ws[tiles[k]];
        let c = w.x as i64 + (w.width / 2) as i64;
        if c < -2147483648 || c > 2147483647 {
            return false;
        }
        if !scan_fits_exec(ms, c as i32) {
            return false;
        }
        k = k + 1;
    }
    true
}

} // verus!
