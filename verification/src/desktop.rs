//! The desktop model: windows and monitors as the window tool reports them, and
//! how the deck builds its view of the desktop from that output.

use vstd::prelude::*;
use crate::order::{is_stable_desc_order, stable_desc_order};
use crate::text::{
    contains, contains_seq, str_eq,
    lines, lines_of, parse_i32, parse_i32_or_zero, split_char, split_pieces, strip_prefix,
    strip_prefix_spec, trim, trimmed, views,
};

verus! {

/// A window as the window tool reports it.
#[derive(Clone, Debug)]
pub struct Window {
    pub id: String,
    pub title: String,
    pub x: i32,
    pub y: i32,
    pub width: i32,
    pub height: i32,
}

impl Window {
    /// A copy of this window.
    pub fn duplicate(&self) -> (r: Window)
        ensures
            r == *self,
    {
        Window {
            id: self.id.clone(),
            title: self.title.clone(),
            x: self.x,
            y: self.y,
            width: self.width,
            height: self.height,
        }
    }
}

/// One step of reading the window tool's geometry report: a `Position:` line sets
/// the position, a `Geometry:` line the size, each from two comma- or
/// `x`-separated numbers (0 where a number does not parse).
pub open spec fn geometry_step(acc: (i32, i32, i32, i32), line: Seq<char>) -> (i32, i32, i32, i32) {
    let l = trimmed(line);
    match strip_prefix_spec(l, "Position:"@) {
        Some(rest) => {
            let parts = split_pieces(rest, ',');
            if parts.len() == 2 {
                (
                    parse_i32_or_zero(trimmed(parts[0])),
                    parse_i32_or_zero(trimmed(parts[1])),
                    acc.2,
                    acc.3,
                )
            } else {
                acc
            }
        },
        None => match strip_prefix_spec(l, "Geometry:"@) {
            Some(rest) => {
                let parts = split_pieces(rest, 'x');
                if parts.len() == 2 {
                    (
                        acc.0,
                        acc.1,
                        parse_i32_or_zero(trimmed(parts[0])),
                        parse_i32_or_zero(trimmed(parts[1])),
                    )
                } else {
                    acc
                }
            },
            None => acc,
        },
    }
}

/// The geometry `(x, y, width, height)` read from the given lines, in order.
pub open spec fn geometry_fold(lines: Seq<Seq<char>>) -> (i32, i32, i32, i32)
    decreases lines.len(),
{
    if lines.len() == 0 {
        (0, 0, 0, 0)
    } else {
        geometry_step(geometry_fold(lines.drop_last()), lines.last())
    }
}

/// Reads `(x, y, width, height)` from the window tool's geometry report.
pub fn parse_geometry(report: &str) -> (r: (i32, i32, i32, i32))
    ensures
        r == geometry_fold(lines_of(report@)),
{
    let ls = lines(report);
    let mut acc: (i32, i32, i32, i32) = (0, 0, 0, 0);
    let mut i: usize = 0;
    assert(lines_of(report@).take(0) =~= Seq::<Seq<char>>::empty());
    while i < ls.len()
        invariant
            views(ls@) == lines_of(report@),
            i <= ls@.len(),
            acc == geometry_fold(lines_of(report@).take(i as int)),
        decreases ls@.len() - i,
    {
        let ghost prefix = lines_of(report@).take(i + 1);
        assert(prefix.drop_last() =~= lines_of(report@).take(i as int));
        assert(prefix.last() == ls@[i as int]@);
        let l = trim(ls[i].as_str());
        match strip_prefix(l.as_str(), "Position:") {
            Some(rest) => {
                let parts = split_char(rest.as_str(), ',');
                if parts.len() == 2 {
                    let a = trim(parts[0].as_str());
                    let b = trim(parts[1].as_str());
                    let xa = match parse_i32(a.as_str()) {
                        Some(v) => v,
                        None => 0,
                    };
                    let xb = match parse_i32(b.as_str()) {
                        Some(v) => v,
                        None => 0,
                    };
                    acc = (xa, xb, acc.2, acc.3);
                }
            },
            None => {
                match strip_prefix(l.as_str(), "Geometry:") {
                    Some(rest) => {
                        let parts = split_char(rest.as_str(), 'x');
                        if parts.len() == 2 {
                            let a = trim(parts[0].as_str());
                            let b = trim(parts[1].as_str());
                            let wa = match parse_i32(a.as_str()) {
                                Some(v) => v,
                                None => 0,
                            };
                            let wb = match parse_i32(b.as_str()) {
                                Some(v) => v,
                                None => 0,
                            };
                            acc = (acc.0, acc.1, wa, wb);
                        }
                    },
                    None => {},
                }
            },
        }
        i = i + 1;
    }
    assert(lines_of(report@).take(ls@.len() as int) =~= lines_of(report@));
    acc
}


/// The window ids in the window tool's search report: each line trimmed, blank
/// lines left out.
pub open spec fn ids_of(lines: Seq<Seq<char>>) -> Seq<Seq<char>>
    decreases lines.len(),
{
    if lines.len() == 0 {
        Seq::empty()
    } else {
        let prev = ids_of(lines.drop_last());
        let id = trimmed(lines.last());
        if id.len() == 0 {
            prev
        } else {
            prev.push(id)
        }
    }
}

/// The window ids listed in the window tool's search report.
pub fn window_ids(report: &str) -> (r: Vec<String>)
    ensures
        views(r@) == ids_of(lines_of(report@)),
{
    let ls = lines(report);
    let mut out: Vec<String> = Vec::new();
    let mut i: usize = 0;
    assert(lines_of(report@).take(0) =~= Seq::<Seq<char>>::empty());
    assert(views(out@) =~= Seq::<Seq<char>>::empty());
    while i < ls.len()
        invariant
            views(ls@) == lines_of(report@),
            i <= ls@.len(),
            views(out@) == ids_of(lines_of(report@).take(i as int)),
        decreases ls@.len() - i,
    {
        let ghost prefix = lines_of(report@).take(i + 1);
        assert(prefix.drop_last() =~= lines_of(report@).take(i as int));
        assert(prefix.last() == ls@[i as int]@);
        let id = trim(ls[i].as_str());
        if id.as_str().unicode_len() > 0 {
            let ghost before = out@;
            out.push(id);
            assert(views(out@) =~= views(before).push(id@));
        }
        i = i + 1;
    }
    assert(lines_of(report@).take(ls@.len() as int) =~= lines_of(report@));
    out
}

/// The id of the active window, from the window tool's report of it.
pub fn active_window_id(report: &str) -> (r: String)
    ensures
        r@ == trimmed(report@),
{
    trim(report)
}

/// The window `id` with the title and geometry that the window tool reported.
pub fn window_from_reports(id: &str, title_report: &str, geometry_report: &str) -> (r: Window)
    ensures
        r.id@ == id@,
        r.title@ == trimmed(title_report@),
        (r.x, r.y, r.width, r.height) == geometry_fold(lines_of(geometry_report@)),
{
    let title = trim(title_report);
    let g = parse_geometry(geometry_report);
    Window { id: id.to_owned(), title, x: g.0, y: g.1, width: g.2, height: g.3 }
}

/// The lower-case form of a string, as `str::to_lowercase` computes it from the
/// Unicode `Lowercase` mapping.
pub uninterp spec fn lowercase(s: Seq<char>) -> Seq<char>;

/// Calls `str::to_lowercase`; its result is taken to depend on the string alone and
/// is named `lowercase`. Nothing more is stated of it.
#[verifier::external_body]
fn to_lowercase(s: &str) -> (r: String)
    ensures
        r@ == lowercase(s@),
{
    s.to_lowercase()
}

/// What a reported window is to the deck.
#[derive(Clone, Copy, Debug, PartialEq, Eq, Structural)]
pub enum EntryKind {
    /// The desktop background of a monitor (at least 800 by 600).
    Monitor,
    /// A desktop background too small to be a monitor.
    Ignored,
    /// A panel, which takes space from a monitor.
    Panel,
    /// An ordinary window.
    Regular,
}

/// Whether a title marks the desktop background: empty, or "desktop — plasma"
/// or "plasma" in lower case.
pub open spec fn is_desktop_title(title: Seq<char>, lower: Seq<char>) -> bool {
    title.len() == 0 || lower == "desktop — plasma"@ || lower == "plasma"@
}

/// The kind of a window with the given title, lower-case title and size.
pub open spec fn kind_of(title: Seq<char>, lower: Seq<char>, width: i32, height: i32) -> EntryKind {
    if is_desktop_title(title, lower) {
        if width >= 800 && height >= 600 {
            EntryKind::Monitor
        } else {
            EntryKind::Ignored
        }
    } else if contains_seq(title, "Panel"@) || height < 120 {
        EntryKind::Panel
    } else {
        EntryKind::Regular
    }
}

/// The kind of `w`, given the lower-case form of its title.
pub fn classify_with_lower(w: &Window, lower: &str) -> (r: EntryKind)
    ensures
        r == kind_of(w.title@, lower@, w.width, w.height),
{
    let title = w.title.as_str();
    if title.unicode_len() == 0 || str_eq(lower, "desktop — plasma") || str_eq(lower, "plasma") {
        if w.width >= 800 && w.height >= 600 {
            EntryKind::Monitor
        } else {
            EntryKind::Ignored
        }
    } else if contains(title, "Panel") || w.height < 120 {
        EntryKind::Panel
    } else {
        EntryKind::Regular
    }
}

/// The kind of `w`.
pub fn classify(w: &Window) -> (r: EntryKind)
    ensures
        r == kind_of(w.title@, lowercase(w.title@), w.width, w.height),
{
    let lower = to_lowercase(w.title.as_str());
    classify_with_lower(w, lower.as_str())
}


/// A monitor: its full area and the usable area that panels leave.
#[derive(Clone, Copy, Debug, PartialEq, Eq, Structural)]
pub struct Monitor {
    pub x: i32,
    pub y: i32,
    pub width: i32,
    pub height: i32,
    pub ux: i32,
    pub uy: i32,
    pub uw: i32,
    pub uh: i32,
}

/// Whether `v` is in the range of `i32`.
pub open spec fn fits(v: int) -> bool {
    i32::MIN <= v <= i32::MAX
}

/// The monitor that a desktop background window stands for, with all of it usable.
pub open spec fn monitor_of(w: Window) -> Monitor {
    Monitor {
        x: w.x,
        y: w.y,
        width: w.width,
        height: w.height,
        ux: w.x,
        uy: w.y,
        uw: w.width,
        uh: w.height,
    }
}

/// What one panel does to a monitor's usable area. Only a panel whose left edge lies
/// within the monitor's horizontal span counts. If its top is at most 10 below the
/// monitor's top, the usable top moves down to the panel's bottom (never up) and the
/// usable height is what remains down to the monitor's bottom; otherwise, if its
/// bottom reaches within 10 of the monitor's bottom, the usable height is cut to end
/// at the panel's top. `None` where an `i32` operation of the step overflows.
pub open spec fn panel_step(m: Monitor, p: Window) -> Option<Monitor> {
    if p.x < m.x {
        Some(m)
    } else if !fits(m.x + m.width) {
        None
    } else if p.x >= m.x + m.width {
        Some(m)
    } else if !fits(m.y + 10) {
        None
    } else if p.y <= m.y + 10 {
        let top = p.y + p.height;
        let uy = if m.uy >= top {
            m.uy as int
        } else {
            top
        };
        if !fits(top) || !fits(uy - m.y) || !fits(m.height - (uy - m.y)) {
            None
        } else {
            Some(Monitor { uy: uy as i32, uh: (m.height - (uy - m.y)) as i32, ..m })
        }
    } else if !fits(p.y + p.height) || !fits(m.y + m.height) || !fits(m.y + m.height - 10) {
        None
    } else if p.y + p.height >= m.y + m.height - 10 {
        let v = p.y - m.uy;
        if !fits(v) {
            None
        } else {
            Some(Monitor { uh: (if m.uh <= v { m.uh as int } else { v }) as i32, ..m })
        }
    } else {
        Some(m)
    }
}

/// The monitor after the given panels, in order; `None` where an `i32` operation
/// overflows on the way.
pub open spec fn panels_fold(m: Monitor, panels: Seq<Window>) -> Option<Monitor>
    decreases panels.len(),
{
    if panels.len() == 0 {
        Some(m)
    } else {
        match panels_fold(m, panels.drop_last()) {
            Some(m2) => panel_step(m2, panels.last()),
            None => None,
        }
    }
}

/// One panel step, computed without overflow.
fn panel_step_exec(m: Monitor, p: &Window) -> (r: Option<Monitor>)
    ensures
        r == panel_step(m, *p),
{
    let lo: i64 = -2147483648;
    let hi: i64 = 2147483647;
    let (mx, my, mw, mh, muy, muh) = (
        m.x as i64,
        m.y as i64,
        m.width as i64,
        m.height as i64,
        m.uy as i64,
        m.uh as i64,
    );
    let (px, py, ph) = (p.x as i64, p.y as i64, p.height as i64);
    if px < mx {
        return Some(m);
    }
    let right = mx + mw;
    if right < lo || right > hi {
        return None;
    }
    if px >= right {
        return Some(m);
    }
    let near_top = my + 10;
    if near_top > hi {
        return None;
    }
    if py <= near_top {
        let top = py + ph;
        let uy = if muy >= top {
            muy
        } else {
            top
        };
        let d = uy - my;
        let uh = mh - d;
        if top < lo || top > hi || d < lo || d > hi || uh < lo || uh > hi {
            return None;
        }
        return Some(Monitor { uy: uy as i32, uh: uh as i32, ..m });
    }
    let bottom = py + ph;
    let mb = my + mh;
    let mb10 = mb - 10;
    if bottom < lo || bottom > hi || mb < lo || mb > hi || mb10 < lo {
        return None;
    }
    if bottom >= mb10 {
        let v = py - muy;
        if v < lo || v > hi {
            return None;
        }
        let uh = if muh <= v {
            muh
        } else {
            v
        };
        return Some(Monitor { uh: uh as i32, ..m });
    }
    Some(m)
}

/// The panels fold, computed.
fn panels_fold_exec(raw: &Window, panels: &Vec<Window>) -> (r: Option<Monitor>)
    ensures
        r == panels_fold(monitor_of(*raw), panels@),
{
    let mut m = Monitor {
        x: raw.x,
        y: raw.y,
        width: raw.width,
        height: raw.height,
        ux: raw.x,
        uy: raw.y,
        uw: raw.width,
        uh: raw.height,
    };
    let mut i: usize = 0;
    assert(panels@.take(0) =~= Seq::<Window>::empty());
    while i < panels.len()
        invariant
            i <= panels@.len(),
            panels_fold(monitor_of(*raw), panels@.take(i as int)) == Some(m),
        decreases panels@.len() - i,
    {
        assert(panels@.take(i + 1).drop_last() =~= panels@.take(i as int));
        match panel_step_exec(m, &panels[i]) {
            Some(m2) => {
                m = m2;
            },
            None => {
                proof {
                    lemma_fold_none_extends(monitor_of(*raw), panels@, i + 1);
                    assert(panels@.take(panels@.len() as int) =~= panels@);
                }
                return None;
            },
        }
        i = i + 1;
    }
    assert(panels@.take(panels@.len() as int) =~= panels@);
    Some(m)
}

proof fn lemma_fold_none_extends(m: Monitor, panels: Seq<Window>, k: int)
    requires
        0 <= k <= panels.len(),
        panels_fold(m, panels.take(k)) is None,
    ensures
        panels_fold(m, panels) is None,
    decreases panels.len() - k,
{
    if k < panels.len() {
        assert(panels.take(k + 1).drop_last() =~= panels.take(k));
        lemma_fold_none_extends(m, panels, k + 1);
    } else {
        assert(panels.take(k) =~= panels);
    }
}

/// The shape facts that every panel step keeps.
pub open spec fn usable_within(m: Monitor, raw: Window) -> bool {
    &&& m.x == raw.x && m.y == raw.y && m.width == raw.width && m.height == raw.height
    &&& m.ux == m.x && m.uw == m.width
    &&& m.uy >= m.y
    &&& m.uh <= m.height
    &&& m.uy + m.uh <= m.y + m.height
}

/// Every panel step keeps the monitor's area and keeps its usable area within it.
pub proof fn lemma_fold_keeps_shape(raw: Window, panels: Seq<Window>)
    requires
        panels_fold(monitor_of(raw), panels) is Some,
    ensures
        usable_within(panels_fold(monitor_of(raw), panels).unwrap(), raw),
    decreases panels.len(),
{
    if panels.len() > 0 {
        lemma_fold_keeps_shape(raw, panels.drop_last());
    }
}

/// Whether the panels can be applied to the monitor that `raw` stands for without
/// an `i32` overflow (where the deck's arithmetic would overflow, it panics).
pub fn panels_fit(raw: &Window, panels: &Vec<Window>) -> (r: bool)
    ensures
        r == panels_fold(monitor_of(*raw), panels@) is Some,
{
    panels_fold_exec(raw, panels).is_some()
}

/// The monitor that the desktop background `raw` stands for, with the usable area
/// that the panels leave it. Its position and size are those of `raw`; the usable
/// area spans the full width and lies within the monitor's height.
pub fn usable_monitor(raw: &Window, panels: &Vec<Window>) -> (r: Monitor)
    requires
        panels_fold(monitor_of(*raw), panels@) is Some,
    ensures
        r == panels_fold(monitor_of(*raw), panels@).unwrap(),
        usable_within(r, *raw),
{
    proof {
        lemma_fold_keeps_shape(*raw, panels@);
    }
    panels_fold_exec(raw, panels).unwrap()
}


/// The entries of the given kind, in their order.
pub open spec fn select(entries: Seq<Window>, kinds: Seq<EntryKind>, k: EntryKind) -> Seq<Window>
    decreases entries.len(),
{
    if entries.len() == 0 {
        Seq::empty()
    } else {
        let prev = select(entries.drop_last(), kinds.take(entries.len() - 1), k);
        if kinds[entries.len() - 1] == k {
            prev.push(entries.last())
        } else {
            prev
        }
    }
}

/// The area of a window.
pub open spec fn area(w: Window) -> int {
    w.width as int * w.height as int
}

/// The areas of the windows, the key by which the deck lists them (largest first).
pub open spec fn area_keys(ws: Seq<Window>) -> Seq<i64> {
    Seq::new(ws.len(), |i: int| area(ws[i]) as i64)
}

/// The negated left edges of the windows: ordering by this key, largest first,
/// orders them from left to right.
pub open spec fn left_keys(ws: Seq<Window>) -> Seq<i64> {
    Seq::new(ws.len(), |i: int| -(ws[i].x as int) as i64)
}

/// `out` is `items` in the order `order`.
pub open spec fn is_reordering<T>(items: Seq<T>, order: Seq<usize>, out: Seq<T>) -> bool {
    &&& out.len() == order.len()
    &&& forall|k: int| 0 <= k < out.len() ==> #[trigger] out[k] == items[order[k] as int]
}

/// The deck's view of the desktop: its windows, largest first, and its monitors,
/// from left to right.
pub struct Desktop {
    pub windows: Vec<Window>,
    pub monitors: Vec<Monitor>,
}

/// Whether the deck's arithmetic on these entries stays within `i32`: the areas of
/// the windows it sorts (it computes them only when there are at least two), and
/// the panel steps on each monitor.
pub open spec fn assembly_fits(entries: Seq<Window>, kinds: Seq<EntryKind>) -> bool {
    let regular = select(entries, kinds, EntryKind::Regular);
    let raws = select(entries, kinds, EntryKind::Monitor);
    let panels = select(entries, kinds, EntryKind::Panel);
    &&& regular.len() >= 2 ==> forall|i: int| 0 <= i < regular.len() ==> fits(#[trigger] area(regular[i]))
    &&& forall|i: int| 0 <= i < raws.len() ==> #[trigger] panels_fold(monitor_of(raws[i]), panels) is Some
}

/// The monitors that the desktop backgrounds stand for, after all panels.
pub open spec fn usable_monitors(raws: Seq<Window>, panels: Seq<Window>) -> Seq<Monitor> {
    raws.map_values(|w: Window| panels_fold(monitor_of(w), panels).unwrap())
}

/// `d` is the desktop built from `entries` of the given kinds: the ordinary windows
/// stably sorted by descending area, and one monitor per desktop background,
/// stably sorted by left edge, each with the usable area that all panels (in
/// report order) leave it.
pub open spec fn is_desktop_of(entries: Seq<Window>, kinds: Seq<EntryKind>, d: Desktop) -> bool {
    let regular = select(entries, kinds, EntryKind::Regular);
    let raws = select(entries, kinds, EntryKind::Monitor);
    let panels = select(entries, kinds, EntryKind::Panel);
    &&& exists|order: Seq<usize>|
        is_stable_desc_order(area_keys(regular), order) && #[trigger] is_reordering(regular, order, d.windows@)
    &&& exists|order: Seq<usize>|
        is_stable_desc_order(left_keys(raws), order) && #[trigger] is_reordering(
            usable_monitors(raws, panels),
            order,
            d.monitors@,
        )
}

/// The entries of kind `k`, copied in order.
fn select_exec(entries: &Vec<Window>, kinds: &Vec<EntryKind>, k: EntryKind) -> (r: Vec<Window>)
    requires
        entries@.len() == kinds@.len(),
    ensures
        r@ == select(entries@, kinds@, k),
{
    let mut out: Vec<Window> = Vec::new();
    let mut i: usize = 0;
    assert(entries@.take(0) =~= Seq::<Window>::empty());
    while i < entries.len()
        invariant
            entries@.len() == kinds@.len(),
            i <= entries@.len(),
            out@ == select(entries@.take(i as int), kinds@.take(i as int), k),
        decreases entries@.len() - i,
    {
        proof {
            let e = entries@.take(i + 1);
            assert(e.drop_last() =~= entries@.take(i as int));
            assert(kinds@.take(i + 1).take(i as int) =~= kinds@.take(i as int));
        }
        if kinds[i] == k {
            out.push(entries[i].duplicate());
        }
        i = i + 1;
    }
    assert(entries@.take(entries@.len() as int) =~= entries@);
    assert(kinds@.take(kinds@.len() as int) =~= kinds@);
    out
}

/// The windows `items` in the order `order`.
fn reorder_windows(items: &Vec<Window>, order: &Vec<usize>) -> (r: Vec<Window>)
    requires
        forall|k: int| 0 <= k < order@.len() ==> #[trigger] order@[k] < items@.len(),
    ensures
        is_reordering(items@, order@, r@),
{
    let mut out: Vec<Window> = Vec::new();
    let mut k: usize = 0;
    while k < order.len()
        invariant
            k <= order@.len(),
            forall|j: int| 0 <= j < order@.len() ==> #[trigger] order@[j] < items@.len(),
            out@.len() == k,
            forall|j: int| 0 <= j < k ==> #[trigger] out@[j] == items@[order@[j] as int],
        decreases order@.len() - k,
    {
        out.push(items[order[k]].duplicate());
        k = k + 1;
    }
    out
}

/// The deck's view of the desktop, built from the reported windows and their kinds.
pub fn assemble_from_kinds(entries: &Vec<Window>, kinds: &Vec<EntryKind>) -> (d: Desktop)
    requires
        entries@.len() == kinds@.len(),
        assembly_fits(entries@, kinds@),
    ensures
        is_desktop_of(entries@, kinds@, d),
{
    let regular = select_exec(entries, kinds, EntryKind::Regular);
    let raws = select_exec(entries, kinds, EntryKind::Monitor);
    let panels = select_exec(entries, kinds, EntryKind::Panel);

    let mut area_key: Vec<i64> = Vec::new();
    let mut i: usize = 0;
    while i < regular.len()
        invariant
            i <= regular@.len(),
            area_key@.len() == i,
            forall|j: int| 0 <= j < i ==> #[trigger] area_key@[j] == area(regular@[j]) as i64,
        decreases regular@.len() - i,
    {
        let w = &regular[i];
        assert(-2147483648 * 2147483648 <= w.width as int * w.height as int <= 2147483648 * 2147483648)
            by (nonlinear_arith)
            requires
                -2147483648 <= w.width <= 2147483647,
                -2147483648 <= w.height <= 2147483647,
        ;
        area_key.push((w.width as i64) * (w.height as i64));
        i = i + 1;
    }
    assert(area_key@ =~= area_keys(regular@));
    let window_order = stable_desc_order(&area_key);
    let windows = reorder_windows(&regular, &window_order);

    let mut left_key: Vec<i64> = Vec::new();
    let mut i: usize = 0;
    while i < raws.len()
        invariant
            i <= raws@.len(),
            left_key@.len() == i,
            forall|j: int| 0 <= j < i ==> #[trigger] left_key@[j] == -(raws@[j].x as int) as i64,
        decreases raws@.len() - i,
    {
        left_key.push(-(raws[i].x as i64));
        i = i + 1;
    }
    assert(left_key@ =~= left_keys(raws@));
    let monitor_order = stable_desc_order(&left_key);
    let sorted_raws = reorder_windows(&raws, &monitor_order);

    let mut monitors: Vec<Monitor> = Vec::new();
    let mut k: usize = 0;
    while k < sorted_raws.len()
        invariant
            k <= sorted_raws@.len(),
            raws@ == select(entries@, kinds@, EntryKind::Monitor),
            panels@ == select(entries@, kinds@, EntryKind::Panel),
            assembly_fits(entries@, kinds@),
            is_stable_desc_order(left_keys(raws@), monitor_order@),
            is_reordering(raws@, monitor_order@, sorted_raws@),
            monitors@.len() == k,
            forall|j: int|
                0 <= j < k ==> #[trigger] monitors@[j] == usable_monitors(raws@, panels@)[monitor_order@[j] as int],
        decreases sorted_raws@.len() - k,
    {
        let ghost src = monitor_order@[k as int] as int;
        assert(sorted_raws@[k as int] == raws@[src]);
        assert(0 <= src < raws@.len());
        assert(panels_fold(monitor_of(raws@[src]), panels@) is Some);
        monitors.push(usable_monitor(&sorted_raws[k], &panels));
        k = k + 1;
    }
    let d = Desktop { windows, monitors };
    assert(is_reordering(regular@, window_order@, d.windows@));
    assert(is_reordering(usable_monitors(raws@, panels@), monitor_order@, d.monitors@));
    d
}


/// The kinds of the reported windows.
pub open spec fn kinds_of(entries: Seq<Window>) -> Seq<EntryKind> {
    Seq::new(
        entries.len(),
        |i: int| kind_of(entries[i].title@, lowercase(entries[i].title@), entries[i].width, entries[i].height),
    )
}

/// Whether `assembly_fits` holds, computed.
fn assembly_fits_exec(entries: &Vec<Window>, kinds: &Vec<EntryKind>) -> (r: bool)
    requires
        entries@.len() == kinds@.len(),
    ensures
        r == assembly_fits(entries@, kinds@),
{
    let regular = select_exec(entries, kinds, EntryKind::Regular);
    let raws = select_exec(entries, kinds, EntryKind::Monitor);
    let panels = select_exec(entries, kinds, EntryKind::Panel);
    if regular.len() >= 2 {
        let mut i: usize = 0;
        while i < regular.len()
            invariant
                i <= regular@.len(),
                regular@.len() >= 2,
                regular@ == select(entries@, kinds@, EntryKind::Regular),
                forall|j: int| 0 <= j < i ==> fits(#[trigger] area(regular@[j])),
            decreases regular@.len() - i,
        {
            let w = &regular[i];
            assert(-2147483648 * 2147483648 <= w.width as int * w.height as int <= 2147483648 * 2147483648)
                by (nonlinear_arith)
                requires
                    -2147483648 <= w.width <= 2147483647,
                    -2147483648 <= w.height <= 2147483647,
            ;
            let a = (w.width as i64) * (w.height as i64);
            if a < -2147483648 || a > 2147483647 {
                assert(!fits(area(regular@[i as int])));
                return false;
            }
            i = i + 1;
        }
    }
    let mut i: usize = 0;
    while i < raws.len()
        invariant
            i <= raws@.len(),
            raws@ == select(entries@, kinds@, EntryKind::Monitor),
            panels@ == select(entries@, kinds@, EntryKind::Panel),
            forall|j: int| 0 <= j < i ==> #[trigger] panels_fold(monitor_of(raws@[j]), panels@) is Some,
        decreases raws@.len() - i,
    {
        if !panels_fit(&raws[i], &panels) {
            return false;
        }
        i = i + 1;
    }
    true
}

/// The deck's view of the desktop, built from the reported windows in report
/// order. `None` where building it would overflow `i32` (see `assembly_fits`).
pub fn assemble_desktop(entries: &Vec<Window>) -> (r: Option<Desktop>)
    ensures
        r is Some <==> assembly_fits(entries@, kinds_of(entries@)),
        r matches Some(d) ==> is_desktop_of(entries@, kinds_of(entries@), d),
{
    let mut kinds: Vec<EntryKind> = Vec::new();
    let mut i: usize = 0;
    while i < entries.len()
        invariant
            i <= entries@.len(),
            kinds@.len() == i,
            forall|j: int| 0 <= j < i ==> #[trigger] kinds@[j] == kinds_of(entries@)[j],
        decreases entries@.len() - i,
    {
        kinds.push(classify(&entries[i]));
        i = i + 1;
    }
    assert(kinds@ =~= kinds_of(entries@));
    if assembly_fits_exec(entries, &kinds) {
        Some(assemble_from_kinds(entries, &kinds))
    } else {
        None
    }
}


/// Moves the first window with id `id` to `(x, y)`; the others, and every other
/// field, stay as they were. Nothing changes if no window has that id.
pub fn set_window_position(ws: &mut Vec<Window>, id: &str, x: i32, y: i32)
    ensures
        final(ws)@.len() == old(ws)@.len(),
        forall|k: int|
            0 <= k < old(ws)@.len() ==> #[trigger] final(ws)@[k] == (if old(ws)@[k].id@ == id@ && forall|j: int|
                0 <= j < k ==> (#[trigger] old(ws)@[j]).id@ != id@ {
                Window { x, y, ..old(ws)@[k] }
            } else {
                old(ws)@[k]
            }),
{
    let mut i: usize = 0;
    while i < ws.len()
        invariant
            i <= ws@.len(),
            ws@ == old(ws)@,
            forall|j: int| 0 <= j < i ==> (#[trigger] ws@[j]).id@ != id@,
        decreases ws@.len() - i,
    {
        if crate::text::str_eq(ws[i].id.as_str(), id) {
            ws[i].x = x;
            ws[i].y = y;
            return;
        }
        i = i + 1;
    }
}

} // verus!
