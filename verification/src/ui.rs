//! The deck's interaction state and how mouse events and time change it. The
//! caller runs the event loop, reads the clock (nanoseconds on a monotonic clock)
//! and carries out what each transition asks for.

use vstd::prelude::*;
use crate::actions::Action;
use crate::screen::{
    first_at, first_fits, first_fits_exec, first_hit, last_hit, topmost_at, topmost_fits, topmost_fits_exec, Rect,
};
use crate::text::str_eq;

verus! {

/// The number of pages of buttons.
pub const TOTAL_PAGES: i32 = 2;

/// How long the desktop view may go unrefreshed while idle, in nanoseconds.
pub const REFRESH_INTERVAL_NS: u64 = 500_000_000;

/// How soon a second press on the same window counts as a double click, in
/// nanoseconds.
pub const DOUBLE_CLICK_NS: u64 = 750_000_000;

/// How often a dragged window is moved on the desktop, in nanoseconds.
pub const DRAG_COMMAND_INTERVAL_NS: u64 = 32_000_000;

/// The time from `then` to `now`, zero if `now` is earlier.
pub open spec fn elapsed(now: u64, then: u64) -> int {
    if now >= then {
        now - then
    } else {
        0
    }
}

/// `a - b`, or 0 if `b` is larger.
pub open spec fn sat_sub(a: u16, b: u16) -> u16 {
    if a >= b {
        (a - b) as u16
    } else {
        0
    }
}

/// A window being dragged: its id and where in its box it was grabbed.
pub struct Drag {
    pub window_id: String,
    pub offset_x: u16,
    pub offset_y: u16,
}

/// The interaction state.
pub struct UiState {
    /// The page of buttons shown.
    pub current_page: i32,
    /// The page being slid to.
    pub target_page: i32,
    /// Whether a page slide is running.
    pub animating: bool,
    /// When the page slide started.
    pub anim_start: u64,
    /// The window being dragged, if any.
    pub drag: Option<Drag>,
    /// The window pressed last, while a double click on it is still possible.
    pub last_clicked: Option<String>,
    /// When a window was pressed last.
    pub last_click_at: u64,
    /// When the desktop view was last refreshed.
    pub last_refresh: u64,
    /// When a dragged window was last moved on the desktop.
    pub last_drag_command: u64,
}

/// How a window box is drawn.
#[derive(Clone, Copy, Debug, PartialEq, Eq, Structural)]
pub enum Highlight {
    /// The window being dragged.
    Dragged,
    /// The active window.
    Active,
    /// Any other window.
    Plain,
}

/// The interaction state with its strings as character sequences.
pub struct UiView {
    pub current_page: i32,
    pub target_page: i32,
    pub animating: bool,
    pub anim_start: u64,
    pub drag: Option<(Seq<char>, u16, u16)>,
    pub last_clicked: Option<Seq<char>>,
    pub last_click_at: u64,
    pub last_refresh: u64,
    pub last_drag_command: u64,
}

impl View for UiState {
    type V = UiView;

    open spec fn view(&self) -> UiView {
        UiView {
            current_page: self.current_page,
            target_page: self.target_page,
            animating: self.animating,
            anim_start: self.anim_start,
            drag: match self.drag {
                Some(d) => Some((d.window_id@, d.offset_x, d.offset_y)),
                None => None,
            },
            last_clicked: match self.last_clicked {
                Some(s) => Some(s@),
                None => None,
            },
            last_click_at: self.last_click_at,
            last_refresh: self.last_refresh,
            last_drag_command: self.last_drag_command,
        }
    }
}

/// What a press of the left button asks the caller to do.
pub enum Press {
    /// Nothing: a page slide is running.
    Ignored,
    /// Maximize this window (a double click on it).
    Maximize(String),
    /// Focus this window and refresh the desktop view (it is now being dragged).
    Activate(String),
    /// Carry out this button's action, then refresh the desktop view.
    Button(Action),
    /// Nothing, not even a refresh: an arranging button with no monitor known.
    Halted,
    /// Nothing: the press hit no window and no button.
    Missed,
}

/// A press outcome with its strings as character sequences.
pub enum PressView {
    Ignored,
    Maximize(Seq<char>),
    Activate(Seq<char>),
    Button(Action),
    Halted,
    Missed,
}

/// The view of a press outcome.
pub open spec fn press_view(p: Press) -> PressView {
    match p {
        Press::Ignored => PressView::Ignored,
        Press::Maximize(s) => PressView::Maximize(s@),
        Press::Activate(s) => PressView::Activate(s@),
        Press::Button(a) => PressView::Button(a),
        Press::Halted => PressView::Halted,
        Press::Missed => PressView::Missed,
    }
}

/// The state and outcome of a left-button press at `(x, y)` at time `now`, given
/// the window boxes and buttons as last drawn and the number of monitors. During a
/// page slide the press is ignored. Else the topmost window box under the press
/// wins: a second press on the same window within the double-click time maximizes
/// it (and forgets the first press); otherwise the window is focused, remembered,
/// and grabbed for dragging at the pressed offset in its box. Else the first button
/// under the press acts: the page buttons start a slide to the neighbouring page
/// when there is one, the arranging buttons need a monitor, and every button leads
/// to a refresh except an arranging button without a monitor.
pub open spec fn press_spec(
    s: UiView,
    wins: Seq<(Rect, String)>,
    buttons: Seq<(Rect, Action)>,
    monitors: nat,
    x: u16,
    y: u16,
    now: u64,
) -> (UiView, PressView) {
    if s.animating {
        (s, PressView::Ignored)
    } else {
        match last_hit(wins, x as int, y as int) {
            Some(i) => {
                let id = wins[i].1@;
                let r = wins[i].0;
                if s.last_clicked == Some(id) && elapsed(now, s.last_click_at) < DOUBLE_CLICK_NS {
                    (UiView { last_clicked: None, ..s }, PressView::Maximize(id))
                } else {
                    (
                        UiView {
                            last_clicked: Some(id),
                            last_click_at: now,
                            drag: Some((id, sat_sub(x, r.x), sat_sub(y, r.y))),
                            ..s
                        },
                        PressView::Activate(id),
                    )
                }
            },
            None => match first_hit(buttons, x as int, y as int) {
                None => (s, PressView::Missed),
                Some(b) => {
                    let a = buttons[b].1;
                    match a {
                        Action::PrevPage => (
                            if s.current_page > 0 {
                                UiView {
                                    target_page: (s.current_page - 1) as i32,
                                    animating: true,
                                    anim_start: now,
                                    ..s
                                }
                            } else {
                                s
                            },
                            PressView::Button(a),
                        ),
                        Action::NextPage => (
                            if s.current_page < TOTAL_PAGES - 1 {
                                UiView {
                                    target_page: (s.current_page + 1) as i32,
                                    animating: true,
                                    anim_start: now,
                                    ..s
                                }
                            } else {
                                s
                            },
                            PressView::Button(a),
                        ),
                        Action::AutoTile | Action::ChaosTile => (
                            s,
                            if monitors == 0 {
                                PressView::Halted
                            } else {
                                PressView::Button(a)
                            },
                        ),
                        _ => (s, PressView::Button(a)),
                    }
                },
            },
        }
    }
}

/// The direction of the page slide: 1 towards a later page, -1 towards an earlier
/// one, 0 when the target page is shown.
pub open spec fn slide_sign(s: UiView) -> int {
    if s.target_page > s.current_page {
        1
    } else if s.target_page < s.current_page {
        -1
    } else {
        0
    }
}

/// The state once a page slide has run its course.
pub open spec fn settled(s: UiView) -> UiView {
    UiView { animating: false, current_page: s.target_page, ..s }
}

/// The pages stay within the page range.
pub open spec fn pages_valid(s: UiView) -> bool {
    0 <= s.current_page < TOTAL_PAGES && 0 <= s.target_page < TOTAL_PAGES
}

impl UiState {
    /// The state at start-up, at time `now`: first page, nothing pressed or dragged.
    pub fn new(now: u64) -> (s: UiState)
        ensures
            s@ == (UiView {
                current_page: 0,
                target_page: 0,
                animating: false,
                anim_start: now,
                drag: None,
                last_clicked: None,
                last_click_at: now,
                last_refresh: now,
                last_drag_command: now,
            }),
    {
        UiState {
            current_page: 0,
            target_page: 0,
            animating: false,
            anim_start: now,
            drag: None,
            last_clicked: None,
            last_click_at: now,
            last_refresh: now,
            last_drag_command: now,
        }
    }

    /// Handles a left-button press at `(x, y)` at time `now`.
    pub fn press(
        &mut self,
        windows: &Vec<(Rect, String)>,
        buttons: &Vec<(Rect, Action)>,
        monitors: usize,
        x: u16,
        y: u16,
        now: u64,
    ) -> (r: Press)
        requires
            topmost_fits(windows@, x as int, y as int),
            last_hit(windows@, x as int, y as int) is None ==> first_fits(buttons@, x as int, y as int),
        ensures
            (final(self)@, press_view(r)) == press_spec(old(self)@, windows@, buttons@, monitors as nat, x, y, now),
            pages_valid(old(self)@) ==> pages_valid(final(self)@),
    {
        if self.animating {
            return Press::Ignored;
        }
        match topmost_at(windows, x, y) {
            Some(i) => {
                let rect = windows[i].0;
                let id = &windows[i].1;
                let repeat = match &self.last_clicked {
                    Some(l) => str_eq(l.as_str(), id.as_str()) && (now < self.last_click_at || now
                        - self.last_click_at < DOUBLE_CLICK_NS),
                    None => false,
                };
                if repeat {
                    self.last_clicked = None;
                    Press::Maximize(id.clone())
                } else {
                    self.last_clicked = Some(id.clone());
                    self.last_click_at = now;
                    self.drag = Some(
                        Drag {
                            window_id: id.clone(),
                            offset_x: x.saturating_sub(rect.x),
                            offset_y: y.saturating_sub(rect.y),
                        },
                    );
                    Press::Activate(id.clone())
                }
            },
            None => match first_at(buttons, x, y) {
                None => Press::Missed,
                Some(b) => {
                    let a = buttons[b].1;
                    match a {
                        Action::PrevPage => {
                            if self.current_page > 0 {
                                self.target_page = self.current_page - 1;
                                self.animating = true;
                                self.anim_start = now;
                            }
                            Press::Button(a)
                        },
                        Action::NextPage => {
                            if self.current_page < TOTAL_PAGES - 1 {
                                self.target_page = self.current_page + 1;
                                self.animating = true;
                                self.anim_start = now;
                            }
                            Press::Button(a)
                        },
                        Action::AutoTile | Action::ChaosTile => {
                            if monitors == 0 {
                                Press::Halted
                            } else {
                                Press::Button(a)
                            }
                        },
                        _ => Press::Button(a),
                    }
                },
            },
        }
    }

    /// Whether the desktop view is due for a refresh at time `now`: no page slide
    /// and no drag is running, and more than the refresh interval has passed.
    pub fn refresh_due(&self, now: u64) -> (r: bool)
        ensures
            r == (!self.animating && self.drag is None && elapsed(now, self.last_refresh)
                > REFRESH_INTERVAL_NS),
    {
        !self.animating && self.drag.is_none() && now >= self.last_refresh && now - self.last_refresh
            > REFRESH_INTERVAL_NS
    }

    /// Records that the desktop view was refreshed at time `now`.
    pub fn mark_refreshed(&mut self, now: u64)
        ensures
            final(self)@ == (UiView { last_refresh: now, ..old(self)@ }),
    {
        self.last_refresh = now;
    }

    /// Ends the page slide once it has run its course (`finished`): the target page
    /// becomes the current page.
    pub fn settle(&mut self, finished: bool)
        ensures
            final(self)@ == (if finished {
                settled(old(self)@)
            } else {
                old(self)@
            }),
            pages_valid(old(self)@) ==> pages_valid(final(self)@),
    {
        if finished {
            self.animating = false;
            self.current_page = self.target_page;
        }
    }

    /// The direction of the page slide: 1 towards a later page, -1 towards an
    /// earlier one, 0 when the target page is shown.
    pub fn slide_direction(&self) -> (r: i32)
        requires
            pages_valid(self@),
        ensures
            r == slide_sign(self@),
    {
        let d = self.target_page - self.current_page;
        if d > 0 {
            1
        } else if d < 0 {
            -1
        } else {
            0
        }
    }

    /// The pages to draw: the current page and, during a slide, the target page.
    pub fn pages_to_draw(&self) -> (r: Vec<i32>)
        ensures
            r@ == (if self.animating {
                seq![self.current_page, self.target_page]
            } else {
                seq![self.current_page]
            }),
    {
        if self.animating {
            vec![self.current_page, self.target_page]
        } else {
            vec![self.current_page]
        }
    }

    /// How far page `page` is shifted sideways in a carousel of width `width` while
    /// the slide has moved by `slide`: the current page moves out by `slide`, the
    /// target page comes in from one carousel width away.
    pub fn page_offset(&self, page: i32, width: u16, slide: i32) -> (r: i32)
        requires
            pages_valid(self@),
            page == self.current_page ==> slide > i32::MIN,
            page != self.current_page ==> crate::desktop::fits(
                width * slide_sign(self@) - slide,
            ),
        ensures
            r == (if page == self.current_page {
                -slide
            } else {
                width * slide_sign(self@) - slide
            }),
    {
        if page == self.current_page {
            -slide
        } else {
            let dir = self.slide_direction();
            let base: i32 = if dir > 0 {
                width as i32
            } else if dir < 0 {
                -(width as i32)
            } else {
                0
            };
            let ghost sg = slide_sign(self@);
            assert(base == width * sg) by (nonlinear_arith)
                requires
                    sg == dir,
                    dir == 1 || dir == -1 || dir == 0,
                    dir > 0 ==> base == width,
                    dir < 0 ==> base == -width,
                    dir == 0 ==> base == 0,
            ;
            base - slide
        }
    }

    /// Where the dragged window's box would start if the press at `(x, y)` moved
    /// it, relative to the desktop view `view`: the cell under the press, less the
    /// view's corner and the grab offset (each floored at 0). `None` when no window
    /// is dragged or the view has no area.
    pub fn drag_position(&self, view: Rect, x: u16, y: u16) -> (r: Option<(String, u16, u16)>)
        ensures
            match r {
                Some(t) => self.drag matches Some(d) && view.width > 0 && view.height > 0 && t.0@
                    == d.window_id@ && t.1 == sat_sub(sat_sub(x, view.x), d.offset_x) && t.2 == sat_sub(
                    sat_sub(y, view.y),
                    d.offset_y,
                ),
                None => self.drag is None || view.width == 0 || view.height == 0,
            },
    {
        match &self.drag {
            Some(d) => {
                if view.width > 0 && view.height > 0 {
                    let lx = x.saturating_sub(view.x).saturating_sub(d.offset_x);
                    let ly = y.saturating_sub(view.y).saturating_sub(d.offset_y);
                    Some((d.window_id.clone(), lx, ly))
                } else {
                    None
                }
            },
            None => None,
        }
    }

    /// Whether a dragged window is due to be moved on the desktop at time `now`
    /// (more than the drag interval since the last move); if so, records the move.
    pub fn drag_command_due(&mut self, now: u64) -> (r: bool)
        ensures
            r == (elapsed(now, old(self).last_drag_command) > DRAG_COMMAND_INTERVAL_NS),
            final(self)@ == (if r {
                UiView { last_drag_command: now, ..old(self)@ }
            } else {
                old(self)@
            }),
    {
        if now >= self.last_drag_command && now - self.last_drag_command > DRAG_COMMAND_INTERVAL_NS {
            self.last_drag_command = now;
            true
        } else {
            false
        }
    }

    /// Handles a release of the left button: a drag ends, and then the desktop
    /// view is to be refreshed (`true`).
    pub fn release(&mut self) -> (r: bool)
        ensures
            r == old(self).drag is Some,
            final(self)@ == (UiView { drag: None, ..old(self)@ }),
    {
        if self.drag.is_some() {
            self.drag = None;
            true
        } else {
            false
        }
    }

    /// How the box of window `id` is drawn when `active` is the active window: a
    /// dragged window stands out first, then the active one.
    pub fn highlight(&self, id: &str, active: &str) -> (r: Highlight)
        ensures
            r == (if (self.drag matches Some(d) && d.window_id@ == id@) {
                Highlight::Dragged
            } else if id@ == active@ {
                Highlight::Active
            } else {
                Highlight::Plain
            }),
    {
        let dragged = match &self.drag {
            Some(d) => str_eq(d.window_id.as_str(), id),
            None => false,
        };
        if dragged {
            Highlight::Dragged
        } else if str_eq(id, active) {
            Highlight::Active
        } else {
            Highlight::Plain
        }
    }
}

/// Whether hit-testing a press at `(x, y)` stays within `u16`, as `UiState::press`
/// requires: the window boxes from the top down to the first hit, and, if no box
/// is hit, the buttons up to the first hit.
pub fn press_fits(windows: &Vec<(Rect, String)>, buttons: &Vec<(Rect, Action)>, x: u16, y: u16) -> (r: bool)
    ensures
        r == (topmost_fits(windows@, x as int, y as int) && (last_hit(windows@, x as int, y as int) is None
            ==> first_fits(buttons@, x as int, y as int))),
{
    if !topmost_fits_exec(windows, x, y) {
        return false;
    }
    match topmost_at(windows, x, y) {
        Some(_) => true,
        None => first_fits_exec(buttons, x, y),
    }
}

} // verus!
