//! The deck's actions and the commands that carry them out, as plain values:
//! each plan is a list of steps for the caller to run in order.

use vstd::prelude::*;
use crate::text::views;
use crate::desktop::Window;
use crate::tiling::{Move, Placement, TileMode};

verus! {

/// The character of the decimal digit `d`.
pub open spec fn digit_char(d: int) -> char {
    "0123456789"@[d]
}

/// The decimal digits of `n`, most significant first, without leading zeros.
pub open spec fn decimal(n: nat) -> Seq<char>
    decreases n,
{
    if n < 10 {
        seq![digit_char(n as int)]
    } else {
        decimal(n / 10).push(digit_char((n % 10) as int))
    }
}

/// The decimal text of `v`, with a leading `-` when negative (as `i32::to_string`).
pub open spec fn i32_text(v: i32) -> Seq<char> {
    if v < 0 {
        seq!['-'] + decimal((-v) as nat)
    } else {
        decimal(v as nat)
    }
}

/// The decimal digits of `n`.
fn format_u32(n: u32) -> (r: String)
    ensures
        r@ == decimal(n as nat),
    decreases n,
{
    let digits = "0123456789";
    proof {
        reveal_strlit("0123456789");
    }
    if n < 10 {
        let d = n as usize;
        digits.substring_char(d, d + 1).to_owned()
    } else {
        let mut r = format_u32(n / 10);
        let d = (n % 10) as usize;
        let ghost before = r@;
        r.append(digits.substring_char(d, d + 1));
        assert(r@ =~= before.push(digit_char(d as int)));
        r
    }
}

/// The decimal text of `v`.
pub fn format_i32(v: i32) -> (r: String)
    ensures
        r@ == i32_text(v),
{
    if v < 0 {
        let m = (-(v as i64)) as u32;
        let mut r = "-".to_owned();
        proof {
            reveal_strlit("-");
        }
        r.append(format_u32(m).as_str());
        r
    } else {
        format_u32(v as u32)
    }
}


/// A KWin global shortcut that a button invokes.
#[derive(Clone, Copy, Debug, PartialEq, Eq, Structural)]
pub enum Shortcut {
    ToLeftScreen,
    ToRightScreen,
    Maximize,
    Fullscreen,
    Minimize,
}

/// The name under which KWin registers a shortcut.
pub open spec fn shortcut_name(s: Shortcut) -> Seq<char> {
    match s {
        Shortcut::ToLeftScreen => "Window One Screen to the Left"@,
        Shortcut::ToRightScreen => "Window One Screen to the Right"@,
        Shortcut::Maximize => "Window Maximize"@,
        Shortcut::Fullscreen => "Window Fullscreen"@,
        Shortcut::Minimize => "Window Minimize"@,
    }
}

impl Shortcut {
    /// The name under which KWin registers this shortcut.
    pub fn name(&self) -> (r: &'static str)
        ensures
            r@ == shortcut_name(*self),
    {
        match self {
            Shortcut::ToLeftScreen => "Window One Screen to the Left",
            Shortcut::ToRightScreen => "Window One Screen to the Right",
            Shortcut::Maximize => "Window Maximize",
            Shortcut::Fullscreen => "Window Fullscreen",
            Shortcut::Minimize => "Window Minimize",
        }
    }
}

/// What a toolbar button does.
#[derive(Clone, Copy, Debug, PartialEq, Eq, Structural)]
pub enum Action {
    KdeShortcut(Shortcut),
    CloseWindow,
    SmartAudioSwap,
    AutoTile,
    ChaosTile,
    CustomTile(TileMode),
    PrevPage,
    NextPage,
}

/// One step of a plan: run a program with arguments, or pause for some
/// milliseconds.
#[derive(Clone, Debug)]
pub enum Step {
    /// The program, then its arguments.
    Run(Vec<String>),
    Pause(u64),
}

/// A step, with its strings as character sequences.
pub enum StepView {
    Run(Seq<Seq<char>>),
    Pause(u64),
}

/// The view of a step.
pub open spec fn step_view(s: Step) -> StepView {
    match s {
        Step::Run(args) => StepView::Run(views(args@)),
        Step::Pause(ms) => StepView::Pause(ms),
    }
}

/// The views of the steps of a plan.
pub open spec fn plan_view(p: Seq<Step>) -> Seq<StepView> {
    p.map_values(|s: Step| step_view(s))
}

/// Focusing a window with the window tool.
pub open spec fn activate_view(id: Seq<char>) -> StepView {
    StepView::Run(seq!["kdotool"@, "windowactivate"@, id])
}

/// Invoking a KWin shortcut over the session bus.
pub open spec fn shortcut_view(name: Seq<char>) -> StepView {
    StepView::Run(
        seq![
            "dbus-send"@,
            "--session"@,
            "--dest=org.kde.kglobalaccel"@,
            "--type=method_call"@,
            "/component/kwin"@,
            "org.kde.kglobalaccel.Component.invokeShortcut"@,
            "string:"@ + name,
        ],
    )
}

/// The step that focuses window `id`.
pub fn activate_step(id: &str) -> (r: Step)
    ensures
        step_view(r) == activate_view(id@),
{
    let args = vec!["kdotool".to_owned(), "windowactivate".to_owned(), id.to_owned()];
    let r = Step::Run(args);
    assert(views(args@) =~= seq!["kdotool"@, "windowactivate"@, id@]);
    r
}

/// The step that invokes the KWin shortcut `name`.
pub fn shortcut_step(name: &str) -> (r: Step)
    ensures
        step_view(r) == shortcut_view(name@),
{
    let mut arg = "string:".to_owned();
    arg.append(name);
    let args = vec![
        "dbus-send".to_owned(),
        "--session".to_owned(),
        "--dest=org.kde.kglobalaccel".to_owned(),
        "--type=method_call".to_owned(),
        "/component/kwin".to_owned(),
        "org.kde.kglobalaccel.Component.invokeShortcut".to_owned(),
        arg,
    ];
    assert(views(args@) =~= seq![
        "dbus-send"@,
        "--session"@,
        "--dest=org.kde.kglobalaccel"@,
        "--type=method_call"@,
        "/component/kwin"@,
        "org.kde.kglobalaccel.Component.invokeShortcut"@,
        "string:"@ + name@,
    ]);
    Step::Run(args)
}

/// What carrying out `action` on the window `target` takes, for the actions that
/// run commands directly: a shortcut first focuses the target (if there is one) and
/// waits 50 ms, then invokes the shortcut; closing asks the window tool to close
/// the target (if there is one). Other actions have plans of their own.
pub open spec fn action_plan_spec(action: Action, target: Seq<char>) -> Seq<StepView> {
    match action {
        Action::KdeShortcut(s) => if target.len() > 0 {
            seq![activate_view(target), StepView::Pause(50), shortcut_view(shortcut_name(s))]
        } else {
            seq![shortcut_view(shortcut_name(s))]
        },
        Action::CloseWindow => if target.len() > 0 {
            seq![StepView::Run(seq!["kdotool"@, "windowclose"@, target])]
        } else {
            Seq::empty()
        },
        _ => Seq::empty(),
    }
}

/// The plan for `action` on the window `target`.
pub fn action_plan(action: Action, target: &str) -> (r: Vec<Step>)
    ensures
        plan_view(r@) == action_plan_spec(action, target@),
{
    let mut plan: Vec<Step> = Vec::new();
    match action {
        Action::KdeShortcut(s) => {
            if target.unicode_len() > 0 {
                plan.push(activate_step(target));
                plan.push(Step::Pause(50));
            }
            plan.push(shortcut_step(s.name()));
        },
        Action::CloseWindow => {
            if target.unicode_len() > 0 {
                let args = vec!["kdotool".to_owned(), "windowclose".to_owned(), target.to_owned()];
                assert(views(args@) =~= seq!["kdotool"@, "windowclose"@, target@]);
                plan.push(Step::Run(args));
            }
        },
        _ => {},
    }
    assert(plan_view(plan@) =~= action_plan_spec(action, target@));
    plan
}

/// What a double click on a window does: focus it, wait 150 ms, maximize it.
pub open spec fn maximize_plan_spec(id: Seq<char>) -> Seq<StepView> {
    seq![activate_view(id), StepView::Pause(150), shortcut_view("Window Maximize"@)]
}

/// The plan that maximizes window `id`.
pub fn maximize_plan(id: &str) -> (r: Vec<Step>)
    ensures
        plan_view(r@) == maximize_plan_spec(id@),
{
    let mut plan: Vec<Step> = Vec::new();
    plan.push(activate_step(id));
    plan.push(Step::Pause(150));
    plan.push(shortcut_step("Window Maximize"));
    assert(plan_view(plan@) =~= maximize_plan_spec(id@));
    plan
}

/// Moving a window: move it, size it, then move it again (a move before the resize
/// can land it elsewhere).
pub open spec fn move_plan_spec(id: Seq<char>, p: Placement) -> Seq<StepView> {
    let mv = StepView::Run(seq!["kdotool"@, "windowmove"@, id, i32_text(p.x), i32_text(p.y)]);
    seq![mv, StepView::Run(seq!["kdotool"@, "windowsize"@, id, i32_text(p.width), i32_text(p.height)]), mv]
}

/// The plan that puts window `id` at `p`.
pub fn move_plan(id: &str, p: Placement) -> (r: Vec<Step>)
    ensures
        plan_view(r@) == move_plan_spec(id@, p),
{
    let mv1 = vec!["kdotool".to_owned(), "windowmove".to_owned(), id.to_owned(), format_i32(p.x), format_i32(p.y)];
    let size = vec![
        "kdotool".to_owned(),
        "windowsize".to_owned(),
        id.to_owned(),
        format_i32(p.width),
        format_i32(p.height),
    ];
    let mv2 = vec!["kdotool".to_owned(), "windowmove".to_owned(), id.to_owned(), format_i32(p.x), format_i32(p.y)];
    assert(views(mv1@) =~= seq!["kdotool"@, "windowmove"@, id@, i32_text(p.x), i32_text(p.y)]);
    assert(views(mv2@) =~= seq!["kdotool"@, "windowmove"@, id@, i32_text(p.x), i32_text(p.y)]);
    assert(views(size@) =~= seq!["kdotool"@, "windowsize"@, id@, i32_text(p.width), i32_text(p.height)]);
    let mut plan: Vec<Step> = Vec::new();
    plan.push(Step::Run(mv1));
    plan.push(Step::Run(size));
    plan.push(Step::Run(mv2));
    assert(plan_view(plan@) =~= move_plan_spec(id@, p));
    plan
}


/// The label and action of the button in column `col` of row `row` (0 top, 1
/// bottom) on the first page (`first`) or the second page.
pub open spec fn button_spec(first: bool, row: int, col: int) -> (Seq<char>, Action) {
    if first {
        if row == 0 {
            if col == 0 {
                ("◧ LEFT HALF"@, Action::CustomTile(TileMode::LeftHalf))
            } else if col == 1 {
                ("◨ RIGHT HALF"@, Action::CustomTile(TileMode::RightHalf))
            } else if col == 2 {
                ("◰ TOP LEFT"@, Action::CustomTile(TileMode::TopLeft))
            } else {
                ("◳ TOP RIGHT"@, Action::CustomTile(TileMode::TopRight))
            }
        } else {
            if col == 0 {
                ("◲ BOT LEFT"@, Action::CustomTile(TileMode::BotLeft))
            } else if col == 1 {
                ("◱ BOT RIGHT"@, Action::CustomTile(TileMode::BotRight))
            } else if col == 2 {
                ("📺 TO LEFT MON"@, Action::KdeShortcut(Shortcut::ToLeftScreen))
            } else {
                ("TO RIGHT MON 📺"@, Action::KdeShortcut(Shortcut::ToRightScreen))
            }
        }
    } else {
        if row == 0 {
            if col == 0 {
                ("🗗 TOGGLE MAX"@, Action::KdeShortcut(Shortcut::Maximize))
            } else if col == 1 {
                ("🔲 FULLSCREEN"@, Action::KdeShortcut(Shortcut::Fullscreen))
            } else if col == 2 {
                ("🔽 MINIMIZE"@, Action::KdeShortcut(Shortcut::Minimize))
            } else {
                ("❌ CLOSE"@, Action::CloseWindow)
            }
        } else {
            if col == 0 {
                ("⊞ AUTO TILE"@, Action::AutoTile)
            } else if col == 1 {
                ("🎲 CHAOS TILE"@, Action::ChaosTile)
            } else if col == 2 {
                ("🔄 SWAP SCREENS"@, Action::SmartAudioSwap)
            } else {
                ("🎵 AUDIO SWAP"@, Action::SmartAudioSwap)
            }
        }
    }
}

/// A labelled button.
pub type Button = (&'static str, Action);

/// Whether `row` holds the four buttons of row `r` of the given page.
pub open spec fn is_button_row(first: bool, r: int, row: Seq<Button>) -> bool {
    &&& row.len() == 4
    &&& forall|col: int|
        0 <= col < 4 ==> (#[trigger] row[col]).0@ == button_spec(first, r, col).0 && row[col].1
            == button_spec(first, r, col).1
}

/// The two rows of buttons on page `page`: page 0 tiles and moves the active
/// window, every other page sizes, closes and arranges windows and swaps audio.
pub fn page_buttons(page: i32) -> (r: (Vec<Button>, Vec<Button>))
    ensures
        is_button_row(page == 0, 0, r.0@),
        is_button_row(page == 0, 1, r.1@),
{
    if page == 0 {
        let top = vec![
            ("◧ LEFT HALF", Action::CustomTile(TileMode::LeftHalf)),
            ("◨ RIGHT HALF", Action::CustomTile(TileMode::RightHalf)),
            ("◰ TOP LEFT", Action::CustomTile(TileMode::TopLeft)),
            ("◳ TOP RIGHT", Action::CustomTile(TileMode::TopRight)),
        ];
        let bottom = vec![
            ("◲ BOT LEFT", Action::CustomTile(TileMode::BotLeft)),
            ("◱ BOT RIGHT", Action::CustomTile(TileMode::BotRight)),
            ("📺 TO LEFT MON", Action::KdeShortcut(Shortcut::ToLeftScreen)),
            ("TO RIGHT MON 📺", Action::KdeShortcut(Shortcut::ToRightScreen)),
        ];
        (top, bottom)
    } else {
        let top = vec![
            ("🗗 TOGGLE MAX", Action::KdeShortcut(Shortcut::Maximize)),
            ("🔲 FULLSCREEN", Action::KdeShortcut(Shortcut::Fullscreen)),
            ("🔽 MINIMIZE", Action::KdeShortcut(Shortcut::Minimize)),
            ("❌ CLOSE", Action::CloseWindow),
        ];
        let bottom = vec![
            ("⊞ AUTO TILE", Action::AutoTile),
            ("🎲 CHAOS TILE", Action::ChaosTile),
            ("🔄 SWAP SCREENS", Action::SmartAudioSwap),
            ("🎵 AUDIO SWAP", Action::SmartAudioSwap),
        ];
        (top, bottom)
    }
}


/// The steps that carry out the moves, one window after another.
pub open spec fn moves_plan_spec(ws: Seq<Window>, moves: Seq<Move>) -> Seq<StepView>
    decreases moves.len(),
{
    if moves.len() == 0 {
        Seq::empty()
    } else {
        moves_plan_spec(ws, moves.drop_last()) + move_plan_spec(
            ws[moves.last().0 as int].id@,
            moves.last().1,
        )
    }
}

/// The plan that carries out the moves of a tiling on the windows `ws`.
pub fn moves_plan(ws: &Vec<Window>, moves: &Vec<Move>) -> (r: Vec<Step>)
    requires
        forall|k: int| 0 <= k < moves@.len() ==> (#[trigger] moves@[k]).0 < ws@.len(),
    ensures
        plan_view(r@) == moves_plan_spec(ws@, moves@),
{
    let mut plan: Vec<Step> = Vec::new();
    let mut k: usize = 0;
    assert(moves@.take(0) =~= Seq::<Move>::empty());
    assert(plan_view(plan@) =~= Seq::<StepView>::empty());
    while k < moves.len()
        invariant
            k <= moves@.len(),
            forall|j: int| 0 <= j < moves@.len() ==> (#[trigger] moves@[j]).0 < ws@.len(),
            plan_view(plan@) == moves_plan_spec(ws@, moves@.take(k as int)),
        decreases moves@.len() - k,
    {
        let (wi, p) = moves[k];
        let mut steps = move_plan(ws[wi].id.as_str(), p);
        let ghost before = plan@;
        plan.append(&mut steps);
        proof {
            assert(moves@.take(k + 1).drop_last() =~= moves@.take(k as int));
            assert(moves@.take(k + 1).last() == moves@[k as int]);
            assert(plan_view(plan@) =~= plan_view(before) + move_plan_spec(ws@[wi as int].id@, p));
        }
        k = k + 1;
    }
    assert(moves@.take(moves@.len() as int) =~= moves@);
    plan
}

} // verus!
