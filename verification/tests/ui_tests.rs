use tiledeck::actions::Action;
use tiledeck::screen::Rect;
use tiledeck::tiling::TileMode;
use tiledeck::ui::{Highlight, Press, UiState, DOUBLE_CLICK_NS};

fn r(x: u16, y: u16, width: u16, height: u16) -> Rect {
    Rect { x, y, width, height }
}

fn windows() -> Vec<(Rect, String)> {
    vec![(r(0, 0, 20, 10), "{a}".to_string()), (r(10, 5, 20, 10), "{b}".to_string())]
}

fn buttons() -> Vec<(Rect, Action)> {
    vec![
        (r(0, 30, 4, 8), Action::PrevPage),
        (r(96, 30, 4, 8), Action::NextPage),
        (r(10, 30, 10, 4), Action::AutoTile),
        (r(20, 30, 10, 4), Action::CustomTile(TileMode::LeftHalf)),
    ]
}

fn is_activate(p: &Press, id: &str) -> bool {
    matches!(p, Press::Activate(s) if s == id)
}

fn is_maximize(p: &Press, id: &str) -> bool {
    matches!(p, Press::Maximize(s) if s == id)
}

#[test]
fn press_on_window_activates_and_grabs() {
    let mut s = UiState::new(0);
    let p = s.press(&windows(), &buttons(), 1, 12, 7, 1000);
    assert!(is_activate(&p, "{b}"));
    let d = s.drag.as_ref().unwrap();
    assert_eq!((d.window_id.as_str(), d.offset_x, d.offset_y), ("{b}", 2, 2));
    assert_eq!(s.last_clicked.as_deref(), Some("{b}"));
    assert_eq!(s.last_click_at, 1000);
}

#[test]
fn double_click_maximizes() {
    let mut s = UiState::new(0);
    let p1 = s.press(&windows(), &buttons(), 1, 1, 1, 1_000);
    assert!(is_activate(&p1, "{a}"));
    s.release();
    let p2 = s.press(&windows(), &buttons(), 1, 1, 1, 1_000 + DOUBLE_CLICK_NS - 1);
    assert!(is_maximize(&p2, "{a}"));
    assert!(s.last_clicked.is_none());
    let p3 = s.press(&windows(), &buttons(), 1, 1, 1, 1_000 + DOUBLE_CLICK_NS);
    assert!(is_activate(&p3, "{a}"));
}

#[test]
fn slow_second_click_does_not_maximize() {
    let mut s = UiState::new(0);
    s.press(&windows(), &buttons(), 1, 1, 1, 1_000);
    let p = s.press(&windows(), &buttons(), 1, 1, 1, 1_000 + DOUBLE_CLICK_NS);
    assert!(is_activate(&p, "{a}"));
}

#[test]
fn clicks_on_different_windows_do_not_maximize() {
    let mut s = UiState::new(0);
    s.press(&windows(), &buttons(), 1, 1, 1, 1_000);
    let p = s.press(&windows(), &buttons(), 1, 25, 12, 1_001);
    assert!(is_activate(&p, "{b}"));
}

#[test]
fn page_buttons_slide() {
    let mut s = UiState::new(0);
    let p = s.press(&windows(), &buttons(), 1, 0, 30, 5);
    assert!(matches!(p, Press::Button(Action::PrevPage)));
    assert!(!s.animating);
    let p = s.press(&windows(), &buttons(), 1, 97, 31, 7);
    assert!(matches!(p, Press::Button(Action::NextPage)));
    assert!(s.animating);
    assert_eq!((s.current_page, s.target_page, s.anim_start), (0, 1, 7));
    assert_eq!(s.pages_to_draw(), vec![0, 1]);
    assert_eq!(s.slide_direction(), 1);
    assert_eq!(s.page_offset(0, 92, 30), -30);
    assert_eq!(s.page_offset(1, 92, 30), 62);
    let ignored = s.press(&windows(), &buttons(), 1, 1, 1, 8);
    assert!(matches!(ignored, Press::Ignored));
    s.settle(false);
    assert!(s.animating);
    s.settle(true);
    assert_eq!((s.current_page, s.target_page, s.animating), (1, 1, false));
    assert_eq!(s.pages_to_draw(), vec![1]);
    s.press(&windows(), &buttons(), 1, 97, 31, 9);
    assert!(!s.animating);
    s.press(&windows(), &buttons(), 1, 0, 30, 10);
    assert_eq!((s.current_page, s.target_page), (1, 0));
    assert_eq!(s.slide_direction(), -1);
    s.settle(true);
    assert_eq!(s.current_page, 0);
}

#[test]
fn arranging_without_monitors_halts() {
    let mut s = UiState::new(0);
    assert!(matches!(s.press(&windows(), &buttons(), 0, 11, 31, 1), Press::Halted));
    assert!(matches!(s.press(&windows(), &buttons(), 2, 11, 31, 1), Press::Button(Action::AutoTile)));
    assert!(matches!(s.press(&windows(), &buttons(), 0, 21, 31, 1), Press::Button(Action::CustomTile(TileMode::LeftHalf))));
    assert!(matches!(s.press(&windows(), &buttons(), 0, 50, 50, 1), Press::Missed));
}

#[test]
fn refresh_timing() {
    let mut s = UiState::new(100);
    assert!(!s.refresh_due(100 + 500_000_000));
    assert!(s.refresh_due(101 + 500_000_000));
    s.mark_refreshed(1_000_000_000);
    assert!(!s.refresh_due(1_000_000_001));
    assert!(!s.refresh_due(5));
    s.press(&windows(), &buttons(), 1, 1, 1, 2_000_000_000);
    assert!(!s.refresh_due(9_000_000_000));
    assert!(s.release());
    assert!(!s.release());
    assert!(s.refresh_due(9_000_000_000));
}

#[test]
fn dragging() {
    let mut s = UiState::new(0);
    let view = r(2, 1, 80, 20);
    assert!(s.drag_position(view, 10, 10).is_none());
    s.press(&windows(), &buttons(), 1, 12, 7, 1);
    assert_eq!(s.drag_position(view, 30, 10), Some(("{b}".to_string(), 26, 7)));
    assert_eq!(s.drag_position(view, 1, 0), Some(("{b}".to_string(), 0, 0)));
    assert!(s.drag_position(r(0, 0, 0, 5), 3, 3).is_none());
    assert!(!s.drag_command_due(32_000_000));
    assert!(s.drag_command_due(32_000_001));
    assert_eq!(s.last_drag_command, 32_000_001);
    assert!(!s.drag_command_due(40_000_000));
}

#[test]
fn highlights() {
    let mut s = UiState::new(0);
    assert_eq!(s.highlight("{a}", "{a}"), Highlight::Active);
    assert_eq!(s.highlight("{b}", "{a}"), Highlight::Plain);
    s.press(&windows(), &buttons(), 1, 12, 7, 1);
    assert_eq!(s.highlight("{b}", "{a}"), Highlight::Dragged);
    assert_eq!(s.highlight("{b}", "{b}"), Highlight::Dragged);
}

#[test]
fn press_fits_checks_only_reached_rectangles() {
    let wide = (r(65530, 0, 10, 10), "{w}".to_string());
    let ok = (r(0, 0, 5, 5), "{o}".to_string());
    assert!(tiledeck::ui::press_fits(&vec![wide.clone(), ok.clone()], &buttons(), 1, 1));
    assert!(!tiledeck::ui::press_fits(&vec![ok.clone(), wide.clone()], &buttons(), 65531, 1));
    assert!(tiledeck::ui::press_fits(&vec![ok, wide], &buttons(), 1, 1));
    assert!(tiledeck::ui::press_fits(&windows(), &vec![(r(65535, 30, 1, 1), Action::PrevPage)], 0, 0));
    assert!(!tiledeck::ui::press_fits(&windows(), &vec![(r(65535, 30, 1, 1), Action::PrevPage)], 65535, 40));
}
