use tiledeck::desktop::Monitor;
use tiledeck::layout::screen_layout;
use tiledeck::screen::{
    clip_button, contains_cell, desktop_span, first_at, place_window_box, span_extent, topmost_at,
    DesktopSpan, Rect,
};

fn r(x: u16, y: u16, width: u16, height: u16) -> Rect {
    Rect { x, y, width, height }
}

#[test]
fn cells_in_rectangles() {
    let a = r(2, 3, 4, 5);
    assert!(contains_cell(&a, 2, 3));
    assert!(contains_cell(&a, 5, 7));
    assert!(!contains_cell(&a, 6, 3));
    assert!(!contains_cell(&a, 2, 8));
    assert!(!contains_cell(&r(2, 3, 0, 5), 2, 3));
}

#[test]
fn topmost_box_wins() {
    let map = vec![(r(0, 0, 10, 10), "low"), (r(5, 5, 10, 10), "high"), (r(50, 50, 1, 1), "far")];
    assert_eq!(topmost_at(&map, 6, 6), Some(1));
    assert_eq!(topmost_at(&map, 1, 1), Some(0));
    assert_eq!(topmost_at(&map, 40, 40), None);
}

#[test]
fn first_button_wins() {
    let map = vec![(r(0, 0, 10, 10), 1), (r(0, 0, 10, 10), 2)];
    assert_eq!(first_at(&map, 3, 3), Some(0));
    assert_eq!(first_at(&map, 30, 3), None);
}

#[test]
fn sliding_buttons_are_clipped() {
    let bounds = r(4, 0, 40, 4);
    assert_eq!(clip_button(r(4, 1, 10, 2), 0, bounds), Some(r(4, 1, 10, 2)));
    assert_eq!(clip_button(r(4, 1, 10, 2), -5, bounds), Some(r(4, 1, 5, 2)));
    assert_eq!(clip_button(r(38, 1, 10, 2), 0, bounds), Some(r(38, 1, 6, 2)));
    assert_eq!(clip_button(r(4, 1, 10, 2), 40, bounds), None);
    assert_eq!(clip_button(r(4, 1, 10, 2), -10, bounds), None);
}

#[test]
fn window_boxes_stay_in_area() {
    let area = r(1, 1, 80, 20);
    assert_eq!(place_window_box(10, 5, 20, 8, area), r(11, 6, 20, 8));
    assert_eq!(place_window_box(100, 50, 20, 8, area), r(80, 20, 1, 1));
    assert_eq!(place_window_box(70, 0, 20, 30, area), r(71, 1, 10, 20));
    assert_eq!(place_window_box(5, 5, 5, 5, r(0, 0, 0, 0)), r(0, 0, 0, 0));
}

#[test]
fn window_box_is_cut_at_u16_max() {
    let area = r(65530, 0, 5, 5);
    assert_eq!(place_window_box(2, 0, 9, 9, area), r(65532, 0, 3, 5));
}

fn mon(x: i32, y: i32, width: i32, height: i32) -> Monitor {
    Monitor { x, y, width, height, ux: x, uy: y, uw: width, uh: height }
}

#[test]
fn desktop_span_covers_monitors() {
    assert_eq!(desktop_span(&Vec::new()), DesktopSpan { min_x: 0, min_y: 0, max_x: 1920, max_y: 1080 });
    let ms = vec![mon(-1280, 200, 1280, 1024), mon(0, 0, 2560, 1440)];
    let s = desktop_span(&ms);
    assert_eq!(s, DesktopSpan { min_x: -1280, min_y: 0, max_x: 2560, max_y: 1440 });
    assert_eq!(span_extent(&s), (3840, 1440));
}

#[test]
fn screen_layout_has_expected_parts() {
    let l = screen_layout(r(0, 0, 100, 40));
    assert_eq!(l.desktop_view, r(0, 0, 100, 32));
    assert_eq!(l.toolbar, r(0, 32, 100, 8));
    assert_eq!(l.rows, vec![r(4, 32, 92, 4), r(4, 36, 92, 4)]);
    assert_eq!(l.prev_button, r(0, 32, 4, 8));
    assert_eq!(l.carousel, r(4, 32, 92, 8));
    assert_eq!(l.next_button, r(96, 32, 4, 8));
    assert_eq!(l.top_row.len(), 4);
    assert_eq!(l.bottom_row.len(), 4);
    assert_eq!(l.top_row[0], r(4, 32, 23, 4));
    assert_eq!(l.bottom_row[3], r(73, 36, 23, 4));
}
