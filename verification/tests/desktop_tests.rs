use tiledeck::desktop::{
    active_window_id, assemble_desktop, classify, classify_with_lower, panels_fit, parse_geometry,
    set_window_position, usable_monitor, window_from_reports, window_ids, EntryKind, Monitor, Window,
};

fn win(id: &str, title: &str, x: i32, y: i32, width: i32, height: i32) -> Window {
    Window { id: id.to_string(), title: title.to_string(), x, y, width, height }
}

#[test]
fn geometry_report_is_read() {
    let report = "Window {abc}\n  Position: 100,200\n  Geometry: 800x600\n";
    assert_eq!(parse_geometry(report), (100, 200, 800, 600));
}

#[test]
fn geometry_report_edge_cases() {
    assert_eq!(parse_geometry(""), (0, 0, 0, 0));
    assert_eq!(parse_geometry("Position: -5, x\nGeometry: 10x"), (-5, 0, 10, 0));
    assert_eq!(parse_geometry("Position: 1,2,3\nGeometry: 7 x 9"), (0, 0, 7, 9));
    assert_eq!(parse_geometry("Position: 1,2\nPosition: 3,4"), (3, 4, 0, 0));
    assert_eq!(parse_geometry("position: 1,2"), (0, 0, 0, 0));
}

#[test]
fn window_ids_skip_blank_lines() {
    assert_eq!(window_ids("{a}\n\n  {b}  \r\n"), vec!["{a}", "{b}"]);
    assert_eq!(window_ids(""), Vec::<String>::new());
}

#[test]
fn active_window_id_is_trimmed() {
    assert_eq!(active_window_id("{abc}\n"), "{abc}");
}

#[test]
fn window_is_built_from_reports() {
    let w = window_from_reports("{a}", " Firefox \n", "Position: 1,2\nGeometry: 3x4\n");
    assert_eq!(w.id, "{a}");
    assert_eq!(w.title, "Firefox");
    assert_eq!((w.x, w.y, w.width, w.height), (1, 2, 3, 4));
}

#[test]
fn windows_are_classified() {
    assert_eq!(classify(&win("1", "Desktop — Plasma", 0, 0, 1920, 1080)), EntryKind::Monitor);
    assert_eq!(classify(&win("1", "PLASMA", 0, 0, 1920, 1080)), EntryKind::Monitor);
    assert_eq!(classify(&win("1", "", 0, 0, 799, 1080)), EntryKind::Ignored);
    assert_eq!(classify(&win("1", "Plasma Panel", 0, 0, 1920, 44)), EntryKind::Panel);
    assert_eq!(classify(&win("1", "Firefox", 0, 0, 800, 119)), EntryKind::Panel);
    assert_eq!(classify(&win("1", "Firefox", 0, 0, 800, 120)), EntryKind::Regular);
    assert_eq!(classify(&win("1", "panel", 0, 0, 800, 600)), EntryKind::Regular);
}

#[test]
fn classification_uses_the_given_lower_case() {
    let w = win("1", "Anything", 0, 0, 900, 700);
    assert_eq!(classify_with_lower(&w, "plasma"), EntryKind::Monitor);
    assert_eq!(classify_with_lower(&w, "anything"), EntryKind::Regular);
}

#[test]
fn panels_shrink_usable_area() {
    let raw = win("d", "", 0, 0, 1920, 1080);
    let top = win("p", "Panel", 0, 0, 1920, 30);
    let bottom = win("q", "Panel", 0, 1036, 1920, 44);
    let elsewhere = win("r", "Panel", 1920, 0, 1920, 30);
    let panels = vec![top, bottom, elsewhere];
    assert!(panels_fit(&raw, &panels));
    let m = usable_monitor(&raw, &panels);
    assert_eq!(m, Monitor { x: 0, y: 0, width: 1920, height: 1080, ux: 0, uy: 30, uw: 1920, uh: 1006 });
}

#[test]
fn top_panel_never_moves_usable_top_up() {
    let raw = win("d", "", 0, 0, 1920, 1080);
    let panels = vec![win("p", "Panel", 0, 0, 1920, 40), win("q", "Panel", 10, 5, 100, 20)];
    let m = usable_monitor(&raw, &panels);
    assert_eq!((m.uy, m.uh), (40, 1040));
}

#[test]
fn overflowing_panel_is_detected() {
    let raw = win("d", "", i32::MAX - 5, 0, 1920, 1080);
    let panels = vec![win("p", "Panel", i32::MAX, 0, 10, 10)];
    assert!(!panels_fit(&raw, &panels));
}

#[test]
fn desktop_is_assembled() {
    let entries = vec![
        win("m2", "Desktop — Plasma", 1920, 0, 1920, 1080),
        win("a", "Editor", 10, 10, 800, 600),
        win("p", "Plasma Panel", 0, 1036, 1920, 44),
        win("b", "Browser", 100, 100, 1000, 700),
        win("m1", "", 0, 0, 1920, 1080),
        win("c", "Terminal", 0, 0, 600, 800),
        win("s", "", 0, 0, 300, 300),
    ];
    let d = assemble_desktop(&entries).unwrap();
    let ids: Vec<&str> = d.windows.iter().map(|w| w.id.as_str()).collect();
    assert_eq!(ids, vec!["b", "a", "c"]);
    assert_eq!(d.monitors.len(), 2);
    assert_eq!(d.monitors[0], Monitor { x: 0, y: 0, width: 1920, height: 1080, ux: 0, uy: 0, uw: 1920, uh: 1036 });
    assert_eq!(d.monitors[1], Monitor { x: 1920, y: 0, width: 1920, height: 1080, ux: 1920, uy: 0, uw: 1920, uh: 1080 });
}

#[test]
fn single_window_area_is_not_computed() {
    let entries = vec![win("a", "Huge", 0, 0, 100000, 100000)];
    let d = assemble_desktop(&entries).unwrap();
    assert_eq!(d.windows.len(), 1);
}

#[test]
fn overflowing_areas_are_refused() {
    let entries = vec![win("a", "Huge", 0, 0, 100000, 100000), win("b", "Small", 0, 0, 300, 300)];
    assert!(assemble_desktop(&entries).is_none());
}

#[test]
fn window_position_is_set_on_first_match() {
    let mut ws = vec![win("a", "A", 0, 0, 1, 1), win("b", "B", 0, 0, 1, 1), win("b", "B2", 0, 0, 1, 1)];
    set_window_position(&mut ws, "b", 5, 6);
    assert_eq!((ws[1].x, ws[1].y), (5, 6));
    assert_eq!((ws[2].x, ws[2].y), (0, 0));
    assert_eq!((ws[0].x, ws[0].y), (0, 0));
    set_window_position(&mut ws, "z", 9, 9);
    assert_eq!((ws[0].x, ws[1].x, ws[2].x), (0, 5, 0));
}
