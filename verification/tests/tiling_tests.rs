use tiledeck::desktop::{Monitor, Window};
use tiledeck::tiling::{
    auto_assignment, auto_tile_plan, chaos_assignment, chaos_tile_plan, custom_tile, find_window, grid,
    monitor_at, plan_from_assignment, slot_placement, tile_placement, tileable_windows, xorshift_step,
    Grid, Placement, TileMode,
};

fn win(id: &str, x: i32, y: i32, width: i32, height: i32) -> Window {
    Window { id: id.to_string(), title: id.to_string(), x, y, width, height }
}

fn mon(x: i32, y: i32, width: i32, height: i32) -> Monitor {
    Monitor { x, y, width, height, ux: x, uy: y, uw: width, uh: height }
}

fn p(x: i32, y: i32, width: i32, height: i32) -> Placement {
    Placement { x, y, width, height }
}

#[test]
fn grid_of_full_hd_monitor() {
    let g = grid(&mon(0, 0, 1920, 1080), true);
    assert_eq!(g, Grid { hw: 936, hh: 516, fw: 1888, fh: 1048, xl: 16, xr: 968, yt: 16, yb: 548 });
}

#[test]
fn grid_halves_round_toward_zero() {
    let g = grid(&mon(0, 0, 45, 1081), false);
    assert_eq!(g.hw, -1);
    assert_eq!(g.hh, 516);
    assert_eq!(g.xr, 31);
}

#[test]
fn custom_tiles_on_full_hd_monitor() {
    let m = mon(0, 0, 1920, 1080);
    assert_eq!(tile_placement(&m, TileMode::LeftHalf), p(16, 16, 936, 1048));
    assert_eq!(tile_placement(&m, TileMode::RightHalf), p(968, 16, 936, 1048));
    assert_eq!(tile_placement(&m, TileMode::TopLeft), p(16, 16, 936, 516));
    assert_eq!(tile_placement(&m, TileMode::TopRight), p(968, 16, 936, 516));
    assert_eq!(tile_placement(&m, TileMode::BotLeft), p(16, 548, 936, 516));
    assert_eq!(tile_placement(&m, TileMode::BotRight), p(968, 548, 936, 516));
}

#[test]
fn tiles_keep_gaps() {
    let m = Monitor { x: 0, y: 0, width: 1921, height: 1081, ux: 100, uy: 30, uw: 1821, uh: 1001 };
    let left = tile_placement(&m, TileMode::LeftHalf);
    let right = tile_placement(&m, TileMode::RightHalf);
    assert_eq!(left.x, 116);
    assert_eq!(right.x, left.x + left.width + 16);
    assert!(right.x + right.width <= m.ux + m.uw - 16);
    assert!(right.x + right.width >= m.ux + m.uw - 17);
}

#[test]
fn slots_by_count() {
    let g = grid(&mon(0, 0, 1920, 1080), true);
    assert_eq!(slot_placement(1, 0, &g), p(16, 16, 1888, 1048));
    assert_eq!(slot_placement(2, 1, &g), p(968, 16, 936, 1048));
    assert_eq!(slot_placement(3, 0, &g), p(16, 16, 936, 1048));
    assert_eq!(slot_placement(3, 2, &g), p(968, 548, 936, 516));
    assert_eq!(slot_placement(4, 2, &g), p(16, 548, 936, 516));
    assert_eq!(slot_placement(6, 5, &g), p(968, 548, 936, 516));
    assert_eq!(slot_placement(6, 3, &g), p(968, 548, 936, 516));
}

#[test]
fn monitor_at_finds_first_holder() {
    let ms = vec![mon(0, 0, 1920, 1080), mon(1920, 0, 1920, 1080)];
    assert_eq!(monitor_at(&ms, 100), Some(0));
    assert_eq!(monitor_at(&ms, 1920), Some(0));
    assert_eq!(monitor_at(&ms, 1921), Some(1));
    assert_eq!(monitor_at(&ms, -1), None);
    assert_eq!(monitor_at(&ms, 3841), None);
}

#[test]
fn find_window_by_id() {
    let ws = vec![win("a", 0, 0, 1, 1), win("b", 0, 0, 1, 1), win("b", 1, 1, 1, 1)];
    assert_eq!(find_window(&ws, "b"), Some(1));
    assert_eq!(find_window(&ws, "c"), None);
}

#[test]
fn custom_tile_goes_to_monitor_of_active_window() {
    let ms = vec![mon(0, 0, 1920, 1080), mon(1920, 0, 1920, 1080)];
    let ws = vec![win("a", 2000, 100, 800, 600), win("b", 100, 100, 800, 600)];
    assert_eq!(custom_tile(&ws, &ms, "a", TileMode::LeftHalf), Some(p(1936, 16, 936, 1048)));
    assert_eq!(custom_tile(&ws, &ms, "b", TileMode::LeftHalf), Some(p(16, 16, 936, 1048)));
    assert_eq!(custom_tile(&ws, &ms, "none", TileMode::RightHalf), Some(p(968, 16, 936, 1048)));
    let off = vec![win("o", 9000, 0, 800, 600)];
    assert_eq!(custom_tile(&off, &ms, "o", TileMode::TopLeft), Some(p(16, 16, 936, 516)));
    assert_eq!(custom_tile(&ws, &Vec::new(), "a", TileMode::TopLeft), None);
}

#[test]
fn tileable_windows_are_large_ones() {
    let ws = vec![win("a", 0, 0, 251, 251), win("b", 0, 0, 250, 800), win("c", 0, 0, 800, 250), win("d", 0, 0, 300, 300)];
    assert_eq!(tileable_windows(&ws), vec![0, 3]);
}

#[test]
fn auto_assignment_by_centre() {
    let ms = vec![mon(0, 0, 1920, 1080), mon(1920, 0, 1920, 1080)];
    let ws = vec![win("a", 1500, 0, 1000, 600), win("b", 1000, 0, 400, 400), win("c", 5000, 0, 400, 400)];
    let tiles = vec![0, 1, 2];
    assert_eq!(auto_assignment(&ws, &ms, &tiles), vec![Some(1), Some(0), None]);
}

#[test]
fn auto_tile_plan_lays_out_each_monitor() {
    let ms = vec![mon(0, 0, 1920, 1080), mon(1920, 0, 1920, 1080)];
    let ws = vec![
        win("a", 100, 0, 800, 600),
        win("small", 100, 0, 100, 100),
        win("b", 2000, 0, 800, 600),
        win("c", 200, 0, 800, 600),
    ];
    let plan = auto_tile_plan(&ws, &ms);
    assert_eq!(
        plan,
        vec![(0, p(16, 16, 936, 1048)), (3, p(968, 16, 936, 1048)), (2, p(1936, 16, 1888, 1048))]
    );
}

#[test]
fn auto_tile_plan_with_no_monitor_is_empty() {
    let ws = vec![win("a", 100, 0, 800, 600)];
    assert_eq!(auto_tile_plan(&ws, &Vec::new()), Vec::new());
}

fn reference_xorshift(mut s: u32) -> u32 {
    s ^= s << 13;
    s ^= s >> 17;
    s ^= s << 5;
    s
}

#[test]
fn xorshift_matches_reference() {
    assert_eq!(xorshift_step(1), 270369);
    for s in [1u32, 2, 12345, 0xdeadbeef, u32::MAX] {
        assert_eq!(xorshift_step(s), reference_xorshift(s));
    }
}

#[test]
fn chaos_assignment_follows_generator() {
    let mut s = 12345u32;
    let mut expected = Vec::new();
    for _ in 0..5 {
        s = reference_xorshift(s);
        expected.push(Some((s as usize) % 3));
    }
    assert_eq!(chaos_assignment(5, 3, 12345), expected);
    let zero = chaos_assignment(2, 2, 0);
    let one = chaos_assignment(2, 2, 1);
    assert_eq!(zero, one);
}

#[test]
fn chaos_plan_places_every_tileable_window() {
    let ms = vec![mon(0, 0, 1920, 1080), mon(1920, 0, 1920, 1080)];
    let ws = vec![win("a", 0, 0, 800, 600), win("b", 0, 0, 800, 600), win("c", 0, 0, 100, 100)];
    let plan = chaos_tile_plan(&ws, &ms, 777);
    assert_eq!(plan.len(), 2);
    let mut moved: Vec<usize> = plan.iter().map(|m| m.0).collect();
    moved.sort();
    assert_eq!(moved, vec![0, 1]);
}

#[test]
fn plan_from_explicit_assignment() {
    let ms = vec![mon(0, 0, 1920, 1080)];
    let tiles = vec![4, 7, 9];
    let assign = vec![Some(0), None, Some(0)];
    assert_eq!(
        plan_from_assignment(&ms, &tiles, &assign),
        vec![(4, p(16, 16, 936, 1048)), (9, p(968, 16, 936, 1048))]
    );
}
