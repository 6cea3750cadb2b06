use tiledeck::actions::{
    action_plan, format_i32, maximize_plan, move_plan, moves_plan, page_buttons, Action, Shortcut, Step,
};
use tiledeck::audio::{pick_sinks, set_default_sink_step, swap_target};
use tiledeck::desktop::Window;
use tiledeck::tiling::{Placement, TileMode};

fn run(args: &[&str]) -> Vec<String> {
    args.iter().map(|a| a.to_string()).collect()
}

fn runs(plan: &[Step]) -> Vec<Option<Vec<String>>> {
    plan.iter()
        .map(|s| match s {
            Step::Run(a) => Some(a.clone()),
            Step::Pause(_) => None,
        })
        .collect()
}

fn dbus(name: &str) -> Vec<String> {
    let arg = format!("string:{}", name);
    run(&[
        "dbus-send",
        "--session",
        "--dest=org.kde.kglobalaccel",
        "--type=method_call",
        "/component/kwin",
        "org.kde.kglobalaccel.Component.invokeShortcut",
        &arg,
    ])
}

#[test]
fn shortcut_with_target_activates_first() {
    let plan = action_plan(Action::KdeShortcut(Shortcut::Minimize), "{w}");
    assert_eq!(plan.len(), 3);
    assert_eq!(runs(&plan)[0], Some(run(&["kdotool", "windowactivate", "{w}"])));
    assert!(matches!(plan[1], Step::Pause(50)));
    assert_eq!(runs(&plan)[2], Some(dbus("Window Minimize")));
}

#[test]
fn shortcut_without_target() {
    let plan = action_plan(Action::KdeShortcut(Shortcut::ToLeftScreen), "");
    assert_eq!(runs(&plan), vec![Some(dbus("Window One Screen to the Left"))]);
}

#[test]
fn close_window_plans() {
    let plan = action_plan(Action::CloseWindow, "{w}");
    assert_eq!(runs(&plan), vec![Some(run(&["kdotool", "windowclose", "{w}"]))]);
    assert!(action_plan(Action::CloseWindow, "").is_empty());
    assert!(action_plan(Action::AutoTile, "{w}").is_empty());
    assert!(action_plan(Action::CustomTile(TileMode::BotLeft), "{w}").is_empty());
}

#[test]
fn maximize_plan_pauses_150() {
    let plan = maximize_plan("{w}");
    assert_eq!(plan.len(), 3);
    assert!(matches!(plan[1], Step::Pause(150)));
    assert_eq!(runs(&plan)[2], Some(dbus("Window Maximize")));
}

#[test]
fn numbers_are_formatted() {
    for v in [0, 7, 10, -1, -16, 1936, i32::MAX, i32::MIN, 1_000_000] {
        assert_eq!(format_i32(v), v.to_string());
    }
}

#[test]
fn move_plan_moves_sizes_moves() {
    let plan = move_plan("{w}", Placement { x: -16, y: 548, width: 936, height: 516 });
    assert_eq!(
        runs(&plan),
        vec![
            Some(run(&["kdotool", "windowmove", "{w}", "-16", "548"])),
            Some(run(&["kdotool", "windowsize", "{w}", "936", "516"])),
            Some(run(&["kdotool", "windowmove", "{w}", "-16", "548"])),
        ]
    );
}

#[test]
fn moves_plan_follows_moves() {
    let ws = vec![
        Window { id: "a".to_string(), title: "A".to_string(), x: 0, y: 0, width: 1, height: 1 },
        Window { id: "b".to_string(), title: "B".to_string(), x: 0, y: 0, width: 1, height: 1 },
    ];
    let moves = vec![(1, Placement { x: 1, y: 2, width: 3, height: 4 }), (0, Placement { x: 5, y: 6, width: 7, height: 8 })];
    let plan = moves_plan(&ws, &moves);
    assert_eq!(plan.len(), 6);
    assert_eq!(runs(&plan)[1], Some(run(&["kdotool", "windowsize", "b", "3", "4"])));
    assert_eq!(runs(&plan)[3], Some(run(&["kdotool", "windowmove", "a", "5", "6"])));
}

#[test]
fn button_pages() {
    let (top, bottom) = page_buttons(0);
    assert_eq!(top[0], ("◧ LEFT HALF", Action::CustomTile(TileMode::LeftHalf)));
    assert_eq!(bottom[3], ("TO RIGHT MON 📺", Action::KdeShortcut(Shortcut::ToRightScreen)));
    let (top, bottom) = page_buttons(1);
    assert_eq!(top[3], ("❌ CLOSE", Action::CloseWindow));
    assert_eq!(bottom[1], ("🎲 CHAOS TILE", Action::ChaosTile));
    assert_eq!(bottom[2].1, Action::SmartAudioSwap);
    assert_eq!(bottom[3].1, Action::SmartAudioSwap);
    assert_eq!(Shortcut::Fullscreen.name(), "Window Fullscreen");
}

#[test]
fn sinks_are_picked_from_listing() {
    let listing = "47\talsa_output.pci-0000_01_00.1.hdmi-stereo\tPipeWire\ts32le 2ch 48000Hz\tSUSPENDED\n\
                   48\talsa_output.usb-Generic_Headset-00.analog-stereo\tPipeWire\ts16le 2ch 48000Hz\tIDLE\n\
                   49\talsa_output.usb-Focusrite_Scarlett_2i2-00.analog-stereo\tPipeWire\ts32le 2ch 48000Hz\tRUNNING\n\
                   50\talsa_output.usb-Other-00.analog-stereo\tPipeWire\n";
    let (hdmi, desk) = pick_sinks(listing);
    assert_eq!(hdmi, "alsa_output.pci-0000_01_00.1.hdmi-stereo");
    assert_eq!(desk, "alsa_output.usb-Focusrite_Scarlett_2i2-00.analog-stereo");
}

#[test]
fn usb_sink_only_when_no_desk_yet() {
    let (hdmi, desk) = pick_sinks("1 usb-a\n2 usb-b\nonlyone\n");
    assert_eq!((hdmi.as_str(), desk.as_str()), ("", "usb-a"));
    assert_eq!(pick_sinks(""), (String::new(), String::new()));
}

#[test]
fn swap_targets() {
    assert_eq!(swap_target("alsa.hdmi-stereo\n", "h", "d"), Some("d".to_string()));
    assert_eq!(swap_target("alsa.hdmi-stereo\n", "h", ""), Some("h".to_string()));
    assert_eq!(swap_target("usb\n", "h", "d"), Some("h".to_string()));
    assert_eq!(swap_target("usb\n", "", "d"), None);
    match set_default_sink_step("d") {
        Step::Run(a) => assert_eq!(a, run(&["pactl", "set-default-sink", "d"])),
        Step::Pause(_) => panic!("expected a command"),
    }
}

#[test]
fn formatted_numbers_parse_back() {
    for v in [0, 5, -5, 1920, -1920, i32::MAX, i32::MIN, 100_000_007] {
        assert_eq!(tiledeck::text::parse_i32(&format_i32(v)), Some(v));
    }
}
