use ichi::config::{Config, Gaps, Hotkeys};
use ichi::engine::Ratio;

fn ratio(num: i32, den: i32) -> Ratio {
    Ratio { num, den }
}

#[test]
fn defaults_match_the_windows_bindings() {
    let hotkeys = Hotkeys::default();
    assert_eq!(hotkeys.left, "ctrl+alt+keypad4");
    assert_eq!(hotkeys.center, "ctrl+alt+keypad5");
    assert_eq!(hotkeys.top_right, "ctrl+alt+keypad9");
}

#[test]
fn bindings_cover_all_nine_positions_once() {
    let hotkeys = Hotkeys::default();
    let bindings = hotkeys.bindings();
    assert_eq!(bindings.len(), 9);

    let mut positions: Vec<u32> = bindings.iter().map(|(_, p, _)| *p).collect();
    positions.sort_unstable();
    assert_eq!(positions, (1..=9).collect::<Vec<_>>());

    // Each field must be wired to its own shortcut, not aliased to a neighbour.
    let mut shortcuts: Vec<&str> = bindings.iter().map(|(_, _, s)| *s).collect();
    shortcuts.sort_unstable();
    shortcuts.dedup();
    assert_eq!(shortcuts.len(), 9, "two positions share a shortcut");
}

#[test]
fn bindings_map_each_name_to_its_own_field() {
    let hotkeys = Hotkeys { left: "ctrl+a".into(), right: "ctrl+b".into(), ..Hotkeys::default() };
    let bindings = hotkeys.bindings();
    let find = |name: &str| bindings.iter().find(|(n, _, _)| *n == name).map(|(_, _, s)| *s).unwrap();
    assert_eq!(find("left"), "ctrl+a");
    assert_eq!(find("right"), "ctrl+b");
}

#[test]
fn sanitise_drops_out_of_range_ratios() {
    let config = Config {
        cycle_ratios: vec![ratio(1, 2), ratio(0, 1), ratio(-1, 1), ratio(5, 2), ratio(1, 4)],
        ..Config::default()
    }
    .sanitise();
    assert_eq!(config.cycle_ratios, vec![ratio(1, 2), ratio(1, 4)]);
}

#[test]
fn sanitise_restores_defaults_when_every_ratio_is_invalid() {
    let config = Config {
        cycle_ratios: vec![ratio(0, 1), ratio(-3, 1)],
        center_ratios: vec![ratio(99, 10)],
        ..Config::default()
    }
    .sanitise();
    assert_eq!(config.cycle_ratios, Config::default().cycle_ratios);
    assert_eq!(config.center_ratios, Config::default().center_ratios);
}

#[test]
fn sanitise_clamps_negative_gaps() {
    let config = Config { gaps: Gaps { screen_edge: -20, between_windows: -1 }, ..Config::default() }.sanitise();
    assert_eq!(config.gaps.screen_edge, 0);
    assert_eq!(config.gaps.between_windows, 0);
}

#[test]
fn bindings_follow_keypad_order_with_their_names() {
    let hotkeys = Hotkeys::default();
    let names: Vec<&str> = hotkeys.bindings().iter().map(|(n, _, _)| *n).collect();
    assert_eq!(
        names,
        vec!["bottom_left", "bottom", "bottom_right", "left", "center", "right", "top_left", "top", "top_right"]
    );
    for (_, position, shortcut) in hotkeys.bindings() {
        assert_eq!(shortcut, format!("ctrl+alt+keypad{position}"));
    }
}

#[test]
fn default_ratios_are_halves_thirds_and_centre_percentages() {
    let config = Config::default();
    assert_eq!(config.cycle_ratios, vec![ratio(1, 2), ratio(1, 3), ratio(2, 3)]);
    assert_eq!(config.center_ratios, vec![ratio(1, 1), ratio(4, 5), ratio(3, 5)]);
    assert_eq!(config.gaps, Gaps { screen_edge: 0, between_windows: 0 });
    assert_eq!(config.gaps, Gaps::default());
}

#[test]
fn sanitising_twice_changes_nothing_more() {
    let once = Config {
        cycle_ratios: vec![ratio(3, 2), ratio(1, 3), ratio(0, 5)],
        center_ratios: vec![],
        gaps: Gaps { screen_edge: -3, between_windows: 8 },
        ..Config::default()
    }
    .sanitise();
    assert_eq!(once.cycle_ratios, vec![ratio(1, 3)]);
    assert_eq!(once.center_ratios, Config::default().center_ratios);
    assert_eq!(once.gaps, Gaps { screen_edge: 0, between_windows: 8 });
    let twice = once.clone().sanitise();
    assert_eq!(twice, once);
}
