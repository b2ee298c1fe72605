use ichi::config::Config;
use ichi::engine::{apply_window_gap, calculate_snap, ratio_at, scale_len, Ratio, Rect, SnapConfig};

/// A 1920x1080 display whose work area starts 25px down (menu bar).
fn work() -> Rect {
    Rect { left: 0, top: 25, right: 1920, bottom: 1080 }
}

fn snap(key: u32, cycle: usize) -> Rect {
    calculate_snap(key, cycle, Rect::default(), work(), &SnapConfig::default())
}

fn snap_with(key: u32, cycle: usize, config: &SnapConfig) -> Rect {
    calculate_snap(key, cycle, Rect::default(), work(), config)
}

fn ratio(num: i32, den: i32) -> Ratio {
    Ratio { num, den }
}

#[test]
fn left_half_then_third_then_two_thirds() {
    let w = work();
    assert_eq!(snap(4, 0), Rect { left: 0, top: 25, right: 960, bottom: 1080 });
    assert_eq!(snap(4, 1).width(), (w.width() as f64 / 3.0) as i32);
    assert_eq!(snap(4, 2).width(), (w.width() as f64 * 2.0 / 3.0) as i32);
    // Cycle wraps back to a half on the fourth tap.
    assert_eq!(snap(4, 3), snap(4, 0));
}

#[test]
fn left_and_right_halves_tile_without_gap_or_overlap() {
    let l = snap(4, 0);
    let r = snap(6, 0);
    assert_eq!(l.right, r.left);
    assert_eq!(l.left, work().left);
    assert_eq!(r.right, work().right);
}

#[test]
fn vertical_halves_respect_the_menu_bar_inset() {
    let top = snap(8, 0);
    let bottom = snap(2, 0);
    assert_eq!(top.top, work().top, "top half must start below the menu bar");
    assert_eq!(bottom.bottom, work().bottom);
    // Full width for the vertical halves.
    assert_eq!(top.width(), work().width());
    // On the odd 1055px height each half truncates to 527, leaving a 1px seam.
    assert!(
        (top.bottom - bottom.top).abs() <= 1,
        "halves should meet within a pixel, got {} vs {}",
        top.bottom,
        bottom.top
    );
}

#[test]
fn halves_meet_exactly_when_the_work_area_divides_evenly() {
    let w = Rect { left: 0, top: 0, right: 1920, bottom: 1080 };
    let cfg = SnapConfig::default();
    let top = calculate_snap(8, 0, Rect::default(), w, &cfg);
    let bottom = calculate_snap(2, 0, Rect::default(), w, &cfg);
    assert_eq!(top.bottom, bottom.top);
    assert_eq!(top.height(), 540);
}

#[test]
fn center_cycles_100_80_60_percent_and_stays_centered() {
    let w = work();
    for (cycle, ratio) in [(0usize, 1.0f64), (1, 0.8), (2, 0.6)] {
        let c = snap(5, cycle);
        assert_eq!(c.width(), (w.width() as f64 * ratio) as i32);
        assert_eq!(c.height(), (w.height() as f64 * ratio) as i32);
        let left_margin = c.left - w.left;
        let right_margin = w.right - c.right;
        assert!((left_margin - right_margin).abs() <= 1, "cycle {cycle} not centered");
    }
}

#[test]
fn all_four_corners_stay_inside_the_work_area() {
    let w = work();
    for key in [1, 3, 7, 9] {
        for cycle in 0..3 {
            let c = snap(key, cycle);
            assert!(c.left >= w.left, "key {key} cycle {cycle} escapes left");
            assert!(c.top >= w.top, "key {key} cycle {cycle} escapes top");
            assert!(c.right <= w.right, "key {key} cycle {cycle} escapes right");
            assert!(c.bottom <= w.bottom, "key {key} cycle {cycle} escapes bottom");
        }
    }
}

#[test]
fn corners_anchor_to_their_named_edges() {
    let w = work();
    assert_eq!((snap(7, 0).left, snap(7, 0).top), (w.left, w.top));
    assert_eq!((snap(9, 0).right, snap(9, 0).top), (w.right, w.top));
    assert_eq!((snap(1, 0).left, snap(1, 0).bottom), (w.left, w.bottom));
    assert_eq!((snap(3, 0).right, snap(3, 0).bottom), (w.right, w.bottom));
}

#[test]
fn work_area_offset_is_honoured_on_a_secondary_display() {
    let w = Rect { left: 1920, top: 0, right: 3840, bottom: 1080 };
    let left_half = calculate_snap(4, 0, Rect::default(), w, &SnapConfig::default());
    assert_eq!(left_half, Rect { left: 1920, top: 0, right: 2880, bottom: 1080 });
}

#[test]
fn intersection_area_picks_the_dominant_display() {
    let primary = Rect { left: 0, top: 0, right: 1920, bottom: 1080 };
    let secondary = Rect { left: 1920, top: 0, right: 3840, bottom: 1080 };
    // Window straddling the seam, mostly on the secondary.
    let win = Rect { left: 1720, top: 100, right: 2920, bottom: 800 };
    assert!(win.intersection_area(&secondary) > win.intersection_area(&primary));
    // A window entirely off both displays intersects neither.
    let orphan = Rect { left: -900, top: 0, right: -100, bottom: 500 };
    assert_eq!(orphan.intersection_area(&primary), 0);
}

fn gapped(screen_edge: i32, between_windows: i32) -> SnapConfig {
    SnapConfig { screen_edge_gap: screen_edge, window_gap: between_windows, ..SnapConfig::default() }
}

#[test]
fn default_config_matches_the_windows_build_exactly() {
    // Zero gaps must be a true no-op, not an off-by-one.
    let cfg = gapped(0, 0);
    for key in 1..=9 {
        for cycle in 0..3 {
            assert_eq!(
                snap_with(key, cycle, &cfg),
                snap(key, cycle),
                "key {key} cycle {cycle} drifted from the default"
            );
        }
    }
}

#[test]
fn screen_edge_gap_insets_every_outer_edge() {
    let w = work();
    let cfg = gapped(10, 0);
    let left = snap_with(4, 0, &cfg);
    assert_eq!(left.left, w.left + 10);
    assert_eq!(left.top, w.top + 10);
    assert_eq!(left.bottom, w.bottom - 10);

    let right = snap_with(6, 0, &cfg);
    assert_eq!(right.right, w.right - 10);
}

#[test]
fn window_gap_separates_adjacent_windows_by_the_full_value() {
    let cfg = gapped(0, 20);
    let left = snap_with(4, 0, &cfg);
    let right = snap_with(6, 0, &cfg);
    assert_eq!(right.left - left.right, 20);
}

#[test]
fn window_gap_leaves_outer_edges_untouched() {
    let w = work();
    let cfg = gapped(0, 20);
    let left = snap_with(4, 0, &cfg);
    assert_eq!(left.left, w.left);
    assert_eq!(left.top, w.top);
    assert_eq!(left.bottom, w.bottom);
    assert!(left.right < w.right / 2);
}

#[test]
fn both_gaps_combine_without_double_counting_the_outer_margin() {
    let w = work();
    let cfg = gapped(10, 20);
    let left = snap_with(4, 0, &cfg);
    let right = snap_with(6, 0, &cfg);
    assert_eq!(left.left, w.left + 10);
    assert_eq!(right.right, w.right - 10);
    assert_eq!(right.left - left.right, 20);
}

#[test]
fn an_absurd_gap_does_not_invert_the_rect() {
    let cfg = gapped(0, 100_000);
    let r = snap_with(4, 0, &cfg);
    assert!(r.width() > 0 && r.height() > 0);
}

#[test]
fn centered_window_gets_the_gap_on_all_four_sides() {
    let cfg = gapped(0, 20);
    let c = snap_with(5, 1, &cfg);
    let plain = snap(5, 1);
    assert_eq!(c.left - plain.left, 10);
    assert_eq!(c.top - plain.top, 10);
    assert_eq!(plain.right - c.right, 10);
    assert_eq!(plain.bottom - c.bottom, 10);
}

#[test]
fn custom_cycle_ratios_replace_the_defaults() {
    let cfg = SnapConfig { cycle_ratios: vec![ratio(1, 4), ratio(3, 4)], ..SnapConfig::default() };
    let w = work();
    assert_eq!(snap_with(4, 0, &cfg).width(), (w.width() as f64 * 0.25) as i32);
    assert_eq!(snap_with(4, 1, &cfg).width(), (w.width() as f64 * 0.75) as i32);
    // Two entries means the cycle wraps every two taps, not every three.
    assert_eq!(snap_with(4, 2, &cfg), snap_with(4, 0, &cfg));
}

#[test]
fn a_single_ratio_disables_cycling() {
    let cfg = SnapConfig { cycle_ratios: vec![ratio(1, 2)], ..SnapConfig::default() };
    for cycle in 0..5 {
        assert_eq!(snap_with(4, cycle, &cfg), snap_with(4, 0, &cfg));
    }
}

#[test]
fn custom_center_ratios_are_independent_of_the_grid_ratios() {
    let cfg = SnapConfig {
        cycle_ratios: vec![ratio(1, 2)],
        center_ratios: vec![ratio(9, 10), ratio(9, 20)],
        ..SnapConfig::default()
    };
    let w = work();
    assert_eq!(snap_with(5, 0, &cfg).width(), (w.width() as f64 * 0.9) as i32);
    assert_eq!(snap_with(5, 1, &cfg).width(), (w.width() as f64 * 0.45) as i32);
}

#[test]
fn an_empty_ratio_list_falls_back_instead_of_panicking() {
    let cfg = SnapConfig { cycle_ratios: vec![], center_ratios: vec![], ..SnapConfig::default() };
    assert_eq!(snap_with(4, 0, &cfg).width(), work().width() / 2);
    assert_eq!(snap_with(5, 0, &cfg).width(), work().width());
}

#[test]
fn snap_config_derives_from_user_config() {
    let mut config = Config::default();
    config.gaps.screen_edge = 7;
    config.gaps.between_windows = 3;
    config.cycle_ratios = vec![ratio(2, 5)];
    let snap_config = SnapConfig::from(&config);
    assert_eq!(snap_config.screen_edge_gap, 7);
    assert_eq!(snap_config.window_gap, 3);
    assert_eq!(snap_config.cycle_ratios, vec![ratio(2, 5)]);
}

#[test]
fn overlap_is_symmetric_and_a_rect_overlaps_itself_fully() {
    let a = Rect { left: 0, top: 0, right: 100, bottom: 50 };
    let b = Rect { left: 60, top: 20, right: 300, bottom: 400 };
    assert_eq!(a.intersection_area(&b), b.intersection_area(&a));
    assert_eq!(a.intersection_area(&b), 40 * 30);
    assert_eq!(a.intersection_area(&a), 100 * 50);
    // Touching edges do not overlap.
    let c = Rect { left: 100, top: 0, right: 200, bottom: 50 };
    assert_eq!(a.intersection_area(&c), 0);
}

#[test]
fn center_rounds_toward_the_near_edge() {
    assert_eq!(Rect { left: 0, top: 0, right: 5, bottom: 3 }.center(), (2, 1));
    assert_eq!(Rect { left: -10, top: 4, right: 0, bottom: 10 }.center(), (-5, 7));
    assert_eq!(Rect { left: 0, top: 0, right: 1920, bottom: 1080 }.width(), 1920);
    assert_eq!(Rect { left: 0, top: 25, right: 1920, bottom: 1080 }.height(), 1055);
}

#[test]
fn inset_moves_every_edge_inward() {
    let r = Rect { left: 10, top: 20, right: 110, bottom: 220 }.inset(5);
    assert_eq!(r, Rect { left: 15, top: 25, right: 105, bottom: 215 });
}

#[test]
fn centre_position_wraps_with_the_centre_ratio_list() {
    // Three centre ratios: the fourth tap is the first again.
    assert_eq!(snap(5, 3), snap(5, 0));
    assert_ne!(snap(5, 1), snap(5, 0));
}

#[test]
fn unknown_keys_fill_the_work_area() {
    assert_eq!(snap(0, 0), work());
    assert_eq!(snap(10, 2), work());
}

#[test]
fn ratios_scale_toward_zero_and_a_zero_denominator_scales_to_nothing() {
    assert_eq!(scale_len(1055, &ratio(1, 2)), 527);
    assert_eq!(scale_len(-7, &ratio(1, 2)), -3);
    assert_eq!(scale_len(1920, &ratio(1, 3)), 640);
    assert_eq!(scale_len(100, &ratio(5, 2)), 250);
    assert_eq!(scale_len(100, &ratio(1, 0)), 0);
    assert_eq!(scale_len(i32::MAX, &ratio(3, 1)), i32::MAX);
    assert!(ratio(1, 1).is_usable());
    assert!(!ratio(0, 1).is_usable());
    assert!(!ratio(3, 2).is_usable());
    assert!(!ratio(-1, -2).is_usable());
}

#[test]
fn an_odd_window_gap_still_separates_neighbours_by_the_full_value() {
    let area = Rect { left: 0, top: 0, right: 100, bottom: 100 };
    let inner = Rect { left: 10, top: 0, right: 90, bottom: 100 };
    // The low edge gives up the smaller half, the high edge the rest.
    assert_eq!(apply_window_gap(inner, area, 21), Rect { left: 20, top: 0, right: 79, bottom: 100 });
    let left = Rect { left: 0, top: 0, right: 50, bottom: 100 };
    let right = Rect { left: 50, top: 0, right: 100, bottom: 100 };
    let gl = apply_window_gap(left, area, 21);
    let gr = apply_window_gap(right, area, 21);
    assert_eq!(gr.left - gl.right, 21);
    let top = Rect { left: 0, top: 0, right: 100, bottom: 50 };
    let bottom = Rect { left: 0, top: 50, right: 100, bottom: 100 };
    assert_eq!(apply_window_gap(bottom, area, 7).top - apply_window_gap(top, area, 7).bottom, 7);
    // No gap, or a negative one, changes nothing.
    assert_eq!(apply_window_gap(inner, area, 0), inner);
    assert_eq!(apply_window_gap(inner, area, -4), inner);
}

#[test]
fn odd_window_gaps_separate_snapped_halves_by_the_full_value() {
    let cfg = gapped(0, 21);
    assert_eq!(snap_with(6, 0, &cfg).left - snap_with(4, 0, &cfg).right, 21);
    // 1055 is odd: the one-pixel seam comes on top of the gap.
    assert_eq!(snap_with(2, 0, &cfg).top - snap_with(8, 0, &cfg).bottom, 22);
}

#[test]
fn ratio_at_wraps_and_falls_back() {
    let list = vec![ratio(1, 2), ratio(1, 3)];
    assert_eq!(ratio_at(&list, 3, ratio(1, 1)), ratio(1, 3));
    assert_eq!(ratio_at(&vec![], 3, ratio(1, 1)), ratio(1, 1));
}

#[test]
fn screen_edge_gap_shrinks_the_centred_window_area() {
    let cfg = gapped(10, 0);
    let c = snap_with(5, 0, &cfg);
    assert_eq!(c, Rect { left: 10, top: 35, right: 1910, bottom: 1070 });
}
