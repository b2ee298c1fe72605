use ichi::engine::Rect;
use ichi::window::choose_work_area;

fn primary() -> Rect {
    Rect { left: 0, top: 25, right: 1920, bottom: 1080 }
}

fn secondary() -> Rect {
    Rect { left: 1920, top: 0, right: 3840, bottom: 1080 }
}

#[test]
fn the_display_a_window_mostly_covers_wins() {
    let win = Rect { left: 1720, top: 100, right: 2920, bottom: 800 };
    assert_eq!(choose_work_area(win, &[primary(), secondary()]), Some(secondary()));
    let win = Rect { left: 100, top: 100, right: 1980, bottom: 800 };
    assert_eq!(choose_work_area(win, &[primary(), secondary()]), Some(primary()));
}

#[test]
fn an_offscreen_window_goes_to_the_nearest_display() {
    let win = Rect { left: 4000, top: 0, right: 4400, bottom: 300 };
    assert_eq!(choose_work_area(win, &[primary(), secondary()]), Some(secondary()));
    let win = Rect { left: -900, top: 0, right: -100, bottom: 500 };
    assert_eq!(choose_work_area(win, &[primary(), secondary()]), Some(primary()));
}

#[test]
fn ties_go_to_the_earlier_display_and_no_display_gives_none() {
    let win = Rect { left: 1820, top: 100, right: 2020, bottom: 200 };
    let a = Rect { left: 0, top: 0, right: 1920, bottom: 1080 };
    assert_eq!(choose_work_area(win, &[a, secondary()]), Some(a));
    assert_eq!(choose_work_area(win, &[secondary(), a]), Some(secondary()));
    assert_eq!(choose_work_area(win, &[]), None);
}
