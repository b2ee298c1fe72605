use ichi::config::Hotkeys;
use ichi::hotkeys::{
    fourcc, hotkey_target, prepare_binding, prepare_bindings, registration_failure, BindingFailure,
    HandlerInstallFailed, ICHI_SIGNATURE, K_EVENT_CLASS_KEYBOARD, K_EVENT_HOT_KEY_PRESSED,
    K_EVENT_PARAM_DIRECT_OBJECT, NO_ERR, TYPE_EVENT_HOT_KEY_ID,
};
use ichi::keycodes::{parse, CONTROL_KEY, OPTION_KEY};

#[test]
fn fourcc_matches_carbon_constants() {
    assert_eq!(K_EVENT_CLASS_KEYBOARD, 0x6B65_7962); // 'keyb'
    assert_eq!(K_EVENT_PARAM_DIRECT_OBJECT, 0x2D2D_2D2D); // '----'
    assert_eq!(TYPE_EVENT_HOT_KEY_ID, 0x686B_6964); // 'hkid'
}

#[test]
fn default_bindings_resolve_to_ctrl_option_keypad() {
    let expected = CONTROL_KEY | OPTION_KEY;
    for (_, position, shortcut) in Hotkeys::default().bindings() {
        let parsed = parse(shortcut).unwrap_or_else(|e| panic!("default binding {shortcut:?} is invalid: {e:?}"));
        assert_eq!(parsed.modifiers, expected, "position {position}");
    }
}

#[test]
fn old_hardcoded_keypad_codes_are_still_what_defaults_produce() {
    let expected: [(u32, u32); 9] = [
        (0x53, 1),
        (0x54, 2),
        (0x55, 3),
        (0x56, 4),
        (0x57, 5),
        (0x58, 6),
        (0x59, 7),
        (0x5B, 8),
        (0x5C, 9),
    ];
    for (_, position, shortcut) in Hotkeys::default().bindings() {
        let parsed = parse(shortcut).unwrap();
        let (want_code, _) = expected.iter().find(|(_, p)| *p == position).copied().unwrap();
        assert_eq!(parsed.key_code, want_code, "position {position}");
    }

    let mut codes: Vec<u32> = expected.iter().map(|(c, _)| *c).collect();
    codes.sort();
    codes.dedup();
    assert_eq!(codes.len(), 9, "duplicate key code in bindings");
    // 0x5A is kVK_F20 and must never appear among the keypad codes.
    assert!(!codes.contains(&0x5A));
}

#[test]
fn fourcc_packs_the_characters_big_endian() {
    assert_eq!(fourcc(b"keyb"), K_EVENT_CLASS_KEYBOARD);
    assert_eq!(fourcc(b"----"), K_EVENT_PARAM_DIRECT_OBJECT);
    assert_eq!(fourcc(b"hkid"), TYPE_EVENT_HOT_KEY_ID);
    assert_eq!(fourcc(b"ichi"), ICHI_SIGNATURE);
    assert_eq!(fourcc(&[0, 0, 0, 1]), 1);
    assert_eq!(fourcc(&[0xFF, 0, 0, 0]), 0xFF00_0000);
    assert_eq!(K_EVENT_HOT_KEY_PRESSED, 5);
    assert_eq!(NO_ERR, 0);
}

#[test]
fn a_bad_shortcut_is_reported_with_its_parse_error() {
    let failure = prepare_binding("top_left", "ctrl+nonsense").unwrap_err();
    assert_eq!(
        failure,
        BindingFailure {
            position_name: "top_left".into(),
            shortcut: "ctrl+nonsense".into(),
            reason: "unknown key or modifier \"nonsense\"".into(),
        }
    );
    assert_eq!(failure.describe(), "top_left = \"ctrl+nonsense\": unknown key or modifier \"nonsense\"");
    assert_eq!(prepare_binding("left", "ctrl+alt+keypad4"), Ok(parse("ctrl+alt+keypad4").unwrap()));
}

#[test]
fn bindings_are_prepared_in_order_and_one_bad_line_spares_the_rest() {
    let hotkeys = Hotkeys { top: "keypad8".into(), ..Hotkeys::default() };
    let plan = prepare_bindings(&hotkeys.bindings());
    assert_eq!(plan.len(), 9);
    for (i, entry) in plan.iter().enumerate() {
        if i == 7 {
            let failure = entry.as_ref().unwrap_err();
            assert_eq!(failure.position_name, "top");
            assert_eq!(failure.shortcut, "keypad8");
            assert_eq!(failure.reason, "shortcut needs at least one modifier, or it would swallow the bare keypress");
        } else {
            assert!(entry.is_ok());
        }
    }
}

#[test]
fn a_taken_shortcut_reports_the_status() {
    assert_eq!(registration_failure("left", "ctrl+alt+keypad4", NO_ERR), None);
    let failure = registration_failure("left", "ctrl+alt+keypad4", -9878).unwrap();
    assert_eq!(failure.position_name, "left");
    assert_eq!(failure.shortcut, "ctrl+alt+keypad4");
    assert_eq!(failure.reason, "already taken by another app (OSStatus -9878)");
    assert_eq!(
        failure.describe(),
        "left = \"ctrl+alt+keypad4\": already taken by another app (OSStatus -9878)"
    );
}

#[test]
fn handler_failure_message_shows_the_status() {
    assert_eq!(HandlerInstallFailed(-50).message(), "InstallEventHandler failed (OSStatus -50)");
    assert_eq!(HandlerInstallFailed(0).message(), "InstallEventHandler failed (OSStatus 0)");
    assert_eq!(HandlerInstallFailed(1234).message(), "InstallEventHandler failed (OSStatus 1234)");
    assert_eq!(HandlerInstallFailed(i32::MIN).message(), "InstallEventHandler failed (OSStatus -2147483648)");
}

#[test]
fn only_our_successfully_read_hotkeys_are_acted_on() {
    assert_eq!(hotkey_target(NO_ERR, ICHI_SIGNATURE, 7), Some(7));
    assert_eq!(hotkey_target(-1, ICHI_SIGNATURE, 7), None);
    assert_eq!(hotkey_target(NO_ERR, fourcc(b"othr"), 7), None);
}
