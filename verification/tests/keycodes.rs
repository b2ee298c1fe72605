use ichi::keycodes::{key_names, parse, ParseError, Shortcut, CMD_KEY, CONTROL_KEY, OPTION_KEY, SHIFT_KEY};

#[test]
fn parses_the_default_keypad_bindings() {
    let s = parse("ctrl+alt+keypad4").unwrap();
    assert_eq!(s.modifiers, CONTROL_KEY | OPTION_KEY);
    assert_eq!(s.key_code, 0x56);
}

#[test]
fn keypad_8_and_9_skip_the_f20_slot() {
    assert_eq!(parse("ctrl+keypad8").unwrap().key_code, 0x5B);
    assert_eq!(parse("ctrl+keypad9").unwrap().key_code, 0x5C);
    assert_eq!(parse("ctrl+f20").unwrap().key_code, 0x5A);
}

#[test]
fn alt_and_opt_are_interchangeable() {
    assert_eq!(parse("ctrl+alt+left"), parse("ctrl+opt+left"));
    assert_eq!(parse("ctrl+alt+left"), parse("ctrl+option+left"));
}

#[test]
fn is_case_and_whitespace_insensitive() {
    assert_eq!(parse("CTRL+Alt+KeyPad4"), parse("ctrl+alt+keypad4"));
    assert_eq!(parse("  ctrl + alt + keypad4  "), parse("ctrl+alt+keypad4"));
}

#[test]
fn accumulates_all_four_modifiers() {
    let s = parse("cmd+shift+ctrl+opt+u").unwrap();
    assert_eq!(s.modifiers, CMD_KEY | SHIFT_KEY | CONTROL_KEY | OPTION_KEY);
    assert_eq!(s.key_code, 0x20);
}

#[test]
fn rejects_a_shortcut_with_no_modifiers() {
    assert_eq!(parse("a"), Err(ParseError::NoModifiers));
    assert_eq!(parse("keypad4"), Err(ParseError::NoModifiers));
}

#[test]
fn rejects_malformed_input() {
    assert_eq!(parse(""), Err(ParseError::Empty));
    assert_eq!(parse("ctrl+alt"), Err(ParseError::NoKey));
    assert_eq!(parse("ctrl+a+b"), Err(ParseError::MultipleKeys));
    assert_eq!(parse("ctrl+nonsense"), Err(ParseError::UnknownToken("nonsense".into())));
}

#[test]
fn key_table_has_no_duplicate_names() {
    let mut names: Vec<&str> = key_names().iter().map(|(n, _)| *n).collect();
    names.sort_unstable();
    let before = names.len();
    names.dedup();
    assert_eq!(before, names.len(), "duplicate key name in KEY_NAMES");
}

#[test]
fn arrow_keys_resolve_for_laptop_friendly_bindings() {
    assert_eq!(parse("ctrl+opt+left").unwrap().key_code, 0x7B);
    assert_eq!(parse("ctrl+opt+right").unwrap().key_code, 0x7C);
    assert_eq!(parse("ctrl+opt+down").unwrap().key_code, 0x7D);
    assert_eq!(parse("ctrl+opt+up").unwrap().key_code, 0x7E);
}

#[test]
fn modifier_masks_match_carbon() {
    assert_eq!(CMD_KEY, 1 << 8);
    assert_eq!(SHIFT_KEY, 1 << 9);
    assert_eq!(OPTION_KEY, 1 << 11);
    assert_eq!(CONTROL_KEY, 1 << 12);
}

#[test]
fn whitespace_only_input_is_empty() {
    assert_eq!(parse("   \t "), Err(ParseError::Empty));
    assert_eq!(parse("\u{3000}"), Err(ParseError::Empty));
}

#[test]
fn blank_tokens_between_plus_signs_are_skipped() {
    assert_eq!(parse("ctrl++a"), Ok(Shortcut { modifiers: CONTROL_KEY, key_code: 0x00 }));
    assert_eq!(parse("+ctrl+a+"), Ok(Shortcut { modifiers: CONTROL_KEY, key_code: 0x00 }));
    assert_eq!(parse("+"), Err(ParseError::NoKey));
}

#[test]
fn errors_come_in_token_order() {
    // An unknown token is reported even after a key; a second key before it wins.
    assert_eq!(parse("ctrl+a+zzz"), Err(ParseError::UnknownToken("zzz".into())));
    assert_eq!(parse("ctrl+a+b+zzz"), Err(ParseError::MultipleKeys));
    assert_eq!(parse("ctrl+zzz+a+b"), Err(ParseError::UnknownToken("zzz".into())));
    // No key is reported before a missing modifier.
    assert_eq!(parse("   "), Err(ParseError::Empty));
    assert_eq!(parse("shift"), Err(ParseError::NoKey));
}

#[test]
fn unknown_tokens_are_reported_lower_cased_and_trimmed() {
    assert_eq!(parse("Ctrl+ NonSense "), Err(ParseError::UnknownToken("nonsense".into())));
}

#[test]
fn aliases_resolve_to_the_same_key_or_modifier() {
    assert_eq!(parse("cmd+a"), parse("command+a"));
    assert_eq!(parse("cmd+a"), parse("super+a"));
    assert_eq!(parse("ctrl+a"), parse("control+a"));
    assert_eq!(parse("ctrl+return"), parse("ctrl+enter"));
    assert_eq!(parse("ctrl+delete"), parse("ctrl+backspace"));
    assert_eq!(parse("ctrl+escape"), parse("ctrl+esc"));
    assert_eq!(parse("ctrl+ctrl+a"), parse("ctrl+a"));
}

#[test]
fn error_messages_explain_the_problem() {
    assert_eq!(ParseError::Empty.message(), "shortcut is empty");
    assert_eq!(ParseError::UnknownToken("nonsense".into()).message(), "unknown key or modifier \"nonsense\"");
    assert_eq!(ParseError::UnknownToken("a\"b".into()).message(), "unknown key or modifier \"a\\\"b\"");
    assert_eq!(ParseError::NoKey.message(), "shortcut has modifiers but no key");
    assert_eq!(ParseError::MultipleKeys.message(), "shortcut has more than one non-modifier key");
    assert_eq!(
        ParseError::NoModifiers.message(),
        "shortcut needs at least one modifier, or it would swallow the bare keypress"
    );
}

#[test]
fn key_table_holds_every_documented_key() {
    let names: Vec<&str> = key_names().iter().map(|(n, _)| *n).collect();
    assert_eq!(names.len(), 102);
    for name in ["a", "z", "0", "9", "keypad0", "keypad9", "left", "up", "f1", "f20", "return", "space", "tab",
        "escape", "delete", "home", "end", "pageup", "pagedown", "comma", "period", "slash", "minus", "equal",
        "semicolon", "quote", "grave", "backslash", "leftbracket", "rightbracket"]
    {
        assert!(names.contains(&name), "{name} missing");
        assert!(parse(&format!("ctrl+{name}")).is_ok());
    }
}

#[test]
fn token_order_and_repeated_modifiers_do_not_matter() {
    assert_eq!(parse("alt+ctrl+keypad4"), parse("ctrl+alt+keypad4"));
    assert_eq!(parse("keypad4+ctrl+alt"), parse("ctrl+alt+keypad4"));
    assert_eq!(parse("ctrl+alt+ctrl+keypad4+alt"), parse("ctrl+alt+keypad4"));
}
