//! Parsing human-written shortcut strings into Carbon hotkey parameters.
//!
//! A shortcut is modifiers plus exactly one key, joined by `+`:
//!
//! ```text
//! ctrl+alt+keypad4      the default bindings
//! ctrl+opt+left         `opt` and `alt` are the same physical key
//! cmd+shift+u
//! ```
//!
//! Parsing is case-insensitive and tolerant of spaces around the `+`.

use vstd::prelude::*;
use vstd::string::*;
use crate::text::{
    chars_equal, chars_of, debug_quoted, str_debug, lemma_trim_idempotent, lemma_trim_lower_commute, lower, lower_chars,
    string_of, trim, trim_chars,
};

verus! {

/// Carbon modifier masks from `Events.h`.
pub const CMD_KEY: u32 = 0x100;
pub const SHIFT_KEY: u32 = 0x200;
pub const OPTION_KEY: u32 = 0x800;
pub const CONTROL_KEY: u32 = 0x1000;

/// Key names and their `kVK_*` virtual key codes from `HIToolbox/Events.h`.
///
/// The keypad digits are not contiguous: 8 and 9 are 0x5B/0x5C because 0x5A
/// is `kVK_F20`.
pub open spec fn key_table() -> Seq<(Seq<char>, u32)> {
    seq![
        // Keypad.
        ("keypad0"@, 0x52u32),
        ("keypad1"@, 0x53u32),
        ("keypad2"@, 0x54u32),
        ("keypad3"@, 0x55u32),
        ("keypad4"@, 0x56u32),
        ("keypad5"@, 0x57u32),
        ("keypad6"@, 0x58u32),
        ("keypad7"@, 0x59u32),
        ("keypad8"@, 0x5Bu32),
        ("keypad9"@, 0x5Cu32),
        ("keypadclear"@, 0x47u32),
        ("keypaddivide"@, 0x4Bu32),
        ("keypadenter"@, 0x4Cu32),
        ("keypadequals"@, 0x51u32),
        ("keypadminus"@, 0x4Eu32),
        ("keypadmultiply"@, 0x43u32),
        ("keypadplus"@, 0x45u32),
        ("keypaddecimal"@, 0x41u32),
        // Letters.
        ("a"@, 0x00u32),
        ("b"@, 0x0Bu32),
        ("c"@, 0x08u32),
        ("d"@, 0x02u32),
        ("e"@, 0x0Eu32),
        ("f"@, 0x03u32),
        ("g"@, 0x05u32),
        ("h"@, 0x04u32),
        ("i"@, 0x22u32),
        ("j"@, 0x26u32),
        ("k"@, 0x28u32),
        ("l"@, 0x25u32),
        ("m"@, 0x2Eu32),
        ("n"@, 0x2Du32),
        ("o"@, 0x1Fu32),
        ("p"@, 0x23u32),
        ("q"@, 0x0Cu32),
        ("r"@, 0x0Fu32),
        ("s"@, 0x01u32),
        ("t"@, 0x11u32),
        ("u"@, 0x20u32),
        ("v"@, 0x09u32),
        ("w"@, 0x0Du32),
        ("x"@, 0x07u32),
        ("y"@, 0x10u32),
        ("z"@, 0x06u32),
        // Number row.
        ("0"@, 0x1Du32),
        ("1"@, 0x12u32),
        ("2"@, 0x13u32),
        ("3"@, 0x14u32),
        ("4"@, 0x15u32),
        ("5"@, 0x17u32),
        ("6"@, 0x16u32),
        ("7"@, 0x1Au32),
        ("8"@, 0x1Cu32),
        ("9"@, 0x19u32),
        // Arrows — the natural laptop alternative to the keypad.
        ("left"@, 0x7Bu32),
        ("right"@, 0x7Cu32),
        ("down"@, 0x7Du32),
        ("up"@, 0x7Eu32),
        // Editing and whitespace.
        ("return"@, 0x24u32),
        ("enter"@, 0x24u32),
        ("tab"@, 0x30u32),
        ("space"@, 0x31u32),
        ("delete"@, 0x33u32),
        ("backspace"@, 0x33u32),
        ("escape"@, 0x35u32),
        ("esc"@, 0x35u32),
        ("forwarddelete"@, 0x75u32),
        ("home"@, 0x73u32),
        ("end"@, 0x77u32),
        ("pageup"@, 0x74u32),
        ("pagedown"@, 0x79u32),
        // Punctuation.
        ("minus"@, 0x1Bu32),
        ("equal"@, 0x18u32),
        ("leftbracket"@, 0x21u32),
        ("rightbracket"@, 0x1Eu32),
        ("backslash"@, 0x2Au32),
        ("semicolon"@, 0x29u32),
        ("quote"@, 0x27u32),
        ("comma"@, 0x2Bu32),
        ("period"@, 0x2Fu32),
        ("slash"@, 0x2Cu32),
        ("grave"@, 0x32u32),
        // Function keys.
        ("f1"@, 0x7Au32),
        ("f2"@, 0x78u32),
        ("f3"@, 0x63u32),
        ("f4"@, 0x76u32),
        ("f5"@, 0x60u32),
        ("f6"@, 0x61u32),
        ("f7"@, 0x62u32),
        ("f8"@, 0x64u32),
        ("f9"@, 0x65u32),
        ("f10"@, 0x6Du32),
        ("f11"@, 0x67u32),
        ("f12"@, 0x6Fu32),
        ("f13"@, 0x69u32),
        ("f14"@, 0x6Bu32),
        ("f15"@, 0x71u32),
        ("f16"@, 0x6Au32),
        ("f17"@, 0x40u32),
        ("f18"@, 0x4Fu32),
        ("f19"@, 0x50u32),
        ("f20"@, 0x5Au32),
    ]
}

/// The code of the first entry of `table` named `name`.
pub open spec fn lookup(table: Seq<(Seq<char>, u32)>, name: Seq<char>) -> Option<u32>
    decreases table.len(),
{
    if table.len() == 0 {
        None
    } else if table[0].0 == name {
        Some(table[0].1)
    } else {
        lookup(table.drop_first(), name)
    }
}

/// The virtual key code of key name `name`, if it is one.
pub open spec fn key_code_of(name: Seq<char>) -> Option<u32> {
    lookup(key_table(), name)
}

/// The table of key names and codes that shortcuts may use.
pub fn key_names() -> (v: Vec<(&'static str, u32)>)
    ensures
        v@.len() == key_table().len(),
        forall|i: int| 0 <= i < v@.len() ==> (#[trigger] v@[i]).0@ == key_table()[i].0 && v@[i].1 == key_table()[i].1,
{
    vec![
        // Keypad.
        ("keypad0", 0x52u32),
        ("keypad1", 0x53u32),
        ("keypad2", 0x54u32),
        ("keypad3", 0x55u32),
        ("keypad4", 0x56u32),
        ("keypad5", 0x57u32),
        ("keypad6", 0x58u32),
        ("keypad7", 0x59u32),
        ("keypad8", 0x5Bu32),
        ("keypad9", 0x5Cu32),
        ("keypadclear", 0x47u32),
        ("keypaddivide", 0x4Bu32),
        ("keypadenter", 0x4Cu32),
        ("keypadequals", 0x51u32),
        ("keypadminus", 0x4Eu32),
        ("keypadmultiply", 0x43u32),
        ("keypadplus", 0x45u32),
        ("keypaddecimal", 0x41u32),
        // Letters.
        ("a", 0x00u32),
        ("b", 0x0Bu32),
        ("c", 0x08u32),
        ("d", 0x02u32),
        ("e", 0x0Eu32),
        ("f", 0x03u32),
        ("g", 0x05u32),
        ("h", 0x04u32),
        ("i", 0x22u32),
        ("j", 0x26u32),
        ("k", 0x28u32),
        ("l", 0x25u32),
        ("m", 0x2Eu32),
        ("n", 0x2Du32),
        ("o", 0x1Fu32),
        ("p", 0x23u32),
        ("q", 0x0Cu32),
        ("r", 0x0Fu32),
        ("s", 0x01u32),
        ("t", 0x11u32),
        ("u", 0x20u32),
        ("v", 0x09u32),
        ("w", 0x0Du32),
        ("x", 0x07u32),
        ("y", 0x10u32),
        ("z", 0x06u32),
        // Number row.
        ("0", 0x1Du32),
        ("1", 0x12u32),
        ("2", 0x13u32),
        ("3", 0x14u32),
        ("4", 0x15u32),
        ("5", 0x17u32),
        ("6", 0x16u32),
        ("7", 0x1Au32),
        ("8", 0x1Cu32),
        ("9", 0x19u32),
        // Arrows — the natural laptop alternative to the keypad.
        ("left", 0x7Bu32),
        ("right", 0x7Cu32),
        ("down", 0x7Du32),
        ("up", 0x7Eu32),
        // Editing and whitespace.
        ("return", 0x24u32),
        ("enter", 0x24u32),
        ("tab", 0x30u32),
        ("space", 0x31u32),
        ("delete", 0x33u32),
        ("backspace", 0x33u32),
        ("escape", 0x35u32),
        ("esc", 0x35u32),
        ("forwarddelete", 0x75u32),
        ("home", 0x73u32),
        ("end", 0x77u32),
        ("pageup", 0x74u32),
        ("pagedown", 0x79u32),
        // Punctuation.
        ("minus", 0x1Bu32),
        ("equal", 0x18u32),
        ("leftbracket", 0x21u32),
        ("rightbracket", 0x1Eu32),
        ("backslash", 0x2Au32),
        ("semicolon", 0x29u32),
        ("quote", 0x27u32),
        ("comma", 0x2Bu32),
        ("period", 0x2Fu32),
        ("slash", 0x2Cu32),
        ("grave", 0x32u32),
        // Function keys.
        ("f1", 0x7Au32),
        ("f2", 0x78u32),
        ("f3", 0x63u32),
        ("f4", 0x76u32),
        ("f5", 0x60u32),
        ("f6", 0x61u32),
        ("f7", 0x62u32),
        ("f8", 0x64u32),
        ("f9", 0x65u32),
        ("f10", 0x6Du32),
        ("f11", 0x67u32),
        ("f12", 0x6Fu32),
        ("f13", 0x69u32),
        ("f14", 0x6Bu32),
        ("f15", 0x71u32),
        ("f16", 0x6Au32),
        ("f17", 0x40u32),
        ("f18", 0x4Fu32),
        ("f19", 0x50u32),
        ("f20", 0x5Au32),
    ]
}

/// The modifier mask a token names, if it names one. `alt`, `opt` and
/// `option` are the same physical key.
pub open spec fn modifier_mask(t: Seq<char>) -> Option<u32> {
    if t == "cmd"@ || t == "command"@ || t == "super"@ {
        Some(CMD_KEY)
    } else if t == "shift"@ {
        Some(SHIFT_KEY)
    } else if t == "alt"@ || t == "opt"@ || t == "option"@ {
        Some(OPTION_KEY)
    } else if t == "ctrl"@ || t == "control"@ {
        Some(CONTROL_KEY)
    } else {
        None
    }
}

/// The pieces of `s` between `+` signs, empty pieces included, as
/// `str::split('+')` yields them.
pub open spec fn split_plus(s: Seq<char>) -> Seq<Seq<char>>
    decreases s.len(),
{
    if s.len() == 0 {
        seq![Seq::<char>::empty()]
    } else {
        let r = split_plus(s.drop_last());
        if s.last() == '+' {
            r.push(Seq::<char>::empty())
        } else {
            r.update(r.len() - 1, r.last().push(s.last()))
        }
    }
}

/// A parsed shortcut: a Carbon modifier mask and a virtual key code.
#[derive(Debug, Clone, Copy, PartialEq, Eq, Structural)]
pub struct Shortcut {
    pub modifiers: u32,
    pub key_code: u32,
}

/// Why a shortcut string was refused.
#[derive(Debug, PartialEq, Eq)]
pub enum ParseError {
    Empty,
    UnknownToken(String),
    NoKey,
    MultipleKeys,
    NoModifiers,
}

/// `ParseError` with the token as a sequence of characters.
pub enum SpecParseError {
    Empty,
    UnknownToken(Seq<char>),
    NoKey,
    MultipleKeys,
    NoModifiers,
}

impl View for ParseError {
    type V = SpecParseError;

    open spec fn view(&self) -> SpecParseError {
        match self {
            ParseError::Empty => SpecParseError::Empty,
            ParseError::UnknownToken(t) => SpecParseError::UnknownToken(t@),
            ParseError::NoKey => SpecParseError::NoKey,
            ParseError::MultipleKeys => SpecParseError::MultipleKeys,
            ParseError::NoModifiers => SpecParseError::NoModifiers,
        }
    }
}

/// The modifiers gathered so far and the key, if one has been seen.
pub type Progress = Result<(u32, Option<u32>), SpecParseError>;

/// Fold one `+`-separated token into the progress: blank tokens are skipped,
/// modifiers accumulate, and the first unknown token or second key is an error.
pub open spec fn scan_token(state: Progress, token: Seq<char>) -> Progress {
    match state {
        Err(e) => Err(e),
        Ok((mods, key)) => {
            let t = trim(token);
            if t.len() == 0 {
                Ok((mods, key))
            } else {
                match modifier_mask(t) {
                    Some(mask) => Ok((mods | mask, key)),
                    None => match key_code_of(t) {
                        None => Err(SpecParseError::UnknownToken(t)),
                        Some(code) => if key is Some {
                            Err(SpecParseError::MultipleKeys)
                        } else {
                            Ok((mods, Some(code)))
                        },
                    },
                }
            }
        },
    }
}

/// The progress after the tokens, in order.
pub open spec fn scan_tokens(tokens: Seq<Seq<char>>) -> Progress
    decreases tokens.len(),
{
    if tokens.len() == 0 {
        Ok((0u32, None))
    } else {
        scan_token(scan_tokens(tokens.drop_last()), tokens.last())
    }
}

/// What a shortcut string means: trimmed and lower-cased, split at `+`, the
/// tokens folded in order; then a key and at least one modifier are required.
pub open spec fn parse_spec(input: Seq<char>) -> Result<Shortcut, SpecParseError> {
    let normalised = lower(trim(input));
    if normalised.len() == 0 {
        Err(SpecParseError::Empty)
    } else {
        match scan_tokens(split_plus(normalised)) {
            Err(e) => Err(e),
            Ok((mods, key)) => match key {
                None => Err(SpecParseError::NoKey),
                Some(code) => if mods == 0 {
                    Err(SpecParseError::NoModifiers)
                } else {
                    Ok(Shortcut { modifiers: mods, key_code: code })
                },
            },
        }
    }
}

pub open spec fn result_view(r: Result<Shortcut, ParseError>) -> Result<Shortcut, SpecParseError> {
    match r {
        Ok(s) => Ok(s),
        Err(e) => Err(e@),
    }
}

pub open spec fn progress_view(r: Result<(u32, Option<u32>), ParseError>) -> Progress {
    match r {
        Ok(p) => Ok(p),
        Err(e) => Err(e@),
    }
}

fn modifier_of(t: &Vec<char>) -> (m: Option<u32>)
    ensures
        m == modifier_mask(t@),
{
    if chars_equal(t, "cmd") || chars_equal(t, "command") || chars_equal(t, "super") {
        Some(CMD_KEY)
    } else if chars_equal(t, "shift") {
        Some(SHIFT_KEY)
    } else if chars_equal(t, "alt") || chars_equal(t, "opt") || chars_equal(t, "option") {
        Some(OPTION_KEY)
    } else if chars_equal(t, "ctrl") || chars_equal(t, "control") {
        Some(CONTROL_KEY)
    } else {
        None
    }
}

fn key_code_for(t: &Vec<char>) -> (c: Option<u32>)
    ensures
        c == key_code_of(t@),
{
    let names = key_names();
    let mut i: usize = 0;
    assert(key_table().skip(0) =~= key_table());
    while i < names.len()
        invariant
            i <= names@.len(),
            names@.len() == key_table().len(),
            forall|j: int| 0 <= j < names@.len() ==> (#[trigger] names@[j]).0@ == key_table()[j].0 && names@[j].1 == key_table()[j].1,
            key_code_of(t@) == lookup(key_table().skip(i as int), t@),
        decreases names@.len() - i,
    {
        let (name, code) = names[i];
        assert(key_table().skip(i as int)[0] == key_table()[i as int]);
        assert(key_table().skip(i as int).drop_first() =~= key_table().skip(i as int + 1));
        if chars_equal(t, name) {
            return Some(code);
        }
        i = i + 1;
    }
    None
}

fn scan_step(state: Result<(u32, Option<u32>), ParseError>, token: &Vec<char>) -> (next: Result<(u32, Option<u32>), ParseError>)
    ensures
        progress_view(next) == scan_token(progress_view(state), token@),
{
    match state {
        Err(e) => Err(e),
        Ok((mods, key)) => {
            let t = trim_chars(token);
            if t.len() == 0 {
                return Ok((mods, key));
            }
            match modifier_of(&t) {
                Some(mask) => Ok((mods | mask, key)),
                None => match key_code_for(&t) {
                    None => Err(ParseError::UnknownToken(string_of(&t))),
                    Some(code) => if key.is_some() {
                        Err(ParseError::MultipleKeys)
                    } else {
                        Ok((mods, Some(code)))
                    },
                },
            }
        },
    }
}

proof fn lemma_split_nonempty(s: Seq<char>)
    ensures
        split_plus(s).len() >= 1,
    decreases s.len(),
{
    if s.len() > 0 {
        lemma_split_nonempty(s.drop_last());
    }
}

/// Parse something like `"ctrl+alt+keypad4"` into modifiers and a key code.
pub fn parse(input: &str) -> (r: Result<Shortcut, ParseError>)
    ensures
        result_view(r) == parse_spec(input@),
{
    let chars = chars_of(input);
    let trimmed = trim_chars(&chars);
    let normalised = lower_chars(&trimmed);
    if normalised.len() == 0 {
        return Err(ParseError::Empty);
    }
    let ghost n = normalised@;
    let mut state: Result<(u32, Option<u32>), ParseError> = Ok((0, None));
    let mut current: Vec<char> = Vec::new();
    let mut i: usize = 0;
    proof {
        assert(n.subrange(0, 0) =~= Seq::<char>::empty());
        assert(split_plus(Seq::<char>::empty()).drop_last() =~= Seq::<Seq<char>>::empty());
    }
    while i < normalised.len()
        invariant
            n == normalised@,
            i <= n.len(),
            split_plus(n.subrange(0, i as int)).len() >= 1,
            progress_view(state) == scan_tokens(split_plus(n.subrange(0, i as int)).drop_last()),
            current@ == split_plus(n.subrange(0, i as int)).last(),
        decreases n.len() - i,
    {
        let c = normalised[i];
        let ghost pre = n.subrange(0, i as int);
        let ghost next = n.subrange(0, i as int + 1);
        proof {
            assert(next.drop_last() =~= pre);
            assert(next.last() == c);
            lemma_split_nonempty(pre);
        }
        if c == '+' {
            state = scan_step(state, &current);
            current = Vec::new();
            proof {
                let sp = split_plus(pre);
                assert(split_plus(next) == sp.push(Seq::<char>::empty()));
                assert(split_plus(next).drop_last() =~= sp);
                assert(sp.drop_last().push(sp.last()) =~= sp);
                assert(scan_tokens(sp) == scan_token(scan_tokens(sp.drop_last()), sp.last()));
            }
        } else {
            current.push(c);
            proof {
                let sp = split_plus(pre);
                assert(split_plus(next) == sp.update(sp.len() - 1, sp.last().push(c)));
                assert(split_plus(next).drop_last() =~= sp.drop_last());
            }
        }
        i = i + 1;
    }
    state = scan_step(state, &current);
    proof {
        assert(n.subrange(0, n.len() as int) =~= n);
        let sp = split_plus(n);
        assert(sp.drop_last().push(sp.last()) =~= sp);
        assert(scan_tokens(sp) == scan_token(scan_tokens(sp.drop_last()), sp.last()));
    }
    match state {
        Err(e) => Err(e),
        Ok((modifiers, key)) => match key {
            None => Err(ParseError::NoKey),
            Some(key_code) => {
                if modifiers == 0 {
                    Err(ParseError::NoModifiers)
                } else {
                    Ok(Shortcut { modifiers, key_code })
                }
            },
        },
    }
}

/// Parsing is case-insensitive: two strings that are equal once ASCII letters
/// are lower-cased parse to the same result.
pub proof fn lemma_parse_case_insensitive(a: Seq<char>, b: Seq<char>)
    requires
        lower(a) == lower(b),
    ensures
        parse_spec(a) == parse_spec(b),
{
    lemma_trim_lower_commute(a);
    lemma_trim_lower_commute(b);
}

/// Whitespace around the whole shortcut is ignored.
pub proof fn lemma_parse_ignores_outer_whitespace(s: Seq<char>)
    ensures
        parse_spec(trim(s)) == parse_spec(s),
{
    lemma_trim_idempotent(s);
}

proof fn lemma_scan_sees_trimmed_tokens(a: Seq<Seq<char>>, b: Seq<Seq<char>>)
    requires
        a.len() == b.len(),
        forall|i: int| 0 <= i < a.len() ==> trim(#[trigger] a[i]) == trim(b[i]),
    ensures
        scan_tokens(a) == scan_tokens(b),
    decreases a.len(),
{
    if a.len() > 0 {
        assert forall|i: int| 0 <= i < a.drop_last().len() implies trim(#[trigger] a.drop_last()[i])
            == trim(b.drop_last()[i]) by {
            assert(a.drop_last()[i] == a[i]);
            assert(b.drop_last()[i] == b[i]);
        }
        lemma_scan_sees_trimmed_tokens(a.drop_last(), b.drop_last());
        assert(trim(a.last()) == trim(b.last())) by {
            assert(trim(a[a.len() - 1]) == trim(b[a.len() - 1]));
        }
    }
}

/// Whitespace around the `+` signs is ignored: two shortcuts whose
/// `+`-separated tokens agree once each is trimmed parse to the same result.
pub proof fn lemma_parse_ignores_token_whitespace(a: Seq<char>, b: Seq<char>)
    requires
        lower(trim(a)).len() > 0,
        lower(trim(b)).len() > 0,
        split_plus(lower(trim(a))).len() == split_plus(lower(trim(b))).len(),
        forall|i: int|
            0 <= i < split_plus(lower(trim(a))).len() ==> trim(#[trigger] split_plus(lower(trim(a)))[i])
                == trim(split_plus(lower(trim(b)))[i]),
    ensures
        parse_spec(a) == parse_spec(b),
{
    lemma_scan_sees_trimmed_tokens(split_plus(lower(trim(a))), split_plus(lower(trim(b))));
}

/// The explanation shown for a refused shortcut.
pub open spec fn parse_error_text(e: SpecParseError) -> Seq<char> {
    match e {
        SpecParseError::Empty => "shortcut is empty"@,
        SpecParseError::UnknownToken(t) => "unknown key or modifier "@ + str_debug(t),
        SpecParseError::NoKey => "shortcut has modifiers but no key"@,
        SpecParseError::MultipleKeys => "shortcut has more than one non-modifier key"@,
        SpecParseError::NoModifiers => "shortcut needs at least one modifier, or it would swallow the bare keypress"@,
    }
}

impl ParseError {
    /// The explanation shown for this error.
    pub fn message(&self) -> (m: String)
        ensures
            m@ == parse_error_text(self@),
    {
        match self {
            ParseError::Empty => String::from_str("shortcut is empty"),
            ParseError::UnknownToken(t) => {
                let mut m = String::from_str("unknown key or modifier ");
                let quoted = debug_quoted(t.as_str());
                m.append(quoted.as_str());
                m
            },
            ParseError::NoKey => String::from_str("shortcut has modifiers but no key"),
            ParseError::MultipleKeys => String::from_str("shortcut has more than one non-modifier key"),
            ParseError::NoModifiers => String::from_str(
                "shortcut needs at least one modifier, or it would swallow the bare keypress",
            ),
        }
    }
}

/// Every token is blank or names a modifier.
pub open spec fn only_modifiers(tokens: Seq<Seq<char>>) -> bool {
    forall|j: int|
        0 <= j < tokens.len() ==> trim(#[trigger] tokens[j]).len() == 0 || modifier_mask(trim(tokens[j])) is Some
}

/// Token `i` is the one key, with code `code`; every other token is blank or
/// names a modifier.
pub open spec fn sole_key_at(tokens: Seq<Seq<char>>, i: int, code: u32) -> bool {
    &&& 0 <= i < tokens.len()
    &&& modifier_mask(trim(tokens[i])) is None
    &&& key_code_of(trim(tokens[i])) == Some(code)
    &&& forall|j: int|
        0 <= j < tokens.len() && j != i ==> trim(#[trigger] tokens[j]).len() == 0 || modifier_mask(
            trim(tokens[j]),
        ) is Some
}

/// The four modifier masks together.
pub open spec fn all_modifiers() -> u32 {
    CMD_KEY | SHIFT_KEY | OPTION_KEY | CONTROL_KEY
}

proof fn lemma_mask_is_modifier(t: Seq<char>)
    ensures
        modifier_mask(t) matches Some(m) ==> m == CMD_KEY || m == SHIFT_KEY || m == OPTION_KEY || m
            == CONTROL_KEY,
{
}

proof fn lemma_scan_shape(tokens: Seq<Seq<char>>)
    ensures
        scan_tokens(tokens) is Ok ==> scan_tokens(tokens)->Ok_0.0 & !all_modifiers() == 0,
        scan_tokens(tokens) is Ok && scan_tokens(tokens)->Ok_0.1 is None ==> only_modifiers(tokens),
        scan_tokens(tokens) is Ok && scan_tokens(tokens)->Ok_0.1 is Some ==> exists|i: int|
            sole_key_at(tokens, i, scan_tokens(tokens)->Ok_0.1->Some_0),
    decreases tokens.len(),
{
    if tokens.len() == 0 {
        assert(0u32 & !all_modifiers() == 0) by (bit_vector);
    } else {
        let rest = tokens.drop_last();
        lemma_scan_shape(rest);
        let last = tokens.last();
        let n = tokens.len() - 1;
        let t = trim(last);
        assert(tokens[n] == last);
        assert forall|j: int| 0 <= j < n implies #[trigger] tokens[j] == rest[j] by {}
        lemma_mask_is_modifier(t);
        let prev = scan_tokens(rest);
        if prev is Ok {
            let pm = prev->Ok_0.0;
            let pk = prev->Ok_0.1;
            let last_is_filler = t.len() == 0 || modifier_mask(t) is Some;
            if last_is_filler {
                if t.len() > 0 {
                    let mask = modifier_mask(t)->Some_0;
                    assert((pm | mask) & !all_modifiers() == 0) by (bit_vector)
                        requires
                            pm & !(0x100u32 | 0x200u32 | 0x800u32 | 0x1000u32) == 0,
                            mask == 0x100u32 || mask == 0x200u32 || mask == 0x800u32 || mask
                                == 0x1000u32,
                    ;
                }
                if pk is None {
                    assert forall|j: int| 0 <= j < tokens.len() implies trim(#[trigger] tokens[j]).len()
                        == 0 || modifier_mask(trim(tokens[j])) is Some by {
                        if j < n {
                            assert(tokens[j] == rest[j]);
                        }
                    }
                } else {
                    let code = pk->Some_0;
                    let i = choose|i: int| sole_key_at(rest, i, code);
                    assert(tokens[i] == rest[i]);
                    assert forall|j: int| 0 <= j < tokens.len() && j != i implies trim(
                        #[trigger] tokens[j],
                    ).len() == 0 || modifier_mask(trim(tokens[j])) is Some by {
                        if j < n {
                            assert(tokens[j] == rest[j]);
                        }
                    }
                    assert(sole_key_at(tokens, i, code));
                }
            } else if key_code_of(t) is Some && pk is None {
                let code = key_code_of(t)->Some_0;
                assert forall|j: int| 0 <= j < tokens.len() && j != n implies trim(
                    #[trigger] tokens[j],
                ).len() == 0 || modifier_mask(trim(tokens[j])) is Some by {
                    assert(tokens[j] == rest[j]);
                }
                assert(sole_key_at(tokens, n, code));
            }
        }
    }
}

/// A shortcut that parses has exactly one key: its `+`-separated tokens
/// (after trimming and lower-casing) are all blank or modifiers except one,
/// which names the parsed key code. Its modifiers are a non-empty combination
/// of the four Carbon masks.
pub proof fn lemma_parsed_shortcut_shape(input: Seq<char>)
    requires
        parse_spec(input) is Ok,
    ensures
        parse_spec(input)->Ok_0.modifiers != 0,
        parse_spec(input)->Ok_0.modifiers & !all_modifiers() == 0,
        exists|i: int| sole_key_at(split_plus(lower(trim(input))), i, parse_spec(input)->Ok_0.key_code),
{
    let tokens = split_plus(lower(trim(input)));
    lemma_scan_shape(tokens);
    let code = scan_tokens(tokens)->Ok_0.1->Some_0;
    assert(parse_spec(input)->Ok_0.key_code == code);
    let i = choose|i: int| sole_key_at(tokens, i, code);
    assert(sole_key_at(tokens, i, parse_spec(input)->Ok_0.key_code));
}


/// A token that is empty once trimmed; such tokens are skipped.
pub open spec fn is_blank_token(t: Seq<char>) -> bool {
    trim(t).len() == 0
}

/// A token naming a modifier.
pub open spec fn is_modifier_token(t: Seq<char>) -> bool {
    !is_blank_token(t) && modifier_mask(trim(t)) is Some
}

/// A token naming a key.
pub open spec fn is_key_token(t: Seq<char>) -> bool {
    !is_blank_token(t) && modifier_mask(trim(t)) is None && key_code_of(trim(t)) is Some
}

/// A token naming neither a modifier nor a key.
pub open spec fn is_unknown_token(t: Seq<char>) -> bool {
    !is_blank_token(t) && modifier_mask(trim(t)) is None && key_code_of(trim(t)) is None
}

/// No token is unknown.
pub open spec fn all_known(tokens: Seq<Seq<char>>) -> bool {
    forall|j: int| 0 <= j < tokens.len() ==> !is_unknown_token(#[trigger] tokens[j])
}

/// How many tokens name a key.
pub open spec fn key_count(tokens: Seq<Seq<char>>) -> nat
    decreases tokens.len(),
{
    if tokens.len() == 0 {
        0
    } else {
        key_count(tokens.drop_last()) + if is_key_token(tokens.last()) {
            1nat
        } else {
            0nat
        }
    }
}

/// The code of the first token that names a key, if any does.
pub open spec fn first_key(tokens: Seq<Seq<char>>) -> Option<u32>
    decreases tokens.len(),
{
    if tokens.len() == 0 {
        None
    } else {
        match first_key(tokens.drop_last()) {
            Some(c) => Some(c),
            None => if is_key_token(tokens.last()) {
                key_code_of(trim(tokens.last()))
            } else {
                None
            },
        }
    }
}

/// The union of the masks of all modifier tokens.
pub open spec fn modifier_union(tokens: Seq<Seq<char>>) -> u32
    decreases tokens.len(),
{
    if tokens.len() == 0 {
        0
    } else {
        modifier_union(tokens.drop_last()) | if is_modifier_token(tokens.last()) {
            modifier_mask(trim(tokens.last()))->Some_0
        } else {
            0u32
        }
    }
}

proof fn lemma_or_zero(x: u32)
    ensures
        x | 0u32 == x,
{
    assert(x | 0u32 == x) by (bit_vector);
}

proof fn lemma_drop_last_index(tokens: Seq<Seq<char>>)
    requires
        tokens.len() > 0,
    ensures
        forall|j: int| 0 <= j < tokens.len() - 1 ==> #[trigger] tokens.drop_last()[j] == tokens[j],
        tokens.drop_last() == tokens.take(tokens.len() - 1),
{
    assert(tokens.drop_last() =~= tokens.take(tokens.len() - 1));
}

/// Scanning succeeds exactly when no token is unknown and at most one names a
/// key; it then holds the union of the modifier masks and the first key.
pub proof fn lemma_scan_success(tokens: Seq<Seq<char>>)
    ensures
        scan_tokens(tokens) is Ok <==> all_known(tokens) && key_count(tokens) <= 1,
        scan_tokens(tokens) is Ok ==> scan_tokens(tokens)->Ok_0 == (modifier_union(tokens), first_key(tokens)),
        first_key(tokens) is Some <==> key_count(tokens) >= 1,
    decreases tokens.len(),
{
    if tokens.len() > 0 {
        let rest = tokens.drop_last();
        let last = tokens.last();
        let n = tokens.len() - 1;
        lemma_scan_success(rest);
        lemma_drop_last_index(tokens);
        assert(tokens[n] == last);
        lemma_or_zero(modifier_union(rest));
        if let Ok((pm, pk)) = scan_tokens(rest) {
            lemma_or_zero(pm);
        }
        if all_known(tokens) {
            assert forall|j: int| 0 <= j < rest.len() implies !is_unknown_token(#[trigger] rest[j]) by {
                assert(rest[j] == tokens[j]);
            }
        }
        if all_known(rest) && !is_unknown_token(last) {
            assert forall|j: int| 0 <= j < tokens.len() implies !is_unknown_token(#[trigger] tokens[j]) by {
                if j < n {
                    assert(rest[j] == tokens[j]);
                }
            }
        }
        if !all_known(rest) {
            let j = choose|j: int| 0 <= j < rest.len() && is_unknown_token(#[trigger] rest[j]);
            assert(is_unknown_token(tokens[j]));
        }
    }
}

/// When scanning fails, it fails at the first token that goes wrong: before
/// token `i` everything is known with at most one key, and token `i` is either
/// unknown (reported, trimmed, as unknown) or a second key.
pub proof fn lemma_scan_failure(tokens: Seq<Seq<char>>)
    ensures
        scan_tokens(tokens) is Err ==> exists|i: int|
            #![trigger tokens[i]]
            0 <= i < tokens.len() && all_known(tokens.take(i)) && key_count(tokens.take(i)) <= 1 && ({
                ||| is_unknown_token(tokens[i]) && scan_tokens(tokens) == Progress::Err(
                    SpecParseError::UnknownToken(trim(tokens[i])),
                )
                ||| is_key_token(tokens[i]) && key_count(tokens.take(i)) == 1 && scan_tokens(tokens)
                    == Progress::Err(SpecParseError::MultipleKeys)
            }),
    decreases tokens.len(),
{
    if tokens.len() > 0 {
        let rest = tokens.drop_last();
        let n = tokens.len() - 1;
        lemma_drop_last_index(tokens);
        lemma_scan_failure(rest);
        lemma_scan_success(rest);
        if scan_tokens(rest) is Err {
            let i = choose|i: int|
                #![trigger rest[i]]
                0 <= i < rest.len() && all_known(rest.take(i)) && key_count(rest.take(i)) <= 1 && ({
                    ||| is_unknown_token(rest[i]) && scan_tokens(rest) == Progress::Err(
                        SpecParseError::UnknownToken(trim(rest[i])),
                    )
                    ||| is_key_token(rest[i]) && key_count(rest.take(i)) == 1 && scan_tokens(rest)
                        == Progress::Err(SpecParseError::MultipleKeys)
                });
            assert(rest.take(i) =~= tokens.take(i));
            assert(rest[i] == tokens[i]);
        } else if scan_tokens(tokens) is Err {
            assert(tokens.take(n) == rest);
            assert(tokens[n] == tokens.last());
        }
    }
}

/// The union of the modifier masks is non-zero exactly when some token names
/// a modifier, and it only ever holds the four Carbon masks.
pub proof fn lemma_modifier_union(tokens: Seq<Seq<char>>)
    ensures
        modifier_union(tokens) != 0 <==> exists|j: int| 0 <= j < tokens.len() && is_modifier_token(#[trigger] tokens[j]),
        modifier_union(tokens) & !all_modifiers() == 0,
    decreases tokens.len(),
{
    if tokens.len() == 0 {
        assert(0u32 & !all_modifiers() == 0) by (bit_vector);
    } else {
        let rest = tokens.drop_last();
        let n = tokens.len() - 1;
        let last = tokens.last();
        lemma_modifier_union(rest);
        lemma_drop_last_index(tokens);
        assert(tokens[n] == last);
        let u = modifier_union(rest);
        lemma_or_zero(u);
        lemma_mask_is_modifier(trim(last));
        if is_modifier_token(last) {
            let m = modifier_mask(trim(last))->Some_0;
            assert((u | m) != 0 && (u | m) & !all_modifiers() == 0) by (bit_vector)
                requires
                    u & !(0x100u32 | 0x200u32 | 0x800u32 | 0x1000u32) == 0,
                    m == 0x100u32 || m == 0x200u32 || m == 0x800u32 || m == 0x1000u32,
            ;
        } else {
            if exists|j: int| 0 <= j < tokens.len() && is_modifier_token(#[trigger] tokens[j]) {
                let j = choose|j: int| 0 <= j < tokens.len() && is_modifier_token(#[trigger] tokens[j]);
                assert(is_modifier_token(rest[j]));
            }
            if exists|j: int| 0 <= j < rest.len() && is_modifier_token(#[trigger] rest[j]) {
                let j = choose|j: int| 0 <= j < rest.len() && is_modifier_token(#[trigger] rest[j]);
                assert(is_modifier_token(tokens[j]));
            }
        }
    }
}

/// Some token names the modifier with mask `m`.
pub open spec fn names_modifier(tokens: Seq<Seq<char>>, m: u32) -> bool {
    exists|j: int|
        0 <= j < tokens.len() && is_modifier_token(#[trigger] tokens[j]) && modifier_mask(trim(tokens[j]))
            == Some(m)
}

/// Each Carbon mask is in the union of the modifier masks exactly when some
/// token names that modifier, wherever it stands and however often.
pub proof fn lemma_modifier_union_bits(tokens: Seq<Seq<char>>, m: u32)
    requires
        m == CMD_KEY || m == SHIFT_KEY || m == OPTION_KEY || m == CONTROL_KEY,
    ensures
        (modifier_union(tokens) & m != 0) <==> names_modifier(tokens, m),
    decreases tokens.len(),
{
    if tokens.len() == 0 {
        assert(0u32 & m == 0) by (bit_vector);
    } else {
        let rest = tokens.drop_last();
        let n = tokens.len() - 1;
        let last = tokens.last();
        lemma_modifier_union_bits(rest, m);
        lemma_drop_last_index(tokens);
        assert(tokens[n] == last);
        let u = modifier_union(rest);
        lemma_mask_is_modifier(trim(last));
        let b = is_modifier_token(last);
        let x: u32 = if b {
            modifier_mask(trim(last))->Some_0
        } else {
            0u32
        };
        assert(((u | x) & m != 0) == ((u & m != 0) || (x & m != 0))) by (bit_vector);
        assert((x & m != 0) == (b && x == m)) by (bit_vector)
            requires
                m == 0x100u32 || m == 0x200u32 || m == 0x800u32 || m == 0x1000u32,
                b ==> (x == 0x100u32 || x == 0x200u32 || x == 0x800u32 || x == 0x1000u32),
                !b ==> x == 0,
        ;
        if names_modifier(tokens, m) {
            let j = choose|j: int|
                0 <= j < tokens.len() && is_modifier_token(#[trigger] tokens[j]) && modifier_mask(
                    trim(tokens[j]),
                ) == Some(m);
            if j < n {
                assert(rest[j] == tokens[j]);
            }
        }
        if names_modifier(rest, m) {
            let j = choose|j: int|
                0 <= j < rest.len() && is_modifier_token(#[trigger] rest[j]) && modifier_mask(
                    trim(rest[j]),
                ) == Some(m);
            assert(rest[j] == tokens[j]);
        }
    }
}

/// When a shortcut string parses, and how it fails. With `tokens` the
/// `+`-separated pieces of the trimmed, lower-cased input:
/// - it is `Empty` exactly when the input is blank;
/// - otherwise it parses exactly when no token is unknown, exactly one names
///   a key and at least one names a modifier, giving that key's code and the
///   union of the modifier masks: a mask is set exactly when some token names
///   that modifier, so neither token order nor repeated modifiers matter;
/// - with no unknown token and at most one key, it is `NoKey` without a key
///   and otherwise `NoModifiers` without a modifier;
/// - any other failure comes from the first token that is unknown or a second
///   key (see `lemma_scan_failure`).
pub proof fn lemma_parse_characterisation(input: Seq<char>)
    ensures
        parse_spec(input) == Result::<Shortcut, SpecParseError>::Err(SpecParseError::Empty) <==> trim(
            input,
        ).len() == 0,
        trim(input).len() > 0 ==> ({
            let tokens = split_plus(lower(trim(input)));
            let has_modifier = exists|j: int| 0 <= j < tokens.len() && is_modifier_token(#[trigger] tokens[j]);
            &&& parse_spec(input) is Ok <==> all_known(tokens) && key_count(tokens) == 1 && has_modifier
            &&& parse_spec(input) is Ok ==> parse_spec(input)->Ok_0 == (Shortcut {
                modifiers: modifier_union(tokens),
                key_code: first_key(tokens)->Some_0,
            })
            &&& parse_spec(input) is Ok ==> exists|i: int| sole_key_at(tokens, i, parse_spec(input)->Ok_0.key_code)
            &&& parse_spec(input) is Ok ==> parse_spec(input)->Ok_0.modifiers & !all_modifiers() == 0
            &&& parse_spec(input) is Ok ==> forall|m: u32|
                #![trigger names_modifier(tokens, m)]
                m == CMD_KEY || m == SHIFT_KEY || m == OPTION_KEY || m == CONTROL_KEY ==> (
                parse_spec(input)->Ok_0.modifiers & m != 0 <==> names_modifier(tokens, m))
            &&& all_known(tokens) && key_count(tokens) == 0 ==> parse_spec(input) == Result::<
                Shortcut,
                SpecParseError,
            >::Err(SpecParseError::NoKey)
            &&& all_known(tokens) && key_count(tokens) == 1 && !has_modifier ==> parse_spec(input)
                == Result::<Shortcut, SpecParseError>::Err(SpecParseError::NoModifiers)
        }),
{
    let n = lower(trim(input));
    assert(n.len() == trim(input).len());
    let tokens = split_plus(n);
    lemma_scan_success(tokens);
    lemma_scan_failure(tokens);
    lemma_modifier_union(tokens);
    if parse_spec(input) is Ok {
        lemma_parsed_shortcut_shape(input);
        assert forall|m: u32|
            m == CMD_KEY || m == SHIFT_KEY || m == OPTION_KEY || m == CONTROL_KEY implies (
            parse_spec(input)->Ok_0.modifiers & m != 0 <==> #[trigger] names_modifier(tokens, m)) by {
            lemma_modifier_union_bits(tokens, m);
        }
    }
}

/// `t` is a name of the Command modifier.
pub open spec fn is_command_name(t: Seq<char>) -> bool {
    t == "cmd"@ || t == "command"@ || t == "super"@
}

/// `t` is a name of the Shift modifier.
pub open spec fn is_shift_name(t: Seq<char>) -> bool {
    t == "shift"@
}

/// `t` is a name of the Option modifier, the key labelled alt.
pub open spec fn is_option_name(t: Seq<char>) -> bool {
    t == "alt"@ || t == "opt"@ || t == "option"@
}

/// `t` is a name of the Control modifier.
pub open spec fn is_control_name(t: Seq<char>) -> bool {
    t == "ctrl"@ || t == "control"@
}

/// Some trimmed token satisfies `named`.
pub open spec fn some_token_named(tokens: Seq<Seq<char>>, named: spec_fn(Seq<char>) -> bool) -> bool {
    exists|j: int| 0 <= j < tokens.len() && named(trim(#[trigger] tokens[j]))
}

proof fn lemma_mask_names(t: Seq<char>)
    ensures
        modifier_mask(t) == Some(CMD_KEY) <==> is_command_name(t),
        modifier_mask(t) == Some(SHIFT_KEY) <==> is_shift_name(t),
        modifier_mask(t) == Some(OPTION_KEY) <==> is_option_name(t),
        modifier_mask(t) == Some(CONTROL_KEY) <==> is_control_name(t),
        is_command_name(t) || is_shift_name(t) || is_option_name(t) || is_control_name(t) ==> t.len() > 0,
{
    reveal_strlit("cmd");
    reveal_strlit("command");
    reveal_strlit("super");
    reveal_strlit("shift");
    reveal_strlit("alt");
    reveal_strlit("opt");
    reveal_strlit("option");
    reveal_strlit("ctrl");
    reveal_strlit("control");
    if t == "shift"@ {
        assert(t.len() == 5 && t[1] == 'h');
        assert(t != "super"@) by { assert("super"@[1] == 'u'); }
    }
    if t == "alt"@ || t == "opt"@ {
        assert(t.len() == 3 && (t[0] == 'a' || t[0] == 'o'));
        assert(t != "cmd"@) by { assert("cmd"@[0] == 'c'); }
    }
    if t == "option"@ {
        assert(t.len() == 6);
    }
    if t == "ctrl"@ || t == "control"@ {
        assert(t.len() == 4 || (t.len() == 7 && t[2] == 'n'));
        assert(t != "command"@) by { assert("command"@[2] == 'm'); }
    }
}

proof fn lemma_named_modifier_tokens(tokens: Seq<Seq<char>>, m: u32, named: spec_fn(Seq<char>) -> bool)
    requires
        forall|t: Seq<char>| #![trigger named(t)] modifier_mask(t) == Some(m) <==> named(t),
        forall|t: Seq<char>| #![trigger named(t)] named(t) ==> t.len() > 0,
    ensures
        names_modifier(tokens, m) <==> some_token_named(tokens, named),
{
    if names_modifier(tokens, m) {
        let j = choose|j: int|
            0 <= j < tokens.len() && is_modifier_token(#[trigger] tokens[j]) && modifier_mask(trim(tokens[j]))
                == Some(m);
        assert(named(trim(tokens[j])));
    }
    if some_token_named(tokens, named) {
        let j = choose|j: int| 0 <= j < tokens.len() && named(trim(#[trigger] tokens[j]));
        assert(modifier_mask(trim(tokens[j])) == Some(m));
        assert(is_modifier_token(tokens[j]));
    }
}

/// Which modifiers a parsed shortcut holds is decided by the names written:
/// Command exactly when some token is `cmd`, `command` or `super`; Shift when
/// one is `shift`; Option when one is `alt`, `opt` or `option`; Control when
/// one is `ctrl` or `control`, each compared after trimming and lower-casing.
pub proof fn lemma_parse_modifier_names(input: Seq<char>)
    requires
        parse_spec(input) is Ok,
    ensures
        ({
            let tokens = split_plus(lower(trim(input)));
            let m = parse_spec(input)->Ok_0.modifiers;
            &&& (m & CMD_KEY != 0) <==> some_token_named(tokens, |t: Seq<char>| is_command_name(t))
            &&& (m & SHIFT_KEY != 0) <==> some_token_named(tokens, |t: Seq<char>| is_shift_name(t))
            &&& (m & OPTION_KEY != 0) <==> some_token_named(tokens, |t: Seq<char>| is_option_name(t))
            &&& (m & CONTROL_KEY != 0) <==> some_token_named(tokens, |t: Seq<char>| is_control_name(t))
            &&& m & !all_modifiers() == 0
        }),
{
    let tokens = split_plus(lower(trim(input)));
    lemma_parse_characterisation(input);
    assert(trim(input).len() > 0);
    assert forall|t: Seq<char>| true implies {
        &&& (modifier_mask(t) == Some(CMD_KEY) <==> is_command_name(t))
        &&& (modifier_mask(t) == Some(SHIFT_KEY) <==> is_shift_name(t))
        &&& (modifier_mask(t) == Some(OPTION_KEY) <==> is_option_name(t))
        &&& (modifier_mask(t) == Some(CONTROL_KEY) <==> is_control_name(t))
        &&& (is_command_name(t) || is_shift_name(t) || is_option_name(t) || is_control_name(t) ==> t.len() > 0)
    } by {
        lemma_mask_names(t);
    }
    lemma_named_modifier_tokens(tokens, CMD_KEY, |t: Seq<char>| is_command_name(t));
    lemma_named_modifier_tokens(tokens, SHIFT_KEY, |t: Seq<char>| is_shift_name(t));
    lemma_named_modifier_tokens(tokens, OPTION_KEY, |t: Seq<char>| is_option_name(t));
    lemma_named_modifier_tokens(tokens, CONTROL_KEY, |t: Seq<char>| is_control_name(t));
    assert(names_modifier(tokens, CMD_KEY) == names_modifier(tokens, CMD_KEY));
}

} // verus!
