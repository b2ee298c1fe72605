//! The decisions around Carbon global hotkeys: the four-character codes that
//! name Carbon events, which shortcut each binding registers, what a failed
//! binding reports, and which hotkey events are ours.

use vstd::prelude::*;
use vstd::string::*;
use crate::keycodes::{parse, parse_error_text, parse_spec, Shortcut};
use crate::text::{debug_quoted, decimal, decimal_string, str_debug};

verus! {

/// Carbon's status code type.
pub type OSStatus = i32;

/// The status meaning success.
pub const NO_ERR: OSStatus = 0;

/// `'keyb'`, the keyboard event class.
pub const K_EVENT_CLASS_KEYBOARD: u32 = 0x6B65_7962;

/// The hotkey-pressed event kind.
pub const K_EVENT_HOT_KEY_PRESSED: u32 = 5;

/// `'----'`, the direct-object event parameter.
pub const K_EVENT_PARAM_DIRECT_OBJECT: u32 = 0x2D2D_2D2D;

/// `'hkid'`, the hotkey-id parameter type.
pub const TYPE_EVENT_HOT_KEY_ID: u32 = 0x686B_6964;

/// `'ichi'`: tags our hotkeys so that a stray event from another source is ignored.
pub const ICHI_SIGNATURE: u32 = 0x6963_6869;

/// The big-endian value of four bytes, as Carbon packs a four-character code.
pub open spec fn fourcc_spec(code: Seq<u8>) -> int {
    code[0] * 0x100_0000 + code[1] * 0x1_0000 + code[2] * 0x100 + code[3]
}

/// Carbon four-character codes, e.g. `'keyb'`.
pub fn fourcc(code: &[u8; 4]) -> (c: u32)
    ensures
        c == fourcc_spec(code@),
{
    let a: u32 = code[0] as u32;
    let b: u32 = code[1] as u32;
    let c: u32 = code[2] as u32;
    let d: u32 = code[3] as u32;
    assert((a << 24u32) | (b << 16u32) | (c << 8u32) | d == a * 0x100_0000 + b * 0x1_0000 + c * 0x100 + d)
        by (bit_vector)
        requires
            a < 256,
            b < 256,
            c < 256,
            d < 256,
    ;
    (a << 24u32) | (b << 16u32) | (c << 8u32) | d
}

/// Installing the Carbon handler failed, so no hotkey can ever fire.
#[derive(Debug, PartialEq, Eq)]
pub struct HandlerInstallFailed(pub OSStatus);

impl HandlerInstallFailed {
    /// The message reported for this failure.
    pub fn message(&self) -> (m: String)
        ensures
            m@ == "InstallEventHandler failed (OSStatus "@ + decimal(self.0 as int) + ")"@,
    {
        let mut m = String::from_str("InstallEventHandler failed (OSStatus ");
        let n = decimal_string(self.0);
        m.append(n.as_str());
        m.append(")");
        m
    }
}

/// One shortcut that could not be claimed.
#[derive(Debug, PartialEq)]
pub struct BindingFailure {
    /// The settings key, e.g. `"top_left"`.
    pub position_name: String,
    pub shortcut: String,
    pub reason: String,
}

impl BindingFailure {
    /// The failure for `position_name = shortcut` with the given reason.
    pub open spec fn is(self, position_name: Seq<char>, shortcut: Seq<char>, reason: Seq<char>) -> bool {
        &&& self.position_name@ == position_name
        &&& self.shortcut@ == shortcut
        &&& self.reason@ == reason
    }

    /// `name = "shortcut": reason`, with the shortcut quoted as `{:?}` does.
    pub fn describe(&self) -> (d: String)
        ensures
            d@ == self.position_name@ + " = "@ + str_debug(self.shortcut@) + ": "@ + self.reason@,
    {
        let mut d = String::from_str(self.position_name.as_str());
        d.append(" = ");
        let quoted = debug_quoted(self.shortcut.as_str());
        d.append(quoted.as_str());
        d.append(": ");
        d.append(self.reason.as_str());
        d
    }
}

/// The reason given for a shortcut that another app already owns.
pub open spec fn taken_reason(status: OSStatus) -> Seq<char> {
    "already taken by another app (OSStatus "@ + decimal(status as int) + ")"@
}

/// Parse the shortcut of one binding: the shortcut to register, or the
/// failure to report, whose reason is the parse error's message.
pub fn prepare_binding(position_name: &str, shortcut: &str) -> (r: Result<Shortcut, BindingFailure>)
    ensures
        match parse_spec(shortcut@) {
            Ok(s) => r == Ok::<Shortcut, BindingFailure>(s),
            Err(e) => r matches Err(f) && f.is(position_name@, shortcut@, parse_error_text(e)),
        },
{
    match parse(shortcut) {
        Ok(s) => Ok(s),
        Err(error) => {
            let reason = error.message();
            Err(
                BindingFailure {
                    position_name: String::from_str(position_name),
                    shortcut: String::from_str(shortcut),
                    reason,
                },
            )
        },
    }
}

/// Parse the shortcut of every binding, in order. Each entry is the shortcut
/// to register for that binding, or the failure to report for it.
pub fn prepare_bindings(bindings: &[(&str, u32, &str)]) -> (plan: Vec<Result<Shortcut, BindingFailure>>)
    ensures
        plan@.len() == bindings@.len(),
        forall|i: int|
            0 <= i < bindings@.len() ==> match parse_spec(bindings@[i].2@) {
                Ok(s) => (#[trigger] plan@[i]) == Ok::<Shortcut, BindingFailure>(s),
                Err(e) => plan@[i] matches Err(f) && f.is(bindings@[i].0@, bindings@[i].2@, parse_error_text(e)),
            },
{
    let mut plan: Vec<Result<Shortcut, BindingFailure>> = Vec::new();
    let mut i: usize = 0;
    while i < bindings.len()
        invariant
            i <= bindings@.len(),
            plan@.len() == i,
            forall|j: int|
                0 <= j < i ==> match parse_spec(bindings@[j].2@) {
                    Ok(s) => (#[trigger] plan@[j]) == Ok::<Shortcut, BindingFailure>(s),
                    Err(e) => plan@[j] matches Err(f) && f.is(bindings@[j].0@, bindings@[j].2@, parse_error_text(e)),
                },
        decreases bindings@.len() - i,
    {
        let (position_name, _position, shortcut) = bindings[i];
        let entry = prepare_binding(position_name, shortcut);
        plan.push(entry);
        i = i + 1;
    }
    plan
}

/// The failure to report after registering a binding's shortcut returned
/// `status`: none on success, otherwise that another app owns the shortcut.
pub fn registration_failure(position_name: &str, shortcut: &str, status: OSStatus) -> (f: Option<BindingFailure>)
    ensures
        status == NO_ERR <==> f is None,
        f matches Some(x) ==> x.is(position_name@, shortcut@, taken_reason(status)),
{
    if status == NO_ERR {
        return None;
    }
    let mut reason = String::from_str("already taken by another app (OSStatus ");
    let n = decimal_string(status);
    reason.append(n.as_str());
    reason.append(")");
    Some(
        BindingFailure {
            position_name: String::from_str(position_name),
            shortcut: String::from_str(shortcut),
            reason,
        },
    )
}

/// The grid position a delivered hotkey event asks for: its id, when reading
/// the event succeeded and the hotkey carries our signature; otherwise none.
pub fn hotkey_target(status: OSStatus, signature: u32, id: u32) -> (p: Option<u32>)
    ensures
        p == (if status == NO_ERR && signature == ICHI_SIGNATURE { Some(id) } else { None::<u32> }),
{
    if status == NO_ERR && signature == ICHI_SIGNATURE {
        Some(id)
    } else {
        None
    }
}

} // verus!
