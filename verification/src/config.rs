//! User settings: the nine shortcuts, the gaps and the two ratio sequences,
//! with their defaults and the checks applied after loading.

use vstd::prelude::*;
use vstd::string::*;
use crate::engine::Ratio;

verus! {

/// The settings name of grid position `position` (1-9, numeric keypad layout).
pub open spec fn position_name(position: int) -> Seq<char> {
    if position == 1 {
        "bottom_left"@
    } else if position == 2 {
        "bottom"@
    } else if position == 3 {
        "bottom_right"@
    } else if position == 4 {
        "left"@
    } else if position == 5 {
        "center"@
    } else if position == 6 {
        "right"@
    } else if position == 7 {
        "top_left"@
    } else if position == 8 {
        "top"@
    } else {
        "top_right"@
    }
}

/// One shortcut per grid position, as written in the settings file.
#[derive(Debug, Clone, PartialEq)]
pub struct Hotkeys {
    pub bottom_left: String,
    pub bottom: String,
    pub bottom_right: String,
    pub left: String,
    pub center: String,
    pub right: String,
    pub top_left: String,
    pub top: String,
    pub top_right: String,
}

impl Hotkeys {
    /// The shortcut that drives grid position `position`.
    pub open spec fn shortcut_for(self, position: int) -> Seq<char> {
        if position == 1 {
            self.bottom_left@
        } else if position == 2 {
            self.bottom@
        } else if position == 3 {
            self.bottom_right@
        } else if position == 4 {
            self.left@
        } else if position == 5 {
            self.center@
        } else if position == 6 {
            self.right@
        } else if position == 7 {
            self.top_left@
        } else if position == 8 {
            self.top@
        } else {
            self.top_right@
        }
    }

    /// The default bindings: Ctrl+Alt and the keypad digit of each position.
    pub open spec fn is_default(self) -> bool {
        &&& self.bottom_left@ == "ctrl+alt+keypad1"@
        &&& self.bottom@ == "ctrl+alt+keypad2"@
        &&& self.bottom_right@ == "ctrl+alt+keypad3"@
        &&& self.left@ == "ctrl+alt+keypad4"@
        &&& self.center@ == "ctrl+alt+keypad5"@
        &&& self.right@ == "ctrl+alt+keypad6"@
        &&& self.top_left@ == "ctrl+alt+keypad7"@
        &&& self.top@ == "ctrl+alt+keypad8"@
        &&& self.top_right@ == "ctrl+alt+keypad9"@
    }

    /// Pair each configured shortcut with the grid position it drives, in
    /// position order: `(settings name, position, shortcut)`.
    pub fn bindings(&self) -> (b: Vec<(&'static str, u32, &str)>)
        ensures
            b@.len() == 9,
            forall|i: int|
                0 <= i < 9 ==> {
                    &&& (#[trigger] b@[i]).1 == i + 1
                    &&& b@[i].0@ == position_name(i + 1)
                    &&& b@[i].2@ == self.shortcut_for(i + 1)
                },
    {
        let b = vec![
            ("bottom_left", 1u32, self.bottom_left.as_str()),
            ("bottom", 2u32, self.bottom.as_str()),
            ("bottom_right", 3u32, self.bottom_right.as_str()),
            ("left", 4u32, self.left.as_str()),
            ("center", 5u32, self.center.as_str()),
            ("right", 6u32, self.right.as_str()),
            ("top_left", 7u32, self.top_left.as_str()),
            ("top", 8u32, self.top.as_str()),
            ("top_right", 9u32, self.top_right.as_str()),
        ];
        assert(forall|i: int|
            0 <= i < 9 ==> {
                &&& (#[trigger] b@[i]).1 == i + 1
                &&& b@[i].0@ == position_name(i + 1)
                &&& b@[i].2@ == self.shortcut_for(i + 1)
            }) by {
            assert(b@[0].1 == 1);
        }
        b
    }
}

impl Default for Hotkeys {
    fn default() -> (h: Hotkeys)
        ensures
            h.is_default(),
    {
        Hotkeys {
            bottom_left: String::from_str("ctrl+alt+keypad1"),
            bottom: String::from_str("ctrl+alt+keypad2"),
            bottom_right: String::from_str("ctrl+alt+keypad3"),
            left: String::from_str("ctrl+alt+keypad4"),
            center: String::from_str("ctrl+alt+keypad5"),
            right: String::from_str("ctrl+alt+keypad6"),
            top_left: String::from_str("ctrl+alt+keypad7"),
            top: String::from_str("ctrl+alt+keypad8"),
            top_right: String::from_str("ctrl+alt+keypad9"),
        }
    }
}

/// Both default to zero: windows meet edge to edge and sit flush against the
/// screen.
#[derive(Debug, Clone, Copy, PartialEq, Eq, Structural)]
pub struct Gaps {
    /// Space between a snapped window and the edge of the usable screen area.
    pub screen_edge: i32,
    /// Space between two adjacent snapped windows. Each window gives up half.
    pub between_windows: i32,
}

impl Default for Gaps {
    fn default() -> (g: Gaps)
        ensures
            g == (Gaps { screen_edge: 0, between_windows: 0 }),
    {
        Gaps { screen_edge: 0, between_windows: 0 }
    }
}

/// All settings.
#[derive(Debug, Clone, PartialEq)]
pub struct Config {
    pub hotkeys: Hotkeys,
    pub gaps: Gaps,
    /// Multi-tap sequence for halves and corners. Any length; taps wrap around.
    pub cycle_ratios: Vec<Ratio>,
    /// Multi-tap sequence for the centre position.
    pub center_ratios: Vec<Ratio>,
}

/// Halves, then thirds, then two thirds.
pub open spec fn default_cycle_ratios() -> Seq<Ratio> {
    seq![Ratio { num: 1, den: 2 }, Ratio { num: 1, den: 3 }, Ratio { num: 2, den: 3 }]
}

/// All of the area, then 80%, then 60%.
pub open spec fn default_center_ratios() -> Seq<Ratio> {
    seq![Ratio { num: 1, den: 1 }, Ratio { num: 4, den: 5 }, Ratio { num: 3, den: 5 }]
}

/// The ratios of `ratios` that lie in `(0, 1]`, in their order.
pub open spec fn usable_only(ratios: Seq<Ratio>) -> Seq<Ratio> {
    ratios.filter(|r: Ratio| r.in_unit_range())
}

/// The ratios of `ratios` that lie in `(0, 1]`, in their order; the defaults
/// if none does.
pub open spec fn sanitised_ratios(ratios: Seq<Ratio>, defaults: Seq<Ratio>) -> Seq<Ratio> {
    let kept = usable_only(ratios);
    if kept.len() == 0 {
        defaults
    } else {
        kept
    }
}

pub open spec fn clamp_non_negative(x: i32) -> i32 {
    if x < 0 {
        0
    } else {
        x
    }
}

impl Config {
    /// The default settings.
    pub open spec fn is_default(self) -> bool {
        &&& self.hotkeys.is_default()
        &&& self.gaps == (Gaps { screen_edge: 0, between_windows: 0 })
        &&& self.cycle_ratios@ == default_cycle_ratios()
        &&& self.center_ratios@ == default_center_ratios()
    }

    /// `self` is what sanitising `before` gives: shortcuts as they were, ratios
    /// outside `(0, 1]` dropped (the defaults if none is left), gaps clamped at zero.
    pub open spec fn sanitised_from(self, before: Config) -> bool {
        &&& self.hotkeys == before.hotkeys
        &&& self.cycle_ratios@ == sanitised_ratios(before.cycle_ratios@, default_cycle_ratios())
        &&& self.center_ratios@ == sanitised_ratios(before.center_ratios@, default_center_ratios())
        &&& self.gaps.screen_edge == clamp_non_negative(before.gaps.screen_edge)
        &&& self.gaps.between_windows == clamp_non_negative(before.gaps.between_windows)
    }

    /// Drop ratios outside `(0, 1]`, falling back to the default sequence if
    /// that leaves nothing, and clamp negative gaps to zero. A zero or negative
    /// ratio would collapse the window to nothing.
    pub fn sanitise(self) -> (c: Config)
        ensures
            c.sanitised_from(self),
            c.hotkeys == self.hotkeys,
    {
        let Config { hotkeys, gaps, cycle_ratios, center_ratios } = self;
        let cycle = keep_usable(&cycle_ratios, default_cycle());
        let center = keep_usable(&center_ratios, default_center());
        let screen_edge = if gaps.screen_edge < 0 { 0 } else { gaps.screen_edge };
        let between_windows = if gaps.between_windows < 0 { 0 } else { gaps.between_windows };
        Config {
            hotkeys,
            gaps: Gaps { screen_edge, between_windows },
            cycle_ratios: cycle,
            center_ratios: center,
        }
    }
}

fn default_cycle() -> (v: Vec<Ratio>)
    ensures
        v@ == default_cycle_ratios(),
{
    vec![Ratio { num: 1, den: 2 }, Ratio { num: 1, den: 3 }, Ratio { num: 2, den: 3 }]
}

fn default_center() -> (v: Vec<Ratio>)
    ensures
        v@ == default_center_ratios(),
{
    vec![Ratio { num: 1, den: 1 }, Ratio { num: 4, den: 5 }, Ratio { num: 3, den: 5 }]
}

/// The ratios of `ratios` in `(0, 1]`, in order, or `defaults` if there are none.
fn keep_usable(ratios: &Vec<Ratio>, defaults: Vec<Ratio>) -> (v: Vec<Ratio>)
    ensures
        v@ == sanitised_ratios(ratios@, defaults@),
{
    let mut kept: Vec<Ratio> = Vec::new();
    let mut i: usize = 0;
    while i < ratios.len()
        invariant
            i <= ratios.len(),
            kept@ == usable_only(ratios@.subrange(0, i as int)),
        decreases ratios.len() - i,
    {
        let r = ratios[i];
        proof {
            let pre = ratios@.subrange(0, i as int + 1);
            assert(pre.drop_last() =~= ratios@.subrange(0, i as int));
            assert(pre.last() == r);
            reveal(Seq::filter);
        }
        if r.is_usable() {
            kept.push(r);
        }
        i = i + 1;
    }
    assert(ratios@.subrange(0, i as int) =~= ratios@);
    if kept.len() == 0 {
        defaults
    } else {
        kept
    }
}

impl Default for Config {
    fn default() -> (c: Config)
        ensures
            c.is_default(),
    {
        Config {
            hotkeys: Hotkeys::default(),
            gaps: Gaps::default(),
            cycle_ratios: default_cycle(),
            center_ratios: default_center(),
        }
    }
}

/// Every ratio of the sequence lies in `(0, 1]`.
pub open spec fn all_usable(ratios: Seq<Ratio>) -> bool {
    forall|i: int| 0 <= i < ratios.len() ==> (#[trigger] ratios[i]).in_unit_range()
}

proof fn lemma_usable_only_keeps_usable(ratios: Seq<Ratio>)
    ensures
        all_usable(usable_only(ratios)),
        all_usable(ratios) ==> usable_only(ratios) == ratios,
    decreases ratios.len(),
{
    reveal(Seq::filter);
    if ratios.len() > 0 {
        lemma_usable_only_keeps_usable(ratios.drop_last());
        let rest = usable_only(ratios.drop_last());
        if all_usable(ratios) {
            assert(all_usable(ratios.drop_last())) by {
                assert forall|i: int| 0 <= i < ratios.drop_last().len() implies (
                #[trigger] ratios.drop_last()[i]).in_unit_range() by {
                    assert(ratios.drop_last()[i] == ratios[i]);
                }
            }
            assert(ratios.last().in_unit_range()) by {
                assert(ratios[ratios.len() - 1].in_unit_range());
            }
            assert(rest.push(ratios.last()) =~= ratios);
        }
        let out = usable_only(ratios);
        assert forall|i: int| 0 <= i < out.len() implies (#[trigger] out[i]).in_unit_range() by {
            if i < rest.len() {
                assert(out[i] == rest[i]);
            }
        }
    }
}

/// Sanitised settings are usable: both ratio sequences are non-empty and lie
/// in `(0, 1]`, and both gaps are non-negative. Sanitising them again changes
/// nothing.
pub proof fn lemma_sanitise_properties(before: Config, after: Config, again: Config)
    requires
        after.sanitised_from(before),
        again.sanitised_from(after),
    ensures
        after.cycle_ratios@.len() > 0,
        after.center_ratios@.len() > 0,
        all_usable(after.cycle_ratios@),
        all_usable(after.center_ratios@),
        after.gaps.screen_edge >= 0,
        after.gaps.between_windows >= 0,
        again.hotkeys == after.hotkeys,
        again.gaps == after.gaps,
        again.cycle_ratios@ == after.cycle_ratios@,
        again.center_ratios@ == after.center_ratios@,
{
    lemma_usable_only_keeps_usable(before.cycle_ratios@);
    lemma_usable_only_keeps_usable(before.center_ratios@);
    assert(all_usable(default_cycle_ratios()));
    assert(all_usable(default_center_ratios()));
    lemma_usable_only_keeps_usable(after.cycle_ratios@);
    lemma_usable_only_keeps_usable(after.center_ratios@);
}

/// Every binding has its own grid position and its own settings name, so each
/// position is driven by exactly one field.
pub proof fn lemma_binding_names_distinct(p: int, q: int)
    requires
        1 <= p <= 9,
        1 <= q <= 9,
        p != q,
    ensures
        position_name(p) != position_name(q),
{
    reveal_strlit("bottom_left");
    reveal_strlit("bottom");
    reveal_strlit("bottom_right");
    reveal_strlit("left");
    reveal_strlit("center");
    reveal_strlit("right");
    reveal_strlit("top_left");
    reveal_strlit("top");
    reveal_strlit("top_right");
    if position_name(p) == position_name(q) {
        assert(position_name(p).len() == position_name(q).len());
        assert(position_name(p)[0] == position_name(q)[0]);
        assert(position_name(p)[position_name(p).len() - 1] == position_name(q)[position_name(q).len() - 1]);
        assert(position_name(p).len() > 3 ==> position_name(p)[3] == position_name(q)[3]);
        assert(position_name(p).len() > 4 ==> position_name(p)[4] == position_name(q)[4]);
    }
}

/// The default bindings give every grid position its own shortcut.
pub proof fn lemma_default_shortcuts_distinct(h: Hotkeys, p: int, q: int)
    requires
        h.is_default(),
        1 <= p <= 9,
        1 <= q <= 9,
        p != q,
    ensures
        h.shortcut_for(p) != h.shortcut_for(q),
{
    reveal_strlit("ctrl+alt+keypad1");
    reveal_strlit("ctrl+alt+keypad2");
    reveal_strlit("ctrl+alt+keypad3");
    reveal_strlit("ctrl+alt+keypad4");
    reveal_strlit("ctrl+alt+keypad5");
    reveal_strlit("ctrl+alt+keypad6");
    reveal_strlit("ctrl+alt+keypad7");
    reveal_strlit("ctrl+alt+keypad8");
    reveal_strlit("ctrl+alt+keypad9");
    if h.shortcut_for(p) == h.shortcut_for(q) {
        assert(h.shortcut_for(p)[15] == h.shortcut_for(q)[15]);
    }
}

/// Sanitising never touches the shortcuts: each of the nine stays exactly as
/// loaded, and only the ratios and gaps can change.
pub proof fn lemma_sanitise_keeps_shortcuts(before: Config, after: Config)
    requires
        after.sanitised_from(before),
    ensures
        forall|p: int| 1 <= p <= 9 ==> #[trigger] after.hotkeys.shortcut_for(p) == before.hotkeys.shortcut_for(p),
        after.hotkeys.bottom_left@ == before.hotkeys.bottom_left@,
        after.hotkeys.bottom@ == before.hotkeys.bottom@,
        after.hotkeys.bottom_right@ == before.hotkeys.bottom_right@,
        after.hotkeys.left@ == before.hotkeys.left@,
        after.hotkeys.center@ == before.hotkeys.center@,
        after.hotkeys.right@ == before.hotkeys.right@,
        after.hotkeys.top_left@ == before.hotkeys.top_left@,
        after.hotkeys.top@ == before.hotkeys.top@,
        after.hotkeys.top_right@ == before.hotkeys.top_right@,
{
}

} // verus!
