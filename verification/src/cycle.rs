//! Multi-tap state: tapping the same hotkey on the same window advances the
//! ratio cycle; anything else starts it again.

use vstd::prelude::*;

verus! {

/// The last hotkey pressed and how many times in a row it has been repeated
/// on the same window.
#[derive(Debug, Clone, Copy, PartialEq, Eq, Structural)]
pub struct CycleState {
    pub last_key: Option<u32>,
    pub cycle_count: usize,
}

impl CycleState {
    /// No key pressed yet.
    pub fn new() -> (s: CycleState)
        ensures
            s == (CycleState { last_key: None, cycle_count: 0 }),
    {
        CycleState { last_key: None, cycle_count: 0 }
    }

    /// Whether pressing `key` now repeats the previous press, given whether
    /// the focused window is the one the previous press moved.
    pub open spec fn repeats(self, key: u32, same_window: bool) -> bool {
        self.last_key == Some(key) && same_window
    }

    /// The state after a press of `key`: the key recorded, and the count one
    /// more than before when the press repeats the previous one, otherwise 0.
    pub open spec fn pressed(self, key: u32, same_window: bool) -> CycleState {
        CycleState {
            last_key: Some(key),
            cycle_count: if self.repeats(key, same_window) {
                (self.cycle_count + 1) as usize
            } else {
                0
            },
        }
    }

    /// The state after pressing `key` `n` times in a row, the first press on
    /// a window that is or is not the previous one (`first_same`), every later
    /// press on the same window.
    pub open spec fn tapped(self, key: u32, first_same: bool, n: nat) -> CycleState
        decreases n,
    {
        if n == 0 {
            self
        } else {
            self.tapped(key, first_same, (n - 1) as nat).pressed(key, if n == 1 { first_same } else { true })
        }
    }

    /// Record a press of `key` and return its tap number: one more than
    /// before when it repeats the previous press, otherwise 0.
    pub fn next_cycle(&mut self, key: u32, same_window: bool) -> (cycle: usize)
        requires
            old(self).repeats(key, same_window) ==> old(self).cycle_count < usize::MAX,
        ensures
            cycle == final(self).cycle_count,
            *final(self) == old(self).pressed(key, same_window),
    {
        let same_target = match self.last_key {
            Some(k) => k == key && same_window,
            None => false,
        };
        self.cycle_count = if same_target { self.cycle_count + 1 } else { 0 };
        self.last_key = Some(key);
        self.cycle_count
    }
}

/// Tapping one hotkey `n` times in a row on the same window, after anything
/// but that key, numbers the taps 0, 1, ..., n - 1; pressing another key, or
/// the same key on another window, then starts again at 0.
pub proof fn lemma_taps_count_up(start: CycleState, key: u32, first_same: bool, n: nat, other: u32, same: bool)
    requires
        start.last_key != Some(key),
        n >= 1,
        n <= usize::MAX,
    ensures
        forall|k: nat| 1 <= k <= n ==> (#[trigger] start.tapped(key, first_same, k)).cycle_count == k - 1,
        start.tapped(key, first_same, n).last_key == Some(key),
        other != key || !same ==> start.tapped(key, first_same, n).pressed(other, same).cycle_count == 0,
    decreases n,
{
    if n > 1 {
        lemma_taps_count_up(start, key, first_same, (n - 1) as nat, other, same);
        let prev = start.tapped(key, first_same, (n - 1) as nat);
        assert(prev.cycle_count == n - 2);
        assert(start.tapped(key, first_same, n) == prev.pressed(key, true));
    } else {
        assert(start.tapped(key, first_same, 0) == start);
    }
    assert forall|k: nat| 1 <= k <= n implies (#[trigger] start.tapped(key, first_same, k)).cycle_count
        == k - 1 by {
        if k < n {
        }
    }
}

} // verus!
