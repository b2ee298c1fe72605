# ichi

Window snapping for macOS, with its logic as a verified library.

`src/` is the library, checked by Verus:

- `engine.rs` — snap geometry: `Rect`, `Ratio`, `SnapConfig`,
  `calculate_snap` and the window gap, stated against `snap_spec`, with
  lemmas for containment, anchoring, cycling, centring, tiling halves and
  overflow bounds.
- `config.rs` — settings: shortcuts, gaps, ratio sequences, their defaults
  and `Config::sanitise`.
- `keycodes.rs` — shortcut strings such as `ctrl+alt+keypad4`, parsed against
  `parse_spec`, with case and whitespace laws.
- `hotkeys.rs` — Carbon four-character codes and the decisions around
  registering hotkeys and reporting failures.
- `login.rs`, `cycle.rs`, `window.rs` — the launch-at-login menu states, the
  multi-tap counter, and choosing the display a window belongs to.
- `text.rs` — character-level helpers (Unicode whitespace, trimming, ASCII
  lower-casing, decimal rendering).

Ratios are exact fractions in the library. The settings file stores them as
decimals; `app/` turns each decimal into the simplest matching fraction when
loading and back when saving.

`app/` is the macOS program around the library: the Accessibility API,
Carbon hotkey registration, AppKit's screens and menu bar item,
`SMAppService`, and the JSON settings file.
