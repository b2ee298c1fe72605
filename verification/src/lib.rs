//! Window-snapping logic: grid geometry, shortcut parsing, settings and the
//! small decisions around them, each stated as a contract and proved.

pub mod config;
pub mod cycle;
pub mod engine;
pub mod hotkeys;
pub mod keycodes;
pub mod login;
pub mod text;
pub mod window;
