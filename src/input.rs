//! Keyboard state with per-frame edge detection.

pub mod keyboard_handler;

pub use keyboard_handler::{KeyboardHandler, Keycode};
