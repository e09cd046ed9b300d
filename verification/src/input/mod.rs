//! Input state that is kept from frame to frame.

pub mod keyboard;

pub use keyboard::{KeyState, KeyboardState};
