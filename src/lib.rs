//! Falling-character rain for a terminal, with a target text that locks in cell by cell
//! as the rain passes through it. The crate holds the animation engine: column fall
//! simulation, trail colors, the lock-in overlay and the per-frame draw list. Terminal
//! input and output stay with the caller.

pub mod clock;
pub mod color;
pub mod column;
pub mod config;
pub mod draw;
pub mod glyph;
pub mod overlay;
pub mod palette;
pub mod scene;
