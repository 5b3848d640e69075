//! A procedural starfield: stars drift toward the viewer along a depth axis,
//! are perspective-projected onto the screen each frame, and are drawn as
//! streaks from where they were to where they are.
//!
//! All lengths are fixed-point numbers: an `i64` that counts units of
//! `1 / SCALE`.
pub mod fixed;
pub mod source;
pub mod star;
pub mod field;
