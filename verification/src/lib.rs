//! A message-window typewriter engine: it reveals the characters of a script
//! one by one inside a text box, wrapping lines, breaking pages, pacing the
//! reveal with per-character timers, and walking each window through its
//! lifecycle (preparing, popping up, typing, waiting).
//!
//! Geometry is measured in integer layout units and time in whole
//! milliseconds, so every rule of the engine is stated and proved exactly.

pub mod layout;
pub mod orders;
pub mod popup;
pub mod window;
pub mod writer;
