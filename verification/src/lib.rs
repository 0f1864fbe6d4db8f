//! Core logic of a small tile-grid dungeon game: tile classification,
//! spawn-point discovery, timed grid movement with integer interpolation,
//! camera framing, and the application state machine.
//!
//! Time is measured in whole milliseconds and world positions in whole
//! pixels, so every quantity the contracts speak of is an integer.

pub mod tile;
pub mod motion;
pub mod camera;
pub mod app_state;
