//! Fixed-point physics and prediction core for a paddle/ball arena game.
//!
//! All quantities are scaled integers: lengths, velocities, masses,
//! restitution and friction are stored in thousandths of a unit, and
//! durations in microseconds.  Every operation is deterministic, so two
//! runs from the same state produce identical motion and events.

pub mod body;
pub mod collide;
pub mod control;
pub mod damping;
pub mod game;
pub mod integrate;
pub mod predict;
pub mod resolve;
pub mod units;
pub mod utility;
pub mod vec2;
pub mod world;
