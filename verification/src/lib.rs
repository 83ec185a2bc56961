//! The decisions of a tile-based 2D platformer, each with a machine-checked
//! contract.
//!
//! - [`tiles`] decodes the tile data of a level, [`loader`] finds it in the
//!   text of a map file, and [`level`] lays the tiles out as solid cells.
//! - [`keys`] keeps the state of the steering keys.
//! - [`collision`] tells which side of an obstacle a body is just crossing.
//! - [`mob`] is the state machine of a player: ground contact, look
//!   direction, wall jump and the clip on show.
//!
//! Positions, velocities and timers are fractional quantities and stay with
//! the caller, who integrates them and asks this crate what to do next.

pub mod collision;
pub mod keys;
pub mod level;
pub mod loader;
pub mod mob;
pub mod tiles;
