//! The gameplay core of a small top-down tile exploration game.
//!
//! The core loads a tile grid from text, moves a player against the
//! blocking tiles of that grid, notices when the player steps on an
//! encounter tile after its cooldown has passed, and switches between the
//! overworld and combat through a timed transition, rearranging the stage
//! whenever the mode changes.
//!
//! Everything is counted in whole numbers: positions in world units, a
//! thousand to the tile, time in microseconds, and speeds in thousandths
//! of a tile per second.

use vstd::prelude::*;

pub mod encounter;
pub mod game;
pub mod geometry;
pub mod mode;
pub mod movement;
pub mod scene;
pub mod tilemap;

verus! {

/// Edge length of one map cell, in world units.
pub const TILE_SIZE: i64 = 1000;

/// Half the edge length of a tile's box.
pub const TILE_HALF_EXTENT: i64 = 500;

/// Half the edge length of the box an actor is tested with: nine tenths
/// of a tile's, so that an actor standing in one cell does not catch on
/// the seams of its neighbours.
pub const ACTOR_HALF_EXTENT: i64 = 450;

/// Microseconds in a second; all durations are whole microseconds.
pub const MICROS_PER_SECOND: u64 = 1_000_000;

/// Speeds are whole thousandths of a tile per second.
pub const SPEED_DENOMINATOR: u64 = 1000;

} // verus!
