//! Fixed configuration of the grid and of the motion model, and the rule
//! that ties the size of a spawned block to the current level.

use vstd::prelude::*;

verus! {

/// Coordinate units per pixel. Positions, speeds and elapsed times are kept
/// in thousandths, so fractional motion is exact integer arithmetic.
pub const SCALE: i64 = 1000;

/// Side of one grid cell, in coordinate units (40 pixels).
pub const GRID_SIZE: i64 = 40_000;

/// Number of grid cells across.
pub const WIDTH: i64 = 7;

/// Number of grid cells down.
pub const HEIGHT: i64 = 15;

/// Speed multiplier at level 1: 1.5, in `SCALE`-ths.
pub const START_SPEED: i64 = 1500;

/// Cap the speed saturates at, in `SCALE`-ths. The speed grows by 35% per
/// placement and must stay small enough for the displacement arithmetic
/// never to overflow; the cap (a factor of a million) is unreachable in play.
pub const SPEED_MAX: i64 = 1_000_000_000;

/// Largest time step one tick may carry, in milliseconds (100 seconds).
pub const DT_MAX: i64 = 100_000;

/// Horizontal positions are clamped to this magnitude, in coordinate units
/// (25 million grid cells out), so that repeated displacements cannot
/// overflow. Inside it motion is exact; play never comes near it.
pub const X_LIMIT: i64 = 1_000_000_000_000;

/// Size of the block a level calls for: three squares on levels 1 to 3,
/// two on levels 4 to 6, one from level 7 on.
pub open spec fn spec_block_size(level: int) -> int {
    if 1 <= level <= 3 {
        3
    } else if 4 <= level <= 6 {
        2
    } else {
        1
    }
}

/// Runtime form of `spec_block_size`.
pub fn block_size(level: i64) -> (n: i64)
    ensures
        n == spec_block_size(level as int),
{
    if 1 <= level && level <= 3 {
        3
    } else if 4 <= level && level <= 6 {
        2
    } else {
        1
    }
}

} // verus!
