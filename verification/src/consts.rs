//! Dimensions of the playing field and the fixed caps of the core loops.
//!
//! All lengths are in fixed-point units: `SUBPIX` units to one pixel of the
//! presentation layer. The vertical origin sits well below the cup so that
//! every position the simulation can reach is non-negative.

use vstd::prelude::*;

verus! {

/// Fixed-point scale: units per pixel.
pub const SUBPIX: u64 = 256;

/// Outer width of the cup.
pub const CUP_WIDTH: u64 = 500 * SUBPIX;

/// Outer height of the cup.
pub const CUP_HEIGHT: u64 = 500 * SUBPIX;

/// Thickness of the cup's walls and floor.
pub const CUP_THICKNESS: u64 = 10 * SUBPIX;

/// Radius of a rank-0 disc.
pub const BASE_RADIUS: u64 = 15 * SUBPIX;

/// How much the radius grows from one rank to the next.
pub const RADIUS_STEP: u64 = 5 * SUBPIX;

/// Vertical position of the cup's center line. Chosen high enough that the
/// loss line below the cup still has a non-negative coordinate.
pub const CUP_CENTER_Y: u64 = 2 * CUP_HEIGHT;

/// Horizontal position of the cup's center line.
pub const CUP_CENTER_X: u64 = CUP_WIDTH / 2;

/// A body whose center falls below this height loses the game.
pub const LOSS_HEIGHT: u64 = CUP_CENTER_Y - CUP_HEIGHT / 2 - CUP_THICKNESS - BASE_RADIUS;

/// Largest rank whose disc still fits between the cup's walls.
pub const MAX_RANK: u32 = 46;

/// Radius of a disc of rank `MAX_RANK`, the largest radius the simulation
/// ever works with.
pub const MAX_DISC_RADIUS: u64 = BASE_RADIUS + RADIUS_STEP * 46;

/// Upper bound on any coordinate the simulation stores. Keeps every squared
/// distance well inside `u64`.
pub const COORD_LIMIT: u64 = 0x4000_0000;

/// Orientations are angles in units of a full turn split into `ANGLE_FULL`
/// parts; every stored angle is strictly below this.
pub const ANGLE_FULL: u64 = 0x1_0000;

/// Hard cap on physics steps within one fast-forward burst.
pub const MAX_BURST_STEPS: u32 = 100;

/// Hard cap on relaxation passes of the overlap corrector.
pub const MAX_CORRECTION_PASSES: u32 = 30;

} // verus!
