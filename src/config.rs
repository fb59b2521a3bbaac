//! The game's tuning constants, in world units (and world units per second
//! for speeds).

use vstd::prelude::*;

verus! {

/// Diameter of the player's body.
pub const PLAYER_SIZE: i32 = 60;

/// Diameter of a ball.
pub const BALL_SIZE: i32 = 70;

/// Player speed at full intent.
pub const PLAYER_SPEED: u32 = 500;

/// Nominal speed of a ball.
pub const BALL_SPEED: i32 = 100;

/// Balls spawned at startup.
pub const INITIAL_BALL_COUNT: u32 = 1;

/// Length of the impulse a shot gives each target.
pub const SHOOT_BASE_STRENGTH: i32 = 5;

/// Range margin beyond touching within which shooting and locking act.
pub const PLAYER_RANGE: i32 = 10;

} // verus!
