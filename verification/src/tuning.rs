//! Gameplay tuning constants and representation limits.
//!
//! Lengths are fixed-point integers in thousandths of a world unit
//! ("milli-units"); velocities are milli-units per second; durations are
//! microseconds.  The `*_LIMIT` constants bound the representable state so
//! that every arithmetic step of the simulation stays inside `i64`.

use vstd::prelude::*;

verus! {

/// Microseconds per second; the denominator of every velocity-times-time product.
pub const MICROS_PER_SEC: i64 = 1_000_000;

/// Half the player's width.
pub const PLAYER_HALF_X: i64 = 15_000;

/// Half the player's height.
pub const PLAYER_HALF_Y: i64 = 15_000;

/// Half an enemy's width.
pub const ENEMY_HALF_X: i64 = 15_000;

/// Half an enemy's height.
pub const ENEMY_HALF_Y: i64 = 15_000;

/// Half an obstacle's width.
pub const OBSTACLE_HALF_X: i64 = 20_000;

/// Half an obstacle's height.
pub const OBSTACLE_HALF_Y: i64 = 20_000;

/// Height of the ground strip.
pub const GROUND_HEIGHT: i64 = 20_000;

/// Downward acceleration applied to the player, in milli-units per second squared.
pub const GRAVITY_FORCE: i64 = -500_000;

/// Horizontal speed of the player while a direction key is held.
pub const PLAYER_SPEED: i64 = 200_000;

/// Upward velocity granted by a jump.
pub const PLAYER_JUMP_VELOCITY: i64 = 300_000;

/// Least enemy patrol speed (inclusive).
pub const ENEMY_SPEED_MIN: i64 = 50_000;

/// Greatest enemy patrol speed (exclusive).
pub const ENEMY_SPEED_MAX: i64 = 150_000;

/// A stomp counts whenever the player's bottom is at most this far below the enemy's top.
pub const STOMP_TOLERANCE: i64 = 5_000;

/// Points awarded for each stomped enemy.
pub const STOMP_SCORE: i64 = 100;

/// Least number of enemies spawned (inclusive).
pub const ENEMY_COUNT_MIN: i64 = 2;

/// Greatest number of enemies spawned (exclusive).
pub const ENEMY_COUNT_END: i64 = 5;

/// Least number of obstacles spawned (inclusive).
pub const OBSTACLE_COUNT_MIN: i64 = 3;

/// Greatest number of obstacles spawned (exclusive).
pub const OBSTACLE_COUNT_END: i64 = 7;

/// Greatest representable coordinate magnitude; positions saturate here.
pub const POS_LIMIT: i64 = 1_000_000_000_000_000;

/// Greatest representable velocity magnitude; the gravity stage saturates here.
pub const VEL_LIMIT: i64 = 100_000_000_000;

/// Greatest accepted frame delta (ten seconds).
pub const DT_LIMIT: i64 = 10_000_000;

/// Greatest accepted half screen width.
pub const HALF_WIDTH_LIMIT: i64 = 1_000_000_000_000;

/// Greatest magnitude of a single-frame displacement: `VEL_LIMIT` for one `DT_LIMIT`.
pub const DISPLACEMENT_LIMIT: i64 = 1_000_000_000_000;

} // verus!
