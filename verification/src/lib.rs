//! Simulation core of a small 2D side-view platformer.
//!
//! A single player moves on a horizontal ground strip, jumps under gravity,
//! stomps enemies from above, loses on side contact with an enemy or an
//! obstacle, and wins once every enemy is gone.  The player's horizontal
//! position wraps around the screen edges; enemies patrol horizontally and
//! reverse when they hit obstacles.
//!
//! All geometry is held in fixed-point integers: lengths in thousandths of a
//! world unit, times in microseconds.  Rendering, input capture and window
//! management are left to the host.

pub mod tuning;
pub mod geom;
pub mod world;
pub mod input;
pub mod kinematics;
pub mod wrap;
pub mod collision;
pub mod hud;
pub mod frame;
pub mod spawn;
