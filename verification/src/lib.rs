//! A particle-based gravitational simulation core.
//!
//! A population of sphere bodies mutually repel (or attract), are optionally
//! pulled toward the origin by a central force, and are advanced in time by a
//! two-position Verlet-style integrator on a fixed timestep. All physical
//! quantities are held in fixed-point arithmetic (see [`fixed`]), so every
//! force and integration step is exact integer computation with a saturating
//! range, and the whole per-tick state transition is specified and verified.

pub mod fixed;
pub mod laws;
pub mod sim;
pub mod spawn;
pub mod body;
pub mod vec3;
