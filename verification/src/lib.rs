//! A 2D particle-effect simulation core.
//!
//! An effect definition describes spawn cadence, emission shape, randomized
//! initial conditions and optional animation curves. Each tick, the update
//! engine spawns particles when the cadence timer fires, advances every live
//! particle analytically from its absolute age (closed-form kinematics, no
//! incremental stepping), derives render-ready instance data, and prunes
//! expired particles.
//!
//! All scalar quantities are fixed-point integers in milli-units
//! (`1000 == 1.0`), so every formula in the engine has exact integer
//! semantics that the contracts state in full.

pub mod effect;
pub mod fixed;
pub mod particle;
pub mod scene;
pub mod update;
pub mod values;
pub mod vecmath;
