//! Composable camera rigs.
//!
//! A camera rig is a chain of drivers. Each driver takes the pose produced by
//! the previous driver in the chain and yields a new pose, so a final camera
//! transform can be recomputed every frame from live input.
//!
//! All geometry is carried in 16.16 fixed-point coordinates: one world unit
//! is [`fixed::FP_ONE`]. Positions are triples of fixed-point scalars,
//! rotations are near-unit quaternions, and every public operation states in
//! its contract exactly which pose it returns.

pub mod driver;
pub mod drivers;
pub mod fixed;
pub mod handedness;
pub mod prelude;
pub mod quaternion;
pub mod rig;
pub mod transform;

pub mod trig;
pub mod util;
pub mod vector;
