//! The items a host application usually needs.

pub use crate::driver::{Driver, DriverKind, RigDriver, RigDriverTraits};
pub use crate::drivers::{
    Arm, LockPosition, LockRotation, LookAt, Position, Positional, Rotation, Smooth, YawPitch,
};
pub use crate::fixed::FP_ONE;
pub use crate::handedness::{Handedness, LeftHanded, RightHanded};
pub use crate::rig::{CameraRig, CameraRigBuilder};
pub use crate::transform::Transform;
pub use crate::vector::Vec3;
