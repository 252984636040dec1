//! The concrete drivers of the rig pipeline.

mod arm;
mod lock_position;
mod lock_rotation;
mod look_at;
mod position;
mod positional;
mod rotation;
mod smooth;
mod yaw_pitch;

pub use arm::lemma_arm_at_identity;
pub use arm::Arm;
pub use lock_position::spec_sat_opt;
pub use lock_position::LockPosition;
pub use lock_rotation::LockRotation;
pub use look_at::LookAt;
pub use position::Position;
pub use positional::Positional;
pub use rotation::Rotation;
pub use smooth::Smooth;
pub use yaw_pitch::YawPitch;
