use crate::driver::{DriverKind, RigDriver, RigDriverTraits};
use crate::handedness::Handedness;
use crate::rig::RigUpdateParams;
use crate::transform::Transform;
use crate::quaternion::Quat;
use crate::vector::Vec3;
use vstd::prelude::*;

verus! {

/// Sets both position and rotation of the camera from its own state,
/// ignoring the parent entirely.
#[derive(Clone, Copy, Debug)]
pub struct Positional {
    pub position: Vec3,
    pub rotation: Quat,
}

impl Positional {
    /// A driver at the given position with the identity rotation.
    pub fn new(position: Vec3) -> (d: Positional)
        ensures
            d.position == Vec3::spec_new(position.x as int, position.y as int, position.z as int),
            d.rotation == Quat::spec_identity(),
            d.wf(),
    {
        Positional {
            position: Vec3::new(position.x, position.y, position.z),
            rotation: Quat::identity(),
        }
    }

    /// Adds the vector to this driver's position, saturating.
    pub fn translate(&mut self, move_vec: Vec3)
        ensures
            final(self).position == old(self).position.spec_add(move_vec),
            final(self).rotation == old(self).rotation,
    {
        self.position = self.position.add(move_vec);
    }

    /// Replaces both position and rotation; the position saturates, and
    /// the rotation is kept as it is when already near-unit, else
    /// renormalized.
    pub fn set_position_rotation(&mut self, position: Vec3, rotation: Quat)
        ensures
            final(self).position == Vec3::spec_new(
                position.x as int,
                position.y as int,
                position.z as int,
            ),
            final(self).rotation == Quat::spec_unit_or_renorm(rotation),
            rotation.is_unit() ==> final(self).rotation == rotation,
            final(self).wf(),
    {
        self.position = Vec3::new(position.x, position.y, position.z);
        self.rotation = Quat::unit_or_renormalized(rotation);
    }
}

impl Default for Positional {
    /// A driver at the origin with the identity rotation.
    fn default() -> (d: Self)
        ensures
            d.position == Vec3::spec_zero(),
            d.rotation == Quat::spec_identity(),
            d.wf(),
    {
        Positional { position: Vec3::zero(), rotation: Quat::identity() }
    }
}

impl RigDriver for Positional {
    open spec fn wf(self) -> bool {
        self.position.in_range() && self.rotation.is_unit()
    }

    /// The output is exactly this driver's stored pose.
    open spec fn spec_update(self, parent: Transform, dt: i64, h: Handedness) -> (Self, Transform) {
        (self, Transform { position: self.position, rotation: self.rotation })
    }

    fn update(&mut self, params: RigUpdateParams<'_>) -> (t: Transform) {
        Transform { position: self.position, rotation: self.rotation }
    }
}

impl RigDriverTraits for Positional {
    open spec fn spec_kind(self) -> DriverKind {
        DriverKind::Positional
    }

    fn kind(&self) -> (k: DriverKind) {
        DriverKind::Positional
    }
}

} // verus!
