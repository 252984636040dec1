use crate::driver::{DriverKind, RigDriver, RigDriverTraits};
use crate::handedness::Handedness;
use crate::rig::RigUpdateParams;
use crate::transform::Transform;
use crate::vector::Vec3;
use vstd::prelude::*;

verus! {

/// Offsets the camera along a vector in the parent's coordinate space.
#[derive(Clone, Copy, Debug)]
pub struct Arm {
    pub offset: Vec3,
}

impl Arm {
    /// A driver holding the given offset, saturated into range.
    pub fn new(offset: Vec3) -> (d: Arm)
        ensures
            d.offset == Vec3::spec_new(offset.x as int, offset.y as int, offset.z as int),
            d.wf(),
    {
        Arm { offset: Vec3::new(offset.x, offset.y, offset.z) }
    }
}

impl RigDriver for Arm {
    open spec fn wf(self) -> bool {
        self.offset.in_range()
    }

    /// The output position is the parent's position plus the offset
    /// rotated into the parent's space; the rotation passes through.
    open spec fn spec_update(self, parent: Transform, dt: i64, h: Handedness) -> (Self, Transform) {
        (
            self,
            Transform {
                position: parent.position.spec_add(parent.rotation.spec_rotate(self.offset)),
                rotation: parent.rotation,
            },
        )
    }

    fn update(&mut self, params: RigUpdateParams<'_>) -> (t: Transform) {
        let rotated = params.parent.rotation.rotate(self.offset);
        Transform {
            position: params.parent.position.add(rotated),
            rotation: params.parent.rotation,
        }
    }
}

/// With the identity pose as parent, an arm places the camera exactly at
/// its offset: rotating by the identity changes nothing and adding to the
/// origin is exact.
pub proof fn lemma_arm_at_identity(arm: Arm, dt: i64, h: Handedness)
    requires
        arm.wf(),
    ensures
        arm.spec_update(Transform::spec_identity(), dt, h).1.position == arm.offset,
        arm.spec_update(Transform::spec_identity(), dt, h).1.rotation
            == crate::quaternion::Quat::spec_identity(),
{
    crate::quaternion::Quat::lemma_rotate_identity(arm.offset);
}

impl RigDriverTraits for Arm {
    open spec fn spec_kind(self) -> DriverKind {
        DriverKind::Arm
    }

    fn kind(&self) -> (k: DriverKind) {
        DriverKind::Arm
    }
}

} // verus!
