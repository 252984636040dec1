//! The camera pose: a position and a near-unit rotation.

use crate::fixed::{sat, FP_ONE};
use crate::handedness::Handedness;
use crate::quaternion::Quat;
use crate::vector::Vec3;
use vstd::prelude::*;

verus! {

/// A pose: a fixed-point position together with a near-unit rotation.
#[derive(Clone, Copy, Debug, PartialEq, Eq, Structural)]
pub struct Transform {
    pub position: Vec3,
    pub rotation: Quat,
}

impl Transform {
    /// Well-formedness: the position is in range and the rotation is
    /// near-unit.
    pub open spec fn wf(self) -> bool {
        self.position.in_range() && self.rotation.is_unit()
    }

    /// The identity pose: the origin with the identity rotation.
    pub open spec fn spec_identity() -> Transform {
        Transform { position: Vec3::spec_zero(), rotation: Quat::spec_identity() }
    }

    /// Returns the identity pose.
    pub fn identity() -> (t: Transform)
        ensures
            t == Self::spec_identity(),
            t.wf(),
    {
        Transform { position: Vec3::zero(), rotation: Quat::identity() }
    }

    /// The pose built from raw parts: the position saturated into range,
    /// and the rotation kept as it is when already near-unit, else
    /// renormalized (a degenerate input becomes the identity rotation).
    pub open spec fn spec_from_position_rotation(position: Vec3, rotation: Quat) -> Transform {
        Transform {
            position: Vec3::spec_new(position.x as int, position.y as int, position.z as int),
            rotation: Quat::spec_unit_or_renorm(rotation),
        }
    }

    /// Builds a well-formed pose from raw parts.
    pub fn from_position_rotation(position: Vec3, rotation: Quat) -> (t: Transform)
        ensures
            t == Self::spec_from_position_rotation(position, rotation),
            t.wf(),
    {
        let p = Vec3::new(position.x, position.y, position.z);
        let q = Quat::unit_or_renormalized(rotation);
        Transform { position: p, rotation: q }
    }

    /// Building a pose from valid parts and splitting it again returns the
    /// parts unchanged: the constructor alters neither an in-range position
    /// nor a near-unit rotation, so `from_position_rotation` and
    /// `into_position_rotation` are mutual inverses on the valid domain.
    pub proof fn lemma_pose_round_trip(position: Vec3, rotation: Quat)
        requires
            position.in_range(),
            rotation.is_unit(),
        ensures
            Self::spec_from_position_rotation(position, rotation) == (Transform {
                position,
                rotation,
            }),
    {
    }

    /// Splits the pose back into its parts.
    pub fn into_position_rotation(self) -> (r: (Vec3, Quat))
        ensures
            r == (self.position, self.rotation),
    {
        (self.position, self.rotation)
    }

    /// The pose's right direction: the rotated positive X axis.
    pub fn right(&self) -> (v: Vec3)
        requires
            self.wf(),
        ensures
            v == self.rotation.spec_rotate((Vec3 { x: FP_ONE, y: 0, z: 0 })),
            v.in_range(),
    {
        self.rotation.rotate(Vec3 { x: FP_ONE, y: 0, z: 0 })
    }

    /// The pose's up direction: the rotated positive Y axis.
    pub fn up(&self) -> (v: Vec3)
        requires
            self.wf(),
        ensures
            v == self.rotation.spec_rotate((Vec3 { x: 0, y: FP_ONE, z: 0 })),
            v.in_range(),
    {
        self.rotation.rotate(Vec3 { x: 0, y: FP_ONE, z: 0 })
    }

    /// The pose's forward direction: the rotated forward axis of the given
    /// handedness.
    pub fn forward(&self, handedness: Handedness) -> (v: Vec3)
        requires
            self.wf(),
        ensures
            v == self.rotation.spec_rotate(handedness.spec_forward()),
            v.in_range(),
    {
        let f = handedness.forward();
        self.rotation.rotate(f)
    }
}

} // verus!
