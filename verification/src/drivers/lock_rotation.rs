use crate::driver::{DriverKind, RigDriver, RigDriverTraits};
use crate::handedness::Handedness;
use crate::rig::RigUpdateParams;
use crate::transform::Transform;
use crate::quaternion::Quat;
use vstd::prelude::*;

verus! {

/// Constrains the rotation to the flagged axes: the parent's rotation is
/// projected onto each flagged axis in turn and the projections are
/// composed, so an empty flag set suppresses the rotation entirely.
#[derive(Clone, Copy, Debug)]
pub struct LockRotation {
    pub x: bool,
    pub y: bool,
    pub z: bool,
}

impl LockRotation {
    /// A lock that retains no axis.
    pub fn new() -> (d: LockRotation)
        ensures
            !d.x,
            !d.y,
            !d.z,
    {
        LockRotation { x: false, y: false, z: false }
    }

    /// A lock retaining the flagged axes.
    pub fn from(x: bool, y: bool, z: bool) -> (d: LockRotation)
        ensures
            d.x == x,
            d.y == y,
            d.z == z,
    {
        LockRotation { x, y, z }
    }

    /// This lock, also retaining rotation about the X axis.
    pub fn x(&self) -> (d: Self)
        ensures
            d.x,
            d.y == self.y,
            d.z == self.z,
    {
        LockRotation { x: true, y: self.y, z: self.z }
    }

    /// This lock, also retaining rotation about the Y axis.
    pub fn y(&self) -> (d: Self)
        ensures
            d.y,
            d.x == self.x,
            d.z == self.z,
    {
        LockRotation { x: self.x, y: true, z: self.z }
    }

    /// This lock, also retaining rotation about the Z axis.
    pub fn z(&self) -> (d: Self)
        ensures
            d.z,
            d.x == self.x,
            d.y == self.y,
    {
        LockRotation { x: self.x, y: self.y, z: true }
    }
}

impl RigDriver for LockRotation {
    open spec fn wf(self) -> bool {
        true
    }

    /// Starting from the identity, the parent rotation's projection onto
    /// each flagged axis (its component on that axis together with the
    /// scalar part, renormalized) is multiplied in, X then Y then Z; the
    /// position passes through.
    open spec fn spec_update(self, parent: Transform, dt: i64, h: Handedness) -> (Self, Transform) {
        let rot = parent.rotation;
        let d0 = Quat::spec_identity();
        let d1 = if self.x {
            d0.spec_mul(Quat::spec_normalize(rot.x as int, 0, 0, rot.w as int))
        } else {
            d0
        };
        let d2 = if self.y {
            d1.spec_mul(Quat::spec_normalize(0, rot.y as int, 0, rot.w as int))
        } else {
            d1
        };
        let d3 = if self.z {
            d2.spec_mul(Quat::spec_normalize(0, 0, rot.z as int, rot.w as int))
        } else {
            d2
        };
        (self, Transform { position: parent.position, rotation: d3 })
    }

    fn update(&mut self, params: RigUpdateParams<'_>) -> (t: Transform) {
        let rot = params.parent.rotation;
        proof {
            rot.lemma_unit_component_bound();
        }
        let mut delta = Quat::identity();
        if self.x {
            delta = delta.mul(Quat::normalize128(rot.x as i128, 0, 0, rot.w as i128));
        }
        if self.y {
            delta = delta.mul(Quat::normalize128(0, rot.y as i128, 0, rot.w as i128));
        }
        if self.z {
            delta = delta.mul(Quat::normalize128(0, 0, rot.z as i128, rot.w as i128));
        }
        Transform { position: params.parent.position, rotation: delta }
    }
}

impl RigDriverTraits for LockRotation {
    open spec fn spec_kind(self) -> DriverKind {
        DriverKind::LockRotation
    }

    fn kind(&self) -> (k: DriverKind) {
        DriverKind::LockRotation
    }
}

} // verus!
