use crate::driver::{DriverKind, RigDriver, RigDriverTraits};
use crate::handedness::Handedness;
use crate::rig::RigUpdateParams;
use crate::transform::Transform;
use crate::quaternion::Quat;
use vstd::prelude::*;

verus! {

/// Directly sets the rotation of the camera; position passes through.
#[derive(Clone, Copy, Debug)]
pub struct Rotation {
    pub rotation: Quat,
}

impl Rotation {
    /// A driver holding the given rotation: kept as it is when already
    /// near-unit, else renormalized into the unit band (a degenerate input
    /// becomes the identity).
    pub fn new(rotation: Quat) -> (d: Rotation)
        ensures
            d.rotation == Quat::spec_unit_or_renorm(rotation),
            rotation.is_unit() ==> d.rotation == rotation,
            d.wf(),
    {
        Rotation { rotation: Quat::unit_or_renormalized(rotation) }
    }
}

impl Default for Rotation {
    /// A driver holding the identity rotation.
    fn default() -> (d: Self)
        ensures
            d.rotation == Quat::spec_identity(),
            d.wf(),
    {
        Rotation { rotation: Quat::identity() }
    }
}

impl RigDriver for Rotation {
    open spec fn wf(self) -> bool {
        self.rotation.is_unit()
    }

    /// The output takes the parent's position and the stored rotation.
    open spec fn spec_update(self, parent: Transform, dt: i64, h: Handedness) -> (Self, Transform) {
        (self, Transform { position: parent.position, rotation: self.rotation })
    }

    fn update(&mut self, params: RigUpdateParams<'_>) -> (t: Transform) {
        Transform { position: params.parent.position, rotation: self.rotation }
    }
}

impl RigDriverTraits for Rotation {
    open spec fn spec_kind(self) -> DriverKind {
        DriverKind::Rotation
    }

    fn kind(&self) -> (k: DriverKind) {
        DriverKind::Rotation
    }
}

} // verus!
