use crate::driver::{DriverKind, RigDriver, RigDriverTraits};
use crate::handedness::Handedness;
use crate::rig::RigUpdateParams;
use crate::transform::Transform;
use crate::vector::Vec3;
use vstd::prelude::*;

verus! {

/// Directly sets the position of the camera; rotation passes through.
#[derive(Clone, Copy, Debug)]
pub struct Position {
    pub position: Vec3,
}

impl Position {
    /// A driver holding the given position, saturated into range.
    pub fn new(position: Vec3) -> (d: Position)
        ensures
            d.position == Vec3::spec_new(position.x as int, position.y as int, position.z as int),
            d.wf(),
    {
        Position { position: Vec3::new(position.x, position.y, position.z) }
    }

    /// Adds the vector to this driver's position, saturating.
    pub fn translate(&mut self, move_vec: Vec3)
        ensures
            final(self).position == old(self).position.spec_add(move_vec),
            final(self).wf(),
    {
        self.position = self.position.add(move_vec);
    }
}

impl Default for Position {
    /// A driver at the origin.
    fn default() -> (d: Self)
        ensures
            d.position == Vec3::spec_zero(),
            d.wf(),
    {
        Position { position: Vec3::zero() }
    }
}

impl RigDriver for Position {
    open spec fn wf(self) -> bool {
        self.position.in_range()
    }

    /// The output takes the stored position and the parent's rotation.
    open spec fn spec_update(self, parent: Transform, dt: i64, h: Handedness) -> (Self, Transform) {
        (self, Transform { position: self.position, rotation: parent.rotation })
    }

    fn update(&mut self, params: RigUpdateParams<'_>) -> (t: Transform) {
        Transform { position: self.position, rotation: params.parent.rotation }
    }
}

impl RigDriverTraits for Position {
    open spec fn spec_kind(self) -> DriverKind {
        DriverKind::Position
    }

    fn kind(&self) -> (k: DriverKind) {
        DriverKind::Position
    }
}

} // verus!
