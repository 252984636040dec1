use crate::driver::{DriverKind, RigDriver, RigDriverTraits};
use crate::handedness::Handedness;
use crate::rig::RigUpdateParams;
use crate::transform::Transform;
use crate::fixed::{sat, sat_i128, COORD_MAX};
use crate::vector::Vec3;
use vstd::prelude::*;

verus! {

/// Pins chosen coordinates of the position to fixed values, passing the
/// other coordinates and the rotation through.
#[derive(Clone, Copy, Debug)]
pub struct LockPosition {
    pub x: Option<i64>,
    pub y: Option<i64>,
    pub z: Option<i64>,
}

/// An optional pinned coordinate, saturated into range.
pub open spec fn spec_sat_opt(o: Option<i64>) -> Option<i64> {
    match o {
        Some(v) => Some(sat(v as int) as i64),
        None => None,
    }
}

/// Saturates an optional pinned coordinate.
fn sat_opt(o: Option<i64>) -> (r: Option<i64>)
    ensures
        r == spec_sat_opt(o),
{
    match o {
        Some(v) => Some(sat_i128(v as i128)),
        None => None,
    }
}

impl LockPosition {
    /// A lock that pins nothing.
    pub fn new() -> (d: LockPosition)
        ensures
            d.x is None,
            d.y is None,
            d.z is None,
    {
        LockPosition { x: None, y: None, z: None }
    }

    /// A lock pinning the given coordinates, each saturated.
    pub fn from(x: Option<i64>, y: Option<i64>, z: Option<i64>) -> (d: LockPosition)
        ensures
            d.x == spec_sat_opt(x),
            d.y == spec_sat_opt(y),
            d.z == spec_sat_opt(z),
            d.wf(),
    {
        LockPosition { x: sat_opt(x), y: sat_opt(y), z: sat_opt(z) }
    }

    /// This lock with the X coordinate pinned to `x`.
    pub fn x(&self, x: i64) -> (d: Self)
        ensures
            d.x == spec_sat_opt(Some(x)),
            d.y == self.y,
            d.z == self.z,
    {
        LockPosition { x: Some(sat_i128(x as i128)), y: self.y, z: self.z }
    }

    /// This lock with the Y coordinate pinned to `y`.
    pub fn y(&self, y: i64) -> (d: Self)
        ensures
            d.y == spec_sat_opt(Some(y)),
            d.x == self.x,
            d.z == self.z,
    {
        LockPosition { x: self.x, y: Some(sat_i128(y as i128)), z: self.z }
    }

    /// This lock with the Z coordinate pinned to `z`.
    pub fn z(&self, z: i64) -> (d: Self)
        ensures
            d.z == spec_sat_opt(Some(z)),
            d.x == self.x,
            d.y == self.y,
    {
        LockPosition { x: self.x, y: self.y, z: Some(sat_i128(z as i128)) }
    }
}

impl Default for LockPosition {
    /// A lock that pins nothing.
    fn default() -> (d: Self)
        ensures
            d.x is None,
            d.y is None,
            d.z is None,
    {
        LockPosition { x: None, y: None, z: None }
    }
}

impl RigDriver for LockPosition {
    open spec fn wf(self) -> bool {
        &&& (self.x matches Some(v) ==> -COORD_MAX <= v <= COORD_MAX)
    &&& (self.y matches Some(v) ==> -COORD_MAX <= v <= COORD_MAX)
    &&& (self.z matches Some(v) ==> -COORD_MAX <= v <= COORD_MAX)
    }

    /// Each pinned coordinate replaces the parent's; the rest of the
    /// position and the rotation pass through.
    open spec fn spec_update(self, parent: Transform, dt: i64, h: Handedness) -> (Self, Transform) {
        (
            self,
            Transform {
                position: Vec3 {
                    x: match self.x {
                        Some(v) => v,
                        None => parent.position.x,
                    },
                    y: match self.y {
                        Some(v) => v,
                        None => parent.position.y,
                    },
                    z: match self.z {
                        Some(v) => v,
                        None => parent.position.z,
                    },
                },
                rotation: parent.rotation,
            },
        )
    }

    fn update(&mut self, params: RigUpdateParams<'_>) -> (t: Transform) {
        let px: i64 = match self.x {
            Some(v) => v,
            None => params.parent.position.x,
        };
        let py: i64 = match self.y {
            Some(v) => v,
            None => params.parent.position.y,
        };
        let pz: i64 = match self.z {
            Some(v) => v,
            None => params.parent.position.z,
        };
        Transform { position: Vec3 { x: px, y: py, z: pz }, rotation: params.parent.rotation }
    }
}

impl RigDriverTraits for LockPosition {
    open spec fn spec_kind(self) -> DriverKind {
        DriverKind::LockPosition
    }

    fn kind(&self) -> (k: DriverKind) {
        DriverKind::LockPosition
    }
}

} // verus!
