//! Coordinate-handedness conventions.
//!
//! The handedness decides which sign of the Z axis is "forward" and in which
//! order the look-at basis takes its cross products. It is carried as a
//! runtime value threaded through the few formulas that read it; the unit
//! types [`LeftHanded`] and [`RightHanded`] name the two conventions.

use crate::fixed::FP_ONE;
use crate::vector::Vec3;
use vstd::prelude::*;

verus! {

/// Which axis sign is treated as "forward".
#[derive(Clone, Copy, Debug, PartialEq, Eq, Structural)]
pub enum Handedness {
    /// Forward along positive Z.
    Left,
    /// Forward along negative Z.
    Right,
}

impl Handedness {
    /// The sign of the forward Z axis: `1` left-handed, `-1` right-handed.
    pub open spec fn spec_forward_sign(self) -> int {
        match self {
            Handedness::Left => 1,
            Handedness::Right => -1,
        }
    }

    /// Returns the forward-axis sign.
    pub fn forward_sign(self) -> (s: i64)
        ensures
            s as int == self.spec_forward_sign(),
    {
        match self {
            Handedness::Left => 1,
            Handedness::Right => -1,
        }
    }

    /// The unit forward vector of this convention.
    pub open spec fn spec_forward(self) -> Vec3 {
        match self {
            Handedness::Left => Vec3 { x: 0, y: 0, z: FP_ONE },
            Handedness::Right => Vec3 { x: 0, y: 0, z: (-FP_ONE) as i64 },
        }
    }

    /// Returns the unit forward vector.
    pub fn forward(self) -> (v: Vec3)
        ensures
            v == self.spec_forward(),
            v.in_range(),
    {
        match self {
            Handedness::Left => Vec3 { x: 0, y: 0, z: FP_ONE },
            Handedness::Right => Vec3 { x: 0, y: 0, z: -FP_ONE },
        }
    }

    /// The right vector obtained from up and forward, in this convention's
    /// cross-product order.
    pub open spec fn spec_right_from_up_and_forward(self, up: Vec3, forward: Vec3) -> Vec3 {
        match self {
            Handedness::Left => up.spec_cross(forward),
            Handedness::Right => forward.spec_cross(up),
        }
    }

    /// Computes the right vector from up and forward.
    pub fn right_from_up_and_forward(self, up: Vec3, forward: Vec3) -> (r: Vec3)
        requires
            up.in_range(),
            forward.in_range(),
        ensures
            r == self.spec_right_from_up_and_forward(up, forward),
            r.in_range(),
    {
        match self {
            Handedness::Left => up.cross(forward),
            Handedness::Right => forward.cross(up),
        }
    }

    /// The up vector obtained from right and forward, in this convention's
    /// cross-product order.
    pub open spec fn spec_up_from_right_and_forward(self, right: Vec3, forward: Vec3) -> Vec3 {
        match self {
            Handedness::Left => forward.spec_cross(right),
            Handedness::Right => right.spec_cross(forward),
        }
    }

    /// Computes the up vector from right and forward.
    pub fn up_from_right_and_forward(self, right: Vec3, forward: Vec3) -> (r: Vec3)
        requires
            right.in_range(),
            forward.in_range(),
        ensures
            r == self.spec_up_from_right_and_forward(right, forward),
            r.in_range(),
    {
        match self {
            Handedness::Left => forward.cross(right),
            Handedness::Right => right.cross(forward),
        }
    }
}

/// The left-handed convention: forward along positive Z.
#[derive(Clone, Copy, Debug)]
pub struct LeftHanded;

impl LeftHanded {
    /// This convention as a runtime value.
    pub fn handedness(&self) -> (h: Handedness)
        ensures
            h == Handedness::Left,
    {
        Handedness::Left
    }

    /// Computes the right vector from up and forward, left-handed.
    pub fn right_from_up_and_forward(&self, up: Vec3, forward: Vec3) -> (r: Vec3)
        requires
            up.in_range(),
            forward.in_range(),
        ensures
            r == Handedness::Left.spec_right_from_up_and_forward(up, forward),
            r.in_range(),
    {
        up.cross(forward)
    }

    /// Computes the up vector from right and forward, left-handed.
    pub fn up_from_right_and_forward(&self, right: Vec3, forward: Vec3) -> (r: Vec3)
        requires
            right.in_range(),
            forward.in_range(),
        ensures
            r == Handedness::Left.spec_up_from_right_and_forward(right, forward),
            r.in_range(),
    {
        forward.cross(right)
    }
}

/// The right-handed convention: forward along negative Z.
#[derive(Clone, Copy, Debug)]
pub struct RightHanded;

impl RightHanded {
    /// This convention as a runtime value.
    pub fn handedness(&self) -> (h: Handedness)
        ensures
            h == Handedness::Right,
    {
        Handedness::Right
    }

    /// Computes the right vector from up and forward, right-handed.
    pub fn right_from_up_and_forward(&self, up: Vec3, forward: Vec3) -> (r: Vec3)
        requires
            up.in_range(),
            forward.in_range(),
        ensures
            r == Handedness::Right.spec_right_from_up_and_forward(up, forward),
            r.in_range(),
    {
        forward.cross(up)
    }

    /// Computes the up vector from right and forward, right-handed.
    pub fn up_from_right_and_forward(&self, right: Vec3, forward: Vec3) -> (r: Vec3)
        requires
            right.in_range(),
            forward.in_range(),
        ensures
            r == Handedness::Right.spec_up_from_right_and_forward(right, forward),
            r.in_range(),
    {
        right.cross(forward)
    }
}

} // verus!
