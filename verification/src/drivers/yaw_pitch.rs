use crate::driver::{DriverKind, RigDriver, RigDriverTraits};
use crate::handedness::Handedness;
use crate::rig::RigUpdateParams;
use crate::transform::Transform;
use crate::fixed::{clamp_e, clamp_spec, rem_fp, rem_fp_wide, FP_ONE};
use crate::quaternion::Quat;
use vstd::prelude::*;

verus! {

/// Calculates the camera rotation from yaw and pitch angles, in 16.16
/// fixed-point degrees.
///
/// `rotate_yaw_pitch` and the quaternion setters keep the yaw in
/// `[0, 720)` degrees rather than `[0, 360)`: a quaternion encodes 720
/// degrees of rotation, and blending from a large to a small yaw can
/// otherwise take the long way around. The plain `yaw_degrees` setter
/// stores the angle it is given.
#[derive(Clone, Copy, Debug)]
pub struct YawPitch {
    pub yaw_degrees: i64,
    pub pitch_degrees: i64,
}

impl YawPitch {
    /// A camera looking forward: zero yaw, zero pitch.
    pub fn new() -> (d: YawPitch)
        ensures
            d.yaw_degrees == 0,
            d.pitch_degrees == 0,
    {
        YawPitch { yaw_degrees: 0, pitch_degrees: 0 }
    }

    /// Sets the yaw and pitch from a rotation, the yaw wrapped into
    /// `[0, 720)` degrees; any roll is discarded.
    pub fn rotation_quat(self, rotation: Quat) -> (d: Self)
        ensures
            d.yaw_degrees as int == Quat::spec_unit_or_renorm(rotation).spec_to_euler_yxz().0 % (
            720 * FP_ONE),
            0 <= d.yaw_degrees < 720 * FP_ONE,
            d.pitch_degrees as int == Quat::spec_unit_or_renorm(rotation).spec_to_euler_yxz().1,
    {
        let mut d = self;
        d.set_rotation_quat(rotation);
        d
    }

    /// Sets the yaw angle in fixed-point degrees.
    pub fn yaw_degrees(self, yaw_degrees: i64) -> (d: Self)
        ensures
            d.yaw_degrees == yaw_degrees,
            d.pitch_degrees == self.pitch_degrees,
    {
        YawPitch { yaw_degrees, pitch_degrees: self.pitch_degrees }
    }

    /// Sets the pitch angle in fixed-point degrees.
    pub fn pitch_degrees(self, pitch_degrees: i64) -> (d: Self)
        ensures
            d.pitch_degrees == pitch_degrees,
            d.yaw_degrees == self.yaw_degrees,
    {
        YawPitch { yaw_degrees: self.yaw_degrees, pitch_degrees }
    }

    /// Rotates by the given deltas: the yaw wraps modulo 720 degrees into
    /// `[0, 720)`, and the pitch clamps to +/-90 degrees.
    pub fn rotate_yaw_pitch(&mut self, yaw_degrees: i64, pitch_degrees: i64)
        ensures
            final(self).yaw_degrees as int == (old(self).yaw_degrees + yaw_degrees) % (720
                * FP_ONE),
            0 <= final(self).yaw_degrees < 720 * FP_ONE,
            final(self).pitch_degrees as int == clamp_spec(
                old(self).pitch_degrees + pitch_degrees,
                -90 * FP_ONE,
                90 * FP_ONE,
            ),
    {
        self.yaw_degrees = rem_fp_wide(
            (self.yaw_degrees as i128) + (yaw_degrees as i128),
            720 * FP_ONE,
        );
        self.pitch_degrees = clamp_e(
            (self.pitch_degrees as i128) + (pitch_degrees as i128),
            -90 * FP_ONE,
            90 * FP_ONE,
        );
    }

    /// Sets the yaw and pitch from a rotation, the yaw wrapped into
    /// `[0, 720)` degrees; any roll is discarded. An already near-unit
    /// rotation is read as it is; anything else is renormalized first.
    pub fn set_rotation_quat(&mut self, rotation: Quat)
        ensures
            final(self).yaw_degrees as int == Quat::spec_unit_or_renorm(
                rotation,
            ).spec_to_euler_yxz().0 % (720 * FP_ONE),
            0 <= final(self).yaw_degrees < 720 * FP_ONE,
            final(self).pitch_degrees as int == Quat::spec_unit_or_renorm(
                rotation,
            ).spec_to_euler_yxz().1,
    {
        let q = Quat::unit_or_renormalized(rotation);
        let angles = q.to_euler_yxz();
        self.yaw_degrees = rem_fp(angles.0, 720 * FP_ONE);
        self.pitch_degrees = angles.1;
    }
}

impl Default for YawPitch {
    /// A camera looking forward: zero yaw, zero pitch.
    fn default() -> (d: Self)
        ensures
            d.yaw_degrees == 0,
            d.pitch_degrees == 0,
    {
        YawPitch { yaw_degrees: 0, pitch_degrees: 0 }
    }
}

impl RigDriver for YawPitch {
    open spec fn wf(self) -> bool {
        true
    }

    /// The output takes the parent's position and the rotation built from
    /// the stored yaw and pitch.
    open spec fn spec_update(self, parent: Transform, dt: i64, h: Handedness) -> (Self, Transform) {
        (
            self,
            Transform {
                position: parent.position,
                rotation: Quat::spec_from_yaw_pitch(
                    self.yaw_degrees as int,
                    self.pitch_degrees as int,
                ),
            },
        )
    }

    fn update(&mut self, params: RigUpdateParams<'_>) -> (t: Transform) {
        Transform {
            position: params.parent.position,
            rotation: Quat::from_yaw_pitch(self.yaw_degrees, self.pitch_degrees),
        }
    }
}

impl RigDriverTraits for YawPitch {
    open spec fn spec_kind(self) -> DriverKind {
        DriverKind::YawPitch
    }

    fn kind(&self) -> (k: DriverKind) {
        DriverKind::YawPitch
    }
}

} // verus!
