use crate::driver::{DriverKind, RigDriver, RigDriverTraits};
use crate::handedness::Handedness;
use crate::rig::RigUpdateParams;
use crate::transform::Transform;
use crate::fixed::FP_ONE;
use crate::quaternion::Quat;
use crate::util::{ExpSmoothed, ExpSmoothingParams, Interpolate};
use crate::vector::Vec3;
use vstd::prelude::*;

verus! {

/// Smooths the parent transformation: position and rotation are each run
/// through an exponential smoother with their own smoothness.
#[derive(Clone, Copy, Debug)]
pub struct Smooth {
    /// Exponential smoothing factor for the position.
    pub position_smoothness: i64,
    /// Exponential smoothing factor for the rotation.
    pub rotation_smoothness: i64,
    /// `FP_ONE` for plain smoothing, `-FP_ONE` for predictive output.
    pub output_offset_scale: i64,
    pub smoothed_position: ExpSmoothed<Vec3>,
    pub smoothed_rotation: ExpSmoothed<Quat>,
}

impl Smooth {
    /// Smooths the position only.
    pub fn new_position(position_smoothness: i64) -> (d: Smooth)
        ensures
            d.position_smoothness == position_smoothness,
            d.rotation_smoothness == 0,
            d.output_offset_scale == FP_ONE,
            d.smoothed_position.prev is None,
            d.smoothed_rotation.prev is None,
            d.wf(),
    {
        Smooth {
            position_smoothness,
            rotation_smoothness: 0,
            output_offset_scale: FP_ONE,
            smoothed_position: ExpSmoothed { prev: None },
            smoothed_rotation: ExpSmoothed { prev: None },
        }
    }

    /// Smooths the rotation only.
    pub fn new_rotation(rotation_smoothness: i64) -> (d: Smooth)
        ensures
            d.rotation_smoothness == rotation_smoothness,
            d.position_smoothness == 0,
            d.output_offset_scale == FP_ONE,
            d.smoothed_position.prev is None,
            d.smoothed_rotation.prev is None,
            d.wf(),
    {
        Smooth {
            position_smoothness: 0,
            rotation_smoothness,
            output_offset_scale: FP_ONE,
            smoothed_position: ExpSmoothed { prev: None },
            smoothed_rotation: ExpSmoothed { prev: None },
        }
    }

    /// Smooths both position and rotation.
    pub fn new_position_rotation(position_smoothness: i64, rotation_smoothness: i64) -> (d: Smooth)
        ensures
            d.position_smoothness == position_smoothness,
            d.rotation_smoothness == rotation_smoothness,
            d.output_offset_scale == FP_ONE,
            d.smoothed_position.prev is None,
            d.smoothed_rotation.prev is None,
            d.wf(),
    {
        Smooth {
            position_smoothness,
            rotation_smoothness,
            output_offset_scale: FP_ONE,
            smoothed_position: ExpSmoothed { prev: None },
            smoothed_rotation: ExpSmoothed { prev: None },
        }
    }

    /// Reverses the smoothing, making the camera look ahead of the parent.
    pub fn predictive(self, predictive: bool) -> (d: Self)
        ensures
            d.output_offset_scale == if predictive {
                -FP_ONE as int
            } else {
                FP_ONE as int
            },
            d.position_smoothness == self.position_smoothness,
            d.rotation_smoothness == self.rotation_smoothness,
            d.smoothed_position == self.smoothed_position,
            d.smoothed_rotation == self.smoothed_rotation,
    {
        Smooth {
            position_smoothness: self.position_smoothness,
            rotation_smoothness: self.rotation_smoothness,
            output_offset_scale: if predictive {
                -FP_ONE
            } else {
                FP_ONE
            },
            smoothed_position: self.smoothed_position,
            smoothed_rotation: self.smoothed_rotation,
        }
    }
}

impl Default for Smooth {
    /// Smooths both channels with a smoothness of one.
    fn default() -> (d: Self)
        ensures
            d.position_smoothness == FP_ONE,
            d.rotation_smoothness == FP_ONE,
            d.output_offset_scale == FP_ONE,
            d.smoothed_position.prev is None,
            d.smoothed_rotation.prev is None,
            d.wf(),
    {
        Smooth {
            position_smoothness: FP_ONE,
            rotation_smoothness: FP_ONE,
            output_offset_scale: FP_ONE,
            smoothed_position: ExpSmoothed { prev: None },
            smoothed_rotation: ExpSmoothed { prev: None },
        }
    }
}

impl RigDriver for Smooth {
    open spec fn wf(self) -> bool {
        &&& (self.output_offset_scale == FP_ONE || self.output_offset_scale == -FP_ONE as int)
    &&& self.smoothed_position.wf()
    &&& self.smoothed_rotation.wf()
    }

    /// Both channels step their smoothing memories toward the parent's
    /// position and rotation, and the output carries the two (possibly
    /// predictive) smoothed values.
    open spec fn spec_update(self, parent: Transform, dt: i64, h: Handedness) -> (Self, Transform) {
        let pp = ExpSmoothingParams {
            smoothness: self.position_smoothness,
            output_offset_scale: self.output_offset_scale,
            delta_time_seconds: dt,
        };
        let rp = ExpSmoothingParams {
            smoothness: self.rotation_smoothness,
            output_offset_scale: self.output_offset_scale,
            delta_time_seconds: dt,
        };
        let s2 = Smooth {
            position_smoothness: self.position_smoothness,
            rotation_smoothness: self.rotation_smoothness,
            output_offset_scale: self.output_offset_scale,
            smoothed_position: ExpSmoothed {
                prev: Some(
                    self.smoothed_position.spec_smoothed(
                        parent.position,
                        self.position_smoothness as int,
                        dt as int,
                    ),
                ),
            },
            smoothed_rotation: ExpSmoothed {
                prev: Some(
                    self.smoothed_rotation.spec_smoothed(
                        parent.rotation,
                        self.rotation_smoothness as int,
                        dt as int,
                    ),
                ),
            },
        };
        (
            s2,
            Transform {
                position: self.smoothed_position.spec_output(parent.position, pp),
                rotation: self.smoothed_rotation.spec_output(parent.rotation, rp),
            },
        )
    }

    fn update(&mut self, params: RigUpdateParams<'_>) -> (t: Transform) {
        let position = self.smoothed_position.exp_smooth_towards(
            &params.parent.position,
            ExpSmoothingParams {
                smoothness: self.position_smoothness,
                output_offset_scale: self.output_offset_scale,
                delta_time_seconds: params.delta_time_seconds,
            },
        );
        let rotation = self.smoothed_rotation.exp_smooth_towards(
            &params.parent.rotation,
            ExpSmoothingParams {
                smoothness: self.rotation_smoothness,
                output_offset_scale: self.output_offset_scale,
                delta_time_seconds: params.delta_time_seconds,
            },
        );
        Transform { position, rotation }
    }
}

impl RigDriverTraits for Smooth {
    open spec fn spec_kind(self) -> DriverKind {
        DriverKind::Smooth
    }

    fn kind(&self) -> (k: DriverKind) {
        DriverKind::Smooth
    }
}

} // verus!
