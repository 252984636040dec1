use crate::driver::{DriverKind, RigDriver, RigDriverTraits};
use crate::handedness::Handedness;
use crate::rig::RigUpdateParams;
use crate::transform::Transform;
use crate::fixed::FP_ONE;
use crate::util::{spec_look_at, ExpSmoothed, ExpSmoothingParams, Interpolate};
use crate::vector::Vec3;
use vstd::prelude::*;

verus! {

/// Rotates the camera to point at a world-space position; the target
/// tracking can be smoothed, and made to look ahead of the target.
#[derive(Clone, Copy, Debug)]
pub struct LookAt {
    /// Exponential smoothing factor for target tracking.
    pub smoothness: i64,
    /// The world-space position to look at.
    pub target: Vec3,
    /// `FP_ONE` for plain tracking, `-FP_ONE` for predictive tracking.
    pub output_offset_scale: i64,
    pub smoothed_target: ExpSmoothed<Vec3>,
}

impl LookAt {
    /// A driver looking at the given target, unsmoothed.
    pub fn new(target: Vec3) -> (d: LookAt)
        ensures
            d.target == Vec3::spec_new(target.x as int, target.y as int, target.z as int),
            d.smoothness == 0,
            d.output_offset_scale == FP_ONE,
            d.smoothed_target.prev is None,
            d.wf(),
    {
        LookAt {
            smoothness: 0,
            target: Vec3::new(target.x, target.y, target.z),
            output_offset_scale: FP_ONE,
            smoothed_target: ExpSmoothed { prev: None },
        }
    }

    /// Sets the smoothing factor for target position tracking.
    pub fn tracking_smoothness(self, smoothness: i64) -> (d: Self)
        ensures
            d.smoothness == smoothness,
            d.target == self.target,
            d.output_offset_scale == self.output_offset_scale,
            d.smoothed_target == self.smoothed_target,
    {
        LookAt {
            smoothness,
            target: self.target,
            output_offset_scale: self.output_offset_scale,
            smoothed_target: self.smoothed_target,
        }
    }

    /// Reverses the target smoothing, so the camera looks ahead of the
    /// target; chained with a later smoothing stage this follows an object
    /// without lagging far behind it.
    pub fn tracking_predictive(self, predictive: bool) -> (d: Self)
        ensures
            d.output_offset_scale == if predictive {
                -FP_ONE as int
            } else {
                FP_ONE as int
            },
            d.smoothness == self.smoothness,
            d.target == self.target,
            d.smoothed_target == self.smoothed_target,
    {
        LookAt {
            smoothness: self.smoothness,
            target: self.target,
            output_offset_scale: if predictive {
                -FP_ONE
            } else {
                FP_ONE
            },
            smoothed_target: self.smoothed_target,
        }
    }
}

impl RigDriver for LookAt {
    open spec fn wf(self) -> bool {
        &&& self.target.in_range()
    &&& (self.output_offset_scale == FP_ONE || self.output_offset_scale == -FP_ONE as int)
    &&& self.smoothed_target.wf()
    }

    /// The target is smoothed, and the output keeps the parent's position
    /// but points the camera's forward axis from there at the smoothed
    /// target.
    open spec fn spec_update(self, parent: Transform, dt: i64, h: Handedness) -> (Self, Transform) {
        let params = ExpSmoothingParams {
            smoothness: self.smoothness,
            output_offset_scale: self.output_offset_scale,
            delta_time_seconds: dt,
        };
        let s2 = LookAt {
            smoothness: self.smoothness,
            target: self.target,
            output_offset_scale: self.output_offset_scale,
            smoothed_target: ExpSmoothed {
                prev: Some(
                    self.smoothed_target.spec_smoothed(
                        self.target,
                        self.smoothness as int,
                        dt as int,
                    ),
                ),
            },
        };
        let followed = self.smoothed_target.spec_output(self.target, params);
        (
            s2,
            Transform {
                position: parent.position,
                rotation: spec_look_at(followed.spec_sub(parent.position), h),
            },
        )
    }

    fn update(&mut self, params: RigUpdateParams<'_>) -> (t: Transform) {
        let followed = self.smoothed_target.exp_smooth_towards(
            &self.target,
            ExpSmoothingParams {
                smoothness: self.smoothness,
                output_offset_scale: self.output_offset_scale,
                delta_time_seconds: params.delta_time_seconds,
            },
        );
        let rotation = crate::util::look_at(
            followed.sub(params.parent.position),
            params.handedness,
        );
        Transform { position: params.parent.position, rotation }
    }
}

impl RigDriverTraits for LookAt {
    open spec fn spec_kind(self) -> DriverKind {
        DriverKind::LookAt
    }

    fn kind(&self) -> (k: DriverKind) {
        DriverKind::LookAt
    }
}

} // verus!
