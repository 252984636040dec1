//! The driver abstraction: one stage of the camera-rig pipeline.
//!
//! A driver consumes the parent pose handed to it by the rig and produces a
//! new pose; its own state may advance (smoothing memory). The closed set of
//! driver kinds lives in the [`Driver`] sum type, and [`DriverKind`] is the
//! tag by which a rig looks a stage up at run time.

use crate::drivers::{
    Arm, LockPosition, LockRotation, LookAt, Position, Positional, Rotation, Smooth, YawPitch,
};
use crate::rig::RigUpdateParams;
use crate::transform::Transform;
use vstd::prelude::*;

verus! {

/// The tag of a concrete driver type, used for type-directed lookup.
#[derive(Clone, Copy, Debug, PartialEq, Eq, Structural)]
pub enum DriverKind {
    Position,
    Rotation,
    Arm,
    YawPitch,
    LookAt,
    Smooth,
    LockPosition,
    LockRotation,
    Positional,
}

/// One stage of the rig pipeline: given the parent pose in `params`,
/// produce this stage's pose. Only the rig can build a `RigUpdateParams`,
/// so only the rig can drive a stage.
pub trait RigDriver: Sized {
    /// The stage's own state is valid.
    spec fn wf(self) -> bool;

    /// The stage's next state and output pose, as a function of the parent
    /// pose, the elapsed time, and the handedness.
    spec fn spec_update(self, parent: Transform, dt: i64, h: crate::handedness::Handedness) -> (
        Self,
        Transform,
    );

    /// Advances the stage by one frame and returns its pose.
    fn update(&mut self, params: RigUpdateParams<'_>) -> (t: Transform)
        requires
            old(self).wf(),
            params.parent.wf(),
        ensures
            ({
                let (s2, t2) = old(self).spec_update(
                    *params.parent,
                    params.delta_time_seconds,
                    params.handedness,
                );
                *final(self) == s2 && t == t2
            }),
            final(self).wf(),
            t.wf(),
    ;
}

/// A driver that can also say which concrete kind it is, so a rig can find
/// it again by type.
pub trait RigDriverTraits: RigDriver {
    /// The tag of this driver's concrete type.
    spec fn spec_kind(self) -> DriverKind;

    /// Returns the tag of this driver's concrete type.
    fn kind(&self) -> (k: DriverKind)
        ensures
            k == self.spec_kind(),
    ;
}

/// The closed sum of all driver kinds a rig can hold.
#[derive(Clone, Copy, Debug)]
pub enum Driver {
    Position(Position),
    Rotation(Rotation),
    Arm(Arm),
    YawPitch(YawPitch),
    LookAt(LookAt),
    Smooth(Smooth),
    LockPosition(LockPosition),
    LockRotation(LockRotation),
    Positional(Positional),
}

impl RigDriver for Driver {
    open spec fn wf(self) -> bool {
        match self {
            Driver::Position(d) => d.wf(),
            Driver::Rotation(d) => d.wf(),
            Driver::Arm(d) => d.wf(),
            Driver::YawPitch(d) => d.wf(),
            Driver::LookAt(d) => d.wf(),
            Driver::Smooth(d) => d.wf(),
            Driver::LockPosition(d) => d.wf(),
            Driver::LockRotation(d) => d.wf(),
            Driver::Positional(d) => d.wf(),
        }
    }

    open spec fn spec_update(self, parent: Transform, dt: i64, h: crate::handedness::Handedness)
        -> (Self, Transform) {
        match self {
            Driver::Position(d) => {
                let (d2, t) = d.spec_update(parent, dt, h);
                (Driver::Position(d2), t)
            },
            Driver::Rotation(d) => {
                let (d2, t) = d.spec_update(parent, dt, h);
                (Driver::Rotation(d2), t)
            },
            Driver::Arm(d) => {
                let (d2, t) = d.spec_update(parent, dt, h);
                (Driver::Arm(d2), t)
            },
            Driver::YawPitch(d) => {
                let (d2, t) = d.spec_update(parent, dt, h);
                (Driver::YawPitch(d2), t)
            },
            Driver::LookAt(d) => {
                let (d2, t) = d.spec_update(parent, dt, h);
                (Driver::LookAt(d2), t)
            },
            Driver::Smooth(d) => {
                let (d2, t) = d.spec_update(parent, dt, h);
                (Driver::Smooth(d2), t)
            },
            Driver::LockPosition(d) => {
                let (d2, t) = d.spec_update(parent, dt, h);
                (Driver::LockPosition(d2), t)
            },
            Driver::LockRotation(d) => {
                let (d2, t) = d.spec_update(parent, dt, h);
                (Driver::LockRotation(d2), t)
            },
            Driver::Positional(d) => {
                let (d2, t) = d.spec_update(parent, dt, h);
                (Driver::Positional(d2), t)
            },
        }
    }

    fn update(&mut self, params: RigUpdateParams<'_>) -> (t: Transform) {
        match self {
            Driver::Position(d) => d.update(params),
            Driver::Rotation(d) => d.update(params),
            Driver::Arm(d) => d.update(params),
            Driver::YawPitch(d) => d.update(params),
            Driver::LookAt(d) => d.update(params),
            Driver::Smooth(d) => d.update(params),
            Driver::LockPosition(d) => d.update(params),
            Driver::LockRotation(d) => d.update(params),
            Driver::Positional(d) => d.update(params),
        }
    }
}

impl RigDriverTraits for Driver {
    open spec fn spec_kind(self) -> DriverKind {
        match self {
            Driver::Position(_) => DriverKind::Position,
            Driver::Rotation(_) => DriverKind::Rotation,
            Driver::Arm(_) => DriverKind::Arm,
            Driver::YawPitch(_) => DriverKind::YawPitch,
            Driver::LookAt(_) => DriverKind::LookAt,
            Driver::Smooth(_) => DriverKind::Smooth,
            Driver::LockPosition(_) => DriverKind::LockPosition,
            Driver::LockRotation(_) => DriverKind::LockRotation,
            Driver::Positional(_) => DriverKind::Positional,
        }
    }

    fn kind(&self) -> (k: DriverKind) {
        match self {
            Driver::Position(_) => DriverKind::Position,
            Driver::Rotation(_) => DriverKind::Rotation,
            Driver::Arm(_) => DriverKind::Arm,
            Driver::YawPitch(_) => DriverKind::YawPitch,
            Driver::LookAt(_) => DriverKind::LookAt,
            Driver::Smooth(_) => DriverKind::Smooth,
            Driver::LockPosition(_) => DriverKind::LockPosition,
            Driver::LockRotation(_) => DriverKind::LockRotation,
            Driver::Positional(_) => DriverKind::Positional,
        }
    }
}

} // verus!
