//! The camera rig: an ordered chain of drivers and its cached output.
//!
//! `update` folds the chain left to right. The first driver's parent is the
//! identity pose; every later driver's parent is the previous driver's
//! output; the last output is cached and returned. The contract pins the
//! whole fold: each updated driver equals [`driver_after`] and the cached
//! transform equals [`transform_after`] over the original chain.
//!
//! Only this module can construct a [`RigUpdateParams`] (the field of its
//! token is private), so no code outside the rig can call a driver's
//! `update` and desynchronize the cached transform.

use crate::driver::{Driver, DriverKind, RigDriver, RigDriverTraits};
use crate::handedness::Handedness;
use crate::transform::Transform;
use vstd::pervasive::VecAdditionalExecFns;
use vstd::prelude::*;

verus! {

/// Proof-of-origin for driver updates: its field is private to this
/// module, so only the rig can construct one and hence drive a stage.
pub struct RigUpdateToken {
    _private: (),
}

/// What the rig hands a driver each frame: the parent pose, the elapsed
/// time in fixed-point seconds, and the handedness convention.
pub struct RigUpdateParams<'a> {
    pub parent: &'a Transform,
    pub delta_time_seconds: i64,
    pub handedness: Handedness,
    pub token: RigUpdateToken,
}

/// The pose handed to driver `i` of the chain: the identity for the first
/// driver, and each earlier driver's output after that.
pub open spec fn transform_after(ds: Seq<Driver>, dt: i64, h: Handedness, i: int) -> Transform
    decreases i,
{
    if i <= 0 {
        Transform::spec_identity()
    } else {
        ds[i - 1].spec_update(transform_after(ds, dt, h, i - 1), dt, h).1
    }
}

/// The state of driver `i` after one pass of the chain.
pub open spec fn driver_after(ds: Seq<Driver>, dt: i64, h: Handedness, i: int) -> Driver {
    ds[i].spec_update(transform_after(ds, dt, h, i), dt, h).0
}

/// The index of the first driver of the given kind, or `-1` if none.
pub open spec fn first_match(ds: Seq<Driver>, kind: DriverKind) -> int
    decreases ds.len(),
{
    if ds.len() == 0 {
        -1
    } else if ds[0].spec_kind() == kind {
        0
    } else {
        let r = first_match(ds.drop_first(), kind);
        if r == -1 {
            -1
        } else {
            r + 1
        }
    }
}

/// What `first_match` means: `-1` exactly when no driver has the kind;
/// otherwise the index of a driver of the kind before which none matches.
pub proof fn lemma_first_match(ds: Seq<Driver>, kind: DriverKind)
    ensures
        first_match(ds, kind) == -1 ==> forall|i: int|
            0 <= i < ds.len() ==> (#[trigger] ds[i]).spec_kind() != kind,
        first_match(ds, kind) != -1 ==> 0 <= first_match(ds, kind) < ds.len() && ds[first_match(
            ds,
            kind,
        )].spec_kind() == kind && forall|i: int|
            0 <= i < first_match(ds, kind) ==> (#[trigger] ds[i]).spec_kind() != kind,
    decreases ds.len(),
{
    if ds.len() == 0 {
    } else if ds[0].spec_kind() == kind {
    } else {
        lemma_first_match(ds.drop_first(), kind);
        let r = first_match(ds.drop_first(), kind);
        if r == -1 {
            assert forall|i: int| 0 <= i < ds.len() implies (#[trigger] ds[i]).spec_kind()
                != kind by {
                if i >= 1 {
                    assert(ds.drop_first()[i - 1] == ds[i]);
                }
            }
        } else {
            assert(ds.drop_first()[r] == ds[r + 1]);
            assert forall|i: int|
                0 <= i < first_match(ds, kind) implies (#[trigger] ds[i]).spec_kind() != kind by {
                if i >= 1 {
                    assert(ds.drop_first()[i - 1] == ds[i]);
                }
            }
        }
    }
}

/// If the driver at `i` has the kind and none before it does, `i` is the
/// first match.
proof fn lemma_match_here(ds: Seq<Driver>, kind: DriverKind, i: int)
    requires
        0 <= i < ds.len(),
        ds[i].spec_kind() == kind,
        forall|j: int| 0 <= j < i ==> (#[trigger] ds[j]).spec_kind() != kind,
    ensures
        first_match(ds, kind) == i,
{
    lemma_first_match(ds, kind);
    let fm = first_match(ds, kind);
    if fm == -1 {
        assert(ds[i].spec_kind() != kind);
    } else if fm < i {
        assert(ds[fm].spec_kind() != kind);
    } else if fm > i {
        assert(ds[i].spec_kind() != kind);
    }
}

/// If no driver has the kind, there is no first match.
proof fn lemma_no_match(ds: Seq<Driver>, kind: DriverKind)
    requires
        forall|j: int| 0 <= j < ds.len() ==> (#[trigger] ds[j]).spec_kind() != kind,
    ensures
        first_match(ds, kind) == -1,
{
    lemma_first_match(ds, kind);
    let fm = first_match(ds, kind);
    if fm != -1 {
        assert(ds[fm].spec_kind() != kind);
    }
}

/// A chain of drivers, animating in succession, and the last computed
/// camera transform.
pub struct CameraRig {
    pub drivers: Vec<Driver>,
    pub final_transform: Transform,
    pub handedness: Handedness,
}

impl CameraRig {
    /// Every driver's state is valid and the cached transform is a valid
    /// pose.
    pub open spec fn wf(self) -> bool {
        &&& forall|i: int| 0 <= i < self.drivers@.len() ==> (#[trigger] self.drivers@[i]).wf()
    &&& self.final_transform.wf()
    }

    /// Runs all drivers in sequence, starting from the identity pose,
    /// caches the final transform and returns it.
    #[verifier::rlimit(100)]
    pub fn update(&mut self, delta_time_seconds: i64) -> (t: Transform)
        requires
            old(self).wf(),
        ensures
            final(self).wf(),
            final(self).drivers@.len() == old(self).drivers@.len(),
            forall|i: int|
                0 <= i < old(self).drivers@.len() ==> final(self).drivers@[i] == driver_after(
                    old(self).drivers@,
                    delta_time_seconds,
                    old(self).handedness,
                    i,
                ),
            final(self).final_transform == transform_after(
                old(self).drivers@,
                delta_time_seconds,
                old(self).handedness,
                old(self).drivers@.len() as int,
            ),
            t == final(self).final_transform,
            final(self).handedness == old(self).handedness,
    {
        let ghost orig = self.drivers@;
        let ghost h = self.handedness;
        let mut parent: Transform = Transform::identity();
        let n: usize = self.drivers.len();
        let mut i: usize = 0;
        while i < n
            invariant
                i <= n,
                n == self.drivers@.len(),
                orig.len() == n,
                orig == old(self).drivers@,
                h == old(self).handedness,
                self.handedness == h,
                forall|j: int| 0 <= j < n ==> (#[trigger] orig[j]).wf(),
                forall|j: int| i <= j < n ==> self.drivers@[j] == orig[j],
                forall|j: int|
                    0 <= j < i ==> self.drivers@[j] == driver_after(orig, delta_time_seconds, h, j),
                forall|j: int| 0 <= j < i ==> (#[trigger] self.drivers@[j]).wf(),
                parent == transform_after(orig, delta_time_seconds, h, i as int),
                parent.wf(),
            decreases n - i,
        {
            let mut d: Driver = self.drivers[i];
            proof {
                assert(self.drivers@[i as int] == orig[i as int]);
                assert(orig[i as int].wf());
            }
            let t = d.update(
                RigUpdateParams {
                    parent: &parent,
                    delta_time_seconds,
                    handedness: self.handedness,
                    token: RigUpdateToken { _private: () },
                },
            );
            self.drivers.set(i, d);
            parent = t;
            i = i + 1;
            proof {
                assert(transform_after(orig, delta_time_seconds, h, i as int) == orig[i - 1].spec_update(
                    transform_after(orig, delta_time_seconds, h, i - 1),
                    delta_time_seconds,
                    h,
                ).1);
            }
        }
        self.final_transform = parent;
        parent
    }

    /// A builder for a new rig; the default convention is right-handed.
    pub fn builder() -> (b: CameraRigBuilder)
        ensures
            b.drivers@.len() == 0,
            b.handedness == Handedness::Right,
    {
        CameraRigBuilder { drivers: Vec::new(), handedness: Handedness::Right }
    }

    /// The first driver of the given kind, or `None` if the rig holds
    /// none of that kind.
    pub fn try_driver(&self, kind: DriverKind) -> (r: Option<&Driver>)
        ensures
            ({
                let fm = first_match(self.drivers@, kind);
                &&& (r is Some <==> fm >= 0)
            &&& (r matches Some(d) ==> 0 <= fm < self.drivers@.len() && *d == self.drivers@[fm])
            }),
    {
        proof {
            lemma_first_match(self.drivers@, kind);
        }
        let n: usize = self.drivers.len();
        let mut i: usize = 0;
        while i < n
            invariant
                i <= n,
                n == self.drivers@.len(),
                forall|j: int| 0 <= j < i ==> (#[trigger] self.drivers@[j]).spec_kind() != kind,
            decreases n - i,
        {
            if self.drivers[i].kind() == kind {
                proof {
                    lemma_match_here(self.drivers@, kind, i as int);
                }
                return Some(&self.drivers[i]);
            }
            i = i + 1;
        }
        proof {
            lemma_no_match(self.drivers@, kind);
        }
        None
    }

    /// The first driver of the given kind: the same driver `try_driver`
    /// returns. The contract excludes exactly the rigs holding no driver
    /// of the kind; called on one of those anyway, the call aborts.
    pub fn driver(&self, kind: DriverKind) -> (r: &Driver)
        requires
            first_match(self.drivers@, kind) >= 0,
        ensures
            *r == self.drivers@[first_match(self.drivers@, kind)],
    {
        proof {
            lemma_first_match(self.drivers@, kind);
        }
        let r = self.try_driver(kind);
        match r {
            Some(d) => d,
            None => unreached(),
        }
    }

    /// A mutable borrow of the first driver of the given kind, or `None`
    /// if the rig holds none of that kind; the rig afterwards holds
    /// whatever the caller left in the borrow.
    pub fn try_driver_mut(&mut self, kind: DriverKind) -> (r: Option<&mut Driver>)
        ensures
            ({
                let fm = first_match(old(self).drivers@, kind);
                &&& (r is Some <==> fm >= 0)
            &&& (r is None ==> *final(self) == *old(self))
            &&& (r matches Some(d) ==> 0 <= fm < old(self).drivers@.len()
                && *d == old(self).drivers@[fm]
                && final(self).drivers@ == old(self).drivers@.update(fm, *final(d))
                && final(self).final_transform == old(self).final_transform
                && final(self).handedness == old(self).handedness)
            }),
    {
        proof {
            lemma_first_match(self.drivers@, kind);
        }
        let n: usize = self.drivers.len();
        let mut i: usize = 0;
        while i < n
            invariant
                i <= n,
                *self == *old(self),
                n == self.drivers@.len(),
                forall|j: int| 0 <= j < i ==> (#[trigger] self.drivers@[j]).spec_kind() != kind,
            decreases n - i,
        {
            if self.drivers[i].kind() == kind {
                proof {
                    lemma_match_here(self.drivers@, kind, i as int);
                }
                return Some(&mut self.drivers[i]);
            }
            i = i + 1;
        }
        proof {
            lemma_no_match(self.drivers@, kind);
        }
        None
    }

    /// A mutable borrow of the first driver of the given kind: the same
    /// driver `try_driver_mut` yields. The contract excludes exactly the
    /// rigs holding no driver of the kind; called on one of those anyway,
    /// the call aborts.
    pub fn driver_mut(&mut self, kind: DriverKind) -> (r: &mut Driver)
        requires
            first_match(old(self).drivers@, kind) >= 0,
        ensures
            ({
                let fm = first_match(old(self).drivers@, kind);
                &&& *r == old(self).drivers@[fm]
            &&& final(self).drivers@ == old(self).drivers@.update(fm, *final(r))
            &&& final(self).final_transform == old(self).final_transform
            &&& final(self).handedness == old(self).handedness
            }),
    {
        proof {
            lemma_first_match(self.drivers@, kind);
        }
        let r = self.try_driver_mut(kind);
        match r {
            Some(d) => d,
            None => unreached(),
        }
    }
}

/// Accumulates drivers in order, then builds a warmed-up rig.
pub struct CameraRigBuilder {
    pub drivers: Vec<Driver>,
    pub handedness: Handedness,
}

impl CameraRigBuilder {
    /// Appends a driver to the chain.
    pub fn with(self, driver: Driver) -> (b: CameraRigBuilder)
        requires
            driver.wf(),
        ensures
            b.drivers@ == self.drivers@.push(driver),
            b.handedness == self.handedness,
    {
        let mut b = self;
        b.drivers.push(driver);
        b
    }

    /// Selects the handedness convention for the rig.
    pub fn handedness(self, handedness: Handedness) -> (b: CameraRigBuilder)
        ensures
            b.drivers@ == self.drivers@,
            b.handedness == handedness,
    {
        CameraRigBuilder { drivers: self.drivers, handedness }
    }

    /// Builds the rig and warms it with one zero-time update, so the
    /// cached transform is valid before the first real frame.
    pub fn build(self) -> (rig: CameraRig)
        requires
            forall|i: int| 0 <= i < self.drivers@.len() ==> (#[trigger] self.drivers@[i]).wf(),
        ensures
            rig.wf(),
            rig.handedness == self.handedness,
            rig.drivers@.len() == self.drivers@.len(),
            forall|i: int|
                0 <= i < self.drivers@.len() ==> rig.drivers@[i] == driver_after(
                    self.drivers@,
                    0,
                    self.handedness,
                    i,
                ),
            rig.final_transform == transform_after(
                self.drivers@,
                0,
                self.handedness,
                self.drivers@.len() as int,
            ),
    {
        let mut rig = CameraRig {
            drivers: self.drivers,
            final_transform: Transform::identity(),
            handedness: self.handedness,
        };
        rig.update(0);
        rig
    }
}

} // verus!
