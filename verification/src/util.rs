//! Exponential smoothing and the look-at rotation.
//!
//! The smoothing law: a blend fraction `1 - exp(-8 * dt / max(s, eps))` is
//! computed in fixed point from the elapsed time `dt` and the smoothness `s`
//! (the exponential through a degree-four reciprocal polynomial, its argument
//! capped), and the remembered value is interpolated toward the target by
//! that fraction. A zero elapsed time gives a zero fraction exactly; the
//! fraction always lies in `[0, FP_ONE]`.

use crate::fixed::{
    div_tz, div_tz_e, lemma_div_tz_abs_le, lemma_div_tz_le, lemma_div_tz_mag, FP_ONE, FP_SQ,
};
use crate::handedness::Handedness;
use crate::quaternion::Quat;
use crate::vector::{lemma_cross_unit_bound, Vec3};
use vstd::arithmetic::div_mod::{lemma_div_is_ordered_by_denominator, lemma_div_multiples_vanish};
use vstd::arithmetic::mul::lemma_mul_nonnegative;
use vstd::prelude::*;

verus! {

/// The reciprocal-polynomial approximation of `exp(-x / FP_ONE)`, for
/// `x` in `[0, 16 * FP_ONE]`.
#[verifier::opaque]
pub open spec fn spec_exp_neg(x: int) -> int {
    let p2 = div_tz(x * x, FP_ONE as int);
    let p3 = div_tz(p2 * x, FP_ONE as int);
    let p4 = div_tz(p3 * x, FP_ONE as int);
    let den = FP_ONE + x + div_tz(p2, 2) + div_tz(p3, 6) + div_tz(p4, 24);
    div_tz(FP_SQ as int, den)
}

/// The blend fraction `1 - exp(-8 * dt / max(smoothness, eps))`, with the
/// exponent's argument clamped into `[0, 16 * FP_ONE]`. At the cap the
/// exponential has decayed below one tick, so the fraction is exactly one:
/// a channel whose smoothness is zero passes its target through exactly.
pub open spec fn spec_interp_t(dt: int, smoothness: int) -> int {
    let s = if smoothness < 1 {
        1
    } else {
        smoothness
    };
    let x0 = div_tz(8 * dt * FP_ONE, s);
    let x = if x0 < 0 {
        0
    } else if x0 > 16 * FP_ONE {
        16 * (FP_ONE as int)
    } else {
        x0
    };
    if x == 16 * FP_ONE {
        FP_ONE as int
    } else {
        FP_ONE - spec_exp_neg(x)
    }
}

/// Computes the blend fraction; it always lies in `[0, FP_ONE]`.
pub fn interp_t(dt: i64, smoothness: i64) -> (t: i64)
    ensures
        t as int == spec_interp_t(dt as int, smoothness as int),
        0 <= t <= FP_ONE,
{
    proof {
        reveal(spec_exp_neg);
    }
    let s: i64 = if smoothness < 1 {
        1
    } else {
        smoothness
    };
    proof {
        assert(-4835703278458516698824704 <= 8 * (dt as int) * (FP_ONE as int)
            <= 4835703278458516698824704) by (nonlinear_arith)
            requires
                -9223372036854775808 <= dt as int <= 9223372036854775807,
                FP_ONE == 65536,
        ;
        lemma_div_tz_mag(
            8 * (dt as int) * (FP_ONE as int),
            s as int,
            4835703278458516698824704,
        );
    }
    let x0: i128 = div_tz_e(8 * (dt as i128) * (FP_ONE as i128), s as i128);
    let x: i64 = if x0 < 0 {
        0
    } else if x0 > 16 * (FP_ONE as i128) {
        16 * FP_ONE
    } else {
        x0 as i64
    };
    proof {
        assert(0 <= (x as int) * (x as int) <= 1099511627776) by (nonlinear_arith)
            requires
                0 <= x as int <= 1048576,
        ;
        lemma_div_tz_le((x as int) * (x as int), FP_ONE as int, 16777216);
    }
    let p2: i64 = div_tz_e((x as i128) * (x as i128), FP_ONE as i128) as i64;
    proof {
        assert(0 <= (p2 as int) * (x as int) <= 17592186044416) by (nonlinear_arith)
            requires
                0 <= p2 as int <= 16777216,
                0 <= x as int <= 1048576,
        ;
        lemma_div_tz_le((p2 as int) * (x as int), FP_ONE as int, 268435456);
    }
    let p3: i64 = div_tz_e((p2 as i128) * (x as i128), FP_ONE as i128) as i64;
    proof {
        assert(0 <= (p3 as int) * (x as int) <= 281474976710656) by (nonlinear_arith)
            requires
                0 <= p3 as int <= 268435456,
                0 <= x as int <= 1048576,
        ;
        lemma_div_tz_le((p3 as int) * (x as int), FP_ONE as int, 4294967296);
    }
    let p4: i64 = div_tz_e((p3 as i128) * (x as i128), FP_ONE as i128) as i64;
    proof {
        lemma_div_tz_le(p2 as int, 2, 16777216);
        lemma_div_tz_le(p3 as int, 6, 268435456);
        lemma_div_tz_le(p4 as int, 24, 4294967296);
    }
    let den: i64 = FP_ONE + x + div_tz_e(p2 as i128, 2) as i64 + div_tz_e(p3 as i128, 6) as i64
        + div_tz_e(p4 as i128, 24) as i64;
    proof {
        crate::fixed::lemma_fp_one_sq();
        lemma_div_is_ordered_by_denominator(FP_SQ as int, FP_ONE as int, den as int);
        lemma_div_multiples_vanish(FP_ONE as int, FP_ONE as int);
        vstd::arithmetic::div_mod::lemma_div_pos_is_pos(FP_SQ as int, den as int);
    }
    let e: i64 = div_tz_e(FP_SQ as i128, den as i128) as i64;
    if x == 16 * FP_ONE {
        FP_ONE
    } else {
        FP_ONE - e
    }
}

/// A zero elapsed time always gives a zero blend fraction.
pub proof fn lemma_interp_t_zero(smoothness: int)
    ensures
        spec_interp_t(0, smoothness) == 0,
{
    reveal(spec_exp_neg);
    let s = if smoothness < 1 {
        1
    } else {
        smoothness
    };
    assert(8 * 0 * (FP_ONE as int) == 0 && (0 as int) * (0 as int) == 0) by (nonlinear_arith);
    vstd::arithmetic::div_mod::lemma_div_of0(s);
    vstd::arithmetic::div_mod::lemma_div_of0(FP_ONE as int);
    vstd::arithmetic::div_mod::lemma_div_of0(2);
    vstd::arithmetic::div_mod::lemma_div_of0(6);
    vstd::arithmetic::div_mod::lemma_div_of0(24);
    crate::fixed::lemma_fp_one_sq();
    lemma_div_multiples_vanish(FP_ONE as int, FP_ONE as int);
}

/// The blend fraction lies in `[0, FP_ONE]` for every elapsed time and
/// smoothness.
pub proof fn lemma_interp_t_bounds(dt: int, smoothness: int)
    ensures
        0 <= spec_interp_t(dt, smoothness) <= FP_ONE,
{
    reveal(spec_exp_neg);
    let s = if smoothness < 1 {
        1
    } else {
        smoothness
    };
    let x0 = div_tz(8 * dt * FP_ONE, s);
    let x = if x0 < 0 {
        0
    } else if x0 > 16 * FP_ONE {
        16 * (FP_ONE as int)
    } else {
        x0
    };
    assert(0 <= x * x <= 1099511627776) by (nonlinear_arith)
        requires
            0 <= x <= 1048576,
    ;
    lemma_div_tz_le(x * x, FP_ONE as int, 16777216);
    let p2 = div_tz(x * x, FP_ONE as int);
    assert(0 <= p2 * x <= 17592186044416) by (nonlinear_arith)
        requires
            0 <= p2 <= 16777216,
            0 <= x <= 1048576,
    ;
    lemma_div_tz_le(p2 * x, FP_ONE as int, 268435456);
    let p3 = div_tz(p2 * x, FP_ONE as int);
    assert(0 <= p3 * x <= 281474976710656) by (nonlinear_arith)
        requires
            0 <= p3 <= 268435456,
            0 <= x <= 1048576,
    ;
    lemma_div_tz_le(p3 * x, FP_ONE as int, 4294967296);
    let p4 = div_tz(p3 * x, FP_ONE as int);
    lemma_div_tz_le(p2, 2, 16777216);
    lemma_div_tz_le(p3, 6, 268435456);
    lemma_div_tz_le(p4, 24, 4294967296);
    let den = FP_ONE + x + div_tz(p2, 2) + div_tz(p3, 6) + div_tz(p4, 24);
    crate::fixed::lemma_fp_one_sq();
    lemma_div_is_ordered_by_denominator(FP_SQ as int, FP_ONE as int, den);
    lemma_div_multiples_vanish(FP_ONE as int, FP_ONE as int);
    vstd::arithmetic::div_mod::lemma_div_pos_is_pos(FP_SQ as int, den);
}

/// A value that exponential smoothing can blend: vectors blend linearly,
/// rotations by a normalized blend.
pub trait Interpolate: Sized + Copy {
    /// Validity carried through smoothing: in-range coordinates for
    /// vectors, the unit invariant for rotations.
    spec fn wf(self) -> bool;

    /// The blend of `self` toward `other` by the fixed-point fraction `t`.
    spec fn spec_interpolate(self, other: Self, t: int) -> Self;

    /// Blending by a zero fraction returns the start value exactly.
    proof fn lemma_interpolate_zero(self, other: Self)
        requires
            self.wf(),
            other.wf(),
        ensures
            self.spec_interpolate(other, 0) == self,
    ;

    /// Blending a value toward itself returns it exactly, for every
    /// fraction.
    proof fn lemma_interpolate_self(self, t: int)
        requires
            self.wf(),
        ensures
            self.spec_interpolate(self, t) == self,
    ;

    /// Computes the blend.
    fn interpolate(self, other: Self, t: i64) -> (r: Self)
        requires
            self.wf(),
            other.wf(),
            -FP_ONE <= t <= FP_ONE,
        ensures
            r == self.spec_interpolate(other, t as int),
            r.wf(),
    ;
}

impl Interpolate for Vec3 {
    open spec fn wf(self) -> bool {
        self.in_range()
    }

    open spec fn spec_interpolate(self, other: Self, t: int) -> Self {
        self.spec_lerp(other, t)
    }

    proof fn lemma_interpolate_zero(self, other: Self) {
        crate::fixed::lemma_lerp_approaches(self.x as int, other.x as int, 0);
        crate::fixed::lemma_lerp_approaches(self.y as int, other.y as int, 0);
        crate::fixed::lemma_lerp_approaches(self.z as int, other.z as int, 0);
    }

    proof fn lemma_interpolate_self(self, t: int) {
        crate::fixed::lemma_lerp_self(self.x as int, t);
        crate::fixed::lemma_lerp_self(self.y as int, t);
        crate::fixed::lemma_lerp_self(self.z as int, t);
    }

    fn interpolate(self, other: Self, t: i64) -> (r: Self) {
        self.lerp(other, t)
    }
}

impl Interpolate for Quat {
    open spec fn wf(self) -> bool {
        self.is_unit()
    }

    open spec fn spec_interpolate(self, other: Self, t: int) -> Self {
        self.spec_nlerp(other, t)
    }

    proof fn lemma_interpolate_zero(self, other: Self) {
        reveal(Quat::spec_nlerp);
    }

    proof fn lemma_interpolate_self(self, t: int) {
        reveal(Quat::spec_nlerp);
    }

    fn interpolate(self, other: Self, t: i64) -> (r: Self) {
        self.nlerp(other, t)
    }
}

/// How one smoothing step reads its inputs: the smoothness, the output
/// scale (`FP_ONE` plain, `-FP_ONE` predictive), and the elapsed time.
#[derive(Clone, Copy, Debug)]
pub struct ExpSmoothingParams {
    pub smoothness: i64,
    pub output_offset_scale: i64,
    pub delta_time_seconds: i64,
}

/// The memory of an exponential smoother: the previously smoothed value,
/// or nothing before the first step.
#[derive(Clone, Copy, Debug)]
pub struct ExpSmoothed<T> {
    pub prev: Option<T>,
}

impl<T: Interpolate> Default for ExpSmoothed<T> {
    /// An empty smoother.
    fn default() -> (s: Self)
        ensures
            s.prev is None,
    {
        ExpSmoothed { prev: None }
    }
}

impl<T: Interpolate> ExpSmoothed<T> {
    /// The remembered value, if any, is valid.
    pub open spec fn wf(self) -> bool {
        match self.prev {
            Some(p) => p.wf(),
            None => true,
        }
    }

    /// The value the smoother steps to: the previous memory (seeded with
    /// the target itself on the first step) blended toward the target by
    /// the elapsed-time fraction.
    pub open spec fn spec_smoothed(self, other: T, smoothness: int, dt: int) -> T {
        let prev = match self.prev {
            Some(p) => p,
            None => other,
        };
        prev.spec_interpolate(other, spec_interp_t(dt, smoothness))
    }

    /// What one step returns: the smoothed value, or its reflection through
    /// the target when the output scale is not `FP_ONE`.
    pub open spec fn spec_output(self, other: T, params: ExpSmoothingParams) -> T {
        let sm = self.spec_smoothed(
            other,
            params.smoothness as int,
            params.delta_time_seconds as int,
        );
        if params.output_offset_scale == FP_ONE {
            sm
        } else {
            other.spec_interpolate(sm, params.output_offset_scale as int)
        }
    }

    /// One smoothing step: advances the memory toward `other` and returns
    /// the (possibly predictive) output.
    pub fn exp_smooth_towards(&mut self, other: &T, params: ExpSmoothingParams) -> (r: T)
        requires
            old(self).wf(),
            other.wf(),
            -FP_ONE <= params.output_offset_scale <= FP_ONE,
        ensures
            final(self).prev == Some(
                old(self).spec_smoothed(
                    *other,
                    params.smoothness as int,
                    params.delta_time_seconds as int,
                ),
            ),
            final(self).wf(),
            r == old(self).spec_output(*other, params),
            r.wf(),
    {
        let t: i64 = interp_t(params.delta_time_seconds, params.smoothness);
        let prev: T = match self.prev {
            Some(p) => p,
            None => *other,
        };
        let sm: T = prev.interpolate(*other, t);
        self.prev = Some(sm);
        if params.output_offset_scale != FP_ONE {
            other.interpolate(sm, params.output_offset_scale)
        } else {
            sm
        }
    }
}

/// Convergence of position smoothing: one smoothing step never overshoots
/// the target and never moves away from it. On each coordinate, the stepped
/// memory lies between the previous memory and the target, so its distance
/// to the target is at most the previous distance; with the whole fraction
/// `FP_ONE` the target is met exactly.
pub proof fn lemma_smoothing_approaches(sm: ExpSmoothed<Vec3>, target: Vec3, smoothness: int, dt: int)
    requires
        sm.wf(),
        target.in_range(),
        sm.prev is Some,
    ensures
        ({
            let prev = sm.prev->0;
            let next = sm.spec_smoothed(target, smoothness, dt);
            &&& (prev.x <= target.x ==> prev.x <= next.x <= target.x)
        &&& (target.x <= prev.x ==> target.x <= next.x <= prev.x)
        &&& (prev.y <= target.y ==> prev.y <= next.y <= target.y)
        &&& (target.y <= prev.y ==> target.y <= next.y <= prev.y)
        &&& (prev.z <= target.z ==> prev.z <= next.z <= target.z)
        &&& (target.z <= prev.z ==> target.z <= next.z <= prev.z)
        &&& (spec_interp_t(dt, smoothness) == FP_ONE ==> next == target)
        }),
{
    let prev = sm.prev->0;
    let t = spec_interp_t(dt, smoothness);
    lemma_interp_t_bounds(dt, smoothness);
    crate::fixed::lemma_lerp_approaches(prev.x as int, target.x as int, t);
    crate::fixed::lemma_lerp_approaches(prev.y as int, target.y as int, t);
    crate::fixed::lemma_lerp_approaches(prev.z as int, target.z as int, t);
}

/// Idempotence at zero elapsed time: a zero-time step leaves the smoothed
/// value exactly equal to the previous memory, except on the very first
/// step, where the memory seeds to the raw target itself.
pub proof fn lemma_smoothing_zero_dt<T: Interpolate>(sm: ExpSmoothed<T>, target: T, smoothness: int)
    requires
        sm.wf(),
        target.wf(),
    ensures
        sm.prev matches Some(p) ==> sm.spec_smoothed(target, smoothness, 0) == p,
        sm.prev is None ==> sm.spec_smoothed(target, smoothness, 0) == target,
{
    lemma_interp_t_zero(smoothness);
    match sm.prev {
        Some(p) => {
            p.lemma_interpolate_zero(target);
        },
        None => {
            target.lemma_interpolate_zero(target);
        },
    }
}

/// First use seeds to the raw target itself: with no memory, one step
/// returns the target exactly and remembers it, for every elapsed time,
/// smoothness and output scale - smoothing starts at the target, never at
/// a zero or identity value, so the first frame cannot snap.
pub proof fn lemma_smoothing_seeds_to_target<T: Interpolate>(
    sm: ExpSmoothed<T>,
    target: T,
    params: ExpSmoothingParams,
)
    requires
        sm.prev is None,
        target.wf(),
    ensures
        sm.spec_smoothed(target, params.smoothness as int, params.delta_time_seconds as int)
            == target,
        sm.spec_output(target, params) == target,
{
    target.lemma_interpolate_self(
        spec_interp_t(params.delta_time_seconds as int, params.smoothness as int),
    );
    target.lemma_interpolate_self(params.output_offset_scale as int);
}

/// The rotation that points the forward axis of the given handedness along
/// `forward`: forward is normalized, a right vector is taken against the
/// vertical up hint, and the orthonormal basis is converted to a rotation.
/// A zero forward vector, or one parallel to the up hint, gives the
/// identity rotation instead of a degenerate basis.
#[verifier::opaque]
pub open spec fn spec_look_at(forward: Vec3, handedness: Handedness) -> Quat {
    match forward.spec_try_normalize() {
        Option::None => Quat::spec_identity(),
        Option::Some(f) => {
            let up_hint = Vec3 { x: 0, y: FP_ONE, z: 0 };
            let right_raw = handedness.spec_right_from_up_and_forward(up_hint, f);
            match right_raw.spec_try_normalize() {
                Option::None => Quat::spec_identity(),
                Option::Some(right) => {
                    let up = handedness.spec_up_from_right_and_forward(right, f);
                    let fcol = if handedness == Handedness::Left {
                        f
                    } else {
                        f.spec_neg()
                    };
                    Quat::spec_from_basis(right, up, fcol)
                },
            }
        },
    }
}

/// Computes the look-at rotation for a forward vector.
pub fn look_at(forward: Vec3, handedness: Handedness) -> (q: Quat)
    requires
        forward.in_range(),
    ensures
        q == spec_look_at(forward, handedness),
        q.is_unit(),
{
    proof {
        reveal(spec_look_at);
    }
    match forward.try_normalize() {
        Option::None => Quat::identity(),
        Option::Some(f) => {
            let up_hint = Vec3 { x: 0, y: FP_ONE, z: 0 };
            let right_raw = handedness.right_from_up_and_forward(up_hint, f);
            match right_raw.try_normalize() {
                Option::None => Quat::identity(),
                Option::Some(right) => {
                    let up = handedness.up_from_right_and_forward(right, f);
                    proof {
                        lemma_cross_unit_bound(f, right);
                        lemma_cross_unit_bound(right, f);
                    }
                    let fcol = if handedness.forward_sign() == 1 {
                        f
                    } else {
                        f.neg()
                    };
                    Quat::from_basis(right, up, fcol)
                },
            }
        },
    }
}

} // verus!
