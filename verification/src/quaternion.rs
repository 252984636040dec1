//! Near-unit quaternions over fixed-point scalars.
//!
//! A `Quat` stores four 16.16 fixed-point components. The library's rotation
//! invariant is [`Quat::is_unit`]: the squared norm stays within
//! [`UNIT_NSQ_TOL`] of `FP_SQ`, the squared norm of an exact unit. Every
//! constructor here either verifies that band at run time ([`Quat::checked`])
//! or rescales through the integer square root and then verifies it, falling
//! back to the identity rotation in the degenerate cases, so the invariant
//! holds of every value the library hands out.

use crate::fixed::{
    clamp_e, clamp_spec, div_tz, div_tz_e, isqrt, isqrt_spec, lemma_abs_le_root,
    lemma_div_tz_abs_le, lemma_div_tz_mag, lemma_scaled_div_unit, sat, sat_i128, COORD_MAX,
    FP_ONE, FP_SQ,
};
use crate::trig::{
    asin_fp, atan2_fp, cos_fp, rad_to_deg_fp, sin_fp, spec_asin, spec_atan2, spec_cos,
    spec_rad_to_deg, spec_sin,
};
use crate::vector::Vec3;
use vstd::prelude::*;

verus! {

/// Width of the accepted band around a unit squared norm.
pub const UNIT_NSQ_TOL: i64 = 42949672;

/// Magnitude bound on each component of a near-unit quaternion.
pub const UNIT_COMP_MAX: i64 = 66000;

/// A quaternion of four 16.16 fixed-point components; `w` is the scalar part.
#[derive(Clone, Copy, Debug, PartialEq, Eq, Structural)]
pub struct Quat {
    pub x: i64,
    pub y: i64,
    pub z: i64,
    pub w: i64,
}

impl Quat {
    /// Squared norm at scale `FP_SQ`.
    pub open spec fn spec_norm_sq(self) -> int {
        self.x * self.x + self.y * self.y + self.z * self.z + self.w * self.w
    }

    /// The rotation invariant: the squared norm lies within `UNIT_NSQ_TOL`
    /// of `FP_SQ`.
    pub open spec fn is_unit(self) -> bool {
        FP_SQ - UNIT_NSQ_TOL <= self.spec_norm_sq() <= FP_SQ + UNIT_NSQ_TOL
    }

    /// The identity rotation.
    pub open spec fn spec_identity() -> Quat {
        Quat { x: 0, y: 0, z: 0, w: FP_ONE }
    }

    /// Returns the identity rotation.
    pub fn identity() -> (q: Quat)
        ensures
            q == Self::spec_identity(),
            q.is_unit(),
    {
        proof {
            lemma_identity_unit();
        }
        Quat { x: 0, y: 0, z: 0, w: FP_ONE }
    }

    /// The given components if they form a near-unit quaternion, else the
    /// identity.
    #[verifier::opaque]
pub open spec fn spec_checked(x: int, y: int, z: int, w: int) -> Quat {
        let nsq = x * x + y * y + z * z + w * w;
        if FP_SQ - UNIT_NSQ_TOL <= nsq <= FP_SQ + UNIT_NSQ_TOL {
            Quat { x: x as i64, y: y as i64, z: z as i64, w: w as i64 }
        } else {
            Self::spec_identity()
        }
    }

    /// Accepts the components only if they pass the unit-norm check;
    /// otherwise returns the identity rotation.
    pub fn checked(x: i128, y: i128, z: i128, w: i128) -> (q: Quat)
        requires
            -64 * FP_ONE <= x <= 64 * FP_ONE,
            -64 * FP_ONE <= y <= 64 * FP_ONE,
            -64 * FP_ONE <= z <= 64 * FP_ONE,
            -64 * FP_ONE <= w <= 64 * FP_ONE,
        ensures
            q == Self::spec_checked(x as int, y as int, z as int, w as int),
            q.is_unit(),
    {
        proof {
            reveal(Quat::spec_checked);
        }
        proof {
            assert(0 <= (x as int) * (x as int) <= 17592186044416 && 0 <= (y as int) * (y as int)
                <= 17592186044416 && 0 <= (z as int) * (z as int) <= 17592186044416 && 0 <= (w as int) * (
            w as int) <= 17592186044416) by (nonlinear_arith)
                requires
                    -4194304 <= x as int <= 4194304,
                    -4194304 <= y as int <= 4194304,
                    -4194304 <= z as int <= 4194304,
                    -4194304 <= w as int <= 4194304,
            ;
            lemma_identity_unit();
        }
        let nsq: i128 = x * x + y * y + z * z + w * w;
        let lo: i128 = (FP_SQ - UNIT_NSQ_TOL) as i128;
        let hi: i128 = (FP_SQ + UNIT_NSQ_TOL) as i128;
        if lo <= nsq && nsq <= hi {
            Quat { x: x as i64, y: y as i64, z: z as i64, w: w as i64 }
        } else {
            Quat { x: 0, y: 0, z: 0, w: FP_ONE }
        }
    }

    /// Rescale arbitrary components to unit length through the integer
    /// square root; the zero quaternion maps to the identity.
    #[verifier::opaque]
pub open spec fn spec_normalize(x: int, y: int, z: int, w: int) -> Quat {
        let nsq = x * x + y * y + z * z + w * w;
        let n = isqrt_spec(nsq);
        if n == 0 {
            Self::spec_identity()
        } else {
            Self::spec_checked(
                div_tz(x * FP_ONE, n),
                div_tz(y * FP_ONE, n),
                div_tz(z * FP_ONE, n),
                div_tz(w * FP_ONE, n),
            )
        }
    }

    /// Normalizes wide components, falling back to the identity when the
    /// rescaled value still fails the unit check.
    pub fn normalize128(x: i128, y: i128, z: i128, w: i128) -> (q: Quat)
        requires
            -0x4000_0000_0000_0000 <= x <= 0x4000_0000_0000_0000,
            -0x4000_0000_0000_0000 <= y <= 0x4000_0000_0000_0000,
            -0x4000_0000_0000_0000 <= z <= 0x4000_0000_0000_0000,
            -0x4000_0000_0000_0000 <= w <= 0x4000_0000_0000_0000,
        ensures
            q == Self::spec_normalize(x as int, y as int, z as int, w as int),
            q.is_unit(),
    {
        proof {
            reveal(Quat::spec_normalize);
        }
        proof {
            assert(0 <= (x as int) * (x as int) <= 21267647932558653966460912964485513216 && 0 <= (y as int) * (y as int)
                <= 21267647932558653966460912964485513216 && 0 <= (z as int) * (z as int) <= 21267647932558653966460912964485513216 && 0 <= (w as int) * (
            w as int) <= 21267647932558653966460912964485513216) by (nonlinear_arith)
                requires
                    -4611686018427387904 <= x as int <= 4611686018427387904,
                    -4611686018427387904 <= y as int <= 4611686018427387904,
                    -4611686018427387904 <= z as int <= 4611686018427387904,
                    -4611686018427387904 <= w as int <= 4611686018427387904,
            ;
            lemma_identity_unit();
        }
        let nsq: i128 = x * x + y * y + z * z + w * w;
        let n: u64 = isqrt(nsq as u128);
        if n == 0 {
            Quat { x: 0, y: 0, z: 0, w: FP_ONE }
        } else {
            proof {
                lemma_abs_le_root(x as int, nsq as int, n as int);
                lemma_abs_le_root(y as int, nsq as int, n as int);
                lemma_abs_le_root(z as int, nsq as int, n as int);
                lemma_abs_le_root(w as int, nsq as int, n as int);
                lemma_scaled_div_unit(x as int, n as int);
                lemma_scaled_div_unit(y as int, n as int);
                lemma_scaled_div_unit(z as int, n as int);
                lemma_scaled_div_unit(w as int, n as int);
                assert(-302231454903657293676544 <= (x as int) * (FP_ONE as int) <= 302231454903657293676544 && -302231454903657293676544 <= (y as int)
                    * (FP_ONE as int) <= 302231454903657293676544 && -302231454903657293676544 <= (z as int) * (FP_ONE as int)
                    <= 302231454903657293676544 && -302231454903657293676544 <= (w as int) * (FP_ONE as int) <= 302231454903657293676544)
                    by (nonlinear_arith)
                    requires
                        -4611686018427387904 <= x as int <= 4611686018427387904,
                        -4611686018427387904 <= y as int <= 4611686018427387904,
                        -4611686018427387904 <= z as int <= 4611686018427387904,
                        -4611686018427387904 <= w as int <= 4611686018427387904,
                        FP_ONE == 65536,
                ;
            }
            let qx: i128 = div_tz_e(x * (FP_ONE as i128), n as i128);
            let qy: i128 = div_tz_e(y * (FP_ONE as i128), n as i128);
            let qz: i128 = div_tz_e(z * (FP_ONE as i128), n as i128);
            let qw: i128 = div_tz_e(w * (FP_ONE as i128), n as i128);
            Self::checked(qx, qy, qz, qw)
        }
    }

    /// The same rotation rescaled to unit length; wide components are
    /// saturated first, and a degenerate input becomes the identity.
    pub open spec fn spec_renorm(q: Quat) -> Quat {
        Self::spec_normalize(sat(q.x as int), sat(q.y as int), sat(q.z as int), sat(q.w as int))
    }

    /// Renormalizes an arbitrary quaternion into the unit band.
    pub fn renormalized(q: Quat) -> (r: Quat)
        ensures
            r == Self::spec_renorm(q),
            r.is_unit(),
    {
        Self::normalize128(
            sat_i128(q.x as i128) as i128,
            sat_i128(q.y as i128) as i128,
            sat_i128(q.z as i128) as i128,
            sat_i128(q.w as i128) as i128,
        )
    }

    /// The rotation itself when it is already near-unit, else the same
    /// rotation renormalized. Keeping an in-band value untouched makes
    /// storing and reading back a rotation an exact round trip.
    pub open spec fn spec_unit_or_renorm(q: Quat) -> Quat {
        if q.is_unit() {
            q
        } else {
            Self::spec_renorm(q)
        }
    }

    /// Returns the rotation unchanged when it already satisfies the unit
    /// invariant; renormalizes it otherwise.
    pub fn unit_or_renormalized(q: Quat) -> (r: Quat)
        ensures
            r == Self::spec_unit_or_renorm(q),
            r.is_unit(),
    {
        if q.x >= -COORD_MAX && q.x <= COORD_MAX && q.y >= -COORD_MAX && q.y <= COORD_MAX && q.z
            >= -COORD_MAX && q.z <= COORD_MAX && q.w >= -COORD_MAX && q.w <= COORD_MAX {
            proof {
                assert(0 <= (q.x as int) * (q.x as int) <= 19807040628565802923409276929 && 0 <= (q.y as int) * (
                q.y as int) <= 19807040628565802923409276929 && 0 <= (q.z as int) * (q.z as int) <= 19807040628565802923409276929 && 0 <= (
                q.w as int) * (q.w as int) <= 19807040628565802923409276929) by (nonlinear_arith)
                    requires
                        -140737488355327 <= q.x as int <= 140737488355327,
                        -140737488355327 <= q.y as int <= 140737488355327,
                        -140737488355327 <= q.z as int <= 140737488355327,
                        -140737488355327 <= q.w as int <= 140737488355327,
                ;
            }
            let nsq: i128 = (q.x as i128) * (q.x as i128) + (q.y as i128) * (q.y as i128) + (
            q.z as i128) * (q.z as i128) + (q.w as i128) * (q.w as i128);
            if (FP_SQ - UNIT_NSQ_TOL) as i128 <= nsq && nsq <= (FP_SQ + UNIT_NSQ_TOL) as i128 {
                return q;
            }
            return Self::renormalized(q);
        }
        proof {
            lemma_sq_nonneg(q.x as int);
            lemma_sq_nonneg(q.y as int);
            lemma_sq_nonneg(q.z as int);
            lemma_sq_nonneg(q.w as int);
            if q.x > COORD_MAX || q.x < -COORD_MAX {
                lemma_out_comp(q.x as int);
            } else if q.y > COORD_MAX || q.y < -COORD_MAX {
                lemma_out_comp(q.y as int);
            } else if q.z > COORD_MAX || q.z < -COORD_MAX {
                lemma_out_comp(q.z as int);
            } else {
                lemma_out_comp(q.w as int);
            }
        }
        Self::renormalized(q)
    }

    /// Hamilton product rescaled by `FP_ONE`, passed through the unit check.
    #[verifier::opaque]
pub open spec fn spec_mul(self, o: Quat) -> Quat {
        let s = FP_ONE as int;
        Self::spec_checked(
            div_tz(self.w * o.x + self.x * o.w + self.y * o.z - self.z * o.y, s),
            div_tz(self.w * o.y - self.x * o.z + self.y * o.w + self.z * o.x, s),
            div_tz(self.w * o.z + self.x * o.y - self.y * o.x + self.z * o.w, s),
            div_tz(self.w * o.w - self.x * o.x - self.y * o.y - self.z * o.z, s),
        )
    }

    /// Multiplies two near-unit quaternions; the product is checked back
    /// into the unit band.
    pub fn mul(self, o: Quat) -> (q: Quat)
        requires
            self.is_unit(),
            o.is_unit(),
        ensures
            q == self.spec_mul(o),
            q.is_unit(),
    {
        proof {
            reveal(Quat::spec_mul);
        }
        proof {
            self.lemma_unit_component_bound();
            o.lemma_unit_component_bound();
            lemma_unit_products(self, o);
            assert((FP_ONE as int) * (64 * (FP_ONE as int)) == 274877906944) by (nonlinear_arith)
                requires
                    FP_ONE == 65536,
            ;
            lemma_div_tz_abs_le(
                self.w * o.x + self.x * o.w + self.y * o.z - self.z * o.y,
                FP_ONE as int,
                64 * (FP_ONE as int),
            );
            lemma_div_tz_abs_le(
                self.w * o.y - self.x * o.z + self.y * o.w + self.z * o.x,
                FP_ONE as int,
                64 * (FP_ONE as int),
            );
            lemma_div_tz_abs_le(
                self.w * o.z + self.x * o.y - self.y * o.x + self.z * o.w,
                FP_ONE as int,
                64 * (FP_ONE as int),
            );
            lemma_div_tz_abs_le(
                self.w * o.w - self.x * o.x - self.y * o.y - self.z * o.z,
                FP_ONE as int,
                64 * (FP_ONE as int),
            );
        }
        let s: i128 = FP_ONE as i128;
        let ax = self.x as i128;
        let ay = self.y as i128;
        let az = self.z as i128;
        let aw = self.w as i128;
        let bx = o.x as i128;
        let by = o.y as i128;
        let bz = o.z as i128;
        let bw = o.w as i128;
        let rx: i128 = div_tz_e(aw * bx + ax * bw + ay * bz - az * by, s);
        let ry: i128 = div_tz_e(aw * by - ax * bz + ay * bw + az * bx, s);
        let rz: i128 = div_tz_e(aw * bz + ax * by - ay * bx + az * bw, s);
        let rw: i128 = div_tz_e(aw * bw - ax * bx - ay * by - az * bz, s);
        Self::checked(rx, ry, rz, rw)
    }

    /// Rotation of a vector by a near-unit quaternion, saturated into the
    /// coordinate range.
    #[verifier::opaque]
pub open spec fn spec_rotate(self, v: Vec3) -> Vec3 {
        let s = FP_ONE as int;
        let tx = div_tz(2 * (self.y * v.z - self.z * v.y), s);
        let ty = div_tz(2 * (self.z * v.x - self.x * v.z), s);
        let tz = div_tz(2 * (self.x * v.y - self.y * v.x), s);
        Vec3 {
            x: sat(v.x + div_tz(self.w * tx, s) + div_tz(self.y * tz - self.z * ty, s)) as i64,
            y: sat(v.y + div_tz(self.w * ty, s) + div_tz(self.z * tx - self.x * tz, s)) as i64,
            z: sat(v.z + div_tz(self.w * tz, s) + div_tz(self.x * ty - self.y * tx, s)) as i64,
        }
    }

    /// Rotates an in-range vector by a near-unit quaternion.
    pub fn rotate(self, v: Vec3) -> (r: Vec3)
        requires
            self.is_unit(),
            v.in_range(),
        ensures
            r == self.spec_rotate(v),
            r.in_range(),
    {
        proof {
            reveal(Quat::spec_rotate);
        }
        proof {
            self.lemma_unit_component_bound();
            lemma_rotate_cross_products(self, v);
            lemma_div_tz_mag(2 * (self.y * v.z - self.z * v.y), FP_ONE as int, 37154696925806328000);
            lemma_div_tz_mag(2 * (self.z * v.x - self.x * v.z), FP_ONE as int, 37154696925806328000);
            lemma_div_tz_mag(2 * (self.x * v.y - self.y * v.x), FP_ONE as int, 37154696925806328000);
        }
        let s: i128 = FP_ONE as i128;
        let qx = self.x as i128;
        let qy = self.y as i128;
        let qz = self.z as i128;
        let qw = self.w as i128;
        let vx = v.x as i128;
        let vy = v.y as i128;
        let vz = v.z as i128;
        let tx: i128 = div_tz_e(2 * (qy * vz - qz * vy), s);
        let ty: i128 = div_tz_e(2 * (qz * vx - qx * vz), s);
        let tz: i128 = div_tz_e(2 * (qx * vy - qy * vx), s);
        proof {
            lemma_rotate_second_products(self, tx as int, ty as int, tz as int);
            lemma_div_tz_mag(self.w * (tx as int), FP_ONE as int, 2452209997103217648000000);
            lemma_div_tz_mag(self.w * (ty as int), FP_ONE as int, 2452209997103217648000000);
            lemma_div_tz_mag(self.w * (tz as int), FP_ONE as int, 2452209997103217648000000);
            lemma_div_tz_mag(self.y * (tz as int) - self.z * (ty as int), FP_ONE as int, 4904419994206435296000000);
            lemma_div_tz_mag(self.z * (tx as int) - self.x * (tz as int), FP_ONE as int, 4904419994206435296000000);
            lemma_div_tz_mag(self.x * (ty as int) - self.y * (tx as int), FP_ONE as int, 4904419994206435296000000);
        }
        let rx: i128 = vx + div_tz_e(qw * tx, s) + div_tz_e(qy * tz - qz * ty, s);
        let ry: i128 = vy + div_tz_e(qw * ty, s) + div_tz_e(qz * tx - qx * tz, s);
        let rz: i128 = vz + div_tz_e(qw * tz, s) + div_tz_e(qx * ty - qy * tx, s);
        Vec3 { x: sat_i128(rx), y: sat_i128(ry), z: sat_i128(rz) }
    }

    /// Every component of a near-unit quaternion is bounded by
    /// `UNIT_COMP_MAX`.
    pub proof fn lemma_unit_component_bound(self)
        requires
            self.is_unit(),
        ensures
            -UNIT_COMP_MAX <= self.x <= UNIT_COMP_MAX,
            -UNIT_COMP_MAX <= self.y <= UNIT_COMP_MAX,
            -UNIT_COMP_MAX <= self.z <= UNIT_COMP_MAX,
            -UNIT_COMP_MAX <= self.w <= UNIT_COMP_MAX,
    {
        lemma_sq_nonneg(self.x as int);
        lemma_sq_nonneg(self.y as int);
        lemma_sq_nonneg(self.z as int);
        lemma_sq_nonneg(self.w as int);
        assert((66000 as int) * (66000 as int) == 4356000000) by (nonlinear_arith);
        lemma_abs_le_root(self.x as int, self.spec_norm_sq(), 65999);
        lemma_abs_le_root(self.y as int, self.spec_norm_sq(), 65999);
        lemma_abs_le_root(self.z as int, self.spec_norm_sq(), 65999);
        lemma_abs_le_root(self.w as int, self.spec_norm_sq(), 65999);
    }

    /// Rotating an in-range vector by the identity returns it unchanged.
    pub proof fn lemma_rotate_identity(v: Vec3)
        requires
            v.in_range(),
        ensures
            Self::spec_identity().spec_rotate(v) == v,
    {
        reveal(Quat::spec_rotate);
        let s = FP_ONE as int;
        vstd::arithmetic::div_mod::lemma_div_of0(s);
        let q = Self::spec_identity();
        assert(q.y * v.z == 0 && q.z * v.y == 0 && q.z * v.x == 0 && q.x * v.z == 0 && q.x * v.y
            == 0 && q.y * v.x == 0) by (nonlinear_arith)
            requires
                q.x == 0 && q.y == 0 && q.z == 0,
        ;
        assert(q.spec_rotate(v) == v);
    }
}

/// The identity rotation satisfies the unit invariant.
pub proof fn lemma_identity_unit()
    ensures
        Quat::spec_identity().is_unit(),
{
    crate::fixed::lemma_fp_one_sq();
    assert((0 as int) * (0 as int) == 0) by (nonlinear_arith);
}

/// A component beyond the coordinate range pushes the squared norm far
/// beyond the unit band.
proof fn lemma_out_comp(c: int)
    requires
        c > COORD_MAX || c < -COORD_MAX,
    ensures
        c * c > FP_SQ + UNIT_NSQ_TOL,
{
    assert(c * c > 4337916968) by (nonlinear_arith)
        requires
            c > 140737488355327 || c < -140737488355327,
    ;
}

/// Squares are nonnegative.
proof fn lemma_sq_nonneg(a: int)
    ensures
        0 <= a * a,
{
    assert(0 <= a * a) by (nonlinear_arith);
}

/// The sixteen pairwise component products of two near-unit quaternions are
/// bounded, so every Hamilton-product term stays within `17424000000`.
proof fn lemma_unit_products(a: Quat, b: Quat)
    requires
        -UNIT_COMP_MAX <= a.x <= UNIT_COMP_MAX,
        -UNIT_COMP_MAX <= a.y <= UNIT_COMP_MAX,
        -UNIT_COMP_MAX <= a.z <= UNIT_COMP_MAX,
        -UNIT_COMP_MAX <= a.w <= UNIT_COMP_MAX,
        -UNIT_COMP_MAX <= b.x <= UNIT_COMP_MAX,
        -UNIT_COMP_MAX <= b.y <= UNIT_COMP_MAX,
        -UNIT_COMP_MAX <= b.z <= UNIT_COMP_MAX,
        -UNIT_COMP_MAX <= b.w <= UNIT_COMP_MAX,
    ensures
        -4356000000 <= a.w * b.x <= 4356000000,
        -4356000000 <= a.x * b.w <= 4356000000,
        -4356000000 <= a.y * b.z <= 4356000000,
        -4356000000 <= a.z * b.y <= 4356000000,
        -4356000000 <= a.w * b.y <= 4356000000,
        -4356000000 <= a.x * b.z <= 4356000000,
        -4356000000 <= a.y * b.w <= 4356000000,
        -4356000000 <= a.z * b.x <= 4356000000,
        -4356000000 <= a.w * b.z <= 4356000000,
        -4356000000 <= a.x * b.y <= 4356000000,
        -4356000000 <= a.y * b.x <= 4356000000,
        -4356000000 <= a.z * b.w <= 4356000000,
        -4356000000 <= a.w * b.w <= 4356000000,
        -4356000000 <= a.x * b.x <= 4356000000,
        -4356000000 <= a.y * b.y <= 4356000000,
        -4356000000 <= a.z * b.z <= 4356000000,
{
    assert(-4356000000 <= a.w * b.x <= 4356000000 && -4356000000 <= a.x * b.w <= 4356000000 && -4356000000 <= a.y * b.z
        <= 4356000000 && -4356000000 <= a.z * b.y <= 4356000000 && -4356000000 <= a.w * b.y <= 4356000000 && -4356000000 <= a.x
        * b.z <= 4356000000 && -4356000000 <= a.y * b.w <= 4356000000 && -4356000000 <= a.z * b.x <= 4356000000 && -4356000000
        <= a.w * b.z <= 4356000000 && -4356000000 <= a.x * b.y <= 4356000000 && -4356000000 <= a.y * b.x <= 4356000000
        && -4356000000 <= a.z * b.w <= 4356000000 && -4356000000 <= a.w * b.w <= 4356000000 && -4356000000 <= a.x * b.x
        <= 4356000000 && -4356000000 <= a.y * b.y <= 4356000000 && -4356000000 <= a.z * b.z <= 4356000000)
        by (nonlinear_arith)
        requires
            -66000 <= a.x <= 66000,
            -66000 <= a.y <= 66000,
            -66000 <= a.z <= 66000,
            -66000 <= a.w <= 66000,
            -66000 <= b.x <= 66000,
            -66000 <= b.y <= 66000,
            -66000 <= b.z <= 66000,
            -66000 <= b.w <= 66000,
    ;
}

/// The doubled cross terms of a rotation are bounded by `37154696925806328000`.
proof fn lemma_rotate_cross_products(q: Quat, v: Vec3)
    requires
        -UNIT_COMP_MAX <= q.x <= UNIT_COMP_MAX,
        -UNIT_COMP_MAX <= q.y <= UNIT_COMP_MAX,
        -UNIT_COMP_MAX <= q.z <= UNIT_COMP_MAX,
        v.in_range(),
    ensures
        -9288674231451582000 <= q.y * v.z <= 9288674231451582000,
        -9288674231451582000 <= q.z * v.y <= 9288674231451582000,
        -9288674231451582000 <= q.z * v.x <= 9288674231451582000,
        -9288674231451582000 <= q.x * v.z <= 9288674231451582000,
        -9288674231451582000 <= q.x * v.y <= 9288674231451582000,
        -9288674231451582000 <= q.y * v.x <= 9288674231451582000,
        -37154696925806328000 <= 2 * (q.y * v.z - q.z * v.y) <= 37154696925806328000,
        -37154696925806328000 <= 2 * (q.z * v.x - q.x * v.z) <= 37154696925806328000,
        -37154696925806328000 <= 2 * (q.x * v.y - q.y * v.x) <= 37154696925806328000,
{
    assert(-9288674231451582000 <= q.y * v.z <= 9288674231451582000 && -9288674231451582000 <= q.z * v.y <= 9288674231451582000 && -9288674231451582000 <= q.z * v.x
        <= 9288674231451582000 && -9288674231451582000 <= q.x * v.z <= 9288674231451582000 && -9288674231451582000 <= q.x * v.y <= 9288674231451582000 && -9288674231451582000 <= q.y * v.x
        <= 9288674231451582000) by (nonlinear_arith)
        requires
            -66000 <= q.x <= 66000,
            -66000 <= q.y <= 66000,
            -66000 <= q.z <= 66000,
            -140737488355327 <= v.x <= 140737488355327,
            -140737488355327 <= v.y <= 140737488355327,
            -140737488355327 <= v.z <= 140737488355327,
    ;
}

/// The products of components with the doubled cross terms are bounded.
proof fn lemma_rotate_second_products(q: Quat, tx: int, ty: int, tz: int)
    requires
        -UNIT_COMP_MAX <= q.x <= UNIT_COMP_MAX,
        -UNIT_COMP_MAX <= q.y <= UNIT_COMP_MAX,
        -UNIT_COMP_MAX <= q.z <= UNIT_COMP_MAX,
        -UNIT_COMP_MAX <= q.w <= UNIT_COMP_MAX,
        -37154696925806328000 <= tx <= 37154696925806328000,
        -37154696925806328000 <= ty <= 37154696925806328000,
        -37154696925806328000 <= tz <= 37154696925806328000,
    ensures
        -2452209997103217648000000 <= q.w * tx <= 2452209997103217648000000,
        -2452209997103217648000000 <= q.w * ty <= 2452209997103217648000000,
        -2452209997103217648000000 <= q.w * tz <= 2452209997103217648000000,
        -2452209997103217648000000 <= q.y * tz <= 2452209997103217648000000,
        -2452209997103217648000000 <= q.z * ty <= 2452209997103217648000000,
        -2452209997103217648000000 <= q.z * tx <= 2452209997103217648000000,
        -2452209997103217648000000 <= q.x * tz <= 2452209997103217648000000,
        -2452209997103217648000000 <= q.x * ty <= 2452209997103217648000000,
        -2452209997103217648000000 <= q.y * tx <= 2452209997103217648000000,
{
    assert(-2452209997103217648000000 <= q.w * tx <= 2452209997103217648000000 && -2452209997103217648000000 <= q.w * ty <= 2452209997103217648000000 && -2452209997103217648000000 <= q.w * tz <= 2452209997103217648000000
        && -2452209997103217648000000 <= q.y * tz <= 2452209997103217648000000 && -2452209997103217648000000 <= q.z * ty <= 2452209997103217648000000 && -2452209997103217648000000 <= q.z * tx <= 2452209997103217648000000
        && -2452209997103217648000000 <= q.x * tz <= 2452209997103217648000000 && -2452209997103217648000000 <= q.x * ty <= 2452209997103217648000000 && -2452209997103217648000000 <= q.y * tx <= 2452209997103217648000000)
        by (nonlinear_arith)
        requires
            -66000 <= q.x <= 66000,
            -66000 <= q.y <= 66000,
            -66000 <= q.z <= 66000,
            -66000 <= q.w <= 66000,
            -37154696925806328000 <= tx <= 37154696925806328000,
            -37154696925806328000 <= ty <= 37154696925806328000,
            -37154696925806328000 <= tz <= 37154696925806328000,
    ;
}


impl Quat {
    /// Componentwise negation; the same rotation.
    pub open spec fn spec_neg(self) -> Quat {
        Quat { x: (-self.x) as i64, y: (-self.y) as i64, z: (-self.z) as i64, w: (-self.w) as i64 }
    }

    /// Four-component dot product at scale `FP_SQ`.
    pub open spec fn spec_dot(self, o: Quat) -> int {
        self.x * o.x + self.y * o.y + self.z * o.z + self.w * o.w
    }

    /// Normalized linear blend toward `o` by the fixed-point fraction `t`.
    /// A zero fraction returns `self` exactly; otherwise the blend takes the
    /// shorter arc (flipping `o`'s sign against a negative dot product) and
    /// renormalizes.
    #[verifier::opaque]
pub open spec fn spec_nlerp(self, o: Quat, t: int) -> Quat {
        if t == 0 || self == o {
            self
        } else {
            let b = if self.spec_dot(o) >= 0 {
                o
            } else {
                o.spec_neg()
            };
            Self::spec_normalize(
                self.x + div_tz((b.x - self.x) * t, FP_ONE as int),
                self.y + div_tz((b.y - self.y) * t, FP_ONE as int),
                self.z + div_tz((b.z - self.z) * t, FP_ONE as int),
                self.w + div_tz((b.w - self.w) * t, FP_ONE as int),
            )
        }
    }

    /// Blends two near-unit rotations; the result is renormalized. A zero
    /// fraction, or equal endpoints, returns the start value exactly.
    pub fn nlerp(self, o: Quat, t: i64) -> (q: Quat)
        requires
            self.is_unit(),
            o.is_unit(),
            -FP_ONE <= t <= FP_ONE,
        ensures
            q == self.spec_nlerp(o, t as int),
            q.is_unit(),
            t == 0 ==> q == self,
            o == self ==> q == self,
    {
        proof {
            reveal(Quat::spec_nlerp);
        }
        if t == 0 || self == o {
            return self;
        }
        proof {
            self.lemma_unit_component_bound();
            o.lemma_unit_component_bound();
            lemma_unit_products(self, o);
        }
        let d: i128 = (self.x as i128) * (o.x as i128) + (self.y as i128) * (o.y as i128) + (
        self.z as i128) * (o.z as i128) + (self.w as i128) * (o.w as i128);
        let bx: i64 = if d >= 0 {
            o.x
        } else {
            -o.x
        };
        let by: i64 = if d >= 0 {
            o.y
        } else {
            -o.y
        };
        let bz: i64 = if d >= 0 {
            o.z
        } else {
            -o.z
        };
        let bw: i64 = if d >= 0 {
            o.w
        } else {
            -o.w
        };
        proof {
            assert(-8650752000 <= ((bx - self.x) as int) * (t as int) <= 8650752000 && -8650752000 <= ((
            by - self.y) as int) * (t as int) <= 8650752000 && -8650752000 <= ((bz - self.z) as int) * (
            t as int) <= 8650752000 && -8650752000 <= ((bw - self.w) as int) * (t as int) <= 8650752000)
                by (nonlinear_arith)
                requires
                    -132000 <= (bx - self.x) as int <= 132000,
                    -132000 <= (by - self.y) as int <= 132000,
                    -132000 <= (bz - self.z) as int <= 132000,
                    -132000 <= (bw - self.w) as int <= 132000,
                    -65536 <= t as int <= 65536,
            ;
            lemma_div_tz_mag(((bx - self.x) as int) * (t as int), FP_ONE as int, 8650752000);
            lemma_div_tz_mag(((by - self.y) as int) * (t as int), FP_ONE as int, 8650752000);
            lemma_div_tz_mag(((bz - self.z) as int) * (t as int), FP_ONE as int, 8650752000);
            lemma_div_tz_mag(((bw - self.w) as int) * (t as int), FP_ONE as int, 8650752000);
        }
        let s: i128 = FP_ONE as i128;
        let cx: i128 = (self.x as i128) + div_tz_e(((bx as i128) - (self.x as i128)) * (t as i128), s);
        let cy: i128 = (self.y as i128) + div_tz_e(((by as i128) - (self.y as i128)) * (t as i128), s);
        let cz: i128 = (self.z as i128) + div_tz_e(((bz as i128) - (self.z as i128)) * (t as i128), s);
        let cw: i128 = (self.w as i128) + div_tz_e(((bw as i128) - (self.w as i128)) * (t as i128), s);
        Self::normalize128(cx, cy, cz, cw)
    }

    /// The rotation of the given yaw then pitch, in fixed-point degrees:
    /// a rotation about the vertical axis composed with one about the
    /// sideways axis, each built from the half angle's sine and cosine.
    #[verifier::opaque]
pub open spec fn spec_from_yaw_pitch(yaw: int, pitch: int) -> Quat {
        let hy = div_tz(yaw, 2);
        let hp = div_tz(pitch, 2);
        let qy = Self::spec_checked(0, spec_sin(hy), 0, spec_cos(hy));
        let qp = Self::spec_checked(spec_sin(hp), 0, 0, spec_cos(hp));
        qy.spec_mul(qp)
    }

    /// Builds the yaw-then-pitch rotation.
    pub fn from_yaw_pitch(yaw: i64, pitch: i64) -> (q: Quat)
        ensures
            q == Self::spec_from_yaw_pitch(yaw as int, pitch as int),
            q.is_unit(),
    {
        proof {
            reveal(Quat::spec_from_yaw_pitch);
        }
        proof {
            lemma_div_tz_abs_le(yaw as int, 2, 4611686018427387904);
            lemma_div_tz_abs_le(pitch as int, 2, 4611686018427387904);
        }
        let hy: i64 = div_tz_e(yaw as i128, 2) as i64;
        let hp: i64 = div_tz_e(pitch as i128, 2) as i64;
        let sy: i64 = sin_fp(hy);
        let cy: i64 = cos_fp(hy);
        let sp: i64 = sin_fp(hp);
        let cp: i64 = cos_fp(hp);
        let qy: Quat = Self::checked(0, sy as i128, 0, cy as i128);
        let qp: Quat = Self::checked(sp as i128, 0, 0, cp as i128);
        qy.mul(qp)
    }

    /// The rotation whose columns are the given orthonormal basis, read off
    /// by the largest-diagonal branch of the standard matrix-to-quaternion
    /// conversion, then passed through the unit check.
    #[verifier::opaque]
pub open spec fn spec_from_basis(c0: Vec3, c1: Vec3, c2: Vec3) -> Quat {
        let s = FP_ONE as int;
        let m00 = c0.x as int;
        let m01 = c0.y as int;
        let m02 = c0.z as int;
        let m10 = c1.x as int;
        let m11 = c1.y as int;
        let m12 = c1.z as int;
        let m20 = c2.x as int;
        let m21 = c2.y as int;
        let m22 = c2.z as int;
        if m22 <= 0 {
            let dif10 = m11 - m00;
            let omm22 = s - m22;
            if dif10 <= 0 {
                let four_xsq = omm22 - dif10;
                let r = isqrt_spec(four_xsq * s);
                if r == 0 {
                    Self::spec_identity()
                } else {
                    Self::spec_checked(
                        div_tz(four_xsq * s, 2 * r),
                        div_tz((m01 + m10) * s, 2 * r),
                        div_tz((m02 + m20) * s, 2 * r),
                        div_tz((m12 - m21) * s, 2 * r),
                    )
                }
            } else {
                let four_ysq = omm22 + dif10;
                let r = isqrt_spec(four_ysq * s);
                if r == 0 {
                    Self::spec_identity()
                } else {
                    Self::spec_checked(
                        div_tz((m01 + m10) * s, 2 * r),
                        div_tz(four_ysq * s, 2 * r),
                        div_tz((m12 + m21) * s, 2 * r),
                        div_tz((m20 - m02) * s, 2 * r),
                    )
                }
            }
        } else {
            let sum10 = m11 + m00;
            let opm22 = s + m22;
            if sum10 <= 0 {
                let four_zsq = opm22 - sum10;
                let r = isqrt_spec(four_zsq * s);
                if r == 0 {
                    Self::spec_identity()
                } else {
                    Self::spec_checked(
                        div_tz((m02 + m20) * s, 2 * r),
                        div_tz((m12 + m21) * s, 2 * r),
                        div_tz(four_zsq * s, 2 * r),
                        div_tz((m01 - m10) * s, 2 * r),
                    )
                }
            } else {
                let four_wsq = opm22 + sum10;
                let r = isqrt_spec(four_wsq * s);
                if r == 0 {
                    Self::spec_identity()
                } else {
                    Self::spec_checked(
                        div_tz((m12 - m21) * s, 2 * r),
                        div_tz((m20 - m02) * s, 2 * r),
                        div_tz((m01 - m10) * s, 2 * r),
                        div_tz(four_wsq * s, 2 * r),
                    )
                }
            }
        }
    }

    /// Converts an orthonormal basis, columns right, up, forward, into a
    /// near-unit rotation.
    pub fn from_basis(c0: Vec3, c1: Vec3, c2: Vec3) -> (q: Quat)
        requires
            -2 * FP_ONE <= c0.x <= 2 * FP_ONE,
            -2 * FP_ONE <= c0.y <= 2 * FP_ONE,
            -2 * FP_ONE <= c0.z <= 2 * FP_ONE,
            -2 * FP_ONE <= c1.x <= 2 * FP_ONE,
            -2 * FP_ONE <= c1.y <= 2 * FP_ONE,
            -2 * FP_ONE <= c1.z <= 2 * FP_ONE,
            -2 * FP_ONE <= c2.x <= 2 * FP_ONE,
            -2 * FP_ONE <= c2.y <= 2 * FP_ONE,
            -2 * FP_ONE <= c2.z <= 2 * FP_ONE,
        ensures
            q == Self::spec_from_basis(c0, c1, c2),
            q.is_unit(),
    {
        proof {
            reveal(Quat::spec_from_basis);
        }
        let m00: i64 = c0.x;
        let m01: i64 = c0.y;
        let m02: i64 = c0.z;
        let m10: i64 = c1.x;
        let m11: i64 = c1.y;
        let m12: i64 = c1.z;
        let m20: i64 = c2.x;
        let m21: i64 = c2.y;
        let m22: i64 = c2.z;
        if m22 <= 0 {
            let dif10: i64 = m11 - m00;
            let omm22: i64 = FP_ONE - m22;
            if dif10 <= 0 {
                let four: i64 = omm22 - dif10;
                from_basis_branch(four, m01 + m10, m02 + m20, m12 - m21, 0)
            } else {
                let four: i64 = omm22 + dif10;
                from_basis_branch(four, m01 + m10, m12 + m21, m20 - m02, 1)
            }
        } else {
            let sum10: i64 = m11 + m00;
            let opm22: i64 = FP_ONE + m22;
            if sum10 <= 0 {
                let four: i64 = opm22 - sum10;
                from_basis_branch(four, m02 + m20, m12 + m21, m01 - m10, 2)
            } else {
                let four: i64 = opm22 + sum10;
                from_basis_branch(four, m12 - m21, m20 - m02, m01 - m10, 3)
            }
        }
    }

    /// Yaw and pitch, in fixed-point degrees, read back from a near-unit
    /// rotation by the yaw-then-pitch-then-roll decomposition; any roll is
    /// discarded.
    #[verifier::opaque]
pub open spec fn spec_to_euler_yxz(self) -> (int, int) {
        let s = FP_ONE as int;
        let m12 = div_tz(2 * (self.y * self.z - self.w * self.x), s);
        let m02 = div_tz(2 * (self.x * self.z + self.w * self.y), s);
        let m22 = s - div_tz(2 * (self.x * self.x + self.y * self.y), s);
        let sp = clamp_spec(-m12, -s, s);
        (spec_rad_to_deg(spec_atan2(m02, m22)), spec_rad_to_deg(spec_asin(sp)))
    }

    /// Extracts yaw and pitch angles in fixed-point degrees.
    pub fn to_euler_yxz(self) -> (r: (i64, i64))
        requires
            self.is_unit(),
        ensures
            (r.0 as int, r.1 as int) == self.spec_to_euler_yxz(),
            -180 * FP_ONE <= r.0 <= 180 * FP_ONE,
            -180 * FP_ONE <= r.1 <= 180 * FP_ONE,
    {
        proof {
            reveal(Quat::spec_to_euler_yxz);
        }
        proof {
            self.lemma_unit_component_bound();
            lemma_unit_products(self, self);
            lemma_sq_nonneg(self.x as int);
            lemma_sq_nonneg(self.y as int);
            assert((FP_ONE as int) * (8 * (FP_ONE as int)) == 34359738368) by (nonlinear_arith)
                requires
                    FP_ONE == 65536,
            ;
            lemma_div_tz_abs_le(
                2 * (self.y * self.z - self.w * self.x),
                FP_ONE as int,
                8 * (FP_ONE as int),
            );
            lemma_div_tz_abs_le(
                2 * (self.x * self.z + self.w * self.y),
                FP_ONE as int,
                8 * (FP_ONE as int),
            );
            crate::fixed::lemma_div_tz_le(
                2 * (self.x * self.x + self.y * self.y),
                FP_ONE as int,
                8 * (FP_ONE as int),
            );
        }
        let s: i128 = FP_ONE as i128;
        let qx = self.x as i128;
        let qy = self.y as i128;
        let qz = self.z as i128;
        let qw = self.w as i128;
        let m12: i64 = div_tz_e(2 * (qy * qz - qw * qx), s) as i64;
        let m02: i64 = div_tz_e(2 * (qx * qz + qw * qy), s) as i64;
        let m22: i64 = FP_ONE - div_tz_e(2 * (qx * qx + qy * qy), s) as i64;
        let sp: i64 = clamp_e(-(m12 as i128), -FP_ONE, FP_ONE);
        let yaw_rad: i64 = atan2_fp(m02, m22);
        let pitch_rad: i64 = asin_fp(sp);
        (rad_to_deg_fp(yaw_rad), rad_to_deg_fp(pitch_rad))
    }
}

/// One branch of the basis-to-quaternion conversion: scales the four terms
/// by the reciprocal square root of `four`, then applies the unit check.
fn from_basis_branch(four: i64, ta: i64, tb: i64, tc: i64, which: u8) -> (q: Quat)
    requires
        FP_ONE <= four <= 7 * FP_ONE,
        -8 * FP_ONE <= ta <= 8 * FP_ONE,
        -8 * FP_ONE <= tb <= 8 * FP_ONE,
        -8 * FP_ONE <= tc <= 8 * FP_ONE,
        which < 4,
    ensures
        ({
            let s = FP_ONE as int;
            let r = isqrt_spec((four as int) * s);
            &&& r != 0
        &&& q == (if which == 0 {
                Quat::spec_checked(
                    div_tz((four as int) * s, 2 * r),
                    div_tz((ta as int) * s, 2 * r),
                    div_tz((tb as int) * s, 2 * r),
                    div_tz((tc as int) * s, 2 * r),
                )
            } else if which == 1 {
                Quat::spec_checked(
                    div_tz((ta as int) * s, 2 * r),
                    div_tz((four as int) * s, 2 * r),
                    div_tz((tb as int) * s, 2 * r),
                    div_tz((tc as int) * s, 2 * r),
                )
            } else if which == 2 {
                Quat::spec_checked(
                    div_tz((ta as int) * s, 2 * r),
                    div_tz((tb as int) * s, 2 * r),
                    div_tz((four as int) * s, 2 * r),
                    div_tz((tc as int) * s, 2 * r),
                )
            } else {
                Quat::spec_checked(
                    div_tz((ta as int) * s, 2 * r),
                    div_tz((tb as int) * s, 2 * r),
                    div_tz((tc as int) * s, 2 * r),
                    div_tz((four as int) * s, 2 * r),
                )
            })
        }),
        q.is_unit(),
{
    proof {
        assert(65536 * 65536 <= (four as int) * (FP_ONE as int) && (four as int) * (FP_ONE as int)
            <= 30064771072 && -34359738368 <= (ta as int) * (FP_ONE as int) <= 34359738368 && -34359738368 <= (
        tb as int) * (FP_ONE as int) <= 34359738368 && -34359738368 <= (tc as int) * (FP_ONE as int)
            <= 34359738368) by (nonlinear_arith)
            requires
                65536 <= four as int <= 458752,
                -524288 <= ta as int <= 524288,
                -524288 <= tb as int <= 524288,
                -524288 <= tc as int <= 524288,
                FP_ONE == 65536,
        ;
    }
    let s2: i128 = (four as i128) * (FP_ONE as i128);
    let r: u64 = isqrt(s2 as u128);
    proof {
        assert(r as int >= 65536) by (nonlinear_arith)
            requires
                (r as int + 1) * (r as int + 1) > s2 as int,
                s2 as int >= 4294967296,
                r as int >= 0,
        ;
        assert((2 * (r as int)) * (8 * (FP_ONE as int)) >= 68719476736) by (nonlinear_arith)
            requires
                r as int >= 65536,
                FP_ONE == 65536,
        ;
        lemma_div_tz_abs_le((four as int) * (FP_ONE as int), 2 * (r as int), 8 * (FP_ONE as int));
        lemma_div_tz_abs_le((ta as int) * (FP_ONE as int), 2 * (r as int), 8 * (FP_ONE as int));
        lemma_div_tz_abs_le((tb as int) * (FP_ONE as int), 2 * (r as int), 8 * (FP_ONE as int));
        lemma_div_tz_abs_le((tc as int) * (FP_ONE as int), 2 * (r as int), 8 * (FP_ONE as int));
    }
    let d0: i128 = div_tz_e((four as i128) * (FP_ONE as i128), 2 * (r as i128));
    let da: i128 = div_tz_e((ta as i128) * (FP_ONE as i128), 2 * (r as i128));
    let db: i128 = div_tz_e((tb as i128) * (FP_ONE as i128), 2 * (r as i128));
    let dc: i128 = div_tz_e((tc as i128) * (FP_ONE as i128), 2 * (r as i128));
    if which == 0 {
        Quat::checked(d0, da, db, dc)
    } else if which == 1 {
        Quat::checked(da, d0, db, dc)
    } else if which == 2 {
        Quat::checked(da, db, d0, dc)
    } else {
        Quat::checked(da, db, dc, d0)
    }
}

} // verus!
