//! Three-component vectors of fixed-point coordinates.
//!
//! A `Vec3` holds 16.16 fixed-point scalars. Constructors saturate their
//! arguments into the coordinate range, so every vector built through the
//! public operations satisfies [`Vec3::in_range`].

use crate::fixed::{
    div_tz, div_tz_e, isqrt, isqrt_spec, lemma_abs_le_root, lemma_scaled_div_unit, lerp_fp,
    lerp_fp_e, sat, sat_i128, COORD_MAX, FP_ONE,
};
use vstd::prelude::*;

verus! {

/// A vector of three 16.16 fixed-point coordinates.
#[derive(Clone, Copy, Debug, PartialEq, Eq, Structural)]
pub struct Vec3 {
    pub x: i64,
    pub y: i64,
    pub z: i64,
}

impl Vec3 {
    /// All three coordinates lie in the saturation range.
    pub open spec fn in_range(self) -> bool {
        &&& -COORD_MAX <= self.x <= COORD_MAX
    &&& -COORD_MAX <= self.y <= COORD_MAX
    &&& -COORD_MAX <= self.z <= COORD_MAX
    }

    /// The vector with the given coordinates, each saturated.
    pub open spec fn spec_new(x: int, y: int, z: int) -> Vec3 {
        Vec3 { x: sat(x) as i64, y: sat(y) as i64, z: sat(z) as i64 }
    }

    /// Builds a vector, saturating each coordinate.
    pub fn new(x: i64, y: i64, z: i64) -> (v: Vec3)
        ensures
            v == Self::spec_new(x as int, y as int, z as int),
            v.in_range(),
    {
        Vec3 {
            x: sat_i128(x as i128),
            y: sat_i128(y as i128),
            z: sat_i128(z as i128),
        }
    }

    /// The zero vector.
    pub open spec fn spec_zero() -> Vec3 {
        Vec3 { x: 0, y: 0, z: 0 }
    }

    /// Returns the zero vector.
    pub fn zero() -> (v: Vec3)
        ensures
            v == Self::spec_zero(),
            v.in_range(),
    {
        Vec3 { x: 0, y: 0, z: 0 }
    }

    /// Componentwise sum, saturated.
    pub open spec fn spec_add(self, o: Vec3) -> Vec3 {
        Self::spec_new(self.x + o.x, self.y + o.y, self.z + o.z)
    }

    /// Adds two vectors, saturating each coordinate.
    pub fn add(self, o: Vec3) -> (v: Vec3)
        ensures
            v == self.spec_add(o),
            v.in_range(),
    {
        Vec3 {
            x: sat_i128((self.x as i128) + (o.x as i128)),
            y: sat_i128((self.y as i128) + (o.y as i128)),
            z: sat_i128((self.z as i128) + (o.z as i128)),
        }
    }

    /// Componentwise difference, saturated.
    pub open spec fn spec_sub(self, o: Vec3) -> Vec3 {
        Self::spec_new(self.x - o.x, self.y - o.y, self.z - o.z)
    }

    /// Subtracts two vectors, saturating each coordinate.
    pub fn sub(self, o: Vec3) -> (v: Vec3)
        ensures
            v == self.spec_sub(o),
            v.in_range(),
    {
        Vec3 {
            x: sat_i128((self.x as i128) - (o.x as i128)),
            y: sat_i128((self.y as i128) - (o.y as i128)),
            z: sat_i128((self.z as i128) - (o.z as i128)),
        }
    }

    /// Cross product; each fixed-point product is rescaled by `FP_ONE`.
    pub open spec fn spec_cross(self, o: Vec3) -> Vec3 {
        Self::spec_new(
            div_tz(self.y * o.z - self.z * o.y, FP_ONE as int),
            div_tz(self.z * o.x - self.x * o.z, FP_ONE as int),
            div_tz(self.x * o.y - self.y * o.x, FP_ONE as int),
        )
    }

    /// Cross product of two in-range vectors.
    pub fn cross(self, o: Vec3) -> (v: Vec3)
        requires
            self.in_range(),
            o.in_range(),
        ensures
            v == self.spec_cross(o),
            v.in_range(),
    {
        proof {
            lemma_cross_term_bound(self.y as int, o.z as int, self.z as int, o.y as int);
            lemma_cross_term_bound(self.z as int, o.x as int, self.x as int, o.z as int);
            lemma_cross_term_bound(self.x as int, o.y as int, self.y as int, o.x as int);
        }
        let cx: i128 = div_tz_e(
            (self.y as i128) * (o.z as i128) - (self.z as i128) * (o.y as i128),
            FP_ONE as i128,
        );
        let cy: i128 = div_tz_e(
            (self.z as i128) * (o.x as i128) - (self.x as i128) * (o.z as i128),
            FP_ONE as i128,
        );
        let cz: i128 = div_tz_e(
            (self.x as i128) * (o.y as i128) - (self.y as i128) * (o.x as i128),
            FP_ONE as i128,
        );
        Vec3 { x: sat_i128(cx), y: sat_i128(cy), z: sat_i128(cz) }
    }

    /// Squared Euclidean length at scale `FP_ONE * FP_ONE`.
    pub open spec fn spec_norm_sq(self) -> int {
        self.x * self.x + self.y * self.y + self.z * self.z
    }

    /// Squared length of an in-range vector, exactly.
    pub fn norm_sq(self) -> (n: i128)
        requires
            self.in_range(),
        ensures
            n as int == self.spec_norm_sq(),
            n >= 0,
    {
        proof {
            lemma_sq_bound(self.x as int);
            lemma_sq_bound(self.y as int);
            lemma_sq_bound(self.z as int);
        }
        (self.x as i128) * (self.x as i128) + (self.y as i128) * (self.y as i128) + (
        self.z as i128) * (self.z as i128)
    }

    /// The unit-scaled direction of a vector, or `None` for the zero vector.
    pub open spec fn spec_try_normalize(self) -> Option<Vec3> {
        let n = isqrt_spec(self.spec_norm_sq());
        if n == 0 {
            None
        } else {
            Some(
                Vec3 {
                    x: div_tz(self.x * FP_ONE, n) as i64,
                    y: div_tz(self.y * FP_ONE, n) as i64,
                    z: div_tz(self.z * FP_ONE, n) as i64,
                },
            )
        }
    }

    /// Rescales an in-range vector to length `FP_ONE`, within rounding.
    /// Returns `None` exactly when the vector is zero.
    pub fn try_normalize(self) -> (r: Option<Vec3>)
        requires
            self.in_range(),
        ensures
            r == self.spec_try_normalize(),
            r matches Some(u) ==> u.in_range() && -FP_ONE <= u.x <= FP_ONE && -FP_ONE <= u.y
                <= FP_ONE && -FP_ONE <= u.z <= FP_ONE,
            r is None <==> self == Self::spec_zero(),
    {
        let nsq: i128 = self.norm_sq();
        let n: u64 = isqrt(nsq as u128);
        if n == 0 {
            proof {
                lemma_zero_norm(self);
            }
            None
        } else {
            proof {
                lemma_sq_bound(self.x as int);
                lemma_sq_bound(self.y as int);
                lemma_sq_bound(self.z as int);
                lemma_abs_le_root(self.x as int, self.spec_norm_sq(), n as int);
                lemma_abs_le_root(self.y as int, self.spec_norm_sq(), n as int);
                lemma_abs_le_root(self.z as int, self.spec_norm_sq(), n as int);
                lemma_scaled_div_unit(self.x as int, n as int);
                lemma_scaled_div_unit(self.y as int, n as int);
                lemma_scaled_div_unit(self.z as int, n as int);
                lemma_zero_norm(self);
            }
            Some(
                Vec3 {
                    x: div_tz_e((self.x as i128) * (FP_ONE as i128), n as i128) as i64,
                    y: div_tz_e((self.y as i128) * (FP_ONE as i128), n as i128) as i64,
                    z: div_tz_e((self.z as i128) * (FP_ONE as i128), n as i128) as i64,
                },
            )
        }
    }

    /// Negation.
    pub open spec fn spec_neg(self) -> Vec3 {
        Vec3 { x: (-self.x) as i64, y: (-self.y) as i64, z: (-self.z) as i64 }
    }

    /// Negates an in-range vector.
    pub fn neg(self) -> (v: Vec3)
        requires
            self.in_range(),
        ensures
            v == self.spec_neg(),
            v.in_range(),
    {
        Vec3 { x: -self.x, y: -self.y, z: -self.z }
    }

    /// Componentwise linear interpolation toward `o` by the fraction `t`.
    pub open spec fn spec_lerp(self, o: Vec3, t: int) -> Vec3 {
        Vec3 {
            x: lerp_fp(self.x as int, o.x as int, t) as i64,
            y: lerp_fp(self.y as int, o.y as int, t) as i64,
            z: lerp_fp(self.z as int, o.z as int, t) as i64,
        }
    }

    /// Interpolates two in-range vectors.
    pub fn lerp(self, o: Vec3, t: i64) -> (v: Vec3)
        requires
            self.in_range(),
            o.in_range(),
            -FP_ONE <= t <= FP_ONE,
        ensures
            v == self.spec_lerp(o, t as int),
            v.in_range(),
    {
        Vec3 {
            x: lerp_fp_e(self.x, o.x, t),
            y: lerp_fp_e(self.y, o.y, t),
            z: lerp_fp_e(self.z, o.z, t),
        }
    }
}

/// The cross product of two vectors of unit-bounded coordinates has
/// coordinates within two units.
pub proof fn lemma_cross_unit_bound(a: Vec3, b: Vec3)
    requires
        -FP_ONE <= a.x <= FP_ONE,
        -FP_ONE <= a.y <= FP_ONE,
        -FP_ONE <= a.z <= FP_ONE,
        -FP_ONE <= b.x <= FP_ONE,
        -FP_ONE <= b.y <= FP_ONE,
        -FP_ONE <= b.z <= FP_ONE,
    ensures
        -2 * FP_ONE <= a.spec_cross(b).x <= 2 * FP_ONE,
        -2 * FP_ONE <= a.spec_cross(b).y <= 2 * FP_ONE,
        -2 * FP_ONE <= a.spec_cross(b).z <= 2 * FP_ONE,
{
    assert(-4294967296 <= a.y * b.z <= 4294967296 && -4294967296 <= a.z * b.y <= 4294967296
        && -4294967296 <= a.z * b.x <= 4294967296 && -4294967296 <= a.x * b.z <= 4294967296
        && -4294967296 <= a.x * b.y <= 4294967296 && -4294967296 <= a.y * b.x <= 4294967296)
        by (nonlinear_arith)
        requires
            -65536 <= a.x <= 65536,
            -65536 <= a.y <= 65536,
            -65536 <= a.z <= 65536,
            -65536 <= b.x <= 65536,
            -65536 <= b.y <= 65536,
            -65536 <= b.z <= 65536,
    ;
    assert((65536 as int) * (2 * 65536) == 8589934592) by (nonlinear_arith);
    crate::fixed::lemma_div_tz_abs_le(a.y * b.z - a.z * b.y, FP_ONE as int, 2 * (FP_ONE as int));
    crate::fixed::lemma_div_tz_abs_le(a.z * b.x - a.x * b.z, FP_ONE as int, 2 * (FP_ONE as int));
    crate::fixed::lemma_div_tz_abs_le(a.x * b.y - a.y * b.x, FP_ONE as int, 2 * (FP_ONE as int));
}

/// Cross-product terms of in-range coordinates stay far inside `i128`.
proof fn lemma_cross_term_bound(a: int, b: int, c: int, d: int)
    requires
        -COORD_MAX <= a <= COORD_MAX,
        -COORD_MAX <= b <= COORD_MAX,
        -COORD_MAX <= c <= COORD_MAX,
        -COORD_MAX <= d <= COORD_MAX,
    ensures
        -((COORD_MAX as int) * (COORD_MAX as int)) <= a * b <= (COORD_MAX as int) * (
        COORD_MAX as int),
        -((COORD_MAX as int) * (COORD_MAX as int)) <= c * d <= (COORD_MAX as int) * (
        COORD_MAX as int),
        -(2 * (COORD_MAX as int) * (COORD_MAX as int)) <= a * b - c * d <= 2 * (COORD_MAX as int)
            * (COORD_MAX as int),
{
    assert(-((COORD_MAX as int) * (COORD_MAX as int)) <= a * b <= (COORD_MAX as int) * (
    COORD_MAX as int)) by (nonlinear_arith)
        requires
            -COORD_MAX <= a <= COORD_MAX,
            -COORD_MAX <= b <= COORD_MAX,
    ;
    assert(-((COORD_MAX as int) * (COORD_MAX as int)) <= c * d <= (COORD_MAX as int) * (
    COORD_MAX as int)) by (nonlinear_arith)
        requires
            -COORD_MAX <= c <= COORD_MAX,
            -COORD_MAX <= d <= COORD_MAX,
    ;
}

/// The square of an in-range coordinate is small and nonnegative.
proof fn lemma_sq_bound(a: int)
    requires
        -COORD_MAX <= a <= COORD_MAX,
    ensures
        0 <= a * a <= (COORD_MAX as int) * (COORD_MAX as int),
{
    assert(0 <= a * a <= (COORD_MAX as int) * (COORD_MAX as int)) by (nonlinear_arith)
        requires
            -COORD_MAX <= a <= COORD_MAX,
    ;
}

/// A vector has integer square root zero exactly when it is the zero vector.
proof fn lemma_zero_norm(v: Vec3)
    requires
        v.in_range(),
    ensures
        (isqrt_spec(v.spec_norm_sq()) == 0) <==> (v == Vec3::spec_zero()),
{
    lemma_sq_bound(v.x as int);
    lemma_sq_bound(v.y as int);
    lemma_sq_bound(v.z as int);
    crate::fixed::lemma_isqrt_spec_bracket(v.spec_norm_sq());
    let n = isqrt_spec(v.spec_norm_sq());
    if n == 0 {
        assert((n + 1) * (n + 1) == 1) by (nonlinear_arith)
            requires
                n == 0,
        ;
        assert(v.spec_norm_sq() < 1);
        assert(v.x * v.x == 0 ==> v.x == 0) by (nonlinear_arith);
        assert(v.y * v.y == 0 ==> v.y == 0) by (nonlinear_arith);
        assert(v.z * v.z == 0 ==> v.z == 0) by (nonlinear_arith);
    }
}

} // verus!
