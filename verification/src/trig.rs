//! Fixed-point trigonometry on angles in degrees.
//!
//! Angles are 16.16 fixed-point degrees (`FP_ONE` is one degree) unless a
//! name says radians. The sine is a ninth-order polynomial on the first
//! quadrant extended by symmetry; the arctangent is a cubic approximation.
//! Both are exact statements of what the code computes: contracts below pin
//! the returned value to the spec-level polynomial, and the range bounds
//! `[-FP_ONE, FP_ONE]` hold unconditionally.

use crate::fixed::{
    div_tz, div_tz_e, isqrt, isqrt_spec, lemma_div_tz_abs_le, lemma_div_tz_le, rem_fp, FP_ONE,
    HALF_PI_FP, PI_FP, QUARTER_PI_FP,
};
use vstd::arithmetic::mul::{lemma_mul_inequality, lemma_mul_nonnegative, lemma_mul_upper_bound};
use vstd::prelude::*;

verus! {

/// First arctangent correction coefficient, 0.2447 in 16.16 fixed point.
pub const ATAN_C1: i64 = 16037;

/// Second arctangent correction coefficient, 0.0663 in 16.16 fixed point.
pub const ATAN_C2: i64 = 4345;

/// Degrees to radians, both in 16.16 fixed point.
pub open spec fn spec_deg_to_rad(d: int) -> int {
    div_tz(d * PI_FP, 180 * FP_ONE)
}

/// Radians to degrees, both in 16.16 fixed point.
pub open spec fn spec_rad_to_deg(r: int) -> int {
    div_tz(r * (180 * FP_ONE), PI_FP as int)
}

/// Polynomial sine on the first quadrant, `f` in `[0, 90]` degrees.
#[verifier::opaque]
pub open spec fn spec_sin_quarter(f: int) -> int {
    let x = spec_deg_to_rad(f);
    let x2 = div_tz(x * x, FP_ONE as int);
    let h4 = FP_ONE - div_tz(x2, 72);
    let h3 = FP_ONE - div_tz(x2 * h4, 42 * FP_ONE);
    let h2 = FP_ONE - div_tz(x2 * h3, 20 * FP_ONE);
    let h1 = FP_ONE - div_tz(x2 * h2, 6 * FP_ONE);
    let s0 = div_tz(x * h1, FP_ONE as int);
    if s0 > FP_ONE {
        FP_ONE as int
    } else if s0 < -(FP_ONE as int) {
        -(FP_ONE as int)
    } else {
        s0
    }
}

/// Sine of a reduced angle `a` in `[0, 360)` degrees, by quadrant symmetry.
pub open spec fn spec_sin_reduced(a: int) -> int {
    if a <= 90 * FP_ONE {
        spec_sin_quarter(a)
    } else if a <= 180 * FP_ONE {
        spec_sin_quarter(180 * FP_ONE - a)
    } else if a <= 270 * FP_ONE {
        -spec_sin_quarter(a - 180 * FP_ONE)
    } else {
        -spec_sin_quarter(360 * FP_ONE - a)
    }
}

/// Sine of any fixed-point angle in degrees.
pub open spec fn spec_sin(d: int) -> int {
    spec_sin_reduced(d % (360 * FP_ONE))
}

/// Cosine of any fixed-point angle in degrees.
pub open spec fn spec_cos(d: int) -> int {
    spec_sin(d + 90 * FP_ONE)
}

/// Arctangent of a ratio `z` in `[0, FP_ONE]`; result in fixed-point radians.
#[verifier::opaque]
pub open spec fn spec_atan_unit(z: int) -> int {
    let lin = div_tz(z * QUARTER_PI_FP, FP_ONE as int);
    let weight = div_tz(z * (FP_ONE - z), FP_ONE as int);
    let coeff = ATAN_C1 + div_tz(ATAN_C2 * z, FP_ONE as int);
    lin + div_tz(weight * coeff, FP_ONE as int)
}

/// Two-argument arctangent; result in fixed-point radians in `[-pi, pi]`.
pub open spec fn spec_atan2(y: int, x: int) -> int {
    if y == 0 && x == 0 {
        0
    } else {
        let ay = if y < 0 {
            -y
        } else {
            y
        };
        let ax = if x < 0 {
            -x
        } else {
            x
        };
        let base = if ay <= ax {
            spec_atan_unit(div_tz(ay * FP_ONE, ax))
        } else {
            HALF_PI_FP - spec_atan_unit(div_tz(ax * FP_ONE, ay))
        };
        let mag = if x >= 0 {
            base
        } else {
            PI_FP - base
        };
        if y >= 0 {
            mag
        } else {
            -mag
        }
    }
}

/// Arcsine of `v` in `[-FP_ONE, FP_ONE]`; result in fixed-point radians.
pub open spec fn spec_asin(v: int) -> int {
    spec_atan2(v, isqrt_spec(FP_ONE * FP_ONE - v * v))
}

/// Polynomial sine on the first quadrant.
fn sin_quarter(f: i64) -> (s: i64)
    requires
        0 <= f <= 90 * FP_ONE,
    ensures
        s as int == spec_sin_quarter(f as int),
        0 <= s <= FP_ONE,
{
    proof {
        reveal(spec_sin_quarter);
    }
    proof {
        lemma_mul_nonnegative(f as int, PI_FP as int);
        lemma_mul_inequality(f as int, 90 * (FP_ONE as int), PI_FP as int);
        lemma_div_tz_le((f as int) * (PI_FP as int), 180 * (FP_ONE as int), 102944);
    }
    let x: i64 = div_tz_e((f as i128) * (PI_FP as i128), 180 * FP_ONE as i128) as i64;
    proof {
        lemma_mul_nonnegative(x as int, x as int);
        lemma_mul_upper_bound(x as int, 102944, x as int, 102944);
        lemma_div_tz_le((x as int) * (x as int), FP_ONE as int, 162000);
    }
    let x2: i64 = div_tz_e((x as i128) * (x as i128), FP_ONE as i128) as i64;
    proof {
        lemma_div_tz_le(x2 as int, 72, 2251);
    }
    let h4: i64 = FP_ONE - div_tz_e(x2 as i128, 72) as i64;
    proof {
        lemma_mul_nonnegative(x2 as int, h4 as int);
        lemma_mul_upper_bound(x2 as int, 162000, h4 as int, FP_ONE as int);
        lemma_div_tz_le((x2 as int) * (h4 as int), 42 * (FP_ONE as int), 3858);
    }
    let h3: i64 = FP_ONE - div_tz_e((x2 as i128) * (h4 as i128), 42 * FP_ONE as i128) as i64;
    proof {
        lemma_mul_nonnegative(x2 as int, h3 as int);
        lemma_mul_upper_bound(x2 as int, 162000, h3 as int, FP_ONE as int);
        lemma_div_tz_le((x2 as int) * (h3 as int), 20 * (FP_ONE as int), 8101);
    }
    let h2: i64 = FP_ONE - div_tz_e((x2 as i128) * (h3 as i128), 20 * FP_ONE as i128) as i64;
    proof {
        lemma_mul_nonnegative(x2 as int, h2 as int);
        lemma_mul_upper_bound(x2 as int, 162000, h2 as int, FP_ONE as int);
        lemma_div_tz_le((x2 as int) * (h2 as int), 6 * (FP_ONE as int), 27002);
    }
    let h1: i64 = FP_ONE - div_tz_e((x2 as i128) * (h2 as i128), 6 * FP_ONE as i128) as i64;
    proof {
        lemma_mul_nonnegative(x as int, h1 as int);
        lemma_mul_upper_bound(x as int, 102944, h1 as int, FP_ONE as int);
        lemma_div_tz_le((x as int) * (h1 as int), FP_ONE as int, 102944);
    }
    let s0: i64 = div_tz_e((x as i128) * (h1 as i128), FP_ONE as i128) as i64;
    if s0 > FP_ONE {
        FP_ONE
    } else if s0 < -FP_ONE {
        -FP_ONE
    } else {
        s0
    }
}

/// Sine of any fixed-point angle in degrees.
pub fn sin_fp(d: i64) -> (s: i64)
    ensures
        s as int == spec_sin(d as int),
        -FP_ONE <= s <= FP_ONE,
{
    let a: i64 = rem_fp(d, 360 * FP_ONE);
    if a <= 90 * FP_ONE {
        sin_quarter(a)
    } else if a <= 180 * FP_ONE {
        sin_quarter(180 * FP_ONE - a)
    } else if a <= 270 * FP_ONE {
        -sin_quarter(a - 180 * FP_ONE)
    } else {
        -sin_quarter(360 * FP_ONE - a)
    }
}

/// Cosine of any fixed-point angle in degrees.
pub fn cos_fp(d: i64) -> (c: i64)
    ensures
        c as int == spec_cos(d as int),
        -FP_ONE <= c <= FP_ONE,
{
    let a: i64 = rem_fp(d, 360 * FP_ONE);
    proof {
        let m = 360 * (FP_ONE as int);
        vstd::arithmetic::div_mod::lemma_add_mod_noop(d as int, 90 * (FP_ONE as int), m);
        vstd::arithmetic::div_mod::lemma_add_mod_noop(a as int, 90 * (FP_ONE as int), m);
        vstd::arithmetic::div_mod::lemma_small_mod((a as int) as nat, m as nat);
        assert((a as int + 90 * (FP_ONE as int)) % m == (d as int + 90 * (FP_ONE as int)) % m);
    }
    let b: i64 = rem_fp(a + 90 * FP_ONE, 360 * FP_ONE);
    if b <= 90 * FP_ONE {
        sin_quarter(b)
    } else if b <= 180 * FP_ONE {
        sin_quarter(180 * FP_ONE - b)
    } else if b <= 270 * FP_ONE {
        -sin_quarter(b - 180 * FP_ONE)
    } else {
        -sin_quarter(360 * FP_ONE - b)
    }
}

/// Arctangent of a ratio in `[0, FP_ONE]`.
fn atan_unit(z: i64) -> (r: i64)
    requires
        0 <= z <= FP_ONE,
    ensures
        r as int == spec_atan_unit(z as int),
        0 <= r <= HALF_PI_FP,
{
    proof {
        reveal(spec_atan_unit);
    }
    proof {
        lemma_mul_nonnegative(z as int, QUARTER_PI_FP as int);
        lemma_mul_inequality(z as int, FP_ONE as int, QUARTER_PI_FP as int);
        lemma_div_tz_le((z as int) * (QUARTER_PI_FP as int), FP_ONE as int, QUARTER_PI_FP as int);
    }
    let lin: i64 = div_tz_e((z as i128) * (QUARTER_PI_FP as i128), FP_ONE as i128) as i64;
    proof {
        assert((z as int) * ((FP_ONE - z) as int) <= 16384 * (FP_ONE as int)) by (nonlinear_arith)
            requires
                0 <= z as int <= FP_ONE as int,
        ;
        assert((z as int) * ((FP_ONE - z) as int) >= 0) by (nonlinear_arith)
            requires
                0 <= z as int <= FP_ONE as int,
        ;
        lemma_div_tz_le((z as int) * ((FP_ONE - z) as int), FP_ONE as int, 16384);
    }
    let weight: i64 = div_tz_e((z as i128) * ((FP_ONE - z) as i128), FP_ONE as i128) as i64;
    proof {
        lemma_mul_nonnegative(z as int, ATAN_C2 as int);
        lemma_mul_inequality(z as int, FP_ONE as int, ATAN_C2 as int);
        assert((ATAN_C2 as int) * (z as int) == (z as int) * (ATAN_C2 as int)) by (nonlinear_arith);
        lemma_div_tz_le((ATAN_C2 as int) * (z as int), FP_ONE as int, ATAN_C2 as int);
    }
    let coeff: i64 = ATAN_C1 + div_tz_e((ATAN_C2 as i128) * (z as i128), FP_ONE as i128) as i64;
    proof {
        lemma_mul_nonnegative(weight as int, coeff as int);
        lemma_mul_upper_bound(weight as int, 16384, coeff as int, 20382);
        lemma_div_tz_le((weight as int) * (coeff as int), FP_ONE as int, 5096);
    }
    lin + div_tz_e((weight as i128) * (coeff as i128), FP_ONE as i128) as i64
}

/// Two-argument arctangent over fixed-point inputs of moderate magnitude.
pub fn atan2_fp(y: i64, x: i64) -> (r: i64)
    requires
        -8 * FP_ONE <= y <= 8 * FP_ONE,
        -8 * FP_ONE <= x <= 8 * FP_ONE,
    ensures
        r as int == spec_atan2(y as int, x as int),
        -PI_FP <= r <= PI_FP,
{
    if y == 0 && x == 0 {
        return 0;
    }
    let ay: i64 = if y < 0 {
        -y
    } else {
        y
    };
    let ax: i64 = if x < 0 {
        -x
    } else {
        x
    };
    let base: i64 = if ay <= ax {
        proof {
            lemma_mul_nonnegative(ay as int, FP_ONE as int);
            lemma_mul_inequality(ay as int, ax as int, FP_ONE as int);
            lemma_div_tz_le((ay as int) * (FP_ONE as int), ax as int, FP_ONE as int);
        }
        let z: i64 = div_tz_e((ay as i128) * (FP_ONE as i128), ax as i128) as i64;
        atan_unit(z)
    } else {
        proof {
            lemma_mul_nonnegative(ax as int, FP_ONE as int);
            lemma_mul_inequality(ax as int, ay as int, FP_ONE as int);
            lemma_div_tz_le((ax as int) * (FP_ONE as int), ay as int, FP_ONE as int);
        }
        let z: i64 = div_tz_e((ax as i128) * (FP_ONE as i128), ay as i128) as i64;
        HALF_PI_FP - atan_unit(z)
    };
    let mag: i64 = if x >= 0 {
        base
    } else {
        PI_FP - base
    };
    if y >= 0 {
        mag
    } else {
        -mag
    }
}

/// Arcsine over `[-FP_ONE, FP_ONE]`.
pub fn asin_fp(v: i64) -> (r: i64)
    requires
        -FP_ONE <= v <= FP_ONE,
    ensures
        r as int == spec_asin(v as int),
        -PI_FP <= r <= PI_FP,
{
    proof {
        assert(0 <= (v as int) * (v as int) <= (FP_ONE as int) * (FP_ONE as int))
            by (nonlinear_arith)
            requires
                -(FP_ONE as int) <= v as int <= FP_ONE as int,
        ;
    }
    let vv: i128 = (v as i128) * (v as i128);
    let c128: u128 = ((FP_ONE as i128) * (FP_ONE as i128) - vv) as u128;
    let c: u64 = isqrt(c128);
    proof {
        assert(c as int <= FP_ONE as int) by (nonlinear_arith)
            requires
                (c as int) * (c as int) <= (FP_ONE as int) * (FP_ONE as int),
                c as int >= 0,
        ;
    }
    atan2_fp(v, c as i64)
}

/// Radians to degrees on bounded fixed-point input.
pub fn rad_to_deg_fp(r: i64) -> (d: i64)
    requires
        -PI_FP <= r <= PI_FP,
    ensures
        d as int == spec_rad_to_deg(r as int),
        -180 * FP_ONE <= d <= 180 * FP_ONE,
{
    proof {
        let s180 = 180 * (FP_ONE as int);
        lemma_mul_inequality(r as int, PI_FP as int, s180);
        lemma_mul_inequality(-(PI_FP as int), r as int, s180);
        assert((-(PI_FP as int)) * s180 == -((PI_FP as int) * s180)) by (nonlinear_arith);
        lemma_div_tz_abs_le((r as int) * s180, PI_FP as int, s180);
    }
    div_tz_e((r as i128) * (180 * FP_ONE as i128), PI_FP as i128) as i64
}

} // verus!
