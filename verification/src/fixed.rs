//! Fixed-point scalar arithmetic.
//!
//! Every scalar the library stores is a 16.16 fixed-point number held in an
//! `i64`: the integer `FP_ONE` stands for 1.0. All executable arithmetic is
//! total: wide `i128` intermediates rule out overflow, quotients truncate
//! toward zero (`div_tz`), and coordinates saturate at `COORD_MAX` (`sat`).

use vstd::arithmetic::div_mod::{
    lemma_div_is_ordered, lemma_div_is_ordered_by_denominator, lemma_div_multiples_vanish,
    lemma_div_nonincreasing, lemma_div_pos_is_pos, lemma_fundamental_div_mod,
    lemma_fundamental_div_mod_converse_mod, lemma_mod_multiples_basic,
    lemma_multiply_divide_le,
};
use vstd::prelude::*;

verus! {

/// The scalar 1.0: one world unit, one degree, one second.
pub const FP_ONE: i64 = 65536;

/// The square of `FP_ONE`: the squared norm of an exactly unit quaternion.
pub const FP_SQ: i64 = 4294967296;

/// Largest coordinate magnitude the library stores; additions saturate here.
pub const COORD_MAX: i64 = 140737488355327;

/// pi in 16.16 fixed point, truncated.
pub const PI_FP: i64 = 205887;

/// pi / 2 in 16.16 fixed point.
pub const HALF_PI_FP: i64 = 102943;

/// pi / 4 in 16.16 fixed point.
pub const QUARTER_PI_FP: i64 = 51471;

/// Saturation: clamps a mathematical integer into the coordinate range.
pub open spec fn sat(x: int) -> int {
    if x > COORD_MAX as int {
        COORD_MAX as int
    } else if x < -(COORD_MAX as int) {
        -(COORD_MAX as int)
    } else {
        x
    }
}

/// Quotient truncated toward zero, for a positive divisor.
pub open spec fn div_tz(a: int, b: int) -> int {
    if a >= 0 {
        a / b
    } else {
        -((-a) / b)
    }
}

/// Clamp into a closed interval.
pub open spec fn clamp_spec(x: int, lo: int, hi: int) -> int {
    if x < lo {
        lo
    } else if x > hi {
        hi
    } else {
        x
    }
}

/// Saturates a wide intermediate back into the coordinate range.
pub fn sat_i128(x: i128) -> (r: i64)
    ensures
        r as int == sat(x as int),
        -COORD_MAX <= r <= COORD_MAX,
{
    if x > COORD_MAX as i128 {
        COORD_MAX
    } else if x < -(COORD_MAX as i128) {
        -COORD_MAX
    } else {
        x as i64
    }
}

/// Truncating division of wide intermediates by a positive divisor.
pub fn div_tz_e(a: i128, b: i128) -> (q: i128)
    requires
        b > 0,
        i128::MIN < a,
    ensures
        q as int == div_tz(a as int, b as int),
{
    if a >= 0 {
        let q: u128 = (a as u128) / (b as u128);
        proof {
            lemma_div_nonincreasing(a as int, b as int);
            lemma_div_pos_is_pos(a as int, b as int);
        }
        q as i128
    } else {
        let n: u128 = (-a) as u128;
        let m: u128 = n / (b as u128);
        proof {
            lemma_div_nonincreasing(n as int, b as int);
            lemma_div_pos_is_pos(n as int, b as int);
        }
        -(m as i128)
    }
}

/// Euclidean remainder: the result always lies in `[0, m)`.
pub fn rem_fp(a: i64, m: i64) -> (r: i64)
    requires
        0 < m,
    ensures
        r as int == (a as int) % (m as int),
        0 <= r < m,
{
    if a >= 0 {
        ((a as u64) % (m as u64)) as i64
    } else {
        let n: u128 = (-(a as i128)) as u128;
        let k: u128 = n % (m as u128);
        proof {
            let ai = a as int;
            let mi = m as int;
            let ni = n as int;
            lemma_fundamental_div_mod(ni, mi);
            let q = ni / mi;
            let ki = ni % mi;
            assert(ni == -ai);
            assert(mi * (-q) == -(mi * q)) by (nonlinear_arith);
            assert(ai == mi * (-q) - ki);
            if ki == 0 {
                lemma_fundamental_div_mod_converse_mod(ai, mi, -q, 0);
            } else {
                assert(mi * (-q - 1) == -(mi * q) - mi) by (nonlinear_arith);
                assert(ai == mi * (-q - 1) + (mi - ki));
                lemma_fundamental_div_mod_converse_mod(ai, mi, -q - 1, mi - ki);
            }
        }
        if k == 0 {
            0
        } else {
            m - (k as i64)
        }
    }
}

/// Euclidean remainder on a wide intermediate: the result lies in `[0, m)`.
pub fn rem_fp_wide(a: i128, m: i64) -> (r: i64)
    requires
        0 < m,
        i128::MIN < a,
    ensures
        r as int == (a as int) % (m as int),
        0 <= r < m,
{
    if a >= 0 {
        ((a as u128) % (m as u128)) as i64
    } else {
        let n: u128 = (-a) as u128;
        let k: u128 = n % (m as u128);
        proof {
            let ai = a as int;
            let mi = m as int;
            let ni = n as int;
            lemma_fundamental_div_mod(ni, mi);
            let q = ni / mi;
            let ki = ni % mi;
            assert(ni == -ai);
            assert(mi * (-q) == -(mi * q)) by (nonlinear_arith);
            assert(ai == mi * (-q) - ki);
            if ki == 0 {
                lemma_fundamental_div_mod_converse_mod(ai, mi, -q, 0);
            } else {
                assert(mi * (-q - 1) == -(mi * q) - mi) by (nonlinear_arith);
                assert(ai == mi * (-q - 1) + (mi - ki));
                lemma_fundamental_div_mod_converse_mod(ai, mi, -q - 1, mi - ki);
            }
        }
        if k == 0 {
            0
        } else {
            m - (k as i64)
        }
    }
}

/// Clamp a wide intermediate into a closed `i64` interval.
pub fn clamp_e(x: i128, lo: i64, hi: i64) -> (r: i64)
    requires
        lo <= hi,
    ensures
        r as int == clamp_spec(x as int, lo as int, hi as int),
        lo <= r <= hi,
{
    if x < lo as i128 {
        lo
    } else if x > hi as i128 {
        hi
    } else {
        x as i64
    }
}

/// A truncating quotient of a nonnegative dividend stays within a bound that
/// the dividend satisfies multiplicatively.
pub proof fn lemma_div_tz_le(a: int, b: int, bound: int)
    requires
        b > 0,
        0 <= a,
        a <= b * bound,
    ensures
        0 <= div_tz(a, b) <= bound,
{
    lemma_div_pos_is_pos(a, b);
    lemma_multiply_divide_le(a, b, bound);
}

/// Magnitude bound for the truncating quotient, both signs.
pub proof fn lemma_div_tz_abs_le(a: int, b: int, bound: int)
    requires
        b > 0,
        0 <= bound,
        -(b * bound) <= a <= b * bound,
    ensures
        -bound <= div_tz(a, b) <= bound,
{
    if a >= 0 {
        lemma_div_tz_le(a, b, bound);
    } else {
        lemma_div_tz_le(-a, b, bound);
    }
}

/// `FP_ONE * FP_ONE` evaluates to `FP_SQ`.
pub proof fn lemma_fp_one_sq()
    ensures
        (FP_ONE as int) * (FP_ONE as int) == FP_SQ as int,
{
    assert((65536 as int) * (65536 as int) == 4294967296) by (nonlinear_arith);
}

/// A truncating quotient never exceeds the dividend in magnitude.
pub proof fn lemma_div_tz_mag(a: int, b: int, abound: int)
    requires
        b >= 1,
        -abound <= a <= abound,
    ensures
        -abound <= div_tz(a, b) <= abound,
{
    if a >= 0 {
        lemma_div_pos_is_pos(a, b);
        lemma_div_nonincreasing(a, b);
    } else {
        lemma_div_pos_is_pos(-a, b);
        lemma_div_nonincreasing(-a, b);
    }
}

/// Exact division of a multiple: `(a * b) / b == a`, truncating or not.
pub proof fn lemma_div_tz_mul_exact(a: int, b: int)
    requires
        b > 0,
    ensures
        div_tz(a * b, b) == a,
{
    if a >= 0 {
        lemma_div_multiples_vanish(a, b);
        assert(a * b == b * a) by (nonlinear_arith);
    } else {
        lemma_div_multiples_vanish(-a, b);
        assert(-(a * b) == b * (-a)) by (nonlinear_arith);
    }
}

/// Truncating division of nonnegative values is monotone in the dividend.
pub proof fn lemma_div_tz_ordered(a1: int, a2: int, b: int)
    requires
        b > 0,
        0 <= a1 <= a2,
    ensures
        div_tz(a1, b) <= div_tz(a2, b),
{
    lemma_div_is_ordered(a1, a2, b);
}

/// Linear interpolation: `a` toward `b` by the fixed-point fraction `t`.
pub open spec fn lerp_fp(a: int, b: int, t: int) -> int {
    sat(a + div_tz((b - a) * t, FP_ONE as int))
}

/// Executable linear interpolation of coordinate scalars.
pub fn lerp_fp_e(a: i64, b: i64, t: i64) -> (r: i64)
    requires
        -COORD_MAX <= a <= COORD_MAX,
        -COORD_MAX <= b <= COORD_MAX,
        -FP_ONE <= t <= FP_ONE,
    ensures
        r as int == lerp_fp(a as int, b as int, t as int),
        -COORD_MAX <= r <= COORD_MAX,
{
    let d: i128 = (b as i128) - (a as i128);
    proof {
        assert(-((2 * COORD_MAX as int) * (FP_ONE as int)) <= (d as int) * (t as int) <= (2
            * COORD_MAX as int) * (FP_ONE as int)) by (nonlinear_arith)
            requires
                -(2 * COORD_MAX as int) <= d as int <= 2 * COORD_MAX as int,
                -(FP_ONE as int) <= t as int <= FP_ONE as int,
        ;
        lemma_div_tz_abs_le((d as int) * (t as int), FP_ONE as int, 2 * COORD_MAX as int);
    }
    let m: i128 = div_tz_e(d * (t as i128), FP_ONE as i128);
    sat_i128((a as i128) + m)
}

/// The interpolant stays between its endpoints for `t` in `[0, FP_ONE]`:
/// stepping toward a target never overshoots it, and the endpoints are met
/// exactly at `t == 0` and `t == FP_ONE`.
pub proof fn lemma_lerp_approaches(a: int, b: int, t: int)
    requires
        -COORD_MAX <= a <= COORD_MAX,
        -COORD_MAX <= b <= COORD_MAX,
        0 <= t <= FP_ONE,
    ensures
        a <= b ==> a <= lerp_fp(a, b, t) <= b,
        b <= a ==> b <= lerp_fp(a, b, t) <= a,
        t == 0 ==> lerp_fp(a, b, t) == a,
        t == FP_ONE ==> lerp_fp(a, b, t) == b,
{
    let s = FP_ONE as int;
    let d = b - a;
    let m = div_tz(d * t, s);
    if d >= 0 {
        vstd::arithmetic::mul::lemma_mul_nonnegative(d, t);
        assert(d * t <= d * s) by (nonlinear_arith)
            requires
                d >= 0,
                t <= s,
        ;
        lemma_div_pos_is_pos(d * t, s);
        lemma_div_tz_ordered(d * t, d * s, s);
        lemma_div_tz_mul_exact(d, s);
        assert(0 <= m <= d);
    } else {
        assert(d * t == -((-d) * t) && 0 <= (-d) * t <= (-d) * s) by (nonlinear_arith)
            requires
                d < 0,
                0 <= t <= s,
        ;
        vstd::arithmetic::div_mod::lemma_div_of0(s);
        lemma_div_pos_is_pos((-d) * t, s);
        lemma_div_tz_ordered((-d) * t, (-d) * s, s);
        lemma_div_tz_mul_exact(-d, s);
        assert(d <= m <= 0);
    }
    if t == 0 {
        assert(d * t == 0) by (nonlinear_arith)
            requires
                t == 0,
        ;
        vstd::arithmetic::div_mod::lemma_div_of0(s);
    }
    if t == s {
        lemma_div_tz_mul_exact(d, s);
    }
}

/// Interpolating a value toward itself returns it exactly, for every
/// fraction.
pub proof fn lemma_lerp_self(a: int, t: int)
    requires
        -COORD_MAX <= a <= COORD_MAX,
    ensures
        lerp_fp(a, a, t) == a,
{
    assert((a - a) * t == 0) by (nonlinear_arith);
    vstd::arithmetic::div_mod::lemma_div_of0(FP_ONE as int);
}

/// Product magnitude bound from factor magnitude bounds.
pub proof fn lemma_mul_abs_le(a: int, b: int, la: int, lb: int)
    requires
        -la <= a <= la,
        -lb <= b <= lb,
        0 <= la,
        0 <= lb,
    ensures
        -(la * lb) <= a * b <= la * lb,
{
    assert(-(la * lb) <= a * b <= la * lb) by (nonlinear_arith)
        requires
            -la <= a <= la,
            -lb <= b <= lb,
            0 <= la,
            0 <= lb,
    ;
}

/// A value whose square is below `(n + 1)^2` has magnitude at most `n`.
pub proof fn lemma_abs_le_root(a: int, nsq: int, n: int)
    requires
        a * a <= nsq,
        0 <= n,
        nsq < (n + 1) * (n + 1),
    ensures
        -n <= a <= n,
{
    assert(-n <= a <= n) by (nonlinear_arith)
        requires
            a * a <= nsq,
            0 <= n,
            nsq < (n + 1) * (n + 1),
    ;
}

/// Rescaling a value by `FP_ONE / n` keeps it within one fixed-point unit
/// when its magnitude is at most `n`.
pub proof fn lemma_scaled_div_unit(a: int, n: int)
    requires
        -n <= a <= n,
        n >= 1,
    ensures
        -(FP_ONE as int) <= div_tz(a * FP_ONE, n) <= FP_ONE as int,
{
    assert(-(n * (FP_ONE as int)) <= a * FP_ONE <= n * (FP_ONE as int)) by (nonlinear_arith)
        requires
            -n <= a <= n,
    ;
    lemma_div_tz_abs_le(a * FP_ONE, n, FP_ONE as int);
}

/// Integer square root, defined by counting up.
pub open spec fn isqrt_spec(n: int) -> int
    decreases n,
{
    if n <= 0 {
        0
    } else {
        let p = isqrt_spec(n - 1);
        if (p + 1) * (p + 1) <= n {
            p + 1
        } else {
            p
        }
    }
}

/// The integer square root brackets its argument between consecutive squares.
pub proof fn lemma_isqrt_spec_bracket(n: int)
    requires
        n >= 0,
    ensures
        0 <= isqrt_spec(n),
        isqrt_spec(n) * isqrt_spec(n) <= n,
        n < (isqrt_spec(n) + 1) * (isqrt_spec(n) + 1),
    decreases n,
{
    if n == 0 {
    } else {
        lemma_isqrt_spec_bracket(n - 1);
        let p = isqrt_spec(n - 1);
        if (p + 1) * (p + 1) <= n {
            assert((p + 2) * (p + 2) > (p + 1) * (p + 1)) by (nonlinear_arith)
                requires
                    p >= 0,
            ;
            assert(n - 1 < (p + 1) * (p + 1));
        }
    }
}

/// Any value bracketed between consecutive squares is the integer square root.
pub proof fn lemma_isqrt_unique(n: int, r: int)
    requires
        n >= 0,
        r >= 0,
        r * r <= n,
        n < (r + 1) * (r + 1),
    ensures
        r == isqrt_spec(n),
{
    lemma_isqrt_spec_bracket(n);
    let s = isqrt_spec(n);
    if r < s {
        assert((r + 1) * (r + 1) <= s * s) by (nonlinear_arith)
            requires
                0 <= r + 1 <= s,
        ;
    }
    if s < r {
        assert((s + 1) * (s + 1) <= r * r) by (nonlinear_arith)
            requires
                0 <= s + 1 <= r,
        ;
    }
}

/// Executable integer square root by bisection.
pub fn isqrt(n: u128) -> (r: u64)
    ensures
        r as int == isqrt_spec(n as int),
        (r as int) * (r as int) <= n as int,
        (n as int) < (r as int + 1) * (r as int + 1),
{
    let mut lo: u128 = 0;
    let mut hi: u128 = 0x1_0000_0000_0000_0000;
    proof {
        assert((n as int) < (hi as int) * (hi as int)) by (nonlinear_arith)
            requires
                n <= u128::MAX,
                hi == 0x1_0000_0000_0000_0000u128,
        ;
    }
    while hi - lo > 1
        invariant
            lo < hi <= 0x1_0000_0000_0000_0000u128,
            (lo as int) * (lo as int) <= n as int,
            (n as int) < (hi as int) * (hi as int),
        decreases hi - lo,
    {
        let mid: u128 = lo + (hi - lo) / 2;
        proof {
            assert((mid as int) * (mid as int) <= (0xFFFF_FFFF_FFFF_FFFFu128 as int) * (
            0xFFFF_FFFF_FFFF_FFFFu128 as int)) by (nonlinear_arith)
                requires
                    0 <= mid as int <= 0xFFFF_FFFF_FFFF_FFFFu128 as int,
            ;
        }
        if mid * mid <= n {
            lo = mid;
        } else {
            hi = mid;
        }
    }
    proof {
        lemma_isqrt_unique(n as int, lo as int);
    }
    lo as u64
}

} // verus!
