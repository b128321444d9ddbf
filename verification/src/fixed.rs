//! Fixed-point arithmetic for the stroke modeling pipeline.
//!
//! Every physical quantity in this crate (position, time, speed, pressure,
//! dimensionless weight) is an `i64` counted in units of `1/FP`.  All
//! operations saturate at `±LIM`, far outside any realistic ink coordinate
//! range, so that every intermediate value provably fits in the machine
//! integers; within `±LIM` the arithmetic is exact.

use vstd::prelude::*;

verus! {

/// Scale of the fixed-point representation: one unit is `FP` ticks.
pub const FP: i64 = 1_000_000;

/// Saturation bound of the modeled state (2^50 ticks, about 10^9 units).
pub const LIM: i64 = 1_125_899_906_842_624;

/// Largest admissible time stamp, in ticks of a second (2^40, ~12 days).
pub const TIME_MAX: i64 = 1_099_511_627_776;

/// Largest admissible input coordinate or stylus value magnitude (2^30 ticks).
pub const COORD_MAX: i64 = 1_073_741_824;

/// Clamp a mathematical integer into the representable band `[-LIM, LIM]`.
pub open spec fn sat(x: int) -> int {
    if x > LIM as int {
        LIM as int
    } else if x < -(LIM as int) {
        -(LIM as int)
    } else {
        x
    }
}

/// Division truncated toward zero, as the executable code computes it.
pub open spec fn tdiv(a: int, b: int) -> int {
    if a >= 0 {
        a / b
    } else {
        -((-a) / b)
    }
}

/// Saturating sum of two in-band values.
pub open spec fn fxs_add(a: int, b: int) -> int {
    sat(a + b)
}

/// Saturating difference of two in-band values.
pub open spec fn fxs_sub(a: int, b: int) -> int {
    sat(a - b)
}

/// Saturating fixed-point product: `a * b` rescaled by `FP`.
pub open spec fn fxs_mul(a: int, b: int) -> int {
    sat(tdiv(a * b, FP as int))
}

/// Saturating fixed-point quotient: `a / b` rescaled by `FP`.
pub open spec fn fxs_div(a: int, b: int) -> int {
    sat(tdiv(a * FP as int, b))
}

/// Linear interpolation from `a` to `b` by the ratio `num / den`.
pub open spec fn lerp_spec(a: int, b: int, num: int, den: int) -> int {
    a + tdiv((b - a) * num, den)
}

/// Squared Euclidean distance between two in-band points.
pub open spec fn dist2_spec(ax: int, ay: int, bx: int, by: int) -> int {
    (ax - bx) * (ax - bx) + (ay - by) * (ay - by)
}

/// Magnitude bound of a product, used to keep `i128` intermediates in range.
pub(crate) proof fn lemma_mul_bound(a: int, b: int, ma: int, mb: int)
    by (nonlinear_arith)
    requires
        -ma <= a <= ma,
        -mb <= b <= mb,
        0 <= ma,
        0 <= mb,
    ensures
        -(ma * mb) <= a * b <= ma * mb,
{
}

/// A quotient is no larger in magnitude than `m` when the dividend is at most `m * d`.
pub(crate) proof fn lemma_tdiv_bound(p: int, d: int, m: int)
    requires
        1 <= d,
        0 <= m,
        -(m * d) <= p <= m * d,
    ensures
        -m <= tdiv(p, d) <= m,
{
    if p >= 0 {
        vstd::arithmetic::div_mod::lemma_div_is_ordered(p, m * d, d);
        vstd::arithmetic::div_mod::lemma_div_by_multiple(m, d);
        vstd::arithmetic::div_mod::lemma_div_pos_is_pos(p, d);
    } else {
        vstd::arithmetic::div_mod::lemma_div_is_ordered(-p, m * d, d);
        vstd::arithmetic::div_mod::lemma_div_by_multiple(m, d);
        vstd::arithmetic::div_mod::lemma_div_pos_is_pos(-p, d);
    }
}

/// Truncated division of a (possibly negative) dividend by a positive divisor,
/// saturated into the representable band.
pub(crate) fn div_sat(p: i128, d: i64) -> (r: i64)
    requires
        1 <= d,
        -0x40000000000000000000000000 <= p <= 0x40000000000000000000000000,
    ensures
        r as int == sat(tdiv(p as int, d as int)),
{
    let neg = p < 0;
    let m: u128 = if neg {
        (-p) as u128
    } else {
        p as u128
    };
    let q: u128 = m / (d as u128);
    proof {
        vstd::arithmetic::div_mod::lemma_div_nonincreasing(m as int, d as int);
        vstd::arithmetic::div_mod::lemma_div_pos_is_pos(m as int, d as int);
    }
    let qi: i128 = q as i128;
    let s: i128 = if neg {
        -qi
    } else {
        qi
    };
    sat_i64(s)
}

/// Clamp an `i128` into `[-LIM, LIM]` and narrow it.
fn sat_i64(x: i128) -> (r: i64)
    ensures
        r as int == sat(x as int),
{
    if x > LIM as i128 {
        LIM
    } else if x < -(LIM as i128) {
        -LIM
    } else {
        x as i64
    }
}

/// Saturating addition on in-band values.
pub fn fx_add(a: i64, b: i64) -> (r: i64)
    requires
        -LIM <= a <= LIM,
        -LIM <= b <= LIM,
    ensures
        r as int == fxs_add(a as int, b as int),
        -LIM <= r <= LIM,
{
    sat_i64(a as i128 + b as i128)
}

/// Saturating subtraction on in-band values.
pub fn fx_sub(a: i64, b: i64) -> (r: i64)
    requires
        -LIM <= a <= LIM,
        -LIM <= b <= LIM,
    ensures
        r as int == fxs_sub(a as int, b as int),
        -LIM <= r <= LIM,
{
    sat_i64(a as i128 - b as i128)
}

/// Saturating fixed-point multiplication on in-band values.
pub fn fx_mul(a: i64, b: i64) -> (r: i64)
    requires
        -LIM <= a <= LIM,
        -LIM <= b <= LIM,
    ensures
        r as int == fxs_mul(a as int, b as int),
        -LIM <= r <= LIM,
{
    proof {
        lemma_mul_bound(a as int, b as int, LIM as int, LIM as int);
    }
    let p: i128 = a as i128 * b as i128;
    div_sat(p, FP)
}

/// Saturating fixed-point division of an in-band value by a positive one.
pub fn fx_div(a: i64, b: i64) -> (r: i64)
    requires
        -LIM <= a <= LIM,
        1 <= b <= LIM,
    ensures
        r as int == fxs_div(a as int, b as int),
        -LIM <= r <= LIM,
{
    proof {
        lemma_mul_bound(a as int, FP as int, LIM as int, FP as int);
    }
    let p: i128 = a as i128 * FP as i128;
    div_sat(p, b)
}

/// Integer square root: the exact floor of the square root of `x`.
pub fn isqrt(x: u64) -> (r: u64)
    ensures
        r as int * r as int <= x as int,
        (x as int) < ((r as int) + 1) * ((r as int) + 1),
        r <= 0xFFFF_FFFF,
{
    let mut lo: u64 = 0;
    let mut hi: u64 = 4294967296;
    proof {
        assert((hi as int) * (hi as int) > x as int) by (nonlinear_arith)
            requires
                hi == 4294967296int,
                x < 18446744073709551616int,
        ;
    }
    while lo + 1 < hi
        invariant
            lo < hi <= 4294967296,
            lo as int * lo as int <= x as int,
            (x as int) < (hi as int) * (hi as int),
        decreases hi - lo,
    {
        let mid: u64 = lo + (hi - lo) / 2;
        proof {
            assert((mid as int) * (mid as int) <= 0x10000000000000000int) by (nonlinear_arith)
                requires
                    0 <= mid <= 4294967296int,
            ;
        }
        let sq: u128 = (mid as u128) * (mid as u128);
        if sq <= x as u128 {
            lo = mid;
        } else {
            hi = mid;
        }
    }
    lo
}

/// Linear interpolation between two stylus or coordinate values; exact, and
/// the result always lies between its endpoints.
pub fn lerp_i64(a: i64, b: i64, num: i64, den: i64) -> (r: i64)
    requires
        0 <= num <= den,
        1 <= den <= TIME_MAX,
        -COORD_MAX <= a <= COORD_MAX,
        -COORD_MAX <= b <= COORD_MAX,
    ensures
        r as int == lerp_spec(a as int, b as int, num as int, den as int),
        a <= b ==> a <= r <= b,
        b <= a ==> b <= r <= a,
{
    let diff: i128 = b as i128 - a as i128;
    proof {
        lemma_mul_bound(diff as int, num as int, 2 * COORD_MAX as int, TIME_MAX as int);
    }
    let p: i128 = diff * (num as i128);
    let neg = p < 0;
    let m: u128 = if neg {
        (-p) as u128
    } else {
        p as u128
    };
    let q: u128 = m / (den as u128);
    proof {
        if diff >= 0 {
            assert(0 <= (p as int) <= (diff as int) * (den as int)) by (nonlinear_arith)
                requires
                    0 <= num <= den,
                    0 <= diff,
                    p == diff * (num as i128),
            ;
            lemma_tdiv_bound(p as int, den as int, diff as int);
            vstd::arithmetic::div_mod::lemma_div_pos_is_pos(p as int, den as int);
        } else {
            assert(-((-(diff as int)) * (den as int)) <= (p as int) <= (-(diff as int)) * (
            den as int) && (p as int) <= 0) by (nonlinear_arith)
                requires
                    0 <= num <= den,
                    diff < 0,
                    p == diff * (num as i128),
            ;
            lemma_tdiv_bound(p as int, den as int, -(diff as int));
            vstd::arithmetic::div_mod::lemma_div_pos_is_pos(-(p as int), den as int);
        }
    }
    let qi: i128 = q as i128;
    let s: i128 = if neg {
        -qi
    } else {
        qi
    };
    let r: i64 = (a as i128 + s) as i64;
    r
}

/// Whether two in-band points are within `d` of each other, decided on
/// squared distances so that no square root is needed.
pub fn within_dist(ax: i64, ay: i64, bx: i64, by: i64, d: i64) -> (r: bool)
    requires
        -LIM <= ax <= LIM,
        -LIM <= ay <= LIM,
        -LIM <= bx <= LIM,
        -LIM <= by <= LIM,
        0 <= d <= LIM,
    ensures
        r == (dist2_spec(ax as int, ay as int, bx as int, by as int) <= d as int * d as int),
{
    let dx: i128 = ax as i128 - bx as i128;
    let dy: i128 = ay as i128 - by as i128;
    proof {
        lemma_mul_bound(dx as int, dx as int, 2 * LIM as int, 2 * LIM as int);
        lemma_mul_bound(dy as int, dy as int, 2 * LIM as int, 2 * LIM as int);
        lemma_mul_bound(d as int, d as int, LIM as int, LIM as int);
    }
    let d2: i128 = dx * dx + dy * dy;
    let dd: i128 = (d as i128) * (d as i128);
    d2 <= dd
}

} // verus!
