//! Time-domain resampling.
//!
//! Between the previous modeled time and a new input's time the pipeline
//! inserts evenly spread sub-step times, enough that consecutive outputs are
//! never further apart than `1 / min_output_rate`, and never more than
//! `max_outputs_per_call` of them.

use vstd::prelude::*;
use crate::fixed::TIME_MAX;
use vstd::arithmetic::div_mod::{
    lemma_fundamental_div_mod,
    lemma_mod_bound,
    lemma_div_is_ordered,
    lemma_div_by_multiple,
    lemma_div_pos_is_pos,
    lemma_div_non_zero,
    lemma_multiply_divide_lt,
};

verus! {

/// Ceiling of `delta / interval`, for a nonnegative `delta`.
pub open spec fn ceil_div(delta: int, interval: int) -> int {
    (delta + interval - 1) / interval
}

/// How many sub-steps one accepted input produces: the number needed to keep
/// the spacing at most `interval`, but at least one and at most `cap`.
pub open spec fn n_steps_spec(delta: int, interval: int, cap: int) -> int {
    if ceil_div(delta, interval) <= 0 {
        1
    } else if ceil_div(delta, interval) > cap {
        cap
    } else {
        ceil_div(delta, interval)
    }
}

/// The `k`-th of `n` proportionally spread offsets across `delta`.
pub open spec fn step_offset(delta: int, n: int, k: int) -> int {
    (delta * k) / n
}

/// The ceiling bound: `delta` never exceeds `ceil_div(delta, interval)`
/// intervals.
proof fn lemma_ceil_bounds(delta: int, interval: int)
    requires
        0 <= delta,
        1 <= interval,
    ensures
        delta <= ceil_div(delta, interval) * interval,
        0 <= ceil_div(delta, interval),
        1 <= delta ==> 1 <= ceil_div(delta, interval),
{
    let x = delta + interval - 1;
    lemma_fundamental_div_mod(x, interval);
    lemma_mod_bound(x, interval);
    lemma_div_pos_is_pos(x, interval);
    if delta >= 1 {
        lemma_div_non_zero(x, interval);
    }
    let c = x / interval;
    assert(delta <= c * interval) by (nonlinear_arith)
        requires
            x == interval * c + x % interval,
            0 <= x % interval < interval,
            x == delta + interval - 1,
    ;
}

/// Consecutive proportional offsets are ordered and at most `ceil_div(delta, n)`
/// apart.
proof fn lemma_offset_gap(delta: int, n: int, k: int)
    requires
        0 <= delta,
        1 <= n,
        0 <= k,
    ensures
        step_offset(delta, n, k) <= step_offset(delta, n, k + 1),
        step_offset(delta, n, k + 1) - step_offset(delta, n, k) <= ceil_div(delta, n),
{
    let a = delta * k;
    let b = delta * (k + 1);
    assert(b == a + delta && 0 <= a) by (nonlinear_arith)
        requires
            0 <= delta,
            0 <= k,
            a == delta * k,
            b == delta * (k + 1),
    ;
    lemma_fundamental_div_mod(a, n);
    lemma_fundamental_div_mod(b, n);
    lemma_mod_bound(a, n);
    lemma_mod_bound(b, n);
    lemma_div_is_ordered(a, b, n);
    let g = b / n - a / n;
    assert(n * g == delta + a % n - b % n) by (nonlinear_arith)
        requires
            a == n * (a / n) + a % n,
            b == n * (b / n) + b % n,
            b == a + delta,
            g == b / n - a / n,
    ;
    assert(g * n <= delta + n - 1) by (nonlinear_arith)
        requires
            n * g == delta + a % n - b % n,
            0 <= a % n < n,
            0 <= b % n < n,
            1 <= n,
    ;
    lemma_div_is_ordered(g * n, delta + n - 1, n);
    lemma_div_by_multiple(g, n);
}

/// When `delta` fits in `n` intervals, the proportional spacing is at most
/// one interval.
proof fn lemma_gap_le_interval(delta: int, n: int, interval: int)
    requires
        0 <= delta,
        1 <= n,
        1 <= interval,
        delta <= n * interval,
    ensures
        ceil_div(delta, n) <= interval,
{
    assert(delta + n - 1 < n * (interval + 1)) by (nonlinear_arith)
        requires
            delta <= n * interval,
            1 <= n,
    ;
    lemma_multiply_divide_lt(delta + n - 1, n, interval + 1);
}

/// The last of `n` proportional offsets lands exactly on `delta`.
proof fn lemma_offset_full(delta: int, n: int)
    requires
        0 <= delta,
        1 <= n,
    ensures
        step_offset(delta, n, n) == delta,
{
    assert(delta * n == n * delta) by (nonlinear_arith);
    lemma_div_by_multiple(delta, n);
}

/// Every offset lies in `[0, delta]`.
proof fn lemma_offset_range(delta: int, n: int, k: int)
    requires
        0 <= delta,
        1 <= n,
        0 <= k <= n,
    ensures
        0 <= step_offset(delta, n, k) <= delta,
{
    assert(0 <= delta * k <= delta * n) by (nonlinear_arith)
        requires
            0 <= delta,
            0 <= k <= n,
    ;
    lemma_div_pos_is_pos(delta * k, n);
    lemma_div_is_ordered(delta * k, delta * n, n);
    lemma_offset_full(delta, n);
}

/// The ordered sub-step times between `t_prev` (exclusive) and `t_new`
/// (inclusive): proportionally spread, ending exactly at `t_new`, spaced at
/// most `interval` apart whenever the cap does not truncate the sequence.
pub fn resample_times(t_prev: i64, t_new: i64, interval: i64, cap: i32) -> (r: Vec<i64>)
    requires
        0 <= t_prev <= t_new <= 2 * TIME_MAX,
        1 <= interval <= TIME_MAX,
        1 <= cap <= 1000,
    ensures
        1 <= r@.len() <= cap,
        r@.len() as int == n_steps_spec(t_new - t_prev, interval as int, cap as int),
        forall|j: int|
            0 <= j < r@.len() ==> #[trigger] r@[j] == t_prev + step_offset(
                t_new - t_prev,
                r@.len() as int,
                j + 1,
            ),
        r@[r@.len() - 1] == t_new,
        forall|j: int| 0 <= j < r@.len() ==> t_prev <= #[trigger] r@[j] <= t_new,
        forall|j: int| 0 <= j < r@.len() - 1 ==> #[trigger] r@[j] <= r@[j + 1],
        t_new - t_prev <= cap * interval ==> r@[0] - t_prev <= interval && (forall|j: int|
            0 <= j < r@.len() - 1 ==> r@[j + 1] - #[trigger] r@[j] <= interval),
{
    let delta: u64 = (t_new - t_prev) as u64;
    let iu: u64 = interval as u64;
    let q: u64 = delta / iu;
    let rem: u64 = delta % iu;
    let n0: u64 = if rem == 0 {
        q
    } else {
        q + 1
    };
    proof {
        lemma_fundamental_div_mod(delta as int, iu as int);
        lemma_mod_bound(delta as int, iu as int);
        lemma_div_pos_is_pos(delta as int, iu as int);
        // n0 is exactly the ceiling of delta / interval
        if rem == 0 {
            assert(delta as int + iu - 1 == iu * (q as int) + (iu - 1)) by (nonlinear_arith)
                requires
                    delta as int == iu * (q as int) + (delta as int % iu as int),
                    delta as int % iu as int == 0,
            ;
            vstd::arithmetic::div_mod::lemma_div_multiples_vanish_fancy(q as int, iu - 1, iu as int);
        } else {
            assert(delta as int + iu - 1 == iu * (q as int + 1) + (rem as int - 1)) by (nonlinear_arith)
                requires
                    delta as int == iu * (q as int) + rem,
                    1 <= rem < iu,
            ;
            vstd::arithmetic::div_mod::lemma_div_multiples_vanish_fancy(
                q as int + 1,
                rem as int - 1,
                iu as int,
            );
        }
        assert(n0 as int == ceil_div(t_new - t_prev, interval as int));
    }
    let capu: u64 = cap as u64;
    let n: u64 = if n0 == 0 {
        1
    } else if n0 > capu {
        capu
    } else {
        n0
    };
    proof {
        lemma_ceil_bounds(delta as int, iu as int);
    }
    let mut out: Vec<i64> = Vec::new();
    let mut k: u64 = 1;
    while k <= n
        invariant
            1 <= n <= 1000,
            n as int == n_steps_spec(t_new - t_prev, interval as int, cap as int),
            delta as int == t_new - t_prev,
            0 <= t_prev <= t_new <= 2 * TIME_MAX,
            1 <= k <= n + 1,
            out@.len() == k - 1,
            forall|j: int|
                0 <= j < out@.len() ==> #[trigger] out@[j] == t_prev + step_offset(
                    delta as int,
                    n as int,
                    j + 1,
                ),
        decreases n + 1 - k,
    {
        proof {
            assert(delta as int * k as int <= delta as int * n as int
                && 0 <= delta as int * k as int) by (nonlinear_arith)
                requires
                    0 <= delta as int <= 2 * TIME_MAX as int,
                    1 <= k <= n <= 1000,
            ;
            assert(delta as int * n as int <= 2 * TIME_MAX as int * 1000) by (nonlinear_arith)
                requires
                    0 <= delta as int <= 2 * TIME_MAX as int,
                    1 <= n <= 1000,
            ;
            lemma_offset_range(delta as int, n as int, k as int);
        }
        let off: u64 = (delta * k) / n;
        let ti: i64 = t_prev + (off as i64);
        out.push(ti);
        k = k + 1;
    }
    proof {
        let d = delta as int;
        let ni = n as int;
        let len = out@.len() as int;
        assert(len == ni);
        lemma_offset_full(d, ni);
        assert(out@[len - 1] == t_new);
        assert forall|j: int| 0 <= j < len implies t_prev <= #[trigger] out@[j] <= t_new by {
            lemma_offset_range(d, ni, j + 1);
        }
        assert forall|j: int| 0 <= j < len - 1 implies #[trigger] out@[j] <= out@[j + 1] by {
            lemma_offset_gap(d, ni, j + 1);
        }
        if t_new - t_prev <= cap * interval {
            // the cap did not truncate: n is the full ceiling, so the
            // proportional spacing stays within one interval
            assert(d <= ni * interval) by {
                if ceil_div(d, interval as int) > cap as int {
                    assert(d + interval - 1 < interval * (cap as int + 1)) by (nonlinear_arith)
                        requires
                            d <= cap * interval,
                            1 <= interval,
                    ;
                    lemma_multiply_divide_lt(d + interval - 1, interval as int, cap as int + 1);
                    assert(false);
                } else {
                    lemma_ceil_bounds(d, interval as int);
                    if ceil_div(d, interval as int) <= 0 {
                        assert(d == 0);
                    } else {
                        assert(ni == ceil_div(d, interval as int));
                        assert(ceil_div(d, interval as int) * interval == ni * interval)
                            by (nonlinear_arith)
                            requires
                                ni == ceil_div(d, interval as int),
                        ;
                    }
                }
            }
            lemma_gap_le_interval(d, ni, interval as int);
            assert forall|j: int| 0 <= j < len - 1 implies out@[j + 1] - #[trigger] out@[j]
                <= interval by {
                lemma_offset_gap(d, ni, j + 1);
            }
            lemma_offset_gap(d, ni, 0);
            assert(step_offset(d, ni, 0) == 0) by {
                vstd::arithmetic::div_mod::lemma_div_of0(ni);
                assert(d * 0 == 0) by (nonlinear_arith);
            }
        }
    }
    out
}

} // verus!
