//! The wobble smoother: removes low-speed positional jitter.
//!
//! It keeps the raw samples of a trailing time window and, for each new raw
//! position, blends that position with the window's average position.  The
//! blend weight comes from the window's average speed: at or below
//! `speed_floor` the sample is fully smoothed (weight 0), at or above
//! `speed_ceiling` it passes through unchanged (weight `FP`), and the weight
//! is interpolated linearly in between.  The very first sample of a stroke
//! has no history and is emitted unsmoothed.

use vstd::prelude::*;
use crate::fixed::{
    FP,
    LIM,
    TIME_MAX,
    COORD_MAX,
    tdiv,
    fxs_add,
    fxs_mul,
    fxs_div,
    dist2_spec,
    fx_add,
    fx_mul,
    fx_div,
    isqrt,
};

verus! {

/// The window additionally holds at most this many entries, so that the
/// moving averages stay within machine range.
pub const WOBBLE_WINDOW_CAP: usize = 100_000;

/// One entry of the smoothing window: a raw position, its time, and the
/// instantaneous speed at which the pointer arrived there.
#[derive(Debug, Clone, Copy, PartialEq, Eq)]
pub struct WobbleSample {
    pub time: i64,
    pub x: i64,
    pub y: i64,
    pub speed: i64,
}

impl WobbleSample {
    pub open spec fn wf(self) -> bool {
        &&& 0 <= self.time <= TIME_MAX
        &&& -COORD_MAX <= self.x <= COORD_MAX
        &&& -COORD_MAX <= self.y <= COORD_MAX
        &&& 0 <= self.speed <= LIM
    }
}

/// Sum of the window's x coordinates.
pub open spec fn sum_x(s: Seq<WobbleSample>) -> int
    decreases s.len(),
{
    if s.len() == 0 {
        0
    } else {
        sum_x(s.drop_last()) + s.last().x
    }
}

/// Sum of the window's y coordinates.
pub open spec fn sum_y(s: Seq<WobbleSample>) -> int
    decreases s.len(),
{
    if s.len() == 0 {
        0
    } else {
        sum_y(s.drop_last()) + s.last().y
    }
}

/// Sum of the window's instantaneous speeds.
pub open spec fn sum_speed(s: Seq<WobbleSample>) -> int
    decreases s.len(),
{
    if s.len() == 0 {
        0
    } else {
        sum_speed(s.drop_last()) + s.last().speed
    }
}

/// The exact floor of the square root, as the executable code computes it.
pub open spec fn is_floor_sqrt(r: int, x: int) -> bool {
    0 <= r && r * r <= x < (r + 1) * (r + 1)
}

/// The blend weight for a window whose average speed is `speed`.
pub open spec fn weight_spec(speed: int, floor: int, ceiling: int) -> int {
    if speed <= floor {
        0
    } else if speed >= ceiling {
        FP as int
    } else {
        tdiv((speed - floor) * FP, ceiling - floor)
    }
}

/// The smoothed coordinate: `raw` weighted by `w`, the window average
/// weighted by `FP - w`.
pub open spec fn blend_spec(w: int, raw: int, avg: int) -> int {
    fxs_add(fxs_mul(w, raw), fxs_mul(FP as int - w, avg))
}

/// The smoothed position a window `w` produces for the raw point `(x, y)`:
/// both axes blended with the weight of the window's average speed.
pub open spec fn smoothed_spec(w: Seq<WobbleSample>, x: int, y: int, floor: int, ceiling: int) -> (
    int,
    int,
) {
    let wt = weight_spec(tdiv(sum_speed(w), w.len() as int), floor, ceiling);
    (
        blend_spec(wt, x, tdiv(sum_x(w), w.len() as int)),
        blend_spec(wt, y, tdiv(sum_y(w), w.len() as int)),
    )
}

/// In a window with non-decreasing times, the first entry's time is a lower
/// bound for every entry.
proof fn lemma_sorted_lower(s: Seq<WobbleSample>, i: int)
    requires
        forall|j: int| 0 <= j < s.len() - 1 ==> (#[trigger] s[j]).time <= s[j + 1].time,
        0 <= i < s.len(),
    ensures
        s[0].time <= s[i].time,
    decreases i,
{
    if i > 0 {
        lemma_sorted_lower(s, i - 1);
    }
}

/// In a window with non-decreasing times, the last entry's time is an upper
/// bound for every entry.
proof fn lemma_sorted_upper(s: Seq<WobbleSample>, i: int)
    requires
        forall|j: int| 0 <= j < s.len() - 1 ==> (#[trigger] s[j]).time <= s[j + 1].time,
        0 <= i < s.len(),
    ensures
        s[i].time <= s.last().time,
    decreases s.len() - i,
{
    if i < s.len() - 1 {
        lemma_sorted_upper(s, i + 1);
    }
}

/// The smoothing window and its pruning state.
#[derive(Debug, PartialEq, Eq)]
pub struct WobbleSmoother {
    pub samples: Vec<WobbleSample>,
}

impl WobbleSmoother {
    pub open spec fn wf(self) -> bool {
        &&& forall|i: int| 0 <= i < self.samples@.len() ==> (#[trigger] self.samples@[i]).wf()
        &&& forall|i: int|
            0 <= i < self.samples@.len() - 1 ==> (#[trigger] self.samples@[i]).time
                <= self.samples@[i + 1].time
        &&& self.samples@.len() <= WOBBLE_WINDOW_CAP
    }

    /// An empty window.
    pub fn new() -> (r: WobbleSmoother)
        ensures
            r.samples@ == Seq::<WobbleSample>::empty(),
            r.wf(),
    {
        WobbleSmoother { samples: Vec::new() }
    }

    /// The mean x, y and speed of a nonempty window.
    fn window_means(&self) -> (r: (i64, i64, i64))
        requires
            self.wf(),
            self.samples@.len() > 0,
        ensures
            r.0 as int == tdiv(sum_x(self.samples@), self.samples@.len() as int),
            r.1 as int == tdiv(sum_y(self.samples@), self.samples@.len() as int),
            r.2 as int == tdiv(sum_speed(self.samples@), self.samples@.len() as int),
            -COORD_MAX <= r.0 <= COORD_MAX,
            -COORD_MAX <= r.1 <= COORD_MAX,
            0 <= r.2 <= LIM,
    {
        let n = self.samples.len();
        let mut sx: i128 = 0;
        let mut sy: i128 = 0;
        let mut sp: i128 = 0;
        let mut i: usize = 0;
        while i < n
            invariant
                self.wf(),
                n == self.samples@.len(),
                0 <= i <= n,
                n <= WOBBLE_WINDOW_CAP,
                sx as int == sum_x(self.samples@.take(i as int)),
                sy as int == sum_y(self.samples@.take(i as int)),
                sp as int == sum_speed(self.samples@.take(i as int)),
                -(i as int) * COORD_MAX <= sx as int <= (i as int) * COORD_MAX,
                -(i as int) * COORD_MAX <= sy as int <= (i as int) * COORD_MAX,
                0 <= sp as int <= (i as int) * LIM,
            decreases n - i,
        {
            let s = self.samples[i];
            proof {
                assert(self.samples@.take(i + 1 as int).drop_last() =~= self.samples@.take(
                    i as int,
                ));
                assert(self.samples@.take(i + 1 as int).last() == self.samples@[i as int]);
            }
            sx = sx + s.x as i128;
            sy = sy + s.y as i128;
            sp = sp + s.speed as i128;
            i = i + 1;
        }
        proof {
            assert(self.samples@.take(n as int) =~= self.samples@);
            crate::fixed::lemma_tdiv_bound(sx as int, n as int, COORD_MAX as int);
            crate::fixed::lemma_tdiv_bound(sy as int, n as int, COORD_MAX as int);
            crate::fixed::lemma_tdiv_bound(sp as int, n as int, LIM as int);
        }
        let mx = crate::fixed::div_sat(sx, n as i64);
        let my = crate::fixed::div_sat(sy, n as i64);
        let ms = crate::fixed::div_sat(sp, n as i64);
        (mx, my, ms)
    }

    /// The instantaneous speed from `prev` to the raw point `(x, y)` at
    /// `time`: the distance over the elapsed time.  Two samples sharing a
    /// time stamp count as fast, deliberate motion.
    fn sample_speed(prev: WobbleSample, x: i64, y: i64, time: i64, ceiling: i64) -> (r: i64)
        requires
            prev.wf(),
            -COORD_MAX <= x <= COORD_MAX,
            -COORD_MAX <= y <= COORD_MAX,
            0 <= time <= TIME_MAX,
            prev.time <= time,
            0 <= ceiling <= LIM,
        ensures
            0 <= r <= LIM,
            prev.time == time ==> r == ceiling,
            prev.time < time ==> exists|d: int|
                is_floor_sqrt(
                    d,
                    dist2_spec(x as int, y as int, prev.x as int, prev.y as int),
                ) && r == fxs_div(d, time - prev.time),
    {
        if prev.time == time {
            ceiling
        } else {
            let dx: i128 = x as i128 - prev.x as i128;
            let dy: i128 = y as i128 - prev.y as i128;
            proof {
                assert(dx * dx <= 0x4000000000000000int && dx * dx >= 0
                    && dy * dy <= 0x4000000000000000int && dy * dy >= 0) by (nonlinear_arith)
                    requires
                        -0x80000000int <= dx <= 0x80000000int,
                        -0x80000000int <= dy <= 0x80000000int,
                ;
            }
            let d2: i128 = dx * dx + dy * dy;
            let d: u64 = isqrt(d2 as u64);
            let r = fx_div(d as i64, time - prev.time);
            proof {
                assert(d2 as int == dist2_spec(x as int, y as int, prev.x as int, prev.y as int));
                assert(is_floor_sqrt(
                    d as int,
                    dist2_spec(x as int, y as int, prev.x as int, prev.y as int),
                ) && r == fxs_div(d as int, time - prev.time));
                assert(exists|dd: int|
                    is_floor_sqrt(
                        dd,
                        dist2_spec(x as int, y as int, prev.x as int, prev.y as int),
                    ) && r == fxs_div(dd, time - prev.time));
            }
            r
        }
    }

    /// The blend weight for a window with average speed `ms`.
    fn blend_weight(ms: i64, floor: i64, ceiling: i64) -> (r: i64)
        requires
            0 <= ms <= LIM,
            0 <= floor < ceiling <= LIM,
        ensures
            r as int == weight_spec(ms as int, floor as int, ceiling as int),
            0 <= r <= FP,
    {
        if ms <= floor {
            0
        } else if ms >= ceiling {
            FP
        } else {
            proof {
                crate::fixed::lemma_mul_bound(
                    ms as int - floor as int,
                    FP as int,
                    LIM as int,
                    FP as int,
                );
                assert((ms as int - floor as int) * FP <= (ceiling as int - floor as int) * FP)
                    by (nonlinear_arith)
                    requires
                        floor < ms < ceiling,
                ;
                crate::fixed::lemma_tdiv_bound(
                    (ms as int - floor as int) * FP,
                    ceiling as int - floor as int,
                    FP as int,
                );
                vstd::arithmetic::div_mod::lemma_div_pos_is_pos(
                    (ms as int - floor as int) * FP,
                    ceiling as int - floor as int,
                );
            }
            crate::fixed::div_sat((ms as i128 - floor as i128) * FP as i128, ceiling - floor)
        }
    }

    /// Prune entries older than `threshold` (and, at the hard size cap, the
    /// oldest entry), then append `s`: the window becomes a suffix of the
    /// old one plus the new sample.
    #[verifier::rlimit(100)]
    #[verifier::spinoff_prover]
    fn prune_push(&mut self, s: WobbleSample, threshold: i64)
        requires
            old(self).wf(),
            s.wf(),
            old(self).samples@.len() > 0 ==> old(self).samples@.last().time <= s.time,
            threshold <= s.time,
        ensures
            final(self).wf(),
            final(self).samples@.len() > 0,
            final(self).samples@.last() == s,
            exists|k: int|
                0 <= k <= old(self).samples@.len() && final(self).samples@
                    =~= #[trigger] old(self).samples@.subrange(k, old(self).samples@.len() as int)
                    .push(s),
            forall|i: int|
                0 <= i < final(self).samples@.len() ==> threshold
                    <= (#[trigger] final(self).samples@[i]).time <= s.time,
    {
        let ghost orig = self.samples@;
        let mut removed: usize = 0;
        while self.samples.len() > 0 && self.samples[0].time < threshold
            invariant
                orig.len() <= WOBBLE_WINDOW_CAP,
                removed + self.samples@.len() == orig.len(),
                self.samples@ =~= orig.subrange(removed as int, orig.len() as int),
                forall|i: int| 0 <= i < self.samples@.len() ==> (#[trigger] self.samples@[i]).wf(),
                forall|i: int|
                    0 <= i < self.samples@.len() - 1 ==> (#[trigger] self.samples@[i]).time
                        <= self.samples@[i + 1].time,
            decreases self.samples@.len(),
        {
            self.samples.remove(0);
            removed = removed + 1;
            proof {
                assert(self.samples@ =~= orig.subrange(removed as int, orig.len() as int));
            }
        }
        if self.samples.len() >= WOBBLE_WINDOW_CAP {
            self.samples.remove(0);
            removed = removed + 1;
            proof {
                assert(self.samples@ =~= orig.subrange(removed as int, orig.len() as int));
            }
        }
        proof {
            let pruned = old(self).samples@.subrange(
                removed as int,
                old(self).samples@.len() as int,
            );
            assert forall|i: int| 0 <= i < pruned.len() implies threshold <= (
            #[trigger] pruned[i]).time <= s.time by {
                lemma_sorted_lower(pruned, i);
                lemma_sorted_upper(old(self).samples@, removed + i);
            }
        }
        self.samples.push(s);
        proof {
            assert(self.samples@ =~= old(self).samples@.subrange(
                removed as int,
                old(self).samples@.len() as int,
            ).push(s));
        }
    }

    /// Record a raw position and return its smoothed counterpart.
    ///
    /// The window is pruned to entries no older than `timeout` before the
    /// new sample's time, the new sample is appended with its instantaneous
    /// speed, and the smoothed position is the blend of the raw position
    /// with the window average, weighted by the window's average speed.
    #[verifier::spinoff_prover]
    pub fn filter(&mut self, x: i64, y: i64, time: i64, floor: i64, ceiling: i64, timeout: i64) -> (r: (
        i64,
        i64,
    ))
        requires
            old(self).wf(),
            -COORD_MAX <= x <= COORD_MAX,
            -COORD_MAX <= y <= COORD_MAX,
            0 <= time <= TIME_MAX,
            0 <= floor < ceiling <= LIM,
            1 <= timeout <= TIME_MAX,
            old(self).samples@.len() > 0 ==> old(self).samples@.last().time <= time,
        ensures
            final(self).wf(),
            final(self).samples@.len() > 0,
            // the window is a pruned suffix of the old one plus the new sample
            exists|k: int|
                0 <= k <= old(self).samples@.len() && final(self).samples@
                    =~= #[trigger] old(self).samples@.subrange(k, old(self).samples@.len() as int)
                    .push(final(self).samples@.last()),
            forall|i: int|
                0 <= i < final(self).samples@.len() ==> time - timeout
                    <= (#[trigger] final(self).samples@[i]).time <= time,
            // the new sample records the raw position and its speed
            final(self).samples@.last().time == time,
            final(self).samples@.last().x == x,
            final(self).samples@.last().y == y,
            old(self).samples@.len() == 0 ==> final(self).samples@.last().speed == 0,
            old(self).samples@.len() > 0 && old(self).samples@.last().time == time
                ==> final(self).samples@.last().speed == ceiling,
            old(self).samples@.len() > 0 && old(self).samples@.last().time < time ==> exists|
                d: int,
            |
                is_floor_sqrt(
                    d,
                    dist2_spec(
                        x as int,
                        y as int,
                        old(self).samples@.last().x as int,
                        old(self).samples@.last().y as int,
                    ),
                ) && final(self).samples@.last().speed == fxs_div(
                    d,
                    time - old(self).samples@.last().time,
                ),
            // the first sample of a stroke is emitted unsmoothed
            old(self).samples@.len() == 0 ==> r == (x, y),
            // otherwise the result is the exact weighted blend
            old(self).samples@.len() > 0 ==> (r.0 as int, r.1 as int) == smoothed_spec(
                final(self).samples@,
                x as int,
                y as int,
                floor as int,
                ceiling as int,
            ),
            -LIM <= r.0 <= LIM,
            -LIM <= r.1 <= LIM,
    {
        let was_empty = self.samples.len() == 0;
        // instantaneous speed of the new sample
        let speed: i64 = if self.samples.len() == 0 {
            0
        } else {
            let prev = self.samples[self.samples.len() - 1];
            WobbleSmoother::sample_speed(prev, x, y, time, ceiling)
        };
        let new_sample = WobbleSample { time, x, y, speed };
        // prune entries that fell out of the trailing window, then append
        self.prune_push(new_sample, time - timeout);
        if was_empty {
            return (x, y);
        }
        let (mx, my, ms) = self.window_means();
        // blend weight from the window's average speed
        let w: i64 = WobbleSmoother::blend_weight(ms, floor, ceiling);
        let rx = fx_add(fx_mul(w, x), fx_mul(FP - w, mx));
        let ry = fx_add(fx_mul(w, y), fx_mul(FP - w, my));
        (rx, ry)
    }
}

} // verus!
