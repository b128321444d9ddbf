//! The stylus state modeler: a bounded FIFO history of raw pressure, tilt
//! and orientation observations, interpolated against resampled time points.

use vstd::prelude::*;
use crate::fixed::{FP, TIME_MAX, COORD_MAX, lerp_spec, lerp_i64};

verus! {

/// One recorded stylus observation.
#[derive(Debug, Clone, Copy, PartialEq, Eq)]
pub struct StylusSample {
    pub time: i64,
    pub pressure: i64,
    pub tilt: i64,
    pub orientation: i64,
}

impl StylusSample {
    /// Bounds under which interpolation stays in range.
    pub open spec fn wf(self) -> bool {
        &&& 0 <= self.time <= TIME_MAX
        &&& 0 <= self.pressure <= FP
        &&& -COORD_MAX <= self.tilt <= COORD_MAX
        &&& -COORD_MAX <= self.orientation <= COORD_MAX
    }
}

/// In a history with non-decreasing times, every entry lies between the
/// first and the last.
pub proof fn lemma_history_lower(s: Seq<StylusSample>, i: int)
    requires
        forall|j: int| 0 <= j < s.len() - 1 ==> (#[trigger] s[j]).time <= s[j + 1].time,
        0 <= i < s.len(),
    ensures
        s[0].time <= s[i].time,
    decreases i,
{
    if i > 0 {
        lemma_history_lower(s, i - 1);
    }
}

/// The counterpart upper bound: no entry lies past the last one.
pub proof fn lemma_history_upper(s: Seq<StylusSample>, i: int)
    requires
        forall|j: int| 0 <= j < s.len() - 1 ==> (#[trigger] s[j]).time <= s[j + 1].time,
        0 <= i < s.len(),
    ensures
        s[i].time <= s.last().time,
    decreases s.len() - i,
{
    if i < s.len() - 1 {
        lemma_history_upper(s, i + 1);
    }
}

/// Bounded history of recent stylus observations; the oldest entry is
/// silently evicted when the capacity is reached (intended policy, never an
/// error).
#[derive(Debug, PartialEq, Eq)]
pub struct StylusStateModeler {
    pub samples: Vec<StylusSample>,
}

impl StylusStateModeler {
    /// Entries are well formed and their times never decrease.
    pub open spec fn wf_data(self) -> bool {
        &&& forall|i: int| 0 <= i < self.samples@.len() ==> (#[trigger] self.samples@[i]).wf()
        &&& forall|i: int|
            0 <= i < self.samples@.len() - 1 ==> (#[trigger] self.samples@[i]).time
                <= self.samples@[i + 1].time
    }

    /// The history never outgrows the configured capacity.
    pub open spec fn wf(self, cap: int) -> bool {
        self.wf_data() && self.samples@.len() <= cap
    }

    /// An empty history.
    pub fn new() -> (r: StylusStateModeler)
        ensures
            r.samples@ == Seq::<StylusSample>::empty(),
            r.wf_data(),
    {
        StylusStateModeler { samples: Vec::new() }
    }

    /// Append one observation.  When the history is already at capacity the
    /// oldest entry is dropped first (FIFO), so the length never exceeds
    /// `cap`.
    pub fn record(&mut self, s: StylusSample, cap: i32)
        requires
            old(self).wf(cap as int),
            1 <= cap,
            s.wf(),
            old(self).samples@.len() > 0 ==> old(self).samples@.last().time <= s.time,
        ensures
            final(self).wf(cap as int),
            final(self).samples@.len() > 0,
            final(self).samples@.last() == s,
            old(self).samples@.len() < cap ==> final(self).samples@ == old(self).samples@.push(s),
            old(self).samples@.len() >= cap ==> final(self).samples@ == old(
                self,
            ).samples@.subrange(1, old(self).samples@.len() as int).push(s),
    {
        if self.samples.len() >= cap as usize {
            self.samples.remove(0);
            proof {
                assert(self.samples@ =~= old(self).samples@.subrange(
                    1,
                    old(self).samples@.len() as int,
                ));
            }
        }
        self.samples.push(s);
    }

    /// The interpolated stylus state at time `t`: queries outside the
    /// recorded range clamp to the nearest end; queries inside are linear
    /// interpolations of the two bracketing entries.
    pub fn query(&self, t: i64) -> (r: (i64, i64, i64))
        requires
            self.wf_data(),
            self.samples@.len() > 0,
        ensures
            0 <= r.0 <= FP,
            -COORD_MAX <= r.1 <= COORD_MAX,
            -COORD_MAX <= r.2 <= COORD_MAX,
            t <= self.samples@[0].time ==> r == (
                self.samples@[0].pressure,
                self.samples@[0].tilt,
                self.samples@[0].orientation,
            ),
            t >= self.samples@.last().time && t > self.samples@[0].time ==> r == (
                self.samples@.last().pressure,
                self.samples@.last().tilt,
                self.samples@.last().orientation,
            ),
            self.samples@[0].time < t < self.samples@.last().time ==> exists|j: int|
                0 <= j < self.samples@.len() - 1 && (#[trigger] self.samples@[j]).time < t
                    <= self.samples@[j + 1].time && r.0 == lerp_spec(
                    self.samples@[j].pressure as int,
                    self.samples@[j + 1].pressure as int,
                    t - self.samples@[j].time,
                    self.samples@[j + 1].time - self.samples@[j].time,
                ) && r.1 == lerp_spec(
                    self.samples@[j].tilt as int,
                    self.samples@[j + 1].tilt as int,
                    t - self.samples@[j].time,
                    self.samples@[j + 1].time - self.samples@[j].time,
                ) && r.2 == lerp_spec(
                    self.samples@[j].orientation as int,
                    self.samples@[j + 1].orientation as int,
                    t - self.samples@[j].time,
                    self.samples@[j + 1].time - self.samples@[j].time,
                ),
    {
        let n = self.samples.len();
        let first = self.samples[0];
        if t <= first.time {
            return (first.pressure, first.tilt, first.orientation);
        }
        let last = self.samples[n - 1];
        if t >= last.time {
            return (last.pressure, last.tilt, last.orientation);
        }
        // first.time < t < last.time: find the first entry at or past t
        let mut j: usize = 1;
        while j < n - 1 && self.samples[j].time < t
            invariant
                self.wf_data(),
                n == self.samples@.len(),
                2 <= n,
                1 <= j <= n - 1,
                forall|i: int| 0 <= i < j ==> (#[trigger] self.samples@[i]).time < t,
                t < self.samples@.last().time,
            decreases n - j,
        {
            j = j + 1;
        }
        let a = self.samples[j - 1];
        let b = self.samples[j];
        proof {
            assert(self.samples@[j as int].time >= t);
        }
        let den: i64 = b.time - a.time;
        let num: i64 = t - a.time;
        let rp = lerp_i64(a.pressure, b.pressure, num, den);
        let rt = lerp_i64(a.tilt, b.tilt, num, den);
        let ro = lerp_i64(a.orientation, b.orientation, num, den);
        proof {
            let jj = j - 1 as int;
            assert(0 <= jj < self.samples@.len() - 1 && (self.samples@[jj]).time < t
                <= self.samples@[jj + 1].time && rp == lerp_spec(
                self.samples@[jj].pressure as int,
                self.samples@[jj + 1].pressure as int,
                t - self.samples@[jj].time,
                self.samples@[jj + 1].time - self.samples@[jj].time,
            ) && rt == lerp_spec(
                self.samples@[jj].tilt as int,
                self.samples@[jj + 1].tilt as int,
                t - self.samples@[jj].time,
                self.samples@[jj + 1].time - self.samples@[jj].time,
            ) && ro == lerp_spec(
                self.samples@[jj].orientation as int,
                self.samples@[jj + 1].orientation as int,
                t - self.samples@[jj].time,
                self.samples@[jj + 1].time - self.samples@[jj].time,
            ));
        }
        (rp, rt, ro)
    }
}

} // verus!
