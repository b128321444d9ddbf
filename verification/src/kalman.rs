//! A steady-state (fixed-gain) formulation of the constant-jerk Kalman
//! filter, and its confidence model.
//!
//! The filter tracks position, velocity, acceleration and jerk per axis.
//! Each real input is a measurement-correction step: the state is propagated
//! to the measurement's time and every order is corrected by the residual
//! scaled with the stationary gain `process_noise / (process_noise +
//! measurement_noise)`.  The confidence model decides whether speculative
//! samples are trustworthy enough to emit at all: confidence rises with the
//! number of accumulated samples, is zeroed when the estimated travel speed
//! leaves its configured band or the estimate strays too far from the last
//! raw input, and is reduced to the configured baseline when recent motion
//! deviates too far from a straight line.

use vstd::prelude::*;
use crate::fixed::{
    FP,
    LIM,
    COORD_MAX,
    tdiv,
    fxs_add,
    fxs_mul,
    fxs_div,
    dist2_spec,
    fx_add,
    fx_mul,
    fx_div,
};
use crate::params::KalmanPredictorParams;

verus! {

/// Confidence needed before the predictor emits anything.
pub const PREDICTION_CONFIDENCE_THRESHOLD: i64 = 250_000;

/// Sample counts saturate here; far beyond any confidence requirement.
pub const KALMAN_SAMPLES_CAP: i32 = 1_000_000;

/// The filter state: one estimate per derivative order, the last two raw
/// measurements (for the linearity test), and the time of the last
/// correction.
#[derive(Debug, Clone, Copy, PartialEq, Eq)]
pub struct KalmanState {
    pub pos: (i64, i64),
    pub vel: (i64, i64),
    pub acc: (i64, i64),
    pub jerk: (i64, i64),
    pub prev: (i64, i64),
    pub prev2: (i64, i64),
    pub num_samples: i32,
    pub last_time: i64,
}

/// One propagate-and-correct along one axis: the estimate advanced by its
/// derivative over `dt`, then corrected by `gain` times the residual.
pub open spec fn kal_step(est: int, deriv: int, dt: int, gain: int, resid: int) -> int {
    fxs_add(fxs_add(est, fxs_mul(deriv, dt)), fxs_mul(gain, resid))
}

/// The stationary correction gain.
pub open spec fn kal_gain(k: KalmanPredictorParams) -> int {
    fxs_div(k.process_noise as int, k.process_noise as int + k.measurement_noise as int)
}

/// The residual along one axis: the measurement against the position
/// estimate propagated by `dt`.
pub open spec fn kal_resid(pos: int, vel: int, dt: int, m: int) -> int {
    crate::fixed::fxs_sub(m, fxs_add(pos, fxs_mul(vel, dt)))
}

/// The residual's rate, used to correct the higher derivative orders; a
/// zero `dt` contributes no derivative information.
pub open spec fn kal_resid_rate(resid: int, dt: int) -> int {
    if dt > 0 {
        fxs_div(resid, dt)
    } else {
        0
    }
}

impl KalmanState {
    pub open spec fn wf(self) -> bool {
        &&& -LIM <= self.pos.0 <= LIM && -LIM <= self.pos.1 <= LIM
        &&& -LIM <= self.vel.0 <= LIM && -LIM <= self.vel.1 <= LIM
        &&& -LIM <= self.acc.0 <= LIM && -LIM <= self.acc.1 <= LIM
        &&& -LIM <= self.jerk.0 <= LIM && -LIM <= self.jerk.1 <= LIM
        &&& -COORD_MAX <= self.prev.0 <= COORD_MAX && -COORD_MAX <= self.prev.1 <= COORD_MAX
        &&& -COORD_MAX <= self.prev2.0 <= COORD_MAX && -COORD_MAX <= self.prev2.1 <= COORD_MAX
        &&& 0 <= self.num_samples <= KALMAN_SAMPLES_CAP
        &&& 0 <= self.last_time <= LIM
    }

    /// The state before any measurement.
    pub fn empty() -> (r: KalmanState)
        ensures
            r == kalman_empty_spec(),
            r.wf(),
    {
        KalmanState {
            pos: (0, 0),
            vel: (0, 0),
            acc: (0, 0),
            jerk: (0, 0),
            prev: (0, 0),
            prev2: (0, 0),
            num_samples: 0,
            last_time: 0,
        }
    }

    /// One measurement-correction step at `(mx, my)`, observed at `time`.
    pub fn observe(&mut self, mx: i64, my: i64, time: i64, k: &KalmanPredictorParams)
        requires
            old(self).wf(),
            crate::params::valid_kalman_params(*k),
            -COORD_MAX <= mx <= COORD_MAX,
            -COORD_MAX <= my <= COORD_MAX,
            0 <= time <= LIM,
            old(self).num_samples > 0 ==> old(self).last_time <= time,
        ensures
            final(self).wf(),
            final(self).last_time == time,
            final(self).prev == (mx, my),
            final(self).num_samples as int == if old(self).num_samples < KALMAN_SAMPLES_CAP {
                old(self).num_samples + 1
            } else {
                old(self).num_samples as int
            },
            old(self).num_samples == 0 ==> *final(self) == (KalmanState {
                pos: (mx, my),
                vel: (0i64, 0i64),
                acc: (0i64, 0i64),
                jerk: (0i64, 0i64),
                prev: (mx, my),
                prev2: (mx, my),
                num_samples: 1,
                last_time: time,
            }),
            old(self).num_samples > 0 ==> final(self).prev2 == old(self).prev,
            old(self).num_samples > 0 ==> final(self).pos.0 as int == kal_step(
                old(self).pos.0 as int,
                old(self).vel.0 as int,
                time - old(self).last_time,
                kal_gain(*k),
                kal_resid(
                    old(self).pos.0 as int,
                    old(self).vel.0 as int,
                    time - old(self).last_time,
                    mx as int,
                ),
            ),
            old(self).num_samples > 0 ==> final(self).pos.1 as int == kal_step(
                old(self).pos.1 as int,
                old(self).vel.1 as int,
                time - old(self).last_time,
                kal_gain(*k),
                kal_resid(
                    old(self).pos.1 as int,
                    old(self).vel.1 as int,
                    time - old(self).last_time,
                    my as int,
                ),
            ),
            old(self).num_samples > 0 ==> final(self).vel.0 as int == kal_step(
                old(self).vel.0 as int,
                old(self).acc.0 as int,
                time - old(self).last_time,
                kal_gain(*k),
                kal_resid_rate(
                    kal_resid(
                        old(self).pos.0 as int,
                        old(self).vel.0 as int,
                        time - old(self).last_time,
                        mx as int,
                    ),
                    time - old(self).last_time,
                ),
            ),
            old(self).num_samples > 0 ==> final(self).vel.1 as int == kal_step(
                old(self).vel.1 as int,
                old(self).acc.1 as int,
                time - old(self).last_time,
                kal_gain(*k),
                kal_resid_rate(
                    kal_resid(
                        old(self).pos.1 as int,
                        old(self).vel.1 as int,
                        time - old(self).last_time,
                        my as int,
                    ),
                    time - old(self).last_time,
                ),
            ),
            old(self).num_samples > 0 ==> final(self).acc.0 as int == kal_step(
                old(self).acc.0 as int,
                old(self).jerk.0 as int,
                time - old(self).last_time,
                kal_gain(*k),
                kal_resid_rate(
                    kal_resid_rate(
                        kal_resid(
                            old(self).pos.0 as int,
                            old(self).vel.0 as int,
                            time - old(self).last_time,
                            mx as int,
                        ),
                        time - old(self).last_time,
                    ),
                    time - old(self).last_time,
                ),
            ),
            old(self).num_samples > 0 ==> final(self).acc.1 as int == kal_step(
                old(self).acc.1 as int,
                old(self).jerk.1 as int,
                time - old(self).last_time,
                kal_gain(*k),
                kal_resid_rate(
                    kal_resid_rate(
                        kal_resid(
                            old(self).pos.1 as int,
                            old(self).vel.1 as int,
                            time - old(self).last_time,
                            my as int,
                        ),
                        time - old(self).last_time,
                    ),
                    time - old(self).last_time,
                ),
            ),
            old(self).num_samples > 0 ==> final(self).jerk.0 as int == fxs_add(
                old(self).jerk.0 as int,
                fxs_mul(
                    kal_gain(*k),
                    kal_resid_rate(
                        kal_resid_rate(
                            kal_resid_rate(
                                kal_resid(
                                    old(self).pos.0 as int,
                                    old(self).vel.0 as int,
                                    time - old(self).last_time,
                                    mx as int,
                                ),
                                time - old(self).last_time,
                            ),
                            time - old(self).last_time,
                        ),
                        time - old(self).last_time,
                    ),
                ),
            ),
            old(self).num_samples > 0 ==> final(self).jerk.1 as int == fxs_add(
                old(self).jerk.1 as int,
                fxs_mul(
                    kal_gain(*k),
                    kal_resid_rate(
                        kal_resid_rate(
                            kal_resid_rate(
                                kal_resid(
                                    old(self).pos.1 as int,
                                    old(self).vel.1 as int,
                                    time - old(self).last_time,
                                    my as int,
                                ),
                                time - old(self).last_time,
                            ),
                            time - old(self).last_time,
                        ),
                        time - old(self).last_time,
                    ),
                ),
            ),
    {
        if self.num_samples == 0 {
            self.pos = (mx, my);
            self.vel = (0, 0);
            self.acc = (0, 0);
            self.jerk = (0, 0);
            self.prev = (mx, my);
            self.prev2 = (mx, my);
            self.num_samples = 1;
            self.last_time = time;
            return ;
        }
        let dt: i64 = time - self.last_time;
        let gain: i64 = fx_div(k.process_noise, k.process_noise + k.measurement_noise);
        // residual against the propagated position
        let px = fx_add(self.pos.0, fx_mul(self.vel.0, dt));
        let py = fx_add(self.pos.1, fx_mul(self.vel.1, dt));
        let rx = crate::fixed::fx_sub(mx, px);
        let ry = crate::fixed::fx_sub(my, py);
        // residual rates for the higher orders; a zero dt contributes no
        // derivative information
        let (rvx, rvy, rax, ray, rjx, rjy) = if dt > 0 {
            let rvx = fx_div(rx, dt);
            let rvy = fx_div(ry, dt);
            let rax = fx_div(rvx, dt);
            let ray = fx_div(rvy, dt);
            (rvx, rvy, rax, ray, fx_div(rax, dt), fx_div(ray, dt))
        } else {
            (0, 0, 0, 0, 0, 0)
        };
        let npx = fx_add(px, fx_mul(gain, rx));
        let npy = fx_add(py, fx_mul(gain, ry));
        let nvx = fx_add(fx_add(self.vel.0, fx_mul(self.acc.0, dt)), fx_mul(gain, rvx));
        let nvy = fx_add(fx_add(self.vel.1, fx_mul(self.acc.1, dt)), fx_mul(gain, rvy));
        let nax = fx_add(fx_add(self.acc.0, fx_mul(self.jerk.0, dt)), fx_mul(gain, rax));
        let nay = fx_add(fx_add(self.acc.1, fx_mul(self.jerk.1, dt)), fx_mul(gain, ray));
        let njx = fx_add(self.jerk.0, fx_mul(gain, rjx));
        let njy = fx_add(self.jerk.1, fx_mul(gain, rjy));
        self.prev2 = self.prev;
        self.prev = (mx, my);
        self.pos = (npx, npy);
        self.vel = (nvx, nvy);
        self.acc = (nax, nay);
        self.jerk = (njx, njy);
        if self.num_samples < KALMAN_SAMPLES_CAP {
            self.num_samples = self.num_samples + 1;
        }
        self.last_time = time;
    }
}

/// The state of a filter that has seen nothing.
pub open spec fn kalman_empty_spec() -> KalmanState {
    KalmanState {
        pos: (0i64, 0i64),
        vel: (0i64, 0i64),
        acc: (0i64, 0i64),
        jerk: (0i64, 0i64),
        prev: (0i64, 0i64),
        prev2: (0i64, 0i64),
        num_samples: 0,
        last_time: 0,
    }
}

/// The share of the desired sample count that has been accumulated.
pub open spec fn sample_ratio_spec(num: int, desired: int) -> int {
    if num >= desired {
        FP as int
    } else {
        tdiv(num * FP, desired)
    }
}

/// Full confidence when the estimated speed lies in the configured band.
pub open spec fn speed_factor_spec(st: KalmanState, k: KalmanPredictorParams) -> int {
    let s2 = st.vel.0 as int * st.vel.0 as int + st.vel.1 as int * st.vel.1 as int;
    if k.confidence_min_travel_speed as int * k.confidence_min_travel_speed as int <= s2 && s2
        <= k.confidence_max_travel_speed as int * k.confidence_max_travel_speed as int {
        FP as int
    } else {
        0
    }
}

/// Full confidence while the estimate stays near the last raw input.
pub open spec fn distance_factor_spec(st: KalmanState, last_raw: (i64, i64), k: KalmanPredictorParams) -> int {
    let d2 = dist2_spec(st.pos.0 as int, st.pos.1 as int, last_raw.0 as int, last_raw.1 as int);
    if d2 <= k.confidence_max_estimation_distance as int * k.confidence_max_estimation_distance as int {
        FP as int
    } else {
        0
    }
}

/// Penalty for motion that bends away from a straight line: the middle of
/// the last three tracked points is compared with the chord's midpoint, and
/// a deviation beyond the configured limit drops the factor to the baseline.
pub open spec fn linearity_factor_spec(st: KalmanState, k: KalmanPredictorParams) -> int {
    let mx = tdiv(st.prev2.0 as int + st.pos.0 as int, 2);
    let my = tdiv(st.prev2.1 as int + st.pos.1 as int, 2);
    let d2 = dist2_spec(st.prev.0 as int, st.prev.1 as int, mx, my);
    if d2 <= k.confidence_max_linear_deviation as int * k.confidence_max_linear_deviation as int {
        FP as int
    } else {
        k.confidence_baseline_linearity_confidence as int
    }
}

/// The combined confidence in `[0, FP]`: the product of the sample-count
/// ratio, the speed factor, the estimation-distance factor and the
/// linearity factor.
pub open spec fn confidence_spec(st: KalmanState, last_raw: (i64, i64), k: KalmanPredictorParams) -> int {
    fxs_mul(
        sample_ratio_spec(st.num_samples as int, k.confidence_desired_number_of_samples as int),
        fxs_mul(
            speed_factor_spec(st, k),
            fxs_mul(distance_factor_spec(st, last_raw, k), linearity_factor_spec(st, k)),
        ),
    )
}

/// Computes [`confidence_spec`] exactly.
pub fn kalman_confidence(st: &KalmanState, last_raw: (i64, i64), k: &KalmanPredictorParams) -> (r:
    i64)
    requires
        st.wf(),
        crate::params::valid_kalman_params(*k),
        -COORD_MAX <= last_raw.0 <= COORD_MAX,
        -COORD_MAX <= last_raw.1 <= COORD_MAX,
    ensures
        r as int == confidence_spec(*st, last_raw, *k),
        -LIM <= r <= LIM,
{
    let ratio: i64 = if st.num_samples >= k.confidence_desired_number_of_samples {
        FP
    } else {
        proof {
            crate::fixed::lemma_mul_bound(st.num_samples as int, FP as int, 1_000_000int, FP as int);
            vstd::arithmetic::div_mod::lemma_div_nonincreasing(
                st.num_samples as int * FP,
                k.confidence_desired_number_of_samples as int,
            );
            vstd::arithmetic::div_mod::lemma_div_pos_is_pos(
                st.num_samples as int * FP,
                k.confidence_desired_number_of_samples as int,
            );
        }
        ((st.num_samples as u64 * FP as u64) / (k.confidence_desired_number_of_samples as u64))
            as i64
    };
    let speed_f: i64 = {
        let vx = st.vel.0 as i128;
        let vy = st.vel.1 as i128;
        proof {
            crate::fixed::lemma_mul_bound(vx as int, vx as int, LIM as int, LIM as int);
            crate::fixed::lemma_mul_bound(vy as int, vy as int, LIM as int, LIM as int);
            crate::fixed::lemma_mul_bound(
                k.confidence_min_travel_speed as int,
                k.confidence_min_travel_speed as int,
                LIM as int,
                LIM as int,
            );
            crate::fixed::lemma_mul_bound(
                k.confidence_max_travel_speed as int,
                k.confidence_max_travel_speed as int,
                LIM as int,
                LIM as int,
            );
        }
        let s2: i128 = vx * vx + vy * vy;
        let lo: i128 = (k.confidence_min_travel_speed as i128) * (k.confidence_min_travel_speed
            as i128);
        let hi: i128 = (k.confidence_max_travel_speed as i128) * (k.confidence_max_travel_speed
            as i128);
        if lo <= s2 && s2 <= hi {
            FP
        } else {
            0
        }
    };
    let dist_f: i64 = if crate::fixed::within_dist(
        st.pos.0,
        st.pos.1,
        last_raw.0,
        last_raw.1,
        k.confidence_max_estimation_distance,
    ) {
        FP
    } else {
        0
    };
    let lin_f: i64 = {
        let mx = crate::fixed::div_sat(st.prev2.0 as i128 + st.pos.0 as i128, 2);
        let my = crate::fixed::div_sat(st.prev2.1 as i128 + st.pos.1 as i128, 2);
        proof {
            crate::fixed::lemma_tdiv_bound(st.prev2.0 as int + st.pos.0 as int, 2, LIM as int);
            crate::fixed::lemma_tdiv_bound(st.prev2.1 as int + st.pos.1 as int, 2, LIM as int);
        }
        if crate::fixed::within_dist(
            st.prev.0,
            st.prev.1,
            mx,
            my,
            k.confidence_max_linear_deviation,
        ) {
            FP
        } else {
            k.confidence_baseline_linearity_confidence
        }
    };
    fx_mul(ratio, fx_mul(speed_f, fx_mul(dist_f, lin_f)))
}

} // verus!
