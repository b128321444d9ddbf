//! The stroke modeler orchestrator: a state machine `Idle -> InStroke ->
//! Idle` that sequences the wobble smoother, the position modeler, the
//! resampler and the stylus state modeler on every input event, and runs the
//! configured predictor on demand.

use vstd::prelude::*;
use crate::fixed::{LIM, TIME_MAX, COORD_MAX, dist2_spec, fx_sub, fx_div};
use crate::types::{ModelerInput, ModelerInputEventType, ModelerResult, ModelerError};
use crate::params::{
    StrokeModelerParams,
    PredictionParams,
    valid_params,
    interval_spec,
    check_params,
    output_interval,
};
use crate::wobble::{WobbleSmoother, WobbleSample};
use crate::stylus::{StylusStateModeler, StylusSample};
use crate::position::PositionModeler;
use crate::kalman::{
    KalmanState,
    kalman_empty_spec,
    kalman_confidence,
    confidence_spec,
    PREDICTION_CONFIDENCE_THRESHOLD,
};
use crate::resample::resample_times;

verus! {

/// Sample times of a batch never decrease.
pub open spec fn times_monotone(s: Seq<ModelerResult>) -> bool {
    forall|i: int| 0 <= i < s.len() - 1 ==> (#[trigger] s[i]).time <= s[i + 1].time
}

/// Consecutive samples of a batch are at most `bound` apart in time.
pub open spec fn gaps_within(s: Seq<ModelerResult>, bound: int) -> bool {
    forall|i: int| 0 <= i < s.len() - 1 ==> s[i + 1].time - (#[trigger] s[i]).time <= bound
}

/// The stylus observation an input contributes to the history.
pub open spec fn stylus_record_of(input: ModelerInput) -> StylusSample {
    StylusSample {
        time: input.time,
        pressure: input.pressure,
        tilt: input.tilt,
        orientation: input.orientation,
    }
}

/// One sample is exactly one spring-mass-damper step from the given
/// previous state toward `target`.  Opaque, like [`follows_model`].
#[verifier::opaque]
pub open spec fn sample_follows(
    prev_pos: (int, int),
    prev_vel: (int, int),
    prev_time: int,
    s: ModelerResult,
    target: (int, int),
    smc: int,
    drag: int,
) -> bool {
    &&& s.velocity.0 as int == crate::position::step_vel(
        prev_pos.0,
        prev_vel.0,
        target.0,
        s.time - prev_time,
        smc,
        drag,
    )
    &&& s.velocity.1 as int == crate::position::step_vel(
        prev_pos.1,
        prev_vel.1,
        target.1,
        s.time - prev_time,
        smc,
        drag,
    )
    &&& s.pos.0 as int == crate::position::step_pos(
        prev_pos.0,
        s.velocity.0 as int,
        s.time - prev_time,
    )
    &&& s.pos.1 as int == crate::position::step_pos(
        prev_pos.1,
        s.velocity.1 as int,
        s.time - prev_time,
    )
}

/// A batch follows the position model: each sample is exactly one
/// spring-mass-damper step toward `target` from the state the previous
/// sample recorded (the integrator state `start` for the first one).
/// Opaque: proofs open it with `reveal(follows_model)` where they need the
/// per-sample steps.
#[verifier::opaque]
pub open spec fn follows_model(
    out: Seq<ModelerResult>,
    start: PositionModeler,
    target: (int, int),
    smc: int,
    drag: int,
) -> bool {
    forall|j: int|
        0 <= j < out.len() ==> sample_follows(
            if j == 0 {
                (start.pos.0 as int, start.pos.1 as int)
            } else {
                (out[j - 1].pos.0 as int, out[j - 1].pos.1 as int)
            },
            if j == 0 {
                (start.vel.0 as int, start.vel.1 as int)
            } else {
                (out[j - 1].velocity.0 as int, out[j - 1].velocity.1 as int)
            },
            if j == 0 {
                start.time as int
            } else {
                out[j - 1].time as int
            },
            #[trigger] out[j],
            target,
            smc,
            drag,
        )
}

/// Every sample of a batch is within the representable bands.
pub open spec fn results_wf(s: Seq<ModelerResult>) -> bool {
    forall|i: int| 0 <= i < s.len() ==> (#[trigger] s[i]).wf()
}

/// Appending one conforming sample keeps a batch conforming: the induction
/// step behind [`run_substeps`]'s loop.
proof fn lemma_follows_model_push(
    prior: Seq<ModelerResult>,
    e: ModelerResult,
    start: PositionModeler,
    pre_tip: PositionModeler,
    target: (int, int),
    smc: int,
    drag: int,
)
    requires
        follows_model(prior, start, target, smc, drag),
        prior.len() == 0 ==> pre_tip == start,
        prior.len() > 0 ==> prior.last().pos == pre_tip.pos && prior.last().velocity
            == pre_tip.vel && prior.last().time == pre_tip.time,
        sample_follows(
            (pre_tip.pos.0 as int, pre_tip.pos.1 as int),
            (pre_tip.vel.0 as int, pre_tip.vel.1 as int),
            pre_tip.time as int,
            e,
            target,
            smc,
            drag,
        ),
    ensures
        follows_model(prior.push(e), start, target, smc, drag),
{
    reveal(follows_model);
    let out = prior.push(e);
    assert forall|j: int| 0 <= j < out.len() implies sample_follows(
        if j == 0 {
            (start.pos.0 as int, start.pos.1 as int)
        } else {
            (out[j - 1].pos.0 as int, out[j - 1].pos.1 as int)
        },
        if j == 0 {
            (start.vel.0 as int, start.vel.1 as int)
        } else {
            (out[j - 1].velocity.0 as int, out[j - 1].velocity.1 as int)
        },
        if j == 0 {
            start.time as int
        } else {
            out[j - 1].time as int
        },
        #[trigger] out[j],
        target,
        smc,
        drag,
    ) by {
        if j < out.len() - 1 {
            assert(out[j] == prior[j]);
            if j > 0 {
                assert(out[j - 1] == prior[j - 1]);
            }
        } else {
            assert(out[j] == e);
            if j > 0 {
                assert(out[j - 1] == prior[j - 1] && prior[j - 1] == prior.last());
            }
        }
    }
}

/// The state a modeler is in directly after construction or reset with
/// `params`: idle, with empty per-stroke state.  This state is a function of
/// the parameters alone.
pub open spec fn reset_post(m: StrokeModeler, params: StrokeModelerParams) -> bool {
    &&& m.params == params
    &&& m.interval as int == interval_spec(params)
    &&& !m.in_stroke
    &&& m.last_input_time == 0
    &&& m.last_raw == (0i64, 0i64)
    &&& m.last_output_time == 0
    &&& m.wobble.samples@ =~= Seq::<WobbleSample>::empty()
    &&& m.position == (PositionModeler { pos: (0i64, 0i64), vel: (0i64, 0i64), time: 0i64 })
    &&& m.stylus.samples@ =~= Seq::<StylusSample>::empty()
    &&& m.kalman == kalman_empty_spec()
}

/// Monotonicity is preserved across calls: when each of two batches is
/// monotone in itself and the second starts no earlier than the first ends
/// (as `update` guarantees within a stroke), the combined output is monotone.
pub proof fn lemma_monotone_output_concat(s1: Seq<ModelerResult>, s2: Seq<ModelerResult>)
    requires
        times_monotone(s1),
        times_monotone(s2),
        s1.len() > 0 && s2.len() > 0 ==> s1.last().time <= s2[0].time,
    ensures
        times_monotone(s1 + s2),
{
    assert forall|i: int| 0 <= i < (s1 + s2).len() - 1 implies (#[trigger] (s1 + s2)[i]).time <= (
    s1 + s2)[i + 1].time by {
        if i < s1.len() - 1 {
            assert((s1 + s2)[i] == s1[i] && (s1 + s2)[i + 1] == s1[i + 1]);
        } else if i == s1.len() - 1 {
            assert((s1 + s2)[i] == s1[i] && (s1 + s2)[i + 1] == s2[0]);
        } else {
            assert((s1 + s2)[i] == s2[i - s1.len()] && (s1 + s2)[i + 1] == s2[i + 1 - s1.len()]);
        }
    }
}

/// Resetting twice is the same as resetting once: the post-reset state is
/// determined by the parameters alone, so a second `reset` reproduces the
/// state the first one left.
pub proof fn lemma_reset_idempotent(a: StrokeModeler, b: StrokeModeler, params: StrokeModelerParams)
    requires
        reset_post(a, params),
        reset_post(b, params),
    ensures
        a.params == b.params,
        a.interval == b.interval,
        a.in_stroke == b.in_stroke,
        a.last_input_time == b.last_input_time,
        a.last_raw == b.last_raw,
        a.last_output_time == b.last_output_time,
        a.wobble.samples@ == b.wobble.samples@,
        a.position == b.position,
        a.stylus.samples@ == b.stylus.samples@,
        a.kalman == b.kalman,
{
}

/// The orchestrator.  All per-stroke state is reinitialized by `reset`,
/// `reset_w_params`, or a `Down` event; the frozen parameter bundle changes
/// only through `reset_w_params`.
#[derive(Debug)]
pub struct StrokeModeler {
    pub params: StrokeModelerParams,
    pub interval: i64,
    pub in_stroke: bool,
    pub last_input_time: i64,
    pub last_raw: (i64, i64),
    pub last_output_time: i64,
    pub wobble: WobbleSmoother,
    pub position: PositionModeler,
    pub stylus: StylusStateModeler,
    pub kalman: KalmanState,
}

impl StrokeModeler {
    /// The internal invariant: parameters valid and frozen, every component
    /// well formed, and — while a stroke is in progress — the component
    /// clocks all agree with the last accepted input.
    pub open spec fn wf(self) -> bool {
        &&& valid_params(self.params)
        &&& self.interval as int == interval_spec(self.params)
        &&& 1 <= self.interval <= TIME_MAX
        &&& self.wobble.wf()
        &&& self.position.wf()
        &&& self.stylus.wf(self.params.stylus_state_modeler_max_input_samples as int)
        &&& self.kalman.wf()
        &&& 0 <= self.last_input_time <= TIME_MAX
        &&& -COORD_MAX <= self.last_raw.0 <= COORD_MAX
        &&& -COORD_MAX <= self.last_raw.1 <= COORD_MAX
        &&& 0 <= self.last_output_time <= LIM
        &&& (self.in_stroke ==> {
            &&& self.stylus.samples@.len() > 0
            &&& self.stylus.samples@.last().time <= self.last_input_time
            &&& self.wobble.samples@.len() > 0
            &&& self.wobble.samples@.last().time <= self.last_input_time
            &&& self.position.time == self.last_input_time
            &&& self.last_output_time == self.last_input_time
            &&& match self.params.prediction_params {
                PredictionParams::Kalman(_) => self.kalman.num_samples > 0
                    && self.kalman.last_time <= self.last_input_time,
                PredictionParams::StrokeEnd => true,
            }
        })
    }

    /// A fresh modeler from an already validated bundle.
    fn fresh(params: StrokeModelerParams) -> (r: StrokeModeler)
        requires
            valid_params(params),
        ensures
            r.wf(),
            reset_post(r, params),
    {
        let interval = output_interval(&params);
        StrokeModeler {
            params,
            interval,
            in_stroke: false,
            last_input_time: 0,
            last_raw: (0, 0),
            last_output_time: 0,
            wobble: WobbleSmoother::new(),
            position: PositionModeler::anchored((0, 0), 0),
            stylus: StylusStateModeler::new(),
            kalman: KalmanState::empty(),
        }
    }

    /// Construct a modeler, or fail with `InvalidParams` exactly when the
    /// bundle fails validation.
    pub fn new(params: StrokeModelerParams) -> (r: Result<StrokeModeler, ModelerError>)
        ensures
            r is Ok <==> valid_params(params),
            r matches Ok(m) ==> m.wf() && reset_post(m, params),
            r is Err ==> r == Err::<StrokeModeler, ModelerError>(ModelerError::InvalidParams),
    {
        if !check_params(&params) {
            return Err(ModelerError::InvalidParams);
        }
        Ok(StrokeModeler::fresh(params))
    }

    /// Discard all stroke state and return to idle, keeping the frozen
    /// parameters.
    pub fn reset(&mut self)
        requires
            old(self).wf(),
        ensures
            final(self).wf(),
            reset_post(*final(self), old(self).params),
    {
        let params = self.params;
        *self = StrokeModeler::fresh(params);
    }

    /// Discard all stroke state and replace the parameter bundle; fails with
    /// `InvalidParams`, leaving the modeler untouched, exactly when the new
    /// bundle fails validation.
    pub fn reset_w_params(&mut self, params: StrokeModelerParams) -> (r: Result<(), ModelerError>)
        requires
            old(self).wf(),
        ensures
            final(self).wf(),
            r is Ok <==> valid_params(params),
            r is Ok ==> reset_post(*final(self), params),
            r is Err ==> *final(self) == *old(self) && r == Err::<(), ModelerError>(
                ModelerError::InvalidParams,
            ),
    {
        if !check_params(&params) {
            return Err(ModelerError::InvalidParams);
        }
        *self = StrokeModeler::fresh(params);
        Ok(())
    }
}


/// Integrate the position model once per resampled sub-step time, emitting
/// one sample per step with the interpolated stylus state.
#[verifier::loop_isolation(false)]
#[verifier::rlimit(100)]
#[verifier::spinoff_prover]
fn run_substeps(
    tip: &mut PositionModeler,
    stylus: &StylusStateModeler,
    times: &Vec<i64>,
    target: (i64, i64),
    smc: i64,
    drag: i64,
) -> (out: Vec<ModelerResult>)
    requires
        old(tip).wf(),
        stylus.wf_data(),
        stylus.samples@.len() > 0,
        -LIM <= target.0 <= LIM,
        -LIM <= target.1 <= LIM,
        1 <= smc <= LIM,
        1 <= drag <= LIM,
        times@.len() >= 1,
        times@[0] >= old(tip).time,
        forall|j: int| 0 <= j < times@.len() - 1 ==> #[trigger] times@[j] <= times@[j + 1],
        forall|j: int| 0 <= j < times@.len() ==> 0 <= #[trigger] times@[j] <= 2 * TIME_MAX,
    ensures
        final(tip).wf(),
        final(tip).time == times@.last(),
        out@.len() == times@.len(),
        forall|j: int| 0 <= j < out@.len() ==> (#[trigger] out@[j]).time == times@[j],
        results_wf(out@),
        out@.last().pos == final(tip).pos,
        out@.last().velocity == final(tip).vel,
        follows_model(
            out@,
            *old(tip),
            (target.0 as int, target.1 as int),
            smc as int,
            drag as int,
        ),
        times@.last() >= stylus.samples@.last().time && times@.last() > stylus.samples@[0].time
            ==> out@.last().pressure == stylus.samples@.last().pressure && out@.last().tilt
            == stylus.samples@.last().tilt && out@.last().orientation
            == stylus.samples@.last().orientation,
        times@.last() <= stylus.samples@[0].time ==> out@.last().pressure
            == stylus.samples@[0].pressure && out@.last().tilt == stylus.samples@[0].tilt
            && out@.last().orientation == stylus.samples@[0].orientation,
{
    let mut out: Vec<ModelerResult> = Vec::new();
    proof {
        reveal(follows_model);
        assert(follows_model(
            out@,
            *old(tip),
            (target.0 as int, target.1 as int),
            smc as int,
            drag as int,
        ));
    }
    let mut i: usize = 0;
    while i < times.len()
        invariant
            0 <= i <= times@.len(),
            out@.len() == i as int,
            tip.wf(),
            tip.time == if i == 0 {
                old(tip).time as int
            } else {
                times@[i - 1] as int
            },
            i == 0 ==> *tip == *old(tip),
            forall|j: int| 0 <= j < i ==> (#[trigger] out@[j]).time == times@[j],
            i > 0 ==> out@.last().pos == tip.pos,
            i > 0 ==> out@.last().velocity == tip.vel,
            follows_model(
                out@,
                *old(tip),
                (target.0 as int, target.1 as int),
                smc as int,
                drag as int,
            ),
            i > 0 && times@[i - 1] >= stylus.samples@.last().time && times@[i - 1]
                > stylus.samples@[0].time ==> out@.last().pressure
                == stylus.samples@.last().pressure && out@.last().tilt
                == stylus.samples@.last().tilt && out@.last().orientation
                == stylus.samples@.last().orientation,
            i > 0 && times@[i - 1] <= stylus.samples@[0].time ==> out@.last().pressure
                == stylus.samples@[0].pressure && out@.last().tilt == stylus.samples@[0].tilt
                && out@.last().orientation == stylus.samples@[0].orientation,
            results_wf(out@),
        decreases times@.len() - i,
    {
        let t = times[i];
        let ghost pre_tip = *tip;
        tip.update(target, t, smc, drag);
        let (pr, ti, or) = stylus.query(t);
        let ghost prior = out@;
        out.push(
            ModelerResult {
                pos: tip.pos,
                velocity: tip.vel,
                time: t,
                pressure: pr,
                tilt: ti,
                orientation: or,
            },
        );
        proof {
            assert(sample_follows(
                (pre_tip.pos.0 as int, pre_tip.pos.1 as int),
                (pre_tip.vel.0 as int, pre_tip.vel.1 as int),
                pre_tip.time as int,
                out@.last(),
                (target.0 as int, target.1 as int),
                smc as int,
                drag as int,
            )) by {
                reveal(sample_follows);
            }
            if prior.len() > 0 {
                assert(prior.last().time == pre_tip.time);
            }
            lemma_follows_model_push(
                prior,
                out@.last(),
                *old(tip),
                pre_tip,
                (target.0 as int, target.1 as int),
                smc as int,
                drag as int,
            );
            assert(out@ == prior.push(out@.last()));
        }
        i = i + 1;
    }
    out
}

/// The end-of-stroke settling loop: drive the tip toward `anchor` until it
/// is within the stopping distance `d`, for at most `maxit` extra steps; on
/// the last permitted step the tip is pinned to the anchor, so the stroke
/// always ends settled.  Appended samples are spaced exactly one `interval`
/// apart and the samples already in `out` are left untouched.
#[verifier::loop_isolation(false)]
#[verifier::rlimit(100)]
#[verifier::spinoff_prover]
fn settle_stroke(
    tip: &mut PositionModeler,
    out: &mut Vec<ModelerResult>,
    stylus: &StylusStateModeler,
    anchor: (i64, i64),
    d: i64,
    maxit: i32,
    interval: i64,
    smc: i64,
    drag: i64,
)
    requires
        old(tip).wf(),
        old(tip).time <= TIME_MAX,
        old(out)@.len() >= 1,
        old(out)@.last().pos == old(tip).pos,
        old(out)@.last().time == old(tip).time,
        times_monotone(old(out)@),
        results_wf(old(out)@),
        stylus.wf_data(),
        stylus.samples@.len() > 0,
        old(tip).time >= stylus.samples@.last().time,
        old(out)@.last().velocity == old(tip).vel,
        -COORD_MAX <= anchor.0 <= COORD_MAX,
        -COORD_MAX <= anchor.1 <= COORD_MAX,
        1 <= d <= COORD_MAX,
        1 <= maxit <= 1000,
        1 <= interval <= TIME_MAX,
        1 <= smc <= LIM,
        1 <= drag <= LIM,
    ensures
        final(tip).wf(),
        final(out)@.len() >= old(out)@.len(),
        final(out)@.len() <= old(out)@.len() + maxit as int,
        final(out)@.subrange(0, old(out)@.len() as int) =~= old(out)@,
        times_monotone(final(out)@),
        results_wf(final(out)@),
        forall|j: int|
            old(out)@.len() - 1 <= j < final(out)@.len() - 1 ==> final(out)@[j + 1].time - (
            #[trigger] final(out)@[j]).time <= interval,
        final(out)@.last().pos == final(tip).pos,
        final(out)@.last().velocity == final(tip).vel,
        final(out)@.last().time == final(tip).time,
        final(out)@.len() > old(out)@.len() ==> final(out)@.last().pressure
            == stylus.samples@.last().pressure && final(out)@.last().tilt
            == stylus.samples@.last().tilt && final(out)@.last().orientation
            == stylus.samples@.last().orientation,
        dist2_spec(
            final(tip).pos.0 as int,
            final(tip).pos.1 as int,
            anchor.0 as int,
            anchor.1 as int,
        ) <= d as int * d as int,
{
    proof {
        crate::stylus::lemma_history_lower(
            stylus.samples@,
            stylus.samples@.len() as int - 1,
        );
    }
    let ghost base_len = out@.len();
    let mut it: i32 = 0;
    let mut done = false;
    while it < maxit && !done
        invariant
            0 <= it <= maxit,
            tip.wf(),
            tip.time as int <= TIME_MAX as int + it as int * TIME_MAX as int,
            out@.len() >= 1,
            out@.len() <= base_len + it as int,
            out@.len() >= base_len,
            out@.subrange(0, base_len as int) =~= old(out)@,
            out@.last().pos == tip.pos,
            out@.last().velocity == tip.vel,
            out@.last().time == tip.time,
            tip.time >= stylus.samples@.last().time,
            stylus.samples@[0].time <= stylus.samples@.last().time,
            out@.len() > base_len ==> out@.last().pressure == stylus.samples@.last().pressure
                && out@.last().tilt == stylus.samples@.last().tilt && out@.last().orientation
                == stylus.samples@.last().orientation,
            results_wf(out@),
            times_monotone(out@),
            forall|j: int|
                base_len - 1 <= j < out@.len() - 1 ==> out@[j + 1].time - (#[trigger] out@[j]).time
                    <= interval,
            done ==> dist2_spec(
                tip.pos.0 as int,
                tip.pos.1 as int,
                anchor.0 as int,
                anchor.1 as int,
            ) <= d as int * d as int,
            it == maxit && !done ==> tip.pos == anchor,
        decreases 2 * ((maxit - it) as int) + (if done {
            0int
        } else {
            1int
        }),
    {
        if crate::fixed::within_dist(tip.pos.0, tip.pos.1, anchor.0, anchor.1, d) {
            done = true;
        } else {
            let t_next = tip.time + interval;
            if it + 1 == maxit {
                let vx = fx_div(fx_sub(anchor.0, tip.pos.0), interval);
                let vy = fx_div(fx_sub(anchor.1, tip.pos.1), interval);
                *tip = PositionModeler { pos: anchor, vel: (vx, vy), time: t_next };
            } else {
                tip.update(anchor, t_next, smc, drag);
            }
            let (pr, ti, or) = stylus.query(t_next);
            out.push(
                ModelerResult {
                    pos: tip.pos,
                    velocity: tip.vel,
                    time: t_next,
                    pressure: pr,
                    tilt: ti,
                    orientation: or,
                },
            );
            proof {
                assert(out@.subrange(0, base_len as int) =~= old(out)@);
            }
            it = it + 1;
        }
    }
    proof {
        if !done {
            let a0 = anchor.0 as int;
            let a1 = anchor.1 as int;
            assert((a0 - a0) * (a0 - a0) == 0 && (a1 - a1) * (a1 - a1) == 0) by (nonlinear_arith);
            assert(dist2_spec(
                tip.pos.0 as int,
                tip.pos.1 as int,
                anchor.0 as int,
                anchor.1 as int,
            ) == 0);
        }
    }
}

impl StrokeModeler {
    /// Feed one input event through the pipeline.
    ///
    /// A `Down` (in any state) starts a new stroke: stroke-local state is
    /// reinitialized and the single returned sample sits exactly at the raw
    /// input.  A `Move` or `Up` while idle fails with
    /// `InvalidStateTransition`; one whose time lies before the stroke's
    /// last recorded time fails with `NonMonotonicTime`; a failed call
    /// leaves the modeler untouched.  An accepted `Move` or `Up` runs the
    /// wobble smoother, records the stylus state, and integrates the
    /// position model across the resampled sub-step times; an `Up`
    /// additionally settles the stroke onto the final raw position and
    /// returns the modeler to idle.
    #[verifier::loop_isolation(false)]
    #[verifier::rlimit(100)]
    #[verifier::spinoff_prover]
    pub fn update(&mut self, input: ModelerInput) -> (r: Result<Vec<ModelerResult>, ModelerError>)
        requires
            old(self).wf(),
            input.wf(),
        ensures
            final(self).wf(),
            final(self).params == old(self).params,
            final(self).interval == old(self).interval,
            // exactly these calls fail, and a failed call changes nothing
            r is Err <==> (!old(self).in_stroke && input.event_type != ModelerInputEventType::kDown)
                || (old(self).in_stroke && input.event_type != ModelerInputEventType::kDown
                && input.time < old(self).last_input_time),
            !old(self).in_stroke && input.event_type != ModelerInputEventType::kDown ==> r == Err::<
                Vec<ModelerResult>,
                ModelerError,
            >(ModelerError::InvalidStateTransition),
            old(self).in_stroke && input.event_type != ModelerInputEventType::kDown && input.time
                < old(self).last_input_time ==> r == Err::<Vec<ModelerResult>, ModelerError>(
                ModelerError::NonMonotonicTime,
            ),
            r is Err ==> *final(self) == *old(self),
            // an accepted call emits an ordered, well-formed, nonempty batch
            r matches Ok(out) ==> out@.len() >= 1 && results_wf(out@) && times_monotone(out@)
                && final(self).last_output_time == out@.last().time,
            // the bounded history never outgrows its capacity
            r is Ok ==> final(self).stylus.samples@.len() <= old(
                self,
            ).params.stylus_state_modeler_max_input_samples as int,
            // a Down yields exactly the raw input back
            r matches Ok(out) ==> (input.event_type == ModelerInputEventType::kDown ==> out@.len()
                == 1 && out@[0] == (ModelerResult {
                pos: input.pos,
                velocity: (0i64, 0i64),
                time: input.time,
                pressure: input.pressure,
                tilt: input.tilt,
                orientation: input.orientation,
            }) && final(self).in_stroke && final(self).last_input_time == input.time),
            // a Down reinitializes the predictor state: the Kalman filter has
            // seen exactly the one new sample
            r is Ok && input.event_type == ModelerInputEventType::kDown
                ==> match old(self).params.prediction_params {
                PredictionParams::Kalman(_) => final(self).kalman.num_samples == 1,
                PredictionParams::StrokeEnd => final(self).kalman
                    == crate::kalman::kalman_empty_spec(),
            },
            // the stylus history after the call: the new record appended,
            // the oldest entry evicted first (FIFO) once the capacity is
            // reached, and nothing else changed
            r is Ok && input.event_type == ModelerInputEventType::kDown
                ==> final(self).stylus.samples@ =~= Seq::<StylusSample>::empty().push(
                stylus_record_of(input),
            ),
            r is Ok && input.event_type != ModelerInputEventType::kDown
                ==> final(self).stylus.samples@ == if old(self).stylus.samples@.len()
                < old(self).params.stylus_state_modeler_max_input_samples as int {
                old(self).stylus.samples@.push(stylus_record_of(input))
            } else {
                old(self).stylus.samples@.subrange(1, old(self).stylus.samples@.len() as int).push(
                    stylus_record_of(input),
                )
            },
            // the final sample is the modeled tip the modeler keeps, and its
            // stylus values are the input's (the interpolation clamps to the
            // newest record)
            r matches Ok(out) ==> out@.last().pos == final(self).position.pos && out@.last().velocity
                == final(self).position.vel,
            r matches Ok(out) ==> (input.event_type != ModelerInputEventType::kDown && input.time
                > old(self).last_input_time ==> out@.last().pressure == input.pressure
                && out@.last().tilt == input.tilt && out@.last().orientation == input.orientation),
            // within a stroke, output time carries on from the previous call
            r matches Ok(out) ==> (input.event_type != ModelerInputEventType::kDown ==> out@[0].time
                >= old(self).last_output_time),
            // the minimum output rate is honored whenever the per-call cap
            // does not truncate the batch
            r matches Ok(out) ==> (input.event_type != ModelerInputEventType::kDown && input.time
                - old(self).last_input_time <= old(self).params.sampling_max_outputs_per_call as int
                * old(self).interval as int ==> out@[0].time - old(self).last_output_time <= old(
                self,
            ).interval && gaps_within(out@, old(self).interval as int)),
            // a Move keeps the stroke open and ends at the input's time
            r is Ok && input.event_type == ModelerInputEventType::kMove ==> final(self).in_stroke
                && final(self).last_input_time == input.time && final(self).last_output_time
                == input.time,
            // an Up settles within the stopping distance of the final raw
            // position, in at most the configured extra iterations, and
            // closes the stroke
            r is Ok && input.event_type == ModelerInputEventType::kUp ==> !final(self).in_stroke,
            r matches Ok(out) ==> (input.event_type == ModelerInputEventType::kUp ==> dist2_spec(
                out@.last().pos.0 as int,
                out@.last().pos.1 as int,
                input.pos.0 as int,
                input.pos.1 as int,
            ) <= old(self).params.sampling_end_of_stroke_stopping_distance as int * old(
                self,
            ).params.sampling_end_of_stroke_stopping_distance as int && out@.len() <= old(
                self,
            ).params.sampling_max_outputs_per_call as int + old(
                self,
            ).params.sampling_end_of_stroke_max_iterations as int),
            r matches Ok(out) ==> (input.event_type == ModelerInputEventType::kMove ==> out@.len()
                <= old(self).params.sampling_max_outputs_per_call as int),
            // a Move batch is the position model stepped toward the
            // wobble-smoothed target once per sub-step time
            r matches Ok(out) ==> (input.event_type == ModelerInputEventType::kMove
                ==> follows_model(
                out@,
                old(self).position,
                crate::wobble::smoothed_spec(
                    final(self).wobble.samples@,
                    input.pos.0 as int,
                    input.pos.1 as int,
                    old(self).params.wobble_smoother_speed_floor as int,
                    old(self).params.wobble_smoother_speed_ceiling as int,
                ),
                old(self).params.position_modeler_spring_mass_constant as int,
                old(self).params.position_modeler_drag_constant as int,
            )),
    {
        let p = self.params;
        let interval = self.interval;
        match input.event_type {
            ModelerInputEventType::kDown => {
                // a Down always starts a new stroke: reinitialize the
                // stroke-local state, keeping the frozen parameters
                self.wobble = WobbleSmoother::new();
                self.stylus = StylusStateModeler::new();
                self.kalman = KalmanState::empty();
                let _seed = self.wobble.filter(
                    input.pos.0,
                    input.pos.1,
                    input.time,
                    p.wobble_smoother_speed_floor,
                    p.wobble_smoother_speed_ceiling,
                    p.wobble_smoother_timeout,
                );
                self.position = PositionModeler::anchored(input.pos, input.time);
                self.stylus.record(
                    StylusSample {
                        time: input.time,
                        pressure: input.pressure,
                        tilt: input.tilt,
                        orientation: input.orientation,
                    },
                    p.stylus_state_modeler_max_input_samples,
                );
                match p.prediction_params {
                    PredictionParams::Kalman(k) => {
                        self.kalman.observe(input.pos.0, input.pos.1, input.time, &k);
                    },
                    PredictionParams::StrokeEnd => {},
                }
                self.in_stroke = true;
                self.last_input_time = input.time;
                self.last_raw = input.pos;
                self.last_output_time = input.time;
                let mut out: Vec<ModelerResult> = Vec::new();
                out.push(
                    ModelerResult {
                        pos: input.pos,
                        velocity: (0, 0),
                        time: input.time,
                        pressure: input.pressure,
                        tilt: input.tilt,
                        orientation: input.orientation,
                    },
                );
                Ok(out)
            },
            _ => {
                if !self.in_stroke {
                    return Err(ModelerError::InvalidStateTransition);
                }
                if input.time < self.last_input_time {
                    return Err(ModelerError::NonMonotonicTime);
                }
                Ok(self.continue_stroke(input))
            },
        }
    }

    /// An accepted `Move` or `Up`: the wobble smoother filters the raw
    /// position, the stylus state is recorded, the position model is
    /// integrated across the resampled sub-step times, and an `Up`
    /// additionally settles the stroke onto the final raw position and
    /// closes it.
    #[verifier::loop_isolation(false)]
    #[verifier::rlimit(100)]
    #[verifier::spinoff_prover]
    fn continue_stroke(&mut self, input: ModelerInput) -> (out: Vec<ModelerResult>)
        requires
            old(self).wf(),
            old(self).in_stroke,
            input.wf(),
            input.event_type != ModelerInputEventType::kDown,
            input.time >= old(self).last_input_time,
        ensures
            final(self).wf(),
            final(self).params == old(self).params,
            final(self).interval == old(self).interval,
            out@.len() >= 1,
            results_wf(out@),
            times_monotone(out@),
            final(self).last_output_time == out@.last().time,
            final(self).stylus.samples@ == if old(self).stylus.samples@.len()
                < old(self).params.stylus_state_modeler_max_input_samples as int {
                old(self).stylus.samples@.push(stylus_record_of(input))
            } else {
                old(self).stylus.samples@.subrange(1, old(self).stylus.samples@.len() as int).push(
                    stylus_record_of(input),
                )
            },
            out@.last().pos == final(self).position.pos,
            out@.last().velocity == final(self).position.vel,
            input.time > old(self).last_input_time ==> out@.last().pressure == input.pressure
                && out@.last().tilt == input.tilt && out@.last().orientation == input.orientation,
            out@[0].time >= old(self).last_output_time,
            input.time - old(self).last_input_time
                <= old(self).params.sampling_max_outputs_per_call as int
                * old(self).interval as int ==> out@[0].time - old(self).last_output_time
                <= old(self).interval && gaps_within(out@, old(self).interval as int),
            input.event_type == ModelerInputEventType::kMove ==> final(self).in_stroke
                && final(self).last_input_time == input.time && final(self).last_output_time
                == input.time && out@.len()
                <= old(self).params.sampling_max_outputs_per_call as int,
            // a Move batch is exactly the position model stepped toward the
            // wobble-smoothed target once per sub-step time
            input.event_type == ModelerInputEventType::kMove ==> follows_model(
                out@,
                old(self).position,
                crate::wobble::smoothed_spec(
                    final(self).wobble.samples@,
                    input.pos.0 as int,
                    input.pos.1 as int,
                    old(self).params.wobble_smoother_speed_floor as int,
                    old(self).params.wobble_smoother_speed_ceiling as int,
                ),
                old(self).params.position_modeler_spring_mass_constant as int,
                old(self).params.position_modeler_drag_constant as int,
            ),
            input.event_type == ModelerInputEventType::kUp ==> !final(self).in_stroke
                && dist2_spec(
                out@.last().pos.0 as int,
                out@.last().pos.1 as int,
                input.pos.0 as int,
                input.pos.1 as int,
            ) <= old(self).params.sampling_end_of_stroke_stopping_distance as int
                * old(self).params.sampling_end_of_stroke_stopping_distance as int && out@.len()
                <= old(self).params.sampling_max_outputs_per_call as int
                + old(self).params.sampling_end_of_stroke_max_iterations as int,
    {
        let p = self.params;
        let interval = self.interval;
        let t_prev = self.last_input_time;
        let (sx, sy) = self.wobble.filter(
            input.pos.0,
            input.pos.1,
            input.time,
            p.wobble_smoother_speed_floor,
            p.wobble_smoother_speed_ceiling,
            p.wobble_smoother_timeout,
        );
        self.stylus.record(
            StylusSample {
                time: input.time,
                pressure: input.pressure,
                tilt: input.tilt,
                orientation: input.orientation,
            },
            p.stylus_state_modeler_max_input_samples,
        );
        let times = resample_times(
            t_prev,
            input.time,
            interval,
            p.sampling_max_outputs_per_call,
        );
        let mut tip = self.position;
        let mut out: Vec<ModelerResult> = run_substeps(
            &mut tip,
            &self.stylus,
            &times,
            (sx, sy),
            p.position_modeler_spring_mass_constant,
            p.position_modeler_drag_constant,
        );
        proof {
            assert forall|j: int| 0 <= j < out@.len() - 1 implies (
            #[trigger] out@[j]).time <= out@[j + 1].time by {
                assert(out@[j].time == times@[j]);
                assert(out@[j + 1].time == times@[j + 1]);
            }
            if input.time - t_prev <= p.sampling_max_outputs_per_call as int
                * interval as int {
                assert forall|j: int| 0 <= j < out@.len() - 1 implies out@[j + 1].time - (
                #[trigger] out@[j]).time <= interval by {
                    assert(out@[j].time == times@[j]);
                    assert(out@[j + 1].time == times@[j + 1]);
                }
            }
            assert(out@[0].time == times@[0]);
        }
        let ghost pre_out = out@;
        match p.prediction_params {
            PredictionParams::Kalman(k) => {
                self.kalman.observe(input.pos.0, input.pos.1, input.time, &k);
            },
            PredictionParams::StrokeEnd => {},
        }
        self.last_input_time = input.time;
        self.last_raw = input.pos;
        let is_up = match input.event_type {
            ModelerInputEventType::kUp => true,
            _ => false,
        };
        if is_up {
            // end-of-stroke settling: re-target the final raw
            // position and close the stroke
            settle_stroke(
                &mut tip,
                &mut out,
                &self.stylus,
                input.pos,
                p.sampling_end_of_stroke_stopping_distance,
                p.sampling_end_of_stroke_max_iterations,
                interval,
                p.position_modeler_spring_mass_constant,
                p.position_modeler_drag_constant,
            );
            proof {
                assert forall|j: int| 0 <= j < pre_out.len() implies out@[j] == pre_out[j] by {
                    assert(out@.subrange(0, pre_out.len() as int)[j] == out@[j]);
                }
                if input.time - t_prev <= p.sampling_max_outputs_per_call as int
                    * interval as int {
                    assert forall|j: int| 0 <= j < out@.len() - 1 implies out@[j + 1].time
                        - (#[trigger] out@[j]).time <= interval by {
                        if j < pre_out.len() - 1 {
                            assert(out@[j] == pre_out[j] && out@[j + 1] == pre_out[j + 1]);
                        }
                    }
                }
            }
            self.in_stroke = false;
        }
        self.position = tip;
        let last_t = out[out.len() - 1].time;
        self.last_output_time = last_t;
        proof {
            let stl = self.stylus.samples@;
            if input.time > old(self).last_input_time {
                assert(stl.last() == stylus_record_of(input));
                if stl.len() >= 2 {
                    if old(self).stylus.samples@.len()
                        < p.stylus_state_modeler_max_input_samples as int {
                        assert(stl[0] == old(self).stylus.samples@[0]);
                        crate::stylus::lemma_history_upper(old(self).stylus.samples@, 0);
                    } else {
                        assert(stl[0] == old(self).stylus.samples@[1]);
                        crate::stylus::lemma_history_upper(old(self).stylus.samples@, 1);
                    }
                    assert(stl[0].time < input.time);
                } else {
                    assert(stl[0] == stylus_record_of(input));
                }
                assert(out@.last().pressure == input.pressure && out@.last().tilt == input.tilt
                    && out@.last().orientation == input.orientation);
            }
        }
        out
    }
}


impl StrokeModeler {
    /// Run the configured predictor against the current stroke state,
    /// without consuming input and without disturbing any state: the
    /// returned samples are speculative, ordered, and begin no earlier than
    /// the last emitted sample.  An empty batch means "no reliable
    /// prediction available"; the call never fails.
    ///
    /// The Kalman variant emits nothing until it has seen
    /// `min_stable_iteration` samples and its confidence has reached the
    /// emission threshold; prediction degrades to no prediction, never to an
    /// unreliable one.
    #[verifier::loop_isolation(false)]
    #[verifier::rlimit(100)]
    #[verifier::spinoff_prover]
    pub fn predict(&mut self) -> (r: Vec<ModelerResult>)
        requires
            old(self).wf(),
        ensures
            *final(self) == *old(self),
            !old(self).in_stroke ==> r@.len() == 0,
            times_monotone(r@),
            results_wf(r@),
            r@.len() > 0 ==> r@[0].time >= old(self).last_output_time,
            r@.len() <= old(self).params.sampling_max_outputs_per_call as int,
            // the Kalman predictor is gated on stability and confidence
            old(self).in_stroke ==> match old(self).params.prediction_params {
                PredictionParams::Kalman(k) => r@.len() > 0 <==> old(self).kalman.num_samples
                    >= k.min_stable_iteration && confidence_spec(
                    old(self).kalman,
                    old(self).last_raw,
                    k,
                ) >= PREDICTION_CONFIDENCE_THRESHOLD,
                PredictionParams::StrokeEnd => true,
            },
            // the stroke-end variant owes samples while the tip still trails
            // the last raw input by more than the stopping distance, and
            // every emitted sample is one position-model step re-targeting
            // that input, one interval apart
            old(self).in_stroke && old(self).params.prediction_params
                == PredictionParams::StrokeEnd ==> (r@.len() == 0 ==> dist2_spec(
                old(self).position.pos.0 as int,
                old(self).position.pos.1 as int,
                old(self).last_raw.0 as int,
                old(self).last_raw.1 as int,
            ) <= old(self).params.sampling_end_of_stroke_stopping_distance as int
                * old(self).params.sampling_end_of_stroke_stopping_distance as int)
                && follows_model(
                r@,
                old(self).position,
                (old(self).last_raw.0 as int, old(self).last_raw.1 as int),
                old(self).params.position_modeler_spring_mass_constant as int,
                old(self).params.position_modeler_drag_constant as int,
            ) && (forall|j: int|
                0 <= j < r@.len() ==> (#[trigger] r@[j]).time == (if j == 0 {
                    old(self).position.time as int
                } else {
                    r@[j - 1].time as int
                }) + old(self).interval),
            // the Kalman variant, when it emits, covers the whole prediction
            // horizon with the proportional spacing, and each sample is the
            // open-loop propagation: velocity advanced by the weighted
            // acceleration, position integrating the emitted velocity
            old(self).in_stroke ==> match old(self).params.prediction_params {
                PredictionParams::Kalman(k) => r@.len() > 0 ==> {
                    &&& r@.len() as int == crate::resample::n_steps_spec(
                        k.prediction_interval as int,
                        old(self).interval as int,
                        old(self).params.sampling_max_outputs_per_call as int,
                    )
                    &&& forall|j: int|
                        0 <= j < r@.len() ==> (#[trigger] r@[j]).time == old(
                            self,
                        ).last_output_time + crate::resample::step_offset(
                            k.prediction_interval as int,
                            r@.len() as int,
                            j + 1,
                        )
                    &&& r@[0].velocity.0 as int == crate::fixed::fxs_add(
                        old(self).kalman.vel.0 as int,
                        crate::fixed::fxs_mul(
                            crate::fixed::fxs_mul(
                                k.acceleration_weight as int,
                                old(self).kalman.acc.0 as int,
                            ),
                            r@[0].time - old(self).last_output_time,
                        ),
                    )
                    &&& r@[0].velocity.1 as int == crate::fixed::fxs_add(
                        old(self).kalman.vel.1 as int,
                        crate::fixed::fxs_mul(
                            crate::fixed::fxs_mul(
                                k.acceleration_weight as int,
                                old(self).kalman.acc.1 as int,
                            ),
                            r@[0].time - old(self).last_output_time,
                        ),
                    )
                    &&& r@[0].pos.0 as int == crate::fixed::fxs_add(
                        old(self).kalman.pos.0 as int,
                        crate::fixed::fxs_mul(
                            r@[0].velocity.0 as int,
                            r@[0].time - old(self).last_output_time,
                        ),
                    )
                    &&& r@[0].pos.1 as int == crate::fixed::fxs_add(
                        old(self).kalman.pos.1 as int,
                        crate::fixed::fxs_mul(
                            r@[0].velocity.1 as int,
                            r@[0].time - old(self).last_output_time,
                        ),
                    )
                    &&& forall|j: int|
                        1 <= j < r@.len() ==> (#[trigger] r@[j]).pos.0 as int
                            == crate::fixed::fxs_add(
                            r@[j - 1].pos.0 as int,
                            crate::fixed::fxs_mul(
                                r@[j].velocity.0 as int,
                                r@[j].time - r@[j - 1].time,
                            ),
                        ) && r@[j].pos.1 as int == crate::fixed::fxs_add(
                            r@[j - 1].pos.1 as int,
                            crate::fixed::fxs_mul(
                                r@[j].velocity.1 as int,
                                r@[j].time - r@[j - 1].time,
                            ),
                        )
                },
                PredictionParams::StrokeEnd => true,
            },
    {
        if !self.in_stroke {
            return Vec::new();
        }
        let p = self.params;
        let interval = self.interval;
        match p.prediction_params {
            PredictionParams::StrokeEnd => {
                // project the remaining catch-up motion of the position
                // model toward the last raw input, on a scratch copy
                let mut tip = self.position;
                let mut out: Vec<ModelerResult> = Vec::new();
                proof {
                    reveal(follows_model);
                    assert(follows_model(
                        out@,
                        self.position,
                        (self.last_raw.0 as int, self.last_raw.1 as int),
                        p.position_modeler_spring_mass_constant as int,
                        p.position_modeler_drag_constant as int,
                    ));
                }
                let cap = p.sampling_max_outputs_per_call;
                let mut it: i32 = 0;
                let mut done = false;
                while it < cap && !done
                    invariant
                        0 <= it <= cap,
                        tip.wf(),
                        tip.time as int <= self.last_output_time as int + it as int
                            * TIME_MAX as int,
                        out@.len() == it as int,
                        it == 0 ==> tip == self.position,
                        it > 0 ==> tip.time > self.last_output_time,
                        out@.len() > 0 ==> out@.last().time == tip.time,
                        out@.len() > 0 ==> out@.last().pos == tip.pos,
                        out@.len() > 0 ==> out@.last().velocity == tip.vel,
                        out@.len() > 0 ==> out@[0].time >= self.last_output_time,
                        follows_model(
                            out@,
                            self.position,
                            (self.last_raw.0 as int, self.last_raw.1 as int),
                            p.position_modeler_spring_mass_constant as int,
                            p.position_modeler_drag_constant as int,
                        ),
                        forall|j: int|
                            0 <= j < out@.len() ==> (#[trigger] out@[j]).time == (if j == 0 {
                                self.position.time as int
                            } else {
                                out@[j - 1].time as int
                            }) + interval,
                        done ==> dist2_spec(
                            tip.pos.0 as int,
                            tip.pos.1 as int,
                            self.last_raw.0 as int,
                            self.last_raw.1 as int,
                        ) <= p.sampling_end_of_stroke_stopping_distance as int
                            * p.sampling_end_of_stroke_stopping_distance as int,
                        times_monotone(out@),
                        results_wf(out@),
                    decreases 2 * ((cap - it) as int) + (if done {
                        0int
                    } else {
                        1int
                    }),
                {
                    if crate::fixed::within_dist(
                        tip.pos.0,
                        tip.pos.1,
                        self.last_raw.0,
                        self.last_raw.1,
                        p.sampling_end_of_stroke_stopping_distance,
                    ) {
                        done = true;
                    } else {
                        let t_next = tip.time + interval;
                        let ghost pre_tip = tip;
                        let ghost prior = out@;
                        tip.update(
                            self.last_raw,
                            t_next,
                            p.position_modeler_spring_mass_constant,
                            p.position_modeler_drag_constant,
                        );
                        let (pr, ti, or) = self.stylus.query(t_next);
                        out.push(
                            ModelerResult {
                                pos: tip.pos,
                                velocity: tip.vel,
                                time: t_next,
                                pressure: pr,
                                tilt: ti,
                                orientation: or,
                            },
                        );
                        proof {
                            assert(sample_follows(
                                (pre_tip.pos.0 as int, pre_tip.pos.1 as int),
                                (pre_tip.vel.0 as int, pre_tip.vel.1 as int),
                                pre_tip.time as int,
                                out@.last(),
                                (self.last_raw.0 as int, self.last_raw.1 as int),
                                p.position_modeler_spring_mass_constant as int,
                                p.position_modeler_drag_constant as int,
                            )) by {
                                reveal(sample_follows);
                            }
                            lemma_follows_model_push(
                                prior,
                                out@.last(),
                                self.position,
                                pre_tip,
                                (self.last_raw.0 as int, self.last_raw.1 as int),
                                p.position_modeler_spring_mass_constant as int,
                                p.position_modeler_drag_constant as int,
                            );
                            assert(out@ == prior.push(out@.last()));
                        }
                        it = it + 1;
                    }
                }
                out
            },
            PredictionParams::Kalman(k) => {
                if self.kalman.num_samples < k.min_stable_iteration {
                    return Vec::new();
                }
                let conf = kalman_confidence(&self.kalman, self.last_raw, &k);
                if conf < PREDICTION_CONFIDENCE_THRESHOLD {
                    return Vec::new();
                }
                // open-loop propagation of the filter state across the
                // prediction horizon, weighting the acceleration and jerk
                // contributions as configured
                let horizon_end = self.last_output_time + k.prediction_interval;
                let times = resample_times(
                    self.last_output_time,
                    horizon_end,
                    interval,
                    p.sampling_max_outputs_per_call,
                );
                let mut px = self.kalman.pos.0;
                let mut py = self.kalman.pos.1;
                let mut vx = self.kalman.vel.0;
                let mut vy = self.kalman.vel.1;
                let mut ax = self.kalman.acc.0;
                let mut ay = self.kalman.acc.1;
                let mut t_prev = self.last_output_time;
                let mut out: Vec<ModelerResult> = Vec::new();
                let mut i: usize = 0;
                while i < times.len()
                    invariant
                        0 <= i <= times@.len(),
                        out@.len() == i as int,
                        -LIM <= px <= LIM,
                        -LIM <= py <= LIM,
                        -LIM <= vx <= LIM,
                        -LIM <= vy <= LIM,
                        -LIM <= ax <= LIM,
                        -LIM <= ay <= LIM,
                        t_prev == if i == 0 {
                            self.last_output_time as int
                        } else {
                            times@[i - 1] as int
                        },
                        i == 0 ==> px == self.kalman.pos.0 && py == self.kalman.pos.1 && vx
                            == self.kalman.vel.0 && vy == self.kalman.vel.1 && ax
                            == self.kalman.acc.0 && ay == self.kalman.acc.1,
                        i > 0 ==> out@.last().pos == (px, py),
                        forall|j: int| 0 <= j < i ==> (#[trigger] out@[j]).time == times@[j],
                        i > 0 ==> out@[0].velocity.0 as int == crate::fixed::fxs_add(
                            self.kalman.vel.0 as int,
                            crate::fixed::fxs_mul(
                                crate::fixed::fxs_mul(
                                    k.acceleration_weight as int,
                                    self.kalman.acc.0 as int,
                                ),
                                out@[0].time - self.last_output_time,
                            ),
                        ) && out@[0].velocity.1 as int == crate::fixed::fxs_add(
                            self.kalman.vel.1 as int,
                            crate::fixed::fxs_mul(
                                crate::fixed::fxs_mul(
                                    k.acceleration_weight as int,
                                    self.kalman.acc.1 as int,
                                ),
                                out@[0].time - self.last_output_time,
                            ),
                        ) && out@[0].pos.0 as int == crate::fixed::fxs_add(
                            self.kalman.pos.0 as int,
                            crate::fixed::fxs_mul(
                                out@[0].velocity.0 as int,
                                out@[0].time - self.last_output_time,
                            ),
                        ) && out@[0].pos.1 as int == crate::fixed::fxs_add(
                            self.kalman.pos.1 as int,
                            crate::fixed::fxs_mul(
                                out@[0].velocity.1 as int,
                                out@[0].time - self.last_output_time,
                            ),
                        ),
                        forall|j: int|
                            1 <= j < i ==> (#[trigger] out@[j]).pos.0 as int
                                == crate::fixed::fxs_add(
                                out@[j - 1].pos.0 as int,
                                crate::fixed::fxs_mul(
                                    out@[j].velocity.0 as int,
                                    out@[j].time - out@[j - 1].time,
                                ),
                            ) && out@[j].pos.1 as int == crate::fixed::fxs_add(
                                out@[j - 1].pos.1 as int,
                                crate::fixed::fxs_mul(
                                    out@[j].velocity.1 as int,
                                    out@[j].time - out@[j - 1].time,
                                ),
                            ),
                        results_wf(out@),
                    decreases times@.len() - i,
                {
                    let t = times[i];
                    let dt = t - t_prev;
                    vx = crate::fixed::fx_add(
                        vx,
                        crate::fixed::fx_mul(crate::fixed::fx_mul(k.acceleration_weight, ax), dt),
                    );
                    vy = crate::fixed::fx_add(
                        vy,
                        crate::fixed::fx_mul(crate::fixed::fx_mul(k.acceleration_weight, ay), dt),
                    );
                    ax = crate::fixed::fx_add(
                        ax,
                        crate::fixed::fx_mul(
                            crate::fixed::fx_mul(k.jerk_weight, self.kalman.jerk.0),
                            dt,
                        ),
                    );
                    ay = crate::fixed::fx_add(
                        ay,
                        crate::fixed::fx_mul(
                            crate::fixed::fx_mul(k.jerk_weight, self.kalman.jerk.1),
                            dt,
                        ),
                    );
                    px = crate::fixed::fx_add(px, crate::fixed::fx_mul(vx, dt));
                    py = crate::fixed::fx_add(py, crate::fixed::fx_mul(vy, dt));
                    let (pr, ti, or) = self.stylus.query(t);
                    out.push(
                        ModelerResult {
                            pos: (px, py),
                            velocity: (vx, vy),
                            time: t,
                            pressure: pr,
                            tilt: ti,
                            orientation: or,
                        },
                    );
                    t_prev = t;
                    i = i + 1;
                }
                proof {
                    assert forall|j: int| 0 <= j < out@.len() - 1 implies (
                    #[trigger] out@[j]).time <= out@[j + 1].time by {
                        assert(out@[j].time == times@[j]);
                        assert(out@[j + 1].time == times@[j + 1]);
                    }
                    assert(out@[0].time == times@[0]);
                }
                out
            },
        }
    }
}

impl Default for StrokeModeler {
    /// A modeler over the suggested default configuration: exactly the state
    /// that `new(StrokeModelerParams::suggested())` constructs.
    fn default() -> (r: StrokeModeler)
        ensures
            r.wf(),
            reset_post(r, crate::params::suggested_params_spec()),
    {
        StrokeModeler::fresh(StrokeModelerParams::suggested())
    }
}

} // verus!
