//! Configuration bundles, validated once at construction or reset and then
//! frozen, so that the per-sample path never re-checks them.

use vstd::prelude::*;
use crate::fixed::{FP, TIME_MAX, COORD_MAX, LIM};

verus! {

/// Largest admissible iteration or sample-count parameter.
pub const COUNT_MAX: i32 = 1000;

/// Largest admissible history capacity.
pub const HISTORY_MAX: i32 = 1_000_000;

/// Largest admissible minimum output rate (fixed-point samples per second);
/// at this rate the output interval is a single tick.
pub const RATE_MAX: i64 = 1_000_000_000_000;

/// Tuning of the Kalman-filter predictor, fixed-point where dimensioned.
#[derive(Debug, Clone, Copy, PartialEq, Eq, Structural, PartialOrd)]
pub struct KalmanPredictorParams {
    pub process_noise: i64,
    pub measurement_noise: i64,
    pub min_stable_iteration: i32,
    pub max_time_samples: i32,
    pub min_catchup_velocity: i64,
    pub acceleration_weight: i64,
    pub jerk_weight: i64,
    pub prediction_interval: i64,
    pub confidence_desired_number_of_samples: i32,
    pub confidence_max_estimation_distance: i64,
    pub confidence_min_travel_speed: i64,
    pub confidence_max_travel_speed: i64,
    pub confidence_max_linear_deviation: i64,
    pub confidence_baseline_linearity_confidence: i64,
}

/// Which latency-hiding predictor runs, chosen once at construction.
#[derive(Debug, Clone, Copy, PartialEq, Eq, Structural, PartialOrd)]
pub enum PredictionParams {
    StrokeEnd,
    Kalman(KalmanPredictorParams),
}

/// The full frozen configuration of a [`crate::StrokeModeler`].
#[derive(Debug, Clone, Copy, PartialEq, Eq, Structural, PartialOrd)]
pub struct StrokeModelerParams {
    pub wobble_smoother_timeout: i64,
    pub wobble_smoother_speed_floor: i64,
    pub wobble_smoother_speed_ceiling: i64,
    pub position_modeler_spring_mass_constant: i64,
    pub position_modeler_drag_constant: i64,
    pub sampling_min_output_rate: i64,
    pub sampling_end_of_stroke_stopping_distance: i64,
    pub sampling_end_of_stroke_max_iterations: i32,
    pub sampling_max_outputs_per_call: i32,
    pub stylus_state_modeler_max_input_samples: i32,
    pub prediction_params: PredictionParams,
}

/// Validity of the Kalman predictor tuning: noises and the prediction
/// horizon strictly positive, counts in range, speeds ordered.
pub open spec fn valid_kalman_params(k: KalmanPredictorParams) -> bool {
    &&& 1 <= k.process_noise <= RATE_MAX
    &&& 1 <= k.measurement_noise <= RATE_MAX
    &&& 1 <= k.min_stable_iteration <= COUNT_MAX
    &&& 1 <= k.max_time_samples <= COUNT_MAX
    &&& 0 <= k.min_catchup_velocity <= LIM
    &&& -LIM <= k.acceleration_weight <= LIM
    &&& -LIM <= k.jerk_weight <= LIM
    &&& 1 <= k.prediction_interval <= TIME_MAX
    &&& 1 <= k.confidence_desired_number_of_samples <= COUNT_MAX
    &&& 1 <= k.confidence_max_estimation_distance <= LIM
    &&& 0 <= k.confidence_min_travel_speed <= k.confidence_max_travel_speed <= LIM
    &&& 1 <= k.confidence_max_linear_deviation <= LIM
    &&& 0 <= k.confidence_baseline_linearity_confidence <= FP
}

/// Validity of a whole configuration: every rate and time constant strictly
/// positive, the wobble speed thresholds ordered, counts within machine
/// limits.  Construction and reset accept exactly these bundles.
pub open spec fn valid_params(p: StrokeModelerParams) -> bool {
    &&& 1 <= p.wobble_smoother_timeout <= TIME_MAX
    &&& 0 <= p.wobble_smoother_speed_floor < p.wobble_smoother_speed_ceiling <= LIM
    &&& 1 <= p.position_modeler_spring_mass_constant <= LIM
    &&& 1 <= p.position_modeler_drag_constant <= LIM
    &&& 1 <= p.sampling_min_output_rate <= RATE_MAX
    &&& 1 <= p.sampling_end_of_stroke_stopping_distance <= COORD_MAX
    &&& 1 <= p.sampling_end_of_stroke_max_iterations <= COUNT_MAX
    &&& 1 <= p.sampling_max_outputs_per_call <= COUNT_MAX
    &&& 1 <= p.stylus_state_modeler_max_input_samples <= HISTORY_MAX
    &&& match p.prediction_params {
        PredictionParams::StrokeEnd => true,
        PredictionParams::Kalman(k) => valid_kalman_params(k),
    }
}

/// The suggested Kalman predictor tuning, as a value the contracts can
/// speak of.
pub open spec fn suggested_kalman_spec() -> KalmanPredictorParams {
    KalmanPredictorParams {
        process_noise: 1_000_000i64,
        measurement_noise: 1_000_000i64,
        min_stable_iteration: 4i32,
        max_time_samples: 20i32,
        min_catchup_velocity: 20_000i64,
        acceleration_weight: 500_000i64,
        jerk_weight: 100_000i64,
        prediction_interval: 20_000i64,
        confidence_desired_number_of_samples: 20i32,
        confidence_max_estimation_distance: 1_500_000i64,
        confidence_min_travel_speed: 1_000_000i64,
        confidence_max_travel_speed: 5_000_000i64,
        confidence_max_linear_deviation: 10_000_000i64,
        confidence_baseline_linearity_confidence: 400_000i64,
    }
}

/// The suggested configuration, as a value the contracts can speak of.
pub open spec fn suggested_params_spec() -> StrokeModelerParams {
    StrokeModelerParams {
        wobble_smoother_timeout: 40_000i64,
        wobble_smoother_speed_floor: 1_310_000i64,
        wobble_smoother_speed_ceiling: 1_440_000i64,
        position_modeler_spring_mass_constant: 340i64,
        position_modeler_drag_constant: 72_000_000i64,
        sampling_min_output_rate: 180_000_000i64,
        sampling_end_of_stroke_stopping_distance: 1_000i64,
        sampling_end_of_stroke_max_iterations: 20i32,
        sampling_max_outputs_per_call: 20i32,
        stylus_state_modeler_max_input_samples: 100_000i32,
        prediction_params: PredictionParams::StrokeEnd,
    }
}

/// The spacing the resampler must not exceed: `1 / min_output_rate`,
/// in time ticks.
pub open spec fn interval_spec(p: StrokeModelerParams) -> int {
    (FP as int * FP as int) / p.sampling_min_output_rate as int
}

/// Decides [`valid_kalman_params`].
pub fn check_kalman_params(k: &KalmanPredictorParams) -> (r: bool)
    ensures
        r == valid_kalman_params(*k),
{
    1 <= k.process_noise && k.process_noise <= RATE_MAX
        && 1 <= k.measurement_noise && k.measurement_noise <= RATE_MAX
        && 1 <= k.min_stable_iteration && k.min_stable_iteration <= COUNT_MAX
        && 1 <= k.max_time_samples && k.max_time_samples <= COUNT_MAX
        && 0 <= k.min_catchup_velocity && k.min_catchup_velocity <= LIM
        && -LIM <= k.acceleration_weight && k.acceleration_weight <= LIM
        && -LIM <= k.jerk_weight && k.jerk_weight <= LIM
        && 1 <= k.prediction_interval && k.prediction_interval <= TIME_MAX
        && 1 <= k.confidence_desired_number_of_samples
        && k.confidence_desired_number_of_samples <= COUNT_MAX
        && 1 <= k.confidence_max_estimation_distance
        && k.confidence_max_estimation_distance <= LIM
        && 0 <= k.confidence_min_travel_speed
        && k.confidence_min_travel_speed <= k.confidence_max_travel_speed
        && k.confidence_max_travel_speed <= LIM
        && 1 <= k.confidence_max_linear_deviation && k.confidence_max_linear_deviation <= LIM
        && 0 <= k.confidence_baseline_linearity_confidence
        && k.confidence_baseline_linearity_confidence <= FP
}

/// Decides [`valid_params`].
pub fn check_params(p: &StrokeModelerParams) -> (r: bool)
    ensures
        r == valid_params(*p),
{
    let pred_ok = match &p.prediction_params {
        PredictionParams::StrokeEnd => true,
        PredictionParams::Kalman(k) => check_kalman_params(k),
    };
    1 <= p.wobble_smoother_timeout && p.wobble_smoother_timeout <= TIME_MAX
        && 0 <= p.wobble_smoother_speed_floor
        && p.wobble_smoother_speed_floor < p.wobble_smoother_speed_ceiling
        && p.wobble_smoother_speed_ceiling <= LIM
        && 1 <= p.position_modeler_spring_mass_constant
        && p.position_modeler_spring_mass_constant <= LIM
        && 1 <= p.position_modeler_drag_constant && p.position_modeler_drag_constant <= LIM
        && 1 <= p.sampling_min_output_rate && p.sampling_min_output_rate <= RATE_MAX
        && 1 <= p.sampling_end_of_stroke_stopping_distance
        && p.sampling_end_of_stroke_stopping_distance <= COORD_MAX
        && 1 <= p.sampling_end_of_stroke_max_iterations
        && p.sampling_end_of_stroke_max_iterations <= COUNT_MAX
        && 1 <= p.sampling_max_outputs_per_call && p.sampling_max_outputs_per_call <= COUNT_MAX
        && 1 <= p.stylus_state_modeler_max_input_samples
        && p.stylus_state_modeler_max_input_samples <= HISTORY_MAX
        && pred_ok
}

/// The output interval of a valid configuration, as the executable code
/// computes it: at least one tick, at most `TIME_MAX`.
pub fn output_interval(p: &StrokeModelerParams) -> (r: i64)
    requires
        valid_params(*p),
    ensures
        r as int == interval_spec(*p),
        1 <= r <= TIME_MAX,
{
    let num: u64 = 1_000_000_000_000;
    let r: u64 = num / (p.sampling_min_output_rate as u64);
    proof {
        vstd::arithmetic::div_mod::lemma_div_nonincreasing(
            num as int,
            p.sampling_min_output_rate as int,
        );
        vstd::arithmetic::div_mod::lemma_div_non_zero(
            num as int,
            p.sampling_min_output_rate as int,
        );
    }
    r as i64
}

impl KalmanPredictorParams {
    /// A reasonable default tuning for the Kalman predictor.
    pub fn suggested() -> (r: KalmanPredictorParams)
        ensures
            r == suggested_kalman_spec(),
            valid_kalman_params(r),
    {
        KalmanPredictorParams {
            process_noise: 1_000_000,
            measurement_noise: 1_000_000,
            min_stable_iteration: 4,
            max_time_samples: 20,
            min_catchup_velocity: 20_000,
            acceleration_weight: 500_000,
            jerk_weight: 100_000,
            prediction_interval: 20_000,
            confidence_desired_number_of_samples: 20,
            confidence_max_estimation_distance: 1_500_000,
            confidence_min_travel_speed: 1_000_000,
            confidence_max_travel_speed: 5_000_000,
            confidence_max_linear_deviation: 10_000_000,
            confidence_baseline_linearity_confidence: 400_000,
        }
    }
}

impl StrokeModelerParams {
    /// A reasonable default configuration: 180 Hz minimum output rate, a
    /// 40 ms wobble window, and the stroke-end predictor.
    pub fn suggested() -> (r: StrokeModelerParams)
        ensures
            r == suggested_params_spec(),
            valid_params(r),
    {
        StrokeModelerParams {
            wobble_smoother_timeout: 40_000,
            wobble_smoother_speed_floor: 1_310_000,
            wobble_smoother_speed_ceiling: 1_440_000,
            position_modeler_spring_mass_constant: 340,
            position_modeler_drag_constant: 72_000_000,
            sampling_min_output_rate: 180_000_000,
            sampling_end_of_stroke_stopping_distance: 1_000,
            sampling_end_of_stroke_max_iterations: 20,
            sampling_max_outputs_per_call: 20,
            stylus_state_modeler_max_input_samples: 100_000,
            prediction_params: PredictionParams::StrokeEnd,
        }
    }
}

} // verus!
