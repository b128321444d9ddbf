//! Component-level tests: exact expected values for the fixed-point
//! arithmetic, the resampler, the position model, the stylus interpolator,
//! the wobble smoother and the Kalman filter state.

use ink_stroke_modeler::fixed::{fx_add, fx_div, fx_mul, fx_sub, isqrt, lerp_i64};
use ink_stroke_modeler::kalman::KalmanState;
use ink_stroke_modeler::params::{check_params, output_interval, StrokeModelerParams};
use ink_stroke_modeler::position::PositionModeler;
use ink_stroke_modeler::resample::resample_times;
use ink_stroke_modeler::stylus::{StylusSample, StylusStateModeler};
use ink_stroke_modeler::wobble::WobbleSmoother;
use ink_stroke_modeler::KalmanPredictorParams;

#[test]
fn fixed_point_arithmetic_exact_values() {
    // 1.5 * 2.0 == 3.0 ; 3.0 / 2.0 == 1.5 ; scale is 1_000_000
    assert_eq!(fx_mul(1_500_000, 2_000_000), 3_000_000);
    assert_eq!(fx_div(3_000_000, 2_000_000), 1_500_000);
    assert_eq!(fx_add(1_500_000, -500_000), 1_000_000);
    assert_eq!(fx_sub(1_500_000, 2_000_000), -500_000);
    // truncation toward zero
    assert_eq!(fx_mul(1, 1), 0);
    assert_eq!(fx_mul(-1_000_001, 500_000), -500_000);
}

#[test]
fn isqrt_exact_values() {
    assert_eq!(isqrt(0), 0);
    assert_eq!(isqrt(1), 1);
    assert_eq!(isqrt(3), 1);
    assert_eq!(isqrt(4), 2);
    assert_eq!(isqrt(999_999), 999);
    assert_eq!(isqrt(1_000_000), 1_000);
    assert_eq!(isqrt(u64::MAX), 0xFFFF_FFFF);
}

#[test]
fn lerp_midpoint_and_clamps() {
    assert_eq!(lerp_i64(0, 1_000_000, 1, 2), 500_000);
    assert_eq!(lerp_i64(0, 1_000_000, 0, 2), 0);
    assert_eq!(lerp_i64(0, 1_000_000, 2, 2), 1_000_000);
    assert_eq!(lerp_i64(300_000, 100_000, 1, 4), 250_000);
}

#[test]
fn output_interval_of_suggested_rate() {
    let p = StrokeModelerParams::suggested();
    assert!(check_params(&p));
    // 1 / 180 s in ticks, truncated
    assert_eq!(output_interval(&p), 5_555);
}

#[test]
fn resample_spreads_substeps_proportionally() {
    // 20000 ticks across an interval cap of 5555 needs 4 sub-steps
    let times = resample_times(0, 20_000, 5_555, 20);
    assert_eq!(times, vec![5_000, 10_000, 15_000, 20_000]);
    // zero elapsed time still yields the degenerate single step
    assert_eq!(resample_times(7, 7, 5_555, 20), vec![7]);
    // the per-call cap truncates the count, never the end point
    let capped = resample_times(0, 100_000, 10, 5);
    assert_eq!(capped.len(), 5);
    assert_eq!(*capped.last().unwrap(), 100_000);
}

#[test]
fn position_model_single_step_exact() {
    // spring_mass_constant 1.0 and drag 1.0 from rest toward x = 1.0:
    // accel = 1.0, vel' = accel * dt = 0.005, pos' = vel' * dt
    let mut tip = PositionModeler::anchored((0, 0), 0);
    tip.update((1_000_000, 0), 5_000, 1_000_000, 1_000_000);
    assert_eq!(tip.vel.0, 5_000);
    assert_eq!(tip.pos.0, 25);
    assert_eq!(tip.vel.1, 0);
    assert_eq!(tip.pos.1, 0);
    assert_eq!(tip.time, 5_000);
}

#[test]
fn position_model_zero_dt_is_a_no_op_step() {
    let mut tip = PositionModeler::anchored((100, 200), 1_000);
    tip.update((1_000_000, 0), 1_000, 340, 72_000_000);
    assert_eq!(tip.pos, (100, 200));
    assert_eq!(tip.vel, (0, 0));
}

#[test]
fn stylus_interpolation_brackets_and_clamps() {
    let mut stylus = StylusStateModeler::new();
    stylus.record(
        StylusSample { time: 0, pressure: 200_000, tilt: 0, orientation: 0 },
        10,
    );
    stylus.record(
        StylusSample { time: 10_000, pressure: 400_000, tilt: 100_000, orientation: -100_000 },
        10,
    );
    // midpoint interpolates linearly
    assert_eq!(stylus.query(5_000), (300_000, 50_000, -50_000));
    // before the first and after the last entry the value clamps
    assert_eq!(stylus.query(-5_000), (200_000, 0, 0));
    assert_eq!(stylus.query(50_000), (400_000, 100_000, -100_000));
}

#[test]
fn stylus_history_is_fifo_bounded() {
    let mut stylus = StylusStateModeler::new();
    for i in 0..7i64 {
        stylus.record(
            StylusSample { time: i * 1_000, pressure: 0, tilt: 0, orientation: 0 },
            3,
        );
        assert!(stylus.samples.len() <= 3);
    }
    assert_eq!(stylus.samples[0].time, 4_000);
    assert_eq!(stylus.samples[2].time, 6_000);
}

#[test]
fn wobble_first_sample_passes_through() {
    let mut w = WobbleSmoother::new();
    let r = w.filter(123_456, -654_321, 1_000, 1_310_000, 1_440_000, 40_000);
    assert_eq!(r, (123_456, -654_321));
}

#[test]
fn wobble_fast_motion_passes_through() {
    // 1.0 units in 10 ms is 100 units/s, far above the 1.44 ceiling
    let mut w = WobbleSmoother::new();
    w.filter(0, 0, 0, 1_310_000, 1_440_000, 40_000);
    let r = w.filter(1_000_000, 0, 10_000, 1_310_000, 1_440_000, 40_000);
    assert_eq!(r, (1_000_000, 0));
}

#[test]
fn wobble_slow_motion_is_averaged() {
    // 0.01 units in 10 ms is 1 unit/s, below the 1.31 floor: the output is
    // the window average, not the raw position
    let mut w = WobbleSmoother::new();
    w.filter(0, 0, 0, 1_310_000, 1_440_000, 40_000);
    let r = w.filter(10_000, 0, 10_000, 1_310_000, 1_440_000, 40_000);
    assert_eq!(r, (5_000, 0));
}

#[test]
fn kalman_first_observation_seeds_the_estimate() {
    let k = KalmanPredictorParams::suggested();
    let mut st = KalmanState::empty();
    assert_eq!(st.num_samples, 0);
    st.observe(700_000, -300_000, 1_000, &k);
    assert_eq!(st.num_samples, 1);
    assert_eq!(st.pos, (700_000, -300_000));
    assert_eq!(st.vel, (0, 0));
    st.observe(800_000, -300_000, 2_000, &k);
    assert_eq!(st.num_samples, 2);
    assert_eq!(st.prev, (800_000, -300_000));
    assert_eq!(st.prev2, (700_000, -300_000));
}
