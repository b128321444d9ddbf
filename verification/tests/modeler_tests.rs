//! End-to-end tests of the stroke modeler: the public update/predict/reset
//! surface, its error conditions, and the guarantees on the emitted samples.
//!
//! All quantities are fixed-point integers scaled by 1_000_000: a position
//! of 2.5 units is 2_500_000 ticks, a time of 0.02 s is 20_000 ticks.

use ink_stroke_modeler::ModelerError;
use ink_stroke_modeler::ModelerInput;
use ink_stroke_modeler::ModelerInputEventType;
use ink_stroke_modeler::ModelerResult;
use ink_stroke_modeler::PredictionParams;
use ink_stroke_modeler::KalmanPredictorParams;
use ink_stroke_modeler::StrokeModeler;
use ink_stroke_modeler::StrokeModelerParams;

fn input(
    event_type: ModelerInputEventType,
    pos: (i64, i64),
    time: i64,
    pressure: i64,
) -> ModelerInput {
    ModelerInput::new(event_type, pos, time, pressure, 0, 0)
}

#[test]
fn feed_input() {
    let inputs = vec![
        input(ModelerInputEventType::kDown, (0, 0), 0, 100_000),
        input(ModelerInputEventType::kMove, (1_000_000, 0), 20_000, 300_000),
        input(ModelerInputEventType::kMove, (2_000_000, 0), 40_000, 500_000),
        input(
            ModelerInputEventType::kMove,
            (2_500_000, 1_000_000),
            60_000,
            800_000,
        ),
        input(
            ModelerInputEventType::kMove,
            (3_000_000, 1_500_000),
            120_000,
            900_000,
        ),
        input(
            ModelerInputEventType::kMove,
            (4_000_000, 2_000_000),
            130_000,
            800_000,
        ),
        input(
            ModelerInputEventType::kMove,
            (3_800_000, 2_100_000),
            130_000,
            700_000,
        ),
        input(
            ModelerInputEventType::kUp,
            (3_500_000, 2_000_000),
            140_000,
            200_000,
        ),
    ];
    let mut modeler = StrokeModeler::default();

    for res in inputs
        .into_iter()
        .flat_map(|i| modeler.update(i).expect("input accepted"))
    {
        println!("{res:?}")
    }
}

#[test]
fn modeler_reset() {
    let mut modeler = StrokeModeler::default();

    modeler.reset();
}

#[test]
fn modeler_reset_w_params() {
    let mut modeler = StrokeModeler::default();

    modeler
        .reset_w_params(StrokeModelerParams::suggested())
        .expect("suggested params are valid");
}

fn square_stroke_results() -> Vec<ModelerResult> {
    // Down(0,0,t=0), Move(1,0,t=0.02), Move(2,0,t=0.04), Up(2.5,1,t=0.06)
    let inputs = vec![
        input(ModelerInputEventType::kDown, (0, 0), 0, 500_000),
        input(ModelerInputEventType::kMove, (1_000_000, 0), 20_000, 500_000),
        input(ModelerInputEventType::kMove, (2_000_000, 0), 40_000, 500_000),
        input(
            ModelerInputEventType::kUp,
            (2_500_000, 1_000_000),
            60_000,
            500_000,
        ),
    ];
    let mut modeler = StrokeModeler::default();
    let mut all = Vec::new();
    for i in inputs {
        all.extend(modeler.update(i).expect("input accepted"));
    }
    all
}

#[test]
fn scenario_stroke_ends_near_final_input() {
    let all = square_stroke_results();
    assert!(!all.is_empty());
    // time-ordered
    for w in all.windows(2) {
        assert!(w[0].get_time() <= w[1].get_time());
    }
    // final position within 0.001 units (1000 ticks) of (2.5, 1)
    let last = all.last().unwrap();
    let (x, y) = last.get_pos();
    let dx = (x - 2_500_000) as i128;
    let dy = (y - 1_000_000) as i128;
    assert!(dx * dx + dy * dy <= 1_000 * 1_000);
}

#[test]
fn monotonic_output_time_over_whole_stroke() {
    let all = square_stroke_results();
    for w in all.windows(2) {
        assert!(w[0].get_time() <= w[1].get_time());
    }
}

#[test]
fn rate_guarantee_within_stroke() {
    // at the suggested 180 Hz minimum rate the spacing cap is
    // 1_000_000_000_000 / 180_000_000 = 5555 ticks
    let all = square_stroke_results();
    for w in all.windows(2) {
        assert!(w[1].get_time() - w[0].get_time() <= 5_555);
    }
}

#[test]
fn scenario_zero_output_rate_is_rejected() {
    let mut params = StrokeModelerParams::suggested();
    params.sampling_min_output_rate = 0;
    match StrokeModeler::new(params) {
        Err(e) => assert_eq!(e, ModelerError::InvalidParams),
        Ok(_) => panic!("a zero output rate must be rejected"),
    }
}

#[test]
fn scenario_move_before_down_is_rejected() {
    let mut modeler = StrokeModeler::default();
    let r = modeler.update(input(
        ModelerInputEventType::kMove,
        (1_000_000, 0),
        20_000,
        500_000,
    ));
    assert_eq!(r, Err(ModelerError::InvalidStateTransition));
}

#[test]
fn up_before_down_is_rejected() {
    let mut modeler = StrokeModeler::default();
    let r = modeler.update(input(ModelerInputEventType::kUp, (0, 0), 0, 0));
    assert_eq!(r, Err(ModelerError::InvalidStateTransition));
}

#[test]
fn time_running_backwards_is_rejected() {
    let mut modeler = StrokeModeler::default();
    modeler
        .update(input(ModelerInputEventType::kDown, (0, 0), 20_000, 500_000))
        .expect("down accepted");
    let r = modeler.update(input(
        ModelerInputEventType::kMove,
        (1_000_000, 0),
        10_000,
        500_000,
    ));
    assert_eq!(r, Err(ModelerError::NonMonotonicTime));
    // the offending input was rejected without disturbing the stroke
    let ok = modeler.update(input(
        ModelerInputEventType::kMove,
        (1_000_000, 0),
        40_000,
        500_000,
    ));
    assert!(ok.is_ok());
}

#[test]
fn equal_timestamps_are_a_valid_degenerate_step() {
    let mut modeler = StrokeModeler::default();
    modeler
        .update(input(ModelerInputEventType::kDown, (0, 0), 20_000, 500_000))
        .expect("down accepted");
    let r = modeler
        .update(input(
            ModelerInputEventType::kMove,
            (1_000_000, 0),
            20_000,
            500_000,
        ))
        .expect("equal timestamp accepted");
    assert!(!r.is_empty());
    assert_eq!(r.last().unwrap().get_time(), 20_000);
}

#[test]
fn down_emits_exactly_the_raw_input() {
    let mut modeler = StrokeModeler::default();
    let r = modeler
        .update(input(
            ModelerInputEventType::kDown,
            (3_000_000, -2_000_000),
            50_000,
            700_000,
        ))
        .expect("down accepted");
    assert_eq!(r.len(), 1);
    assert_eq!(r[0].get_pos(), (3_000_000, -2_000_000));
    assert_eq!(r[0].get_velocity(), (0, 0));
    assert_eq!(r[0].get_time(), 50_000);
    assert_eq!(r[0].get_pressure(), 700_000);
}

#[test]
fn down_mid_stroke_starts_a_new_stroke() {
    let mut modeler = StrokeModeler::default();
    modeler
        .update(input(ModelerInputEventType::kDown, (0, 0), 0, 500_000))
        .expect("down accepted");
    modeler
        .update(input(ModelerInputEventType::kMove, (1_000_000, 0), 20_000, 500_000))
        .expect("move accepted");
    let r = modeler
        .update(input(ModelerInputEventType::kDown, (9_000_000, 0), 40_000, 500_000))
        .expect("down restarts the stroke");
    assert_eq!(r.len(), 1);
    assert_eq!(r[0].get_pos(), (9_000_000, 0));
}

#[test]
fn bounded_history_evicts_oldest_first() {
    let mut params = StrokeModelerParams::suggested();
    params.stylus_state_modeler_max_input_samples = 3;
    let mut modeler = StrokeModeler::new(params).expect("params are valid");
    modeler
        .update(input(ModelerInputEventType::kDown, (0, 0), 0, 500_000))
        .expect("down accepted");
    for i in 1..10i64 {
        modeler
            .update(input(
                ModelerInputEventType::kMove,
                (i * 100_000, 0),
                i * 20_000,
                500_000,
            ))
            .expect("move accepted");
        assert!(modeler.stylus.samples.len() <= 3);
    }
    // the oldest entries were evicted: the first remaining time is recent
    assert!(modeler.stylus.samples[0].time >= 7 * 20_000);
}

#[test]
fn reset_twice_behaves_like_reset_once() {
    let seed = |m: &mut StrokeModeler| {
        m.update(input(ModelerInputEventType::kDown, (0, 0), 0, 500_000))
            .expect("down accepted");
        m.update(input(ModelerInputEventType::kMove, (1_000_000, 0), 20_000, 500_000))
            .expect("move accepted");
    };
    let mut once = StrokeModeler::default();
    seed(&mut once);
    once.reset();
    let mut twice = StrokeModeler::default();
    seed(&mut twice);
    twice.reset();
    twice.reset();
    // identical input after either produces identical output
    let a = once
        .update(input(ModelerInputEventType::kDown, (500_000, 500_000), 5_000, 400_000))
        .expect("down accepted");
    let b = twice
        .update(input(ModelerInputEventType::kDown, (500_000, 500_000), 5_000, 400_000))
        .expect("down accepted");
    assert_eq!(a, b);
    let a = once
        .update(input(ModelerInputEventType::kMove, (700_000, 500_000), 25_000, 400_000))
        .expect("move accepted");
    let b = twice
        .update(input(ModelerInputEventType::kMove, (700_000, 500_000), 25_000, 400_000))
        .expect("move accepted");
    assert_eq!(a, b);
}

fn kalman_params() -> StrokeModelerParams {
    let mut params = StrokeModelerParams::suggested();
    params.prediction_params = PredictionParams::Kalman(KalmanPredictorParams::suggested());
    params
}

#[test]
fn kalman_predict_after_single_down_is_empty() {
    let mut modeler = StrokeModeler::new(kalman_params()).expect("params are valid");
    modeler
        .update(input(ModelerInputEventType::kDown, (0, 0), 0, 500_000))
        .expect("down accepted");
    assert!(modeler.predict().is_empty());
}

#[test]
fn kalman_predict_below_stability_floor_is_empty() {
    // two samples are still below the suggested min_stable_iteration of 4
    let mut modeler = StrokeModeler::new(kalman_params()).expect("params are valid");
    modeler
        .update(input(ModelerInputEventType::kDown, (0, 0), 0, 500_000))
        .expect("down accepted");
    modeler
        .update(input(ModelerInputEventType::kMove, (1_000_000, 0), 20_000, 500_000))
        .expect("move accepted");
    assert!(modeler.predict().is_empty());
}

#[test]
fn predict_when_idle_is_empty() {
    let mut modeler = StrokeModeler::default();
    assert!(modeler.predict().is_empty());
    modeler
        .update(input(ModelerInputEventType::kDown, (0, 0), 0, 500_000))
        .expect("down accepted");
    modeler
        .update(input(ModelerInputEventType::kUp, (0, 0), 20_000, 0))
        .expect("up accepted");
    // the stroke ended: back to idle, no prediction
    assert!(modeler.predict().is_empty());
}

#[test]
fn stroke_end_predict_is_ordered_and_does_not_disturb_state() {
    let mut modeler = StrokeModeler::default();
    modeler
        .update(input(ModelerInputEventType::kDown, (0, 0), 0, 500_000))
        .expect("down accepted");
    modeler
        .update(input(ModelerInputEventType::kMove, (2_000_000, 0), 20_000, 500_000))
        .expect("move accepted");
    let p1 = modeler.predict();
    for w in p1.windows(2) {
        assert!(w[0].get_time() <= w[1].get_time());
    }
    // predicting again from the same state gives the same speculative tail
    let p2 = modeler.predict();
    assert_eq!(p1, p2);
    // and the real stroke continues unaffected
    modeler
        .update(input(ModelerInputEventType::kMove, (3_000_000, 0), 40_000, 500_000))
        .expect("move accepted");
}

#[test]
fn getters_return_the_constructed_values() {
    let i = ModelerInput::new(
        ModelerInputEventType::kMove,
        (1_000_000, -2_000_000),
        30_000,
        250_000,
        100_000,
        -300_000,
    );
    assert_eq!(i.get_event_type(), ModelerInputEventType::kMove);
    assert_eq!(i.get_pos(), (1_000_000, -2_000_000));
    assert_eq!(i.get_time(), 30_000);
    assert_eq!(i.get_pressure(), 250_000);
    assert_eq!(i.get_tilt(), 100_000);
    assert_eq!(i.get_orientation(), -300_000);
}

#[test]
fn result_getters_expose_all_fields() {
    let mut modeler = StrokeModeler::default();
    let r = modeler
        .update(ModelerInput::new(
            ModelerInputEventType::kDown,
            (1_000_000, 2_000_000),
            10_000,
            600_000,
            50_000,
            -70_000,
        ))
        .expect("down accepted");
    assert_eq!(r[0].get_pos(), (1_000_000, 2_000_000));
    assert_eq!(r[0].get_velocity(), (0, 0));
    assert_eq!(r[0].get_time(), 10_000);
    assert_eq!(r[0].get_pressure(), 600_000);
    assert_eq!(r[0].get_tilt(), 50_000);
    assert_eq!(r[0].get_orientation(), -70_000);
}

#[test]
fn modeled_positions_chase_the_target_with_lag() {
    let mut modeler = StrokeModeler::default();
    modeler
        .update(input(ModelerInputEventType::kDown, (0, 0), 0, 500_000))
        .expect("down accepted");
    let r = modeler
        .update(input(ModelerInputEventType::kMove, (1_000_000, 0), 20_000, 500_000))
        .expect("move accepted");
    assert_eq!(r.len(), 4);
    let mut prev_x = 0i64;
    for s in &r {
        let (x, y) = s.get_pos();
        // the modeled tip moves monotonically toward the target without
        // overshooting it, and off-axis it does not move at all
        assert!(x > prev_x);
        assert!(x <= 1_000_000);
        assert_eq!(y, 0);
        assert!(s.get_velocity().0 > 0);
        prev_x = x;
    }
    // the spring model lags behind fast motion instead of jumping
    assert!(prev_x < 1_000_000);
}
