use backstaff::geometry::Dim3;
use backstaff::geometry::In3D;
use backstaff::geometry::Point3;
use backstaff::geometry::Vec3;
use backstaff::interpolation::poly_fit::GridIncompatible;
use backstaff::interpolation::poly_fit::InvalidConfig as InvalidInterpolatorConfig;
use backstaff::interpolation::poly_fit::PolyFitInterpolatorConfig;
use backstaff::tracing::stepping::rkf::judge_attempt;
use backstaff::tracing::stepping::rkf::rkf23::RKF23Stepper3;
use backstaff::tracing::stepping::rkf::AttemptVerdict;
use backstaff::tracing::stepping::rkf::InvalidConfig;
use backstaff::tracing::stepping::rkf::PIControlParams;
use backstaff::tracing::stepping::rkf::RKFStepperConfig;
use backstaff::tracing::stepping::rkf::RKFStepperType;
use backstaff::tracing::stepping::check_distance;
use backstaff::tracing::stepping::StepperInstruction;
use backstaff::tracing::stepping::StepperResult;
use backstaff::tracing::stepping::StoppingCause;
use backstaff::tracing::INFINITY;
use backstaff::tracing::ONE;

fn config_with(change: impl Fn(&mut RKFStepperConfig)) -> RKFStepperConfig {
    let mut config = RKFStepperConfig::default();
    change(&mut config);
    config
}

#[test]
fn the_constants_are_the_bit_patterns_of_the_numbers() {
    assert_eq!(ONE, 1.0f64.to_bits());
    assert_eq!(INFINITY, f64::INFINITY.to_bits());
}

#[test]
fn the_default_configuration_holds_the_documented_values() {
    let config = RKFStepperConfig::default();
    assert_eq!(f64::from_bits(config.dense_step_length), 0.01);
    assert_eq!(config.max_step_attempts, 16);
    assert_eq!(f64::from_bits(config.absolute_tolerance), 1e-6);
    assert_eq!(f64::from_bits(config.relative_tolerance), 1e-6);
    assert_eq!(f64::from_bits(config.safety_factor), 0.9);
    assert_eq!(f64::from_bits(config.min_step_scale), 0.2);
    assert_eq!(f64::from_bits(config.max_step_scale), 10.0);
    assert_eq!(f64::from_bits(config.initial_error), 1e-4);
    assert_eq!(f64::from_bits(config.initial_step_length), 1e-4);
    assert_eq!(config.sudden_reversals_for_sink, 3);
    assert!(config.use_pi_control);
    assert_eq!(config.validate(), Ok(()));
}

#[test]
fn a_length_is_valid_exactly_where_the_number_is_above_zero() {
    let samples = [
        0.0,
        -0.0,
        f64::MIN_POSITIVE,
        5e-324,
        1e-300,
        0.5,
        1.0,
        1e300,
        f64::MAX,
        f64::INFINITY,
        f64::NEG_INFINITY,
        f64::NAN,
        -f64::NAN,
        -1e-300,
        -1.0,
        -5e-324,
    ];
    for sample in samples {
        let config = config_with(|config| config.dense_step_length = sample.to_bits());
        assert_eq!(config.validate().is_ok(), sample > 0.0, "{:?}", sample);
        let config = config_with(|config| config.absolute_tolerance = sample.to_bits());
        assert_eq!(config.validate().is_ok(), sample > 0.0, "{:?}", sample);
        let config = config_with(|config| config.relative_tolerance = sample.to_bits());
        assert_eq!(config.validate().is_ok(), sample > 0.0, "{:?}", sample);
        let config = config_with(|config| config.safety_factor = sample.to_bits());
        assert_eq!(config.validate().is_ok(), sample > 0.0, "{:?}", sample);
        let config = config_with(|config| config.initial_error = sample.to_bits());
        assert_eq!(config.validate().is_ok(), sample > 0.0, "{:?}", sample);
        let config = config_with(|config| config.initial_step_length = sample.to_bits());
        assert_eq!(config.validate().is_ok(), sample > 0.0, "{:?}", sample);
    }
}

#[test]
fn the_step_scales_are_valid_exactly_on_their_side_of_one() {
    let samples = [
        0.0,
        -0.0,
        5e-324,
        0.2,
        0.9999999999999999,
        1.0,
        1.0000000000000002,
        10.0,
        f64::MAX,
        f64::INFINITY,
        f64::NEG_INFINITY,
        f64::NAN,
        -0.5,
        -2.0,
    ];
    for sample in samples {
        let config = config_with(|config| config.min_step_scale = sample.to_bits());
        assert_eq!(
            config.validate().is_ok(),
            sample > 0.0 && sample < 1.0,
            "{:?}",
            sample
        );
        let config = config_with(|config| config.max_step_scale = sample.to_bits());
        assert_eq!(config.validate().is_ok(), sample > 1.0, "{:?}", sample);
    }
}

#[test]
fn the_counts_are_valid_from_one_on() {
    assert_eq!(
        config_with(|config| config.max_step_attempts = 0).validate(),
        Err(InvalidConfig)
    );
    assert_eq!(
        config_with(|config| config.max_step_attempts = 1).validate(),
        Ok(())
    );
    assert_eq!(
        config_with(|config| config.sudden_reversals_for_sink = 0).validate(),
        Err(InvalidConfig)
    );
    assert_eq!(
        config_with(|config| config.sudden_reversals_for_sink = 1).validate(),
        Ok(())
    );
    assert_eq!(
        config_with(|config| config.use_pi_control = false).validate(),
        Ok(())
    );
}

#[test]
fn a_new_stepper_stands_at_the_origin_with_the_initial_step_size() {
    let config = config_with(|config| {
        config.initial_step_length = 0.125f64.to_bits();
        config.initial_error = 0.25f64.to_bits();
        config.dense_step_length = 0.5f64.to_bits();
    });
    let stepper = RKF23Stepper3::new(config);
    let zero = 0.0f64.to_bits();
    assert_eq!(*stepper.position(), Point3::new(zero, zero, zero));
    assert_eq!(stepper.distance(), zero);
    let state = stepper.state();
    assert_eq!(state.config, config);
    assert_eq!(state.pi_control, PIControlParams::activated(3));
    assert_eq!(state.position, Point3::new(zero, zero, zero));
    assert_eq!(state.direction, Vec3::new(zero, zero, zero));
    assert_eq!(state.distance, zero);
    assert_eq!(f64::from_bits(state.step_size), 0.125);
    assert_eq!(f64::from_bits(state.error), 0.25);
    assert_eq!(state.n_sudden_reversals, 0);
    assert_eq!(state.previous_step_size, zero);
    assert_eq!(state.previous_position, Point3::new(zero, zero, zero));
    assert_eq!(state.previous_direction, Vec3::new(zero, zero, zero));
    assert!(state.intermediate_directions.is_empty());
    assert_eq!(state.previous_step_displacement, Vec3::new(zero, zero, zero));
    assert!(!state.previous_step_wrapped);
    assert_eq!(f64::from_bits(state.next_output_distance), 0.5);
}

#[test]
fn a_new_stepper_controls_the_step_size_as_configured() {
    let config = config_with(|config| config.use_pi_control = false);
    let stepper = RKF23Stepper3::new(config);
    assert_eq!(stepper.state().pi_control, PIControlParams::deactivated(3));
    assert_eq!(
        PIControlParams::activated(5),
        PIControlParams {
            is_active: true,
            order: 5
        }
    );
    assert_eq!(RKF23Stepper3::ORDER, RKFStepperType::RKF23.order());
    assert_eq!(RKFStepperType::RKF45.order(), 5);
    assert_eq!(RKF23Stepper3::N_INTERMEDIATE_STEPS, 2);
}

#[test]
fn the_state_of_a_stepper_can_be_changed() {
    let mut stepper = RKF23Stepper3::new(RKFStepperConfig::default());
    stepper.state_mut().distance = 2.5f64.to_bits();
    stepper.state_mut().position = Point3::new(1, 2, 3);
    assert_eq!(f64::from_bits(stepper.distance()), 2.5);
    assert_eq!(*stepper.position(), Point3::new(1, 2, 3));
}

#[test]
fn a_sink_is_found_after_the_configured_number_of_reversals_in_a_row() {
    let mut stepper = RKF23Stepper3::new(RKFStepperConfig::default());
    let state = stepper.state_mut();
    assert_eq!(state.note_direction(true), StepperResult::Completed(()));
    assert_eq!(state.n_sudden_reversals, 1);
    assert_eq!(state.note_direction(true), StepperResult::Completed(()));
    assert_eq!(state.n_sudden_reversals, 2);
    assert_eq!(
        state.note_direction(true),
        StepperResult::Stopped(StoppingCause::Sink)
    );
    assert_eq!(state.n_sudden_reversals, 3);
}

#[test]
fn a_step_without_reversal_starts_the_count_anew() {
    let mut stepper = RKF23Stepper3::new(RKFStepperConfig::default());
    let state = stepper.state_mut();
    assert_eq!(state.note_direction(true), StepperResult::Completed(()));
    assert_eq!(state.note_direction(true), StepperResult::Completed(()));
    assert_eq!(state.note_direction(false), StepperResult::Completed(()));
    assert_eq!(state.n_sudden_reversals, 0);
    assert_eq!(state.note_direction(true), StepperResult::Completed(()));
    assert_eq!(state.note_direction(true), StepperResult::Completed(()));
    assert_eq!(
        state.note_direction(true),
        StepperResult::Stopped(StoppingCause::Sink)
    );
}

#[test]
fn a_single_reversal_makes_a_sink_where_one_is_configured() {
    let config = config_with(|config| config.sudden_reversals_for_sink = 1);
    let mut stepper = RKF23Stepper3::new(config);
    assert_eq!(
        stepper.state_mut().note_direction(true),
        StepperResult::Stopped(StoppingCause::Sink)
    );
}

#[test]
fn attempts_are_tried_again_until_the_last_one_allowed() {
    assert_eq!(judge_attempt(1, true, 16), AttemptVerdict::Accept);
    assert_eq!(judge_attempt(16, true, 16), AttemptVerdict::Accept);
    assert_eq!(judge_attempt(1, false, 16), AttemptVerdict::Retry);
    assert_eq!(judge_attempt(15, false, 16), AttemptVerdict::Retry);
    assert_eq!(judge_attempt(16, false, 16), AttemptVerdict::GiveUp);
    assert_eq!(judge_attempt(1, false, 1), AttemptVerdict::GiveUp);
    assert_eq!(
        AttemptVerdict::Accept.conclude(),
        Some(StepperResult::Completed(()))
    );
    assert_eq!(AttemptVerdict::Retry.conclude(), None);
    assert_eq!(
        AttemptVerdict::GiveUp.conclude(),
        Some(StepperResult::Stopped(StoppingCause::TooManyAttempts))
    );
}

#[test]
fn the_instruction_of_the_callback_is_followed() {
    assert_eq!(
        StepperInstruction::Continue.follow(),
        StepperResult::Completed(())
    );
    assert_eq!(
        StepperInstruction::Terminate.follow(),
        StepperResult::Stopped(StoppingCause::StoppedByCallback)
    );
}

#[test]
fn the_default_interpolation_is_of_third_order() {
    let config = PolyFitInterpolatorConfig::default();
    assert_eq!(config.order, 3);
    assert_eq!(f64::from_bits(config.variation_threshold_for_linear), 0.3);
    assert_eq!(config.validate(), Ok(()));
    assert_eq!(config.number_of_points(), 4);
}

#[test]
fn the_interpolation_order_is_valid_from_one_to_five() {
    for order in 0..8 {
        let config = PolyFitInterpolatorConfig {
            order,
            ..PolyFitInterpolatorConfig::default()
        };
        if (1..=5).contains(&order) {
            assert_eq!(config.validate(), Ok(()));
        } else {
            assert_eq!(config.validate(), Err(InvalidInterpolatorConfig));
        }
    }
}

#[test]
fn a_grid_needs_a_cell_more_than_the_order_where_it_is_not_periodic() {
    let config = PolyFitInterpolatorConfig::default();
    let open = In3D::new(false, false, false);
    assert_eq!(config.verify_grid(&In3D::new(10, 10, 10), &open), Ok(()));
    assert_eq!(config.verify_grid(&In3D::new(4, 4, 4), &open), Ok(()));
    assert_eq!(
        config.verify_grid(&In3D::new(4, 3, 4), &open),
        Err(GridIncompatible { dim: Dim3::Y })
    );
    assert_eq!(
        config.verify_grid(&In3D::new(3, 3, 3), &open),
        Err(GridIncompatible { dim: Dim3::X })
    );
    assert_eq!(
        config.verify_grid(&In3D::new(3, 3, 3), &In3D::new(true, true, false)),
        Err(GridIncompatible { dim: Dim3::Z })
    );
    assert_eq!(
        config.verify_grid(&In3D::new(1, 1, 1), &In3D::new(true, true, true)),
        Ok(())
    );
}

fn neighbors(order: usize, cell: usize, cells: usize, is_periodic: bool) -> Vec<(usize, i8)> {
    let config = PolyFitInterpolatorConfig {
        order,
        ..PolyFitInterpolatorConfig::default()
    };
    config
        .neighbors(cell, cells, is_periodic)
        .into_iter()
        .map(|neighbor| (neighbor.index, neighbor.lap))
        .collect()
}

#[test]
fn the_neighbors_are_centered_on_the_cell() {
    assert_eq!(
        neighbors(3, 5, 10, false),
        vec![(4, 0), (5, 0), (6, 0), (7, 0)]
    );
    assert_eq!(neighbors(1, 5, 10, false), vec![(5, 0), (6, 0)]);
    assert_eq!(neighbors(2, 5, 10, false), vec![(4, 0), (5, 0), (6, 0)]);
    assert_eq!(
        neighbors(4, 5, 10, false),
        vec![(3, 0), (4, 0), (5, 0), (6, 0), (7, 0)]
    );
    assert_eq!(
        neighbors(5, 5, 10, false),
        vec![(3, 0), (4, 0), (5, 0), (6, 0), (7, 0), (8, 0)]
    );
}

#[test]
fn the_neighbors_stay_within_a_grid_that_is_not_periodic() {
    assert_eq!(
        neighbors(3, 0, 10, false),
        vec![(0, 0), (1, 0), (2, 0), (3, 0)]
    );
    assert_eq!(
        neighbors(3, 9, 10, false),
        vec![(6, 0), (7, 0), (8, 0), (9, 0)]
    );
    assert_eq!(
        neighbors(3, 8, 10, false),
        vec![(6, 0), (7, 0), (8, 0), (9, 0)]
    );
    assert_eq!(
        neighbors(3, 7, 10, false),
        vec![(6, 0), (7, 0), (8, 0), (9, 0)]
    );
    assert_eq!(
        neighbors(3, 2, 4, false),
        vec![(0, 0), (1, 0), (2, 0), (3, 0)]
    );
    assert_eq!(
        neighbors(5, 1, 7, false),
        vec![(0, 0), (1, 0), (2, 0), (3, 0), (4, 0), (5, 0)]
    );
}

#[test]
fn the_neighbors_go_on_across_periodic_boundaries() {
    assert_eq!(
        neighbors(3, 0, 10, true),
        vec![(9, -1), (0, 0), (1, 0), (2, 0)]
    );
    assert_eq!(
        neighbors(3, 9, 10, true),
        vec![(8, 0), (9, 0), (0, 1), (1, 1)]
    );
    assert_eq!(
        neighbors(5, 1, 10, true),
        vec![(9, -1), (0, 0), (1, 0), (2, 0), (3, 0), (4, 0)]
    );
    assert_eq!(
        neighbors(5, 0, 2, true),
        vec![(0, -1), (1, -1), (0, 0), (1, 0), (0, 1), (1, 1)]
    );
    assert_eq!(
        neighbors(5, 0, 1, true),
        vec![(0, -2), (0, -1), (0, 0), (0, 1), (0, 2), (0, 3)]
    );
    assert_eq!(neighbors(1, 0, 1, true), vec![(0, 0), (0, 1)]);
}

#[test]
fn the_stepping_stops_at_the_greatest_distance_allowed() {
    let distances = [0.0f64, 0.5, 1.1999999999999997, 1.2, 1.2000000000000002, 7.0, f64::INFINITY];
    for distance in distances {
        assert_eq!(
            check_distance(distance.to_bits(), None),
            StepperResult::Completed(())
        );
        for cap in distances {
            let expected = if distance >= cap {
                StepperResult::Stopped(StoppingCause::MaxDistanceReached)
            } else {
                StepperResult::Completed(())
            };
            assert_eq!(
                check_distance(distance.to_bits(), Some(cap.to_bits())),
                expected,
                "{} {}",
                distance,
                cap
            );
        }
    }
    assert_eq!(
        check_distance(1.25f64.to_bits(), Some(1.2f64.to_bits())),
        StepperResult::Stopped(StoppingCause::MaxDistanceReached)
    );
}
