//! Stepping with the Runge-Kutta-Fehlberg method: an embedded pair of
//! schemes gives each step together with an estimate of its error, and the
//! step size follows the error.
//!
//! The arithmetic of a step is done on real numbers outside this
//! library. Here stand the configuration, the state between steps, and the
//! decisions of a step: whether an attempt is taken, tried again or given
//! up, and whether the field line has run into a sink.

pub mod rkf23;

use crate::geometry::Point3;
use crate::geometry::Vec3;
use crate::tracing::ftr;
use crate::tracing::is_above_one;
use crate::tracing::is_positive;
use crate::tracing::is_positive_below_one;
use crate::tracing::stepping::StepperResult;
use crate::tracing::stepping::StoppingCause;
use crate::tracing::INFINITY;
use crate::tracing::ONE;
use vstd::prelude::*;

verus! {

/// The available Runge-Kutta-Fehlberg schemes.
#[derive(Debug, Copy, Clone, PartialEq, Eq, Structural)]
pub enum RKFStepperType {
    /// Third order steps with second order error estimates.
    RKF23,
    /// Fifth order steps with fourth order error estimates.
    RKF45,
}

impl RKFStepperType {
    /// Order of the steps of the scheme.
    pub fn order(self) -> (order: u8)
        ensures
            order == match self {
                RKFStepperType::RKF23 => 3u8,
                RKFStepperType::RKF45 => 5u8,
            },
    {
        match self {
            RKFStepperType::RKF23 => 3,
            RKFStepperType::RKF45 => 5,
        }
    }
}

/// Configuration parameters for Runge-Kutta-Fehlberg steppers.
#[derive(Debug, Copy, Clone, PartialEq, Eq, Structural)]
pub struct RKFStepperConfig {
    /// Step length to use for dense (uniform) output positions.
    pub dense_step_length: ftr,
    /// Maximum number of step attempts before terminating.
    pub max_step_attempts: u32,
    /// Absolute error tolerance for stepping.
    pub absolute_tolerance: ftr,
    /// Relative error tolerance for stepping.
    pub relative_tolerance: ftr,
    /// Scaling factor for the error to reduce step length oscillations.
    pub safety_factor: ftr,
    /// Smallest allowed scaling of the step size in one step.
    pub min_step_scale: ftr,
    /// Largest allowed scaling of the step size in one step.
    pub max_step_scale: ftr,
    /// Start value for stepping error.
    pub initial_error: ftr,
    /// Initial step size.
    pub initial_step_length: ftr,
    /// Number of sudden direction reversals before the area is considered a sink.
    pub sudden_reversals_for_sink: u32,
    /// Whether to use Proportional Integral (PI) control for stabilizing the stepping.
    pub use_pi_control: bool,
}

/// Says that a configuration breaks a rule.
#[derive(Debug, Copy, Clone, PartialEq, Eq, Structural)]
pub struct InvalidConfig;

impl RKFStepperConfig {
    /// Default dense step length: 0.01.
    pub const DEFAULT_DENSE_STEP_LENGTH: ftr = 0x3F84_7AE1_47AE_147B;

    /// Default maximum number of step attempts.
    pub const DEFAULT_MAX_STEP_ATTEMPTS: u32 = 16;

    /// Default absolute tolerance: 1e-6.
    pub const DEFAULT_ABSOLUTE_TOLERANCE: ftr = 0x3EB0_C6F7_A0B5_ED8D;

    /// Default relative tolerance: 1e-6.
    pub const DEFAULT_RELATIVE_TOLERANCE: ftr = 0x3EB0_C6F7_A0B5_ED8D;

    /// Default safety factor: 0.9.
    pub const DEFAULT_SAFETY_FACTOR: ftr = 0x3FEC_CCCC_CCCC_CCCD;

    /// Default smallest step scale: 0.2.
    pub const DEFAULT_MIN_STEP_SCALE: ftr = 0x3FC9_9999_9999_999A;

    /// Default largest step scale: 10.
    pub const DEFAULT_MAX_STEP_SCALE: ftr = 0x4024_0000_0000_0000;

    /// Default initial error: 1e-4.
    pub const DEFAULT_INITIAL_ERROR: ftr = 0x3F1A_36E2_EB1C_432D;

    /// Default initial step length: 1e-4.
    pub const DEFAULT_INITIAL_STEP_LENGTH: ftr = 0x3F1A_36E2_EB1C_432D;

    /// Default number of sudden reversals for a sink.
    pub const DEFAULT_SUDDEN_REVERSALS_FOR_SINK: u32 = 3;

    /// Default for the use of PI control.
    pub const DEFAULT_USE_PI_CONTROL: bool = true;

    /// Whether the configuration keeps the rules: every length, tolerance,
    /// factor, scale and error is above zero, the smallest step scale is
    /// below one and the largest above one, and at least one step attempt
    /// and one sudden reversal are allowed for.
    pub open spec fn is_valid(self) -> bool {
        &&& is_positive(self.dense_step_length)
        &&& self.max_step_attempts >= 1
        &&& is_positive(self.absolute_tolerance)
        &&& is_positive(self.relative_tolerance)
        &&& is_positive(self.safety_factor)
        &&& is_positive_below_one(self.min_step_scale)
        &&& is_above_one(self.max_step_scale)
        &&& is_positive(self.initial_error)
        &&& is_positive(self.initial_step_length)
        &&& self.sudden_reversals_for_sink >= 1
    }

    /// Checks that the configuration keeps the rules.
    pub fn validate(&self) -> (result: Result<(), InvalidConfig>)
        ensures
            result is Ok <==> self.is_valid(),
    {
        if 0 < self.dense_step_length && self.dense_step_length <= INFINITY
            && self.max_step_attempts >= 1 && 0 < self.absolute_tolerance
            && self.absolute_tolerance <= INFINITY && 0 < self.relative_tolerance
            && self.relative_tolerance <= INFINITY && 0 < self.safety_factor && self.safety_factor
            <= INFINITY && 0 < self.min_step_scale && self.min_step_scale < ONE && ONE
            < self.max_step_scale && self.max_step_scale <= INFINITY && 0 < self.initial_error
            && self.initial_error <= INFINITY && 0 < self.initial_step_length
            && self.initial_step_length <= INFINITY && self.sudden_reversals_for_sink >= 1 {
            Ok(())
        } else {
            Err(InvalidConfig)
        }
    }
}

impl Default for RKFStepperConfig {
    fn default() -> (config: Self)
        ensures
            config == (RKFStepperConfig {
                dense_step_length: RKFStepperConfig::DEFAULT_DENSE_STEP_LENGTH,
                max_step_attempts: RKFStepperConfig::DEFAULT_MAX_STEP_ATTEMPTS,
                absolute_tolerance: RKFStepperConfig::DEFAULT_ABSOLUTE_TOLERANCE,
                relative_tolerance: RKFStepperConfig::DEFAULT_RELATIVE_TOLERANCE,
                safety_factor: RKFStepperConfig::DEFAULT_SAFETY_FACTOR,
                min_step_scale: RKFStepperConfig::DEFAULT_MIN_STEP_SCALE,
                max_step_scale: RKFStepperConfig::DEFAULT_MAX_STEP_SCALE,
                initial_error: RKFStepperConfig::DEFAULT_INITIAL_ERROR,
                initial_step_length: RKFStepperConfig::DEFAULT_INITIAL_STEP_LENGTH,
                sudden_reversals_for_sink: RKFStepperConfig::DEFAULT_SUDDEN_REVERSALS_FOR_SINK,
                use_pi_control: RKFStepperConfig::DEFAULT_USE_PI_CONTROL,
            }),
            config.is_valid(),
    {
        RKFStepperConfig {
            dense_step_length: Self::DEFAULT_DENSE_STEP_LENGTH,
            max_step_attempts: Self::DEFAULT_MAX_STEP_ATTEMPTS,
            absolute_tolerance: Self::DEFAULT_ABSOLUTE_TOLERANCE,
            relative_tolerance: Self::DEFAULT_RELATIVE_TOLERANCE,
            safety_factor: Self::DEFAULT_SAFETY_FACTOR,
            min_step_scale: Self::DEFAULT_MIN_STEP_SCALE,
            max_step_scale: Self::DEFAULT_MAX_STEP_SCALE,
            initial_error: Self::DEFAULT_INITIAL_ERROR,
            initial_step_length: Self::DEFAULT_INITIAL_STEP_LENGTH,
            sudden_reversals_for_sink: Self::DEFAULT_SUDDEN_REVERSALS_FOR_SINK,
            use_pi_control: Self::DEFAULT_USE_PI_CONTROL,
        }
    }
}

/// How the step size follows the error: with Proportional Integral (PI)
/// control the error of the accepted step before counts too. Either way
/// the exponents of the errors are fractions of the order of the scheme.
#[derive(Debug, Copy, Clone, PartialEq, Eq, Structural)]
pub struct PIControlParams {
    /// Whether the error of the step before counts.
    pub is_active: bool,
    /// Order of the steps of the scheme.
    pub order: u8,
}

impl PIControlParams {
    /// PI control for a scheme of the given order.
    pub fn activated(order: u8) -> (params: Self)
        ensures
            params == (PIControlParams { is_active: true, order }),
    {
        PIControlParams { is_active: true, order }
    }

    /// Step size control by the error of the step alone, for a scheme of
    /// the given order.
    pub fn deactivated(order: u8) -> (params: Self)
        ensures
            params == (PIControlParams { is_active: false, order }),
    {
        PIControlParams { is_active: false, order }
    }
}

/// The state of a Runge-Kutta-Fehlberg stepper between steps.
#[derive(Debug, Clone)]
pub struct RKFStepperState3 {
    /// Configuration parameters for the stepper.
    pub config: RKFStepperConfig,
    /// How the step size follows the error.
    pub pi_control: PIControlParams,
    /// Current position of the stepper.
    pub position: Point3<ftr>,
    /// Current direction of the stepper.
    pub direction: Vec3<ftr>,
    /// Current distance of the stepper along the field line.
    pub distance: ftr,
    /// Current step size of the stepper.
    pub step_size: ftr,
    /// Estimated error of the step from the previous to the current position.
    pub error: ftr,
    /// Number of accepted steps in a row at which the direction reversed.
    pub n_sudden_reversals: u32,
    /// Step size used in the previous step.
    pub previous_step_size: ftr,
    /// Position of the stepper before the previous step.
    pub previous_position: Point3<ftr>,
    /// Direction of the stepper before the previous step.
    pub previous_direction: Vec3<ftr>,
    /// Directions at the intermediate positions of the previous step.
    pub intermediate_directions: Vec<Vec3<ftr>>,
    /// Displacement of the previous step.
    pub previous_step_displacement: Vec3<ftr>,
    /// Whether the previous step crossed a periodic boundary.
    pub previous_step_wrapped: bool,
    /// Distance along the field line of the next dense output position.
    pub next_output_distance: ftr,
}

impl RKFStepperState3 {
    /// Whether this is the state of a stepper that was made for the given
    /// configuration and control and has not been placed yet: at the
    /// origin, without direction or distance, with the initial step size and
    /// error, and with the first dense output one dense step ahead.
    pub open spec fn is_initial(self, config: RKFStepperConfig, pi_control: PIControlParams) -> bool {
        &&& self.config == config
        &&& self.pi_control == pi_control
        &&& self.position@ == seq![0u64, 0u64, 0u64]
        &&& self.direction@ == seq![0u64, 0u64, 0u64]
        &&& self.distance == 0
        &&& self.step_size == config.initial_step_length
        &&& self.error == config.initial_error
        &&& self.n_sudden_reversals == 0
        &&& self.previous_step_size == 0
        &&& self.previous_position@ == seq![0u64, 0u64, 0u64]
        &&& self.previous_direction@ == seq![0u64, 0u64, 0u64]
        &&& self.intermediate_directions@.len() == 0
        &&& self.previous_step_displacement@ == seq![0u64, 0u64, 0u64]
        &&& !self.previous_step_wrapped
        &&& self.next_output_distance == config.dense_step_length
    }

    /// The state of a stepper that was made for the given configuration
    /// and control and has not been placed yet.
    pub fn initial(
        config: RKFStepperConfig,
        pi_control: PIControlParams,
        n_intermediate_steps: usize,
    ) -> (state: Self)
        ensures
            state.is_initial(config, pi_control),
    {
        RKFStepperState3 {
            config,
            pi_control,
            position: Point3::<ftr>::origin(),
            direction: Vec3::<ftr>::zero(),
            distance: 0,
            step_size: config.initial_step_length,
            error: config.initial_error,
            n_sudden_reversals: 0,
            previous_step_size: 0,
            previous_position: Point3::<ftr>::origin(),
            previous_direction: Vec3::<ftr>::zero(),
            intermediate_directions: Vec::with_capacity(n_intermediate_steps),
            previous_step_displacement: Vec3::<ftr>::zero(),
            previous_step_wrapped: false,
            next_output_distance: config.dense_step_length,
        }
    }

    /// Takes note of whether the direction reversed at the step that was
    /// just accepted: against the direction before it, it points backward
    /// rather than forward. Reversals in a row are counted, and when there
    /// are as many of them as make a sink, the stepping stops.
    pub fn note_direction(&mut self, has_reversed: bool) -> (result: StepperResult<()>)
        requires
            old(self).n_sudden_reversals < old(self).config.sudden_reversals_for_sink,
        ensures
            *final(self) == (RKFStepperState3 {
                n_sudden_reversals: if has_reversed {
                    (old(self).n_sudden_reversals + 1) as u32
                } else {
                    0
                },
                ..*old(self)
            }),
            result == if has_reversed && old(self).n_sudden_reversals + 1
                >= old(self).config.sudden_reversals_for_sink {
                StepperResult::Stopped(StoppingCause::Sink)
            } else {
                StepperResult::Completed(())
            },
    {
        if has_reversed {
            self.n_sudden_reversals = self.n_sudden_reversals + 1;
            if self.n_sudden_reversals >= self.config.sudden_reversals_for_sink {
                return StepperResult::Stopped(StoppingCause::Sink);
            }
        } else {
            self.n_sudden_reversals = 0;
        }
        StepperResult::Completed(())
    }
}

/// What becomes of an attempt at a step.
#[derive(Debug, Copy, Clone, PartialEq, Eq, Structural)]
pub enum AttemptVerdict {
    /// The step is taken.
    Accept,
    /// The step is tried again with a smaller step size.
    Retry,
    /// The stepping stops: too many attempts were made.
    GiveUp,
}

/// Judges an attempt at a step. The attempts at one step are numbered
/// from one. An attempt is accepted where its error is within the
/// tolerance. Else it is tried again, unless it was the last attempt
/// allowed.
pub fn judge_attempt(
    attempt_number: u32,
    error_is_tolerable: bool,
    max_step_attempts: u32,
) -> (verdict: AttemptVerdict)
    ensures
        verdict == if error_is_tolerable {
            AttemptVerdict::Accept
        } else if attempt_number >= max_step_attempts {
            AttemptVerdict::GiveUp
        } else {
            AttemptVerdict::Retry
        },
{
    if error_is_tolerable {
        AttemptVerdict::Accept
    } else if attempt_number >= max_step_attempts {
        AttemptVerdict::GiveUp
    } else {
        AttemptVerdict::Retry
    }
}

impl AttemptVerdict {
    /// What the step comes to: nothing yet while it is tried again.
    pub fn conclude(self) -> (result: Option<StepperResult<()>>)
        ensures
            result == match self {
                AttemptVerdict::Accept => Some(StepperResult::Completed(())),
                AttemptVerdict::Retry => None,
                AttemptVerdict::GiveUp => Some(
                    StepperResult::Stopped(StoppingCause::TooManyAttempts),
                ),
            },
    {
        match self {
            AttemptVerdict::Accept => Some(StepperResult::Completed(())),
            AttemptVerdict::Retry => None,
            AttemptVerdict::GiveUp => Some(StepperResult::Stopped(StoppingCause::TooManyAttempts)),
        }
    }
}

} // verus!
