//! Stepping using the Bogacki-Shampine scheme,
//! a third-order Runge-Kutta method with error
//! estimation through an embedded second-order step.

use crate::geometry::Point3;
use crate::tracing::ftr;
use crate::tracing::stepping::rkf::PIControlParams;
use crate::tracing::stepping::rkf::RKFStepperConfig;
use crate::tracing::stepping::rkf::RKFStepperState3;
use vstd::prelude::*;

verus! {

/// A stepper using the third order Runge-Kutta-Fehlberg method.
pub struct RKF23Stepper3(RKFStepperState3);

impl View for RKF23Stepper3 {
    type V = RKFStepperState3;

    closed spec fn view(&self) -> RKFStepperState3 {
        self.0
    }
}

impl RKF23Stepper3 {
    /// Order of the steps.
    pub const ORDER: u8 = 3;

    /// Number of intermediate positions of a step.
    pub const N_INTERMEDIATE_STEPS: usize = 2;

    /// The control of the step size that the configuration asks for.
    pub open spec fn pi_control(config: RKFStepperConfig) -> PIControlParams {
        PIControlParams { is_active: config.use_pi_control, order: Self::ORDER }
    }

    /// Creates a new RKF23 stepper with the given configuration.
    pub fn new(config: RKFStepperConfig) -> (stepper: Self)
        requires
            config.is_valid(),
        ensures
            stepper@.is_initial(config, Self::pi_control(config)),
    {
        let pi_control = if config.use_pi_control {
            PIControlParams::activated(Self::ORDER)
        } else {
            PIControlParams::deactivated(Self::ORDER)
        };
        RKF23Stepper3(RKFStepperState3::initial(config, pi_control, Self::N_INTERMEDIATE_STEPS))
    }

    /// The state of the stepper.
    pub fn state(&self) -> (state: &RKFStepperState3)
        ensures
            *state == self@,
    {
        &self.0
    }

    /// The state of the stepper, to be changed.
    pub fn state_mut(&mut self) -> (state: &mut RKFStepperState3)
        ensures
            *state == old(self)@,
            final(self)@ == *final(state),
    {
        &mut self.0
    }

    /// Current position of the stepper.
    pub fn position(&self) -> (position: &Point3<ftr>)
        ensures
            *position == self@.position,
    {
        &self.0.position
    }

    /// Current distance of the stepper along the field line.
    pub fn distance(&self) -> (distance: ftr)
        ensures
            distance == self@.distance,
    {
        self.0.distance
    }
}

} // verus!
