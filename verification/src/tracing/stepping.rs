//! Stepping along field lines.

pub mod rkf;

use crate::tracing::ftr;
use crate::tracing::INFINITY;
use vstd::prelude::*;

verus! {

/// Why the stepping along a field line came to an end.
#[derive(Debug, Copy, Clone, PartialEq, Eq, Structural)]
pub enum StoppingCause {
    /// The field line left the grid through a boundary that is not periodic.
    OutOfBounds,
    /// No step was accepted within the allowed number of attempts.
    TooManyAttempts,
    /// The direction kept reversing: the field line has reached a sink.
    Sink,
    /// The consumer of the positions asked for the end.
    StoppedByCallback,
    /// The field line has reached the greatest distance allowed.
    MaxDistanceReached,
}

/// What the consumer of a position wants next.
#[derive(Debug, Copy, Clone, PartialEq, Eq, Structural)]
pub enum StepperInstruction {
    Continue,
    Terminate,
}

/// What a part of the stepping came to.
#[derive(Debug, Copy, Clone, PartialEq, Eq)]
pub enum StepperResult<T> {
    /// The part was completed, with this outcome.
    Completed(T),
    /// The stepping stopped for this cause.
    Stopped(StoppingCause),
}

impl StepperInstruction {
    /// Follows the instruction given for a position: the stepping goes on,
    /// or stops because it was asked to.
    pub fn follow(self) -> (result: StepperResult<()>)
        ensures
            result == match self {
                StepperInstruction::Continue => StepperResult::Completed(()),
                StepperInstruction::Terminate => StepperResult::Stopped(
                    StoppingCause::StoppedByCallback,
                ),
            },
    {
        match self {
            StepperInstruction::Continue => StepperResult::Completed(()),
            StepperInstruction::Terminate => StepperResult::Stopped(
                StoppingCause::StoppedByCallback,
            ),
        }
    }
}

/// Whether the bit pattern is that of a number that is not negative. Among
/// such patterns the order of the numbers is the order of the patterns.
pub open spec fn is_distance(x: ftr) -> bool {
    x <= INFINITY
}

/// Checks the distance that a stepper has gone along a field line against
/// the greatest distance allowed, where there is one: the stepping stops
/// when the stepper has gone that far.
pub fn check_distance(distance: ftr, max_distance: Option<ftr>) -> (result: StepperResult<()>)
    requires
        is_distance(distance),
        max_distance is Some ==> is_distance(max_distance->0),
    ensures
        result == match max_distance {
            Some(max_distance) => if distance >= max_distance {
                StepperResult::Stopped(StoppingCause::MaxDistanceReached)
            } else {
                StepperResult::Completed(())
            },
            None => StepperResult::Completed(()),
        },
{
    match max_distance {
        Some(max_distance) => if distance >= max_distance {
            StepperResult::Stopped(StoppingCause::MaxDistanceReached)
        } else {
            StepperResult::Completed(())
        },
        None => StepperResult::Completed(()),
    }
}

} // verus!
