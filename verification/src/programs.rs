//! What the outcome of a solver means for a program.

use crate::errors::HonestError;
use crate::number::Real;
use vstd::prelude::*;

verus! {

/// How a conic solver ended.
#[derive(Clone, Copy, Debug, PartialEq, Eq, Structural)]
pub enum ProgramStatus {
    /// It has not run.
    Unsolved,
    /// With an optimum.
    Solved,
    /// With a certificate of primal infeasibility.
    PrimalInfeasible,
    /// With a certificate of dual infeasibility.
    DualInfeasible,
    /// With an optimum of reduced accuracy.
    AlmostSolved,
    /// With a certificate of primal infeasibility of reduced accuracy.
    AlmostPrimalInfeasible,
    /// With a certificate of dual infeasibility of reduced accuracy.
    AlmostDualInfeasible,
    /// At its limit of iterations.
    MaxIterations,
    /// At its limit of time.
    MaxTime,
    /// With a numerical error.
    NumericalError,
    /// Without progress.
    InsufficientProgress,
    /// By a callback.
    CallbackTerminated,
}

impl ProgramStatus {
    /// The name of the status.
    pub open spec fn label_spec(self) -> &'static str {
        match self {
            ProgramStatus::Unsolved => "Unsolved",
            ProgramStatus::Solved => "Solved",
            ProgramStatus::PrimalInfeasible => "PrimalInfeasible",
            ProgramStatus::DualInfeasible => "DualInfeasible",
            ProgramStatus::AlmostSolved => "AlmostSolved",
            ProgramStatus::AlmostPrimalInfeasible => "AlmostPrimalInfeasible",
            ProgramStatus::AlmostDualInfeasible => "AlmostDualInfeasible",
            ProgramStatus::MaxIterations => "MaxIterations",
            ProgramStatus::MaxTime => "MaxTime",
            ProgramStatus::NumericalError => "NumericalError",
            ProgramStatus::InsufficientProgress => "InsufficientProgress",
            ProgramStatus::CallbackTerminated => "CallbackTerminated",
        }
    }

    /// The name of the status.
    pub fn label(self) -> (label: &'static str)
        ensures
            label == self.label_spec(),
    {
        match self {
            ProgramStatus::Unsolved => "Unsolved",
            ProgramStatus::Solved => "Solved",
            ProgramStatus::PrimalInfeasible => "PrimalInfeasible",
            ProgramStatus::DualInfeasible => "DualInfeasible",
            ProgramStatus::AlmostSolved => "AlmostSolved",
            ProgramStatus::AlmostPrimalInfeasible => "AlmostPrimalInfeasible",
            ProgramStatus::AlmostDualInfeasible => "AlmostDualInfeasible",
            ProgramStatus::MaxIterations => "MaxIterations",
            ProgramStatus::MaxTime => "MaxTime",
            ProgramStatus::NumericalError => "NumericalError",
            ProgramStatus::InsufficientProgress => "InsufficientProgress",
            ProgramStatus::CallbackTerminated => "CallbackTerminated",
        }
    }

    /// Whether there is an optimum.
    pub open spec fn solved(self) -> bool {
        self is Solved || self is AlmostSolved
    }

    /// Whether the program has no bounded optimum.
    pub open spec fn infeasible(self) -> bool {
        self is PrimalInfeasible || self is DualInfeasible || self is AlmostPrimalInfeasible
            || self is AlmostDualInfeasible
    }

    /// Whether the solver lost its accuracy, and the program is tried again.
    pub open spec fn inaccurate(self) -> bool {
        self is NumericalError || self is InsufficientProgress
    }

    /// Whether there is an optimum.
    pub fn is_solved(self) -> (r: bool)
        ensures
            r == self.solved(),
    {
        matches!(self, ProgramStatus::Solved | ProgramStatus::AlmostSolved)
    }

    /// Whether the program has no bounded optimum.
    pub fn is_infeasible(self) -> (r: bool)
        ensures
            r == self.infeasible(),
    {
        matches!(
            self,
            ProgramStatus::PrimalInfeasible
                | ProgramStatus::DualInfeasible
                | ProgramStatus::AlmostPrimalInfeasible
                | ProgramStatus::AlmostDualInfeasible
        )
    }

    /// Whether the solver lost its accuracy.
    pub fn is_inaccurate(self) -> (r: bool)
        ensures
            r == self.inaccurate(),
    {
        matches!(self, ProgramStatus::NumericalError | ProgramStatus::InsufficientProgress)
    }
}

/// What a solver returned.
#[derive(Debug, PartialEq, Eq)]
pub struct ProgramAnswer<T> {
    /// How it ended.
    pub status: ProgramStatus,
    /// What it found; it means something where there is an optimum.
    pub found: T,
}

/// What an answer means: the optimum, nothing where there is none, or an error.
pub open spec fn answer_meaning<T>(program: &'static str, answer: ProgramAnswer<T>) -> Result<
    Option<T>,
    HonestError,
> {
    if answer.status.solved() {
        Ok(Some(answer.found))
    } else if answer.status.infeasible() {
        Ok(None)
    } else {
        Err(HonestError::SolverFailed { program, status: answer.status.label_spec() })
    }
}

/// What an answer means.
pub fn read_answer<T>(program: &'static str, answer: ProgramAnswer<T>) -> (meaning: Result<
    Option<T>,
    HonestError,
>)
    ensures
        meaning == answer_meaning(program, answer),
{
    if answer.status.is_solved() {
        Ok(Some(answer.found))
    } else if answer.status.is_infeasible() {
        Ok(None)
    } else {
        Err(HonestError::SolverFailed { program, status: answer.status.label() })
    }
}

/// The optimum of the second attempt at the dual program, where infeasibility is
/// an error.
pub fn read_dual_max(answer: ProgramAnswer<Real>) -> (optimum: Result<Real, HonestError>)
    ensures
        optimum == (match answer_meaning("HonestDiD dual max LP", answer) {
            Ok(Some(value)) => Ok(value),
            Ok(None) => Err(HonestError::DualMaxInfeasible),
            Err(error) => Err(error),
        }),
{
    match read_answer("HonestDiD dual max LP", answer) {
        Ok(Some(value)) => Ok(value),
        Ok(None) => Err(HonestError::DualMaxInfeasible),
        Err(error) => Err(error),
    }
}

// ---------------------------------------------------------------------------
// The moment program on a simplex solver with return codes
// ---------------------------------------------------------------------------

/// The return code of a step that was refused.
pub const STATUS_ERROR: i32 = -1;

/// The return code of a step that was done.
pub const STATUS_OK: i32 = 0;

/// The return code of a step that was done with a warning.
pub const STATUS_WARNING: i32 = 1;

/// What a return code means for a step.
pub fn try_highs_status(status: i32, context: &'static str) -> (checked: Result<(), HonestError>)
    ensures
        checked == (if status == STATUS_OK || status == STATUS_WARNING {
            Ok::<(), HonestError>(())
        } else if status == STATUS_ERROR {
            Err::<(), HonestError>(HonestError::HighsFailed { context })
        } else {
            Err::<(), HonestError>(HonestError::HighsUnexpected { context, status })
        }),
{
    if status == STATUS_OK || status == STATUS_WARNING {
        Ok(())
    } else if status == STATUS_ERROR {
        Err(HonestError::HighsFailed { context })
    } else {
        Err(HonestError::HighsUnexpected { context, status })
    }
}

} // verus!
