//! Solves of the moment program: the statistic, the nuisance coefficients and
//! the multipliers.

use crate::dense_simplex::{DenseSimplex, PrepareRun, SimplexState};
use crate::errors::HonestError;
use crate::linear_program;
use crate::lp_arithmetic::LpArithmetic;
use crate::matrix;
use crate::number::Real;
use crate::pricing;
use crate::programs;
use crate::programs::try_highs_status;
use crate::simplex;
use crate::simplex::{LpError, Phase, REFACTOR_EVERY};
use crate::workspaces;
use crate::workspaces::{
    build_moment_program, check_moment_rhs, moment_program_error, MomentProgram, BASIS_MEMORY,
};
use vstd::prelude::*;

verus! {

/// A solution of the moment program.
#[derive(Debug, PartialEq, Eq)]
pub struct MomentSolution {
    /// The statistic.
    pub eta_star: Real,
    /// The nuisance coefficients.
    pub delta_star: Vec<Real>,
    /// The multipliers of the moments.
    pub lambda: Vec<Real>,
}

// ---------------------------------------------------------------------------
// On the dense simplex
// ---------------------------------------------------------------------------

/// Whether `scaled` holds quotients by a scale.
pub open spec fn is_scaled_down<T: LpArithmetic>(
    numbers: T,
    values: Seq<Real>,
    scale: Real,
    scaled: Seq<Real>,
) -> bool {
    &&& scaled.len() == values.len()
    &&& forall|i: int|
        0 <= i < values.len() ==> numbers.divides(values[i], scale, #[trigger] scaled[i])
}

/// Whether `scaled` holds products with a factor.
pub open spec fn is_scaled_by<T: LpArithmetic>(
    numbers: T,
    values: Seq<Real>,
    factor: Real,
    scaled: Seq<Real>,
) -> bool {
    &&& scaled.len() == values.len()
    &&& forall|i: int|
        0 <= i < values.len() ==> numbers.multiplies(values[i], factor, #[trigger] scaled[i])
}

fn scaled_down<T: LpArithmetic>(values: &Vec<Real>, scale: Real, numbers: &T) -> (scaled: Vec<Real>)
    requires
        numbers.ready(),
    ensures
        is_scaled_down(*numbers, values@, scale, scaled@),
{
    let mut scaled: Vec<Real> = Vec::new();
    while scaled.len() < values.len()
        invariant
            scaled.len() <= values.len(),
            numbers.ready(),
            forall|i: int|
                0 <= i < scaled.len() ==> numbers.divides(
                    values@[i],
                    scale,
                    #[trigger] scaled@[i],
                ),
        decreases values.len() - scaled.len(),
    {
        let i: usize = scaled.len();
        scaled.push(numbers.divide(values[i], scale));
    }
    scaled
}

fn scaled_by<T: LpArithmetic>(values: &Vec<Real>, factor: Real, numbers: &T) -> (scaled: Vec<Real>)
    requires
        numbers.ready(),
    ensures
        is_scaled_by(*numbers, values@, factor, scaled@),
{
    let mut scaled: Vec<Real> = Vec::new();
    while scaled.len() < values.len()
        invariant
            scaled.len() <= values.len(),
            numbers.ready(),
            forall|i: int|
                0 <= i < scaled.len() ==> numbers.multiplies(
                    values@[i],
                    factor,
                    #[trigger] scaled@[i],
                ),
        decreases values.len() - scaled.len(),
    {
        let i: usize = scaled.len();
        scaled.push(numbers.multiply(values[i], factor));
    }
    scaled
}

/// The moment program of a design on the dense simplex.
#[derive(Debug, PartialEq, Eq)]
pub struct ConditionalMomentLpWorkspace {
    /// The program.
    pub lp: DenseSimplex,
    /// Number of nuisance coefficients.
    pub k: usize,
    /// Scale of the rows.
    pub scale: Real,
}

/// The error of moments that differ in number.
pub open spec fn rhs_error(expected: int, found: int) -> HonestError {
    HonestError::RhsLength { expected: expected as usize, found: found as usize }
}

impl ConditionalMomentLpWorkspace {
    /// The program has a row for the statistic and one per nuisance coefficient.
    pub open spec fn wf(self) -> bool {
        &&& self.lp.wf()
        &&& self.k < usize::MAX
        &&& self.lp.program.rows() == self.k + 1
    }

    /// Whether `made` holds the moment program of a design and standard
    /// deviations, or its error.
    pub open spec fn holds<T: LpArithmetic>(
        design: Seq<Vec<Real>>,
        sd: Seq<Real>,
        numbers: T,
        made: Result<ConditionalMomentLpWorkspace, HonestError>,
    ) -> bool {
        exists|built: Result<MomentProgram, HonestError>| #[trigger]
            workspaces::moment_program_of(design, sd, numbers, built) && match built {
                Err(error) => made == Err::<ConditionalMomentLpWorkspace, HonestError>(error),
                Ok(program) => made matches Ok(workspace) && {
                    &&& workspace.lp.program.columns == program.columns
                    &&& workspace.lp.program.right == program.rhs
                    &&& workspace.lp.state.memory.cap == BASIS_MEMORY
                    &&& workspace.k == program.k
                    &&& workspace.scale == program.scale
                },
            }
    }

    /// The moment program of a design and standard deviations.
    pub fn new<T: LpArithmetic>(design: &[Vec<Real>], sd: &[Real], numbers: &T) -> (made: Result<
        Self,
        HonestError,
    >)
        requires
            matrix::has_cols(design@, matrix::first_width(design@)),
            simplex::pivot_limit(matrix::first_width(design@) + 1, design@.len() as int)
                <= usize::MAX,
            numbers.ready(),
        ensures
            Self::holds(design@, sd@, *numbers, made),
            made matches Ok(workspace) ==> workspace.wf()
                && workspace.lp.state.basis.pivots_since_refactor == 0,
    {
        let built = build_moment_program(design, sd, numbers);
        let ghost said = built;
        let made = match built {
            Err(error) => Err(error),
            Ok(program) => {
                proof {
                    assert forall|i: int| 0 <= i < program.columns@.len() implies (
                    #[trigger] program.columns@[i])@.len() == program.rhs@.len() by {
                        assert(design@[i]@.len() == matrix::first_width(design@));
                    }
                }
                let mut lp = DenseSimplex::new(program.columns, program.rhs);
                lp.set_memory(BASIS_MEMORY);
                Ok(ConditionalMomentLpWorkspace { lp, k: program.k, scale: program.scale })
            },
        };
        assert(workspaces::moment_program_of(design@, sd@, *numbers, said));
        made
    }

    /// Whether `after` is the workspace once a feasible basis was sought, whether
    /// or not one was found.
    pub open spec fn prepares<T: LpArithmetic>(
        self,
        after: ConditionalMomentLpWorkspace,
        numbers: T,
        outcome: Result<(), LpError>,
        run: PrepareRun,
    ) -> bool {
        &&& after.k == self.k
        &&& after.scale == self.scale
        &&& after.lp == (DenseSimplex { state: after.lp.state, ..self.lp })
        &&& run.explains(self.lp.state, after.lp.state, self.lp.program, numbers, outcome)
    }

    /// Seeks a feasible basis now, so that solves start from it. That there is
    /// none is no error here: the solves report it.
    pub fn prepare<T: LpArithmetic>(&mut self, numbers: &T)
        requires
            old(self).wf(),
            old(self).lp.state.basis.pivots_since_refactor < usize::MAX,
            numbers.ready(),
        ensures
            final(self).wf(),
            exists|outcome: Result<(), LpError>, run: PrepareRun| #[trigger]
                old(self).prepares(*final(self), *numbers, outcome, run),
    {
        let ghost before = *self;
        let outcome = self.lp.prepare(numbers);
        proof {
            let run = choose|run: PrepareRun| #[trigger]
                run.explains(
                    before.lp.state,
                    self.lp.state,
                    before.lp.program,
                    *numbers,
                    outcome,
                );
            assert(before.prepares(*self, *numbers, outcome, run));
        }
    }

    /// Whether the program was solved for moments, which are its costs in units
    /// of the scale: an error where they differ in number or there is no bounded
    /// optimum.
    pub open spec fn loads<T: LpArithmetic>(
        self,
        after: ConditionalMomentLpWorkspace,
        loaded: DenseSimplex,
        numbers: T,
        moments: Seq<Real>,
        out: Result<(), HonestError>,
    ) -> bool {
        &&& after.k == self.k
        &&& after.scale == self.scale
        &&& if moments.len() != self.lp.program.count() {
            &&& out == Err::<(), HonestError>(
                rhs_error(self.lp.program.count(), moments.len() as int),
            )
            &&& after == self
        } else {
            &&& loaded.program == self.lp.program
            &&& loaded.objective == self.lp.objective
            &&& loaded.lambda == self.lp.lambda
            &&& loaded.state == (SimplexState { cost: loaded.state.cost, ..self.lp.state })
            &&& is_scaled_down(numbers, moments, self.scale, loaded.state.cost@)
            &&& match out {
                Ok(()) => loaded.solves(after.lp, numbers, Ok(())),
                Err(failure) => fails(loaded, after.lp, numbers, failure),
            }
        }
    }

    fn load<T: LpArithmetic>(&mut self, moments: &Vec<Real>, numbers: &T) -> (out: (
        Result<(), HonestError>,
        Ghost<DenseSimplex>,
    ))
        requires
            old(self).wf(),
            old(self).lp.state.basis.pivots_since_refactor < usize::MAX,
            numbers.ready(),
        ensures
            final(self).wf(),
            final(self).lp.program == old(self).lp.program,
            out.0 is Ok ==> final(self).lp.state.has_feasible_basis,
            final(self).lp.state.basis.pivots_since_refactor
                <= old(self).lp.state.basis.pivots_since_refactor + 1
                || final(self).lp.state.basis.pivots_since_refactor <= REFACTOR_EVERY,
            old(self).loads(*final(self), out.1@, *numbers, moments@, out.0),
    {
        let ghost unloaded = self.lp;
        match check_moment_rhs(self.lp.program.columns.len(), moments.len()) {
            Err(error) => {
                return (Err(error), Ghost(unloaded));
            },
            Ok(()) => {},
        }
        let costs = scaled_down(moments, self.scale, numbers);
        self.lp.set_cost(costs.as_slice());
        let ghost loaded = self.lp;
        match self.lp.solve(numbers) {
            Ok(()) => (Ok(()), Ghost(loaded)),
            Err(error) => {
                let failure = moment_program_error(error);
                assert(loaded.solves(self.lp, *numbers, Err(error)));
                assert(fails(loaded, self.lp, *numbers, failure));
                (Err(failure), Ghost(loaded))
            },
        }
    }

    /// The solution for given moments.
    pub fn solve_in_place<T: LpArithmetic>(&mut self, moments: &Vec<Real>, numbers: &T) -> (out:
        Result<MomentSolution, HonestError>)
        requires
            old(self).wf(),
            old(self).lp.state.basis.pivots_since_refactor < usize::MAX,
            numbers.ready(),
        ensures
            final(self).wf(),
            final(self).lp.program == old(self).lp.program,
            final(self).lp.state.basis.pivots_since_refactor
                <= old(self).lp.state.basis.pivots_since_refactor + 1
                || final(self).lp.state.basis.pivots_since_refactor <= REFACTOR_EVERY,
            exists|run: MomentRun| #[trigger]
                run.explains(*old(self), *final(self), *numbers, moments@, out),
    {
        let ghost before = *self;
        let ghost mut run: MomentRun = arbitrary();
        let (loaded, Ghost(lp)) = self.load(moments, numbers);
        proof {
            run.loaded = lp;
        }
        match loaded {
            Err(error) => {
                let out = Err(error);
                assert(run.explains(before, *self, *numbers, moments@, out));
                return out;
            },
            Ok(()) => {},
        }
        let duals = self.lp.duals(numbers);
        let inverse = numbers.reciprocal(self.scale);
        proof {
            run.duals = duals;
            run.inverse = inverse;
        }
        let mut delta_star: Vec<Real> = Vec::new();
        while delta_star.len() < self.k
            invariant
                delta_star.len() <= self.k,
                self.k < usize::MAX,
                duals@.len() == self.k + 1,
                forall|i: int|
                    0 <= i < delta_star.len() ==> #[trigger] delta_star@[i] == duals@[i + 1],
            decreases self.k - delta_star.len(),
        {
            let i: usize = delta_star.len();
            delta_star.push(duals[i + 1]);
        }
        let lambda = scaled_by(&self.lp.lambda, inverse, numbers);
        let out = Ok(MomentSolution { eta_star: duals[0], delta_star, lambda });
        assert(out->Ok_0.delta_star@ =~= duals@.subrange(1, self.k + 1));
        assert(run.explains(before, *self, *numbers, moments@, out));
        out
    }

    /// The statistic alone for given moments.
    pub fn solve_eta_only<T: LpArithmetic>(&mut self, moments: &Vec<Real>, numbers: &T) -> (out:
        Result<Real, HonestError>)
        requires
            old(self).wf(),
            old(self).lp.state.basis.pivots_since_refactor < usize::MAX,
            numbers.ready(),
        ensures
            final(self).wf(),
            final(self).lp.program == old(self).lp.program,
            final(self).lp.state.basis.pivots_since_refactor
                <= old(self).lp.state.basis.pivots_since_refactor + 1
                || final(self).lp.state.basis.pivots_since_refactor <= REFACTOR_EVERY,
            exists|loaded: DenseSimplex| #[trigger]
                eta_found(*old(self), *final(self), loaded, *numbers, moments@, out),
    {
        let ghost before = *self;
        let (loaded, Ghost(lp)) = self.load(moments, numbers);
        let out = match loaded {
            Err(error) => Err(error),
            Ok(()) => Ok(self.lp.dual_0(numbers)),
        };
        assert(eta_found(before, *self, lp, *numbers, moments@, out));
        out
    }
}

/// Whether a failure is that of a solve.
pub open spec fn fails<T: LpArithmetic>(
    loaded: DenseSimplex,
    after: DenseSimplex,
    numbers: T,
    failure: HonestError,
) -> bool {
    exists|error: LpError| #[trigger]
        loaded.solves(after, numbers, Err(error)) && failure == (HonestError::ProgramFailed {
            status: error.label_spec(),
        })
}

/// Whether `out` is the statistic for given moments: the first dual of the basis
/// in which the solve ended.
pub open spec fn eta_found<T: LpArithmetic>(
    before: ConditionalMomentLpWorkspace,
    after: ConditionalMomentLpWorkspace,
    loaded: DenseSimplex,
    numbers: T,
    moments: Seq<Real>,
    out: Result<Real, HonestError>,
) -> bool {
    match out {
        Err(error) => before.loads(after, loaded, numbers, moments, Err(error)),
        Ok(eta) => before.loads(after, loaded, numbers, moments, Ok(())) && pricing::is_dual(
            after.lp.state.basis.basis@,
            after.lp.state.numbers.binv@,
            0,
            Phase::Two,
            after.lp.state.cost@,
            numbers,
            eta,
        ),
    }
}

/// What a solve rested on.
pub struct MomentRun {
    /// The program with the costs set.
    pub loaded: DenseSimplex,
    /// The duals at the optimum.
    pub duals: Vec<Real>,
    /// One over the scale.
    pub inverse: Real,
}

impl MomentRun {
    /// Whether `out` is the solution for given moments: the statistic is the
    /// first dual of the basis in which the solve ended, the nuisance
    /// coefficients are the others, and the multipliers are the values of the
    /// columns there, brought back to the scale of the moments.
    pub open spec fn explains<T: LpArithmetic>(
        self,
        before: ConditionalMomentLpWorkspace,
        after: ConditionalMomentLpWorkspace,
        numbers: T,
        moments: Seq<Real>,
        out: Result<MomentSolution, HonestError>,
    ) -> bool {
        match out {
            Err(error) => before.loads(after, self.loaded, numbers, moments, Err(error)),
            Ok(found) => {
                &&& before.loads(after, self.loaded, numbers, moments, Ok(()))
                &&& linear_program::are_duals(
                    numbers,
                    Phase::Two,
                    after.lp.state.basis.basis@,
                    after.lp.state.numbers.binv@,
                    after.lp.state.cost@,
                    self.duals@,
                )
                &&& numbers.inverts(before.scale, self.inverse)
                &&& found.eta_star == self.duals@[0]
                &&& found.delta_star@ == self.duals@.subrange(1, before.k + 1)
                &&& is_scaled_by(numbers, after.lp.lambda@, self.inverse, found.lambda@)
            },
        }
    }
}

// ---------------------------------------------------------------------------
// On a solver with return codes
// ---------------------------------------------------------------------------

/// How a simplex solver ended.
#[derive(Clone, Copy, Debug, PartialEq, Eq)]
pub enum ModelStatus {
    /// With an optimum.
    Optimal,
    /// At a bound on the objective.
    ObjectiveBound,
    /// At a target of the objective.
    ObjectiveTarget,
    /// Otherwise, under this name.
    Other(&'static str),
}

/// The moment program on a solver that is started from its last basis.
#[derive(Debug, PartialEq, Eq)]
pub struct CodedMomentWorkspace {
    /// Number of moments.
    pub rows: usize,
    /// Number of nuisance coefficients.
    pub k: usize,
    /// Scale of the rows.
    pub scale: Real,
    /// Whether there is a basis to start from.
    pub has_basis: bool,
    /// Whether there is a solution to start from.
    pub has_solution: bool,
}

/// The steps of a solve and its arithmetic.
pub struct CodedNumbers<D, U, B, V, N, T, G, W, X, I, M> {
    /// Quotient of two numbers.
    pub divide: D,
    /// Sets the right-hand side.
    pub update: U,
    /// Starts from the last basis.
    pub set_basis: B,
    /// Starts from the last solution.
    pub set_solution: V,
    /// Runs the solver on a right-hand side.
    pub run: N,
    /// How the run on a right-hand side ended.
    pub status: T,
    /// Reads the columns and the duals of the rows for a right-hand side.
    pub read_solution: G,
    /// Reads the basis for a right-hand side.
    pub read_basis: W,
    /// Difference of two numbers.
    pub subtract: X,
    /// One over a number.
    pub invert: I,
    /// Product of two numbers.
    pub multiply: M,
}

/// Whether the steps can be taken.
pub open spec fn coded_ready<
    D: Fn(Real, Real) -> Real,
    U: Fn(&Vec<Real>) -> i32,
    B: Fn() -> i32,
    V: Fn(),
    N: Fn(&Vec<Real>) -> i32,
    T: Fn(&Vec<Real>) -> Result<ModelStatus, String>,
    G: Fn(&Vec<Real>) -> (i32, Vec<Real>, Vec<Real>),
    W: Fn(&Vec<Real>) -> i32,
    X: Fn(Real, Real) -> Real,
    I: Fn(Real) -> Real,
    M: Fn(Real, Real) -> Real,
>(numbers: CodedNumbers<D, U, B, V, N, T, G, W, X, I, M>, k: int) -> bool {
    &&& forall|a: Real, b: Real| #[trigger] call_requires(numbers.divide, (a, b))
    &&& forall|v: Vec<Real>| #[trigger] call_requires(numbers.update, (&v,))
    &&& call_requires(numbers.set_basis, ())
    &&& call_requires(numbers.set_solution, ())
    &&& forall|v: Vec<Real>| #[trigger] call_requires(numbers.run, (&v,))
    &&& forall|v: Vec<Real>| #[trigger] call_requires(numbers.status, (&v,))
    &&& forall|v: Vec<Real>| #[trigger] call_requires(numbers.read_solution, (&v,))
    &&& forall|v: Vec<Real>, found: (i32, Vec<Real>, Vec<Real>)| #[trigger]
        call_ensures(numbers.read_solution, (&v,), found) ==> found.1@.len() == 2 + 2 * k
    &&& forall|v: Vec<Real>| #[trigger] call_requires(numbers.read_basis, (&v,))
    &&& forall|a: Real, b: Real| #[trigger] call_requires(numbers.subtract, (a, b))
    &&& forall|a: Real| #[trigger] call_requires(numbers.invert, (a,))
    &&& forall|a: Real, b: Real| #[trigger] call_requires(numbers.multiply, (a, b))
}

/// What a return code means for a step.
pub open spec fn code_fault(code: i32, context: &'static str) -> Option<HonestError> {
    if code == programs::STATUS_OK || code == programs::STATUS_WARNING {
        None
    } else if code == programs::STATUS_ERROR {
        Some(HonestError::HighsFailed { context })
    } else {
        Some(HonestError::HighsUnexpected { context, status: code })
    }
}

/// What the outcome of a run means.
pub open spec fn status_fault(status: Result<ModelStatus, String>) -> Option<HonestError> {
    match status {
        Err(message) => Some(HonestError::Numerical { message }),
        Ok(ModelStatus::Other(name)) => Some(HonestError::ProgramFailed { status: name }),
        Ok(_) => None,
    }
}

/// What a solve with return codes rested on.
pub struct CodedRun {
    /// The right-hand side.
    pub right: Vec<Real>,
    /// Return codes: of the right-hand side, the basis, the run, the solution and
    /// the basis that was read.
    pub codes: (i32, i32, i32, i32, i32),
    /// How the solver ended.
    pub status: Result<ModelStatus, String>,
    /// The columns.
    pub columns: Vec<Real>,
    /// The duals of the rows.
    pub duals: Vec<Real>,
    /// One over the scale.
    pub inverse: Real,
}

impl CodedRun {
    /// Whether the right-hand side was set.
    pub open spec fn updated(self) -> bool {
        code_fault(self.codes.0, "update HonestDiD eta/delta LP rhs") is None
    }

    /// Whether, besides, the last basis was applied, where there is one.
    pub open spec fn based(self, has_basis: bool) -> bool {
        self.updated() && (has_basis ==> code_fault(
            self.codes.1,
            "apply HonestDiD eta/delta LP basis",
        ) is None)
    }

    /// Whether, besides, the solver ran.
    pub open spec fn ran(self, has_basis: bool) -> bool {
        self.based(has_basis) && code_fault(self.codes.2, "solve HonestDiD eta/delta LP") is None
    }

    /// Whether, besides, it ended with an optimum.
    pub open spec fn ended(self, has_basis: bool) -> bool {
        self.ran(has_basis) && status_fault(self.status) is None
    }

    /// Whether, besides, the solution was read.
    pub open spec fn read(self, has_basis: bool) -> bool {
        self.ended(has_basis) && code_fault(
            self.codes.3,
            "read HonestDiD eta/delta LP solution",
        ) is None
    }

    /// The first fault of a step, if any.
    pub open spec fn fault(self, has_basis: bool) -> Option<HonestError> {
        if code_fault(self.codes.0, "update HonestDiD eta/delta LP rhs") is Some {
            code_fault(self.codes.0, "update HonestDiD eta/delta LP rhs")
        } else if has_basis && code_fault(self.codes.1, "apply HonestDiD eta/delta LP basis")
            is Some {
            code_fault(self.codes.1, "apply HonestDiD eta/delta LP basis")
        } else if code_fault(self.codes.2, "solve HonestDiD eta/delta LP") is Some {
            code_fault(self.codes.2, "solve HonestDiD eta/delta LP")
        } else if status_fault(self.status) is Some {
            status_fault(self.status)
        } else if code_fault(self.codes.3, "read HonestDiD eta/delta LP solution") is Some {
            code_fault(self.codes.3, "read HonestDiD eta/delta LP solution")
        } else {
            code_fault(self.codes.4, "read HonestDiD eta/delta LP basis")
        }
    }

    /// Whether the solution is read off the columns and the duals: differences of
    /// the positive and the negative parts, and the negated duals, at least zero,
    /// brought back to the scale of the moments.
    pub open spec fn reads<X: Fn(Real, Real) -> Real, M: Fn(Real, Real) -> Real>(
        self,
        k: int,
        subtract: X,
        multiply: M,
        found: MomentSolution,
    ) -> bool {
        &&& call_ensures(subtract, (self.columns@[0], self.columns@[1]), found.eta_star)
        &&& found.delta_star@.len() == k
        &&& forall|i: int|
            0 <= i < k ==> call_ensures(
                subtract,
                (self.columns@[2 + i], self.columns@[2 + k + i]),
                #[trigger] found.delta_star@[i],
            )
        &&& found.lambda@.len() == self.duals@.len()
        &&& forall|i: int|
            0 <= i < self.duals@.len() ==> call_ensures(
                multiply,
                (self.duals@[i].neg_spec().max_spec(Real::zero_spec()), self.inverse),
                #[trigger] found.lambda@[i],
            )
    }

    /// Whether `out` is the solution for given moments, and the workspace knows a
    /// basis and a solution to start from once there was one.
    pub open spec fn explains<
        D: Fn(Real, Real) -> Real,
        U: Fn(&Vec<Real>) -> i32,
        B: Fn() -> i32,
        V: Fn(),
        N: Fn(&Vec<Real>) -> i32,
        T: Fn(&Vec<Real>) -> Result<ModelStatus, String>,
        G: Fn(&Vec<Real>) -> (i32, Vec<Real>, Vec<Real>),
        W: Fn(&Vec<Real>) -> i32,
        X: Fn(Real, Real) -> Real,
        I: Fn(Real) -> Real,
        M: Fn(Real, Real) -> Real,
    >(
        self,
        before: CodedMomentWorkspace,
        after: CodedMomentWorkspace,
        numbers: CodedNumbers<D, U, B, V, N, T, G, W, X, I, M>,
        moments: Seq<Real>,
        out: Result<MomentSolution, HonestError>,
    ) -> bool {
        if moments.len() != before.rows {
            &&& out == Err::<MomentSolution, HonestError>(
                rhs_error(before.rows as int, moments.len() as int),
            )
            &&& after == before
        } else {
            &&& self.right@.len() == moments.len()
            &&& forall|i: int|
                0 <= i < moments.len() ==> call_ensures(
                    numbers.divide,
                    (moments[i].neg_spec(), before.scale),
                    #[trigger] self.right@[i],
                )
            &&& call_ensures(numbers.update, (&self.right,), self.codes.0)
            &&& self.updated() && before.has_basis ==> call_ensures(
                numbers.set_basis,
                (),
                self.codes.1,
            )
            &&& self.updated() && !before.has_basis && before.has_solution ==> call_ensures(
                numbers.set_solution,
                (),
                (),
            )
            &&& self.based(before.has_basis) ==> call_ensures(
                numbers.run,
                (&self.right,),
                self.codes.2,
            )
            &&& self.ran(before.has_basis) ==> call_ensures(
                numbers.status,
                (&self.right,),
                self.status,
            )
            &&& self.ended(before.has_basis) ==> call_ensures(
                numbers.read_solution,
                (&self.right,),
                (self.codes.3, self.columns, self.duals),
            )
            &&& self.read(before.has_basis) ==> call_ensures(
                numbers.read_basis,
                (&self.right,),
                self.codes.4,
            )
            &&& match self.fault(before.has_basis) {
                Some(error) => out == Err::<MomentSolution, HonestError>(error) && after == before,
                None => {
                    &&& call_ensures(numbers.invert, (before.scale,), self.inverse)
                    &&& after == (CodedMomentWorkspace {
                        has_basis: true,
                        has_solution: true,
                        ..before
                    })
                    &&& out matches Ok(found) && self.reads(
                        before.k as int,
                        numbers.subtract,
                        numbers.multiply,
                        found,
                    )
                },
            }
        }
    }
}

/// The first fault of the steps of a solve, by their return codes and the
/// outcome of the run; the code of the basis counts only where there was one.
pub fn first_code_fault(
    codes: (i32, i32, i32, i32, i32),
    has_basis: bool,
    status: Result<ModelStatus, String>,
) -> (fault: Option<HonestError>)
    ensures
        forall|run: CodedRun|
            run.codes == codes && run.status == status ==> fault == #[trigger] run.fault(
                has_basis,
            ),
{
    if let Err(error) = try_highs_status(codes.0, "update HonestDiD eta/delta LP rhs") {
        return Some(error);
    }
    if has_basis {
        if let Err(error) = try_highs_status(codes.1, "apply HonestDiD eta/delta LP basis") {
            return Some(error);
        }
    }
    if let Err(error) = try_highs_status(codes.2, "solve HonestDiD eta/delta LP") {
        return Some(error);
    }
    match status {
        Err(message) => {
            return Some(HonestError::Numerical { message });
        },
        Ok(ModelStatus::Other(name)) => {
            return Some(HonestError::ProgramFailed { status: name });
        },
        Ok(_) => {},
    }
    if let Err(error) = try_highs_status(codes.3, "read HonestDiD eta/delta LP solution") {
        return Some(error);
    }
    match try_highs_status(codes.4, "read HonestDiD eta/delta LP basis") {
        Err(error) => Some(error),
        Ok(()) => None,
    }
}

impl CodedMomentWorkspace {
    /// The solution for given moments.
    pub fn solve_in_place<
        D: Fn(Real, Real) -> Real,
        U: Fn(&Vec<Real>) -> i32,
        B: Fn() -> i32,
        V: Fn(),
        N: Fn(&Vec<Real>) -> i32,
        T: Fn(&Vec<Real>) -> Result<ModelStatus, String>,
        G: Fn(&Vec<Real>) -> (i32, Vec<Real>, Vec<Real>),
        W: Fn(&Vec<Real>) -> i32,
        X: Fn(Real, Real) -> Real,
        I: Fn(Real) -> Real,
        M: Fn(Real, Real) -> Real,
    >(
        &mut self,
        moments: &Vec<Real>,
        numbers: &CodedNumbers<D, U, B, V, N, T, G, W, X, I, M>,
    ) -> (out: Result<MomentSolution, HonestError>)
        requires
            2 + 2 * old(self).k <= usize::MAX,
            coded_ready(*numbers, old(self).k as int),
        ensures
            exists|run: CodedRun| #[trigger]
                run.explains(*old(self), *final(self), *numbers, moments@, out),
    {
        let ghost mut run: CodedRun = arbitrary();
        let ghost start = *self;
        match check_moment_rhs(self.rows, moments.len()) {
            Err(error) => {
                let out = Err(error);
                assert(run.explains(start, *self, *numbers, moments@, out));
                return out;
            },
            Ok(()) => {},
        }
        let scale = self.scale;
        let mut right: Vec<Real> = Vec::new();
        while right.len() < moments.len()
            invariant
                right.len() <= moments.len(),
                forall|a: Real, b: Real| #[trigger] call_requires(numbers.divide, (a, b)),
                forall|i: int|
                    0 <= i < right.len() ==> call_ensures(
                        numbers.divide,
                        (moments@[i].neg_spec(), scale),
                        #[trigger] right@[i],
                    ),
            decreases moments.len() - right.len(),
        {
            let i: usize = right.len();
            right.push((numbers.divide)(moments[i].negated(), scale));
        }
        let updated: i32 = (numbers.update)(&right);
        proof {
            run.right = right;
            run.codes.0 = updated;
        }
        match try_highs_status(updated, "update HonestDiD eta/delta LP rhs") {
            Err(error) => {
                let out = Err(error);
                assert(run.explains(start, *self, *numbers, moments@, out));
                return out;
            },
            Ok(()) => {},
        }
        if self.has_basis {
            let applied: i32 = (numbers.set_basis)();
            proof {
                run.codes.1 = applied;
            }
            match try_highs_status(applied, "apply HonestDiD eta/delta LP basis") {
                Err(error) => {
                    let out = Err(error);
                    assert(run.explains(start, *self, *numbers, moments@, out));
                    return out;
                },
                Ok(()) => {},
            }
        } else if self.has_solution {
            (numbers.set_solution)();
        }
        let ran: i32 = (numbers.run)(&right);
        proof {
            run.codes.2 = ran;
        }
        match try_highs_status(ran, "solve HonestDiD eta/delta LP") {
            Err(error) => {
                let out = Err(error);
                assert(run.explains(start, *self, *numbers, moments@, out));
                return out;
            },
            Ok(()) => {},
        }
        let status = (numbers.status)(&right);
        proof {
            run.status = status;
        }
        match status {
            Err(message) => {
                let out = Err(HonestError::Numerical { message });
                assert(run.explains(start, *self, *numbers, moments@, out));
                return out;
            },
            Ok(ModelStatus::Other(name)) => {
                let out = Err(HonestError::ProgramFailed { status: name });
                assert(run.explains(start, *self, *numbers, moments@, out));
                return out;
            },
            Ok(_) => {},
        }
        let (read, columns, duals) = (numbers.read_solution)(&right);
        proof {
            run.codes.3 = read;
            run.columns = columns;
            run.duals = duals;
        }
        match try_highs_status(read, "read HonestDiD eta/delta LP solution") {
            Err(error) => {
                let out = Err(error);
                assert(run.explains(start, *self, *numbers, moments@, out));
                return out;
            },
            Ok(()) => {},
        }
        let based: i32 = (numbers.read_basis)(&right);
        proof {
            run.codes.4 = based;
        }
        match try_highs_status(based, "read HonestDiD eta/delta LP basis") {
            Err(error) => {
                let out = Err(error);
                assert(run.explains(start, *self, *numbers, moments@, out));
                return out;
            },
            Ok(()) => {},
        }
        let k: usize = self.k;
        let eta_star = (numbers.subtract)(columns[0], columns[1]);
        let mut delta_star: Vec<Real> = Vec::new();
        while delta_star.len() < k
            invariant
                delta_star.len() <= k,
                2 + 2 * k <= usize::MAX,
                columns@.len() == 2 + 2 * k,
                forall|a: Real, b: Real| #[trigger] call_requires(numbers.subtract, (a, b)),
                forall|i: int|
                    0 <= i < delta_star.len() ==> call_ensures(
                        numbers.subtract,
                        (columns@[2 + i], columns@[2 + k + i]),
                        #[trigger] delta_star@[i],
                    ),
            decreases k - delta_star.len(),
        {
            let i: usize = delta_star.len();
            delta_star.push((numbers.subtract)(columns[2 + i], columns[2 + k + i]));
        }
        let inverse = (numbers.invert)(scale);
        let mut lambda: Vec<Real> = Vec::new();
        while lambda.len() < duals.len()
            invariant
                lambda.len() <= duals.len(),
                forall|a: Real, b: Real| #[trigger] call_requires(numbers.multiply, (a, b)),
                forall|i: int|
                    0 <= i < lambda.len() ==> call_ensures(
                        numbers.multiply,
                        (duals@[i].neg_spec().max_spec(Real::zero_spec()), inverse),
                        #[trigger] lambda@[i],
                    ),
            decreases duals.len() - lambda.len(),
        {
            let i: usize = lambda.len();
            lambda.push((numbers.multiply)(duals[i].negated().max(Real::zero()), inverse));
        }
        self.has_solution = true;
        self.has_basis = true;
        proof {
            run.inverse = inverse;
        }
        let out = Ok(MomentSolution { eta_star, delta_star, lambda });
        assert(run.explains(start, *self, *numbers, moments@, out));
        out
    }
}

} // verus!
