//! Linear programs for a conic solver: identified sets of branches, and the dual
//! program of the conditional test.

use crate::cone;
use crate::cone::{appended, ConeProgram};
use crate::constraints::create_pre_period_equality_matrix;
use crate::errors::HonestError;
use crate::input::{negated_values, relative_magnitude_objective};
use crate::matrix;
use crate::matrix::{
    copy_matrix, copy_row, entries_from, entries_up_to, filled_row, tabulate,
};
use crate::number::Real;
use crate::programs;
use crate::programs::{read_answer, ProgramAnswer};
use crate::study::StudyArithmetic;
use crate::types::HonestIdentifiedSet;
use vstd::prelude::*;

verus! {

// ---------------------------------------------------------------------------
// Programs
// ---------------------------------------------------------------------------

/// Whether `program` is that of a branch: its rows are at most zero, and the
/// violations of the pre periods are fixed.
pub open spec fn is_branch_program(
    program: ConeProgram,
    rows: Seq<Vec<Real>>,
    num_pre: int,
    num_post: int,
    pre: Seq<Real>,
    cost: Seq<Real>,
) -> bool {
    &&& program.objective@ == cost
    &&& matrix::rows_of(program.inequalities@) == matrix::rows_of(rows)
    &&& program.equalities.len() == num_pre
    &&& matrix::has_cols(program.equalities@, num_pre + num_post)
    &&& forall|i: int, j: int|
        0 <= i < num_pre && 0 <= j < num_pre + num_post ==> #[trigger] program.equalities@[i]@[j]
            == (if i == j {
            Real::one_spec()
        } else {
            Real::zero_spec()
        })
    &&& program.soc_rows.len() == 0
    &&& program.rhs@ == cone::zeros(rows.len() as int) + pre
}

/// The program of a branch: its rows are at most zero, and the violations of the
/// pre periods are fixed.
pub fn branch_program(
    rows: &[Vec<Real>],
    num_pre: usize,
    num_post: usize,
    pre: &[Real],
    cost: &[Real],
) -> (program: ConeProgram)
    requires
        num_pre + num_post <= usize::MAX,
    ensures
        is_branch_program(program, rows@, num_pre as int, num_post as int, pre@, cost@),
{
    let none = filled_row(rows.len(), Real::zero());
    let rhs = appended(none.as_slice(), pre);
    assert(none@ =~= cone::zeros(rows@.len() as int));
    ConeProgram {
        objective: copy_row(cost),
        inequalities: copy_matrix(rows),
        equalities: create_pre_period_equality_matrix(num_pre, num_post),
        soc_rows: Vec::new(),
        rhs,
    }
}

/// Whether `program` is the dual program `max f'x` over `W'x = e_0`, `x >= 0`, as
/// a minimization: the negated variables are at most zero, and each column of
/// `W` is an equality.
pub open spec fn is_dual_max_program(
    program: ConeProgram,
    w_t: Seq<Vec<Real>>,
    f: Seq<Real>,
    width: int,
) -> bool {
    &&& program.objective@ == Seq::new(f.len(), |i: int| f[i].neg_spec())
    &&& program.inequalities.len() == w_t.len()
    &&& matrix::has_cols(program.inequalities@, w_t.len() as int)
    &&& forall|i: int, j: int|
        0 <= i < w_t.len() && 0 <= j < w_t.len() ==> #[trigger] program.inequalities@[i]@[j] == (
        if i == j {
            Real::minus_one_spec()
        } else {
            Real::zero_spec()
        })
    &&& program.equalities.len() == width
    &&& matrix::has_cols(program.equalities@, w_t.len() as int)
    &&& forall|i: int, j: int|
        0 <= i < width && 0 <= j < w_t.len() ==> #[trigger] program.equalities@[i]@[j]
            == w_t[j]@[i]
    &&& program.soc_rows.len() == 0
    &&& program.rhs@ == cone::zeros(w_t.len() as int) + seq![Real::one_spec()] + cone::zeros(
        if width == 0 {
            0
        } else {
            width - 1
        },
    )
}

/// The dual program `max f'x` over `W'x = e_0`, `x >= 0`.
pub fn dual_max_program(w_t: &[Vec<Real>], f: &[Real], width: usize) -> (program: ConeProgram)
    requires
        matrix::has_cols(w_t@, width as int),
        w_t@.len() + width < usize::MAX,
    ensures
        is_dual_max_program(program, w_t@, f@, width as int),
{
    let dim: usize = w_t.len();
    assert(dim == w_t@.len());
    let bound = |i: usize, j: usize| -> (value: Real)
        ensures
            value == (if i == j {
                Real::minus_one_spec()
            } else {
                Real::zero_spec()
            }),
        {
            if i == j {
                Real::minus_one()
            } else {
                Real::zero()
            }
        };
    let inequalities = tabulate(dim, dim, bound);
    let column = |i: usize, j: usize| -> (value: Real)
        requires
            i < width,
            j < w_t@.len(),
            matrix::has_cols(w_t@, width as int),
        ensures
            value == w_t@[j as int]@[i as int],
        {
            assert(w_t@[j as int]@.len() == width);
            w_t[j][i]
        };
    let equalities = tabulate(width, dim, column);
    let mut start = filled_row(dim, Real::zero());
    start.push(Real::one());
    let rest = filled_row(
        if width == 0 {
            0
        } else {
            width - 1
        },
        Real::zero(),
    );
    let rhs = appended(start.as_slice(), rest.as_slice());
    proof {
        assert(start@ =~= cone::zeros(dim as int) + seq![Real::one_spec()]);
        assert(rest@ =~= cone::zeros(
            if width == 0 {
                0
            } else {
                width - 1
            },
        ));
    }
    ConeProgram {
        objective: negated_values(f),
        inequalities,
        equalities,
        soc_rows: Vec::new(),
        rhs,
    }
}

// ---------------------------------------------------------------------------
// Two objectives on one program
// ---------------------------------------------------------------------------

/// What the messages call the program of a branch.
pub const BRANCH_PROGRAM: &'static str = "relative-magnitude LP";

/// A program that is solved for one objective after another.
#[derive(Clone, Copy, Debug, PartialEq, Eq, Structural)]
pub struct RelativeMagnitudeIdentifiedSetWorkspace {
    /// Whether the solver at hand is the one with the looser settings.
    pub loose: bool,
}

/// Whether `out` is the optimum of a program on a workspace: where the solver
/// loses its accuracy, it is replaced by one with looser settings, which is
/// kept.
pub open spec fn solved_on<A: StudyArithmetic>(
    before: RelativeMagnitudeIdentifiedSetWorkspace,
    after: RelativeMagnitudeIdentifiedSetWorkspace,
    program: ConeProgram,
    numbers: A,
    first: Result<ProgramAnswer<Vec<Real>>, String>,
    second: Result<ProgramAnswer<Vec<Real>>, String>,
    out: Result<Option<Vec<Real>>, HonestError>,
) -> bool {
    &&& numbers.answers(program, before.loose, first)
    &&& match first {
        Err(message) => {
            &&& out == Err::<Option<Vec<Real>>, HonestError>(HonestError::Numerical { message })
            &&& after == before
        },
        Ok(answer) => if answer.status.inaccurate() {
            &&& numbers.answers(program, true, second)
            &&& match second {
                Err(message) => {
                    &&& out == Err::<Option<Vec<Real>>, HonestError>(
                        HonestError::Numerical { message },
                    )
                    &&& after == before
                },
                Ok(other) => {
                    &&& out == programs::answer_meaning(BRANCH_PROGRAM, other)
                    &&& after.loose
                },
            }
        } else {
            &&& out == programs::answer_meaning(BRANCH_PROGRAM, answer)
            &&& after == before
        },
    }
}

/// Whether `out` is some optimum of a program on a workspace.
pub open spec fn optimum_on<A: StudyArithmetic>(
    before: RelativeMagnitudeIdentifiedSetWorkspace,
    after: RelativeMagnitudeIdentifiedSetWorkspace,
    program: ConeProgram,
    numbers: A,
    out: Result<Option<Vec<Real>>, HonestError>,
) -> bool {
    exists|
        first: Result<ProgramAnswer<Vec<Real>>, String>,
        second: Result<ProgramAnswer<Vec<Real>>, String>,
    | #[trigger]
        solved_on(before, after, program, numbers, first, second, out)
}

impl RelativeMagnitudeIdentifiedSetWorkspace {
    /// A program on which nothing was solved yet.
    pub fn new() -> (workspace: Self)
        ensures
            !workspace.loose,
    {
        RelativeMagnitudeIdentifiedSetWorkspace { loose: false }
    }

    /// The optimum of a program.
    pub fn solve_with_q<A: StudyArithmetic>(
        &mut self,
        program: &ConeProgram,
        numbers: &A,
    ) -> (out: Result<Option<Vec<Real>>, HonestError>)
        requires
            numbers.ready(),
        ensures
            optimum_on(*old(self), *final(self), *program, *numbers, out),
    {
        let ghost before = *self;
        let ghost nothing: Result<ProgramAnswer<Vec<Real>>, String> = arbitrary();
        let first = numbers.program(program, self.loose);
        let ghost said = first;
        match first {
            Err(message) => {
                let out = Err(HonestError::Numerical { message });
                assert(solved_on(before, *self, *program, *numbers, said, nothing, out));
                out
            },
            Ok(answer) => {
                if answer.status.is_inaccurate() {
                    let second = numbers.program(program, true);
                    let ghost other = second;
                    let out = match second {
                        Err(message) => Err(HonestError::Numerical { message }),
                        Ok(found) => {
                            self.loose = true;
                            read_answer(BRANCH_PROGRAM, found)
                        },
                    };
                    assert(solved_on(before, *self, *program, *numbers, said, other, out));
                    out
                } else {
                    let out = read_answer(BRANCH_PROGRAM, answer);
                    assert(solved_on(before, *self, *program, *numbers, said, nothing, out));
                    out
                }
            },
        }
    }
}

/// What the identified set of a branch rested on.
pub struct BranchProgramRun {
    /// Weights of all periods.
    pub objective: Vec<Real>,
    /// The same with their signs flipped.
    pub negated: Vec<Real>,
    /// The program of the largest violation.
    pub highest: ConeProgram,
    /// The program of the smallest violation.
    pub lowest: ConeProgram,
    /// The workspace after the first program.
    pub between: RelativeMagnitudeIdentifiedSetWorkspace,
    /// The workspace after the second program.
    pub after: RelativeMagnitudeIdentifiedSetWorkspace,
    /// The optimum of the first program.
    pub largest: Result<Option<Vec<Real>>, HonestError>,
    /// The optimum of the second program.
    pub smallest: Result<Option<Vec<Real>>, HonestError>,
    /// The largest violation.
    pub most: Real,
    /// The smallest violation.
    pub least: Real,
    /// The weights.
    pub weights: Vec<Real>,
    /// Coefficients of the post periods.
    pub post: Vec<Real>,
    /// Estimate of the functional.
    pub estimate: Real,
}

impl BranchProgramRun {
    /// Whether `out` is the identified set of a branch with the given constraint
    /// rows: the program of the rows, with the violations of the pre periods
    /// fixed, is solved for the largest and for the smallest violation of the
    /// functional; the target is largest where its violation is smallest, and
    /// there is a set only where both optima exist.
    pub open spec fn explains<A: StudyArithmetic>(
        self,
        num_pre: int,
        num_post: int,
        betahat: Seq<Real>,
        weights: Seq<Real>,
        rows: Seq<Vec<Real>>,
        numbers: A,
        out: Result<Option<HonestIdentifiedSet>, HonestError>,
    ) -> bool {
        let start = RelativeMagnitudeIdentifiedSetWorkspace { loose: false };
        let pre = betahat.take(num_pre);
        &&& self.objective@ == cone::zeros(num_pre) + weights
        &&& self.negated@ == Seq::new(
            self.objective@.len(),
            |i: int| self.objective@[i].neg_spec(),
        )
        &&& is_branch_program(self.highest, rows, num_pre, num_post, pre, self.negated@)
        &&& optimum_on(start, self.between, self.highest, numbers, self.largest)
        &&& match self.largest {
            Err(error) => out == Err::<Option<HonestIdentifiedSet>, HonestError>(error),
            Ok(largest) => {
                &&& is_branch_program(self.lowest, rows, num_pre, num_post, pre, self.objective@)
                &&& optimum_on(self.between, self.after, self.lowest, numbers, self.smallest)
                &&& match self.smallest {
                    Err(error) => out == Err::<Option<HonestIdentifiedSet>, HonestError>(error),
                    Ok(smallest) => match (largest, smallest) {
                        (Some(top), Some(bottom)) => {
                            &&& self.weights@ == weights
                            &&& self.post@ == betahat.skip(num_pre)
                            &&& numbers.produces(self.weights, self.post, self.estimate)
                            &&& numbers.produces(self.objective, top, self.most)
                            &&& numbers.produces(self.objective, bottom, self.least)
                            &&& out matches Ok(Some(set)) && numbers.shifts(
                                self.estimate,
                                self.most,
                                set.lb,
                            ) && numbers.shifts(self.estimate, self.least, set.ub)
                        },
                        _ => out == Ok::<Option<HonestIdentifiedSet>, HonestError>(None),
                    },
                }
            },
        }
    }
}

/// Whether `out` is the identified set of a branch with the given rows.
pub open spec fn branch_identified<A: StudyArithmetic>(
    num_pre: int,
    num_post: int,
    betahat: Seq<Real>,
    weights: Seq<Real>,
    rows: Seq<Vec<Real>>,
    numbers: A,
    out: Result<Option<HonestIdentifiedSet>, HonestError>,
) -> bool {
    exists|run: BranchProgramRun| #[trigger]
        run.explains(num_pre, num_post, betahat, weights, rows, numbers, out)
}

/// The identified set of a branch with the given constraint rows.
pub fn solve_relative_magnitude_branch_with_matrix<A: StudyArithmetic>(
    num_pre: usize,
    num_post: usize,
    betahat: &[Real],
    post_weights: &[Real],
    rows: &[Vec<Real>],
    numbers: &A,
) -> (out: Result<Option<HonestIdentifiedSet>, HonestError>)
    requires
        num_pre + num_post <= usize::MAX,
        betahat.len() == num_pre + num_post,
        post_weights.len() == num_post,
        numbers.ready(),
    ensures
        branch_identified(
            num_pre as int,
            num_post as int,
            betahat@,
            post_weights@,
            rows@,
            *numbers,
            out,
        ),
{
    let ghost mut run: BranchProgramRun = arbitrary();
    let objective = relative_magnitude_objective(num_pre, num_post, post_weights);
    let negated = negated_values(objective.as_slice());
    let pre = entries_up_to(betahat, num_pre);
    let mut workspace = RelativeMagnitudeIdentifiedSetWorkspace::new();
    let highest = branch_program(rows, num_pre, num_post, pre.as_slice(), negated.as_slice());
    let largest = workspace.solve_with_q(&highest, numbers);
    proof {
        assert(post_weights@.take(num_post as int) =~= post_weights@);
        assert(objective@ =~= cone::zeros(num_pre as int) + post_weights@);
        run.objective = objective;
        run.negated = negated;
        run.highest = highest;
        run.between = workspace;
        run.largest = largest;
    }
    let maximum = match largest {
        Err(error) => {
            let out = Err(error);
            assert(run.explains(
                num_pre as int,
                num_post as int,
                betahat@,
                post_weights@,
                rows@,
                *numbers,
                out,
            ));
            return out;
        },
        Ok(found) => found,
    };
    let lowest = branch_program(rows, num_pre, num_post, pre.as_slice(), objective.as_slice());
    let smallest = workspace.solve_with_q(&lowest, numbers);
    proof {
        run.lowest = lowest;
        run.after = workspace;
        run.smallest = smallest;
    }
    let minimum = match smallest {
        Err(error) => {
            let out = Err(error);
            assert(run.explains(
                num_pre as int,
                num_post as int,
                betahat@,
                post_weights@,
                rows@,
                *numbers,
                out,
            ));
            return out;
        },
        Ok(found) => found,
    };
    let out = match (maximum, minimum) {
        (Some(top), Some(bottom)) => {
            let weights = copy_row(post_weights);
            let post = entries_from(betahat, num_pre);
            let estimate = numbers.product(&weights, &post);
            let most = numbers.product(&objective, &top);
            let least = numbers.product(&objective, &bottom);
            proof {
                run.weights = weights;
                run.post = post;
                run.estimate = estimate;
                run.most = most;
                run.least = least;
            }
            Ok(
                Some(
                    HonestIdentifiedSet {
                        lb: numbers.shift(estimate, most),
                        ub: numbers.shift(estimate, least),
                    },
                ),
            )
        },
        _ => Ok(None),
    };
    assert(run.explains(
        num_pre as int,
        num_post as int,
        betahat@,
        post_weights@,
        rows@,
        *numbers,
        out,
    ));
    out
}

/// A program is tried again only where the solver lost its accuracy: any other
/// answer stands.
pub proof fn accurate_answers_stand<A: StudyArithmetic>(
    before: RelativeMagnitudeIdentifiedSetWorkspace,
    after: RelativeMagnitudeIdentifiedSetWorkspace,
    program: ConeProgram,
    numbers: A,
    answer: ProgramAnswer<Vec<Real>>,
    second: Result<ProgramAnswer<Vec<Real>>, String>,
    out: Result<Option<Vec<Real>>, HonestError>,
)
    requires
        solved_on(before, after, program, numbers, Ok(answer), second, out),
        !answer.status.inaccurate(),
    ensures
        out == programs::answer_meaning(BRANCH_PROGRAM, answer),
        after == before,
{
}

/// A solver with looser settings is kept once it was needed, and needed only
/// where one answer was inaccurate.
pub proof fn looser_settings_are_kept<A: StudyArithmetic>(
    before: RelativeMagnitudeIdentifiedSetWorkspace,
    after: RelativeMagnitudeIdentifiedSetWorkspace,
    program: ConeProgram,
    numbers: A,
    first: Result<ProgramAnswer<Vec<Real>>, String>,
    second: Result<ProgramAnswer<Vec<Real>>, String>,
    out: Result<Option<Vec<Real>>, HonestError>,
)
    requires
        solved_on(before, after, program, numbers, first, second, out),
    ensures
        before.loose ==> after.loose,
        after.loose && !before.loose ==> (first matches Ok(answer) && answer.status.inaccurate()),
{
}

} // verus!
