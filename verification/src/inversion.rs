//! Confidence sets by test inversion.
//!
//! A value of the target belongs to a confidence set where the conditional test
//! does not reject it. The moments that a branch is tested by are the rows that
//! were prepared for the branch and for the functional.

use crate::branch_search::RelativeMagnitudePreparedFunctionalBranch;
use crate::errors::HonestError;
use crate::functional::RelativeMagnitudePreparedInputBranch;
use crate::matrix;
use crate::matrix::{copy_matrix, copy_row};
use crate::moments::{Moments, TestArithmetic, TestLevel};
use crate::number::Real;
use crate::simulation;
use crate::simulation::compute_least_favorable_cv_from_draws;
use crate::theta_test;
use crate::theta_test::{accepts, ThetaRun};
use vstd::prelude::*;

verus! {

/// Why moments cannot be tested: the design and the standard deviations differ
/// in number, or the rows do not fit together otherwise.
pub open spec fn moments_fault(moments: Moments) -> Option<HonestError> {
    if moments.design.len() != moments.sd.len() {
        Some(
            HonestError::VarianceCount {
                rows: moments.design.len(),
                variances: moments.sd.len(),
            },
        )
    } else if !moments.shaped() {
        Some(HonestError::RaggedDualProgram)
    } else {
        None
    }
}

/// Why moments cannot be tested, if anything.
pub fn find_moments_fault(moments: &Moments) -> (fault: Option<HonestError>)
    ensures
        fault == moments_fault(*moments),
{
    let rows: usize = moments.y_base.len();
    if moments.design.len() != moments.sd.len() {
        return Some(
            HonestError::VarianceCount {
                rows: moments.design.len(),
                variances: moments.sd.len(),
            },
        );
    }
    if moments.a_target.len() != rows || moments.design.len() != rows || moments.w_t.len() != rows {
        return Some(HonestError::RaggedDualProgram);
    }
    if rows == 0 {
        return None;
    }
    let width: usize = moments.design[0].len();
    if width == usize::MAX {
        return Some(HonestError::RaggedDualProgram);
    }
    let mut i: usize = 0;
    while i < rows
        invariant
            i <= rows,
            rows == moments.design.len(),
            moments.design.len() == moments.sd.len(),
            rows > 0,
            width == matrix::first_width(moments.design@),
            forall|k: int| 0 <= k < i ==> (#[trigger] moments.design@[k])@.len() == width,
        decreases rows - i,
    {
        if moments.design[i].len() != width {
            return Some(HonestError::RaggedDualProgram);
        }
        i = i + 1;
    }
    None
}

/// Whether `accepted` is a verdict with the message of its error.
pub open spec fn told<T: TestArithmetic>(
    arithmetic: T,
    verdict: Result<bool, HonestError>,
    accepted: Result<bool, String>,
) -> bool {
    match (verdict, accepted) {
        (Ok(kept), Ok(said)) => said == kept,
        (Err(error), Err(message)) => arithmetic.describes(error, message),
        _ => false,
    }
}

/// Whether `answer` is the optimum at the draw number `k` of a list.
pub open spec fn draw_answered<T: TestArithmetic>(
    arithmetic: &T,
    moments: &Moments,
    draws: Seq<Real>,
    k: int,
    answer: Result<Option<Real>, String>,
) -> bool {
    let dim = moments.sigma.len();
    exists|draw: Vec<Real>|
        draw@ == draws.subrange(k * dim, k * dim + dim) && #[trigger] arithmetic.optimizes(
            *moments,
            draw,
            answer,
        )
}

/// What a critical value rested on.
pub struct CriticalRun {
    /// The draws, one after the other.
    pub draws: Result<Vec<Real>, String>,
    /// Optimum at each draw.
    pub answers: Seq<Result<Option<Real>, String>>,
    /// Place of the critical value among the optima.
    pub idx: usize,
    /// The critical value.
    pub cv: Result<Real, HonestError>,
}

impl CriticalRun {
    /// Whether a critical value came about like this: the draws of the moments,
    /// the optimum of their program at each draw, and the order statistic at the
    /// rank of the size.
    pub open spec fn explains<T: TestArithmetic>(
        self,
        arithmetic: T,
        moments: Moments,
        kappa: Real,
        critical: Result<Real, String>,
    ) -> bool {
        &&& arithmetic.simulates(moments, self.draws)
        &&& match self.draws {
            Err(message) => critical == Err::<Real, String>(message),
            Ok(draws) => {
                let last = simulation::last_place(self.answers);
                &&& forall|k: int|
                    0 <= k < self.answers.len() ==> draw_answered(
                        &arithmetic,
                        &moments,
                        draws@,
                        k,
                        #[trigger] self.answers[k],
                    )
                &&& simulation::concluded(
                    self.answers,
                    self.idx,
                    draws.len(),
                    moments.sigma.len(),
                    self.cv,
                )
                &&& match self.cv {
                    Ok(value) => {
                        &&& critical == Ok::<Real, String>(value)
                        &&& self.idx <= last
                        &&& forall|k: usize|
                            k < self.idx ==> #[trigger] arithmetic.places(kappa, last, k, false)
                        &&& self.idx < last ==> arithmetic.places(kappa, last, self.idx, true)
                    },
                    Err(error) => critical matches Err(message) && arithmetic.describes(
                        error,
                        message,
                    ),
                }
            },
        }
    }
}

/// Whether `critical` is the least-favorable critical value of moments.
pub open spec fn limits<T: TestArithmetic>(
    arithmetic: T,
    moments: Moments,
    kappa: Real,
    critical: Result<Real, String>,
) -> bool {
    exists|run: CriticalRun| #[trigger] run.explains(arithmetic, moments, kappa, critical)
}

/// The draw number `k` of a list.
fn draw_at(draws: &Vec<Real>, dim: usize, k: usize) -> (draw: Vec<Real>)
    requires
        dim > 0,
        k < draws.len() / dim,
    ensures
        draw@ == draws@.subrange(k * dim, k * dim + dim),
{
    let len: usize = draws.len();
    assert(k * dim + dim <= len) by (nonlinear_arith)
        requires
            dim > 0,
            k < len / dim,
    ;
    assert(k * dim <= k * dim + dim);
    let start: usize = k * dim;
    let mut draw: Vec<Real> = Vec::new();
    while draw.len() < dim
        invariant
            draw.len() <= dim,
            start == k * dim,
            start + dim <= draws.len(),
            draw@ == draws@.subrange(start as int, start + draw.len()),
        decreases dim - draw.len(),
    {
        let next = draws[start + draw.len()];
        draw.push(next);
        proof {
            assert(draw@ =~= draws@.subrange(start as int, start + draw.len()));
        }
    }
    draw
}

spec fn can_optimize<T: TestArithmetic>(
    arithmetic: &T,
    moments: &Moments,
    draws: &Vec<Real>,
    k: usize,
) -> bool {
    arithmetic.ready() && moments.sigma.len() > 0 && k < draws.len() / moments.sigma.len()
}

spec fn ranks_as<T: TestArithmetic>(
    arithmetic: &T,
    kappa: Real,
    last: usize,
    place: usize,
    reached: bool,
) -> bool {
    arithmetic.places(kappa, last, place, reached)
}

spec fn can_rank<T: TestArithmetic>(arithmetic: &T) -> bool {
    arithmetic.ready()
}

/// The least-favorable critical value of moments at a size, by simulation.
pub fn least_favorable_critical_value<T: TestArithmetic>(
    moments: &Moments,
    kappa: Real,
    arithmetic: &T,
) -> (critical: Result<Real, String>)
    requires
        arithmetic.ready(),
    ensures
        limits(*arithmetic, *moments, kappa, critical),
{
    let ghost mut run: CriticalRun = arbitrary();
    let simulated = arithmetic.simulate(moments);
    proof {
        run.draws = simulated;
    }
    let draws = match simulated {
        Err(message) => {
            assert(run.explains(*arithmetic, *moments, kappa, Err(message)));
            return Err(message);
        },
        Ok(draws) => draws,
    };
    let kept = &draws;
    let dim: usize = moments.sigma.len();
    let solve = |k: usize| -> (answer: Result<Option<Real>, String>)
        requires
            can_optimize(arithmetic, moments, kept, k),
        ensures
            draw_answered(arithmetic, moments, kept@, k as int, answer),
        {
            let draw = draw_at(kept, moments.sigma.len(), k);
            arithmetic.optimum(moments, &draw)
        };
    let reached = |last: usize, place: usize| -> (reached: bool)
        requires
            can_rank(arithmetic),
        ensures
            ranks_as(arithmetic, kappa, last, place, reached),
        { arithmetic.reached(kappa, last, place) };
    let cv = compute_least_favorable_cv_from_draws(draws.len(), dim, &solve, &reached);
    proof {
        let (answers, idx) = choose|answers: Seq<Result<Option<Real>, String>>, idx: usize|
            #[trigger]
            simulation::simulated(answers, idx, draws.len(), dim, solve, reached, cv);
        run.answers = answers;
        run.idx = idx;
        run.cv = cv;
        assert forall|k: int| 0 <= k < answers.len() implies draw_answered(
            arithmetic,
            moments,
            draws@,
            k,
            #[trigger] answers[k],
        ) by {
            assert(call_ensures(solve, (k as usize,), answers[k]));
        }
        let last = simulation::last_place(answers);
        if cv is Ok {
            assert forall|k: usize| k < idx implies #[trigger] arithmetic.places(
                kappa,
                last,
                k,
                false,
            ) by {
                assert(call_ensures(reached, (last, k), false));
            }
        }
    }
    let critical = match cv {
        Ok(value) => Ok(value),
        Err(error) => Err(arithmetic.describe(&error)),
    };
    assert(run.explains(*arithmetic, *moments, kappa, critical));
    critical
}

/// The tests of values of the target, branch by branch.
pub struct BranchTests<'a, T> {
    /// The arithmetic.
    pub arithmetic: &'a T,
    /// Moments of each branch.
    pub moments: &'a Vec<Moments>,
    /// Size of a test.
    pub alpha: Real,
    /// Size of its first stage.
    pub kappa: Real,
}

impl<'a, T: TestArithmetic> BranchTests<'a, T> {
    /// Whether values can be tested in that many branches.
    pub open spec fn ready(self, branches: int) -> bool {
        &&& self.arithmetic.ready()
        &&& branches <= self.moments.len()
    }

    /// At what level a critical value tests.
    pub open spec fn level(self, lf_cv: Real) -> TestLevel {
        TestLevel { alpha: self.alpha, kappa: self.kappa, lf_cv }
    }

    /// Whether `critical` is the least-favorable critical value of a branch.
    pub open spec fn limits(self, branch: usize, critical: Result<Real, String>) -> bool {
        limits(*self.arithmetic, self.moments@[branch as int], self.kappa, critical)
    }

    /// The least-favorable critical value of a branch.
    pub fn critical(&self, branch: usize) -> (critical: Result<Real, String>)
        requires
            self.ready(branch + 1),
        ensures
            self.limits(branch, critical),
    {
        least_favorable_critical_value(&self.moments[branch], self.kappa, self.arithmetic)
    }

    /// Whether the test of a value in a branch came about like this: an error
    /// where the moments cannot be tested, else accepted exactly where the
    /// conditional test does not reject.
    pub open spec fn decided(
        self,
        branch: usize,
        lf_cv: Real,
        theta: Real,
        y: Vec<Real>,
        run: ThetaRun,
        verdict: Result<bool, HonestError>,
        accepted: Result<bool, String>,
    ) -> bool {
        let moments = self.moments@[branch as int];
        &&& match moments_fault(moments) {
            Some(error) => verdict == Err::<bool, HonestError>(error),
            None => theta_test::accepted_by(
                *self.arithmetic,
                moments,
                theta,
                self.level(lf_cv),
                y,
                run,
                verdict,
            ),
        }
        &&& told(*self.arithmetic, verdict, accepted)
    }

    /// Whether `accepted` is what the test says of a value in a branch.
    pub open spec fn decides(
        self,
        branch: usize,
        lf_cv: Real,
        theta: Real,
        accepted: Result<bool, String>,
    ) -> bool {
        exists|y: Vec<Real>, run: ThetaRun, verdict: Result<bool, HonestError>| #[trigger]
            self.decided(branch, lf_cv, theta, y, run, verdict, accepted)
    }

    /// Whether a value of the target is accepted in a branch.
    pub fn decide(&self, branch: usize, lf_cv: Real, theta: Real) -> (accepted: Result<
        bool,
        String,
    >)
        requires
            self.ready(branch + 1),
        ensures
            self.decides(branch, lf_cv, theta, accepted),
    {
        let moments = &self.moments[branch];
        let ghost mut at: Vec<Real> = arbitrary();
        let ghost mut run: ThetaRun = arbitrary();
        let verdict = match find_moments_fault(moments) {
            Some(error) => Err(error),
            None => {
                let level = TestLevel { alpha: self.alpha, kappa: self.kappa, lf_cv };
                let verdict = accepts(moments, theta, level, self.arithmetic);
                proof {
                    let (y, found) = choose|y: Vec<Real>, run: ThetaRun| #[trigger]
                        theta_test::accepted_by(
                            *self.arithmetic,
                            *moments,
                            theta,
                            level,
                            y,
                            run,
                            verdict,
                        );
                    at = y;
                    run = found;
                }
                verdict
            },
        };
        let ghost said = verdict;
        let accepted = match verdict {
            Ok(kept) => Ok(kept),
            Err(error) => Err(self.arithmetic.describe(&error)),
        };
        assert(self.decided(branch, lf_cv, theta, at, run, said, accepted));
        accepted
    }
}

/// Whether `moments` are those of a branch: the moments of the event study and
/// the rows of the functional.
pub open spec fn moments_from(
    moments: Moments,
    input: RelativeMagnitudePreparedInputBranch,
    functional: RelativeMagnitudePreparedFunctionalBranch,
) -> bool {
    &&& moments.y_base@ == input.y_arp_base@
    &&& matrix::rows_of(moments.sigma@) == matrix::rows_of(input.sigma_arp@)
    &&& moments.sd@ == input.sd_arp@
    &&& moments.a_target@ == functional.a_target_arp@
    &&& matrix::rows_of(moments.design@) == matrix::rows_of(functional.x_arp@)
    &&& matrix::rows_of(moments.w_t@) == matrix::rows_of(functional.w_t@)
}

/// Whether `moments` are those of all branches, in order.
pub open spec fn all_moments_from(
    moments: Seq<Moments>,
    inputs: Seq<RelativeMagnitudePreparedInputBranch>,
    functionals: Seq<RelativeMagnitudePreparedFunctionalBranch>,
) -> bool {
    &&& moments.len() == inputs.len()
    &&& forall|i: int|
        0 <= i < moments.len() ==> moments_from(#[trigger] moments[i], inputs[i], functionals[i])
}

/// The moments of all branches.
pub fn gather_moments(
    inputs: &[RelativeMagnitudePreparedInputBranch],
    functionals: &[RelativeMagnitudePreparedFunctionalBranch],
) -> (moments: Vec<Moments>)
    requires
        inputs.len() == functionals.len(),
    ensures
        all_moments_from(moments@, inputs@, functionals@),
{
    let mut moments: Vec<Moments> = Vec::new();
    while moments.len() < inputs.len()
        invariant
            moments.len() <= inputs.len(),
            inputs.len() == functionals.len(),
            forall|i: int|
                0 <= i < moments.len() ==> moments_from(
                    #[trigger] moments@[i],
                    inputs@[i],
                    functionals@[i],
                ),
        decreases inputs.len() - moments.len(),
    {
        let input = &inputs[moments.len()];
        let functional = &functionals[moments.len()];
        moments.push(
            Moments {
                y_base: copy_row(input.y_arp_base.as_slice()),
                a_target: copy_row(functional.a_target_arp.as_slice()),
                design: copy_matrix(functional.x_arp.as_slice()),
                sigma: copy_matrix(input.sigma_arp.as_slice()),
                sd: copy_row(input.sd_arp.as_slice()),
                w_t: copy_matrix(functional.w_t.as_slice()),
            },
        );
    }
    moments
}

/// Test inversion: in a branch a value of the target is kept exactly where the
/// conditional test of the branch's moments at that value does not reject it.
pub proof fn a_value_is_kept_exactly_where_its_test_does_not_reject<T: TestArithmetic>(
    tests: BranchTests<'_, T>,
    branch: usize,
    lf_cv: Real,
    theta: Real,
    kept: bool,
)
    requires
        tests.decides(branch, lf_cv, theta, Ok(kept)),
    ensures
        moments_fault(tests.moments@[branch as int]) is None,
        exists|y: Vec<Real>, run: ThetaRun|
            tests.moments@[branch as int].moved(*tests.arithmetic, theta, y@)
                && #[trigger] run.answered_by(
                *tests.arithmetic,
                tests.moments@[branch as int],
                y,
                tests.level(lf_cv),
            ) && run.verdict(tests.moments@[branch as int], lf_cv) == Ok::<bool, HonestError>(
                !kept,
            ),
{
    let (y, run, verdict) = choose|
        y: Vec<Real>,
        run: ThetaRun,
        verdict: Result<bool, HonestError>,
    | #[trigger]
        tests.decided(branch, lf_cv, theta, y, run, verdict, Ok(kept));
    assert(run.answered_by(
        *tests.arithmetic,
        tests.moments@[branch as int],
        y,
        tests.level(lf_cv),
    ));
}

/// Whether a value is the optimum of the moments' program at some draw.
pub open spec fn drawn_optimum<T: TestArithmetic>(
    arithmetic: T,
    moments: Moments,
    value: Real,
) -> bool {
    exists|draw: Vec<Real>| #[trigger] arithmetic.optimizes(moments, draw, Ok(Some(value)))
}

/// A least-favorable critical value is the optimum at a draw, and stands among such
/// optima where the size puts it: no earlier place has
/// reached its rank, and unless it is the last it has.
pub proof fn a_critical_value_stands_at_the_rank_of_its_size<T: TestArithmetic>(
    arithmetic: T,
    moments: Moments,
    kappa: Real,
    critical: Real,
) -> (found: (Seq<Real>, int))
    requires
        limits(arithmetic, moments, kappa, Ok(critical)),
    ensures
        simulation::ascending(found.0),
        0 <= found.1 < found.0.len(),
        found.0.len() <= usize::MAX,
        critical == found.0[found.1],
        forall|i: int|
            0 <= i < found.0.len() ==> #[trigger] drawn_optimum(arithmetic, moments, found.0[i]),
        forall|k: usize|
            k < found.1 ==> #[trigger] arithmetic.places(
                kappa,
                (found.0.len() - 1) as usize,
                k,
                false,
            ),
        found.1 < found.0.len() - 1 ==> arithmetic.places(
            kappa,
            (found.0.len() - 1) as usize,
            found.1 as usize,
            true,
        ),
{
    let run = choose|run: CriticalRun| #[trigger]
        run.explains(arithmetic, moments, kappa, Ok(critical));
    let draws = simulation::draws_of(run.answers);
    let values = simulation::solved_values(draws, draws.len() as int);
    solved_values_are_some(draws, draws.len() as int);
    let sorted = choose|sorted: Seq<Real>| #[trigger]
        simulation::sorts(values, sorted) && critical == sorted[run.idx as int];
    values.to_multiset_ensures();
    sorted.to_multiset_ensures();
    assert(values.len() == values.to_multiset().len());
    assert(sorted.len() == sorted.to_multiset().len());
    let drawn = run.draws->Ok_0;
    assert forall|i: int| 0 <= i < sorted.len() implies #[trigger] drawn_optimum(
        arithmetic,
        moments,
        sorted[i],
    ) by {
        assert(sorted.contains(sorted[i]));
        assert(sorted.to_multiset().count(sorted[i]) > 0);
        assert(values.contains(sorted[i]));
        let at = choose|at: int| 0 <= at < values.len() && values[at] == sorted[i];
        let k = solved_value_is_drawn(draws, draws.len() as int, at);
        assert(draw_answered(&arithmetic, &moments, drawn@, k, run.answers[k]));
        assert(run.answers[k] is Ok);
        assert(run.answers[k] == Ok::<Option<Real>, String>(Some(sorted[i])));
    }
    (sorted, run.idx as int)
}

proof fn solved_value_is_drawn(draws: Seq<Option<Real>>, end: int, at: int) -> (k: int)
    requires
        0 <= end <= draws.len(),
        0 <= at < simulation::solved_values(draws, end).len(),
    ensures
        0 <= k < end,
        draws[k] == Some(simulation::solved_values(draws, end)[at]),
    decreases end,
{
    if draws[end - 1] is Some && at == simulation::solved_values(draws, end).len() - 1 {
        end - 1
    } else {
        solved_value_is_drawn(draws, end - 1, at)
    }
}

proof fn solved_values_are_some(draws: Seq<Option<Real>>, end: int)
    requires
        0 <= end <= draws.len(),
    ensures
        simulation::solved_values(draws, end).len() <= end,
    decreases end,
{
    if end > 0 {
        solved_values_are_some(draws, end - 1);
    }
}

} // verus!
