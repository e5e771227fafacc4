//! Identified sets and confidence sets under smoothness restrictions.

use crate::adaptive_grid;
use crate::adaptive_grid::{
    compute_accepted_grid_range_adaptive, nearest_grid_index, AcceptedGridRange,
    AdaptiveGridDiagnostics,
};
use crate::cone::ConeProgram;
use crate::constraints;
use crate::constraints::{
    build_monotone_smoothness_moment_system, build_signed_smoothness_moment_system,
    build_smoothness_moment_system, create_pre_period_equality_matrix, Coefficient,
    SmoothnessMomentSystem,
};
use crate::errors::HonestError;
use crate::functional;
use crate::functional::{
    build_target_and_design_from_transform, diag_sqrt, matrix_values, prepare_arp_views,
    prepare_relative_magnitude_functional_transform, ArpViews,
    RelativeMagnitudePreparedFunctionalTransform,
};
use crate::grids;
use crate::grids::{grid_bounds_around_identified_set, linear_grid};
use crate::input;
use crate::input::{negated_values, relative_magnitude_objective, HonestEventStudyInput};
use crate::inversion;
use crate::inversion::least_favorable_critical_value;
use crate::matrix;
use crate::matrix::{build_w_t, columns_from, copy_matrix, copy_row, entries_up_to, max_abs};
use crate::moments::{Moments, TestArithmetic, TestLevel};
use crate::number::Real;
use crate::prepared;
use crate::prepared::compute_original_confidence_set;
use crate::programs;
use crate::programs::{read_answer, ProgramAnswer};
use crate::projection;
use crate::projection::solve_vbar_projection;
use crate::relative_magnitude;
use crate::relative_magnitude::target_estimate;
use crate::smoothness_intervals;
use crate::smoothness_intervals::{
    compute_smoothness_flci_with_config, OptimalRun, SmoothnessFlciConfig, SmoothnessFlciProblem,
    SmoothnessFlciResult,
};
use crate::smoothness_test::{FullMoments, SmoothnessFlciHybridData, SmoothnessTests};
use crate::study::{IntervalArithmetic, StudyArithmetic};
use crate::types::{
    HonestBiasDirection, HonestConditionalConfidenceSet, HonestIdentifiedSet,
    HonestMonotonicityDirection, HonestOriginalConfidenceSet, InferenceConfig,
    SmoothnessConfidenceSetConfig, SmoothnessHybrid,
};
use vstd::prelude::*;

verus! {

/// The smoothness restriction with the restriction added to it, if any.
#[derive(Clone, Copy, Debug, PartialEq, Eq, Structural)]
pub enum SmoothnessFamily {
    /// Changes of slope are bounded.
    Plain,
    /// The same with signed violations.
    Signed(HonestBiasDirection),
    /// The same with monotone violations.
    Monotone(HonestMonotonicityDirection),
}

impl SmoothnessFamily {
    /// What the restriction is called in messages.
    pub open spec fn description_spec(self) -> &'static str {
        match self {
            SmoothnessFamily::Plain => "smoothness sensitivity",
            SmoothnessFamily::Signed(_) => "sign-restricted smoothness sensitivity",
            SmoothnessFamily::Monotone(_) => "monotone smoothness sensitivity",
        }
    }

    /// What the restriction is called in messages.
    pub fn description(self) -> (words: &'static str)
        ensures
            words == self.description_spec(),
    {
        match self {
            SmoothnessFamily::Plain => "smoothness sensitivity",
            SmoothnessFamily::Signed(_) => "sign-restricted smoothness sensitivity",
            SmoothnessFamily::Monotone(_) => "monotone smoothness sensitivity",
        }
    }

    /// Number of rows that the added restriction brings.
    pub open spec fn added_rows(self, num_pre: int, num_post: int) -> int {
        match self {
            SmoothnessFamily::Plain => 0,
            SmoothnessFamily::Signed(_) => num_post,
            SmoothnessFamily::Monotone(_) => num_pre + num_post,
        }
    }

    /// Entry `(i, j)` of the constraints.
    pub open spec fn entry(self, num_pre: int, num_post: int, i: int, j: int) -> Coefficient {
        match self {
            SmoothnessFamily::Plain => constraints::smoothness_entry(num_pre, num_post, false, i, j),
            SmoothnessFamily::Signed(direction) => constraints::signed_smoothness_entry(
                num_pre,
                num_post,
                direction,
                i,
                j,
            ),
            SmoothnessFamily::Monotone(direction) => constraints::monotone_smoothness_entry(
                num_pre,
                num_post,
                direction,
                i,
                j,
            ),
        }
    }

    /// Whether `system` is the moment system of the restriction: twice the
    /// second differences, bounded by `m`, then the added rows, bounded by zero.
    pub open spec fn is_system(
        self,
        system: SmoothnessMomentSystem,
        num_pre: int,
        num_post: int,
        m: Real,
        post_period_moments_only: bool,
    ) -> bool {
        let base = 2 * (num_pre + num_post - 1);
        let rows = base + self.added_rows(num_pre, num_post);
        &&& system.constraint_matrix.len() == rows
        &&& matrix::has_cols(system.constraint_matrix@, num_pre + num_post)
        &&& forall|i: int, j: int|
            0 <= i < rows && 0 <= j < num_pre + num_post
                ==> #[trigger] system.constraint_matrix@[i]@[j] == self.entry(
                num_pre,
                num_post,
                i,
                j,
            )
        &&& system.constraint_bounds@ == Seq::new(
            rows as nat,
            |i: int|
                if i < base {
                    m
                } else {
                    Real::zero_spec()
                },
        )
        &&& system.rows_for_arp@ == constraints::conditional_rows(
            system.constraint_matrix@,
            num_pre,
            num_post,
            post_period_moments_only,
        )
    }

    /// The moment system of the restriction.
    pub fn moment_system(
        self,
        num_pre: usize,
        num_post: usize,
        m: Real,
        post_period_moments_only: bool,
    ) -> (system: SmoothnessMomentSystem)
        requires
            1 <= num_pre + num_post,
            3 * (num_pre + num_post) + 3 <= usize::MAX,
        ensures
            self.is_system(
                system,
                num_pre as int,
                num_post as int,
                m,
                post_period_moments_only,
            ),
    {
        let system = match self {
            SmoothnessFamily::Plain => build_smoothness_moment_system(
                num_pre,
                num_post,
                m,
                post_period_moments_only,
            ),
            SmoothnessFamily::Signed(direction) => build_signed_smoothness_moment_system(
                num_pre,
                num_post,
                m,
                direction,
                post_period_moments_only,
            ),
            SmoothnessFamily::Monotone(direction) => build_monotone_smoothness_moment_system(
                num_pre,
                num_post,
                m,
                direction,
                post_period_moments_only,
            ),
        };
        proof {
            let base = 2 * (num_pre + num_post - 1);
            let rows = base + self.added_rows(num_pre as int, num_post as int);
            assert(system.constraint_bounds@ =~= Seq::new(
                rows as nat,
                |i: int|
                    if i < base {
                        m
                    } else {
                        Real::zero_spec()
                    },
            ));
        }
        system
    }
}

// ---------------------------------------------------------------------------
// Pre-period changes
// ---------------------------------------------------------------------------

/// The largest magnitude among adjacent pre-period changes.
pub fn max_adjacent_pre_period_change(changes: &[Real]) -> (largest: Real)
    ensures
        largest == matrix::largest_magnitude(changes@, changes.len() as int),
{
    max_abs(changes)
}

/// Whether `changes` are the changes of slope along a path: one for every three
/// values in a row.
pub open spec fn slope_changes<A: StudyArithmetic>(
    path: Seq<Real>,
    numbers: A,
    changes: Seq<Real>,
) -> bool {
    &&& changes.len() == (if path.len() >= 2 {
        path.len() - 2
    } else {
        0
    })
    &&& forall|i: int|
        0 <= i < changes.len() ==> numbers.bends(
            path[i],
            path[i + 1],
            path[i + 2],
            #[trigger] changes[i],
        )
}

/// The path of the pre periods up to the reference period, whose violation is
/// zero.
pub open spec fn pre_path(pre: Seq<Real>) -> Seq<Real> {
    pre.push(Real::zero_spec())
}

/// The changes of slope along the pre periods and the reference period.
pub fn pre_period_slope_changes<A: StudyArithmetic>(
    pre: &Vec<Real>,
    numbers: &A,
) -> (changes: Vec<Real>)
    requires
        numbers.ready(),
    ensures
        slope_changes(pre_path(pre@), *numbers, changes@),
{
    let mut changes: Vec<Real> = Vec::new();
    if pre.len() == 0 {
        return changes;
    }
    while changes.len() < pre.len() - 1
        invariant
            pre.len() > 0,
            changes.len() <= pre.len() - 1,
            numbers.ready(),
            forall|i: int|
                0 <= i < changes.len() ==> numbers.bends(
                    pre_path(pre@)[i],
                    pre_path(pre@)[i + 1],
                    pre_path(pre@)[i + 2],
                    #[trigger] changes@[i],
                ),
        decreases pre.len() - changes.len(),
    {
        let i: usize = changes.len();
        let last = if pre.len() - i > 2 {
            pre[i + 2]
        } else {
            Real::zero()
        };
        changes.push(numbers.bend(pre[i], pre[i + 1], last));
    }
    changes
}

/// Whether no change of slope exceeds a bound.
pub open spec fn changes_within(changes: Seq<Real>, bound: Real) -> bool {
    matrix::largest_magnitude(changes, changes.len() as int).le(bound)
}

/// Whether no change of slope among the pre periods exceeds a bound.
pub fn pre_periods_satisfy_smoothness_bound(changes: &[Real], bound: Real) -> (r: bool)
    ensures
        r == changes_within(changes@, bound),
{
    max_abs(changes).at_most(bound)
}

// ---------------------------------------------------------------------------
// Identified sets
// ---------------------------------------------------------------------------

/// Whether the periods of an input are few enough to be counted, and there is
/// one.
pub open spec fn countable(data: HonestEventStudyInput) -> bool {
    1 <= data.total() && 3 * data.total() + 3 <= usize::MAX
}

/// What is wrong with a request for an identified set, if anything: the input,
/// a bound that is not plain, the number of weights.
pub open spec fn set_fault(
    family: SmoothnessFamily,
    data: HonestEventStudyInput,
    weights: Seq<Real>,
    m: Real,
) -> Option<HonestError> {
    if data.fault() is Some {
        data.fault()
    } else if !(family is Plain) && (!m.finite() || m.lt(Real::zero_spec())) {
        Some(HonestError::InvalidSmoothnessBound { class: family.description_spec(), bound: m })
    } else if weights.len() != data.post_periods@.len() {
        Some(
            HonestError::PostWeightCount {
                found: weights.len() as usize,
                expected: data.post_periods@.len() as usize,
            },
        )
    } else {
        None
    }
}

fn check_set_request(
    family: SmoothnessFamily,
    data: &HonestEventStudyInput,
    post_weights: &[Real],
    m: Real,
) -> (checked: Result<(), HonestError>)
    requires
        data.total() <= usize::MAX,
    ensures
        checked == (match set_fault(family, *data, post_weights@, m) {
            Some(error) => Err(error),
            None => Ok(()),
        }),
{
    match data.validate() {
        Err(error) => {
            return Err(error);
        },
        Ok(()) => {},
    }
    let plain = match family {
        SmoothnessFamily::Plain => true,
        _ => false,
    };
    if !plain && (!m.is_finite() || m.less(Real::zero())) {
        return Err(
            HonestError::InvalidSmoothnessBound { class: family.description(), bound: m },
        );
    }
    if post_weights.len() != data.num_post_periods() {
        return Err(
            HonestError::PostWeightCount {
                found: post_weights.len(),
                expected: data.num_post_periods(),
            },
        );
    }
    Ok(())
}

/// What the program of a restriction is called in messages.
pub const LINEAR_PROGRAM: &'static str = "smoothness LP";

/// Whether `program` is that of a restriction: its constraints hold, and the
/// violations of the pre periods are fixed.
pub open spec fn is_system_program(
    program: ConeProgram,
    rows: Seq<Vec<Real>>,
    num_pre: int,
    num_post: int,
    rhs: Seq<Real>,
    cost: Seq<Real>,
) -> bool {
    &&& program.objective@ == cost
    &&& matrix::rows_of(program.inequalities@) == matrix::rows_of(rows)
    &&& functional::is_identity_block(program.equalities@, num_pre, num_pre + num_post)
    &&& program.soc_rows.len() == 0
    &&& program.rhs@ == rhs
}

/// The program of a restriction with a given right-hand side and objective.
pub fn system_program(
    rows: &[Vec<Real>],
    num_pre: usize,
    num_post: usize,
    rhs: &Vec<Real>,
    cost: &Vec<Real>,
) -> (program: ConeProgram)
    requires
        num_pre + num_post <= usize::MAX,
    ensures
        is_system_program(program, rows@, num_pre as int, num_post as int, rhs@, cost@),
{
    ConeProgram {
        objective: copy_row(cost.as_slice()),
        inequalities: copy_matrix(rows),
        equalities: create_pre_period_equality_matrix(num_pre, num_post),
        soc_rows: Vec::new(),
        rhs: copy_row(rhs.as_slice()),
    }
}

/// What an identified set rested on.
pub struct SetRun {
    /// Pre-treatment coefficients.
    pub pre: Vec<Real>,
    /// Changes of slope along them and the reference period.
    pub changes: Vec<Real>,
    /// The raised bound.
    pub bound: Real,
    /// The moment system.
    pub system: SmoothnessMomentSystem,
    /// Right-hand side of the programs.
    pub rhs: Vec<Real>,
    /// Their objective.
    pub objective: Vec<Real>,
    /// Its negative.
    pub negated: Vec<Real>,
    /// Constraints as numbers.
    pub rows: Vec<Vec<Real>>,
    /// Program of the largest violation.
    pub highest: ConeProgram,
    /// Program of the smallest violation.
    pub lowest: ConeProgram,
    /// What the solver returned for the first.
    pub largest: Result<ProgramAnswer<Vec<Real>>, String>,
    /// What it returned for the second.
    pub smallest: Result<ProgramAnswer<Vec<Real>>, String>,
    /// Largest violation.
    pub most: Real,
    /// Smallest violation.
    pub least: Real,
    /// Estimate of the functional.
    pub estimate: Real,
}

/// What the solver's answer on the program of a restriction means.
pub open spec fn optimum(answer: Result<ProgramAnswer<Vec<Real>>, String>) -> Result<
    Option<Vec<Real>>,
    HonestError,
> {
    match answer {
        Err(message) => Err(HonestError::Numerical { message }),
        Ok(answer) => programs::answer_meaning(LINEAR_PROGRAM, answer),
    }
}

fn read_optimum(answer: Result<ProgramAnswer<Vec<Real>>, String>) -> (meaning: Result<
    Option<Vec<Real>>,
    HonestError,
>)
    ensures
        meaning == optimum(answer),
{
    match answer {
        Err(message) => Err(HonestError::Numerical { message }),
        Ok(answer) => read_answer(LINEAR_PROGRAM, answer),
    }
}

impl SetRun {
    /// Whether the two programs of a moment system lead to `set`: an error of
    /// the first or the second, the interval they span, or everything where one
    /// of them has no solution.
    pub open spec fn bounded<A: StudyArithmetic>(
        self,
        data: HonestEventStudyInput,
        weights: Seq<Real>,
        system: SmoothnessMomentSystem,
        numbers: A,
        set: Result<HonestIdentifiedSet, HonestError>,
    ) -> bool {
        let num_pre = data.pre_periods@.len() as int;
        &&& self.rhs@ == system.constraint_bounds@ + data.betahat@.take(num_pre)
        &&& self.objective@ == Seq::new(num_pre as nat, |i: int| Real::zero_spec()) + weights
        &&& self.negated@ == Seq::new(
            self.objective@.len(),
            |i: int| self.objective@[i].neg_spec(),
        )
        &&& functional::valued(
            system.constraint_matrix@,
            numbers,
            Real::zero_spec(),
            self.rows@,
        )
        &&& is_system_program(
            self.highest,
            self.rows@,
            num_pre,
            data.post_periods@.len() as int,
            self.rhs@,
            self.negated@,
        )
        &&& numbers.answers(self.highest, false, self.largest)
        &&& optimum(self.largest) is Ok ==> {
            &&& is_system_program(
                self.lowest,
                self.rows@,
                num_pre,
                data.post_periods@.len() as int,
                self.rhs@,
                self.objective@,
            )
            &&& numbers.answers(self.lowest, false, self.smallest)
        }
        &&& match optimum(self.largest) {
            Err(error) => set == Err::<HonestIdentifiedSet, HonestError>(error),
            Ok(maximum) => match optimum(self.smallest) {
                Err(error) => set == Err::<HonestIdentifiedSet, HonestError>(error),
                Ok(minimum) => match (maximum, minimum) {
                    (Some(top), Some(bottom)) => {
                        &&& relative_magnitude::estimated(data, weights, numbers, self.estimate)
                        &&& numbers.produces(self.objective, top, self.most)
                        &&& numbers.produces(self.objective, bottom, self.least)
                        &&& set matches Ok(found) && numbers.shifts(
                            self.estimate,
                            self.most,
                            found.lb,
                        ) && numbers.shifts(self.estimate, self.least, found.ub)
                    },
                    _ => set == Ok::<HonestIdentifiedSet, HonestError>(
                        HonestIdentifiedSet::everything_spec(),
                    ),
                },
            },
        }
    }

    /// Whether `set` is the identified set of a request: its first fault, or
    /// everything where the slope of the pre periods breaks the bound, or what the
    /// programs of the restriction lead to.
    pub open spec fn explains<A: StudyArithmetic>(
        self,
        family: SmoothnessFamily,
        data: HonestEventStudyInput,
        weights: Seq<Real>,
        m: Real,
        numbers: A,
        set: Result<HonestIdentifiedSet, HonestError>,
    ) -> bool {
        let num_pre = data.pre_periods@.len() as int;
        let num_post = data.post_periods@.len() as int;
        match set_fault(family, data, weights, m) {
            Some(error) => set == Err::<HonestIdentifiedSet, HonestError>(error),
            None => {
                &&& self.pre@ == data.betahat@.take(num_pre)
                &&& slope_changes(pre_path(self.pre@), numbers, self.changes@)
                &&& numbers.raises(m, self.bound)
                &&& if !changes_within(self.changes@, self.bound) {
                    set == Ok::<HonestIdentifiedSet, HonestError>(
                        HonestIdentifiedSet::everything_spec(),
                    )
                } else {
                    &&& family.is_system(self.system, num_pre, num_post, m, false)
                    &&& self.bounded(data, weights, self.system, numbers, set)
                }
            },
        }
    }
}

fn system_rhs(bounds: &[Real], betahat: &[Real], num_pre: usize) -> (rhs: Vec<Real>)
    requires
        num_pre <= betahat.len(),
    ensures
        rhs@ == bounds@ + betahat@.take(num_pre as int),
{
    let mut rhs = copy_row(bounds);
    let mut pre = entries_up_to(betahat, num_pre);
    rhs.append(&mut pre);
    rhs
}

/// Identified set of a functional from a moment system.
pub fn compute_honest_linear_sensitivity_identified_set<A: StudyArithmetic>(
    data: &HonestEventStudyInput,
    post_weights: &[Real],
    system: &SmoothnessMomentSystem,
    numbers: &A,
) -> (set: Result<HonestIdentifiedSet, HonestError>)
    requires
        data.shaped(),
        data.total() <= usize::MAX,
        post_weights.len() == data.post_periods@.len(),
        numbers.ready(),
    ensures
        exists|run: SetRun| #[trigger] run.bounded(*data, post_weights@, *system, *numbers, set),
{
    let ghost mut run: SetRun = arbitrary();
    let num_pre: usize = data.num_pre_periods();
    let num_post: usize = data.num_post_periods();
    let rhs = system_rhs(system.constraint_bounds.as_slice(), data.betahat.as_slice(), num_pre);
    let objective = relative_magnitude_objective(num_pre, num_post, post_weights);
    let negated = negated_values(objective.as_slice());
    let rows = matrix_values(system.constraint_matrix.as_slice(), numbers, Real::zero());
    let highest = system_program(rows.as_slice(), num_pre, num_post, &rhs, &negated);
    let largest = numbers.program(&highest, false);
    proof {
        run.rows = rows;
        run.highest = highest;
        assert(post_weights@.take(num_post as int) =~= post_weights@);
        run.rhs = rhs;
        run.objective = objective;
        run.negated = negated;
        run.largest = largest;
    }
    let maximum = match read_optimum(largest) {
        Err(error) => {
            assert(run.bounded(*data, post_weights@, *system, *numbers, Err(error)));
            return Err(error);
        },
        Ok(maximum) => maximum,
    };
    let lowest = system_program(rows.as_slice(), num_pre, num_post, &rhs, &objective);
    let smallest = numbers.program(&lowest, false);
    proof {
        run.lowest = lowest;
        run.smallest = smallest;
    }
    let set = match read_optimum(smallest) {
        Err(error) => Err(error),
        Ok(minimum) => match (maximum, minimum) {
            (Some(top), Some(bottom)) => {
                let estimate = target_estimate(data, post_weights, numbers);
                let most = numbers.product(&objective, &top);
                let least = numbers.product(&objective, &bottom);
                proof {
                    run.estimate = estimate;
                    run.most = most;
                    run.least = least;
                }
                Ok(
                    HonestIdentifiedSet {
                        lb: numbers.shift(estimate, most),
                        ub: numbers.shift(estimate, least),
                    },
                )
            },
            _ => Ok(HonestIdentifiedSet::everything()),
        },
    };
    assert(run.bounded(*data, post_weights@, *system, *numbers, set));
    set
}

/// Identified set of a functional under a smoothness restriction.
pub fn compute_smoothness_family_identified_set<A: StudyArithmetic>(
    data: &HonestEventStudyInput,
    post_weights: &[Real],
    m: Real,
    family: SmoothnessFamily,
    numbers: &A,
) -> (set: Result<HonestIdentifiedSet, HonestError>)
    requires
        countable(*data),
        numbers.ready(),
    ensures
        exists|run: SetRun| #[trigger]
            run.explains(family, *data, post_weights@, m, *numbers, set),
{
    let ghost mut run: SetRun = arbitrary();
    match check_set_request(family, data, post_weights, m) {
        Err(error) => {
            assert(run.explains(family, *data, post_weights@, m, *numbers, Err(error)));
            return Err(error);
        },
        Ok(()) => {},
    }
    proof {
        input::valid_input_is_shaped(*data);
    }
    let num_pre: usize = data.num_pre_periods();
    let pre = entries_up_to(data.betahat.as_slice(), num_pre);
    let changes = pre_period_slope_changes(&pre, numbers);
    let bound = numbers.raise(m);
    proof {
        run.pre = pre;
        run.changes = changes;
        run.bound = bound;
    }
    if !pre_periods_satisfy_smoothness_bound(changes.as_slice(), bound) {
        let set = HonestIdentifiedSet::everything();
        assert(run.explains(family, *data, post_weights@, m, *numbers, Ok(set)));
        return Ok(set);
    }
    let system = family.moment_system(num_pre, data.num_post_periods(), m, false);
    let set = compute_honest_linear_sensitivity_identified_set(
        data,
        post_weights,
        &system,
        numbers,
    );
    proof {
        let inner = choose|inner: SetRun| #[trigger]
            inner.bounded(*data, post_weights@, system, *numbers, set);
        run.system = system;
        run.rhs = inner.rhs;
        run.objective = inner.objective;
        run.negated = inner.negated;
        run.rows = inner.rows;
        run.highest = inner.highest;
        run.lowest = inner.lowest;
        run.largest = inner.largest;
        run.smallest = inner.smallest;
        run.most = inner.most;
        run.least = inner.least;
        run.estimate = inner.estimate;
        assert(run.bounded(*data, post_weights@, system, *numbers, set));
        assert(run.explains(family, *data, post_weights@, m, *numbers, set));
    }
    set
}

// ---------------------------------------------------------------------------
// The moments of a functional
// ---------------------------------------------------------------------------

/// The moments of a functional, as the conditional test sees them.
#[derive(Debug, PartialEq, Eq)]
pub struct LinearSetup {
    /// The moments that enter the test.
    pub views: ArpViews,
    /// Target coefficients of all moments.
    pub a_target_full: Vec<Real>,
    /// All moments.
    pub y_full_base: Vec<Real>,
    /// Covariance of all moments.
    pub sigma_full: Vec<Vec<Real>>,
    /// Standard deviations of the moments that enter the test.
    pub sd_arp: Vec<Real>,
    /// Rows of the dual program.
    pub w_t: Vec<Vec<Real>>,
}

impl LinearSetup {
    /// Every moment has a target coefficient, and the moments that enter the
    /// test exist.
    pub open spec fn fits(self, rows_for_arp: Seq<usize>) -> bool {
        &&& self.a_target_full.len() == self.y_full_base.len()
        &&& matrix::indices_below(rows_for_arp, self.y_full_base.len() as int)
    }

    /// Whether these are the moments that enter the test and all moments.
    pub open spec fn has_moments(
        self,
        rows_for_arp: Seq<usize>,
        moments: Moments,
        full: FullMoments,
    ) -> bool {
        &&& moments.y_base@ == self.views.y_arp_base@
        &&& moments.a_target@ == self.views.a_target_arp@
        &&& matrix::rows_of(moments.design@) == matrix::rows_of(self.views.x_arp@)
        &&& matrix::rows_of(moments.sigma@) == matrix::rows_of(self.views.sigma_arp@)
        &&& moments.sd@ == self.sd_arp@
        &&& matrix::rows_of(moments.w_t@) == matrix::rows_of(self.w_t@)
        &&& full.y_base@ == self.y_full_base@
        &&& full.a_target@ == self.a_target_full@
        &&& matrix::rows_of(full.sigma@) == matrix::rows_of(self.sigma_full@)
        &&& full.rows_for_arp@ == rows_for_arp
    }

    fn gather(&self, rows_for_arp: &Vec<usize>) -> (gathered: (Moments, FullMoments))
        ensures
            self.has_moments(rows_for_arp@, gathered.0, gathered.1),
    {
        (
            Moments {
                y_base: copy_row(self.views.y_arp_base.as_slice()),
                a_target: copy_row(self.views.a_target_arp.as_slice()),
                design: copy_matrix(self.views.x_arp.as_slice()),
                sigma: copy_matrix(self.views.sigma_arp.as_slice()),
                sd: copy_row(self.sd_arp.as_slice()),
                w_t: copy_matrix(self.w_t.as_slice()),
            },
            FullMoments {
                y_base: copy_row(self.y_full_base.as_slice()),
                a_target: copy_row(self.a_target_full.as_slice()),
                sigma: copy_matrix(self.sigma_full.as_slice()),
                rows_for_arp: copy_row(rows_for_arp.as_slice()),
            },
        )
    }
}

/// What the moments of a functional rested on.
pub struct SetupRun {
    /// Constraint rows as numbers.
    pub rows: Vec<Vec<Real>>,
    /// Their columns of post periods.
    pub a_post: Vec<Vec<Real>>,
    /// Basis whose first element is the functional.
    pub gamma: Vec<Vec<Real>>,
    /// Its inverse.
    pub inverse: Result<Vec<Vec<Real>>, String>,
    /// Transform of the functional.
    pub transform: Result<RelativeMagnitudePreparedFunctionalTransform, HonestError>,
    /// Nuisance design of all moments.
    pub x_matrix: Vec<Vec<Real>>,
}

impl SetupRun {
    /// Whether `setup` are the moments of a functional in a moment system.
    pub open spec fn explains<A: StudyArithmetic>(
        self,
        system: SmoothnessMomentSystem,
        data: HonestEventStudyInput,
        weights: Seq<Real>,
        numbers: A,
        setup: Result<LinearSetup, HonestError>,
    ) -> bool {
        let num_pre = data.pre_periods@.len() as int;
        &&& functional::valued(
            system.constraint_matrix@,
            numbers,
            Real::zero_spec(),
            self.rows@,
        )
        &&& matrix::rows_of(self.a_post@) == Seq::new(
            self.rows@.len(),
            |i: int| self.rows@[i]@.skip(num_pre),
        )
        &&& functional::transform_of(
            weights,
            numbers,
            self.gamma,
            self.inverse,
            self.transform,
        )
        &&& match self.transform {
            Err(error) => setup == Err::<LinearSetup, HonestError>(error),
            Ok(transform) => setup is Ok && self.made(
                system,
                data,
                transform,
                numbers,
                setup->Ok_0,
            ),
        }
    }

    /// Whether `made` are the moments under a transform.
    pub open spec fn made<A: StudyArithmetic>(
        self,
        system: SmoothnessMomentSystem,
        data: HonestEventStudyInput,
        transform: RelativeMagnitudePreparedFunctionalTransform,
        numbers: A,
        made: LinearSetup,
    ) -> bool {
        &&& made.a_target_full.len() == self.a_post.len()
        &&& self.x_matrix.len() == self.a_post.len()
        &&& forall|k: int|
            0 <= k < self.a_post.len() ==> functional::row_split(
                transform,
                numbers,
                self.a_post@[k],
                #[trigger] made.a_target_full@[k],
                self.x_matrix@[k]@,
            )
        &&& numbers.exceeds(
            self.rows,
            system.constraint_bounds,
            data.betahat,
            made.y_full_base,
        )
        &&& numbers.covaries(self.rows, data.covariance, made.sigma_full)
        &&& functional::views_of(
            made.views,
            self.x_matrix@,
            made.y_full_base@,
            made.a_target_full@,
            made.sigma_full@,
            system.rows_for_arp@,
        )
        &&& made.sd_arp.len() == made.views.sigma_arp.len()
        &&& forall|k: int|
            0 <= k < made.sd_arp.len() ==> numbers.roots(
                made.views.sigma_arp@[k]@[k].max_spec(Real::zero_spec()),
                #[trigger] made.sd_arp@[k],
            )
        &&& matrix::rows_of(made.w_t@) == Seq::new(
            made.views.x_arp@.len(),
            |k: int| seq![made.sd_arp@[k]] + made.views.x_arp@[k]@,
        )
    }
}

proof fn conditional_rows_fit(
    rows: Seq<Vec<Coefficient>>,
    num_pre: int,
    num_post: int,
    post_period_moments_only: bool,
)
    requires
        rows.len() <= usize::MAX,
    ensures
        matrix::indices_below(
            constraints::conditional_rows(rows, num_pre, num_post, post_period_moments_only),
            rows.len() as int,
        ),
{
    if post_period_moments_only && num_post > 1 {
        constraints::post_period_rows_are_exact(rows, num_pre, rows.len() as int);
    }
}

/// The moments of a functional in a moment system.
pub fn prepare_linear_sensitivity<A: StudyArithmetic>(
    system: &SmoothnessMomentSystem,
    data: &HonestEventStudyInput,
    post_weights: &[Real],
    numbers: &A,
) -> (setup: Result<LinearSetup, HonestError>)
    requires
        post_weights.len() > 0,
        data.total() <= usize::MAX,
        post_weights.len() == data.post_periods@.len(),
        matrix::has_cols(system.constraint_matrix@, data.total()),
        matrix::indices_below(
            system.rows_for_arp@,
            system.constraint_matrix.len() as int,
        ),
        numbers.ready(),
    ensures
        exists|run: SetupRun| #[trigger]
            run.explains(*system, *data, post_weights@, *numbers, setup),
        setup matches Ok(made) ==> made.fits(system.rows_for_arp@),
{
    let num_pre: usize = data.num_pre_periods();
    let ghost mut run: SetupRun = arbitrary();
    let rows = matrix_values(system.constraint_matrix.as_slice(), numbers, Real::zero());
    proof {
        assert forall|i: int| 0 <= i < rows.len() implies (#[trigger] rows@[i])@.len()
            == num_pre + post_weights.len() by {
            assert(system.constraint_matrix@[i]@.len() == num_pre + post_weights.len());
        }
    }
    let a_post = columns_from(rows.as_slice(), num_pre);
    let transform = prepare_relative_magnitude_functional_transform(post_weights, numbers);
    proof {
        let (gamma, inverse) = choose|
            gamma: Vec<Vec<Real>>,
            inverse: Result<Vec<Vec<Real>>, String>,
        | #[trigger]
            functional::transform_of(post_weights@, *numbers, gamma, inverse, transform);
        run.rows = rows;
        run.a_post = a_post;
        run.gamma = gamma;
        run.inverse = inverse;
        run.transform = transform;
        assert(matrix::rows_of(a_post@).len() == rows.len());
        assert forall|i: int| 0 <= i < a_post.len() implies (#[trigger] a_post@[i])@.len()
            == post_weights.len() by {
            assert(matrix::rows_of(a_post@)[i] == a_post@[i]@);
            assert(rows@[i]@.len() == num_pre + post_weights.len());
        }
    }
    let found = match transform {
        Err(error) => {
            assert(run.explains(*system, *data, post_weights@, *numbers, Err(error)));
            return Err(error);
        },
        Ok(found) => found,
    };
    let (a_target_full, x_matrix) = build_target_and_design_from_transform(
        a_post.as_slice(),
        &found,
        numbers,
        post_weights.len(),
    );
    let y_full_base = numbers.moments(&rows, &system.constraint_bounds, &data.betahat);
    let sigma_full = numbers.sandwich(&rows, &data.covariance);
    proof {
        if x_matrix.len() > 0 {
            assert(x_matrix@[0]@.len() == post_weights.len() - 1);
        }
    }
    let views = prepare_arp_views(
        x_matrix.as_slice(),
        y_full_base.as_slice(),
        a_target_full.as_slice(),
        sigma_full.as_slice(),
        system.rows_for_arp.as_slice(),
    );
    let sd_arp = diag_sqrt(views.sigma_arp.as_slice(), numbers);
    proof {
        let picked = choose|picked: Vec<Vec<Real>>|
            matrix::rows_of(#[trigger] picked@) == matrix::selected_rows(
                matrix::rows_of(x_matrix@),
                system.rows_for_arp@,
            ) && functional::zero_columns_dropped(picked@, views.x_arp@);
        assert(matrix::rows_of(picked@).len() == system.rows_for_arp.len());
    }
    let w_t = build_w_t(views.x_arp.as_slice(), sd_arp.as_slice());
    let made = LinearSetup { views, a_target_full, y_full_base, sigma_full, sd_arp, w_t };
    proof {
        run.x_matrix = x_matrix;
        assert(run.made(*system, *data, found, *numbers, made));
        assert(run.explains(*system, *data, post_weights@, *numbers, Ok(made)));
    }
    Ok(made)
}

// ---------------------------------------------------------------------------
// The fixed-length interval of a hybrid
// ---------------------------------------------------------------------------

/// What the fixed-length interval of a hybrid rested on.
pub struct HybridRun {
    /// Configuration at the first-stage size.
    pub inference: InferenceConfig,
    /// Confidence set under parallel trends at that size.
    pub original: Result<HonestOriginalConfidenceSet, HonestError>,
    /// How the identified set was found.
    pub set_run: SetRun,
    /// The identified set under the plain restriction.
    pub identified: Result<HonestIdentifiedSet, HonestError>,
    /// The problem of the interval.
    pub problem: SmoothnessFlciProblem,
    /// The search for its shortest estimator.
    pub run: OptimalRun,
    /// Whether its level lies between zero and one.
    pub valid_level: bool,
    /// Its shortest estimator.
    pub found: Result<Option<(Vec<Real>, Real)>, HonestError>,
    /// The interval.
    pub flci: Result<SmoothnessFlciResult, HonestError>,
    /// Constraint rows as numbers.
    pub rows: Vec<Vec<Real>>,
    /// Products of the rows with each other.
    pub normal: Vec<Vec<Real>>,
    /// Products of the rows with the estimator.
    pub rhs: Vec<Real>,
    /// Solution of the normal equations.
    pub solved: Result<Vec<Real>, HonestError>,
    /// Projection of the estimator on the rows.
    pub vbar: Result<Vec<Real>, HonestError>,
}

impl HybridRun {
    /// Whether `out` is what a hybrid tests with, and its interval: the error of
    /// a set of the problem, of the interval or of the projection, whichever
    /// comes first, else the projection of the shortest estimator on the
    /// constraint rows with its products with the bounds and the target
    /// coefficients.
    pub open spec fn explains<A: StudyArithmetic>(
        self,
        data: HonestEventStudyInput,
        weights: Seq<Real>,
        m: Real,
        kappa: Real,
        system: SmoothnessMomentSystem,
        a_target: Vec<Real>,
        numbers: A,
        out: Result<(SmoothnessFlciHybridData, (Real, Real)), HonestError>,
    ) -> bool {
        &&& numbers.framer().configures(kappa, self.inference)
        &&& prepared::is_original(data, weights, self.inference, numbers, self.original)
        &&& match self.original {
            Err(error) => out == Err::<(SmoothnessFlciHybridData, (Real, Real)), HonestError>(error),
            Ok(original) => {
                &&& self.set_run.explains(
                    SmoothnessFamily::Plain,
                    data,
                    weights,
                    m,
                    numbers,
                    self.identified,
                )
                &&& match self.identified {
                    Err(error) => out == Err::<
                        (SmoothnessFlciHybridData, (Real, Real)),
                        HonestError,
                    >(error),
                    Ok(identified) => {
                        &&& self.problem.input.same_as(data)
                        &&& self.problem.post_weights@ == weights
                        &&& self.problem.m == m
                        &&& self.problem.inference == self.inference
                        &&& self.problem.original == original
                        &&& self.problem.identified_set == identified
                        &&& self.tests(system, a_target, numbers, out)
                    },
                }
            },
        }
    }

    /// Whether `out` is what a hybrid tests with, given its problem.
    pub open spec fn tests<A: StudyArithmetic>(
        self,
        system: SmoothnessMomentSystem,
        a_target: Vec<Real>,
        numbers: A,
        out: Result<(SmoothnessFlciHybridData, (Real, Real)), HonestError>,
    ) -> bool {
        &&& smoothness_intervals::flci_by(
            self.run,
            self.valid_level,
            self.found,
            self.problem,
            SmoothnessFlciConfig::default_spec(),
            numbers,
            self.flci,
        )
        &&& match self.flci {
            Err(error) => out == Err::<(SmoothnessFlciHybridData, (Real, Real)), HonestError>(error),
            Ok(flci) => {
                &&& functional::valued(
                    system.constraint_matrix@,
                    numbers,
                    Real::zero_spec(),
                    self.rows@,
                )
                &&& projection::projected(
                    self.rows@,
                    flci.optimal_vec,
                    numbers,
                    self.normal,
                    self.rhs,
                    self.solved,
                    self.vbar,
                )
                &&& match self.vbar {
                    Err(error) => out == Err::<
                        (SmoothnessFlciHybridData, (Real, Real)),
                        HonestError,
                    >(error),
                    Ok(vbar) => out matches Ok((kept, ends)) && {
                        &&& kept.vbar == vbar
                        &&& numbers.produces(vbar, system.constraint_bounds, kept.vbar_dot_d)
                        &&& numbers.produces(vbar, a_target, kept.vbar_dot_a_target)
                        &&& kept.optimal_half_length == flci.optimal_half_length
                        &&& ends == flci.flci
                    },
                }
            },
        }
    }
}

/// Whether `out` is what a hybrid tests with, and its interval.
pub open spec fn is_hybrid<A: StudyArithmetic>(
    data: HonestEventStudyInput,
    weights: Seq<Real>,
    m: Real,
    kappa: Real,
    system: SmoothnessMomentSystem,
    a_target: Vec<Real>,
    numbers: A,
    out: Result<(SmoothnessFlciHybridData, (Real, Real)), HonestError>,
) -> bool {
    exists|run: HybridRun| #[trigger]
        run.explains(data, weights, m, kappa, system, a_target, numbers, out)
}

fn hybrid_of_problem<A: StudyArithmetic>(
    run: Ghost<HybridRun>,
    problem: &SmoothnessFlciProblem,
    system: &SmoothnessMomentSystem,
    a_target: &Vec<Real>,
    numbers: &A,
) -> (out: (
    Result<(SmoothnessFlciHybridData, (Real, Real)), HonestError>,
    Ghost<HybridRun>,
))
    requires
        run@.problem == *problem,
        smoothness_intervals::fits(problem.input, problem.post_weights@),
        numbers.ready(),
    ensures
        out.1@.tests(*system, *a_target, *numbers, out.0),
        out.1@ == (HybridRun {
            run: out.1@.run,
            valid_level: out.1@.valid_level,
            found: out.1@.found,
            flci: out.1@.flci,
            rows: out.1@.rows,
            normal: out.1@.normal,
            rhs: out.1@.rhs,
            solved: out.1@.solved,
            vbar: out.1@.vbar,
            ..run@
        }),
{
    let ghost mut run = run@;
    let interval = compute_smoothness_flci_with_config(
        problem,
        SmoothnessFlciConfig::default_for_production(),
        numbers,
    );
    proof {
        let (inner, valid_level, found) = choose|
            inner: OptimalRun,
            valid_level: bool,
            found: Result<Option<(Vec<Real>, Real)>, HonestError>,
        | #[trigger]
            smoothness_intervals::flci_by(
                inner,
                valid_level,
                found,
                *problem,
                SmoothnessFlciConfig::default_spec(),
                *numbers,
                interval,
            );
        run.run = inner;
        run.valid_level = valid_level;
        run.found = found;
        run.flci = interval;
    }
    let flci = match interval {
        Err(error) => {
            return (Err(error), Ghost(run));
        },
        Ok(flci) => flci,
    };
    let rows = matrix_values(system.constraint_matrix.as_slice(), numbers, Real::zero());
    let projected = solve_vbar_projection(&rows, &flci.optimal_vec, numbers);
    proof {
        let (normal, rhs, solved) = choose|
            normal: Vec<Vec<Real>>,
            rhs: Vec<Real>,
            solved: Result<Vec<Real>, HonestError>,
        | #[trigger]
            projection::projected(
                rows@,
                flci.optimal_vec,
                *numbers,
                normal,
                rhs,
                solved,
                projected,
            );
        run.rows = rows;
        run.normal = normal;
        run.rhs = rhs;
        run.solved = solved;
        run.vbar = projected;
    }
    let out = match projected {
        Err(error) => Err(error),
        Ok(vbar) => {
            let vbar_dot_d = numbers.product(&vbar, &system.constraint_bounds);
            let vbar_dot_a_target = numbers.product(&vbar, a_target);
            Ok(
                (
                    SmoothnessFlciHybridData {
                        vbar,
                        vbar_dot_d,
                        vbar_dot_a_target,
                        optimal_half_length: flci.optimal_half_length,
                    },
                    flci.flci,
                ),
            )
        },
    };
    (out, Ghost(run))
}

/// What a hybrid with a fixed-length interval tests with, at its first-stage
/// size `kappa`, and the interval.
pub fn build_smoothness_flci_hybrid_data<A: StudyArithmetic>(
    data: &HonestEventStudyInput,
    post_weights: &[Real],
    m: Real,
    kappa: Real,
    system: &SmoothnessMomentSystem,
    a_target: &Vec<Real>,
    numbers: &A,
) -> (out: Result<(SmoothnessFlciHybridData, (Real, Real)), HonestError>)
    requires
        countable(*data),
        data.shaped(),
        post_weights.len() == data.post_periods@.len(),
        numbers.ready(),
    ensures
        is_hybrid(*data, post_weights@, m, kappa, *system, *a_target, *numbers, out),
{
    let ghost mut run: HybridRun = arbitrary();
    let inference = numbers.intervals().at_size(kappa);
    let measured = compute_original_confidence_set(data, post_weights, inference, numbers);
    proof {
        run.inference = inference;
        run.original = measured;
    }
    let original = match measured {
        Err(error) => {
            let out = Err(error);
            assert(run.explains(
                *data,
                post_weights@,
                m,
                kappa,
                *system,
                *a_target,
                *numbers,
                out,
            ));
            return out;
        },
        Ok(original) => original,
    };
    let identified = compute_smoothness_identified_set(data, post_weights, m, numbers);
    proof {
        run.set_run = choose|inner: SetRun| #[trigger]
            inner.explains(
                SmoothnessFamily::Plain,
                *data,
                post_weights@,
                m,
                *numbers,
                identified,
            );
        run.identified = identified;
    }
    let identified_set = match identified {
        Err(error) => {
            let out = Err(error);
            assert(run.explains(
                *data,
                post_weights@,
                m,
                kappa,
                *system,
                *a_target,
                *numbers,
                out,
            ));
            return out;
        },
        Ok(set) => set,
    };
    let problem = SmoothnessFlciProblem {
        input: data.copy(),
        post_weights: copy_row(post_weights),
        m,
        inference,
        original,
        identified_set,
    };
    proof {
        run.problem = problem;
        assert(matrix::rows_of(problem.input.covariance@).len() == data.covariance@.len());
    }
    let (out, Ghost(done)) = hybrid_of_problem(Ghost(run), &problem, system, a_target, numbers);
    assert(done.explains(*data, post_weights@, m, kappa, *system, *a_target, *numbers, out));
    out
}

// ---------------------------------------------------------------------------
// Confidence sets
// ---------------------------------------------------------------------------

/// What is wrong with a request for a confidence set, if anything: the input,
/// the bound, the weights, the settings.
pub open spec fn request_fault(
    family: SmoothnessFamily,
    data: HonestEventStudyInput,
    weights: Seq<Real>,
    m: Real,
    inference: InferenceConfig,
    config: SmoothnessConfidenceSetConfig,
) -> Option<HonestError> {
    if data.fault() is Some {
        data.fault()
    } else if !m.finite() || m.lt(Real::zero_spec()) {
        Some(HonestError::InvalidSmoothnessBound { class: family.description_spec(), bound: m })
    } else {
        match input::weights_fault(weights, data.post_periods@.len() as int, true) {
            Some(error) => Some(error),
            None => config.fault(inference),
        }
    }
}

fn check_request(
    family: SmoothnessFamily,
    data: &HonestEventStudyInput,
    post_weights: &[Real],
    m: Real,
    inference: InferenceConfig,
    config: SmoothnessConfidenceSetConfig,
) -> (checked: Result<(), HonestError>)
    requires
        data.total() <= usize::MAX,
    ensures
        checked == (match request_fault(family, *data, post_weights@, m, inference, config) {
            Some(error) => Err(error),
            None => Ok(()),
        }),
{
    match data.validate() {
        Err(error) => {
            return Err(error);
        },
        Ok(()) => {},
    }
    if !m.is_finite() || m.less(Real::zero()) {
        return Err(
            HonestError::InvalidSmoothnessBound { class: family.description(), bound: m },
        );
    }
    match input::validate_post_weights(data, post_weights, true) {
        Err(error) => {
            return Err(error);
        },
        Ok(()) => {},
    }
    config.validate(inference)
}

/// What a confidence set rested on.
pub struct LinearRun {
    /// Confidence set under parallel trends.
    pub original: Result<HonestOriginalConfidenceSet, HonestError>,
    /// How the moments came about.
    pub setup_run: SetupRun,
    /// The moments.
    pub setup: Result<LinearSetup, HonestError>,
    /// Critical value.
    pub lf_cv: Result<Real, String>,
    /// Fixed-length interval of the hybrid.
    pub interval: Result<(SmoothnessFlciHybridData, (Real, Real)), HonestError>,
    /// What the first stage by the interval rests on.
    pub flci: Option<SmoothnessFlciHybridData>,
    /// Bounds of the grid.
    pub bounds: Result<(Real, Real), HonestError>,
    /// The grid.
    pub grid: Vec<Real>,
    /// Distances of the grid points from the estimate.
    pub gaps: Vec<Real>,
    /// Index from which the grid was searched.
    pub anchor: usize,
    /// The moments that enter the test.
    pub moments: Moments,
    /// All moments.
    pub full: FullMoments,
    /// Answers of the test.
    pub answers: Seq<Result<bool, String>>,
}

/// The error of a confidence set that accepts no grid point.
pub open spec fn no_point_error() -> HonestError {
    HonestError::NoAcceptedPoint { class: "linear sensitivity conditional CS" }
}

/// The confidence set that a search of the grid leads to.
pub open spec fn accepted_set(
    outcome: Result<(Option<AcceptedGridRange>, AdaptiveGridDiagnostics), String>,
    grid: Seq<Real>,
) -> Result<HonestConditionalConfidenceSet, HonestError> {
    match outcome {
        Err(message) => Err(HonestError::Numerical { message }),
        Ok((None, _)) => Err(no_point_error()),
        Ok((Some(range), _)) => Ok(
            HonestConditionalConfidenceSet {
                lb: grid[range.lower_idx as int],
                ub: grid[range.upper_idx as int],
            },
        ),
    }
}

impl LinearRun {
    /// Where the search started.
    pub open spec fn place(self) -> int {
        adaptive_grid::clamped_anchor(self.anchor as int, self.grid.len() as int)
    }

    /// The tests of the moments.
    pub open spec fn tests<'a, EV: TestArithmetic>(
        &'a self,
        alpha: Real,
        config: SmoothnessConfidenceSetConfig,
        lf_cv: Real,
        arithmetic: &'a EV,
    ) -> SmoothnessTests<'a, EV> {
        SmoothnessTests {
            arithmetic,
            moments: &self.moments,
            full: &self.full,
            level: TestLevel { alpha, kappa: config.hybrid_kappa, lf_cv },
            hybrid: config.hybrid,
            flci: &self.flci,
        }
    }

    /// Whether the grid was searched like this, by the tests of the moments.
    pub open spec fn searched<A: StudyArithmetic>(
        self,
        estimate: Real,
        alpha: Real,
        config: SmoothnessConfidenceSetConfig,
        lf_cv: Real,
        numbers: A,
        set: Result<HonestConditionalConfidenceSet, HonestError>,
    ) -> bool {
        let tests = self.tests(alpha, config, lf_cv, &numbers.tester());
        &&& numbers.lies_off(self.grid, estimate, self.gaps)
        &&& if self.gaps.len() == 0 {
            self.anchor == 0
        } else {
            adaptive_grid::nearest_index(self.gaps@, self.anchor as int)
        }
        &&& self.answers.len() == self.grid.len()
        &&& forall|i: int|
            0 <= i < self.grid.len() && #[trigger] adaptive_grid::until_error(
                self.answers,
                adaptive_grid::all_queries(self.answers, self.place()),
            ).contains(i) ==> tests.decides(self.grid@[i], self.answers[i])
        &&& set == accepted_set(
            adaptive_grid::adaptive_outcome(self.answers, self.place()),
            self.grid@,
        )
    }

    /// Whether `set` is the confidence set of a functional in a moment system.
    pub open spec fn inverted<A: StudyArithmetic>(
        self,
        data: HonestEventStudyInput,
        weights: Seq<Real>,
        m: Real,
        inference: InferenceConfig,
        config: SmoothnessConfidenceSetConfig,
        system: SmoothnessMomentSystem,
        identified: HonestIdentifiedSet,
        numbers: A,
        set: Result<HonestConditionalConfidenceSet, HonestError>,
    ) -> bool {
        &&& prepared::is_original(data, weights, inference, numbers, self.original)
        &&& match self.original {
            Err(error) => set == Err::<HonestConditionalConfidenceSet, HonestError>(error),
            Ok(original) => {
                &&& self.setup_run.explains(
                    system,
                    data,
                    weights,
                    numbers,
                    self.setup,
                )
                &&& match self.setup {
                    Err(error) => set == Err::<HonestConditionalConfidenceSet, HonestError>(error),
                    Ok(setup) => {
                        &&& setup.has_moments(system.rows_for_arp@, self.moments, self.full)
                        &&& if config.hybrid == SmoothnessHybrid::LeastFavorable {
                            inversion::limits(
                                numbers.tester(),
                                self.moments,
                                config.hybrid_kappa,
                                self.lf_cv,
                            )
                        } else {
                            self.lf_cv == Ok::<Real, String>(Real::infinity_spec())
                        }
                        &&& match self.lf_cv {
                            Err(message) => set == Err::<
                                HonestConditionalConfidenceSet,
                                HonestError,
                            >(HonestError::Numerical { message }),
                            Ok(lf_cv) => {
                                &&& if config.hybrid == SmoothnessHybrid::Flci {
                                    &&& is_hybrid(
                                        data,
                                        weights,
                                        m,
                                        config.hybrid_kappa,
                                        system,
                                        setup.a_target_full,
                                        numbers,
                                        self.interval,
                                    )
                                    &&& match self.interval {
                                        Err(error) => self.bounds == Err::<
                                            (Real, Real),
                                            HonestError,
                                        >(error),
                                        Ok((kept, ends)) => {
                                            &&& self.flci == Some(kept)
                                            &&& self.bounds == Ok::<(Real, Real), HonestError>(ends)
                                        },
                                    }
                                } else {
                                    self.flci is None && self.bounds is Ok && grids::bounds_around(
                                        original,
                                        identified,
                                        numbers,
                                        self.bounds->Ok_0,
                                    )
                                }
                                &&& match self.bounds {
                                    Err(error) => set == Err::<
                                        HonestConditionalConfidenceSet,
                                        HonestError,
                                    >(error),
                                    Ok(ends) => {
                                        &&& grids::is_linear_grid(
                                            ends.0,
                                            ends.1,
                                            config.grid_points,
                                            numbers,
                                            self.grid@,
                                        )
                                        &&& self.searched(
                                            original.estimate,
                                            inference.alpha,
                                            config,
                                            lf_cv,
                                            numbers,
                                            set,
                                        )
                                    },
                                }
                            },
                        }
                    },
                }
            },
        }
    }
}

spec fn can_test<T: TestArithmetic>(tests: &SmoothnessTests<'_, T>) -> bool {
    tests.ready()
}

spec fn tests_as<T: TestArithmetic>(
    tests: &SmoothnessTests<'_, T>,
    theta: Real,
    accepted: Result<bool, String>,
) -> bool {
    tests.decides(theta, accepted)
}

fn search_moments<A: StudyArithmetic>(
    run: Ghost<LinearRun>,
    estimate: Real,
    moments: &Moments,
    full: &FullMoments,
    alpha: Real,
    config: SmoothnessConfidenceSetConfig,
    flci: &Option<SmoothnessFlciHybridData>,
    lf_cv: Real,
    grid: &Vec<Real>,
    numbers: &A,
) -> (out: (Result<HonestConditionalConfidenceSet, HonestError>, Ghost<LinearRun>))
    requires
        grid.len() > 0,
        numbers.ready(),
        run@.grid == *grid,
        run@.flci == *flci,
        run@.moments == *moments,
        run@.full == *full,
        full.shaped(),
    ensures
        out.1@.searched(
            estimate,
            alpha,
            config,
            lf_cv,
            *numbers,
            out.0,
        ),
        out.1@ == (LinearRun {
            gaps: out.1@.gaps,
            anchor: out.1@.anchor,
            answers: out.1@.answers,
            ..run@
        }),
{
    let ghost mut done = run@;
    let gaps = numbers.distances(grid, estimate);
    let anchor: usize = nearest_grid_index(gaps.as_slice());
    let tests = SmoothnessTests {
        arithmetic: numbers.tests(),
        moments,
        full,
        level: TestLevel { alpha, kappa: config.hybrid_kappa, lf_cv },
        hybrid: config.hybrid,
        flci,
    };
    let asked = &tests;
    let test = |theta: Real| -> (accepted: Result<bool, String>)
        requires
            can_test(asked),
        ensures
            tests_as(asked, theta, accepted),
        { asked.decide(theta) };
    let ghost tested = test;
    let range = compute_accepted_grid_range_adaptive(grid.as_slice(), anchor, test);
    proof {
        let place = adaptive_grid::clamped_anchor(anchor as int, grid.len() as int);
        let (answers, outcome) = choose|
            answers: Seq<Result<bool, String>>,
            outcome: Result<(Option<AcceptedGridRange>, AdaptiveGridDiagnostics), String>,
        | #[trigger]
            adaptive_grid::explains(answers, tested, grid@, place, outcome) && range == (
            match outcome {
                Ok((found, _)) => Ok(found),
                Err(error) => Err(error),
            });
        done.gaps = gaps;
        done.anchor = anchor;
        done.answers = answers;
        if let Ok((Some(found), _)) = outcome {
            adaptive_grid::returned_range_has_sharp_ends(answers, place);
        }
    }
    let set = match range {
        Err(message) => Err(HonestError::Numerical { message }),
        Ok(None) => Err(
            HonestError::NoAcceptedPoint { class: "linear sensitivity conditional CS" },
        ),
        Ok(Some(found)) => Ok(
            HonestConditionalConfidenceSet { lb: grid[found.lower_idx], ub: grid[found.upper_idx] },
        ),
    };
    assert(done.searched(
        estimate,
        alpha,
        config,
        lf_cv,
        *numbers,
        set,
    ));
    (set, Ghost(done))
}

/// Confidence set of a functional in a moment system.
pub fn compute_honest_linear_sensitivity_conditional_cs<A: StudyArithmetic>(
    data: &HonestEventStudyInput,
    post_weights: &[Real],
    m: Real,
    inference: InferenceConfig,
    config: SmoothnessConfidenceSetConfig,
    system: &SmoothnessMomentSystem,
    identified: HonestIdentifiedSet,
    numbers: &A,
) -> (set: Result<HonestConditionalConfidenceSet, HonestError>)
    requires
        countable(*data),
        data.shaped(),
        post_weights.len() > 0,
        post_weights.len() == data.post_periods@.len(),
        matrix::has_cols(system.constraint_matrix@, data.total()),
        matrix::indices_below(
            system.rows_for_arp@,
            system.constraint_matrix.len() as int,
        ),
        numbers.ready(),
    ensures
        exists|run: LinearRun| #[trigger]
            run.inverted(
                *data,
                post_weights@,
                m,
                inference,
                config,
                *system,
                identified,
                *numbers,
                set,
            ),
{
    let ghost mut run: LinearRun = arbitrary();
    let measured = compute_original_confidence_set(data, post_weights, inference, numbers);
    proof {
        run.original = measured;
    }
    let original = match measured {
        Err(error) => {
            assert(run.inverted(
                *data,
                post_weights@,
                m,
                inference,
                config,
                *system,
                identified,
                *numbers,
                Err(error),
            ));
            return Err(error);
        },
        Ok(original) => original,
    };
    let prepared_setup = prepare_linear_sensitivity(
        system,
        data,
        post_weights,
        numbers,
    );
    proof {
        run.setup_run = choose|inner: SetupRun| #[trigger]
            inner.explains(
                *system,
                *data,
                post_weights@,
                *numbers,
                prepared_setup,
            );
        run.setup = prepared_setup;
    }
    let setup = match prepared_setup {
        Err(error) => {
            assert(run.inverted(
                *data,
                post_weights@,
                m,
                inference,
                config,
                *system,
                identified,
                *numbers,
                Err(error),
            ));
            return Err(error);
        },
        Ok(setup) => setup,
    };
    let (moments, full) = setup.gather(&system.rows_for_arp);
    proof {
        run.moments = moments;
        run.full = full;
    }
    let critical = match config.hybrid {
        SmoothnessHybrid::LeastFavorable => least_favorable_critical_value(
            &moments,
            config.hybrid_kappa,
            numbers.tests(),
        ),
        _ => Ok(Real::infinity()),
    };
    proof {
        run.lf_cv = critical;
    }
    let lf_cv = match critical {
        Err(message) => {
            let error = HonestError::Numerical { message };
            assert(run.inverted(
                *data,
                post_weights@,
                m,
                inference,
                config,
                *system,
                identified,
                *numbers,
                Err(error),
            ));
            return Err(error);
        },
        Ok(lf_cv) => lf_cv,
    };
    let (flci, bounds) = match config.hybrid {
        SmoothnessHybrid::Flci => {
            let interval = build_smoothness_flci_hybrid_data(
                data,
                post_weights,
                m,
                config.hybrid_kappa,
                system,
                &setup.a_target_full,
                numbers,
            );
            proof {
                run.interval = interval;
            }
            match interval {
                Err(error) => (None, Err(error)),
                Ok((kept, ends)) => (Some(kept), Ok(ends)),
            }
        },
        _ => (None, Ok(grid_bounds_around_identified_set(original, identified, numbers))),
    };
    proof {
        run.flci = flci;
        run.bounds = bounds;
    }
    let (lower, upper) = match bounds {
        Err(error) => {
            assert(run.inverted(
                *data,
                post_weights@,
                m,
                inference,
                config,
                *system,
                identified,
                *numbers,
                Err(error),
            ));
            return Err(error);
        },
        Ok(ends) => ends,
    };
    let grid = linear_grid(lower, upper, config.grid_points, numbers);
    proof {
        run.grid = grid;
    }
    let (set, Ghost(done)) = search_moments(
        Ghost(run),
        original.estimate,
        &moments,
        &full,
        inference.alpha,
        config,
        &flci,
        lf_cv,
        &grid,
        numbers,
    );
    assert(done.inverted(
        *data,
        post_weights@,
        m,
        inference,
        config,
        *system,
        identified,
        *numbers,
        set,
    ));
    set
}

/// Whether `set` is the confidence set of a request: its first fault, an error
/// of the identified set, the identified set itself where it is unbounded, or
/// what the moment system leads to.
pub open spec fn confidence_by<A: StudyArithmetic>(
    set_run: SetRun,
    identified: Result<HonestIdentifiedSet, HonestError>,
    system: SmoothnessMomentSystem,
    run: LinearRun,
    family: SmoothnessFamily,
    data: HonestEventStudyInput,
    weights: Seq<Real>,
    m: Real,
    inference: InferenceConfig,
    config: SmoothnessConfidenceSetConfig,
    numbers: A,
    set: Result<HonestConditionalConfidenceSet, HonestError>,
) -> bool {
    match request_fault(family, data, weights, m, inference, config) {
        Some(error) => set == Err::<HonestConditionalConfidenceSet, HonestError>(error),
        None => {
            &&& set_run.explains(family, data, weights, m, numbers, identified)
            &&& match identified {
                Err(error) => set == Err::<HonestConditionalConfidenceSet, HonestError>(error),
                Ok(found) => if !found.bounded() {
                    set == Ok::<HonestConditionalConfidenceSet, HonestError>(
                        HonestConditionalConfidenceSet { lb: found.lb, ub: found.ub },
                    )
                } else {
                    &&& family.is_system(
                        system,
                        data.pre_periods@.len() as int,
                        data.post_periods@.len() as int,
                        m,
                        config.post_period_moments_only,
                    )
                    &&& run.inverted(
                        data,
                        weights,
                        m,
                        inference,
                        config,
                        system,
                        found,
                        numbers,
                        set,
                    )
                },
            }
        },
    }
}

/// Confidence set of a functional under a smoothness restriction.
pub fn compute_smoothness_family_confidence_set<A: StudyArithmetic>(
    data: &HonestEventStudyInput,
    post_weights: &[Real],
    m: Real,
    family: SmoothnessFamily,
    inference: InferenceConfig,
    config: SmoothnessConfidenceSetConfig,
    numbers: &A,
) -> (set: Result<HonestConditionalConfidenceSet, HonestError>)
    requires
        countable(*data),
        numbers.ready(),
    ensures
        exists|
            set_run: SetRun,
            identified: Result<HonestIdentifiedSet, HonestError>,
            system: SmoothnessMomentSystem,
            run: LinearRun,
        | #[trigger]
            confidence_by(
                set_run,
                identified,
                system,
                run,
                family,
                *data,
                post_weights@,
                m,
                inference,
                config,
                *numbers,
                set,
            ),
{
    let ghost mut set_run: SetRun = arbitrary();
    let ghost mut run: LinearRun = arbitrary();
    let ghost no_system: SmoothnessMomentSystem = arbitrary();
    let ghost no_set: Result<HonestIdentifiedSet, HonestError> = arbitrary();
    match check_request(family, data, post_weights, m, inference, config) {
        Err(error) => {
            assert(confidence_by(
                set_run,
                no_set,
                no_system,
                run,
                family,
                *data,
                post_weights@,
                m,
                inference,
                config,
                *numbers,
                Err(error),
            ));
            return Err(error);
        },
        Ok(()) => {},
    }
    let identified = compute_smoothness_family_identified_set(
        data,
        post_weights,
        m,
        family,
        numbers,
    );
    proof {
        set_run = choose|inner: SetRun| #[trigger]
            inner.explains(family, *data, post_weights@, m, *numbers, identified);
    }
    let found = match identified {
        Err(error) => {
            assert(confidence_by(
                set_run,
                identified,
                no_system,
                run,
                family,
                *data,
                post_weights@,
                m,
                inference,
                config,
                *numbers,
                Err(error),
            ));
            return Err(error);
        },
        Ok(found) => found,
    };
    if !found.is_bounded() {
        let set = HonestConditionalConfidenceSet { lb: found.lb, ub: found.ub };
        assert(confidence_by(
            set_run,
            identified,
            no_system,
            run,
            family,
            *data,
            post_weights@,
            m,
            inference,
            config,
            *numbers,
            Ok(set),
        ));
        return Ok(set);
    }
    proof {
        input::valid_input_is_shaped(*data);
        if post_weights.len() == 0 {
            assert(input::all_negligible(post_weights@));
        }
    }
    let system = family.moment_system(
        data.num_pre_periods(),
        data.num_post_periods(),
        m,
        config.post_period_moments_only,
    );
    proof {
        conditional_rows_fit(
            system.constraint_matrix@,
            data.pre_periods@.len() as int,
            data.post_periods@.len() as int,
            config.post_period_moments_only,
        );
    }
    let set = compute_honest_linear_sensitivity_conditional_cs(
        data,
        post_weights,
        m,
        inference,
        config,
        &system,
        found,
        numbers,
    );
    proof {
        run = choose|inner: LinearRun| #[trigger]
            inner.inverted(
                *data,
                post_weights@,
                m,
                inference,
                config,
                system,
                found,
                *numbers,
                set,
            );
        assert(confidence_by(
            set_run,
            identified,
            system,
            run,
            family,
            *data,
            post_weights@,
            m,
            inference,
            config,
            *numbers,
            set,
        ));
    }
    set
}

// ---------------------------------------------------------------------------
// The restrictions by name
// ---------------------------------------------------------------------------

/// Identified set under the smoothness restriction.
pub fn compute_smoothness_identified_set<A: StudyArithmetic>(
    data: &HonestEventStudyInput,
    post_weights: &[Real],
    m: Real,
    numbers: &A,
) -> (set: Result<HonestIdentifiedSet, HonestError>)
    requires
        countable(*data),
        numbers.ready(),
    ensures
        exists|run: SetRun| #[trigger]
            run.explains(SmoothnessFamily::Plain, *data, post_weights@, m, *numbers, set),
{
    compute_smoothness_family_identified_set(data, post_weights, m, SmoothnessFamily::Plain, numbers)
}

/// Confidence set under the smoothness restriction,
/// with the default settings.
pub fn compute_smoothness_confidence_set<A: StudyArithmetic>(
    data: &HonestEventStudyInput,
    post_weights: &[Real],
    m: Real,
    inference: InferenceConfig,
    numbers: &A,
) -> (set: Result<HonestConditionalConfidenceSet, HonestError>)
    requires
        countable(*data),
        numbers.ready(),
    ensures
        exists|
            set_run: SetRun,
            identified: Result<HonestIdentifiedSet, HonestError>,
            system: SmoothnessMomentSystem,
            run: LinearRun,
        | #[trigger]
            confidence_by(
                set_run,
                identified,
                system,
                run,
                SmoothnessFamily::Plain,
                *data,
                post_weights@,
                m,
                inference,
                SmoothnessConfidenceSetConfig::from_inference_spec(inference),
                *numbers,
                set,
            ),
{
    compute_smoothness_family_confidence_set(
        data,
        post_weights,
        m,
        SmoothnessFamily::Plain,
        inference,
        SmoothnessConfidenceSetConfig::from_inference(inference),
        numbers,
    )
}

/// Confidence set under the smoothness restriction,
/// with given settings.
pub fn compute_smoothness_confidence_set_with_config<A: StudyArithmetic>(
    data: &HonestEventStudyInput,
    post_weights: &[Real],
    m: Real,
    inference: InferenceConfig,
    config: SmoothnessConfidenceSetConfig,
    numbers: &A,
) -> (set: Result<HonestConditionalConfidenceSet, HonestError>)
    requires
        countable(*data),
        numbers.ready(),
    ensures
        exists|
            set_run: SetRun,
            identified: Result<HonestIdentifiedSet, HonestError>,
            system: SmoothnessMomentSystem,
            run: LinearRun,
        | #[trigger]
            confidence_by(
                set_run,
                identified,
                system,
                run,
                SmoothnessFamily::Plain,
                *data,
                post_weights@,
                m,
                inference,
                config,
                *numbers,
                set,
            ),
{
    compute_smoothness_family_confidence_set(
        data,
        post_weights,
        m,
        SmoothnessFamily::Plain,
        inference,
        config,
        numbers,
    )
}

/// Identified set under the smoothness restriction with signed violations.
pub fn compute_signed_smoothness_identified_set<A: StudyArithmetic>(
    data: &HonestEventStudyInput,
    post_weights: &[Real],
    m: Real,
    bias_direction: HonestBiasDirection,
    numbers: &A,
) -> (set: Result<HonestIdentifiedSet, HonestError>)
    requires
        countable(*data),
        numbers.ready(),
    ensures
        exists|run: SetRun| #[trigger]
            run.explains(SmoothnessFamily::Signed(bias_direction), *data, post_weights@, m, *numbers, set),
{
    compute_smoothness_family_identified_set(
        data,
        post_weights,
        m,
        SmoothnessFamily::Signed(bias_direction),
        numbers,
    )
}

/// Confidence set under the smoothness restriction with signed violations,
/// with the default settings.
pub fn compute_signed_smoothness_confidence_set<A: StudyArithmetic>(
    data: &HonestEventStudyInput,
    post_weights: &[Real],
    m: Real,
    bias_direction: HonestBiasDirection,
    inference: InferenceConfig,
    numbers: &A,
) -> (set: Result<HonestConditionalConfidenceSet, HonestError>)
    requires
        countable(*data),
        numbers.ready(),
    ensures
        exists|
            set_run: SetRun,
            identified: Result<HonestIdentifiedSet, HonestError>,
            system: SmoothnessMomentSystem,
            run: LinearRun,
        | #[trigger]
            confidence_by(
                set_run,
                identified,
                system,
                run,
                SmoothnessFamily::Signed(bias_direction),
                *data,
                post_weights@,
                m,
                inference,
                SmoothnessConfidenceSetConfig::from_inference_spec(inference),
                *numbers,
                set,
            ),
{
    compute_smoothness_family_confidence_set(
        data,
        post_weights,
        m,
        SmoothnessFamily::Signed(bias_direction),
        inference,
        SmoothnessConfidenceSetConfig::from_inference(inference),
        numbers,
    )
}

/// Confidence set under the smoothness restriction with signed violations,
/// with given settings.
pub fn compute_signed_smoothness_confidence_set_with_config<A: StudyArithmetic>(
    data: &HonestEventStudyInput,
    post_weights: &[Real],
    m: Real,
    bias_direction: HonestBiasDirection,
    inference: InferenceConfig,
    config: SmoothnessConfidenceSetConfig,
    numbers: &A,
) -> (set: Result<HonestConditionalConfidenceSet, HonestError>)
    requires
        countable(*data),
        numbers.ready(),
    ensures
        exists|
            set_run: SetRun,
            identified: Result<HonestIdentifiedSet, HonestError>,
            system: SmoothnessMomentSystem,
            run: LinearRun,
        | #[trigger]
            confidence_by(
                set_run,
                identified,
                system,
                run,
                SmoothnessFamily::Signed(bias_direction),
                *data,
                post_weights@,
                m,
                inference,
                config,
                *numbers,
                set,
            ),
{
    compute_smoothness_family_confidence_set(
        data,
        post_weights,
        m,
        SmoothnessFamily::Signed(bias_direction),
        inference,
        config,
        numbers,
    )
}

/// Identified set under the smoothness restriction with monotone violations.
pub fn compute_monotone_smoothness_identified_set<A: StudyArithmetic>(
    data: &HonestEventStudyInput,
    post_weights: &[Real],
    m: Real,
    monotonicity_direction: HonestMonotonicityDirection,
    numbers: &A,
) -> (set: Result<HonestIdentifiedSet, HonestError>)
    requires
        countable(*data),
        numbers.ready(),
    ensures
        exists|run: SetRun| #[trigger]
            run.explains(SmoothnessFamily::Monotone(monotonicity_direction), *data, post_weights@, m, *numbers, set),
{
    compute_smoothness_family_identified_set(
        data,
        post_weights,
        m,
        SmoothnessFamily::Monotone(monotonicity_direction),
        numbers,
    )
}

/// Confidence set under the smoothness restriction with monotone violations,
/// with the default settings.
pub fn compute_monotone_smoothness_confidence_set<A: StudyArithmetic>(
    data: &HonestEventStudyInput,
    post_weights: &[Real],
    m: Real,
    monotonicity_direction: HonestMonotonicityDirection,
    inference: InferenceConfig,
    numbers: &A,
) -> (set: Result<HonestConditionalConfidenceSet, HonestError>)
    requires
        countable(*data),
        numbers.ready(),
    ensures
        exists|
            set_run: SetRun,
            identified: Result<HonestIdentifiedSet, HonestError>,
            system: SmoothnessMomentSystem,
            run: LinearRun,
        | #[trigger]
            confidence_by(
                set_run,
                identified,
                system,
                run,
                SmoothnessFamily::Monotone(monotonicity_direction),
                *data,
                post_weights@,
                m,
                inference,
                SmoothnessConfidenceSetConfig::from_inference_spec(inference),
                *numbers,
                set,
            ),
{
    compute_smoothness_family_confidence_set(
        data,
        post_weights,
        m,
        SmoothnessFamily::Monotone(monotonicity_direction),
        inference,
        SmoothnessConfidenceSetConfig::from_inference(inference),
        numbers,
    )
}

/// Confidence set under the smoothness restriction with monotone violations,
/// with given settings.
pub fn compute_monotone_smoothness_confidence_set_with_config<A: StudyArithmetic>(
    data: &HonestEventStudyInput,
    post_weights: &[Real],
    m: Real,
    monotonicity_direction: HonestMonotonicityDirection,
    inference: InferenceConfig,
    config: SmoothnessConfidenceSetConfig,
    numbers: &A,
) -> (set: Result<HonestConditionalConfidenceSet, HonestError>)
    requires
        countable(*data),
        numbers.ready(),
    ensures
        exists|
            set_run: SetRun,
            identified: Result<HonestIdentifiedSet, HonestError>,
            system: SmoothnessMomentSystem,
            run: LinearRun,
        | #[trigger]
            confidence_by(
                set_run,
                identified,
                system,
                run,
                SmoothnessFamily::Monotone(monotonicity_direction),
                *data,
                post_weights@,
                m,
                inference,
                config,
                *numbers,
                set,
            ),
{
    compute_smoothness_family_confidence_set(
        data,
        post_weights,
        m,
        SmoothnessFamily::Monotone(monotonicity_direction),
        inference,
        config,
        numbers,
    )
}

/// Test inversion: the ends of a confidence set are values of the grid that the
/// conditional test keeps, and the test rejects a value of the grid just below
/// the set and just above it. Where the search finds no set, the test rejects
/// every value of the grid.
pub proof fn a_confidence_set_inverts_its_test<A: StudyArithmetic>(
    run: LinearRun,
    estimate: Real,
    alpha: Real,
    config: SmoothnessConfidenceSetConfig,
    lf_cv: Real,
    numbers: A,
    set: Result<HonestConditionalConfidenceSet, HonestError>,
)
    requires
        run.grid.len() > 0,
        run.searched(estimate, alpha, config, lf_cv, numbers, set),
    ensures
        match adaptive_grid::adaptive_outcome(run.answers, run.place()) {
            Err(_) => true,
            Ok((None, _)) => {
                &&& set == Err::<HonestConditionalConfidenceSet, HonestError>(no_point_error())
                &&& forall|i: int|
                    0 <= i < run.grid.len() ==> run.tests(
                        alpha,
                        config,
                        lf_cv,
                        &numbers.tester(),
                    ).decides(#[trigger] run.grid@[i], Ok(false))
            },
            Ok((Some(range), _)) => {
                let tests = run.tests(alpha, config, lf_cv, &numbers.tester());
                let lower = range.lower_idx as int;
                let upper = range.upper_idx as int;
                &&& 0 <= lower <= upper < run.grid.len()
                &&& set matches Ok(found) && found.lb == run.grid@[lower] && found.ub
                    == run.grid@[upper]
                &&& tests.decides(run.grid@[lower], Ok(true))
                &&& tests.decides(run.grid@[upper], Ok(true))
                &&& lower == 0 || tests.decides(run.grid@[lower - 1], Ok(false))
                &&& upper + 1 == run.grid.len() || tests.decides(run.grid@[upper + 1], Ok(false))
            },
        },
{
    let place = run.place();
    if adaptive_grid::adaptive_outcome(run.answers, place) is Ok {
        adaptive_grid::a_range_rests_on_answered_questions(run.answers, place);
        let tests = run.tests(alpha, config, lf_cv, &numbers.tester());
        let asked = adaptive_grid::until_error(
            run.answers,
            adaptive_grid::all_queries(run.answers, place),
        );
        if adaptive_grid::adaptive_range(run.answers, place) is None {
            assert forall|i: int| 0 <= i < run.grid.len() implies tests.decides(
                #[trigger] run.grid@[i],
                Ok(false),
            ) by {
                assert(asked.contains(i));
            }
        }
    }
}

/// The first stage of a hybrid rests on the fixed-length interval of the functional at
/// the bound of the restriction, at the level that the first-stage size leaves: its
/// half length is that of the interval, and its multipliers project the interval's
/// estimator on the constraint rows.
pub proof fn a_hybrid_rests_on_an_interval_of_its_first_stage_size<A: StudyArithmetic>(
    data: HonestEventStudyInput,
    weights: Seq<Real>,
    m: Real,
    kappa: Real,
    system: SmoothnessMomentSystem,
    a_target: Vec<Real>,
    numbers: A,
    kept: SmoothnessFlciHybridData,
    ends: (Real, Real),
) -> (run: HybridRun)
    requires
        is_hybrid(data, weights, m, kappa, system, a_target, numbers, Ok((kept, ends))),
    ensures
        numbers.framer().configures(kappa, run.problem.inference),
        run.problem.m == m,
        run.problem.post_weights@ == weights,
        run.problem.input.same_as(data),
        run.flci is Ok,
        smoothness_intervals::flci_by(
            run.run,
            run.valid_level,
            run.found,
            run.problem,
            SmoothnessFlciConfig::default_spec(),
            numbers,
            run.flci,
        ),
        kept.optimal_half_length == run.flci->Ok_0.optimal_half_length,
        ends == run.flci->Ok_0.flci,
        functional::valued(
            system.constraint_matrix@,
            numbers,
            Real::zero_spec(),
            run.rows@,
        ),
        projection::projected(
            run.rows@,
            run.flci->Ok_0.optimal_vec,
            numbers,
            run.normal,
            run.rhs,
            run.solved,
            Ok(kept.vbar),
        ),
        numbers.produces(kept.vbar, system.constraint_bounds, kept.vbar_dot_d),
        numbers.produces(kept.vbar, a_target, kept.vbar_dot_a_target),
{
    choose|run: HybridRun| #[trigger]
        run.explains(
            data,
            weights,
            m,
            kappa,
            system,
            a_target,
            numbers,
            Ok((kept, ends)),
        )
}

} // verus!
