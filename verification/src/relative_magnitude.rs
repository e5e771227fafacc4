//! Identified sets and confidence sets under relative-magnitude restrictions.
//!
//! The restriction is a union of branches. A branch's identified set comes from
//! two linear programs, its confidence set from a test at each point of a grid.

use crate::adaptive_grid;
use crate::adaptive_grid::{nearest_grid_index, AcceptedGridRange};
use crate::branch_search;
use crate::branch_search::{
    compute_relative_magnitude_branch_accepted_range_adaptive, merge_accepted_range, BranchOutcome,
    BranchRun, RelativeMagnitudePreparedFunctionalBranch,
};
use crate::branches;
use crate::branches::{RelativeMagnitudeBranch, RelativeMagnitudeFamily};
use crate::constraints::Coefficient;
use crate::conic;
use crate::conic::solve_relative_magnitude_branch_with_matrix;
use crate::errors::HonestError;
use crate::functional;
use crate::functional::{
    functional_branches_by_transform, matrix_values, prepare_relative_magnitude_branches,
    prepare_relative_magnitude_functional_transform, prepare_relative_magnitude_input_branches,
    RelativeMagnitudePreparedBranch, RelativeMagnitudePreparedFunctionalTransform,
    RelativeMagnitudePreparedInputBranch,
};
use crate::grids;
use crate::grids::grid_around_identified_set;
use crate::input;
use crate::input::{validate_post_weights, HonestEventStudyInput};
use crate::inversion;
use crate::inversion::{gather_moments, BranchTests};
use crate::matrix::{copy_row, entries_from};
use crate::moments::{Moments, TestArithmetic};
use crate::number::Real;
use crate::prepared;
use crate::prepared::compute_original_confidence_set;
use crate::study::StudyArithmetic;
use crate::types::{
    HonestBiasDirection, HonestConditionalConfidenceSet, HonestIdentifiedSet,
    HonestMonotonicityDirection, HonestOriginalConfidenceSet, InferenceConfig,
    RelativeMagnitudeConfidenceSetConfig, RelativeMagnitudeHybrid,
};
use vstd::prelude::*;

verus! {

/// Whether the periods of an input are few enough to be counted.
pub open spec fn countable(data: HonestEventStudyInput) -> bool {
    &&& data.pre_periods@.len() < i64::MAX
    &&& 4 * data.total() + 4 <= usize::MAX
}

/// What is wrong with a request under a relative-magnitude restriction, if
/// anything: the input, the bound, the number of pre-periods, the weights.
pub open spec fn request_fault(
    family: RelativeMagnitudeFamily,
    data: HonestEventStudyInput,
    weights: Seq<Real>,
    mbar: Real,
) -> Option<HonestError> {
    if data.fault() is Some {
        data.fault()
    } else if !mbar.finite() || mbar.lt(Real::zero_spec()) {
        Some(
            HonestError::InvalidMagnitudeBound { class: family.description_spec(), bound: mbar },
        )
    } else if family.linear() && data.pre_periods@.len() <= 1 {
        Some(HonestError::TwoPrePeriodsRequired { class: family.description_spec() })
    } else {
        input::weights_fault(weights, data.post_periods@.len() as int, true)
    }
}

/// Checks a request under a relative-magnitude restriction.
pub fn validate_relative_magnitude_family_inputs(
    family: RelativeMagnitudeFamily,
    data: &HonestEventStudyInput,
    post_weights: &[Real],
    mbar: Real,
) -> (checked: Result<(), HonestError>)
    requires
        data.total() <= usize::MAX,
    ensures
        checked == (match request_fault(family, *data, post_weights@, mbar) {
            Some(error) => Err(error),
            None => Ok(()),
        }),
{
    match data.validate() {
        Err(error) => {
            return Err(error);
        },
        Ok(()) => {},
    }
    if !mbar.is_finite() || mbar.less(Real::zero()) {
        return Err(
            HonestError::InvalidMagnitudeBound { class: family.description(), bound: mbar },
        );
    }
    if family.requires_two_pre_periods() && data.num_pre_periods() <= 1 {
        return Err(HonestError::TwoPrePeriodsRequired { class: family.description() });
    }
    validate_post_weights(data, post_weights, true)
}

// ---------------------------------------------------------------------------
// Identified sets
// ---------------------------------------------------------------------------

/// The smallest interval that holds the sets up to `end`, from the empty one.
pub open spec fn hull_of(sets: Seq<Option<HonestIdentifiedSet>>, end: int) -> HonestIdentifiedSet
    decreases end,
{
    if end <= 0 {
        HonestIdentifiedSet { lb: Real::infinity_spec(), ub: Real::neg_infinity_spec() }
    } else {
        let before = hull_of(sets, end - 1);
        match sets[end - 1] {
            None => before,
            Some(set) => HonestIdentifiedSet {
                lb: before.lb.min_spec(set.lb),
                ub: before.ub.max_spec(set.ub),
            },
        }
    }
}

/// Whether some branch has an identified set.
pub open spec fn any_solved(sets: Seq<Option<HonestIdentifiedSet>>) -> bool {
    exists|i: int| 0 <= i < sets.len() && #[trigger] sets[i] is Some
}

/// The identified set of a union of branches; where no branch has one, the
/// estimate alone.
pub open spec fn union_of(
    sets: Seq<Option<HonestIdentifiedSet>>,
    estimate: Real,
) -> HonestIdentifiedSet {
    if any_solved(sets) {
        hull_of(sets, sets.len() as int)
    } else {
        HonestIdentifiedSet { lb: estimate, ub: estimate }
    }
}

proof fn hull_holds_branch(sets: Seq<Option<HonestIdentifiedSet>>, i: int, end: int)
    requires
        0 <= i < end <= sets.len(),
        sets[i] is Some,
        !sets[i]->Some_0.lb.nan(),
        !sets[i]->Some_0.ub.nan(),
    ensures
        hull_of(sets, end).lb.le(sets[i]->Some_0.lb),
        sets[i]->Some_0.ub.le(hull_of(sets, end).ub),
    decreases end,
{
    if i < end - 1 {
        hull_holds_branch(sets, i, end - 1);
    }
}

/// The identified set of a union holds the set of each of its branches whose
/// ends are numbers.
pub proof fn union_holds_every_branch(
    sets: Seq<Option<HonestIdentifiedSet>>,
    estimate: Real,
    i: int,
)
    requires
        0 <= i < sets.len(),
        sets[i] is Some,
        !sets[i]->Some_0.lb.nan(),
        !sets[i]->Some_0.ub.nan(),
    ensures
        union_of(sets, estimate).lb.le(sets[i]->Some_0.lb),
        sets[i]->Some_0.ub.le(union_of(sets, estimate).ub),
{
    hull_holds_branch(sets, i, sets.len() as int);
}

/// The identified set of a union of branches; where no branch has one, the
/// estimate alone.
pub fn global_identified_set_from_branch_identified_sets(
    branch_sets: &[Option<HonestIdentifiedSet>],
    estimate: Real,
) -> (set: HonestIdentifiedSet)
    ensures
        set == union_of(branch_sets@, estimate),
{
    let mut hull = HonestIdentifiedSet { lb: Real::infinity(), ub: Real::neg_infinity() };
    let mut solved = false;
    let mut i: usize = 0;
    while i < branch_sets.len()
        invariant
            i <= branch_sets.len(),
            hull == hull_of(branch_sets@, i as int),
            solved == exists|k: int| 0 <= k < i && #[trigger] branch_sets@[k] is Some,
        decreases branch_sets.len() - i,
    {
        if let Some(set) = branch_sets[i] {
            hull = HonestIdentifiedSet { lb: hull.lb.min(set.lb), ub: hull.ub.max(set.ub) };
            solved = true;
            assert(branch_sets@[i as int] is Some);
        }
        i = i + 1;
    }
    if solved {
        hull
    } else {
        HonestIdentifiedSet { lb: estimate, ub: estimate }
    }
}

/// Whether `estimate` is that of a functional.
pub open spec fn estimated<A: StudyArithmetic>(
    data: HonestEventStudyInput,
    weights: Seq<Real>,
    numbers: A,
    estimate: Real,
) -> bool {
    exists|w: Vec<Real>, betas: Vec<Real>| #[trigger]
        numbers.produces(w, betas, estimate) && w@ == weights && betas@ == data.betahat@.skip(
            data.pre_periods@.len() as int,
        )
}

/// The estimate of a functional.
pub fn target_estimate<A: StudyArithmetic>(
    data: &HonestEventStudyInput,
    post_weights: &[Real],
    numbers: &A,
) -> (estimate: Real)
    requires
        data.pre_periods@.len() <= data.betahat@.len(),
        numbers.ready(),
    ensures
        estimated(*data, post_weights@, *numbers, estimate),
{
    let weights = copy_row(post_weights);
    let betas = entries_from(data.betahat.as_slice(), data.num_pre_periods());
    numbers.product(&weights, &betas)
}

/// Whether `answers` are the identified sets of the first branches of a family,
/// of which only the last may be an error.
pub open spec fn branches_solved<A: StudyArithmetic>(
    answers: Seq<Result<Option<HonestIdentifiedSet>, HonestError>>,
    family: RelativeMagnitudeFamily,
    data: HonestEventStudyInput,
    weights: Seq<Real>,
    mbar: Real,
    numbers: A,
) -> bool {
    let listed = family.branches_spec(data.pre_periods@.len() as int);
    &&& answers.len() <= listed.len()
    &&& forall|k: int|
        0 <= k < answers.len() ==> branch_solved(
            #[trigger] answers[k],
            family,
            listed[k],
            data,
            weights,
            mbar,
            numbers,
        )
    &&& forall|k: int| 0 <= k < answers.len() - 1 ==> #[trigger] answers[k] is Ok
    &&& answers.len() < listed.len() ==> answers.len() > 0 && answers.last() is Err
}

/// Whether `answer` is the identified set of a branch: that of the program of
/// its constraints at the bound, with the violations of the pre periods fixed at
/// their coefficients.
pub open spec fn branch_solved<A: StudyArithmetic>(
    answer: Result<Option<HonestIdentifiedSet>, HonestError>,
    family: RelativeMagnitudeFamily,
    branch: RelativeMagnitudeBranch,
    data: HonestEventStudyInput,
    weights: Seq<Real>,
    mbar: Real,
    numbers: A,
) -> bool {
    let num_pre = data.pre_periods@.len() as int;
    let num_post = data.post_periods@.len() as int;
    exists|rows: Vec<Vec<Coefficient>>, values: Vec<Vec<Real>>|
        branches::is_family_matrix(
            rows@,
            family,
            num_pre,
            num_post,
            branch.s as int,
            branch.max_positive,
        ) && #[trigger] functional::valued(rows@, numbers, mbar, values@)
            && conic::branch_identified(
            num_pre,
            num_post,
            data.betahat@,
            weights,
            values@,
            numbers,
            answer,
        )
}

/// The sets among answers that are all without error.
pub open spec fn solved_sets(answers: Seq<Result<Option<HonestIdentifiedSet>, HonestError>>) -> Seq<
    Option<HonestIdentifiedSet>,
> {
    Seq::new(answers.len(), |k: int| answers[k]->Ok_0)
}

/// What the answers of the branches lead to.
pub open spec fn identified_outcome(
    answers: Seq<Result<Option<HonestIdentifiedSet>, HonestError>>,
    estimate: Real,
) -> Result<HonestIdentifiedSet, HonestError> {
    if answers.len() > 0 && answers.last() is Err {
        Err(answers.last()->Err_0)
    } else {
        Ok(union_of(solved_sets(answers), estimate))
    }
}

fn solve_branches<A: StudyArithmetic>(
    family: RelativeMagnitudeFamily,
    data: &HonestEventStudyInput,
    post_weights: &[Real],
    mbar: Real,
    numbers: &A,
) -> (out: (
    Result<Vec<Option<HonestIdentifiedSet>>, HonestError>,
    Ghost<Seq<Result<Option<HonestIdentifiedSet>, HonestError>>>,
))
    requires
        countable(*data),
        data.shaped(),
        post_weights.len() == data.post_periods@.len(),
        numbers.ready(),
    ensures
        branches_solved(out.1@, family, *data, post_weights@, mbar, *numbers),
        match out.0 {
            Ok(sets) => sets@ == solved_sets(out.1@) && !(out.1@.len() > 0 && out.1@.last() is Err),
            Err(error) => out.1@.len() > 0 && out.1@.last() is Err && error
                == out.1@.last()->Err_0,
        },
{
    let num_pre: usize = data.num_pre_periods();
    let num_post: usize = data.num_post_periods();
    let listed = family.branches(num_pre);
    let mut sets: Vec<Option<HonestIdentifiedSet>> = Vec::new();
    let ghost mut answers: Seq<Result<Option<HonestIdentifiedSet>, HonestError>> = Seq::empty();
    let mut k: usize = 0;
    while k < listed.len()
        invariant
            k <= listed.len(),
            num_pre == data.pre_periods@.len(),
            num_post == data.post_periods@.len(),
            num_pre < i64::MAX,
            4 * (num_pre + num_post) + 4 <= usize::MAX,
            data.betahat.len() == num_pre + num_post,
            post_weights.len() == num_post,
            numbers.ready(),
            listed@ == family.branches_spec(num_pre as int),
            sets.len() == k,
            answers.len() == k,
            sets@ == solved_sets(answers),
            forall|i: int| 0 <= i < k ==> #[trigger] answers[i] is Ok,
            forall|i: int|
                0 <= i < k ==> branch_solved(
                    #[trigger] answers[i],
                    family,
                    listed@[i],
                    *data,
                    post_weights@,
                    mbar,
                    *numbers,
                ),
        decreases listed.len() - k,
    {
        let branch = listed[k];
        proof {
            branches::every_listed_branch_is_valid(family, num_pre as int, k as int);
        }
        match family.build_constraint_matrix(num_pre, num_post, branch) {
            Err(error) => {
                assert(false);
                return (Err(error), Ghost(answers));
            },
            Ok(rows) => {
                let values = matrix_values(rows.as_slice(), numbers, mbar);
                let answer = solve_relative_magnitude_branch_with_matrix(
                    num_pre,
                    num_post,
                    data.betahat.as_slice(),
                    post_weights,
                    values.as_slice(),
                    numbers,
                );
                assert(functional::valued(rows@, *numbers, mbar, values@));
                assert(branch_solved(
                    answer,
                    family,
                    branch,
                    *data,
                    post_weights@,
                    mbar,
                    *numbers,
                ));
                let ghost longer = answers.push(answer);
                match answer {
                    Err(error) => {
                        assert(longer.last() == answer);
                        return (Err(error), Ghost(longer));
                    },
                    Ok(set) => {
                        sets.push(set);
                        proof {
                            assert(sets@ =~= solved_sets(longer));
                            answers = longer;
                        }
                    },
                }
            },
        }
        k = k + 1;
    }
    (Ok(sets), Ghost(answers))
}

/// Whether `set` is the identified set of a functional under a restriction:
/// the first fault of the request, the first error of a branch, or the union
/// of the identified sets of the branches.
pub open spec fn identified_by<A: StudyArithmetic>(
    answers: Seq<Result<Option<HonestIdentifiedSet>, HonestError>>,
    estimate: Real,
    family: RelativeMagnitudeFamily,
    data: HonestEventStudyInput,
    weights: Seq<Real>,
    mbar: Real,
    numbers: A,
    set: Result<HonestIdentifiedSet, HonestError>,
) -> bool {
    match request_fault(family, data, weights, mbar) {
        Some(error) => set == Err::<HonestIdentifiedSet, HonestError>(error),
        None => if data.pre_periods@.len() == 0 {
            set == Err::<HonestIdentifiedSet, HonestError>(HonestError::OnePrePeriodRequired)
        } else {
            &&& branches_solved(answers, family, data, weights, mbar, numbers)
            &&& set is Ok ==> estimated(data, weights, numbers, estimate)
            &&& set == identified_outcome(answers, estimate)
        },
    }
}

/// Identified set of a functional under a restriction.
pub fn compute_relative_magnitude_family_identified_set<A: StudyArithmetic>(
    data: &HonestEventStudyInput,
    post_weights: &[Real],
    mbar: Real,
    family: RelativeMagnitudeFamily,
    numbers: &A,
) -> (set: Result<HonestIdentifiedSet, HonestError>)
    requires
        countable(*data),
        numbers.ready(),
    ensures
        exists|answers: Seq<Result<Option<HonestIdentifiedSet>, HonestError>>, estimate: Real| #[trigger]
            identified_by(
                answers,
                estimate,
                family,
                *data,
                post_weights@,
                mbar,
                *numbers,
                set,
            ),
{
    let ghost none: Seq<Result<Option<HonestIdentifiedSet>, HonestError>> = Seq::empty();
    let ghost unasked: Real = Real::zero_spec();
    match validate_relative_magnitude_family_inputs(family, data, post_weights, mbar) {
        Err(error) => {
            assert(identified_by(
                none,
                unasked,
                family,
                *data,
                post_weights@,
                mbar,
                *numbers,
                Err(error),
            ));
            return Err(error);
        },
        Ok(()) => {},
    }
    proof {
        input::valid_input_is_shaped(*data);
    }
    if data.num_pre_periods() == 0 {
        let error = HonestError::OnePrePeriodRequired;
        assert(identified_by(
            none,
            unasked,
            family,
            *data,
            post_weights@,
            mbar,
            *numbers,
            Err(error),
        ));
        return Err(error);
    }
    let (solved, Ghost(answers)) = solve_branches(family, data, post_weights, mbar, numbers);
    match solved {
        Err(error) => {
            assert(identified_by(
                answers,
                unasked,
                family,
                *data,
                post_weights@,
                mbar,
                *numbers,
                Err(error),
            ));
            Err(error)
        },
        Ok(sets) => {
            let estimate = target_estimate(data, post_weights, numbers);
            let set = global_identified_set_from_branch_identified_sets(sets.as_slice(), estimate);
            assert(identified_by(
                answers,
                estimate,
                family,
                *data,
                post_weights@,
                mbar,
                *numbers,
                Ok(set),
            ));
            Ok(set)
        },
    }
}

// ---------------------------------------------------------------------------
// Confidence sets
// ---------------------------------------------------------------------------

/// Whether a branch was searched like this, from a common anchor and without
/// memory of critical values.
pub open spec fn branch_searched<
    E: TestArithmetic,
>(
    run: BranchRun,
    config: RelativeMagnitudeConfidenceSetConfig,
    branch: usize,
    grid: Seq<Real>,
    tests: BranchTests<'_, E>,
) -> bool {
    &&& match config.hybrid {
        RelativeMagnitudeHybrid::ArpOnly => run.lf_cv == Ok::<Real, String>(
            Real::infinity_spec(),
        ),
        RelativeMagnitudeHybrid::LeastFavorable => tests.limits(branch, run.lf_cv),
    }
    &&& match run.lf_cv {
        Err(message) => run.outcome == BranchOutcome::Failed(message),
        Ok(cv) => {
            &&& branch_search::branch_explains(
                run.answers,
                tests,
                branch,
                cv,
                grid,
                adaptive_grid::clamped_anchor(run.anchor as int, grid.len() as int),
                run.searched(grid.len() as int),
            )
            &&& run.outcome == (match run.searched(grid.len() as int) {
                Err(message) => BranchOutcome::Failed(message),
                Ok((range, diagnostics)) => BranchOutcome::Searched(range, diagnostics),
            })
        },
    }
}

/// Whether all branches up to the first failure were searched from one anchor.
pub open spec fn branches_searched<
    E: TestArithmetic,
>(
    runs: Seq<BranchRun>,
    config: RelativeMagnitudeConfidenceSetConfig,
    count: int,
    grid: Seq<Real>,
    anchor: usize,
    tests: BranchTests<'_, E>,
) -> bool {
    &&& runs.len() <= count
    &&& forall|k: int|
        0 <= k < runs.len() ==> (#[trigger] runs[k]).anchor == anchor && branch_searched(
            runs[k],
            config,
            k as usize,
            grid,
            tests,
        )
    &&& forall|k: int| 0 <= k < runs.len() - 1 ==> (#[trigger] runs[k]).outcome !is Failed
    &&& runs.len() < count ==> runs.len() > 0 && runs.last().outcome is Failed
}

/// The confidence set that the searches of all branches lead to.
pub open spec fn confidence_outcome(
    runs: Seq<BranchRun>,
    grid: Seq<Real>,
    empty: HonestError,
) -> Result<HonestConditionalConfidenceSet, HonestError> {
    if runs.len() > 0 && runs.last().outcome is Failed {
        Err(HonestError::Numerical { message: runs.last().outcome->Failed_0 })
    } else {
        match branch_search::merged_range(
            branch_search::outcomes_of(runs),
            runs.len() as int,
        ) {
            None => Err(empty),
            Some(range) => Ok(
                HonestConditionalConfidenceSet {
                    lb: grid[range.lower_idx as int],
                    ub: grid[range.upper_idx as int],
                },
            ),
        }
    }
}

fn search_one_branch<
    E: TestArithmetic,
>(
    config: RelativeMagnitudeConfidenceSetConfig,
    branch: usize,
    grid: &[Real],
    anchor: usize,
    tests: &BranchTests<'_, E>,
) -> (out: (Result<Option<AcceptedGridRange>, String>, Ghost<BranchRun>))
    requires
        grid.len() > 0,
        tests.ready(branch + 1),
    ensures
        out.1@.anchor == anchor,
        branch_searched(out.1@, config, branch, grid@, *tests),
        match out.0 {
            Err(message) => out.1@.outcome == BranchOutcome::Failed(message),
            Ok(range) => out.1@.outcome is Searched && out.1@.outcome->Searched_0 == range,
        },
        out.0 matches Ok(Some(range)) ==> range.lower_idx < grid.len() && range.upper_idx
            < grid.len(),
{
    let ghost mut run: BranchRun = arbitrary();
    let lf_cv = match config.hybrid {
        RelativeMagnitudeHybrid::ArpOnly => Ok(Real::infinity()),
        RelativeMagnitudeHybrid::LeastFavorable => tests.critical(branch),
    };
    proof {
        run.anchor = anchor;
        run.lf_cv = lf_cv;
    }
    let cv = match lf_cv {
        Err(message) => {
            proof {
                run.outcome = BranchOutcome::Failed(message);
            }
            return (Err(message), Ghost(run));
        },
        Ok(cv) => cv,
    };
    let searched = compute_relative_magnitude_branch_accepted_range_adaptive(
        grid,
        anchor,
        branch,
        cv,
        tests,
    );
    proof {
        let place = adaptive_grid::clamped_anchor(anchor as int, grid.len() as int);
        let answers = choose|answers: Seq<Result<bool, String>>| #[trigger]
            branch_search::branch_explains(
                answers,
                *tests,
                branch,
                cv,
                grid@,
                place,
                searched,
            );
        run.answers = answers;
        assert(run.searched(grid.len() as int) == searched);
        let said = searched;
        match said {
            Err(message) => {
                run.outcome = BranchOutcome::Failed(message);
            },
            Ok((range, diagnostics)) => {
                run.outcome = BranchOutcome::Searched(range, diagnostics);
                if let Some(found) = range {
                    adaptive_grid::returned_range_has_sharp_ends(answers, place);
                }
            },
        }
    }
    match searched {
        Err(message) => (Err(message), Ghost(run)),
        Ok((range, _)) => (Ok(range), Ghost(run)),
    }
}

/// Searches every branch and merges what they accept.
pub fn search_every_branch<
    E: TestArithmetic,
>(
    config: RelativeMagnitudeConfidenceSetConfig,
    count: usize,
    grid: &[Real],
    anchor: usize,
    tests: &BranchTests<'_, E>,
    empty: HonestError,
) -> (set: Result<HonestConditionalConfidenceSet, HonestError>)
    requires
        grid.len() > 0,
        tests.ready(count as int),
    ensures
        exists|runs: Seq<BranchRun>| #[trigger]
            branches_searched(
                runs,
                config,
                count as int,
                grid@,
                anchor,
                *tests,
            ) && set == confidence_outcome(runs, grid@, empty),
{
    let ghost mut runs: Seq<BranchRun> = Seq::empty();
    let mut merged: Option<AcceptedGridRange> = None;
    let mut k: usize = 0;
    while k < count
        invariant
            k <= count,
            grid.len() > 0,
            runs.len() == k,
            forall|i: int|
                0 <= i < k ==> (#[trigger] runs[i]).anchor == anchor && branch_searched(
                    runs[i],
                    config,
                    i as usize,
                    grid@,
                    *tests,
                ),
            forall|i: int| 0 <= i < k ==> (#[trigger] runs[i]).outcome !is Failed,
            merged == branch_search::merged_range(branch_search::outcomes_of(runs), k as int),
            merged is Some ==> merged->Some_0.lower_idx < grid.len() && merged->Some_0.upper_idx
                < grid.len(),
            tests.ready(count as int),
        decreases count - k,
    {
        let (range, Ghost(run)) = search_one_branch(
            config,
            k,
            grid,
            anchor,
            tests,
        );
        let ghost longer = runs.push(run);
        proof {
            assert(branch_search::outcomes_of(longer) =~= branch_search::outcomes_of(runs).push(
                run.outcome,
            ));
            branch_search::prefix_keeps_merge(
                branch_search::outcomes_of(runs),
                run.outcome,
                k as int,
                grid.len() as int,
            );
            assert(longer.last() == run);
            runs = longer;
        }
        match range {
            Err(message) => {
                assert(branches_searched(
                    runs,
                    config,
                    count as int,
                    grid@,
                    anchor,
                    *tests,
                ));
                return Err(HonestError::Numerical { message });
            },
            Ok(None) => {},
            Ok(Some(found)) => {
                merge_accepted_range(&mut merged, found);
            },
        }
        k = k + 1;
    }
    assert(branches_searched(
        runs,
        config,
        count as int,
        grid@,
        anchor,
        *tests,
    ));
    match merged {
        None => Err(empty),
        Some(range) => Ok(
            HonestConditionalConfidenceSet {
                lb: grid[range.lower_idx],
                ub: grid[range.upper_idx],
            },
        ),
    }
}

/// What a confidence set was computed from.
pub struct ConfidenceRun {
    /// Confidence set under parallel trends.
    pub original: Result<HonestOriginalConfidenceSet, HonestError>,
    /// Identified sets of the branches.
    pub answers: Seq<Result<Option<HonestIdentifiedSet>, HonestError>>,
    /// Estimate of the functional.
    pub estimate: Real,
    /// Identified set.
    pub identified: Result<HonestIdentifiedSet, HonestError>,
    /// Basis whose first element is the functional.
    pub gamma: Vec<Vec<Real>>,
    /// Its inverse.
    pub inverse: Result<Vec<Vec<Real>>, String>,
    /// Transform of the functional.
    pub transform: Result<RelativeMagnitudePreparedFunctionalTransform, HonestError>,
    /// The grid.
    pub grid: Vec<Real>,
    /// Distances of the grid points from the estimate.
    pub gaps: Vec<Real>,
    /// Index from which the branches were searched.
    pub anchor: usize,
    /// The branches.
    pub prepared: Seq<RelativeMagnitudePreparedBranch>,
    /// Their moments.
    pub inputs: Seq<RelativeMagnitudePreparedInputBranch>,
    /// Their rows for the functional.
    pub functionals: Seq<RelativeMagnitudePreparedFunctionalBranch>,
    /// What the branches are tested by.
    pub moments: Vec<Moments>,
    /// Searches of the branches.
    pub runs: Seq<BranchRun>,
}

impl ConfidenceRun {
    /// Whether the moments of the branches are those of a family of branches and
    /// of a transformed functional.
    pub open spec fn moments_made<A: StudyArithmetic>(
        self,
        family: RelativeMagnitudeFamily,
        data: HonestEventStudyInput,
        mbar: Real,
        transform: RelativeMagnitudePreparedFunctionalTransform,
        numbers: A,
    ) -> bool {
        &&& functional::branches_prepared(
            self.prepared,
            family,
            data.pre_periods@.len() as int,
            data.post_periods@.len() as int,
            numbers,
            mbar,
        )
        &&& self.inputs.len() == self.prepared.len()
        &&& forall|i: int|
            0 <= i < self.inputs.len() ==> functional::has_moments(
                #[trigger] self.inputs[i],
                self.prepared[i],
                data.betahat,
                data.covariance,
                numbers,
            )
        &&& functional::functional_branches_of(
            self.functionals,
            self.prepared,
            self.inputs,
            transform,
            numbers,
        )
        &&& inversion::all_moments_from(self.moments@, self.inputs, self.functionals)
    }

    /// Whether the grid and the searches are those of given sets.
    pub open spec fn inverted<A: StudyArithmetic>(
        self,
        family: RelativeMagnitudeFamily,
        data: HonestEventStudyInput,
        weights: Seq<Real>,
        mbar: Real,
        alpha: Real,
        config: RelativeMagnitudeConfidenceSetConfig,
        original: HonestOriginalConfidenceSet,
        identified: HonestIdentifiedSet,
        numbers: A,
        set: Result<HonestConditionalConfidenceSet, HonestError>,
    ) -> bool {
        let num_post = data.post_periods@.len();
        let tests = BranchTests {
            arithmetic: &numbers.tester(),
            moments: &self.moments,
            alpha,
            kappa: config.hybrid_kappa,
        };
        if weights.len() != num_post {
            set == Err::<HonestConditionalConfidenceSet, HonestError>(
                HonestError::PostWeightCount {
                    found: weights.len() as usize,
                    expected: num_post as usize,
                },
            )
        } else {
        &&& functional::transform_of(
            weights,
            numbers,
            self.gamma,
            self.inverse,
            self.transform,
        )
        &&& match self.transform {
            Err(error) => set == Err::<HonestConditionalConfidenceSet, HonestError>(error),
            Ok(transform) => {
                &&& self.moments_made(family, data, mbar, transform, numbers)
                &&& grids::is_grid_around(original, identified, numbers, self.grid@)
                &&& numbers.lies_off(self.grid, original.estimate, self.gaps)
                &&& if self.gaps.len() == 0 {
                    self.anchor == 0
                } else {
                    adaptive_grid::nearest_index(self.gaps@, self.anchor as int)
                }
                &&& branches_searched(
                    self.runs,
                    config,
                    family.branches_spec(data.pre_periods@.len() as int).len() as int,
                    self.grid@,
                    self.anchor,
                    tests,
                )
                &&& set == confidence_outcome(self.runs, self.grid@, family.empty_spec())
            },
        }
        }
    }

    /// Whether `set` is the confidence set of a request.
    pub open spec fn explains<A: StudyArithmetic>(
        self,
        family: RelativeMagnitudeFamily,
        data: HonestEventStudyInput,
        weights: Seq<Real>,
        mbar: Real,
        inference: InferenceConfig,
        config: RelativeMagnitudeConfidenceSetConfig,
        numbers: A,
        set: Result<HonestConditionalConfidenceSet, HonestError>,
    ) -> bool {
        match request_fault(family, data, weights, mbar) {
            Some(error) => set == Err::<HonestConditionalConfidenceSet, HonestError>(error),
            None => match config.fault(inference) {
                Some(error) => set == Err::<HonestConditionalConfidenceSet, HonestError>(error),
                None => {
                    &&& prepared::is_original(data, weights, inference, numbers, self.original)
                    &&& identified_by(
                        self.answers,
                        self.estimate,
                        family,
                        data,
                        weights,
                        mbar,
                        numbers,
                        self.identified,
                    )
                    &&& self.original is Ok
                    &&& match self.identified {
                        Err(error) => set == Err::<HonestConditionalConfidenceSet, HonestError>(
                            error,
                        ),
                        Ok(identified) => self.inverted(
                            family,
                            data,
                            weights,
                            mbar,
                            inference.alpha,
                            config,
                            self.original->Ok_0,
                            identified,
                            numbers,
                            set,
                        ),
                    }
                },
            },
        }
    }
}

/// A transform applies to rows of as many entries as there are weights.
proof fn transform_applies<A: StudyArithmetic>(
    weights: Seq<Real>,
    numbers: A,
    transform: RelativeMagnitudePreparedFunctionalTransform,
)
    requires
        exists|gamma: Vec<Vec<Real>>, inverse: Result<Vec<Vec<Real>>, String>| #[trigger]
            functional::transform_of(weights, numbers, gamma, inverse, Ok(transform)),
    ensures
        functional::applies(transform, weights.len() as int),
{
    let (gamma, inverse) = choose|
        gamma: Vec<Vec<Real>>,
        inverse: Result<Vec<Vec<Real>>, String>,
    | #[trigger]
        functional::transform_of(weights, numbers, gamma, inverse, Ok(transform));
    assert(functional::transform_of(weights, numbers, gamma, inverse, Ok(transform)));
    if exists|i: int| input::selects(weights, i) {
        let i = choose|i: int| input::selects(weights, i);
        assert(input::selects(weights, i));
    } else {
        assert(input::first_weight(weights, 0) is Some);
        assert(weights.len() > 0);
        assert(transform is General);
    }
}

/// Confidence set of a functional, given its other sets.
pub fn compute_relative_magnitude_family_conditional_cs_with_precomputed_sets<A: StudyArithmetic>(
    data: &HonestEventStudyInput,
    post_weights: &[Real],
    mbar: Real,
    alpha: Real,
    config: RelativeMagnitudeConfidenceSetConfig,
    original: HonestOriginalConfidenceSet,
    identified: HonestIdentifiedSet,
    family: RelativeMagnitudeFamily,
    numbers: &A,
) -> (set: Result<HonestConditionalConfidenceSet, HonestError>)
    requires
        countable(*data),
        numbers.ready(),
    ensures
        exists|run: ConfidenceRun| #[trigger]
            run.inverted(
                family,
                *data,
                post_weights@,
                mbar,
                alpha,
                config,
                original,
                identified,
                *numbers,
                set,
            ),
{
    let ghost mut run: ConfidenceRun = arbitrary();
    let num_pre: usize = data.num_pre_periods();
    let num_post: usize = data.num_post_periods();
    if post_weights.len() != num_post {
        let error = HonestError::PostWeightCount { found: post_weights.len(), expected: num_post };
        assert(run.inverted(
            family,
            *data,
            post_weights@,
            mbar,
            alpha,
            config,
            original,
            identified,
            *numbers,
            Err(error),
        ));
        return Err(error);
    }
    let transform = prepare_relative_magnitude_functional_transform(post_weights, numbers);
    proof {
        let (gamma, inverse) = choose|
            gamma: Vec<Vec<Real>>,
            inverse: Result<Vec<Vec<Real>>, String>,
        | #[trigger]
            functional::transform_of(post_weights@, *numbers, gamma, inverse, transform);
        run.gamma = gamma;
        run.inverse = inverse;
        run.transform = transform;
    }
    let transform = match transform {
        Err(error) => {
            assert(run.inverted(
                family,
                *data,
                post_weights@,
                mbar,
                alpha,
                config,
                original,
                identified,
                *numbers,
                Err(error),
            ));
            return Err(error);
        },
        Ok(transform) => transform,
    };
    let prepared = match prepare_relative_magnitude_branches(
        family,
        num_pre,
        num_post,
        numbers,
        mbar,
    ) {
        Ok(prepared) => prepared,
        Err(error) => {
            assert(false);
            return Err(error);
        },
    };
    proof {
        assert forall|i: int| 0 <= i < prepared.len() implies functional::branch_shaped(
            #[trigger] prepared@[i],
            num_post as int,
        ) by {
            functional::prepared_branches_are_shaped(
                prepared@,
                family,
                num_pre as int,
                num_post as int,
                *numbers,
                mbar,
                i,
            );
        }
        transform_applies(post_weights@, *numbers, transform);
    }
    let inputs = prepare_relative_magnitude_input_branches(
        prepared.as_slice(),
        &data.betahat,
        &data.covariance,
        numbers,
    );
    proof {
        assert forall|i: int| 0 <= i < prepared.len() implies inputs@[i].sd_arp.len() >= (
        #[trigger] prepared@[i]).rows_for_arp.len() by {
            assert(functional::has_moments(
                inputs@[i],
                prepared@[i],
                data.betahat,
                data.covariance,
                *numbers,
            ));
        }
    }
    let functionals = functional_branches_by_transform(
        prepared.as_slice(),
        inputs.as_slice(),
        &transform,
        numbers,
        num_post,
    );
    let moments = gather_moments(inputs.as_slice(), functionals.as_slice());
    let tests = BranchTests {
        arithmetic: numbers.tests(),
        moments: &moments,
        alpha,
        kappa: config.hybrid_kappa,
    };
    proof {
        run.prepared = prepared@;
        run.inputs = inputs@;
        run.functionals = functionals@;
        run.moments = moments;
    }
    let grid = grid_around_identified_set(original, identified, numbers);
    let gaps = numbers.distances(&grid, original.estimate);
    let anchor: usize = nearest_grid_index(gaps.as_slice());
    let set = search_every_branch(
        config,
        prepared.len(),
        grid.as_slice(),
        anchor,
        &tests,
        family.empty_error(),
    );
    proof {
        let runs = choose|runs: Seq<BranchRun>| #[trigger]
            branches_searched(
                runs,
                config,
                prepared.len() as int,
                grid@,
                anchor,
                tests,
            ) && set == confidence_outcome(runs, grid@, family.empty_spec());
        run.grid = grid;
        run.gaps = gaps;
        run.anchor = anchor;
        run.runs = runs;
        assert(run.moments_made(family, *data, mbar, transform, *numbers));
        assert(run.inverted(
            family,
            *data,
            post_weights@,
            mbar,
            alpha,
            config,
            original,
            identified,
            *numbers,
            set,
        ));
    }
    set
}

/// Confidence set of a functional under a restriction.
pub fn compute_relative_magnitude_family_conditional_cs_with_config<A: StudyArithmetic>(
    data: &HonestEventStudyInput,
    post_weights: &[Real],
    mbar: Real,
    inference: InferenceConfig,
    config: RelativeMagnitudeConfidenceSetConfig,
    family: RelativeMagnitudeFamily,
    numbers: &A,
) -> (set: Result<HonestConditionalConfidenceSet, HonestError>)
    requires
        countable(*data),
        numbers.ready(),
    ensures
        exists|run: ConfidenceRun| #[trigger]
            run.explains(
                family,
                *data,
                post_weights@,
                mbar,
                inference,
                config,
                *numbers,
                set,
            ),
{
    let ghost mut run: ConfidenceRun = arbitrary();
    match validate_relative_magnitude_family_inputs(family, data, post_weights, mbar) {
        Err(error) => {
            assert(run.explains(
                family,
                *data,
                post_weights@,
                mbar,
                inference,
                config,
                *numbers,
                Err(error),
            ));
            return Err(error);
        },
        Ok(()) => {},
    }
    match config.validate(inference) {
        Err(error) => {
            assert(run.explains(
                family,
                *data,
                post_weights@,
                mbar,
                inference,
                config,
                *numbers,
                Err(error),
            ));
            return Err(error);
        },
        Ok(()) => {},
    }
    let measured = compute_original_confidence_set(data, post_weights, inference, numbers);
    let found = compute_relative_magnitude_family_identified_set(
        data,
        post_weights,
        mbar,
        family,
        numbers,
    );
    proof {
        let (answers, estimate) = choose|
            answers: Seq<Result<Option<HonestIdentifiedSet>, HonestError>>,
            estimate: Real,
        | #[trigger]
            identified_by(
                answers,
                estimate,
                family,
                *data,
                post_weights@,
                mbar,
                *numbers,
                found,
            );
        run.original = measured;
        run.answers = answers;
        run.estimate = estimate;
        run.identified = found;
    }
    let original = match measured {
        Err(error) => {
            assert(false);
            return Err(error);
        },
        Ok(original) => original,
    };
    match found {
        Err(error) => {
            assert(run.explains(
                family,
                *data,
                post_weights@,
                mbar,
                inference,
                config,
                *numbers,
                Err(error),
            ));
            Err(error)
        },
        Ok(identified) => {
            let set = compute_relative_magnitude_family_conditional_cs_with_precomputed_sets(
                data,
                post_weights,
                mbar,
                inference.alpha,
                config,
                original,
                identified,
                family,
                numbers,
            );
            proof {
                let inner = choose|inner: ConfidenceRun| #[trigger]
                    inner.inverted(
                        family,
                        *data,
                        post_weights@,
                        mbar,
                        inference.alpha,
                        config,
                        original,
                        identified,
                        *numbers,
                        set,
                    );
                run.gamma = inner.gamma;
                run.inverse = inner.inverse;
                run.transform = inner.transform;
                run.grid = inner.grid;
                run.gaps = inner.gaps;
                run.anchor = inner.anchor;
                run.prepared = inner.prepared;
                run.inputs = inner.inputs;
                run.functionals = inner.functionals;
                run.moments = inner.moments;
                run.runs = inner.runs;
                assert(run.inverted(
                    family,
                    *data,
                    post_weights@,
                    mbar,
                    inference.alpha,
                    config,
                    original,
                    identified,
                    *numbers,
                    set,
                ));
                assert(run.explains(
                    family,
                    *data,
                    post_weights@,
                    mbar,
                    inference,
                    config,
                    *numbers,
                    set,
                ));
            }
            set
        },
    }
}

// ---------------------------------------------------------------------------
// The restrictions by name
// ---------------------------------------------------------------------------

/// Identified set under a bound on deviations from parallel trends.
pub fn compute_relative_magnitude_identified_set<A: StudyArithmetic>(
    data: &HonestEventStudyInput,
    post_weights: &[Real],
    mbar: Real,
    numbers: &A,
) -> (set: Result<HonestIdentifiedSet, HonestError>)
    requires
        countable(*data),
        numbers.ready(),
    ensures
        exists|answers: Seq<Result<Option<HonestIdentifiedSet>, HonestError>>, estimate: Real| #[trigger]
            identified_by(
                answers,
                estimate,
                RelativeMagnitudeFamily::Base,
                *data,
                post_weights@,
                mbar,
                *numbers,
                set,
            ),
{
    compute_relative_magnitude_family_identified_set(
        data,
        post_weights,
        mbar,
        RelativeMagnitudeFamily::Base,
        numbers,
    )
}

/// Confidence set under a bound on deviations from parallel trends,
/// with the default settings.
pub fn compute_relative_magnitude_confidence_set<A: StudyArithmetic>(
    data: &HonestEventStudyInput,
    post_weights: &[Real],
    mbar: Real,
    inference: InferenceConfig,
    numbers: &A,
) -> (set: Result<HonestConditionalConfidenceSet, HonestError>)
    requires
        countable(*data),
        numbers.ready(),
    ensures
        exists|run: ConfidenceRun| #[trigger]
            run.explains(
                RelativeMagnitudeFamily::Base,
                *data,
                post_weights@,
                mbar,
                inference,
                RelativeMagnitudeConfidenceSetConfig::from_inference_spec(inference),
                *numbers,
                set,
            ),
{
    compute_relative_magnitude_family_conditional_cs_with_config(
        data,
        post_weights,
        mbar,
        inference,
        RelativeMagnitudeConfidenceSetConfig::from_inference(inference),
        RelativeMagnitudeFamily::Base,
        numbers,
    )
}

/// Confidence set under a bound on deviations from parallel trends,
/// with given settings.
pub fn compute_relative_magnitude_confidence_set_with_config<A: StudyArithmetic>(
    data: &HonestEventStudyInput,
    post_weights: &[Real],
    mbar: Real,
    inference: InferenceConfig,
    config: RelativeMagnitudeConfidenceSetConfig,
    numbers: &A,
) -> (set: Result<HonestConditionalConfidenceSet, HonestError>)
    requires
        countable(*data),
        numbers.ready(),
    ensures
        exists|run: ConfidenceRun| #[trigger]
            run.explains(
                RelativeMagnitudeFamily::Base,
                *data,
                post_weights@,
                mbar,
                inference,
                config,
                *numbers,
                set,
            ),
{
    compute_relative_magnitude_family_conditional_cs_with_config(
        data,
        post_weights,
        mbar,
        inference,
        config,
        RelativeMagnitudeFamily::Base,
        numbers,
    )
}

/// Identified set under a bound on deviations from parallel trends with signed
/// violations.
pub fn compute_signed_relative_magnitude_identified_set<A: StudyArithmetic>(
    data: &HonestEventStudyInput,
    post_weights: &[Real],
    mbar: Real,
    bias_direction: HonestBiasDirection,
    numbers: &A,
) -> (set: Result<HonestIdentifiedSet, HonestError>)
    requires
        countable(*data),
        numbers.ready(),
    ensures
        exists|answers: Seq<Result<Option<HonestIdentifiedSet>, HonestError>>, estimate: Real| #[trigger]
            identified_by(
                answers,
                estimate,
                RelativeMagnitudeFamily::SignedBase(bias_direction),
                *data,
                post_weights@,
                mbar,
                *numbers,
                set,
            ),
{
    compute_relative_magnitude_family_identified_set(
        data,
        post_weights,
        mbar,
        RelativeMagnitudeFamily::SignedBase(bias_direction),
        numbers,
    )
}

/// Confidence set under a bound on deviations from parallel trends with signed
/// violations,
/// with the default settings.
pub fn compute_signed_relative_magnitude_confidence_set<A: StudyArithmetic>(
    data: &HonestEventStudyInput,
    post_weights: &[Real],
    mbar: Real,
    bias_direction: HonestBiasDirection,
    inference: InferenceConfig,
    numbers: &A,
) -> (set: Result<HonestConditionalConfidenceSet, HonestError>)
    requires
        countable(*data),
        numbers.ready(),
    ensures
        exists|run: ConfidenceRun| #[trigger]
            run.explains(
                RelativeMagnitudeFamily::SignedBase(bias_direction),
                *data,
                post_weights@,
                mbar,
                inference,
                RelativeMagnitudeConfidenceSetConfig::from_inference_spec(inference),
                *numbers,
                set,
            ),
{
    compute_relative_magnitude_family_conditional_cs_with_config(
        data,
        post_weights,
        mbar,
        inference,
        RelativeMagnitudeConfidenceSetConfig::from_inference(inference),
        RelativeMagnitudeFamily::SignedBase(bias_direction),
        numbers,
    )
}

/// Confidence set under a bound on deviations from parallel trends with signed
/// violations,
/// with given settings.
pub fn compute_signed_relative_magnitude_confidence_set_with_config<A: StudyArithmetic>(
    data: &HonestEventStudyInput,
    post_weights: &[Real],
    mbar: Real,
    bias_direction: HonestBiasDirection,
    inference: InferenceConfig,
    config: RelativeMagnitudeConfidenceSetConfig,
    numbers: &A,
) -> (set: Result<HonestConditionalConfidenceSet, HonestError>)
    requires
        countable(*data),
        numbers.ready(),
    ensures
        exists|run: ConfidenceRun| #[trigger]
            run.explains(
                RelativeMagnitudeFamily::SignedBase(bias_direction),
                *data,
                post_weights@,
                mbar,
                inference,
                config,
                *numbers,
                set,
            ),
{
    compute_relative_magnitude_family_conditional_cs_with_config(
        data,
        post_weights,
        mbar,
        inference,
        config,
        RelativeMagnitudeFamily::SignedBase(bias_direction),
        numbers,
    )
}

/// Identified set under a bound on deviations from parallel trends with monotone
/// violations.
pub fn compute_monotone_relative_magnitude_identified_set<A: StudyArithmetic>(
    data: &HonestEventStudyInput,
    post_weights: &[Real],
    mbar: Real,
    monotonicity_direction: HonestMonotonicityDirection,
    numbers: &A,
) -> (set: Result<HonestIdentifiedSet, HonestError>)
    requires
        countable(*data),
        numbers.ready(),
    ensures
        exists|answers: Seq<Result<Option<HonestIdentifiedSet>, HonestError>>, estimate: Real| #[trigger]
            identified_by(
                answers,
                estimate,
                RelativeMagnitudeFamily::MonotoneBase(monotonicity_direction),
                *data,
                post_weights@,
                mbar,
                *numbers,
                set,
            ),
{
    compute_relative_magnitude_family_identified_set(
        data,
        post_weights,
        mbar,
        RelativeMagnitudeFamily::MonotoneBase(monotonicity_direction),
        numbers,
    )
}

/// Confidence set under a bound on deviations from parallel trends with monotone
/// violations,
/// with the default settings.
pub fn compute_monotone_relative_magnitude_confidence_set<A: StudyArithmetic>(
    data: &HonestEventStudyInput,
    post_weights: &[Real],
    mbar: Real,
    monotonicity_direction: HonestMonotonicityDirection,
    inference: InferenceConfig,
    numbers: &A,
) -> (set: Result<HonestConditionalConfidenceSet, HonestError>)
    requires
        countable(*data),
        numbers.ready(),
    ensures
        exists|run: ConfidenceRun| #[trigger]
            run.explains(
                RelativeMagnitudeFamily::MonotoneBase(monotonicity_direction),
                *data,
                post_weights@,
                mbar,
                inference,
                RelativeMagnitudeConfidenceSetConfig::from_inference_spec(inference),
                *numbers,
                set,
            ),
{
    compute_relative_magnitude_family_conditional_cs_with_config(
        data,
        post_weights,
        mbar,
        inference,
        RelativeMagnitudeConfidenceSetConfig::from_inference(inference),
        RelativeMagnitudeFamily::MonotoneBase(monotonicity_direction),
        numbers,
    )
}

/// Confidence set under a bound on deviations from parallel trends with monotone
/// violations,
/// with given settings.
pub fn compute_monotone_relative_magnitude_confidence_set_with_config<A: StudyArithmetic>(
    data: &HonestEventStudyInput,
    post_weights: &[Real],
    mbar: Real,
    monotonicity_direction: HonestMonotonicityDirection,
    inference: InferenceConfig,
    config: RelativeMagnitudeConfidenceSetConfig,
    numbers: &A,
) -> (set: Result<HonestConditionalConfidenceSet, HonestError>)
    requires
        countable(*data),
        numbers.ready(),
    ensures
        exists|run: ConfidenceRun| #[trigger]
            run.explains(
                RelativeMagnitudeFamily::MonotoneBase(monotonicity_direction),
                *data,
                post_weights@,
                mbar,
                inference,
                config,
                *numbers,
                set,
            ),
{
    compute_relative_magnitude_family_conditional_cs_with_config(
        data,
        post_weights,
        mbar,
        inference,
        config,
        RelativeMagnitudeFamily::MonotoneBase(monotonicity_direction),
        numbers,
    )
}

/// Identified set under a bound on deviations from a linear trend.
pub fn compute_linear_trend_relative_magnitude_identified_set<A: StudyArithmetic>(
    data: &HonestEventStudyInput,
    post_weights: &[Real],
    mbar: Real,
    numbers: &A,
) -> (set: Result<HonestIdentifiedSet, HonestError>)
    requires
        countable(*data),
        numbers.ready(),
    ensures
        exists|answers: Seq<Result<Option<HonestIdentifiedSet>, HonestError>>, estimate: Real| #[trigger]
            identified_by(
                answers,
                estimate,
                RelativeMagnitudeFamily::Linear,
                *data,
                post_weights@,
                mbar,
                *numbers,
                set,
            ),
{
    compute_relative_magnitude_family_identified_set(
        data,
        post_weights,
        mbar,
        RelativeMagnitudeFamily::Linear,
        numbers,
    )
}

/// Confidence set under a bound on deviations from a linear trend,
/// with the default settings.
pub fn compute_linear_trend_relative_magnitude_confidence_set<A: StudyArithmetic>(
    data: &HonestEventStudyInput,
    post_weights: &[Real],
    mbar: Real,
    inference: InferenceConfig,
    numbers: &A,
) -> (set: Result<HonestConditionalConfidenceSet, HonestError>)
    requires
        countable(*data),
        numbers.ready(),
    ensures
        exists|run: ConfidenceRun| #[trigger]
            run.explains(
                RelativeMagnitudeFamily::Linear,
                *data,
                post_weights@,
                mbar,
                inference,
                RelativeMagnitudeConfidenceSetConfig::from_inference_spec(inference),
                *numbers,
                set,
            ),
{
    compute_relative_magnitude_family_conditional_cs_with_config(
        data,
        post_weights,
        mbar,
        inference,
        RelativeMagnitudeConfidenceSetConfig::from_inference(inference),
        RelativeMagnitudeFamily::Linear,
        numbers,
    )
}

/// Confidence set under a bound on deviations from a linear trend,
/// with given settings.
pub fn compute_linear_trend_relative_magnitude_confidence_set_with_config<A: StudyArithmetic>(
    data: &HonestEventStudyInput,
    post_weights: &[Real],
    mbar: Real,
    inference: InferenceConfig,
    config: RelativeMagnitudeConfidenceSetConfig,
    numbers: &A,
) -> (set: Result<HonestConditionalConfidenceSet, HonestError>)
    requires
        countable(*data),
        numbers.ready(),
    ensures
        exists|run: ConfidenceRun| #[trigger]
            run.explains(
                RelativeMagnitudeFamily::Linear,
                *data,
                post_weights@,
                mbar,
                inference,
                config,
                *numbers,
                set,
            ),
{
    compute_relative_magnitude_family_conditional_cs_with_config(
        data,
        post_weights,
        mbar,
        inference,
        config,
        RelativeMagnitudeFamily::Linear,
        numbers,
    )
}

/// Identified set under a bound on deviations from a linear trend with signed
/// violations.
pub fn compute_signed_linear_trend_relative_magnitude_identified_set<A: StudyArithmetic>(
    data: &HonestEventStudyInput,
    post_weights: &[Real],
    mbar: Real,
    bias_direction: HonestBiasDirection,
    numbers: &A,
) -> (set: Result<HonestIdentifiedSet, HonestError>)
    requires
        countable(*data),
        numbers.ready(),
    ensures
        exists|answers: Seq<Result<Option<HonestIdentifiedSet>, HonestError>>, estimate: Real| #[trigger]
            identified_by(
                answers,
                estimate,
                RelativeMagnitudeFamily::SignedLinear(bias_direction),
                *data,
                post_weights@,
                mbar,
                *numbers,
                set,
            ),
{
    compute_relative_magnitude_family_identified_set(
        data,
        post_weights,
        mbar,
        RelativeMagnitudeFamily::SignedLinear(bias_direction),
        numbers,
    )
}

/// Confidence set under a bound on deviations from a linear trend with signed
/// violations,
/// with the default settings.
pub fn compute_signed_linear_trend_relative_magnitude_confidence_set<A: StudyArithmetic>(
    data: &HonestEventStudyInput,
    post_weights: &[Real],
    mbar: Real,
    bias_direction: HonestBiasDirection,
    inference: InferenceConfig,
    numbers: &A,
) -> (set: Result<HonestConditionalConfidenceSet, HonestError>)
    requires
        countable(*data),
        numbers.ready(),
    ensures
        exists|run: ConfidenceRun| #[trigger]
            run.explains(
                RelativeMagnitudeFamily::SignedLinear(bias_direction),
                *data,
                post_weights@,
                mbar,
                inference,
                RelativeMagnitudeConfidenceSetConfig::from_inference_spec(inference),
                *numbers,
                set,
            ),
{
    compute_relative_magnitude_family_conditional_cs_with_config(
        data,
        post_weights,
        mbar,
        inference,
        RelativeMagnitudeConfidenceSetConfig::from_inference(inference),
        RelativeMagnitudeFamily::SignedLinear(bias_direction),
        numbers,
    )
}

/// Confidence set under a bound on deviations from a linear trend with signed
/// violations,
/// with given settings.
pub fn compute_signed_linear_trend_relative_magnitude_confidence_set_with_config<A: StudyArithmetic>(
    data: &HonestEventStudyInput,
    post_weights: &[Real],
    mbar: Real,
    bias_direction: HonestBiasDirection,
    inference: InferenceConfig,
    config: RelativeMagnitudeConfidenceSetConfig,
    numbers: &A,
) -> (set: Result<HonestConditionalConfidenceSet, HonestError>)
    requires
        countable(*data),
        numbers.ready(),
    ensures
        exists|run: ConfidenceRun| #[trigger]
            run.explains(
                RelativeMagnitudeFamily::SignedLinear(bias_direction),
                *data,
                post_weights@,
                mbar,
                inference,
                config,
                *numbers,
                set,
            ),
{
    compute_relative_magnitude_family_conditional_cs_with_config(
        data,
        post_weights,
        mbar,
        inference,
        config,
        RelativeMagnitudeFamily::SignedLinear(bias_direction),
        numbers,
    )
}

/// Identified set under a bound on deviations from a linear trend with monotone
/// violations.
pub fn compute_monotone_linear_trend_relative_magnitude_identified_set<A: StudyArithmetic>(
    data: &HonestEventStudyInput,
    post_weights: &[Real],
    mbar: Real,
    monotonicity_direction: HonestMonotonicityDirection,
    numbers: &A,
) -> (set: Result<HonestIdentifiedSet, HonestError>)
    requires
        countable(*data),
        numbers.ready(),
    ensures
        exists|answers: Seq<Result<Option<HonestIdentifiedSet>, HonestError>>, estimate: Real| #[trigger]
            identified_by(
                answers,
                estimate,
                RelativeMagnitudeFamily::MonotoneLinear(monotonicity_direction),
                *data,
                post_weights@,
                mbar,
                *numbers,
                set,
            ),
{
    compute_relative_magnitude_family_identified_set(
        data,
        post_weights,
        mbar,
        RelativeMagnitudeFamily::MonotoneLinear(monotonicity_direction),
        numbers,
    )
}

/// Confidence set under a bound on deviations from a linear trend with monotone
/// violations,
/// with the default settings.
pub fn compute_monotone_linear_trend_relative_magnitude_confidence_set<A: StudyArithmetic>(
    data: &HonestEventStudyInput,
    post_weights: &[Real],
    mbar: Real,
    monotonicity_direction: HonestMonotonicityDirection,
    inference: InferenceConfig,
    numbers: &A,
) -> (set: Result<HonestConditionalConfidenceSet, HonestError>)
    requires
        countable(*data),
        numbers.ready(),
    ensures
        exists|run: ConfidenceRun| #[trigger]
            run.explains(
                RelativeMagnitudeFamily::MonotoneLinear(monotonicity_direction),
                *data,
                post_weights@,
                mbar,
                inference,
                RelativeMagnitudeConfidenceSetConfig::from_inference_spec(inference),
                *numbers,
                set,
            ),
{
    compute_relative_magnitude_family_conditional_cs_with_config(
        data,
        post_weights,
        mbar,
        inference,
        RelativeMagnitudeConfidenceSetConfig::from_inference(inference),
        RelativeMagnitudeFamily::MonotoneLinear(monotonicity_direction),
        numbers,
    )
}

/// Confidence set under a bound on deviations from a linear trend with monotone
/// violations,
/// with given settings.
pub fn compute_monotone_linear_trend_relative_magnitude_confidence_set_with_config<A: StudyArithmetic>(
    data: &HonestEventStudyInput,
    post_weights: &[Real],
    mbar: Real,
    monotonicity_direction: HonestMonotonicityDirection,
    inference: InferenceConfig,
    config: RelativeMagnitudeConfidenceSetConfig,
    numbers: &A,
) -> (set: Result<HonestConditionalConfidenceSet, HonestError>)
    requires
        countable(*data),
        numbers.ready(),
    ensures
        exists|run: ConfidenceRun| #[trigger]
            run.explains(
                RelativeMagnitudeFamily::MonotoneLinear(monotonicity_direction),
                *data,
                post_weights@,
                mbar,
                inference,
                config,
                *numbers,
                set,
            ),
{
    compute_relative_magnitude_family_conditional_cs_with_config(
        data,
        post_weights,
        mbar,
        inference,
        config,
        RelativeMagnitudeFamily::MonotoneLinear(monotonicity_direction),
        numbers,
    )
}

} // verus!
