//! Relative-magnitude sets from branches that were prepared once and serve many
//! functionals.

use crate::branch_search;
use crate::branch_search::{
    search_branches, BranchRun, RelativeMagnitudePreparedFunctionalBranch, ThetaSearchSummary,
};
use crate::conic;
use crate::conic::solve_relative_magnitude_branch_with_matrix;
use crate::errors::HonestError;
use crate::functional;
use crate::functional::{
    branch_count_mismatch, functional_branches_by_transform, RelativeMagnitudePreparedBranch,
    RelativeMagnitudePreparedFunctionalTransform, RelativeMagnitudePreparedInputBranch,
};
use crate::grids;
use crate::grids::grid_around_identified_set;
use crate::input;
use crate::input::{basis_post_weights, validate_post_weights, HonestEventStudyInput};
use crate::inversion;
use crate::inversion::{gather_moments, BranchTests};
use crate::matrix;
use crate::matrix::{copy_row, entries_from, post_covariance_block};
use crate::moments::{Moments, TestArithmetic};
use crate::number::Real;
use crate::relative_magnitude;
use crate::relative_magnitude::global_identified_set_from_branch_identified_sets;
use crate::study::StudyArithmetic;
use crate::types::{
    HonestConditionalConfidenceSet, HonestIdentifiedSet, HonestOriginalConfidenceSet,
    InferenceConfig, RelativeMagnitudeConfidenceSetConfig,
};
use vstd::prelude::*;

verus! {

// ---------------------------------------------------------------------------
// The confidence set under parallel trends
// ---------------------------------------------------------------------------

/// What a confidence set under parallel trends rested on.
pub struct OriginalRun {
    /// The weights.
    pub weights: Vec<Real>,
    /// Coefficients of the post periods.
    pub betas: Vec<Real>,
    /// Their covariances.
    pub block: Vec<Vec<Real>>,
}

/// Whether `set` is the confidence set of a functional under parallel trends:
/// the first fault of the input or of the weights, else what the arithmetic
/// gives on the weights, the post-treatment coefficients and covariances, and
/// the level.
pub open spec fn original_by<A: StudyArithmetic>(
    run: OriginalRun,
    data: HonestEventStudyInput,
    weights: Seq<Real>,
    inference: InferenceConfig,
    numbers: A,
    set: Result<HonestOriginalConfidenceSet, HonestError>,
) -> bool {
    if data.fault() is Some {
        set == Err::<HonestOriginalConfidenceSet, HonestError>(data.fault()->Some_0)
    } else {
        match input::weights_fault(weights, data.post_periods@.len() as int, false) {
            Some(error) => set == Err::<HonestOriginalConfidenceSet, HonestError>(error),
            None => {
                let num_pre = data.pre_periods@.len() as int;
                let num_post = data.post_periods@.len() as int;
                &&& run.weights@ == weights
                &&& run.betas@ == data.betahat@.skip(num_pre)
                &&& run.block.len() == num_post
                &&& matrix::has_cols(run.block@, num_post)
                &&& forall|i: int, j: int|
                    0 <= i < num_post && 0 <= j < num_post ==> #[trigger] run.block@[i]@[j]
                        == data.covariance@[num_pre + i]@[num_pre + j]
                &&& set is Ok
                &&& numbers.measures(run.weights, run.betas, run.block, inference, set->Ok_0)
            },
        }
    }
}

/// Whether `set` is the confidence set of a functional under parallel trends.
pub open spec fn is_original<A: StudyArithmetic>(
    data: HonestEventStudyInput,
    weights: Seq<Real>,
    inference: InferenceConfig,
    numbers: A,
    set: Result<HonestOriginalConfidenceSet, HonestError>,
) -> bool {
    exists|run: OriginalRun| #[trigger]
        original_by(run, data, weights, inference, numbers, set)
}

/// Confidence set of a functional under parallel trends.
pub fn compute_original_confidence_set<A: StudyArithmetic>(
    data: &HonestEventStudyInput,
    post_weights: &[Real],
    inference: InferenceConfig,
    numbers: &A,
) -> (set: Result<HonestOriginalConfidenceSet, HonestError>)
    requires
        data.total() <= usize::MAX,
        numbers.ready(),
    ensures
        is_original(*data, post_weights@, inference, *numbers, set),
{
    let ghost mut run: OriginalRun = arbitrary();
    match data.validate() {
        Err(error) => {
            let out = Err(error);
            assert(original_by(run, *data, post_weights@, inference, *numbers, out));
            return out;
        },
        Ok(()) => {},
    }
    match validate_post_weights(data, post_weights, false) {
        Err(error) => {
            let out = Err(error);
            assert(original_by(run, *data, post_weights@, inference, *numbers, out));
            return out;
        },
        Ok(()) => {},
    }
    proof {
        input::valid_input_is_shaped(*data);
    }
    let num_pre: usize = data.num_pre_periods();
    let weights = copy_row(post_weights);
    let betas = entries_from(data.betahat.as_slice(), num_pre);
    let block = post_covariance_block(
        data.covariance.as_slice(),
        num_pre,
        data.num_post_periods(),
    );
    let set = numbers.measure(&weights, &betas, &block, inference);
    proof {
        run.weights = weights;
        run.betas = betas;
        run.block = block;
        assert(original_by(run, *data, post_weights@, inference, *numbers, Ok(set)));
    }
    Ok(set)
}

// ---------------------------------------------------------------------------
// Identified sets of prepared branches
// ---------------------------------------------------------------------------

/// Whether `answers` are the identified sets of the first prepared branches, of
/// which only the last may be an error.
pub open spec fn prepared_branches_bounded<A: StudyArithmetic>(
    answers: Seq<Result<Option<HonestIdentifiedSet>, HonestError>>,
    branches: Seq<RelativeMagnitudePreparedBranch>,
    data: HonestEventStudyInput,
    weights: Seq<Real>,
    numbers: A,
) -> bool {
    &&& answers.len() <= branches.len()
    &&& forall|k: int|
        0 <= k < answers.len() ==> conic::branch_identified(
            data.pre_periods@.len() as int,
            data.post_periods@.len() as int,
            data.betahat@,
            weights,
            branches[k].constraint_rows@,
            numbers,
            #[trigger] answers[k],
        )
    &&& forall|k: int| 0 <= k < answers.len() - 1 ==> #[trigger] answers[k] is Ok
    &&& answers.len() < branches.len() ==> answers.len() > 0 && answers.last() is Err
}

/// The identified sets of branches, or the first error.
pub open spec fn sets_or_error(
    answers: Seq<Result<Option<HonestIdentifiedSet>, HonestError>>,
) -> Result<Seq<Option<HonestIdentifiedSet>>, HonestError> {
    if answers.len() > 0 && answers.last() is Err {
        Err(answers.last()->Err_0)
    } else {
        Ok(relative_magnitude::solved_sets(answers))
    }
}

/// Identified sets of the prepared branches, in order.
pub fn compute_relative_magnitude_branch_identified_sets_with_prepared_branches<
    A: StudyArithmetic,
>(
    data: &HonestEventStudyInput,
    post_weights: &[Real],
    branches: &[RelativeMagnitudePreparedBranch],
    numbers: &A,
) -> (sets: Result<Vec<Option<HonestIdentifiedSet>>, HonestError>)
    requires
        data.shaped(),
        data.total() <= usize::MAX,
        post_weights.len() == data.post_periods@.len(),
        numbers.ready(),
    ensures
        exists|answers: Seq<Result<Option<HonestIdentifiedSet>, HonestError>>| #[trigger]
            prepared_branches_bounded(answers, branches@, *data, post_weights@, *numbers)
                && sets_or_error(answers) == (match sets {
                Ok(found) => Ok(found@),
                Err(error) => Err(error),
            }),
{
    let num_pre: usize = data.num_pre_periods();
    let num_post: usize = data.num_post_periods();
    let mut sets: Vec<Option<HonestIdentifiedSet>> = Vec::new();
    let ghost mut answers: Seq<Result<Option<HonestIdentifiedSet>, HonestError>> = Seq::empty();
    let mut k: usize = 0;
    while k < branches.len()
        invariant
            k <= branches.len(),
            num_pre == data.pre_periods@.len(),
            num_post == data.post_periods@.len(),
            data.betahat.len() == num_pre + num_post,
            num_pre + num_post <= usize::MAX,
            post_weights.len() == num_post,
            numbers.ready(),
            sets.len() == k,
            answers.len() == k,
            sets@ == relative_magnitude::solved_sets(answers),
            forall|i: int| 0 <= i < k ==> #[trigger] answers[i] is Ok,
            forall|i: int|
                0 <= i < k ==> conic::branch_identified(
                    num_pre as int,
                    num_post as int,
                    data.betahat@,
                    post_weights@,
                    branches@[i].constraint_rows@,
                    *numbers,
                    #[trigger] answers[i],
                ),
        decreases branches.len() - k,
    {
        let answer = solve_relative_magnitude_branch_with_matrix(
            num_pre,
            num_post,
            data.betahat.as_slice(),
            post_weights,
            branches[k].constraint_rows.as_slice(),
            numbers,
        );
        let ghost longer = answers.push(answer);
        match answer {
            Err(error) => {
                assert(longer.last() == answer);
                assert(prepared_branches_bounded(
                    longer,
                    branches@,
                    *data,
                    post_weights@,
                    *numbers,
                ));
                return Err(error);
            },
            Ok(set) => {
                sets.push(set);
                proof {
                    assert(sets@ =~= relative_magnitude::solved_sets(longer));
                    answers = longer;
                }
            },
        }
        k = k + 1;
    }
    assert(prepared_branches_bounded(answers, branches@, *data, post_weights@, *numbers));
    Ok(sets)
}

// ---------------------------------------------------------------------------
// Confidence sets of prepared branches
// ---------------------------------------------------------------------------

/// The error of a list that differs in length from the prepared moments.
pub open spec fn input_count_error(
    list: &'static str,
    found: usize,
    expected: usize,
) -> HonestError {
    HonestError::CountMismatch { list, found, other: "prepared input branch", expected }
}

/// The error of a confidence set that accepts no grid point.
pub open spec fn no_point_error() -> HonestError {
    HonestError::NoAcceptedPoint { class: "relative-magnitude conditional confidence set" }
}

/// Whether `out` is the confidence set of a functional over prepared branches:
/// the mismatch of two lists, or what the search of the branches leads to.
pub open spec fn searched_prepared<A: StudyArithmetic>(
    runs: Seq<BranchRun>,
    moments: Vec<Moments>,
    config: RelativeMagnitudeConfidenceSetConfig,
    alpha: Real,
    estimate: Real,
    grid: Vec<Real>,
    inputs: Seq<RelativeMagnitudePreparedInputBranch>,
    before: Seq<RelativeMagnitudePreparedFunctionalBranch>,
    after: Seq<RelativeMagnitudePreparedFunctionalBranch>,
    sets: Seq<Option<HonestIdentifiedSet>>,
    numbers: A,
    out: (ThetaSearchSummary, Result<HonestConditionalConfidenceSet, HonestError>),
) -> bool {
    let empty = ThetaSearchSummary::empty_spec();
    let tests = BranchTests {
        arithmetic: &numbers.tester(),
        moments: &moments,
        alpha,
        kappa: config.hybrid_kappa,
    };
    if before.len() != inputs.len() {
        &&& after == before
        &&& out == (
            empty,
            Err::<HonestConditionalConfidenceSet, HonestError>(
                input_count_error(
                    "prepared functional branch",
                    before.len() as usize,
                    inputs.len() as usize,
                ),
            ),
        )
    } else if sets.len() != inputs.len() {
        &&& after == before
        &&& out == (
            empty,
            Err::<HonestConditionalConfidenceSet, HonestError>(
                input_count_error(
                    "branch identified set",
                    sets.len() as usize,
                    inputs.len() as usize,
                ),
            ),
        )
    } else {
        &&& inversion::all_moments_from(moments@, inputs, before)
        &&& branch_search::same_rows(before, after)
        &&& branch_search::runs_explained(
            runs,
            config,
            estimate,
            grid,
            sets,
            branch_search::caches(before),
            branch_search::caches(after),
            numbers,
            tests,
        )
        &&& branch_search::runs_complete(runs, sets.len() as int, grid.len() as int)
        &&& out.1 == branch_search::set_of(
            branch_search::outcomes_of(runs),
            grid@,
            no_point_error(),
        )
        &&& out.0 == branch_search::summary_after(
            branch_search::outcomes_of(runs),
            grid.len() as int,
        )
    }
}

/// Confidence set of a functional over prepared branches whose identified sets
/// are known, with the counts of the search.
pub fn compute_relative_magnitude_confidence_set_with_prepared_functional_branches_and_identified_sets<
    A: StudyArithmetic,
>(
    config: RelativeMagnitudeConfidenceSetConfig,
    alpha: Real,
    estimate: Real,
    grid: &Vec<Real>,
    inputs: &[RelativeMagnitudePreparedInputBranch],
    functionals: &mut Vec<RelativeMagnitudePreparedFunctionalBranch>,
    sets: &[Option<HonestIdentifiedSet>],
    numbers: &A,
) -> (out: (ThetaSearchSummary, Result<HonestConditionalConfidenceSet, HonestError>))
    requires
        grid.len() > 0,
        numbers.ready(),
    ensures
        exists|runs: Seq<BranchRun>, moments: Vec<Moments>| #[trigger]
            searched_prepared(
                runs,
                moments,
                config,
                alpha,
                estimate,
                *grid,
                inputs@,
                old(functionals)@,
                final(functionals)@,
                sets@,
                *numbers,
                out,
            ),
{
    let ghost none: Seq<BranchRun> = Seq::empty();
    let ghost unmade: Vec<Moments> = arbitrary();
    let ghost before = functionals@;
    if functionals.len() != inputs.len() {
        let out = (
            ThetaSearchSummary::empty(),
            Err(
                HonestError::CountMismatch {
                    list: "prepared functional branch",
                    found: functionals.len(),
                    other: "prepared input branch",
                    expected: inputs.len(),
                },
            ),
        );
        assert(searched_prepared(
            none,
            unmade,
            config,
            alpha,
            estimate,
            *grid,
            inputs@,
            before,
            before,
            sets@,
            *numbers,
            out,
        ));
        return out;
    }
    if sets.len() != inputs.len() {
        let out = (
            ThetaSearchSummary::empty(),
            Err(
                HonestError::CountMismatch {
                    list: "branch identified set",
                    found: sets.len(),
                    other: "prepared input branch",
                    expected: inputs.len(),
                },
            ),
        );
        assert(searched_prepared(
            none,
            unmade,
            config,
            alpha,
            estimate,
            *grid,
            inputs@,
            before,
            before,
            sets@,
            *numbers,
            out,
        ));
        return out;
    }
    let empty = HonestError::NoAcceptedPoint {
        class: "relative-magnitude conditional confidence set",
    };
    let moments = gather_moments(inputs, functionals.as_slice());
    let tests = BranchTests {
        arithmetic: numbers.tests(),
        moments: &moments,
        alpha,
        kappa: config.hybrid_kappa,
    };
    let out = search_branches(
        config,
        estimate,
        grid,
        sets,
        functionals,
        numbers,
        &tests,
        empty,
    );
    proof {
        let runs = choose|runs: Seq<BranchRun>| #[trigger]
            branch_search::runs_explained(
                runs,
                config,
                estimate,
                *grid,
                sets@,
                branch_search::caches(before),
                branch_search::caches(functionals@),
                *numbers,
                tests,
            ) && branch_search::runs_complete(runs, sets.len() as int, grid.len() as int) && out.1
                == branch_search::set_of(branch_search::outcomes_of(runs), grid@, empty) && out.0
                == branch_search::summary_after(
                branch_search::outcomes_of(runs),
                grid.len() as int,
            );
        assert(searched_prepared(
            runs,
            moments,
            config,
            alpha,
            estimate,
            *grid,
            inputs@,
            before,
            functionals@,
            sets@,
            *numbers,
            out,
        ));
    }
    out
}

/// Whether the critical values of the first branches were computed like this.
pub open spec fn warmed_by<E: TestArithmetic>(
    values: Seq<Result<Real, String>>,
    config: RelativeMagnitudeConfidenceSetConfig,
    before: Seq<RelativeMagnitudePreparedFunctionalBranch>,
    after: Seq<RelativeMagnitudePreparedFunctionalBranch>,
    tests: BranchTests<'_, E>,
) -> bool {
    &&& branch_search::same_rows(before, after)
    &&& values.len() <= before.len()
    &&& forall|i: int|
        0 <= i < values.len() ==> branch_search::lf_given(
            config,
            before[i].lf_cache@,
            after[i].lf_cache@,
            tests,
            i as usize,
            #[trigger] values[i],
        )
    &&& forall|i: int|
        values.len() <= i < before.len() ==> (#[trigger] after[i]).lf_cache@
            == before[i].lf_cache@
    &&& forall|i: int| 0 <= i < values.len() - 1 ==> #[trigger] values[i] is Ok
    &&& values.len() < before.len() ==> values.len() > 0 && values.last() is Err
}

/// The first error among critical values, if any.
pub open spec fn warm_outcome(values: Seq<Result<Real, String>>) -> Result<(), String> {
    if values.len() > 0 && values.last() is Err {
        Err(values.last()->Err_0)
    } else {
        Ok(())
    }
}

/// Computes the critical values of all branches, up to the first failure.
pub fn warm_critical_values<E: TestArithmetic>(
    config: RelativeMagnitudeConfidenceSetConfig,
    functionals: &mut Vec<RelativeMagnitudePreparedFunctionalBranch>,
    tests: &BranchTests<'_, E>,
) -> (done: Result<(), String>)
    requires
        tests.ready(old(functionals).len() as int),
    ensures
        exists|values: Seq<Result<Real, String>>| #[trigger]
            warmed_by(values, config, old(functionals)@, final(functionals)@, *tests) && done
                == warm_outcome(values),
{
    let ghost before = functionals@;
    let ghost mut values: Seq<Result<Real, String>> = Seq::empty();
    let mut i: usize = 0;
    while i < functionals.len()
        invariant
            i <= functionals.len(),
            before == old(functionals)@,
            values.len() == i,
            branch_search::same_rows(before, functionals@),
            forall|k: int| 0 <= k < i ==> #[trigger] values[k] is Ok,
            forall|k: int|
                0 <= k < i ==> branch_search::lf_given(
                    config,
                    before[k].lf_cache@,
                    functionals@[k].lf_cache@,
                    *tests,
                    k as usize,
                    #[trigger] values[k],
                ),
            forall|k: int|
                i <= k < before.len() ==> (#[trigger] functionals@[k]).lf_cache@
                    == before[k].lf_cache@,
            tests.ready(old(functionals).len() as int),
        decreases functionals.len() - i,
    {
        let ghost previous = functionals@;
        let value = functionals[i].critical_value(config, i, tests);
        let ghost longer = values.push(value);
        proof {
            assert forall|k: int| 0 <= k < longer.len() implies branch_search::lf_given(
                config,
                before[k].lf_cache@,
                functionals@[k].lf_cache@,
                *tests,
                k as usize,
                #[trigger] longer[k],
            ) by {
                if k < i {
                    assert(longer[k] == values[k]);
                    assert(functionals@[k] == previous[k]);
                } else {
                    assert(previous[k].lf_cache@ == before[k].lf_cache@);
                }
            }
            assert forall|k: int| longer.len() <= k < before.len() implies (
            #[trigger] functionals@[k]).lf_cache@ == before[k].lf_cache@ by {
                assert(functionals@[k] == previous[k]);
            }
            assert forall|k: int| 0 <= k < longer.len() - 1 implies #[trigger] longer[k] is Ok by {
                assert(longer[k] == values[k]);
            }
            assert(longer.last() == value);
            values = longer;
        }
        match value {
            Err(message) => {
                assert(warmed_by(values, config, before, functionals@, *tests));
                return Err(message);
            },
            Ok(_) => {},
        }
        i = i + 1;
    }
    assert(warmed_by(values, config, before, functionals@, *tests));
    Ok(())
}

/// How the confidence set of one post period came about.
pub struct PeriodRun {
    /// Confidence set under parallel trends.
    pub original: Result<HonestOriginalConfidenceSet, HonestError>,
    /// Identified sets of the branches.
    pub answers: Seq<Result<Option<HonestIdentifiedSet>, HonestError>>,
    /// Estimate of the functional.
    pub estimate: Real,
    /// The grid.
    pub grid: Vec<Real>,
    /// Rows of the branches.
    pub fresh: Seq<RelativeMagnitudePreparedFunctionalBranch>,
    /// The same with their critical values.
    pub warm: Seq<RelativeMagnitudePreparedFunctionalBranch>,
    /// The same after the search.
    pub after: Seq<RelativeMagnitudePreparedFunctionalBranch>,
    /// Moments of the branches before the critical values are known.
    pub fresh_moments: Vec<Moments>,
    /// The critical values.
    pub values: Seq<Result<Real, String>>,
    /// Moments of the branches.
    pub moments: Vec<Moments>,
    /// Searches of the branches.
    pub runs: Seq<BranchRun>,
}

/// How a period's columns are split: nothing is projected.
pub open spec fn splits_rows(
    fresh: Seq<RelativeMagnitudePreparedFunctionalBranch>,
    branches: Seq<RelativeMagnitudePreparedBranch>,
    inputs: Seq<RelativeMagnitudePreparedInputBranch>,
    post_idx: usize,
) -> bool {
    &&& fresh.len() == branches.len()
    &&& forall|i: int|
        0 <= i < fresh.len() ==> period_rows(
            #[trigger] fresh[i],
            branches[i],
            inputs[i].sd_arp@,
            post_idx as int,
        )
}

/// Whether `made` are the rows of a branch for one post period.
pub open spec fn period_rows(
    made: RelativeMagnitudePreparedFunctionalBranch,
    branch: RelativeMagnitudePreparedBranch,
    sd_arp: Seq<Real>,
    post_idx: int,
) -> bool {
    let rows = branch.rows_for_arp@;
    &&& made.a_target_arp@ == Seq::new(
        rows.len(),
        |k: int| branch.a_post@[rows[k] as int]@[post_idx],
    )
    &&& exists|design: Vec<Vec<Real>>|
        matrix::rows_of(#[trigger] design@) == Seq::new(
            rows.len(),
            |k: int| functional::without(branch.a_post@[rows[k] as int]@, post_idx),
        ) && functional::zero_columns_dropped(design@, made.x_arp@)
    &&& matrix::rows_of(made.w_t@) == Seq::new(
        made.x_arp@.len(),
        |k: int| seq![sd_arp[k]] + made.x_arp@[k]@,
    )
    &&& forall|key: u64| !made.lf_cache@.contains_key(key)
}

impl PeriodRun {
    /// Whether the confidence set of a post period came about like this.
    pub open spec fn explains<A: StudyArithmetic>(
        self,
        data: HonestEventStudyInput,
        post_idx: usize,
        inference: InferenceConfig,
        config: RelativeMagnitudeConfidenceSetConfig,
        branches: Seq<RelativeMagnitudePreparedBranch>,
        inputs: Seq<RelativeMagnitudePreparedInputBranch>,
        numbers: A,
        out: (ThetaSearchSummary, Result<HonestConditionalConfidenceSet, HonestError>),
    ) -> bool {
        let weights = input::basis_weights(data.post_periods@.len() as int, post_idx as int);
        if branches.len() != inputs.len() {
            out == failed(
                functional::branch_count_error(branches.len() as usize, inputs.len() as usize),
            )
        } else {
            &&& is_original(data, weights, inference, numbers, self.original)
            &&& match self.original {
                Err(error) => out == failed(error),
                Ok(original) => {
                    &&& prepared_branches_bounded(
                        self.answers,
                        branches,
                        data,
                        weights,
                        numbers,
                    )
                    &&& match sets_or_error(self.answers) {
                        Err(error) => out == failed(error),
                        Ok(sets) => {
                            &&& relative_magnitude::estimated(data, weights, numbers, self.estimate)
                            &&& grids::is_grid_around(
                                original,
                                relative_magnitude::union_of(sets, self.estimate),
                                numbers,
                                self.grid@,
                            )
                            &&& splits_rows(self.fresh, branches, inputs, post_idx)
                            &&& inversion::all_moments_from(
                                self.fresh_moments@,
                                inputs,
                                self.fresh,
                            )
                            &&& warmed_by(
                                self.values,
                                config,
                                self.fresh,
                                self.warm,
                                BranchTests {
                                    arithmetic: &numbers.tester(),
                                    moments: &self.fresh_moments,
                                    alpha: inference.alpha,
                                    kappa: config.hybrid_kappa,
                                },
                            )
                            &&& match warm_outcome(self.values) {
                                Err(message) => out == failed(HonestError::Numerical { message }),
                                Ok(()) => searched_prepared(
                                    self.runs,
                                    self.moments,
                                    config,
                                    inference.alpha,
                                    original.estimate,
                                    self.grid,
                                    inputs,
                                    self.warm,
                                    self.after,
                                    sets,
                                    numbers,
                                    out,
                                ),
                            }
                        },
                    }
                },
            }
        }
    }
}

/// A failure before any branch was searched.
pub open spec fn failed(error: HonestError) -> (
    ThetaSearchSummary,
    Result<HonestConditionalConfidenceSet, HonestError>,
) {
    (ThetaSearchSummary::empty_spec(), Err(error))
}

fn fail(error: HonestError) -> (out: (
    ThetaSearchSummary,
    Result<HonestConditionalConfidenceSet, HonestError>,
))
    ensures
        out == failed(error),
{
    (ThetaSearchSummary::empty(), Err(error))
}

fn period_branches<A: StudyArithmetic>(
    branches: &[RelativeMagnitudePreparedBranch],
    inputs: &[RelativeMagnitudePreparedInputBranch],
    post_idx: usize,
    num_post: usize,
    numbers: &A,
) -> (made: Vec<RelativeMagnitudePreparedFunctionalBranch>)
    requires
        numbers.ready(),
        branches.len() == inputs.len(),
        post_idx < num_post,
        forall|i: int|
            0 <= i < branches.len() ==> functional::branch_shaped(
                #[trigger] branches@[i],
                num_post as int,
            ) && inputs@[i].sd_arp.len() >= branches@[i].rows_for_arp.len(),
    ensures
        splits_rows(made@, branches@, inputs@, post_idx),
{
    let transform = RelativeMagnitudePreparedFunctionalTransform::Basis { target_idx: post_idx };
    let made = functional_branches_by_transform(branches, inputs, &transform, numbers, num_post);
    proof {
        assert forall|i: int| 0 <= i < made.len() implies period_rows(
            #[trigger] made@[i],
            branches@[i],
            inputs@[i].sd_arp@,
            post_idx as int,
        ) by {
            assert(functional::has_rows(
                made@[i],
                branches@[i],
                inputs@[i].sd_arp@,
                transform,
                *numbers,
            ));
            let design = choose|design: Vec<Vec<Real>>| #[trigger]
                functional::functional_branch_of(
                    made@[i],
                    branches@[i],
                    inputs@[i].sd_arp@,
                    transform,
                    *numbers,
                    design,
                );
            let branch = branches@[i];
            let rows = branch.rows_for_arp@;
            assert forall|k: int| 0 <= k < rows.len() implies #[trigger] made@[i].a_target_arp@[k]
                == branch.a_post@[rows[k] as int]@[post_idx as int] by {
                assert(functional::row_split(
                    transform,
                    *numbers,
                    branch.a_post@[rows[k] as int],
                    made@[i].a_target_arp@[k],
                    design@[k]@,
                ));
            }
            assert forall|k: int| 0 <= k < rows.len() implies #[trigger] design@[k]@
                == functional::without(branch.a_post@[rows[k] as int]@, post_idx as int) by {
                assert(functional::row_split(
                    transform,
                    *numbers,
                    branch.a_post@[rows[k] as int],
                    made@[i].a_target_arp@[k],
                    design@[k]@,
                ));
            }
            assert(made@[i].a_target_arp@ =~= Seq::new(
                rows.len(),
                |k: int| branch.a_post@[rows[k] as int]@[post_idx as int],
            ));
            assert(matrix::rows_of(design@) =~= Seq::new(
                rows.len(),
                |k: int|
                    functional::without(branch.a_post@[rows[k] as int]@, post_idx as int),
            ));
        }
    }
    made
}

/// Confidence set of one post period over prepared branches, with the counts of
/// the search. The critical values of all branches are computed before any
/// branch is searched.
pub fn compute_relative_magnitude_confidence_set_for_basis_period_with_prepared_input<
    A: StudyArithmetic,
>(
    data: &HonestEventStudyInput,
    post_idx: usize,
    inference: InferenceConfig,
    config: RelativeMagnitudeConfidenceSetConfig,
    branches: &[RelativeMagnitudePreparedBranch],
    inputs: &[RelativeMagnitudePreparedInputBranch],
    numbers: &A,
) -> (out: (ThetaSearchSummary, Result<HonestConditionalConfidenceSet, HonestError>))
    requires
        data.total() <= usize::MAX,
        post_idx < data.post_periods@.len(),
        branches.len() == inputs.len() ==> forall|i: int|
            0 <= i < branches.len() ==> functional::branch_shaped(
                #[trigger] branches@[i],
                data.post_periods@.len() as int,
            ) && inputs@[i].sd_arp.len() >= branches@[i].rows_for_arp.len(),
        numbers.ready(),
    ensures
        exists|run: PeriodRun| #[trigger]
            run.explains(*data, post_idx, inference, config, branches@, inputs@, *numbers, out),
{
    let ghost mut run: PeriodRun = arbitrary();
    if branches.len() != inputs.len() {
        let out = fail(branch_count_mismatch(branches.len(), inputs.len()));
        assert(run.explains(*data, post_idx, inference, config, branches@, inputs@, *numbers, out));
        return out;
    }
    let num_post: usize = data.num_post_periods();
    let weights = basis_post_weights(num_post, post_idx);
    let measured = compute_original_confidence_set(data, weights.as_slice(), inference, numbers);
    proof {
        run.original = measured;
    }
    let original = match measured {
        Err(error) => {
            let out = fail(error);
            assert(run.explains(*data, post_idx, inference, config, branches@, inputs@, *numbers, out));
            return out;
        },
        Ok(original) => original,
    };
    let solved = compute_relative_magnitude_branch_identified_sets_with_prepared_branches(
        data,
        weights.as_slice(),
        branches,
        numbers,
    );
    proof {
        let answers = choose|answers: Seq<Result<Option<HonestIdentifiedSet>, HonestError>>| #[trigger]
            prepared_branches_bounded(answers, branches@, *data, weights@, *numbers) && sets_or_error(answers) == (match solved {
                Ok(found) => Ok(found@),
                Err(error) => Err(error),
            });
        run.answers = answers;
    }
    let sets = match solved {
        Err(error) => {
            let out = fail(error);
            assert(run.explains(*data, post_idx, inference, config, branches@, inputs@, *numbers, out));
            return out;
        },
        Ok(sets) => sets,
    };
    let estimate = relative_magnitude::target_estimate(data, &weights, numbers);
    let identified = global_identified_set_from_branch_identified_sets(sets.as_slice(), estimate);
    let grid = grid_around_identified_set(original, identified, numbers);
    proof {
        run.estimate = estimate;
    }
    let mut functionals = period_branches(branches, inputs, post_idx, num_post, numbers);
    proof {
        run.grid = grid;
        run.fresh = functionals@;
    }
    let fresh_moments = gather_moments(inputs, functionals.as_slice());
    let tests = BranchTests {
        arithmetic: numbers.tests(),
        moments: &fresh_moments,
        alpha: inference.alpha,
        kappa: config.hybrid_kappa,
    };
    let warmed = warm_critical_values(config, &mut functionals, &tests);
    proof {
        let values = choose|values: Seq<Result<Real, String>>| #[trigger]
            warmed_by(values, config, run.fresh, functionals@, tests) && warmed
                == warm_outcome(values);
        run.fresh_moments = fresh_moments;
        run.values = values;
        run.warm = functionals@;
    }
    match warmed {
        Err(message) => {
            let out = fail(HonestError::Numerical { message });
            assert(run.explains(*data, post_idx, inference, config, branches@, inputs@, *numbers, out));
            return out;
        },
        Ok(()) => {},
    }
    let out =
        compute_relative_magnitude_confidence_set_with_prepared_functional_branches_and_identified_sets(
        config,
        inference.alpha,
        original.estimate,
        &grid,
        inputs,
        &mut functionals,
        sets.as_slice(),
        numbers,
    );
    proof {
        let (runs, moments) = choose|runs: Seq<BranchRun>, moments: Vec<Moments>| #[trigger]
            searched_prepared(
                runs,
                moments,
                config,
                inference.alpha,
                original.estimate,
                grid,
                inputs@,
                run.warm,
                functionals@,
                sets@,
                *numbers,
                out,
            );
        run.after = functionals@;
        run.moments = moments;
        run.runs = runs;
        assert(run.explains(*data, post_idx, inference, config, branches@, inputs@, *numbers, out));
    }
    out
}

/// The confidence set under parallel trends does not depend on the pre periods:
/// two inputs with the same post-treatment coefficients and covariances have the
/// same one.
pub proof fn original_set_ignores_pre_periods<A: StudyArithmetic>(
    data: HonestEventStudyInput,
    other: HonestEventStudyInput,
    weights: Seq<Real>,
    inference: InferenceConfig,
    numbers: A,
    set: Result<HonestOriginalConfidenceSet, HonestError>,
)
    requires
        data.fault() is None,
        other.fault() is None,
        other.post_periods@.len() == data.post_periods@.len(),
        other.betahat@.skip(other.pre_periods@.len() as int) == data.betahat@.skip(
            data.pre_periods@.len() as int,
        ),
        forall|i: int, j: int|
            #![trigger data.covariance@[data.pre_periods@.len() + i]@[data.pre_periods@.len() + j]]
            0 <= i < data.post_periods@.len() && 0 <= j < data.post_periods@.len()
                ==> other.covariance@[other.pre_periods@.len() + i]@[other.pre_periods@.len() + j]
                == data.covariance@[data.pre_periods@.len() + i]@[data.pre_periods@.len() + j],
        is_original(data, weights, inference, numbers, set),
    ensures
        is_original(other, weights, inference, numbers, set),
{
    let run = choose|run: OriginalRun| #[trigger]
        original_by(run, data, weights, inference, numbers, set);
    if input::weights_fault(weights, data.post_periods@.len() as int, false) is None {
        let num_pre = data.pre_periods@.len() as int;
        let other_pre = other.pre_periods@.len() as int;
        let num_post = data.post_periods@.len() as int;
        assert forall|i: int, j: int| 0 <= i < num_post && 0 <= j < num_post implies #[trigger]
            run.block@[i]@[j] == other.covariance@[other_pre + i]@[other_pre + j] by {
            assert(run.block@[i]@[j] == data.covariance@[num_pre + i]@[num_pre + j]);
        }
    }
    assert(original_by(run, other, weights, inference, numbers, set));
}

/// The numbers with their signs flipped.
pub open spec fn flipped(values: Seq<Real>) -> Seq<Real> {
    Seq::new(values.len(), |i: int| values[i].neg_spec())
}

/// Whether one set is the other with the sign of the functional flipped.
pub open spec fn mirrors(
    one: HonestOriginalConfidenceSet,
    other: HonestOriginalConfidenceSet,
) -> bool {
    &&& other.estimate == one.estimate.neg_spec()
    &&& other.se == one.se
    &&& other.ci == (one.ci.1.neg_spec(), one.ci.0.neg_spec())
}

/// Whether the arithmetic is a function that mirrors its answer where the
/// weights change sign.
pub open spec fn mirrors_with_weights<A: StudyArithmetic>(numbers: A) -> bool {
    forall|
        x: Vec<Real>,
        b: Vec<Real>,
        v: Vec<Vec<Real>>,
        y: Vec<Real>,
        c: Vec<Real>,
        w: Vec<Vec<Real>>,
        inference: InferenceConfig,
        one: HonestOriginalConfidenceSet,
        two: HonestOriginalConfidenceSet,
    |
        y@ == flipped(x@) && b@ == c@ && matrix::rows_of(v@) == matrix::rows_of(w@)
            && #[trigger] numbers.measures(x, b, v, inference, one) && #[trigger] numbers.measures(
            y,
            c,
            w,
            inference,
            two,
        ) ==> mirrors(one, two)
}

/// Negated weights mirror the confidence set under parallel trends, where the
/// arithmetic mirrors with the weights: they are refused for the same reason, or
/// the estimate and the interval change sign and the standard error stays.
pub proof fn negated_weights_mirror_the_original_set<A: StudyArithmetic>(
    data: HonestEventStudyInput,
    weights: Seq<Real>,
    inference: InferenceConfig,
    numbers: A,
    set: Result<HonestOriginalConfidenceSet, HonestError>,
    other: Result<HonestOriginalConfidenceSet, HonestError>,
)
    requires
        is_original(data, weights, inference, numbers, set),
        is_original(data, flipped(weights), inference, numbers, other),
        mirrors_with_weights(numbers),
    ensures
        match set {
            Err(error) => other == Err::<HonestOriginalConfidenceSet, HonestError>(error),
            Ok(one) => other matches Ok(two) && mirrors(one, two),
        },
{
    let run = choose|run: OriginalRun| #[trigger]
        original_by(run, data, weights, inference, numbers, set);
    let twin = choose|run: OriginalRun| #[trigger]
        original_by(run, data, flipped(weights), inference, numbers, other);
    let num_post = data.post_periods@.len() as int;
    assert(input::weights_fault(flipped(weights), num_post, false) == input::weights_fault(
        weights,
        num_post,
        false,
    )) by {
        assert(forall|i: int|
            0 <= i < weights.len() ==> (#[trigger] flipped(weights)[i]).finite()
                == weights[i].finite());
        if input::all_finite(flipped(weights)) {
            assert forall|i: int| 0 <= i < weights.len() implies (#[trigger] weights[i]).finite() by {
                assert(flipped(weights)[i].finite());
            }
        }
    }
    if data.fault() is None && input::weights_fault(weights, num_post, false) is None {
        assert forall|i: int| 0 <= i < num_post implies (#[trigger] run.block@[i])@
            =~= twin.block@[i]@ by {
            assert forall|j: int| 0 <= j < num_post implies run.block@[i]@[j]
                == #[trigger] twin.block@[i]@[j] by {
                assert(run.block@[i]@[j] == data.covariance@[data.pre_periods@.len() + i]@[
                    data.pre_periods@.len() + j
                ]);
            }
        }
        assert(matrix::rows_of(run.block@) =~= matrix::rows_of(twin.block@));
        assert(numbers.measures(run.weights, run.betas, run.block, inference, set->Ok_0));
        assert(numbers.measures(twin.weights, twin.betas, twin.block, inference, other->Ok_0));
    }
}

} // verus!
