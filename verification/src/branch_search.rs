//! Confidence sets of relative-magnitude restrictions, by test inversion on a
//! grid for each branch of the restriction.

use crate::adaptive_grid;
use crate::adaptive_grid::{
    compute_accepted_grid_range_adaptive_with_diagnostics, nearest_grid_index, AcceptedGridRange,
    AdaptiveGridDiagnostics,
};
use crate::cv_cache;
use crate::cv_cache::CriticalValueCache;
use crate::errors::HonestError;
use crate::inversion::BranchTests;
use crate::moments::TestArithmetic;
use crate::number::Real;
use crate::study::StudyArithmetic;
use crate::types::{
    HonestConditionalConfidenceSet, HonestIdentifiedSet, RelativeMagnitudeConfidenceSetConfig,
    RelativeMagnitudeHybrid,
};
use vstd::prelude::*;

verus! {

/// Counts of what a search over branches did.
#[derive(Clone, Copy, Debug, PartialEq, Eq, Structural)]
pub struct ThetaSearchSummary {
    /// Branches that were searched.
    pub feasible_branches: usize,
    /// Branches that no path of violations meets.
    pub skipped_infeasible_branches: usize,
    /// Branches with an accepted point.
    pub branches_with_accepted_points: usize,
    /// Branches that accept the whole grid.
    pub full_grid_branches: usize,
    /// Branches whose whole grid was tested.
    pub fallback_branches: usize,
    /// Branches whose anchor gave way to the nearest accepted point.
    pub nearest_anchor_branches: usize,
    /// Branches whose anchor was accepted.
    pub anchor_accepted_branches: usize,
    /// Tests in all branches.
    pub unique_evaluations_total: usize,
    /// Questions answered from memory in all branches.
    pub cache_hits_total: usize,
    /// Most tests in one branch.
    pub max_unique_evaluations: usize,
    /// Whether a branch that accepts the whole grid ended the search.
    pub early_full_grid_exit: bool,
}

/// The sum of two counts, or the largest count where it lies above.
pub open spec fn counted(left: usize, right: usize) -> usize {
    adaptive_grid::saturated(left + right)
}

/// One more where `happened`.
pub open spec fn counted_if(count: usize, happened: bool) -> usize {
    if happened {
        counted(count, 1)
    } else {
        count
    }
}

/// Whether a range covers the whole grid.
pub open spec fn covers_grid(range: AcceptedGridRange, grid_len: int) -> bool {
    range.lower_idx == 0 && range.upper_idx + 1 == grid_len
}

/// Whether a range covers the whole grid.
pub fn is_full_grid_range(range: AcceptedGridRange, grid_len: usize) -> (r: bool)
    ensures
        r == covers_grid(range, grid_len as int),
{
    range.lower_idx == 0 && range.upper_idx < grid_len && range.upper_idx + 1 == grid_len
}

/// The smallest range that holds both.
pub open spec fn hull(
    global: Option<AcceptedGridRange>,
    range: AcceptedGridRange,
) -> AcceptedGridRange {
    match global {
        None => range,
        Some(existing) => AcceptedGridRange {
            lower_idx: if existing.lower_idx <= range.lower_idx {
                existing.lower_idx
            } else {
                range.lower_idx
            },
            upper_idx: if existing.upper_idx >= range.upper_idx {
                existing.upper_idx
            } else {
                range.upper_idx
            },
        },
    }
}

/// Widens a range so that it holds another one too.
pub fn merge_accepted_range(global_range: &mut Option<AcceptedGridRange>, range: AcceptedGridRange)
    ensures
        *final(global_range) == Some(hull(*old(global_range), range)),
{
    let merged = match *global_range {
        None => range,
        Some(existing) => AcceptedGridRange {
            lower_idx: if existing.lower_idx <= range.lower_idx {
                existing.lower_idx
            } else {
                range.lower_idx
            },
            upper_idx: if existing.upper_idx >= range.upper_idx {
                existing.upper_idx
            } else {
                range.upper_idx
            },
        },
    };
    *global_range = Some(merged);
}

impl ThetaSearchSummary {
    /// Counts of nothing.
    pub open spec fn empty_spec() -> Self {
        ThetaSearchSummary {
            feasible_branches: 0,
            skipped_infeasible_branches: 0,
            branches_with_accepted_points: 0,
            full_grid_branches: 0,
            fallback_branches: 0,
            nearest_anchor_branches: 0,
            anchor_accepted_branches: 0,
            unique_evaluations_total: 0,
            cache_hits_total: 0,
            max_unique_evaluations: 0,
            early_full_grid_exit: false,
        }
    }

    /// The counts with one searched branch more.
    pub open spec fn recorded(
        self,
        range: Option<AcceptedGridRange>,
        diagnostics: AdaptiveGridDiagnostics,
        grid_len: int,
    ) -> Self {
        ThetaSearchSummary {
            feasible_branches: counted(self.feasible_branches, 1),
            skipped_infeasible_branches: self.skipped_infeasible_branches,
            branches_with_accepted_points: counted_if(
                self.branches_with_accepted_points,
                range is Some,
            ),
            full_grid_branches: counted_if(
                self.full_grid_branches,
                range is Some && covers_grid(range->Some_0, grid_len),
            ),
            fallback_branches: counted_if(
                self.fallback_branches,
                diagnostics.used_full_grid_fallback,
            ),
            nearest_anchor_branches: counted_if(
                self.nearest_anchor_branches,
                diagnostics.used_nearest_accepted_anchor,
            ),
            anchor_accepted_branches: counted_if(
                self.anchor_accepted_branches,
                diagnostics.anchor_accepted,
            ),
            unique_evaluations_total: counted(
                self.unique_evaluations_total,
                diagnostics.unique_evaluations,
            ),
            cache_hits_total: counted(self.cache_hits_total, diagnostics.cache_hits),
            max_unique_evaluations: if self.max_unique_evaluations
                >= diagnostics.unique_evaluations {
                self.max_unique_evaluations
            } else {
                diagnostics.unique_evaluations
            },
            early_full_grid_exit: self.early_full_grid_exit,
        }
    }

    /// The counts with one skipped branch more.
    pub open spec fn skipped(self) -> Self {
        ThetaSearchSummary {
            skipped_infeasible_branches: counted(self.skipped_infeasible_branches, 1),
            ..self
        }
    }

    /// Counts of nothing.
    pub fn empty() -> (summary: Self)
        ensures
            summary == Self::empty_spec(),
    {
        ThetaSearchSummary {
            feasible_branches: 0,
            skipped_infeasible_branches: 0,
            branches_with_accepted_points: 0,
            full_grid_branches: 0,
            fallback_branches: 0,
            nearest_anchor_branches: 0,
            anchor_accepted_branches: 0,
            unique_evaluations_total: 0,
            cache_hits_total: 0,
            max_unique_evaluations: 0,
            early_full_grid_exit: false,
        }
    }

    /// Counts one searched branch.
    pub fn record(
        &mut self,
        range: Option<AcceptedGridRange>,
        diagnostics: AdaptiveGridDiagnostics,
        grid_len: usize,
    )
        ensures
            *final(self) == old(self).recorded(range, diagnostics, grid_len as int),
    {
        self.feasible_branches = self.feasible_branches.saturating_add(1);
        if range.is_some() {
            self.branches_with_accepted_points =
            self.branches_with_accepted_points.saturating_add(1);
        }
        if diagnostics.anchor_accepted {
            self.anchor_accepted_branches = self.anchor_accepted_branches.saturating_add(1);
        }
        if diagnostics.used_nearest_accepted_anchor {
            self.nearest_anchor_branches = self.nearest_anchor_branches.saturating_add(1);
        }
        if diagnostics.used_full_grid_fallback {
            self.fallback_branches = self.fallback_branches.saturating_add(1);
        }
        self.unique_evaluations_total =
        self.unique_evaluations_total.saturating_add(diagnostics.unique_evaluations);
        self.cache_hits_total = self.cache_hits_total.saturating_add(diagnostics.cache_hits);
        if diagnostics.unique_evaluations > self.max_unique_evaluations {
            self.max_unique_evaluations = diagnostics.unique_evaluations;
        }
        if let Some(accepted) = range {
            if is_full_grid_range(accepted, grid_len) {
                self.full_grid_branches = self.full_grid_branches.saturating_add(1);
            }
        }
    }

    /// Counts one skipped branch.
    pub fn skip(&mut self)
        ensures
            *final(self) == old(self).skipped(),
    {
        self.skipped_infeasible_branches = self.skipped_infeasible_branches.saturating_add(1);
    }
}

/// What became of one branch.
#[derive(Debug, PartialEq, Eq)]
pub enum BranchOutcome {
    /// No path of violations meets it.
    Skipped,
    /// Its critical value or its search failed.
    Failed(String),
    /// It was searched.
    Searched(Option<AcceptedGridRange>, AdaptiveGridDiagnostics),
}

/// The range that the branches up to `end` accept together.
pub open spec fn merged_range(outcomes: Seq<BranchOutcome>, end: int) -> Option<AcceptedGridRange>
    decreases end,
{
    if end <= 0 {
        None
    } else {
        let before = merged_range(outcomes, end - 1);
        match outcomes[end - 1] {
            BranchOutcome::Searched(Some(range), _) => Some(hull(before, range)),
            _ => before,
        }
    }
}

/// The counts after the branches up to `end`.
pub open spec fn summary_of(
    outcomes: Seq<BranchOutcome>,
    end: int,
    grid_len: int,
) -> ThetaSearchSummary
    decreases end,
{
    if end <= 0 {
        ThetaSearchSummary::empty_spec()
    } else {
        let before = summary_of(outcomes, end - 1, grid_len);
        match outcomes[end - 1] {
            BranchOutcome::Skipped => before.skipped(),
            BranchOutcome::Failed(_) => before,
            BranchOutcome::Searched(range, diagnostics) => before.recorded(
                range,
                diagnostics,
                grid_len,
            ),
        }
    }
}

/// Whether a branch ends the search: it failed, or it accepts the whole grid.
pub open spec fn ends_search(outcome: BranchOutcome, grid_len: int) -> bool {
    match outcome {
        BranchOutcome::Skipped => false,
        BranchOutcome::Failed(_) => true,
        BranchOutcome::Searched(range, _) => range is Some && covers_grid(
            range->Some_0,
            grid_len,
        ),
    }
}

/// The confidence set that the outcomes of the branches lead to.
pub open spec fn set_of(
    outcomes: Seq<BranchOutcome>,
    grid: Seq<Real>,
    empty: HonestError,
) -> Result<
    HonestConditionalConfidenceSet,
    HonestError,
> {
    let len = grid.len() as int;
    if outcomes.len() > 0 && ends_search(outcomes.last(), len) {
        match outcomes.last() {
            BranchOutcome::Failed(message) => Err(HonestError::Numerical { message }),
            _ => Ok(HonestConditionalConfidenceSet { lb: grid[0], ub: grid[len - 1] }),
        }
    } else {
        match merged_range(outcomes, outcomes.len() as int) {
            None => Err(empty),
            Some(range) => Ok(
                HonestConditionalConfidenceSet {
                    lb: grid[range.lower_idx as int],
                    ub: grid[range.upper_idx as int],
                },
            ),
        }
    }
}

/// The counts that the outcomes of the branches lead to.
pub open spec fn summary_after(outcomes: Seq<BranchOutcome>, grid_len: int) -> ThetaSearchSummary {
    let summary = summary_of(outcomes, outcomes.len() as int, grid_len);
    if outcomes.len() > 0 && outcomes.last() is Searched && ends_search(
        outcomes.last(),
        grid_len,
    ) {
        ThetaSearchSummary { early_full_grid_exit: true, ..summary }
    } else {
        summary
    }
}

/// The value from which a branch is searched: the estimate where the identified
/// set of the branch holds it, else the middle of that set.
pub open spec fn anchor_value<A: StudyArithmetic>(
    estimate: Real,
    set: HonestIdentifiedSet,
    numbers: A,
    value: Real,
) -> bool {
    if set.lb.le(estimate) && estimate.le(set.ub) {
        value == estimate
    } else {
        numbers.halves(set.lb, set.ub, value)
    }
}

/// Whether `idx` is the index from which a branch is searched, given the
/// distances of the grid points from a value.
pub open spec fn anchored<A: StudyArithmetic>(
    estimate: Real,
    set: HonestIdentifiedSet,
    numbers: A,
    grid: Vec<Real>,
    value: Real,
    gaps: Vec<Real>,
    idx: int,
) -> bool {
    &&& anchor_value(estimate, set, numbers, value)
    &&& numbers.lies_off(grid, value, gaps)
    &&& if gaps.len() == 0 {
        idx == 0
    } else {
        adaptive_grid::nearest_index(gaps@, idx)
    }
}

/// Index from which a branch is searched.
pub fn branch_anchor_idx<A: StudyArithmetic>(
    original_estimate: Real,
    identified: HonestIdentifiedSet,
    numbers: &A,
    grid: &Vec<Real>,
) -> (idx: usize)
    requires
        numbers.ready(),
    ensures
        exists|value: Real, gaps: Vec<Real>| #[trigger]
            anchored(
                original_estimate,
                identified,
                *numbers,
                *grid,
                value,
                gaps,
                idx as int,
            ),
{
    let value = if identified.lb.at_most(original_estimate) && original_estimate.at_most(
        identified.ub,
    ) {
        original_estimate
    } else {
        numbers.middle(identified.lb, identified.ub)
    };
    let gaps = numbers.distances(grid, value);
    let idx: usize = nearest_grid_index(gaps.as_slice());
    assert(anchored(
        original_estimate,
        identified,
        *numbers,
        *grid,
        value,
        gaps,
        idx as int,
    ));
    idx
}

/// Whether `outcome` is what a search of one branch makes of `answers`, and
/// `answers` are those of the branch's test wherever it was asked.
pub open spec fn branch_explains<E: TestArithmetic>(
    answers: Seq<Result<bool, String>>,
    tests: BranchTests<'_, E>,
    branch: usize,
    lf_cv: Real,
    grid: Seq<Real>,
    anchor: int,
    outcome: Result<(Option<AcceptedGridRange>, AdaptiveGridDiagnostics), String>,
) -> bool {
    &&& answers.len() == grid.len()
    &&& forall|i: int|
        0 <= i < grid.len() && #[trigger] adaptive_grid::until_error(
            answers,
            adaptive_grid::all_queries(answers, anchor),
        ).contains(i) ==> tests.decides(branch, lf_cv, grid[i], answers[i])
    &&& outcome == adaptive_grid::adaptive_outcome(answers, anchor)
}

spec fn can_test<E: TestArithmetic>(
    tests: &BranchTests<'_, E>,
    branch: usize,
    lf_cv: Real,
    theta: Real,
) -> bool {
    tests.ready(branch + 1)
}

spec fn tests_as<E: TestArithmetic>(
    tests: &BranchTests<'_, E>,
    branch: usize,
    lf_cv: Real,
    theta: Real,
    accepted: Result<bool, String>,
) -> bool {
    tests.decides(branch, lf_cv, theta, accepted)
}

/// The accepted part of the grid in one branch.
pub fn compute_relative_magnitude_branch_accepted_range_adaptive<E: TestArithmetic>(
    grid: &[Real],
    anchor_idx: usize,
    branch: usize,
    lf_cv: Real,
    tests: &BranchTests<'_, E>,
) -> (outcome: Result<
    (Option<AcceptedGridRange>, AdaptiveGridDiagnostics),
    String,
>)
    requires
        grid.len() > 0,
        tests.ready(branch + 1),
    ensures
        exists|answers: Seq<Result<bool, String>>| #[trigger]
            branch_explains(
                answers,
                *tests,
                branch,
                lf_cv,
                grid@,
                adaptive_grid::clamped_anchor(anchor_idx as int, grid.len() as int),
                outcome,
            ),
{
    let test = |theta: Real| -> (accepted: Result<bool, String>)
        requires
            can_test(tests, branch, lf_cv, theta),
        ensures
            tests_as(tests, branch, lf_cv, theta, accepted),
        { tests.decide(branch, lf_cv, theta) };
    let ghost tested = test;
    let outcome = compute_accepted_grid_range_adaptive_with_diagnostics(grid, anchor_idx, test);
    proof {
        let anchor = adaptive_grid::clamped_anchor(anchor_idx as int, grid.len() as int);
        let answers = choose|answers: Seq<Result<bool, String>>| #[trigger]
            adaptive_grid::explains(answers, tested, grid@, anchor, outcome);
        assert(branch_explains(
            answers,
            *tests,
            branch,
            lf_cv,
            grid@,
            anchor,
            outcome,
        ));
    }
    outcome
}

/// The rows of one branch for one functional.
pub struct RelativeMagnitudePreparedFunctionalBranch {
    /// Coefficients of the target parameter.
    pub a_target_arp: Vec<Real>,
    /// Design of the nuisance parameters.
    pub x_arp: Vec<Vec<Real>>,
    /// Rows of the dual program.
    pub w_t: Vec<Vec<Real>>,
    /// Critical values that were computed for the branch.
    pub lf_cache: CriticalValueCache,
}

/// Whether `lf_cv` is the critical value of a branch: none without the
/// least-favorable hybrid, the remembered one where there is one, else one that
/// is computed and remembered.
pub open spec fn lf_given<E: TestArithmetic>(
    config: RelativeMagnitudeConfidenceSetConfig,
    before: Map<u64, Result<u64, String>>,
    after: Map<u64, Result<u64, String>>,
    tests: BranchTests<'_, E>,
    branch: usize,
    lf_cv: Result<Real, String>,
) -> bool {
    let key = config.hybrid_kappa.cache_key_spec();
    match config.hybrid {
        RelativeMagnitudeHybrid::ArpOnly => {
            &&& lf_cv == Ok::<Real, String>(Real::infinity_spec())
            &&& after == before
        },
        RelativeMagnitudeHybrid::LeastFavorable => if before.contains_key(key) {
            &&& lf_cv == cv_cache::as_real(before[key])
            &&& after == before
        } else {
            &&& tests.limits(branch, lf_cv)
            &&& lf_cv == cv_cache::as_real(after[key])
            &&& after == before.insert(key, after[key])
        },
    }
}

spec fn can_compute<E: TestArithmetic>(tests: &BranchTests<'_, E>, branch: usize) -> bool {
    tests.ready(branch + 1)
}

spec fn computes<E: TestArithmetic>(
    tests: &BranchTests<'_, E>,
    branch: usize,
    cv: Result<Real, String>,
) -> bool {
    tests.limits(branch, cv)
}

impl RelativeMagnitudePreparedFunctionalBranch {
    /// The critical value of the branch under a hybrid.
    pub fn critical_value<E: TestArithmetic>(
        &mut self,
        config: RelativeMagnitudeConfidenceSetConfig,
        branch: usize,
        tests: &BranchTests<'_, E>,
    ) -> (lf_cv: Result<Real, String>)
        requires
            tests.ready(branch + 1),
        ensures
            final(self).a_target_arp == old(self).a_target_arp,
            final(self).x_arp == old(self).x_arp,
            final(self).w_t == old(self).w_t,
            lf_given(
                config,
                old(self).lf_cache@,
                final(self).lf_cache@,
                *tests,
                branch,
                lf_cv,
            ),
    {
        match config.hybrid {
            RelativeMagnitudeHybrid::ArpOnly => Ok(Real::infinity()),
            RelativeMagnitudeHybrid::LeastFavorable => {
                let make = || -> (cv: Result<Real, String>)
                    requires
                        can_compute(tests, branch),
                    ensures
                        computes(tests, branch, cv),
                    { tests.critical(branch) };
                self.lf_cache.least_favorable_cv(config.hybrid_kappa, make)
            },
        }
    }
}

/// How the search of one branch went.
pub struct BranchRun {
    /// Critical value of the branch.
    pub lf_cv: Result<Real, String>,
    /// Value from which the branch was searched.
    pub value: Real,
    /// Distances of the grid points from it.
    pub gaps: Vec<Real>,
    /// Index from which the branch was searched.
    pub anchor: usize,
    /// Answers of the branch's test.
    pub answers: Seq<Result<bool, String>>,
    /// What became of the branch.
    pub outcome: BranchOutcome,
}

impl BranchRun {
    /// Whether the search of a branch went like this.
    pub open spec fn explained<
        A: StudyArithmetic,
        E: TestArithmetic,
    >(
        self,
        config: RelativeMagnitudeConfidenceSetConfig,
        estimate: Real,
        grid: Vec<Real>,
        set: Option<HonestIdentifiedSet>,
        branch: usize,
        before: Map<u64, Result<u64, String>>,
        after: Map<u64, Result<u64, String>>,
        numbers: A,
        tests: BranchTests<'_, E>,
    ) -> bool {
        match set {
            None => self.outcome == BranchOutcome::Skipped && after == before,
            Some(identified) => {
                &&& lf_given(config, before, after, tests, branch, self.lf_cv)
                &&& match self.lf_cv {
                    Err(message) => self.outcome == BranchOutcome::Failed(message),
                    Ok(cv) => {
                        &&& anchored(
                            estimate,
                            identified,
                            numbers,
                            grid,
                            self.value,
                            self.gaps,
                            self.anchor as int,
                        )
                        &&& branch_explains(
                            self.answers,
                            tests,
                            branch,
                            cv,
                            grid@,
                            adaptive_grid::clamped_anchor(self.anchor as int, grid.len() as int),
                            self.searched(grid.len() as int),
                        )
                        &&& self.outcome == (match self.searched(grid.len() as int) {
                            Err(message) => BranchOutcome::Failed(message),
                            Ok((range, diagnostics)) => BranchOutcome::Searched(
                                range,
                                diagnostics,
                            ),
                        })
                    },
                }
            },
        }
    }

    /// What the search made of the answers.
    pub open spec fn searched(self, grid_len: int) -> Result<
        (Option<AcceptedGridRange>, AdaptiveGridDiagnostics),
        String,
    > {
        adaptive_grid::adaptive_outcome(
            self.answers,
            adaptive_grid::clamped_anchor(self.anchor as int, grid_len),
        )
    }
}

/// The outcomes of a run of branches.
pub open spec fn outcomes_of(runs: Seq<BranchRun>) -> Seq<BranchOutcome> {
    Seq::new(runs.len(), |i: int| runs[i].outcome)
}

fn search_branch<
    A: StudyArithmetic,
    E: TestArithmetic,
>(
    config: RelativeMagnitudeConfidenceSetConfig,
    estimate: Real,
    grid: &Vec<Real>,
    set: Option<HonestIdentifiedSet>,
    branch: usize,
    functional: &mut RelativeMagnitudePreparedFunctionalBranch,
    numbers: &A,
    tests: &BranchTests<'_, E>,
) -> (out: (BranchOutcome, Ghost<BranchRun>))
    requires
        grid.len() > 0,
        numbers.ready(),
        tests.ready(branch + 1),
    ensures
        final(functional).a_target_arp == old(functional).a_target_arp,
        final(functional).x_arp == old(functional).x_arp,
        final(functional).w_t == old(functional).w_t,
        out.0 == out.1@.outcome,
        out.1@.explained(
            config,
            estimate,
            *grid,
            set,
            branch,
            old(functional).lf_cache@,
            final(functional).lf_cache@,
            *numbers,
            *tests,
        ),
{
    let ghost mut run: BranchRun = arbitrary();
    let identified = match set {
        None => {
            let outcome = BranchOutcome::Skipped;
            proof {
                run.outcome = outcome;
            }
            return (outcome, Ghost(run));
        },
        Some(identified) => identified,
    };
    let lf_cv = functional.critical_value(config, branch, tests);
    proof {
        run.lf_cv = lf_cv;
    }
    let cv = match lf_cv {
        Err(message) => {
            let outcome = BranchOutcome::Failed(message);
            proof {
                run.outcome = outcome;
            }
            return (outcome, Ghost(run));
        },
        Ok(cv) => cv,
    };
    let anchor: usize = branch_anchor_idx(estimate, identified, numbers, grid);
    proof {
        let (value, gaps) = choose|value: Real, gaps: Vec<Real>| #[trigger]
            anchored(
                estimate,
                identified,
                *numbers,
                *grid,
                value,
                gaps,
                anchor as int,
            );
        run.value = value;
        run.gaps = gaps;
        run.anchor = anchor;
    }
    let searched = compute_relative_magnitude_branch_accepted_range_adaptive(
        grid.as_slice(),
        anchor,
        branch,
        cv,
        tests,
    );
    proof {
        let answers = choose|answers: Seq<Result<bool, String>>| #[trigger]
            branch_explains(
                answers,
                *tests,
                branch,
                cv,
                grid@,
                adaptive_grid::clamped_anchor(anchor as int, grid.len() as int),
                searched,
            );
        run.answers = answers;
        assert(run.searched(grid.len() as int) == searched);
    }
    let outcome = match searched {
        Err(message) => BranchOutcome::Failed(message),
        Ok((range, diagnostics)) => BranchOutcome::Searched(range, diagnostics),
    };
    proof {
        run.outcome = outcome;
    }
    (outcome, Ghost(run))
}

/// The remembered critical values of a list of branches.
pub open spec fn caches(functionals: Seq<RelativeMagnitudePreparedFunctionalBranch>) -> Seq<
    Map<u64, Result<u64, String>>,
> {
    Seq::new(functionals.len(), |i: int| functionals[i].lf_cache@)
}

/// Whether two lists of branches differ in what they remember alone.
pub open spec fn same_rows(
    left: Seq<RelativeMagnitudePreparedFunctionalBranch>,
    right: Seq<RelativeMagnitudePreparedFunctionalBranch>,
) -> bool {
    &&& left.len() == right.len()
    &&& forall|i: int|
        #![trigger left[i]]
        #![trigger right[i]]
        0 <= i < left.len() ==> left[i].a_target_arp == right[i].a_target_arp && left[i].x_arp
            == right[i].x_arp && left[i].w_t == right[i].w_t
}

/// Whether the branches were searched like this, in order, and nothing was
/// remembered for a branch that was not reached.
pub open spec fn runs_explained<
    A: StudyArithmetic,
    E: TestArithmetic,
>(
    runs: Seq<BranchRun>,
    config: RelativeMagnitudeConfidenceSetConfig,
    estimate: Real,
    grid: Vec<Real>,
    sets: Seq<Option<HonestIdentifiedSet>>,
    before: Seq<Map<u64, Result<u64, String>>>,
    after: Seq<Map<u64, Result<u64, String>>>,
    numbers: A,
    tests: BranchTests<'_, E>,
) -> bool {
    &&& runs.len() <= sets.len()
    &&& before.len() == sets.len()
    &&& after.len() == sets.len()
    &&& forall|i: int|
        0 <= i < runs.len() ==> (#[trigger] runs[i]).explained(
            config,
            estimate,
            grid,
            sets[i],
            i as usize,
            before[i],
            after[i],
            numbers,
            tests,
        )
    &&& forall|i: int| runs.len() <= i < sets.len() ==> #[trigger] after[i] == before[i]
    &&& forall|i: int|
        0 <= i < runs.len() - 1 ==> !ends_search((#[trigger] runs[i]).outcome, grid.len() as int)
}

/// Whether a run of branches is complete: its last branch ends the search, or
/// every branch was reached.
pub open spec fn runs_complete(runs: Seq<BranchRun>, count: int, grid_len: int) -> bool {
    ||| runs.len() == count
    ||| runs.len() > 0 && ends_search(runs.last().outcome, grid_len)
}

proof fn searched_range_fits(
    answers: Seq<Result<bool, String>>,
    anchor: int,
    range: AcceptedGridRange,
    diagnostics: AdaptiveGridDiagnostics,
)
    requires
        0 <= anchor < answers.len() <= usize::MAX,
        adaptive_grid::adaptive_outcome(answers, anchor) == Ok::<
            (Option<AcceptedGridRange>, AdaptiveGridDiagnostics),
            String,
        >((Some(range), diagnostics)),
    ensures
        range.lower_idx < answers.len(),
        range.upper_idx < answers.len(),
{
    adaptive_grid::returned_range_has_sharp_ends(answers, anchor);
}

/// Outcomes of later branches leave the merge of the earlier ones as it is.
pub proof fn prefix_keeps_merge(
    outcomes: Seq<BranchOutcome>,
    more: BranchOutcome,
    end: int,
    len: int,
)
    requires
        0 <= end <= outcomes.len(),
    ensures
        merged_range(outcomes.push(more), end) == merged_range(outcomes, end),
        summary_of(outcomes.push(more), end, len) == summary_of(outcomes, end, len),
    decreases end,
{
    if end > 0 {
        prefix_keeps_merge(outcomes, more, end - 1, len);
        assert(outcomes.push(more)[end - 1] == outcomes[end - 1]);
    }
}

/// The merged range covers what each branch accepts.
pub proof fn merged_range_covers_every_branch(
    outcomes: Seq<BranchOutcome>,
    end: int,
    i: int,
    range: AcceptedGridRange,
    diagnostics: AdaptiveGridDiagnostics,
)
    requires
        0 <= i < end <= outcomes.len(),
        outcomes[i] == BranchOutcome::Searched(Some(range), diagnostics),
    ensures
        merged_range(outcomes, end) matches Some(merged) && merged.lower_idx <= range.lower_idx
            && range.upper_idx <= merged.upper_idx,
    decreases end,
{
    if i < end - 1 {
        merged_range_covers_every_branch(outcomes, end - 1, i, range, diagnostics);
    }
}

/// Searches the branches in order and merges what they accept.
///
/// A branch that no path of violations meets is left out; one that accepts the
/// whole grid ends the search, and so does the first failure.
pub fn search_branches<
    A: StudyArithmetic,
    E: TestArithmetic,
>(
    config: RelativeMagnitudeConfidenceSetConfig,
    estimate: Real,
    grid: &Vec<Real>,
    sets: &[Option<HonestIdentifiedSet>],
    functionals: &mut Vec<RelativeMagnitudePreparedFunctionalBranch>,
    numbers: &A,
    tests: &BranchTests<'_, E>,
    empty: HonestError,
) -> (out: (ThetaSearchSummary, Result<HonestConditionalConfidenceSet, HonestError>))
    requires
        grid.len() > 0,
        old(functionals).len() == sets.len(),
        numbers.ready(),
        tests.ready(sets.len() as int),
    ensures
        same_rows(old(functionals)@, final(functionals)@),
        exists|runs: Seq<BranchRun>| #[trigger]
            runs_explained(
                runs,
                config,
                estimate,
                *grid,
                sets@,
                caches(old(functionals)@),
                caches(final(functionals)@),
                *numbers,
                *tests,
            ) && runs_complete(runs, sets.len() as int, grid.len() as int) && out.1 == set_of(
                outcomes_of(runs),
                grid@,
                empty,
            ) && out.0 == summary_after(outcomes_of(runs), grid.len() as int),
{
    let ghost start = functionals@;
    let ghost mut runs: Seq<BranchRun> = Seq::empty();
    let mut merged: Option<AcceptedGridRange> = None;
    let mut summary = ThetaSearchSummary::empty();
    let mut i: usize = 0;
    while i < sets.len()
        invariant
            i <= sets.len(),
            grid.len() > 0,
            start == old(functionals)@,
            functionals.len() == sets.len(),
            start.len() == sets.len(),
            same_rows(start, functionals@),
            runs.len() == i,
            runs_explained(
                runs,
                config,
                estimate,
                *grid,
                sets@,
                caches(start),
                caches(functionals@),
                *numbers,
                *tests,
            ),
            runs.len() > 0 ==> !ends_search(runs.last().outcome, grid.len() as int),
            merged == merged_range(outcomes_of(runs), i as int),
            summary == summary_of(outcomes_of(runs), i as int, grid.len() as int),
            merged is Some ==> merged->Some_0.lower_idx < grid.len() && merged->Some_0.upper_idx
                < grid.len(),
            numbers.ready(),
            tests.ready(sets.len() as int),
        decreases sets.len() - i,
    {
        let ghost previous = functionals@;
        let (outcome, Ghost(run)) = search_branch(
            config,
            estimate,
            grid,
            sets[i],
            i,
            &mut functionals[i],
            numbers,
            tests,
        );
        let ghost longer = runs.push(run);
        proof {
            assert(caches(functionals@)[i as int] == functionals@[i as int].lf_cache@);
            assert(caches(previous)[i as int] == caches(start)[i as int]);
            assert forall|k: int| 0 <= k < longer.len() implies (#[trigger] longer[k]).explained(
                config,
                estimate,
                *grid,
                sets@[k],
                k as usize,
                caches(start)[k],
                caches(functionals@)[k],
                *numbers,
                *tests,
            ) by {
                if k < i {
                    assert(longer[k] == runs[k]);
                    assert(caches(functionals@)[k] == caches(previous)[k]);
                }
            }
            assert forall|k: int| 0 <= k < longer.len() - 1 implies !ends_search(
                (#[trigger] longer[k]).outcome,
                grid.len() as int,
            ) by {
                assert(longer[k] == runs[k]);
            }
            assert forall|k: int| longer.len() <= k < sets.len() implies #[trigger] caches(
                functionals@,
            )[k] == caches(start)[k] by {
                assert(caches(previous)[k] == caches(start)[k]);
            }
            assert(outcomes_of(longer) =~= outcomes_of(runs).push(outcome));
            prefix_keeps_merge(outcomes_of(runs), outcome, i as int, grid.len() as int);
            assert(outcomes_of(longer).last() == outcome);
            assert(longer.last() == run);
            if let BranchOutcome::Searched(Some(range), diagnostics) = outcome {
                searched_range_fits(
                    run.answers,
                    adaptive_grid::clamped_anchor(run.anchor as int, grid.len() as int),
                    range,
                    diagnostics,
                );
            }
            runs = longer;
            assert(runs_explained(
                runs,
                config,
                estimate,
                *grid,
                sets@,
                caches(old(functionals)@),
                caches(functionals@),
                *numbers,
                *tests,
            ));
            assert(outcomes_of(runs).len() == i + 1);
            assert(outcomes_of(runs)[i as int] == outcome);
            assert(summary_of(outcomes_of(runs), i + 1, grid.len() as int) == (match outcome {
                BranchOutcome::Skipped => summary.skipped(),
                BranchOutcome::Failed(_) => summary,
                BranchOutcome::Searched(range, diagnostics) => summary.recorded(
                    range,
                    diagnostics,
                    grid.len() as int,
                ),
            }));
        }
        match outcome {
            BranchOutcome::Skipped => {
                summary.skip();
            },
            BranchOutcome::Failed(message) => {
                return (summary, Err(HonestError::Numerical { message }));
            },
            BranchOutcome::Searched(range, diagnostics) => {
                summary.record(range, diagnostics, grid.len());
                if let Some(range) = range {
                    if is_full_grid_range(range, grid.len()) {
                        summary.early_full_grid_exit = true;
                        return (
                            summary,
                            Ok(
                                HonestConditionalConfidenceSet {
                                    lb: grid[0],
                                    ub: grid[grid.len() - 1],
                                },
                            ),
                        );
                    }
                    merge_accepted_range(&mut merged, range);
                }
            },
        }
        i = i + 1;
    }
    match merged {
        None => (summary, Err(empty)),
        Some(range) => (
            summary,
            Ok(
                HonestConditionalConfidenceSet {
                    lb: grid[range.lower_idx],
                    ub: grid[range.upper_idx],
                },
            ),
        ),
    }
}

/// Test inversion in a branch: the ends of its accepted range are values that
/// its conditional test keeps, and the values of the grid just outside are ones
/// that it rejects; without a range it rejects every value of the grid.
pub proof fn the_range_of_a_branch_inverts_its_test<E: TestArithmetic>(
    answers: Seq<Result<bool, String>>,
    tests: BranchTests<'_, E>,
    branch: usize,
    lf_cv: Real,
    grid: Seq<Real>,
    anchor: int,
    range: Option<AcceptedGridRange>,
    diagnostics: AdaptiveGridDiagnostics,
)
    requires
        0 <= anchor < grid.len() <= usize::MAX,
        branch_explains(answers, tests, branch, lf_cv, grid, anchor, Ok((range, diagnostics))),
    ensures
        match range {
            Some(range) => {
                let lower = range.lower_idx as int;
                let upper = range.upper_idx as int;
                &&& 0 <= lower <= upper < grid.len()
                &&& tests.decides(branch, lf_cv, grid[lower], Ok(true))
                &&& tests.decides(branch, lf_cv, grid[upper], Ok(true))
                &&& lower == 0 || tests.decides(branch, lf_cv, grid[lower - 1], Ok(false))
                &&& upper + 1 == grid.len() || tests.decides(
                    branch,
                    lf_cv,
                    grid[upper + 1],
                    Ok(false),
                )
            },
            None => forall|i: int|
                0 <= i < grid.len() ==> tests.decides(
                    branch,
                    lf_cv,
                    #[trigger] grid[i],
                    Ok(false),
                ),
        },
{
    adaptive_grid::a_range_rests_on_answered_questions(answers, anchor);
    if range is None {
        let asked = adaptive_grid::until_error(
            answers,
            adaptive_grid::all_queries(answers, anchor),
        );
        assert forall|i: int| 0 <= i < grid.len() implies tests.decides(
            branch,
            lf_cv,
            #[trigger] grid[i],
            Ok(false),
        ) by {
            assert(asked.contains(i));
        }
    }
}

/// Whether a branch accepts a range that begins at `idx`.
pub open spec fn begins_at(outcome: BranchOutcome, idx: usize) -> bool {
    outcome matches BranchOutcome::Searched(Some(range), _) && range.lower_idx == idx
}

/// Whether a branch accepts a range that ends at `idx`.
pub open spec fn ends_at(outcome: BranchOutcome, idx: usize) -> bool {
    outcome matches BranchOutcome::Searched(Some(range), _) && range.upper_idx == idx
}

/// Each end of the merged range is an end of what some branch accepts.
pub proof fn merged_ends_come_from_branches(outcomes: Seq<BranchOutcome>, end: int)
    requires
        0 <= end <= outcomes.len(),
        merged_range(outcomes, end) is Some,
    ensures
        exists|i: int|
            0 <= i < end && #[trigger] begins_at(
                outcomes[i],
                merged_range(outcomes, end)->0.lower_idx,
            ),
        exists|i: int|
            0 <= i < end && #[trigger] ends_at(
                outcomes[i],
                merged_range(outcomes, end)->0.upper_idx,
            ),
    decreases end,
{
    if end > 0 {
        let merged = merged_range(outcomes, end)->0;
        let before = merged_range(outcomes, end - 1);
        if before is Some {
            merged_ends_come_from_branches(outcomes, end - 1);
        }
        if !begins_at(outcomes[end - 1], merged.lower_idx) {
            assert(before is Some && before->0.lower_idx == merged.lower_idx);
        }
        if !ends_at(outcomes[end - 1], merged.upper_idx) {
            assert(before is Some && before->0.upper_idx == merged.upper_idx);
        }
    }
}

/// Test inversion over the branches: a confidence set begins and ends with a
/// value that the conditional test of some branch keeps, at the critical value
/// of that branch.
pub proof fn a_confidence_set_ends_at_kept_values<
    A: StudyArithmetic,
    E: TestArithmetic,
>(
    runs: Seq<BranchRun>,
    config: RelativeMagnitudeConfidenceSetConfig,
    estimate: Real,
    grid: Vec<Real>,
    sets: Seq<Option<HonestIdentifiedSet>>,
    before: Seq<Map<u64, Result<u64, String>>>,
    after: Seq<Map<u64, Result<u64, String>>>,
    numbers: A,
    tests: BranchTests<'_, E>,
    empty: HonestError,
    found: HonestConditionalConfidenceSet,
)
    requires
        grid.len() > 0,
        sets.len() <= usize::MAX,
        runs_explained(
            runs,
            config,
            estimate,
            grid,
            sets,
            before,
            after,
            numbers,
            tests,
        ),
        set_of(outcomes_of(runs), grid@, empty) == Ok::<
            HonestConditionalConfidenceSet,
            HonestError,
        >(found),
    ensures
        exists|i: usize, lf_cv: Real|
            i < runs.len() && runs[i as int].lf_cv == Ok::<Real, String>(lf_cv)
                && #[trigger] tests.decides(i, lf_cv, found.lb, Ok(true)),
        exists|i: usize, lf_cv: Real|
            i < runs.len() && runs[i as int].lf_cv == Ok::<Real, String>(lf_cv)
                && #[trigger] tests.decides(i, lf_cv, found.ub, Ok(true)),
{
    let outcomes = outcomes_of(runs);
    let len = grid.len() as int;
    let ended = outcomes.len() > 0 && ends_search(outcomes.last(), len);
    if !ended {
        merged_ends_come_from_branches(outcomes, outcomes.len() as int);
    }
    let merged = merged_range(outcomes, outcomes.len() as int);
    let first = if ended {
        outcomes.len() - 1
    } else {
        choose|i: int|
            0 <= i < outcomes.len() && #[trigger] begins_at(outcomes[i], merged->0.lower_idx)
    };
    let last = if ended {
        outcomes.len() - 1
    } else {
        choose|i: int|
            0 <= i < outcomes.len() && #[trigger] ends_at(outcomes[i], merged->0.upper_idx)
    };
    let (low, high) = (runs[first], runs[last]);
    assert(outcomes[first] == low.outcome && outcomes[last] == high.outcome);
    the_range_of_a_branch_inverts_its_test(
        low.answers,
        tests,
        first as usize,
        low.lf_cv->Ok_0,
        grid@,
        adaptive_grid::clamped_anchor(low.anchor as int, len),
        low.searched(len)->Ok_0.0,
        low.searched(len)->Ok_0.1,
    );
    the_range_of_a_branch_inverts_its_test(
        high.answers,
        tests,
        last as usize,
        high.lf_cv->Ok_0,
        grid@,
        adaptive_grid::clamped_anchor(high.anchor as int, len),
        high.searched(len)->Ok_0.0,
        high.searched(len)->Ok_0.1,
    );
    assert(tests.decides(first as usize, low.lf_cv->Ok_0, found.lb, Ok(true)));
    assert(tests.decides(last as usize, high.lf_cv->Ok_0, found.ub, Ok(true)));
}

} // verus!
