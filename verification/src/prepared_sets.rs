//! The sets of functionals over prepared branches.

use crate::branch_search::{BranchRun, RelativeMagnitudePreparedFunctionalBranch};
use crate::errors::HonestError;
use crate::functional;
use crate::functional::{
    prepare_relative_magnitude_branches, prepare_relative_magnitude_functional_branches,
    prepare_relative_magnitude_input_branches, RelativeMagnitudePreparedBranch,
    RelativeMagnitudePreparedFunctionalTransform, RelativeMagnitudePreparedInputBranch,
};
use crate::functional_sets;
use crate::functional_sets::StudySets;
use crate::grids;
use crate::grids::grid_around_identified_set;
use crate::input::HonestEventStudyInput;
use crate::branches::RelativeMagnitudeFamily;
use crate::number::Real;
use crate::moments::Moments;
use crate::prepared;
use crate::prepared::{
    compute_relative_magnitude_branch_identified_sets_with_prepared_branches,
    compute_relative_magnitude_confidence_set_for_basis_period_with_prepared_input,
    compute_relative_magnitude_confidence_set_with_prepared_functional_branches_and_identified_sets,
    PeriodRun,
};
use crate::relative_magnitude;
use crate::relative_magnitude::{
    global_identified_set_from_branch_identified_sets, target_estimate,
};
use crate::study::StudyArithmetic;
use crate::types::{
    HonestConditionalConfidenceSet, HonestIdentifiedSet, HonestOriginalConfidenceSet,
    InferenceConfig, RelativeMagnitudeConfidenceSetConfig,
};
use crate::branch_search::ThetaSearchSummary;
use vstd::prelude::*;

verus! {

/// The branches of the base restriction with the moments of an event study.
#[derive(Debug, PartialEq, Eq)]
pub struct PreparedRelativeMagnitudeBaseContext {
    /// Bound of the restriction.
    pub mbar: Real,
    /// The branches.
    pub branches: Vec<RelativeMagnitudePreparedBranch>,
    /// The moments of the branches.
    pub input_branches: Vec<RelativeMagnitudePreparedInputBranch>,
}

impl PreparedRelativeMagnitudeBaseContext {
    /// Whether the branches have one column per post period, and moments.
    pub open spec fn fits(self, num_post: int) -> bool {
        &&& self.branches.len() == self.input_branches.len()
        &&& forall|i: int|
            0 <= i < self.branches.len() ==> functional::branch_shaped(
                #[trigger] self.branches@[i],
                num_post,
            ) && self.input_branches@[i].sd_arp.len() >= self.branches@[i].rows_for_arp.len()
    }
}

/// A list or an error, as a sequence.
pub open spec fn listed<T>(made: Result<Vec<T>, HonestError>) -> Result<Seq<T>, HonestError> {
    match made {
        Ok(list) => Ok(list@),
        Err(error) => Err(error),
    }
}

/// The sets of functionals over prepared branches.
pub trait PreparedSets {
    /// Whether the sets of an event study can be computed.
    spec fn ready(&self, data: HonestEventStudyInput) -> bool;

    /// Whether `context` are the prepared branches of an event study.
    spec fn is_context(
        &self,
        data: HonestEventStudyInput,
        mbar: Real,
        context: Result<PreparedRelativeMagnitudeBaseContext, HonestError>,
    ) -> bool;

    /// Whether `rows` are the rows of the branches for a functional.
    spec fn is_functional_rows(
        &self,
        weights: Seq<Real>,
        context: PreparedRelativeMagnitudeBaseContext,
        rows: Result<Seq<RelativeMagnitudePreparedFunctionalBranch>, HonestError>,
    ) -> bool;

    /// Whether `sets` are the identified sets of the branches.
    spec fn is_branch_sets(
        &self,
        data: HonestEventStudyInput,
        weights: Seq<Real>,
        context: PreparedRelativeMagnitudeBaseContext,
        sets: Result<Seq<Option<HonestIdentifiedSet>>, HonestError>,
    ) -> bool;

    /// Whether `set` is the union of the identified sets of the branches.
    spec fn is_union(
        &self,
        data: HonestEventStudyInput,
        weights: Seq<Real>,
        sets: Seq<Option<HonestIdentifiedSet>>,
        set: HonestIdentifiedSet,
    ) -> bool;

    /// Whether `set` is what a search of the branches leads to.
    spec fn is_search(
        &self,
        weights: Seq<Real>,
        inference: InferenceConfig,
        config: RelativeMagnitudeConfidenceSetConfig,
        original: HonestOriginalConfidenceSet,
        identified: HonestIdentifiedSet,
        context: PreparedRelativeMagnitudeBaseContext,
        before: Seq<RelativeMagnitudePreparedFunctionalBranch>,
        after: Seq<RelativeMagnitudePreparedFunctionalBranch>,
        sets: Seq<Option<HonestIdentifiedSet>>,
        set: Result<HonestConditionalConfidenceSet, HonestError>,
    ) -> bool;

    /// Whether `set` is the confidence set of a post period.
    spec fn is_period(
        &self,
        data: HonestEventStudyInput,
        post_idx: usize,
        inference: InferenceConfig,
        config: RelativeMagnitudeConfidenceSetConfig,
        context: PreparedRelativeMagnitudeBaseContext,
        set: Result<HonestConditionalConfidenceSet, HonestError>,
    ) -> bool;

    /// The prepared branches of an event study.
    fn context(&self, data: &HonestEventStudyInput, mbar: Real) -> (context: Result<
        PreparedRelativeMagnitudeBaseContext,
        HonestError,
    >)
        requires
            functional_sets::countable(*data),
            self.ready(*data),
        ensures
            self.is_context(*data, mbar, context),
            context matches Ok(found) ==> found.mbar == mbar && found.fits(
                data.post_periods@.len() as int,
            ),
    ;

    /// The rows of the branches for a functional.
    fn functional_rows(
        &self,
        data: &HonestEventStudyInput,
        post_weights: &Vec<Real>,
        context: &PreparedRelativeMagnitudeBaseContext,
    ) -> (rows: Result<Vec<RelativeMagnitudePreparedFunctionalBranch>, HonestError>)
        requires
            self.ready(*data),
            post_weights.len() == data.post_periods@.len(),
            context.fits(data.post_periods@.len() as int),
        ensures
            self.is_functional_rows(post_weights@, *context, listed(rows)),
    ;

    /// The identified sets of the branches.
    fn branch_sets(
        &self,
        data: &HonestEventStudyInput,
        post_weights: &Vec<Real>,
        context: &PreparedRelativeMagnitudeBaseContext,
    ) -> (sets: Result<Vec<Option<HonestIdentifiedSet>>, HonestError>)
        requires
            functional_sets::countable(*data),
            data.shaped(),
            post_weights.len() == data.post_periods@.len(),
            self.ready(*data),
        ensures
            self.is_branch_sets(*data, post_weights@, *context, listed(sets)),
    ;

    /// The union of the identified sets of the branches.
    fn union_set(
        &self,
        data: &HonestEventStudyInput,
        post_weights: &Vec<Real>,
        sets: &Vec<Option<HonestIdentifiedSet>>,
    ) -> (set: HonestIdentifiedSet)
        requires
            data.pre_periods@.len() <= data.betahat@.len(),
            self.ready(*data),
        ensures
            self.is_union(*data, post_weights@, sets@, set),
    ;

    /// The confidence set that a search of the branches leads to.
    fn search(
        &self,
        data: &HonestEventStudyInput,
        post_weights: &Vec<Real>,
        inference: InferenceConfig,
        config: RelativeMagnitudeConfidenceSetConfig,
        original: HonestOriginalConfidenceSet,
        identified: HonestIdentifiedSet,
        context: &PreparedRelativeMagnitudeBaseContext,
        rows: &mut Vec<RelativeMagnitudePreparedFunctionalBranch>,
        sets: &Vec<Option<HonestIdentifiedSet>>,
    ) -> (set: Result<HonestConditionalConfidenceSet, HonestError>)
        requires
            self.ready(*data),
        ensures
            self.is_search(
                post_weights@,
                inference,
                config,
                original,
                identified,
                *context,
                old(rows)@,
                final(rows)@,
                sets@,
                set,
            ),
    ;

    /// The confidence set of a post period.
    fn period(
        &self,
        data: &HonestEventStudyInput,
        post_idx: usize,
        inference: InferenceConfig,
        config: RelativeMagnitudeConfidenceSetConfig,
        context: &PreparedRelativeMagnitudeBaseContext,
    ) -> (set: Result<HonestConditionalConfidenceSet, HonestError>)
        requires
            functional_sets::countable(*data),
            post_idx < data.post_periods@.len(),
            context.fits(data.post_periods@.len() as int),
            self.ready(*data),
        ensures
            self.is_period(*data, post_idx, inference, config, *context, set),
    ;
}

impl<A: StudyArithmetic> PreparedSets for StudySets<A> {
    open spec fn ready(&self, data: HonestEventStudyInput) -> bool {
        self.arithmetic.ready()
    }

    open spec fn is_context(
        &self,
        data: HonestEventStudyInput,
        mbar: Real,
        context: Result<PreparedRelativeMagnitudeBaseContext, HonestError>,
    ) -> bool {
        &&& context is Ok
        &&& context->Ok_0.mbar == mbar
        &&& functional::branches_prepared(
            context->Ok_0.branches@,
            RelativeMagnitudeFamily::Base,
            data.pre_periods@.len() as int,
            data.post_periods@.len() as int,
            self.arithmetic,
            mbar,
        )
        &&& context->Ok_0.input_branches.len() == context->Ok_0.branches.len()
        &&& forall|i: int|
            0 <= i < context->Ok_0.branches.len() ==> functional::has_moments(
                #[trigger] context->Ok_0.input_branches@[i],
                context->Ok_0.branches@[i],
                data.betahat,
                data.covariance,
                self.arithmetic,
            )
    }

    open spec fn is_functional_rows(
        &self,
        weights: Seq<Real>,
        context: PreparedRelativeMagnitudeBaseContext,
        rows: Result<Seq<RelativeMagnitudePreparedFunctionalBranch>, HonestError>,
    ) -> bool {
        exists|
            gamma: Vec<Vec<Real>>,
            inverse: Result<Vec<Vec<Real>>, String>,
            transform: Result<RelativeMagnitudePreparedFunctionalTransform, HonestError>,
        | #[trigger]
            functional::transform_of(weights, self.arithmetic, gamma, inverse, transform) && (
            match transform {
                Err(error) => rows == Err::<
                    Seq<RelativeMagnitudePreparedFunctionalBranch>,
                    HonestError,
                >(error),
                Ok(found) => rows is Ok && functional::functional_branches_of(
                    rows->Ok_0,
                    context.branches@,
                    context.input_branches@,
                    found,
                    self.arithmetic,
                ),
            })
    }

    open spec fn is_branch_sets(
        &self,
        data: HonestEventStudyInput,
        weights: Seq<Real>,
        context: PreparedRelativeMagnitudeBaseContext,
        sets: Result<Seq<Option<HonestIdentifiedSet>>, HonestError>,
    ) -> bool {
        exists|answers: Seq<Result<Option<HonestIdentifiedSet>, HonestError>>| #[trigger]
            prepared::prepared_branches_bounded(
                answers,
                context.branches@,
                data,
                weights,
                self.arithmetic,
            ) && prepared::sets_or_error(answers) == sets
    }

    open spec fn is_union(
        &self,
        data: HonestEventStudyInput,
        weights: Seq<Real>,
        sets: Seq<Option<HonestIdentifiedSet>>,
        set: HonestIdentifiedSet,
    ) -> bool {
        exists|estimate: Real| #[trigger]
            relative_magnitude::estimated(data, weights, self.arithmetic, estimate) && set
                == relative_magnitude::union_of(sets, estimate)
    }

    open spec fn is_search(
        &self,
        weights: Seq<Real>,
        inference: InferenceConfig,
        config: RelativeMagnitudeConfidenceSetConfig,
        original: HonestOriginalConfidenceSet,
        identified: HonestIdentifiedSet,
        context: PreparedRelativeMagnitudeBaseContext,
        before: Seq<RelativeMagnitudePreparedFunctionalBranch>,
        after: Seq<RelativeMagnitudePreparedFunctionalBranch>,
        sets: Seq<Option<HonestIdentifiedSet>>,
        set: Result<HonestConditionalConfidenceSet, HonestError>,
    ) -> bool {
        exists|
            grid: Vec<Real>,
            runs: Seq<BranchRun>,
            moments: Vec<Moments>,
            summary: ThetaSearchSummary,
        |
            grids::is_grid_around(original, identified, self.arithmetic, grid@)
                && #[trigger] prepared::searched_prepared(
                runs,
                moments,
                config,
                inference.alpha,
                original.estimate,
                grid,
                context.input_branches@,
                before,
                after,
                sets,
                self.arithmetic,
                (summary, set),
            )
    }

    open spec fn is_period(
        &self,
        data: HonestEventStudyInput,
        post_idx: usize,
        inference: InferenceConfig,
        config: RelativeMagnitudeConfidenceSetConfig,
        context: PreparedRelativeMagnitudeBaseContext,
        set: Result<HonestConditionalConfidenceSet, HonestError>,
    ) -> bool {
        exists|run: PeriodRun, summary: ThetaSearchSummary| #[trigger]
            run.explains(
                data,
                post_idx,
                inference,
                config,
                context.branches@,
                context.input_branches@,
                self.arithmetic,
                (summary, set),
            )
    }

    fn context(&self, data: &HonestEventStudyInput, mbar: Real) -> (context: Result<
        PreparedRelativeMagnitudeBaseContext,
        HonestError,
    >) {
        let num_pre: usize = data.num_pre_periods();
        let num_post: usize = data.num_post_periods();
        let branches = match prepare_relative_magnitude_branches(
            RelativeMagnitudeFamily::Base,
            num_pre,
            num_post,
            &self.arithmetic,
            mbar,
        ) {
            Ok(branches) => branches,
            Err(error) => {
                return Err(error);
            },
        };
        proof {
            assert forall|i: int| 0 <= i < branches.len() implies functional::branch_shaped(
                #[trigger] branches@[i],
                num_post as int,
            ) by {
                functional::prepared_branches_are_shaped(
                    branches@,
                    RelativeMagnitudeFamily::Base,
                    num_pre as int,
                    num_post as int,
                    self.arithmetic,
                    mbar,
                    i,
                );
            }
        }
        let input_branches = prepare_relative_magnitude_input_branches(
            branches.as_slice(),
            &data.betahat,
            &data.covariance,
            &self.arithmetic,
        );
        proof {
            assert forall|i: int| 0 <= i < branches.len() implies
                input_branches@[i].sd_arp.len() >= (
            #[trigger] branches@[i]).rows_for_arp.len() by {
                assert(functional::has_moments(
                    input_branches@[i],
                    branches@[i],
                    data.betahat,
                    data.covariance,
                    self.arithmetic,
                ));
            }
        }
        Ok(PreparedRelativeMagnitudeBaseContext { mbar, branches, input_branches })
    }

    fn functional_rows(
        &self,
        data: &HonestEventStudyInput,
        post_weights: &Vec<Real>,
        context: &PreparedRelativeMagnitudeBaseContext,
    ) -> (rows: Result<Vec<RelativeMagnitudePreparedFunctionalBranch>, HonestError>) {
        prepare_relative_magnitude_functional_branches(
            post_weights.as_slice(),
            context.branches.as_slice(),
            context.input_branches.as_slice(),
            &self.arithmetic,
        )
    }

    fn branch_sets(
        &self,
        data: &HonestEventStudyInput,
        post_weights: &Vec<Real>,
        context: &PreparedRelativeMagnitudeBaseContext,
    ) -> (sets: Result<Vec<Option<HonestIdentifiedSet>>, HonestError>) {
        compute_relative_magnitude_branch_identified_sets_with_prepared_branches(
            data,
            post_weights.as_slice(),
            context.branches.as_slice(),
            &self.arithmetic,
        )
    }

    fn union_set(
        &self,
        data: &HonestEventStudyInput,
        post_weights: &Vec<Real>,
        sets: &Vec<Option<HonestIdentifiedSet>>,
    ) -> (set: HonestIdentifiedSet) {
        let estimate = target_estimate(data, post_weights.as_slice(), &self.arithmetic);
        global_identified_set_from_branch_identified_sets(sets.as_slice(), estimate)
    }

    fn search(
        &self,
        data: &HonestEventStudyInput,
        post_weights: &Vec<Real>,
        inference: InferenceConfig,
        config: RelativeMagnitudeConfidenceSetConfig,
        original: HonestOriginalConfidenceSet,
        identified: HonestIdentifiedSet,
        context: &PreparedRelativeMagnitudeBaseContext,
        rows: &mut Vec<RelativeMagnitudePreparedFunctionalBranch>,
        sets: &Vec<Option<HonestIdentifiedSet>>,
    ) -> (set: Result<HonestConditionalConfidenceSet, HonestError>) {
        let grid = grid_around_identified_set(original, identified, &self.arithmetic);
        let (_summary, set) =
            compute_relative_magnitude_confidence_set_with_prepared_functional_branches_and_identified_sets(
            config,
            inference.alpha,
            original.estimate,
            &grid,
            context.input_branches.as_slice(),
            rows,
            sets.as_slice(),
            &self.arithmetic,
        );
        set
    }

    fn period(
        &self,
        data: &HonestEventStudyInput,
        post_idx: usize,
        inference: InferenceConfig,
        config: RelativeMagnitudeConfidenceSetConfig,
        context: &PreparedRelativeMagnitudeBaseContext,
    ) -> (set: Result<HonestConditionalConfidenceSet, HonestError>) {
        let (_summary, set) =
            compute_relative_magnitude_confidence_set_for_basis_period_with_prepared_input(
            data,
            post_idx,
            inference,
            config,
            context.branches.as_slice(),
            context.input_branches.as_slice(),
            &self.arithmetic,
        );
        set
    }
}

} // verus!
