//! The sets that the assessments of an event study rest on.

use crate::branches::RelativeMagnitudeFamily;
use crate::constraints::SmoothnessMomentSystem;
use crate::errors::HonestError;
use crate::input;
use crate::input::HonestEventStudyInput;
use crate::number::Real;
use crate::prepared;
use crate::prepared::compute_original_confidence_set;
use crate::relative_magnitude;
use crate::relative_magnitude::{
    compute_relative_magnitude_family_conditional_cs_with_config,
    compute_relative_magnitude_family_conditional_cs_with_precomputed_sets,
    compute_relative_magnitude_family_identified_set, ConfidenceRun,
};
use crate::smoothness;
use crate::smoothness::{
    compute_smoothness_family_confidence_set, compute_smoothness_family_identified_set,
    pre_period_slope_changes, pre_periods_satisfy_smoothness_bound, LinearRun, SetRun,
    SmoothnessFamily,
};
use crate::smoothness_intervals;
use crate::smoothness_intervals::{
    compute_smoothness_flci_with_config, OptimalRun, SmoothnessFlciConfig, SmoothnessFlciProblem,
    SmoothnessFlciResult,
};
use crate::study::StudyArithmetic;
use crate::types::{
    HonestConditionalConfidenceSet, HonestIdentifiedSet, HonestOriginalConfidenceSet,
    InferenceConfig, RelativeMagnitudeConfidenceSetConfig, SmoothnessConfidenceSetConfig,
};
use vstd::prelude::*;

verus! {

/// Whether the periods of an event study are few enough to be counted.
pub open spec fn countable(data: HonestEventStudyInput) -> bool {
    &&& data.pre_periods@.len() < i64::MAX
    &&& 4 * data.total() + 4 <= usize::MAX
}

/// What is wrong with the request for a confidence set under parallel trends,
/// if anything: the input or the weights.
pub open spec fn original_fault(data: HonestEventStudyInput, weights: Seq<Real>) -> Option<
    HonestError,
> {
    if data.fault() is Some {
        data.fault()
    } else {
        input::weights_fault(weights, data.post_periods@.len() as int, false)
    }
}

/// The sets of one functional of an event study.
pub trait FunctionalSets {
    /// Whether the sets of an event study can be computed.
    spec fn ready(&self, data: HonestEventStudyInput) -> bool;

    /// Whether `set` is a confidence set under parallel trends.
    spec fn is_original(
        &self,
        data: HonestEventStudyInput,
        weights: Seq<Real>,
        inference: InferenceConfig,
        set: Result<HonestOriginalConfidenceSet, HonestError>,
    ) -> bool;

    /// Whether `set` is an identified set under a relative-magnitude
    /// restriction.
    spec fn is_magnitude_identified(
        &self,
        family: RelativeMagnitudeFamily,
        data: HonestEventStudyInput,
        weights: Seq<Real>,
        mbar: Real,
        set: Result<HonestIdentifiedSet, HonestError>,
    ) -> bool;

    /// Whether `set` is a confidence set under a relative-magnitude
    /// restriction.
    spec fn is_magnitude_confidence(
        &self,
        family: RelativeMagnitudeFamily,
        data: HonestEventStudyInput,
        weights: Seq<Real>,
        mbar: Real,
        inference: InferenceConfig,
        config: RelativeMagnitudeConfidenceSetConfig,
        set: Result<HonestConditionalConfidenceSet, HonestError>,
    ) -> bool;

    /// Whether `set` is a confidence set under the base restriction, given the
    /// other sets of the functional.
    spec fn is_magnitude_given(
        &self,
        data: HonestEventStudyInput,
        weights: Seq<Real>,
        mbar: Real,
        inference: InferenceConfig,
        config: RelativeMagnitudeConfidenceSetConfig,
        original: HonestOriginalConfidenceSet,
        identified: HonestIdentifiedSet,
        set: Result<HonestConditionalConfidenceSet, HonestError>,
    ) -> bool;

    /// Whether `set` is an identified set under a smoothness restriction.
    spec fn is_smoothness_identified(
        &self,
        family: SmoothnessFamily,
        data: HonestEventStudyInput,
        weights: Seq<Real>,
        m: Real,
        set: Result<HonestIdentifiedSet, HonestError>,
    ) -> bool;

    /// Whether `set` is a confidence set under a smoothness restriction.
    spec fn is_smoothness_confidence(
        &self,
        family: SmoothnessFamily,
        data: HonestEventStudyInput,
        weights: Seq<Real>,
        m: Real,
        inference: InferenceConfig,
        config: SmoothnessConfidenceSetConfig,
        set: Result<HonestConditionalConfidenceSet, HonestError>,
    ) -> bool;

    /// Whether `within` says if the slope of the pre periods respects a bound.
    spec fn is_within_bound(&self, pre: Seq<Real>, bound: Real, within: bool) -> bool;

    /// Whether `result` is the fixed-length interval of a problem.
    spec fn is_interval(
        &self,
        problem: SmoothnessFlciProblem,
        config: SmoothnessFlciConfig,
        result: Result<SmoothnessFlciResult, HonestError>,
    ) -> bool;

    /// The confidence set of a functional under parallel trends.
    fn original(
        &self,
        data: &HonestEventStudyInput,
        post_weights: &Vec<Real>,
        inference: InferenceConfig,
    ) -> (set: Result<HonestOriginalConfidenceSet, HonestError>)
        requires
            countable(*data),
            self.ready(*data),
        ensures
            self.is_original(*data, post_weights@, inference, set),
            match original_fault(*data, post_weights@) {
                Some(error) => set == Err::<HonestOriginalConfidenceSet, HonestError>(error),
                None => set is Ok,
            },
    ;

    /// The identified set of a functional under a relative-magnitude
    /// restriction.
    fn magnitude_identified(
        &self,
        family: RelativeMagnitudeFamily,
        data: &HonestEventStudyInput,
        post_weights: &Vec<Real>,
        mbar: Real,
    ) -> (set: Result<HonestIdentifiedSet, HonestError>)
        requires
            countable(*data),
            self.ready(*data),
        ensures
            self.is_magnitude_identified(family, *data, post_weights@, mbar, set),
    ;

    /// The confidence set of a functional under a relative-magnitude
    /// restriction.
    fn magnitude_confidence(
        &self,
        family: RelativeMagnitudeFamily,
        data: &HonestEventStudyInput,
        post_weights: &Vec<Real>,
        mbar: Real,
        inference: InferenceConfig,
        config: RelativeMagnitudeConfidenceSetConfig,
    ) -> (set: Result<HonestConditionalConfidenceSet, HonestError>)
        requires
            countable(*data),
            self.ready(*data),
        ensures
            self.is_magnitude_confidence(
                family,
                *data,
                post_weights@,
                mbar,
                inference,
                config,
                set,
            ),
    ;

    /// The confidence set of a functional under the base restriction, given its
    /// other sets.
    fn magnitude_given(
        &self,
        data: &HonestEventStudyInput,
        post_weights: &Vec<Real>,
        mbar: Real,
        inference: InferenceConfig,
        config: RelativeMagnitudeConfidenceSetConfig,
        original: HonestOriginalConfidenceSet,
        identified: HonestIdentifiedSet,
    ) -> (set: Result<HonestConditionalConfidenceSet, HonestError>)
        requires
            countable(*data),
            self.ready(*data),
        ensures
            self.is_magnitude_given(
                *data,
                post_weights@,
                mbar,
                inference,
                config,
                original,
                identified,
                set,
            ),
    ;

    /// The identified set of a functional under a smoothness restriction.
    fn smoothness_identified(
        &self,
        family: SmoothnessFamily,
        data: &HonestEventStudyInput,
        post_weights: &Vec<Real>,
        m: Real,
    ) -> (set: Result<HonestIdentifiedSet, HonestError>)
        requires
            countable(*data),
            data.total() > 0,
            self.ready(*data),
        ensures
            self.is_smoothness_identified(family, *data, post_weights@, m, set),
    ;

    /// The confidence set of a functional under a smoothness restriction.
    fn smoothness_confidence(
        &self,
        family: SmoothnessFamily,
        data: &HonestEventStudyInput,
        post_weights: &Vec<Real>,
        m: Real,
        inference: InferenceConfig,
        config: SmoothnessConfidenceSetConfig,
    ) -> (set: Result<HonestConditionalConfidenceSet, HonestError>)
        requires
            countable(*data),
            data.total() > 0,
            self.ready(*data),
        ensures
            self.is_smoothness_confidence(
                family,
                *data,
                post_weights@,
                m,
                inference,
                config,
                set,
            ),
    ;

    /// Whether the changes of slope among the pre periods respect a bound.
    fn within_bound(&self, data: &HonestEventStudyInput, pre: &Vec<Real>, bound: Real) -> (within:
        bool)
        requires
            self.ready(*data),
        ensures
            self.is_within_bound(pre@, bound, within),
    ;

    /// The fixed-length interval of a problem.
    fn interval(&self, problem: &SmoothnessFlciProblem, config: SmoothnessFlciConfig) -> (result:
        Result<SmoothnessFlciResult, HonestError>)
        requires
            countable(problem.input),
            problem.identified_set.bounded() ==> smoothness_intervals::fits(
                problem.input,
                problem.post_weights@,
            ),
            self.ready(problem.input),
        ensures
            self.is_interval(*problem, config, result),
    ;
}

/// The sets of an event study by its arithmetic.
pub struct StudySets<A> {
    /// The arithmetic.
    pub arithmetic: A,
}

impl<A: StudyArithmetic> FunctionalSets for StudySets<A> {
    open spec fn ready(&self, data: HonestEventStudyInput) -> bool {
        self.arithmetic.ready()
    }

    open spec fn is_original(
        &self,
        data: HonestEventStudyInput,
        weights: Seq<Real>,
        inference: InferenceConfig,
        set: Result<HonestOriginalConfidenceSet, HonestError>,
    ) -> bool {
        prepared::is_original(data, weights, inference, self.arithmetic, set)
    }

    open spec fn is_magnitude_identified(
        &self,
        family: RelativeMagnitudeFamily,
        data: HonestEventStudyInput,
        weights: Seq<Real>,
        mbar: Real,
        set: Result<HonestIdentifiedSet, HonestError>,
    ) -> bool {
        exists|
            answers: Seq<Result<Option<HonestIdentifiedSet>, HonestError>>,
            estimate: Real,
        | #[trigger]
            relative_magnitude::identified_by(
                answers,
                estimate,
                family,
                data,
                weights,
                mbar,
                self.arithmetic,
                set,
            )
    }

    open spec fn is_magnitude_confidence(
        &self,
        family: RelativeMagnitudeFamily,
        data: HonestEventStudyInput,
        weights: Seq<Real>,
        mbar: Real,
        inference: InferenceConfig,
        config: RelativeMagnitudeConfidenceSetConfig,
        set: Result<HonestConditionalConfidenceSet, HonestError>,
    ) -> bool {
        exists|run: ConfidenceRun| #[trigger]
            run.explains(
                family,
                data,
                weights,
                mbar,
                inference,
                config,
                self.arithmetic,
                set,
            )
    }

    open spec fn is_magnitude_given(
        &self,
        data: HonestEventStudyInput,
        weights: Seq<Real>,
        mbar: Real,
        inference: InferenceConfig,
        config: RelativeMagnitudeConfidenceSetConfig,
        original: HonestOriginalConfidenceSet,
        identified: HonestIdentifiedSet,
        set: Result<HonestConditionalConfidenceSet, HonestError>,
    ) -> bool {
        exists|run: ConfidenceRun| #[trigger]
            run.inverted(
                RelativeMagnitudeFamily::Base,
                data,
                weights,
                mbar,
                inference.alpha,
                config,
                original,
                identified,
                self.arithmetic,
                set,
            )
    }

    open spec fn is_smoothness_identified(
        &self,
        family: SmoothnessFamily,
        data: HonestEventStudyInput,
        weights: Seq<Real>,
        m: Real,
        set: Result<HonestIdentifiedSet, HonestError>,
    ) -> bool {
        exists|run: SetRun| #[trigger]
            run.explains(family, data, weights, m, self.arithmetic, set)
    }

    open spec fn is_smoothness_confidence(
        &self,
        family: SmoothnessFamily,
        data: HonestEventStudyInput,
        weights: Seq<Real>,
        m: Real,
        inference: InferenceConfig,
        config: SmoothnessConfidenceSetConfig,
        set: Result<HonestConditionalConfidenceSet, HonestError>,
    ) -> bool {
        exists|
            set_run: SetRun,
            identified: Result<HonestIdentifiedSet, HonestError>,
            system: SmoothnessMomentSystem,
            run: LinearRun,
        | #[trigger]
            smoothness::confidence_by(
                set_run,
                identified,
                system,
                run,
                family,
                data,
                weights,
                m,
                inference,
                config,
                self.arithmetic,
                set,
            )
    }

    open spec fn is_within_bound(&self, pre: Seq<Real>, bound: Real, within: bool) -> bool {
        exists|changes: Seq<Real>, raised: Real|
            #[trigger] smoothness::slope_changes(
                smoothness::pre_path(pre),
                self.arithmetic,
                changes,
            ) && #[trigger] self.arithmetic.raises(bound, raised) && within
                == smoothness::changes_within(changes, raised)
    }

    open spec fn is_interval(
        &self,
        problem: SmoothnessFlciProblem,
        config: SmoothnessFlciConfig,
        result: Result<SmoothnessFlciResult, HonestError>,
    ) -> bool {
        exists|
            run: OptimalRun,
            valid_level: bool,
            found: Result<Option<(Vec<Real>, Real)>, HonestError>,
        | #[trigger]
            smoothness_intervals::flci_by(
                run,
                valid_level,
                found,
                problem,
                config,
                self.arithmetic,
                result,
            )
    }

    fn original(
        &self,
        data: &HonestEventStudyInput,
        post_weights: &Vec<Real>,
        inference: InferenceConfig,
    ) -> (set: Result<HonestOriginalConfidenceSet, HonestError>) {
        compute_original_confidence_set(data, post_weights.as_slice(), inference, &self.arithmetic)
    }

    fn magnitude_identified(
        &self,
        family: RelativeMagnitudeFamily,
        data: &HonestEventStudyInput,
        post_weights: &Vec<Real>,
        mbar: Real,
    ) -> (set: Result<HonestIdentifiedSet, HonestError>) {
        compute_relative_magnitude_family_identified_set(
            data,
            post_weights.as_slice(),
            mbar,
            family,
            &self.arithmetic,
        )
    }

    fn magnitude_confidence(
        &self,
        family: RelativeMagnitudeFamily,
        data: &HonestEventStudyInput,
        post_weights: &Vec<Real>,
        mbar: Real,
        inference: InferenceConfig,
        config: RelativeMagnitudeConfidenceSetConfig,
    ) -> (set: Result<HonestConditionalConfidenceSet, HonestError>) {
        compute_relative_magnitude_family_conditional_cs_with_config(
            data,
            post_weights.as_slice(),
            mbar,
            inference,
            config,
            family,
            &self.arithmetic,
        )
    }

    fn magnitude_given(
        &self,
        data: &HonestEventStudyInput,
        post_weights: &Vec<Real>,
        mbar: Real,
        inference: InferenceConfig,
        config: RelativeMagnitudeConfidenceSetConfig,
        original: HonestOriginalConfidenceSet,
        identified: HonestIdentifiedSet,
    ) -> (set: Result<HonestConditionalConfidenceSet, HonestError>) {
        compute_relative_magnitude_family_conditional_cs_with_precomputed_sets(
            data,
            post_weights.as_slice(),
            mbar,
            inference.alpha,
            config,
            original,
            identified,
            RelativeMagnitudeFamily::Base,
            &self.arithmetic,
        )
    }

    fn smoothness_identified(
        &self,
        family: SmoothnessFamily,
        data: &HonestEventStudyInput,
        post_weights: &Vec<Real>,
        m: Real,
    ) -> (set: Result<HonestIdentifiedSet, HonestError>) {
        compute_smoothness_family_identified_set(
            data,
            post_weights.as_slice(),
            m,
            family,
            &self.arithmetic,
        )
    }

    fn smoothness_confidence(
        &self,
        family: SmoothnessFamily,
        data: &HonestEventStudyInput,
        post_weights: &Vec<Real>,
        m: Real,
        inference: InferenceConfig,
        config: SmoothnessConfidenceSetConfig,
    ) -> (set: Result<HonestConditionalConfidenceSet, HonestError>) {
        compute_smoothness_family_confidence_set(
            data,
            post_weights.as_slice(),
            m,
            family,
            inference,
            config,
            &self.arithmetic,
        )
    }

    fn within_bound(&self, data: &HonestEventStudyInput, pre: &Vec<Real>, bound: Real) -> (within:
        bool) {
        let changes = pre_period_slope_changes(pre, &self.arithmetic);
        let raised = self.arithmetic.raise(bound);
        assert(smoothness::slope_changes(smoothness::pre_path(pre@), self.arithmetic, changes@));
        pre_periods_satisfy_smoothness_bound(changes.as_slice(), raised)
    }

    fn interval(&self, problem: &SmoothnessFlciProblem, config: SmoothnessFlciConfig) -> (result:
        Result<SmoothnessFlciResult, HonestError>) {
        compute_smoothness_flci_with_config(problem, config, &self.arithmetic)
    }
}

} // verus!
