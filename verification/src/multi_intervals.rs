//! Intervals of one or several functionals at a common level.

use crate::assessment;
use crate::branch_search::RelativeMagnitudePreparedFunctionalBranch;
use crate::branches::RelativeMagnitudeFamily;
use crate::calibration;
use crate::calibration::{functional_level, Levels};
use crate::errors::HonestError;
use crate::functional_sets;
use crate::functional_sets::FunctionalSets;
use crate::input;
use crate::input::{post_weights_for_functional, HonestEventStudyInput};
use crate::matrix;
use crate::matrix::{copy_matrix, copy_row};
use crate::number::Real;
use crate::prepared_sets;
use crate::prepared_sets::{PreparedRelativeMagnitudeBaseContext, PreparedSets};
use crate::smoothness::SmoothnessFamily;
use crate::smoothness_intervals;
use crate::smoothness_intervals::{
    SmoothnessFlciConfig, SmoothnessFlciProblem, SmoothnessFlciResult,
};
use crate::types;
use crate::types::{
    interval_excludes, HonestAssessment, HonestConditionalConfidenceSet, HonestIdentifiedSet,
    HonestJointPathConfig, HonestJointPathMethod, HonestMultiFlciPoint, HonestMultiFlciResult,
    HonestOriginalConfidenceSet, HonestPostFunctional, InferenceConfig,
    RelativeMagnitudeConfidenceSetConfig,
};
use vstd::prelude::*;

verus! {

// ---------------------------------------------------------------------------
// One functional
// ---------------------------------------------------------------------------

/// A functional whose least-favorable interval is wanted.
#[derive(Debug, PartialEq, Eq)]
pub struct RelativeMagnitudeFlciProblem {
    /// The event study.
    pub input: HonestEventStudyInput,
    /// Weights of the post periods.
    pub post_weights: Vec<Real>,
    /// Bound of the restriction.
    pub mbar: Real,
    /// Confidence level.
    pub inference: InferenceConfig,
    /// Confidence set under parallel trends.
    pub original: HonestOriginalConfidenceSet,
    /// Identified set.
    pub identified_set: HonestIdentifiedSet,
}

/// A least-favorable interval.
#[derive(Clone, Copy, Debug, PartialEq, Eq)]
pub struct RelativeMagnitudeFlciResult {
    /// The interval.
    pub flci: (Real, Real),
    /// Confidence interval under parallel trends.
    pub original_ci: (Real, Real),
    /// Identified set.
    pub identified_set: (Real, Real),
}

/// Whether `built` is the problem of a functional under the base
/// relative-magnitude restriction, or the error of one of its sets.
pub open spec fn is_magnitude_problem<E: FunctionalSets>(
    original: Result<HonestOriginalConfidenceSet, HonestError>,
    identified: Result<HonestIdentifiedSet, HonestError>,
    sets: E,
    data: HonestEventStudyInput,
    weights: Seq<Real>,
    mbar: Real,
    inference: InferenceConfig,
    built: Result<RelativeMagnitudeFlciProblem, HonestError>,
) -> bool {
    &&& sets.is_original(data, weights, inference, original)
    &&& match original {
        Err(error) => built == Err::<RelativeMagnitudeFlciProblem, HonestError>(error),
        Ok(measured) => {
            &&& sets.is_magnitude_identified(
                RelativeMagnitudeFamily::Base,
                data,
                weights,
                mbar,
                identified,
            )
            &&& match identified {
                Err(error) => built == Err::<RelativeMagnitudeFlciProblem, HonestError>(error),
                Ok(set) => built matches Ok(problem) && {
                    &&& problem.input.same_as(data)
                    &&& problem.post_weights@ == weights
                    &&& problem.mbar == mbar
                    &&& problem.inference == inference
                    &&& problem.original == measured
                    &&& problem.identified_set == set
                },
            }
        },
    }
}

/// The problem of a functional under the base relative-magnitude restriction.
pub fn build_relative_magnitude_flci_problem<E: FunctionalSets>(
    data: &HonestEventStudyInput,
    post_weights: &Vec<Real>,
    mbar: Real,
    inference: InferenceConfig,
    sets: &E,
) -> (built: Result<RelativeMagnitudeFlciProblem, HonestError>)
    requires
        functional_sets::countable(*data),
        sets.ready(*data),
    ensures
        exists|
            original: Result<HonestOriginalConfidenceSet, HonestError>,
            identified: Result<HonestIdentifiedSet, HonestError>,
        | #[trigger]
            is_magnitude_problem(
                original,
                identified,
                *sets,
                *data,
                post_weights@,
                mbar,
                inference,
                built,
            ),
{
    let ghost unasked: Result<HonestIdentifiedSet, HonestError> = arbitrary();
    let measured = sets.original(data, post_weights, inference);
    let ghost said = measured;
    let original = match measured {
        Err(error) => {
            assert(is_magnitude_problem(
                said,
                unasked,
                *sets,
                *data,
                post_weights@,
                mbar,
                inference,
                Err(error),
            ));
            return Err(error);
        },
        Ok(original) => original,
    };
    let found = sets.magnitude_identified(
        RelativeMagnitudeFamily::Base,
        data,
        post_weights,
        mbar,
    );
    let ghost identified = found;
    let built = match found {
        Err(error) => Err(error),
        Ok(identified_set) => Ok(
            RelativeMagnitudeFlciProblem {
                input: data.copy(),
                post_weights: copy_row(post_weights.as_slice()),
                mbar,
                inference,
                original,
                identified_set,
            },
        ),
    };
    assert(is_magnitude_problem(
        said,
        identified,
        *sets,
        *data,
        post_weights@,
        mbar,
        inference,
        built,
    ));
    built
}

/// Whether `out` is the least-favorable interval of a problem.
pub open spec fn is_magnitude_interval<E: FunctionalSets>(
    sets: E,
    problem: RelativeMagnitudeFlciProblem,
    config: RelativeMagnitudeConfidenceSetConfig,
    out: Result<RelativeMagnitudeFlciResult, HonestError>,
) -> bool {
    exists|conditional: Result<HonestConditionalConfidenceSet, HonestError>|
        #[trigger] sets.is_magnitude_confidence(
            RelativeMagnitudeFamily::Base,
            problem.input,
            problem.post_weights@,
            problem.mbar,
            problem.inference,
            config,
            conditional,
        ) && out == (match conditional {
            Err(error) => Err(error),
            Ok(set) => Ok(
                RelativeMagnitudeFlciResult {
                    flci: (set.lb, set.ub),
                    original_ci: problem.original.ci,
                    identified_set: (problem.identified_set.lb, problem.identified_set.ub),
                },
            ),
        })
}

/// The least-favorable interval of a problem.
pub fn compute_relative_magnitude_flci_with_config<E: FunctionalSets>(
    problem: &RelativeMagnitudeFlciProblem,
    config: RelativeMagnitudeConfidenceSetConfig,
    sets: &E,
) -> (out: Result<RelativeMagnitudeFlciResult, HonestError>)
    requires
        functional_sets::countable(problem.input),
        sets.ready(problem.input),
    ensures
        is_magnitude_interval(*sets, *problem, config, out),
{
    let conditional = sets.magnitude_confidence(
        RelativeMagnitudeFamily::Base,
        &problem.input,
        &problem.post_weights,
        problem.mbar,
        problem.inference,
        config,
    );
    let ghost said = conditional;
    let out = match conditional {
        Err(error) => Err(error),
        Ok(set) => Ok(
            RelativeMagnitudeFlciResult {
                flci: (set.lb, set.ub),
                original_ci: problem.original.ci,
                identified_set: (problem.identified_set.lb, problem.identified_set.ub),
            },
        ),
    };
    assert(sets.is_magnitude_confidence(
        RelativeMagnitudeFamily::Base,
        problem.input,
        problem.post_weights@,
        problem.mbar,
        problem.inference,
        config,
        said,
    ));
    out
}

/// The least-favorable interval of a problem with the default settings.
pub fn compute_relative_magnitude_flci<E: FunctionalSets>(
    problem: &RelativeMagnitudeFlciProblem,
    sets: &E,
) -> (out: Result<RelativeMagnitudeFlciResult, HonestError>)
    requires
        functional_sets::countable(problem.input),
        sets.ready(problem.input),
    ensures
        is_magnitude_interval(
            *sets,
            *problem,
            RelativeMagnitudeConfidenceSetConfig::from_inference_spec(problem.inference),
            out,
        ),
{
    compute_relative_magnitude_flci_with_config(
        problem,
        RelativeMagnitudeConfidenceSetConfig::from_inference(problem.inference),
        sets,
    )
}

/// Whether `built` is the problem of a functional under the smoothness
/// restriction, or the error of one of its sets.
pub open spec fn is_smoothness_problem<E: FunctionalSets>(
    original: Result<HonestOriginalConfidenceSet, HonestError>,
    identified: Result<HonestIdentifiedSet, HonestError>,
    sets: E,
    data: HonestEventStudyInput,
    weights: Seq<Real>,
    m: Real,
    inference: InferenceConfig,
    built: Result<SmoothnessFlciProblem, HonestError>,
) -> bool {
    &&& sets.is_original(data, weights, inference, original)
    &&& match original {
        Err(error) => built == Err::<SmoothnessFlciProblem, HonestError>(error),
        Ok(measured) => {
            &&& sets.is_smoothness_identified(
                SmoothnessFamily::Plain,
                data,
                weights,
                m,
                identified,
            )
            &&& match identified {
                Err(error) => built == Err::<SmoothnessFlciProblem, HonestError>(error),
                Ok(set) => built matches Ok(problem) && {
                    &&& problem.input.same_as(data)
                    &&& problem.post_weights@ == weights
                    &&& problem.m == m
                    &&& problem.inference == inference
                    &&& problem.original == measured
                    &&& problem.identified_set == set
                },
            }
        },
    }
}

/// The problem of a functional under the smoothness restriction.
pub fn build_smoothness_flci_problem<E: FunctionalSets>(
    data: &HonestEventStudyInput,
    post_weights: &Vec<Real>,
    m: Real,
    inference: InferenceConfig,
    sets: &E,
) -> (built: Result<SmoothnessFlciProblem, HonestError>)
    requires
        functional_sets::countable(*data),
        data.total() > 0,
        sets.ready(*data),
    ensures
        exists|
            original: Result<HonestOriginalConfidenceSet, HonestError>,
            identified: Result<HonestIdentifiedSet, HonestError>,
        | #[trigger]
            is_smoothness_problem(
                original,
                identified,
                *sets,
                *data,
                post_weights@,
                m,
                inference,
                built,
            ),
        built matches Ok(problem) ==> smoothness_intervals::fits(
            problem.input,
            problem.post_weights@,
        ),
{
    let ghost unasked: Result<HonestIdentifiedSet, HonestError> = arbitrary();
    let measured = sets.original(data, post_weights, inference);
    let ghost said = measured;
    let original = match measured {
        Err(error) => {
            assert(is_smoothness_problem(
                said,
                unasked,
                *sets,
                *data,
                post_weights@,
                m,
                inference,
                Err(error),
            ));
            return Err(error);
        },
        Ok(original) => original,
    };
    let found = sets.smoothness_identified(SmoothnessFamily::Plain, data, post_weights, m);
    let ghost identified = found;
    let built = match found {
        Err(error) => Err(error),
        Ok(identified_set) => Ok(
            SmoothnessFlciProblem {
                input: data.copy(),
                post_weights: copy_row(post_weights.as_slice()),
                m,
                inference,
                original,
                identified_set,
            },
        ),
    };
    proof {
        input::valid_input_is_shaped(*data);
        if built is Ok {
            assert(matrix::rows_of(built->Ok_0.input.covariance@).len() == data.covariance@.len());
        }
    }
    assert(is_smoothness_problem(
        said,
        identified,
        *sets,
        *data,
        post_weights@,
        m,
        inference,
        built,
    ));
    built
}

// ---------------------------------------------------------------------------
// Several functionals
// ---------------------------------------------------------------------------

/// Functionals whose simultaneous intervals are wanted, under a restriction of
/// either kind.
#[derive(Debug, PartialEq, Eq)]
pub struct MultiFlciProblem {
    /// The event study.
    pub input: HonestEventStudyInput,
    /// Weights of the functionals.
    pub post_weight_sets: Vec<Vec<Real>>,
    /// Bound of the restriction.
    pub bound: Real,
    /// Family-wise confidence level.
    pub inference: InferenceConfig,
    /// Confidence sets under parallel trends.
    pub originals: Vec<HonestOriginalConfidenceSet>,
    /// Identified sets.
    pub identified_sets: Vec<HonestIdentifiedSet>,
}

/// Functionals under a relative-magnitude restriction; the bound is `Mbar`.
pub type RelativeMagnitudeMultiFlciProblem = MultiFlciProblem;

/// Functionals under the smoothness restriction; the bound is `M`.
pub type SmoothnessMultiFlciProblem = MultiFlciProblem;

impl MultiFlciProblem {
    /// Whether the input has its shape and each functional one weight per post
    /// period.
    pub open spec fn shaped(self) -> bool {
        &&& self.input.shaped()
        &&& matrix::has_cols(self.post_weight_sets@, self.input.post_periods@.len() as int)
    }

    /// Whether the covariance has the periods of every functional whose
    /// identified set is bounded.
    pub open spec fn fits(self) -> bool {
        forall|i: int|
            0 <= i < self.count() && (#[trigger] self.identified_sets@[i]).bounded()
                ==> smoothness_intervals::fits(self.input, self.post_weight_sets@[i]@)
    }

    /// The number of functionals whose sets are all known.
    pub open spec fn count(self) -> int {
        let count = self.post_weight_sets@.len() as int;
        let known = if self.originals@.len() < self.identified_sets@.len() {
            self.originals@.len() as int
        } else {
            self.identified_sets@.len() as int
        };
        if known < count {
            known
        } else {
            count
        }
    }

    fn known(&self) -> (count: usize)
        ensures
            count == self.count(),
    {
        let known: usize = if self.originals.len() < self.identified_sets.len() {
            self.originals.len()
        } else {
            self.identified_sets.len()
        };
        if known < self.post_weight_sets.len() {
            known
        } else {
            self.post_weight_sets.len()
        }
    }

    /// Whether this is the problem of given functionals and their sets.
    pub open spec fn poses(
        self,
        data: HonestEventStudyInput,
        weights: Seq<Seq<Real>>,
        bound: Real,
        inference: InferenceConfig,
        originals: Seq<HonestOriginalConfidenceSet>,
        identified_sets: Seq<HonestIdentifiedSet>,
    ) -> bool {
        &&& self.input.same_as(data)
        &&& matrix::rows_of(self.post_weight_sets@) == weights
        &&& self.bound == bound
        &&& self.inference == inference
        &&& self.originals@ == originals
        &&& self.identified_sets@ == identified_sets
    }
}

/// The error of a problem without functionals.
pub open spec fn no_functional_error() -> HonestError {
    HonestError::NoFunctional { context: "multi FLCI" }
}

/// The fault of precomputed sets, if any: no functional, or a list of sets of
/// another length.
pub open spec fn precomputed_fault(functionals: int, originals: int, identified: int) -> Option<
    HonestError,
> {
    if functionals == 0 {
        Some(no_functional_error())
    } else if originals != functionals {
        Some(
            HonestError::CountMismatch {
                list: "original confidence-set",
                found: originals as usize,
                other: "functional",
                expected: functionals as usize,
            },
        )
    } else if identified != functionals {
        Some(
            HonestError::CountMismatch {
                list: "identified-set",
                found: identified as usize,
                other: "functional",
                expected: functionals as usize,
            },
        )
    } else {
        None
    }
}

/// The problem of functionals whose sets are known.
pub fn build_relative_magnitude_multi_flci_problem_with_precomputed_sets(
    data: &HonestEventStudyInput,
    post_weight_sets: &Vec<Vec<Real>>,
    mbar: Real,
    inference: InferenceConfig,
    originals: Vec<HonestOriginalConfidenceSet>,
    identified_sets: Vec<HonestIdentifiedSet>,
) -> (built: Result<RelativeMagnitudeMultiFlciProblem, HonestError>)
    ensures
        match precomputed_fault(
            post_weight_sets@.len() as int,
            originals@.len() as int,
            identified_sets@.len() as int,
        ) {
            Some(error) => built == Err::<MultiFlciProblem, HonestError>(error),
            None => built matches Ok(problem) && problem.poses(
                *data,
                matrix::rows_of(post_weight_sets@),
                mbar,
                inference,
                originals@,
                identified_sets@,
            ),
        },
{
    if post_weight_sets.len() == 0 {
        return Err(HonestError::NoFunctional { context: "multi FLCI" });
    }
    if originals.len() != post_weight_sets.len() {
        return Err(
            HonestError::CountMismatch {
                list: "original confidence-set",
                found: originals.len(),
                other: "functional",
                expected: post_weight_sets.len(),
            },
        );
    }
    if identified_sets.len() != post_weight_sets.len() {
        return Err(
            HonestError::CountMismatch {
                list: "identified-set",
                found: identified_sets.len(),
                other: "functional",
                expected: post_weight_sets.len(),
            },
        );
    }
    Ok(
        MultiFlciProblem {
            input: data.copy(),
            post_weight_sets: copy_matrix(post_weight_sets.as_slice()),
            bound: mbar,
            inference,
            originals,
            identified_sets,
        },
    )
}

/// The two sets of one functional, or the first error.
pub open spec fn is_pair<E: FunctionalSets>(
    sets: E,
    smooth: bool,
    data: HonestEventStudyInput,
    weights: Seq<Real>,
    bound: Real,
    inference: InferenceConfig,
    pair: Result<(HonestOriginalConfidenceSet, HonestIdentifiedSet), HonestError>,
) -> bool {
    exists|
        original: Result<HonestOriginalConfidenceSet, HonestError>,
        identified: Result<HonestIdentifiedSet, HonestError>,
    | #[trigger]
        pair_by(original, identified, sets, smooth, data, weights, bound, inference, pair)
}

/// Whether a pair of sets came about like this.
pub open spec fn pair_by<E: FunctionalSets>(
    original: Result<HonestOriginalConfidenceSet, HonestError>,
    identified: Result<HonestIdentifiedSet, HonestError>,
    sets: E,
    smooth: bool,
    data: HonestEventStudyInput,
    weights: Seq<Real>,
    bound: Real,
    inference: InferenceConfig,
    pair: Result<(HonestOriginalConfidenceSet, HonestIdentifiedSet), HonestError>,
) -> bool {
    &&& sets.is_original(data, weights, inference, original)
    &&& match original {
        Err(error) => pair == Err::<
            (HonestOriginalConfidenceSet, HonestIdentifiedSet),
            HonestError,
        >(error),
        Ok(measured) => {
            &&& if smooth {
                sets.is_smoothness_identified(
                    SmoothnessFamily::Plain,
                    data,
                    weights,
                    bound,
                    identified,
                )
            } else {
                sets.is_magnitude_identified(
                    RelativeMagnitudeFamily::Base,
                    data,
                    weights,
                    bound,
                    identified,
                )
            }
            &&& pair == (match identified {
                Err(error) => Err(error),
                Ok(set) => Ok((measured, set)),
            })
        },
    }
}

fn functional_pair<E: FunctionalSets>(
    smooth: bool,
    data: &HonestEventStudyInput,
    post_weights: &Vec<Real>,
    bound: Real,
    inference: InferenceConfig,
    sets: &E,
) -> (pair: Result<(HonestOriginalConfidenceSet, HonestIdentifiedSet), HonestError>)
    requires
        functional_sets::countable(*data),
        smooth ==> data.total() > 0,
        sets.ready(*data),
    ensures
        is_pair(*sets, smooth, *data, post_weights@, bound, inference, pair),
        pair is Ok ==> data.shaped() && post_weights.len() == data.post_periods@.len(),
{
    let ghost unasked: Result<HonestIdentifiedSet, HonestError> = arbitrary();
    let measured = sets.original(data, post_weights, inference);
    let ghost said = measured;
    let original = match measured {
        Err(error) => {
            assert(pair_by(
                said,
                unasked,
                *sets,
                smooth,
                *data,
                post_weights@,
                bound,
                inference,
                Err(error),
            ));
            return Err(error);
        },
        Ok(original) => original,
    };
    proof {
        input::valid_input_is_shaped(*data);
    }
    let found = if smooth {
        sets.smoothness_identified(SmoothnessFamily::Plain, data, post_weights, bound)
    } else {
        sets.magnitude_identified(RelativeMagnitudeFamily::Base, data, post_weights, bound)
    };
    let ghost identified = found;
    let pair = match found {
        Err(error) => Err(error),
        Ok(set) => Ok((original, set)),
    };
    assert(pair_by(
        said,
        identified,
        *sets,
        smooth,
        *data,
        post_weights@,
        bound,
        inference,
        pair,
    ));
    pair
}

/// The first sets of pairs.
pub open spec fn firsts(
    pairs: Seq<Result<(HonestOriginalConfidenceSet, HonestIdentifiedSet), HonestError>>,
) -> Seq<HonestOriginalConfidenceSet> {
    Seq::new(pairs.len(), |i: int| pairs[i]->Ok_0.0)
}

/// The second sets of pairs.
pub open spec fn seconds(
    pairs: Seq<Result<(HonestOriginalConfidenceSet, HonestIdentifiedSet), HonestError>>,
) -> Seq<HonestIdentifiedSet> {
    Seq::new(pairs.len(), |i: int| pairs[i]->Ok_0.1)
}

/// Whether `built` is the problem of functionals: no functional, the first
/// error of a set, or the functionals with their sets.
pub open spec fn is_multi_problem<E: FunctionalSets>(
    pairs: Seq<Result<(HonestOriginalConfidenceSet, HonestIdentifiedSet), HonestError>>,
    sets: E,
    smooth: bool,
    data: HonestEventStudyInput,
    weights: Seq<Seq<Real>>,
    bound: Real,
    inference: InferenceConfig,
    built: Result<MultiFlciProblem, HonestError>,
) -> bool {
    if weights.len() == 0 {
        built == Err::<MultiFlciProblem, HonestError>(no_functional_error())
    } else {
        &&& assessment::in_order(pairs, weights.len() as int)
        &&& forall|i: int|
            0 <= i < pairs.len() ==> is_pair(
                sets,
                smooth,
                data,
                weights[i],
                bound,
                inference,
                #[trigger] pairs[i],
            )
        &&& match assessment::failure(pairs) {
            Some(error) => built == Err::<MultiFlciProblem, HonestError>(error),
            None => built matches Ok(problem) && problem.poses(
                data,
                weights,
                bound,
                inference,
                firsts(pairs),
                seconds(pairs),
            ),
        }
    }
}

fn build_multi_problem<E: FunctionalSets>(
    smooth: bool,
    data: &HonestEventStudyInput,
    post_weight_sets: &Vec<Vec<Real>>,
    bound: Real,
    inference: InferenceConfig,
    sets: &E,
) -> (built: Result<MultiFlciProblem, HonestError>)
    requires
        functional_sets::countable(*data),
        smooth ==> data.total() > 0,
        sets.ready(*data),
    ensures
        exists|
            pairs: Seq<Result<(HonestOriginalConfidenceSet, HonestIdentifiedSet), HonestError>>,
        | #[trigger]
            is_multi_problem(
                pairs,
                *sets,
                smooth,
                *data,
                matrix::rows_of(post_weight_sets@),
                bound,
                inference,
                built,
            ),
        built matches Ok(problem) ==> problem.shaped(),
{
    let ghost weights = matrix::rows_of(post_weight_sets@);
    let ghost mut pairs: Seq<
        Result<(HonestOriginalConfidenceSet, HonestIdentifiedSet), HonestError>,
    > = Seq::empty();
    if post_weight_sets.len() == 0 {
        let error = HonestError::NoFunctional { context: "multi FLCI" };
        assert(is_multi_problem(
            pairs,
            *sets,
            smooth,
            *data,
            weights,
            bound,
            inference,
            Err(error),
        ));
        return Err(error);
    }
    let mut originals: Vec<HonestOriginalConfidenceSet> = Vec::new();
    let mut identified_sets: Vec<HonestIdentifiedSet> = Vec::new();
    let mut i: usize = 0;
    while i < post_weight_sets.len()
        invariant
            i <= post_weight_sets.len(),
            post_weight_sets.len() > 0,
            functional_sets::countable(*data),
            smooth ==> data.total() > 0,
            sets.ready(*data),
            weights == matrix::rows_of(post_weight_sets@),
            pairs.len() == i,
            originals@ == firsts(pairs),
            identified_sets@ == seconds(pairs),
            forall|k: int|
                0 <= k < i ==> is_pair(
                    *sets,
                    smooth,
                    *data,
                    weights[k],
                    bound,
                    inference,
                    #[trigger] pairs[k],
                ),
            forall|k: int| 0 <= k < i ==> #[trigger] pairs[k] is Ok,
            forall|k: int|
                0 <= k < i ==> (#[trigger] post_weight_sets@[k])@.len()
                    == data.post_periods@.len(),
            i > 0 ==> data.shaped(),
        decreases post_weight_sets.len() - i,
    {
        let pair = functional_pair(
            smooth,
            data,
            &post_weight_sets[i],
            bound,
            inference,
            sets,
        );
        let ghost before = pairs;
        proof {
            pairs = before.push(pair);
            assert forall|k: int| 0 <= k < pairs.len() implies is_pair(
                *sets,
                smooth,
                *data,
                weights[k],
                bound,
                inference,
                #[trigger] pairs[k],
            ) by {
                if k < i {
                    assert(pairs[k] == before[k]);
                }
            }
            assert forall|k: int| 0 <= k < pairs.len() - 1 implies #[trigger] pairs[k] is Ok by {
                assert(pairs[k] == before[k]);
            }
        }
        match pair {
            Err(error) => {
                assert(is_multi_problem(
                    pairs,
                    *sets,
                    smooth,
                    *data,
                    weights,
                    bound,
                    inference,
                    Err(error),
                ));
                return Err(error);
            },
            Ok((original, identified)) => {
                originals.push(original);
                identified_sets.push(identified);
            },
        }
        i = i + 1;
        proof {
            assert(originals@ =~= firsts(pairs));
            assert(identified_sets@ =~= seconds(pairs));
        }
    }
    let problem = MultiFlciProblem {
        input: data.copy(),
        post_weight_sets: copy_matrix(post_weight_sets.as_slice()),
        bound,
        inference,
        originals,
        identified_sets,
    };
    proof {
        assert(is_multi_problem(
            pairs,
            *sets,
            smooth,
            *data,
            weights,
            bound,
            inference,
            Ok(problem),
        ));
        copies_keep_shape(problem, *data, post_weight_sets@);
    }
    Ok(problem)
}

proof fn copies_keep_shape(
    problem: MultiFlciProblem,
    data: HonestEventStudyInput,
    sets: Seq<Vec<Real>>,
)
    requires
        data.shaped(),
        problem.input.same_as(data),
        matrix::rows_of(problem.post_weight_sets@) == matrix::rows_of(sets),
        matrix::has_cols(sets, data.post_periods@.len() as int),
    ensures
        problem.shaped(),
{
    let copied = problem.input.covariance@;
    assert(matrix::rows_of(copied).len() == matrix::rows_of(data.covariance@).len());
    assert forall|i: int| 0 <= i < copied.len() implies (#[trigger] copied[i])@.len()
        == data.covariance@[i]@.len() by {
        assert(matrix::rows_of(copied)[i] == copied[i]@);
        assert(matrix::rows_of(data.covariance@)[i] == data.covariance@[i]@);
    }
    let weights = problem.post_weight_sets@;
    assert(matrix::rows_of(weights).len() == matrix::rows_of(sets).len());
    assert forall|i: int| 0 <= i < weights.len() implies (#[trigger] weights[i])@.len()
        == data.post_periods@.len() by {
        assert(matrix::rows_of(weights)[i] == weights[i]@);
        assert(matrix::rows_of(sets)[i] == sets[i]@);
    }
}

/// The problem of functionals under the base relative-magnitude restriction.
pub fn build_relative_magnitude_multi_flci_problem<E: FunctionalSets>(
    data: &HonestEventStudyInput,
    post_weight_sets: &Vec<Vec<Real>>,
    mbar: Real,
    inference: InferenceConfig,
    sets: &E,
) -> (built: Result<RelativeMagnitudeMultiFlciProblem, HonestError>)
    requires
        functional_sets::countable(*data),
        sets.ready(*data),
    ensures
        exists|
            pairs: Seq<Result<(HonestOriginalConfidenceSet, HonestIdentifiedSet), HonestError>>,
        | #[trigger]
            is_multi_problem(
                pairs,
                *sets,
                false,
                *data,
                matrix::rows_of(post_weight_sets@),
                mbar,
                inference,
                built,
            ),
        built matches Ok(problem) ==> problem.shaped(),
{
    build_multi_problem(false, data, post_weight_sets, mbar, inference, sets)
}

/// The problem of functionals under the smoothness restriction.
pub fn build_smoothness_multi_flci_problem<E: FunctionalSets>(
    data: &HonestEventStudyInput,
    post_weight_sets: &Vec<Vec<Real>>,
    m: Real,
    inference: InferenceConfig,
    sets: &E,
) -> (built: Result<SmoothnessMultiFlciProblem, HonestError>)
    requires
        functional_sets::countable(*data),
        data.total() > 0,
        sets.ready(*data),
    ensures
        exists|
            pairs: Seq<Result<(HonestOriginalConfidenceSet, HonestIdentifiedSet), HonestError>>,
        | #[trigger]
            is_multi_problem(
                pairs,
                *sets,
                true,
                *data,
                matrix::rows_of(post_weight_sets@),
                m,
                inference,
                built,
            ),
        built matches Ok(problem) ==> problem.shaped(),
{
    build_multi_problem(true, data, post_weight_sets, m, inference, sets)
}

/// Whether a result holds the interval of each functional at a common level,
/// each with a verdict against zero.
pub open spec fn reports(
    problem: MultiFlciProblem,
    method: HonestJointPathMethod,
    level: (Real, Real),
    intervals: Seq<Result<(Real, Real), HonestError>>,
    found: HonestMultiFlciResult,
) -> bool {
    &&& found.confidence_level == problem.inference.confidence_level
    &&& found.pointwise_confidence_level == level.0
    &&& found.calibrated_max_t_critical_value == level.1
    &&& found.method == method
    &&& found.points@.len() == intervals.len()
    &&& forall|i: int|
        0 <= i < intervals.len() ==> is_point(problem, i, intervals[i], #[trigger] found.points@[i])
}

/// Whether a point reports the interval of a functional.
pub open spec fn is_point(
    problem: MultiFlciProblem,
    i: int,
    interval: Result<(Real, Real), HonestError>,
    point: HonestMultiFlciPoint,
) -> bool {
    &&& interval is Ok
    &&& point.post_weights@ == problem.post_weight_sets@[i]@
    &&& point.flci == interval->Ok_0
    &&& point.original_ci == problem.originals@[i].ci
    &&& point.identified_set == (problem.identified_sets@[i].lb, problem.identified_sets@[i].ub)
    &&& point.null_value == Real::zero_spec()
    &&& point.robustly_significant == types::excludes(interval->Ok_0, Real::zero_spec())
}

fn point_of(problem: &MultiFlciProblem, i: usize, flci: (Real, Real)) -> (point:
    HonestMultiFlciPoint)
    requires
        i < problem.count(),
    ensures
        is_point(*problem, i as int, Ok(flci), point),
{
    let original = problem.originals[i];
    let identified = problem.identified_sets[i];
    HonestMultiFlciPoint {
        post_weights: copy_row(problem.post_weight_sets[i].as_slice()),
        flci,
        original_ci: original.ci,
        identified_set: (identified.lb, identified.ub),
        null_value: Real::zero(),
        robustly_significant: interval_excludes(flci, Real::zero()),
    }
}

/// The ends of a confidence set, or its error.
pub open spec fn ends_of(set: Result<HonestConditionalConfidenceSet, HonestError>) -> Result<
    (Real, Real),
    HonestError,
> {
    match set {
        Err(error) => Err(error),
        Ok(found) => Ok((found.lb, found.ub)),
    }
}

fn interval_of(set: Result<HonestConditionalConfidenceSet, HonestError>) -> (interval: Result<
    (Real, Real),
    HonestError,
>)
    ensures
        interval == ends_of(set),
{
    match set {
        Err(error) => Err(error),
        Ok(found) => Ok((found.lb, found.ub)),
    }
}

/// Whether `interval` comes from the prepared branches of a functional whose
/// sets are known.
pub open spec fn is_prepared_interval<R: PreparedSets>(
    branches: R,
    data: HonestEventStudyInput,
    weights: Seq<Real>,
    inference: InferenceConfig,
    config: RelativeMagnitudeConfidenceSetConfig,
    original: HonestOriginalConfidenceSet,
    identified: HonestIdentifiedSet,
    context: PreparedRelativeMagnitudeBaseContext,
    before: Seq<RelativeMagnitudePreparedFunctionalBranch>,
    after: Seq<RelativeMagnitudePreparedFunctionalBranch>,
    interval: Result<(Real, Real), HonestError>,
) -> bool {
    exists|
        list: Result<Seq<Option<HonestIdentifiedSet>>, HonestError>,
        conditional: Result<HonestConditionalConfidenceSet, HonestError>,
    | #[trigger]
        prepared_interval_by(
            list,
            conditional,
            branches,
            data,
            weights,
            inference,
            config,
            original,
            identified,
            context,
            before,
            after,
            interval,
        )
}

/// Whether an interval came about like this.
pub open spec fn prepared_interval_by<R: PreparedSets>(
    list: Result<Seq<Option<HonestIdentifiedSet>>, HonestError>,
    conditional: Result<HonestConditionalConfidenceSet, HonestError>,
    branches: R,
    data: HonestEventStudyInput,
    weights: Seq<Real>,
    inference: InferenceConfig,
    config: RelativeMagnitudeConfidenceSetConfig,
    original: HonestOriginalConfidenceSet,
    identified: HonestIdentifiedSet,
    context: PreparedRelativeMagnitudeBaseContext,
    before: Seq<RelativeMagnitudePreparedFunctionalBranch>,
    after: Seq<RelativeMagnitudePreparedFunctionalBranch>,
    interval: Result<(Real, Real), HonestError>,
) -> bool {
    &&& branches.is_branch_sets(data, weights, context, list)
    &&& match list {
        Err(error) => interval == Err::<(Real, Real), HonestError>(error) && after == before,
        Ok(sets) => {
            &&& branches.is_search(
                weights,
                inference,
                config,
                original,
                identified,
                context,
                before,
                after,
                sets,
                conditional,
            )
            &&& interval == ends_of(conditional)
        },
    }
}

/// Confidence set of a functional whose other sets are known, over prepared
/// branches, as an interval.
pub fn compute_relative_magnitude_confidence_set_with_prepared_functional_branches<
    R: PreparedSets,
>(
    data: &HonestEventStudyInput,
    post_weights: &Vec<Real>,
    inference: InferenceConfig,
    config: RelativeMagnitudeConfidenceSetConfig,
    original: HonestOriginalConfidenceSet,
    identified: HonestIdentifiedSet,
    context: &PreparedRelativeMagnitudeBaseContext,
    rows: &mut Vec<RelativeMagnitudePreparedFunctionalBranch>,
    branches: &R,
) -> (interval: Result<(Real, Real), HonestError>)
    requires
        functional_sets::countable(*data),
        data.shaped(),
        post_weights.len() == data.post_periods@.len(),
        branches.ready(*data),
    ensures
        is_prepared_interval(
            *branches,
            *data,
            post_weights@,
            inference,
            config,
            original,
            identified,
            *context,
            old(rows)@,
            final(rows)@,
            interval,
        ),
{
    let ghost before = rows@;
    let ghost unasked: Result<HonestConditionalConfidenceSet, HonestError> = arbitrary();
    let solved = branches.branch_sets(data, post_weights, context);
    let ghost list = prepared_sets::listed(solved);
    let sets = match solved {
        Err(error) => {
            assert(prepared_interval_by(
                list,
                unasked,
                *branches,
                *data,
                post_weights@,
                inference,
                config,
                original,
                identified,
                *context,
                before,
                rows@,
                Err(error),
            ));
            return Err(error);
        },
        Ok(sets) => sets,
    };
    let conditional = branches.search(
        data,
        post_weights,
        inference,
        config,
        original,
        identified,
        context,
        rows,
        &sets,
    );
    let ghost said = conditional;
    let interval = interval_of(conditional);
    assert(prepared_interval_by(
        list,
        said,
        *branches,
        *data,
        post_weights@,
        inference,
        config,
        original,
        identified,
        *context,
        before,
        rows@,
        interval,
    ));
    interval
}

/// What simultaneous intervals rested on.
pub struct MultiRun {
    /// The common level with its critical value.
    pub level: Result<(Real, Real), HonestError>,
    /// The configuration of that level.
    pub pointwise: InferenceConfig,
    /// The confidence set of a single functional.
    pub single: Result<HonestConditionalConfidenceSet, HonestError>,
    /// The intervals in order.
    pub intervals: Seq<Result<(Real, Real), HonestError>>,
}

/// The error of functionals and prepared rows that differ in number.
pub open spec fn rows_count_error(rows: int, functionals: int) -> HonestError {
    HonestError::CountMismatch {
        list: "prepared functional set",
        found: rows as usize,
        other: "functional",
        expected: functionals as usize,
    }
}

impl MultiRun {
    /// Whether the intervals of functionals came from their prepared rows, which
    /// change from `before` to `after`.
    pub open spec fn searched<R: PreparedSets>(
        self,
        branches: R,
        problem: MultiFlciProblem,
        config: RelativeMagnitudeConfidenceSetConfig,
        context: PreparedRelativeMagnitudeBaseContext,
        before: Seq<Seq<RelativeMagnitudePreparedFunctionalBranch>>,
        after: Seq<Seq<RelativeMagnitudePreparedFunctionalBranch>>,
    ) -> bool {
        &&& assessment::in_order(self.intervals, problem.count())
        &&& after.len() == before.len()
        &&& forall|i: int|
            0 <= i < self.intervals.len() ==> is_prepared_interval(
                branches,
                problem.input,
                problem.post_weight_sets@[i]@,
                self.pointwise,
                config.at_level_spec(self.pointwise),
                problem.originals@[i],
                problem.identified_sets@[i],
                context,
                before[i],
                after[i],
                #[trigger] self.intervals[i],
            )
        &&& forall|i: int|
            self.intervals.len() <= i < before.len() ==> (#[trigger] after[i]) == before[i]
    }

    /// Whether `out` holds the simultaneous intervals of a relative-magnitude
    /// problem over prepared rows. A single functional has the interval that it
    /// has on its own.
    pub open spec fn explains<L: Levels, E: FunctionalSets, R: PreparedSets>(
        self,
        levels: L,
        sets: E,
        branches: R,
        problem: MultiFlciProblem,
        config: RelativeMagnitudeConfidenceSetConfig,
        joint: HonestJointPathConfig,
        context: PreparedRelativeMagnitudeBaseContext,
        before: Seq<Seq<RelativeMagnitudePreparedFunctionalBranch>>,
        after: Seq<Seq<RelativeMagnitudePreparedFunctionalBranch>>,
        out: Result<HonestMultiFlciResult, HonestError>,
    ) -> bool {
        let count = problem.post_weight_sets@.len() as int;
        &&& calibration::is_functional_calibration(
            levels,
            problem.input,
            matrix::rows_of(problem.post_weight_sets@),
            problem.inference,
            joint,
            true,
            self.level,
        )
        &&& match self.level {
            Err(error) => out == Err::<HonestMultiFlciResult, HonestError>(error) && after
                == before,
            Ok(level) => {
                &&& levels.is_config(level.0, self.pointwise)
                &&& if before.len() != count {
                    out == Err::<HonestMultiFlciResult, HonestError>(
                        rows_count_error(before.len() as int, count),
                    ) && after == before
                } else if count == 1 {
                    &&& after == before
                    &&& sets.is_magnitude_confidence(
                        RelativeMagnitudeFamily::Base,
                        problem.input,
                        problem.post_weight_sets@[0]@,
                        problem.bound,
                        self.pointwise,
                        config.at_level_spec(self.pointwise),
                        self.single,
                    )
                    &&& match self.single {
                        Err(error) => out == Err::<HonestMultiFlciResult, HonestError>(error),
                        Ok(_) => out matches Ok(found) && reports(
                            problem,
                            joint.method,
                            level,
                            seq![ends_of(self.single)],
                            found,
                        ),
                    }
                } else {
                    &&& self.searched(branches, problem, config, context, before, after)
                    &&& match assessment::failure(self.intervals) {
                        Some(error) => out == Err::<HonestMultiFlciResult, HonestError>(error),
                        None => out matches Ok(found) && reports(
                            problem,
                            joint.method,
                            level,
                            self.intervals,
                            found,
                        ),
                    }
                }
            },
        }
    }

    /// Whether `out` holds the simultaneous intervals of a smoothness problem.
    pub open spec fn explains_smoothness<L: Levels, E: FunctionalSets>(
        self,
        levels: L,
        sets: E,
        problem: MultiFlciProblem,
        config: SmoothnessFlciConfig,
        joint: HonestJointPathConfig,
        out: Result<HonestMultiFlciResult, HonestError>,
    ) -> bool {
        &&& calibration::is_functional_calibration(
            levels,
            problem.input,
            matrix::rows_of(problem.post_weight_sets@),
            problem.inference,
            joint,
            false,
            self.level,
        )
        &&& match self.level {
            Err(error) => out == Err::<HonestMultiFlciResult, HonestError>(error),
            Ok(level) => {
                &&& levels.is_config(level.0, self.pointwise)
                &&& assessment::in_order(self.intervals, problem.count())
                &&& forall|i: int|
                    0 <= i < self.intervals.len() ==> is_smooth_interval(
                        sets,
                        problem,
                        i,
                        self.pointwise,
                        config,
                        #[trigger] self.intervals[i],
                    )
                &&& match assessment::failure(self.intervals) {
                    Some(error) => out == Err::<HonestMultiFlciResult, HonestError>(error),
                    None => out matches Ok(found) && reports(
                        problem,
                        joint.method,
                        level,
                        self.intervals,
                        found,
                    ),
                }
            },
        }
    }
}

/// Whether `interval` is the fixed-length interval of one functional of a
/// problem at a level.
pub open spec fn is_smooth_interval<E: FunctionalSets>(
    sets: E,
    problem: MultiFlciProblem,
    i: int,
    pointwise: InferenceConfig,
    config: SmoothnessFlciConfig,
    interval: Result<(Real, Real), HonestError>,
) -> bool {
    exists|scalar: SmoothnessFlciProblem, result: Result<SmoothnessFlciResult, HonestError>|
        #[trigger] sets.is_interval(scalar, config, result) && {
            &&& scalar.input.same_as(problem.input)
            &&& scalar.post_weights@ == problem.post_weight_sets@[i]@
            &&& scalar.m == problem.bound
            &&& scalar.inference == pointwise
            &&& scalar.original == problem.originals@[i]
            &&& scalar.identified_set == problem.identified_sets@[i]
        } && interval == (match result {
            Err(error) => Err(error),
            Ok(found) => Ok(found.flci),
        })
}

fn search_functionals<R: PreparedSets>(
    start: Ghost<MultiRun>,
    problem: &MultiFlciProblem,
    pointwise: InferenceConfig,
    config: RelativeMagnitudeConfidenceSetConfig,
    context: &PreparedRelativeMagnitudeBaseContext,
    rows: &mut Vec<Vec<RelativeMagnitudePreparedFunctionalBranch>>,
    branches: &R,
) -> (out: (Result<Vec<HonestMultiFlciPoint>, HonestError>, Ghost<MultiRun>))
    requires
        functional_sets::countable(problem.input),
        problem.shaped(),
        old(rows)@.len() == problem.post_weight_sets@.len(),
        branches.ready(problem.input),
        start@.pointwise == pointwise,
    ensures
        out.1@ == (MultiRun { intervals: out.1@.intervals, ..start@ }),
        out.1@.searched(
            *branches,
            *problem,
            config,
            *context,
            matrix::rows_of(old(rows)@),
            matrix::rows_of(final(rows)@),
        ),
        match out.0 {
            Err(error) => assessment::failure(out.1@.intervals) == Some(error),
            Ok(points) => {
                &&& assessment::failure(out.1@.intervals) is None
                &&& points@.len() == out.1@.intervals.len()
                &&& forall|i: int|
                    0 <= i < points@.len() ==> is_point(
                        *problem,
                        i,
                        out.1@.intervals[i],
                        #[trigger] points@[i],
                    )
            },
        },
{
    let ghost mut run: MultiRun = start@;
    let ghost before = matrix::rows_of(rows@);
    proof {
        run.intervals = Seq::empty();
    }
    let level_config = config.at_level(pointwise);
    let count: usize = problem.known();
    let mut points: Vec<HonestMultiFlciPoint> = Vec::new();
    let mut i: usize = 0;
    while i < count
        invariant
            i <= count,
            count == problem.count(),
            functional_sets::countable(problem.input),
            problem.shaped(),
            branches.ready(problem.input),
            level_config == config.at_level_spec(pointwise),
            start@.pointwise == pointwise,
            run == (MultiRun { intervals: run.intervals, ..start@ }),
            before == matrix::rows_of(old(rows)@),
            before.len() == problem.post_weight_sets@.len(),
            rows@.len() == before.len(),
            run.intervals.len() == i,
            points.len() == i,
            forall|k: int|
                0 <= k < i ==> is_prepared_interval(
                    *branches,
                    problem.input,
                    problem.post_weight_sets@[k]@,
                    pointwise,
                    level_config,
                    problem.originals@[k],
                    problem.identified_sets@[k],
                    *context,
                    before[k],
                    rows@[k]@,
                    #[trigger] run.intervals[k],
                ),
            forall|k: int| 0 <= k < i ==> #[trigger] run.intervals[k] is Ok,
            forall|k: int| i <= k < before.len() ==> (#[trigger] rows@[k])@ == before[k],
            forall|k: int|
                0 <= k < i ==> is_point(*problem, k, run.intervals[k], #[trigger] points@[k]),
        decreases count - i,
    {
        let ghost previous = rows@;
        let ghost earlier = run.intervals;
        assert(problem.post_weight_sets@[i as int]@.len() == problem.input.post_periods@.len());
        let interval =
            compute_relative_magnitude_confidence_set_with_prepared_functional_branches(
            &problem.input,
            &problem.post_weight_sets[i],
            pointwise,
            level_config,
            problem.originals[i],
            problem.identified_sets[i],
            context,
            &mut rows[i],
            branches,
        );
        proof {
            run.intervals = earlier.push(interval);
            assert(previous[i as int]@ == before[i as int]);
            assert forall|k: int| 0 <= k < run.intervals.len() implies is_prepared_interval(
                *branches,
                problem.input,
                problem.post_weight_sets@[k]@,
                pointwise,
                level_config,
                problem.originals@[k],
                problem.identified_sets@[k],
                *context,
                before[k],
                rows@[k]@,
                #[trigger] run.intervals[k],
            ) by {
                if k < i {
                    assert(run.intervals[k] == earlier[k]);
                    assert(rows@[k] == previous[k]);
                }
            }
            assert forall|k: int| i < k < before.len() implies (#[trigger] rows@[k])@
                == before[k] by {
                assert(rows@[k] == previous[k]);
            }
            assert forall|k: int| 0 <= k < run.intervals.len() - 1 implies #[trigger] run.intervals[k]
                is Ok by {
                assert(run.intervals[k] == earlier[k]);
            }
        }
        match interval {
            Err(error) => {
                proof {
                    finish_search(run, *branches, *problem, config, *context, before, rows@);
                }
                return (Err(error), Ghost(run));
            },
            Ok(flci) => {
                let point = point_of(problem, i, flci);
                let ghost old_points = points@;
                points.push(point);
                proof {
                    assert forall|k: int| 0 <= k < points.len() implies is_point(
                        *problem,
                        k,
                        run.intervals[k],
                        #[trigger] points@[k],
                    ) by {
                        if k < i {
                            assert(points@[k] == old_points[k]);
                            assert(run.intervals[k] == earlier[k]);
                        }
                    }
                }
            },
        }
        i = i + 1;
    }
    proof {
        finish_search(run, *branches, *problem, config, *context, before, rows@);
    }
    (Ok(points), Ghost(run))
}

proof fn finish_search<R: PreparedSets>(
    run: MultiRun,
    branches: R,
    problem: MultiFlciProblem,
    config: RelativeMagnitudeConfidenceSetConfig,
    context: PreparedRelativeMagnitudeBaseContext,
    before: Seq<Seq<RelativeMagnitudePreparedFunctionalBranch>>,
    rows: Seq<Vec<RelativeMagnitudePreparedFunctionalBranch>>,
)
    requires
        assessment::in_order(run.intervals, problem.count()),
        rows.len() == before.len(),
        run.intervals.len() <= before.len(),
        forall|k: int|
            0 <= k < run.intervals.len() ==> is_prepared_interval(
                branches,
                problem.input,
                problem.post_weight_sets@[k]@,
                run.pointwise,
                config.at_level_spec(run.pointwise),
                problem.originals@[k],
                problem.identified_sets@[k],
                context,
                before[k],
                rows[k]@,
                #[trigger] run.intervals[k],
            ),
        forall|k: int|
            run.intervals.len() <= k < before.len() ==> (#[trigger] rows[k])@ == before[k],
    ensures
        run.searched(branches, problem, config, context, before, matrix::rows_of(rows)),
{
    let after = matrix::rows_of(rows);
    assert forall|k: int| 0 <= k < run.intervals.len() implies is_prepared_interval(
        branches,
        problem.input,
        problem.post_weight_sets@[k]@,
        run.pointwise,
        config.at_level_spec(run.pointwise),
        problem.originals@[k],
        problem.identified_sets@[k],
        context,
        before[k],
        after[k],
        #[trigger] run.intervals[k],
    ) by {
        assert(after[k] == rows[k]@);
    }
    assert forall|k: int| run.intervals.len() <= k < before.len() implies (#[trigger] after[k])
        == before[k] by {
        assert(after[k] == rows[k]@);
    }
}

/// Simultaneous intervals of functionals over their prepared rows.
pub fn compute_relative_magnitude_multi_flci_with_prepared_functional_branches<
    L: Levels,
    E: FunctionalSets,
    R: PreparedSets,
>(
    problem: &RelativeMagnitudeMultiFlciProblem,
    config: RelativeMagnitudeConfidenceSetConfig,
    joint_config: HonestJointPathConfig,
    context: &PreparedRelativeMagnitudeBaseContext,
    rows: &mut Vec<Vec<RelativeMagnitudePreparedFunctionalBranch>>,
    levels: &L,
    sets: &E,
    branches: &R,
) -> (out: Result<HonestMultiFlciResult, HonestError>)
    requires
        functional_sets::countable(problem.input),
        problem.post_weight_sets@.len() == 1 ==> problem.count() == 1,
        problem.post_weight_sets@.len() != 1 ==> problem.shaped(),
        levels.ready(),
        sets.ready(problem.input),
        branches.ready(problem.input),
    ensures
        exists|run: MultiRun| #[trigger]
            run.explains(
                *levels,
                *sets,
                *branches,
                *problem,
                config,
                joint_config,
                *context,
                matrix::rows_of(old(rows)@),
                matrix::rows_of(final(rows)@),
                out,
            ),
{
    let ghost mut run: MultiRun = arbitrary();
    let ghost before = matrix::rows_of(rows@);
    let calibrated = functional_level(
        &problem.input,
        &problem.post_weight_sets,
        problem.inference,
        joint_config,
        true,
        levels,
    );
    proof {
        run.level = calibrated;
    }
    let level = match calibrated {
        Err(error) => {
            assert(run.explains(
                *levels,
                *sets,
                *branches,
                *problem,
                config,
                joint_config,
                *context,
                before,
                matrix::rows_of(rows@),
                Err(error),
            ));
            return Err(error);
        },
        Ok(level) => level,
    };
    let pointwise = levels.config(level.0);
    proof {
        run.pointwise = pointwise;
    }
    if rows.len() != problem.post_weight_sets.len() {
        let error = HonestError::CountMismatch {
            list: "prepared functional set",
            found: rows.len(),
            other: "functional",
            expected: problem.post_weight_sets.len(),
        };
        assert(run.explains(
            *levels,
            *sets,
            *branches,
            *problem,
            config,
            joint_config,
            *context,
            before,
            matrix::rows_of(rows@),
            Err(error),
        ));
        return Err(error);
    }
    if problem.post_weight_sets.len() == 1 {
        let conditional = sets.magnitude_confidence(
            RelativeMagnitudeFamily::Base,
            &problem.input,
            &problem.post_weight_sets[0],
            problem.bound,
            pointwise,
            config.at_level(pointwise),
        );
        proof {
            run.single = conditional;
        }
        let out = match conditional {
            Err(error) => Err(error),
            Ok(set) => {
                let mut points: Vec<HonestMultiFlciPoint> = Vec::new();
                points.push(point_of(problem, 0, (set.lb, set.ub)));
                Ok(
                    HonestMultiFlciResult {
                        confidence_level: problem.inference.confidence_level,
                        pointwise_confidence_level: level.0,
                        calibrated_max_t_critical_value: level.1,
                        method: joint_config.method,
                        points,
                    },
                )
            },
        };
        assert(run.explains(
            *levels,
            *sets,
            *branches,
            *problem,
            config,
            joint_config,
            *context,
            before,
            matrix::rows_of(rows@),
            out,
        ));
        return out;
    }
    let (searched, Ghost(done)) = search_functionals(
        Ghost(run),
        problem,
        pointwise,
        config,
        context,
        rows,
        branches,
    );
    let out = match searched {
        Err(error) => Err(error),
        Ok(points) => Ok(
            HonestMultiFlciResult {
                confidence_level: problem.inference.confidence_level,
                pointwise_confidence_level: level.0,
                calibrated_max_t_critical_value: level.1,
                method: joint_config.method,
                points,
            },
        ),
    };
    assert(done.explains(
        *levels,
        *sets,
        *branches,
        *problem,
        config,
        joint_config,
        *context,
        before,
        matrix::rows_of(rows@),
        out,
    ));
    out
}

/// The rows of prepared branches for several functionals, or the first error.
pub open spec fn is_rows_list<R: PreparedSets>(
    made: Seq<Result<Seq<RelativeMagnitudePreparedFunctionalBranch>, HonestError>>,
    branches: R,
    weights: Seq<Seq<Real>>,
    context: PreparedRelativeMagnitudeBaseContext,
    rows: Result<Seq<Seq<RelativeMagnitudePreparedFunctionalBranch>>, HonestError>,
) -> bool {
    &&& assessment::in_order(made, weights.len() as int)
    &&& forall|i: int|
        0 <= i < made.len() ==> branches.is_functional_rows(
            weights[i],
            context,
            #[trigger] made[i],
        )
    &&& match assessment::failure(made) {
        Some(error) => rows == Err::<
            Seq<Seq<RelativeMagnitudePreparedFunctionalBranch>>,
            HonestError,
        >(error),
        None => rows is Ok && rows->Ok_0 == Seq::new(made.len(), |i: int| made[i]->Ok_0),
    }
}

/// Lists of rows or an error, as sequences.
pub open spec fn rows_listed(
    rows: Result<Vec<Vec<RelativeMagnitudePreparedFunctionalBranch>>, HonestError>,
) -> Result<Seq<Seq<RelativeMagnitudePreparedFunctionalBranch>>, HonestError> {
    match rows {
        Ok(list) => Ok(matrix::rows_of(list@)),
        Err(error) => Err(error),
    }
}

/// The rows of prepared branches for several functionals.
pub fn functional_rows_list<R: PreparedSets>(
    data: &HonestEventStudyInput,
    post_weight_sets: &Vec<Vec<Real>>,
    context: &PreparedRelativeMagnitudeBaseContext,
    branches: &R,
) -> (rows: Result<Vec<Vec<RelativeMagnitudePreparedFunctionalBranch>>, HonestError>)
    requires
        matrix::has_cols(post_weight_sets@, data.post_periods@.len() as int),
        context.fits(data.post_periods@.len() as int),
        branches.ready(*data),
    ensures
        exists|made: Seq<Result<Seq<RelativeMagnitudePreparedFunctionalBranch>, HonestError>>|
            #[trigger] is_rows_list(
                made,
                *branches,
                matrix::rows_of(post_weight_sets@),
                *context,
                rows_listed(rows),
            ),
        rows matches Ok(list) ==> list@.len() == post_weight_sets@.len(),
{
    let ghost weights = matrix::rows_of(post_weight_sets@);
    let ghost mut made: Seq<
        Result<Seq<RelativeMagnitudePreparedFunctionalBranch>, HonestError>,
    > = Seq::empty();
    let mut rows: Vec<Vec<RelativeMagnitudePreparedFunctionalBranch>> = Vec::new();
    let mut i: usize = 0;
    while i < post_weight_sets.len()
        invariant
            i <= post_weight_sets.len(),
            matrix::has_cols(post_weight_sets@, data.post_periods@.len() as int),
            context.fits(data.post_periods@.len() as int),
            branches.ready(*data),
            weights == matrix::rows_of(post_weight_sets@),
            made.len() == i,
            rows.len() == i,
            forall|k: int|
                0 <= k < i ==> branches.is_functional_rows(
                    weights[k],
                    *context,
                    #[trigger] made[k],
                ),
            forall|k: int| 0 <= k < i ==> #[trigger] made[k] is Ok,
            forall|k: int| 0 <= k < i ==> (#[trigger] rows@[k])@ == made[k]->Ok_0,
        decreases post_weight_sets.len() - i,
    {
        assert(post_weight_sets@[i as int]@.len() == data.post_periods@.len());
        let next = branches.functional_rows(data, &post_weight_sets[i], context);
        let ghost before = made;
        proof {
            made = before.push(prepared_sets::listed(next));
            assert forall|k: int| 0 <= k < made.len() implies branches.is_functional_rows(
                weights[k],
                *context,
                #[trigger] made[k],
            ) by {
                if k < i {
                    assert(made[k] == before[k]);
                }
            }
            assert forall|k: int| 0 <= k < made.len() - 1 implies #[trigger] made[k] is Ok by {
                assert(made[k] == before[k]);
            }
        }
        match next {
            Err(error) => {
                assert(is_rows_list(made, *branches, weights, *context, Err(error)));
                return Err(error);
            },
            Ok(list) => {
                let ghost old_rows = rows@;
                rows.push(list);
                proof {
                    assert forall|k: int| 0 <= k < rows.len() implies (#[trigger] rows@[k])@
                        == made[k]->Ok_0 by {
                        if k < i {
                            assert(rows@[k] == old_rows[k]);
                            assert(made[k] == before[k]);
                        }
                    }
                }
            },
        }
        i = i + 1;
    }
    proof {
        assert(matrix::rows_of(rows@) =~= Seq::new(made.len(), |i: int| made[i]->Ok_0));
        assert(is_rows_list(made, *branches, weights, *context, Ok(matrix::rows_of(rows@))));
    }
    Ok(rows)
}

/// Whether `out` holds the simultaneous intervals of functionals over prepared
/// branches.
pub open spec fn is_prepared_multi<L: Levels, E: FunctionalSets, R: PreparedSets>(
    made: Seq<Result<Seq<RelativeMagnitudePreparedFunctionalBranch>, HonestError>>,
    rows: Result<Seq<Seq<RelativeMagnitudePreparedFunctionalBranch>>, HonestError>,
    after: Seq<Seq<RelativeMagnitudePreparedFunctionalBranch>>,
    run: MultiRun,
    levels: L,
    sets: E,
    branches: R,
    problem: MultiFlciProblem,
    config: RelativeMagnitudeConfidenceSetConfig,
    joint: HonestJointPathConfig,
    context: PreparedRelativeMagnitudeBaseContext,
    out: Result<HonestMultiFlciResult, HonestError>,
) -> bool {
    &&& is_rows_list(
        made,
        branches,
        matrix::rows_of(problem.post_weight_sets@),
        context,
        rows,
    )
    &&& match rows {
        Err(error) => out == Err::<HonestMultiFlciResult, HonestError>(error),
        Ok(before) => run.explains(
            levels,
            sets,
            branches,
            problem,
            config,
            joint,
            context,
            before,
            after,
            out,
        ),
    }
}

/// Whether `out` holds the simultaneous intervals of functionals over prepared
/// branches.
pub open spec fn prepared_multi<L: Levels, E: FunctionalSets, R: PreparedSets>(
    levels: L,
    sets: E,
    branches: R,
    problem: MultiFlciProblem,
    config: RelativeMagnitudeConfidenceSetConfig,
    joint: HonestJointPathConfig,
    context: PreparedRelativeMagnitudeBaseContext,
    out: Result<HonestMultiFlciResult, HonestError>,
) -> bool {
    exists|
        made: Seq<Result<Seq<RelativeMagnitudePreparedFunctionalBranch>, HonestError>>,
        rows: Result<Seq<Seq<RelativeMagnitudePreparedFunctionalBranch>>, HonestError>,
        after: Seq<Seq<RelativeMagnitudePreparedFunctionalBranch>>,
        run: MultiRun,
    | #[trigger]
        is_prepared_multi(
            made,
            rows,
            after,
            run,
            levels,
            sets,
            branches,
            problem,
            config,
            joint,
            context,
            out,
        )
}

/// Simultaneous intervals of functionals over prepared branches.
pub fn compute_relative_magnitude_multi_flci_with_prepared_branches<
    L: Levels,
    E: FunctionalSets,
    R: PreparedSets,
>(
    problem: &RelativeMagnitudeMultiFlciProblem,
    config: RelativeMagnitudeConfidenceSetConfig,
    joint_config: HonestJointPathConfig,
    context: &PreparedRelativeMagnitudeBaseContext,
    levels: &L,
    sets: &E,
    branches: &R,
) -> (out: Result<HonestMultiFlciResult, HonestError>)
    requires
        functional_sets::countable(problem.input),
        problem.post_weight_sets@.len() == 1 ==> problem.count() == 1,
        problem.shaped(),
        context.fits(problem.input.post_periods@.len() as int),
        levels.ready(),
        sets.ready(problem.input),
        branches.ready(problem.input),
    ensures
        prepared_multi(
            *levels,
            *sets,
            *branches,
            *problem,
            config,
            joint_config,
            *context,
            out,
        ),
{
    let prepared = functional_rows_list(
        &problem.input,
        &problem.post_weight_sets,
        context,
        branches,
    );
    let ghost listed = rows_listed(prepared);
    let ghost made = choose|
        made: Seq<Result<Seq<RelativeMagnitudePreparedFunctionalBranch>, HonestError>>,
    | #[trigger]
        is_rows_list(
            made,
            *branches,
            matrix::rows_of(problem.post_weight_sets@),
            *context,
            listed,
        );
    let ghost no_run: MultiRun = arbitrary();
    let ghost no_rows: Seq<Seq<RelativeMagnitudePreparedFunctionalBranch>> = arbitrary();
    let mut rows = match prepared {
        Err(error) => {
            assert(is_prepared_multi(
                made,
                listed,
                no_rows,
                no_run,
                *levels,
                *sets,
                *branches,
                *problem,
                config,
                joint_config,
                *context,
                Err(error),
            ));
            return Err(error);
        },
        Ok(rows) => rows,
    };
    let ghost before = matrix::rows_of(rows@);
    let out = compute_relative_magnitude_multi_flci_with_prepared_functional_branches(
        problem,
        config,
        joint_config,
        context,
        &mut rows,
        levels,
        sets,
        branches,
    );
    proof {
        let after = matrix::rows_of(rows@);
        let run = choose|run: MultiRun| #[trigger]
            run.explains(
                *levels,
                *sets,
                *branches,
                *problem,
                config,
                joint_config,
                *context,
                before,
                after,
                out,
            );
        assert(is_prepared_multi(
            made,
            listed,
            after,
            run,
            *levels,
            *sets,
            *branches,
            *problem,
            config,
            joint_config,
            *context,
            out,
        ));
    }
    out
}

/// Whether `out` holds the simultaneous intervals of a relative-magnitude
/// problem.
pub open spec fn magnitude_multi<L: Levels, E: FunctionalSets, R: PreparedSets>(
    levels: L,
    sets: E,
    branches: R,
    problem: MultiFlciProblem,
    config: RelativeMagnitudeConfidenceSetConfig,
    joint: HonestJointPathConfig,
    out: Result<HonestMultiFlciResult, HonestError>,
) -> bool {
    exists|context: Result<PreparedRelativeMagnitudeBaseContext, HonestError>|
        #[trigger] branches.is_context(problem.input, problem.bound, context) && match context {
            Err(error) => out == Err::<HonestMultiFlciResult, HonestError>(error),
            Ok(found) => prepared_multi(
                levels,
                sets,
                branches,
                problem,
                config,
                joint,
                found,
                out,
            ),
        }
}

/// Simultaneous intervals of functionals under the base relative-magnitude
/// restriction.
pub fn compute_relative_magnitude_multi_flci_with_config<
    L: Levels,
    E: FunctionalSets,
    R: PreparedSets,
>(
    problem: &RelativeMagnitudeMultiFlciProblem,
    config: RelativeMagnitudeConfidenceSetConfig,
    joint_config: HonestJointPathConfig,
    levels: &L,
    sets: &E,
    branches: &R,
) -> (out: Result<HonestMultiFlciResult, HonestError>)
    requires
        functional_sets::countable(problem.input),
        problem.post_weight_sets@.len() == 1 ==> problem.count() == 1,
        problem.shaped(),
        levels.ready(),
        sets.ready(problem.input),
        branches.ready(problem.input),
    ensures
        magnitude_multi(
            *levels,
            *sets,
            *branches,
            *problem,
            config,
            joint_config,
            out,
        ),
{
    let prepared = branches.context(&problem.input, problem.bound);
    let ghost said = prepared;
    assert(branches.is_context(problem.input, problem.bound, said));
    match prepared {
        Err(error) => Err(error),
        Ok(context) => compute_relative_magnitude_multi_flci_with_prepared_branches(
            problem,
            config,
            joint_config,
            &context,
            levels,
            sets,
            branches,
        ),
    }
}

/// The default settings of joint calibration.
pub open spec fn default_joint() -> HonestJointPathConfig {
    HonestJointPathConfig {
        method: HonestJointPathMethod::GaussianSimulated,
        simulation_draws: 20_000,
        simulation_seed: 42,
    }
}

/// Simultaneous intervals of functionals with the default settings.
pub fn compute_relative_magnitude_multi_flci<L: Levels, E: FunctionalSets, R: PreparedSets>(
    problem: &RelativeMagnitudeMultiFlciProblem,
    levels: &L,
    sets: &E,
    branches: &R,
) -> (out: Result<HonestMultiFlciResult, HonestError>)
    requires
        functional_sets::countable(problem.input),
        problem.post_weight_sets@.len() == 1 ==> problem.count() == 1,
        problem.shaped(),
        levels.ready(),
        sets.ready(problem.input),
        branches.ready(problem.input),
    ensures
        magnitude_multi(
            *levels,
            *sets,
            *branches,
            *problem,
            RelativeMagnitudeConfidenceSetConfig::from_inference_spec(problem.inference),
            default_joint(),
            out,
        ),
{
    compute_relative_magnitude_multi_flci_with_config(
        problem,
        RelativeMagnitudeConfidenceSetConfig::from_inference(problem.inference),
        HonestJointPathConfig::default_for_production(),
        levels,
        sets,
        branches,
    )
}

/// A single functional of a simultaneous problem has the interval that it has on
/// its own at the same level.
pub proof fn single_functional_keeps_its_interval<L: Levels, E: FunctionalSets, R: PreparedSets>(
    run: MultiRun,
    levels: L,
    sets: E,
    branches: R,
    problem: MultiFlciProblem,
    config: RelativeMagnitudeConfidenceSetConfig,
    joint: HonestJointPathConfig,
    context: PreparedRelativeMagnitudeBaseContext,
    before: Seq<Seq<RelativeMagnitudePreparedFunctionalBranch>>,
    after: Seq<Seq<RelativeMagnitudePreparedFunctionalBranch>>,
    found: HonestMultiFlciResult,
)
    requires
        problem.post_weight_sets@.len() == 1,
        run.explains(
            levels,
            sets,
            branches,
            problem,
            config,
            joint,
            context,
            before,
            after,
            Ok(found),
        ),
    ensures
        found.points@.len() == 1,
        found.pointwise_confidence_level == problem.inference.confidence_level,
        sets.is_magnitude_confidence(
            RelativeMagnitudeFamily::Base,
            problem.input,
            problem.post_weight_sets@[0]@,
            problem.bound,
            run.pointwise,
            config.at_level_spec(run.pointwise),
            Ok(
                HonestConditionalConfidenceSet {
                    lb: found.points@[0].flci.0,
                    ub: found.points@[0].flci.1,
                },
            ),
        ),
{
    assert(is_point(
        problem,
        0,
        seq![ends_of(run.single)][0],
        found.points@[0],
    ));
}

/// Where the sets of a functional are determined by what they are computed
/// from, a single functional of a simultaneous problem has the interval of the
/// scalar problem.
pub proof fn single_functional_has_the_scalar_interval<
    L: Levels,
    E: FunctionalSets,
    R: PreparedSets,
>(
    run: MultiRun,
    levels: L,
    sets: E,
    branches: R,
    problem: MultiFlciProblem,
    config: RelativeMagnitudeConfidenceSetConfig,
    joint: HonestJointPathConfig,
    context: PreparedRelativeMagnitudeBaseContext,
    before: Seq<Seq<RelativeMagnitudePreparedFunctionalBranch>>,
    after: Seq<Seq<RelativeMagnitudePreparedFunctionalBranch>>,
    found: HonestMultiFlciResult,
    scalar: HonestConditionalConfidenceSet,
)
    requires
        problem.post_weight_sets@.len() == 1,
        run.explains(
            levels,
            sets,
            branches,
            problem,
            config,
            joint,
            context,
            before,
            after,
            Ok(found),
        ),
        sets.is_magnitude_confidence(
            RelativeMagnitudeFamily::Base,
            problem.input,
            problem.post_weight_sets@[0]@,
            problem.bound,
            run.pointwise,
            config.at_level_spec(run.pointwise),
            Ok(scalar),
        ),
        forall|one: HonestConditionalConfidenceSet, two: HonestConditionalConfidenceSet|
            #[trigger] sets.is_magnitude_confidence(
                RelativeMagnitudeFamily::Base,
                problem.input,
                problem.post_weight_sets@[0]@,
                problem.bound,
                run.pointwise,
                config.at_level_spec(run.pointwise),
                Ok(one),
            ) && #[trigger] sets.is_magnitude_confidence(
                RelativeMagnitudeFamily::Base,
                problem.input,
                problem.post_weight_sets@[0]@,
                problem.bound,
                run.pointwise,
                config.at_level_spec(run.pointwise),
                Ok(two),
            ) ==> one == two,
    ensures
        found.points@.len() == 1,
        found.points@[0].flci == (scalar.lb, scalar.ub),
{
    single_functional_keeps_its_interval(
        run,
        levels,
        sets,
        branches,
        problem,
        config,
        joint,
        context,
        before,
        after,
        found,
    );
}

// ---------------------------------------------------------------------------
// Smoothness
// ---------------------------------------------------------------------------

/// Simultaneous intervals of functionals under the smoothness restriction.
pub fn compute_smoothness_multi_flci_with_config<L: Levels, E: FunctionalSets>(
    problem: &SmoothnessMultiFlciProblem,
    config: SmoothnessFlciConfig,
    joint_config: HonestJointPathConfig,
    levels: &L,
    sets: &E,
) -> (out: Result<HonestMultiFlciResult, HonestError>)
    requires
        functional_sets::countable(problem.input),
        problem.post_weight_sets@.len() != 1 ==> problem.input.shaped(),
        problem.fits(),
        problem.post_weight_sets@.len() == 1 || joint_config.method
            == HonestJointPathMethod::Bonferroni || joint_config.simulation_draws > 0,
        levels.ready(),
        forall|copy: HonestEventStudyInput|
            copy.same_as(problem.input) ==> #[trigger] sets.ready(copy),
    ensures
        exists|run: MultiRun| #[trigger]
            run.explains_smoothness(*levels, *sets, *problem, config, joint_config, out),
{
    let ghost mut run: MultiRun = arbitrary();
    let calibrated = functional_level(
        &problem.input,
        &problem.post_weight_sets,
        problem.inference,
        joint_config,
        false,
        levels,
    );
    proof {
        run.level = calibrated;
        run.intervals = Seq::empty();
    }
    let level = match calibrated {
        Err(error) => {
            assert(run.explains_smoothness(
                *levels,
                *sets,
                *problem,
                config,
                joint_config,
                Err(error),
            ));
            return Err(error);
        },
        Ok(level) => level,
    };
    let pointwise = levels.config(level.0);
    proof {
        run.pointwise = pointwise;
    }
    let count: usize = problem.known();
    let mut points: Vec<HonestMultiFlciPoint> = Vec::new();
    let mut i: usize = 0;
    while i < count
        invariant
            i <= count,
            count == problem.count(),
            problem.fits(),
            functional_sets::countable(problem.input),
            calibration::is_functional_calibration(
                *levels,
                problem.input,
                matrix::rows_of(problem.post_weight_sets@),
                problem.inference,
                joint_config,
                false,
                run.level,
            ),
            run.level == Ok::<(Real, Real), HonestError>(level),
            levels.is_config(level.0, run.pointwise),
            run.pointwise == pointwise,
            forall|copy: HonestEventStudyInput|
                copy.same_as(problem.input) ==> #[trigger] sets.ready(copy),
            run.intervals.len() == i,
            points.len() == i,
            forall|k: int|
                0 <= k < i ==> is_smooth_interval(
                    *sets,
                    *problem,
                    k,
                    pointwise,
                    config,
                    #[trigger] run.intervals[k],
                ),
            forall|k: int| 0 <= k < i ==> #[trigger] run.intervals[k] is Ok,
            forall|k: int|
                0 <= k < i ==> is_point(*problem, k, run.intervals[k], #[trigger] points@[k]),
        decreases count - i,
    {
        let scalar = SmoothnessFlciProblem {
            input: problem.input.copy(),
            post_weights: copy_row(problem.post_weight_sets[i].as_slice()),
            m: problem.bound,
            inference: pointwise,
            original: problem.originals[i],
            identified_set: problem.identified_sets[i],
        };
        proof {
            assert(sets.ready(scalar.input));
            assert(matrix::rows_of(scalar.input.covariance@).len()
                == problem.input.covariance@.len());
            assert(scalar.identified_set == problem.identified_sets@[i as int]);
        }
        let result = sets.interval(&scalar, config);
        let ghost said = result;
        let interval = match result {
            Err(error) => Err(error),
            Ok(found) => Ok(found.flci),
        };
        let ghost earlier = run.intervals;
        proof {
            assert(sets.is_interval(scalar, config, said));
            assert(is_smooth_interval(*sets, *problem, i as int, pointwise, config, interval));
            run.intervals = earlier.push(interval);
            assert forall|k: int| 0 <= k < run.intervals.len() implies is_smooth_interval(
                *sets,
                *problem,
                k,
                pointwise,
                config,
                #[trigger] run.intervals[k],
            ) by {
                if k < i {
                    assert(run.intervals[k] == earlier[k]);
                }
            }
            assert forall|k: int| 0 <= k < run.intervals.len() - 1 implies #[trigger] run.intervals[k]
                is Ok by {
                assert(run.intervals[k] == earlier[k]);
            }
        }
        match interval {
            Err(error) => {
                assert(run.explains_smoothness(
                    *levels,
                    *sets,
                    *problem,
                    config,
                    joint_config,
                    Err(error),
                ));
                return Err(error);
            },
            Ok(flci) => {
                let point = point_of(problem, i, flci);
                let ghost old_points = points@;
                points.push(point);
                proof {
                    assert forall|k: int| 0 <= k < points.len() implies is_point(
                        *problem,
                        k,
                        run.intervals[k],
                        #[trigger] points@[k],
                    ) by {
                        if k < i {
                            assert(points@[k] == old_points[k]);
                            assert(run.intervals[k] == earlier[k]);
                        }
                    }
                }
            },
        }
        i = i + 1;
    }
    let found = HonestMultiFlciResult {
        confidence_level: problem.inference.confidence_level,
        pointwise_confidence_level: level.0,
        calibrated_max_t_critical_value: level.1,
        method: joint_config.method,
        points,
    };
    assert(run.explains_smoothness(
        *levels,
        *sets,
        *problem,
        config,
        joint_config,
        Ok(found),
    ));
    Ok(found)
}

/// Simultaneous intervals of functionals under the smoothness restriction with
/// the default settings.
pub fn compute_smoothness_multi_flci<L: Levels, E: FunctionalSets>(
    problem: &SmoothnessMultiFlciProblem,
    levels: &L,
    sets: &E,
) -> (out: Result<HonestMultiFlciResult, HonestError>)
    requires
        functional_sets::countable(problem.input),
        problem.post_weight_sets@.len() != 1 ==> problem.input.shaped(),
        problem.fits(),
        levels.ready(),
        forall|copy: HonestEventStudyInput|
            copy.same_as(problem.input) ==> #[trigger] sets.ready(copy),
    ensures
        exists|run: MultiRun| #[trigger]
            run.explains_smoothness(
                *levels,
                *sets,
                *problem,
                SmoothnessFlciConfig::default_spec(),
                default_joint(),
                out,
            ),
{
    compute_smoothness_multi_flci_with_config(
        problem,
        SmoothnessFlciConfig::default_for_production(),
        HonestJointPathConfig::default_for_production(),
        levels,
        sets,
    )
}

// ---------------------------------------------------------------------------
// Described functionals
// ---------------------------------------------------------------------------

/// Whether `weights` are those of described functionals, or the fault of the
/// first that has one.
pub open spec fn is_weights_list<S: Fn(usize) -> Real, P: Fn(Real, Real) -> Real>(
    share: S,
    plus: P,
    labels: Seq<i32>,
    functionals: Seq<HonestPostFunctional>,
    weights: Result<Seq<Seq<Real>>, HonestError>,
) -> bool {
    match weights {
        Err(error) => exists|k: int|
            0 <= k < functionals.len() && #[trigger] input::functional_fault(labels, functionals[k])
                == Some(error) && forall|i: int|
                0 <= i < k ==> (#[trigger] input::functional_fault(labels, functionals[i])) is None,
        Ok(list) => {
            &&& list.len() == functionals.len()
            &&& forall|i: int|
                0 <= i < list.len() ==> is_weights_of(
                    share,
                    plus,
                    labels,
                    functionals[i],
                    #[trigger] list[i],
                )
        },
    }
}

/// Whether `weights` are those of a described functional without fault.
pub open spec fn is_weights_of<S: Fn(usize) -> Real, P: Fn(Real, Real) -> Real>(
    share: S,
    plus: P,
    labels: Seq<i32>,
    functional: HonestPostFunctional,
    weights: Seq<Real>,
) -> bool {
    &&& input::functional_fault(labels, functional) is None
    &&& input::functional_weights(share, plus, labels, functional, weights)
}

/// Lists of weights or an error, as sequences.
pub open spec fn weights_listed(weights: Result<Vec<Vec<Real>>, HonestError>) -> Result<
    Seq<Seq<Real>>,
    HonestError,
> {
    match weights {
        Ok(list) => Ok(matrix::rows_of(list@)),
        Err(error) => Err(error),
    }
}

/// The weights of described functionals.
pub fn weights_for_functionals<S: Fn(usize) -> Real, P: Fn(Real, Real) -> Real>(
    data: &HonestEventStudyInput,
    functionals: &Vec<HonestPostFunctional>,
    share: &S,
    plus: &P,
) -> (weights: Result<Vec<Vec<Real>>, HonestError>)
    requires
        forall|n: usize| #[trigger] call_requires(*share, (n,)),
        forall|a: Real, b: Real| #[trigger] call_requires(*plus, (a, b)),
    ensures
        is_weights_list(
            *share,
            *plus,
            data.post_periods@,
            functionals@,
            weights_listed(weights),
        ),
        weights matches Ok(list) ==> list@.len() == functionals@.len() && matrix::has_cols(
            list@,
            data.post_periods@.len() as int,
        ) && (list@.len() > 0 ==> data.post_periods@.len() > 0),
{
    let mut list: Vec<Vec<Real>> = Vec::new();
    while list.len() < functionals.len()
        invariant
            list.len() <= functionals.len(),
            forall|n: usize| #[trigger] call_requires(*share, (n,)),
            forall|a: Real, b: Real| #[trigger] call_requires(*plus, (a, b)),
            forall|i: int|
                0 <= i < list.len() ==> is_weights_of(
                    *share,
                    *plus,
                    data.post_periods@,
                    functionals@[i],
                    (#[trigger] list@[i])@,
                ),
            matrix::has_cols(list@, data.post_periods@.len() as int),
            list@.len() > 0 ==> data.post_periods@.len() > 0,
        decreases functionals.len() - list.len(),
    {
        let k: usize = list.len();
        match post_weights_for_functional(data, &functionals[k], share, plus) {
            Err(error) => {
                proof {
                    assert forall|i: int| 0 <= i < k implies (#[trigger] input::functional_fault(
                        data.post_periods@,
                        functionals@[i],
                    )) is None by {
                        assert(is_weights_of(
                            *share,
                            *plus,
                            data.post_periods@,
                            functionals@[i],
                            list@[i]@,
                        ));
                    }
                    assert(input::functional_fault(data.post_periods@, functionals@[k as int])
                        == Some(error));
                }
                return Err(error);
            },
            Ok(weights) => {
                proof {
                    input::weights_match_the_labels(
                        *share,
                        *plus,
                        data.post_periods@,
                        functionals@[k as int],
                        weights@,
                    );
                }
                list.push(weights);
            },
        }
    }
    proof {
        let rows = matrix::rows_of(list@);
        assert forall|i: int| 0 <= i < rows.len() implies is_weights_of(
            *share,
            *plus,
            data.post_periods@,
            functionals@[i],
            #[trigger] rows[i],
        ) by {
            assert(rows[i] == list@[i]@);
        }
    }
    Ok(list)
}

/// Whether `out` assesses a functional by its least-favorable interval.
pub open spec fn is_flci_assessment<E: FunctionalSets>(
    problem: Result<RelativeMagnitudeFlciProblem, HonestError>,
    flci: Result<RelativeMagnitudeFlciResult, HonestError>,
    sets: E,
    data: HonestEventStudyInput,
    weights: Seq<Real>,
    mbar: Real,
    inference: InferenceConfig,
    null_value: Real,
    config: RelativeMagnitudeConfidenceSetConfig,
    out: Result<HonestAssessment, HonestError>,
) -> bool {
    &&& exists|
        original: Result<HonestOriginalConfidenceSet, HonestError>,
        identified: Result<HonestIdentifiedSet, HonestError>,
    | #[trigger]
        is_magnitude_problem(
            original,
            identified,
            sets,
            data,
            weights,
            mbar,
            inference,
            problem,
        )
    &&& match problem {
        Err(error) => out == Err::<HonestAssessment, HonestError>(error),
        Ok(posed) => {
            &&& is_magnitude_interval(sets, posed, config, flci)
            &&& out == (match flci {
                Err(error) => Err(error),
                Ok(found) => Ok(
                    HonestAssessment::of(
                        posed.original,
                        found.flci,
                        found.identified_set,
                        null_value,
                        mbar,
                    ),
                ),
            })
        },
    }
}

/// Whether `out` assesses a described functional by its least-favorable
/// interval.
pub open spec fn flci_assessed<
    E: FunctionalSets,
    S: Fn(usize) -> Real,
    P: Fn(Real, Real) -> Real,
>(
    sets: E,
    share: S,
    plus: P,
    data: HonestEventStudyInput,
    functional: HonestPostFunctional,
    mbar: Real,
    inference: InferenceConfig,
    null_value: Real,
    config: RelativeMagnitudeConfidenceSetConfig,
    out: Result<HonestAssessment, HonestError>,
) -> bool {
    match input::functional_fault(data.post_periods@, functional) {
        Some(error) => out == Err::<HonestAssessment, HonestError>(error),
        None => exists|
            weights: Seq<Real>,
            problem: Result<RelativeMagnitudeFlciProblem, HonestError>,
            flci: Result<RelativeMagnitudeFlciResult, HonestError>,
        |
            input::functional_weights(share, plus, data.post_periods@, functional, weights)
                && #[trigger] is_flci_assessment(
                problem,
                flci,
                sets,
                data,
                weights,
                mbar,
                inference,
                null_value,
                config,
                out,
            ),
    }
}

/// Assesses a described functional by its least-favorable interval.
pub fn assess_honest_event_study_post_functional_flci_with_config<
    E: FunctionalSets,
    S: Fn(usize) -> Real,
    P: Fn(Real, Real) -> Real,
>(
    data: &HonestEventStudyInput,
    functional: &HonestPostFunctional,
    mbar: Real,
    inference: InferenceConfig,
    null_value: Real,
    relative_magnitude_config: RelativeMagnitudeConfidenceSetConfig,
    share: &S,
    plus: &P,
    sets: &E,
) -> (out: Result<HonestAssessment, HonestError>)
    requires
        functional_sets::countable(*data),
        sets.ready(*data),
        forall|copy: HonestEventStudyInput| copy.same_as(*data) ==> #[trigger] sets.ready(copy),
        forall|n: usize| #[trigger] call_requires(*share, (n,)),
        forall|a: Real, b: Real| #[trigger] call_requires(*plus, (a, b)),
    ensures
        flci_assessed(
            *sets,
            *share,
            *plus,
            *data,
            *functional,
            mbar,
            inference,
            null_value,
            relative_magnitude_config,
            out,
        ),
{
    let weights = match post_weights_for_functional(data, functional, share, plus) {
        Err(error) => {
            return Err(error);
        },
        Ok(weights) => weights,
    };
    let ghost unasked: Result<RelativeMagnitudeFlciResult, HonestError> = arbitrary();
    let built = build_relative_magnitude_flci_problem(data, &weights, mbar, inference, sets);
    let ghost posed = built;
    let problem = match built {
        Err(error) => {
            assert(is_flci_assessment(
                posed,
                unasked,
                *sets,
                *data,
                weights@,
                mbar,
                inference,
                null_value,
                relative_magnitude_config,
                Err(error),
            ));
            return Err(error);
        },
        Ok(problem) => problem,
    };
    assert(sets.ready(problem.input));
    let flci = compute_relative_magnitude_flci_with_config(
        &problem,
        relative_magnitude_config,
        sets,
    );
    let ghost said = flci;
    let out = match flci {
        Err(error) => Err(error),
        Ok(found) => Ok(
            HonestAssessment::new(
                problem.original,
                found.flci,
                found.identified_set,
                null_value,
                mbar,
            ),
        ),
    };
    assert(is_flci_assessment(
        posed,
        said,
        *sets,
        *data,
        weights@,
        mbar,
        inference,
        null_value,
        relative_magnitude_config,
        out,
    ));
    out
}

/// Assesses a described functional by its least-favorable interval with the
/// default settings.
pub fn assess_honest_event_study_post_functional_flci<
    E: FunctionalSets,
    S: Fn(usize) -> Real,
    P: Fn(Real, Real) -> Real,
>(
    data: &HonestEventStudyInput,
    functional: &HonestPostFunctional,
    mbar: Real,
    inference: InferenceConfig,
    null_value: Real,
    share: &S,
    plus: &P,
    sets: &E,
) -> (out: Result<HonestAssessment, HonestError>)
    requires
        functional_sets::countable(*data),
        sets.ready(*data),
        forall|copy: HonestEventStudyInput| copy.same_as(*data) ==> #[trigger] sets.ready(copy),
        forall|n: usize| #[trigger] call_requires(*share, (n,)),
        forall|a: Real, b: Real| #[trigger] call_requires(*plus, (a, b)),
    ensures
        flci_assessed(
            *sets,
            *share,
            *plus,
            *data,
            *functional,
            mbar,
            inference,
            null_value,
            RelativeMagnitudeConfidenceSetConfig::from_inference_spec(inference),
            out,
        ),
{
    assess_honest_event_study_post_functional_flci_with_config(
        data,
        functional,
        mbar,
        inference,
        null_value,
        RelativeMagnitudeConfidenceSetConfig::from_inference(inference),
        share,
        plus,
        sets,
    )
}

/// What the simultaneous intervals of described functionals rested on.
pub struct DescribedRun {
    /// Weights of the functionals.
    pub weights: Result<Seq<Seq<Real>>, HonestError>,
    /// The sets of the functionals.
    pub pairs: Seq<Result<(HonestOriginalConfidenceSet, HonestIdentifiedSet), HonestError>>,
    /// The problem.
    pub problem: Result<MultiFlciProblem, HonestError>,
}

impl DescribedRun {
    /// Whether `out` holds the simultaneous intervals of described functionals.
    pub open spec fn explains<
        L: Levels,
        E: FunctionalSets,
        R: PreparedSets,
        S: Fn(usize) -> Real,
        P: Fn(Real, Real) -> Real,
    >(
        self,
        levels: L,
        sets: E,
        branches: R,
        share: S,
        plus: P,
        data: HonestEventStudyInput,
        functionals: Seq<HonestPostFunctional>,
        mbar: Real,
        inference: InferenceConfig,
        config: RelativeMagnitudeConfidenceSetConfig,
        joint: HonestJointPathConfig,
        out: Result<HonestMultiFlciResult, HonestError>,
    ) -> bool {
        if functionals.len() == 0 {
            out == Err::<HonestMultiFlciResult, HonestError>(
                HonestError::NoFunctional { context: "multi-functional FLCI" },
            )
        } else {
            &&& is_weights_list(share, plus, data.post_periods@, functionals, self.weights)
            &&& match self.weights {
                Err(error) => out == Err::<HonestMultiFlciResult, HonestError>(error),
                Ok(weights) => {
                    &&& is_multi_problem(
                        self.pairs,
                        sets,
                        false,
                        data,
                        weights,
                        mbar,
                        inference,
                        self.problem,
                    )
                    &&& match self.problem {
                        Err(error) => out == Err::<HonestMultiFlciResult, HonestError>(error),
                        Ok(problem) => magnitude_multi(
                            levels,
                            sets,
                            branches,
                            problem,
                            config,
                            joint,
                            out,
                        ),
                    }
                },
            }
        }
    }
}

/// Simultaneous least-favorable intervals of described functionals.
pub fn assess_honest_event_study_post_functional_multi_flci_with_config<
    L: Levels,
    E: FunctionalSets,
    R: PreparedSets,
    S: Fn(usize) -> Real,
    P: Fn(Real, Real) -> Real,
>(
    data: &HonestEventStudyInput,
    functionals: &Vec<HonestPostFunctional>,
    mbar: Real,
    inference: InferenceConfig,
    relative_magnitude_config: RelativeMagnitudeConfidenceSetConfig,
    joint_config: HonestJointPathConfig,
    share: &S,
    plus: &P,
    levels: &L,
    sets: &E,
    branches: &R,
) -> (out: Result<HonestMultiFlciResult, HonestError>)
    requires
        functional_sets::countable(*data),
        levels.ready(),
        sets.ready(*data),
        forall|copy: HonestEventStudyInput|
            copy.same_as(*data) ==> #[trigger] sets.ready(copy) && branches.ready(copy),
        forall|n: usize| #[trigger] call_requires(*share, (n,)),
        forall|a: Real, b: Real| #[trigger] call_requires(*plus, (a, b)),
    ensures
        exists|run: DescribedRun| #[trigger]
            run.explains(
                *levels,
                *sets,
                *branches,
                *share,
                *plus,
                *data,
                functionals@,
                mbar,
                inference,
                relative_magnitude_config,
                joint_config,
                out,
            ),
{
    let ghost mut run: DescribedRun = arbitrary();
    if functionals.len() == 0 {
        let error = HonestError::NoFunctional { context: "multi-functional FLCI" };
        assert(run.explains(
            *levels,
            *sets,
            *branches,
            *share,
            *plus,
            *data,
            functionals@,
            mbar,
            inference,
            relative_magnitude_config,
            joint_config,
            Err(error),
        ));
        return Err(error);
    }
    let weighed = weights_for_functionals(data, functionals, share, plus);
    proof {
        run.weights = weights_listed(weighed);
    }
    let weights = match weighed {
        Err(error) => {
            assert(run.explains(
                *levels,
                *sets,
                *branches,
                *share,
                *plus,
                *data,
                functionals@,
                mbar,
                inference,
                relative_magnitude_config,
                joint_config,
                Err(error),
            ));
            return Err(error);
        },
        Ok(weights) => weights,
    };
    let built = build_relative_magnitude_multi_flci_problem(data, &weights, mbar, inference, sets);
    proof {
        run.problem = built;
        run.pairs = choose|
            pairs: Seq<Result<(HonestOriginalConfidenceSet, HonestIdentifiedSet), HonestError>>,
        | #[trigger]
            is_multi_problem(
                pairs,
                *sets,
                false,
                *data,
                matrix::rows_of(weights@),
                mbar,
                inference,
                built,
            );
    }
    let problem = match built {
        Err(error) => {
            assert(run.explains(
                *levels,
                *sets,
                *branches,
                *share,
                *plus,
                *data,
                functionals@,
                mbar,
                inference,
                relative_magnitude_config,
                joint_config,
                Err(error),
            ));
            return Err(error);
        },
        Ok(problem) => problem,
    };
    proof {
        assert(sets.ready(problem.input));
        assert(matrix::rows_of(problem.post_weight_sets@).len() == matrix::rows_of(weights@).len());
        assert(problem.originals@.len() == run.pairs.len());
        assert(problem.identified_sets@.len() == run.pairs.len());
        assert(run.pairs.len() == weights@.len());
    }
    let out = compute_relative_magnitude_multi_flci_with_config(
        &problem,
        relative_magnitude_config,
        joint_config,
        levels,
        sets,
        branches,
    );
    assert(run.explains(
        *levels,
        *sets,
        *branches,
        *share,
        *plus,
        *data,
        functionals@,
        mbar,
        inference,
        relative_magnitude_config,
        joint_config,
        out,
    ));
    out
}

/// Simultaneous least-favorable intervals of described functionals with the
/// default settings.
pub fn assess_honest_event_study_post_functional_multi_flci<
    L: Levels,
    E: FunctionalSets,
    R: PreparedSets,
    S: Fn(usize) -> Real,
    P: Fn(Real, Real) -> Real,
>(
    data: &HonestEventStudyInput,
    functionals: &Vec<HonestPostFunctional>,
    mbar: Real,
    inference: InferenceConfig,
    share: &S,
    plus: &P,
    levels: &L,
    sets: &E,
    branches: &R,
) -> (out: Result<HonestMultiFlciResult, HonestError>)
    requires
        functional_sets::countable(*data),
        levels.ready(),
        sets.ready(*data),
        forall|copy: HonestEventStudyInput|
            copy.same_as(*data) ==> #[trigger] sets.ready(copy) && branches.ready(copy),
        forall|n: usize| #[trigger] call_requires(*share, (n,)),
        forall|a: Real, b: Real| #[trigger] call_requires(*plus, (a, b)),
    ensures
        exists|run: DescribedRun| #[trigger]
            run.explains(
                *levels,
                *sets,
                *branches,
                *share,
                *plus,
                *data,
                functionals@,
                mbar,
                inference,
                RelativeMagnitudeConfidenceSetConfig::from_inference_spec(inference),
                default_joint(),
                out,
            ),
{
    proof {
        assert forall|copy: HonestEventStudyInput| copy.same_as(*data) implies #[trigger] sets.ready(
            copy,
        ) && branches.ready(copy) by {
            assert(sets.ready(copy));
        }
    }
    assess_honest_event_study_post_functional_multi_flci_with_config(
        data,
        functionals,
        mbar,
        inference,
        RelativeMagnitudeConfidenceSetConfig::from_inference(inference),
        HonestJointPathConfig::default_for_production(),
        share,
        plus,
        levels,
        sets,
        branches,
    )
}

// ---------------------------------------------------------------------------
// At which level intervals stand
// ---------------------------------------------------------------------------

/// Simultaneous intervals under a smoothness bound share the family-wise error by
/// the Bonferroni method, and each is the fixed-length interval of its functional
/// alone at the level that is reported.
pub proof fn simultaneous_intervals_stand_at_the_shared_level<L: Levels, E: FunctionalSets>(
    run: MultiRun,
    levels: L,
    sets: E,
    problem: MultiFlciProblem,
    config: SmoothnessFlciConfig,
    joint: HonestJointPathConfig,
    found: HonestMultiFlciResult,
    i: int,
) -> (scalar: (SmoothnessFlciProblem, SmoothnessFlciResult))
    requires
        run.explains_smoothness(levels, sets, problem, config, joint, Ok(found)),
        joint.method == HonestJointPathMethod::Bonferroni,
        0 <= i < found.points@.len(),
        problem.originals@.len() == problem.post_weight_sets@.len(),
        problem.identified_sets@.len() == problem.post_weight_sets@.len(),
    ensures
        found.points@.len() >= 2 ==> levels.is_shared(
            problem.inference,
            found.points@.len() as usize,
            found.pointwise_confidence_level,
        ),
        found.points@.len() == 1 ==> found.pointwise_confidence_level
            == problem.inference.confidence_level,
        levels.is_config(found.pointwise_confidence_level, scalar.0.inference),
        sets.is_interval(scalar.0, config, Ok(scalar.1)),
        scalar.0.post_weights@ == problem.post_weight_sets@[i]@,
        scalar.0.m == problem.bound,
        scalar.0.input.same_as(problem.input),
        found.points@[i].flci == scalar.1.flci,
        found.points@[i].post_weights@ == problem.post_weight_sets@[i]@,
{
    let level = run.level->Ok_0;
    let functionals = matrix::rows_of(problem.post_weight_sets@);
    assert(functionals.len() == problem.count());
    assert(run.intervals.len() == problem.count());
    calibration::functionals_share_the_error(
        levels,
        problem.input,
        functionals,
        problem.inference,
        joint,
        false,
        level.0,
        level.1,
    );
    assert(is_point(problem, i, run.intervals[i], found.points@[i]));
    assert(is_smooth_interval(
        sets,
        problem,
        i,
        run.pointwise,
        config,
        run.intervals[i],
    ));
    let (scalar, result) = choose|
        scalar: SmoothnessFlciProblem,
        result: Result<SmoothnessFlciResult, HonestError>,
    |
        #[trigger] sets.is_interval(scalar, config, result) && {
            &&& scalar.input.same_as(problem.input)
            &&& scalar.post_weights@ == problem.post_weight_sets@[i]@
            &&& scalar.m == problem.bound
            &&& scalar.inference == run.pointwise
            &&& scalar.original == problem.originals@[i]
            &&& scalar.identified_set == problem.identified_sets@[i]
        } && run.intervals[i] == (match result {
            Err(error) => Err(error),
            Ok(found) => Ok(found.flci),
        });
    assert(result is Ok);
    (scalar, result->Ok_0)
}

} // verus!
