//! Assessments of functionals of an event study.

use crate::branch_search::RelativeMagnitudePreparedFunctionalBranch;
use crate::branches::RelativeMagnitudeFamily;
use crate::errors::HonestError;
use crate::functional_sets;
use crate::functional_sets::FunctionalSets;
use crate::input;
use crate::input::{
    are_negligible, basis_post_weights, position_of, post_weights_for_functional, scalar_bias,
    HonestEventStudyInput, ScalarBias,
};
use crate::matrix;
use crate::matrix::{copy_matrix, copy_row};
use crate::number::Real;
use crate::prepared_sets;
use crate::prepared_sets::{PreparedRelativeMagnitudeBaseContext, PreparedSets};
use crate::smoothness::SmoothnessFamily;
use crate::types::{
    HonestAssessment, HonestConditionalConfidenceSet, HonestEventStudyPoint, HonestIdentifiedSet,
    HonestOriginalConfidenceSet, HonestPostFunctional, HonestResult, HonestSensitivity,
    InferenceConfig, RelativeMagnitudeConfidenceSetConfig, SmoothnessConfidenceSetConfig,
};
use vstd::prelude::*;

verus! {

// ---------------------------------------------------------------------------
// Results in order
// ---------------------------------------------------------------------------

/// Whether results were computed in order, up to `count` or to the first error.
pub open spec fn in_order<T>(results: Seq<Result<T, HonestError>>, count: int) -> bool {
    &&& results.len() <= count
    &&& forall|i: int| 0 <= i < results.len() - 1 ==> #[trigger] results[i] is Ok
    &&& results.len() < count ==> results.len() > 0 && results.last() is Err
}

/// The first error of results in order, if any.
pub open spec fn failure<T>(results: Seq<Result<T, HonestError>>) -> Option<HonestError> {
    if results.len() > 0 && results.last() is Err {
        Some(results.last()->Err_0)
    } else {
        None
    }
}

// ---------------------------------------------------------------------------
// A single post period
// ---------------------------------------------------------------------------

/// An estimate with its standard error.
#[derive(Clone, Copy, Debug, PartialEq, Eq, Structural)]
pub struct ScalarEstimate {
    /// The estimate.
    pub att: Real,
    /// Its standard error.
    pub se: Real,
}

/// The estimates of a list.
pub open spec fn estimates(list: Seq<ScalarEstimate>) -> Seq<Real> {
    Seq::new(list.len(), |i: int| list[i].att)
}

/// What bounds the bias of a single post period, or why there is no bound.
pub open spec fn bias_of(
    pre: Seq<ScalarEstimate>,
    vcov: Seq<Vec<Real>>,
    sensitivity: HonestSensitivity,
) -> Result<ScalarBias, HonestError> {
    if vcov.len() != pre.len() + 1 || !matrix::has_cols(vcov, (pre.len() + 1) as int) {
        Err(HonestError::ScalarCovarianceShape)
    } else {
        match sensitivity {
            HonestSensitivity::Smoothness(m) => if pre.len() == 0 {
                Err(HonestError::ScalarNeedsPrePeriod)
            } else {
                Ok(ScalarBias::Trend { last: pre.last().att, m })
            },
            HonestSensitivity::RelativeMagnitude(m) => Ok(
                ScalarBias::Magnitude {
                    largest: matrix::largest_magnitude(estimates(pre), pre.len() as int),
                    m,
                },
            ),
        }
    }
}

/// Robust interval of a single post period. `bounds` gives the identified set
/// around the estimate and `widen` the interval around the set.
pub fn compute_honest_ci_scalar<
    B: Fn(Real, ScalarBias) -> (Real, Real),
    W: Fn((Real, Real), Real, InferenceConfig) -> (Real, Real),
>(
    target: ScalarEstimate,
    pre_estimates: &Vec<ScalarEstimate>,
    vcov: &Vec<Vec<Real>>,
    sensitivity: HonestSensitivity,
    inference: InferenceConfig,
    bounds: &B,
    widen: &W,
) -> (result: Result<HonestResult, HonestError>)
    requires
        forall|a: Real, b: ScalarBias| #[trigger] call_requires(*bounds, (a, b)),
        forall|i: (Real, Real), se: Real, c: InferenceConfig| #[trigger]
            call_requires(*widen, (i, se, c)),
    ensures
        match bias_of(pre_estimates@, vcov@, sensitivity) {
            Err(error) => result == Err::<HonestResult, HonestError>(error),
            Ok(bias) => result matches Ok(found) && {
                &&& call_ensures(*bounds, (target.att, bias), found.identified_set)
                &&& call_ensures(
                    *widen,
                    (found.identified_set, target.se, inference),
                    found.robust_ci,
                )
                &&& found.original_estimate == target.att
                &&& found.original_se == target.se
                &&& found.m == sensitivity.bound_spec()
            },
        },
{
    let mut atts: Vec<Real> = Vec::new();
    while atts.len() < pre_estimates.len()
        invariant
            atts.len() <= pre_estimates.len(),
            forall|i: int| 0 <= i < atts.len() ==> atts@[i] == pre_estimates@[i].att,
        decreases pre_estimates.len() - atts.len(),
    {
        let i: usize = atts.len();
        atts.push(pre_estimates[i].att);
    }
    proof {
        assert(atts@ =~= estimates(pre_estimates@));
    }
    let mut ragged = false;
    let mut i: usize = 0;
    while i < vcov.len()
        invariant
            i <= vcov.len(),
            ragged == exists|k: int|
                0 <= k < i && (#[trigger] vcov@[k])@.len() != pre_estimates@.len() + 1,
        decreases vcov.len() - i,
    {
        let cols: usize = vcov[i].len();
        assert(cols == vcov@[i as int]@.len());
        if cols == 0 || cols - 1 != pre_estimates.len() {
            ragged = true;
        }
        i = i + 1;
    }
    match scalar_bias(atts.as_slice(), vcov.len(), ragged, sensitivity) {
        Err(error) => Err(error),
        Ok(bias) => {
            let identified_set = bounds(target.att, bias);
            let robust_ci = widen(identified_set, target.se, inference);
            Ok(
                HonestResult {
                    original_estimate: target.att,
                    original_se: target.se,
                    robust_ci,
                    identified_set,
                    m: sensitivity.bound(),
                },
            )
        },
    }
}

// ---------------------------------------------------------------------------
// One functional
// ---------------------------------------------------------------------------

/// Whether `out` assesses a functional under the base relative-magnitude
/// restriction, given its confidence set under parallel trends.
pub open spec fn is_magnitude_assessment<E: FunctionalSets>(
    sets: E,
    data: HonestEventStudyInput,
    weights: Seq<Real>,
    mbar: Real,
    inference: InferenceConfig,
    null_value: Real,
    config: RelativeMagnitudeConfidenceSetConfig,
    original: HonestOriginalConfidenceSet,
    out: Result<HonestAssessment, HonestError>,
) -> bool {
    exists|
        identified: Result<HonestIdentifiedSet, HonestError>,
        conditional: Result<HonestConditionalConfidenceSet, HonestError>,
    |
        #![trigger sets.is_magnitude_given(data, weights, mbar, inference, config, original, identified->Ok_0, conditional)]
        sets.is_magnitude_identified(
            RelativeMagnitudeFamily::Base,
            data,
            weights,
            mbar,
            identified,
        ) && match identified {
            Err(error) => out == Err::<HonestAssessment, HonestError>(error),
            Ok(set) => sets.is_magnitude_given(
                data,
                weights,
                mbar,
                inference,
                config,
                original,
                set,
                conditional,
            ) && out == assessed(original, set, conditional, null_value, mbar),
        }
}

/// The assessment of given sets, or the error of the confidence set.
pub open spec fn assessed(
    original: HonestOriginalConfidenceSet,
    identified: HonestIdentifiedSet,
    conditional: Result<HonestConditionalConfidenceSet, HonestError>,
    null_value: Real,
    sensitivity_value: Real,
) -> Result<HonestAssessment, HonestError> {
    match conditional {
        Err(error) => Err(error),
        Ok(set) => Ok(
            HonestAssessment::of(
                original,
                (set.lb, set.ub),
                (identified.lb, identified.ub),
                null_value,
                sensitivity_value,
            ),
        ),
    }
}

fn assess_sets(
    original: HonestOriginalConfidenceSet,
    identified: HonestIdentifiedSet,
    conditional: Result<HonestConditionalConfidenceSet, HonestError>,
    null_value: Real,
    sensitivity_value: Real,
) -> (out: Result<HonestAssessment, HonestError>)
    ensures
        out == assessed(original, identified, conditional, null_value, sensitivity_value),
{
    match conditional {
        Err(error) => Err(error),
        Ok(set) => Ok(
            HonestAssessment::new(
                original,
                (set.lb, set.ub),
                (identified.lb, identified.ub),
                null_value,
                sensitivity_value,
            ),
        ),
    }
}

/// Whether `out` assesses a functional whose pre-period changes respect the
/// smoothness bound.
pub open spec fn is_smooth_assessment<E: FunctionalSets>(
    sets: E,
    data: HonestEventStudyInput,
    weights: Seq<Real>,
    m: Real,
    inference: InferenceConfig,
    null_value: Real,
    original: HonestOriginalConfidenceSet,
    out: Result<HonestAssessment, HonestError>,
) -> bool {
    exists|
        identified: Result<HonestIdentifiedSet, HonestError>,
        conditional: Result<HonestConditionalConfidenceSet, HonestError>,
    |
        #![trigger
            sets.is_smoothness_identified(SmoothnessFamily::Plain, data, weights, m, identified),
            sets.is_smoothness_confidence(SmoothnessFamily::Plain, data, weights, m, inference, SmoothnessConfidenceSetConfig::from_inference_spec(inference), conditional)]
        sets.is_smoothness_identified(SmoothnessFamily::Plain, data, weights, m, identified)
            && match identified {
            Err(error) => out == Err::<HonestAssessment, HonestError>(error),
            Ok(set) => sets.is_smoothness_confidence(
                SmoothnessFamily::Plain,
                data,
                weights,
                m,
                inference,
                SmoothnessConfidenceSetConfig::from_inference_spec(inference),
                conditional,
            ) && out == assessed(original, set, conditional, null_value, m),
        }
}

/// Whether `out` assesses a functional under the smoothness restriction, given
/// its confidence set under parallel trends. Nothing is excluded where the
/// pre-period changes exceed the bound.
pub open spec fn is_smoothness_assessment<E: FunctionalSets>(
    sets: E,
    data: HonestEventStudyInput,
    weights: Seq<Real>,
    m: Real,
    inference: InferenceConfig,
    null_value: Real,
    original: HonestOriginalConfidenceSet,
    out: Result<HonestAssessment, HonestError>,
) -> bool {
    if weights.len() != data.post_periods@.len() {
        out == Err::<HonestAssessment, HonestError>(
            HonestError::PostWeightCount {
                found: weights.len() as usize,
                expected: data.post_periods@.len() as usize,
            },
        )
    } else if input::all_negligible(weights) {
        out == Err::<HonestAssessment, HonestError>(HonestError::SmoothnessWeightsZero)
    } else {
        exists|within: bool|
            #[trigger] sets.is_within_bound(
                data.betahat@.take(data.pre_periods@.len() as int),
                m,
                within,
            ) && if within {
                is_smooth_assessment(
                    sets,
                    data,
                    weights,
                    m,
                    inference,
                    null_value,
                    original,
                    out,
                )
            } else {
                out == Ok::<HonestAssessment, HonestError>(
                    HonestAssessment::of(original, everything(), everything(), null_value, m),
                )
            }
    }
}

/// The interval that excludes nothing.
pub open spec fn everything() -> (Real, Real) {
    (Real::neg_infinity_spec(), Real::infinity_spec())
}

/// Whether `out` assesses a functional.
pub open spec fn is_assessment<E: FunctionalSets>(
    sets: E,
    data: HonestEventStudyInput,
    weights: Seq<Real>,
    sensitivity: HonestSensitivity,
    inference: InferenceConfig,
    null_value: Real,
    config: RelativeMagnitudeConfidenceSetConfig,
    out: Result<HonestAssessment, HonestError>,
) -> bool {
    exists|original: Result<HonestOriginalConfidenceSet, HonestError>|
        #[trigger] sets.is_original(data, weights, inference, original) && match original {
            Err(error) => out == Err::<HonestAssessment, HonestError>(error),
            Ok(set) => match sensitivity {
                HonestSensitivity::RelativeMagnitude(mbar) => is_magnitude_assessment(
                    sets,
                    data,
                    weights,
                    mbar,
                    inference,
                    null_value,
                    config,
                    set,
                    out,
                ),
                HonestSensitivity::Smoothness(m) => is_smoothness_assessment(
                    sets,
                    data,
                    weights,
                    m,
                    inference,
                    null_value,
                    set,
                    out,
                ),
            },
        }
}

fn assess_magnitude<E: FunctionalSets>(
    data: &HonestEventStudyInput,
    post_weights: &Vec<Real>,
    mbar: Real,
    inference: InferenceConfig,
    null_value: Real,
    config: RelativeMagnitudeConfidenceSetConfig,
    original: HonestOriginalConfidenceSet,
    sets: &E,
) -> (out: Result<HonestAssessment, HonestError>)
    requires
        functional_sets::countable(*data),
        sets.ready(*data),
    ensures
        is_magnitude_assessment(
            *sets,
            *data,
            post_weights@,
            mbar,
            inference,
            null_value,
            config,
            original,
            out,
        ),
{
    let identified = sets.magnitude_identified(
        RelativeMagnitudeFamily::Base,
        data,
        post_weights,
        mbar,
    );
    let ghost said = identified;
    match identified {
        Err(error) => {
            let ghost unasked: Result<HonestConditionalConfidenceSet, HonestError> = arbitrary();
            proof {
                let unused = sets.is_magnitude_given(
                    *data,
                    post_weights@,
                    mbar,
                    inference,
                    config,
                    original,
                    said->Ok_0,
                    unasked,
                );
            }
            Err(error)
        },
        Ok(set) => {
            let conditional = sets.magnitude_given(
                data,
                post_weights,
                mbar,
                inference,
                config,
                original,
                set,
            );
            let ghost found = conditional;
            let out = assess_sets(original, set, conditional, null_value, mbar);
            assert(sets.is_magnitude_given(
                *data,
                post_weights@,
                mbar,
                inference,
                config,
                original,
                said->Ok_0,
                found,
            ));
            out
        },
    }
}

fn assess_smooth<E: FunctionalSets>(
    data: &HonestEventStudyInput,
    post_weights: &Vec<Real>,
    m: Real,
    inference: InferenceConfig,
    null_value: Real,
    original: HonestOriginalConfidenceSet,
    sets: &E,
) -> (out: Result<HonestAssessment, HonestError>)
    requires
        functional_sets::countable(*data),
        data.total() > 0,
        sets.ready(*data),
    ensures
        is_smooth_assessment(
            *sets,
            *data,
            post_weights@,
            m,
            inference,
            null_value,
            original,
            out,
        ),
{
    let family = SmoothnessFamily::Plain;
    let identified = sets.smoothness_identified(family, data, post_weights, m);
    let ghost said = identified;
    match identified {
        Err(error) => {
            let ghost unasked: Result<HonestConditionalConfidenceSet, HonestError> = arbitrary();
            proof {
                let unused = sets.is_smoothness_confidence(
                    SmoothnessFamily::Plain,
                    *data,
                    post_weights@,
                    m,
                    inference,
                    SmoothnessConfidenceSetConfig::from_inference_spec(inference),
                    unasked,
                );
            }
            Err(error)
        },
        Ok(set) => {
            let conditional = sets.smoothness_confidence(
                family,
                data,
                post_weights,
                m,
                inference,
                SmoothnessConfidenceSetConfig::from_inference(inference),
            );
            let ghost found = conditional;
            let out = assess_sets(original, set, conditional, null_value, m);
            assert(sets.is_smoothness_identified(
                SmoothnessFamily::Plain,
                *data,
                post_weights@,
                m,
                said,
            ));
            assert(sets.is_smoothness_confidence(
                SmoothnessFamily::Plain,
                *data,
                post_weights@,
                m,
                inference,
                SmoothnessConfidenceSetConfig::from_inference_spec(inference),
                found,
            ));
            out
        },
    }
}

fn pre_coefficients(data: &HonestEventStudyInput) -> (pre: Vec<Real>)
    requires
        data.shaped(),
    ensures
        pre@ == data.betahat@.take(data.pre_periods@.len() as int),
{
    let mut pre: Vec<Real> = Vec::new();
    while pre.len() < data.pre_periods.len()
        invariant
            pre.len() <= data.pre_periods.len(),
            data.shaped(),
            forall|i: int| 0 <= i < pre.len() ==> pre@[i] == data.betahat@[i],
        decreases data.pre_periods.len() - pre.len(),
    {
        let i: usize = pre.len();
        pre.push(data.betahat[i]);
    }
    proof {
        assert(pre@ =~= data.betahat@.take(data.pre_periods@.len() as int));
    }
    pre
}

/// Assesses whether a functional stays distinguishable from a null value.
pub fn assess_honest_event_study_functional_with_config<E: FunctionalSets>(
    data: &HonestEventStudyInput,
    post_weights: &Vec<Real>,
    sensitivity: HonestSensitivity,
    inference: InferenceConfig,
    null_value: Real,
    relative_magnitude_config: RelativeMagnitudeConfidenceSetConfig,
    sets: &E,
) -> (out: Result<HonestAssessment, HonestError>)
    requires
        functional_sets::countable(*data),
        sets.ready(*data),
    ensures
        is_assessment(
            *sets,
            *data,
            post_weights@,
            sensitivity,
            inference,
            null_value,
            relative_magnitude_config,
            out,
        ),
{
    let measured = sets.original(data, post_weights, inference);
    let ghost said = measured;
    assert(sets.is_original(*data, post_weights@, inference, said));
    let original = match measured {
        Err(error) => {
            return Err(error);
        },
        Ok(original) => original,
    };
    match sensitivity {
        HonestSensitivity::RelativeMagnitude(mbar) => assess_magnitude(
            data,
            post_weights,
            mbar,
            inference,
            null_value,
            relative_magnitude_config,
            original,
            sets,
        ),
        HonestSensitivity::Smoothness(m) => {
            if post_weights.len() != data.num_post_periods() {
                return Err(
                    HonestError::PostWeightCount {
                        found: post_weights.len(),
                        expected: data.num_post_periods(),
                    },
                );
            }
            if are_negligible(post_weights.as_slice()) {
                return Err(HonestError::SmoothnessWeightsZero);
            }
            proof {
                input::valid_input_is_shaped(*data);
                if post_weights.len() == 0 {
                    assert(input::all_negligible(post_weights@));
                }
            }
            let pre = pre_coefficients(data);
            let within = sets.within_bound(data, &pre, m);
            assert(sets.is_within_bound(
                data.betahat@.take(data.pre_periods@.len() as int),
                m,
                within,
            ));
            if within {
                assess_smooth(data, post_weights, m, inference, null_value, original, sets)
            } else {
                let all = (Real::neg_infinity(), Real::infinity());
                Ok(HonestAssessment::new(original, all, all, null_value, m))
            }
        },
    }
}

/// Assesses a functional with the default settings.
pub fn assess_honest_event_study_functional<E: FunctionalSets>(
    data: &HonestEventStudyInput,
    post_weights: &Vec<Real>,
    sensitivity: HonestSensitivity,
    inference: InferenceConfig,
    null_value: Real,
    sets: &E,
) -> (out: Result<HonestAssessment, HonestError>)
    requires
        functional_sets::countable(*data),
        sets.ready(*data),
    ensures
        is_assessment(
            *sets,
            *data,
            post_weights@,
            sensitivity,
            inference,
            null_value,
            RelativeMagnitudeConfidenceSetConfig::from_inference_spec(inference),
            out,
        ),
{
    assess_honest_event_study_functional_with_config(
        data,
        post_weights,
        sensitivity,
        inference,
        null_value,
        RelativeMagnitudeConfidenceSetConfig::from_inference(inference),
        sets,
    )
}

/// An assessment says that the functional is distinguishable exactly where its
/// robust interval lies on one side of the null value.
pub proof fn significance_is_exclusion<E: FunctionalSets>(
    sets: E,
    data: HonestEventStudyInput,
    weights: Seq<Real>,
    sensitivity: HonestSensitivity,
    inference: InferenceConfig,
    null_value: Real,
    config: RelativeMagnitudeConfidenceSetConfig,
    found: HonestAssessment,
)
    requires
        is_assessment(
            sets,
            data,
            weights,
            sensitivity,
            inference,
            null_value,
            config,
            Ok(found),
        ),
    ensures
        found.robustly_significant == (null_value.lt(found.robust_ci.0) || found.robust_ci.1.lt(
            null_value,
        )),
        found.null_value == null_value,
        found.sensitivity_value == sensitivity.bound_spec(),
{
}

// ---------------------------------------------------------------------------
// One post period
// ---------------------------------------------------------------------------

/// Whether `out` assesses a named post period.
pub open spec fn is_period_assessment<E: FunctionalSets>(
    sets: E,
    data: HonestEventStudyInput,
    post_period: i32,
    sensitivity: HonestSensitivity,
    inference: InferenceConfig,
    null_value: Real,
    config: RelativeMagnitudeConfidenceSetConfig,
    out: Result<HonestAssessment, HonestError>,
) -> bool {
    match input::label_position(data.post_periods@, post_period, 0) {
        None => out == Err::<HonestAssessment, HonestError>(
            HonestError::PostPeriodAbsent { period: post_period },
        ),
        Some(at) => is_assessment(
            sets,
            data,
            input::basis_weights(data.post_periods@.len() as int, at),
            sensitivity,
            inference,
            null_value,
            config,
            out,
        ),
    }
}

/// Assesses a named post period.
pub fn assess_honest_event_study_period_with_config<E: FunctionalSets>(
    data: &HonestEventStudyInput,
    post_period: i32,
    sensitivity: HonestSensitivity,
    inference: InferenceConfig,
    null_value: Real,
    relative_magnitude_config: RelativeMagnitudeConfidenceSetConfig,
    sets: &E,
) -> (out: Result<HonestAssessment, HonestError>)
    requires
        functional_sets::countable(*data),
        sets.ready(*data),
    ensures
        is_period_assessment(
            *sets,
            *data,
            post_period,
            sensitivity,
            inference,
            null_value,
            relative_magnitude_config,
            out,
        ),
{
    match position_of(data.post_periods.as_slice(), post_period) {
        None => Err(HonestError::PostPeriodAbsent { period: post_period }),
        Some(at) => {
            let weights = basis_post_weights(data.num_post_periods(), at);
            assess_honest_event_study_functional_with_config(
                data,
                &weights,
                sensitivity,
                inference,
                null_value,
                relative_magnitude_config,
                sets,
            )
        },
    }
}

/// Assesses a named post period with the default settings.
pub fn assess_honest_event_study_period<E: FunctionalSets>(
    data: &HonestEventStudyInput,
    post_period: i32,
    sensitivity: HonestSensitivity,
    inference: InferenceConfig,
    null_value: Real,
    sets: &E,
) -> (out: Result<HonestAssessment, HonestError>)
    requires
        functional_sets::countable(*data),
        sets.ready(*data),
    ensures
        is_period_assessment(
            *sets,
            *data,
            post_period,
            sensitivity,
            inference,
            null_value,
            RelativeMagnitudeConfidenceSetConfig::from_inference_spec(inference),
            out,
        ),
{
    assess_honest_event_study_period_with_config(
        data,
        post_period,
        sensitivity,
        inference,
        null_value,
        RelativeMagnitudeConfidenceSetConfig::from_inference(inference),
        sets,
    )
}

// ---------------------------------------------------------------------------
// A described functional
// ---------------------------------------------------------------------------

/// Whether `out` assesses a described functional: the fault of the description,
/// or the assessment of its weights.
pub open spec fn is_post_assessment<
    E: FunctionalSets,
    S: Fn(usize) -> Real,
    P: Fn(Real, Real) -> Real,
>(
    sets: E,
    share: S,
    plus: P,
    data: HonestEventStudyInput,
    functional: HonestPostFunctional,
    sensitivity: HonestSensitivity,
    inference: InferenceConfig,
    null_value: Real,
    config: RelativeMagnitudeConfidenceSetConfig,
    out: Result<HonestAssessment, HonestError>,
) -> bool {
    match input::functional_fault(data.post_periods@, functional) {
        Some(error) => out == Err::<HonestAssessment, HonestError>(error),
        None => exists|weights: Seq<Real>| #[trigger]
            input::functional_weights(share, plus, data.post_periods@, functional, weights)
                && is_assessment(
                sets,
                data,
                weights,
                sensitivity,
                inference,
                null_value,
                config,
                out,
            ),
    }
}

/// Assesses a described functional.
pub fn assess_honest_event_study_post_functional_with_config<
    E: FunctionalSets,
    S: Fn(usize) -> Real,
    P: Fn(Real, Real) -> Real,
>(
    data: &HonestEventStudyInput,
    functional: &HonestPostFunctional,
    sensitivity: HonestSensitivity,
    inference: InferenceConfig,
    null_value: Real,
    relative_magnitude_config: RelativeMagnitudeConfidenceSetConfig,
    share: &S,
    plus: &P,
    sets: &E,
) -> (out: Result<HonestAssessment, HonestError>)
    requires
        functional_sets::countable(*data),
        sets.ready(*data),
        forall|n: usize| #[trigger] call_requires(*share, (n,)),
        forall|a: Real, b: Real| #[trigger] call_requires(*plus, (a, b)),
    ensures
        is_post_assessment(
            *sets,
            *share,
            *plus,
            *data,
            *functional,
            sensitivity,
            inference,
            null_value,
            relative_magnitude_config,
            out,
        ),
{
    match post_weights_for_functional(data, functional, share, plus) {
        Err(error) => Err(error),
        Ok(weights) => assess_honest_event_study_functional_with_config(
            data,
            &weights,
            sensitivity,
            inference,
            null_value,
            relative_magnitude_config,
            sets,
        ),
    }
}

/// Assesses a described functional with the default settings.
pub fn assess_honest_event_study_post_functional<
    E: FunctionalSets,
    S: Fn(usize) -> Real,
    P: Fn(Real, Real) -> Real,
>(
    data: &HonestEventStudyInput,
    functional: &HonestPostFunctional,
    sensitivity: HonestSensitivity,
    inference: InferenceConfig,
    null_value: Real,
    share: &S,
    plus: &P,
    sets: &E,
) -> (out: Result<HonestAssessment, HonestError>)
    requires
        functional_sets::countable(*data),
        sets.ready(*data),
        forall|n: usize| #[trigger] call_requires(*share, (n,)),
        forall|a: Real, b: Real| #[trigger] call_requires(*plus, (a, b)),
    ensures
        is_post_assessment(
            *sets,
            *share,
            *plus,
            *data,
            *functional,
            sensitivity,
            inference,
            null_value,
            RelativeMagnitudeConfidenceSetConfig::from_inference_spec(inference),
            out,
        ),
{
    assess_honest_event_study_post_functional_with_config(
        data,
        functional,
        sensitivity,
        inference,
        null_value,
        RelativeMagnitudeConfidenceSetConfig::from_inference(inference),
        share,
        plus,
        sets,
    )
}

/// The description of a post period by its label is assessed like the period.
pub proof fn described_period_is_assessed_as_period<
    E: FunctionalSets,
    S: Fn(usize) -> Real,
    P: Fn(Real, Real) -> Real,
>(
    sets: E,
    share: S,
    plus: P,
    data: HonestEventStudyInput,
    post_period: i32,
    sensitivity: HonestSensitivity,
    inference: InferenceConfig,
    null_value: Real,
    config: RelativeMagnitudeConfidenceSetConfig,
    out: Result<HonestAssessment, HonestError>,
)
    requires
        is_post_assessment(
            sets,
            share,
            plus,
            data,
            HonestPostFunctional::Period(post_period),
            sensitivity,
            inference,
            null_value,
            config,
            out,
        ),
    ensures
        is_period_assessment(
            sets,
            data,
            post_period,
            sensitivity,
            inference,
            null_value,
            config,
            out,
        ),
{
    input::label_position_is_first(data.post_periods@, post_period, 0);
}

// ---------------------------------------------------------------------------
// Prepared branches
// ---------------------------------------------------------------------------

/// What an assessment over prepared branches rested on.
pub struct PreparedRun {
    /// Confidence set under parallel trends.
    pub original: Result<HonestOriginalConfidenceSet, HonestError>,
    /// Identified sets of the branches.
    pub branch_sets: Result<Seq<Option<HonestIdentifiedSet>>, HonestError>,
    /// Their union.
    pub identified: HonestIdentifiedSet,
    /// Confidence set.
    pub conditional: Result<HonestConditionalConfidenceSet, HonestError>,
}

impl PreparedRun {
    /// Whether `out` assesses a functional over prepared branches, whose rows
    /// change from `before` to `after`.
    pub open spec fn explains<E: FunctionalSets, R: PreparedSets>(
        self,
        sets: E,
        branches: R,
        data: HonestEventStudyInput,
        weights: Seq<Real>,
        inference: InferenceConfig,
        null_value: Real,
        config: RelativeMagnitudeConfidenceSetConfig,
        context: PreparedRelativeMagnitudeBaseContext,
        before: Seq<RelativeMagnitudePreparedFunctionalBranch>,
        after: Seq<RelativeMagnitudePreparedFunctionalBranch>,
        out: Result<HonestAssessment, HonestError>,
    ) -> bool {
        &&& sets.is_original(data, weights, inference, self.original)
        &&& match self.original {
            Err(error) => out == Err::<HonestAssessment, HonestError>(error) && after == before,
            Ok(original) => {
                &&& branches.is_branch_sets(data, weights, context, self.branch_sets)
                &&& match self.branch_sets {
                    Err(error) => out == Err::<HonestAssessment, HonestError>(error) && after
                        == before,
                    Ok(list) => {
                        &&& branches.is_union(data, weights, list, self.identified)
                        &&& branches.is_search(
                            weights,
                            inference,
                            config,
                            original,
                            self.identified,
                            context,
                            before,
                            after,
                            list,
                            self.conditional,
                        )
                        &&& out == assessed(
                            original,
                            self.identified,
                            self.conditional,
                            null_value,
                            context.mbar,
                        )
                    },
                }
            },
        }
    }
}

/// Whether `out` assesses a functional over prepared branches.
pub open spec fn is_prepared_assessment<E: FunctionalSets, R: PreparedSets>(
    sets: E,
    branches: R,
    data: HonestEventStudyInput,
    weights: Seq<Real>,
    inference: InferenceConfig,
    null_value: Real,
    config: RelativeMagnitudeConfidenceSetConfig,
    context: PreparedRelativeMagnitudeBaseContext,
    before: Seq<RelativeMagnitudePreparedFunctionalBranch>,
    after: Seq<RelativeMagnitudePreparedFunctionalBranch>,
    out: Result<HonestAssessment, HonestError>,
) -> bool {
    exists|run: PreparedRun| #[trigger]
        run.explains(
            sets,
            branches,
            data,
            weights,
            inference,
            null_value,
            config,
            context,
            before,
            after,
            out,
        )
}

/// Assesses a functional over prepared branches.
pub fn assess_relative_magnitude_functional_with_prepared_functional_branches<
    E: FunctionalSets,
    R: PreparedSets,
>(
    data: &HonestEventStudyInput,
    post_weights: &Vec<Real>,
    inference: InferenceConfig,
    null_value: Real,
    relative_magnitude_config: RelativeMagnitudeConfidenceSetConfig,
    context: &PreparedRelativeMagnitudeBaseContext,
    rows: &mut Vec<RelativeMagnitudePreparedFunctionalBranch>,
    sets: &E,
    branches: &R,
) -> (out: Result<HonestAssessment, HonestError>)
    requires
        functional_sets::countable(*data),
        sets.ready(*data),
        branches.ready(*data),
    ensures
        is_prepared_assessment(
            *sets,
            *branches,
            *data,
            post_weights@,
            inference,
            null_value,
            relative_magnitude_config,
            *context,
            old(rows)@,
            final(rows)@,
            out,
        ),
{
    let ghost mut run: PreparedRun = arbitrary();
    let ghost before = rows@;
    let measured = sets.original(data, post_weights, inference);
    proof {
        run.original = measured;
    }
    let original = match measured {
        Err(error) => {
            assert(run.explains(
                *sets,
                *branches,
                *data,
                post_weights@,
                inference,
                null_value,
                relative_magnitude_config,
                *context,
                before,
                rows@,
                Err(error),
            ));
            return Err(error);
        },
        Ok(original) => original,
    };
    proof {
        input::valid_input_is_shaped(*data);
    }
    let solved = branches.branch_sets(data, post_weights, context);
    proof {
        run.branch_sets = prepared_sets::listed(solved);
    }
    let list = match solved {
        Err(error) => {
            assert(run.explains(
                *sets,
                *branches,
                *data,
                post_weights@,
                inference,
                null_value,
                relative_magnitude_config,
                *context,
                before,
                rows@,
                Err(error),
            ));
            return Err(error);
        },
        Ok(list) => list,
    };
    let identified = branches.union_set(data, post_weights, &list);
    let conditional = branches.search(
        data,
        post_weights,
        inference,
        relative_magnitude_config,
        original,
        identified,
        context,
        rows,
        &list,
    );
    proof {
        run.identified = identified;
        run.conditional = conditional;
    }
    let out = assess_sets(original, identified, conditional, null_value, context.mbar);
    assert(run.explains(
        *sets,
        *branches,
        *data,
        post_weights@,
        inference,
        null_value,
        relative_magnitude_config,
        *context,
        before,
        rows@,
        out,
    ));
    out
}

/// Whether `out` assesses a post period whose rows are prepared afresh.
pub open spec fn is_fresh_assessment<E: FunctionalSets, R: PreparedSets>(
    sets: E,
    branches: R,
    data: HonestEventStudyInput,
    weights: Seq<Real>,
    inference: InferenceConfig,
    null_value: Real,
    config: RelativeMagnitudeConfidenceSetConfig,
    context: PreparedRelativeMagnitudeBaseContext,
    out: Result<HonestAssessment, HonestError>,
) -> bool {
    exists|
        rows: Result<Seq<RelativeMagnitudePreparedFunctionalBranch>, HonestError>,
        after: Seq<RelativeMagnitudePreparedFunctionalBranch>,
    | #[trigger]
        fresh_by(
            rows,
            after,
            sets,
            branches,
            data,
            weights,
            inference,
            null_value,
            config,
            context,
            out,
        )
}

/// Whether `out` assesses a functional over the given rows.
pub open spec fn fresh_by<E: FunctionalSets, R: PreparedSets>(
    rows: Result<Seq<RelativeMagnitudePreparedFunctionalBranch>, HonestError>,
    after: Seq<RelativeMagnitudePreparedFunctionalBranch>,
    sets: E,
    branches: R,
    data: HonestEventStudyInput,
    weights: Seq<Real>,
    inference: InferenceConfig,
    null_value: Real,
    config: RelativeMagnitudeConfidenceSetConfig,
    context: PreparedRelativeMagnitudeBaseContext,
    out: Result<HonestAssessment, HonestError>,
) -> bool {
    &&& branches.is_functional_rows(weights, context, rows)
    &&& match rows {
        Err(error) => out == Err::<HonestAssessment, HonestError>(error),
        Ok(before) => is_prepared_assessment(
            sets,
            branches,
            data,
            weights,
            inference,
            null_value,
            config,
            context,
            before,
            after,
            out,
        ),
    }
}

/// Assesses a post period, by its place, over prepared branches.
pub fn assess_relative_magnitude_basis_period_with_prepared_input<
    E: FunctionalSets,
    R: PreparedSets,
>(
    data: &HonestEventStudyInput,
    post_idx: usize,
    inference: InferenceConfig,
    null_value: Real,
    relative_magnitude_config: RelativeMagnitudeConfidenceSetConfig,
    context: &PreparedRelativeMagnitudeBaseContext,
    sets: &E,
    branches: &R,
) -> (out: Result<HonestAssessment, HonestError>)
    requires
        functional_sets::countable(*data),
        post_idx < data.post_periods@.len(),
        context.fits(data.post_periods@.len() as int),
        sets.ready(*data),
        branches.ready(*data),
    ensures
        is_fresh_assessment(
            *sets,
            *branches,
            *data,
            input::basis_weights(data.post_periods@.len() as int, post_idx as int),
            inference,
            null_value,
            relative_magnitude_config,
            *context,
            out,
        ),
{
    let weights = basis_post_weights(data.num_post_periods(), post_idx);
    let made = branches.functional_rows(data, &weights, context);
    let ghost listed = prepared_sets::listed(made);
    let ghost nothing: Seq<RelativeMagnitudePreparedFunctionalBranch> = Seq::empty();
    let mut rows = match made {
        Err(error) => {
            assert(fresh_by(
                listed,
                nothing,
                *sets,
                *branches,
                *data,
                weights@,
                inference,
                null_value,
                relative_magnitude_config,
                *context,
                Err(error),
            ));
            return Err(error);
        },
        Ok(rows) => rows,
    };
    let out = assess_relative_magnitude_functional_with_prepared_functional_branches(
        data,
        &weights,
        inference,
        null_value,
        relative_magnitude_config,
        context,
        &mut rows,
        sets,
        branches,
    );
    assert(fresh_by(
        listed,
        rows@,
        *sets,
        *branches,
        *data,
        weights@,
        inference,
        null_value,
        relative_magnitude_config,
        *context,
        out,
    ));
    out
}

// ---------------------------------------------------------------------------
// Every post period
// ---------------------------------------------------------------------------

/// The result of given sets, or the error of the confidence set.
pub open spec fn resulting(
    original: HonestOriginalConfidenceSet,
    identified: HonestIdentifiedSet,
    conditional: Result<HonestConditionalConfidenceSet, HonestError>,
    m: Real,
) -> Result<HonestResult, HonestError> {
    match conditional {
        Err(error) => Err(error),
        Ok(set) => Ok(
            HonestResult {
                original_estimate: original.estimate,
                original_se: original.se,
                robust_ci: (set.lb, set.ub),
                identified_set: (identified.lb, identified.ub),
                m,
            },
        ),
    }
}

fn result_of(
    original: HonestOriginalConfidenceSet,
    identified: HonestIdentifiedSet,
    conditional: Result<HonestConditionalConfidenceSet, HonestError>,
    m: Real,
) -> (result: Result<HonestResult, HonestError>)
    ensures
        result == resulting(original, identified, conditional, m),
{
    match conditional {
        Err(error) => Err(error),
        Ok(set) => Ok(
            HonestResult {
                original_estimate: original.estimate,
                original_se: original.se,
                robust_ci: (set.lb, set.ub),
                identified_set: (identified.lb, identified.ub),
                m,
            },
        ),
    }
}

/// What the result of one post period rested on.
pub struct ScalarRun {
    /// Confidence set under parallel trends.
    pub original: Result<HonestOriginalConfidenceSet, HonestError>,
    /// Identified sets of the branches.
    pub branch_sets: Result<Seq<Option<HonestIdentifiedSet>>, HonestError>,
    /// Identified set.
    pub identified: Result<HonestIdentifiedSet, HonestError>,
    /// Confidence set.
    pub conditional: Result<HonestConditionalConfidenceSet, HonestError>,
}

impl ScalarRun {
    /// Whether `out` is the result of a post period over prepared branches.
    pub open spec fn explains_magnitude<E: FunctionalSets, R: PreparedSets>(
        self,
        sets: E,
        branches: R,
        data: HonestEventStudyInput,
        post_idx: usize,
        inference: InferenceConfig,
        context: PreparedRelativeMagnitudeBaseContext,
        out: Result<HonestResult, HonestError>,
    ) -> bool {
        let weights = input::basis_weights(data.post_periods@.len() as int, post_idx as int);
        &&& sets.is_original(data, weights, inference, self.original)
        &&& match self.original {
            Err(error) => out == Err::<HonestResult, HonestError>(error),
            Ok(original) => {
                &&& branches.is_branch_sets(data, weights, context, self.branch_sets)
                &&& match self.branch_sets {
                    Err(error) => out == Err::<HonestResult, HonestError>(error),
                    Ok(list) => {
                        &&& self.identified is Ok
                        &&& branches.is_union(data, weights, list, self.identified->Ok_0)
                        &&& branches.is_period(
                            data,
                            post_idx,
                            inference,
                            RelativeMagnitudeConfidenceSetConfig::from_inference_spec(inference),
                            context,
                            self.conditional,
                        )
                        &&& out == resulting(
                            original,
                            self.identified->Ok_0,
                            self.conditional,
                            context.mbar,
                        )
                    },
                }
            },
        }
    }

    /// Whether `out` is the result of a post period under the smoothness
    /// restriction.
    pub open spec fn explains_smoothness<E: FunctionalSets>(
        self,
        sets: E,
        data: HonestEventStudyInput,
        post_idx: usize,
        inference: InferenceConfig,
        m: Real,
        out: Result<HonestResult, HonestError>,
    ) -> bool {
        let weights = input::basis_weights(data.post_periods@.len() as int, post_idx as int);
        let family = SmoothnessFamily::Plain;
        &&& sets.is_original(data, weights, inference, self.original)
        &&& match self.original {
            Err(error) => out == Err::<HonestResult, HonestError>(error),
            Ok(original) => {
                &&& sets.is_smoothness_identified(family, data, weights, m, self.identified)
                &&& match self.identified {
                    Err(error) => out == Err::<HonestResult, HonestError>(error),
                    Ok(identified) => {
                        &&& sets.is_smoothness_confidence(
                            family,
                            data,
                            weights,
                            m,
                            inference,
                            SmoothnessConfidenceSetConfig::from_inference_spec(inference),
                            self.conditional,
                        )
                        &&& out == resulting(original, identified, self.conditional, m)
                    },
                }
            },
        }
    }
}

/// Whether `out` is the result of a post period, over the prepared branches
/// where the restriction has them.
pub open spec fn is_scalar_result<E: FunctionalSets, R: PreparedSets>(
    sets: E,
    branches: R,
    data: HonestEventStudyInput,
    post_idx: usize,
    sensitivity: HonestSensitivity,
    inference: InferenceConfig,
    context: Option<PreparedRelativeMagnitudeBaseContext>,
    out: Result<HonestResult, HonestError>,
) -> bool {
    exists|run: ScalarRun| #[trigger]
        scalar_explained(
            run,
            sets,
            branches,
            data,
            post_idx,
            sensitivity,
            inference,
            context,
            out,
        )
}

/// Whether the result of a post period came about like this.
pub open spec fn scalar_explained<E: FunctionalSets, R: PreparedSets>(
    run: ScalarRun,
    sets: E,
    branches: R,
    data: HonestEventStudyInput,
    post_idx: usize,
    sensitivity: HonestSensitivity,
    inference: InferenceConfig,
    context: Option<PreparedRelativeMagnitudeBaseContext>,
    out: Result<HonestResult, HonestError>,
) -> bool {
    match sensitivity {
        HonestSensitivity::RelativeMagnitude(_) => context is Some && run.explains_magnitude(
            sets,
            branches,
            data,
            post_idx,
            inference,
            context->Some_0,
            out,
        ),
        HonestSensitivity::Smoothness(m) => run.explains_smoothness(
            sets,
            data,
            post_idx,
            inference,
            m,
            out,
        ),
    }
}

fn magnitude_result<E: FunctionalSets, R: PreparedSets>(
    data: &HonestEventStudyInput,
    post_idx: usize,
    inference: InferenceConfig,
    context: &PreparedRelativeMagnitudeBaseContext,
    sets: &E,
    branches: &R,
) -> (out: (Result<HonestResult, HonestError>, Ghost<ScalarRun>))
    requires
        functional_sets::countable(*data),
        data.shaped(),
        post_idx < data.post_periods@.len(),
        context.fits(data.post_periods@.len() as int),
        sets.ready(*data),
        branches.ready(*data),
    ensures
        out.1@.explains_magnitude(
            *sets,
            *branches,
            *data,
            post_idx,
            inference,
            *context,
            out.0,
        ),
{
    let ghost mut run: ScalarRun = arbitrary();
    let weights = basis_post_weights(data.num_post_periods(), post_idx);
    let measured = sets.original(data, &weights, inference);
    proof {
        run.original = measured;
    }
    let original = match measured {
        Err(error) => {
            return (Err(error), Ghost(run));
        },
        Ok(original) => original,
    };
    let solved = branches.branch_sets(data, &weights, context);
    proof {
        run.branch_sets = prepared_sets::listed(solved);
    }
    let list = match solved {
        Err(error) => {
            return (Err(error), Ghost(run));
        },
        Ok(list) => list,
    };
    let identified = branches.union_set(data, &weights, &list);
    let conditional = branches.period(
        data,
        post_idx,
        inference,
        RelativeMagnitudeConfidenceSetConfig::from_inference(inference),
        context,
    );
    proof {
        run.identified = Ok(identified);
        run.conditional = conditional;
    }
    (result_of(original, identified, conditional, context.mbar), Ghost(run))
}

fn smoothness_result<E: FunctionalSets>(
    data: &HonestEventStudyInput,
    post_idx: usize,
    inference: InferenceConfig,
    m: Real,
    sets: &E,
) -> (out: (Result<HonestResult, HonestError>, Ghost<ScalarRun>))
    requires
        functional_sets::countable(*data),
        post_idx < data.post_periods@.len(),
        sets.ready(*data),
    ensures
        out.1@.explains_smoothness(*sets, *data, post_idx, inference, m, out.0),
{
    let ghost mut run: ScalarRun = arbitrary();
    let family = SmoothnessFamily::Plain;
    let weights = basis_post_weights(data.num_post_periods(), post_idx);
    let measured = sets.original(data, &weights, inference);
    proof {
        run.original = measured;
    }
    let original = match measured {
        Err(error) => {
            return (Err(error), Ghost(run));
        },
        Ok(original) => original,
    };
    let found = sets.smoothness_identified(family, data, &weights, m);
    proof {
        run.identified = found;
    }
    let identified = match found {
        Err(error) => {
            return (Err(error), Ghost(run));
        },
        Ok(identified) => identified,
    };
    let conditional = sets.smoothness_confidence(
        family,
        data,
        &weights,
        m,
        inference,
        SmoothnessConfidenceSetConfig::from_inference(inference),
    );
    proof {
        run.conditional = conditional;
    }
    (result_of(original, identified, conditional, m), Ghost(run))
}

/// What the results of all post periods rested on.
pub struct ScalarsRun {
    /// Prepared branches.
    pub context: Result<PreparedRelativeMagnitudeBaseContext, HonestError>,
    /// Results in order.
    pub results: Seq<Result<HonestResult, HonestError>>,
}

/// The prepared branches that a restriction uses, if any.
pub open spec fn context_used(
    sensitivity: HonestSensitivity,
    context: Result<PreparedRelativeMagnitudeBaseContext, HonestError>,
) -> Option<PreparedRelativeMagnitudeBaseContext> {
    match sensitivity {
        HonestSensitivity::RelativeMagnitude(_) => Some(context->Ok_0),
        HonestSensitivity::Smoothness(_) => None,
    }
}

impl ScalarsRun {
    /// Whether `out` holds the results of all post periods: the fault of the
    /// input, an error of the preparation, the first error of a period, or the
    /// results with their labels.
    pub open spec fn explains<E: FunctionalSets, R: PreparedSets>(
        self,
        sets: E,
        branches: R,
        data: HonestEventStudyInput,
        sensitivity: HonestSensitivity,
        inference: InferenceConfig,
        out: Result<Seq<HonestEventStudyPoint>, HonestError>,
    ) -> bool {
        if data.fault() is Some {
            out == Err::<Seq<HonestEventStudyPoint>, HonestError>(data.fault()->Some_0)
        } else {
            &&& sensitivity matches HonestSensitivity::RelativeMagnitude(mbar)
                ==> branches.is_context(data, mbar, self.context)
            &&& if sensitivity is RelativeMagnitude && self.context is Err {
                out == Err::<Seq<HonestEventStudyPoint>, HonestError>(self.context->Err_0)
            } else {
                &&& in_order(self.results, data.post_periods@.len() as int)
                &&& forall|i: int|
                    0 <= i < self.results.len() ==> is_scalar_result(
                        sets,
                        branches,
                        data,
                        i as usize,
                        sensitivity,
                        inference,
                        context_used(sensitivity, self.context),
                        #[trigger] self.results[i],
                    )
                &&& out == (match failure(self.results) {
                    Some(error) => Err(error),
                    None => Ok(labelled(data.post_periods@, self.results)),
                })
            }
        }
    }
}

/// Results with the labels of their periods.
pub open spec fn labelled(labels: Seq<i32>, results: Seq<Result<HonestResult, HonestError>>) -> Seq<
    HonestEventStudyPoint,
> {
    Seq::new(
        results.len(),
        |i: int| HonestEventStudyPoint { post_period: labels[i], result: results[i]->Ok_0 },
    )
}

/// Results of all post periods.
pub fn compute_honest_event_study_scalar_for_input<E: FunctionalSets, R: PreparedSets>(
    data: &HonestEventStudyInput,
    sensitivity: HonestSensitivity,
    inference: InferenceConfig,
    sets: &E,
    branches: &R,
) -> (out: Result<Vec<HonestEventStudyPoint>, HonestError>)
    requires
        functional_sets::countable(*data),
        sets.ready(*data),
        branches.ready(*data),
    ensures
        exists|run: ScalarsRun| #[trigger]
            run.explains(
                *sets,
                *branches,
                *data,
                sensitivity,
                inference,
                prepared_sets::listed(out),
            ),
{
    let ghost mut run: ScalarsRun = arbitrary();
    match data.validate() {
        Err(error) => {
            assert(run.explains(*sets, *branches, *data, sensitivity, inference, Err(error)));
            return Err(error);
        },
        Ok(()) => {},
    }
    proof {
        input::valid_input_is_shaped(*data);
        run.results = Seq::empty();
    }
    let context = match sensitivity {
        HonestSensitivity::RelativeMagnitude(mbar) => {
            let prepared = branches.context(data, mbar);
            proof {
                run.context = prepared;
            }
            match prepared {
                Err(error) => {
                    assert(run.explains(
                        *sets,
                        *branches,
                        *data,
                        sensitivity,
                        inference,
                        Err(error),
                    ));
                    return Err(error);
                },
                Ok(context) => Some(context),
            }
        },
        HonestSensitivity::Smoothness(_) => None,
    };
    let ghost used = context;
    let ghost prepared = run.context;
    let mut points: Vec<HonestEventStudyPoint> = Vec::new();
    let mut i: usize = 0;
    while i < data.post_periods.len()
        invariant
            i <= data.post_periods.len(),
            functional_sets::countable(*data),
            data.fault() is None,
            data.shaped(),
            sets.ready(*data),
            branches.ready(*data),
            used == context,
            used == context_used(sensitivity, prepared),
            run.context == prepared,
            sensitivity matches HonestSensitivity::RelativeMagnitude(mbar) ==> (branches.is_context(
                *data,
                mbar,
                prepared,
            ) && prepared is Ok && prepared->Ok_0.fits(data.post_periods@.len() as int)),
            run.results.len() == i,
            points.len() == i,
            forall|k: int|
                0 <= k < i ==> is_scalar_result(
                    *sets,
                    *branches,
                    *data,
                    k as usize,
                    sensitivity,
                    inference,
                    used,
                    #[trigger] run.results[k],
                ),
            forall|k: int| 0 <= k < i ==> #[trigger] run.results[k] is Ok,
            points@ == labelled(data.post_periods@, run.results),
        decreases data.post_periods.len() - i,
    {
        let (result, Ghost(inner)) = match (&context, sensitivity) {
            (Some(made), HonestSensitivity::RelativeMagnitude(_)) => magnitude_result(
                data,
                i,
                inference,
                made,
                sets,
                branches,
            ),
            (_, HonestSensitivity::Smoothness(m)) => smoothness_result(
                data,
                i,
                inference,
                m,
                sets,
            ),
            (None, HonestSensitivity::RelativeMagnitude(_)) => {
                let none: Ghost<ScalarRun> = Ghost(arbitrary());
                (Err(HonestError::MissingBranches), none)
            },
        };
        let ghost before = run.results;
        proof {
            assert(scalar_explained(
                inner,
                *sets,
                *branches,
                *data,
                i,
                sensitivity,
                inference,
                used,
                result,
            ));
            run.results = before.push(result);
            assert forall|k: int| 0 <= k < run.results.len() implies is_scalar_result(
                *sets,
                *branches,
                *data,
                k as usize,
                sensitivity,
                inference,
                used,
                #[trigger] run.results[k],
            ) by {
                if k < i {
                    assert(run.results[k] == before[k]);
                }
            }
            assert forall|k: int| 0 <= k < run.results.len() - 1 implies #[trigger] run.results[k]
                is Ok by {
                assert(run.results[k] == before[k]);
            }
        }
        match result {
            Err(error) => {
                assert(run.explains(
                    *sets,
                    *branches,
                    *data,
                    sensitivity,
                    inference,
                    Err(error),
                ));
                return Err(error);
            },
            Ok(found) => {
                points.push(
                    HonestEventStudyPoint { post_period: data.post_periods[i], result: found },
                );
            },
        }
        i = i + 1;
        proof {
            assert(points@ =~= labelled(data.post_periods@, run.results));
        }
    }
    assert(run.explains(*sets, *branches, *data, sensitivity, inference, Ok(points@)));
    Ok(points)
}

/// Results of all post periods of given estimates.
pub fn compute_honest_event_study_scalar<E: FunctionalSets, R: PreparedSets>(
    betahat: &[Real],
    covariance: &[Vec<Real>],
    pre_periods: &[i32],
    post_periods: &[i32],
    sensitivity: HonestSensitivity,
    inference: InferenceConfig,
    sets: &E,
    branches: &R,
) -> (out: Result<Vec<HonestEventStudyPoint>, HonestError>)
    requires
        pre_periods@.len() < i64::MAX,
        4 * (pre_periods@.len() + post_periods@.len()) + 4 <= usize::MAX,
        forall|data: HonestEventStudyInput|
            holds(data, betahat@, covariance@, pre_periods@, post_periods@) ==> #[trigger] sets.ready(
                data,
            ) && branches.ready(data),
    ensures
        exists|data: HonestEventStudyInput, run: ScalarsRun|
            holds(data, betahat@, covariance@, pre_periods@, post_periods@)
                && #[trigger] run.explains(
                *sets,
                *branches,
                data,
                sensitivity,
                inference,
                prepared_sets::listed(out),
            ),
{
    let data = HonestEventStudyInput {
        betahat: copy_row(betahat),
        covariance: copy_matrix(covariance),
        pre_periods: copy_row(pre_periods),
        post_periods: copy_row(post_periods),
    };
    assert(sets.ready(data));
    compute_honest_event_study_scalar_for_input(&data, sensitivity, inference, sets, branches)
}

/// Whether an input holds given estimates.
pub open spec fn holds(
    data: HonestEventStudyInput,
    betahat: Seq<Real>,
    covariance: Seq<Vec<Real>>,
    pre_periods: Seq<i32>,
    post_periods: Seq<i32>,
) -> bool {
    &&& data.betahat@ == betahat
    &&& matrix::rows_of(data.covariance@) == matrix::rows_of(covariance)
    &&& data.pre_periods@ == pre_periods
    &&& data.post_periods@ == post_periods
}

/// Under a smoothness restriction an assessment does not depend on the settings
/// of relative-magnitude confidence sets.
pub proof fn smoothness_ignores_relative_magnitude_settings<E: FunctionalSets>(
    sets: E,
    data: HonestEventStudyInput,
    weights: Seq<Real>,
    m: Real,
    inference: InferenceConfig,
    null_value: Real,
    config: RelativeMagnitudeConfidenceSetConfig,
    other: RelativeMagnitudeConfidenceSetConfig,
    out: Result<HonestAssessment, HonestError>,
)
    ensures
        is_assessment(
            sets,
            data,
            weights,
            HonestSensitivity::Smoothness(m),
            inference,
            null_value,
            config,
            out,
        ) == is_assessment(
            sets,
            data,
            weights,
            HonestSensitivity::Smoothness(m),
            inference,
            null_value,
            other,
            out,
        ),
{
}

/// The bias that a relative-magnitude restriction allows a single period is measured
/// by the largest pre-period estimate: none exceeds it in magnitude, and where there
/// is one it is the magnitude of one of them or zero.
pub proof fn a_magnitude_bias_rests_on_the_largest_pre_estimate(
    pre: Seq<ScalarEstimate>,
    vcov: Seq<Vec<Real>>,
    bound: Real,
    largest: Real,
    m: Real,
    i: int,
)
    requires
        bias_of(pre, vcov, HonestSensitivity::RelativeMagnitude(bound)) == Ok::<
            ScalarBias,
            HonestError,
        >(ScalarBias::Magnitude { largest, m }),
        0 <= i < pre.len(),
        !pre[i].att.nan(),
    ensures
        m == bound,
        pre[i].att.abs_spec().le(largest),
        largest == Real::zero_spec() || exists|k: int|
            0 <= k < pre.len() && largest == (#[trigger] pre[k]).att.abs_spec(),
{
    matrix::largest_magnitude_bounds(estimates(pre), pre.len() as int);
    let k = matrix::largest_magnitude_is_attained(estimates(pre), pre.len() as int);
    assert(estimates(pre)[i] == pre[i].att);
    if largest != Real::zero_spec() {
        assert(estimates(pre)[k] == pre[k].att);
    }
}

/// An assessment under a relative-magnitude bound reports the confidence set as its
/// robust interval, the identified set at that bound and the set under parallel
/// trends, each of them of the functional at hand and at the level at hand.
pub proof fn a_magnitude_assessment_reports_its_sets<E: FunctionalSets>(
    sets: E,
    data: HonestEventStudyInput,
    weights: Seq<Real>,
    bound: Real,
    inference: InferenceConfig,
    null_value: Real,
    config: RelativeMagnitudeConfidenceSetConfig,
    found: HonestAssessment,
) -> (made: (HonestOriginalConfidenceSet, HonestIdentifiedSet, HonestConditionalConfidenceSet))
    requires
        is_assessment(
            sets,
            data,
            weights,
            HonestSensitivity::RelativeMagnitude(bound),
            inference,
            null_value,
            config,
            Ok(found),
        ),
    ensures
        sets.is_original(data, weights, inference, Ok(made.0)),
        sets.is_magnitude_identified(
            RelativeMagnitudeFamily::Base,
            data,
            weights,
            bound,
            Ok(made.1),
        ),
        sets.is_magnitude_given(
            data,
            weights,
            bound,
            inference,
            config,
            made.0,
            made.1,
            Ok(made.2),
        ),
        found.robust_ci == (made.2.lb, made.2.ub),
        found.identified_set == (made.1.lb, made.1.ub),
        found.original_ci == made.0.ci,
        found.estimate == made.0.estimate,
        found.se == made.0.se,
{
    let original = choose|original: Result<HonestOriginalConfidenceSet, HonestError>|
        #[trigger] sets.is_original(data, weights, inference, original) && match original {
            Err(error) => Ok::<HonestAssessment, HonestError>(found) == Err::<
                HonestAssessment,
                HonestError,
            >(error),
            Ok(set) => is_magnitude_assessment(
                sets,
                data,
                weights,
                bound,
                inference,
                null_value,
                config,
                set,
                Ok(found),
            ),
        };
    let trends = original->Ok_0;
    let (identified, conditional) = choose|
        identified: Result<HonestIdentifiedSet, HonestError>,
        conditional: Result<HonestConditionalConfidenceSet, HonestError>,
    |
        #![trigger sets.is_magnitude_given(data, weights, bound, inference, config, trends, identified->Ok_0, conditional)]
        sets.is_magnitude_identified(
            RelativeMagnitudeFamily::Base,
            data,
            weights,
            bound,
            identified,
        ) && match identified {
            Err(error) => Ok::<HonestAssessment, HonestError>(found) == Err::<
                HonestAssessment,
                HonestError,
            >(error),
            Ok(set) => sets.is_magnitude_given(
                data,
                weights,
                bound,
                inference,
                config,
                trends,
                set,
                conditional,
            ) && Ok::<HonestAssessment, HonestError>(found) == assessed(
                trends,
                set,
                conditional,
                null_value,
                bound,
            ),
        };
    assert(conditional is Ok);
    assert(identified == Ok::<HonestIdentifiedSet, HonestError>(identified->Ok_0));
    (trends, identified->Ok_0, conditional->Ok_0)
}

/// An assessment under a smoothness bound that the pre periods respect reports the
/// confidence set as its robust interval and the identified set at that bound; where
/// they do not respect it, both hold everything.
pub proof fn a_smoothness_assessment_reports_its_sets<E: FunctionalSets>(
    sets: E,
    data: HonestEventStudyInput,
    weights: Seq<Real>,
    bound: Real,
    inference: InferenceConfig,
    null_value: Real,
    config: RelativeMagnitudeConfidenceSetConfig,
    found: HonestAssessment,
) -> (made: (bool, HonestIdentifiedSet, HonestConditionalConfidenceSet))
    requires
        is_assessment(
            sets,
            data,
            weights,
            HonestSensitivity::Smoothness(bound),
            inference,
            null_value,
            config,
            Ok(found),
        ),
    ensures
        sets.is_within_bound(data.betahat@.take(data.pre_periods@.len() as int), bound, made.0),
        made.0 ==> {
            &&& sets.is_smoothness_identified(
                SmoothnessFamily::Plain,
                data,
                weights,
                bound,
                Ok(made.1),
            )
            &&& sets.is_smoothness_confidence(
                SmoothnessFamily::Plain,
                data,
                weights,
                bound,
                inference,
                SmoothnessConfidenceSetConfig::from_inference_spec(inference),
                Ok(made.2),
            )
            &&& found.robust_ci == (made.2.lb, made.2.ub)
            &&& found.identified_set == (made.1.lb, made.1.ub)
        },
        !made.0 ==> found.robust_ci == (Real::neg_infinity_spec(), Real::infinity_spec())
            && found.identified_set == (Real::neg_infinity_spec(), Real::infinity_spec()),
{
    let original = choose|original: Result<HonestOriginalConfidenceSet, HonestError>|
        #[trigger] sets.is_original(data, weights, inference, original) && match original {
            Err(error) => Ok::<HonestAssessment, HonestError>(found) == Err::<
                HonestAssessment,
                HonestError,
            >(error),
            Ok(set) => is_smoothness_assessment(
                sets,
                data,
                weights,
                bound,
                inference,
                null_value,
                set,
                Ok(found),
            ),
        };
    let trends = original->Ok_0;
    let within = choose|within: bool|
        #[trigger] sets.is_within_bound(
            data.betahat@.take(data.pre_periods@.len() as int),
            bound,
            within,
        ) && if within {
            is_smooth_assessment(
                sets,
                data,
                weights,
                bound,
                inference,
                null_value,
                trends,
                Ok(found),
            )
        } else {
            Ok::<HonestAssessment, HonestError>(found) == Ok::<HonestAssessment, HonestError>(
                HonestAssessment::of(trends, everything(), everything(), null_value, bound),
            )
        };
    if within {
        let (identified, conditional) = choose|
            identified: Result<HonestIdentifiedSet, HonestError>,
            conditional: Result<HonestConditionalConfidenceSet, HonestError>,
        |
            #![trigger
                sets.is_smoothness_identified(SmoothnessFamily::Plain, data, weights, bound, identified),
                sets.is_smoothness_confidence(SmoothnessFamily::Plain, data, weights, bound, inference, SmoothnessConfidenceSetConfig::from_inference_spec(inference), conditional)]
            sets.is_smoothness_identified(
                SmoothnessFamily::Plain,
                data,
                weights,
                bound,
                identified,
            ) && match identified {
                Err(error) => Ok::<HonestAssessment, HonestError>(found) == Err::<
                    HonestAssessment,
                    HonestError,
                >(error),
                Ok(set) => sets.is_smoothness_confidence(
                    SmoothnessFamily::Plain,
                    data,
                    weights,
                    bound,
                    inference,
                    SmoothnessConfidenceSetConfig::from_inference_spec(inference),
                    conditional,
                ) && Ok::<HonestAssessment, HonestError>(found) == assessed(
                    trends,
                    set,
                    conditional,
                    null_value,
                    bound,
                ),
            };
        assert(identified == Ok::<HonestIdentifiedSet, HonestError>(identified->Ok_0));
        assert(conditional == Ok::<HonestConditionalConfidenceSet, HonestError>(
            conditional->Ok_0,
        ));
        (true, identified->Ok_0, conditional->Ok_0)
    } else {
        (false, arbitrary(), arbitrary())
    }
}

/// An assessment over prepared branches reports the confidence set that the branches
/// were searched for and the union of their identified sets, at the bound at which
/// they were prepared.
pub proof fn a_prepared_assessment_reports_its_sets<E: FunctionalSets, R: PreparedSets>(
    sets: E,
    branches: R,
    data: HonestEventStudyInput,
    weights: Seq<Real>,
    inference: InferenceConfig,
    null_value: Real,
    config: RelativeMagnitudeConfidenceSetConfig,
    context: PreparedRelativeMagnitudeBaseContext,
    before: Seq<RelativeMagnitudePreparedFunctionalBranch>,
    after: Seq<RelativeMagnitudePreparedFunctionalBranch>,
    found: HonestAssessment,
) -> (run: PreparedRun)
    requires
        is_prepared_assessment(
            sets,
            branches,
            data,
            weights,
            inference,
            null_value,
            config,
            context,
            before,
            after,
            Ok(found),
        ),
    ensures
        run.original is Ok,
        run.branch_sets is Ok,
        run.conditional is Ok,
        sets.is_original(data, weights, inference, run.original),
        branches.is_branch_sets(data, weights, context, run.branch_sets),
        branches.is_union(data, weights, run.branch_sets->Ok_0, run.identified),
        branches.is_search(
            weights,
            inference,
            config,
            run.original->Ok_0,
            run.identified,
            context,
            before,
            after,
            run.branch_sets->Ok_0,
            run.conditional,
        ),
        found.robust_ci == (run.conditional->Ok_0.lb, run.conditional->Ok_0.ub),
        found.identified_set == (run.identified.lb, run.identified.ub),
        found.sensitivity_value == context.mbar,
        found.null_value == null_value,
        found.robustly_significant == (null_value.lt(found.robust_ci.0) || found.robust_ci.1.lt(
            null_value,
        )),
{
    choose|run: PreparedRun| #[trigger]
        run.explains(
            sets,
            branches,
            data,
            weights,
            inference,
            null_value,
            config,
            context,
            before,
            after,
            Ok(found),
        )
}

/// The result of a post period under the smoothness restriction has the confidence set
/// as its robust interval, and the estimate and standard error of the period's own unit
/// weights.
pub proof fn a_smoothness_result_reports_its_sets<E: FunctionalSets>(
    run: ScalarRun,
    sets: E,
    data: HonestEventStudyInput,
    post_idx: usize,
    inference: InferenceConfig,
    m: Real,
    found: HonestResult,
)
    requires
        run.explains_smoothness(sets, data, post_idx, inference, m, Ok(found)),
    ensures
        run.original is Ok,
        run.identified is Ok,
        run.conditional is Ok,
        found.robust_ci == (run.conditional->Ok_0.lb, run.conditional->Ok_0.ub),
        found.identified_set == (run.identified->Ok_0.lb, run.identified->Ok_0.ub),
        found.original_estimate == run.original->Ok_0.estimate,
        found.original_se == run.original->Ok_0.se,
        found.m == m,
        ({
            let weights = Seq::new(
                data.post_periods@.len(),
                |k: int|
                    if k == post_idx {
                        Real::one_spec()
                    } else {
                        Real::zero_spec()
                    },
            );
            &&& sets.is_original(data, weights, inference, run.original)
            &&& sets.is_smoothness_identified(
                SmoothnessFamily::Plain,
                data,
                weights,
                m,
                run.identified,
            )
            &&& sets.is_smoothness_confidence(
                SmoothnessFamily::Plain,
                data,
                weights,
                m,
                inference,
                SmoothnessConfidenceSetConfig::from_inference_spec(inference),
                run.conditional,
            )
        }),
{
    assert(input::basis_weights(data.post_periods@.len() as int, post_idx as int) =~= Seq::new(
        data.post_periods@.len(),
        |k: int|
            if k == post_idx {
                Real::one_spec()
            } else {
                Real::zero_spec()
            },
    ));
}

/// The result of a post period over prepared branches has the period's confidence set
/// as its robust interval, and the union of the branches' identified sets at the bound
/// at which they were prepared.
pub proof fn a_magnitude_result_reports_its_sets<E: FunctionalSets, R: PreparedSets>(
    run: ScalarRun,
    sets: E,
    branches: R,
    data: HonestEventStudyInput,
    post_idx: usize,
    inference: InferenceConfig,
    context: PreparedRelativeMagnitudeBaseContext,
    found: HonestResult,
)
    requires
        run.explains_magnitude(sets, branches, data, post_idx, inference, context, Ok(found)),
    ensures
        run.original is Ok,
        run.branch_sets is Ok,
        run.identified is Ok,
        run.conditional is Ok,
        found.robust_ci == (run.conditional->Ok_0.lb, run.conditional->Ok_0.ub),
        found.identified_set == (run.identified->Ok_0.lb, run.identified->Ok_0.ub),
        found.original_estimate == run.original->Ok_0.estimate,
        found.original_se == run.original->Ok_0.se,
        found.m == context.mbar,
        branches.is_period(
            data,
            post_idx,
            inference,
            RelativeMagnitudeConfidenceSetConfig::from_inference_spec(inference),
            context,
            run.conditional,
        ),
        ({
            let weights = Seq::new(
                data.post_periods@.len(),
                |k: int|
                    if k == post_idx {
                        Real::one_spec()
                    } else {
                        Real::zero_spec()
                    },
            );
            &&& sets.is_original(data, weights, inference, run.original)
            &&& branches.is_branch_sets(data, weights, context, run.branch_sets)
            &&& branches.is_union(data, weights, run.branch_sets->Ok_0, run.identified->Ok_0)
        }),
{
    assert(input::basis_weights(data.post_periods@.len() as int, post_idx as int) =~= Seq::new(
        data.post_periods@.len(),
        |k: int|
            if k == post_idx {
                Real::one_spec()
            } else {
                Real::zero_spec()
            },
    ));
}

} // verus!
