//! The whole analysis of an event study in one run.

use crate::assessment;
use crate::assessment::{
    assess_honest_event_study_functional_with_config,
    assess_relative_magnitude_functional_with_prepared_functional_branches,
};
use crate::branch_search::RelativeMagnitudePreparedFunctionalBranch;
use crate::calibration;
use crate::calibration::Levels;
use crate::directions::DirectionNumbers;
use crate::errors::HonestError;
use crate::functional_sets;
use crate::functional_sets::FunctionalSets;
use crate::input;
use crate::input::{basis_directions, basis_post_weights, position_of, HonestEventStudyInput};
use crate::matrix;
use crate::matrix::copy_row;
use crate::multi_intervals;
use crate::multi_intervals::{
    build_relative_magnitude_multi_flci_problem_with_precomputed_sets,
    build_smoothness_multi_flci_problem, compute_relative_magnitude_multi_flci_with_config,
    compute_relative_magnitude_multi_flci_with_prepared_functional_branches,
    compute_smoothness_multi_flci_with_config, functional_rows_list, weights_for_functionals,
    MultiFlciProblem, MultiRun,
};
use crate::number::Real;
use crate::prepared_sets::{PreparedRelativeMagnitudeBaseContext, PreparedSets};
use crate::regions;
use crate::regions::{
    own_context,
    assess_honest_event_study_directional_region_with_optional_prepared_relative_magnitude,
    assess_honest_event_study_joint_path_region_with_optional_prepared_relative_magnitude,
};
use crate::smoothness_intervals::SmoothnessFlciConfig;
use crate::surface;
use crate::surface::{
    assess_honest_event_study_optimization_surface_region_adaptive_with_config,
    assess_honest_event_study_optimization_surface_region_with_config,
};
use crate::types::{
    HonestAssessment, HonestDirectionalFunctionalPoint, HonestDirectionalRegion,
    HonestDirectionalRegionDiagnostics, HonestFunctionalAssessmentPoint, HonestIdentifiedSet,
    HonestJointPathRegion, HonestMultiFlciResult, HonestOptimizationSurfaceAdaptiveRunConfig,
    HonestOriginalConfidenceSet, HonestPostFunctional, HonestSensitivity,
    HonestStudyWorkflowResult, HonestWorkflowConfig, HonestWorkflowDirectionMode, InferenceConfig,
    RelativeMagnitudeConfidenceSetConfig,
};
use vstd::prelude::*;

verus! {

// ---------------------------------------------------------------------------
// Assessments of the functionals
// ---------------------------------------------------------------------------

/// Whether two functionals describe the same.
pub open spec fn same_functional(left: HonestPostFunctional, right: HonestPostFunctional) -> bool {
    match left {
        HonestPostFunctional::Period(period) => right == HonestPostFunctional::Period(period),
        HonestPostFunctional::AverageWindow { start_period, end_period } => right == (
        HonestPostFunctional::AverageWindow { start_period, end_period }),
        HonestPostFunctional::Weighted(terms) => right matches HonestPostFunctional::Weighted(
            others,
        ) && terms@ == others@,
    }
}

fn copy_functional(functional: &HonestPostFunctional) -> (copy: HonestPostFunctional)
    ensures
        same_functional(*functional, copy),
{
    match functional {
        HonestPostFunctional::Period(period) => HonestPostFunctional::Period(*period),
        HonestPostFunctional::AverageWindow { start_period, end_period } => {
            HonestPostFunctional::AverageWindow {
                start_period: *start_period,
                end_period: *end_period,
            }
        },
        HonestPostFunctional::Weighted(terms) => HonestPostFunctional::Weighted(
            copy_row(terms.as_slice()),
        ),
    }
}

/// Whether a point holds a functional with its assessment.
pub open spec fn is_functional_point(
    functional: HonestPostFunctional,
    result: Result<HonestAssessment, HonestError>,
    point: HonestFunctionalAssessmentPoint,
) -> bool {
    &&& same_functional(functional, point.functional)
    &&& result == Ok::<HonestAssessment, HonestError>(point.assessment)
}

/// Whether the functionals were assessed one after the other: over their
/// prepared rows where there are branches, else each on its own.
pub open spec fn functional_assessed<E: FunctionalSets, R: PreparedSets>(
    sets: E,
    branches: R,
    data: HonestEventStudyInput,
    weights: Seq<Real>,
    sensitivity: HonestSensitivity,
    inference: InferenceConfig,
    null_value: Real,
    config: RelativeMagnitudeConfidenceSetConfig,
    context: Option<PreparedRelativeMagnitudeBaseContext>,
    before: Seq<RelativeMagnitudePreparedFunctionalBranch>,
    after: Seq<RelativeMagnitudePreparedFunctionalBranch>,
    result: Result<HonestAssessment, HonestError>,
) -> bool {
    match context {
        Some(found) => assessment::is_prepared_assessment(
            sets,
            branches,
            data,
            weights,
            inference,
            null_value,
            config,
            found,
            before,
            after,
            result,
        ),
        None => assessment::is_assessment(
            sets,
            data,
            weights,
            sensitivity,
            inference,
            null_value,
            config,
            result,
        ),
    }
}

/// A referenced context as a value.
pub open spec fn context_value(context: Option<&PreparedRelativeMagnitudeBaseContext>) -> Option<
    PreparedRelativeMagnitudeBaseContext,
> {
    match context {
        Some(found) => Some(*found),
        None => None,
    }
}

fn assess_functionals<E: FunctionalSets, R: PreparedSets>(
    data: &HonestEventStudyInput,
    functionals: &Vec<HonestPostFunctional>,
    weights: &Vec<Vec<Real>>,
    sensitivity: HonestSensitivity,
    inference: InferenceConfig,
    null_value: Real,
    config: RelativeMagnitudeConfidenceSetConfig,
    context: Option<&PreparedRelativeMagnitudeBaseContext>,
    rows: &mut Vec<Vec<RelativeMagnitudePreparedFunctionalBranch>>,
    sets: &E,
    branches: &R,
) -> (out: (
    Result<Vec<HonestFunctionalAssessmentPoint>, HonestError>,
    Ghost<Seq<Result<HonestAssessment, HonestError>>>,
))
    requires
        functional_sets::countable(*data),
        functionals@.len() == weights@.len(),
        context is Some ==> old(rows)@.len() == weights@.len(),
        sets.ready(*data),
        branches.ready(*data),
    ensures
        context is Some ==> final(rows)@.len() == weights@.len(),
        context is None ==> final(rows)@ == old(rows)@,
        assessment::in_order(out.1@, weights@.len() as int),
        forall|i: int|
            0 <= i < out.1@.len() ==> functional_assessed(
                *sets,
                *branches,
                *data,
                matrix::rows_of(weights@)[i],
                sensitivity,
                inference,
                null_value,
                config,
                context_value(context),
                matrix::rows_of(old(rows)@)[i],
                matrix::rows_of(final(rows)@)[i],
                #[trigger] out.1@[i],
            ),
        match out.0 {
            Err(error) => assessment::failure(out.1@) == Some(error),
            Ok(points) => {
                &&& assessment::failure(out.1@) is None
                &&& points@.len() == functionals@.len()
                &&& forall|i: int|
                    0 <= i < points@.len() ==> is_functional_point(
                        functionals@[i],
                        out.1@[i],
                        #[trigger] points@[i],
                    )
            },
        },
{
    let ghost lines = matrix::rows_of(weights@);
    let ghost before = matrix::rows_of(rows@);
    let ghost mut results: Seq<Result<HonestAssessment, HonestError>> = Seq::empty();
    let mut points: Vec<HonestFunctionalAssessmentPoint> = Vec::new();
    while points.len() < functionals.len()
        invariant
            points.len() <= functionals.len(),
            functional_sets::countable(*data),
            functionals@.len() == weights@.len(),
            lines == matrix::rows_of(weights@),
            before == matrix::rows_of(old(rows)@),
            context is Some ==> rows@.len() == weights@.len(),
            context is Some ==> before.len() == weights@.len(),
            context is None ==> rows@ == old(rows)@,
            context is Some ==> forall|k: int|
                points.len() <= k < rows@.len() ==> (#[trigger] rows@[k])@ == before[k],
            sets.ready(*data),
            branches.ready(*data),
            results.len() == points.len(),
            forall|i: int|
                0 <= i < results.len() ==> functional_assessed(
                    *sets,
                    *branches,
                    *data,
                    lines[i],
                    sensitivity,
                    inference,
                    null_value,
                    config,
                    context_value(context),
                    before[i],
                    matrix::rows_of(rows@)[i],
                    #[trigger] results[i],
                ),
            forall|i: int| 0 <= i < results.len() ==> #[trigger] results[i] is Ok,
            forall|i: int|
                0 <= i < points.len() ==> is_functional_point(
                    functionals@[i],
                    results[i],
                    #[trigger] points@[i],
                ),
        decreases functionals.len() - points.len(),
    {
        let i: usize = points.len();
        let ghost earlier = results;
        let ghost previous = rows@;
        let result = match context {
            Some(found) => {
                assess_relative_magnitude_functional_with_prepared_functional_branches(
                    data,
                    &weights[i],
                    inference,
                    null_value,
                    config,
                    found,
                    &mut rows[i],
                    sets,
                    branches,
                )
            },
            None => assess_honest_event_study_functional_with_config(
                data,
                &weights[i],
                sensitivity,
                inference,
                null_value,
                config,
                sets,
            ),
        };
        proof {
            results = earlier.push(result);
            assert(lines[i as int] == weights@[i as int]@);
            if context is Some {
                assert(previous[i as int]@ == before[i as int]);
                assert(matrix::rows_of(rows@)[i as int] == rows@[i as int]@);
            }
            assert forall|k: int| 0 <= k < results.len() implies functional_assessed(
                *sets,
                *branches,
                *data,
                lines[k],
                sensitivity,
                inference,
                null_value,
                config,
                context_value(context),
                before[k],
                matrix::rows_of(rows@)[k],
                #[trigger] results[k],
            ) by {
                if k < i {
                    assert(results[k] == earlier[k]);
                    if context is Some {
                        assert(rows@[k] == previous[k]);
                        assert(matrix::rows_of(rows@)[k] == matrix::rows_of(previous)[k]);
                    }
                }
            }
            assert forall|k: int| 0 <= k < results.len() - 1 implies #[trigger] results[k]
                is Ok by {
                assert(results[k] == earlier[k]);
            }
            if context is Some {
                assert forall|k: int| i < k < rows@.len() implies (#[trigger] rows@[k])@
                    == before[k] by {
                    assert(rows@[k] == previous[k]);
                }
            }
        }
        match result {
            Err(error) => {
                return (Err(error), Ghost(results));
            },
            Ok(found) => {
                let ghost old_points = points@;
                points.push(
                    HonestFunctionalAssessmentPoint {
                        functional: copy_functional(&functionals[i]),
                        assessment: found,
                    },
                );
                proof {
                    assert forall|k: int| 0 <= k < points.len() implies is_functional_point(
                        functionals@[k],
                        results[k],
                        #[trigger] points@[k],
                    ) by {
                        if k < i {
                            assert(points@[k] == old_points[k]);
                            assert(results[k] == earlier[k]);
                        }
                    }
                }
            },
        }
    }
    (Ok(points), Ghost(results))
}

// ---------------------------------------------------------------------------
// The directional region
// ---------------------------------------------------------------------------

/// Whether a directional region says the same as a joint region: the direction
/// of each point selects the first post period with its label.
pub open spec fn restates_path(
    labels: Seq<i32>,
    joint: HonestJointPathRegion,
    region: HonestDirectionalRegion,
) -> bool {
    &&& region.confidence_level == joint.confidence_level
    &&& region.pointwise_confidence_level == joint.pointwise_confidence_level
    &&& region.calibrated_max_t_critical_value == joint.calibrated_max_t_critical_value
    &&& region.method == joint.method
    &&& region.diagnostics == HonestDirectionalRegionDiagnostics::fixed_spec(
        joint.points@.len() as usize,
        0,
    )
    &&& region.points@.len() == joint.points@.len()
    &&& forall|i: int|
        0 <= i < region.points@.len() ==> {
            &&& (#[trigger] region.points@[i]).assessment == joint.points@[i].assessment
            &&& region.points@[i].post_weights@ == input::basis_weights(
                labels.len() as int,
                input::label_position(labels, joint.points@[i].post_period, 0)->Some_0,
            )
        }
}

/// The joint region as a directional region.
pub fn directional_region_from_joint_path_region(
    data: &HonestEventStudyInput,
    joint_path_region: &HonestJointPathRegion,
) -> (region: HonestDirectionalRegion)
    requires
        forall|i: int|
            0 <= i < joint_path_region.points@.len() ==> input::label_position(
                data.post_periods@,
                (#[trigger] joint_path_region.points@[i]).post_period,
                0,
            ) is Some,
    ensures
        restates_path(data.post_periods@, *joint_path_region, region),
{
    let ghost labels = data.post_periods@;
    let mut points: Vec<HonestDirectionalFunctionalPoint> = Vec::new();
    while points.len() < joint_path_region.points.len()
        invariant
            points.len() <= joint_path_region.points.len(),
            labels == data.post_periods@,
            forall|i: int|
                0 <= i < joint_path_region.points@.len() ==> input::label_position(
                    labels,
                    (#[trigger] joint_path_region.points@[i]).post_period,
                    0,
                ) is Some,
            forall|i: int|
                0 <= i < points@.len() ==> {
                    &&& (#[trigger] points@[i]).assessment == joint_path_region.points@[i].assessment
                    &&& points@[i].post_weights@ == input::basis_weights(
                        labels.len() as int,
                        input::label_position(
                            labels,
                            joint_path_region.points@[i].post_period,
                            0,
                        )->Some_0,
                    )
                },
        decreases joint_path_region.points.len() - points.len(),
    {
        let i: usize = points.len();
        let post_period = joint_path_region.points[i].post_period;
        let post_weights = match position_of(data.post_periods.as_slice(), post_period) {
            Some(position) => basis_post_weights(data.post_periods.len(), position),
            None => {
                assert(input::label_position(
                    labels,
                    joint_path_region.points@[i as int].post_period,
                    0,
                ) is Some);
                Vec::new()
            },
        };
        points.push(
            HonestDirectionalFunctionalPoint {
                post_weights,
                assessment: joint_path_region.points[i].assessment,
            },
        );
    }
    HonestDirectionalRegion {
        confidence_level: joint_path_region.confidence_level,
        pointwise_confidence_level: joint_path_region.pointwise_confidence_level,
        calibrated_max_t_critical_value: joint_path_region.calibrated_max_t_critical_value,
        method: joint_path_region.method,
        points,
        diagnostics: HonestDirectionalRegionDiagnostics::fixed(joint_path_region.points.len(), 0),
    }
}

/// Whether `out` is the region of the configured directions.
pub open spec fn is_mode_region<
    D: DirectionNumbers,
    L: Levels,
    E: FunctionalSets,
    R: PreparedSets,
>(
    numbers: D,
    levels: L,
    sets: E,
    branches: R,
    data: HonestEventStudyInput,
    sensitivity: HonestSensitivity,
    inference: InferenceConfig,
    null_value: Real,
    config: HonestWorkflowConfig,
    given: Option<&PreparedRelativeMagnitudeBaseContext>,
    out: Result<HonestDirectionalRegion, HonestError>,
) -> bool {
    match config.direction_mode {
        HonestWorkflowDirectionMode::Basis => regions::directional_region(
            levels,
            sets,
            branches,
            data,
            regions::unit_weights(data.post_periods@.len() as int),
            sensitivity,
            inference,
            null_value,
            config.relative_magnitude,
            config.joint,
            given,
            out,
        ),
        HonestWorkflowDirectionMode::Custom(list) => regions::directional_region(
            levels,
            sets,
            branches,
            data,
            matrix::rows_of(list@),
            sensitivity,
            inference,
            null_value,
            config.relative_magnitude,
            config.joint,
            given,
            out,
        ),
        HonestWorkflowDirectionMode::OptimizationSurface(chosen) => surface::is_fixed_region(
            numbers,
            levels,
            sets,
            branches,
            data,
            sensitivity,
            inference,
            null_value,
            config.relative_magnitude,
            config.joint,
            chosen,
            out,
        ),
        HonestWorkflowDirectionMode::OptimizationSurfaceAdaptive { surface: chosen, adaptive } => {
            surface::is_adaptive_region(
                numbers,
                levels,
                sets,
                branches,
                data,
                sensitivity,
                inference,
                null_value,
                (HonestOptimizationSurfaceAdaptiveRunConfig {
                    relative_magnitude: config.relative_magnitude,
                    joint: config.joint,
                    surface: chosen,
                    adaptive,
                }),
                out,
            )
        },
    }
}

/// The region of the configured directions.
pub fn build_workflow_directional_region<
    D: DirectionNumbers,
    L: Levels,
    E: FunctionalSets,
    R: PreparedSets,
>(
    data: &HonestEventStudyInput,
    sensitivity: HonestSensitivity,
    inference: InferenceConfig,
    null_value: Real,
    config: &HonestWorkflowConfig,
    prepared: Option<&PreparedRelativeMagnitudeBaseContext>,
    numbers: &D,
    levels: &L,
    sets: &E,
    branches: &R,
) -> (out: Result<HonestDirectionalRegion, HonestError>)
    requires
        functional_sets::countable(*data),
        config.direction_mode is OptimizationSurfaceAdaptive && data.post_periods@.len() > 0
            ==> surface::covers(*data),
        prepared matches Some(context) ==> context.fits(data.post_periods@.len() as int),
        numbers.ready(),
        levels.ready(),
        sets.ready(*data),
        branches.ready(*data),
    ensures
        is_mode_region(
            *numbers,
            *levels,
            *sets,
            *branches,
            *data,
            sensitivity,
            inference,
            null_value,
            *config,
            prepared,
            out,
        ),
        out is Ok ==> calibration::can_draw(config.joint),
{
    match &config.direction_mode {
        HonestWorkflowDirectionMode::Basis => {
            let units = basis_directions(data.num_post_periods());
            proof {
                let wanted = regions::unit_weights(data.post_periods@.len() as int);
                assert forall|i: int| 0 <= i < units.len() implies #[trigger] matrix::rows_of(
                    units@,
                )[i] == wanted[i] by {
                    assert(units@[i]@ == input::basis_weights(
                        data.post_periods@.len() as int,
                        i,
                    ));
                }
                assert(matrix::rows_of(units@) =~= wanted);
            }
            assess_honest_event_study_directional_region_with_optional_prepared_relative_magnitude(
                data,
                &units,
                sensitivity,
                inference,
                null_value,
                config.relative_magnitude,
                config.joint,
                prepared,
                levels,
                sets,
                branches,
            )
        },
        HonestWorkflowDirectionMode::Custom(list) => {
            assess_honest_event_study_directional_region_with_optional_prepared_relative_magnitude(
                data,
                list,
                sensitivity,
                inference,
                null_value,
                config.relative_magnitude,
                config.joint,
                prepared,
                levels,
                sets,
                branches,
            )
        },
        HonestWorkflowDirectionMode::OptimizationSurface(chosen) => {
            assess_honest_event_study_optimization_surface_region_with_config(
                data,
                sensitivity,
                inference,
                null_value,
                config.relative_magnitude,
                config.joint,
                *chosen,
                numbers,
                levels,
                sets,
                branches,
            )
        },
        HonestWorkflowDirectionMode::OptimizationSurfaceAdaptive { surface: chosen, adaptive } => {
            assess_honest_event_study_optimization_surface_region_adaptive_with_config(
                data,
                sensitivity,
                inference,
                null_value,
                HonestOptimizationSurfaceAdaptiveRunConfig {
                    relative_magnitude: config.relative_magnitude,
                    joint: config.joint,
                    surface: *chosen,
                    adaptive: *adaptive,
                },
                numbers,
                levels,
                sets,
                branches,
            )
        },
    }
}

// ---------------------------------------------------------------------------
// Simultaneous intervals
// ---------------------------------------------------------------------------

/// The confidence sets under parallel trends that assessments hold.
pub open spec fn originals_of(list: Seq<HonestAssessment>) -> Seq<HonestOriginalConfidenceSet> {
    Seq::new(
        list.len(),
        |i: int|
            HonestOriginalConfidenceSet {
                estimate: list[i].estimate,
                se: list[i].se,
                ci: list[i].original_ci,
            },
    )
}

/// The identified sets that assessments hold.
pub open spec fn identified_of(list: Seq<HonestAssessment>) -> Seq<HonestIdentifiedSet> {
    Seq::new(
        list.len(),
        |i: int|
            HonestIdentifiedSet { lb: list[i].identified_set.0, ub: list[i].identified_set.1 },
    )
}

/// The assessments of points.
pub open spec fn assessments_of(points: Seq<HonestFunctionalAssessmentPoint>) -> Seq<
    HonestAssessment,
> {
    Seq::new(points.len(), |i: int| points[i].assessment)
}

/// What the simultaneous intervals of a workflow rested on.
pub struct IntervalStage {
    /// The sets of the functionals under the smoothness restriction.
    pub pairs: Seq<Result<(HonestOriginalConfidenceSet, HonestIdentifiedSet), HonestError>>,
    /// The problem.
    pub problem: Result<MultiFlciProblem, HonestError>,
    /// What its intervals rested on.
    pub run: MultiRun,
    /// Its intervals.
    pub found: Result<HonestMultiFlciResult, HonestError>,
}

impl IntervalStage {
    /// Whether `problem` is the one of the functionals: under a
    /// relative-magnitude restriction with the sets of their assessments.
    pub open spec fn poses<E: FunctionalSets>(
        self,
        sets: E,
        data: HonestEventStudyInput,
        weights: Seq<Seq<Real>>,
        assessments: Seq<HonestAssessment>,
        sensitivity: HonestSensitivity,
        inference: InferenceConfig,
    ) -> bool {
        match sensitivity {
            HonestSensitivity::RelativeMagnitude(mbar) => match multi_intervals::precomputed_fault(
                weights.len() as int,
                assessments.len() as int,
                assessments.len() as int,
            ) {
                Some(error) => self.problem == Err::<MultiFlciProblem, HonestError>(error),
                None => self.problem matches Ok(problem) && problem.poses(
                    data,
                    weights,
                    mbar,
                    inference,
                    originals_of(assessments),
                    identified_of(assessments),
                ),
            },
            HonestSensitivity::Smoothness(m) => multi_intervals::is_multi_problem(
                self.pairs,
                sets,
                true,
                data,
                weights,
                m,
                inference,
                self.problem,
            ),
        }
    }

    /// Whether `out` holds the simultaneous intervals of the functionals: those
    /// of the problem, over given branches where there are any.
    pub open spec fn explains<L: Levels, E: FunctionalSets, R: PreparedSets>(
        self,
        levels: L,
        sets: E,
        branches: R,
        data: HonestEventStudyInput,
        weights: Seq<Seq<Real>>,
        assessments: Seq<HonestAssessment>,
        sensitivity: HonestSensitivity,
        inference: InferenceConfig,
        config: HonestWorkflowConfig,
        context: Option<PreparedRelativeMagnitudeBaseContext>,
        before: Seq<Seq<RelativeMagnitudePreparedFunctionalBranch>>,
        after: Seq<Seq<RelativeMagnitudePreparedFunctionalBranch>>,
        out: Result<Option<HonestMultiFlciResult>, HonestError>,
    ) -> bool {
        &&& self.poses(sets, data, weights, assessments, sensitivity, inference)
        &&& match self.problem {
            Err(error) => out == Err::<Option<HonestMultiFlciResult>, HonestError>(error),
            Ok(problem) => {
                &&& match sensitivity {
                    HonestSensitivity::RelativeMagnitude(_) => match context {
                        Some(found) => self.run.explains(
                            levels,
                            sets,
                            branches,
                            problem,
                            config.relative_magnitude,
                            config.joint,
                            found,
                            before,
                            after,
                            self.found,
                        ),
                        None => multi_intervals::magnitude_multi(
                            levels,
                            sets,
                            branches,
                            problem,
                            config.relative_magnitude,
                            config.joint,
                            self.found,
                        ),
                    },
                    HonestSensitivity::Smoothness(_) => self.run.explains_smoothness(
                        levels,
                        sets,
                        problem,
                        SmoothnessFlciConfig::default_spec(),
                        config.joint,
                        self.found,
                    ),
                }
                &&& out == (match self.found {
                    Err(error) => Err::<Option<HonestMultiFlciResult>, HonestError>(error),
                    Ok(found) => Ok::<Option<HonestMultiFlciResult>, HonestError>(Some(found)),
                })
            },
        }
    }
}

fn known_sets(points: &Vec<HonestFunctionalAssessmentPoint>) -> (known: (
    Vec<HonestOriginalConfidenceSet>,
    Vec<HonestIdentifiedSet>,
))
    ensures
        known.0@ == originals_of(assessments_of(points@)),
        known.1@ == identified_of(assessments_of(points@)),
{
    let mut originals: Vec<HonestOriginalConfidenceSet> = Vec::new();
    let mut identified: Vec<HonestIdentifiedSet> = Vec::new();
    let ghost list = assessments_of(points@);
    let mut i: usize = 0;
    while i < points.len()
        invariant
            i <= points.len(),
            list == assessments_of(points@),
            originals.len() == i,
            identified.len() == i,
            forall|k: int| 0 <= k < i ==> #[trigger] originals@[k] == originals_of(list)[k],
            forall|k: int| 0 <= k < i ==> #[trigger] identified@[k] == identified_of(list)[k],
        decreases points.len() - i,
    {
        let found = points[i].assessment;
        originals.push(
            HonestOriginalConfidenceSet {
                estimate: found.estimate,
                se: found.se,
                ci: found.original_ci,
            },
        );
        identified.push(
            HonestIdentifiedSet { lb: found.identified_set.0, ub: found.identified_set.1 },
        );
        i = i + 1;
    }
    proof {
        assert(originals@ =~= originals_of(list));
        assert(identified@ =~= identified_of(list));
    }
    (originals, identified)
}

proof fn copied_problem_is_shaped(
    data: HonestEventStudyInput,
    weights: Seq<Vec<Real>>,
    problem: MultiFlciProblem,
)
    requires
        data.shaped(),
        matrix::has_cols(weights, data.post_periods@.len() as int),
        problem.input.same_as(data),
        matrix::rows_of(problem.post_weight_sets@) == matrix::rows_of(weights),
    ensures
        problem.shaped(),
        functional_sets::countable(data) ==> problem.fits(),
        problem.post_weight_sets@.len() == weights.len(),
{
    let copy = problem.input;
    let n = data.post_periods@.len() as int;
    assert(matrix::rows_of(problem.post_weight_sets@).len() == weights.len());
    assert forall|i: int| 0 <= i < problem.post_weight_sets@.len() implies (
    #[trigger] problem.post_weight_sets@[i])@.len() == n by {
        assert(matrix::rows_of(problem.post_weight_sets@)[i] == matrix::rows_of(weights)[i]);
        assert(weights[i]@.len() == n);
    }
    assert(matrix::rows_of(copy.covariance@).len() == data.covariance@.len());
    assert forall|i: int| 0 <= i < copy.covariance@.len() implies (
    #[trigger] copy.covariance@[i])@.len() == data.covariance@[i]@.len() by {
        assert(matrix::rows_of(copy.covariance@)[i] == matrix::rows_of(data.covariance@)[i]);
    }
}

/// The simultaneous intervals of the functionals of a workflow.
pub fn build_workflow_multi_function_intervals<L: Levels, E: FunctionalSets, R: PreparedSets>(
    data: &HonestEventStudyInput,
    post_weight_sets: &Vec<Vec<Real>>,
    functional_assessments: &Vec<HonestFunctionalAssessmentPoint>,
    sensitivity: HonestSensitivity,
    inference: InferenceConfig,
    config: &HonestWorkflowConfig,
    prepared: Option<&PreparedRelativeMagnitudeBaseContext>,
    rows: &mut Vec<Vec<RelativeMagnitudePreparedFunctionalBranch>>,
    levels: &L,
    sets: &E,
    branches: &R,
) -> (out: Result<Option<HonestMultiFlciResult>, HonestError>)
    requires
        functional_sets::countable(*data),
        data.shaped(),
        data.post_periods@.len() > 0,
        matrix::has_cols(post_weight_sets@, data.post_periods@.len() as int),
        sensitivity is Smoothness ==> post_weight_sets@.len() == 1 || calibration::can_draw(
            config.joint,
        ),
        levels.ready(),
        sets.ready(*data),
        forall|copy: HonestEventStudyInput|
            copy.same_as(*data) ==> #[trigger] sets.ready(copy) && branches.ready(copy),
    ensures
        exists|stage: IntervalStage| #[trigger]
            stage.explains(
                *levels,
                *sets,
                *branches,
                *data,
                matrix::rows_of(post_weight_sets@),
                assessments_of(functional_assessments@),
                sensitivity,
                inference,
                *config,
                context_value(prepared),
                matrix::rows_of(old(rows)@),
                matrix::rows_of(final(rows)@),
                out,
            ),
        out matches Ok(found) ==> found is Some,
{
    let ghost mut stage: IntervalStage = arbitrary();
    let ghost weights = matrix::rows_of(post_weight_sets@);
    let ghost list = assessments_of(functional_assessments@);
    let ghost before = matrix::rows_of(rows@);
    match sensitivity {
        HonestSensitivity::RelativeMagnitude(mbar) => {
            let (originals, identified) = known_sets(functional_assessments);
            let built = build_relative_magnitude_multi_flci_problem_with_precomputed_sets(
                data,
                post_weight_sets,
                mbar,
                inference,
                originals,
                identified,
            );
            proof {
                stage.problem = built;
            }
            let problem = match built {
                Err(error) => {
                    assert(stage.explains(
                        *levels,
                        *sets,
                        *branches,
                        *data,
                        weights,
                        list,
                        sensitivity,
                        inference,
                        *config,
                        context_value(prepared),
                        before,
                        matrix::rows_of(rows@),
                        Err(error),
                    ));
                    return Err(error);
                },
                Ok(problem) => problem,
            };
            proof {
                copied_problem_is_shaped(*data, post_weight_sets@, problem);
                assert(sets.ready(problem.input));
            }
            let found = match prepared {
                Some(context) => {
                    let found =
                        compute_relative_magnitude_multi_flci_with_prepared_functional_branches(
                        &problem,
                        config.relative_magnitude,
                        config.joint,
                        context,
                        rows,
                        levels,
                        sets,
                        branches,
                    );
                    proof {
                        stage.run = choose|run: MultiRun| #[trigger]
                            run.explains(
                                *levels,
                                *sets,
                                *branches,
                                problem,
                                config.relative_magnitude,
                                config.joint,
                                *context,
                                before,
                                matrix::rows_of(rows@),
                                found,
                            );
                    }
                    found
                },
                None => compute_relative_magnitude_multi_flci_with_config(
                    &problem,
                    config.relative_magnitude,
                    config.joint,
                    levels,
                    sets,
                    branches,
                ),
            };
            proof {
                stage.found = found;
            }
            let out = match found {
                Err(error) => Err(error),
                Ok(result) => Ok(Some(result)),
            };
            assert(stage.explains(
                *levels,
                *sets,
                *branches,
                *data,
                weights,
                list,
                sensitivity,
                inference,
                *config,
                context_value(prepared),
                before,
                matrix::rows_of(rows@),
                out,
            ));
            out
        },
        HonestSensitivity::Smoothness(m) => {
            let built = build_smoothness_multi_flci_problem(
                data,
                post_weight_sets,
                m,
                inference,
                sets,
            );
            proof {
                stage.problem = built;
                stage.pairs = choose|
                    pairs: Seq<
                        Result<(HonestOriginalConfidenceSet, HonestIdentifiedSet), HonestError>,
                    >,
                | #[trigger]
                    multi_intervals::is_multi_problem(
                        pairs,
                        *sets,
                        true,
                        *data,
                        weights,
                        m,
                        inference,
                        built,
                    );
            }
            let problem = match built {
                Err(error) => {
                    assert(stage.explains(
                        *levels,
                        *sets,
                        *branches,
                        *data,
                        weights,
                        list,
                        sensitivity,
                        inference,
                        *config,
                        context_value(prepared),
                        before,
                        matrix::rows_of(rows@),
                        Err(error),
                    ));
                    return Err(error);
                },
                Ok(problem) => problem,
            };
            proof {
                copied_problem_is_shaped(*data, post_weight_sets@, problem);
                assert forall|copy: HonestEventStudyInput| copy.same_as(
                    problem.input,
                ) implies #[trigger] sets.ready(copy) by {
                    assert(copy.same_as(*data));
                }
            }
            let found = compute_smoothness_multi_flci_with_config(
                &problem,
                SmoothnessFlciConfig::default_for_production(),
                config.joint,
                levels,
                sets,
            );
            proof {
                stage.run = choose|run: MultiRun| #[trigger]
                    run.explains_smoothness(
                        *levels,
                        *sets,
                        problem,
                        SmoothnessFlciConfig::default_spec(),
                        config.joint,
                        found,
                    );
                stage.found = found;
            }
            let out = match found {
                Err(error) => Err(error),
                Ok(result) => Ok(Some(result)),
            };
            assert(stage.explains(
                *levels,
                *sets,
                *branches,
                *data,
                weights,
                list,
                sensitivity,
                inference,
                *config,
                context_value(prepared),
                before,
                matrix::rows_of(rows@),
                out,
            ));
            out
        },
    }
}

// ---------------------------------------------------------------------------
// The workflow
// ---------------------------------------------------------------------------

/// A context lent out.
pub open spec fn lent(context: &Option<PreparedRelativeMagnitudeBaseContext>) -> Option<
    &PreparedRelativeMagnitudeBaseContext,
> {
    match context {
        Some(found) => Some(found),
        None => None,
    }
}

/// What a workflow rested on.
pub struct WorkflowRun {
    /// Weights of the functionals.
    pub weights: Result<Seq<Seq<Real>>, HonestError>,
    /// Branches of a relative-magnitude restriction.
    pub owned: Result<PreparedRelativeMagnitudeBaseContext, HonestError>,
    /// Their rows for each functional, one after the other.
    pub made: Seq<Result<Seq<RelativeMagnitudePreparedFunctionalBranch>, HonestError>>,
    /// The same, or the first error.
    pub rows: Result<Seq<Seq<RelativeMagnitudePreparedFunctionalBranch>>, HonestError>,
    /// Assessments of the functionals in order.
    pub results: Seq<Result<HonestAssessment, HonestError>>,
    /// The rows after the assessments.
    pub after: Seq<Seq<RelativeMagnitudePreparedFunctionalBranch>>,
    /// The joint region.
    pub joint: Result<HonestJointPathRegion, HonestError>,
    /// The directional region.
    pub directional: Result<HonestDirectionalRegion, HonestError>,
    /// What the simultaneous intervals rested on.
    pub stage: IntervalStage,
    /// The rows after the simultaneous intervals.
    pub ended: Seq<Seq<RelativeMagnitudePreparedFunctionalBranch>>,
    /// The simultaneous intervals.
    pub intervals: Result<Option<HonestMultiFlciResult>, HonestError>,
}

impl WorkflowRun {
    /// The branches that the workflow uses.
    pub open spec fn context(self, sensitivity: HonestSensitivity) -> Option<
        PreparedRelativeMagnitudeBaseContext,
    > {
        regions::context_of(None, sensitivity, self.owned)
    }

    /// The error of the preparation, if any.
    pub open spec fn prepared_fault(self, sensitivity: HonestSensitivity) -> Option<HonestError> {
        if self.weights is Err {
            Some(self.weights->Err_0)
        } else if sensitivity is RelativeMagnitude && self.owned is Err {
            Some(self.owned->Err_0)
        } else if sensitivity is RelativeMagnitude && self.rows is Err {
            Some(self.rows->Err_0)
        } else {
            None
        }
    }

    /// The first error up to the assessments, if any.
    pub open spec fn assessed_fault(self, sensitivity: HonestSensitivity) -> Option<HonestError> {
        match self.prepared_fault(sensitivity) {
            Some(error) => Some(error),
            None => assessment::failure(self.results),
        }
    }

    /// The first error up to the joint region, if any.
    pub open spec fn joint_fault(self, sensitivity: HonestSensitivity) -> Option<HonestError> {
        match self.assessed_fault(sensitivity) {
            Some(error) => Some(error),
            None => if self.joint is Err {
                Some(self.joint->Err_0)
            } else {
                None
            },
        }
    }

    /// The first error up to the directional region, if any.
    pub open spec fn directional_fault(self, sensitivity: HonestSensitivity) -> Option<
        HonestError,
    > {
        match self.joint_fault(sensitivity) {
            Some(error) => Some(error),
            None => if self.directional is Err {
                Some(self.directional->Err_0)
            } else {
                None
            },
        }
    }

    /// The first error, if any.
    pub open spec fn fault(self, sensitivity: HonestSensitivity) -> Option<HonestError> {
        match self.directional_fault(sensitivity) {
            Some(error) => Some(error),
            None => if self.intervals is Err {
                Some(self.intervals->Err_0)
            } else {
                None
            },
        }
    }

    /// Whether the workflow prepared the functionals and their branches.
    pub open spec fn prepares<R: PreparedSets, S: Fn(usize) -> Real, P: Fn(Real, Real) -> Real>(
        self,
        branches: R,
        share: S,
        plus: P,
        data: HonestEventStudyInput,
        functionals: Seq<HonestPostFunctional>,
        sensitivity: HonestSensitivity,
    ) -> bool {
        &&& multi_intervals::is_weights_list(
            share,
            plus,
            data.post_periods@,
            functionals,
            self.weights,
        )
        &&& self.weights is Ok && sensitivity is RelativeMagnitude ==> {
            &&& branches.is_context(data, regions::magnitude_bound(sensitivity), self.owned)
            &&& self.owned is Ok ==> multi_intervals::is_rows_list(
                self.made,
                branches,
                self.weights->Ok_0,
                self.owned->Ok_0,
                self.rows,
            )
        }
    }

    /// Whether the workflow assessed the functionals.
    pub open spec fn assesses<E: FunctionalSets, R: PreparedSets>(
        self,
        sets: E,
        branches: R,
        data: HonestEventStudyInput,
        sensitivity: HonestSensitivity,
        inference: InferenceConfig,
        null_value: Real,
        config: HonestWorkflowConfig,
    ) -> bool {
        &&& assessment::in_order(self.results, self.weights->Ok_0.len() as int)
        &&& forall|i: int|
            0 <= i < self.results.len() ==> functional_assessed(
                sets,
                branches,
                data,
                self.weights->Ok_0[i],
                sensitivity,
                inference,
                null_value,
                config.relative_magnitude,
                self.context(sensitivity),
                self.rows->Ok_0[i],
                self.after[i],
                #[trigger] self.results[i],
            )
    }

    /// Whether the workflow found its directional region: for the post periods
    /// themselves the joint region again.
    pub open spec fn directs<
        D: DirectionNumbers,
        L: Levels,
        E: FunctionalSets,
        R: PreparedSets,
    >(
        self,
        numbers: D,
        levels: L,
        sets: E,
        branches: R,
        data: HonestEventStudyInput,
        sensitivity: HonestSensitivity,
        inference: InferenceConfig,
        null_value: Real,
        config: HonestWorkflowConfig,
    ) -> bool {
        if config.direction_mode is Basis {
            self.directional matches Ok(region) && restates_path(
                data.post_periods@,
                self.joint->Ok_0,
                region,
            )
        } else {
            is_mode_region(
                numbers,
                levels,
                sets,
                branches,
                data,
                sensitivity,
                inference,
                null_value,
                config,
                lent(&self.context(sensitivity)),
                self.directional,
            )
        }
    }

    /// Whether a result holds what the workflow found.
    pub open spec fn reports(
        self,
        functionals: Seq<HonestPostFunctional>,
        found: HonestStudyWorkflowResult,
    ) -> bool {
        &&& found.functional_assessments@.len() == functionals.len()
        &&& forall|i: int|
            0 <= i < functionals.len() ==> is_functional_point(
                functionals[i],
                self.results[i],
                #[trigger] found.functional_assessments@[i],
            )
        &&& self.joint == Ok::<HonestJointPathRegion, HonestError>(found.joint_path_region)
        &&& self.directional == Ok::<HonestDirectionalRegion, HonestError>(found.directional_region)
        &&& self.intervals == Ok::<Option<HonestMultiFlciResult>, HonestError>(found.multi_flci)
    }

    /// The assessments that were found.
    pub open spec fn assessments(self) -> Seq<HonestAssessment> {
        Seq::new(self.results.len(), |i: int| self.results[i]->Ok_0)
    }

    /// Whether `out` is the result of the workflow: without functionals an error;
    /// else the functionals are assessed, the joint region, the directional
    /// region and the simultaneous intervals follow, and the first error ends
    /// the workflow.
    pub open spec fn explains<
        D: DirectionNumbers,
        L: Levels,
        E: FunctionalSets,
        R: PreparedSets,
        S: Fn(usize) -> Real,
        P: Fn(Real, Real) -> Real,
    >(
        self,
        numbers: D,
        levels: L,
        sets: E,
        branches: R,
        share: S,
        plus: P,
        data: HonestEventStudyInput,
        functionals: Seq<HonestPostFunctional>,
        sensitivity: HonestSensitivity,
        inference: InferenceConfig,
        null_value: Real,
        config: HonestWorkflowConfig,
        out: Result<HonestStudyWorkflowResult, HonestError>,
    ) -> bool {
        if functionals.len() == 0 {
            out == Err::<HonestStudyWorkflowResult, HonestError>(
                HonestError::NoFunctional { context: "workflow" },
            )
        } else {
            &&& self.prepares(branches, share, plus, data, functionals, sensitivity)
            &&& self.prepared_fault(sensitivity) is None ==> self.assesses(
                sets,
                branches,
                data,
                sensitivity,
                inference,
                null_value,
                config,
            )
            &&& self.assessed_fault(sensitivity) is None ==> regions::is_joint_region(
                levels,
                sets,
                branches,
                data,
                sensitivity,
                inference,
                null_value,
                config.relative_magnitude,
                config.joint,
                lent(&self.context(sensitivity)),
                self.joint,
            )
            &&& self.joint_fault(sensitivity) is None ==> self.directs(
                numbers,
                levels,
                sets,
                branches,
                data,
                sensitivity,
                inference,
                null_value,
                config,
            )
            &&& self.directional_fault(sensitivity) is None ==> self.stage.explains(
                levels,
                sets,
                branches,
                data,
                self.weights->Ok_0,
                self.assessments(),
                sensitivity,
                inference,
                config,
                self.context(sensitivity),
                self.after,
                self.ended,
                self.intervals,
            )
            &&& match self.fault(sensitivity) {
                Some(error) => out == Err::<HonestStudyWorkflowResult, HonestError>(error),
                None => out matches Ok(found) && self.reports(functionals, found),
            }
        }
    }
}

/// Whether `out` is the result of the workflow.
pub open spec fn is_workflow<
    D: DirectionNumbers,
    L: Levels,
    E: FunctionalSets,
    R: PreparedSets,
    S: Fn(usize) -> Real,
    P: Fn(Real, Real) -> Real,
>(
    numbers: D,
    levels: L,
    sets: E,
    branches: R,
    share: S,
    plus: P,
    data: HonestEventStudyInput,
    functionals: Seq<HonestPostFunctional>,
    sensitivity: HonestSensitivity,
    inference: InferenceConfig,
    null_value: Real,
    config: HonestWorkflowConfig,
    out: Result<HonestStudyWorkflowResult, HonestError>,
) -> bool {
    exists|run: WorkflowRun| #[trigger]
        run.explains(
            numbers,
            levels,
            sets,
            branches,
            share,
            plus,
            data,
            functionals,
            sensitivity,
            inference,
            null_value,
            config,
            out,
        )
}

fn workflow_rows<R: PreparedSets>(
    data: &HonestEventStudyInput,
    weights: &Vec<Vec<Real>>,
    context: Option<&PreparedRelativeMagnitudeBaseContext>,
    branches: &R,
) -> (rows: Result<Vec<Vec<RelativeMagnitudePreparedFunctionalBranch>>, HonestError>)
    requires
        matrix::has_cols(weights@, data.post_periods@.len() as int),
        context matches Some(found) ==> found.fits(data.post_periods@.len() as int),
        branches.ready(*data),
    ensures
        context matches Some(found) ==> exists|
            made: Seq<Result<Seq<RelativeMagnitudePreparedFunctionalBranch>, HonestError>>,
        | #[trigger]
            multi_intervals::is_rows_list(
                made,
                *branches,
                matrix::rows_of(weights@),
                *found,
                multi_intervals::rows_listed(rows),
            ),
        context is None ==> rows is Ok,
        context is Some && rows is Ok ==> rows->Ok_0@.len() == weights@.len(),
{
    match context {
        None => Ok(Vec::new()),
        Some(found) => functional_rows_list(data, weights, found, branches),
    }
}

proof fn path_labels_are_found(labels: Seq<i32>, i: int)
    requires
        0 <= i < labels.len(),
    ensures
        input::label_position(labels, labels[i], 0) is Some,
{
    path_label_is_found_from(labels, i, 0);
}

proof fn path_label_is_found_from(labels: Seq<i32>, i: int, from: int)
    requires
        0 <= from <= i < labels.len(),
    ensures
        input::label_position(labels, labels[i], from) is Some,
    decreases i - from,
{
    if labels[from] != labels[i] {
        path_label_is_found_from(labels, i, from + 1);
    }
}

/// Whether a workflow may reach simultaneous intervals that it cannot calibrate:
/// several functionals under the smoothness restriction, simulated without
/// draws, where nothing before asks for draws.
pub open spec fn lacks_draws(
    data: HonestEventStudyInput,
    functionals: int,
    sensitivity: HonestSensitivity,
    config: HonestWorkflowConfig,
) -> bool {
    &&& sensitivity is Smoothness
    &&& functionals != 1
    &&& !calibration::can_draw(config.joint)
    &&& data.post_periods@.len() == 1
    &&& config.direction_mode is Basis
}

/// Assesses functionals, the post-treatment path, directions and simultaneous
/// intervals of an event study.
pub fn assess_honest_event_study_workflow_with_config<
    D: DirectionNumbers,
    L: Levels,
    E: FunctionalSets,
    R: PreparedSets,
    S: Fn(usize) -> Real,
    P: Fn(Real, Real) -> Real,
>(
    data: &HonestEventStudyInput,
    functionals: &Vec<HonestPostFunctional>,
    sensitivity: HonestSensitivity,
    inference: InferenceConfig,
    null_value: Real,
    config: &HonestWorkflowConfig,
    share: &S,
    plus: &P,
    numbers: &D,
    levels: &L,
    sets: &E,
    branches: &R,
) -> (out: Result<HonestStudyWorkflowResult, HonestError>)
    requires
        functional_sets::countable(*data),
        !lacks_draws(*data, functionals@.len() as int, sensitivity, *config),
        forall|n: usize| #[trigger] call_requires(*share, (n,)),
        forall|a: Real, b: Real| #[trigger] call_requires(*plus, (a, b)),
        numbers.ready(),
        levels.ready(),
        forall|copy: HonestEventStudyInput|
            copy.same_as(*data) ==> #[trigger] sets.ready(copy) && branches.ready(copy),
    ensures
        is_workflow(
            *numbers,
            *levels,
            *sets,
            *branches,
            *share,
            *plus,
            *data,
            functionals@,
            sensitivity,
            inference,
            null_value,
            *config,
            out,
        ),
        out matches Ok(found) ==> found.multi_flci is Some,
{
    let ghost mut run: WorkflowRun = arbitrary();
    assert(data.same_as(*data));
    assert(sets.ready(*data) && branches.ready(*data));
    if functionals.len() == 0 {
        let error = HonestError::NoFunctional { context: "workflow" };
        assert(run.explains(
            *numbers,
            *levels,
            *sets,
            *branches,
            *share,
            *plus,
            *data,
            functionals@,
            sensitivity,
            inference,
            null_value,
            *config,
            Err(error),
        ));
        return Err(error);
    }
    let weighed = weights_for_functionals(data, functionals, share, plus);
    proof {
        run.weights = multi_intervals::weights_listed(weighed);
    }
    let weights = match weighed {
        Err(error) => {
            assert(run.explains(
                *numbers,
                *levels,
                *sets,
                *branches,
                *share,
                *plus,
                *data,
                functionals@,
                sensitivity,
                inference,
                null_value,
                *config,
                Err(error),
            ));
            return Err(error);
        },
        Ok(weights) => weights,
    };
    let (own, Ghost(said)) = own_context(None, sensitivity, data, branches);
    proof {
        run.owned = said;
    }
    let owned = match own {
        Err(error) => {
            assert(run.explains(
                *numbers,
                *levels,
                *sets,
                *branches,
                *share,
                *plus,
                *data,
                functionals@,
                sensitivity,
                inference,
                null_value,
                *config,
                Err(error),
            ));
            return Err(error);
        },
        Ok(owned) => owned,
    };
    let context: Option<&PreparedRelativeMagnitudeBaseContext> = match &owned {
        Some(found) => Some(found),
        None => None,
    };
    let ghost used = run.context(sensitivity);
    assert(context_value(context) == used);
    assert(context == lent(&used));
    let made_rows = workflow_rows(data, &weights, context, branches);
    proof {
        run.rows = multi_intervals::rows_listed(made_rows);
        if context is Some {
            run.made = choose|
                made: Seq<Result<Seq<RelativeMagnitudePreparedFunctionalBranch>, HonestError>>,
            | #[trigger]
                multi_intervals::is_rows_list(
                    made,
                    *branches,
                    matrix::rows_of(weights@),
                    used->Some_0,
                    run.rows,
                );
        }
    }
    let mut rows = match made_rows {
        Err(error) => {
            assert(run.explains(
                *numbers,
                *levels,
                *sets,
                *branches,
                *share,
                *plus,
                *data,
                functionals@,
                sensitivity,
                inference,
                null_value,
                *config,
                Err(error),
            ));
            return Err(error);
        },
        Ok(rows) => rows,
    };
    assert(run.prepares(*branches, *share, *plus, *data, functionals@, sensitivity));
    assert(run.prepared_fault(sensitivity) is None);
    let (assessed, Ghost(results)) = assess_functionals(
        data,
        functionals,
        &weights,
        sensitivity,
        inference,
        null_value,
        config.relative_magnitude,
        context,
        &mut rows,
        sets,
        branches,
    );
    proof {
        run.results = results;
        run.after = matrix::rows_of(rows@);
        assert(run.assesses(
            *sets,
            *branches,
            *data,
            sensitivity,
            inference,
            null_value,
            *config,
        ));
    }
    let points = match assessed {
        Err(error) => {
            assert(run.explains(
                *numbers,
                *levels,
                *sets,
                *branches,
                *share,
                *plus,
                *data,
                functionals@,
                sensitivity,
                inference,
                null_value,
                *config,
                Err(error),
            ));
            return Err(error);
        },
        Ok(points) => points,
    };
    proof {
        assert(assessments_of(points@) =~= run.assessments()) by {
            assert forall|i: int| 0 <= i < points.len() implies #[trigger] assessments_of(
                points@,
            )[i] == run.assessments()[i] by {
                assert(is_functional_point(functionals@[i], results[i], points@[i]));
            }
        }
    }
    let joined =
        assess_honest_event_study_joint_path_region_with_optional_prepared_relative_magnitude(
        data,
        sensitivity,
        inference,
        null_value,
        config.relative_magnitude,
        config.joint,
        context,
        levels,
        sets,
        branches,
    );
    proof {
        run.joint = joined;
    }
    let joint = match joined {
        Err(error) => {
            assert(run.explains(
                *numbers,
                *levels,
                *sets,
                *branches,
                *share,
                *plus,
                *data,
                functionals@,
                sensitivity,
                inference,
                null_value,
                *config,
                Err(error),
            ));
            return Err(error);
        },
        Ok(joint) => joint,
    };
    proof {
        input::valid_input_is_shaped(*data);
        assert(data.shaped());
        assert forall|i: int| 0 <= i < joint.points@.len() implies input::label_position(
            data.post_periods@,
            (#[trigger] joint.points@[i]).post_period,
            0,
        ) is Some by {
            path_labels_are_found(data.post_periods@, i);
        }
    }
    let directed = match config.direction_mode {
        HonestWorkflowDirectionMode::Basis => Ok(
            directional_region_from_joint_path_region(data, &joint),
        ),
        _ => build_workflow_directional_region(
            data,
            sensitivity,
            inference,
            null_value,
            config,
            context,
            numbers,
            levels,
            sets,
            branches,
        ),
    };
    proof {
        run.directional = directed;
        assert(run.directs(
            *numbers,
            *levels,
            *sets,
            *branches,
            *data,
            sensitivity,
            inference,
            null_value,
            *config,
        ));
    }
    let directional = match directed {
        Err(error) => {
            assert(run.explains(
                *numbers,
                *levels,
                *sets,
                *branches,
                *share,
                *plus,
                *data,
                functionals@,
                sensitivity,
                inference,
                null_value,
                *config,
                Err(error),
            ));
            return Err(error);
        },
        Ok(directional) => directional,
    };
    let found = build_workflow_multi_function_intervals(
        data,
        &weights,
        &points,
        sensitivity,
        inference,
        config,
        context,
        &mut rows,
        levels,
        sets,
        branches,
    );
    proof {
        run.ended = matrix::rows_of(rows@);
        run.intervals = found;
        run.stage = choose|stage: IntervalStage| #[trigger]
            stage.explains(
                *levels,
                *sets,
                *branches,
                *data,
                matrix::rows_of(weights@),
                assessments_of(points@),
                sensitivity,
                inference,
                *config,
                used,
                run.after,
                run.ended,
                found,
            );
    }
    let out = match found {
        Err(error) => Err(error),
        Ok(multi_flci) => Ok(
            HonestStudyWorkflowResult {
                functional_assessments: points,
                joint_path_region: joint,
                directional_region: directional,
                multi_flci,
            },
        ),
    };
    assert(run.explains(
            *numbers,
            *levels,
            *sets,
            *branches,
            *share,
            *plus,
            *data,
            functionals@,
            sensitivity,
            inference,
            null_value,
            *config,
            out,
    ));
    out
}

/// The default settings of a workflow for a confidence level.
pub open spec fn is_default_workflow(
    inference: InferenceConfig,
    config: HonestWorkflowConfig,
) -> bool {
    let adaptive = surface::default_adaptive(inference);
    &&& config.relative_magnitude == adaptive.relative_magnitude
    &&& config.joint == adaptive.joint
    &&& config.direction_mode == (HonestWorkflowDirectionMode::OptimizationSurfaceAdaptive {
        surface: adaptive.surface,
        adaptive: adaptive.adaptive,
    })
}

/// The workflow with the default settings.
pub fn assess_honest_event_study_workflow<
    D: DirectionNumbers,
    L: Levels,
    E: FunctionalSets,
    R: PreparedSets,
    S: Fn(usize) -> Real,
    P: Fn(Real, Real) -> Real,
>(
    data: &HonestEventStudyInput,
    functionals: &Vec<HonestPostFunctional>,
    sensitivity: HonestSensitivity,
    inference: InferenceConfig,
    null_value: Real,
    share: &S,
    plus: &P,
    numbers: &D,
    levels: &L,
    sets: &E,
    branches: &R,
) -> (out: Result<HonestStudyWorkflowResult, HonestError>)
    requires
        functional_sets::countable(*data),
        forall|n: usize| #[trigger] call_requires(*share, (n,)),
        forall|a: Real, b: Real| #[trigger] call_requires(*plus, (a, b)),
        numbers.ready(),
        levels.ready(),
        forall|copy: HonestEventStudyInput|
            copy.same_as(*data) ==> #[trigger] sets.ready(copy) && branches.ready(copy),
    ensures
        forall|config: HonestWorkflowConfig|
            is_default_workflow(inference, config) ==> #[trigger] is_workflow(
                *numbers,
                *levels,
                *sets,
                *branches,
                *share,
                *plus,
                *data,
                functionals@,
                sensitivity,
                inference,
                null_value,
                config,
                out,
            ),
{
    let config = HonestWorkflowConfig::from_inference(inference);
    assert(is_default_workflow(inference, config));
    assess_honest_event_study_workflow_with_config(
        data,
        functionals,
        sensitivity,
        inference,
        null_value,
        &config,
        share,
        plus,
        numbers,
        levels,
        sets,
        branches,
    )
}

/// A workflow over the post periods themselves reports the joint region again as
/// its directional region: the assessments are the same, in the same order, and
/// each has the weights that select its post period.
pub proof fn basis_workflow_restates_the_path<
    D: DirectionNumbers,
    L: Levels,
    E: FunctionalSets,
    R: PreparedSets,
    S: Fn(usize) -> Real,
    P: Fn(Real, Real) -> Real,
>(
    numbers: D,
    levels: L,
    sets: E,
    branches: R,
    share: S,
    plus: P,
    data: HonestEventStudyInput,
    functionals: Seq<HonestPostFunctional>,
    sensitivity: HonestSensitivity,
    inference: InferenceConfig,
    null_value: Real,
    config: HonestWorkflowConfig,
    found: HonestStudyWorkflowResult,
    i: int,
)
    requires
        is_workflow(
            numbers,
            levels,
            sets,
            branches,
            share,
            plus,
            data,
            functionals,
            sensitivity,
            inference,
            null_value,
            config,
            Ok(found),
        ),
        config.direction_mode is Basis,
        0 <= i < found.joint_path_region.points@.len(),
    ensures
        found.directional_region.points@.len() == found.joint_path_region.points@.len(),
        found.directional_region.points@[i].assessment
            == found.joint_path_region.points@[i].assessment,
        found.directional_region.points@[i].post_weights@ == input::basis_weights(
            data.post_periods@.len() as int,
            input::label_position(
                data.post_periods@,
                found.joint_path_region.points@[i].post_period,
                0,
            )->Some_0,
        ),
        found.directional_region.pointwise_confidence_level
            == found.joint_path_region.pointwise_confidence_level,
{
}

} // verus!
