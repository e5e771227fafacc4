//! Simultaneous regions of the post-treatment path and of sets of directions.

use crate::assessment;
use crate::assessment::{
    assess_honest_event_study_functional_with_config,
    assess_honest_event_study_period_with_config,
    assess_relative_magnitude_basis_period_with_prepared_input,
    assess_relative_magnitude_functional_with_prepared_functional_branches,
};
use crate::branch_search::RelativeMagnitudePreparedFunctionalBranch;
use crate::calibration;
use crate::calibration::{calibrate_directional_region, joint_path_level, Levels};
use crate::errors::HonestError;
use crate::functional_sets;
use crate::functional_sets::FunctionalSets;
use crate::input;
use crate::input::{basis_directions, basis_vector_index, HonestEventStudyInput};
use crate::matrix;
use crate::matrix::copy_row;
use crate::multi_intervals;
use crate::multi_intervals::functional_rows_list;
use crate::number::Real;
use crate::prepared_sets::{PreparedRelativeMagnitudeBaseContext, PreparedSets};
use crate::types::{
    HonestAssessment, HonestDirectionalFunctionalPoint, HonestDirectionalRegion,
    HonestDirectionalRegionDiagnostics, HonestJointPathConfig, HonestJointPathMethod,
    HonestJointPathPoint, HonestJointPathRegion, HonestSensitivity, InferenceConfig,
    RelativeMagnitudeConfidenceSetConfig,
};
use vstd::prelude::*;

verus! {

// ---------------------------------------------------------------------------
// The branches of a region
// ---------------------------------------------------------------------------

/// The branches that a region uses: given ones, or its own where the
/// restriction has branches.
pub open spec fn context_of(
    given: Option<&PreparedRelativeMagnitudeBaseContext>,
    sensitivity: HonestSensitivity,
    owned: Result<PreparedRelativeMagnitudeBaseContext, HonestError>,
) -> Option<PreparedRelativeMagnitudeBaseContext> {
    match given {
        Some(context) => Some(*context),
        None => match sensitivity {
            HonestSensitivity::RelativeMagnitude(_) => Some(owned->Ok_0),
            HonestSensitivity::Smoothness(_) => None,
        },
    }
}

/// Whether a region prepares its own branches.
pub open spec fn prepares(
    given: Option<&PreparedRelativeMagnitudeBaseContext>,
    sensitivity: HonestSensitivity,
) -> bool {
    given is None && sensitivity is RelativeMagnitude
}

/// The bound of a relative-magnitude restriction.
pub open spec fn magnitude_bound(sensitivity: HonestSensitivity) -> Real {
    sensitivity.bound_spec()
}

pub(crate) fn own_context<R: PreparedSets>(
    given: Option<&PreparedRelativeMagnitudeBaseContext>,
    sensitivity: HonestSensitivity,
    data: &HonestEventStudyInput,
    branches: &R,
) -> (out: (
    Result<Option<PreparedRelativeMagnitudeBaseContext>, HonestError>,
    Ghost<Result<PreparedRelativeMagnitudeBaseContext, HonestError>>,
))
    requires
        functional_sets::countable(*data),
        branches.ready(*data),
    ensures
        prepares(given, sensitivity) ==> branches.is_context(
            *data,
            magnitude_bound(sensitivity),
            out.1@,
        ),
        match out.0 {
            Err(error) => prepares(given, sensitivity) && out.1@ == Err::<
                PreparedRelativeMagnitudeBaseContext,
                HonestError,
            >(error),
            Ok(None) => !prepares(given, sensitivity),
            Ok(Some(context)) => prepares(given, sensitivity) && out.1@ == Ok::<
                PreparedRelativeMagnitudeBaseContext,
                HonestError,
            >(context) && context.fits(data.post_periods@.len() as int),
        },
{
    let ghost nothing: Result<PreparedRelativeMagnitudeBaseContext, HonestError> = arbitrary();
    match given {
        Some(_) => (Ok(None), Ghost(nothing)),
        None => match sensitivity {
            HonestSensitivity::Smoothness(_) => (Ok(None), Ghost(nothing)),
            HonestSensitivity::RelativeMagnitude(mbar) => {
                let prepared = branches.context(data, mbar);
                let ghost said = prepared;
                match prepared {
                    Err(error) => (Err(error), Ghost(said)),
                    Ok(context) => (Ok(Some(context)), Ghost(said)),
                }
            },
        },
    }
}

// ---------------------------------------------------------------------------
// The post-treatment path
// ---------------------------------------------------------------------------

/// The weights of the post periods, one functional per period.
pub open spec fn unit_weights(num_post: int) -> Seq<Seq<Real>> {
    Seq::new(num_post as nat, |i: int| input::basis_weights(num_post, i))
}

/// What a joint region rested on.
pub struct JointRun {
    /// The common level with its critical value.
    pub level: Result<(Real, Real), HonestError>,
    /// The configuration of that level.
    pub pointwise: InferenceConfig,
    /// The region's own branches.
    pub owned: Result<PreparedRelativeMagnitudeBaseContext, HonestError>,
    /// Rows of the branches for each period, one after the other.
    pub made: Seq<Result<Seq<RelativeMagnitudePreparedFunctionalBranch>, HonestError>>,
    /// The same, or the first error.
    pub rows: Result<Seq<Seq<RelativeMagnitudePreparedFunctionalBranch>>, HonestError>,
    /// The rows after the assessments.
    pub after: Seq<Seq<RelativeMagnitudePreparedFunctionalBranch>>,
    /// Assessments in order.
    pub results: Seq<Result<HonestAssessment, HonestError>>,
}

impl JointRun {
    /// Whether a period was assessed like this: over its prepared rows, or as a
    /// functional where there are no branches.
    pub open spec fn assessed<E: FunctionalSets, R: PreparedSets>(
        self,
        sets: E,
        branches: R,
        data: HonestEventStudyInput,
        sensitivity: HonestSensitivity,
        null_value: Real,
        config: RelativeMagnitudeConfidenceSetConfig,
        context: Option<PreparedRelativeMagnitudeBaseContext>,
        i: int,
        result: Result<HonestAssessment, HonestError>,
    ) -> bool {
        match context {
            Some(found) => assessment::is_prepared_assessment(
                sets,
                branches,
                data,
                input::basis_weights(data.post_periods@.len() as int, i),
                self.pointwise,
                null_value,
                config.at_level_spec(self.pointwise),
                found,
                self.rows->Ok_0[i],
                self.after[i],
                result,
            ),
            None => assessment::is_period_assessment(
                sets,
                data,
                data.post_periods@[i],
                sensitivity,
                self.pointwise,
                null_value,
                config,
                result,
            ),
        }
    }

    /// Whether `out` is the joint region of the post-treatment path: the fault
    /// of the input, an error of the level, of the branches or of their rows,
    /// the first error of a period, or all periods at the common level.
    pub open spec fn explains<L: Levels, E: FunctionalSets, R: PreparedSets>(
        self,
        levels: L,
        sets: E,
        branches: R,
        data: HonestEventStudyInput,
        sensitivity: HonestSensitivity,
        inference: InferenceConfig,
        null_value: Real,
        config: RelativeMagnitudeConfidenceSetConfig,
        joint: HonestJointPathConfig,
        given: Option<&PreparedRelativeMagnitudeBaseContext>,
        out: Result<HonestJointPathRegion, HonestError>,
    ) -> bool {
        let num_post = data.post_periods@.len() as int;
        let context = context_of(given, sensitivity, self.owned);
        if data.fault() is Some {
            out == Err::<HonestJointPathRegion, HonestError>(data.fault()->Some_0)
        } else {
            &&& calibration::is_path_calibration(levels, data, inference, joint, self.level)
            &&& match self.level {
                Err(error) => out == Err::<HonestJointPathRegion, HonestError>(error),
                Ok(level) => {
                    &&& levels.is_config(level.0, self.pointwise)
                    &&& prepares(given, sensitivity) ==> branches.is_context(
                        data,
                        magnitude_bound(sensitivity),
                        self.owned,
                    )
                    &&& if prepares(given, sensitivity) && self.owned is Err {
                        out == Err::<HonestJointPathRegion, HonestError>(self.owned->Err_0)
                    } else {
                        &&& context matches Some(found) ==> multi_intervals::is_rows_list(
                            self.made,
                            branches,
                            unit_weights(num_post),
                            found,
                            self.rows,
                        )
                        &&& if context is Some && self.rows is Err {
                            out == Err::<HonestJointPathRegion, HonestError>(self.rows->Err_0)
                        } else {
                            &&& assessment::in_order(self.results, num_post)
                            &&& forall|i: int|
                                0 <= i < self.results.len() ==> self.assessed(
                                    sets,
                                    branches,
                                    data,
                                    sensitivity,
                                    null_value,
                                    config,
                                    context,
                                    i,
                                    #[trigger] self.results[i],
                                )
                            &&& match assessment::failure(self.results) {
                                Some(error) => out == Err::<HonestJointPathRegion, HonestError>(
                                    error,
                                ),
                                None => out matches Ok(region) && {
                                    &&& region.confidence_level == inference.confidence_level
                                    &&& region.pointwise_confidence_level == level.0
                                    &&& region.calibrated_max_t_critical_value == level.1
                                    &&& region.method == joint.method
                                    &&& region.points@ == path_points(
                                        data.post_periods@,
                                        self.results,
                                    )
                                },
                            }
                        }
                    }
                },
            }
        }
    }
}

/// Assessments with the labels of their periods.
pub open spec fn path_points(
    labels: Seq<i32>,
    results: Seq<Result<HonestAssessment, HonestError>>,
) -> Seq<HonestJointPathPoint> {
    Seq::new(
        results.len(),
        |i: int| HonestJointPathPoint { post_period: labels[i], assessment: results[i]->Ok_0 },
    )
}

fn path_rows<R: PreparedSets>(
    data: &HonestEventStudyInput,
    context: Option<&PreparedRelativeMagnitudeBaseContext>,
    branches: &R,
) -> (rows: Result<Vec<Vec<RelativeMagnitudePreparedFunctionalBranch>>, HonestError>)
    requires
        context matches Some(found) ==> found.fits(data.post_periods@.len() as int),
        branches.ready(*data),
    ensures
        context matches Some(found) ==> exists|
            made: Seq<Result<Seq<RelativeMagnitudePreparedFunctionalBranch>, HonestError>>,
        | #[trigger]
            multi_intervals::is_rows_list(
                made,
                *branches,
                unit_weights(data.post_periods@.len() as int),
                *found,
                multi_intervals::rows_listed(rows),
            ),
        context is None ==> rows is Ok,
        context is Some && rows is Ok ==> rows->Ok_0@.len() == data.post_periods@.len(),
{
    match context {
        None => Ok(Vec::new()),
        Some(found) => {
            let units = basis_directions(data.num_post_periods());
            proof {
                assert(matrix::rows_of(units@) =~= unit_weights(data.post_periods@.len() as int))
                    by {
                    assert forall|i: int| 0 <= i < units.len() implies (#[trigger] units@[i])@
                        == input::basis_weights(data.post_periods@.len() as int, i) by {}
                }
                assert forall|i: int| 0 <= i < units.len() implies (#[trigger] units@[i])@.len()
                    == data.post_periods@.len() by {
                    assert(matrix::rows_of(units@)[i] == units@[i]@);
                }
            }
            functional_rows_list(data, &units, found, branches)
        },
    }
}

fn path_assessments<E: FunctionalSets, R: PreparedSets>(
    start: Ghost<JointRun>,
    data: &HonestEventStudyInput,
    sensitivity: HonestSensitivity,
    pointwise: InferenceConfig,
    null_value: Real,
    config: RelativeMagnitudeConfidenceSetConfig,
    context: Option<&PreparedRelativeMagnitudeBaseContext>,
    rows: Vec<Vec<RelativeMagnitudePreparedFunctionalBranch>>,
    sets: &E,
    branches: &R,
) -> (out: (Result<Vec<HonestJointPathPoint>, HonestError>, Ghost<JointRun>))
    requires
        functional_sets::countable(*data),
        data.fault() is None,
        context is Some ==> rows@.len() == data.post_periods@.len(),
        context is Some ==> start@.rows == Ok::<
            Seq<Seq<RelativeMagnitudePreparedFunctionalBranch>>,
            HonestError,
        >(matrix::rows_of(rows@)),
        start@.pointwise == pointwise,
        sets.ready(*data),
        branches.ready(*data),
    ensures
        out.1@ == (JointRun { after: out.1@.after, results: out.1@.results, ..start@ }),
        assessment::in_order(out.1@.results, data.post_periods@.len() as int),
        forall|i: int|
            0 <= i < out.1@.results.len() ==> out.1@.assessed(
                *sets,
                *branches,
                *data,
                sensitivity,
                null_value,
                config,
                (match context {
                    Some(found) => Some(*found),
                    None => None,
                }),
                i,
                #[trigger] out.1@.results[i],
            ),
        match out.0 {
            Err(error) => assessment::failure(out.1@.results) == Some(error),
            Ok(points) => assessment::failure(out.1@.results) is None && points@ == path_points(
                data.post_periods@,
                out.1@.results,
            ),
        },
{
    let ghost used: Option<PreparedRelativeMagnitudeBaseContext> = match context {
        Some(found) => Some(*found),
        None => None,
    };
    let ghost mut run: JointRun = start@;
    proof {
        run.after = Seq::empty();
        run.results = Seq::empty();
    }
    let mut rows = rows;
    let ghost before = matrix::rows_of(rows@);
    let level_config = config.at_level(pointwise);
    let mut points: Vec<HonestJointPathPoint> = Vec::new();
    let mut i: usize = 0;
    while i < data.post_periods.len()
        invariant
            i <= data.post_periods.len(),
            functional_sets::countable(*data),
            data.fault() is None,
            context is Some ==> rows@.len() == data.post_periods@.len(),
            context is Some ==> start@.rows == Ok::<
                Seq<Seq<RelativeMagnitudePreparedFunctionalBranch>>,
                HonestError,
            >(before),
            context is Some ==> before.len() == rows@.len(),
            context is Some ==> forall|k: int|
                i <= k < rows@.len() ==> (#[trigger] rows@[k])@ == before[k],
            start@.pointwise == pointwise,
            level_config == config.at_level_spec(pointwise),
            used == (match context {
                Some(found) => Some(*found),
                None => None,
            }),
            sets.ready(*data),
            branches.ready(*data),
            run == (JointRun { after: run.after, results: run.results, ..start@ }),
            run.results.len() == i,
            run.after.len() == i,
            forall|k: int|
                0 <= k < i ==> run.assessed(
                    *sets,
                    *branches,
                    *data,
                    sensitivity,
                    null_value,
                    config,
                    used,
                    k,
                    #[trigger] run.results[k],
                ),
            forall|k: int| 0 <= k < i ==> #[trigger] run.results[k] is Ok,
            points@ == path_points(data.post_periods@, run.results),
        decreases data.post_periods.len() - i,
    {
        let ghost earlier = run;
        let ghost previous = rows@;
        let ghost mut left: Seq<RelativeMagnitudePreparedFunctionalBranch> = Seq::empty();
        let result = match context {
            Some(found) => {
                let weights = input::basis_post_weights(data.num_post_periods(), i);
                let result =
                    assess_relative_magnitude_functional_with_prepared_functional_branches(
                    data,
                    &weights,
                    pointwise,
                    null_value,
                    level_config,
                    found,
                    &mut rows[i],
                    sets,
                    branches,
                );
                proof {
                    left = rows@[i as int]@;
                    assert(previous[i as int]@ == before[i as int]);
                }
                result
            },
            None => assess_honest_event_study_period_with_config(
                data,
                data.post_periods[i],
                sensitivity,
                pointwise,
                null_value,
                config,
                sets,
            ),
        };
        proof {
            run.results = earlier.results.push(result);
            run.after = earlier.after.push(left);
            assert forall|k: int| 0 <= k < run.results.len() implies run.assessed(
                *sets,
                *branches,
                *data,
                sensitivity,
                null_value,
                config,
                used,
                k,
                #[trigger] run.results[k],
            ) by {
                if k < i {
                    assert(run.results[k] == earlier.results[k]);
                    assert(run.after[k] == earlier.after[k]);
                    assert(earlier.assessed(
                        *sets,
                        *branches,
                        *data,
                        sensitivity,
                        null_value,
                        config,
                        used,
                        k,
                        earlier.results[k],
                    ));
                }
            }
            assert forall|k: int| 0 <= k < run.results.len() - 1 implies #[trigger] run.results[k]
                is Ok by {
                assert(run.results[k] == earlier.results[k]);
            }
            if context is Some {
                assert forall|k: int| i < k < rows@.len() implies (#[trigger] rows@[k])@
                    == before[k] by {
                    assert(rows@[k] == previous[k]);
                }
            }
        }
        match result {
            Err(error) => {
                return (Err(error), Ghost(run));
            },
            Ok(found) => {
                points.push(
                    HonestJointPathPoint { post_period: data.post_periods[i], assessment: found },
                );
            },
        }
        i = i + 1;
        proof {
            assert(points@ =~= path_points(data.post_periods@, run.results));
        }
    }
    (Ok(points), Ghost(run))
}

/// The joint region of the post-treatment path, over given branches where there
/// are any.
pub fn assess_honest_event_study_joint_path_region_with_optional_prepared_relative_magnitude<
    L: Levels,
    E: FunctionalSets,
    R: PreparedSets,
>(
    data: &HonestEventStudyInput,
    sensitivity: HonestSensitivity,
    inference: InferenceConfig,
    null_value: Real,
    relative_magnitude_config: RelativeMagnitudeConfidenceSetConfig,
    joint_config: HonestJointPathConfig,
    prepared: Option<&PreparedRelativeMagnitudeBaseContext>,
    levels: &L,
    sets: &E,
    branches: &R,
) -> (out: Result<HonestJointPathRegion, HonestError>)
    requires
        functional_sets::countable(*data),
        prepared matches Some(context) ==> context.fits(data.post_periods@.len() as int),
        levels.ready(),
        sets.ready(*data),
        branches.ready(*data),
    ensures
        exists|run: JointRun| #[trigger]
            run.explains(
                *levels,
                *sets,
                *branches,
                *data,
                sensitivity,
                inference,
                null_value,
                relative_magnitude_config,
                joint_config,
                prepared,
                out,
            ),
        out is Ok ==> data.fault() is None && (data.post_periods@.len() == 1
            || calibration::can_draw(joint_config)),
        out matches Ok(region) ==> region.points@.len() == data.post_periods@.len() && forall|i: int|
            0 <= i < region.points@.len() ==> (#[trigger] region.points@[i]).post_period
                == data.post_periods@[i],
{
    let ghost mut run: JointRun = arbitrary();
    match data.validate() {
        Err(error) => {
            assert(run.explains(
                *levels,
                *sets,
                *branches,
                *data,
                sensitivity,
                inference,
                null_value,
                relative_magnitude_config,
                joint_config,
                prepared,
                Err(error),
            ));
            return Err(error);
        },
        Ok(()) => {},
    }
    proof {
        input::valid_input_is_shaped(*data);
    }
    let calibrated = joint_path_level(data, inference, joint_config, levels);
    proof {
        run.level = calibrated;
    }
    let level = match calibrated {
        Err(error) => {
            assert(run.explains(
                *levels,
                *sets,
                *branches,
                *data,
                sensitivity,
                inference,
                null_value,
                relative_magnitude_config,
                joint_config,
                prepared,
                Err(error),
            ));
            return Err(error);
        },
        Ok(level) => level,
    };
    let pointwise = levels.config(level.0);
    let (own, Ghost(said)) = own_context(prepared, sensitivity, data, branches);
    proof {
        run.pointwise = pointwise;
        run.owned = said;
    }
    let owned = match own {
        Err(error) => {
            assert(run.explains(
                *levels,
                *sets,
                *branches,
                *data,
                sensitivity,
                inference,
                null_value,
                relative_magnitude_config,
                joint_config,
                prepared,
                Err(error),
            ));
            return Err(error);
        },
        Ok(owned) => owned,
    };
    let context = match prepared {
        Some(found) => Some(found),
        None => match &owned {
            Some(found) => Some(found),
            None => None,
        },
    };
    let ghost used: Option<PreparedRelativeMagnitudeBaseContext> = match context {
        Some(found) => Some(*found),
        None => None,
    };
    assert(used == context_of(prepared, sensitivity, run.owned));
    let made_rows = path_rows(data, context, branches);
    proof {
        run.rows = multi_intervals::rows_listed(made_rows);
        if context is Some {
            run.made = choose|
                made: Seq<Result<Seq<RelativeMagnitudePreparedFunctionalBranch>, HonestError>>,
            | #[trigger]
                multi_intervals::is_rows_list(
                    made,
                    *branches,
                    unit_weights(data.post_periods@.len() as int),
                    used->Some_0,
                    run.rows,
                );
        }
    }
    let rows = match made_rows {
        Err(error) => {
            assert(run.explains(
                *levels,
                *sets,
                *branches,
                *data,
                sensitivity,
                inference,
                null_value,
                relative_magnitude_config,
                joint_config,
                prepared,
                Err(error),
            ));
            return Err(error);
        },
        Ok(rows) => rows,
    };
    let (assessed, Ghost(done)) = path_assessments(
        Ghost(run),
        data,
        sensitivity,
        pointwise,
        null_value,
        relative_magnitude_config,
        context,
        rows,
        sets,
        branches,
    );
    let out = match assessed {
        Err(error) => Err(error),
        Ok(points) => Ok(
            HonestJointPathRegion {
                confidence_level: inference.confidence_level,
                pointwise_confidence_level: level.0,
                calibrated_max_t_critical_value: level.1,
                method: joint_config.method,
                points,
            },
        ),
    };
    assert(done.explains(
        *levels,
        *sets,
        *branches,
        *data,
        sensitivity,
        inference,
        null_value,
        relative_magnitude_config,
        joint_config,
        prepared,
        out,
    ));
    out
}

/// Whether `out` is the joint region of the post-treatment path.
pub open spec fn is_joint_region<L: Levels, E: FunctionalSets, R: PreparedSets>(
    levels: L,
    sets: E,
    branches: R,
    data: HonestEventStudyInput,
    sensitivity: HonestSensitivity,
    inference: InferenceConfig,
    null_value: Real,
    config: RelativeMagnitudeConfidenceSetConfig,
    joint: HonestJointPathConfig,
    given: Option<&PreparedRelativeMagnitudeBaseContext>,
    out: Result<HonestJointPathRegion, HonestError>,
) -> bool {
    exists|run: JointRun| #[trigger]
        run.explains(
            levels,
            sets,
            branches,
            data,
            sensitivity,
            inference,
            null_value,
            config,
            joint,
            given,
            out,
        )
}

/// The joint region of the post-treatment path.
pub fn assess_honest_event_study_joint_path_region_with_config<
    L: Levels,
    E: FunctionalSets,
    R: PreparedSets,
>(
    data: &HonestEventStudyInput,
    sensitivity: HonestSensitivity,
    inference: InferenceConfig,
    null_value: Real,
    relative_magnitude_config: RelativeMagnitudeConfidenceSetConfig,
    joint_config: HonestJointPathConfig,
    levels: &L,
    sets: &E,
    branches: &R,
) -> (out: Result<HonestJointPathRegion, HonestError>)
    requires
        functional_sets::countable(*data),
        levels.ready(),
        sets.ready(*data),
        branches.ready(*data),
    ensures
        is_joint_region(
            *levels,
            *sets,
            *branches,
            *data,
            sensitivity,
            inference,
            null_value,
            relative_magnitude_config,
            joint_config,
            None,
            out,
        ),
{
    assess_honest_event_study_joint_path_region_with_optional_prepared_relative_magnitude(
        data,
        sensitivity,
        inference,
        null_value,
        relative_magnitude_config,
        joint_config,
        None,
        levels,
        sets,
        branches,
    )
}

/// The joint region of the post-treatment path with the default settings.
pub fn assess_honest_event_study_joint_path_region<
    L: Levels,
    E: FunctionalSets,
    R: PreparedSets,
>(
    data: &HonestEventStudyInput,
    sensitivity: HonestSensitivity,
    inference: InferenceConfig,
    null_value: Real,
    levels: &L,
    sets: &E,
    branches: &R,
) -> (out: Result<HonestJointPathRegion, HonestError>)
    requires
        functional_sets::countable(*data),
        levels.ready(),
        sets.ready(*data),
        branches.ready(*data),
    ensures
        is_joint_region(
            *levels,
            *sets,
            *branches,
            *data,
            sensitivity,
            inference,
            null_value,
            RelativeMagnitudeConfidenceSetConfig::from_inference_spec(inference),
            multi_intervals::default_joint(),
            None,
            out,
        ),
{
    assess_honest_event_study_joint_path_region_with_config(
        data,
        sensitivity,
        inference,
        null_value,
        RelativeMagnitudeConfidenceSetConfig::from_inference(inference),
        HonestJointPathConfig::default_for_production(),
        levels,
        sets,
        branches,
    )
}

/// A joint region covers every post period once, in order.
pub proof fn joint_region_covers_the_path<L: Levels, E: FunctionalSets, R: PreparedSets>(
    levels: L,
    sets: E,
    branches: R,
    data: HonestEventStudyInput,
    sensitivity: HonestSensitivity,
    inference: InferenceConfig,
    null_value: Real,
    config: RelativeMagnitudeConfidenceSetConfig,
    joint: HonestJointPathConfig,
    given: Option<&PreparedRelativeMagnitudeBaseContext>,
    region: HonestJointPathRegion,
    i: int,
)
    requires
        is_joint_region(
            levels,
            sets,
            branches,
            data,
            sensitivity,
            inference,
            null_value,
            config,
            joint,
            given,
            Ok(region),
        ),
        0 <= i < data.post_periods@.len(),
    ensures
        region.points@.len() == data.post_periods@.len(),
        region.points@[i].post_period == data.post_periods@[i],
{
}

/// A Bonferroni region of two or more periods shares the family-wise error among
/// them, and says so: its level is the error shared among as many parts as it
/// has points, with the critical value of that level.
pub proof fn joint_region_shares_the_error<L: Levels, E: FunctionalSets, R: PreparedSets>(
    levels: L,
    sets: E,
    branches: R,
    data: HonestEventStudyInput,
    sensitivity: HonestSensitivity,
    inference: InferenceConfig,
    null_value: Real,
    config: RelativeMagnitudeConfidenceSetConfig,
    joint: HonestJointPathConfig,
    given: Option<&PreparedRelativeMagnitudeBaseContext>,
    region: HonestJointPathRegion,
)
    requires
        is_joint_region(
            levels,
            sets,
            branches,
            data,
            sensitivity,
            inference,
            null_value,
            config,
            joint,
            given,
            Ok(region),
        ),
        joint.method == HonestJointPathMethod::Bonferroni,
        region.points@.len() >= 2,
    ensures
        levels.is_shared(
            inference,
            region.points@.len() as usize,
            region.pointwise_confidence_level,
        ),
        levels.is_critical(
            region.pointwise_confidence_level,
            Ok(region.calibrated_max_t_critical_value),
        ),
        region.confidence_level == inference.confidence_level,
{
    let run = choose|run: JointRun| #[trigger]
        run.explains(
            levels,
            sets,
            branches,
            data,
            sensitivity,
            inference,
            null_value,
            config,
            joint,
            given,
            Ok(region),
        );
    assert(run.results.len() == data.post_periods@.len());
    calibration::the_path_shares_the_error_among_its_periods(
        levels,
        data,
        inference,
        joint,
        run.level->Ok_0.0,
        run.level->Ok_0.1,
    );
}

/// Under a smoothness bound, each point of a joint region is the assessment of its
/// period alone at the level that the region reports.
pub proof fn joint_region_assesses_each_period_at_its_level<
    L: Levels,
    E: FunctionalSets,
    R: PreparedSets,
>(
    levels: L,
    sets: E,
    branches: R,
    data: HonestEventStudyInput,
    bound: Real,
    inference: InferenceConfig,
    null_value: Real,
    config: RelativeMagnitudeConfidenceSetConfig,
    joint: HonestJointPathConfig,
    region: HonestJointPathRegion,
    i: int,
)
    requires
        is_joint_region(
            levels,
            sets,
            branches,
            data,
            HonestSensitivity::Smoothness(bound),
            inference,
            null_value,
            config,
            joint,
            None,
            Ok(region),
        ),
        0 <= i < region.points@.len(),
    ensures
        exists|pointwise: InferenceConfig|
            levels.is_config(region.pointwise_confidence_level, pointwise)
                && #[trigger] assessment::is_period_assessment(
                sets,
                data,
                data.post_periods@[i],
                HonestSensitivity::Smoothness(bound),
                pointwise,
                null_value,
                config,
                Ok(region.points@[i].assessment),
            ),
{
    let sensitivity = HonestSensitivity::Smoothness(bound);
    let run = choose|run: JointRun| #[trigger]
        run.explains(
            levels,
            sets,
            branches,
            data,
            sensitivity,
            inference,
            null_value,
            config,
            joint,
            None,
            Ok(region),
        );
    assert(run.assessed(
        sets,
        branches,
        data,
        sensitivity,
        null_value,
        config,
        context_of(None, sensitivity, run.owned),
        i,
        run.results[i],
    ));
    assert(run.results[i] == Ok::<HonestAssessment, HonestError>(region.points@[i].assessment));
}

// ---------------------------------------------------------------------------
// Sets of directions
// ---------------------------------------------------------------------------

/// Whether every direction selects a post period.
pub open spec fn all_units(directions: Seq<Seq<Real>>) -> bool {
    forall|i: int| 0 <= i < directions.len() ==> selects_one(#[trigger] directions[i])
}

/// Whether a direction selects a post period.
pub open spec fn selects_one(direction: Seq<Real>) -> bool {
    exists|k: int| input::selects(direction, k)
}

/// What a directional region rested on.
pub struct DirectionalRun {
    /// The configuration of the common level.
    pub pointwise: InferenceConfig,
    /// The region's own branches.
    pub owned: Result<PreparedRelativeMagnitudeBaseContext, HonestError>,
    /// The period that each direction selects, where all do.
    pub units: Seq<int>,
    /// Rows of the branches for each direction, one after the other.
    pub made: Seq<Result<Seq<RelativeMagnitudePreparedFunctionalBranch>, HonestError>>,
    /// The same, or the first error.
    pub rows: Result<Seq<Seq<RelativeMagnitudePreparedFunctionalBranch>>, HonestError>,
    /// The rows after the assessments.
    pub after: Seq<Seq<RelativeMagnitudePreparedFunctionalBranch>>,
    /// Assessments in order.
    pub results: Seq<Result<HonestAssessment, HonestError>>,
}

impl DirectionalRun {
    /// Whether a direction was assessed like this: over branches, as the post
    /// period that it selects where all directions select one, else over its
    /// prepared rows; without branches, as a functional.
    pub open spec fn assessed<E: FunctionalSets, R: PreparedSets>(
        self,
        sets: E,
        branches: R,
        data: HonestEventStudyInput,
        directions: Seq<Seq<Real>>,
        sensitivity: HonestSensitivity,
        null_value: Real,
        config: RelativeMagnitudeConfidenceSetConfig,
        context: Option<PreparedRelativeMagnitudeBaseContext>,
        i: int,
        result: Result<HonestAssessment, HonestError>,
    ) -> bool {
        match context {
            None => assessment::is_assessment(
                sets,
                data,
                directions[i],
                sensitivity,
                self.pointwise,
                null_value,
                config,
                result,
            ),
            Some(found) => if all_units(directions) {
                &&& input::selects(directions[i], self.units[i])
                &&& assessment::is_fresh_assessment(
                    sets,
                    branches,
                    data,
                    input::basis_weights(data.post_periods@.len() as int, self.units[i]),
                    self.pointwise,
                    null_value,
                    config.at_level_spec(self.pointwise),
                    found,
                    result,
                )
            } else {
                assessment::is_prepared_assessment(
                    sets,
                    branches,
                    data,
                    directions[i],
                    self.pointwise,
                    null_value,
                    config.at_level_spec(self.pointwise),
                    found,
                    self.rows->Ok_0[i],
                    self.after[i],
                    result,
                )
            },
        }
    }

    /// Whether `out` is the region of a set of directions at a given level.
    pub open spec fn explains<L: Levels, E: FunctionalSets, R: PreparedSets>(
        self,
        levels: L,
        sets: E,
        branches: R,
        data: HonestEventStudyInput,
        directions: Seq<Seq<Real>>,
        sensitivity: HonestSensitivity,
        null_value: Real,
        config: RelativeMagnitudeConfidenceSetConfig,
        given: Option<&PreparedRelativeMagnitudeBaseContext>,
        method: HonestJointPathMethod,
        confidence_level: Real,
        level: (Real, Real),
        out: Result<HonestDirectionalRegion, HonestError>,
    ) -> bool {
        let context = context_of(given, sensitivity, self.owned);
        &&& levels.is_config(level.0, self.pointwise)
        &&& prepares(given, sensitivity) ==> branches.is_context(
            data,
            magnitude_bound(sensitivity),
            self.owned,
        )
        &&& if prepares(given, sensitivity) && self.owned is Err {
            out == Err::<HonestDirectionalRegion, HonestError>(self.owned->Err_0)
        } else {
            &&& context is Some && !all_units(directions) ==> multi_intervals::is_rows_list(
                self.made,
                branches,
                directions,
                context->Some_0,
                self.rows,
            )
            &&& if context is Some && !all_units(directions) && self.rows is Err {
                out == Err::<HonestDirectionalRegion, HonestError>(self.rows->Err_0)
            } else {
                &&& assessment::in_order(self.results, directions.len() as int)
                &&& forall|i: int|
                    0 <= i < self.results.len() ==> self.assessed(
                        sets,
                        branches,
                        data,
                        directions,
                        sensitivity,
                        null_value,
                        config,
                        context,
                        i,
                        #[trigger] self.results[i],
                    )
                &&& match assessment::failure(self.results) {
                    Some(error) => out == Err::<HonestDirectionalRegion, HonestError>(error),
                    None => out matches Ok(region) && {
                        &&& region.confidence_level == confidence_level
                        &&& region.pointwise_confidence_level == level.0
                        &&& region.calibrated_max_t_critical_value == level.1
                        &&& region.method == method
                        &&& region.diagnostics == HonestDirectionalRegionDiagnostics::fixed_spec(
                            directions.len() as usize,
                            0,
                        )
                        &&& region.points@.len() == directions.len()
                        &&& forall|i: int|
                            0 <= i < directions.len() ==> is_direction_point(
                                directions[i],
                                self.results[i],
                                #[trigger] region.points@[i],
                            )
                    },
                }
            }
        }
    }
}

/// Whether a point holds a direction with its assessment.
pub open spec fn is_direction_point(
    direction: Seq<Real>,
    result: Result<HonestAssessment, HonestError>,
    point: HonestDirectionalFunctionalPoint,
) -> bool {
    &&& result == Ok::<HonestAssessment, HonestError>(point.assessment)
    &&& point.post_weights@ == direction
}

/// The post periods that directions select, where all select one.
fn unit_indices(directions: &Vec<Vec<Real>>) -> (units: Option<Vec<usize>>)
    ensures
        (units is Some) == all_units(matrix::rows_of(directions@)),
        units matches Some(list) ==> list@.len() == directions@.len() && forall|i: int|
            0 <= i < list@.len() ==> input::selects(
                directions@[i]@,
                (#[trigger] list@[i]) as int,
            ),
{
    let ghost rows = matrix::rows_of(directions@);
    let mut list: Vec<usize> = Vec::new();
    while list.len() < directions.len()
        invariant
            list.len() <= directions.len(),
            rows == matrix::rows_of(directions@),
            forall|i: int|
                0 <= i < list@.len() ==> input::selects(
                    directions@[i]@,
                    (#[trigger] list@[i]) as int,
                ),
        decreases directions.len() - list.len(),
    {
        let i: usize = list.len();
        match basis_vector_index(directions[i].as_slice()) {
            None => {
                assert(!selects_one(rows[i as int]));
                return None;
            },
            Some(at) => {
                list.push(at);
            },
        }
    }
    proof {
        assert forall|i: int| 0 <= i < rows.len() implies selects_one(#[trigger] rows[i]) by {
            assert(input::selects(directions@[i]@, list@[i] as int));
        }
    }
    Some(list)
}

fn direction_assessments<E: FunctionalSets, R: PreparedSets>(
    start: Ghost<DirectionalRun>,
    data: &HonestEventStudyInput,
    directions: &Vec<Vec<Real>>,
    sensitivity: HonestSensitivity,
    pointwise: InferenceConfig,
    null_value: Real,
    config: RelativeMagnitudeConfidenceSetConfig,
    context: Option<&PreparedRelativeMagnitudeBaseContext>,
    units: &Option<Vec<usize>>,
    rows: Vec<Vec<RelativeMagnitudePreparedFunctionalBranch>>,
    sets: &E,
    branches: &R,
) -> (out: (Result<Vec<HonestDirectionalFunctionalPoint>, HonestError>, Ghost<DirectionalRun>))
    requires
        functional_sets::countable(*data),
        context is Some ==> matrix::has_cols(
            directions@,
            data.post_periods@.len() as int,
        ),
        context matches Some(found) ==> found.fits(data.post_periods@.len() as int),
        (units is Some) == all_units(matrix::rows_of(directions@)),
        units matches Some(list) ==> list@.len() == directions@.len() && forall|i: int|
            0 <= i < list@.len() ==> input::selects(
                directions@[i]@,
                (#[trigger] list@[i]) as int,
            ),
        context is Some && units is None ==> rows@.len() == directions@.len(),
        context is Some && units is None ==> start@.rows == Ok::<
            Seq<Seq<RelativeMagnitudePreparedFunctionalBranch>>,
            HonestError,
        >(matrix::rows_of(rows@)),
        units matches Some(list) ==> start@.units == Seq::new(
            list@.len(),
            |i: int| list@[i] as int,
        ),
        start@.pointwise == pointwise,
        sets.ready(*data),
        branches.ready(*data),
    ensures
        out.1@ == (DirectionalRun { after: out.1@.after, results: out.1@.results, ..start@ }),
        assessment::in_order(out.1@.results, directions@.len() as int),
        forall|i: int|
            0 <= i < out.1@.results.len() ==> out.1@.assessed(
                *sets,
                *branches,
                *data,
                matrix::rows_of(directions@),
                sensitivity,
                null_value,
                config,
                (match context {
                    Some(found) => Some(*found),
                    None => None,
                }),
                i,
                #[trigger] out.1@.results[i],
            ),
        match out.0 {
            Err(error) => assessment::failure(out.1@.results) == Some(error),
            Ok(points) => {
                &&& assessment::failure(out.1@.results) is None
                &&& points@.len() == directions@.len()
                &&& forall|i: int|
                    0 <= i < points@.len() ==> is_direction_point(
                        matrix::rows_of(directions@)[i],
                        out.1@.results[i],
                        #[trigger] points@[i],
                    )
            },
        },
{
    let ghost used: Option<PreparedRelativeMagnitudeBaseContext> = match context {
        Some(found) => Some(*found),
        None => None,
    };
    let ghost lines = matrix::rows_of(directions@);
    let ghost mut run: DirectionalRun = start@;
    proof {
        run.after = Seq::empty();
        run.results = Seq::empty();
    }
    let mut rows = rows;
    let ghost before = matrix::rows_of(rows@);
    let level_config = config.at_level(pointwise);
    let mut points: Vec<HonestDirectionalFunctionalPoint> = Vec::new();
    let mut i: usize = 0;
    while i < directions.len()
        invariant
            i <= directions.len(),
            functional_sets::countable(*data),
            context is Some ==> matrix::has_cols(
            directions@,
            data.post_periods@.len() as int,
        ),
            lines == matrix::rows_of(directions@),
            context matches Some(found) ==> found.fits(data.post_periods@.len() as int),
            (units is Some) == all_units(lines),
            units matches Some(list) ==> list@.len() == directions@.len() && forall|i: int|
                0 <= i < list@.len() ==> input::selects(
                    directions@[i]@,
                    (#[trigger] list@[i]) as int,
                ),
            units matches Some(list) ==> start@.units == Seq::new(
                list@.len(),
                |i: int| list@[i] as int,
            ),
            context is Some && units is None ==> rows@.len() == directions@.len(),
            context is Some && units is None ==> start@.rows == Ok::<
                Seq<Seq<RelativeMagnitudePreparedFunctionalBranch>>,
                HonestError,
            >(before),
            context is Some && units is None ==> before.len() == rows@.len(),
            context is Some && units is None ==> forall|k: int|
                i <= k < rows@.len() ==> (#[trigger] rows@[k])@ == before[k],
            start@.pointwise == pointwise,
            level_config == config.at_level_spec(pointwise),
            used == (match context {
                Some(found) => Some(*found),
                None => None,
            }),
            sets.ready(*data),
            branches.ready(*data),
            run == (DirectionalRun { after: run.after, results: run.results, ..start@ }),
            run.results.len() == i,
            run.after.len() == i,
            points.len() == i,
            forall|k: int|
                0 <= k < i ==> run.assessed(
                    *sets,
                    *branches,
                    *data,
                    lines,
                    sensitivity,
                    null_value,
                    config,
                    used,
                    k,
                    #[trigger] run.results[k],
                ),
            forall|k: int| 0 <= k < i ==> #[trigger] run.results[k] is Ok,
            forall|k: int|
                0 <= k < i ==> is_direction_point(
                    lines[k],
                    run.results[k],
                    #[trigger] points@[k],
                ),
        decreases directions.len() - i,
    {
        let ghost earlier = run;
        let ghost previous = rows@;
        let ghost mut left: Seq<RelativeMagnitudePreparedFunctionalBranch> = Seq::empty();
        assert(context is Some ==> directions@[i as int]@.len() == data.post_periods@.len());
        let result = match context {
            None => assess_honest_event_study_functional_with_config(
                data,
                &directions[i],
                sensitivity,
                pointwise,
                null_value,
                config,
                sets,
            ),
            Some(found) => match units {
                Some(list) => {
                    assert(input::selects(directions@[i as int]@, list@[i as int] as int));
                    assess_relative_magnitude_basis_period_with_prepared_input(
                        data,
                        list[i],
                        pointwise,
                        null_value,
                        level_config,
                        found,
                        sets,
                        branches,
                    )
                },
                None => {
                    let result =
                        assess_relative_magnitude_functional_with_prepared_functional_branches(
                        data,
                        &directions[i],
                        pointwise,
                        null_value,
                        level_config,
                        found,
                        &mut rows[i],
                        sets,
                        branches,
                    );
                    proof {
                        left = rows@[i as int]@;
                        assert(previous[i as int]@ == before[i as int]);
                    }
                    result
                },
            },
        };
        proof {
            run.results = earlier.results.push(result);
            run.after = earlier.after.push(left);
            assert(lines[i as int] == directions@[i as int]@);
            assert forall|k: int| 0 <= k < run.results.len() implies run.assessed(
                *sets,
                *branches,
                *data,
                lines,
                sensitivity,
                null_value,
                config,
                used,
                k,
                #[trigger] run.results[k],
            ) by {
                if k < i {
                    assert(run.results[k] == earlier.results[k]);
                    assert(run.after[k] == earlier.after[k]);
                    assert(earlier.assessed(
                        *sets,
                        *branches,
                        *data,
                        lines,
                        sensitivity,
                        null_value,
                        config,
                        used,
                        k,
                        earlier.results[k],
                    ));
                }
            }
            assert forall|k: int| 0 <= k < run.results.len() - 1 implies #[trigger] run.results[k]
                is Ok by {
                assert(run.results[k] == earlier.results[k]);
            }
            if context is Some && units is None {
                assert forall|k: int| i < k < rows@.len() implies (#[trigger] rows@[k])@
                    == before[k] by {
                    assert(rows@[k] == previous[k]);
                }
            }
        }
        match result {
            Err(error) => {
                return (Err(error), Ghost(run));
            },
            Ok(found) => {
                let point = HonestDirectionalFunctionalPoint {
                    post_weights: copy_row(directions[i].as_slice()),
                    assessment: found,
                };
                let ghost old_points = points@;
                points.push(point);
                proof {
                    assert forall|k: int| 0 <= k < points.len() implies is_direction_point(
                        lines[k],
                        run.results[k],
                        #[trigger] points@[k],
                    ) by {
                        if k < i {
                            assert(points@[k] == old_points[k]);
                            assert(run.results[k] == earlier.results[k]);
                        }
                    }
                }
            },
        }
        i = i + 1;
    }
    (Ok(points), Ghost(run))
}

fn direction_rows<R: PreparedSets>(
    data: &HonestEventStudyInput,
    directions: &Vec<Vec<Real>>,
    context: Option<&PreparedRelativeMagnitudeBaseContext>,
    units: &Option<Vec<usize>>,
    branches: &R,
) -> (rows: Result<Vec<Vec<RelativeMagnitudePreparedFunctionalBranch>>, HonestError>)
    requires
        context is Some ==> matrix::has_cols(
            directions@,
            data.post_periods@.len() as int,
        ),
        context matches Some(found) ==> found.fits(data.post_periods@.len() as int),
        branches.ready(*data),
    ensures
        context is Some && units is None ==> exists|
            made: Seq<Result<Seq<RelativeMagnitudePreparedFunctionalBranch>, HonestError>>,
        | #[trigger]
            multi_intervals::is_rows_list(
                made,
                *branches,
                matrix::rows_of(directions@),
                *(context->Some_0),
                multi_intervals::rows_listed(rows),
            ),
        context is Some && units is None && rows is Ok ==> rows->Ok_0@.len() == directions@.len(),
        !(context is Some && units is None) ==> rows is Ok,
{
    match context {
        None => Ok(Vec::new()),
        Some(found) => match units {
            Some(_) => Ok(Vec::new()),
            None => functional_rows_list(data, directions, found, branches),
        },
    }
}

/// The region of a set of directions at a given level.
pub fn assess_honest_event_study_directional_region_with_precalibrated_pointwise<
    L: Levels,
    E: FunctionalSets,
    R: PreparedSets,
>(
    data: &HonestEventStudyInput,
    directions: &Vec<Vec<Real>>,
    sensitivity: HonestSensitivity,
    null_value: Real,
    relative_magnitude_config: RelativeMagnitudeConfidenceSetConfig,
    prepared: Option<&PreparedRelativeMagnitudeBaseContext>,
    method: HonestJointPathMethod,
    confidence_level: Real,
    level: (Real, Real),
    levels: &L,
    sets: &E,
    branches: &R,
) -> (out: Result<HonestDirectionalRegion, HonestError>)
    requires
        functional_sets::countable(*data),
        prepared is Some || sensitivity is RelativeMagnitude ==> matrix::has_cols(
            directions@,
            data.post_periods@.len() as int,
        ),
        prepared matches Some(context) ==> context.fits(data.post_periods@.len() as int),
        levels.ready(),
        sets.ready(*data),
        branches.ready(*data),
    ensures
        exists|run: DirectionalRun| #[trigger]
            run.explains(
                *levels,
                *sets,
                *branches,
                *data,
                matrix::rows_of(directions@),
                sensitivity,
                null_value,
                relative_magnitude_config,
                prepared,
                method,
                confidence_level,
                level,
                out,
            ),
{
    let ghost mut run: DirectionalRun = arbitrary();
    let ghost lines = matrix::rows_of(directions@);
    let pointwise = levels.config(level.0);
    let (own, Ghost(said)) = own_context(prepared, sensitivity, data, branches);
    proof {
        run.pointwise = pointwise;
        run.owned = said;
    }
    let owned = match own {
        Err(error) => {
            assert(run.explains(
                *levels,
                *sets,
                *branches,
                *data,
                lines,
                sensitivity,
                null_value,
                relative_magnitude_config,
                prepared,
                method,
                confidence_level,
                level,
                Err(error),
            ));
            return Err(error);
        },
        Ok(owned) => owned,
    };
    let context = match prepared {
        Some(found) => Some(found),
        None => match &owned {
            Some(found) => Some(found),
            None => None,
        },
    };
    let ghost used: Option<PreparedRelativeMagnitudeBaseContext> = match context {
        Some(found) => Some(*found),
        None => None,
    };
    assert(used == context_of(prepared, sensitivity, run.owned));
    let units = unit_indices(directions);
    let made_rows = direction_rows(data, directions, context, &units, branches);
    proof {
        run.rows = multi_intervals::rows_listed(made_rows);
        if context is Some && units is None {
            run.made = choose|
                made: Seq<Result<Seq<RelativeMagnitudePreparedFunctionalBranch>, HonestError>>,
            | #[trigger]
                multi_intervals::is_rows_list(
                    made,
                    *branches,
                    lines,
                    used->Some_0,
                    run.rows,
                );
        }
        if units is Some {
            run.units = Seq::new(units->Some_0@.len(), |i: int| units->Some_0@[i] as int);
        }
    }
    let rows = match made_rows {
        Err(error) => {
            assert(run.explains(
                *levels,
                *sets,
                *branches,
                *data,
                lines,
                sensitivity,
                null_value,
                relative_magnitude_config,
                prepared,
                method,
                confidence_level,
                level,
                Err(error),
            ));
            return Err(error);
        },
        Ok(rows) => rows,
    };
    let (assessed, Ghost(done)) = direction_assessments(
        Ghost(run),
        data,
        directions,
        sensitivity,
        pointwise,
        null_value,
        relative_magnitude_config,
        context,
        &units,
        rows,
        sets,
        branches,
    );
    let out = match assessed {
        Err(error) => Err(error),
        Ok(points) => Ok(
            HonestDirectionalRegion {
                confidence_level,
                pointwise_confidence_level: level.0,
                calibrated_max_t_critical_value: level.1,
                method,
                points,
                diagnostics: HonestDirectionalRegionDiagnostics::fixed(directions.len(), 0),
            },
        ),
    };
    assert(done.explains(
        *levels,
        *sets,
        *branches,
        *data,
        lines,
        sensitivity,
        null_value,
        relative_magnitude_config,
        prepared,
        method,
        confidence_level,
        level,
        out,
    ));
    out
}

/// Whether `out` is the region of a set of directions: an error of its level, or
/// the region at that level.
pub open spec fn is_directional_region<L: Levels, E: FunctionalSets, R: PreparedSets>(
    level: Result<(Real, Real), HonestError>,
    run: DirectionalRun,
    levels: L,
    sets: E,
    branches: R,
    data: HonestEventStudyInput,
    directions: Seq<Seq<Real>>,
    sensitivity: HonestSensitivity,
    inference: InferenceConfig,
    null_value: Real,
    config: RelativeMagnitudeConfidenceSetConfig,
    joint: HonestJointPathConfig,
    given: Option<&PreparedRelativeMagnitudeBaseContext>,
    out: Result<HonestDirectionalRegion, HonestError>,
) -> bool {
    &&& calibration::directions_calibrated(levels, data, directions, inference, joint, level)
    &&& match level {
        Err(error) => out == Err::<HonestDirectionalRegion, HonestError>(error),
        Ok(found) => run.explains(
            levels,
            sets,
            branches,
            data,
            directions,
            sensitivity,
            null_value,
            config,
            given,
            joint.method,
            inference.confidence_level,
            found,
            out,
        ),
    }
}

/// Whether `out` is the region of a set of directions.
pub open spec fn directional_region<L: Levels, E: FunctionalSets, R: PreparedSets>(
    levels: L,
    sets: E,
    branches: R,
    data: HonestEventStudyInput,
    directions: Seq<Seq<Real>>,
    sensitivity: HonestSensitivity,
    inference: InferenceConfig,
    null_value: Real,
    config: RelativeMagnitudeConfidenceSetConfig,
    joint: HonestJointPathConfig,
    given: Option<&PreparedRelativeMagnitudeBaseContext>,
    out: Result<HonestDirectionalRegion, HonestError>,
) -> bool {
    exists|level: Result<(Real, Real), HonestError>, run: DirectionalRun| #[trigger]
        is_directional_region(
            level,
            run,
            levels,
            sets,
            branches,
            data,
            directions,
            sensitivity,
            inference,
            null_value,
            config,
            joint,
            given,
            out,
        )
}

/// The region of a set of directions, over given branches where there are any.
pub fn assess_honest_event_study_directional_region_with_optional_prepared_relative_magnitude<
    L: Levels,
    E: FunctionalSets,
    R: PreparedSets,
>(
    data: &HonestEventStudyInput,
    directions: &Vec<Vec<Real>>,
    sensitivity: HonestSensitivity,
    inference: InferenceConfig,
    null_value: Real,
    relative_magnitude_config: RelativeMagnitudeConfidenceSetConfig,
    joint_config: HonestJointPathConfig,
    prepared: Option<&PreparedRelativeMagnitudeBaseContext>,
    levels: &L,
    sets: &E,
    branches: &R,
) -> (out: Result<HonestDirectionalRegion, HonestError>)
    requires
        functional_sets::countable(*data),
        prepared matches Some(context) ==> context.fits(data.post_periods@.len() as int),
        levels.ready(),
        sets.ready(*data),
        branches.ready(*data),
    ensures
        directional_region(
            *levels,
            *sets,
            *branches,
            *data,
            matrix::rows_of(directions@),
            sensitivity,
            inference,
            null_value,
            relative_magnitude_config,
            joint_config,
            prepared,
            out,
        ),
        out matches Ok(region) ==> region.points@.len() == directions@.len()
            && calibration::can_draw(joint_config),
{
    let ghost lines = matrix::rows_of(directions@);
    let ghost no_run: DirectionalRun = arbitrary();
    let calibrated = calibrate_directional_region(
        data,
        directions,
        inference,
        joint_config,
        levels,
    );
    let ghost said = calibrated;
    let level = match calibrated {
        Err(error) => {
            assert(is_directional_region(
                said,
                no_run,
                *levels,
                *sets,
                *branches,
                *data,
                lines,
                sensitivity,
                inference,
                null_value,
                relative_magnitude_config,
                joint_config,
                prepared,
                Err(error),
            ));
            return Err(error);
        },
        Ok(level) => level,
    };
    let out = assess_honest_event_study_directional_region_with_precalibrated_pointwise(
        data,
        directions,
        sensitivity,
        null_value,
        relative_magnitude_config,
        prepared,
        joint_config.method,
        inference.confidence_level,
        level,
        levels,
        sets,
        branches,
    );
    proof {
        let run = choose|run: DirectionalRun| #[trigger]
            run.explains(
                *levels,
                *sets,
                *branches,
                *data,
                lines,
                sensitivity,
                null_value,
                relative_magnitude_config,
                prepared,
                joint_config.method,
                inference.confidence_level,
                level,
                out,
            );
        assert(is_directional_region(
            said,
            run,
            *levels,
            *sets,
            *branches,
            *data,
            lines,
            sensitivity,
            inference,
            null_value,
            relative_magnitude_config,
            joint_config,
            prepared,
            out,
        ));
    }
    out
}

/// The region of a set of directions.
pub fn assess_honest_event_study_directional_region_with_config<
    L: Levels,
    E: FunctionalSets,
    R: PreparedSets,
>(
    data: &HonestEventStudyInput,
    directions: &Vec<Vec<Real>>,
    sensitivity: HonestSensitivity,
    inference: InferenceConfig,
    null_value: Real,
    relative_magnitude_config: RelativeMagnitudeConfidenceSetConfig,
    joint_config: HonestJointPathConfig,
    levels: &L,
    sets: &E,
    branches: &R,
) -> (out: Result<HonestDirectionalRegion, HonestError>)
    requires
        functional_sets::countable(*data),
        levels.ready(),
        sets.ready(*data),
        branches.ready(*data),
    ensures
        directional_region(
            *levels,
            *sets,
            *branches,
            *data,
            matrix::rows_of(directions@),
            sensitivity,
            inference,
            null_value,
            relative_magnitude_config,
            joint_config,
            None,
            out,
        ),
        out matches Ok(region) ==> region.points@.len() == directions@.len()
            && calibration::can_draw(joint_config),
{
    assess_honest_event_study_directional_region_with_optional_prepared_relative_magnitude(
        data,
        directions,
        sensitivity,
        inference,
        null_value,
        relative_magnitude_config,
        joint_config,
        None,
        levels,
        sets,
        branches,
    )
}

/// The region of a set of directions with the default settings.
pub fn assess_honest_event_study_directional_region<
    L: Levels,
    E: FunctionalSets,
    R: PreparedSets,
>(
    data: &HonestEventStudyInput,
    directions: &Vec<Vec<Real>>,
    sensitivity: HonestSensitivity,
    inference: InferenceConfig,
    null_value: Real,
    levels: &L,
    sets: &E,
    branches: &R,
) -> (out: Result<HonestDirectionalRegion, HonestError>)
    requires
        functional_sets::countable(*data),
        levels.ready(),
        sets.ready(*data),
        branches.ready(*data),
    ensures
        directional_region(
            *levels,
            *sets,
            *branches,
            *data,
            matrix::rows_of(directions@),
            sensitivity,
            inference,
            null_value,
            RelativeMagnitudeConfidenceSetConfig::from_inference_spec(inference),
            multi_intervals::default_joint(),
            None,
            out,
        ),
{
    assess_honest_event_study_directional_region_with_config(
        data,
        directions,
        sensitivity,
        inference,
        null_value,
        RelativeMagnitudeConfidenceSetConfig::from_inference(inference),
        HonestJointPathConfig::default_for_production(),
        levels,
        sets,
        branches,
    )
}

// ---------------------------------------------------------------------------
// At which level regions assess
// ---------------------------------------------------------------------------

/// Under a relative-magnitude bound, each point of a joint region is the assessment
/// of its period over branches prepared at that bound, at the level that the region
/// reports and with the first-stage size of that level.
pub proof fn joint_magnitude_region_assesses_each_period_at_its_level<
    L: Levels,
    E: FunctionalSets,
    R: PreparedSets,
>(
    levels: L,
    sets: E,
    branches: R,
    data: HonestEventStudyInput,
    bound: Real,
    inference: InferenceConfig,
    null_value: Real,
    config: RelativeMagnitudeConfidenceSetConfig,
    joint: HonestJointPathConfig,
    region: HonestJointPathRegion,
    i: int,
) -> (found: (
    InferenceConfig,
    PreparedRelativeMagnitudeBaseContext,
    Seq<RelativeMagnitudePreparedFunctionalBranch>,
    Seq<RelativeMagnitudePreparedFunctionalBranch>,
))
    requires
        is_joint_region(
            levels,
            sets,
            branches,
            data,
            HonestSensitivity::RelativeMagnitude(bound),
            inference,
            null_value,
            config,
            joint,
            None,
            Ok(region),
        ),
        0 <= i < region.points@.len(),
    ensures
        levels.is_config(region.pointwise_confidence_level, found.0),
        branches.is_context(data, bound, Ok(found.1)),
        region.points@[i].post_period == data.post_periods@[i],
        assessment::is_prepared_assessment(
            sets,
            branches,
            data,
            Seq::new(
                data.post_periods@.len(),
                |k: int|
                    if k == i {
                        Real::one_spec()
                    } else {
                        Real::zero_spec()
                    },
            ),
            found.0,
            null_value,
            (RelativeMagnitudeConfidenceSetConfig {
                hybrid: config.hybrid,
                hybrid_kappa: found.0.relative_magnitude_kappa,
            }),
            found.1,
            found.2,
            found.3,
            Ok(region.points@[i].assessment),
        ),
{
    let sensitivity = HonestSensitivity::RelativeMagnitude(bound);
    let run = choose|run: JointRun| #[trigger]
        run.explains(
            levels,
            sets,
            branches,
            data,
            sensitivity,
            inference,
            null_value,
            config,
            joint,
            None,
            Ok(region),
        );
    assert(run.assessed(
        sets,
        branches,
        data,
        sensitivity,
        null_value,
        config,
        context_of(None, sensitivity, run.owned),
        i,
        run.results[i],
    ));
    assert(run.results[i] == Ok::<HonestAssessment, HonestError>(region.points@[i].assessment));
    assert(input::basis_weights(data.post_periods@.len() as int, i) =~= Seq::new(
        data.post_periods@.len(),
        |k: int|
            if k == i {
                Real::one_spec()
            } else {
                Real::zero_spec()
            },
    ));
    (run.pointwise, run.owned->Ok_0, run.rows->Ok_0[i], run.after[i])
}

/// A Bonferroni region of directions shares the family-wise error among them.
pub proof fn directional_region_shares_the_error<L: Levels, E: FunctionalSets, R: PreparedSets>(
    levels: L,
    sets: E,
    branches: R,
    data: HonestEventStudyInput,
    directions: Seq<Seq<Real>>,
    sensitivity: HonestSensitivity,
    inference: InferenceConfig,
    null_value: Real,
    config: RelativeMagnitudeConfidenceSetConfig,
    joint: HonestJointPathConfig,
    given: Option<&PreparedRelativeMagnitudeBaseContext>,
    region: HonestDirectionalRegion,
)
    requires
        directional_region(
            levels,
            sets,
            branches,
            data,
            directions,
            sensitivity,
            inference,
            null_value,
            config,
            joint,
            given,
            Ok(region),
        ),
        joint.method == HonestJointPathMethod::Bonferroni,
    ensures
        region.points@.len() == directions.len(),
        levels.is_shared(
            inference,
            region.points@.len() as usize,
            region.pointwise_confidence_level,
        ),
        levels.is_critical(
            region.pointwise_confidence_level,
            Ok(region.calibrated_max_t_critical_value),
        ),
        region.confidence_level == inference.confidence_level,
{
    let (level, run) = choose|level: Result<(Real, Real), HonestError>, run: DirectionalRun|
        #[trigger]
        is_directional_region(
            level,
            run,
            levels,
            sets,
            branches,
            data,
            directions,
            sensitivity,
            inference,
            null_value,
            config,
            joint,
            given,
            Ok(region),
        );
    calibration::directions_share_the_error(
        levels,
        data,
        directions,
        inference,
        joint,
        level->Ok_0.0,
        level->Ok_0.1,
    );
}

/// Under a smoothness bound, each point of a region of directions is the assessment
/// of its direction at the level that the region reports.
pub proof fn directional_region_assesses_each_direction_at_its_level<
    L: Levels,
    E: FunctionalSets,
    R: PreparedSets,
>(
    levels: L,
    sets: E,
    branches: R,
    data: HonestEventStudyInput,
    directions: Seq<Seq<Real>>,
    bound: Real,
    inference: InferenceConfig,
    null_value: Real,
    config: RelativeMagnitudeConfidenceSetConfig,
    joint: HonestJointPathConfig,
    region: HonestDirectionalRegion,
    i: int,
) -> (pointwise: InferenceConfig)
    requires
        directional_region(
            levels,
            sets,
            branches,
            data,
            directions,
            HonestSensitivity::Smoothness(bound),
            inference,
            null_value,
            config,
            joint,
            None,
            Ok(region),
        ),
        0 <= i < directions.len(),
    ensures
        levels.is_config(region.pointwise_confidence_level, pointwise),
        region.points@[i].post_weights@ == directions[i],
        assessment::is_assessment(
            sets,
            data,
            directions[i],
            HonestSensitivity::Smoothness(bound),
            pointwise,
            null_value,
            config,
            Ok(region.points@[i].assessment),
        ),
{
    let sensitivity = HonestSensitivity::Smoothness(bound);
    let (level, run) = choose|level: Result<(Real, Real), HonestError>, run: DirectionalRun|
        #[trigger]
        is_directional_region(
            level,
            run,
            levels,
            sets,
            branches,
            data,
            directions,
            sensitivity,
            inference,
            null_value,
            config,
            joint,
            None,
            Ok(region),
        );
    assert(run.assessed(
        sets,
        branches,
        data,
        directions,
        sensitivity,
        null_value,
        config,
        context_of(None, sensitivity, run.owned),
        i,
        run.results[i],
    ));
    assert(is_direction_point(directions[i], run.results[i], region.points@[i]));
    run.pointwise
}

/// Under a relative-magnitude bound, each point of a region of directions that are
/// not all single periods is the assessment of its direction over branches prepared
/// at that bound, at the level that the region reports and with the first-stage
/// size of that level.
pub proof fn directional_magnitude_region_assesses_each_direction_at_its_level<
    L: Levels,
    E: FunctionalSets,
    R: PreparedSets,
>(
    levels: L,
    sets: E,
    branches: R,
    data: HonestEventStudyInput,
    directions: Seq<Seq<Real>>,
    bound: Real,
    inference: InferenceConfig,
    null_value: Real,
    config: RelativeMagnitudeConfidenceSetConfig,
    joint: HonestJointPathConfig,
    region: HonestDirectionalRegion,
    i: int,
) -> (found: (
    InferenceConfig,
    PreparedRelativeMagnitudeBaseContext,
    Seq<RelativeMagnitudePreparedFunctionalBranch>,
    Seq<RelativeMagnitudePreparedFunctionalBranch>,
))
    requires
        directional_region(
            levels,
            sets,
            branches,
            data,
            directions,
            HonestSensitivity::RelativeMagnitude(bound),
            inference,
            null_value,
            config,
            joint,
            None,
            Ok(region),
        ),
        !all_units(directions),
        0 <= i < directions.len(),
    ensures
        levels.is_config(region.pointwise_confidence_level, found.0),
        branches.is_context(data, bound, Ok(found.1)),
        region.points@[i].post_weights@ == directions[i],
        assessment::is_prepared_assessment(
            sets,
            branches,
            data,
            directions[i],
            found.0,
            null_value,
            (RelativeMagnitudeConfidenceSetConfig {
                hybrid: config.hybrid,
                hybrid_kappa: found.0.relative_magnitude_kappa,
            }),
            found.1,
            found.2,
            found.3,
            Ok(region.points@[i].assessment),
        ),
{
    let sensitivity = HonestSensitivity::RelativeMagnitude(bound);
    let (level, run) = choose|level: Result<(Real, Real), HonestError>, run: DirectionalRun|
        #[trigger]
        is_directional_region(
            level,
            run,
            levels,
            sets,
            branches,
            data,
            directions,
            sensitivity,
            inference,
            null_value,
            config,
            joint,
            None,
            Ok(region),
        );
    assert(run.assessed(
        sets,
        branches,
        data,
        directions,
        sensitivity,
        null_value,
        config,
        context_of(None, sensitivity, run.owned),
        i,
        run.results[i],
    ));
    assert(is_direction_point(directions[i], run.results[i], region.points@[i]));
    (run.pointwise, run.owned->Ok_0, run.rows->Ok_0[i], run.after[i])
}

} // verus!
