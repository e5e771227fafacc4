//! Requests, configurations and results of the sensitivity analysis.

use crate::errors::HonestError;
use crate::number::Real;
use vstd::prelude::*;

verus! {

/// A confidence level with the numbers that are derived from it.
#[derive(Clone, Copy, Debug, PartialEq, Eq, Structural)]
pub struct InferenceConfig {
    /// The confidence level.
    pub confidence_level: Real,
    /// One minus the confidence level.
    pub alpha: Real,
    /// A tenth of `alpha`: the default first-stage size of smoothness hybrids.
    pub smoothness_kappa: Real,
    /// A twentieth of `alpha`: the default first-stage size of
    /// relative-magnitude hybrids.
    pub relative_magnitude_kappa: Real,
}

impl InferenceConfig {
    /// How the numbers of a level hang together: the first-stage sizes are
    /// finite and lie between zero and `alpha`.
    pub open spec fn tied(self) -> bool {
        &&& self.smoothness_kappa.finite()
        &&& kappa_in_range(self.smoothness_kappa, self.alpha)
        &&& self.relative_magnitude_kappa.finite()
        &&& kappa_in_range(self.relative_magnitude_kappa, self.alpha)
    }
}

/// The default settings of a level pass their own check.
pub proof fn default_settings_pass_their_check(inference: InferenceConfig)
    requires
        inference.tied(),
    ensures
        RelativeMagnitudeConfidenceSetConfig::from_inference_spec(inference).fault(inference)
            is None,
        SmoothnessConfidenceSetConfig::from_inference_spec(inference).fault(inference) is None,
{
}

/// Relative-magnitude settings pass their check exactly where the first-stage
/// size is finite and lies between zero and `alpha`.
pub proof fn a_first_stage_size_passes_exactly_in_range(
    config: RelativeMagnitudeConfidenceSetConfig,
    inference: InferenceConfig,
)
    ensures
        config.fault(inference) is None <==> config.hybrid_kappa.finite() && kappa_in_range(
            config.hybrid_kappa,
            inference.alpha,
        ),
{
}

/// A restriction on the violations of parallel trends.
#[derive(Clone, Copy, Debug, PartialEq, Eq, Structural)]
pub enum HonestSensitivity {
    /// Changes of slope are bounded by `M`.
    Smoothness(Real),
    /// Post-treatment violations are bounded by `Mbar` times the largest
    /// pre-treatment violation.
    RelativeMagnitude(Real),
}

impl HonestSensitivity {
    /// The bound of the restriction.
    pub open spec fn bound_spec(self) -> Real {
        match self {
            HonestSensitivity::Smoothness(m) => m,
            HonestSensitivity::RelativeMagnitude(m) => m,
        }
    }

    /// The bound of the restriction.
    pub fn bound(self) -> (bound: Real)
        ensures
            bound == self.bound_spec(),
    {
        match self {
            HonestSensitivity::Smoothness(m) => m,
            HonestSensitivity::RelativeMagnitude(m) => m,
        }
    }

    /// The label of the restriction in timing records.
    pub fn sensitivity_label(self) -> (label: &'static str)
        ensures
            label@ == (match self {
                HonestSensitivity::RelativeMagnitude(_) => "relative_magnitude"@,
                HonestSensitivity::Smoothness(_) => "smoothness"@,
            }),
    {
        match self {
            HonestSensitivity::RelativeMagnitude(_) => "relative_magnitude",
            HonestSensitivity::Smoothness(_) => "smoothness",
        }
    }
}

/// Result of a scalar robustness calculation.
#[derive(Clone, Copy, Debug, PartialEq, Eq)]
pub struct HonestResult {
    /// Original point estimate.
    pub original_estimate: Real,
    /// Original standard error.
    pub original_se: Real,
    /// Robust confidence interval.
    pub robust_ci: (Real, Real),
    /// Identified set implied by the restriction.
    pub identified_set: (Real, Real),
    /// Bound of the restriction.
    pub m: Real,
}

/// Result for one post-treatment period.
#[derive(Clone, Copy, Debug, PartialEq, Eq)]
pub struct HonestEventStudyPoint {
    /// Label of the post period.
    pub post_period: i32,
    /// Scalar result for that period.
    pub result: HonestResult,
}

/// Confidence set of a post-treatment functional under parallel trends.
#[derive(Clone, Copy, Debug, PartialEq, Eq)]
pub struct HonestOriginalConfidenceSet {
    /// Point estimate of the functional.
    pub estimate: Real,
    /// Standard error of the functional.
    pub se: Real,
    /// Two-sided confidence interval.
    pub ci: (Real, Real),
}

/// Identified set of a functional.
#[derive(Clone, Copy, Debug, PartialEq, Eq, Structural)]
pub struct HonestIdentifiedSet {
    /// Lower bound.
    pub lb: Real,
    /// Upper bound.
    pub ub: Real,
}

impl HonestIdentifiedSet {
    /// Whether both bounds are finite.
    pub open spec fn bounded(self) -> bool {
        self.lb.finite() && self.ub.finite()
    }

    /// The identified set that excludes nothing.
    pub open spec fn everything_spec() -> HonestIdentifiedSet {
        HonestIdentifiedSet { lb: Real::neg_infinity_spec(), ub: Real::infinity_spec() }
    }

    /// The identified set that excludes nothing.
    pub fn everything() -> (set: HonestIdentifiedSet)
        ensures
            set == HonestIdentifiedSet::everything_spec(),
    {
        HonestIdentifiedSet { lb: Real::neg_infinity(), ub: Real::infinity() }
    }

    /// Whether both bounds are finite.
    pub fn is_bounded(&self) -> (r: bool)
        ensures
            r == self.bounded(),
    {
        self.lb.is_finite() && self.ub.is_finite()
    }
}

/// Conditional confidence set of a functional under a restriction.
#[derive(Clone, Copy, Debug, PartialEq, Eq, Structural)]
pub struct HonestConditionalConfidenceSet {
    /// Lower bound.
    pub lb: Real,
    /// Upper bound.
    pub ub: Real,
}

/// Hybrid mode of relative-magnitude confidence sets.
#[derive(Clone, Copy, Debug, PartialEq, Eq, Structural)]
pub enum RelativeMagnitudeHybrid {
    /// Least-favorable hybrid.
    LeastFavorable,
    /// No hybrid.
    ArpOnly,
}

/// Hybrid mode of smoothness confidence sets.
#[derive(Clone, Copy, Debug, PartialEq, Eq, Structural)]
pub enum SmoothnessHybrid {
    /// Hybrid with the fixed-length confidence interval.
    Flci,
    /// Least-favorable hybrid.
    LeastFavorable,
    /// No hybrid.
    ArpOnly,
}

/// Sign that a restriction puts on the post-treatment violations.
#[derive(Clone, Copy, Debug, PartialEq, Eq, Structural)]
pub enum HonestBiasDirection {
    /// Violations are not negative.
    Positive,
    /// Violations are not positive.
    Negative,
}

/// Direction in which a restriction lets the violations move.
#[derive(Clone, Copy, Debug, PartialEq, Eq, Structural)]
pub enum HonestMonotonicityDirection {
    /// Violations do not decrease.
    Increasing,
    /// Violations do not increase.
    Decreasing,
}

/// What a relative-magnitude bound is measured against.
#[derive(Clone, Copy, Debug, PartialEq, Eq, Structural)]
pub enum HonestRelativeMagnitudeBound {
    /// The largest deviation from parallel trends.
    ParallelTrendsDeviation,
    /// The largest deviation from a linear trend.
    LinearTrendDeviation,
}

/// `0 <= kappa <= alpha`.
pub open spec fn kappa_in_range(kappa: Real, alpha: Real) -> bool {
    Real::zero_spec().le(kappa) && kappa.le(alpha)
}

/// Settings of smoothness confidence sets.
#[derive(Clone, Copy, Debug, PartialEq, Eq, Structural)]
pub struct SmoothnessConfidenceSetConfig {
    /// Hybrid mode.
    pub hybrid: SmoothnessHybrid,
    /// First-stage size of the hybrid.
    pub hybrid_kappa: Real,
    /// Whether moments that involve pre periods alone are left out.
    pub post_period_moments_only: bool,
    /// Number of points of the inversion grid.
    pub grid_points: usize,
}

impl SmoothnessConfidenceSetConfig {
    /// The default settings for a confidence level.
    pub open spec fn from_inference_spec(inference: InferenceConfig) -> Self {
        SmoothnessConfidenceSetConfig {
            hybrid: SmoothnessHybrid::Flci,
            hybrid_kappa: inference.smoothness_kappa,
            post_period_moments_only: true,
            grid_points: 1_000,
        }
    }

    /// What is wrong with the settings, if anything: a hybrid size that is not
    /// finite or lies outside `[0, alpha]`, or a grid of fewer than two points.
    pub open spec fn fault(self, inference: InferenceConfig) -> Option<HonestError> {
        if !self.hybrid_kappa.finite() {
            Some(HonestError::SmoothnessKappaNotFinite)
        } else if !kappa_in_range(self.hybrid_kappa, inference.alpha) {
            Some(
                HonestError::SmoothnessKappaRange {
                    alpha: inference.alpha,
                    kappa: self.hybrid_kappa,
                },
            )
        } else if self.grid_points < 2 {
            Some(HonestError::GridTooSmall { points: self.grid_points })
        } else {
            None
        }
    }

    /// The default settings for a confidence level.
    pub fn from_inference(inference: InferenceConfig) -> (config: Self)
        ensures
            config == Self::from_inference_spec(inference),
    {
        SmoothnessConfidenceSetConfig {
            hybrid: SmoothnessHybrid::Flci,
            hybrid_kappa: inference.smoothness_kappa,
            post_period_moments_only: true,
            grid_points: 1_000,
        }
    }

    /// Checks the settings against a confidence level.
    pub fn validate(self, inference: InferenceConfig) -> (checked: Result<(), HonestError>)
        ensures
            checked == (match self.fault(inference) {
                Some(error) => Err(error),
                None => Ok(()),
            }),
    {
        if !self.hybrid_kappa.is_finite() {
            return Err(HonestError::SmoothnessKappaNotFinite);
        }
        if !(Real::zero().at_most(self.hybrid_kappa) && self.hybrid_kappa.at_most(
            inference.alpha,
        )) {
            return Err(
                HonestError::SmoothnessKappaRange {
                    alpha: inference.alpha,
                    kappa: self.hybrid_kappa,
                },
            );
        }
        if self.grid_points < 2 {
            return Err(HonestError::GridTooSmall { points: self.grid_points });
        }
        Ok(())
    }
}

/// Settings of relative-magnitude confidence sets.
#[derive(Clone, Copy, Debug, PartialEq, Eq, Structural)]
pub struct RelativeMagnitudeConfidenceSetConfig {
    /// Hybrid mode.
    pub hybrid: RelativeMagnitudeHybrid,
    /// First-stage size of the hybrid.
    pub hybrid_kappa: Real,
}

impl RelativeMagnitudeConfidenceSetConfig {
    /// The default settings for a confidence level.
    pub open spec fn from_inference_spec(inference: InferenceConfig) -> Self {
        RelativeMagnitudeConfidenceSetConfig {
            hybrid: RelativeMagnitudeHybrid::LeastFavorable,
            hybrid_kappa: inference.relative_magnitude_kappa,
        }
    }

    /// What is wrong with the settings, if anything.
    pub open spec fn fault(self, inference: InferenceConfig) -> Option<HonestError> {
        if !self.hybrid_kappa.finite() {
            Some(HonestError::RelativeMagnitudeKappaNotFinite)
        } else if !kappa_in_range(self.hybrid_kappa, inference.alpha) {
            Some(
                HonestError::RelativeMagnitudeKappaRange {
                    alpha: inference.alpha,
                    kappa: self.hybrid_kappa,
                },
            )
        } else {
            None
        }
    }

    /// The same hybrid with the default first-stage size of another level.
    pub open spec fn at_level_spec(self, inference: InferenceConfig) -> Self {
        RelativeMagnitudeConfidenceSetConfig {
            hybrid: self.hybrid,
            hybrid_kappa: inference.relative_magnitude_kappa,
        }
    }

    /// The default settings for a confidence level.
    pub fn from_inference(inference: InferenceConfig) -> (config: Self)
        ensures
            config == Self::from_inference_spec(inference),
    {
        RelativeMagnitudeConfidenceSetConfig {
            hybrid: RelativeMagnitudeHybrid::LeastFavorable,
            hybrid_kappa: inference.relative_magnitude_kappa,
        }
    }

    /// Checks the settings against a confidence level.
    pub fn validate(self, inference: InferenceConfig) -> (checked: Result<(), HonestError>)
        ensures
            checked == (match self.fault(inference) {
                Some(error) => Err(error),
                None => Ok(()),
            }),
    {
        if !self.hybrid_kappa.is_finite() {
            return Err(HonestError::RelativeMagnitudeKappaNotFinite);
        }
        if !(Real::zero().at_most(self.hybrid_kappa) && self.hybrid_kappa.at_most(
            inference.alpha,
        )) {
            return Err(
                HonestError::RelativeMagnitudeKappaRange {
                    alpha: inference.alpha,
                    kappa: self.hybrid_kappa,
                },
            );
        }
        Ok(())
    }

    /// The same hybrid with the default first-stage size of another level.
    pub fn at_level(self, inference: InferenceConfig) -> (config: Self)
        ensures
            config == self.at_level_spec(inference),
    {
        RelativeMagnitudeConfidenceSetConfig {
            hybrid: self.hybrid,
            hybrid_kappa: inference.relative_magnitude_kappa,
        }
    }
}

/// Whether an interval lies wholly on one side of a value.
pub open spec fn excludes(interval: (Real, Real), value: Real) -> bool {
    value.lt(interval.0) || interval.1.lt(value)
}

/// Whether an interval lies wholly on one side of a value.
pub fn interval_excludes(interval: (Real, Real), value: Real) -> (r: bool)
    ensures
        r == excludes(interval, value),
{
    value.less(interval.0) || interval.1.less(value)
}

/// Whether a functional stays distinguishable from a null value.
#[derive(Clone, Copy, Debug, PartialEq, Eq)]
pub struct HonestAssessment {
    /// Confidence interval under parallel trends.
    pub original_ci: (Real, Real),
    /// Robust confidence interval.
    pub robust_ci: (Real, Real),
    /// Identified set implied by the restriction.
    pub identified_set: (Real, Real),
    /// Point estimate of the functional.
    pub estimate: Real,
    /// Standard error of the functional.
    pub se: Real,
    /// Null value of the assessment.
    pub null_value: Real,
    /// Bound of the restriction.
    pub sensitivity_value: Real,
    /// Whether the robust interval excludes the null value.
    pub robustly_significant: bool,
}

impl HonestAssessment {
    /// The assessment of given intervals.
    pub open spec fn of(
        original: HonestOriginalConfidenceSet,
        robust_ci: (Real, Real),
        identified_set: (Real, Real),
        null_value: Real,
        sensitivity_value: Real,
    ) -> HonestAssessment {
        HonestAssessment {
            original_ci: original.ci,
            robust_ci,
            identified_set,
            estimate: original.estimate,
            se: original.se,
            null_value,
            sensitivity_value,
            robustly_significant: excludes(robust_ci, null_value),
        }
    }

    /// The assessment of given intervals.
    pub fn new(
        original: HonestOriginalConfidenceSet,
        robust_ci: (Real, Real),
        identified_set: (Real, Real),
        null_value: Real,
        sensitivity_value: Real,
    ) -> (assessment: HonestAssessment)
        ensures
            assessment == HonestAssessment::of(
                original,
                robust_ci,
                identified_set,
                null_value,
                sensitivity_value,
            ),
    {
        HonestAssessment {
            original_ci: original.ci,
            robust_ci,
            identified_set,
            estimate: original.estimate,
            se: original.se,
            null_value,
            sensitivity_value,
            robustly_significant: interval_excludes(robust_ci, null_value),
        }
    }
}

/// One period of a joint path region.
#[derive(Clone, Copy, Debug, PartialEq, Eq)]
pub struct HonestJointPathPoint {
    /// Label of the post period.
    pub post_period: i32,
    /// Assessment of the period at the level of the region.
    pub assessment: HonestAssessment,
}

/// How a joint region is calibrated.
#[derive(Clone, Copy, Debug, PartialEq, Eq, Structural)]
pub enum HonestJointPathMethod {
    /// Bonferroni correction.
    Bonferroni,
    /// Simulated critical value of the largest `|t|`.
    GaussianSimulated,
}

/// Settings of joint calibration.
#[derive(Clone, Copy, Debug, PartialEq, Eq, Structural)]
pub struct HonestJointPathConfig {
    /// Method of calibration.
    pub method: HonestJointPathMethod,
    /// Number of simulation draws.
    pub simulation_draws: usize,
    /// Seed of the simulation.
    pub simulation_seed: u64,
}

impl HonestJointPathConfig {
    /// The default settings.
    pub fn default_for_production() -> (config: Self)
        ensures
            config == (HonestJointPathConfig {
                method: HonestJointPathMethod::GaussianSimulated,
                simulation_draws: 20_000,
                simulation_seed: 42,
            }),
    {
        HonestJointPathConfig {
            method: HonestJointPathMethod::GaussianSimulated,
            simulation_draws: 20_000,
            simulation_seed: 42,
        }
    }
}

/// Simultaneous confidence region for the post-treatment path.
#[derive(Clone, Debug, PartialEq, Eq)]
pub struct HonestJointPathRegion {
    /// Family-wise confidence level.
    pub confidence_level: Real,
    /// Level of each period's interval.
    pub pointwise_confidence_level: Real,
    /// Critical value of the largest `|t|`.
    pub calibrated_max_t_critical_value: Real,
    /// Method of calibration.
    pub method: HonestJointPathMethod,
    /// Periods in order.
    pub points: Vec<HonestJointPathPoint>,
}

/// One direction of a directional region.
#[derive(Clone, Debug, PartialEq, Eq)]
pub struct HonestDirectionalFunctionalPoint {
    /// Weights of the post periods.
    pub post_weights: Vec<Real>,
    /// Assessment of the functional at the level of the region.
    pub assessment: HonestAssessment,
}

/// How a directional region came about.
#[derive(Clone, Copy, Debug, PartialEq, Eq, Structural)]
pub struct HonestDirectionalRegionDiagnostics {
    /// Number of directions.
    pub direction_count: usize,
    /// Number of random directions among them.
    pub random_direction_count: usize,
    /// Number of enrichment iterations.
    pub iterations_run: usize,
    /// Whether enrichment converged before it met its limits.
    pub converged: bool,
}

impl HonestDirectionalRegionDiagnostics {
    /// Diagnostics of a region over a given set of directions.
    pub open spec fn fixed_spec(direction_count: usize, random_direction_count: usize) -> Self {
        HonestDirectionalRegionDiagnostics {
            direction_count,
            random_direction_count,
            iterations_run: 1,
            converged: true,
        }
    }

    /// Diagnostics of a region over a given set of directions.
    pub fn fixed(direction_count: usize, random_direction_count: usize) -> (diagnostics: Self)
        ensures
            diagnostics == Self::fixed_spec(direction_count, random_direction_count),
    {
        HonestDirectionalRegionDiagnostics {
            direction_count,
            random_direction_count,
            iterations_run: 1,
            converged: true,
        }
    }

    /// Diagnostics of a region over an enriched set of directions.
    pub fn adaptive(
        direction_count: usize,
        random_direction_count: usize,
        iterations_run: usize,
        converged: bool,
    ) -> (diagnostics: Self)
        ensures
            diagnostics == (HonestDirectionalRegionDiagnostics {
                direction_count,
                random_direction_count,
                iterations_run,
                converged,
            }),
    {
        HonestDirectionalRegionDiagnostics {
            direction_count,
            random_direction_count,
            iterations_run,
            converged,
        }
    }
}

/// Simultaneous region over a finite set of functionals.
#[derive(Clone, Debug, PartialEq, Eq)]
pub struct HonestDirectionalRegion {
    /// Family-wise confidence level.
    pub confidence_level: Real,
    /// Level of each functional's interval.
    pub pointwise_confidence_level: Real,
    /// Critical value of the largest `|t|`.
    pub calibrated_max_t_critical_value: Real,
    /// Method of calibration.
    pub method: HonestJointPathMethod,
    /// Functionals in order.
    pub points: Vec<HonestDirectionalFunctionalPoint>,
    /// How the region came about.
    pub diagnostics: HonestDirectionalRegionDiagnostics,
}

/// One functional of a simultaneous interval result.
#[derive(Debug, PartialEq, Eq)]
pub struct HonestMultiFlciPoint {
    /// Weights of the post periods.
    pub post_weights: Vec<Real>,
    /// Simultaneous interval.
    pub flci: (Real, Real),
    /// Confidence interval under parallel trends.
    pub original_ci: (Real, Real),
    /// Identified set.
    pub identified_set: (Real, Real),
    /// Null value of the assessment.
    pub null_value: Real,
    /// Whether the interval excludes the null value.
    pub robustly_significant: bool,
}

impl Clone for HonestMultiFlciPoint {
    fn clone(&self) -> (copy: Self)
        ensures
            copy.post_weights@ == self.post_weights@,
            copy.flci == self.flci,
            copy.original_ci == self.original_ci,
            copy.identified_set == self.identified_set,
            copy.null_value == self.null_value,
            copy.robustly_significant == self.robustly_significant,
    {
        let post_weights = self.post_weights.clone();
        assert(post_weights@ =~= self.post_weights@);
        HonestMultiFlciPoint {
            post_weights,
            flci: self.flci,
            original_ci: self.original_ci,
            identified_set: self.identified_set,
            null_value: self.null_value,
            robustly_significant: self.robustly_significant,
        }
    }
}

/// Simultaneous intervals over a set of functionals.
#[derive(Clone, Debug, PartialEq, Eq)]
pub struct HonestMultiFlciResult {
    /// Family-wise confidence level.
    pub confidence_level: Real,
    /// Level of each functional's interval.
    pub pointwise_confidence_level: Real,
    /// Critical value of the largest `|t|`.
    pub calibrated_max_t_critical_value: Real,
    /// Method of calibration.
    pub method: HonestJointPathMethod,
    /// Functionals in order.
    pub points: Vec<HonestMultiFlciPoint>,
}

/// A point of a relative-magnitude result.
pub type RelativeMagnitudeMultiFlciPoint = HonestMultiFlciPoint;

/// A relative-magnitude result.
pub type RelativeMagnitudeMultiFlciResult = HonestMultiFlciResult;

/// A point of a smoothness result.
pub type SmoothnessMultiFlciPoint = HonestMultiFlciPoint;

/// A smoothness result.
pub type SmoothnessMultiFlciResult = HonestMultiFlciResult;

/// Which directions a surface is approximated by.
#[derive(Clone, Copy, Debug, PartialEq, Eq, Structural)]
pub struct HonestOptimizationSurfaceConfig {
    /// Whether each post period is a direction.
    pub include_basis: bool,
    /// Whether each difference of two post periods is a direction.
    pub include_pairwise_contrasts: bool,
    /// Number of random directions.
    pub random_unit_directions: usize,
    /// Seed of the random directions.
    pub random_seed: u64,
}

impl HonestOptimizationSurfaceConfig {
    /// The default settings.
    pub fn default_for_production() -> (config: Self)
        ensures
            config == (HonestOptimizationSurfaceConfig {
                include_basis: true,
                include_pairwise_contrasts: true,
                random_unit_directions: 250,
                random_seed: 1729,
            }),
    {
        HonestOptimizationSurfaceConfig {
            include_basis: true,
            include_pairwise_contrasts: true,
            random_unit_directions: 250,
            random_seed: 1729,
        }
    }

    /// The default settings of dense runs.
    pub fn default_for_full_surface() -> (config: Self)
        ensures
            config == (HonestOptimizationSurfaceConfig {
                include_basis: true,
                include_pairwise_contrasts: true,
                random_unit_directions: 2_000,
                random_seed: 1729,
            }),
    {
        HonestOptimizationSurfaceConfig {
            include_basis: true,
            include_pairwise_contrasts: true,
            random_unit_directions: 2_000,
            random_seed: 1729,
        }
    }
}

/// The bits of `5e-4`.
pub const DEFAULT_TOLERANCE_BITS: u64 = 0x3f40624dd2f1a9fc;

/// How a surface is enriched.
#[derive(Clone, Copy, Debug, PartialEq, Eq, Structural)]
pub struct HonestOptimizationSurfaceAdaptiveConfig {
    /// Number of random directions added per iteration.
    pub random_batch_size: usize,
    /// Number of random directions before convergence is tested.
    pub min_random_for_convergence: usize,
    /// Tolerance of the convergence test.
    pub pointwise_tolerance: Real,
    /// Largest number of iterations.
    pub max_iterations: usize,
}

impl HonestOptimizationSurfaceAdaptiveConfig {
    /// What is wrong with the settings, if anything.
    pub open spec fn fault(self) -> Option<HonestError> {
        if self.random_batch_size == 0 {
            Some(HonestError::BatchSizeZero)
        } else if self.max_iterations == 0 {
            Some(HonestError::MaxIterationsZero)
        } else if !self.pointwise_tolerance.finite() || self.pointwise_tolerance.lt(
            Real::zero_spec(),
        ) {
            Some(HonestError::ToleranceInvalid)
        } else {
            None
        }
    }

    /// The default settings.
    pub fn default_for_production() -> (config: Self)
        ensures
            config == (HonestOptimizationSurfaceAdaptiveConfig {
                random_batch_size: 100,
                min_random_for_convergence: 250,
                pointwise_tolerance: Real { bits: DEFAULT_TOLERANCE_BITS },
                max_iterations: 6,
            }),
    {
        HonestOptimizationSurfaceAdaptiveConfig {
            random_batch_size: 100,
            min_random_for_convergence: 250,
            pointwise_tolerance: Real { bits: DEFAULT_TOLERANCE_BITS },
            max_iterations: 6,
        }
    }

    /// The default settings of dense runs.
    pub fn default_for_full_surface() -> (config: Self)
        ensures
            config == (HonestOptimizationSurfaceAdaptiveConfig {
                random_batch_size: 500,
                min_random_for_convergence: 1_000,
                pointwise_tolerance: Real { bits: DEFAULT_TOLERANCE_BITS },
                max_iterations: 20,
            }),
    {
        HonestOptimizationSurfaceAdaptiveConfig {
            random_batch_size: 500,
            min_random_for_convergence: 1_000,
            pointwise_tolerance: Real { bits: DEFAULT_TOLERANCE_BITS },
            max_iterations: 20,
        }
    }

    /// Checks the settings.
    pub fn validate(self) -> (checked: Result<(), HonestError>)
        ensures
            checked == (match self.fault() {
                Some(error) => Err(error),
                None => Ok(()),
            }),
    {
        if self.random_batch_size == 0 {
            return Err(HonestError::BatchSizeZero);
        }
        if self.max_iterations == 0 {
            return Err(HonestError::MaxIterationsZero);
        }
        if !self.pointwise_tolerance.is_finite() || self.pointwise_tolerance.less(Real::zero()) {
            return Err(HonestError::ToleranceInvalid);
        }
        Ok(())
    }
}

/// Settings of an adaptive surface region.
#[derive(Clone, Copy, Debug, PartialEq, Eq, Structural)]
pub struct HonestOptimizationSurfaceAdaptiveRunConfig {
    /// Settings of relative-magnitude confidence sets.
    pub relative_magnitude: RelativeMagnitudeConfidenceSetConfig,
    /// Settings of joint calibration.
    pub joint: HonestJointPathConfig,
    /// Which directions the surface is approximated by.
    pub surface: HonestOptimizationSurfaceConfig,
    /// How the surface is enriched.
    pub adaptive: HonestOptimizationSurfaceAdaptiveConfig,
}

impl HonestOptimizationSurfaceAdaptiveRunConfig {
    /// The default settings for a confidence level.
    pub fn from_inference(inference: InferenceConfig) -> (config: Self)
        ensures
            config.relative_magnitude == RelativeMagnitudeConfidenceSetConfig::from_inference_spec(
                inference,
            ),
            config.joint == (HonestJointPathConfig {
                method: HonestJointPathMethod::GaussianSimulated,
                simulation_draws: 20_000,
                simulation_seed: 42,
            }),
            config.surface == (HonestOptimizationSurfaceConfig {
                include_basis: true,
                include_pairwise_contrasts: true,
                random_unit_directions: 250,
                random_seed: 1729,
            }),
            config.adaptive == (HonestOptimizationSurfaceAdaptiveConfig {
                random_batch_size: 100,
                min_random_for_convergence: 250,
                pointwise_tolerance: Real { bits: DEFAULT_TOLERANCE_BITS },
                max_iterations: 6,
            }),
    {
        HonestOptimizationSurfaceAdaptiveRunConfig {
            relative_magnitude: RelativeMagnitudeConfidenceSetConfig::from_inference(inference),
            joint: HonestJointPathConfig::default_for_production(),
            surface: HonestOptimizationSurfaceConfig::default_for_production(),
            adaptive: HonestOptimizationSurfaceAdaptiveConfig::default_for_production(),
        }
    }
}

/// Which directions the workflow's region covers.
#[derive(Clone, Debug, PartialEq, Eq)]
pub enum HonestWorkflowDirectionMode {
    /// Each post period.
    Basis,
    /// Given directions.
    Custom(Vec<Vec<Real>>),
    /// The directions of a surface.
    OptimizationSurface(HonestOptimizationSurfaceConfig),
    /// The directions of an enriched surface.
    OptimizationSurfaceAdaptive {
        /// Which directions the surface is approximated by.
        surface: HonestOptimizationSurfaceConfig,
        /// How the surface is enriched.
        adaptive: HonestOptimizationSurfaceAdaptiveConfig,
    },
}

impl HonestWorkflowDirectionMode {
    /// The default mode.
    pub fn default_for_production() -> (mode: Self)
        ensures
            mode == (HonestWorkflowDirectionMode::OptimizationSurfaceAdaptive {
                surface: HonestOptimizationSurfaceConfig {
                    include_basis: true,
                    include_pairwise_contrasts: true,
                    random_unit_directions: 250,
                    random_seed: 1729,
                },
                adaptive: HonestOptimizationSurfaceAdaptiveConfig {
                    random_batch_size: 100,
                    min_random_for_convergence: 250,
                    pointwise_tolerance: Real { bits: DEFAULT_TOLERANCE_BITS },
                    max_iterations: 6,
                },
            }),
    {
        HonestWorkflowDirectionMode::OptimizationSurfaceAdaptive {
            surface: HonestOptimizationSurfaceConfig::default_for_production(),
            adaptive: HonestOptimizationSurfaceAdaptiveConfig::default_for_production(),
        }
    }
}

/// Settings of the workflow.
#[derive(Clone, Debug, PartialEq, Eq)]
pub struct HonestWorkflowConfig {
    /// Settings of relative-magnitude confidence sets.
    pub relative_magnitude: RelativeMagnitudeConfidenceSetConfig,
    /// Settings of joint calibration.
    pub joint: HonestJointPathConfig,
    /// Which directions the region covers.
    pub direction_mode: HonestWorkflowDirectionMode,
}

impl HonestWorkflowConfig {
    /// The default settings for a confidence level.
    pub fn from_inference(inference: InferenceConfig) -> (config: Self)
        ensures
            config.relative_magnitude == RelativeMagnitudeConfidenceSetConfig::from_inference_spec(
                inference,
            ),
            config.joint == (HonestJointPathConfig {
                method: HonestJointPathMethod::GaussianSimulated,
                simulation_draws: 20_000,
                simulation_seed: 42,
            }),
            config.direction_mode == (HonestWorkflowDirectionMode::OptimizationSurfaceAdaptive {
                surface: HonestOptimizationSurfaceConfig {
                    include_basis: true,
                    include_pairwise_contrasts: true,
                    random_unit_directions: 250,
                    random_seed: 1729,
                },
                adaptive: HonestOptimizationSurfaceAdaptiveConfig {
                    random_batch_size: 100,
                    min_random_for_convergence: 250,
                    pointwise_tolerance: Real { bits: DEFAULT_TOLERANCE_BITS },
                    max_iterations: 6,
                },
            }),
    {
        HonestWorkflowConfig {
            relative_magnitude: RelativeMagnitudeConfidenceSetConfig::from_inference(inference),
            joint: HonestJointPathConfig::default_for_production(),
            direction_mode: HonestWorkflowDirectionMode::default_for_production(),
        }
    }
}

/// A linear functional of the post-treatment coefficients.
#[derive(Clone, Debug, PartialEq, Eq)]
pub enum HonestPostFunctional {
    /// One post period.
    Period(i32),
    /// The average over a window of post periods, ends included.
    AverageWindow {
        /// First label of the window.
        start_period: i32,
        /// Last label of the window.
        end_period: i32,
    },
    /// Given weights on named post periods.
    Weighted(Vec<(i32, Real)>),
}

/// Assessment of one functional of the workflow.
#[derive(Clone, Debug, PartialEq, Eq)]
pub struct HonestFunctionalAssessmentPoint {
    /// The functional.
    pub functional: HonestPostFunctional,
    /// Its assessment.
    pub assessment: HonestAssessment,
}

/// Result of the workflow.
#[derive(Clone, Debug, PartialEq, Eq)]
pub struct HonestStudyWorkflowResult {
    /// Assessments of the requested functionals.
    pub functional_assessments: Vec<HonestFunctionalAssessmentPoint>,
    /// Joint region of the post-treatment path.
    pub joint_path_region: HonestJointPathRegion,
    /// Directional region.
    pub directional_region: HonestDirectionalRegion,
    /// Simultaneous intervals of the functionals.
    pub multi_flci: Option<HonestMultiFlciResult>,
}

/// An interval does not exclude exactly the values from its lower to its upper end.
pub proof fn an_interval_keeps_what_lies_within(interval: (Real, Real), value: Real)
    requires
        !interval.0.nan(),
        !interval.1.nan(),
        !value.nan(),
    ensures
        !excludes(interval, value) <==> interval.0.le(value) && value.le(interval.1),
{
}

} // verus!
