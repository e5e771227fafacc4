//! Summaries of sensitivity over a grid of bounds.

use crate::assessment;
use crate::branches::RelativeMagnitudeFamily;
use crate::calibration::Levels;
use crate::constraints;
use crate::constraints::{build_smoothness_constraint_matrix, Coefficient};
use crate::errors::HonestError;
use crate::exact;
use crate::functional_sets;
use crate::functional_sets::FunctionalSets;
use crate::input;
use crate::input::{basis_post_weights, position_of, validate_post_weights, HonestEventStudyInput};
use crate::matrix;
use crate::matrix::{copy_row, post_covariance_block};
use crate::multi_intervals;
use crate::multi_intervals::build_smoothness_flci_problem;
use crate::number::Real;
use crate::paths;
use crate::smoothness::SmoothnessFamily;
use crate::smoothness_intervals::{
    SmoothnessFlciConfig, SmoothnessFlciProblem, SmoothnessFlciResult,
};
use crate::types::{
    HonestBiasDirection, HonestConditionalConfidenceSet, HonestIdentifiedSet,
    HonestMonotonicityDirection, HonestOriginalConfidenceSet, HonestRelativeMagnitudeBound,
    InferenceConfig, RelativeMagnitudeConfidenceSetConfig, RelativeMagnitudeHybrid,
    SmoothnessConfidenceSetConfig, SmoothnessHybrid,
};
use vstd::prelude::*;

verus! {

/// The bits of `0.05`, the size at which the default grid ends.
pub const GRID_ALPHA_BITS: u64 = 0x3fa999999999999a;

/// The bits of `2`, where the default grid of relative magnitudes ends.
pub const GRID_MAGNITUDE_BITS: u64 = 0x4000_0000_0000_0000;

/// Number of bounds of a default grid.
pub const GRID_BOUNDS: usize = 10;

// ---------------------------------------------------------------------------
// Methods, labels and rows
// ---------------------------------------------------------------------------

/// How an interval of a summary is found.
#[derive(Clone, Copy, Debug, PartialEq, Eq, Structural)]
pub enum SensitivitySummaryMethod {
    /// Fixed-length interval.
    Flci,
    /// Conditional test.
    Conditional,
    /// Conditional test after a fixed-length interval.
    ConditionalFlci,
    /// Conditional test after a least-favorable test.
    ConditionalLeastFavorable,
}

impl SensitivitySummaryMethod {
    /// What the method is called.
    pub open spec fn label_spec(self) -> &'static str {
        match self {
            SensitivitySummaryMethod::Flci => "FLCI",
            SensitivitySummaryMethod::Conditional => "Conditional",
            SensitivitySummaryMethod::ConditionalFlci => "C-F",
            SensitivitySummaryMethod::ConditionalLeastFavorable => "C-LF",
        }
    }

    /// What the method is called.
    pub fn label(self) -> (label: &'static str)
        ensures
            label == self.label_spec(),
    {
        match self {
            SensitivitySummaryMethod::Flci => "FLCI",
            SensitivitySummaryMethod::Conditional => "Conditional",
            SensitivitySummaryMethod::ConditionalFlci => "C-F",
            SensitivitySummaryMethod::ConditionalLeastFavorable => "C-LF",
        }
    }
}

/// One interval of a summary.
#[derive(Clone, Copy, Debug, PartialEq, Eq)]
pub struct SensitivitySummaryRow {
    /// Lower end.
    pub lb: Real,
    /// Upper end.
    pub ub: Real,
    /// How the interval was found.
    pub method: SensitivitySummaryMethod,
    /// Name of the restriction.
    pub delta: &'static str,
    /// Name of the bound.
    pub sensitivity_name: &'static str,
    /// The bound.
    pub sensitivity_value: Real,
}

/// Intervals over a grid of bounds.
#[derive(Clone, Debug, PartialEq, Eq)]
pub struct SensitivitySummary {
    /// Intervals in the order of the grid.
    pub rows: Vec<SensitivitySummaryRow>,
}

/// Kinds of restriction.
#[derive(Clone, Copy, Debug, PartialEq, Eq, Structural)]
pub enum SensitivityRestrictionKind {
    /// Changes of slope are bounded.
    Smoothness,
    /// Violations are bounded by those before treatment.
    RelativeMagnitude,
}

/// Summary of one post period.
#[derive(Clone, Debug, PartialEq, Eq)]
pub struct PostPeriodSensitivitySummary {
    /// Robust intervals.
    pub robust_ci: SensitivitySummary,
    /// Confidence set under parallel trends.
    pub orig_ci: HonestOriginalConfidenceSet,
    /// Kind of restriction.
    pub sensitivity_type: SensitivityRestrictionKind,
    /// Label of the post period.
    pub post_period: i32,
}

/// The name of a smoothness restriction, or an error where both kinds of
/// further restriction are asked for.
pub open spec fn smoothness_label(
    bias: Option<HonestBiasDirection>,
    monotonicity: Option<HonestMonotonicityDirection>,
) -> Result<&'static str, HonestError> {
    match (bias, monotonicity) {
        (Some(_), Some(_)) => Err(HonestError::RestrictionsExclude { wrapper: "smoothness" }),
        (None, None) => Ok("DeltaSD"),
        (Some(HonestBiasDirection::Positive), None) => Ok("DeltaSDPB"),
        (Some(HonestBiasDirection::Negative), None) => Ok("DeltaSDNB"),
        (None, Some(HonestMonotonicityDirection::Increasing)) => Ok("DeltaSDI"),
        (None, Some(HonestMonotonicityDirection::Decreasing)) => Ok("DeltaSDD"),
    }
}

/// The name of a smoothness restriction.
pub fn smoothness_variant_label(
    bias_direction: Option<HonestBiasDirection>,
    monotonicity_direction: Option<HonestMonotonicityDirection>,
) -> (label: Result<&'static str, HonestError>)
    ensures
        label == smoothness_label(bias_direction, monotonicity_direction),
{
    match (bias_direction, monotonicity_direction) {
        (Some(_), Some(_)) => Err(HonestError::RestrictionsExclude { wrapper: "smoothness" }),
        (None, None) => Ok("DeltaSD"),
        (Some(HonestBiasDirection::Positive), None) => Ok("DeltaSDPB"),
        (Some(HonestBiasDirection::Negative), None) => Ok("DeltaSDNB"),
        (None, Some(HonestMonotonicityDirection::Increasing)) => Ok("DeltaSDI"),
        (None, Some(HonestMonotonicityDirection::Decreasing)) => Ok("DeltaSDD"),
    }
}

/// The method where none is asked for: fixed-length intervals, or conditional
/// tests after them under a further restriction.
pub open spec fn smoothness_method(
    bias: Option<HonestBiasDirection>,
    monotonicity: Option<HonestMonotonicityDirection>,
) -> SensitivitySummaryMethod {
    if bias is Some || monotonicity is Some {
        SensitivitySummaryMethod::ConditionalFlci
    } else {
        SensitivitySummaryMethod::Flci
    }
}

/// The method where none is asked for.
pub fn default_smoothness_method(
    bias_direction: Option<HonestBiasDirection>,
    monotonicity_direction: Option<HonestMonotonicityDirection>,
) -> (method: SensitivitySummaryMethod)
    ensures
        method == smoothness_method(bias_direction, monotonicity_direction),
{
    if bias_direction.is_some() || monotonicity_direction.is_some() {
        SensitivitySummaryMethod::ConditionalFlci
    } else {
        SensitivitySummaryMethod::Flci
    }
}

/// The relative-magnitude restriction that options ask for.
#[derive(Clone, Copy, Debug, PartialEq, Eq, Structural)]
pub enum RelativeMagnitudeApiVariant {
    /// Bound on deviations from parallel trends.
    Base,
    /// The same with signed violations.
    SignedBase(HonestBiasDirection),
    /// The same with monotone violations.
    MonotoneBase(HonestMonotonicityDirection),
    /// Bound on deviations from a linear trend.
    Linear,
    /// The same with signed violations.
    SignedLinear(HonestBiasDirection),
    /// The same with monotone violations.
    MonotoneLinear(HonestMonotonicityDirection),
}

impl RelativeMagnitudeApiVariant {
    /// The restriction that options ask for, or an error where both kinds of
    /// further restriction are asked for.
    pub open spec fn of_options(
        bound: HonestRelativeMagnitudeBound,
        bias: Option<HonestBiasDirection>,
        monotonicity: Option<HonestMonotonicityDirection>,
    ) -> Result<RelativeMagnitudeApiVariant, HonestError> {
        let linear = bound is LinearTrendDeviation;
        match (bias, monotonicity) {
            (Some(_), Some(_)) => Err(
                HonestError::RestrictionsExclude { wrapper: "relative-magnitude" },
            ),
            (None, None) => Ok(
                if linear {
                    RelativeMagnitudeApiVariant::Linear
                } else {
                    RelativeMagnitudeApiVariant::Base
                },
            ),
            (Some(direction), None) => Ok(
                if linear {
                    RelativeMagnitudeApiVariant::SignedLinear(direction)
                } else {
                    RelativeMagnitudeApiVariant::SignedBase(direction)
                },
            ),
            (None, Some(direction)) => Ok(
                if linear {
                    RelativeMagnitudeApiVariant::MonotoneLinear(direction)
                } else {
                    RelativeMagnitudeApiVariant::MonotoneBase(direction)
                },
            ),
        }
    }

    /// The restriction that options ask for.
    pub fn from_wrapper_options(
        bound: HonestRelativeMagnitudeBound,
        bias_direction: Option<HonestBiasDirection>,
        monotonicity_direction: Option<HonestMonotonicityDirection>,
    ) -> (variant: Result<Self, HonestError>)
        ensures
            variant == Self::of_options(bound, bias_direction, monotonicity_direction),
    {
        match (bound, bias_direction, monotonicity_direction) {
            (_, Some(_), Some(_)) => Err(
                HonestError::RestrictionsExclude { wrapper: "relative-magnitude" },
            ),
            (HonestRelativeMagnitudeBound::ParallelTrendsDeviation, None, None) => Ok(
                RelativeMagnitudeApiVariant::Base,
            ),
            (HonestRelativeMagnitudeBound::ParallelTrendsDeviation, Some(direction), None) => Ok(
                RelativeMagnitudeApiVariant::SignedBase(direction),
            ),
            (HonestRelativeMagnitudeBound::ParallelTrendsDeviation, None, Some(direction)) => Ok(
                RelativeMagnitudeApiVariant::MonotoneBase(direction),
            ),
            (HonestRelativeMagnitudeBound::LinearTrendDeviation, None, None) => Ok(
                RelativeMagnitudeApiVariant::Linear,
            ),
            (HonestRelativeMagnitudeBound::LinearTrendDeviation, Some(direction), None) => Ok(
                RelativeMagnitudeApiVariant::SignedLinear(direction),
            ),
            (HonestRelativeMagnitudeBound::LinearTrendDeviation, None, Some(direction)) => Ok(
                RelativeMagnitudeApiVariant::MonotoneLinear(direction),
            ),
        }
    }

    /// What the restriction is called.
    pub open spec fn label_spec(self) -> &'static str {
        match self {
            RelativeMagnitudeApiVariant::Base => "DeltaRM",
            RelativeMagnitudeApiVariant::SignedBase(HonestBiasDirection::Positive) => "DeltaRMPB",
            RelativeMagnitudeApiVariant::SignedBase(HonestBiasDirection::Negative) => "DeltaRMNB",
            RelativeMagnitudeApiVariant::MonotoneBase(HonestMonotonicityDirection::Increasing) =>
            "DeltaRMI",
            RelativeMagnitudeApiVariant::MonotoneBase(HonestMonotonicityDirection::Decreasing) =>
            "DeltaRMD",
            RelativeMagnitudeApiVariant::Linear => "DeltaSDRM",
            RelativeMagnitudeApiVariant::SignedLinear(HonestBiasDirection::Positive) =>
            "DeltaSDRMPB",
            RelativeMagnitudeApiVariant::SignedLinear(HonestBiasDirection::Negative) =>
            "DeltaSDRMNB",
            RelativeMagnitudeApiVariant::MonotoneLinear(HonestMonotonicityDirection::Increasing) =>
            "DeltaSDRMI",
            RelativeMagnitudeApiVariant::MonotoneLinear(HonestMonotonicityDirection::Decreasing) =>
            "DeltaSDRMD",
        }
    }

    /// What the restriction is called.
    pub fn label(self) -> (label: &'static str)
        ensures
            label == self.label_spec(),
    {
        match self {
            RelativeMagnitudeApiVariant::Base => "DeltaRM",
            RelativeMagnitudeApiVariant::SignedBase(HonestBiasDirection::Positive) => "DeltaRMPB",
            RelativeMagnitudeApiVariant::SignedBase(HonestBiasDirection::Negative) => "DeltaRMNB",
            RelativeMagnitudeApiVariant::MonotoneBase(HonestMonotonicityDirection::Increasing) => {
                "DeltaRMI"
            },
            RelativeMagnitudeApiVariant::MonotoneBase(HonestMonotonicityDirection::Decreasing) => {
                "DeltaRMD"
            },
            RelativeMagnitudeApiVariant::Linear => "DeltaSDRM",
            RelativeMagnitudeApiVariant::SignedLinear(HonestBiasDirection::Positive) => {
                "DeltaSDRMPB"
            },
            RelativeMagnitudeApiVariant::SignedLinear(HonestBiasDirection::Negative) => {
                "DeltaSDRMNB"
            },
            RelativeMagnitudeApiVariant::MonotoneLinear(HonestMonotonicityDirection::Increasing) => {
                "DeltaSDRMI"
            },
            RelativeMagnitudeApiVariant::MonotoneLinear(HonestMonotonicityDirection::Decreasing) => {
                "DeltaSDRMD"
            },
        }
    }

    /// The restriction itself.
    pub open spec fn family_spec(self) -> RelativeMagnitudeFamily {
        match self {
            RelativeMagnitudeApiVariant::Base => RelativeMagnitudeFamily::Base,
            RelativeMagnitudeApiVariant::SignedBase(direction) => {
                RelativeMagnitudeFamily::SignedBase(direction)
            },
            RelativeMagnitudeApiVariant::MonotoneBase(direction) => {
                RelativeMagnitudeFamily::MonotoneBase(direction)
            },
            RelativeMagnitudeApiVariant::Linear => RelativeMagnitudeFamily::Linear,
            RelativeMagnitudeApiVariant::SignedLinear(direction) => {
                RelativeMagnitudeFamily::SignedLinear(direction)
            },
            RelativeMagnitudeApiVariant::MonotoneLinear(direction) => {
                RelativeMagnitudeFamily::MonotoneLinear(direction)
            },
        }
    }

    /// The restriction itself.
    pub fn family(self) -> (family: RelativeMagnitudeFamily)
        ensures
            family == self.family_spec(),
    {
        match self {
            RelativeMagnitudeApiVariant::Base => RelativeMagnitudeFamily::Base,
            RelativeMagnitudeApiVariant::SignedBase(direction) => {
                RelativeMagnitudeFamily::SignedBase(direction)
            },
            RelativeMagnitudeApiVariant::MonotoneBase(direction) => {
                RelativeMagnitudeFamily::MonotoneBase(direction)
            },
            RelativeMagnitudeApiVariant::Linear => RelativeMagnitudeFamily::Linear,
            RelativeMagnitudeApiVariant::SignedLinear(direction) => {
                RelativeMagnitudeFamily::SignedLinear(direction)
            },
            RelativeMagnitudeApiVariant::MonotoneLinear(direction) => {
                RelativeMagnitudeFamily::MonotoneLinear(direction)
            },
        }
    }

    /// The identified set of a functional under the restriction.
    pub fn compute_identified_set<E: FunctionalSets>(
        self,
        data: &HonestEventStudyInput,
        post_weights: &Vec<Real>,
        mbar: Real,
        sets: &E,
    ) -> (set: Result<HonestIdentifiedSet, HonestError>)
        requires
            functional_sets::countable(*data),
            sets.ready(*data),
        ensures
            sets.is_magnitude_identified(self.family_spec(), *data, post_weights@, mbar, set),
    {
        sets.magnitude_identified(self.family(), data, post_weights, mbar)
    }

    /// The confidence set of a functional under the restriction.
    pub fn compute_conditional_cs<E: FunctionalSets>(
        self,
        data: &HonestEventStudyInput,
        post_weights: &Vec<Real>,
        mbar: Real,
        inference: InferenceConfig,
        config: RelativeMagnitudeConfidenceSetConfig,
        sets: &E,
    ) -> (set: Result<HonestConditionalConfidenceSet, HonestError>)
        requires
            functional_sets::countable(*data),
            sets.ready(*data),
        ensures
            sets.is_magnitude_confidence(
                self.family_spec(),
                *data,
                post_weights@,
                mbar,
                inference,
                config,
                set,
            ),
    {
        sets.magnitude_confidence(self.family(), data, post_weights, mbar, inference, config)
    }
}

/// Different restrictions have different names.
pub proof fn labels_tell_restrictions_apart(
    left: RelativeMagnitudeApiVariant,
    right: RelativeMagnitudeApiVariant,
)
    requires
        left.label_spec()@ == right.label_spec()@,
    ensures
        left == right,
{
    reveal_strlit("DeltaRM");
    reveal_strlit("DeltaRMPB");
    reveal_strlit("DeltaRMNB");
    reveal_strlit("DeltaRMI");
    reveal_strlit("DeltaRMD");
    reveal_strlit("DeltaSDRM");
    reveal_strlit("DeltaSDRMPB");
    reveal_strlit("DeltaSDRMNB");
    reveal_strlit("DeltaSDRMI");
    reveal_strlit("DeltaSDRMD");
    let a = left.label_spec()@;
    let b = right.label_spec()@;
    assert(a.len() == b.len());
    assert(a[5] == b[5]);
    assert(a[a.len() - 1] == b[b.len() - 1]);
    assert(a[a.len() - 2] == b[b.len() - 2]);
}

/// Whether an interval and its bound make up a row.
pub open spec fn row_of(
    ends: (Real, Real),
    method: SensitivitySummaryMethod,
    delta: &'static str,
    name: &'static str,
    value: Real,
) -> SensitivitySummaryRow {
    SensitivitySummaryRow {
        lb: ends.0,
        ub: ends.1,
        method,
        delta,
        sensitivity_name: name,
        sensitivity_value: value,
    }
}

/// The row of a confidence set.
pub fn collect_interval(
    conditional: &HonestConditionalConfidenceSet,
    method: SensitivitySummaryMethod,
    delta: &'static str,
    sensitivity_name: &'static str,
    sensitivity_value: Real,
) -> (row: SensitivitySummaryRow)
    ensures
        row == row_of(
            (conditional.lb, conditional.ub),
            method,
            delta,
            sensitivity_name,
            sensitivity_value,
        ),
{
    SensitivitySummaryRow {
        lb: conditional.lb,
        ub: conditional.ub,
        method,
        delta,
        sensitivity_name,
        sensitivity_value,
    }
}

// ---------------------------------------------------------------------------
// Checks
// ---------------------------------------------------------------------------

/// What is wrong with a request, if anything: the input, the level or the
/// weights.
pub open spec fn request_fault(
    data: HonestEventStudyInput,
    weights: Seq<Real>,
    inference: InferenceConfig,
    valid: bool,
) -> Option<HonestError> {
    match data.fault() {
        Some(error) => Some(error),
        None => if !valid {
            Some(HonestError::InvalidConfidenceLevel { level: inference.confidence_level })
        } else {
            input::weights_fault(weights, data.post_periods@.len() as int, true)
        },
    }
}

/// Whether `fault` is what is wrong with a request.
pub open spec fn is_request_fault<L: Levels>(
    levels: L,
    data: HonestEventStudyInput,
    weights: Seq<Real>,
    inference: InferenceConfig,
    fault: Option<HonestError>,
) -> bool {
    exists|valid: bool| #[trigger]
        levels.is_valid(inference.confidence_level, valid) && fault == request_fault(
            data,
            weights,
            inference,
            valid,
        )
}

/// The fault behind a check.
pub open spec fn fault_of(checked: Result<(), HonestError>) -> Option<HonestError> {
    match checked {
        Ok(()) => None,
        Err(error) => Some(error),
    }
}

/// Checks a request.
pub fn validate_api_inputs<L: Levels>(
    data: &HonestEventStudyInput,
    post_weights: &Vec<Real>,
    inference: InferenceConfig,
    levels: &L,
) -> (checked: Result<(), HonestError>)
    requires
        data.total() <= usize::MAX,
        levels.ready(),
    ensures
        is_request_fault(*levels, *data, post_weights@, inference, fault_of(checked)),
        checked is Ok ==> data.fault() is None && post_weights@.len() == data.post_periods@.len()
            && post_weights@.len() > 0,
{
    let valid = levels.valid(inference.confidence_level);
    assert(levels.is_valid(inference.confidence_level, valid));
    match data.validate() {
        Err(error) => {
            return Err(error);
        },
        Ok(()) => {},
    }
    if !valid {
        return Err(HonestError::InvalidConfidenceLevel { level: inference.confidence_level });
    }
    let checked = validate_post_weights(data, post_weights.as_slice(), true);
    proof {
        if checked is Ok {
            assert(!input::all_negligible(post_weights@));
        }
    }
    checked
}

// ---------------------------------------------------------------------------
// Default grids
// ---------------------------------------------------------------------------

/// The arithmetic of default grids.
pub trait GridNumbers {
    /// Whether the arithmetic takes whatever may be asked of it.
    spec fn ready(&self) -> bool;

    /// Whether `products` are the products of rows with coefficients.
    spec fn is_products(
        &self,
        rows: Seq<Seq<Coefficient>>,
        coefficients: Seq<Real>,
        products: Seq<Real>,
    ) -> bool;

    /// Whether `deviations` are the standard deviations of such products.
    spec fn is_deviations(
        &self,
        rows: Seq<Seq<Coefficient>>,
        covariance: Seq<Seq<Real>>,
        deviations: Seq<Real>,
    ) -> bool;

    /// Whether `quantile` is the upper quantile of the normal distribution.
    spec fn is_quantile(&self, alpha: Real, quantile: Result<Real, String>) -> bool;

    /// Whether `limit` is a product plus a quantile times a deviation.
    spec fn is_limit(&self, product: Real, quantile: Real, deviation: Real, limit: Real) -> bool;

    /// Whether `root` is the square root of a number.
    spec fn is_root(&self, value: Real, root: Real) -> bool;

    /// Whether `grid` holds evenly spaced numbers.
    spec fn is_grid(&self, lower: Real, upper: Real, count: usize, grid: Seq<Real>) -> bool;

    /// The products of rows with coefficients.
    fn products(&self, rows: &Vec<Vec<Coefficient>>, coefficients: &Vec<Real>) -> (products: Vec<
        Real,
    >)
        requires
            self.ready(),
            matrix::has_cols(rows@, coefficients@.len() as int),
        ensures
            self.is_products(matrix::rows_of(rows@), coefficients@, products@),
    ;

    /// The standard deviations of such products.
    fn deviations(&self, rows: &Vec<Vec<Coefficient>>, covariance: &Vec<Vec<Real>>) -> (deviations:
        Vec<Real>)
        requires
            self.ready(),
            matrix::has_cols(rows@, covariance@.len() as int),
            matrix::has_cols(covariance@, covariance@.len() as int),
        ensures
            self.is_deviations(
                matrix::rows_of(rows@),
                matrix::rows_of(covariance@),
                deviations@,
            ),
    ;

    /// The upper quantile of the normal distribution.
    fn quantile(&self, alpha: Real) -> (quantile: Result<Real, String>)
        requires
            self.ready(),
            Real::zero_spec().lt(alpha),
            alpha.lt(Real::one_spec()),
        ensures
            self.is_quantile(alpha, quantile),
    ;

    /// A product plus a quantile times a deviation.
    fn limit(&self, product: Real, quantile: Real, deviation: Real) -> (limit: Real)
        requires
            self.ready(),
        ensures
            self.is_limit(product, quantile, deviation, limit),
    ;

    /// The square root of a number.
    fn root(&self, value: Real) -> (root: Real)
        requires
            self.ready(),
        ensures
            self.is_root(value, root),
    ;

    /// Evenly spaced numbers.
    fn grid(&self, lower: Real, upper: Real, count: usize) -> (grid: Vec<Real>)
        requires
            self.ready(),
        ensures
            self.is_grid(lower, upper, count, grid@),
            grid.len() == count,
    ;
}

/// The arithmetic of [`GridNumbers`].
pub struct GridArithmetic<GP, GD, GQ, GL, GR, GG> {
    /// Products of rows with coefficients.
    pub multiply: GP,
    /// Standard deviations of such products.
    pub deviate: GD,
    /// Upper quantile of the normal distribution.
    pub invert: GQ,
    /// Product plus quantile times deviation.
    pub extend: GL,
    /// Square root.
    pub extract: GR,
    /// Evenly spaced numbers.
    pub space: GG,
}

impl<
    GP: Fn(&Vec<Vec<Coefficient>>, &Vec<Real>) -> Vec<Real>,
    GD: Fn(&Vec<Vec<Coefficient>>, &Vec<Vec<Real>>) -> Vec<Real>,
    GQ: Fn(Real) -> Result<Real, String>,
    GL: Fn(Real, Real, Real) -> Real,
    GR: Fn(Real) -> Real,
    GG: Fn(Real, Real, usize) -> Vec<Real>,
> GridNumbers for GridArithmetic<GP, GD, GQ, GL, GR, GG> {
    open spec fn ready(&self) -> bool {
        &&& forall|m: Vec<Vec<Coefficient>>, v: Vec<Real>|
            matrix::has_cols(m@, v@.len() as int) ==> #[trigger] call_requires(
                self.multiply,
                (&m, &v),
            )
        &&& forall|m: Vec<Vec<Coefficient>>, c: Vec<Vec<Real>>|
            matrix::has_cols(m@, c@.len() as int) && matrix::has_cols(c@, c@.len() as int)
                ==> #[trigger] call_requires(self.deviate, (&m, &c))
        &&& forall|a: Real|
            Real::zero_spec().lt(a) && a.lt(Real::one_spec()) ==> #[trigger] call_requires(
                self.invert,
                (a,),
            )
        &&& forall|a: Real, b: Real, c: Real| #[trigger] call_requires(self.extend, (a, b, c))
        &&& forall|a: Real| #[trigger] call_requires(self.extract, (a,))
        &&& forall|a: Real, b: Real, n: usize| #[trigger] call_requires(self.space, (a, b, n))
        &&& forall|a: Real, b: Real, n: usize, g: Vec<Real>| #[trigger]
            call_ensures(self.space, (a, b, n), g) ==> g.len() == n
    }

    open spec fn is_products(
        &self,
        rows: Seq<Seq<Coefficient>>,
        coefficients: Seq<Real>,
        products: Seq<Real>,
    ) -> bool {
        exists|m: Vec<Vec<Coefficient>>, v: Vec<Real>, found: Vec<Real>|
            matrix::rows_of(m@) == rows && v@ == coefficients && found@ == products
                && #[trigger] call_ensures(self.multiply, (&m, &v), found)
    }

    open spec fn is_deviations(
        &self,
        rows: Seq<Seq<Coefficient>>,
        covariance: Seq<Seq<Real>>,
        deviations: Seq<Real>,
    ) -> bool {
        exists|m: Vec<Vec<Coefficient>>, c: Vec<Vec<Real>>, found: Vec<Real>|
            matrix::rows_of(m@) == rows && matrix::rows_of(c@) == covariance && found@ == deviations
                && #[trigger] call_ensures(self.deviate, (&m, &c), found)
    }

    open spec fn is_quantile(&self, alpha: Real, quantile: Result<Real, String>) -> bool {
        call_ensures(self.invert, (alpha,), quantile)
    }

    open spec fn is_limit(
        &self,
        product: Real,
        quantile: Real,
        deviation: Real,
        limit: Real,
    ) -> bool {
        call_ensures(self.extend, (product, quantile, deviation), limit)
    }

    open spec fn is_root(&self, value: Real, root: Real) -> bool {
        call_ensures(self.extract, (value,), root)
    }

    open spec fn is_grid(&self, lower: Real, upper: Real, count: usize, grid: Seq<Real>) -> bool {
        exists|found: Vec<Real>|
            found@ == grid && #[trigger] call_ensures(self.space, (lower, upper, count), found)
    }

    fn products(&self, rows: &Vec<Vec<Coefficient>>, coefficients: &Vec<Real>) -> (products: Vec<
        Real,
    >) {
        (self.multiply)(rows, coefficients)
    }

    fn deviations(&self, rows: &Vec<Vec<Coefficient>>, covariance: &Vec<Vec<Real>>) -> (deviations:
        Vec<Real>) {
        (self.deviate)(rows, covariance)
    }

    fn quantile(&self, alpha: Real) -> (quantile: Result<Real, String>) {
        (self.invert)(alpha)
    }

    fn limit(&self, product: Real, quantile: Real, deviation: Real) -> (limit: Real) {
        (self.extend)(product, quantile, deviation)
    }

    fn root(&self, value: Real) -> (root: Real) {
        (self.extract)(value)
    }

    fn grid(&self, lower: Real, upper: Real, count: usize) -> (grid: Vec<Real>) {
        (self.space)(lower, upper, count)
    }
}

/// The smoothness constraints on the pre periods alone.
pub open spec fn pre_constraints(num_pre: int) -> Seq<Seq<Coefficient>> {
    Seq::new(
        (2 * constraints::smoothness_row_count(num_pre, 0, false)) as nat,
        |i: int|
            Seq::new(
                num_pre as nat,
                |j: int| constraints::smoothness_entry(num_pre, 0, false, i, j),
            ),
    )
}

/// The covariances of the pre periods.
pub open spec fn pre_block(data: HonestEventStudyInput) -> Seq<Seq<Real>> {
    let pre = data.pre_periods@.len();
    Seq::new(pre, |i: int| Seq::new(pre, |j: int| data.covariance@[i]@[j]))
}

/// The largest of zero and the first `end` numbers.
pub open spec fn largest(values: Seq<Real>, end: int) -> Real
    decreases end,
{
    if end <= 0 {
        Real::zero_spec()
    } else {
        largest(values, end - 1).max_spec(values[end - 1])
    }
}

/// What an upper bound rested on.
pub struct UpperRun {
    /// Second differences of the pre-treatment coefficients.
    pub products: Seq<Real>,
    /// Their standard deviations.
    pub deviations: Seq<Real>,
    /// The quantile.
    pub quantile: Result<Real, String>,
    /// Upper limits of the differences.
    pub limits: Seq<Real>,
}

impl UpperRun {
    /// Whether `out` is the largest upper limit of a pre-treatment second
    /// difference: an error of the input, of the number of pre periods, of the
    /// size or of the quantile, else the largest of zero and the limits.
    pub open spec fn explains<G: GridNumbers>(
        self,
        grids: G,
        data: HonestEventStudyInput,
        alpha: Real,
        out: Result<Real, HonestError>,
    ) -> bool {
        let pre = data.pre_periods@.len() as int;
        if data.fault() is Some {
            out == Err::<Real, HonestError>(data.fault()->Some_0)
        } else if pre <= 1 {
            out == Err::<Real, HonestError>(HonestError::UpperBoundNeedsPrePeriods)
        } else if !Real::zero_spec().lt(alpha) || !alpha.lt(Real::one_spec()) {
            out == Err::<Real, HonestError>(HonestError::AlphaRange { alpha })
        } else {
            &&& grids.is_products(
                pre_constraints(pre),
                data.betahat@.subrange(0, pre),
                self.products,
            )
            &&& grids.is_deviations(pre_constraints(pre), pre_block(data), self.deviations)
            &&& grids.is_quantile(alpha, self.quantile)
            &&& match self.quantile {
                Err(message) => out == Err::<Real, HonestError>(
                    HonestError::Numerical { message },
                ),
                Ok(quantile) => {
                    &&& self.limits.len() == (if self.products.len() < self.deviations.len() {
                        self.products.len()
                    } else {
                        self.deviations.len()
                    })
                    &&& forall|i: int|
                        0 <= i < self.limits.len() ==> grids.is_limit(
                            self.products[i],
                            quantile,
                            self.deviations[i],
                            #[trigger] self.limits[i],
                        )
                    &&& out == Ok::<Real, HonestError>(
                        largest(self.limits, self.limits.len() as int),
                    )
                },
            }
        }
    }
}

/// Whether `out` is the largest upper limit of a pre-treatment second difference.
pub open spec fn is_upper_bound<G: GridNumbers>(
    grids: G,
    data: HonestEventStudyInput,
    alpha: Real,
    out: Result<Real, HonestError>,
) -> bool {
    exists|run: UpperRun| #[trigger] run.explains(grids, data, alpha, out)
}

fn pre_covariances(data: &HonestEventStudyInput) -> (block: Vec<Vec<Real>>)
    requires
        data.shaped(),
    ensures
        matrix::rows_of(block@) == pre_block(*data),
        block.len() == data.pre_periods@.len(),
        matrix::has_cols(block@, data.pre_periods@.len() as int),
{
    let block = post_covariance_block(data.covariance.as_slice(), 0, data.pre_periods.len());
    proof {
        let lines = matrix::rows_of(block@);
        assert forall|i: int| 0 <= i < lines.len() implies lines[i] == pre_block(*data)[i] by {
            assert(block@[i]@.len() == data.pre_periods@.len());
            assert(lines[i] =~= pre_block(*data)[i]);
        }
        assert(lines =~= pre_block(*data));
    }
    block
}

/// The largest upper limit of a pre-treatment second difference, where the
/// default smoothness grid ends.
pub fn estimate_smoothness_upper_bound_from_pretrends<G: GridNumbers>(
    data: &HonestEventStudyInput,
    alpha: Real,
    grids: &G,
) -> (out: Result<Real, HonestError>)
    requires
        functional_sets::countable(*data),
        grids.ready(),
    ensures
        is_upper_bound(*grids, *data, alpha, out),
{
    let ghost mut run: UpperRun = arbitrary();
    match data.validate() {
        Err(error) => {
            assert(run.explains(*grids, *data, alpha, Err(error)));
            return Err(error);
        },
        Ok(()) => {},
    }
    proof {
        input::valid_input_is_shaped(*data);
    }
    let num_pre: usize = data.num_pre_periods();
    if num_pre <= 1 {
        assert(run.explains(*grids, *data, alpha, Err(HonestError::UpperBoundNeedsPrePeriods)));
        return Err(HonestError::UpperBoundNeedsPrePeriods);
    }
    if !Real::zero().less(alpha) || !alpha.less(Real::one()) {
        assert(run.explains(*grids, *data, alpha, Err(HonestError::AlphaRange { alpha })));
        return Err(HonestError::AlphaRange { alpha });
    }
    let rows = build_smoothness_constraint_matrix(num_pre, 0, false);
    proof {
        let lines = matrix::rows_of(rows@);
        let wanted = pre_constraints(num_pre as int);
        assert forall|i: int| 0 <= i < lines.len() implies lines[i] == wanted[i] by {
            assert(rows@[i]@.len() == num_pre);
            assert(lines[i] =~= wanted[i]);
        }
        assert(lines =~= wanted);
    }
    let mut coefficients: Vec<Real> = Vec::new();
    while coefficients.len() < num_pre
        invariant
            coefficients.len() <= num_pre <= data.betahat@.len(),
            forall|i: int|
                0 <= i < coefficients.len() ==> #[trigger] coefficients@[i] == data.betahat@[i],
        decreases num_pre - coefficients.len(),
    {
        let i: usize = coefficients.len();
        coefficients.push(data.betahat[i]);
    }
    assert(coefficients@ =~= data.betahat@.subrange(0, num_pre as int));
    let products = grids.products(&rows, &coefficients);
    let block = pre_covariances(data);
    let deviations = grids.deviations(&rows, &block);
    let quantile = grids.quantile(alpha);
    proof {
        run.products = products@;
        run.deviations = deviations@;
        run.quantile = quantile;
    }
    let quantile = match quantile {
        Err(message) => {
            let out = Err(HonestError::Numerical { message });
            assert(run.explains(*grids, *data, alpha, out));
            return out;
        },
        Ok(quantile) => quantile,
    };
    let count: usize = if products.len() < deviations.len() {
        products.len()
    } else {
        deviations.len()
    };
    let ghost mut limits: Seq<Real> = Seq::empty();
    let mut bound = Real::zero();
    let mut i: usize = 0;
    while i < count
        invariant
            i <= count,
            count <= products.len(),
            count <= deviations.len(),
            grids.ready(),
            limits.len() == i,
            forall|k: int|
                0 <= k < i ==> grids.is_limit(
                    products@[k],
                    quantile,
                    deviations@[k],
                    #[trigger] limits[k],
                ),
            bound == largest(limits, i as int),
        decreases count - i,
    {
        let limit = grids.limit(products[i], quantile, deviations[i]);
        let ghost before = limits;
        proof {
            limits = before.push(limit);
            largest_is_kept(before, limit, i as int);
        }
        bound = bound.max(limit);
        i = i + 1;
    }
    proof {
        run.limits = limits;
    }
    let out = Ok(bound);
    assert(run.explains(*grids, *data, alpha, out));
    out
}

proof fn largest_is_kept(values: Seq<Real>, value: Real, end: int)
    requires
        0 <= end <= values.len(),
    ensures
        largest(values.push(value), end) == largest(values, end),
    decreases end,
{
    if end > 0 {
        largest_is_kept(values, value, end - 1);
    }
}

/// The largest of zero and some numbers is at least zero and no NaN.
pub proof fn largest_is_not_negative(values: Seq<Real>, end: int)
    requires
        0 <= end <= values.len(),
    ensures
        Real::zero_spec().le(largest(values, end)),
    decreases end,
{
    if end > 0 {
        largest_is_not_negative(values, end - 1);
    }
}

/// Whether `upper` is where the default smoothness grid ends: the standard error
/// of a single pre period, else the largest upper limit of a second difference.
pub open spec fn is_grid_end<G: GridNumbers>(
    grids: G,
    data: HonestEventStudyInput,
    upper: Result<Real, HonestError>,
) -> bool {
    if data.pre_periods@.len() == 1 {
        upper matches Ok(root) && grids.is_root(
            data.covariance@[0]@[0].max_spec(Real::zero_spec()),
            root,
        )
    } else {
        is_upper_bound(grids, data, Real { bits: GRID_ALPHA_BITS }, upper)
    }
}

/// Whether `out` is the default smoothness grid that ends at `upper`.
pub open spec fn smoothness_grid_by<G: GridNumbers>(
    grids: G,
    data: HonestEventStudyInput,
    upper: Result<Real, HonestError>,
    out: Result<Seq<Real>, HonestError>,
) -> bool {
    if data.pre_periods@.len() == 0 {
        out == Err::<Seq<Real>, HonestError>(HonestError::SummaryNeedsPrePeriod)
    } else {
        &&& is_grid_end(grids, data, upper)
        &&& match upper {
            Err(error) => out == Err::<Seq<Real>, HonestError>(error),
            Ok(end) => out matches Ok(grid) && grid.len() == GRID_BOUNDS && grids.is_grid(
                Real::zero_spec(),
                end.max_spec(Real::zero_spec()),
                GRID_BOUNDS,
                grid,
            ),
        }
    }
}

/// Whether `out` is the default smoothness grid.
pub open spec fn is_smoothness_grid<G: GridNumbers>(
    grids: G,
    data: HonestEventStudyInput,
    out: Result<Seq<Real>, HonestError>,
) -> bool {
    exists|upper: Result<Real, HonestError>| #[trigger] smoothness_grid_by(grids, data, upper, out)
}

/// A grid or an error, as a sequence.
pub open spec fn grid_view(grid: Result<Vec<Real>, HonestError>) -> Result<Seq<Real>, HonestError> {
    match grid {
        Ok(values) => Ok(values@),
        Err(error) => Err(error),
    }
}

/// The default smoothness grid.
pub fn default_smoothness_m_values<G: GridNumbers>(
    data: &HonestEventStudyInput,
    grids: &G,
) -> (out: Result<Vec<Real>, HonestError>)
    requires
        functional_sets::countable(*data),
        data.shaped(),
        grids.ready(),
    ensures
        is_smoothness_grid(*grids, *data, grid_view(out)),
{
    let ghost nothing: Result<Real, HonestError> = arbitrary();
    let num_pre: usize = data.num_pre_periods();
    if num_pre == 0 {
        let out = Err(HonestError::SummaryNeedsPrePeriod);
        assert(smoothness_grid_by(*grids, *data, nothing, grid_view(out)));
        return out;
    }
    let upper = if num_pre == 1 {
        assert(data.covariance@[0]@.len() > 0);
        Ok(grids.root(data.covariance[0][0].max(Real::zero())))
    } else {
        estimate_smoothness_upper_bound_from_pretrends(
            data,
            Real::from_bits(GRID_ALPHA_BITS),
            grids,
        )
    };
    let ghost said = upper;
    let out = match upper {
        Err(error) => Err(error),
        Ok(end) => Ok(grids.grid(Real::zero(), end.max(Real::zero()), GRID_BOUNDS)),
    };
    assert(smoothness_grid_by(*grids, *data, said, grid_view(out)));
    out
}

/// The default grid of relative magnitudes.
pub fn default_relative_magnitude_mbar_values<G: GridNumbers>(grids: &G) -> (grid: Vec<Real>)
    requires
        grids.ready(),
    ensures
        grids.is_grid(
            Real::zero_spec(),
            (Real { bits: GRID_MAGNITUDE_BITS }),
            GRID_BOUNDS,
            grid@,
        ),
        grid.len() == GRID_BOUNDS,
{
    grids.grid(Real::zero(), Real::from_bits(GRID_MAGNITUDE_BITS), GRID_BOUNDS)
}

// ---------------------------------------------------------------------------
// Smoothness
// ---------------------------------------------------------------------------

/// The smoothness restriction with a further one.
pub open spec fn smoothness_family(
    bias: Option<HonestBiasDirection>,
    monotonicity: Option<HonestMonotonicityDirection>,
) -> SmoothnessFamily {
    match bias {
        Some(direction) => SmoothnessFamily::Signed(direction),
        None => match monotonicity {
            Some(direction) => SmoothnessFamily::Monotone(direction),
            None => SmoothnessFamily::Plain,
        },
    }
}

/// The hybrid of a method.
pub open spec fn smoothness_hybrid(method: SensitivitySummaryMethod) -> SmoothnessHybrid {
    match method {
        SensitivitySummaryMethod::Conditional => SmoothnessHybrid::ArpOnly,
        SensitivitySummaryMethod::ConditionalLeastFavorable => SmoothnessHybrid::LeastFavorable,
        _ => SmoothnessHybrid::Flci,
    }
}

/// The settings of a method.
pub open spec fn smoothness_config(
    inference: InferenceConfig,
    method: SensitivitySummaryMethod,
) -> SmoothnessConfidenceSetConfig {
    SmoothnessConfidenceSetConfig {
        hybrid: smoothness_hybrid(method),
        ..SmoothnessConfidenceSetConfig::from_inference_spec(inference)
    }
}

/// Whether a bound is finite and not negative.
pub open spec fn bounds(value: Real) -> bool {
    value.finite() && !value.lt(Real::zero_spec())
}

/// Whether `ends` is the fixed-length interval of a functional.
pub open spec fn fixed_interval_by<E: FunctionalSets>(
    original: Result<HonestOriginalConfidenceSet, HonestError>,
    identified: Result<HonestIdentifiedSet, HonestError>,
    problem: Result<SmoothnessFlciProblem, HonestError>,
    interval: Result<SmoothnessFlciResult, HonestError>,
    sets: E,
    data: HonestEventStudyInput,
    weights: Seq<Real>,
    m: Real,
    inference: InferenceConfig,
    ends: Result<(Real, Real), HonestError>,
) -> bool {
    &&& multi_intervals::is_smoothness_problem(
        original,
        identified,
        sets,
        data,
        weights,
        m,
        inference,
        problem,
    )
    &&& match problem {
        Err(error) => ends == Err::<(Real, Real), HonestError>(error),
        Ok(posed) => {
            &&& sets.is_interval(posed, SmoothnessFlciConfig::default_spec(), interval)
            &&& ends == (match interval {
                Err(error) => Err::<(Real, Real), HonestError>(error),
                Ok(found) => Ok::<(Real, Real), HonestError>(found.flci),
            })
        },
    }
}

/// Whether `ends` is the fixed-length interval of a functional.
pub open spec fn is_fixed_interval<E: FunctionalSets>(
    sets: E,
    data: HonestEventStudyInput,
    weights: Seq<Real>,
    m: Real,
    inference: InferenceConfig,
    ends: Result<(Real, Real), HonestError>,
) -> bool {
    exists|
        original: Result<HonestOriginalConfidenceSet, HonestError>,
        identified: Result<HonestIdentifiedSet, HonestError>,
        problem: Result<SmoothnessFlciProblem, HonestError>,
        interval: Result<SmoothnessFlciResult, HonestError>,
    | #[trigger]
        fixed_interval_by(
            original,
            identified,
            problem,
            interval,
            sets,
            data,
            weights,
            m,
            inference,
            ends,
        )
}

/// Whether `ends` is the conditional confidence set of a functional.
pub open spec fn is_conditional_interval<E: FunctionalSets>(
    sets: E,
    family: SmoothnessFamily,
    data: HonestEventStudyInput,
    weights: Seq<Real>,
    m: Real,
    inference: InferenceConfig,
    method: SensitivitySummaryMethod,
    ends: Result<(Real, Real), HonestError>,
) -> bool {
    exists|set: Result<HonestConditionalConfidenceSet, HonestError>| #[trigger]
        sets.is_smoothness_confidence(
            family,
            data,
            weights,
            m,
            inference,
            smoothness_config(inference, method),
            set,
        ) && ends == multi_intervals::ends_of(set)
}

/// Whether `ends` is the interval of a functional at a bound: an error where the
/// bound is not finite or negative, else the interval of the method.
pub open spec fn is_smoothness_ends<E: FunctionalSets>(
    sets: E,
    family: SmoothnessFamily,
    data: HonestEventStudyInput,
    weights: Seq<Real>,
    m: Real,
    inference: InferenceConfig,
    method: SensitivitySummaryMethod,
    ends: Result<(Real, Real), HonestError>,
) -> bool {
    if !bounds(m) {
        ends == Err::<(Real, Real), HonestError>(
            HonestError::InvalidSmoothnessBound { class: "smoothness sensitivity", bound: m },
        )
    } else if method == SensitivitySummaryMethod::Flci {
        is_fixed_interval(sets, data, weights, m, inference, ends)
    } else {
        is_conditional_interval(sets, family, data, weights, m, inference, method, ends)
    }
}

fn fixed_interval<E: FunctionalSets>(
    data: &HonestEventStudyInput,
    post_weights: &Vec<Real>,
    m: Real,
    inference: InferenceConfig,
    sets: &E,
) -> (ends: Result<(Real, Real), HonestError>)
    requires
        functional_sets::countable(*data),
        data.total() > 0,
        forall|copy: HonestEventStudyInput| copy.same_as(*data) ==> #[trigger] sets.ready(copy),
    ensures
        is_fixed_interval(*sets, *data, post_weights@, m, inference, ends),
{
    assert(data.same_as(*data));
    let ghost nothing: Result<SmoothnessFlciResult, HonestError> = arbitrary();
    let built = build_smoothness_flci_problem(data, post_weights, m, inference, sets);
    let ghost said = built;
    let ghost (original, identified) = choose|
        original: Result<HonestOriginalConfidenceSet, HonestError>,
        identified: Result<HonestIdentifiedSet, HonestError>,
    | #[trigger]
        multi_intervals::is_smoothness_problem(
            original,
            identified,
            *sets,
            *data,
            post_weights@,
            m,
            inference,
            built,
        );
    match built {
        Err(error) => {
            let ends = Err(error);
            assert(fixed_interval_by(
                original,
                identified,
                said,
                nothing,
                *sets,
                *data,
                post_weights@,
                m,
                inference,
                ends,
            ));
            ends
        },
        Ok(problem) => {
            let found = sets.interval(&problem, SmoothnessFlciConfig::default_for_production());
            let ghost interval = found;
            let ends = match found {
                Err(error) => Err(error),
                Ok(result) => Ok(result.flci),
            };
            assert(fixed_interval_by(
                original,
                identified,
                said,
                interval,
                *sets,
                *data,
                post_weights@,
                m,
                inference,
                ends,
            ));
            ends
        },
    }
}

fn smoothness_ends<E: FunctionalSets>(
    data: &HonestEventStudyInput,
    post_weights: &Vec<Real>,
    m: Real,
    inference: InferenceConfig,
    method: SensitivitySummaryMethod,
    bias_direction: Option<HonestBiasDirection>,
    monotonicity_direction: Option<HonestMonotonicityDirection>,
    sets: &E,
) -> (ends: Result<(Real, Real), HonestError>)
    requires
        functional_sets::countable(*data),
        data.total() > 0,
        forall|copy: HonestEventStudyInput| copy.same_as(*data) ==> #[trigger] sets.ready(copy),
    ensures
        is_smoothness_ends(
            *sets,
            smoothness_family(bias_direction, monotonicity_direction),
            *data,
            post_weights@,
            m,
            inference,
            method,
            ends,
        ),
{
    assert(data.same_as(*data));
    if !m.is_finite() || m.less(Real::zero()) {
        return Err(
            HonestError::InvalidSmoothnessBound { class: "smoothness sensitivity", bound: m },
        );
    }
    let mut config = SmoothnessConfidenceSetConfig::from_inference(inference);
    match method {
        SensitivitySummaryMethod::Flci => {
            return fixed_interval(data, post_weights, m, inference, sets);
        },
        SensitivitySummaryMethod::Conditional => {
            config.hybrid = SmoothnessHybrid::ArpOnly;
        },
        SensitivitySummaryMethod::ConditionalFlci => {
            config.hybrid = SmoothnessHybrid::Flci;
        },
        SensitivitySummaryMethod::ConditionalLeastFavorable => {
            config.hybrid = SmoothnessHybrid::LeastFavorable;
        },
    }
    let family = match bias_direction {
        Some(direction) => SmoothnessFamily::Signed(direction),
        None => match monotonicity_direction {
            Some(direction) => SmoothnessFamily::Monotone(direction),
            None => SmoothnessFamily::Plain,
        },
    };
    let found = sets.smoothness_confidence(family, data, post_weights, m, inference, config);
    let ghost set = found;
    assert(sets.is_smoothness_confidence(
        family,
        *data,
        post_weights@,
        m,
        inference,
        config,
        set,
    ));
    match found {
        Err(error) => Err(error),
        Ok(conditional) => Ok((conditional.lb, conditional.ub)),
    }
}

/// What a summary rested on.
pub struct SummaryRun {
    /// What was wrong with the request.
    pub fault: Option<HonestError>,
    /// The grid of bounds.
    pub grid: Result<Seq<Real>, HonestError>,
    /// Intervals in order.
    pub intervals: Seq<Result<(Real, Real), HonestError>>,
}

/// A grid that was given.
pub open spec fn given_grid(values: Option<&[Real]>) -> Option<Seq<Real>> {
    match values {
        Some(list) => Some(list@),
        None => None,
    }
}

impl SummaryRun {
    /// Whether a summary holds the intervals that were found.
    pub open spec fn reports(
        self,
        method: SensitivitySummaryMethod,
        delta: &'static str,
        name: &'static str,
        out: Result<SensitivitySummary, HonestError>,
    ) -> bool {
        match assessment::failure(self.intervals) {
            Some(error) => out == Err::<SensitivitySummary, HonestError>(error),
            None => out matches Ok(summary) && summary.rows@ == Seq::new(
                self.intervals.len(),
                |i: int| row_of(self.intervals[i]->Ok_0, method, delta, name, self.grid->Ok_0[i]),
            ),
        }
    }

    /// Whether `out` summarizes a functional under smoothness restrictions: an
    /// error of the request, of the options or of the grid, the first error of an
    /// interval, or one row per bound.
    pub open spec fn explains_smoothness<L: Levels, E: FunctionalSets, G: GridNumbers>(
        self,
        levels: L,
        sets: E,
        grids: G,
        data: HonestEventStudyInput,
        inference: InferenceConfig,
        weights: Seq<Real>,
        method: Option<SensitivitySummaryMethod>,
        values: Option<Seq<Real>>,
        bias: Option<HonestBiasDirection>,
        monotonicity: Option<HonestMonotonicityDirection>,
        out: Result<SensitivitySummary, HonestError>,
    ) -> bool {
        let chosen = match method {
            Some(asked) => asked,
            None => smoothness_method(bias, monotonicity),
        };
        &&& is_request_fault(levels, data, weights, inference, self.fault)
        &&& if self.fault is Some {
            out == Err::<SensitivitySummary, HonestError>(self.fault->Some_0)
        } else {
            match smoothness_label(bias, monotonicity) {
                Err(error) => out == Err::<SensitivitySummary, HonestError>(error),
                Ok(delta) => {
                    &&& match values {
                        Some(list) => self.grid == Ok::<Seq<Real>, HonestError>(list),
                        None => is_smoothness_grid(grids, data, self.grid),
                    }
                    &&& match self.grid {
                        Err(error) => out == Err::<SensitivitySummary, HonestError>(error),
                        Ok(grid) => {
                            &&& assessment::in_order(self.intervals, grid.len() as int)
                            &&& forall|i: int|
                                0 <= i < self.intervals.len() ==> is_smoothness_ends(
                                    sets,
                                    smoothness_family(bias, monotonicity),
                                    data,
                                    weights,
                                    grid[i],
                                    inference,
                                    chosen,
                                    #[trigger] self.intervals[i],
                                )
                            &&& self.reports(chosen, delta, "M", out)
                        },
                    }
                },
            }
        }
    }

    /// Whether `out` summarizes a functional under relative-magnitude
    /// restrictions: an error of the request, of the options or of the method,
    /// the first error of an interval, or one row per bound.
    pub open spec fn explains_magnitude<L: Levels, E: FunctionalSets, G: GridNumbers>(
        self,
        levels: L,
        sets: E,
        grids: G,
        data: HonestEventStudyInput,
        inference: InferenceConfig,
        weights: Seq<Real>,
        method: Option<SensitivitySummaryMethod>,
        values: Option<Seq<Real>>,
        bound: Option<HonestRelativeMagnitudeBound>,
        bias: Option<HonestBiasDirection>,
        monotonicity: Option<HonestMonotonicityDirection>,
        out: Result<SensitivitySummary, HonestError>,
    ) -> bool {
        let chosen = match method {
            Some(asked) => asked,
            None => SensitivitySummaryMethod::ConditionalLeastFavorable,
        };
        let trend = match bound {
            Some(asked) => asked,
            None => HonestRelativeMagnitudeBound::ParallelTrendsDeviation,
        };
        &&& is_request_fault(levels, data, weights, inference, self.fault)
        &&& if self.fault is Some {
            out == Err::<SensitivitySummary, HonestError>(self.fault->Some_0)
        } else {
            match RelativeMagnitudeApiVariant::of_options(trend, bias, monotonicity) {
                Err(error) => out == Err::<SensitivitySummary, HonestError>(error),
                Ok(variant) => if chosen == SensitivitySummaryMethod::Flci || chosen
                    == SensitivitySummaryMethod::ConditionalFlci {
                    out == Err::<SensitivitySummary, HonestError>(HonestError::UnsupportedMethod)
                } else {
                    &&& self.grid is Ok
                    &&& match values {
                        Some(list) => self.grid->Ok_0 == list,
                        None => self.grid->Ok_0.len() == GRID_BOUNDS && grids.is_grid(
                            Real::zero_spec(),
                            Real { bits: GRID_MAGNITUDE_BITS },
                            GRID_BOUNDS,
                            self.grid->Ok_0,
                        ),
                    }
                    &&& assessment::in_order(self.intervals, self.grid->Ok_0.len() as int)
                    &&& forall|i: int|
                        0 <= i < self.intervals.len() ==> is_magnitude_ends(
                            sets,
                            variant,
                            data,
                            weights,
                            self.grid->Ok_0[i],
                            inference,
                            chosen,
                            #[trigger] self.intervals[i],
                        )
                    &&& self.reports(chosen, variant.label_spec(), "Mbar", out)
                },
            }
        }
    }
}

/// Whether `out` summarizes a functional under smoothness restrictions.
pub open spec fn is_smoothness_summary<L: Levels, E: FunctionalSets, G: GridNumbers>(
    levels: L,
    sets: E,
    grids: G,
    data: HonestEventStudyInput,
    inference: InferenceConfig,
    weights: Seq<Real>,
    method: Option<SensitivitySummaryMethod>,
    values: Option<Seq<Real>>,
    bias: Option<HonestBiasDirection>,
    monotonicity: Option<HonestMonotonicityDirection>,
    out: Result<SensitivitySummary, HonestError>,
) -> bool {
    exists|run: SummaryRun| #[trigger]
        run.explains_smoothness(
            levels,
            sets,
            grids,
            data,
            inference,
            weights,
            method,
            values,
            bias,
            monotonicity,
            out,
        )
}

/// Intervals of a functional over a grid of bounds under smoothness
/// restrictions.
pub fn summarize_smoothness_sensitivity<L: Levels, E: FunctionalSets, G: GridNumbers>(
    data: &HonestEventStudyInput,
    inference: InferenceConfig,
    post_weights: &Vec<Real>,
    method: Option<SensitivitySummaryMethod>,
    m_values: Option<&[Real]>,
    bias_direction: Option<HonestBiasDirection>,
    monotonicity_direction: Option<HonestMonotonicityDirection>,
    levels: &L,
    sets: &E,
    grids: &G,
) -> (out: Result<SensitivitySummary, HonestError>)
    requires
        functional_sets::countable(*data),
        levels.ready(),
        grids.ready(),
        forall|copy: HonestEventStudyInput| copy.same_as(*data) ==> #[trigger] sets.ready(copy),
    ensures
        is_smoothness_summary(
            *levels,
            *sets,
            *grids,
            *data,
            inference,
            post_weights@,
            method,
            given_grid(m_values),
            bias_direction,
            monotonicity_direction,
            out,
        ),
{
    let ghost mut run: SummaryRun = arbitrary();
    let checked = validate_api_inputs(data, post_weights, inference, levels);
    proof {
        run.fault = fault_of(checked);
    }
    match checked {
        Err(error) => {
            assert(run.explains_smoothness(
                *levels,
                *sets,
                *grids,
                *data,
                inference,
                post_weights@,
                method,
                given_grid(m_values),
                bias_direction,
                monotonicity_direction,
                Err(error),
            ));
            return Err(error);
        },
        Ok(()) => {},
    }
    proof {
        input::valid_input_is_shaped(*data);
    }
    let delta = match smoothness_variant_label(bias_direction, monotonicity_direction) {
        Err(error) => {
            assert(run.explains_smoothness(
                *levels,
                *sets,
                *grids,
                *data,
                inference,
                post_weights@,
                method,
                given_grid(m_values),
                bias_direction,
                monotonicity_direction,
                Err(error),
            ));
            return Err(error);
        },
        Ok(delta) => delta,
    };
    let chosen = match method {
        Some(asked) => asked,
        None => default_smoothness_method(bias_direction, monotonicity_direction),
    };
    let gridded = match m_values {
        Some(values) => Ok(copy_row(values)),
        None => default_smoothness_m_values(data, grids),
    };
    proof {
        run.grid = grid_view(gridded);
        run.intervals = Seq::empty();
    }
    let grid = match gridded {
        Err(error) => {
            assert(run.explains_smoothness(
                *levels,
                *sets,
                *grids,
                *data,
                inference,
                post_weights@,
                method,
                given_grid(m_values),
                bias_direction,
                monotonicity_direction,
                Err(error),
            ));
            return Err(error);
        },
        Ok(grid) => grid,
    };
    let ghost family = smoothness_family(bias_direction, monotonicity_direction);
    let ghost mut intervals: Seq<Result<(Real, Real), HonestError>> = Seq::empty();
    let mut rows: Vec<SensitivitySummaryRow> = Vec::new();
    let mut failed: Option<HonestError> = None;
    while failed.is_none() && rows.len() < grid.len()
        invariant
            rows.len() <= grid.len(),
            functional_sets::countable(*data),
            data.total() > 0,
            forall|copy: HonestEventStudyInput|
                copy.same_as(*data) ==> #[trigger] sets.ready(copy),
            family == smoothness_family(bias_direction, monotonicity_direction),
            failed is None ==> intervals.len() == rows.len(),
            failed is Some ==> intervals.len() == rows.len() + 1 && intervals.len() <= grid.len(),
            assessment::failure(intervals) == failed,
            forall|i: int| 0 <= i < rows.len() ==> #[trigger] intervals[i] is Ok,
            forall|i: int|
                0 <= i < intervals.len() ==> is_smoothness_ends(
                    *sets,
                    family,
                    *data,
                    post_weights@,
                    grid@[i],
                    inference,
                    chosen,
                    #[trigger] intervals[i],
                ),
            forall|i: int|
                0 <= i < rows.len() ==> #[trigger] rows@[i] == row_of(
                    intervals[i]->Ok_0,
                    chosen,
                    delta,
                    "M",
                    grid@[i],
                ),
        decreases
                grid.len() - rows.len(),
                (if failed is None {
                    1int
                } else {
                    0int
                }),
    {
        let i: usize = rows.len();
        let ghost earlier = intervals;
        let m = grid[i];
        let ends = smoothness_ends(
            data,
            post_weights,
            m,
            inference,
            chosen,
            bias_direction,
            monotonicity_direction,
            sets,
        );
        proof {
            intervals = earlier.push(ends);
            assert forall|k: int| 0 <= k < intervals.len() implies is_smoothness_ends(
                *sets,
                family,
                *data,
                post_weights@,
                grid@[k],
                inference,
                chosen,
                #[trigger] intervals[k],
            ) by {
                if k < i {
                    assert(intervals[k] == earlier[k]);
                }
            }
            assert forall|k: int| 0 <= k < i implies #[trigger] intervals[k] is Ok by {
                assert(intervals[k] == earlier[k]);
            }
        }
        match ends {
            Err(error) => {
                failed = Some(error);
            },
            Ok(found) => {
                rows.push(
                    collect_interval(
                        &HonestConditionalConfidenceSet { lb: found.0, ub: found.1 },
                        chosen,
                        delta,
                        "M",
                        m,
                    ),
                );
            },
        }
    }
    proof {
        run.intervals = intervals;
    }
    let out = match failed {
        Some(error) => Err(error),
        None => Ok(SensitivitySummary { rows }),
    };
    proof {
        if out is Ok {
            assert(out->Ok_0.rows@ =~= Seq::new(
                intervals.len(),
                |i: int| row_of(intervals[i]->Ok_0, chosen, delta, "M", grid@[i]),
            ));
        }
        assert(run.reports(chosen, delta, "M", out));
        assert(run.explains_smoothness(
            *levels,
            *sets,
            *grids,
            *data,
            inference,
            post_weights@,
            method,
            given_grid(m_values),
            bias_direction,
            monotonicity_direction,
            out,
        ));
    }
    out
}

// ---------------------------------------------------------------------------
// Relative magnitudes
// ---------------------------------------------------------------------------

/// The settings of a method.
pub open spec fn magnitude_config(
    inference: InferenceConfig,
    method: SensitivitySummaryMethod,
) -> RelativeMagnitudeConfidenceSetConfig {
    RelativeMagnitudeConfidenceSetConfig {
        hybrid: if method == SensitivitySummaryMethod::Conditional {
            RelativeMagnitudeHybrid::ArpOnly
        } else {
            RelativeMagnitudeHybrid::LeastFavorable
        },
        ..RelativeMagnitudeConfidenceSetConfig::from_inference_spec(inference)
    }
}

/// Whether `ends` is the interval of a functional: the error of its identified
/// set, its confidence set, and where that has an error the identified set if it
/// is unbounded.
pub open spec fn magnitude_ends_by<E: FunctionalSets>(
    identified: Result<HonestIdentifiedSet, HonestError>,
    set: Result<HonestConditionalConfidenceSet, HonestError>,
    sets: E,
    variant: RelativeMagnitudeApiVariant,
    data: HonestEventStudyInput,
    weights: Seq<Real>,
    mbar: Real,
    inference: InferenceConfig,
    method: SensitivitySummaryMethod,
    ends: Result<(Real, Real), HonestError>,
) -> bool {
    &&& sets.is_magnitude_identified(variant.family_spec(), data, weights, mbar, identified)
    &&& match identified {
        Err(error) => ends == Err::<(Real, Real), HonestError>(error),
        Ok(whole) => {
            &&& sets.is_magnitude_confidence(
                variant.family_spec(),
                data,
                weights,
                mbar,
                inference,
                magnitude_config(inference, method),
                set,
            )
            &&& ends == (match set {
                Ok(found) => Ok::<(Real, Real), HonestError>((found.lb, found.ub)),
                Err(error) => if whole.bounded() {
                    Err::<(Real, Real), HonestError>(error)
                } else {
                    Ok::<(Real, Real), HonestError>((whole.lb, whole.ub))
                },
            })
        },
    }
}

/// Whether `ends` is the interval of a functional at a bound.
pub open spec fn is_magnitude_ends<E: FunctionalSets>(
    sets: E,
    variant: RelativeMagnitudeApiVariant,
    data: HonestEventStudyInput,
    weights: Seq<Real>,
    mbar: Real,
    inference: InferenceConfig,
    method: SensitivitySummaryMethod,
    ends: Result<(Real, Real), HonestError>,
) -> bool {
    if !bounds(mbar) {
        ends == Err::<(Real, Real), HonestError>(
            HonestError::InvalidMagnitudeBound {
                class: "relative-magnitude sensitivity",
                bound: mbar,
            },
        )
    } else {
        exists|
            identified: Result<HonestIdentifiedSet, HonestError>,
            set: Result<HonestConditionalConfidenceSet, HonestError>,
        | #[trigger]
            magnitude_ends_by(
                identified,
                set,
                sets,
                variant,
                data,
                weights,
                mbar,
                inference,
                method,
                ends,
            )
    }
}

fn magnitude_ends<E: FunctionalSets>(
    data: &HonestEventStudyInput,
    post_weights: &Vec<Real>,
    mbar: Real,
    inference: InferenceConfig,
    method: SensitivitySummaryMethod,
    variant: RelativeMagnitudeApiVariant,
    sets: &E,
) -> (ends: Result<(Real, Real), HonestError>)
    requires
        functional_sets::countable(*data),
        sets.ready(*data),
    ensures
        is_magnitude_ends(
            *sets,
            variant,
            *data,
            post_weights@,
            mbar,
            inference,
            method,
            ends,
        ),
{
    if !mbar.is_finite() || mbar.less(Real::zero()) {
        return Err(
            HonestError::InvalidMagnitudeBound {
                class: "relative-magnitude sensitivity",
                bound: mbar,
            },
        );
    }
    let mut config = RelativeMagnitudeConfidenceSetConfig::from_inference(inference);
    config.hybrid = match method {
        SensitivitySummaryMethod::Conditional => RelativeMagnitudeHybrid::ArpOnly,
        _ => RelativeMagnitudeHybrid::LeastFavorable,
    };
    let ghost nothing: Result<HonestConditionalConfidenceSet, HonestError> = arbitrary();
    let identified = variant.compute_identified_set(data, post_weights, mbar, sets);
    let ghost said = identified;
    match identified {
        Err(error) => {
            let ends = Err(error);
            assert(magnitude_ends_by(
                said,
                nothing,
                *sets,
                variant,
                *data,
                post_weights@,
                mbar,
                inference,
                method,
                ends,
            ));
            ends
        },
        Ok(whole) => {
            let found = variant.compute_conditional_cs(
                data,
                post_weights,
                mbar,
                inference,
                config,
                sets,
            );
            let ghost set = found;
            let ends = match found {
                Ok(conditional) => Ok((conditional.lb, conditional.ub)),
                Err(error) => if whole.is_bounded() {
                    Err(error)
                } else {
                    Ok((whole.lb, whole.ub))
                },
            };
            assert(magnitude_ends_by(
                said,
                set,
                *sets,
                variant,
                *data,
                post_weights@,
                mbar,
                inference,
                method,
                ends,
            ));
            ends
        },
    }
}

/// Whether `out` summarizes a functional under relative-magnitude restrictions.
pub open spec fn is_magnitude_summary<L: Levels, E: FunctionalSets, G: GridNumbers>(
    levels: L,
    sets: E,
    grids: G,
    data: HonestEventStudyInput,
    inference: InferenceConfig,
    weights: Seq<Real>,
    method: Option<SensitivitySummaryMethod>,
    values: Option<Seq<Real>>,
    bound: Option<HonestRelativeMagnitudeBound>,
    bias: Option<HonestBiasDirection>,
    monotonicity: Option<HonestMonotonicityDirection>,
    out: Result<SensitivitySummary, HonestError>,
) -> bool {
    exists|run: SummaryRun| #[trigger]
        run.explains_magnitude(
            levels,
            sets,
            grids,
            data,
            inference,
            weights,
            method,
            values,
            bound,
            bias,
            monotonicity,
            out,
        )
}

/// Intervals of a functional over a grid of bounds under relative-magnitude
/// restrictions.
pub fn summarize_relative_magnitude_sensitivity<L: Levels, E: FunctionalSets, G: GridNumbers>(
    data: &HonestEventStudyInput,
    inference: InferenceConfig,
    post_weights: &Vec<Real>,
    method: Option<SensitivitySummaryMethod>,
    mbar_values: Option<&[Real]>,
    bound: Option<HonestRelativeMagnitudeBound>,
    bias_direction: Option<HonestBiasDirection>,
    monotonicity_direction: Option<HonestMonotonicityDirection>,
    levels: &L,
    sets: &E,
    grids: &G,
) -> (out: Result<SensitivitySummary, HonestError>)
    requires
        functional_sets::countable(*data),
        levels.ready(),
        grids.ready(),
        sets.ready(*data),
    ensures
        is_magnitude_summary(
            *levels,
            *sets,
            *grids,
            *data,
            inference,
            post_weights@,
            method,
            given_grid(mbar_values),
            bound,
            bias_direction,
            monotonicity_direction,
            out,
        ),
{
    let ghost mut run: SummaryRun = arbitrary();
    let checked = validate_api_inputs(data, post_weights, inference, levels);
    proof {
        run.fault = fault_of(checked);
    }
    match checked {
        Err(error) => {
            assert(run.explains_magnitude(
                *levels,
                *sets,
                *grids,
                *data,
                inference,
                post_weights@,
                method,
                given_grid(mbar_values),
                bound,
                bias_direction,
                monotonicity_direction,
                Err(error),
            ));
            return Err(error);
        },
        Ok(()) => {},
    }
    let trend = match bound {
        Some(asked) => asked,
        None => HonestRelativeMagnitudeBound::ParallelTrendsDeviation,
    };
    let variant = match RelativeMagnitudeApiVariant::from_wrapper_options(
        trend,
        bias_direction,
        monotonicity_direction,
    ) {
        Err(error) => {
            assert(run.explains_magnitude(
                *levels,
                *sets,
                *grids,
                *data,
                inference,
                post_weights@,
                method,
                given_grid(mbar_values),
                bound,
                bias_direction,
                monotonicity_direction,
                Err(error),
            ));
            return Err(error);
        },
        Ok(variant) => variant,
    };
    let delta = variant.label();
    let chosen = match method {
        Some(asked) => asked,
        None => SensitivitySummaryMethod::ConditionalLeastFavorable,
    };
    if chosen == SensitivitySummaryMethod::Flci || chosen
        == SensitivitySummaryMethod::ConditionalFlci {
        assert(run.explains_magnitude(
            *levels,
            *sets,
            *grids,
            *data,
            inference,
            post_weights@,
            method,
            given_grid(mbar_values),
            bound,
            bias_direction,
            monotonicity_direction,
            Err(HonestError::UnsupportedMethod),
        ));
        return Err(HonestError::UnsupportedMethod);
    }
    let grid = match mbar_values {
        Some(values) => copy_row(values),
        None => default_relative_magnitude_mbar_values(grids),
    };
    proof {
        run.grid = Ok(grid@);
    }
    let ghost mut intervals: Seq<Result<(Real, Real), HonestError>> = Seq::empty();
    let mut rows: Vec<SensitivitySummaryRow> = Vec::new();
    let mut failed: Option<HonestError> = None;
    while failed.is_none() && rows.len() < grid.len()
        invariant
            rows.len() <= grid.len(),
            functional_sets::countable(*data),
            sets.ready(*data),
            failed is None ==> intervals.len() == rows.len(),
            failed is Some ==> intervals.len() == rows.len() + 1 && intervals.len() <= grid.len(),
            assessment::failure(intervals) == failed,
            forall|i: int| 0 <= i < rows.len() ==> #[trigger] intervals[i] is Ok,
            forall|i: int|
                0 <= i < intervals.len() ==> is_magnitude_ends(
                    *sets,
                    variant,
                    *data,
                    post_weights@,
                    grid@[i],
                    inference,
                    chosen,
                    #[trigger] intervals[i],
                ),
            forall|i: int|
                0 <= i < rows.len() ==> #[trigger] rows@[i] == row_of(
                    intervals[i]->Ok_0,
                    chosen,
                    delta,
                    "Mbar",
                    grid@[i],
                ),
        decreases
                grid.len() - rows.len(),
                (if failed is None {
                    1int
                } else {
                    0int
                }),
    {
        let i: usize = rows.len();
        let ghost earlier = intervals;
        let mbar = grid[i];
        let ends = magnitude_ends(data, post_weights, mbar, inference, chosen, variant, sets);
        proof {
            intervals = earlier.push(ends);
            assert forall|k: int| 0 <= k < intervals.len() implies is_magnitude_ends(
                *sets,
                variant,
                *data,
                post_weights@,
                grid@[k],
                inference,
                chosen,
                #[trigger] intervals[k],
            ) by {
                if k < i {
                    assert(intervals[k] == earlier[k]);
                }
            }
            assert forall|k: int| 0 <= k < i implies #[trigger] intervals[k] is Ok by {
                assert(intervals[k] == earlier[k]);
            }
        }
        match ends {
            Err(error) => {
                failed = Some(error);
            },
            Ok(found) => {
                rows.push(
                    collect_interval(
                        &HonestConditionalConfidenceSet { lb: found.0, ub: found.1 },
                        chosen,
                        delta,
                        "Mbar",
                        mbar,
                    ),
                );
            },
        }
    }
    proof {
        run.intervals = intervals;
    }
    let out = match failed {
        Some(error) => Err(error),
        None => Ok(SensitivitySummary { rows }),
    };
    proof {
        if out is Ok {
            assert(out->Ok_0.rows@ =~= Seq::new(
                intervals.len(),
                |i: int| row_of(intervals[i]->Ok_0, chosen, delta, "Mbar", grid@[i]),
            ));
        }
        assert(run.reports(chosen, delta, "Mbar", out));
        assert(run.explains_magnitude(
            *levels,
            *sets,
            *grids,
            *data,
            inference,
            post_weights@,
            method,
            given_grid(mbar_values),
            bound,
            bias_direction,
            monotonicity_direction,
            out,
        ));
    }
    out
}

// ---------------------------------------------------------------------------
// One post period
// ---------------------------------------------------------------------------

/// What the summary of a post period rested on.
pub struct PeriodSummaryRun {
    /// The confidence set under parallel trends.
    pub original: Result<HonestOriginalConfidenceSet, HonestError>,
    /// The robust intervals.
    pub robust: Result<SensitivitySummary, HonestError>,
}

impl PeriodSummaryRun {
    /// Whether `out` summarizes a post period: an error of the input, an unknown
    /// period, an error of its confidence set or of its intervals, or both.
    pub open spec fn explains<L: Levels, E: FunctionalSets, G: GridNumbers>(
        self,
        levels: L,
        sets: E,
        grids: G,
        data: HonestEventStudyInput,
        post_period: i32,
        kind: SensitivityRestrictionKind,
        inference: InferenceConfig,
        method: Option<SensitivitySummaryMethod>,
        values: Option<Seq<Real>>,
        bound: Option<HonestRelativeMagnitudeBound>,
        bias: Option<HonestBiasDirection>,
        monotonicity: Option<HonestMonotonicityDirection>,
        out: Result<PostPeriodSensitivitySummary, HonestError>,
    ) -> bool {
        if data.fault() is Some {
            out == Err::<PostPeriodSensitivitySummary, HonestError>(data.fault()->Some_0)
        } else {
            match input::label_position(data.post_periods@, post_period, 0) {
                None => out == Err::<PostPeriodSensitivitySummary, HonestError>(
                    HonestError::PostPeriodNotFound { period: post_period },
                ),
                Some(position) => {
                    let weights = input::basis_weights(
                        data.post_periods@.len() as int,
                        position,
                    );
                    &&& sets.is_original(data, weights, inference, self.original)
                    &&& match self.original {
                        Err(error) => out == Err::<PostPeriodSensitivitySummary, HonestError>(
                            error,
                        ),
                        Ok(original) => {
                            &&& match kind {
                                SensitivityRestrictionKind::Smoothness => is_smoothness_summary(
                                    levels,
                                    sets,
                                    grids,
                                    data,
                                    inference,
                                    weights,
                                    method,
                                    values,
                                    bias,
                                    monotonicity,
                                    self.robust,
                                ),
                                SensitivityRestrictionKind::RelativeMagnitude => {
                                    is_magnitude_summary(
                                        levels,
                                        sets,
                                        grids,
                                        data,
                                        inference,
                                        weights,
                                        method,
                                        values,
                                        bound,
                                        bias,
                                        monotonicity,
                                        self.robust,
                                    )
                                },
                            }
                            &&& match self.robust {
                                Err(error) => out == Err::<
                                    PostPeriodSensitivitySummary,
                                    HonestError,
                                >(error),
                                Ok(robust) => out == Ok::<
                                    PostPeriodSensitivitySummary,
                                    HonestError,
                                >(
                                    (PostPeriodSensitivitySummary {
                                        robust_ci: robust,
                                        orig_ci: original,
                                        sensitivity_type: kind,
                                        post_period,
                                    }),
                                ),
                            }
                        },
                    }
                },
            }
        }
    }
}

/// The summary of a post period, given by its label.
pub fn summarize_post_period_sensitivity<L: Levels, E: FunctionalSets, G: GridNumbers>(
    data: &HonestEventStudyInput,
    post_period: i32,
    sensitivity_type: SensitivityRestrictionKind,
    inference: InferenceConfig,
    method: Option<SensitivitySummaryMethod>,
    sensitivity_values: Option<&[Real]>,
    bound: Option<HonestRelativeMagnitudeBound>,
    bias_direction: Option<HonestBiasDirection>,
    monotonicity_direction: Option<HonestMonotonicityDirection>,
    levels: &L,
    sets: &E,
    grids: &G,
) -> (out: Result<PostPeriodSensitivitySummary, HonestError>)
    requires
        functional_sets::countable(*data),
        levels.ready(),
        grids.ready(),
        forall|copy: HonestEventStudyInput| copy.same_as(*data) ==> #[trigger] sets.ready(copy),
    ensures
        exists|run: PeriodSummaryRun| #[trigger]
            run.explains(
                *levels,
                *sets,
                *grids,
                *data,
                post_period,
                sensitivity_type,
                inference,
                method,
                given_grid(sensitivity_values),
                bound,
                bias_direction,
                monotonicity_direction,
                out,
            ),
{
    let ghost mut run: PeriodSummaryRun = arbitrary();
    assert(data.same_as(*data));
    match data.validate() {
        Err(error) => {
            assert(run.explains(
                *levels,
                *sets,
                *grids,
                *data,
                post_period,
                sensitivity_type,
                inference,
                method,
                given_grid(sensitivity_values),
                bound,
                bias_direction,
                monotonicity_direction,
                Err(error),
            ));
            return Err(error);
        },
        Ok(()) => {},
    }
    let position = match position_of(data.post_periods.as_slice(), post_period) {
        None => {
            let error = HonestError::PostPeriodNotFound { period: post_period };
            assert(run.explains(
                *levels,
                *sets,
                *grids,
                *data,
                post_period,
                sensitivity_type,
                inference,
                method,
                given_grid(sensitivity_values),
                bound,
                bias_direction,
                monotonicity_direction,
                Err(error),
            ));
            return Err(error);
        },
        Some(position) => position,
    };
    let post_weights = basis_post_weights(data.num_post_periods(), position);
    let measured = sets.original(data, &post_weights, inference);
    proof {
        run.original = measured;
    }
    let orig_ci = match measured {
        Err(error) => {
            assert(run.explains(
                *levels,
                *sets,
                *grids,
                *data,
                post_period,
                sensitivity_type,
                inference,
                method,
                given_grid(sensitivity_values),
                bound,
                bias_direction,
                monotonicity_direction,
                Err(error),
            ));
            return Err(error);
        },
        Ok(original) => original,
    };
    let summarized = match sensitivity_type {
        SensitivityRestrictionKind::Smoothness => summarize_smoothness_sensitivity(
            data,
            inference,
            &post_weights,
            method,
            sensitivity_values,
            bias_direction,
            monotonicity_direction,
            levels,
            sets,
            grids,
        ),
        SensitivityRestrictionKind::RelativeMagnitude => summarize_relative_magnitude_sensitivity(
            data,
            inference,
            &post_weights,
            method,
            sensitivity_values,
            bound,
            bias_direction,
            monotonicity_direction,
            levels,
            sets,
            grids,
        ),
    };
    proof {
        run.robust = summarized;
    }
    let out = match summarized {
        Err(error) => Err(error),
        Ok(robust_ci) => Ok(
            PostPeriodSensitivitySummary { robust_ci, orig_ci, sensitivity_type, post_period },
        ),
    };
    assert(run.explains(
        *levels,
        *sets,
        *grids,
        *data,
        post_period,
        sensitivity_type,
        inference,
        method,
        given_grid(sensitivity_values),
        bound,
        bias_direction,
        monotonicity_direction,
        out,
    ));
    out
}

/// A summary has one row per bound, in the order of the grid that was given.
pub proof fn summary_follows_the_grid<L: Levels, E: FunctionalSets, G: GridNumbers>(
    levels: L,
    sets: E,
    grids: G,
    data: HonestEventStudyInput,
    inference: InferenceConfig,
    weights: Seq<Real>,
    method: Option<SensitivitySummaryMethod>,
    values: Seq<Real>,
    bias: Option<HonestBiasDirection>,
    monotonicity: Option<HonestMonotonicityDirection>,
    summary: SensitivitySummary,
    i: int,
)
    requires
        is_smoothness_summary(
            levels,
            sets,
            grids,
            data,
            inference,
            weights,
            method,
            Some(values),
            bias,
            monotonicity,
            Ok(summary),
        ),
        0 <= i < values.len(),
    ensures
        summary.rows@.len() == values.len(),
        summary.rows@[i].sensitivity_value == values[i],
        bounds(values[i]),
{
    let run = choose|run: SummaryRun| #[trigger]
        run.explains_smoothness(
            levels,
            sets,
            grids,
            data,
            inference,
            weights,
            method,
            Some(values),
            bias,
            monotonicity,
            Ok(summary),
        );
    assert(run.intervals[i] is Ok);
}

proof fn largest_bounds_each(values: Seq<Real>, end: int, i: int)
    requires
        0 <= i < end <= values.len(),
        !values[i].nan(),
    ensures
        values[i].le(largest(values, end)),
    decreases end,
{
    largest_is_not_negative(values, end - 1);
    if i < end - 1 {
        largest_bounds_each(values, end - 1, i);
    }
}

/// The pre-treatment coefficients obey the smoothness restriction at the upper
/// bound that is estimated from them, where the arithmetic is exact under a reading
/// and neither the quantile nor a standard deviation is negative.
pub proof fn pre_trends_obey_their_upper_bound<G: GridNumbers>(
    grids: G,
    data: HonestEventStudyInput,
    alpha: Real,
    bound: Real,
    rows: Seq<Vec<Coefficient>>,
    read: spec_fn(Real) -> int,
)
    requires
        is_upper_bound(grids, data, alpha, Ok(bound)),
        data.pre_periods@.len() <= data.betahat@.len(),
        matrix::rows_of(rows) == pre_constraints(data.pre_periods@.len() as int),
        forall|x: Real, y: Real| #[trigger] x.le(y) ==> read(x) <= read(y),
        forall|lines: Seq<Seq<Coefficient>>, vector: Seq<Real>, products: Seq<Real>| #[trigger]
            grids.is_products(lines, vector, products) ==> products.len() == lines.len()
                && forall|i: int|
                0 <= i < lines.len() ==> read(#[trigger] products[i]) == paths::row_value(
                    lines[i],
                    exact::values(read, vector),
                    0,
                ),
        forall|lines: Seq<Seq<Coefficient>>, block: Seq<Seq<Real>>, deviations: Seq<Real>|
            #[trigger]
            grids.is_deviations(lines, block, deviations) ==> deviations.len() == lines.len()
                && forall|i: int| 0 <= i < lines.len() ==> 0 <= read(#[trigger] deviations[i]),
        forall|size: Real, quantile: Real| #[trigger]
            grids.is_quantile(size, Ok(quantile)) ==> 0 <= read(quantile),
        forall|product: Real, quantile: Real, deviation: Real, limit: Real| #[trigger]
            grids.is_limit(product, quantile, deviation, limit) ==> !limit.nan() && read(limit)
                == read(product) + read(quantile) * read(deviation),
    ensures
        paths::bends_at_most(
            exact::values(read, data.betahat@.subrange(0, data.pre_periods@.len() as int)),
            data.pre_periods@.len() as int,
            0,
            read(bound),
        ),
{
    let pre = data.pre_periods@.len() as int;
    let run = choose|run: UpperRun| #[trigger] run.explains(grids, data, alpha, Ok(bound));
    let lines = pre_constraints(pre);
    let path = exact::values(read, data.betahat@.subrange(0, pre));
    let quantile = run.quantile->Ok_0;
    assert(run.quantile == Ok::<Real, String>(quantile));
    assert(matrix::rows_of(rows).len() == rows.len());
    assert(matrix::has_cols(rows, pre)) by {
        assert forall|i: int| 0 <= i < rows.len() implies (#[trigger] rows[i])@.len() == pre by {
            assert(matrix::rows_of(rows)[i] == rows[i]@);
        }
    }
    assert forall|i: int, j: int| 0 <= i < rows.len() && 0 <= j < pre + 0 implies
        #[trigger] rows[i]@[j] == constraints::smoothness_entry(pre, 0, false, i, j) by {
        assert(matrix::rows_of(rows)[i] == rows[i]@);
    }
    assert forall|i: int| 0 <= i < rows.len() implies #[trigger] paths::row_value(
        rows[i]@,
        path,
        0,
    ) <= read(bound) by {
        assert(matrix::rows_of(rows)[i] == rows[i]@);
        assert(read(run.products[i]) == paths::row_value(lines[i], path, 0));
        assert(0 <= read(run.deviations[i]));
        assert(grids.is_limit(
            run.products[i],
            quantile,
            run.deviations[i],
            run.limits[i],
        ));
        largest_bounds_each(run.limits, run.limits.len() as int, i);
        let q = read(quantile);
        let d = read(run.deviations[i]);
        assert(0 <= q * d) by (nonlinear_arith)
            requires
                0 <= q,
                0 <= d,
        ;
    }
    paths::smoothness_rows_bound_the_bends(rows, path, pre, 0, false, 0, read(bound));
}

} // verus!
