//! Errors and their messages.

use crate::number::Real;
use crate::text;
use crate::text::{message_of, Piece};
use vstd::prelude::*;

verus! {

/// Why a request was refused or a computation failed.
#[derive(Clone, Debug, PartialEq, Eq)]
pub enum HonestError {
    /// The coefficient vector and the period labels differ in number.
    CoefficientCount { found: usize, expected: usize },
    /// The covariance matrix is not square of the order of the coefficients.
    CovarianceShape,
    /// A coefficient is infinite or a NaN.
    CoefficientNotFinite,
    /// A covariance is infinite or a NaN.
    CovarianceNotFinite,
    /// The weights and the post periods differ in number.
    PostWeightCount { found: usize, expected: usize },
    /// A weight is infinite or a NaN.
    PostWeightNotFinite,
    /// All weights are zero.
    PostWeightsZero,
    /// All weights of a smoothness assessment are zero.
    SmoothnessWeightsZero,
    /// A named post period is not among the labels.
    PostPeriodAbsent { period: i32 },
    /// A summary names a post period that is not among the labels.
    PostPeriodNotFound { period: i32 },
    /// A window starts after it ends.
    WindowReversed { start: i32, end: i32 },
    /// A window covers no post period.
    WindowEmpty { start: i32, end: i32 },
    /// A weighted functional has no weight.
    NoWeightedPeriod,
    /// The confidence level is not valid.
    InvalidConfidenceLevel { level: Real },
    /// The adjusted confidence level is not valid.
    InvalidBonferroniLevel { level: Real },
    /// The hybrid size is infinite or a NaN.
    SmoothnessKappaNotFinite,
    /// The hybrid size lies outside its range.
    SmoothnessKappaRange { alpha: Real, kappa: Real },
    /// The inversion grid has too few points.
    GridTooSmall { points: usize },
    /// The hybrid size is infinite or a NaN.
    RelativeMagnitudeKappaNotFinite,
    /// The hybrid size lies outside its range.
    RelativeMagnitudeKappaRange { alpha: Real, kappa: Real },
    /// The batch of an adaptive surface is empty.
    BatchSizeZero,
    /// An adaptive surface may not iterate.
    MaxIterationsZero,
    /// The tolerance of an adaptive surface is negative or not finite.
    ToleranceInvalid,
    /// The bound of a restriction is negative or not finite.
    InvalidSmoothnessBound { class: &'static str, bound: Real },
    /// The bound of a restriction is negative or not finite.
    InvalidMagnitudeBound { class: &'static str, bound: Real },
    /// A restriction needs two pre-periods.
    TwoPrePeriodsRequired { class: &'static str },
    /// A restriction needs one pre-period.
    OnePrePeriodRequired,
    /// A branch of the relative-magnitude restriction lies off the periods.
    BranchIndex { s: i64, num_pre: usize },
    /// A branch of the linear-trend restriction lies off the periods.
    LinearBranchIndex { s: i64, num_pre: usize },
    /// No grid point was accepted.
    NoAcceptedPoint { class: &'static str },
    /// Two lists that belong together differ in length.
    CountMismatch { list: &'static str, found: usize, other: &'static str, expected: usize },
    /// A computation over functionals has none.
    NoFunctional { context: &'static str },
    /// A region has no post period.
    NoPostPeriod { context: &'static str },
    /// A simulation has no draws.
    NoSimulationDraws { context: &'static str },
    /// A region has no direction.
    NoDirection,
    /// A direction and the post periods differ in number.
    DirectionLength { found: usize, expected: usize },
    /// A direction has an infinite entry or a NaN.
    DirectionNotFinite,
    /// A direction is zero.
    DirectionZero,
    /// A surface configuration yields no direction.
    EmptySurface,
    /// A sign and a monotonicity restriction were both requested.
    RestrictionsExclude { wrapper: &'static str },
    /// The requested method is not available.
    UnsupportedMethod,
    /// A smoothness summary has no pre period.
    SummaryNeedsPrePeriod,
    /// The upper bound of a smoothness grid needs two pre periods.
    UpperBoundNeedsPrePeriods,
    /// A probability lies outside its range.
    AlphaRange { alpha: Real },
    /// The covariance matrix of a scalar assessment has the wrong order.
    ScalarCovarianceShape,
    /// A scalar assessment has no pre-period.
    ScalarNeedsPrePeriod,
    /// No constraint binds at the optimum.
    EmptyBindingSet { eta: Real, rows: usize, cols: usize },
    /// The fixed-length interval data of a hybrid test are missing.
    MissingHybridData,
    /// A matrix has no full set of pivots.
    PivotBasis,
    /// A functional without weight has no basis.
    GammaBasis,
    /// A direction that was to be refined is zero.
    DegenerateSeed,
    /// A refined direction is zero.
    DegenerateRefinement,
    /// There are no influence values.
    InfluenceEmpty { context: &'static str },
    /// The influence vectors differ in length.
    InfluenceRagged { context: &'static str },
    /// An influence value is infinite or a NaN.
    InfluenceNotFinite { context: &'static str },
    /// The clusters and the influence values differ in number.
    ClusterCount { influence: usize, clusters: usize },
    /// A probability lies outside its range.
    FoldedProbability { p: Real },
    /// There is no fixed-length interval.
    NoFixedLengthInterval,
    /// A functional has no variance.
    FunctionalVariance,
    /// A direction has no variance.
    DirectionVariance,
    /// A relative-magnitude result has no prepared branches.
    MissingBranches,
    /// A joint test has no estimate.
    WaldEmpty,
    /// The rows of a matrix differ in length.
    RaggedMatrix { name: &'static str },
    /// A matrix that must be square is not.
    NotSquare { context: &'static str, rows: usize, cols: usize },
    /// A right-hand side does not fit its matrix.
    RightSideLength { context: &'static str, found: usize, rows: usize },
    /// A solution misses its right-hand side.
    SolveResidual { context: &'static str, residual: Real, tolerance: Real },
    /// A product with an inverse misses the identity.
    InverseResidual { residual: Real },
    /// A matrix that must be square to be factored is not.
    FactorNotSquare,
    /// A covariance matrix has a negative direction.
    NotSemidefinite,
    /// The projection of a hybrid test is infinite or a NaN.
    ProjectionNotFinite,
    /// The right-hand side of the moment program has the wrong length.
    RhsLength { expected: usize, found: usize },
    /// The design and the variances of the moment program differ in number.
    VarianceCount { rows: usize, variances: usize },
    /// Draws do not divide into vectors of the dimension.
    DrawTiling { len: usize, dim: usize },
    /// No choice of rows gives feasible multipliers.
    NoFeasibleVertex { binding: usize, rows: usize, target: usize },
    /// The variance along the multipliers is negative.
    NegativeDualVariance,
    /// The variance along the multipliers is zero.
    ZeroDualVariance,
    /// The rows of the dual program differ in length.
    RaggedDualProgram,
    /// The dual program has no feasible point.
    DualInfeasible,
    /// The dual program has no bounded optimum.
    DualUnbounded,
    /// The dual program failed, and so did the second attempt.
    DualFallback { status: &'static str, message: String },
    /// A program was not solved.
    SolverFailed { program: &'static str, status: &'static str },
    /// The second attempt at the dual program found it infeasible.
    DualMaxInfeasible,
    /// A step of the moment program was refused.
    HighsFailed { context: &'static str },
    /// A step of the moment program returned an unknown code.
    HighsUnexpected { context: &'static str, status: i32 },
    /// The moment program has no bounded optimum.
    ProgramFailed { status: &'static str },
    /// Too few simulation draws could be solved.
    TooManyFailures { failed: usize, sims: usize },
    /// There is no draw to take a critical value from.
    NoCriticalValue,
    /// A numerical routine outside this library failed.
    Numerical { message: String },
}

impl HonestError {
    /// The pieces of the message, in order.
    pub open spec fn pieces(self) -> Seq<Piece> {
        match self {
            HonestError::CoefficientCount { found, expected } => seq![
                Piece::Text("event-study coefficient length "),
                Piece::Count(found),
                Piece::Text(" does not match pre+post periods "),
                Piece::Count(expected),
            ],
            HonestError::CovarianceShape => seq![
                Piece::Text("event-study covariance matrix dimensions do not match coefficients"),
            ],
            HonestError::CoefficientNotFinite => seq![
                Piece::Text("event-study coefficients must be finite"),
            ],
            HonestError::CovarianceNotFinite => seq![
                Piece::Text("event-study covariance values must be finite"),
            ],
            HonestError::PostWeightCount { found, expected } => seq![
                Piece::Text("post_weights length "),
                Piece::Count(found),
                Piece::Text(" does not match number of post periods "),
                Piece::Count(expected),
            ],
            HonestError::PostWeightNotFinite => seq![
                Piece::Text("post_weights weights must be finite"),
            ],
            HonestError::PostWeightsZero => seq![
                Piece::Text("post_weights must contain at least one non-zero weight"),
            ],
            HonestError::SmoothnessWeightsZero => seq![
                Piece::Text("Smoothness sensitivity requires at least one non-zero post_weights weight"),
            ],
            HonestError::PostPeriodAbsent { period } => seq![
                Piece::Text("post period "),
                Piece::Signed(period as i64),
                Piece::Text(" is not present in HonestEventStudyInput"),
            ],
            HonestError::PostPeriodNotFound { period } => seq![
                Piece::Text("post period "),
                Piece::Signed(period as i64),
                Piece::Text(" not found in event-study input"),
            ],
            HonestError::WindowReversed { start, end } => seq![
                Piece::Text("average window start_period "),
                Piece::Signed(start as i64),
                Piece::Text(" exceeds end_period "),
                Piece::Signed(end as i64),
            ],
            HonestError::WindowEmpty { start, end } => seq![
                Piece::Text("average window ["),
                Piece::Signed(start as i64),
                Piece::Text(", "),
                Piece::Signed(end as i64),
                Piece::Text("] covers no post periods"),
            ],
            HonestError::NoWeightedPeriod => seq![
                Piece::Text("weighted functional requires at least one post-period weight"),
            ],
            HonestError::InvalidConfidenceLevel { level } => seq![
                Piece::Text("invalid confidence level "),
                Piece::Number(level),
            ],
            HonestError::InvalidBonferroniLevel { level } => seq![
                Piece::Text("invalid Bonferroni-adjusted confidence level "),
                Piece::Number(level),
            ],
            HonestError::SmoothnessKappaNotFinite => seq![
                Piece::Text("smoothness hybrid_kappa must be finite"),
            ],
            HonestError::SmoothnessKappaRange { alpha, kappa } => seq![
                Piece::Text("smoothness hybrid_kappa must lie in [0, alpha]="),
                Piece::Number(alpha),
                Piece::Text(", got "),
                Piece::Number(kappa),
            ],
            HonestError::GridTooSmall { points } => seq![
                Piece::Text("smoothness conditional grid_points must be at least 2, got "),
                Piece::Count(points),
            ],
            HonestError::RelativeMagnitudeKappaNotFinite => seq![
                Piece::Text("relative-magnitude hybrid_kappa must be finite"),
            ],
            HonestError::RelativeMagnitudeKappaRange { alpha, kappa } => seq![
                Piece::Text("relative-magnitude hybrid_kappa must lie in [0, alpha]="),
                Piece::Number(alpha),
                Piece::Text(", got "),
                Piece::Number(kappa),
            ],
            HonestError::BatchSizeZero => seq![
                Piece::Text("optimization surface adaptive random_batch_size must be positive"),
            ],
            HonestError::MaxIterationsZero => seq![
                Piece::Text("optimization surface adaptive max_iterations must be positive"),
            ],
            HonestError::ToleranceInvalid => seq![
                Piece::Text("optimization surface adaptive pointwise_tolerance must be finite and non-negative"),
            ],
            HonestError::InvalidSmoothnessBound { class, bound } => seq![
                Piece::Text(class),
                Piece::Text(" requires finite non-negative M, got "),
                Piece::Number(bound),
            ],
            HonestError::InvalidMagnitudeBound { class, bound } => seq![
                Piece::Text(class),
                Piece::Text(" requires finite non-negative Mbar, got "),
                Piece::Number(bound),
            ],
            HonestError::TwoPrePeriodsRequired { class } => seq![
                Piece::Text(class),
                Piece::Text(" requires at least two pre-periods"),
            ],
            HonestError::OnePrePeriodRequired => seq![
                Piece::Text("relative-magnitude sensitivity requires at least one pre-period"),
            ],
            HonestError::BranchIndex { s, num_pre } => seq![
                Piece::Text("invalid relative-magnitude branch index s="),
                Piece::Signed(s as i64),
                Piece::Text(" for num_pre="),
                Piece::Count(num_pre),
            ],
            HonestError::LinearBranchIndex { s, num_pre } => seq![
                Piece::Text("invalid linear-trend relative-magnitude branch index s="),
                Piece::Signed(s as i64),
                Piece::Text(" for num_pre="),
                Piece::Count(num_pre),
            ],
            HonestError::NoAcceptedPoint { class } => seq![
                Piece::Text(class),
                Piece::Text(" accepted no grid points"),
            ],
            HonestError::CountMismatch { list, found, other, expected } => seq![
                Piece::Text(list),
                Piece::Text(" count "),
                Piece::Count(found),
                Piece::Text(" does not match "),
                Piece::Text(other),
                Piece::Text(" count "),
                Piece::Count(expected),
            ],
            HonestError::NoFunctional { context } => seq![
                Piece::Text(context),
                Piece::Text(" requires at least one functional"),
            ],
            HonestError::NoPostPeriod { context } => seq![
                Piece::Text(context),
            ],
            HonestError::NoSimulationDraws { context } => seq![
                Piece::Text(context),
                Piece::Text(" simulation_draws must be positive"),
            ],
            HonestError::NoDirection => seq![
                Piece::Text("directional region requires at least one direction"),
            ],
            HonestError::DirectionLength { found, expected } => seq![
                Piece::Text("direction length "),
                Piece::Count(found),
                Piece::Text(" does not match number of post periods "),
                Piece::Count(expected),
            ],
            HonestError::DirectionNotFinite => seq![
                Piece::Text("direction vector values must be finite"),
            ],
            HonestError::DirectionZero => seq![
                Piece::Text("direction vector must have non-zero weight"),
            ],
            HonestError::EmptySurface => seq![
                Piece::Text("optimization surface direction set is empty; enable basis, pairwise, or random directions"),
            ],
            HonestError::RestrictionsExclude { wrapper } => seq![
                Piece::Text(wrapper),
                Piece::Text(" wrapper supports either a sign restriction or a monotonicity restriction, not both"),
            ],
            HonestError::UnsupportedMethod => seq![
                Piece::Text("relative-magnitude wrapper currently supports only Conditional and C-LF methods"),
            ],
            HonestError::SummaryNeedsPrePeriod => seq![
                Piece::Text("smoothness summary requires at least one pre period"),
            ],
            HonestError::UpperBoundNeedsPrePeriods => seq![
                Piece::Text("smoothness upper-bound M requires at least two pre periods"),
            ],
            HonestError::AlphaRange { alpha } => seq![
                Piece::Text("alpha must lie in (0,1), got "),
                Piece::Number(alpha),
            ],
            HonestError::ScalarCovarianceShape => seq![
                Piece::Text("VCOV matrix dimensions must match pre_periods + 1"),
            ],
            HonestError::ScalarNeedsPrePeriod => seq![
                Piece::Text("requires at least one pre-period"),
            ],
            HonestError::EmptyBindingSet { eta, rows, cols } => seq![
                Piece::Text("relative-magnitude primal binding set is empty (eta="),
                Piece::Number(eta),
                Piece::Text(", rows="),
                Piece::Count(rows),
                Piece::Text(", cols="),
                Piece::Count(cols),
                Piece::Text(")"),
            ],
            HonestError::MissingHybridData => seq![
                Piece::Text("missing smoothness fixed-length interval hybrid data"),
            ],
            HonestError::PivotBasis => seq![
                Piece::Text("matrix did not yield a full pivot basis"),
            ],
            HonestError::GammaBasis => seq![
                Piece::Text("failed to construct Gamma basis from zero post weights"),
            ],
            HonestError::DegenerateSeed => seq![
                Piece::Text("seed direction is degenerate and cannot be refined"),
            ],
            HonestError::DegenerateRefinement => seq![
                Piece::Text("refined direction is degenerate"),
            ],
            HonestError::InfluenceEmpty { context } => seq![
                Piece::Text(context),
                Piece::Text(" requires non-empty influence vectors"),
            ],
            HonestError::InfluenceRagged { context } => seq![
                Piece::Text(context),
                Piece::Text(" requires equal-length influence vectors"),
            ],
            HonestError::InfluenceNotFinite { context } => seq![
                Piece::Text(context),
                Piece::Text(" requires finite influence values"),
            ],
            HonestError::ClusterCount { influence, clusters } => seq![
                Piece::Text("clustered covariance matrix requires aligned influence/cluster lengths ("),
                Piece::Count(influence),
                Piece::Text(" vs "),
                Piece::Count(clusters),
                Piece::Text(")"),
            ],
            HonestError::FoldedProbability { p } => seq![
                Piece::Text("folded-normal quantile probability must lie in (0,1), got "),
                Piece::Number(p),
            ],
            HonestError::NoFixedLengthInterval => seq![
                Piece::Text("failed to compute smoothness fixed-length confidence interval"),
            ],
            HonestError::FunctionalVariance => seq![
                Piece::Text("one or more functionals have near-zero variance under post covariance"),
            ],
            HonestError::DirectionVariance => seq![
                Piece::Text("one or more direction vectors have near-zero variance under the post covariance"),
            ],
            HonestError::MissingBranches => seq![
                Piece::Text("missing prepared relative-magnitude branch geometry"),
            ],
            HonestError::WaldEmpty => seq![
                Piece::Text("Wald test requires at least one estimate"),
            ],
            HonestError::RaggedMatrix { name } => seq![
                Piece::Text(name),
                Piece::Text(" matrix has non-rectangular rows"),
            ],
            HonestError::NotSquare { context, rows, cols } => seq![
                Piece::Text(context),
                Piece::Text(" requires a square coefficient matrix; got "),
                Piece::Count(rows),
                Piece::Text("x"),
                Piece::Count(cols),
            ],
            HonestError::RightSideLength { context, found, rows } => seq![
                Piece::Text(context),
                Piece::Text(" rhs length "),
                Piece::Count(found),
                Piece::Text(" does not match matrix size "),
                Piece::Count(rows),
            ],
            HonestError::SolveResidual { context, residual, tolerance } => seq![
                Piece::Text(context),
                Piece::Text(" residual "),
                Piece::Number(residual),
                Piece::Text(" exceeds tolerance "),
                Piece::Number(tolerance),
            ],
            HonestError::InverseResidual { residual } => seq![
                Piece::Text("matrix inverse residual "),
                Piece::Number(residual),
                Piece::Text(" exceeds tolerance 1e-7"),
            ],
            HonestError::FactorNotSquare => seq![
                Piece::Text("covariance matrix must be square"),
            ],
            HonestError::NotSemidefinite => seq![
                Piece::Text("covariance matrix is not positive semidefinite"),
            ],
            HonestError::ProjectionNotFinite => seq![
                Piece::Text("failed to solve smoothness fixed-length interval projection for vbar"),
            ],
            HonestError::RhsLength { expected, found } => seq![
                Piece::Text("HonestDiD eta/delta LP rhs length mismatch: expected "),
                Piece::Count(expected),
                Piece::Text(", got "),
                Piece::Count(found),
            ],
            HonestError::VarianceCount { rows, variances } => seq![
                Piece::Text("HonestDiD eta/delta LP has "),
                Piece::Count(rows),
                Piece::Text(" design rows but "),
                Piece::Count(variances),
                Piece::Text(" variances"),
            ],
            HonestError::DrawTiling { len, dim } => seq![
                Piece::Text("least-favorable draws of length "),
                Piece::Count(len),
                Piece::Text(" do not tile a dimension of "),
                Piece::Count(dim),
            ],
            HonestError::NoFeasibleVertex { binding, rows, target } => seq![
                Piece::Text("HonestDiD dual recovery could not find a feasible vertex (binding="),
                Piece::Count(binding),
                Piece::Text(", rows="),
                Piece::Count(rows),
                Piece::Text(", target="),
                Piece::Count(target),
                Piece::Text(")"),
            ],
            HonestError::NegativeDualVariance => seq![
                Piece::Text("HonestDiD dual branch produced negative variance"),
            ],
            HonestError::ZeroDualVariance => seq![
                Piece::Text("HonestDiD dual max program encountered zero gamma variance"),
            ],
            HonestError::RaggedDualProgram => seq![
                Piece::Text("HonestDiD dual max LP has ragged rows"),
            ],
            HonestError::DualInfeasible => seq![
                Piece::Text("HonestDiD dual max program is infeasible"),
            ],
            HonestError::DualUnbounded => seq![
                Piece::Text("HonestDiD dual max program is unbounded"),
            ],
            HonestError::DualFallback { status, message } => seq![
                Piece::Text("dense simplex failed to solve HonestDiD dual max LP: "),
                Piece::Text(status),
                Piece::Text("; Clarabel fallback also failed: "),
                Piece::Owned(message),
            ],
            HonestError::SolverFailed { program, status } => seq![
                Piece::Text("Clarabel failed to solve "),
                Piece::Text(program),
                Piece::Text(": "),
                Piece::Text(status),
            ],
            HonestError::DualMaxInfeasible => seq![
                Piece::Text("Clarabel dual max program is infeasible"),
            ],
            HonestError::HighsFailed { context } => seq![
                Piece::Text("failed to "),
                Piece::Text(context),
                Piece::Text(": HiGHS returned STATUS_ERROR"),
            ],
            HonestError::HighsUnexpected { context, status } => seq![
                Piece::Text("failed to "),
                Piece::Text(context),
                Piece::Text(": HiGHS returned unexpected status "),
                Piece::Signed(status as i64),
            ],
            HonestError::ProgramFailed { status } => seq![
                Piece::Text("failed to solve HonestDiD eta/delta LP: "),
                Piece::Text(status),
            ],
            HonestError::TooManyFailures { failed, sims } => seq![
                Piece::Text("least-favorable CV simulation: too many LP failures ("),
                Piece::Count(failed),
                Piece::Text("/"),
                Piece::Count(sims),
                Piece::Text("); cannot estimate critical value reliably"),
            ],
            HonestError::NoCriticalValue => seq![
                Piece::Text("failed to compute least-favorable critical value"),
            ],
            HonestError::Numerical { message } => seq![
                Piece::Owned(message),
            ],
        }
    }

    fn piece_list(&self) -> (pieces: Vec<Piece>)
        ensures
            pieces@ == self.pieces(),
    {
        match self {
            HonestError::CoefficientCount { found, expected } => vec![
                Piece::Text("event-study coefficient length "),
                Piece::Count(*found),
                Piece::Text(" does not match pre+post periods "),
                Piece::Count(*expected),
            ],
            HonestError::CovarianceShape => vec![
                Piece::Text("event-study covariance matrix dimensions do not match coefficients"),
            ],
            HonestError::CoefficientNotFinite => vec![
                Piece::Text("event-study coefficients must be finite"),
            ],
            HonestError::CovarianceNotFinite => vec![
                Piece::Text("event-study covariance values must be finite"),
            ],
            HonestError::PostWeightCount { found, expected } => vec![
                Piece::Text("post_weights length "),
                Piece::Count(*found),
                Piece::Text(" does not match number of post periods "),
                Piece::Count(*expected),
            ],
            HonestError::PostWeightNotFinite => vec![
                Piece::Text("post_weights weights must be finite"),
            ],
            HonestError::PostWeightsZero => vec![
                Piece::Text("post_weights must contain at least one non-zero weight"),
            ],
            HonestError::SmoothnessWeightsZero => vec![
                Piece::Text("Smoothness sensitivity requires at least one non-zero post_weights weight"),
            ],
            HonestError::PostPeriodAbsent { period } => vec![
                Piece::Text("post period "),
                Piece::Signed(*period as i64),
                Piece::Text(" is not present in HonestEventStudyInput"),
            ],
            HonestError::PostPeriodNotFound { period } => vec![
                Piece::Text("post period "),
                Piece::Signed(*period as i64),
                Piece::Text(" not found in event-study input"),
            ],
            HonestError::WindowReversed { start, end } => vec![
                Piece::Text("average window start_period "),
                Piece::Signed(*start as i64),
                Piece::Text(" exceeds end_period "),
                Piece::Signed(*end as i64),
            ],
            HonestError::WindowEmpty { start, end } => vec![
                Piece::Text("average window ["),
                Piece::Signed(*start as i64),
                Piece::Text(", "),
                Piece::Signed(*end as i64),
                Piece::Text("] covers no post periods"),
            ],
            HonestError::NoWeightedPeriod => vec![
                Piece::Text("weighted functional requires at least one post-period weight"),
            ],
            HonestError::InvalidConfidenceLevel { level } => vec![
                Piece::Text("invalid confidence level "),
                Piece::Number(*level),
            ],
            HonestError::InvalidBonferroniLevel { level } => vec![
                Piece::Text("invalid Bonferroni-adjusted confidence level "),
                Piece::Number(*level),
            ],
            HonestError::SmoothnessKappaNotFinite => vec![
                Piece::Text("smoothness hybrid_kappa must be finite"),
            ],
            HonestError::SmoothnessKappaRange { alpha, kappa } => vec![
                Piece::Text("smoothness hybrid_kappa must lie in [0, alpha]="),
                Piece::Number(*alpha),
                Piece::Text(", got "),
                Piece::Number(*kappa),
            ],
            HonestError::GridTooSmall { points } => vec![
                Piece::Text("smoothness conditional grid_points must be at least 2, got "),
                Piece::Count(*points),
            ],
            HonestError::RelativeMagnitudeKappaNotFinite => vec![
                Piece::Text("relative-magnitude hybrid_kappa must be finite"),
            ],
            HonestError::RelativeMagnitudeKappaRange { alpha, kappa } => vec![
                Piece::Text("relative-magnitude hybrid_kappa must lie in [0, alpha]="),
                Piece::Number(*alpha),
                Piece::Text(", got "),
                Piece::Number(*kappa),
            ],
            HonestError::BatchSizeZero => vec![
                Piece::Text("optimization surface adaptive random_batch_size must be positive"),
            ],
            HonestError::MaxIterationsZero => vec![
                Piece::Text("optimization surface adaptive max_iterations must be positive"),
            ],
            HonestError::ToleranceInvalid => vec![
                Piece::Text("optimization surface adaptive pointwise_tolerance must be finite and non-negative"),
            ],
            HonestError::InvalidSmoothnessBound { class, bound } => vec![
                Piece::Text(class),
                Piece::Text(" requires finite non-negative M, got "),
                Piece::Number(*bound),
            ],
            HonestError::InvalidMagnitudeBound { class, bound } => vec![
                Piece::Text(class),
                Piece::Text(" requires finite non-negative Mbar, got "),
                Piece::Number(*bound),
            ],
            HonestError::TwoPrePeriodsRequired { class } => vec![
                Piece::Text(class),
                Piece::Text(" requires at least two pre-periods"),
            ],
            HonestError::OnePrePeriodRequired => vec![
                Piece::Text("relative-magnitude sensitivity requires at least one pre-period"),
            ],
            HonestError::BranchIndex { s, num_pre } => vec![
                Piece::Text("invalid relative-magnitude branch index s="),
                Piece::Signed(*s as i64),
                Piece::Text(" for num_pre="),
                Piece::Count(*num_pre),
            ],
            HonestError::LinearBranchIndex { s, num_pre } => vec![
                Piece::Text("invalid linear-trend relative-magnitude branch index s="),
                Piece::Signed(*s as i64),
                Piece::Text(" for num_pre="),
                Piece::Count(*num_pre),
            ],
            HonestError::NoAcceptedPoint { class } => vec![
                Piece::Text(class),
                Piece::Text(" accepted no grid points"),
            ],
            HonestError::CountMismatch { list, found, other, expected } => vec![
                Piece::Text(list),
                Piece::Text(" count "),
                Piece::Count(*found),
                Piece::Text(" does not match "),
                Piece::Text(other),
                Piece::Text(" count "),
                Piece::Count(*expected),
            ],
            HonestError::NoFunctional { context } => vec![
                Piece::Text(context),
                Piece::Text(" requires at least one functional"),
            ],
            HonestError::NoPostPeriod { context } => vec![
                Piece::Text(context),
            ],
            HonestError::NoSimulationDraws { context } => vec![
                Piece::Text(context),
                Piece::Text(" simulation_draws must be positive"),
            ],
            HonestError::NoDirection => vec![
                Piece::Text("directional region requires at least one direction"),
            ],
            HonestError::DirectionLength { found, expected } => vec![
                Piece::Text("direction length "),
                Piece::Count(*found),
                Piece::Text(" does not match number of post periods "),
                Piece::Count(*expected),
            ],
            HonestError::DirectionNotFinite => vec![
                Piece::Text("direction vector values must be finite"),
            ],
            HonestError::DirectionZero => vec![
                Piece::Text("direction vector must have non-zero weight"),
            ],
            HonestError::EmptySurface => vec![
                Piece::Text("optimization surface direction set is empty; enable basis, pairwise, or random directions"),
            ],
            HonestError::RestrictionsExclude { wrapper } => vec![
                Piece::Text(wrapper),
                Piece::Text(" wrapper supports either a sign restriction or a monotonicity restriction, not both"),
            ],
            HonestError::UnsupportedMethod => vec![
                Piece::Text("relative-magnitude wrapper currently supports only Conditional and C-LF methods"),
            ],
            HonestError::SummaryNeedsPrePeriod => vec![
                Piece::Text("smoothness summary requires at least one pre period"),
            ],
            HonestError::UpperBoundNeedsPrePeriods => vec![
                Piece::Text("smoothness upper-bound M requires at least two pre periods"),
            ],
            HonestError::AlphaRange { alpha } => vec![
                Piece::Text("alpha must lie in (0,1), got "),
                Piece::Number(*alpha),
            ],
            HonestError::ScalarCovarianceShape => vec![
                Piece::Text("VCOV matrix dimensions must match pre_periods + 1"),
            ],
            HonestError::ScalarNeedsPrePeriod => vec![
                Piece::Text("requires at least one pre-period"),
            ],
            HonestError::EmptyBindingSet { eta, rows, cols } => vec![
                Piece::Text("relative-magnitude primal binding set is empty (eta="),
                Piece::Number(*eta),
                Piece::Text(", rows="),
                Piece::Count(*rows),
                Piece::Text(", cols="),
                Piece::Count(*cols),
                Piece::Text(")"),
            ],
            HonestError::MissingHybridData => vec![
                Piece::Text("missing smoothness fixed-length interval hybrid data"),
            ],
            HonestError::PivotBasis => vec![
                Piece::Text("matrix did not yield a full pivot basis"),
            ],
            HonestError::GammaBasis => vec![
                Piece::Text("failed to construct Gamma basis from zero post weights"),
            ],
            HonestError::DegenerateSeed => vec![
                Piece::Text("seed direction is degenerate and cannot be refined"),
            ],
            HonestError::DegenerateRefinement => vec![
                Piece::Text("refined direction is degenerate"),
            ],
            HonestError::InfluenceEmpty { context } => vec![
                Piece::Text(context),
                Piece::Text(" requires non-empty influence vectors"),
            ],
            HonestError::InfluenceRagged { context } => vec![
                Piece::Text(context),
                Piece::Text(" requires equal-length influence vectors"),
            ],
            HonestError::InfluenceNotFinite { context } => vec![
                Piece::Text(context),
                Piece::Text(" requires finite influence values"),
            ],
            HonestError::ClusterCount { influence, clusters } => vec![
                Piece::Text("clustered covariance matrix requires aligned influence/cluster lengths ("),
                Piece::Count(*influence),
                Piece::Text(" vs "),
                Piece::Count(*clusters),
                Piece::Text(")"),
            ],
            HonestError::FoldedProbability { p } => vec![
                Piece::Text("folded-normal quantile probability must lie in (0,1), got "),
                Piece::Number(*p),
            ],
            HonestError::NoFixedLengthInterval => vec![
                Piece::Text("failed to compute smoothness fixed-length confidence interval"),
            ],
            HonestError::FunctionalVariance => vec![
                Piece::Text("one or more functionals have near-zero variance under post covariance"),
            ],
            HonestError::DirectionVariance => vec![
                Piece::Text("one or more direction vectors have near-zero variance under the post covariance"),
            ],
            HonestError::MissingBranches => vec![
                Piece::Text("missing prepared relative-magnitude branch geometry"),
            ],
            HonestError::WaldEmpty => vec![
                Piece::Text("Wald test requires at least one estimate"),
            ],
            HonestError::RaggedMatrix { name } => vec![
                Piece::Text(name),
                Piece::Text(" matrix has non-rectangular rows"),
            ],
            HonestError::NotSquare { context, rows, cols } => vec![
                Piece::Text(context),
                Piece::Text(" requires a square coefficient matrix; got "),
                Piece::Count(*rows),
                Piece::Text("x"),
                Piece::Count(*cols),
            ],
            HonestError::RightSideLength { context, found, rows } => vec![
                Piece::Text(context),
                Piece::Text(" rhs length "),
                Piece::Count(*found),
                Piece::Text(" does not match matrix size "),
                Piece::Count(*rows),
            ],
            HonestError::SolveResidual { context, residual, tolerance } => vec![
                Piece::Text(context),
                Piece::Text(" residual "),
                Piece::Number(*residual),
                Piece::Text(" exceeds tolerance "),
                Piece::Number(*tolerance),
            ],
            HonestError::InverseResidual { residual } => vec![
                Piece::Text("matrix inverse residual "),
                Piece::Number(*residual),
                Piece::Text(" exceeds tolerance 1e-7"),
            ],
            HonestError::FactorNotSquare => vec![
                Piece::Text("covariance matrix must be square"),
            ],
            HonestError::NotSemidefinite => vec![
                Piece::Text("covariance matrix is not positive semidefinite"),
            ],
            HonestError::ProjectionNotFinite => vec![
                Piece::Text("failed to solve smoothness fixed-length interval projection for vbar"),
            ],
            HonestError::RhsLength { expected, found } => vec![
                Piece::Text("HonestDiD eta/delta LP rhs length mismatch: expected "),
                Piece::Count(*expected),
                Piece::Text(", got "),
                Piece::Count(*found),
            ],
            HonestError::VarianceCount { rows, variances } => vec![
                Piece::Text("HonestDiD eta/delta LP has "),
                Piece::Count(*rows),
                Piece::Text(" design rows but "),
                Piece::Count(*variances),
                Piece::Text(" variances"),
            ],
            HonestError::DrawTiling { len, dim } => vec![
                Piece::Text("least-favorable draws of length "),
                Piece::Count(*len),
                Piece::Text(" do not tile a dimension of "),
                Piece::Count(*dim),
            ],
            HonestError::NoFeasibleVertex { binding, rows, target } => vec![
                Piece::Text("HonestDiD dual recovery could not find a feasible vertex (binding="),
                Piece::Count(*binding),
                Piece::Text(", rows="),
                Piece::Count(*rows),
                Piece::Text(", target="),
                Piece::Count(*target),
                Piece::Text(")"),
            ],
            HonestError::NegativeDualVariance => vec![
                Piece::Text("HonestDiD dual branch produced negative variance"),
            ],
            HonestError::ZeroDualVariance => vec![
                Piece::Text("HonestDiD dual max program encountered zero gamma variance"),
            ],
            HonestError::RaggedDualProgram => vec![
                Piece::Text("HonestDiD dual max LP has ragged rows"),
            ],
            HonestError::DualInfeasible => vec![
                Piece::Text("HonestDiD dual max program is infeasible"),
            ],
            HonestError::DualUnbounded => vec![
                Piece::Text("HonestDiD dual max program is unbounded"),
            ],
            HonestError::DualFallback { status, message } => vec![
                Piece::Text("dense simplex failed to solve HonestDiD dual max LP: "),
                Piece::Text(status),
                Piece::Text("; Clarabel fallback also failed: "),
                Piece::Owned(message.clone()),
            ],
            HonestError::SolverFailed { program, status } => vec![
                Piece::Text("Clarabel failed to solve "),
                Piece::Text(program),
                Piece::Text(": "),
                Piece::Text(status),
            ],
            HonestError::DualMaxInfeasible => vec![
                Piece::Text("Clarabel dual max program is infeasible"),
            ],
            HonestError::HighsFailed { context } => vec![
                Piece::Text("failed to "),
                Piece::Text(context),
                Piece::Text(": HiGHS returned STATUS_ERROR"),
            ],
            HonestError::HighsUnexpected { context, status } => vec![
                Piece::Text("failed to "),
                Piece::Text(context),
                Piece::Text(": HiGHS returned unexpected status "),
                Piece::Signed(*status as i64),
            ],
            HonestError::ProgramFailed { status } => vec![
                Piece::Text("failed to solve HonestDiD eta/delta LP: "),
                Piece::Text(status),
            ],
            HonestError::TooManyFailures { failed, sims } => vec![
                Piece::Text("least-favorable CV simulation: too many LP failures ("),
                Piece::Count(*failed),
                Piece::Text("/"),
                Piece::Count(*sims),
                Piece::Text("); cannot estimate critical value reliably"),
            ],
            HonestError::NoCriticalValue => vec![
                Piece::Text("failed to compute least-favorable critical value"),
            ],
            HonestError::Numerical { message } => vec![
                Piece::Owned(message.clone()),
            ],
        }
    }

    /// The numbers that the message shows, in the order in which it shows them.
    pub fn shown_numbers(&self) -> (numbers: Vec<Real>)
        ensures
            numbers@ == text::numbers(self.pieces()),
    {
        let pieces = self.piece_list();
        text::collect_numbers(&pieces)
    }

    /// The message, given the decimal form of each number it shows.
    pub fn message(&self, shown: &[String]) -> (message: String)
        requires
            shown.len() == text::numbers(self.pieces()).len(),
        ensures
            message@ == text::rendered(self.pieces(), text::views(shown@)),
    {
        let pieces = self.piece_list();
        message_of(&pieces, shown)
    }
}

} // verus!
