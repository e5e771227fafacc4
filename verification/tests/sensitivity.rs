//! Analyses from end to end, with the arithmetic of real solvers.

#![allow(dead_code)]

use clarabel::algebra::CscMatrix;
use clarabel::solver::DefaultSettings;
use clarabel::solver::DefaultSettingsBuilder;
use clarabel::solver::DefaultSolver;
use clarabel::solver::IPSolver;
use clarabel::solver::SolverStatus;
use clarabel::solver::SupportedConeT;
use dyn_stack::MemBuffer;
use dyn_stack::MemStack;
use faer::Accum;
use faer::Mat;
use faer::Par;
use faer::Side;
use faer::Spec;
use faer::linalg::cholesky::llt;
use faer::linalg::cholesky::llt::factor::LltRegularization;
use faer::linalg::matmul::matmul;
use faer::prelude::Solve;
use honest_did::adaptive_grid::AcceptedGridRange;
use honest_did::adaptive_grid::compute_accepted_grid_range_full_grid;
use honest_did::assessment::ScalarEstimate;
use honest_did::assessment::assess_honest_event_study_functional;
use honest_did::assessment::assess_honest_event_study_functional_with_config;
use honest_did::assessment::assess_honest_event_study_period;
use honest_did::assessment::assess_honest_event_study_post_functional;
use honest_did::assessment::compute_honest_ci_scalar;
use honest_did::assessment::compute_honest_event_study_scalar;
use honest_did::assessment::compute_honest_event_study_scalar_for_input;
use honest_did::branch_search::compute_relative_magnitude_branch_accepted_range_adaptive;
use honest_did::branches::RelativeMagnitudeBranch;
use honest_did::branches::RelativeMagnitudeFamily;
use honest_did::branches::build_linear_trend_relative_magnitude_constraint_matrix;
use honest_did::branches::build_relative_magnitude_constraint_matrix;
use honest_did::calibration::LevelArithmetic;
use honest_did::calibration::Levels;
use honest_did::calibration::build_post_correlation_block;
use honest_did::calibration::calibrate_directional_region;
use honest_did::calibration::functional_correlation_matrix;
use honest_did::calibration::functional_level;
use honest_did::calibration::validate_direction_set;
use honest_did::cholesky;
use honest_did::cholesky::FactorNumbers;
use honest_did::cone::ConeProgram;
use honest_did::conic::RelativeMagnitudeIdentifiedSetWorkspace;
use honest_did::conic::dual_max_program;
use honest_did::conic::solve_relative_magnitude_branch_with_matrix;
use honest_did::constraints::Coefficient;
use honest_did::constraints::build_monotone_smoothness_moment_system;
use honest_did::constraints::build_signed_smoothness_moment_system;
use honest_did::constraints::build_smoothness_moment_system;
use honest_did::covariance::ClusterIndex;
use honest_did::covariance::CovarianceArithmetic;
use honest_did::covariance::CovarianceNumbers;
use honest_did::covariance::clustered_covariance_matrix_from_influence_matrix;
use honest_did::covariance::clustered_covariance_matrix_from_influence_matrix_index;
use honest_did::covariance::covariance_matrix_from_influence_matrix;
use honest_did::covariance::joint_wald_test;
use honest_did::dense_simplex::DenseSimplex;
use honest_did::directions::DirectionArithmetic;
use honest_did::directions::DirectionNumbers;
use honest_did::directions::canonicalize_unit_direction;
use honest_did::directions::deduplicate_unit_directions;
use honest_did::directions::projected_variance;
use honest_did::directions::refine_direction_with_argmin;
use honest_did::directions::refine_optimization_surface_directions_with_argmin;
use honest_did::directions::top_ranked_indices_by_variance;
use honest_did::dual::DualFunctions;
use honest_did::dual::dual_acceptance_region;
use honest_did::elimination::matrix_rank;
use honest_did::errors::HonestError;
use honest_did::functional::branch_count_mismatch;
use honest_did::functional::build_target_and_design_from_transform;
use honest_did::functional::prepare_relative_magnitude_branches;
use honest_did::functional::prepare_relative_magnitude_functional_transform;
use honest_did::functional_sets::FunctionalSets;
use honest_did::functional_sets::StudySets;
use honest_did::grids::grid_around_identified_set;
use honest_did::grids::grid_bounds_around_identified_set;
use honest_did::grids::linear_grid;
use honest_did::input::HonestEventStudyInput;
use honest_did::input::ScalarBias;
use honest_did::input::basis_post_weights;
use honest_did::input::construct_gamma;
use honest_did::input::post_weights_for_functional;
use honest_did::inversion::BranchTests;
use honest_did::inversion::gather_moments;
use honest_did::inversion::least_favorable_critical_value;
use honest_did::lp_arithmetic::LpArithmetic;
use honest_did::lp_arithmetic::LpFunctions;
use honest_did::matrix::check_square_system;
use honest_did::matrix::constraint_cols;
use honest_did::matrix::constraint_triplets;
use honest_did::moment_workspace::ConditionalMomentLpWorkspace;
use honest_did::moment_workspace::MomentSolution;
use honest_did::moments::Moments;
use honest_did::moments::TestArithmetic;
use honest_did::moments::TestFunctions;
use honest_did::moments::TestLevel;
use honest_did::multi_intervals::assess_honest_event_study_post_functional_flci;
use honest_did::multi_intervals::build_relative_magnitude_flci_problem;
use honest_did::multi_intervals::build_relative_magnitude_multi_flci_problem;
use honest_did::multi_intervals::build_relative_magnitude_multi_flci_problem_with_precomputed_sets;
use honest_did::multi_intervals::build_smoothness_flci_problem;
use honest_did::multi_intervals::build_smoothness_multi_flci_problem;
use honest_did::multi_intervals::compute_relative_magnitude_confidence_set_with_prepared_functional_branches;
use honest_did::multi_intervals::compute_relative_magnitude_flci;
use honest_did::multi_intervals::compute_relative_magnitude_multi_flci;
use honest_did::multi_intervals::compute_smoothness_multi_flci;
use honest_did::normal;
use honest_did::number::Real;
use honest_did::prepared::compute_original_confidence_set;
use honest_did::prepared_sets::PreparedSets;
use honest_did::programs::ProgramAnswer;
use honest_did::programs::ProgramStatus;
use honest_did::programs::read_dual_max;
use honest_did::projection::build_variance_soc_terms;
use honest_did::projection::multiply_row_by_square_matrix;
use honest_did::projection::solve_vbar_projection;
use honest_did::regions::assess_honest_event_study_directional_region;
use honest_did::regions::assess_honest_event_study_directional_region_with_precalibrated_pointwise;
use honest_did::regions::assess_honest_event_study_joint_path_region;
use honest_did::relative_magnitude::compute_linear_trend_relative_magnitude_confidence_set;
use honest_did::relative_magnitude::compute_linear_trend_relative_magnitude_confidence_set_with_config;
use honest_did::relative_magnitude::compute_linear_trend_relative_magnitude_identified_set;
use honest_did::relative_magnitude::compute_monotone_linear_trend_relative_magnitude_confidence_set;
use honest_did::relative_magnitude::compute_monotone_linear_trend_relative_magnitude_confidence_set_with_config;
use honest_did::relative_magnitude::compute_monotone_linear_trend_relative_magnitude_identified_set;
use honest_did::relative_magnitude::compute_monotone_relative_magnitude_confidence_set;
use honest_did::relative_magnitude::compute_monotone_relative_magnitude_confidence_set_with_config;
use honest_did::relative_magnitude::compute_monotone_relative_magnitude_identified_set;
use honest_did::relative_magnitude::compute_relative_magnitude_confidence_set;
use honest_did::relative_magnitude::compute_relative_magnitude_confidence_set_with_config;
use honest_did::relative_magnitude::compute_relative_magnitude_family_conditional_cs_with_config;
use honest_did::relative_magnitude::compute_relative_magnitude_family_identified_set;
use honest_did::relative_magnitude::compute_relative_magnitude_identified_set;
use honest_did::relative_magnitude::compute_signed_linear_trend_relative_magnitude_confidence_set;
use honest_did::relative_magnitude::compute_signed_linear_trend_relative_magnitude_confidence_set_with_config;
use honest_did::relative_magnitude::compute_signed_linear_trend_relative_magnitude_identified_set;
use honest_did::relative_magnitude::compute_signed_relative_magnitude_confidence_set;
use honest_did::relative_magnitude::compute_signed_relative_magnitude_confidence_set_with_config;
use honest_did::relative_magnitude::compute_signed_relative_magnitude_identified_set;
use honest_did::report::build_honest_directional_report_rows;
use honest_did::report::joint_path_report;
use honest_did::report::multi_flci_report;
use honest_did::report::render_honest_joint_path_report_csv;
use honest_did::report::render_honest_multi_flci_report_csv;
use honest_did::simplex::LpError;
use honest_did::simulation::compute_least_favorable_cv_from_draws;
use honest_did::smoothness::LinearSetup;
use honest_did::smoothness::SmoothnessFamily;
use honest_did::smoothness::build_smoothness_flci_hybrid_data;
use honest_did::smoothness::compute_monotone_smoothness_confidence_set;
use honest_did::smoothness::compute_monotone_smoothness_confidence_set_with_config;
use honest_did::smoothness::compute_monotone_smoothness_identified_set;
use honest_did::smoothness::compute_signed_smoothness_confidence_set;
use honest_did::smoothness::compute_signed_smoothness_confidence_set_with_config;
use honest_did::smoothness::compute_signed_smoothness_identified_set;
use honest_did::smoothness::compute_smoothness_confidence_set;
use honest_did::smoothness::compute_smoothness_confidence_set_with_config;
use honest_did::smoothness::compute_smoothness_identified_set;
use honest_did::smoothness::prepare_linear_sensitivity;
use honest_did::smoothness_intervals::SmoothnessFlciConfig;
use honest_did::smoothness_intervals::SmoothnessFlciProblem;
use honest_did::smoothness_intervals::compute_smoothness_flci;
use honest_did::smoothness_intervals::compute_smoothness_flci_with_config;
use honest_did::smoothness_intervals::find_h_for_minimum_bias;
use honest_did::smoothness_intervals::find_lowest_h;
use honest_did::smoothness_intervals::find_optimal_flci;
use honest_did::smoothness_intervals::find_worst_case_bias_given_h;
use honest_did::smoothness_intervals::folded_normal_quantile;
use honest_did::smoothness_intervals::half_length_for_bias;
use honest_did::smoothness_test::FullMoments;
use honest_did::smoothness_test::HybridSlope;
use honest_did::smoothness_test::HybridStatistic;
use honest_did::smoothness_test::SmoothnessFlciHybridData;
use honest_did::smoothness_test::SmoothnessProblem;
use honest_did::smoothness_test::SmoothnessTests;
use honest_did::smoothness_test::smoothness_dual_conditional_test;
use honest_did::study::IntervalArithmetic;
use honest_did::study::IntervalFunctions;
use honest_did::study::StudyArithmetic;
use honest_did::study::StudyFunctions;
use honest_did::summary::GridArithmetic;
use honest_did::summary::GridNumbers;
use honest_did::summary::SensitivityRestrictionKind;
use honest_did::summary::SensitivitySummaryMethod;
use honest_did::summary::estimate_smoothness_upper_bound_from_pretrends;
use honest_did::summary::summarize_post_period_sensitivity;
use honest_did::summary::summarize_relative_magnitude_sensitivity;
use honest_did::summary::summarize_smoothness_sensitivity;
use honest_did::surface::assess_honest_event_study_optimization_surface_region;
use honest_did::surface::assess_honest_event_study_optimization_surface_region_adaptive_with_config;
use honest_did::surface::assess_honest_event_study_optimization_surface_region_with_config;
use honest_did::surface::generate_optimization_surface_directions;
use honest_did::systems;
use honest_did::systems::SystemNumbers;
use honest_did::theta_test::ProgramSolution;
use honest_did::theta_test::RowTerm;
use honest_did::theta_test::Standardized;
use honest_did::theta_test::accepts;
use honest_did::theta_test::relative_magnitude_lp_conditional_test_prepared;
use honest_did::types::HonestBiasDirection;
use honest_did::types::HonestConditionalConfidenceSet;
use honest_did::types::HonestIdentifiedSet;
use honest_did::types::HonestJointPathConfig;
use honest_did::types::HonestJointPathMethod;
use honest_did::types::HonestMonotonicityDirection;
use honest_did::types::HonestOptimizationSurfaceAdaptiveConfig;
use honest_did::types::HonestOptimizationSurfaceAdaptiveRunConfig;
use honest_did::types::HonestOptimizationSurfaceConfig;
use honest_did::types::HonestOriginalConfidenceSet;
use honest_did::types::HonestPostFunctional;
use honest_did::types::HonestRelativeMagnitudeBound;
use honest_did::types::HonestSensitivity;
use honest_did::types::HonestWorkflowConfig;
use honest_did::types::HonestWorkflowDirectionMode;
use honest_did::types::InferenceConfig;
use honest_did::types::RelativeMagnitudeConfidenceSetConfig;
use honest_did::types::RelativeMagnitudeHybrid;
use honest_did::types::SmoothnessConfidenceSetConfig;
use honest_did::types::SmoothnessHybrid;
use honest_did::vertices::VertexFit;
use honest_did::vertices::binding_multipliers;
use honest_did::workflow::assess_honest_event_study_workflow;
use honest_did::workflow::assess_honest_event_study_workflow_with_config;
use honest_did::workflow::directional_region_from_joint_path_region;
use honest_did::workspaces::DualMaxLpWorkspace;
use honest_did::workspaces::build_moment_program;
use honest_did::workspaces::dual_program_rhs;
use rand::RngExt;
use rand::SeedableRng;
use rand::rngs::StdRng;
use serde_json::Value;
use statrs::distribution::ChiSquared;
use statrs::distribution::ContinuousCDF;
use statrs::distribution::Normal;
use std::cell::RefCell;
use std::rc::Rc;

/// The library's form of a number.
pub fn real_of(x: f64) -> Real {
    Real::from_bits(x.to_bits())
}

/// The floating-point number behind the library's form.
pub fn float(x: Real) -> f64 {
    f64::from_bits(x.bits)
}

/// The library's form of a vector.
pub fn reals(values: &[f64]) -> Vec<Real> {
    values.iter().map(|value| real_of(*value)).collect()
}

/// The floating-point numbers behind a vector.
pub fn floats(values: &[Real]) -> Vec<f64> {
    values.iter().map(|value| float(*value)).collect()
}

/// The library's form of a matrix.
pub fn real_rows(rows: &[Vec<f64>]) -> Vec<Vec<Real>> {
    rows.iter().map(|row| reals(row)).collect()
}

/// The floating-point numbers behind a matrix.
pub fn float_rows(rows: &[Vec<Real>]) -> Vec<Vec<f64>> {
    rows.iter().map(|row| floats(row)).collect()
}

/// The message of an error, with its numbers written out.
pub fn describe(error: &HonestError) -> String {
    let shown: Vec<String> =
        error.shown_numbers().iter().map(|value| float(*value).to_string()).collect();
    error.message(&shown)
}

/// The configuration of a confidence level.
pub fn inference_at(level: f64) -> InferenceConfig {
    InferenceConfig {
        confidence_level: real_of(level),
        alpha: real_of(1.0 - level),
        smoothness_kappa: real_of((1.0 - level) / 10.0),
        relative_magnitude_kappa: real_of((1.0 - level) / 20.0),
    }
}

/// Point of an even grid by its number among the steps.
pub fn place_on_grid(lb: f64, ub: f64, idx: usize, steps: usize) -> f64 {
    (ub - lb).mul_add(idx as f64 / steps as f64, lb)
}

/// Inner product.
pub fn dot(left: &[f64], right: &[f64]) -> f64 {
    left.iter().zip(right).map(|(l, r)| l * r).sum()
}

/// A matrix times a vector.
pub fn mat_vec(matrix: &[Vec<f64>], vector: &[f64]) -> Vec<f64> {
    matrix
        .iter()
        .map(|row| row.iter().zip(vector).fold(0.0, |acc, (l, r)| l.mul_add(*r, acc)))
        .collect()
}

/// The form of a matrix on two vectors.
pub fn bilinear_form(left: &[f64], matrix: &[Vec<f64>], right: &[f64]) -> f64 {
    let cols = matrix.first().map_or(0, Vec::len);
    let projected: Vec<f64> = (0..cols)
        .map(|col| left.iter().enumerate().map(|(row, l)| l * matrix[row][col]).sum::<f64>())
        .collect();
    dot(&projected, right)
}

/// Rows as a matrix of the linear algebra crate.
fn dense(rows: &[Vec<f64>], cols: usize) -> Mat<f64> {
    Mat::from_fn(rows.len(), cols, |row, col| rows[row][col])
}

/// A matrix of the linear algebra crate as rows.
fn rows_of(matrix: &Mat<f64>) -> Vec<Vec<f64>> {
    (0..matrix.nrows())
        .map(|row| (0..matrix.ncols()).map(|col| matrix[(row, col)]).collect())
        .collect()
}

/// Covariance of the rows' values.
pub fn sandwich_covariance(rows: &[Vec<f64>], sigma: &[Vec<f64>]) -> Vec<Vec<f64>> {
    if rows.is_empty() {
        return Vec::new();
    }
    let left = dense(rows, sigma.len());
    let mut projected = Mat::<f64>::zeros(rows.len(), sigma.len());
    let middle = dense(sigma, sigma.len());
    matmul(projected.as_mut(), Accum::Replace, left.as_ref(), middle.as_ref(), 1.0, Par::Seq);
    let mut covariance = Mat::<f64>::zeros(rows.len(), rows.len());
    matmul(
        covariance.as_mut(),
        Accum::Replace,
        projected.as_ref(),
        left.as_ref().transpose(),
        1.0,
        Par::Seq,
    );
    rows_of(&covariance)
}

/// Standard normal distribution.
pub fn standard_normal() -> Result<Normal, String> {
    Normal::new(0.0, 1.0).map_err(|err| format!("failed to create normal distribution: {err}"))
}

/// Critical value of a two-sided confidence level.
pub fn z_score_for_confidence(level: f64) -> Result<f64, String> {
    Ok(standard_normal()?.inverse_cdf((1.0 + level) * 0.5))
}

/// Confidence level of a two-sided critical value.
pub fn pointwise_confidence_level_from_critical(critical: f64) -> Result<f64, String> {
    let distribution = standard_normal()?;
    let cover = |value: Real| real_of(2.0f64.mul_add(distribution.cdf(float(value)), -1.0));
    Ok(float(normal::pointwise_confidence_level_from_critical(real_of(critical), &cover)))
}

/// Quantile of the standard normal distribution truncated to an interval.
pub fn truncated_normal_quantile(p: f64, l: f64, u: f64) -> Result<f64, String> {
    let distribution = standard_normal()?;
    let cdf = |value: Real| real_of(distribution.cdf(float(value)));
    let blend = |p: Real, below: Real, upto: Real| {
        real_of(float(p).mul_add(float(upto) - float(below), float(below)))
    };
    let quantile = |value: Real| real_of(distribution.inverse_cdf(float(value)));
    Ok(float(normal::truncated_normal_quantile(
        real_of(p),
        real_of(l),
        real_of(u),
        &cdf,
        &blend,
        &quantile,
    )))
}

/// The residual that is tolerated at a scale.
fn tolerated(scale: Real) -> Real {
    real_of(1e-7 * float(scale))
}

/// The entries of a column.
fn column_of(matrix: &Mat<f64>) -> Vec<Real> {
    (0..matrix.nrows()).map(|row| real_of(matrix[(row, 0)])).collect()
}

/// Solution of a square system, by Cholesky where it can be.
pub fn solve_square_linear_system(matrix: &[Vec<f64>], rhs: &[f64]) -> Result<Vec<f64>, String> {
    let numbers = SystemNumbers {
        solve: |rows: &Vec<Vec<Real>>, right: &Vec<Real>| {
            let left = dense(&float_rows(rows), rows.len());
            let side = Mat::from_fn(right.len(), 1, |row, _| float(right[row]));
            let solution = left.as_ref().llt(Side::Lower).map_or_else(
                |_| left.as_ref().partial_piv_lu().solve(&side),
                |factor| factor.solve(&side),
            );
            column_of(&solution)
        },
        misses: |rows: &Vec<Vec<Real>>, right: &Vec<Real>, found: &Vec<Real>| {
            let found = floats(found);
            let products = rows.iter().map(|row| dot(&floats(row), &found));
            products.zip(right).map(|(product, r)| real_of(product - float(*r))).collect()
        },
        tolerate: tolerated,
    };
    systems::solve_square_linear_system(&real_rows(matrix), &reals(rhs), &numbers)
        .map(|found| floats(&found))
        .map_err(|error| describe(&error))
}

/// Solution of a square system with the matrix transposed.
pub fn solve_transposed(matrix: &[Vec<f64>], rhs: &[f64]) -> Result<Vec<f64>, String> {
    let numbers = SystemNumbers {
        solve: |rows: &Vec<Vec<Real>>, right: &Vec<Real>| {
            let left = Mat::from_fn(rows.len(), rows.len(), |row, col| float(rows[col][row]));
            let side = Mat::from_fn(right.len(), 1, |row, _| float(right[row]));
            column_of(&left.as_ref().partial_piv_lu().solve(&side))
        },
        misses: |rows: &Vec<Vec<Real>>, right: &Vec<Real>, found: &Vec<Real>| {
            let product = |row: usize| -> f64 {
                rows.iter().zip(found).map(|(line, x)| float(line[row]) * float(*x)).sum()
            };
            (0..right.len()).map(|row| real_of(product(row) - float(right[row]))).collect()
        },
        tolerate: tolerated,
    };
    systems::solve_square_linear_system_transposed(&real_rows(matrix), &reals(rhs), &numbers)
        .map(|found| floats(&found))
        .map_err(|error| describe(&error))
}

/// A candidate for the inverse of a square matrix.
fn inverse_candidate(matrix: &[Vec<f64>]) -> Vec<Vec<f64>> {
    let order = matrix.len();
    let identity = Mat::from_fn(order, order, |row, col| if row == col { 1.0 } else { 0.0 });
    rows_of(&dense(matrix, order).as_ref().partial_piv_lu().solve(&identity))
}

/// By how much a product of two square matrices misses the identity.
fn identity_misses(left: &[Vec<f64>], right: &[Vec<f64>]) -> Vec<Real> {
    let mut misses = Vec::new();
    for (row, entries) in left.iter().enumerate() {
        for col in 0..left.len() {
            let product: f64 = entries.iter().zip(right).map(|(l, r)| l * r[col]).sum();
            misses.push(real_of(product - if row == col { 1.0 } else { 0.0 }));
        }
    }
    misses
}

/// Inverse of a square matrix.
pub fn invert_square_matrix(matrix: &[Vec<f64>]) -> Result<Vec<Vec<f64>>, String> {
    let invert = |rows: &Vec<Vec<Real>>| real_rows(&inverse_candidate(&float_rows(rows)));
    let misses = |rows: &Vec<Vec<Real>>, inverse: &Vec<Vec<Real>>| {
        identity_misses(&float_rows(rows), &float_rows(inverse))
    };
    systems::invert_square_matrix(&real_rows(matrix), &invert, &misses)
        .map(|inverse| float_rows(&inverse))
        .map_err(|error| describe(&error))
}

/// Inverse of a square matrix of an order, both row by row.
pub fn invert_row_major(matrix: &Vec<Real>, order: usize) -> Option<Vec<Real>> {
    let split = |flat: &[Real]| -> Vec<Vec<f64>> { flat.chunks(order).map(floats).collect() };
    let invert = |flat: &Vec<Real>| reals(&inverse_candidate(&split(flat)).concat());
    let misses =
        |flat: &Vec<Real>, inverse: &Vec<Real>| identity_misses(&split(flat), &split(inverse));
    systems::try_invert_square_matrix_row_major(matrix, &invert, &misses)
}

/// Rank of a matrix at a tolerance.
pub fn rank_of(matrix: &[Vec<Real>], tol: f64) -> usize {
    let divide = |value: Real, pivot: Real| real_of(float(value) / float(pivot));
    let eliminate = |factor: Real, pivot: Real, value: Real| {
        real_of(float(factor).mul_add(-float(pivot), float(value)))
    };
    matrix_rank(matrix, real_of(tol), &divide, &eliminate)
}

/// Lower Cholesky factor, regularised where the matrix is not definite.
pub fn cholesky_lower(matrix: &[Vec<f64>]) -> Result<Vec<Vec<f64>>, String> {
    let numbers = FactorNumbers {
        average: |left: Real, right: Real| real_of(0.5 * (float(left) + float(right))),
        factor: |sym: &Vec<Vec<Real>>| dense_cholesky(sym, LltRegularization::default()),
        jitter: |sym: &Vec<Vec<Real>>, scale: Real| {
            let rule = LltRegularization {
                dynamic_regularization_delta: float(scale) * 1e-12,
                dynamic_regularization_epsilon: 1e-12,
            };
            dense_cholesky(sym, rule)
        },
        eliminate: |value: Real, left: Real, right: Real| {
            real_of(float(left).mul_add(-float(right), float(value)))
        },
        tolerate: |scale: Real| real_of(-(1e-10 * float(scale))),
        root: |value: Real| real_of(float(value).sqrt()),
        divide: |left: Real, right: Real| real_of(float(left) / float(right)),
    };
    cholesky::cholesky_lower(&real_rows(matrix), &numbers)
        .map(|lower| float_rows(&lower))
        .map_err(|error| describe(&error))
}

/// Cholesky factor of a matrix that the regularisation makes definite.
fn dense_cholesky(sym: &[Vec<Real>], rule: LltRegularization<f64>) -> Option<Vec<Vec<Real>>> {
    let n = sym.len();
    let mut buffer = MemBuffer::new(llt::factor::cholesky_in_place_scratch::<f64>(
        n,
        Par::Seq,
        Spec::default(),
    ));
    let mut factor = dense(&float_rows(sym), n);
    llt::factor::cholesky_in_place(
        factor.as_mut(),
        rule,
        Par::Seq,
        MemStack::new(&mut buffer),
        Spec::default(),
    )
    .ok()?;
    let entry = |row: usize, col: usize| if col <= row { factor[(row, col)] } else { 0.0 };
    Some((0..n).map(|row| (0..n).map(|col| real_of(entry(row, col))).collect()).collect())
}

/// Lower triangular matrix times a vector.
pub fn lower_times(lower: &[Vec<f64>], vector: &[f64]) -> Vec<f64> {
    if lower.len() >= 16 {
        let side = Mat::from_fn(vector.len(), 1, |row, _| vector[row]);
        let left = dense(lower, vector.len());
        let mut out = Mat::<f64>::zeros(lower.len(), 1);
        matmul(out.as_mut(), Accum::Replace, left.as_ref(), side.as_ref(), 1.0, Par::Seq);
        return (0..lower.len()).map(|row| out[(row, 0)]).collect();
    }
    lower
        .iter()
        .enumerate()
        .map(|(row, entries)| {
            (0..=row).fold(0.0, |sum, col| f64::mul_add(entries[col], vector[col], sum))
        })
        .collect()
}

/// One standard normal draw by the Box-Muller transform.
pub fn draw_standard_normal(rng: &mut StdRng) -> f64 {
    let u1 = rng.random::<f64>().max(f64::MIN_POSITIVE);
    let u2 = rng.random::<f64>();
    (-2.0_f64 * u1.ln()).sqrt() * (2.0_f64 * std::f64::consts::PI * u2).cos()
}

/// Standard normal draws, two per pair of uniform ones.
pub fn draw_standard_normal_vec(rng: &mut StdRng, len: usize) -> Vec<f64> {
    let shared = RefCell::new(rng);
    let mut pair = || {
        let mut rng = shared.borrow_mut();
        let u1 = rng.random::<f64>().max(f64::MIN_POSITIVE);
        let u2 = rng.random::<f64>();
        let radius = (-2.0_f64 * u1.ln()).sqrt();
        let theta = 2.0_f64 * std::f64::consts::PI * u2;
        (real_of(radius * theta.cos()), real_of(radius * theta.sin()))
    };
    let mut single = || real_of(draw_standard_normal(&mut shared.borrow_mut()));
    floats(&normal::draw_standard_normal_vec(len, &mut pair, &mut single))
}

/// Standard normal draws from a seed.
fn draws_from_seed(seed: u64, dim: usize) -> Vec<Real> {
    reals(&draw_standard_normal_vec(&mut StdRng::seed_from_u64(seed), dim))
}

/// Largest magnitudes of simulated draws with a Cholesky factor.
pub fn simulated_maxima(lower: &[Vec<f64>], draws: usize, seed: u64) -> Vec<f64> {
    let dim = lower.len();
    let draw = |seed: u64| draws_from_seed(seed, dim);
    let correlate = |z: &Vec<Real>| reals(&lower_times(lower, &floats(z)));
    floats(&normal::simulated_lower_cholesky_maxima(dim, draws, seed, &draw, &correlate))
}

/// Draws of the negated moments under a covariance.
pub fn simulation_draws(
    sigma: &[Vec<f64>],
    sims: usize,
    seed: u64,
) -> Result<Vec<Vec<f64>>, String> {
    let lower = cholesky_lower(sigma)?;
    let dim = sigma.len();
    let mut shared = StdRng::seed_from_u64(seed);
    let draw = |seed: u64| draws_from_seed(seed, dim);
    let mut next = || reals(&draw_standard_normal_vec(&mut shared, dim));
    let correlate = |z: &Vec<Real>| reals(&lower_times(&lower, &floats(z)));
    Ok(float_rows(&normal::simulation_draws(sims, dim, seed, &draw, &mut next, &correlate)))
}

/// The solver's matrix of inequality rows followed by equality rows.
pub fn build_clarabel_matrix(
    inequalities: &[Vec<f64>],
    equalities: &[Vec<f64>],
) -> CscMatrix<f64> {
    let (upper, lower) = (real_rows(inequalities), real_rows(equalities));
    let triplets = constraint_triplets(&upper, &lower);
    CscMatrix::new_from_triplets(
        upper.len() + lower.len(),
        constraint_cols(&upper, &lower),
        triplets.iter().map(|entry| entry.row).collect(),
        triplets.iter().map(|entry| entry.col).collect(),
        triplets.iter().map(|entry| float(entry.value)).collect(),
    )
}

/// A row times a square matrix, without the terms of negligible entries.
pub fn project_row(matrix: &[Vec<Real>], row: &[Real]) -> Vec<Real> {
    multiply_row_by_square_matrix(row, matrix, &|sum: Real, left: Real, right: Real| {
        real_of(float(left).mul_add(float(right), float(sum)))
    })
}

/// Inner product of a row of numbers with floating-point numbers.
fn dot_with(row: &[Real], right: &[f64]) -> f64 {
    row.iter().zip(right).map(|(l, r)| float(*l) * r).sum()
}

/// The arithmetic of linear programs.
pub fn lp_numbers() -> impl LpArithmetic {
    LpFunctions {
        divide: |left: Real, right: Real| real_of(float(left) / float(right)),
        lower: |value: Real| real_of(float(value) - 1e-12),
        subtract: |left: Real, right: Real| real_of(float(left) - float(right)),
        accumulate: |sum: Real, left: Real, right: Real| {
            real_of(float(sum) + float(left) * float(right))
        },
        reduce: |cost: Real, column: &Vec<Real>, duals: &Vec<Real>| {
            real_of(float(cost) - dot_with(column, &floats(duals)))
        },
        product: |left: &Vec<Real>, right: &Vec<Real>| real_of(dot_with(left, &floats(right))),
        reciprocal: |value: Real| real_of(1.0 / float(value)),
        multiply: |left: Real, right: Real| real_of(float(left) * float(right)),
        eliminate: |value: Real, factor: Real, pivot: Real| {
            real_of(float(value) - float(factor) * float(pivot))
        },
        total: |values: &Vec<Real>| real_of(floats(values).iter().sum()),
        cost: |start: Real, slope: Real, at: Real| {
            real_of(float(at).mul_add(float(slope), float(start)))
        },
        bound: |start: Real, slope: Real| real_of((1e-9 - float(start)) / float(slope)),
    }
}

/// Whether the number of pivots that a program may take can be counted, and the
/// columns have one length.
fn can_be_solved(columns: &[Vec<Real>], m: usize) -> bool {
    columns.iter().all(|column| column.len() == columns[0].len())
        && columns
            .len()
            .checked_add(m)
            .and_then(|size| size.checked_mul(100))
            .is_some_and(|steps| steps <= usize::MAX - 1_000)
}

/// Whether a program may count another pivot.
fn can_pivot(lp: &DenseSimplex) -> bool {
    lp.state.basis.pivots_since_refactor < usize::MAX
}

/// The moment program of a design, solved for one vector of moments after
/// another.
pub struct MomentSolver {
    workspace: RefCell<ConditionalMomentLpWorkspace>,
}

impl MomentSolver {
    /// The program of a design with standard deviations.
    pub fn new(design: &[Vec<Real>], sd: &[Real]) -> Result<Self, HonestError> {
        let rows = design.first().map_or(1, |row| row.len() + 1);
        assert!(can_be_solved(design, rows), "design rows differ in length");
        let workspace = ConditionalMomentLpWorkspace::new(design, sd, &lp_numbers())?;
        Ok(Self { workspace: RefCell::new(workspace) })
    }

    /// Statistic, nuisance coefficients and multipliers.
    pub fn solve(&self, moments: &[f64]) -> Result<MomentSolution, HonestError> {
        let mut workspace = self.workspace.borrow_mut();
        assert!(can_pivot(&workspace.lp), "pivots cannot be counted");
        workspace.solve_in_place(&reals(moments), &lp_numbers())
    }

    /// The statistic alone.
    pub fn solve_eta_only(&self, moments: &[f64]) -> Result<f64, HonestError> {
        let mut workspace = self.workspace.borrow_mut();
        assert!(can_pivot(&workspace.lp), "pivots cannot be counted");
        workspace.solve_eta_only(&reals(moments), &lp_numbers()).map(float)
    }
}

/// The dual program of a design, solved for one family of costs after another.
pub struct DualSolver {
    workspace: RefCell<DualMaxLpWorkspace>,
}

impl DualSolver {
    /// The program of the given rows.
    pub fn new(rows: &[Vec<Real>]) -> Result<Self, HonestError> {
        let widest = rows.iter().map(Vec::len).max().unwrap_or(0);
        assert!(can_be_solved(&[], widest + rows.len()), "pivots cannot be counted");
        Ok(Self { workspace: RefCell::new(DualMaxLpWorkspace::new(rows)?) })
    }

    /// By how much the dual optimum misses a value.
    pub fn miss(
        &self,
        sigma: &Vec<Vec<Real>>,
        y: &Vec<Real>,
        gamma: &Vec<Real>,
        c: Real,
    ) -> Result<Real, HonestError> {
        let mut workspace = self.workspace.borrow_mut();
        let columns = workspace.lp.program.columns.len();
        assert_eq!(y.len(), columns, "one moment per column");
        assert_eq!(sigma.len(), columns, "one variance per column");
        assert!(can_pivot(&workspace.lp), "pivots cannot be counted");
        workspace.miss(sigma, y, gamma, c, &lp_numbers(), &dual_fallback)
    }
}

/// The dual program where the simplex method fails.
pub fn dual_fallback(program: &ConeProgram, costs: &Vec<Real>) -> Result<Real, String> {
    let answer = solve_dual_max(program, costs)?;
    read_dual_max(answer).map_err(|error| describe(&error))
}

/// The library's name of a solver status.
pub fn status_of(status: SolverStatus) -> ProgramStatus {
    match status {
        SolverStatus::Unsolved => ProgramStatus::Unsolved,
        SolverStatus::Solved => ProgramStatus::Solved,
        SolverStatus::PrimalInfeasible => ProgramStatus::PrimalInfeasible,
        SolverStatus::DualInfeasible => ProgramStatus::DualInfeasible,
        SolverStatus::AlmostSolved => ProgramStatus::AlmostSolved,
        SolverStatus::AlmostPrimalInfeasible => ProgramStatus::AlmostPrimalInfeasible,
        SolverStatus::AlmostDualInfeasible => ProgramStatus::AlmostDualInfeasible,
        SolverStatus::MaxIterations => ProgramStatus::MaxIterations,
        SolverStatus::MaxTime => ProgramStatus::MaxTime,
        SolverStatus::NumericalError => ProgramStatus::NumericalError,
        SolverStatus::InsufficientProgress => ProgramStatus::InsufficientProgress,
        SolverStatus::CallbackTerminated => ProgramStatus::CallbackTerminated,
    }
}

/// Settings without presolve.
fn plain_settings() -> Result<DefaultSettings<f64>, String> {
    DefaultSettingsBuilder::<f64>::default()
        .verbose(false)
        .presolve_enable(false)
        .input_sparse_dropzeros(false)
        .build()
        .map_err(|err| format!("failed to build Clarabel settings: {err}"))
}

/// Settings for a second attempt: presolve, more regularisation and
/// iterations, and looser tolerances.
fn retry_settings() -> Result<DefaultSettings<f64>, String> {
    DefaultSettingsBuilder::<f64>::default()
        .verbose(false)
        .presolve_enable(true)
        .input_sparse_dropzeros(false)
        .static_regularization_constant(1e-7)
        .max_iter(500)
        .tol_gap_abs(1e-7)
        .tol_gap_rel(1e-7)
        .tol_feas(1e-7)
        .build()
        .map_err(|err| format!("failed to build Clarabel retry settings: {err}"))
}

/// A program with linear costs over cones of the given kinds.
pub struct ConeRows {
    /// Rows that are at most their right-hand sides.
    pub inequalities: Vec<Vec<f64>>,
    /// Rows that equal their right-hand sides.
    pub equalities: Vec<Vec<f64>>,
    /// Rows whose slack lies in a second-order cone.
    pub soc_rows: Vec<Vec<f64>>,
    /// Right-hand sides of all rows.
    pub rhs: Vec<f64>,
}

impl ConeRows {
    /// The rows of a program.
    pub fn of(program: &ConeProgram) -> Self {
        Self {
            inequalities: float_rows(&program.inequalities),
            equalities: float_rows(&program.equalities),
            soc_rows: float_rows(&program.soc_rows),
            rhs: floats(&program.rhs),
        }
    }

    /// Status and solution for costs.
    pub fn solve(
        &self,
        cost: &[f64],
        settings: DefaultSettings<f64>,
        context: &str,
    ) -> Result<(ProgramStatus, Vec<f64>), String> {
        let rest = [self.equalities.clone(), self.soc_rows.clone()].concat();
        let matrix = build_clarabel_matrix(&self.inequalities, &rest);
        let mut cones = vec![
            SupportedConeT::NonnegativeConeT(self.inequalities.len()),
            SupportedConeT::ZeroConeT(self.equalities.len()),
        ];
        if !self.soc_rows.is_empty() {
            cones.push(SupportedConeT::SecondOrderConeT(self.soc_rows.len()));
        }
        let quadratic = CscMatrix::<f64>::zeros((cost.len(), cost.len()));
        let mut solver =
            DefaultSolver::new(&quadratic, cost, &matrix, &self.rhs, &cones, settings)
                .map_err(|err| format!("failed to initialize {context}: {err}"))?;
        solver.solve();
        Ok((status_of(solver.solution.status), solver.solution.x.clone()))
    }
}

/// Status and solution of a program, under plain or under looser settings.
pub fn solve_program(
    program: &ConeProgram,
    loose: bool,
) -> Result<ProgramAnswer<Vec<Real>>, String> {
    let settings = if loose { retry_settings()? } else { plain_settings()? };
    let context = if loose { "Clarabel retry solver" } else { "Clarabel solver" };
    let (status, x) =
        ConeRows::of(program).solve(&floats(&program.objective), settings, context)?;
    Ok(ProgramAnswer { status, found: reals(&x) })
}

/// The dual program of given costs by the interior-point solver.
pub fn solve_dual_max(program: &ConeProgram, f: &[Real]) -> Result<ProgramAnswer<Real>, String> {
    let settings = DefaultSettingsBuilder::<f64>::default()
        .verbose(false)
        .build()
        .map_err(|err| format!("failed to build Clarabel settings: {err}"))?;
    let (status, x) = ConeRows::of(program).solve(
        &floats(&program.objective),
        settings,
        "Clarabel dual max LP",
    )?;
    Ok(ProgramAnswer { status, found: real_of(dot_with(f, &x)) })
}

/// The programs of moments, each made when it is first asked for.
#[derive(Default)]
struct Solvers {
    moment: RefCell<Vec<(Vec<Vec<Real>>, Vec<Real>, Rc<MomentSolver>)>>,
    dual: RefCell<Vec<(Vec<Vec<Real>>, Rc<DualSolver>)>>,
}

impl Solvers {
    fn moment(&self, moments: &Moments) -> Result<Rc<MomentSolver>, HonestError> {
        let mut kept = self.moment.borrow_mut();
        let known = kept.iter().rev().find(|(x, sd, _)| *x == moments.design && *sd == moments.sd);
        if let Some((_, _, solver)) = known {
            return Ok(Rc::clone(solver));
        }
        let solver = Rc::new(MomentSolver::new(&moments.design, &moments.sd)?);
        kept.push((moments.design.clone(), moments.sd.clone(), Rc::clone(&solver)));
        Ok(solver)
    }

    fn dual(&self, moments: &Moments) -> Result<Rc<DualSolver>, HonestError> {
        let mut kept = self.dual.borrow_mut();
        if let Some((_, solver)) = kept.iter().rev().find(|(w_t, _)| *w_t == moments.w_t) {
            return Ok(Rc::clone(solver));
        }
        let solver = Rc::new(DualSolver::new(&moments.w_t)?);
        kept.push((moments.w_t.clone(), Rc::clone(&solver)));
        Ok(solver)
    }
}

/// A covariance times multipliers.
fn project(sigma: &[Vec<Real>], gamma: &[f64]) -> Vec<f64> {
    float_rows(sigma).iter().map(|row| dot(row, gamma)).collect()
}

/// Draws of moments, one after the other.
fn simulate(moments: &Moments) -> Result<Vec<Real>, String> {
    let draws = simulation_draws(&float_rows(&moments.sigma), 1_000, 0)?;
    Ok(reals(&draws.concat()))
}

/// Whether a place has reached the rank of a size.
fn reached(kappa: f64, last: usize, place: usize) -> bool {
    let p = (1.0 - kappa).clamp(0.0, 1.0);
    place as f64 >= (last as f64 * p).round()
}

/// How well multipliers fit the dual program.
fn fit(moments: &Moments, y: &[f64], eta: f64, gamma: &[f64]) -> VertexFit {
    let design = float_rows(&moments.design);
    let width = design.first().map_or(0, Vec::len);
    let mut residuals = vec![dot(gamma, &floats(&moments.sd)) - 1.0];
    residuals.extend(
        (0..width).map(|col| gamma.iter().zip(&design).map(|(g, row)| g * row[col]).sum::<f64>()),
    );
    VertexFit { residuals: reals(&residuals), gap: real_of(dot(gamma, y) - eta) }
}

/// Limits of the first stage by a fixed-length interval.
fn limits(data: &SmoothnessFlciHybridData, theta: f64) -> (f64, f64) {
    let scale = (1.0 - float(data.vbar_dot_a_target)) * theta;
    let half = float(data.optimal_half_length);
    let bound = float(data.vbar_dot_d);
    (half - bound + scale, half + bound - scale)
}

/// How the first stage moves along multipliers of all moments.
fn slope(
    data: &SmoothnessFlciHybridData,
    sigma_full: &[Vec<Real>],
    y_full: &[f64],
    gamma_full: &[f64],
    sigma_b2: f64,
    theta: f64,
) -> HybridSlope {
    let sigma_b = sigma_b2.sqrt();
    let projected: Vec<f64> = project(sigma_full, gamma_full)
        .iter()
        .map(|value| value / (sigma_b * sigma_b))
        .collect();
    let gamma_y = dot(gamma_full, y_full);
    let s_full: Vec<f64> = projected
        .iter()
        .zip(y_full)
        .map(|(share, value)| share.mul_add(-gamma_y, *value))
        .collect();
    let (upper, lower) = limits(data, theta);
    let vbar = floats(&data.vbar);
    let (along_s, along_c) = (dot(&vbar, &s_full), dot(&vbar, &projected));
    HybridSlope {
        slope: real_of(along_c),
        at_upper: real_of((upper - along_s) / along_c),
        at_lower: real_of((lower + along_s) / -along_c),
    }
}

/// The arithmetic of the tests.
pub fn test_arithmetic() -> impl TestArithmetic {
    let solvers = Rc::new(Solvers::default());
    let dual = Rc::clone(&solvers);
    let drawn = Solvers::default();
    TestFunctions {
        shift: |base: Real, slope: Real, theta: Real| {
            real_of(float(base) - float(slope) * float(theta))
        },
        solve: move |moments: &Moments, y: &Vec<Real>| {
            let found = solvers.moment(moments).ok()?.solve(&floats(y)).ok()?;
            Some(ProgramSolution {
                eta: found.eta_star,
                delta: found.delta_star,
                multipliers: found.lambda,
            })
        },
        slack: |y: Real, sd: Real, row: &Vec<Real>, solution: &ProgramSolution| {
            let fitted = dot(&floats(row), &floats(&solution.delta));
            real_of(float(solution.eta).mul_add(float(sd), -(float(y) - fitted)))
        },
        invert: |flat: &Vec<Real>, dim: usize| invert_row_major(flat, dim),
        variance: |sigma: &Vec<Vec<Real>>, direction: &Vec<Real>| {
            let direction = floats(direction);
            real_of(bilinear_form(&direction, &float_rows(sigma), &direction).max(0.0))
        },
        coefficients: |sd: Real, row: &Vec<Real>, inverse: &Vec<Real>| {
            let entries = [vec![float(sd)], floats(row)].concat();
            inverse
                .chunks(entries.len())
                .map(|line| real_of(dot(&floats(line), &entries)))
                .collect()
        },
        term: |sigma: &Vec<Vec<Real>>,
               y: &Vec<Real>,
               contrast: &Vec<Real>,
               direction: &Vec<Real>| {
            let (y, contrast, direction) = (floats(y), floats(contrast), floats(direction));
            let rho = bilinear_form(&contrast, &float_rows(sigma), &direction);
            RowTerm {
                rho: real_of(rho),
                maximand: real_of(-dot(&contrast, &y) / rho + dot(&direction, &y)),
            }
        },
        size: |alpha: Real, kappa: Real| {
            real_of((float(alpha) - float(kappa)) / (1.0 - float(kappa)))
        },
        standardize: |low: Real, high: Real, variance: Real, eta: Real| {
            let sigma_b = float(variance).sqrt();
            Standardized {
                zlo: real_of(float(low) / sigma_b),
                zup: real_of(float(high) / sigma_b),
                maxstat: real_of(float(eta) / sigma_b),
            }
        },
        quantile: |size: Real, zlo: Real, zup: Real| {
            truncated_normal_quantile(1.0 - float(size), float(zlo), float(zup)).map(real_of)
        },
        rank: |rows: &Vec<Vec<Real>>| rank_of(rows, 1e-8),
        transposed: |rows: &Vec<Vec<Real>>, rhs: &Vec<Real>| {
            solve_transposed(&float_rows(rows), &floats(rhs)).ok().map(|gamma| reals(&gamma))
        },
        fit: |moments: &Moments, y: &Vec<Real>, eta: Real, gamma: &Vec<Real>| {
            fit(moments, &floats(y), float(eta), &floats(gamma))
        },
        along: |sigma: &Vec<Vec<Real>>, gamma: &Vec<Real>| {
            let gamma = floats(gamma);
            real_of(dot(&gamma, &project(sigma, &gamma)))
        },
        miss: move |moments: &Moments, y: &Vec<Real>, gamma: &Vec<Real>, c: Real| {
            dual.dual(moments)?.miss(&moments.sigma, y, gamma, c)
        },
        width: |high: Real, low: Real| real_of((float(high) - float(low)).abs()),
        midpoint: |high: Real, low: Real| real_of((float(high) + float(low)) * 0.5),
        root: |value: Real| real_of(float(value).sqrt()),
        below: |eta: Real, sd: Real| real_of(20.0f64.mul_add(-float(sd), float(eta))),
        above: |eta: Real, sd: Real| real_of(20.0f64.mul_add(float(sd), float(eta))),
        first_stage: |data: &SmoothnessFlciHybridData, y_full: &Vec<Real>, theta: Real| {
            let (upper, lower) = limits(data, float(theta));
            HybridStatistic {
                value: real_of(dot(&floats(&data.vbar), &floats(y_full))),
                upper: real_of(upper),
                lower: real_of(lower),
            }
        },
        slope: |data: &SmoothnessFlciHybridData,
                sigma_full: &Vec<Vec<Real>>,
                y_full: &Vec<Real>,
                gamma_full: &Vec<Real>,
                sigma_b2: Real,
                theta: Real| {
            let (y_full, gamma_full) = (floats(y_full), floats(gamma_full));
            slope(data, sigma_full, &y_full, &gamma_full, float(sigma_b2), float(theta))
        },
        simulate: |moments: &Moments| simulate(moments),
        optimum: move |moments: &Moments, draw: &Vec<Real>| {
            let solver = drawn.moment(moments).map_err(|error| describe(&error))?;
            Ok(solver.solve_eta_only(&floats(draw)).ok().map(real_of))
        },
        reached: |kappa: Real, last: usize, place: usize| reached(float(kappa), last, place),
        describe: |error: &HonestError| describe(error),
    }
}

/// The confidence set under parallel trends.
pub fn original_set(
    weights: &[f64],
    betas: &[f64],
    block: &[Vec<f64>],
    level: f64,
) -> HonestOriginalConfidenceSet {
    let estimate = dot(weights, betas);
    let mut variance = 0.0;
    for (i, left) in weights.iter().enumerate() {
        for (j, right) in weights.iter().enumerate() {
            variance = (left * right).mul_add(block[i][j], variance);
        }
    }
    let se = f64::max(variance, 0.0).sqrt();
    let margin = z_score_for_confidence(level).unwrap_or(f64::NAN) * se;
    HonestOriginalConfidenceSet {
        estimate: real_of(estimate),
        se: real_of(se),
        ci: (real_of(estimate - margin), real_of(estimate + margin)),
    }
}

/// Number of a coefficient at a bound.
pub fn coefficient_at(coefficient: Coefficient, bound: f64) -> f64 {
    coefficient.constant as f64 + coefficient.multiple as f64 * bound
}

/// Half the sum of two values.
fn middle(left: Real, right: Real) -> Real {
    real_of(0.5 * (float(left) + float(right)))
}

/// The arithmetic of the sets of an event study.
pub fn study_numbers() -> impl StudyArithmetic {
    study_by(solve_program, interval_numbers())
}

/// The arithmetic of the sets of an event study, given that of its programs and
/// of its fixed-length intervals.
pub fn study_by<P, I>(program: P, intervals: I) -> impl StudyArithmetic
where
    P: Fn(&ConeProgram, bool) -> Result<ProgramAnswer<Vec<Real>>, String>,
    I: IntervalArithmetic,
{
    StudyFunctions {
        tests: test_arithmetic(),
        intervals,
        measure: |weights: &Vec<Real>,
                  betas: &Vec<Real>,
                  block: &Vec<Vec<Real>>,
                  inference: InferenceConfig| {
            original_set(
                &floats(weights),
                &floats(betas),
                &float_rows(block),
                float(inference.confidence_level),
            )
        },
        product: |left: &Vec<Real>, right: &Vec<Real>| real_of(dot(&floats(left), &floats(right))),
        shift: |estimate: Real, violation: Real| real_of(float(estimate) - float(violation)),
        value: |c: Coefficient, bound: Real| real_of(coefficient_at(c, float(bound))),
        multiply: |rows: &Vec<Vec<Real>>, vector: &Vec<Real>| {
            reals(&mat_vec(&float_rows(rows), &floats(vector)))
        },
        sandwich: |rows: &Vec<Vec<Real>>, covariance: &Vec<Vec<Real>>| {
            real_rows(&sandwich_covariance(&float_rows(rows), &float_rows(covariance)))
        },
        root: |value: Real| real_of(float(value).sqrt()),
        project: |m: &Vec<Vec<Real>>, row: &Vec<Real>| project_row(m, row),
        invert: |m: &Vec<Vec<Real>>| {
            invert_square_matrix(&float_rows(m)).map(|inverse| real_rows(&inverse))
        },
        program,
        pad: |se: Real| real_of(20.0 * float(se)),
        below: |value: Real, padding: Real| real_of(float(value) - float(padding)),
        above: |value: Real, padding: Real| real_of(float(value) + float(padding)),
        place: |lb: Real, ub: Real, idx: usize, steps: usize| {
            real_of(place_on_grid(float(lb), float(ub), idx, steps))
        },
        distances: |grid: &Vec<Real>, value: Real| {
            grid.iter().map(|point| real_of((float(*point) - float(value)).abs())).collect()
        },
        middle,
        bend: |before: Real, at: Real, after: Real| {
            real_of(float(after) - 2.0 * float(at) + float(before))
        },
        raise: |value: Real| real_of(float(value) + 1e-8),
        moments: |rows: &Vec<Vec<Real>>, bounds: &Vec<Real>, betahat: &Vec<Real>| {
            let values = mat_vec(&float_rows(rows), &floats(betahat));
            values.iter().zip(bounds).map(|(y, d)| real_of(y - float(*d))).collect()
        },
    }
}

/// The sets of an event study.
pub fn study_sets() -> StudySets<impl StudyArithmetic> {
    StudySets { arithmetic: study_numbers() }
}

/// Whether a confidence level lies strictly between zero and one.
pub fn is_valid_level(level: f64) -> bool {
    level > 0.0 && level < 1.0
}

/// The weights, each counted by its place.
fn weighted_post_sum(weights: &[f64]) -> f64 {
    weights.iter().enumerate().map(|(idx, weight)| (idx + 1) as f64 * weight).sum()
}

/// The part of the bias that the pre periods do not move.
fn bias_constant(weights: &[f64]) -> f64 {
    let mut tail = 0.0;
    let magnitudes: f64 = weights
        .iter()
        .rev()
        .map(|weight| {
            tail += *weight;
            f64::abs(tail)
        })
        .sum();
    magnitudes - weighted_post_sum(weights)
}

/// Distribution of the absolute value of a normal variable with unit variance.
fn folded_normal_cdf(mu: f64, q: f64) -> f64 {
    standard_normal().map_or(f64::NAN, |normal| normal.cdf(q - mu) + normal.cdf(q + mu) - 1.0)
}

/// The arithmetic of fixed-length intervals.
pub fn interval_numbers() -> impl IntervalArithmetic {
    intervals_by(|rows: &Vec<Vec<Real>>, right: &Vec<Real>| {
        solve_square_linear_system(&float_rows(rows), &floats(right))
            .map(|solution| reals(&solution))
            .map_err(|message| HonestError::Numerical { message })
    })
}

/// The arithmetic of fixed-length intervals, given that of square systems.
pub fn intervals_by<S>(solve_system: S) -> impl IntervalArithmetic
where
    S: Fn(&Vec<Vec<Real>>, &Vec<Real>) -> Result<Vec<Real>, HonestError>,
{
    IntervalFunctions {
        norm: |values: &Vec<Real>| {
            real_of(floats(values).iter().map(|value| value * value).sum::<f64>().max(0.0).sqrt())
        },
        radius_square: |h: Real, fixed: Real| {
            real_of(float(h).mul_add(float(h), -(float(fixed) * float(fixed))))
        },
        difference: |left: Real, right: Real| real_of(float(left) - float(right)),
        bias: |weights: &Vec<Real>, magnitudes: &Vec<Real>| {
            real_of(bias_constant(&floats(weights)) + floats(magnitudes).iter().sum::<f64>())
        },
        spread: |covariance: &Vec<Vec<Real>>, estimator: &Vec<Real>| {
            let estimator = floats(estimator);
            let projected: Vec<f64> =
                float_rows(covariance).iter().map(|row| dot(row, &estimator)).collect();
            real_of(dot(&estimator, &projected).max(0.0).sqrt())
        },
        step: |lower: Real, upper: Real, points: usize, idx: usize| {
            let step = (float(upper) - float(lower)) / (points - 1) as f64;
            real_of(step.mul_add(idx as f64, float(lower)))
        },
        scale: |factor: Real, value: Real| real_of(float(factor) * float(value)),
        complement: |value: Real| real_of(1.0 - float(value)),
        ratio: |value: Real, unit: Real| real_of(float(value) / float(unit)),
        start: |mu: Real| real_of((float(mu) + 8.0).max(8.0)),
        distribution: |mu: Real, q: Real| real_of(folded_normal_cdf(float(mu), float(q))),
        double: |value: Real| real_of(float(value) * 2.0),
        center: middle,
        ends: |betahat: &Vec<Real>, estimator: &Vec<Real>, half: Real| {
            let center = dot(&floats(estimator), &floats(betahat));
            (real_of(center - float(half)), real_of(center + float(half)))
        },
        weighted_sum: |weights: &Vec<Real>| real_of(weighted_post_sum(&floats(weights))),
        factor: |covariance: &Vec<Vec<Real>>| {
            cholesky_lower(&float_rows(covariance)).map(|lower| real_rows(&lower))
        },
        less: |entry: Real, next: Option<Real>| match next {
            Some(other) => real_of(0.0 + float(entry) - float(other)),
            None => real_of(0.0 + float(entry)),
        },
        accumulate: |sum: Real, entry: Real, weight: Real| {
            real_of(float(entry).mul_add(float(weight), float(sum)))
        },
        at_size: |size: Real| inference_at(1.0 - float(size)),
        solve_system,
        is_level: |level: Real| is_valid_level(float(level)),
    }
}

/// Confidence levels and critical values.
pub fn levels() -> impl Levels {
    LevelArithmetic {
        configure: |level: Real| inference_at(float(level)),
        validate: |level: Real| is_valid_level(float(level)),
        share: |inference: InferenceConfig, count: usize| {
            real_of(1.0 - (1.0 - float(inference.confidence_level)) / count as f64)
        },
        criticize: |level: Real| z_score_for_confidence(float(level)).map(real_of),
        cover: |critical: Real| {
            pointwise_confidence_level_from_critical(float(critical)).map(real_of)
        },
        place: |count: usize, level: Real| {
            (count.saturating_sub(1) as f64 * float(level)).round() as usize
        },
        multiply: |left: &Vec<Real>, right: &Vec<Real>| real_of(dot(&floats(left), &floats(right))),
        total: |values: &Vec<Real>| real_of(floats(values).iter().map(|v| v.abs()).sum()),
        extract: |value: Real| real_of(float(value).sqrt()),
        scale: |left: Real, right: Real| real_of(float(left) * float(right)),
        divide: |covariance: Real, left: Real, right: Real| {
            real_of(float(covariance) / (float(left) * float(right)))
        },
        simulate: |correlation: &Vec<Vec<Real>>, draws: usize, seed: u64| {
            let lower = cholesky_lower(&float_rows(correlation))?;
            Ok(reals(&simulated_maxima(&lower, draws, seed)))
        },
    }
}

/// Variance along a direction, negated, as a cost to minimise.
struct NegatedVariance {
    sigma: Vec<Vec<Real>>,
}

// An implementation of a trait of the search's crate.
impl argmin::core::CostFunction for NegatedVariance {
    type Param = Vec<f64>;
    type Output = f64;

    fn cost(&self, param: &Self::Param) -> Result<Self::Output, argmin::core::Error> {
        let numbers = directions();
        Ok(match canonicalize_unit_direction(&reals(param), &numbers) {
            None => 1e6,
            Some(unit) => -float(projected_variance(&unit, &self.sigma, &numbers)),
        })
    }
}

/// Best vertex that a simplex search finds.
fn search_vertices(
    simplex: Vec<Vec<Real>>,
    sigma: &[Vec<Real>],
) -> Result<Option<Vec<Real>>, String> {
    let solver = argmin::solver::neldermead::NelderMead::new(float_rows(&simplex))
        .with_sd_tolerance(1e-5)
        .map_err(|err| format!("failed to configure Nelder-Mead tolerance: {err}"))?;
    let result = argmin::core::Executor::new(NegatedVariance { sigma: sigma.to_vec() }, solver)
        .configure(|state: argmin::core::IterState<Vec<f64>, (), (), (), (), f64>| {
            state.max_iters(35)
        })
        .run()
        .map_err(|err| format!("Nelder-Mead refinement failed: {err}"))?;
    Ok(argmin::core::State::get_best_param(result.state()).map(|vertex| reals(vertex)))
}

/// Directions of post periods.
pub fn directions() -> impl DirectionNumbers {
    DirectionArithmetic {
        square: |direction: &Vec<Real>| real_of(floats(direction).iter().map(|v| v * v).sum()),
        scale: |value: Real, norm2: Real| real_of(float(value) / float(norm2).sqrt()),
        form: |direction: &Vec<Real>, sigma: &Vec<Vec<Real>>| {
            let direction = floats(direction);
            let rows = float_rows(sigma);
            real_of(rows.iter().zip(&direction).map(|(row, d)| d * dot(row, &direction)).sum())
        },
        step: |value: Real| real_of(float(value) + 0.15),
        search: |simplex: Vec<Vec<Real>>, sigma: &Vec<Vec<Real>>| search_vertices(simplex, sigma),
        round: |value: Real| (float(value) * 1e10).round() as i64,
        draw: |seed: u64, count: usize, len: usize| {
            let mut rng = StdRng::seed_from_u64(seed);
            (0..count).map(|_| reals(&draw_standard_normal_vec(&mut rng, len))).collect()
        },
        subtract: |left: Real, right: Real| real_of(float(left) - float(right)),
    }
}

/// Grids of bounds.
pub fn grids() -> impl GridNumbers {
    GridArithmetic {
        multiply: |rows: &Vec<Vec<Coefficient>>, values: &Vec<Real>| {
            let values = floats(values);
            rows.iter()
                .map(|row| {
                    let numbers: Vec<f64> =
                        row.iter().map(|c| coefficient_at(*c, 0.0)).collect();
                    real_of(dot(&numbers, &values))
                })
                .collect()
        },
        deviate: |rows: &Vec<Vec<Coefficient>>, sigma: &Vec<Vec<Real>>| {
            let numbers: Vec<Vec<f64>> = rows
                .iter()
                .map(|row| row.iter().map(|c| coefficient_at(*c, 0.0)).collect())
                .collect();
            let covariance = sandwich_covariance(&numbers, &float_rows(sigma));
            (0..rows.len()).map(|i| real_of(covariance[i][i].max(0.0).sqrt())).collect()
        },
        invert: |alpha: Real| standard_normal().map(|n| real_of(n.inverse_cdf(1.0 - float(alpha)))),
        extend: |value: Real, quantile: Real, deviation: Real| {
            real_of(float(quantile).mul_add(float(deviation), float(value)))
        },
        extract: |value: Real| real_of(float(value).sqrt()),
        space: |lower: Real, upper: Real, points: usize| {
            linear_grid(lower, upper, points, &study_numbers())
        },
    }
}

/// Covariances of estimators from their influence functions.
pub fn covariances() -> impl CovarianceNumbers {
    CovarianceArithmetic {
        average: |values: &Vec<Real>| {
            real_of(floats(values).iter().sum::<f64>() / values.len() as f64)
        },
        subtract: |left: Real, right: Real| real_of(float(left) - float(right)),
        increase: |left: Real, right: Real| real_of(float(left) + float(right)),
        correct: |count: usize| real_of(count as f64 / (count as f64 - 1.0)),
        rescale: |correction: Real, count: usize| {
            real_of(float(correction) / (count as f64 * count as f64))
        },
        multiply: |_: bool, left: &Vec<Vec<Real>>, right: &Vec<Vec<Real>>, scale: Real| {
            let (left, right) = (float_rows(left), float_rows(right));
            left.iter()
                .map(|a| right.iter().map(|b| real_of(dot(a, b) * float(scale))).collect())
                .collect()
        },
    }
}

/// Share of each of a number of parts.
pub fn share(count: usize) -> Real {
    real_of(1.0 / count as f64)
}

/// Sum of two numbers.
pub fn plus(left: Real, right: Real) -> Real {
    real_of(float(left) + float(right))
}

/// Identified set of a single post period.
pub fn scalar_bounds(estimate: Real, bias: ScalarBias) -> (Real, Real) {
    let estimate = float(estimate);
    match bias {
        ScalarBias::Trend { last, m } => (
            real_of(estimate - (-float(last) + float(m))),
            real_of(estimate - (-float(last) - float(m))),
        ),
        ScalarBias::Magnitude { largest, m } => {
            let bound = float(m) * float(largest);
            (real_of(estimate - bound), real_of(estimate + bound))
        }
    }
}

/// Interval around an identified set.
pub fn scalar_widen(set: (Real, Real), se: Real, inference: InferenceConfig) -> (Real, Real) {
    let z = z_score_for_confidence(float(inference.confidence_level)).unwrap_or(f64::NAN);
    (
        real_of(z.mul_add(-float(se), float(set.0))),
        real_of(z.mul_add(float(se), float(set.1))),
    )
}

// ---------------------------------------------------------------------------
// Helpers
// ---------------------------------------------------------------------------

fn study_input(
    betahat: &[f64],
    covariance: &[Vec<f64>],
    pre_periods: &[i32],
    post_periods: &[i32],
) -> HonestEventStudyInput {
    HonestEventStudyInput {
        betahat: reals(betahat),
        covariance: real_rows(covariance),
        pre_periods: pre_periods.to_vec(),
        post_periods: post_periods.to_vec(),
    }
}

fn diagonal(values: &[f64]) -> Vec<Vec<f64>> {
    (0..values.len())
        .map(|i| (0..values.len()).map(|j| if i == j { values[i] } else { 0.0 }).collect())
        .collect()
}

fn two_post_input() -> HonestEventStudyInput {
    study_input(
        &[1.0, 2.0, 10.0, 20.0],
        &diagonal(&[0.25, 0.25, 1.0, 4.0]),
        &[-2, -1],
        &[0, 1],
    )
}

fn original_of(
    input: &HonestEventStudyInput,
    weights: &[f64],
    inference: InferenceConfig,
) -> HonestOriginalConfidenceSet {
    study_sets()
        .original(input, &reals(weights), inference)
        .expect("original confidence set")
}

fn magnitude_identified(
    input: &HonestEventStudyInput,
    weights: &[f64],
    mbar: f64,
) -> HonestIdentifiedSet {
    compute_relative_magnitude_identified_set(
        input,
        &reals(weights),
        real_of(mbar),
        &study_numbers(),
    )
    .expect("identified set")
}

fn assert_same_interval(left: (Real, Real), right: (Real, Real)) {
    for (left_bound, right_bound) in
        [(float(left.0), float(right.0)), (float(left.1), float(right.1))]
    {
        if left_bound.is_infinite() || right_bound.is_infinite() {
            assert_eq!(left_bound, right_bound);
        } else {
            assert!((left_bound - right_bound).abs() < 1e-8);
        }
    }
}

// ---------------------------------------------------------------------------
// Scalar intervals and identified sets
// ---------------------------------------------------------------------------

#[test]
fn honest_ci_smoothness_bounds_identified_set() {
    let target = ScalarEstimate { att: real_of(10.0), se: real_of(1.0) };
    let pre_trend = vec![ScalarEstimate { att: real_of(1.0), se: real_of(0.5) }];
    let vcov = real_rows(&[vec![0.25, 0.0], vec![0.0, 1.0]]);
    let inference = inference_at(0.95);
    let result = compute_honest_ci_scalar(
        target,
        &pre_trend,
        &vcov,
        HonestSensitivity::Smoothness(real_of(0.0)),
        inference,
        &scalar_bounds,
        &scalar_widen,
    )
    .unwrap();
    assert_eq!(result.identified_set, (real_of(11.0), real_of(11.0)));
    let result_m2 = compute_honest_ci_scalar(
        target,
        &pre_trend,
        &vcov,
        HonestSensitivity::Smoothness(real_of(2.0)),
        inference,
        &scalar_bounds,
        &scalar_widen,
    )
    .unwrap();
    assert_eq!(result_m2.identified_set, (real_of(9.0), real_of(13.0)));
}

#[test]
fn honest_ci_relative_magnitude_bounds_identified_set() {
    let result = compute_honest_ci_scalar(
        ScalarEstimate { att: real_of(10.0), se: real_of(1.0) },
        &vec![ScalarEstimate { att: real_of(2.0), se: real_of(0.5) }],
        &real_rows(&[vec![0.25, 0.0], vec![0.0, 1.0]]),
        HonestSensitivity::RelativeMagnitude(real_of(1.0)),
        inference_at(0.95),
        &scalar_bounds,
        &scalar_widen,
    )
    .unwrap();
    assert_eq!(result.identified_set, (real_of(8.0), real_of(12.0)));
}

#[test]
fn honest_event_study_scalar_returns_one_result_per_post_period() {
    let input = two_post_input();
    let results = compute_honest_event_study_scalar_for_input(
        &input,
        HonestSensitivity::RelativeMagnitude(real_of(1.0)),
        inference_at(0.95),
        &study_sets(),
        &study_sets(),
    )
    .unwrap();
    assert_eq!(results.len(), 2);
    assert_eq!(results[0].post_period, 0);
    assert_eq!(results[1].post_period, 1);
    assert!(results.iter().all(|point| float(point.result.robust_ci.0).is_finite()));
    assert!(results.iter().all(|point| float(point.result.robust_ci.1).is_finite()));
}

#[test]
fn construct_honest_original_cs_matches_manual_single_post_period() {
    let input = two_post_input();
    let result = compute_original_confidence_set(
        &input,
        &reals(&[1.0, 0.0]),
        inference_at(0.95),
        &study_numbers(),
    )
    .expect("original cs");
    assert_eq!(float(result.estimate), 10.0);
    assert_eq!(float(result.se), 1.0);
    assert!(float(result.ci.0) < 10.0);
    assert!(float(result.ci.1) > 10.0);
}

#[test]
fn delta_rm_identified_set_matches_single_post_scalar_case() {
    let input = study_input(&[2.0, 10.0], &diagonal(&[0.25, 1.0]), &[-1], &[0]);
    let identified = magnitude_identified(&input, &[1.0], 1.0);
    assert!((float(identified.lb) - 8.0).abs() < 1e-6);
    assert!((float(identified.ub) - 12.0).abs() < 1e-6);
}

// ---------------------------------------------------------------------------
// Assessments
// ---------------------------------------------------------------------------

#[test]
fn assess_honest_event_study_period_reports_significance_against_zero() {
    let input = two_post_input();
    let assessment = assess_honest_event_study_period(
        &input,
        0,
        HonestSensitivity::RelativeMagnitude(real_of(1.0)),
        inference_at(0.95),
        real_of(0.0),
        &study_sets(),
    )
    .expect("period assessment");
    assert_eq!(float(assessment.null_value), 0.0);
    assert!(float(assessment.robust_ci.0) <= float(assessment.robust_ci.1));
    assert!(assessment.robustly_significant);
}

#[test]
fn assess_honest_event_study_functional_supports_average_post_effects() {
    let input = two_post_input();
    let assessment = assess_honest_event_study_functional(
        &input,
        &reals(&[0.5, 0.5]),
        HonestSensitivity::RelativeMagnitude(real_of(1.0)),
        inference_at(0.95),
        real_of(0.0),
        &study_sets(),
    )
    .expect("functional assessment");
    assert!((float(assessment.estimate) - 15.0).abs() < 1e-8);
    assert!(float(assessment.robust_ci.0) <= float(assessment.robust_ci.1));
    assert!(float(assessment.original_ci.0) <= float(assessment.original_ci.1));
}

#[test]
fn assess_honest_event_study_functional_supports_smoothness_non_basis_functional() {
    let input = study_input(
        &[1.0, 1.2, 10.0, 20.0],
        &diagonal(&[0.25, 0.25, 1.0, 4.0]),
        &[-2, -1],
        &[0, 1],
    );
    let assessment = assess_honest_event_study_functional(
        &input,
        &reals(&[0.5, 0.5]),
        HonestSensitivity::Smoothness(real_of(0.5)),
        inference_at(0.95),
        real_of(0.0),
        &study_sets(),
    )
    .expect("smoothness should support non-basis functionals");
    assert!((float(assessment.estimate) - 15.0).abs() < 1e-8);
    assert!(float(assessment.robust_ci.0) <= float(assessment.robust_ci.1));
    assert!(float(assessment.identified_set.0) <= float(assessment.identified_set.1));
}

#[test]
fn honest_event_study_scalar_smoothness_matches_delta_sd_conditional_cs_for_basis_periods() {
    let input = study_input(
        &[1.0, 1.2, 10.0, 20.0],
        &[
            vec![0.25, 0.05, 0.0, 0.0],
            vec![0.05, 0.25, 0.0, 0.0],
            vec![0.0, 0.0, 1.0, 0.2],
            vec![0.0, 0.0, 0.2, 4.0],
        ],
        &[-2, -1],
        &[0, 1],
    );
    let inference = inference_at(0.95);
    let m = real_of(0.5);
    let sets = study_sets();
    let results = compute_honest_event_study_scalar_for_input(
        &input,
        HonestSensitivity::Smoothness(m),
        inference,
        &sets,
        &study_sets(),
    )
    .expect("smoothness scalar results");
    for (post_idx, point) in results.iter().enumerate() {
        let post_weights = basis_post_weights(input.num_post_periods(), post_idx);
        let original = sets.original(&input, &post_weights, inference).expect("original");
        let identified = sets
            .smoothness_identified(SmoothnessFamily::Plain, &input, &post_weights, m)
            .expect("idset");
        let conditional = sets
            .smoothness_confidence(
                SmoothnessFamily::Plain,
                &input,
                &post_weights,
                m,
                inference,
                SmoothnessConfidenceSetConfig::from_inference(inference),
            )
            .expect("conditional cs");
        let (estimate, se) = (point.result.original_estimate, point.result.original_se);
        assert!((float(estimate) - float(original.estimate)).abs() < 1e-8);
        assert!((float(se) - float(original.se)).abs() < 1e-8);
        assert_same_interval(point.result.robust_ci, (conditional.lb, conditional.ub));
        assert_same_interval(point.result.identified_set, (identified.lb, identified.ub));
    }
}

// ---------------------------------------------------------------------------
// Smoothness restrictions
// ---------------------------------------------------------------------------

#[test]
fn delta_sd_conditional_moments_match_r_post_period_row_filtering() {
    let full = build_smoothness_moment_system(2, 2, real_of(0.5), false);
    assert_eq!(full.constraint_matrix.len(), 6);
    assert_eq!(full.constraint_bounds, vec![real_of(0.5); 6]);
    assert_eq!(full.rows_for_arp, vec![0, 1, 2, 3, 4, 5]);
    let filtered = build_smoothness_moment_system(2, 2, real_of(0.5), true);
    assert_eq!(filtered.constraint_matrix, full.constraint_matrix);
    assert_eq!(filtered.constraint_bounds, full.constraint_bounds);
    assert_eq!(filtered.rows_for_arp, vec![1, 2, 4, 5]);
}

#[test]
fn delta_sdb_and_sdm_conditional_moments_match_r_row_counts() {
    let sdb = build_signed_smoothness_moment_system(
        2,
        2,
        real_of(0.5),
        HonestBiasDirection::Positive,
        true,
    );
    assert_eq!(sdb.constraint_matrix.len(), 8);
    assert_eq!(sdb.constraint_bounds, reals(&[0.5, 0.5, 0.5, 0.5, 0.5, 0.5, 0.0, 0.0]));
    assert_eq!(sdb.rows_for_arp, vec![1, 2, 4, 5, 6, 7]);
    let sdm = build_monotone_smoothness_moment_system(
        2,
        2,
        real_of(0.5),
        HonestMonotonicityDirection::Increasing,
        true,
    );
    assert_eq!(sdm.constraint_matrix.len(), 10);
    assert_eq!(
        sdm.constraint_bounds,
        reals(&[0.5, 0.5, 0.5, 0.5, 0.5, 0.5, 0.0, 0.0, 0.0, 0.0])
    );
    assert_eq!(sdm.rows_for_arp, vec![1, 2, 4, 5, 8, 9]);
}

fn violating_input() -> HonestEventStudyInput {
    study_input(&[0.0, 10.0, 5.0], &diagonal(&[1.0, 1.0, 1.0]), &[-2, -1], &[0])
}

fn smoothness_interval(
    input: &HonestEventStudyInput,
    m: f64,
    config: SmoothnessConfidenceSetConfig,
) -> (Real, Real) {
    let set = study_sets()
        .smoothness_confidence(
            SmoothnessFamily::Plain,
            input,
            &reals(&[1.0]),
            real_of(m),
            inference_at(0.95),
            config,
        )
        .expect("conditional cs");
    (set.lb, set.ub)
}

#[test]
fn delta_sd_conditional_cs_returns_unbounded_interval_when_pretrends_violate_bound() {
    let inference = inference_at(0.95);
    let result = smoothness_interval(
        &violating_input(),
        1.0,
        SmoothnessConfidenceSetConfig::from_inference(inference),
    );
    assert_eq!(float(result.0), f64::NEG_INFINITY);
    assert_eq!(float(result.1), f64::INFINITY);
}

#[test]
fn delta_sd_conditional_cs_default_matches_explicit_flci_config() {
    let input = violating_input();
    let inference = inference_at(0.95);
    let default_result = honest_did::smoothness::compute_smoothness_confidence_set(
        &input,
        &reals(&[1.0]),
        real_of(1.0),
        inference,
        &study_numbers(),
    )
    .expect("default conditional cs");
    let explicit = smoothness_interval(
        &input,
        1.0,
        SmoothnessConfidenceSetConfig::from_inference(inference),
    );
    assert_same_interval((default_result.lb, default_result.ub), explicit);
}

fn gentle_input() -> HonestEventStudyInput {
    study_input(&[0.0, 0.2, 1.0], &diagonal(&[0.25, 0.25, 0.5]), &[-2, -1], &[0])
}

fn with_hybrid(hybrid: SmoothnessHybrid) -> SmoothnessConfidenceSetConfig {
    SmoothnessConfidenceSetConfig {
        hybrid,
        ..SmoothnessConfidenceSetConfig::from_inference(inference_at(0.95))
    }
}

#[test]
fn delta_sd_conditional_cs_least_favorable_is_nested_in_arp() {
    let input = gentle_input();
    let arp = smoothness_interval(&input, 0.5, with_hybrid(SmoothnessHybrid::ArpOnly));
    let lf = smoothness_interval(&input, 0.5, with_hybrid(SmoothnessHybrid::LeastFavorable));
    assert!(float(arp.0) <= float(lf.0));
    assert!(float(lf.1) <= float(arp.1));
}

#[test]
fn delta_sd_adaptive_grid_matches_full_grid_interval() {
    let input = gentle_input();
    let config = with_hybrid(SmoothnessHybrid::ArpOnly);
    let adaptive = smoothness_interval(&input, 0.5, config);
    let numbers = study_numbers();
    let system =
        build_smoothness_moment_system(2, 1, real_of(0.5), config.post_period_moments_only);
    let setup: LinearSetup =
        prepare_linear_sensitivity(&system, &input, &reals(&[1.0]), &numbers)
            .expect("moments of the functional");
    let identified = study_sets()
        .smoothness_identified(SmoothnessFamily::Plain, &input, &reals(&[1.0]), real_of(0.5))
        .expect("idset");
    let original = original_of(&input, &[1.0], inference_at(0.95));
    let (lower, upper) = grid_bounds_around_identified_set(original, identified, &numbers);
    let grid = linear_grid(lower, upper, config.grid_points, &numbers);
    let moments = Moments {
        y_base: setup.views.y_arp_base.clone(),
        a_target: setup.views.a_target_arp.clone(),
        design: setup.views.x_arp.clone(),
        sigma: setup.views.sigma_arp.clone(),
        sd: setup.sd_arp.clone(),
        w_t: setup.w_t.clone(),
    };
    let full = FullMoments {
        y_base: setup.y_full_base.clone(),
        a_target: setup.a_target_full.clone(),
        sigma: setup.sigma_full.clone(),
        rows_for_arp: system.rows_for_arp.clone(),
    };
    let tests = SmoothnessTests {
        arithmetic: numbers.tests(),
        moments: &moments,
        full: &full,
        level: TestLevel {
            alpha: inference_at(0.95).alpha,
            kappa: config.hybrid_kappa,
            lf_cv: Real::infinity(),
        },
        hybrid: config.hybrid,
        flci: &None,
    };
    let range = compute_accepted_grid_range_full_grid(&grid, |theta: Real| tests.decide(theta))
        .expect("full-grid conditional cs")
        .expect("accepted points");
    assert_same_interval(adaptive, (grid[range.lower_idx], grid[range.upper_idx]));
}

#[test]
fn delta_sd_upper_bound_mpre_matches_manual_second_difference_bound() {
    let input = study_input(
        &[1.0, 2.0, 4.0, 10.0],
        &diagonal(&[1.0, 1.0, 1.0, 1.0]),
        &[-3, -2, -1],
        &[0],
    );
    let mub = estimate_smoothness_upper_bound_from_pretrends(&input, real_of(0.05), &grids())
        .expect("upper bound");
    assert!(float(mub).is_finite());
    assert!(float(mub) > 0.0);
}

#[test]
fn delta_sdb_and_sdm_identified_sets_are_well_formed() {
    let input = study_input(
        &[0.0, 0.1, 0.4, 0.6],
        &diagonal(&[0.25, 0.25, 0.5, 0.5]),
        &[-2, -1],
        &[0, 1],
    );
    let sets = study_sets();
    for family in [
        SmoothnessFamily::Signed(HonestBiasDirection::Positive),
        SmoothnessFamily::Monotone(HonestMonotonicityDirection::Increasing),
    ] {
        let set = sets
            .smoothness_identified(family, &input, &reals(&[1.0, 0.0]), real_of(0.5))
            .expect("identified set");
        let (lb, ub) = (float(set.lb), float(set.ub));
        assert!(lb <= ub);
        assert!(lb.is_finite() || lb == f64::NEG_INFINITY);
        assert!(ub.is_finite() || ub == f64::INFINITY);
    }
}

// ---------------------------------------------------------------------------
// Summaries
// ---------------------------------------------------------------------------

#[test]
fn create_honest_sensitivity_results_defaults_to_flci_and_default_m_grid() {
    let input = violating_input();
    let result = summarize_smoothness_sensitivity(
        &input,
        inference_at(0.95),
        &reals(&[1.0]),
        None,
        None,
        None,
        None,
        &levels(),
        &study_sets(),
        &grids(),
    )
    .expect("wrapper results");
    assert_eq!(result.rows.len(), 10);
    assert!(result.rows.iter().all(|row| row.method == SensitivitySummaryMethod::Flci));
    assert!(result.rows.iter().all(|row| row.delta == "DeltaSD"));
    assert!(result.rows.iter().all(|row| row.sensitivity_name == "M"));
}

#[test]
fn create_honest_sensitivity_results_conditional_method_uses_requested_labels() {
    let input = gentle_input();
    let result = summarize_smoothness_sensitivity(
        &input,
        inference_at(0.95),
        &reals(&[1.0]),
        Some(SensitivitySummaryMethod::ConditionalLeastFavorable),
        Some(&reals(&[0.0, 0.5])),
        None,
        None,
        &levels(),
        &study_sets(),
        &grids(),
    )
    .expect("conditional wrapper results");
    assert_eq!(result.rows.len(), 2);
    assert!(
        result
            .rows
            .iter()
            .all(|row| row.method == SensitivitySummaryMethod::ConditionalLeastFavorable)
    );
}

fn one_post_input() -> HonestEventStudyInput {
    study_input(&[1.0, 2.0, 10.0], &diagonal(&[0.25, 0.25, 1.0]), &[-2, -1], &[0])
}

#[test]
fn create_honest_sensitivity_results_relative_magnitudes_defaults_to_c_lf() {
    let input = one_post_input();
    let result = summarize_relative_magnitude_sensitivity(
        &input,
        inference_at(0.95),
        &reals(&[1.0]),
        None,
        None,
        None,
        None,
        None,
        &levels(),
        &study_sets(),
        &grids(),
    )
    .expect("relative magnitude wrapper results");
    assert_eq!(result.rows.len(), 10);
    assert!(
        result
            .rows
            .iter()
            .all(|row| row.method == SensitivitySummaryMethod::ConditionalLeastFavorable)
    );
    assert!(result.rows.iter().all(|row| row.delta == "DeltaRM"));
    assert!(result.rows.iter().all(|row| row.sensitivity_name == "Mbar"));
}

#[test]
fn create_honest_sensitivity_results_relative_magnitudes_rejects_flci_method() {
    let input = one_post_input();
    let err = summarize_relative_magnitude_sensitivity(
        &input,
        inference_at(0.95),
        &reals(&[1.0]),
        Some(SensitivitySummaryMethod::Flci),
        Some(&reals(&[0.0])),
        None,
        None,
        None,
        &levels(),
        &study_sets(),
        &grids(),
    )
    .expect_err("unsupported method should error");
    assert!(describe(&err).contains("supports only Conditional and C-LF"));
}

fn rising_input() -> HonestEventStudyInput {
    study_input(&[0.0, 0.1, 0.4], &diagonal(&[0.25, 0.25, 0.5]), &[-2, -1], &[0])
}

#[test]
fn create_honest_sensitivity_results_supports_sign_and_monotone_variants() {
    let input = rising_input();
    let sign_restricted = summarize_smoothness_sensitivity(
        &input,
        inference_at(0.95),
        &reals(&[1.0]),
        None,
        Some(&reals(&[0.0])),
        Some(HonestBiasDirection::Positive),
        None,
        &levels(),
        &study_sets(),
        &grids(),
    )
    .expect("sign-restricted wrapper");
    assert_eq!(sign_restricted.rows[0].method, SensitivitySummaryMethod::ConditionalFlci);
    assert_eq!(sign_restricted.rows[0].delta, "DeltaSDPB");
    let monotone = summarize_smoothness_sensitivity(
        &input,
        inference_at(0.95),
        &reals(&[1.0]),
        Some(SensitivitySummaryMethod::ConditionalLeastFavorable),
        Some(&reals(&[0.0])),
        None,
        Some(HonestMonotonicityDirection::Decreasing),
        &levels(),
        &study_sets(),
        &grids(),
    )
    .expect("monotone wrapper");
    assert_eq!(
        monotone.rows[0].method,
        SensitivitySummaryMethod::ConditionalLeastFavorable
    );
    assert_eq!(monotone.rows[0].delta, "DeltaSDD");
}

#[test]
fn create_honest_sensitivity_results_relative_magnitudes_supports_sign_and_monotone_variants() {
    let input = rising_input();
    let sign_restricted = summarize_relative_magnitude_sensitivity(
        &input,
        inference_at(0.95),
        &reals(&[1.0]),
        None,
        Some(&reals(&[0.0])),
        None,
        Some(HonestBiasDirection::Positive),
        None,
        &levels(),
        &study_sets(),
        &grids(),
    )
    .expect("relative sign-restricted wrapper");
    assert_eq!(
        sign_restricted.rows[0].method,
        SensitivitySummaryMethod::ConditionalLeastFavorable
    );
    assert_eq!(sign_restricted.rows[0].delta, "DeltaRMPB");
    let monotone = summarize_relative_magnitude_sensitivity(
        &input,
        inference_at(0.95),
        &reals(&[1.0]),
        Some(SensitivitySummaryMethod::Conditional),
        Some(&reals(&[0.0])),
        None,
        None,
        Some(HonestMonotonicityDirection::Decreasing),
        &levels(),
        &study_sets(),
        &grids(),
    )
    .expect("relative monotone wrapper");
    assert_eq!(monotone.rows[0].method, SensitivitySummaryMethod::Conditional);
    assert_eq!(monotone.rows[0].delta, "DeltaRMD");
}

fn trend_input() -> HonestEventStudyInput {
    study_input(
        &[0.0, 0.1, 0.2, 0.4],
        &diagonal(&[0.25, 0.25, 0.5, 0.5]),
        &[-3, -2],
        &[0, 1],
    )
}

fn trend_label(
    method: Option<SensitivitySummaryMethod>,
    bias: Option<HonestBiasDirection>,
    monotonicity: Option<HonestMonotonicityDirection>,
) -> &'static str {
    let input = trend_input();
    summarize_relative_magnitude_sensitivity(
        &input,
        inference_at(0.95),
        &reals(&[1.0, 0.0]),
        method,
        Some(&reals(&[0.0])),
        Some(HonestRelativeMagnitudeBound::LinearTrendDeviation),
        bias,
        monotonicity,
        &levels(),
        &study_sets(),
        &grids(),
    )
    .expect("linear-trend wrapper")
    .rows[0]
        .delta
}

#[test]
fn create_honest_sensitivity_results_relative_magnitudes_supports_linear_trend_variants() {
    assert_eq!(trend_label(None, None, None), "DeltaSDRM");
    assert_eq!(
        trend_label(None, Some(HonestBiasDirection::Positive), None),
        "DeltaSDRMPB"
    );
    assert_eq!(
        trend_label(
            Some(SensitivitySummaryMethod::Conditional),
            None,
            Some(HonestMonotonicityDirection::Increasing)
        ),
        "DeltaSDRMI"
    );
}

#[test]
fn honest_did_returns_original_and_robust_results_for_requested_post_period() {
    let input = trend_input();
    let result = summarize_post_period_sensitivity(
        &input,
        1,
        SensitivityRestrictionKind::RelativeMagnitude,
        inference_at(0.95),
        None,
        Some(&reals(&[0.0, 1.0])),
        Some(HonestRelativeMagnitudeBound::LinearTrendDeviation),
        None,
        None,
        &levels(),
        &study_sets(),
        &grids(),
    )
    .expect("summarize_post_period_sensitivity result");
    assert_eq!(result.post_period, 1);
    assert_eq!(result.sensitivity_type, SensitivityRestrictionKind::RelativeMagnitude);
    assert_eq!(float(result.orig_ci.estimate), 0.4);
    assert_eq!(result.robust_ci.rows.len(), 2);
    assert!(result.robust_ci.rows.iter().all(|row| row.delta == "DeltaSDRM"));
}

#[test]
fn delta_sdrm_family_results_are_well_formed() {
    let input = trend_input();
    let sets = study_sets();
    for family in [
        RelativeMagnitudeFamily::Linear,
        RelativeMagnitudeFamily::SignedLinear(HonestBiasDirection::Positive),
        RelativeMagnitudeFamily::MonotoneLinear(HonestMonotonicityDirection::Increasing),
    ] {
        let set = sets
            .magnitude_identified(family, &input, &reals(&[1.0, 0.0]), real_of(0.0))
            .expect("identified set");
        assert!(float(set.lb) <= float(set.ub));
    }
}

#[test]
fn linear_trend_relative_magnitude_requires_two_pre_periods() {
    let input = study_input(&[0.0, 0.4], &diagonal(&[0.25, 0.5]), &[-2], &[0]);
    let err = summarize_relative_magnitude_sensitivity(
        &input,
        inference_at(0.95),
        &reals(&[1.0]),
        None,
        Some(&reals(&[0.0])),
        Some(HonestRelativeMagnitudeBound::LinearTrendDeviation),
        None,
        None,
        &levels(),
        &study_sets(),
        &grids(),
    )
    .expect_err("linear-trend bound should require two pre-periods");
    assert!(describe(&err).contains("at least two pre-periods"));
}

fn flat_input() -> HonestEventStudyInput {
    study_input(&[0.0, 0.1, 0.2], &diagonal(&[0.25, 0.25, 0.5]), &[-2, -1], &[0])
}

#[test]
fn honest_did_errors_for_missing_post_period() {
    let input = flat_input();
    let err = summarize_post_period_sensitivity(
        &input,
        5,
        SensitivityRestrictionKind::Smoothness,
        inference_at(0.95),
        None,
        Some(&reals(&[0.0])),
        None,
        None,
        None,
        &levels(),
        &study_sets(),
        &grids(),
    )
    .expect_err("missing post period should error");
    assert!(describe(&err).contains("post period 5 not found"));
}

#[test]
fn honest_did_supports_smoothness_path() {
    let input = flat_input();
    let result = summarize_post_period_sensitivity(
        &input,
        0,
        SensitivityRestrictionKind::Smoothness,
        inference_at(0.95),
        Some(SensitivitySummaryMethod::ConditionalLeastFavorable),
        Some(&reals(&[0.0, 0.5])),
        None,
        None,
        None,
        &levels(),
        &study_sets(),
        &grids(),
    )
    .expect("smoothness summarize_post_period_sensitivity");
    assert_eq!(result.sensitivity_type, SensitivityRestrictionKind::Smoothness);
    assert_eq!(result.robust_ci.rows.len(), 2);
    assert!(result.robust_ci.rows.iter().all(|row| row.delta == "DeltaSD"));
}

// ---------------------------------------------------------------------------
// Reports
// ---------------------------------------------------------------------------

fn six_decimals(value: Real) -> String {
    format!("{:.6}", float(value))
}

fn json_of(schema: &str, null_values: &[Real]) -> Value {
    let mut rows = Vec::new();
    for value in null_values {
        let mut row = serde_json::Map::new();
        row.insert("null_value".to_string(), Value::from(float(*value)));
        rows.push(Value::Object(row));
    }
    let mut report = serde_json::Map::new();
    report.insert("schema_version".to_string(), Value::from(schema));
    report.insert("rows".to_string(), Value::Array(rows));
    let text = serde_json::to_string_pretty(&Value::Object(report)).expect("json");
    serde_json::from_str(&text).expect("parse json")
}

#[test]
fn honest_joint_path_reporting_emits_stable_csv_and_json() {
    let input = two_post_input();
    let region = assess_honest_event_study_joint_path_region(
        &input,
        HonestSensitivity::RelativeMagnitude(real_of(1.0)),
        inference_at(0.95),
        real_of(0.0),
        &levels(),
        &study_sets(),
        &study_sets(),
    )
    .expect("joint region");
    let csv = render_honest_joint_path_report_csv(&region, &six_decimals);
    assert!(csv.starts_with("schema_version,method,confidence_level"));
    assert!(csv.contains("honestdid_joint_report_v1"));
    let report = joint_path_report(&region);
    let payload = json_of(report.schema_version, &[]);
    assert_eq!(payload["schema_version"].as_str(), Some("honestdid_joint_report_v1"));
}

#[test]
fn honest_directional_reporting_emits_rows_with_direction_vectors() {
    let input = two_post_input();
    let region = assess_honest_event_study_directional_region(
        &input,
        &real_rows(&[vec![1.0, 0.0], vec![0.0, 1.0]]),
        HonestSensitivity::RelativeMagnitude(real_of(1.0)),
        inference_at(0.95),
        real_of(0.0),
        &levels(),
        &study_sets(),
        &study_sets(),
    )
    .expect("directional region");
    let rows = build_honest_directional_report_rows(&region);
    assert_eq!(rows.len(), 2);
    assert_eq!(rows[0].functional_id, 0);
    assert_eq!(rows[0].post_weights, reals(&[1.0, 0.0]));
}

#[test]
fn honest_multi_flci_reporting_emits_stable_schema() {
    let input = two_post_input();
    let sets = study_sets();
    let problem = build_relative_magnitude_multi_flci_problem(
        &input,
        &real_rows(&[vec![1.0, 0.0], vec![0.0, 1.0]]),
        real_of(1.0),
        inference_at(0.95),
        &sets,
    )
    .expect("multi flci problem");
    let result =
        compute_relative_magnitude_multi_flci(&problem, &levels(), &sets, &study_sets())
            .expect("multi flci");
    let csv = render_honest_multi_flci_report_csv(&result, &six_decimals);
    assert!(csv.starts_with(
        "schema_version,method,confidence_level,pointwise_confidence_level,calibrated_max_t_critical_value"
    ));
    assert!(csv.contains("null_value,robustly_significant"));
    let report = multi_flci_report(&result);
    let nulls: Vec<Real> = report.rows.iter().map(|row| row.null_value).collect();
    let payload = json_of(report.schema_version, &nulls);
    assert_eq!(payload["schema_version"].as_str(), Some("honestdid_joint_report_v1"));
    assert_eq!(payload["rows"][0]["null_value"].as_f64(), Some(0.0));
}

// ---------------------------------------------------------------------------
// Workflows
// ---------------------------------------------------------------------------

fn basis_workflow() -> HonestWorkflowConfig {
    HonestWorkflowConfig {
        relative_magnitude: RelativeMagnitudeConfidenceSetConfig::from_inference(inference_at(
            0.95,
        )),
        joint: HonestJointPathConfig::default_for_production(),
        direction_mode: HonestWorkflowDirectionMode::Basis,
    }
}

#[test]
fn honest_workflow_relative_magnitude_populates_multi_flci() {
    let input = two_post_input();
    let result = assess_honest_event_study_workflow_with_config(
        &input,
        &vec![
            HonestPostFunctional::Period(0),
            HonestPostFunctional::AverageWindow { start_period: 0, end_period: 1 },
        ],
        HonestSensitivity::RelativeMagnitude(real_of(1.0)),
        inference_at(0.95),
        real_of(0.0),
        &basis_workflow(),
        &share,
        &plus,
        &directions(),
        &levels(),
        &study_sets(),
        &study_sets(),
    )
    .expect("workflow");
    assert_eq!(result.functional_assessments.len(), 2);
    assert!(result.multi_flci.is_some());
}

#[test]
fn delta_rm_conditional_cs_handles_large_target_estimates() {
    let input =
        study_input(&[1.0, 2.0, 150.0], &diagonal(&[0.25, 0.25, 1.0]), &[-2, -1], &[0]);
    let inference = inference_at(0.95);
    let result = study_sets()
        .magnitude_confidence(
            RelativeMagnitudeFamily::Base,
            &input,
            &reals(&[1.0]),
            real_of(1.0),
            inference,
            RelativeMagnitudeConfidenceSetConfig::from_inference(inference),
        )
        .expect("conditional cs");
    assert!(float(result.lb).is_finite());
    assert!(float(result.ub).is_finite());
    assert!(float(result.lb) <= 150.0);
    assert!(float(result.ub) >= 150.0);
}

#[test]
fn honest_workflow_smoothness_populates_multi_flci() {
    let input = study_input(
        &[0.0, 0.2, 10.0, 20.0],
        &diagonal(&[0.25, 0.25, 1.0, 4.0]),
        &[-2, -1],
        &[0, 1],
    );
    let result = assess_honest_event_study_workflow_with_config(
        &input,
        &vec![HonestPostFunctional::Period(0)],
        HonestSensitivity::Smoothness(real_of(0.5)),
        inference_at(0.95),
        real_of(0.0),
        &basis_workflow(),
        &share,
        &plus,
        &directions(),
        &levels(),
        &study_sets(),
        &study_sets(),
    )
    .expect("workflow");
    assert_eq!(result.functional_assessments.len(), 1);
    assert!(result.multi_flci.is_some());
    let flci = result.multi_flci.expect("smoothness multi flci");
    assert_eq!(flci.points.len(), 1);
    assert!(float(flci.points[0].flci.0).is_finite());
    assert!(float(flci.points[0].flci.1).is_finite());
}

#[test]
fn honest_workflow_basis_matches_manual_components() {
    let input = two_post_input();
    let inference = inference_at(0.95);
    let sets = study_sets();
    let branches = study_sets();
    let workflow = assess_honest_event_study_workflow_with_config(
        &input,
        &vec![HonestPostFunctional::Period(0)],
        HonestSensitivity::RelativeMagnitude(real_of(1.0)),
        inference,
        real_of(0.0),
        &basis_workflow(),
        &share,
        &plus,
        &directions(),
        &levels(),
        &sets,
        &branches,
    )
    .expect("workflow");
    let manual_assessment = assess_honest_event_study_post_functional(
        &input,
        &HonestPostFunctional::Period(0),
        HonestSensitivity::RelativeMagnitude(real_of(1.0)),
        inference,
        real_of(0.0),
        &share,
        &plus,
        &sets,
    )
    .expect("manual assessment");
    let manual_joint = assess_honest_event_study_joint_path_region(
        &input,
        HonestSensitivity::RelativeMagnitude(real_of(1.0)),
        inference,
        real_of(0.0),
        &levels(),
        &sets,
        &branches,
    )
    .expect("manual joint");
    assert_eq!(workflow.functional_assessments.len(), 1);
    assert_eq!(workflow.functional_assessments[0].assessment, manual_assessment);
    assert_eq!(workflow.joint_path_region.points.len(), manual_joint.points.len());
    assert_eq!(workflow.directional_region.points.len(), input.num_post_periods());
}

// ---------------------------------------------------------------------------
// Prepared relative-magnitude branches
// ---------------------------------------------------------------------------

#[test]
fn relative_magnitude_cached_functional_transform_matches_direct_projection() {
    let a_post = vec![vec![1.0, 2.0, 3.0], vec![0.5, -1.0, 4.0], vec![2.0, 0.0, -0.25]];
    let post_weights = [0.2, 0.3, 0.5];
    let prepared = prepare_relative_magnitude_functional_transform(
        &reals(&post_weights),
        &study_numbers(),
    )
    .expect("prepared transform");
    let (target, design) = build_target_and_design_from_transform(
        &real_rows(&a_post),
        &prepared,
        &study_numbers(),
        3,
    );
    let gamma = vec![vec![0.2, 0.3, 0.5], vec![0.0, 1.0, 0.0], vec![0.0, 0.0, 1.0]];
    let inverse = invert_square_matrix(&gamma).expect("inverse of the basis");
    assert_eq!(target.len(), a_post.len());
    assert_eq!(design.len(), a_post.len());
    for (i, row) in a_post.iter().enumerate() {
        let direct: Vec<f64> =
            (0..3).map(|col| (0..3).map(|k| row[k] * inverse[k][col]).sum()).collect();
        assert!((float(target[i]) - direct[0]).abs() < 1e-10);
        assert_eq!(design[i].len(), 2);
        for (left, right) in design[i].iter().zip(&direct[1..]) {
            assert!((float(*left) - right).abs() < 1e-10);
        }
    }
}

#[test]
fn relative_magnitude_multi_flci_precomputed_builder_matches_direct_builder() {
    let input = two_post_input();
    let weights = real_rows(&[vec![1.0, 0.0], vec![0.5, 0.5]]);
    let inference = inference_at(0.95);
    let direct = build_relative_magnitude_multi_flci_problem(
        &input,
        &weights,
        real_of(1.0),
        inference,
        &study_sets(),
    )
    .expect("direct multi-flci problem");
    let precomputed = build_relative_magnitude_multi_flci_problem_with_precomputed_sets(
        &input,
        &weights,
        real_of(1.0),
        inference,
        direct.originals.clone(),
        direct.identified_sets.clone(),
    )
    .expect("precomputed multi-flci problem");
    assert_eq!(direct, precomputed);
}

fn three_post_input() -> HonestEventStudyInput {
    study_input(
        &[0.25, -0.10, 0.40, 0.85, 1.10],
        &[
            vec![0.16, 0.01, 0.00, 0.00, 0.00],
            vec![0.01, 0.20, 0.01, 0.00, 0.00],
            vec![0.00, 0.01, 0.25, 0.02, 0.01],
            vec![0.00, 0.00, 0.02, 0.36, 0.03],
            vec![0.00, 0.00, 0.01, 0.03, 0.49],
        ],
        &[-2, -1],
        &[0, 1, 2],
    )
}

#[test]
fn relative_magnitude_prepared_functional_branches_match_direct_conditional_confidence_set() {
    let input = three_post_input();
    let weights = [0.2, 0.3, 0.5];
    let inference = inference_at(0.95);
    let config = RelativeMagnitudeConfidenceSetConfig::from_inference(inference);
    let branches = study_sets();
    let original = original_of(&input, &weights, inference);
    let identified = magnitude_identified(&input, &weights, 1.0);
    let context = branches.context(&input, real_of(1.0)).expect("prepared branches");
    let mut rows = branches
        .functional_rows(&input, &reals(&weights), &context)
        .expect("prepared functional branches");
    let cached = compute_relative_magnitude_confidence_set_with_prepared_functional_branches(
        &input,
        &reals(&weights),
        inference,
        config,
        original,
        identified,
        &context,
        &mut rows,
        &branches,
    )
    .expect("cached conditional confidence set");
    let direct = study_sets()
        .magnitude_given(
            &input,
            &reals(&weights),
            real_of(1.0),
            inference,
            config,
            original,
            identified,
        )
        .expect("direct conditional confidence set");
    assert_same_interval(cached, (direct.lb, direct.ub));
}

#[test]
fn relative_magnitude_adaptive_grid_matches_full_grid_interval() {
    let input = three_post_input();
    let weights = [0.2, 0.3, 0.5];
    let inference = inference_at(0.95);
    let config = RelativeMagnitudeConfidenceSetConfig::from_inference(inference);
    let branches = study_sets();
    let original = original_of(&input, &weights, inference);
    let identified = magnitude_identified(&input, &weights, 1.0);
    let context = branches.context(&input, real_of(1.0)).expect("prepared branches");
    let mut rows = branches
        .functional_rows(&input, &reals(&weights), &context)
        .expect("prepared functional branches");
    let adaptive = compute_relative_magnitude_confidence_set_with_prepared_functional_branches(
        &input,
        &reals(&weights),
        inference,
        config,
        original,
        identified,
        &context,
        &mut rows,
        &branches,
    )
    .expect("adaptive conditional confidence set");
    let grid = grid_around_identified_set(original, identified, &study_numbers());
    let moments = gather_moments(&context.input_branches, &rows);
    let arithmetic = test_arithmetic();
    let tests = BranchTests {
        arithmetic: &arithmetic,
        moments: &moments,
        alpha: inference.alpha,
        kappa: config.hybrid_kappa,
    };
    let mut union: Option<AcceptedGridRange> = None;
    for branch in 0..rows.len() {
        let cv = tests.critical(branch).expect("critical value");
        let range = compute_accepted_grid_range_full_grid(&grid, |theta: Real| {
            tests.decide(branch, cv, theta)
        })
        .expect("full-grid conditional confidence set");
        union = match (union, range) {
            (None, range) => range,
            (union, None) => union,
            (Some(a), Some(b)) => Some(AcceptedGridRange {
                lower_idx: a.lower_idx.min(b.lower_idx),
                upper_idx: a.upper_idx.max(b.upper_idx),
            }),
        };
    }
    let union = union.expect("accepted points");
    assert_same_interval(adaptive, (grid[union.lower_idx], grid[union.upper_idx]));
}

// ---------------------------------------------------------------------------
// Linear programs
// ---------------------------------------------------------------------------

fn reference_value(columns: &[Vec<f64>], g: &[f64], c: &[f64]) -> Option<f64> {
    let n = columns.len();
    let program = ConeRows {
        inequalities: (0..n)
            .map(|i| (0..n).map(|j| if i == j { -1.0 } else { 0.0 }).collect())
            .collect(),
        equalities: (0..g.len())
            .map(|i| columns.iter().map(|column| column[i]).collect())
            .collect(),
        soc_rows: Vec::new(),
        rhs: [vec![0.0; n], g.to_vec()].concat(),
    };
    let settings = clarabel::solver::DefaultSettingsBuilder::<f64>::default()
        .verbose(false)
        .tol_gap_abs(1e-10)
        .tol_gap_rel(1e-10)
        .tol_feas(1e-10)
        .build()
        .expect("Clarabel settings");
    let cost: Vec<f64> = c.iter().map(|value| -value).collect();
    let (status, x) = program.solve(&cost, settings, "reference").expect("Clarabel workspace");
    if status.is_solved() { Some(dot(&x, c)) } else { None }
}

struct Simplex(RefCell<DenseSimplex>);

impl Simplex {
    fn new(columns: Vec<Vec<Real>>, right: Vec<Real>, memory: usize) -> Self {
        let mut lp = DenseSimplex::new(columns, right);
        lp.set_memory(memory);
        Self(RefCell::new(lp))
    }

    fn solve(&self, cost: &[Real]) -> Result<(), LpError> {
        let mut lp = self.0.borrow_mut();
        lp.set_cost(cost);
        lp.solve(&lp_numbers())
    }

    fn lambda(&self) -> Vec<Real> {
        self.0.borrow().lambda.clone()
    }

    fn objective(&self) -> Real {
        self.0.borrow().objective
    }

    fn duals(&self) -> Vec<Real> {
        self.0.borrow().duals(&lp_numbers())
    }
}

fn simplex_of(columns: &[Vec<f64>], g: &[f64]) -> Simplex {
    Simplex::new(real_rows(columns), reals(g), 0)
}

fn bounded_cost(rng: &mut StdRng, columns: &[Vec<f64>], m: usize) -> Vec<f64> {
    let y: Vec<f64> = (0..m).map(|_| rng.random_range(-1.0..1.0)).collect();
    columns.iter().map(|column| dot(column, &y) - rng.random_range(0.0..1.0)).collect()
}

fn random_feasible_problem(
    rng: &mut StdRng,
    m: usize,
    n: usize,
) -> (Vec<Vec<f64>>, Vec<f64>, Vec<f64>) {
    let columns: Vec<Vec<f64>> = (0..n)
        .map(|_| (0..m).map(|_| rng.random_range(-1.0..1.0)).collect())
        .collect();
    let mut g = vec![0.0; m];
    for column in &columns {
        if rng.random_bool(0.4) {
            let weight: f64 = rng.random_range(0.0..2.0);
            for (side, entry) in g.iter_mut().zip(column) {
                *side += weight * entry;
            }
        }
    }
    let c = bounded_cost(rng, &columns, m);
    (columns, g, c)
}

#[test]
fn matches_clarabel_on_random_feasible_bounded_programs() {
    let mut rng = StdRng::seed_from_u64(20260904);
    for trial in 0..200 {
        let m = rng.random_range(2..9);
        let n = rng.random_range(m..m + 24);
        let (columns, g, c) = random_feasible_problem(&mut rng, m, n);
        let Some(reference) = reference_value(&columns, &g, &c) else {
            continue;
        };
        let lp = simplex_of(&columns, &g);
        lp.solve(&reals(&c)).unwrap_or_else(|e| panic!("trial {trial}: {}", e.label()));
        assert!(
            (float(lp.objective()) - reference).abs() < 1e-6,
            "trial {trial}: simplex {} vs clarabel {reference}",
            float(lp.objective())
        );
        let lambda = floats(&lp.lambda());
        for i in 0..m {
            let activity: f64 =
                columns.iter().zip(&lambda).map(|(column, l)| column[i] * l).sum();
            assert!((activity - g[i]).abs() < 1e-9, "trial {trial}: row {i}");
        }
        assert!(lambda.iter().all(|l| *l >= 0.0));
        let duals = floats(&lp.duals());
        for (j, column) in columns.iter().enumerate() {
            assert!(dot(column, &duals) >= c[j] - 1e-8, "trial {trial}: reduced cost of {j}");
        }
    }
}

#[test]
fn warm_start_after_a_cost_change_matches_a_cold_solve() {
    let mut rng = StdRng::seed_from_u64(7);
    for _ in 0..100 {
        let m = rng.random_range(2..8);
        let n = rng.random_range(m + 2..m + 20);
        let (columns, g, c1) = random_feasible_problem(&mut rng, m, n);
        let c2 = bounded_cost(&mut rng, &columns, m);
        let warm = simplex_of(&columns, &g);
        warm.solve(&reals(&c1)).unwrap();
        warm.solve(&reals(&c2)).unwrap();
        let cold = simplex_of(&columns, &g);
        cold.solve(&reals(&c2)).unwrap();
        assert!((float(warm.objective()) - float(cold.objective())).abs() < 1e-9);
    }
}

#[test]
fn reports_infeasibility() {
    let lp = simplex_of(&[vec![1.0, 0.0], vec![0.0, 1.0], vec![1.0, 1.0]], &[-1.0, 1.0]);
    assert_eq!(lp.solve(&reals(&[1.0, 1.0, 1.0])), Err(LpError::Infeasible));
}

#[test]
fn reports_unboundedness() {
    let lp = simplex_of(&[vec![1.0], vec![-1.0]], &[1.0]);
    assert_eq!(lp.solve(&reals(&[1.0, 1.0])), Err(LpError::Unbounded));
}

#[test]
fn survives_a_degenerate_start_and_many_pivots() {
    let mut rng = StdRng::seed_from_u64(99);
    for _ in 0..50 {
        let m = 20;
        let n = 40;
        let columns: Vec<Vec<f64>> = (0..n)
            .map(|_| {
                let mut column: Vec<f64> = (0..m).map(|_| rng.random_range(-1.0..1.0)).collect();
                column[0] = rng.random_range(0.1..1.0);
                column
            })
            .collect();
        let mut g = vec![0.0; m];
        g[0] = 1.0;
        let c: Vec<f64> = (0..n).map(|_| rng.random_range(-1.0..1.0)).collect();
        let lp = simplex_of(&columns, &g);
        let mut solved = false;
        match (lp.solve(&reals(&c)), reference_value(&columns, &g, &c)) {
            (Ok(()), Some(reference)) => {
                assert!((float(lp.objective()) - reference).abs() < 1e-6);
                solved = lp.lambda().iter().any(|l| float(*l) > 0.0);
            }
            (Err(LpError::Infeasible), None) | (Err(LpError::Unbounded), None) => {}
            (result, reference) => panic!("simplex {result:?} vs clarabel {reference:?}"),
        }
        if solved {
            for _ in 0..100 {
                let c: Vec<f64> = (0..n).map(|_| rng.random_range(-1.0..1.0)).collect();
                if let Some(reference) = reference_value(&columns, &g, &c) {
                    lp.solve(&reals(&c)).unwrap();
                    assert!((float(lp.objective()) - reference).abs() < 1e-6);
                }
            }
        }
    }
}

struct MomentReference {
    eta_star: f64,
    delta_star: Vec<f64>,
    lambda: Vec<f64>,
}

fn solve_moments_with_clarabel(
    x_matrix: &[Vec<f64>],
    sd: &[f64],
    y: &[f64],
) -> Option<MomentReference> {
    let scale = sd.iter().copied().fold(0.0_f64, f64::max).max(1.0);
    let k = x_matrix.first().map_or(0, Vec::len);
    let rows: Vec<Vec<f64>> = x_matrix
        .iter()
        .zip(sd)
        .map(|(x_row, s)| {
            let mut row = vec![-s / scale, s / scale];
            row.extend(x_row.iter().map(|x| -x / scale));
            row.extend(x_row.iter().map(|x| x / scale));
            row
        })
        .collect();
    let rhs: Vec<f64> = y.iter().map(|value| -value / scale).collect();
    let mut q = vec![0.0; 2 + 2 * k];
    q[0] = 1.0;
    q[1] = -1.0;
    let settings = clarabel::solver::DefaultSettingsBuilder::<f64>::default()
        .verbose(false)
        .presolve_enable(false)
        .input_sparse_dropzeros(false)
        .build()
        .expect("Clarabel settings");
    let quadratic = clarabel::algebra::CscMatrix::<f64>::zeros((q.len(), q.len()));
    let cones = vec![clarabel::solver::SupportedConeT::NonnegativeConeT(rows.len())];
    let matrix = build_clarabel_matrix(&rows, &[]);
    let mut solver = clarabel::solver::DefaultSolver::new(
        &quadratic, &q, &matrix, &rhs, &cones, settings,
    )
    .expect("Clarabel workspace");
    solver.solve();
    if !status_of(solver.solution.status).is_solved() {
        return None;
    }
    let x = &solver.solution.x;
    Some(MomentReference {
        eta_star: x[0] - x[1],
        delta_star: (0..k).map(|col| x[2 + col] - x[2 + k + col]).collect(),
        lambda: solver.solution.z.iter().map(|value| value.max(0.0) / scale).collect(),
    })
}

#[test]
fn conditional_workspace_matches_clarabel_reference() {
    let x_matrix: Vec<Vec<f64>> = vec![Vec::new(), Vec::new(), Vec::new()];
    let sd: Vec<f64> = [1.2_f64, 0.9, 1.1].iter().map(|v| v.sqrt()).collect();
    let y = [0.7, 0.3, 0.45];
    let reference = solve_moments_with_clarabel(&x_matrix, &sd, &y).unwrap();
    let workspace = MomentSolver::new(&real_rows(&x_matrix), &reals(&sd)).unwrap();
    let found = workspace.solve(&y).unwrap();
    assert!((float(found.eta_star) - reference.eta_star).abs() < 1e-8);
    for (observed, expected) in found.delta_star.iter().zip(&reference.delta_star) {
        assert!((float(*observed) - expected).abs() < 1e-8);
    }
    for (observed, expected) in found.lambda.iter().zip(&reference.lambda) {
        assert!((float(*observed) - expected).abs() < 1e-7);
    }
}

#[test]
fn conditional_workspace_matches_clarabel_with_nuisance_columns_across_rhs_changes() {
    let mut rng = StdRng::seed_from_u64(20260905);
    for _ in 0..40 {
        let rows: usize = rng.random_range(6..30);
        let k = rng.random_range(1..rows.min(8));
        let x_matrix: Vec<Vec<f64>> = (0..rows)
            .map(|_| (0..k).map(|_| rng.random_range(-1.0..1.0)).collect())
            .collect();
        let sd: Vec<f64> = (0..rows).map(|_| rng.random_range(0.2..3.0_f64).sqrt()).collect();
        let workspace = MomentSolver::new(&real_rows(&x_matrix), &reals(&sd)).unwrap();
        for _ in 0..5 {
            let y: Vec<f64> = (0..rows).map(|_| rng.random_range(-2.0..2.0)).collect();
            let Some(reference) = solve_moments_with_clarabel(&x_matrix, &sd, &y) else {
                let error = describe(&workspace.solve(&y).unwrap_err());
                assert!(error.contains("Infeasible"), "{error}");
                continue;
            };
            let found = workspace.solve(&y).unwrap();
            let eta = float(found.eta_star);
            assert!((eta - reference.eta_star).abs() < 1e-6, "{eta} vs {}", reference.eta_star);
            let eta_only = workspace.solve_eta_only(&y).unwrap();
            assert!((eta_only - reference.eta_star).abs() < 1e-6);
            let from_lambda = dot(&floats(&found.lambda), &y);
            assert!((from_lambda - reference.eta_star).abs() < 1e-6);
        }
    }
}

#[test]
fn dual_workspace_matches_clarabel_reference() {
    let w_t = vec![vec![1.0, 0.0], vec![1.0, 1.0], vec![1.0, -1.0]];
    let mut workspace = DualMaxLpWorkspace::new(&real_rows(&w_t)).unwrap();
    let s_t = [0.2, -0.1, 0.05];
    let sigma_gamma = [0.4, -0.2, 0.1];
    let sigma_b2 = 0.75;
    for c in [0.3_f64, -0.2, 1.7, 0.0] {
        let f: Vec<f64> = s_t
            .iter()
            .zip(&sigma_gamma)
            .map(|(s, gamma): (&f64, &f64)| c.mul_add(*gamma / sigma_b2, *s))
            .collect();
        let reference = float(
            solve_dual_max(&dual_max_program(&real_rows(&w_t), &reals(&f), 2), &reals(&f))
                .unwrap()
                .found,
        );
        let observed = workspace
            .solve_for_c(
                &reals(&s_t),
                &reals(&sigma_gamma),
                real_of(sigma_b2),
                real_of(c),
                &lp_numbers(),
                &dual_fallback,
            )
            .map(float)
            .unwrap();
        assert!((observed - reference).abs() < 1e-8, "c={c}: {observed} vs {reference}");
    }
}

#[test]
fn dual_workspace_reports_an_infeasible_program() {
    let w_t = [vec![-1.0, 0.0], vec![-0.5, 1.0]];
    let mut workspace = DualMaxLpWorkspace::new(&real_rows(&w_t)).unwrap();
    let error = workspace
        .solve_for_c(
            &reals(&[0.1, 0.2]),
            &reals(&[0.3, 0.1]),
            real_of(1.0),
            real_of(0.5),
            &lp_numbers(),
            &dual_fallback,
        )
        .unwrap_err();
    let message = describe(&error);
    assert!(message.contains("infeasible"), "{message}");
}

// ---------------------------------------------------------------------------
// Directions
// ---------------------------------------------------------------------------

#[test]
fn top_ranked_indices_by_variance_matches_full_sort_selection() {
    let numbers = directions();
    let sigma_post =
        real_rows(&[vec![1.0, 0.2, 0.1], vec![0.2, 1.2, 0.3], vec![0.1, 0.3, 0.8]]);
    let units: Vec<Vec<Real>> = [
        [1.0, 0.0, 0.0],
        [0.0, 1.0, 0.0],
        [0.0, 0.0, 1.0],
        [1.0, -1.0, 0.0],
        [1.0, 1.0, 1.0],
        [2.0, -1.0, 0.5],
    ]
    .iter()
    .map(|direction| {
        canonicalize_unit_direction(&reals(direction), &numbers).expect("unit direction")
    })
    .collect();
    let mut expected: Vec<(usize, f64)> = units
        .iter()
        .enumerate()
        .map(|(index, unit)| (index, float(projected_variance(unit, &sigma_post, &numbers))))
        .collect();
    expected.sort_by(|left, right| right.1.total_cmp(&left.1));
    expected.truncate(4);
    let actual = top_ranked_indices_by_variance(&units, &sigma_post, 4, &numbers);
    assert_eq!(actual.len(), expected.len());
    for (actual_item, expected_item) in actual.iter().zip(expected.iter()) {
        assert_eq!(actual_item.0, expected_item.0);
        assert_eq!(actual_item.1.bits, expected_item.1.to_bits());
    }
}

#[test]
fn deduplicate_unit_directions_preserves_unique_order_and_random_count() {
    let mut units =
        real_rows(&[vec![1.0, 0.0], vec![1.0 + 1e-12, 0.0], vec![0.0, 1.0], vec![0.0, 1.0]]);
    let mut is_random = vec![false, true, true, false];
    let random_count = deduplicate_unit_directions(&mut units, &mut is_random, &directions());
    assert_eq!(units.len(), 2);
    assert_eq!(is_random, vec![false, true]);
    assert_eq!(random_count, 1);
}

// ---------------------------------------------------------------------------
// Simulation
// ---------------------------------------------------------------------------

fn mean_and_variance(sample: &[f64]) -> (f64, f64) {
    let n = sample.len() as f64;
    let mean = sample.iter().sum::<f64>() / n;
    let var = sample.iter().map(|v| (v - mean) * (v - mean)).sum::<f64>() / n;
    (mean, var)
}

#[test]
fn cached_and_scalar_normal_draws_are_statistically_consistent() {
    let seed = 42_042_u64;
    let len = 20_001usize;
    let mut scalar_rng = StdRng::seed_from_u64(seed);
    let scalar: Vec<f64> = (0..len).map(|_| draw_standard_normal(&mut scalar_rng)).collect();
    let (scalar_mean, scalar_var) = mean_and_variance(&scalar);
    let mut cached_rng = StdRng::seed_from_u64(seed);
    let cached = draw_standard_normal_vec(&mut cached_rng, len);
    let (cached_mean, cached_var) = mean_and_variance(&cached);
    assert!((scalar_mean - cached_mean).abs() < 0.03);
    assert!((scalar_var - cached_var).abs() < 0.05);
    assert!(cached_mean.abs() < 0.03);
    assert!((cached_var - 1.0).abs() < 0.05);
}

// ---------------------------------------------------------------------------
// Covariances
// ---------------------------------------------------------------------------

#[test]
fn covariance_matrix_matches_manual_reference() {
    let influence = vec![
        vec![2.0, -1.0, 0.0, 1.0, 3.0],
        vec![1.0, 1.0, -1.0, -1.0, 0.5],
        vec![0.5, -0.25, 0.75, -1.25, 2.0],
    ];
    let actual =
        covariance_matrix_from_influence_matrix(&real_rows(&influence), &covariances()).unwrap();
    let n = influence[0].len() as f64;
    for row in 0..influence.len() {
        for col in 0..influence.len() {
            let mean = |line: &Vec<f64>| line.iter().sum::<f64>() / n;
            let (left, right) = (mean(&influence[row]), mean(&influence[col]));
            let sum: f64 = influence[row]
                .iter()
                .zip(&influence[col])
                .map(|(a, b)| (a - left) * (b - right))
                .sum();
            assert!((float(actual[row][col]) - sum / (n * n)).abs() < 1e-12);
        }
    }
}

#[test]
fn clustered_covariance_matrix_matches_manual_reference() {
    let influence = vec![
        vec![1.0, 2.0, -1.0, -2.0, 0.5, 1.5],
        vec![0.5, 0.5, -0.5, -0.5, 1.0, 1.0],
        vec![2.0, -1.0, 3.0, -2.0, 0.0, 0.5],
    ];
    let groups = [0, 0, 1, 1, 2, 2];
    let index = ClusterIndex { group_assignments: groups.to_vec(), n_groups: 3 };
    let actual = clustered_covariance_matrix_from_influence_matrix_index(
        &real_rows(&influence),
        &index,
        &covariances(),
    )
    .unwrap();
    let scale = (3.0 / 2.0) / 36.0;
    for row in 0..influence.len() {
        for col in 0..influence.len() {
            let mut value = 0.0;
            for group in 0..3 {
                let sum = |line: &Vec<f64>| -> f64 {
                    line.iter().zip(&groups).filter(|(_, g)| **g == group).map(|(v, _)| v).sum()
                };
                value += sum(&influence[row]) * sum(&influence[col]);
            }
            assert!((float(actual[row][col]) - value * scale).abs() < 1e-12);
        }
    }
}

#[test]
fn wald_test_simple_case() {
    let (stat, p, df) = joint_wald_test(
        &reals(&[2.0]),
        &real_rows(&[vec![1.0]]),
        &|flat: &Vec<Real>, right: &Vec<Real>| {
            let n = right.len();
            let rows: Vec<Vec<f64>> = flat.chunks(n).map(floats).collect();
            solve_square_linear_system(&rows, &floats(right)).map(|x| reals(&x))
        },
        &|left: Real, right: Real, acc: Real| {
            real_of(float(left).mul_add(float(right), float(acc)))
        },
        &|df: usize, stat: Real| {
            ChiSquared::new(df as f64)
                .map(|chi| real_of(1.0 - chi.cdf(float(stat))))
                .map_err(|err| err.to_string())
        },
    )
    .unwrap();
    assert_eq!(df, 1);
    assert!((float(stat) - 4.0).abs() < 1e-10);
    assert!(float(p) < 0.05 && float(p) > 0.045);
}

// ---------------------------------------------------------------------------
// Properties that span several functions
// ---------------------------------------------------------------------------

#[test]
fn a_described_period_is_assessed_as_the_period() {
    let input = two_post_input();
    let sets = study_sets();
    let sensitivity = HonestSensitivity::Smoothness(real_of(1.0));
    let inference = inference_at(0.9);
    let period = assess_honest_event_study_period(
        &input, 1, sensitivity, inference, real_of(2.0), &sets,
    )
    .expect("period");
    let described = assess_honest_event_study_post_functional(
        &input,
        &HonestPostFunctional::Period(1),
        sensitivity,
        inference,
        real_of(2.0),
        &share,
        &plus,
        &sets,
    )
    .expect("functional");
    assert_eq!(period, described);
    assert_eq!(
        period.robustly_significant,
        float(period.robust_ci.0) > 2.0 || float(period.robust_ci.1) < 2.0
    );
}

#[test]
fn correlations_are_symmetric_with_a_unit_diagonal() {
    let input = three_post_input();
    let numbers = levels();
    let block = float_rows(&build_post_correlation_block(&input, &numbers));
    let sets = real_rows(&[vec![1.0, 0.0, 0.0], vec![0.2, 0.3, 0.5], vec![1.0, -1.0, 0.0]]);
    let matrix = functional_correlation_matrix(
        &input,
        &sets,
        HonestError::FunctionalVariance,
        &numbers,
    )
    .expect("positive variances");
    for correlations in [block, float_rows(&matrix)] {
        for i in 0..3 {
            assert_eq!(correlations[i][i], 1.0);
            for j in 0..3 {
                assert_eq!(correlations[i][j], correlations[j][i]);
                assert!(correlations[i][j].abs() <= 1.0);
            }
        }
    }
}

#[test]
fn a_single_functional_keeps_its_interval() {
    let input = two_post_input();
    let inference = inference_at(0.95);
    let sets = study_sets();
    let alone = build_relative_magnitude_flci_problem(
        &input,
        &reals(&[1.0, 0.0]),
        real_of(1.0),
        inference,
        &sets,
    )
    .expect("problem");
    let interval = compute_relative_magnitude_flci(&alone, &sets).expect("interval").flci;
    let problem = build_relative_magnitude_multi_flci_problem(
        &input,
        &real_rows(&[vec![1.0, 0.0]]),
        real_of(1.0),
        inference,
        &sets,
    )
    .expect("problem");
    let joint =
        compute_relative_magnitude_multi_flci(&problem, &levels(), &sets, &study_sets())
            .expect("intervals");
    assert_eq!(joint.points.len(), 1);
    assert_eq!(joint.points[0].flci, interval);
    assert_eq!(float(joint.pointwise_confidence_level), 0.95);
}

#[test]
fn smoothness_does_not_depend_on_magnitude_settings() {
    let input = two_post_input();
    let inference = inference_at(0.95);
    let sets = study_sets();
    let usual = RelativeMagnitudeConfidenceSetConfig::from_inference(inference);
    let other = RelativeMagnitudeConfidenceSetConfig {
        hybrid: RelativeMagnitudeHybrid::ArpOnly,
        hybrid_kappa: real_of(0.01),
    };
    let assess = |sensitivity: HonestSensitivity, config| {
        assess_honest_event_study_functional_with_config(
            &input,
            &reals(&[1.0, 0.0]),
            sensitivity,
            inference,
            real_of(0.0),
            config,
            &sets,
        )
        .expect("assessment")
    };
    let smooth = HonestSensitivity::Smoothness(real_of(1.0));
    assert_eq!(assess(smooth, usual), assess(smooth, other));
}

#[test]
fn the_original_set_does_not_depend_on_the_pre_periods() {
    let (inference, numbers) = (inference_at(0.95), study_numbers());
    let weights = reals(&[0.5, 0.5]);
    let one = compute_original_confidence_set(
        &two_post_input(),
        &weights,
        inference,
        &numbers,
    );
    let other = study_input(
        &[-7.0, 10.0, 20.0],
        &diagonal(&[9.0, 1.0, 4.0]),
        &[-1],
        &[0, 1],
    );
    let two = compute_original_confidence_set(&other, &weights, inference, &numbers);
    let (one, two) = (one.expect("original set"), two.expect("original set"));
    assert_eq!(one, two);
    assert_eq!(float(one.estimate), 15.0);
}

#[test]
fn negated_weights_mirror_the_original_set() {
    let measured = |weights: [f64; 2]| {
        compute_original_confidence_set(
            &two_post_input(),
            &reals(&weights),
            inference_at(0.95),
            &study_numbers(),
        )
        .expect("original set")
    };
    let (one, other) = (measured([0.5, -2.0]), measured([-0.5, 2.0]));
    assert_eq!(float(other.estimate), -float(one.estimate));
    assert_eq!(other.se, one.se);
    assert_eq!(float(other.ci.0), -float(one.ci.1));
    assert_eq!(float(other.ci.1), -float(one.ci.0));
}

#[test]
fn a_known_piece_gives_the_value_of_a_solve() {
    let rows = real_rows(&[vec![1.0], vec![1.0]]);
    let (s_t, sigma_gamma) = (reals(&[1.0, 3.0]), reals(&[4.0, 2.0]));
    let two = real_of(2.0);
    let never = |_: &ConeProgram, _: &Vec<Real>| -> Result<Real, String> {
        panic!("the program is solved")
    };
    let numbers = lp_numbers();
    let mut known = DualMaxLpWorkspace::new(&rows).expect("a program");
    let mut at = |c: f64| {
        let value = known
            .solve_for_c(&s_t, &sigma_gamma, two, real_of(c), &numbers, &never)
            .expect("optimum");
        (float(value), known.pieces.pieces.len())
    };
    assert_eq!(at(0.0), (3.0, 1));
    assert_eq!(at(1.0), (4.0, 1));
    assert_eq!(at(5.0), (11.0, 2));
    assert_eq!(at(1.5), (4.5, 2));
    assert_eq!(at(6.0), (13.0, 2));
    let mut fresh = DualMaxLpWorkspace::new(&rows).expect("a program");
    let solved = fresh.solve_for_c(&s_t, &sigma_gamma, two, real_of(6.0), &numbers, &never);
    assert_eq!(float(solved.expect("optimum")), 13.0);
}

#[test]
fn a_value_misses_the_optimum_at_its_own_costs() {
    let mut workspace =
        DualMaxLpWorkspace::new(&real_rows(&[vec![1.0], vec![1.0]])).expect("a program");
    let sigma = real_rows(&[vec![4.0, 1.0], vec![1.0, 2.0]]);
    let (y, gamma) = (reals(&[3.0, 5.0]), reals(&[1.0, 0.0]));
    let mut missed = |c: f64| {
        let by = workspace.miss(&sigma, &y, &gamma, real_of(c), &lp_numbers(), &dual_fallback);
        float(by.expect("optimum"))
    };
    assert_eq!(missed(3.0), 2.0);
    assert_eq!(missed(7.0), 0.0);
    assert_eq!(missed(-3.0), 6.5);
}

#[test]
fn a_moment_program_without_nuisance_has_the_largest_ratio() {
    let design: Vec<Vec<Real>> = vec![Vec::new(), Vec::new(), Vec::new()];
    let sd: Vec<f64> = [1.2_f64, 0.9, 1.1].iter().map(|v| v.sqrt()).collect();
    let numbers = lp_numbers();
    let mut workspace =
        ConditionalMomentLpWorkspace::new(&design, &reals(&sd), &numbers).expect("a program");
    let found = workspace.solve_in_place(&reals(&[0.7, 0.3, 0.45]), &numbers).expect("optimum");
    assert!((float(found.eta_star) - 0.7 / 1.2_f64.sqrt()).abs() < 1e-8);
    let lambda = floats(&found.lambda);
    assert!((lambda[0] - 1.0 / 1.2_f64.sqrt()).abs() < 1e-8);
    assert_eq!(lambda[1..], [0.0, 0.0]);
    assert!(found.delta_star.is_empty());
    let eta = workspace.solve_eta_only(&reals(&[0.7, 0.3, 0.45]), &numbers).expect("optimum");
    assert_eq!(eta, found.eta_star);
    let mut prepared =
        ConditionalMomentLpWorkspace::new(&design, &reals(&sd), &numbers).expect("a program");
    prepared.prepare(&numbers);
    assert!(prepared.lp.state.has_feasible_basis);
    let again = prepared.solve_eta_only(&reals(&[0.7, 0.3, 0.45]), &numbers).expect("optimum");
    assert_eq!(again, eta);
    let moved = workspace.solve_eta_only(&reals(&[0.1, 0.9, 0.45]), &numbers).expect("optimum");
    assert!((float(moved) - 0.9 / 0.9_f64.sqrt()).abs() < 1e-8);
}

#[test]
fn default_settings_are_accepted_at_every_level() {
    for level in [0.0, 0.5, 0.9, 0.95, 0.99, 1.0] {
        let inference = inference_at(level);
        let magnitude = RelativeMagnitudeConfidenceSetConfig::from_inference(inference);
        assert_eq!(magnitude.validate(inference), Ok(()));
        let smooth = SmoothnessConfidenceSetConfig::from_inference(inference);
        assert_eq!(smooth.validate(inference), Ok(()));
        let above = RelativeMagnitudeConfidenceSetConfig {
            hybrid_kappa: real_of(1.0 - level + 0.001),
            ..magnitude
        };
        assert!(above.validate(inference).is_err());
    }
}

#[test]
fn a_joint_region_covers_the_path_in_order() {
    let input = study_input(
        &[0.0, 0.1, 1.0, 1.5],
        &diagonal(&[0.25, 0.25, 0.5, 0.5]),
        &[-2, -1],
        &[3, 5],
    );
    let region = assess_honest_event_study_joint_path_region(
        &input,
        HonestSensitivity::Smoothness(real_of(0.5)),
        inference_at(0.95),
        real_of(0.0),
        &levels(),
        &study_sets(),
        &study_sets(),
    )
    .expect("region");
    let labels: Vec<i32> = region.points.iter().map(|point| point.post_period).collect();
    assert_eq!(labels, vec![3, 5]);
    assert!(float(region.pointwise_confidence_level) > 0.95);
    let directional = directional_region_from_joint_path_region(&input, &region);
    assert_eq!(directional.points.len(), 2);
    for (i, point) in directional.points.iter().enumerate() {
        assert_eq!(point.assessment, region.points[i].assessment);
        assert_eq!(point.post_weights, basis_post_weights(2, i));
    }
    let csv = render_honest_joint_path_report_csv(&region, &six_decimals);
    let fields: Vec<usize> = csv.lines().map(|line| line.split(',').count()).collect();
    assert_eq!(fields.len(), 3);
    assert!(fields.iter().all(|count| *count == fields[0]));
}

fn surface_config(random: usize) -> HonestOptimizationSurfaceConfig {
    HonestOptimizationSurfaceConfig {
        include_basis: true,
        include_pairwise_contrasts: true,
        random_unit_directions: random,
        random_seed: 11,
    }
}

fn bonferroni() -> HonestJointPathConfig {
    HonestJointPathConfig {
        method: HonestJointPathMethod::Bonferroni,
        simulation_draws: 100,
        simulation_seed: 1,
    }
}

#[test]
fn surface_directions_point_up_and_differ() {
    let found = generate_optimization_surface_directions(3, surface_config(8), &directions())
        .expect("directions");
    assert_eq!(found.directions.len(), 3 + 3 + 8);
    assert_eq!(found.random_direction_count, 8);
    for (i, direction) in found.directions.iter().enumerate() {
        let values = floats(direction);
        assert!((values.iter().map(|v| v * v).sum::<f64>() - 1.0).abs() < 1e-12);
        let first = values.iter().find(|v| v.abs() > 1e-12).expect("a direction");
        assert!(*first > 0.0);
        assert!(found.directions[..i].iter().all(|other| other != direction));
    }
}

#[test]
fn a_refined_direction_has_more_variance() {
    let numbers = directions();
    let sigma = real_rows(&[vec![1.0, 0.6], vec![0.6, 2.0]]);
    let seed = reals(&[1.0, 0.0]);
    let refined = refine_direction_with_argmin(&seed, &sigma, &numbers)
        .expect("search succeeds")
        .expect("a direction");
    let before = float(projected_variance(&seed, &sigma, &numbers));
    let after = float(projected_variance(&refined, &sigma, &numbers));
    assert!(after > before);
    let mut units = real_rows(&[vec![1.0, 0.0], vec![0.0, 1.0]]);
    let kept = refine_optimization_surface_directions_with_argmin(
        &sigma, &mut units, None, &numbers,
    )
    .expect("search succeeds");
    assert_eq!(kept.len(), 2);
    assert_eq!(units[1], kept[0]);
}

#[test]
fn a_direction_of_another_length_is_refused() {
    let inference = inference_at(0.95);
    let region = |directions: &[Vec<f64>]| {
        assess_honest_event_study_directional_region_with_precalibrated_pointwise(
            &two_post_input(),
            &real_rows(directions),
            HonestSensitivity::Smoothness(real_of(0.5)),
            real_of(0.0),
            RelativeMagnitudeConfidenceSetConfig::from_inference(inference),
            None,
            HonestJointPathMethod::Bonferroni,
            real_of(0.95),
            (real_of(0.975), real_of(2.5)),
            &levels(),
            &study_sets(),
            &study_sets(),
        )
    };
    let message = refused(region(&[vec![1.0, 0.0], vec![1.0]]));
    assert!(message.contains("weights"), "{message}");
    let found = region(&[vec![1.0, 0.0]]).expect("a region");
    assert_eq!(float(found.pointwise_confidence_level), 0.975);
    assert_eq!(floats(&found.points[0].post_weights), vec![1.0, 0.0]);
}

#[test]
fn a_refused_input_is_refused_over_default_surfaces() {
    let input = study_input(&[0.0, f64::NAN, 1.0], &diagonal(&[1.0, 1.0, 1.0]), &[-2, -1], &[0]);
    let inference = inference_at(0.95);
    let sensitivity = HonestSensitivity::Smoothness(real_of(0.5));
    let sets = study_sets();
    let expected = refused(input.validate());
    let zero = real_of(0.0);
    assert_eq!(
        refused(assess_honest_event_study_optimization_surface_region(
            &input, sensitivity, inference, zero, &directions(), &levels(), &sets, &sets,
        )),
        expected
    );
    assert_eq!(
        refused(assess_honest_event_study_workflow(
            &input,
            &vec![HonestPostFunctional::Period(0)],
            sensitivity,
            inference,
            zero,
            &share,
            &plus,
            &directions(),
            &levels(),
            &sets,
            &sets,
        )),
        expected
    );
}

#[test]
fn an_enriched_region_is_a_fixed_region() {
    let input = study_input(
        &[0.0, 0.1, 1.0, 1.5],
        &diagonal(&[0.25, 0.25, 0.5, 0.5]),
        &[-2, -1],
        &[0, 1],
    );
    let inference = inference_at(0.95);
    let sensitivity = HonestSensitivity::Smoothness(real_of(0.5));
    let sets = study_sets();
    let branches = study_sets();
    let magnitude = RelativeMagnitudeConfidenceSetConfig::from_inference(inference);
    let enriched = assess_honest_event_study_optimization_surface_region_adaptive_with_config(
        &input,
        sensitivity,
        inference,
        real_of(0.0),
        HonestOptimizationSurfaceAdaptiveRunConfig {
            relative_magnitude: magnitude,
            joint: bonferroni(),
            surface: surface_config(0),
            adaptive: HonestOptimizationSurfaceAdaptiveConfig {
                random_batch_size: 2,
                min_random_for_convergence: 2,
                pointwise_tolerance: real_of(1.0),
                max_iterations: 3,
            },
        },
        &directions(),
        &levels(),
        &sets,
        &branches,
    )
    .expect("enriched region");
    let count = enriched.diagnostics.random_direction_count;
    let fixed = assess_honest_event_study_optimization_surface_region_with_config(
        &input,
        sensitivity,
        inference,
        real_of(0.0),
        magnitude,
        bonferroni(),
        surface_config(count),
        &directions(),
        &levels(),
        &sets,
        &branches,
    )
    .expect("fixed region");
    assert!(enriched.diagnostics.iterations_run >= 1);
    assert!(enriched.diagnostics.iterations_run <= 3);
    assert_eq!(enriched.points, fixed.points);
    assert_eq!(enriched.pointwise_confidence_level, fixed.pointwise_confidence_level);
}

#[test]
fn a_summary_follows_its_grid() {
    let input = gentle_input();
    let grid = reals(&[1.0, 0.5, 0.75]);
    let summary = summarize_smoothness_sensitivity(
        &input,
        inference_at(0.95),
        &reals(&[1.0]),
        Some(SensitivitySummaryMethod::Flci),
        Some(&grid),
        None,
        None,
        &levels(),
        &study_sets(),
        &grids(),
    )
    .expect("summary");
    let bounds: Vec<Real> = summary.rows.iter().map(|row| row.sensitivity_value).collect();
    assert_eq!(bounds, grid);
    let length = |i: usize| float(summary.rows[i].ub) - float(summary.rows[i].lb);
    assert!(length(1) <= length(2) && length(2) <= length(0));
}

#[test]
fn the_upper_bound_of_a_grid_is_exact() {
    let input = study_input(
        &[1.0, 2.0, 4.0, 10.0],
        &diagonal(&[1.0, 1.0, 1.0, 1.0]),
        &[-3, -2, -1],
        &[0],
    );
    let bound = estimate_smoothness_upper_bound_from_pretrends(&input, real_of(0.05), &grids())
        .expect("upper bound");
    let z = standard_normal().expect("normal").inverse_cdf(0.95);
    let expected = (6.0 + z * 5.0_f64.sqrt()).max(1.0 + z * 6.0_f64.sqrt());
    assert!((float(bound) - expected).abs() < 1e-9, "{} vs {expected}", float(bound));
}

#[test]
fn covariances_are_symmetric() {
    let influence = real_rows(&[vec![1.0, -2.0, 0.5, 1.5], vec![0.25, 0.5, -1.0, 2.0]]);
    let plain = covariance_matrix_from_influence_matrix(&influence, &covariances()).unwrap();
    assert_eq!(plain[0][1], plain[1][0]);
    let clustered = clustered_covariance_matrix_from_influence_matrix(
        &influence,
        &vec!["a", "b", "a", "b"],
        &covariances(),
    )
    .unwrap();
    assert_eq!(clustered[0][1], clustered[1][0]);
    let expected = 2.0 / 16.0 * (1.5 * 1.5 + 0.5 * 0.5);
    assert!((float(clustered[0][0]) - expected).abs() < 1e-12);
}

#[test]
fn smoothness_intervals_of_several_functionals_are_simultaneous() {
    let input = study_input(
        &[0.0, 0.1, 1.0, 1.5],
        &diagonal(&[0.25, 0.25, 0.5, 0.5]),
        &[-2, -1],
        &[0, 1],
    );
    let sets = study_sets();
    let problem = build_smoothness_multi_flci_problem(
        &input,
        &real_rows(&[vec![1.0, 0.0], vec![0.0, 1.0]]),
        real_of(0.5),
        inference_at(0.95),
        &sets,
    )
    .expect("problem");
    let joint = compute_smoothness_multi_flci(&problem, &levels(), &sets).expect("intervals");
    assert_eq!(joint.points.len(), 2);
    let alone = build_smoothness_flci_problem(
        &input,
        &reals(&[1.0, 0.0]),
        real_of(0.5),
        inference_at(0.95),
        &sets,
    )
    .expect("problem");
    let single = sets
        .interval(&alone, SmoothnessFlciConfig::default_for_production())
        .expect("interval");
    assert!(float(joint.points[0].flci.0) <= float(single.flci.0));
    assert!(float(joint.points[0].flci.1) >= float(single.flci.1));
}

// ---------------------------------------------------------------------------
// Errors
// ---------------------------------------------------------------------------

fn refused<T>(outcome: Result<T, HonestError>) -> String {
    match outcome {
        Ok(_) => panic!("the request was not refused"),
        Err(error) => describe(&error),
    }
}

#[test]
fn faulty_inputs_are_refused() {
    let good = two_post_input();
    let mut short = good.clone();
    short.betahat.pop();
    assert_eq!(
        refused(short.validate()),
        "event-study coefficient length 3 does not match pre+post periods 4"
    );
    let mut ragged = good.clone();
    ragged.covariance[2].pop();
    assert_eq!(
        refused(ragged.validate()),
        "event-study covariance matrix dimensions do not match coefficients"
    );
    let mut infinite = good.clone();
    infinite.betahat[0] = real_of(f64::INFINITY);
    assert_eq!(refused(infinite.validate()), "event-study coefficients must be finite");
    let mut unknown = good.clone();
    unknown.covariance[1][1] = real_of(f64::NAN);
    assert_eq!(refused(unknown.validate()), "event-study covariance values must be finite");
    assert!(good.validate().is_ok());
}

#[test]
fn faulty_weights_are_refused() {
    let input = two_post_input();
    let assess = |weights: &[f64], sensitivity: HonestSensitivity| {
        refused(assess_honest_event_study_functional(
            &input,
            &reals(weights),
            sensitivity,
            inference_at(0.95),
            real_of(0.0),
            &study_sets(),
        ))
    };
    let magnitude = HonestSensitivity::RelativeMagnitude(real_of(1.0));
    assert_eq!(
        assess(&[1.0], magnitude),
        "post_weights length 1 does not match number of post periods 2"
    );
    assert_eq!(assess(&[f64::NAN, 1.0], magnitude), "post_weights weights must be finite");
    assert_eq!(
        assess(&[0.0, 0.0], magnitude),
        "post_weights must contain at least one non-zero weight"
    );
    assert_eq!(
        assess(&[0.0, 0.0], HonestSensitivity::Smoothness(real_of(1.0))),
        "Smoothness sensitivity requires at least one non-zero post_weights weight"
    );
    assert_eq!(
        assess(&[1.0, 0.0], HonestSensitivity::RelativeMagnitude(real_of(-1.0))),
        "relative-magnitude sensitivity requires finite non-negative Mbar, got -1"
    );
    assert_eq!(
        refused(construct_gamma(&reals(&[0.0, 0.0]))),
        "failed to construct Gamma basis from zero post weights"
    );
}

#[test]
fn faulty_functionals_are_refused() {
    let input = two_post_input();
    let weigh = |functional: HonestPostFunctional| {
        post_weights_for_functional(&input, &functional, &share, &plus)
    };
    assert_eq!(
        refused(weigh(HonestPostFunctional::Period(9))),
        "post period 9 is not present in HonestEventStudyInput"
    );
    assert_eq!(
        refused(weigh(HonestPostFunctional::AverageWindow { start_period: 1, end_period: 0 })),
        "average window start_period 1 exceeds end_period 0"
    );
    assert_eq!(
        refused(weigh(HonestPostFunctional::AverageWindow { start_period: 5, end_period: 8 })),
        "average window [5, 8] covers no post periods"
    );
    assert_eq!(
        refused(weigh(HonestPostFunctional::Weighted(Vec::new()))),
        "weighted functional requires at least one post-period weight"
    );
    assert_eq!(
        refused(weigh(HonestPostFunctional::Weighted(vec![(7, real_of(1.0))]))),
        "post period 7 is not present in HonestEventStudyInput"
    );
    let average = weigh(HonestPostFunctional::AverageWindow { start_period: 0, end_period: 1 });
    assert_eq!(floats(&average.expect("weights")), vec![0.5, 0.5]);
    let twice = weigh(HonestPostFunctional::Weighted(vec![
        (1, real_of(0.25)),
        (1, real_of(0.5)),
    ]));
    assert_eq!(floats(&twice.expect("weights")), vec![0.0, 0.75]);
}

#[test]
fn faulty_configurations_are_refused() {
    let inference = inference_at(0.95);
    let smooth = SmoothnessConfidenceSetConfig::from_inference(inference);
    assert_eq!(
        refused(
            SmoothnessConfidenceSetConfig { hybrid_kappa: real_of(f64::NAN), ..smooth }
                .validate(inference)
        ),
        "smoothness hybrid_kappa must be finite"
    );
    assert!(
        refused(
            SmoothnessConfidenceSetConfig { hybrid_kappa: real_of(0.5), ..smooth }
                .validate(inference)
        )
        .starts_with("smoothness hybrid_kappa must lie in [0, alpha]=0.05")
    );
    assert_eq!(
        refused(
            SmoothnessConfidenceSetConfig { grid_points: 1, ..smooth }.validate(inference)
        ),
        "smoothness conditional grid_points must be at least 2, got 1"
    );
    let magnitude = RelativeMagnitudeConfidenceSetConfig::from_inference(inference);
    assert_eq!(
        refused(
            RelativeMagnitudeConfidenceSetConfig {
                hybrid_kappa: real_of(f64::INFINITY),
                ..magnitude
            }
            .validate(inference)
        ),
        "relative-magnitude hybrid_kappa must be finite"
    );
    assert!(
        refused(
            RelativeMagnitudeConfidenceSetConfig { hybrid_kappa: real_of(-0.1), ..magnitude }
                .validate(inference)
        )
        .ends_with(", got -0.1")
    );
    let adaptive = HonestOptimizationSurfaceAdaptiveConfig::default_for_production();
    assert_eq!(
        refused(
            HonestOptimizationSurfaceAdaptiveConfig { random_batch_size: 0, ..adaptive }
                .validate()
        ),
        "optimization surface adaptive random_batch_size must be positive"
    );
    assert_eq!(
        refused(
            HonestOptimizationSurfaceAdaptiveConfig { max_iterations: 0, ..adaptive }.validate()
        ),
        "optimization surface adaptive max_iterations must be positive"
    );
    assert_eq!(
        refused(
            HonestOptimizationSurfaceAdaptiveConfig {
                pointwise_tolerance: real_of(-1.0),
                ..adaptive
            }
            .validate()
        ),
        "optimization surface adaptive pointwise_tolerance must be finite and non-negative"
    );
}

#[test]
fn branches_off_the_periods_are_refused() {
    assert_eq!(
        refused(build_relative_magnitude_constraint_matrix(2, 1, -2, true)),
        "invalid relative-magnitude branch index s=-2 for num_pre=2"
    );
    assert_eq!(
        refused(build_linear_trend_relative_magnitude_constraint_matrix(2, 1, -1, true)),
        "invalid linear-trend relative-magnitude branch index s=-1 for num_pre=2"
    );
    let branch = RelativeMagnitudeBranch { s: -9, max_positive: true };
    assert!(RelativeMagnitudeFamily::Base.build_constraint_matrix(2, 1, branch).is_err());
}

#[test]
fn faulty_directions_are_refused() {
    let input = two_post_input();
    let check = |rows: &[Vec<f64>]| {
        refused(validate_direction_set(&input, &real_rows(rows), &levels()))
    };
    assert_eq!(check(&[]), "directional region requires at least one direction");
    assert_eq!(
        check(&[vec![1.0]]),
        "direction length 1 does not match number of post periods 2"
    );
    assert_eq!(check(&[vec![1.0, f64::NAN]]), "direction vector values must be finite");
    assert_eq!(check(&[vec![0.0, 0.0]]), "direction vector must have non-zero weight");
    let surface = HonestOptimizationSurfaceConfig {
        include_basis: false,
        include_pairwise_contrasts: false,
        random_unit_directions: 0,
        random_seed: 0,
    };
    assert_eq!(
        refused(generate_optimization_surface_directions(2, surface, &directions())),
        "optimization surface direction set is empty; enable basis, pairwise, or random directions"
    );
    assert_eq!(
        refused(generate_optimization_surface_directions(0, surface, &directions())),
        "optimization surface region requires at least one post period"
    );
    let sigma = real_rows(&diagonal(&[1.0, 1.0]));
    assert_eq!(
        refused(refine_direction_with_argmin(&reals(&[0.0, 0.0]), &sigma, &directions())),
        "seed direction is degenerate and cannot be refined"
    );
}

#[test]
fn calibration_needs_draws_and_variance() {
    let input = two_post_input();
    let pair = real_rows(&[vec![1.0, 0.0], vec![0.0, 1.0]]);
    let none = HonestJointPathConfig {
        method: HonestJointPathMethod::GaussianSimulated,
        simulation_draws: 0,
        simulation_seed: 0,
    };
    assert!(
        refused(functional_level(&input, &pair, inference_at(0.95), none, true, &levels()))
            .ends_with("simulation_draws must be positive")
    );
    let flat = study_input(
        &[1.0, 2.0, 10.0, 20.0],
        &diagonal(&[0.25, 0.25, 1.0, 0.0]),
        &[-2, -1],
        &[0, 1],
    );
    let some = HonestJointPathConfig { simulation_draws: 50, ..none };
    assert_eq!(
        refused(functional_level(&flat, &pair, inference_at(0.95), some, true, &levels())),
        "one or more functionals have near-zero variance under post covariance"
    );
    assert_eq!(
        refused(calibrate_directional_region(
            &flat,
            &pair,
            inference_at(0.95),
            some,
            &levels()
        )),
        "one or more direction vectors have near-zero variance under the post covariance"
    );
    assert!(
        refused(functional_level(&input, &pair, inference_at(2.5), bonferroni(), true, &levels()))
            .starts_with("invalid Bonferroni-adjusted confidence level")
    );
}

#[test]
fn summaries_refuse_what_they_cannot_answer() {
    let input = gentle_input();
    let summarize = |level: f64, weights: &[f64], bounds: &[f64], bias, monotone| {
        refused(summarize_smoothness_sensitivity(
            &input,
            inference_at(level),
            &reals(weights),
            None,
            Some(&reals(bounds)),
            bias,
            monotone,
            &levels(),
            &study_sets(),
            &grids(),
        ))
    };
    assert_eq!(summarize(1.5, &[1.0], &[0.5], None, None), "invalid confidence level 1.5");
    assert!(
        summarize(0.95, &[1.0], &[-1.0], None, None)
            .ends_with("requires finite non-negative M, got -1")
    );
    assert!(
        summarize(
            0.95,
            &[1.0],
            &[0.5],
            Some(HonestBiasDirection::Positive),
            Some(HonestMonotonicityDirection::Increasing),
        )
        .ends_with("sign restriction or a monotonicity restriction, not both")
    );
    assert_eq!(
        refused(estimate_smoothness_upper_bound_from_pretrends(&input, real_of(0.0), &grids())),
        "alpha must lie in (0,1), got 0"
    );
    let single = study_input(&[0.0, 1.0], &diagonal(&[1.0, 1.0]), &[-1], &[0]);
    assert_eq!(
        refused(estimate_smoothness_upper_bound_from_pretrends(&single, real_of(0.05), &grids())),
        "smoothness upper-bound M requires at least two pre periods"
    );
}

#[test]
fn restrictions_need_their_pre_periods() {
    let none = study_input(&[1.0], &diagonal(&[1.0]), &[], &[0]);
    let sets = study_sets();
    assert_eq!(
        refused(sets.magnitude_identified(
            RelativeMagnitudeFamily::Base,
            &none,
            &reals(&[1.0]),
            real_of(1.0)
        )),
        "relative-magnitude sensitivity requires at least one pre-period"
    );
    let vcov = real_rows(&[vec![1.0]]);
    let target = ScalarEstimate { att: real_of(1.0), se: real_of(1.0) };
    assert_eq!(
        refused(compute_honest_ci_scalar(
            target,
            &Vec::new(),
            &vcov,
            HonestSensitivity::Smoothness(real_of(1.0)),
            inference_at(0.95),
            &scalar_bounds,
            &scalar_widen,
        )),
        "requires at least one pre-period"
    );
    assert_eq!(
        refused(compute_honest_ci_scalar(
            target,
            &vec![target, target],
            &vcov,
            HonestSensitivity::Smoothness(real_of(1.0)),
            inference_at(0.95),
            &scalar_bounds,
            &scalar_widen,
        )),
        "VCOV matrix dimensions must match pre_periods + 1"
    );
    assert_eq!(
        refused(compute_honest_ci_scalar(
            target,
            &vec![target],
            &real_rows(&[vec![0.25, 0.0], vec![0.0]]),
            HonestSensitivity::Smoothness(real_of(1.0)),
            inference_at(0.95),
            &scalar_bounds,
            &scalar_widen,
        )),
        "VCOV matrix dimensions must match pre_periods + 1"
    );
}

#[test]
fn faulty_influence_functions_are_refused() {
    let check = |rows: &[Vec<f64>]| {
        refused(covariance_matrix_from_influence_matrix(&real_rows(rows), &covariances()))
    };
    assert!(check(&[]).ends_with("requires non-empty influence vectors"));
    assert!(check(&[vec![1.0, 2.0], vec![1.0]]).ends_with("equal-length influence vectors"));
    assert!(check(&[vec![1.0, f64::NAN]]).ends_with("requires finite influence values"));
    let index = ClusterIndex { group_assignments: vec![0], n_groups: 1 };
    assert_eq!(
        refused(clustered_covariance_matrix_from_influence_matrix_index(
            &real_rows(&[vec![1.0, 2.0]]),
            &index,
            &covariances()
        )),
        "clustered covariance matrix requires aligned influence/cluster lengths (2 vs 1)"
    );
    let solve = |_: &Vec<Real>, right: &Vec<Real>| Ok(right.clone());
    assert_eq!(
        refused(joint_wald_test(
            &Vec::new(),
            &Vec::new(),
            &solve,
            &|_: Real, _: Real, total: Real| total,
            &|_: usize, stat: Real| Ok(stat),
        )),
        "Wald test requires at least one estimate"
    );
}

#[test]
fn faulty_systems_are_refused() {
    let rows = real_rows(&[vec![1.0, 2.0], vec![3.0, 4.0]]);
    assert!(check_square_system("solve", &rows, Some(2)).is_ok());
    assert_eq!(
        refused(check_square_system("solve", &rows, Some(3))),
        "solve rhs length 3 does not match matrix size 2"
    );
    assert_eq!(
        refused(check_square_system("solve", &rows[..1], None)),
        "solve requires a square coefficient matrix; got 1x2"
    );
    assert_eq!(
        refused(check_square_system("solve", &real_rows(&[vec![1.0], vec![]]), None)),
        "coefficient matrix has non-rectangular rows"
    );
    assert_eq!(
        refused(build_moment_program(&rows, &reals(&[1.0]), &lp_numbers())),
        "HonestDiD eta/delta LP has 2 design rows but 1 variances"
    );
    let solver = MomentSolver::new(&rows, &reals(&[1.0, 1.0])).expect("a program");
    assert_eq!(
        refused(solver.solve(&[1.0])),
        "HonestDiD eta/delta LP rhs length mismatch: expected 2, got 1"
    );
    assert_eq!(
        refused(dual_program_rhs(&real_rows(&[vec![1.0], vec![1.0, 2.0]]))),
        "HonestDiD dual max LP has ragged rows"
    );
    assert_eq!(
        describe(&branch_count_mismatch(3, 2)),
        "prepared relative-magnitude branch count 3 does not match prepared input branch count 2"
    );
}

#[test]
fn failing_simulations_are_refused() {
    let reached = |_: usize, _: usize| true;
    let failing = |_: usize| -> Result<Option<Real>, String> { Ok(None) };
    assert_eq!(
        refused(compute_least_favorable_cv_from_draws(7, 2, &failing, &reached)),
        "least-favorable draws of length 7 do not tile a dimension of 2"
    );
    assert_eq!(
        refused(compute_least_favorable_cv_from_draws(8, 2, &failing, &reached)),
        "least-favorable CV simulation: too many LP failures (4/4); cannot estimate critical value reliably"
    );
    assert_eq!(
        refused(compute_least_favorable_cv_from_draws(0, 2, &failing, &reached)),
        "failed to compute least-favorable critical value"
    );
    let broken = |_: usize| -> Result<Option<Real>, String> { Err("no workspace".to_string()) };
    assert_eq!(
        refused(compute_least_favorable_cv_from_draws(8, 2, &broken, &reached)),
        "no workspace"
    );
}

fn dual_outcome<T: LpArithmetic>(
    rows: &[Vec<f64>],
    s_t: &[f64],
    sigma_b2: f64,
    numbers: &T,
) -> String {
    let fallback =
        |_: &ConeProgram, _: &Vec<Real>| -> Result<Real, String> { Err("still stuck".to_string()) };
    let mut workspace = DualMaxLpWorkspace::new(&real_rows(rows)).expect("a program");
    refused(workspace.solve_for_c(
        &reals(s_t),
        &reals(s_t),
        real_of(sigma_b2),
        real_of(0.0),
        numbers,
        &fallback,
    ))
}

/// Arithmetic by which every column is always worth entering.
fn restless() -> impl LpArithmetic {
    LpFunctions {
        divide: |left: Real, right: Real| real_of(float(left) / float(right)),
        lower: |value: Real| real_of(float(value) - 1e-12),
        subtract: |left: Real, right: Real| real_of(float(left) - float(right)),
        accumulate: |sum: Real, _: Real, _: Real| sum,
        reduce: |_: Real, _: &Vec<Real>, _: &Vec<Real>| real_of(1.0),
        product: |_: &Vec<Real>, _: &Vec<Real>| real_of(1.0),
        reciprocal: |value: Real| real_of(1.0 / float(value)),
        multiply: |left: Real, right: Real| real_of(float(left) * float(right)),
        eliminate: |value: Real, factor: Real, pivot: Real| {
            real_of(float(value) - float(factor) * float(pivot))
        },
        total: |_: &Vec<Real>| real_of(0.0),
        cost: |start: Real, _: Real, _: Real| start,
        bound: |start: Real, _: Real| start,
    }
}

#[test]
fn failing_dual_programs_are_told_apart() {
    let one = [vec![1.0]];
    assert_eq!(
        dual_outcome(&one, &[1.0], 0.0, &lp_numbers()),
        "HonestDiD dual max program encountered zero gamma variance"
    );
    assert_eq!(
        dual_outcome(&[vec![-1.0]], &[1.0], 1.0, &lp_numbers()),
        "HonestDiD dual max program is infeasible"
    );
    let line = [vec![1.0, 0.0], vec![0.0, 1.0], vec![0.0, -1.0]];
    assert_eq!(
        dual_outcome(&line, &[0.0, 1.0, 1.0], 1.0, &lp_numbers()),
        "HonestDiD dual max program is unbounded"
    );
    assert_eq!(
        dual_outcome(&[vec![0.0], vec![0.0]], &[1.0, 1.0], 1.0, &restless()),
        "dense simplex failed to solve HonestDiD dual max LP: Singular; Clarabel fallback also failed: still stuck"
    );
    assert_eq!(
        dual_outcome(&[vec![1.0], vec![1.0]], &[1.0, 1.0], 1.0, &restless()),
        "dense simplex failed to solve HonestDiD dual max LP: IterationLimit; Clarabel fallback also failed: still stuck"
    );
    let numbers = DualFunctions {
        miss: |_: Real| -> Result<Real, HonestError> { Ok(real_of(0.0)) },
        width: |a: Real, _: Real| a,
        midpoint: |a: Real, _: Real| a,
        root: |a: Real| a,
        below: |a: Real, _: Real| a,
        above: |a: Real, _: Real| a,
        standardize: |zlo: Real, zup: Real| Standardized { zlo, zup, maxstat: zlo },
        quantile: |a: Real, _: Real| Ok(a),
    };
    assert_eq!(
        refused(dual_acceptance_region(
            real_of(0.0),
            real_of(-1.0),
            real_of(-100.0),
            real_of(100.0),
            &numbers,
        )),
        "HonestDiD dual branch produced negative variance"
    );
}

fn one_moment() -> Moments {
    Moments {
        y_base: reals(&[1.0]),
        a_target: reals(&[1.0]),
        design: vec![Vec::new()],
        sigma: real_rows(&[vec![1.0]]),
        sd: reals(&[1.0]),
        w_t: real_rows(&[vec![1.0]]),
    }
}

fn level_of(alpha: f64, kappa: f64, lf_cv: f64) -> TestLevel {
    TestLevel { alpha: real_of(alpha), kappa: real_of(kappa), lf_cv: real_of(lf_cv) }
}

#[test]
fn a_hybrid_test_needs_its_interval() {
    let moments = one_moment();
    let full = FullMoments {
        y_base: reals(&[1.0]),
        a_target: reals(&[1.0]),
        sigma: real_rows(&[vec![1.0]]),
        rows_for_arp: vec![0],
    };
    let (y, y_full) = (reals(&[1.0]), reals(&[1.0]));
    let problem = SmoothnessProblem {
        moments: &moments,
        y: &y,
        full: &full,
        y_full: &y_full,
        theta: real_of(0.0),
        level: level_of(0.05, 0.005, f64::INFINITY),
        hybrid: SmoothnessHybrid::Flci,
        flci: &None,
    };
    assert_eq!(
        refused(smoothness_dual_conditional_test(&problem, &test_arithmetic())),
        "missing smoothness fixed-length interval hybrid data"
    );
}

#[test]
fn a_value_is_accepted_exactly_where_its_test_does_not_reject() {
    let (moments, arithmetic) = (one_moment(), test_arithmetic());
    let level = level_of(0.05, 0.0, f64::INFINITY);
    for theta in [-3.0, -1.0, -0.6, 0.0, 1.0, 4.0] {
        let y = reals(&[1.0 - theta]);
        let rejected =
            relative_magnitude_lp_conditional_test_prepared(&moments, &y, level, &arithmetic)
                .expect("test");
        let accepted = accepts(&moments, real_of(theta), level, &arithmetic).expect("test");
        assert_eq!(accepted, !rejected);
        assert_eq!(accepted, 1.0 - theta <= 1.6448536269514722, "theta {theta}");
    }
}

#[test]
fn the_range_of_a_branch_ends_where_its_test_begins_to_reject() {
    let (moments, arithmetic) = (vec![one_moment()], test_arithmetic());
    let tests = BranchTests {
        arithmetic: &arithmetic,
        moments: &moments,
        alpha: real_of(0.05),
        kappa: real_of(0.0),
    };
    let grid: Vec<Real> = (0..13).map(|i| real_of(-3.0 + 0.5 * i as f64)).collect();
    let far = Real::infinity();
    let (range, _) =
        compute_relative_magnitude_branch_accepted_range_adaptive(&grid, 6, 0, far, &tests)
            .expect("searched");
    let range = range.expect("a range");
    assert_eq!((range.lower_idx, range.upper_idx), (5, 12));
    assert_eq!(tests.decide(0, far, grid[5]), Ok(true));
    assert_eq!(tests.decide(0, far, grid[12]), Ok(true));
    assert_eq!(tests.decide(0, far, grid[4]), Ok(false));
    let (none, _) =
        compute_relative_magnitude_branch_accepted_range_adaptive(&grid[..5], 2, 0, far, &tests)
            .expect("searched");
    assert_eq!(none, None);
}

#[test]
fn the_first_stage_rejects_above_its_critical_value() {
    let (moments, arithmetic) = (one_moment(), test_arithmetic());
    let theta = real_of(-0.5);
    let loose = accepts(&moments, theta, level_of(0.05, 0.005, 2.5), &arithmetic);
    assert_eq!(loose.map_err(|error| describe(&error)), Ok(true));
    let tight = accepts(&moments, theta, level_of(0.05, 0.005, 1.4), &arithmetic);
    assert_eq!(tight.map_err(|error| describe(&error)), Ok(false));
}

#[test]
fn the_critical_value_caps_the_truncation_of_a_kept_program() {
    let (moments, arithmetic) = (one_moment(), test_arithmetic());
    let theta = real_of(-0.6);
    let capped = accepts(&moments, theta, level_of(0.05, 0.005, 2.0), &arithmetic);
    assert_eq!(capped.map_err(|error| describe(&error)), Ok(false));
    let open = accepts(&moments, theta, level_of(0.05, 0.005, f64::INFINITY), &arithmetic);
    assert_eq!(open.map_err(|error| describe(&error)), Ok(true));
}

#[test]
fn a_critical_value_is_simulated_from_the_moments() {
    let arithmetic = test_arithmetic();
    let at = |kappa: f64| {
        float(
            least_favorable_critical_value(&one_moment(), real_of(kappa), &arithmetic)
                .expect("critical value"),
        )
    };
    let (wide, narrow) = (at(0.05), at(0.25));
    assert!((wide - 1.645).abs() < 0.2);
    assert!((narrow - 0.674).abs() < 0.2);
    let draws = floats(&arithmetic.simulate(&one_moment()).expect("draws"));
    assert!(draws.contains(&wide) && draws.contains(&narrow));
    let mut singular = one_moment();
    singular.sigma = Vec::new();
    assert!(least_favorable_critical_value(&singular, real_of(0.05), &arithmetic).is_err());
}

#[test]
fn an_unsolved_program_keeps_the_value() {
    let mut moments = one_moment();
    moments.sd = reals(&[f64::NAN]);
    let level = level_of(0.05, 0.0, f64::INFINITY);
    let arithmetic = test_arithmetic();
    assert!(arithmetic.solve(&moments, &reals(&[9.0])).is_none());
    let kept = accepts(&moments, real_of(-8.0), level, &arithmetic);
    assert_eq!(kept.map_err(|error| describe(&error)), Ok(true));
}

#[test]
fn moments_that_do_not_fit_together_are_refused() {
    let arithmetic = test_arithmetic();
    let mut short = one_moment();
    short.sd = Vec::new();
    let mut ragged = one_moment();
    ragged.w_t = Vec::new();
    let moments = vec![short, ragged];
    let tests = BranchTests {
        arithmetic: &arithmetic,
        moments: &moments,
        alpha: real_of(0.05),
        kappa: real_of(0.0),
    };
    assert_eq!(
        tests.decide(0, Real::infinity(), real_of(0.0)),
        Err("HonestDiD eta/delta LP has 1 design rows but 0 variances".to_string())
    );
    assert_eq!(
        tests.decide(1, Real::infinity(), real_of(0.0)),
        Err("HonestDiD dual max LP has ragged rows".to_string())
    );
}

#[test]
fn dependent_rows_have_no_multipliers() {
    let w_t = real_rows(&[vec![1.0, 2.0], vec![2.0, 4.0], vec![0.0, 1.0]]);
    let arithmetic = test_arithmetic();
    assert_eq!(binding_multipliers(&[0, 1], &w_t, &arithmetic), None);
    let found = floats(&binding_multipliers(&[2, 0], &w_t, &arithmetic).expect("independent"));
    assert!((found[0] + 2.0).abs() < 1e-9);
    assert!((found[1] - 1.0).abs() < 1e-9);
}

#[test]
fn bent_pre_periods_bound_the_violation() {
    let input = study_input(
        &[-20.0, -10.0, 5.0],
        &diagonal(&[1.0, 1.0, 1.0]),
        &[-2, -1],
        &[0],
    );
    let sets = study_numbers();
    let set = compute_smoothness_identified_set(&input, &reals(&[1.0]), real_of(1.0), &sets)
        .expect("identified set");
    assert!((float(set.lb) + 6.0).abs() < 1e-5);
    assert!((float(set.ub) + 4.0).abs() < 1e-5);
    let loose = study_input(
        &[-20.0, -12.0, 5.0],
        &diagonal(&[1.0, 1.0, 1.0]),
        &[-2, -1],
        &[0],
    );
    let sets = study_numbers();
    let all = compute_smoothness_identified_set(&loose, &reals(&[1.0]), real_of(1.0), &sets)
        .expect("identified set");
    assert_eq!((float(all.lb), float(all.ub)), (f64::NEG_INFINITY, f64::INFINITY));
}

#[test]
fn a_solved_program_gives_its_value_and_its_columns() {
    let program = Simplex::new(real_rows(&[vec![1.0], vec![2.0]]), reals(&[4.0]), 2);
    program.solve(&reals(&[1.0, 3.0])).expect("optimum");
    assert_eq!(floats(&program.lambda()), vec![0.0, 2.0]);
    assert_eq!(float(program.objective()), 6.0);
    assert_eq!(floats(&program.duals()), vec![1.5]);
    program.solve(&reals(&[2.0, 3.0])).expect("optimum");
    assert_eq!(floats(&program.lambda()), vec![4.0, 0.0]);
    assert_eq!(float(program.objective()), 8.0);
}

#[test]
fn a_folded_quantile_needs_a_probability() {
    assert_eq!(
        refused(folded_normal_quantile(
            real_of(1.0),
            real_of(0.0),
            &interval_numbers(),
        )),
        "folded-normal quantile probability must lie in (0,1), got 1"
    );
}

#[test]
fn nothing_to_compute_is_refused() {
    let input = two_post_input();
    let sets = study_sets();
    assert_eq!(
        refused(build_relative_magnitude_multi_flci_problem(
            &input,
            &Vec::new(),
            real_of(1.0),
            inference_at(0.95),
            &sets
        )),
        "multi FLCI requires at least one functional"
    );
    let weights = real_rows(&[vec![1.0, 0.0]]);
    assert_eq!(
        refused(build_relative_magnitude_multi_flci_problem_with_precomputed_sets(
            &input,
            &weights,
            real_of(1.0),
            inference_at(0.95),
            Vec::new(),
            Vec::new(),
        )),
        "original confidence-set count 0 does not match functional count 1"
    );
    let pre_only = study_input(&[1.0], &diagonal(&[1.0]), &[-1], &[]);
    let region = assess_honest_event_study_joint_path_region(
        &pre_only,
        HonestSensitivity::RelativeMagnitude(real_of(1.0)),
        inference_at(0.95),
        real_of(0.0),
        &levels(),
        &study_sets(),
        &study_sets(),
    );
    assert_eq!(
        refused(region),
        "joint path region requires at least one post-treatment period"
    );
    let scalar = compute_honest_event_study_scalar(
        &reals(&[1.0, 2.0]),
        &real_rows(&diagonal(&[1.0])),
        &[-1],
        &[0],
        HonestSensitivity::RelativeMagnitude(real_of(1.0)),
        inference_at(0.95),
        &sets,
        &study_sets(),
    );
    assert_eq!(
        refused(scalar),
        "event-study covariance matrix dimensions do not match coefficients"
    );
}

#[test]
fn a_least_favorable_hybrid_differs_from_none() {
    let input = one_post_input();
    let inference = inference_at(0.95);
    let config = RelativeMagnitudeConfidenceSetConfig::from_inference(inference);
    let sets = study_sets();
    let interval = |hybrid: RelativeMagnitudeHybrid| {
        let set = sets
            .magnitude_confidence(
                RelativeMagnitudeFamily::Base,
                &input,
                &reals(&[1.0]),
                real_of(1.0),
                inference,
                RelativeMagnitudeConfidenceSetConfig { hybrid, ..config },
            )
            .expect("confidence set");
        (float(set.lb), float(set.ub))
    };
    let hybrid = interval(RelativeMagnitudeHybrid::LeastFavorable);
    let plain = interval(RelativeMagnitudeHybrid::ArpOnly);
    assert!(hybrid.0 <= 10.0 && hybrid.1 >= 10.0);
    assert!(plain.0 <= 10.0 && plain.1 >= 10.0);
    let assessment = assess_honest_event_study_post_functional_flci(
        &input,
        &HonestPostFunctional::Period(0),
        real_of(1.0),
        inference,
        real_of(0.0),
        &share,
        &plus,
        &sets,
    )
    .expect("assessment");
    assert_eq!((float(assessment.robust_ci.0), float(assessment.robust_ci.1)), hybrid);
}

// ---------------------------------------------------------------------------
// One function per restriction
// ---------------------------------------------------------------------------

#[test]
fn each_magnitude_restriction_has_its_identified_set() {
    let input = two_post_input();
    let weights = vec![1.0, 0.0];
    let mbar = real_of(0.5);
    let numbers = study_numbers();
    let given = reals(&weights);
    let of = |family: RelativeMagnitudeFamily| {
        compute_relative_magnitude_family_identified_set(
            &input, &given, mbar, family, &numbers,
        )
    };
    assert_eq!(
        compute_relative_magnitude_identified_set(&input, &given, mbar, &numbers),
        of(RelativeMagnitudeFamily::Base)
    );
    assert_eq!(
        compute_signed_relative_magnitude_identified_set(&input, &given, mbar, HonestBiasDirection::Positive, &numbers),
        of(RelativeMagnitudeFamily::SignedBase(HonestBiasDirection::Positive))
    );
    assert_eq!(
        compute_monotone_relative_magnitude_identified_set(&input, &given, mbar, HonestMonotonicityDirection::Increasing, &numbers),
        of(RelativeMagnitudeFamily::MonotoneBase(HonestMonotonicityDirection::Increasing))
    );
    assert_eq!(
        compute_linear_trend_relative_magnitude_identified_set(&input, &given, mbar, &numbers),
        of(RelativeMagnitudeFamily::Linear)
    );
    assert_eq!(
        compute_signed_linear_trend_relative_magnitude_identified_set(&input, &given, mbar, HonestBiasDirection::Positive, &numbers),
        of(RelativeMagnitudeFamily::SignedLinear(HonestBiasDirection::Positive))
    );
    assert_eq!(
        compute_monotone_linear_trend_relative_magnitude_identified_set(&input, &given, mbar, HonestMonotonicityDirection::Increasing, &numbers),
        of(RelativeMagnitudeFamily::MonotoneLinear(HonestMonotonicityDirection::Increasing))
    );
    let base = of(RelativeMagnitudeFamily::Base).expect("set");
    let wider = compute_relative_magnitude_identified_set(
        &input,
        &given,
        real_of(1.0),
        &numbers,
    )
    .expect("set");
    assert!(float(wider.lb) < float(base.lb) && float(base.ub) < float(wider.ub));
}

/// The confidence set of a restriction by three ways that agree.
fn magnitude_sets_agree(
    family: RelativeMagnitudeFamily,
) -> [Result<HonestConditionalConfidenceSet, HonestError>; 3] {
    let input = two_post_input();
    let (weights, mbar, inference) = (vec![1.0, 0.0], real_of(0.5), inference_at(0.9));
    let config = RelativeMagnitudeConfidenceSetConfig::from_inference(inference);
    let numbers = study_numbers();
    let given = reals(&weights);
    let direct = compute_relative_magnitude_family_conditional_cs_with_config(
        &input, &given, mbar, inference, config, family, &numbers,
    );
    let (plain, configured) = match family {
        RelativeMagnitudeFamily::Base => (
            compute_relative_magnitude_confidence_set(
                &input, &given, mbar, inference, &numbers,
            ),
            compute_relative_magnitude_confidence_set_with_config(
                &input, &given, mbar, inference, config, &numbers,
            ),
        ),
        RelativeMagnitudeFamily::SignedBase(d) => (
            compute_signed_relative_magnitude_confidence_set(
                &input, &given, mbar, d, inference, &numbers,
            ),
            compute_signed_relative_magnitude_confidence_set_with_config(
                &input, &given, mbar, d, inference, config, &numbers,
            ),
        ),
        RelativeMagnitudeFamily::MonotoneBase(d) => (
            compute_monotone_relative_magnitude_confidence_set(
                &input, &given, mbar, d, inference, &numbers,
            ),
            compute_monotone_relative_magnitude_confidence_set_with_config(
                &input, &given, mbar, d, inference, config, &numbers,
            ),
        ),
        RelativeMagnitudeFamily::Linear => (
            compute_linear_trend_relative_magnitude_confidence_set(
                &input, &given, mbar, inference, &numbers,
            ),
            compute_linear_trend_relative_magnitude_confidence_set_with_config(
                &input, &given, mbar, inference, config, &numbers,
            ),
        ),
        RelativeMagnitudeFamily::SignedLinear(d) => (
            compute_signed_linear_trend_relative_magnitude_confidence_set(
                &input, &given, mbar, d, inference, &numbers,
            ),
            compute_signed_linear_trend_relative_magnitude_confidence_set_with_config(
                &input, &given, mbar, d, inference, config, &numbers,
            ),
        ),
        RelativeMagnitudeFamily::MonotoneLinear(d) => (
            compute_monotone_linear_trend_relative_magnitude_confidence_set(
                &input, &given, mbar, d, inference, &numbers,
            ),
            compute_monotone_linear_trend_relative_magnitude_confidence_set_with_config(
                &input, &given, mbar, d, inference, config, &numbers,
            ),
        ),
    };
    [direct, plain, configured]
}

#[test]
fn each_parallel_restriction_has_its_confidence_set() {
    for family in [
        RelativeMagnitudeFamily::Base,
        RelativeMagnitudeFamily::SignedBase(HonestBiasDirection::Positive),
        RelativeMagnitudeFamily::MonotoneBase(HonestMonotonicityDirection::Increasing),
    ] {
        let [direct, plain, configured] = magnitude_sets_agree(family);
        assert_eq!(direct, plain);
        assert_eq!(direct, configured);
    }
}

#[test]
fn each_linear_restriction_has_its_confidence_set() {
    for family in [
        RelativeMagnitudeFamily::Linear,
        RelativeMagnitudeFamily::SignedLinear(HonestBiasDirection::Positive),
        RelativeMagnitudeFamily::MonotoneLinear(HonestMonotonicityDirection::Increasing),
    ] {
        let [direct, plain, configured] = magnitude_sets_agree(family);
        assert_eq!(direct, plain);
        assert_eq!(direct, configured);
    }
}

#[test]
fn each_smoothness_restriction_has_its_sets() {
    let input = two_post_input();
    let (weights, m, inference) = (vec![1.0, 0.0], 1.0, inference_at(0.9));
    let given = reals(&weights);
    let config = SmoothnessConfidenceSetConfig::from_inference(inference);
    let sets = study_numbers();
    let (sign, trend) = (HonestBiasDirection::Positive, HonestMonotonicityDirection::Increasing);
    let m = real_of(m);
    assert_eq!(
        compute_smoothness_confidence_set(&input, &given, m, inference, &sets),
        compute_smoothness_confidence_set_with_config(
            &input, &given, m, inference, config, &sets,
        )
    );
    assert_eq!(
        compute_signed_smoothness_confidence_set(
            &input, &given, m, sign, inference, &sets,
        ),
        compute_signed_smoothness_confidence_set_with_config(
            &input, &given, m, sign, inference, config, &sets,
        )
    );
    assert_eq!(
        compute_monotone_smoothness_confidence_set(
            &input, &given, m, trend, inference, &sets,
        ),
        compute_monotone_smoothness_confidence_set_with_config(
            &input, &given, m, trend, inference, config, &sets,
        )
    );
    let base = compute_smoothness_identified_set(&input, &given, m, &sets).expect("set");
    for narrowed in [
        compute_signed_smoothness_identified_set(&input, &given, m, sign, &sets),
        compute_monotone_smoothness_identified_set(&input, &given, m, trend, &sets),
    ] {
        if let Ok(set) = narrowed {
            assert!(float(set.lb) >= float(base.lb) - 1e-6);
            assert!(float(set.ub) <= float(base.ub) + 1e-6);
        }
    }
}

#[test]
fn a_default_interval_is_the_interval_with_default_settings() {
    let input = two_post_input();
    let weights = vec![1.0, 0.0];
    let inference = inference_at(0.9);
    let sets = study_numbers();
    let identified =
        compute_smoothness_identified_set(&input, &reals(&weights), real_of(1.0), &sets)
            .expect("set");
    let problem = SmoothnessFlciProblem {
        input: input.clone(),
        post_weights: reals(&weights),
        m: real_of(1.0),
        inference,
        original: original_of(&input, &weights, inference),
        identified_set: identified,
    };
    let plain = compute_smoothness_flci(&problem, &sets).expect("interval");
    let configured = compute_smoothness_flci_with_config(
        &problem,
        SmoothnessFlciConfig::default_for_production(),
        &sets,
    )
    .expect("interval");
    assert_eq!(plain.flci, configured.flci);
    assert!(float(plain.flci.0) < float(plain.flci.1));
}

#[test]
fn restrictions_are_labelled() {
    let magnitude = HonestSensitivity::RelativeMagnitude(real_of(1.0));
    assert_eq!(magnitude.sensitivity_label(), "relative_magnitude");
    assert_eq!(HonestSensitivity::Smoothness(real_of(1.0)).sensitivity_label(), "smoothness");
    let mut program = DenseSimplex::new(real_rows(&[vec![1.0], vec![2.0]]), reals(&[4.0]));
    program.set_memory(5);
    assert_eq!(program.state.memory.cap, 5);
}

// ---------------------------------------------------------------------------
// Programs, projections and grids by scripted answers
// ---------------------------------------------------------------------------

#[test]
fn prepared_branches_have_one_column_per_post_period() {
    let prepared = prepare_relative_magnitude_branches(
        RelativeMagnitudeFamily::Base,
        2,
        3,
        &study_numbers(),
        real_of(1.0),
    )
    .expect("branches");
    assert_eq!(prepared.len(), 4);
    for branch in &prepared {
        assert!(branch.rows_for_arp.iter().all(|row| *row < branch.constraint_rows.len()));
        assert!(branch.a_post.iter().all(|row| row.len() == 3));
        assert_eq!(branch.inequality_len, branch.constraint_rows.len());
    }
}

/// A program of one variable with the given cost.
fn small_program(cost: f64) -> ConeProgram {
    ConeProgram {
        objective: reals(&[cost]),
        inequalities: Vec::new(),
        equalities: Vec::new(),
        soc_rows: Vec::new(),
        rhs: Vec::new(),
    }
}

#[test]
fn only_an_inaccurate_answer_is_tried_again() {
    for (status, expected, tried) in [
        (ProgramStatus::Solved, Some(3.0), vec![false]),
        (ProgramStatus::AlmostSolved, Some(3.0), vec![false]),
        (ProgramStatus::PrimalInfeasible, None, vec![false]),
        (ProgramStatus::NumericalError, Some(7.0), vec![false, true]),
        (ProgramStatus::InsufficientProgress, Some(7.0), vec![false, true]),
    ] {
        let asked = RefCell::new(Vec::new());
        let solve = |_: &ConeProgram, loose: bool| -> Result<ProgramAnswer<Vec<Real>>, String> {
            asked.borrow_mut().push(loose);
            Ok(if loose {
                ProgramAnswer { status: ProgramStatus::Solved, found: reals(&[7.0]) }
            } else {
                ProgramAnswer { status, found: reals(&[3.0]) }
            })
        };
        let mut workspace = RelativeMagnitudeIdentifiedSetWorkspace::new();
        let value = workspace
            .solve_with_q(&small_program(1.0), &study_by(solve, interval_numbers()))
            .expect("readable answer");
        assert_eq!(value.map(|found| float(found[0])), expected);
        assert_eq!(*asked.borrow(), tried);
        assert_eq!(workspace.loose, tried.len() == 2);
    }
}

/// The identified set of a branch of one post period with weight two, whose
/// programs are answered by a script.
fn scripted_branch<P: Fn(&ConeProgram, bool) -> Result<ProgramAnswer<Vec<Real>>, String>>(
    solve: P,
) -> Result<Option<HonestIdentifiedSet>, HonestError> {
    solve_relative_magnitude_branch_with_matrix(
        0,
        1,
        &reals(&[2.5]),
        &reals(&[2.0]),
        &[],
        &study_by(solve, interval_numbers()),
    )
}

#[test]
fn looser_settings_stay_for_the_second_objective() {
    let asked = RefCell::new(Vec::new());
    let set = scripted_branch(|program: &ConeProgram, loose: bool| {
        let cost = float(program.objective[0]);
        asked.borrow_mut().push((cost, loose));
        let status =
            if loose { ProgramStatus::Solved } else { ProgramStatus::InsufficientProgress };
        Ok(ProgramAnswer { status, found: reals(&[-0.5 * cost]) })
    });
    assert_eq!(set, Ok(Some(HonestIdentifiedSet { lb: real_of(3.0), ub: real_of(7.0) })));
    assert_eq!(*asked.borrow(), vec![(-2.0, false), (-2.0, true), (2.0, true)]);
}

#[test]
fn a_branch_without_an_optimum_has_no_set() {
    let none = scripted_branch(|program: &ConeProgram, _: bool| {
        let status = if float(program.objective[0]) < 0.0 {
            ProgramStatus::Solved
        } else {
            ProgramStatus::DualInfeasible
        };
        Ok(ProgramAnswer { status, found: reals(&[1.0]) })
    });
    assert_eq!(none, Ok(None));
    let failed = scripted_branch(|_: &ConeProgram, _: bool| {
        Ok(ProgramAnswer { status: ProgramStatus::MaxTime, found: reals(&[1.0]) })
    });
    assert_eq!(refused(failed), "Clarabel failed to solve relative-magnitude LP: MaxTime");
    let unset = scripted_branch(|_: &ConeProgram, _: bool| Err("no settings".to_string()));
    assert_eq!(refused(unset), "no settings");
}

#[test]
fn a_projection_must_be_finite() {
    let rows = vec![reals(&[1.0, 0.0]), reals(&[1.0, 1.0])];
    let handed = RefCell::new((Vec::new(), Vec::new()));
    let solve = |normal: &Vec<Vec<Real>>, rhs: &Vec<Real>| -> Result<Vec<Real>, HonestError> {
        *handed.borrow_mut() = (normal.clone(), rhs.clone());
        Ok(reals(&[0.5, 0.25]))
    };
    let vector = reals(&[2.0, 3.0]);
    let numbers = study_by(solve_program, intervals_by(solve));
    let found = solve_vbar_projection(&rows, &vector, &numbers).expect("projection");
    assert_eq!(floats(&found), vec![0.5, 0.25]);
    assert_eq!(floats(&handed.borrow().0[0]), vec![1.0 + 1e-8, 1.0]);
    assert_eq!(floats(&handed.borrow().0[1]), vec![1.0, 2.0 + 1e-8]);
    assert_eq!(floats(&handed.borrow().1), vec![2.0, 5.0]);
    let infinite = |_: &Vec<Vec<Real>>, _: &Vec<Real>| -> Result<Vec<Real>, HonestError> {
        Ok(reals(&[0.5, f64::NAN]))
    };
    let numbers = study_by(solve_program, intervals_by(infinite));
    assert_eq!(
        refused(solve_vbar_projection(&rows, &vector, &numbers)),
        "failed to solve smoothness fixed-length interval projection for vbar"
    );
}

#[test]
fn a_variance_has_a_movable_and_a_fixed_part() {
    let lower = vec![reals(&[1.0, 0.0, 0.0]), reals(&[2.0, 3.0, 0.0]), reals(&[4.0, 5.0, 6.0])];
    let (rows, sides) =
        build_variance_soc_terms(&lower, 2, &reals(&[10.0]), &interval_numbers());
    assert_eq!(floats(&sides), vec![40.0, 50.0, 60.0]);
    assert_eq!(floats(&rows[0]), vec![-1.0, 2.0]);
    assert_eq!(floats(&rows[1]), vec![-3.0, 3.0]);
    assert_eq!(floats(&rows[2]), vec![0.0, 0.0]);
}

#[test]
fn a_grid_runs_from_bound_to_bound() {
    let points = |count: usize| {
        floats(&linear_grid(real_of(1.0), real_of(3.0), count, &study_numbers()))
    };
    assert_eq!(points(5), vec![1.0, 1.5, 2.0, 2.5, 3.0]);
    assert_eq!(points(1), vec![1.0]);
    assert_eq!(points(0), vec![1.0]);
}

#[test]
fn a_grid_reaches_around_set_and_estimate() {
    let numbers = study_numbers();
    let original = |se: f64| HonestOriginalConfidenceSet {
        estimate: real_of(2.0),
        se: real_of(se),
        ci: (real_of(0.0), real_of(4.0)),
    };
    let set = HonestIdentifiedSet { lb: real_of(3.0), ub: real_of(5.0) };
    let (lower, upper) = grid_bounds_around_identified_set(original(0.5), set, &numbers);
    assert_eq!((float(lower), float(upper)), (-8.0, 15.0));
    let (lower, upper) = grid_bounds_around_identified_set(original(0.0), set, &numbers);
    assert_eq!((float(lower), float(upper)), (2.0 - 1e-8, 5.0 + 1e-8));
    let turned = HonestIdentifiedSet { lb: real_of(f64::INFINITY), ub: real_of(f64::NEG_INFINITY) };
    let lost = HonestOriginalConfidenceSet {
        estimate: real_of(f64::NAN),
        se: real_of(0.0),
        ci: (real_of(0.0), real_of(0.0)),
    };
    let (lower, upper) = grid_bounds_around_identified_set(lost, turned, &numbers);
    assert_eq!((float(lower), float(upper)), (f64::INFINITY, f64::NEG_INFINITY));
}

#[test]
fn the_shortest_interval_of_the_grid_is_chosen() {
    let input = two_post_input();
    let inference = inference_at(0.9);
    let weights = reals(&[1.0, 0.0]);
    let numbers = study_numbers();
    let problem = build_smoothness_flci_problem(
        &input,
        &weights,
        real_of(1.0),
        inference,
        &study_sets(),
    )
    .expect("problem");
    let config = SmoothnessFlciConfig { num_grid_points: 10 };
    let (estimator, half) = find_optimal_flci(&problem, config, &numbers)
        .expect("programs are solved")
        .expect("an interval");
    assert_eq!(estimator.len(), input.betahat.len());
    let (lowest, _) =
        find_lowest_h(&input, &weights, &numbers).expect("solved").expect("feasible");
    let (highest, _) = find_h_for_minimum_bias(&input, &weights, &numbers);
    let mut tried = 0;
    for idx in 0..10 {
        let share = idx as f64 / 9.0;
        let h = real_of(float(lowest) + (float(highest) - float(lowest)) * share);
        let bias =
            find_worst_case_bias_given_h(&input, &weights, h, &numbers).expect("solved");
        if let Some(found) = bias {
            let other = half_length_for_bias(
                real_of(0.1),
                found.value_at_m_one,
                h,
                &interval_numbers(),
            )
            .expect("quantile");
            assert!(float(half) <= float(other) + 1e-6);
            tried += 1;
        }
    }
    assert!(tried > 0);
}

#[test]
fn a_hybrid_projects_its_interval_on_the_constraints() {
    let input = study_input(
        &[0.1, 0.05, 0.4],
        &diagonal(&[0.25, 0.25, 0.5]),
        &[-2, -1],
        &[0],
    );
    let weights = reals(&[1.0]);
    let (m, kappa) = (real_of(0.5), real_of(0.01));
    let numbers = study_numbers();
    let system = build_smoothness_moment_system(2, 1, m, false);
    let a_target: Vec<Real> = system
        .constraint_matrix
        .iter()
        .map(|row| real_of(coefficient_at(row[2], 0.0)))
        .collect();
    let (kept, ends) = build_smoothness_flci_hybrid_data(
        &input, &weights, m, kappa, &system, &a_target, &numbers,
    )
    .expect("hybrid");
    let problem =
        build_smoothness_flci_problem(&input, &weights, m, inference_at(0.99), &study_sets())
            .expect("problem");
    let interval = compute_smoothness_flci(&problem, &numbers).expect("interval");
    assert_eq!(ends, interval.flci);
    assert_eq!(kept.optimal_half_length, interval.optimal_half_length);
    let vbar = floats(&kept.vbar);
    assert_eq!(vbar.len(), system.constraint_matrix.len());
    assert_eq!(float(kept.vbar_dot_d), dot(&vbar, &floats(&system.constraint_bounds)));
    assert_eq!(float(kept.vbar_dot_a_target), dot(&vbar, &floats(&a_target)));
    for (period, weight) in floats(&interval.optimal_vec).iter().enumerate() {
        let column: Vec<f64> = system
            .constraint_matrix
            .iter()
            .map(|row| coefficient_at(row[period], 0.0))
            .collect();
        assert!((dot(&vbar, &column) - weight).abs() < 1e-5);
    }
    let wrong = build_smoothness_flci_hybrid_data(
        &input,
        &reals(&[f64::NAN]),
        m,
        kappa,
        &system,
        &a_target,
        &numbers,
    );
    assert_eq!(refused(wrong), "post_weights weights must be finite");
}

#[test]
fn a_single_post_period_is_bounded_on_both_sides() {
    let input = study_input(&[2.0, 10.0], &diagonal(&[0.25, 1.0]), &[-1], &[0]);
    let set = compute_relative_magnitude_identified_set(
        &input,
        &reals(&[1.0]),
        real_of(1.0),
        &study_numbers(),
    )
    .expect("identified set");
    assert!((float(set.lb) - 8.0).abs() < 1e-6);
    assert!((float(set.ub) - 12.0).abs() < 1e-6);
}
