//! Properties of the building blocks on concrete values.

use honest_did::adaptive_grid::AcceptedGridRange;
use honest_did::basis_memory::{BasisMemory, RememberedBasis};
use honest_did::branch_search::merge_accepted_range;
use honest_did::branches::{
    RelativeMagnitudeFamily, build_linear_trend_relative_magnitude_constraint_matrix,
    build_relative_magnitude_constraint_matrix,
};
use honest_did::cholesky::{FactorNumbers, cholesky_lower};
use honest_did::cone::split_constant_variance;
use honest_did::conic::{
    branch_program, dual_max_program,
};
use honest_did::constraints::{
    Coefficient, build_smoothness_constraint_matrix, find_post_period_constraint_rows,
};
use honest_did::cv_cache::CriticalValueCache;
use honest_did::dense_simplex::factor_pivot_row;
use honest_did::dual::{
    DualArithmetic, DualFunctions, bisect_dual_boundary, dual_conditional_test, dual_search_bounds,
};
use honest_did::elimination::rref_pivot_columns;
use honest_did::errors::HonestError;
use honest_did::factorization::{invert_by_elimination, pivot_numbers};
use honest_did::lp_arithmetic::{LpArithmetic, LpFunctions};
use honest_did::input::{basis_post_weights, basis_vector_index, position_of};
use honest_did::matrix::{flatten_row_major, max_abs, scatter};
use honest_did::moment_workspace::{CodedMomentWorkspace, CodedNumbers, ModelStatus, first_code_fault};
use honest_did::normal::{
    draw_standard_normal_vec, pointwise_confidence_level_from_critical,
    simulated_lower_cholesky_maxima, simulation_draws, truncated_normal_quantile,
};
use honest_did::number::Real;
use honest_did::pricing::{
    artificial_inverse, basis_objective, collect_artificial, compute_duals, cost_of, dual_0,
    reduced_costs,
};
use honest_did::programs::{ProgramAnswer, ProgramStatus, read_dual_max, try_highs_status};
use honest_did::projection::{
    multiply_rows_by_square_matrix,
};
use honest_did::relative_magnitude::global_identified_set_from_branch_identified_sets;
use honest_did::simplex::{LpError, Phase, choose_entering, choose_leaving};
use honest_did::simulation::{
    compute_least_favorable_cv_from_draws, nth_smallest, simulation_draw_seed, sort_by_rank,
};
use honest_did::smoothness_test::{HybridSlope, flci_vlo_vup};
use honest_did::summary::{SensitivitySummaryMethod, smoothness_variant_label};
use honest_did::systems::{
    SystemNumbers, invert_square_matrix, solve_square_linear_system,
    solve_square_linear_system_transposed, try_invert_square_matrix_row_major,
};
use honest_did::theta_test::{Standardized, decide_conditionally, find_binding_rows};
use honest_did::types::{
    HonestAssessment, HonestBiasDirection, HonestIdentifiedSet, HonestMonotonicityDirection,
    HonestOriginalConfidenceSet, interval_excludes,
};
use honest_did::vertices::{VertexFit, VertexFunctions, recover_dual_vertex_from_binding};
use std::cell::RefCell;
use std::rc::Rc;

fn r(x: f64) -> Real {
    Real::from_bits(x.to_bits())
}

fn f(x: Real) -> f64 {
    f64::from_bits(x.bits)
}

fn rs(values: &[f64]) -> Vec<Real> {
    values.iter().map(|value| r(*value)).collect()
}

fn fs(values: &[Real]) -> Vec<f64> {
    values.iter().map(|value| f(*value)).collect()
}

// ---------------------------------------------------------------------------
// Numbers
// ---------------------------------------------------------------------------

#[test]
fn comparisons_are_those_of_floating_point_numbers() {
    let values = [
        0.0,
        -0.0,
        1.0,
        -1.0,
        1e-310,
        -1e-310,
        f64::MAX,
        f64::MIN,
        f64::INFINITY,
        f64::NEG_INFINITY,
        f64::NAN,
    ];
    for a in values {
        assert_eq!(r(a).is_nan(), a.is_nan());
        assert_eq!(r(a).is_finite(), a.is_finite());
        assert_eq!(f(r(a).abs()).to_bits(), a.abs().to_bits());
        assert_eq!(f(r(a).negated()).to_bits(), (-a).to_bits());
        for b in values {
            assert_eq!(r(a).less(r(b)), a < b, "{a} < {b}");
            assert_eq!(r(a).at_most(r(b)), a <= b, "{a} <= {b}");
            assert_eq!(r(a).equals(r(b)), a == b, "{a} == {b}");
            assert_eq!(r(a).ranks_below(r(b)), a.total_cmp(&b).is_lt(), "{a} before {b}");
            let (max, min) = (f(r(a).max(r(b))), f(r(a).min(r(b))));
            assert!(max == a.max(b) || (max.is_nan() && a.max(b).is_nan()));
            assert!(min == a.min(b) || (min.is_nan() && a.min(b).is_nan()));
        }
    }
}

#[test]
fn both_zeros_share_a_cache_key() {
    assert_eq!(r(0.0).cache_key(), r(-0.0).cache_key());
    assert_ne!(r(0.0).cache_key(), r(1.0).cache_key());
    assert_eq!(r(0.25).cache_key(), 0.25_f64.to_bits());
}

// ---------------------------------------------------------------------------
// Matrices
// ---------------------------------------------------------------------------

#[test]
fn entries_stand_in_row_major_order() {
    let flat = flatten_row_major(&[vec![1, 2, 3], vec![4, 5, 6]]);
    assert_eq!(flat, vec![1, 2, 3, 4, 5, 6]);
    assert_eq!(flat[3 + 2], 6);
}

#[test]
fn the_largest_magnitude_ignores_signs_and_nan() {
    assert_eq!(f(max_abs(&rs(&[1.0, -7.0, f64::NAN, 3.0]))), 7.0);
    assert_eq!(f(max_abs(&[])), 0.0);
}

#[test]
fn scattered_values_stand_where_they_were_put() {
    assert_eq!(fs(&scatter(&[3, 1], &rs(&[5.0, 6.0]), 5)), vec![0.0, 6.0, 0.0, 5.0, 0.0]);
}

#[test]
fn pivot_columns_ascend() {
    let rows = vec![rs(&[0.0, 2.0, 1.0]), rs(&[0.0, 4.0, 5.0])];
    let divide = |value: Real, pivot: Real| r(f(value) / f(pivot));
    let eliminate =
        |factor: Real, pivot: Real, value: Real| r(f(value) - f(factor) * f(pivot));
    let pivots = rref_pivot_columns(&rows, r(1e-10), &divide, &eliminate).expect("full rank");
    assert_eq!(pivots, vec![1, 2]);
}

#[test]
fn the_largest_entry_is_pivoted_on() {
    assert_eq!(factor_pivot_row(&rs(&[9.0, -2.0, 3.0, -3.0]), 1), Some(2));
    assert_eq!(factor_pivot_row(&rs(&[9.0, 0.0]), 1), None);
}

fn lp() -> impl LpArithmetic {
    LpFunctions {
        divide: |a: Real, b: Real| r(f(a) / f(b)),
        lower: |a: Real| r(f(a) - 1e-12),
        subtract: |a: Real, b: Real| r(f(a) - f(b)),
        accumulate: |sum: Real, a: Real, b: Real| r(f(sum) + f(a) * f(b)),
        reduce: |price: Real, column: &Vec<Real>, duals: &Vec<Real>| {
            r(f(price) - column.iter().zip(duals).map(|(a, b)| f(*a) * f(*b)).sum::<f64>())
        },
        product: |left: &Vec<Real>, right: &Vec<Real>| {
            r(left.iter().zip(right).map(|(a, b)| f(*a) * f(*b)).sum())
        },
        reciprocal: |x: Real| r(1.0 / f(x)),
        multiply: |a: Real, b: Real| r(f(a) * f(b)),
        eliminate: |value: Real, factor: Real, pivot: Real| r(f(value) - f(factor) * f(pivot)),
        total: |values: &Vec<Real>| r(values.iter().map(|value| f(*value)).sum()),
        cost: |start: Real, slope: Real, at: Real| r(f(at).mul_add(f(slope), f(start))),
        bound: |start: Real, slope: Real| r((1e-9 - f(start)) / f(slope)),
    }
}

#[test]
fn elimination_inverts_a_matrix() {
    let inverse = invert_by_elimination(
        &vec![rs(&[0.0, 2.0]), rs(&[4.0, 0.0])],
        &lp(),
    )
    .expect("regular matrix");
    assert_eq!(fs(&inverse[0]), vec![0.0, 0.25]);
    assert_eq!(fs(&inverse[1]), vec![0.5, 0.0]);
    let singular = vec![rs(&[1.0, 2.0]), rs(&[2.0, 4.0])];
    assert!(invert_by_elimination(&singular, &lp()).is_none());
}

#[test]
fn values_stay_feasible_along_a_pivot() {
    let identity = vec![rs(&[1.0, 0.0]), rs(&[0.0, 1.0])];
    let (inverse, values) = pivot_numbers(
        &identity,
        &rs(&[1.0, 4.0]),
        &rs(&[3.0, 2.0]),
        1,
        r(2.0),
        &lp(),
    );
    assert_eq!(fs(&values), vec![0.0, 2.0]);
    assert_eq!(fs(&inverse[1]), vec![0.0, 0.5]);
    assert_eq!(fs(&inverse[0]), vec![1.0, -1.5]);
}

// ---------------------------------------------------------------------------
// Constraints and branches
// ---------------------------------------------------------------------------

#[test]
fn second_differences_skip_the_reference_period() {
    let rows = build_smoothness_constraint_matrix(2, 1, false);
    let entries: Vec<Vec<i64>> =
        rows.iter().map(|row| row.iter().map(|c| c.constant).collect()).collect();
    assert_eq!(entries[0], vec![1, -2, 0]);
    assert_eq!(entries[1], vec![0, 1, 1]);
    assert_eq!(entries[2], vec![-1, 2, 0]);
    assert_eq!(entries[3], vec![0, -1, -1]);
}

#[test]
fn a_straight_line_meets_every_smoothness_row_with_equality() {
    let (num_pre, num_post) = (3usize, 2usize);
    let rows = build_smoothness_constraint_matrix(num_pre, num_post, false);
    let line = [-3, -2, -1, 1, 2];
    let bent = [-3, -2, -1, 1, 3];
    let along = |path: &[i64; 5], row: &[Coefficient]| -> i64 {
        row.iter().zip(path).map(|(c, value)| c.constant * value).sum()
    };
    assert!(rows.iter().all(|row| along(&line, row) == 0));
    assert_eq!(rows.iter().map(|row| along(&bent, row)).max(), Some(1));
    assert_eq!(rows.iter().map(|row| along(&bent, row)).min(), Some(-1));
}

#[test]
fn each_smoothness_row_has_a_row_of_opposite_signs() {
    let rows = build_smoothness_constraint_matrix(3, 2, false);
    let half = rows.len() / 2;
    for i in 0..half {
        for (one, other) in rows[i].iter().zip(&rows[i + half]) {
            assert_eq!(one.constant, -other.constant);
            assert_eq!(one.multiple, -other.multiple);
        }
    }
}

#[test]
fn a_union_holds_the_set_of_every_branch() {
    let sets = [
        Some(HonestIdentifiedSet { lb: r(-1.0), ub: r(0.5) }),
        None,
        Some(HonestIdentifiedSet { lb: r(-0.25), ub: r(2.0) }),
    ];
    let union = global_identified_set_from_branch_identified_sets(&sets, r(9.0));
    assert_eq!((f(union.lb), f(union.ub)), (-1.0, 2.0));
    let alone = global_identified_set_from_branch_identified_sets(&[None, None], r(9.0));
    assert_eq!((f(alone.lb), f(alone.ub)), (9.0, 9.0));
}

#[test]
fn a_merged_range_covers_every_branch() {
    let mut merged = None;
    for (lower_idx, upper_idx) in [(4, 6), (9, 11), (2, 3)] {
        merge_accepted_range(&mut merged, AcceptedGridRange { lower_idx, upper_idx });
    }
    assert_eq!(merged, Some(AcceptedGridRange { lower_idx: 2, upper_idx: 11 }));
}

#[test]
fn exactly_the_rows_of_post_periods_are_chosen() {
    let rows = build_smoothness_constraint_matrix(3, 1, false);
    let chosen = find_post_period_constraint_rows(&rows, 3);
    assert_eq!(chosen, vec![2, 5]);
    for (i, row) in rows.iter().enumerate() {
        assert_eq!(chosen.contains(&i), row[3..].iter().any(|c| !c.is_zero()));
    }
}

#[test]
fn branches_cover_each_change_with_each_sign() {
    let branches = RelativeMagnitudeFamily::Base.branches(3);
    let listed: Vec<(i64, bool)> =
        branches.iter().map(|branch| (branch.s, branch.max_positive)).collect();
    assert_eq!(
        listed,
        vec![(-2, true), (-2, false), (-1, true), (-1, false), (0, true), (0, false)]
    );
    for branch in branches {
        assert!(RelativeMagnitudeFamily::Base.build_constraint_matrix(3, 2, branch).is_ok());
    }
}

#[test]
fn the_bound_multiplies_pre_periods_alone() {
    let family = RelativeMagnitudeFamily::Base;
    for branch in family.branches(2) {
        let rows = family.build_constraint_matrix(2, 2, branch).expect("valid branch");
        for row in rows {
            assert!(row[2..].iter().all(|entry| entry.multiple == 0));
            assert!(row.iter().any(|entry| !entry.is_zero()));
        }
    }
}

#[test]
fn a_branch_of_the_post_periods_keeps_every_row() {
    let first = build_relative_magnitude_constraint_matrix(2, 3, 0, true).expect("branch");
    assert_eq!(first.len(), 9);
    let later = build_relative_magnitude_constraint_matrix(2, 3, 3, true).expect("branch");
    assert_eq!(later.len(), 10);
    assert!(build_relative_magnitude_constraint_matrix(2, 3, 4, true).is_err());
    assert!(build_relative_magnitude_constraint_matrix(2, 3, -2, true).is_err());
    let bent = build_linear_trend_relative_magnitude_constraint_matrix(2, 3, 1, false);
    assert_eq!(bent.expect("branch").len(), 8);
    assert!(build_linear_trend_relative_magnitude_constraint_matrix(2, 3, 4, false).is_err());
}

#[test]
fn the_first_code_that_fails_decides() {
    let optimal = || Ok(ModelStatus::Optimal);
    let told = |codes: (i32, i32, i32, i32, i32), has_basis: bool| {
        first_code_fault(codes, has_basis, optimal()).is_some()
    };
    assert!(!told((0, 0, 0, 0, 0), true));
    assert!(told((-1, 0, 0, 0, 0), true));
    assert!(told((0, -1, 0, 0, 0), true));
    assert!(!told((0, -1, 0, 0, 0), false));
    assert!(told((0, 0, -1, 0, 0), false));
    let failed = first_code_fault((0, 0, 0, 0, 0), true, Err("stopped".to_string()));
    assert_eq!(failed, Some(HonestError::Numerical { message: "stopped".to_string() }));
}

// ---------------------------------------------------------------------------
// Inputs
// ---------------------------------------------------------------------------

#[test]
fn the_weights_of_a_period_select_it() {
    let weights = basis_post_weights(3, 1);
    assert_eq!(fs(&weights), vec![0.0, 1.0, 0.0]);
    assert_eq!(basis_vector_index(&weights), Some(1));
    assert_eq!(basis_vector_index(&rs(&[0.5, 0.5])), None);
}

#[test]
fn the_first_of_equal_labels_is_found() {
    assert_eq!(position_of(&[4, 7, 7], 7), Some(1));
    assert_eq!(position_of(&[4, 7, 7], 5), None);
}

// ---------------------------------------------------------------------------
// Tests of values of the target
// ---------------------------------------------------------------------------

#[test]
fn exactly_the_tight_rows_bind() {
    assert_eq!(find_binding_rows(&rs(&[1e-5, 1e-3, -1e-4, 2.0])), vec![0, 2]);
}

fn verdict(zlo: f64, maxstat: f64, zup: f64, quantile: f64) -> bool {
    let statistic = Standardized { zlo: r(zlo), zup: r(zup), maxstat: r(maxstat) };
    decide_conditionally(statistic, Ok(r(quantile))).expect("quantile")
}

#[test]
fn only_a_positive_statistic_inside_its_bounds_rejects() {
    assert!(verdict(-1.0, 2.0, 3.0, 1.6));
    assert!(!verdict(-1.0, 1.5, 3.0, 1.6));
    assert!(!verdict(-1.0, -0.5, 3.0, -2.0));
    assert!(!verdict(-1.0, 4.0, 3.0, 1.6));
    assert!(!verdict(2.5, 2.0, 3.0, 1.6));
}

fn dual_arithmetic(
    miss: impl Fn(Real) -> Result<Real, HonestError>,
) -> impl DualArithmetic {
    DualFunctions {
        miss,
        width: |high: Real, low: Real| r(f(high) - f(low)),
        midpoint: |high: Real, low: Real| r((f(high) + f(low)) / 2.0),
        root: |x: Real| r(f(x).sqrt()),
        below: |eta: Real, sd: Real| r(f(eta) - 20.0 * f(sd)),
        above: |eta: Real, sd: Real| r(f(eta) + 20.0 * f(sd)),
        standardize: |zlo: Real, zup: Real| Standardized { zlo, zup, maxstat: r(2.0) },
        quantile: |_: Real, zup: Real| Ok(r(f(zup) - 2.0)),
    }
}

#[test]
fn a_bisection_closes_in_on_the_boundary_of_attained_values() {
    let asked = Rc::new(RefCell::new(Vec::new()));
    let log = Rc::clone(&asked);
    let numbers = dual_arithmetic(move |c: Real| {
        log.borrow_mut().push(f(c));
        Ok(r(if f(c) <= 3.0 { 0.0 } else { 1.0 }))
    });
    let boundary = bisect_dual_boundary(r(8.0), r(0.0), true, &numbers);
    assert!((f(boundary.unwrap()) - 3.0).abs() < 1e-4);
    assert_eq!(asked.borrow()[..3], [4.0, 2.0, 3.0]);
}

#[test]
fn a_critical_value_caps_the_upper_truncation_point() {
    let numbers = dual_arithmetic(|_: Real| Ok(r(0.0)));
    let region = || Ok(Some((r(-1.0), r(9.0))));
    let rejects = |lf_cv: f64| {
        dual_conditional_test(region(), r(2.0), r(lf_cv), &numbers).expect("verdict")
    };
    assert!(!rejects(9.0));
    assert!(rejects(3.5));
    assert!(!rejects(1.5));
}

#[test]
fn a_hybrid_slope_cuts_off_both_sides() {
    let points = flci_vlo_vup(HybridSlope { slope: r(2.0), at_upper: r(5.0), at_lower: r(-3.0) });
    assert_eq!((f(points.0), f(points.1)), (-3.0, 5.0));
    let flat = flci_vlo_vup(HybridSlope { slope: r(0.0), at_upper: r(5.0), at_lower: r(-3.0) });
    assert_eq!((f(flat.0), f(flat.1)), (f64::NEG_INFINITY, f64::INFINITY));
}

#[test]
fn every_choice_of_rows_is_tried_in_order() {
    let tried = RefCell::new(Vec::new());
    let numbers = VertexFunctions {
        solve: |rows: &Vec<usize>| {
            tried.borrow_mut().push(rows.clone());
            None::<Vec<Real>>
        },
        fit: |_: &Vec<Real>| VertexFit { residuals: Vec::new(), gap: r(0.0) },
    };
    let found = recover_dual_vertex_from_binding(&[0, 2, 3], 4, 2, &numbers);
    assert!(found.is_err());
    assert_eq!(*tried.borrow(), vec![vec![0, 2], vec![0, 3], vec![2, 3]]);
}

#[test]
fn a_vertex_is_the_first_choice_that_fits() {
    let numbers = VertexFunctions {
        solve: |rows: &Vec<usize>| {
            if rows[0] == 2 { Some(rs(&[0.25, 0.75])) } else { Some(rs(&[-1.0, 2.0])) }
        },
        fit: |_: &Vec<Real>| VertexFit { residuals: rs(&[0.0]), gap: r(0.0) },
    };
    let gamma = recover_dual_vertex_from_binding(&[0, 2, 3], 4, 2, &numbers)
        .expect("a feasible vertex");
    assert_eq!(fs(&gamma), vec![0.0, 0.0, 0.25, 0.75]);
}

// ---------------------------------------------------------------------------
// Critical values
// ---------------------------------------------------------------------------

#[test]
fn sizes_of_one_value_share_a_critical_value() {
    let mut cache = CriticalValueCache::new();
    let first = cache.least_favorable_cv(r(0.0), || Ok(r(1.25))).expect("computed");
    assert_eq!(f(first), 1.25);
    let again = cache.least_favorable_cv(r(-0.0), || Ok(r(9.0))).expect("remembered");
    assert_eq!(f(again), 1.25);
    let other = cache.least_favorable_cv(r(0.005), || Ok(r(2.5))).expect("computed");
    assert_eq!(f(other), 2.5);
    let failed = cache.least_favorable_cv(r(0.1), || Err("no draws".to_string()));
    assert_eq!(failed.unwrap_err(), "no draws");
    let kept = cache.least_favorable_cv(r(0.1), || Ok(r(1.0)));
    assert_eq!(kept.unwrap_err(), "no draws");
}

#[test]
fn order_statistics_do_not_depend_on_the_order_of_values() {
    let values = rs(&[3.0, -1.0, 2.0, 0.5]);
    let shuffled = rs(&[0.5, 2.0, 3.0, -1.0]);
    assert_eq!(fs(&sort_by_rank(&values)), vec![-1.0, 0.5, 2.0, 3.0]);
    for idx in 0..4 {
        assert_eq!(nth_smallest(&values, idx), nth_smallest(&shuffled, idx));
    }
}

#[test]
fn draw_seeds_are_spread() {
    assert_eq!(simulation_draw_seed(0, 0), 0xe220_a839_7b1d_cdaf);
    assert_eq!(simulation_draw_seed(0, 1), 0x6e78_9e6a_a1b9_65f4);
    assert_ne!(simulation_draw_seed(1, 0), simulation_draw_seed(0, 1));
}

#[test]
fn a_critical_value_is_a_quantile_of_the_draws() {
    let values = [4.0, 1.0, 3.0, 2.0, 5.0];
    let solve = |idx: usize| -> Result<Option<Real>, String> { Ok(Some(r(values[idx]))) };
    let reached = |last: usize, place: usize| place as f64 >= (last as f64 * 0.75).round();
    let cv = compute_least_favorable_cv_from_draws(10, 2, &solve, &reached).expect("quantile");
    assert_eq!(f(cv), 4.0);
}

// ---------------------------------------------------------------------------
// Programs
// ---------------------------------------------------------------------------

#[test]
fn programs_are_written_row_by_row() {
    let rows = vec![rs(&[1.0, -2.0, 0.5])];
    let program = branch_program(&rows, 2, 1, &rs(&[0.3, 0.4]), &rs(&[0.0, 0.0, 1.0]));
    assert_eq!(fs(&program.rhs), vec![0.0, 0.3, 0.4]);
    assert_eq!(fs(&program.equalities[0]), vec![1.0, 0.0, 0.0]);
    assert_eq!(fs(&program.equalities[1]), vec![0.0, 1.0, 0.0]);
    assert_eq!(program.inequalities, rows);
    assert!(program.soc_rows.is_empty());

    let w_t = vec![rs(&[1.0, 2.0]), rs(&[3.0, 4.0]), rs(&[5.0, 6.0])];
    let dual = dual_max_program(&w_t, &rs(&[7.0, -8.0, 9.0]), 2);
    assert_eq!(fs(&dual.objective), vec![-7.0, 8.0, -9.0]);
    assert_eq!(fs(&dual.inequalities[1]), vec![0.0, -1.0, 0.0]);
    assert_eq!(fs(&dual.equalities[0]), vec![1.0, 3.0, 5.0]);
    assert_eq!(fs(&dual.equalities[1]), vec![2.0, 4.0, 6.0]);
    assert_eq!(fs(&dual.rhs), vec![0.0, 0.0, 0.0, 1.0, 0.0]);
}

// ---------------------------------------------------------------------------
// Systems and factors
// ---------------------------------------------------------------------------

fn system_numbers(
    found: Vec<f64>,
) -> SystemNumbers<
    impl Fn(&Vec<Vec<Real>>, &Vec<Real>) -> Vec<Real>,
    impl Fn(&Vec<Vec<Real>>, &Vec<Real>, &Vec<Real>) -> Vec<Real>,
    impl Fn(Real) -> Real,
> {
    SystemNumbers {
        solve: move |_: &Vec<Vec<Real>>, _: &Vec<Real>| rs(&found),
        misses: |matrix: &Vec<Vec<Real>>, rhs: &Vec<Real>, x: &Vec<Real>| {
            matrix
                .iter()
                .zip(rhs)
                .map(|(row, b)| r(row.iter().zip(x).map(|(a, v)| f(*a) * f(*v)).sum::<f64>() - f(*b)))
                .collect()
        },
        tolerate: |scale: Real| r(1e-7 * f(scale)),
    }
}

fn told(error: HonestError) -> String {
    let shown: Vec<String> = error.shown_numbers().iter().map(|x| f(*x).to_string()).collect();
    error.message(&shown)
}

#[test]
fn a_solution_is_accepted_only_where_it_solves() {
    let matrix = vec![rs(&[2.0, 0.0]), rs(&[0.0, 4.0])];
    let rhs = rs(&[2.0, 8.0]);
    let good = solve_square_linear_system(&matrix, &rhs, &system_numbers(vec![1.0, 2.0]));
    assert_eq!(fs(&good.unwrap()), vec![1.0, 2.0]);
    let bad = solve_square_linear_system(&matrix, &rhs, &system_numbers(vec![1.0, 2.5]));
    assert_eq!(
        told(bad.unwrap_err()),
        format!("square linear solve residual 2 exceeds tolerance {}", 1e-7 * 8.0)
    );
    let wide = vec![rs(&[2.0, 0.0])];
    let refused = solve_square_linear_system_transposed(&wide, &rhs, &system_numbers(vec![]));
    assert_eq!(
        told(refused.unwrap_err()),
        "transposed square linear solve requires a square coefficient matrix; got 1x2"
    );
    let short = solve_square_linear_system(&matrix, &rs(&[1.0]), &system_numbers(vec![]));
    assert_eq!(
        told(short.unwrap_err()),
        "square linear solve rhs length 1 does not match matrix size 2"
    );
}

#[test]
fn an_inverse_is_accepted_only_where_it_inverts() {
    let matrix = vec![rs(&[2.0])];
    let misses = |m: &Vec<Vec<Real>>, inverse: &Vec<Vec<Real>>| {
        rs(&[f(m[0][0]) * f(inverse[0][0]) - 1.0])
    };
    let half = |_: &Vec<Vec<Real>>| vec![rs(&[0.5])];
    assert_eq!(invert_square_matrix(&matrix, &half, &misses), Ok(vec![rs(&[0.5])]));
    let whole = |_: &Vec<Vec<Real>>| vec![rs(&[1.0])];
    let error = invert_square_matrix(&matrix, &whole, &misses).unwrap_err();
    assert_eq!(told(error), "matrix inverse residual 1 exceeds tolerance 1e-7");

    let flat_misses = |m: &Vec<Real>, inverse: &Vec<Real>| rs(&[f(m[0]) * f(inverse[0]) - 1.0]);
    let flat = rs(&[2.0]);
    let right = try_invert_square_matrix_row_major(&flat, &|_: &Vec<Real>| rs(&[0.5]), &flat_misses);
    assert_eq!(right, Some(rs(&[0.5])));
    let wrong = try_invert_square_matrix_row_major(&flat, &|_: &Vec<Real>| rs(&[0.4]), &flat_misses);
    assert_eq!(wrong, None);
}

fn factor_numbers(
    plain: bool,
    raised: bool,
) -> FactorNumbers<
    impl Fn(Real, Real) -> Real,
    impl Fn(&Vec<Vec<Real>>) -> Option<Vec<Vec<Real>>>,
    impl Fn(&Vec<Vec<Real>>, Real) -> Option<Vec<Vec<Real>>>,
    impl Fn(Real, Real, Real) -> Real,
    impl Fn(Real) -> Real,
    impl Fn(Real) -> Real,
    impl Fn(Real, Real) -> Real,
> {
    FactorNumbers {
        average: |a: Real, b: Real| r(0.5 * (f(a) + f(b))),
        factor: move |_: &Vec<Vec<Real>>| if plain { Some(vec![rs(&[1.5])]) } else { None },
        jitter: move |_: &Vec<Vec<Real>>, scale: Real| {
            if raised { Some(vec![vec![scale]]) } else { None }
        },
        eliminate: |value: Real, a: Real, b: Real| r(f(value) - f(a) * f(b)),
        tolerate: |scale: Real| r(-1e-10 * f(scale)),
        root: |value: Real| r(f(value).sqrt()),
        divide: |a: Real, b: Real| r(f(a) / f(b)),
    }
}

#[test]
fn the_first_factor_that_succeeds_is_taken() {
    let matrix = vec![rs(&[9.0])];
    assert_eq!(cholesky_lower(&matrix, &factor_numbers(true, true)), Ok(vec![rs(&[1.5])]));
    assert_eq!(cholesky_lower(&matrix, &factor_numbers(false, true)), Ok(vec![rs(&[9.0])]));
    assert_eq!(cholesky_lower(&matrix, &factor_numbers(false, false)), Ok(vec![rs(&[3.0])]));
    assert_eq!(cholesky_lower(&vec![], &factor_numbers(true, true)), Ok(vec![]));
    let ragged = vec![rs(&[1.0, 2.0])];
    let error = cholesky_lower(&ragged, &factor_numbers(true, true)).unwrap_err();
    assert_eq!(told(error), "covariance matrix must be square");
}

#[test]
fn a_direct_factor_is_lower_triangular() {
    let matrix = vec![rs(&[4.0, 2.0, 0.0]), rs(&[2.0, 1.0, 0.0]), rs(&[0.0, 0.0, 9.0])];
    let lower = cholesky_lower(&matrix, &factor_numbers(false, false)).unwrap();
    assert_eq!(fs(&lower[0]), vec![2.0, 0.0, 0.0]);
    assert_eq!(fs(&lower[1]), vec![1.0, 0.0, 0.0]);
    assert_eq!(fs(&lower[2]), vec![0.0, 0.0, 3.0]);
    let negative = vec![rs(&[1.0, 2.0]), rs(&[2.0, 1.0])];
    let error = cholesky_lower(&negative, &factor_numbers(false, false)).unwrap_err();
    assert_eq!(told(error), "covariance matrix is not positive semidefinite");
}

// ---------------------------------------------------------------------------
// Products and projections
// ---------------------------------------------------------------------------

#[test]
fn negligible_entries_leave_a_product() {
    let square = vec![rs(&[1.0, 2.0]), rs(&[f64::INFINITY, 4.0])];
    let rows = vec![rs(&[3.0, 1e-13]), rs(&[0.0, 2.0])];
    let add = |sum: Real, a: Real, b: Real| r(f(a).mul_add(f(b), f(sum)));
    let out = multiply_rows_by_square_matrix(&rows, &square, &add);
    assert_eq!(fs(&out[0]), vec![3.0, 6.0]);
    assert_eq!(fs(&out[1]), vec![f64::INFINITY, 8.0]);
}

// ---------------------------------------------------------------------------
// Grids, quantiles and draws
// ---------------------------------------------------------------------------

#[test]
fn a_truncated_quantile_lies_between_the_truncation_points() {
    // A distribution that is uniform between zero and one.
    let cdf = |x: Real| r(f(x).clamp(0.0, 1.0));
    let blend = |p: Real, below: Real, upto: Real| r(f(below) + f(p) * (f(upto) - f(below)));
    let quantile = |p: Real| p;
    let at = |p: f64, l: f64, u: f64| {
        f(truncated_normal_quantile(r(p), r(l), r(u), &cdf, &blend, &quantile))
    };
    assert_eq!(at(0.5, 0.25, 0.75), 0.5);
    assert_eq!(at(0.5, f64::NEG_INFINITY, 0.5), 0.25);
    assert_eq!(at(0.5, 0.5, f64::INFINITY), 0.75);
    assert_eq!(at(0.5, 0.75, 0.25), 0.0);
    assert_eq!(at(0.0, f64::NEG_INFINITY, f64::INFINITY), 1e-12);
    assert_eq!(at(1.0, f64::NEG_INFINITY, f64::INFINITY), 1.0 - 1e-12);
    assert_eq!(f(pointwise_confidence_level_from_critical(r(-3.0), &|x: Real| x)), 1e-12);
    assert_eq!(f(pointwise_confidence_level_from_critical(r(0.9), &|x: Real| x)), 0.9);
}

#[test]
fn draws_come_in_pairs_and_a_single_one() {
    let count = RefCell::new(0.0);
    let next = || {
        *count.borrow_mut() += 1.0;
        *count.borrow()
    };
    let mut pair = || {
        let base = next();
        (r(base), r(-base))
    };
    let mut single = || r(100.0 * next());
    assert_eq!(fs(&draw_standard_normal_vec(5, &mut pair, &mut single)), vec![
        1.0, -1.0, 2.0, -2.0, 300.0
    ]);
    assert_eq!(fs(&draw_standard_normal_vec(2, &mut pair, &mut single)), vec![4.0, -4.0]);
    assert!(draw_standard_normal_vec(0, &mut pair, &mut single).is_empty());
}

#[test]
fn maxima_are_largest_magnitudes_of_seeded_draws() {
    let draw = |seed: u64| rs(&[(seed % 7) as f64, -((seed % 11) as f64)]);
    let correlate = |z: &Vec<Real>| z.iter().map(|x| r(2.0 * f(*x))).collect::<Vec<Real>>();
    let maxima = simulated_lower_cholesky_maxima(2, 20, 42, &draw, &correlate);
    assert_eq!(maxima.len(), 20);
    for (i, maximum) in maxima.iter().enumerate() {
        let seed = simulation_draw_seed(42, i);
        assert_eq!(f(*maximum), 2.0 * ((seed % 7) as f64).max((seed % 11) as f64));
    }
}

#[test]
fn a_large_simulation_seeds_each_draw() {
    let draw = |seed: u64| vec![r((seed % 1000) as f64); 16];
    let correlate = |z: &Vec<Real>| vec![z[0]; z.len()];
    let calls = RefCell::new(0.0);
    let mut next = || {
        *calls.borrow_mut() += 1.0;
        vec![r(*calls.borrow()); 16]
    };
    let apart = simulation_draws(512, 16, 3, &draw, &mut next, &correlate);
    assert_eq!(f(apart[5][0]), -((simulation_draw_seed(3, 5) % 1000) as f64));
    let joint = simulation_draws(511, 16, 3, &draw, &mut next, &correlate);
    assert_eq!(f(joint[5][0]), -6.0);
    assert_eq!(joint.len(), 511);
}

#[test]
fn a_search_starts_at_least_a_hundred_away() {
    let bounds = |eta: f64, variance: f64| {
        let numbers = dual_arithmetic(|_: Real| Ok(r(0.0)));
        let (low, high) = dual_search_bounds(r(eta), r(variance), &numbers);
        (f(low), f(high))
    };
    assert_eq!(bounds(1.0, 4.0), (-100.0, 100.0));
    assert_eq!(bounds(1.0, 100.0), (-199.0, 201.0));
    assert_eq!(bounds(150.0, -1.0), (-100.0, 150.0));
}

#[test]
fn prices_follow_the_phase() {
    let cost = rs(&[5.0, 0.0]);
    assert_eq!(f(cost_of(0, Phase::One, &cost)), 0.0);
    assert_eq!(f(cost_of(2, Phase::One, &cost)), -1.0);
    assert_eq!(f(cost_of(0, Phase::Two, &cost)), 5.0);
    assert_eq!(f(cost_of(2, Phase::Two, &cost)), 0.0);
    let inverse = vec![rs(&[1.0, 2.0]), rs(&[f64::NAN, 4.0])];
    let duals = compute_duals(&[0, 1], &inverse, Phase::Two, &cost, &lp());
    assert_eq!(fs(&duals), vec![5.0, 10.0]);
    assert_eq!(f(dual_0(&[0, 1], &inverse, &cost, &lp())), f(duals[0]));
    let first = compute_duals(&[3, 0], &inverse, Phase::One, &cost, &lp());
    assert_eq!(fs(&first), vec![-1.0, -2.0]);
    let columns = vec![rs(&[1.0, 0.0]), rs(&[0.0, 1.0])];
    let reduced = reduced_costs(&columns, Phase::Two, &cost, &duals, &lp());
    assert_eq!(fs(&reduced), vec![0.0, -10.0]);
}

#[test]
fn artificial_columns_do_not_count_in_the_objective() {
    let cost = rs(&[5.0, 3.0]);
    let values = rs(&[2.0, -1.0, 4.0]);
    assert_eq!(f(basis_objective(&[0, 1, 4], &values, &cost, false, &lp())), 7.0);
    assert_eq!(f(basis_objective(&[0, 1, 4], &values, &cost, true, &lp())), 10.0);
    assert_eq!(fs(&collect_artificial(&[0, 1, 4], &values, 2)), vec![4.0]);
    let inverse = artificial_inverse(&rs(&[1.0, -1.0]));
    assert_eq!(fs(&inverse[0]), vec![1.0, 0.0]);
    assert_eq!(fs(&inverse[1]), vec![0.0, -1.0]);
}

#[test]
fn an_infeasible_dual_program_is_an_error() {
    let answer = ProgramAnswer { status: ProgramStatus::PrimalInfeasible, found: r(0.0) };
    let error = read_dual_max(answer).expect_err("infeasible");
    assert_eq!(error.message(&[]), "Clarabel dual max program is infeasible");
    let stalled = ProgramAnswer { status: ProgramStatus::MaxIterations, found: r(0.0) };
    let error = read_dual_max(stalled).expect_err("not solved");
    assert_eq!(
        error.message(&[]),
        "Clarabel failed to solve HonestDiD dual max LP: MaxIterations"
    );
}

#[test]
fn return_codes_are_told_apart() {
    assert!(try_highs_status(0, "pass model").is_ok());
    assert!(try_highs_status(1, "pass model").is_ok());
    assert!(try_highs_status(-1, "pass model").is_err());
    assert!(try_highs_status(9, "pass model").is_err());
}

#[test]
fn the_best_column_enters_and_the_tightest_row_leaves() {
    let reduced = rs(&[0.5, 2.0, 3.0]);
    assert_eq!(choose_entering(&[false, false, true, true], &reduced, false), Some(1));
    assert_eq!(choose_entering(&[false, false, true, true], &reduced, true), Some(0));
    let priced_out = rs(&[1e-9, -1.0, 3.0]);
    assert_eq!(choose_entering(&[false, false, true, true], &priced_out, false), None);
    let left = choose_leaving(
        Phase::One,
        &[3, 4],
        3,
        &rs(&[2.0, 1.0]),
        &rs(&[4.0, 1.0]),
        &lp(),
    );
    assert_eq!(left.map(|(row, theta)| (row, f(theta))), Some((1, 1.0)));
    assert_eq!(LpError::IterationLimit.label(), "IterationLimit");
}

#[test]
fn bases_with_the_same_columns_are_one() {
    let mut memory = BasisMemory::new(2);
    let entry = |basis: Vec<usize>| RememberedBasis {
        basis,
        binv: Vec::new(),
        xb: Vec::new(),
        pivots_since_refactor: 0,
    };
    memory.remember(entry(vec![4, 2]));
    assert!(memory.knows(&[2, 4]));
    assert!(memory.knows(&[4, 2]));
    assert!(!memory.knows(&[2, 3]));
    memory.remember(entry(vec![5, 6]));
    memory.remember(entry(vec![7, 8]));
    assert!(!memory.knows(&[4, 2]));
    assert!(memory.knows(&[5, 6]));
    assert!(memory.knows(&[8, 7]));
}

#[test]
fn a_coded_solver_reads_duals_of_moments() {
    let mut workspace = CodedMomentWorkspace {
        rows: 2,
        k: 1,
        scale: r(2.0),
        has_basis: false,
        has_solution: false,
    };
    let numbers = CodedNumbers {
        divide: |a: Real, b: Real| r(f(a) / f(b)),
        update: |_: &Vec<Real>| 0,
        set_basis: || 0,
        set_solution: || {},
        run: |right: &Vec<Real>| if fs(right) == [-0.5, -1.0] { 0 } else { -1 },
        status: |_: &Vec<Real>| Ok(ModelStatus::Optimal),
        read_solution: |_: &Vec<Real>| (0, rs(&[0.75, 0.0, 0.5, 0.25]), rs(&[-0.5, 1.5])),
        read_basis: |_: &Vec<Real>| 0,
        subtract: |a: Real, b: Real| r(f(a) - f(b)),
        invert: |a: Real| r(1.0 / f(a)),
        multiply: |a: Real, b: Real| r(f(a) * f(b)),
    };
    let found = workspace.solve_in_place(&rs(&[1.0, 2.0]), &numbers).expect("optimum");
    assert_eq!(f(found.eta_star), 0.75);
    assert_eq!(fs(&found.delta_star), vec![0.25]);
    assert_eq!(fs(&found.lambda), vec![0.25, 0.0]);
    assert!(workspace.has_basis && workspace.has_solution);
    assert!(workspace.solve_in_place(&rs(&[2.0, 1.0]), &numbers).is_err());
}

// ---------------------------------------------------------------------------
// Fixed-length intervals
// ---------------------------------------------------------------------------

#[test]
fn every_row_of_the_variance_is_movable_or_fixed() {
    let split = split_constant_variance(
        &[rs(&[1.0, 0.0]), rs(&[0.0, 0.0]), rs(&[0.0, 2.0])],
        &rs(&[5.0, 6.0, 7.0]),
    );
    assert_eq!(fs(&split.sides), vec![5.0, 7.0]);
    assert_eq!(fs(&split.fixed), vec![6.0]);
    assert_eq!(split.rows.len() + split.fixed.len(), 3);
}

// ---------------------------------------------------------------------------
// Labels and verdicts
// ---------------------------------------------------------------------------

#[test]
fn restrictions_have_different_names() {
    let mut labels = vec![
        smoothness_variant_label(None, None).expect("plain"),
        smoothness_variant_label(Some(HonestBiasDirection::Positive), None).expect("positive"),
        smoothness_variant_label(Some(HonestBiasDirection::Negative), None).expect("negative"),
        smoothness_variant_label(None, Some(HonestMonotonicityDirection::Increasing))
            .expect("increasing"),
        smoothness_variant_label(None, Some(HonestMonotonicityDirection::Decreasing))
            .expect("decreasing"),
    ];
    assert_eq!(labels[0], "DeltaSD");
    labels.sort_unstable();
    labels.dedup();
    assert_eq!(labels.len(), 5);
    assert_eq!(SensitivitySummaryMethod::ConditionalLeastFavorable.label(), "C-LF");
}

#[test]
fn an_assessment_is_significant_where_its_interval_excludes_the_null() {
    let original =
        HonestOriginalConfidenceSet { estimate: r(2.0), se: r(1.0), ci: (r(0.0), r(4.0)) };
    for (low, high, expected) in [(1.0, 3.0, true), (-1.0, 3.0, false), (0.0, 3.0, false)] {
        let interval = (r(low), r(high));
        let assessment =
            HonestAssessment::new(original, interval, (r(1.5), r(2.5)), r(0.0), r(1.0));
        assert_eq!(assessment.robustly_significant, expected);
        assert_eq!(interval_excludes(interval, r(0.0)), expected);
    }
}
