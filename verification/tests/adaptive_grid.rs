//! The adaptive search of a grid.

use honest_did::adaptive_grid::{
    accepted_grid_range_from_flags, compute_accepted_grid_range_adaptive,
    compute_accepted_grid_range_adaptive_with_diagnostics, compute_accepted_grid_range_full_grid,
    nearest_grid_index,
};
use honest_did::number::Real;

fn grid_of(len: u32) -> Vec<Real> {
    (0..len).map(|value| Real::from_bits(f64::from(value).to_bits())).collect()
}

fn place(grid: &[Real], theta: Real) -> usize {
    grid.iter().position(|value| value.bits == theta.bits).expect("theta on grid")
}

#[test]
fn adaptive_search_matches_contiguous_interval() {
    let grid = grid_of(64);
    let accepted = compute_accepted_grid_range_adaptive(&grid, 22, |theta: Real| {
        Ok((19..=27).contains(&place(&grid, theta)))
    })
    .expect("adaptive search succeeds")
    .expect("interval exists");
    assert_eq!(accepted.lower_idx, 19);
    assert_eq!(accepted.upper_idx, 27);
}

#[test]
fn adaptive_fallback_reuses_cached_evaluations() {
    let grid = grid_of(32);
    let mut eval_count = 0usize;
    let accepted = compute_accepted_grid_range_adaptive(&grid, 16, |theta: Real| {
        eval_count += 1;
        Ok(matches!(place(&grid, theta), 3..=5 | 20..=24))
    })
    .expect("adaptive search succeeds")
    .expect("interval exists");
    assert_eq!(accepted.lower_idx, 3);
    assert_eq!(accepted.upper_idx, 24);
    assert_eq!(eval_count, grid.len());
}

#[test]
fn adaptive_search_handles_rejected_anchor_without_full_scan() {
    let grid = grid_of(128);
    let mut eval_count = 0usize;
    let accepted = compute_accepted_grid_range_adaptive(&grid, 64, |theta: Real| {
        eval_count += 1;
        Ok((70..=82).contains(&place(&grid, theta)))
    })
    .expect("adaptive search succeeds")
    .expect("interval exists");
    assert_eq!(accepted.lower_idx, 70);
    assert_eq!(accepted.upper_idx, 82);
    assert!(eval_count < grid.len());
}

#[test]
fn adaptive_search_reports_diagnostics() {
    let grid = grid_of(32);
    let (accepted, diagnostics) =
        compute_accepted_grid_range_adaptive_with_diagnostics(&grid, 16, |theta: Real| {
            Ok((20..=24).contains(&place(&grid, theta)))
        })
        .expect("adaptive search succeeds");
    let accepted = accepted.expect("interval exists");
    assert_eq!(accepted.lower_idx, 20);
    assert_eq!(accepted.upper_idx, 24);
    assert!(!diagnostics.anchor_accepted);
    assert!(diagnostics.used_nearest_accepted_anchor);
    assert!(!diagnostics.used_full_grid_fallback);
    assert!(diagnostics.unique_evaluations < grid.len());
}

#[test]
fn adaptive_search_short_circuits_fully_accepted_grid() {
    let grid = grid_of(128);
    let mut eval_count = 0usize;
    let accepted = compute_accepted_grid_range_adaptive(&grid, 64, |_: Real| {
        eval_count += 1;
        Ok(true)
    })
    .expect("adaptive search succeeds")
    .expect("interval exists");
    assert_eq!(accepted.lower_idx, 0);
    assert_eq!(accepted.upper_idx, grid.len() - 1);
    assert!(eval_count <= 3);
}

#[test]
fn full_scan_spans_all_accepted_points() {
    let grid = grid_of(16);
    let range = compute_accepted_grid_range_full_grid(&grid, |theta: Real| {
        Ok(matches!(place(&grid, theta), 2 | 9))
    })
    .expect("scan succeeds")
    .expect("interval exists");
    assert_eq!((range.lower_idx, range.upper_idx), (2, 9));
}

#[test]
fn nothing_accepted_gives_no_range() {
    let grid = grid_of(16);
    let range = compute_accepted_grid_range_adaptive(&grid, 3, |_: Real| Ok(false))
        .expect("search succeeds");
    assert!(range.is_none());
    assert!(accepted_grid_range_from_flags(&[false, false]).is_none());
}

#[test]
fn a_failing_test_stops_the_search() {
    let grid = grid_of(16);
    let outcome =
        compute_accepted_grid_range_adaptive(&grid, 3, |_: Real| Err("no optimum".to_string()));
    assert_eq!(outcome.unwrap_err(), "no optimum");
}

#[test]
fn no_point_is_tested_twice() {
    let grid = grid_of(50);
    let mut asked = vec![0usize; grid.len()];
    let _ = compute_accepted_grid_range_adaptive(&grid, 25, |theta: Real| {
        let idx = place(&grid, theta);
        asked[idx] += 1;
        Ok(matches!(idx, 4..=6 | 30..=33))
    });
    assert!(asked.iter().all(|count| *count <= 1));
}

#[test]
fn nearest_point_is_the_first_of_the_smallest_distances() {
    let distances: Vec<Real> =
        [3.0_f64, 1.0, 1.0, 2.0].iter().map(|d| Real::from_bits(d.to_bits())).collect();
    assert_eq!(nearest_grid_index(&distances), 1);
}
