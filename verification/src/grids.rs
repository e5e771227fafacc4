//! Grids of values of a target parameter.

use crate::exact;
use crate::number::Real;
use crate::study::StudyArithmetic;
use crate::types::{HonestIdentifiedSet, HonestOriginalConfidenceSet};
use vstd::prelude::*;

verus! {

/// The bits of `1e-8`, the least padding of a grid.
pub const LEAST_PADDING_BITS: u64 = 0x3e45798ee2308c3a;

/// Points of a grid around an identified set.
pub const GRID_POINTS: usize = 1_000;

/// Whether `grid` runs from one bound in equal steps: each point is placed by
/// its number among the steps. A single point is the lower bound.
pub open spec fn is_linear_grid<A: StudyArithmetic>(
    lb: Real,
    ub: Real,
    points: usize,
    numbers: A,
    grid: Seq<Real>,
) -> bool {
    if points <= 1 {
        grid == seq![lb]
    } else {
        &&& grid.len() == points
        &&& forall|idx: int|
            0 <= idx < points ==> numbers.places(
                lb,
                ub,
                idx as usize,
                (points - 1) as usize,
                #[trigger] grid[idx],
            )
    }
}

/// Evenly spaced points from one bound to another.
pub fn linear_grid<A: StudyArithmetic>(
    lb: Real,
    ub: Real,
    points: usize,
    numbers: &A,
) -> (grid: Vec<Real>)
    requires
        numbers.ready(),
    ensures
        is_linear_grid(lb, ub, points, *numbers, grid@),
{
    let mut grid: Vec<Real> = Vec::new();
    if points <= 1 {
        grid.push(lb);
        assert(grid@ =~= seq![lb]);
        return grid;
    }
    let steps: usize = points - 1;
    while grid.len() < points
        invariant
            points > 1,
            steps == points - 1,
            grid.len() <= points,
            numbers.ready(),
            forall|idx: int|
                0 <= idx < grid.len() ==> numbers.places(
                    lb,
                    ub,
                    idx as usize,
                    steps,
                    #[trigger] grid@[idx],
                ),
        decreases points - grid.len(),
    {
        let idx: usize = grid.len();
        grid.push(numbers.place(lb, ub, idx, steps));
    }
    grid
}

/// Whether `bounds` reach around an identified set and the estimate by a
/// padding, and by twice the padding where that would leave nothing between
/// them.
pub open spec fn reaches_around<A: StudyArithmetic>(
    original: HonestOriginalConfidenceSet,
    identified: HonestIdentifiedSet,
    numbers: A,
    wanted: Real,
    lower: Real,
    upper: Real,
    bounds: (Real, Real),
) -> bool {
    let padding = wanted.max_spec(Real { bits: LEAST_PADDING_BITS });
    &&& numbers.pads(original.se, wanted)
    &&& numbers.lowers(identified.lb.min_spec(original.estimate), padding, lower)
    &&& numbers.lifts(identified.ub.max_spec(original.estimate), padding, upper)
    &&& if lower.lt(upper) {
        bounds == (lower, upper)
    } else {
        &&& numbers.lowers(lower, padding, bounds.0)
        &&& numbers.lifts(upper, padding, bounds.1)
    }
}

/// Whether `bounds` are those of the grid around an identified set.
pub open spec fn bounds_around<A: StudyArithmetic>(
    original: HonestOriginalConfidenceSet,
    identified: HonestIdentifiedSet,
    numbers: A,
    bounds: (Real, Real),
) -> bool {
    exists|wanted: Real, lower: Real, upper: Real| #[trigger]
        reaches_around(original, identified, numbers, wanted, lower, upper, bounds)
}

/// The bounds of the grid around an identified set.
pub fn grid_bounds_around_identified_set<A: StudyArithmetic>(
    original: HonestOriginalConfidenceSet,
    identified: HonestIdentifiedSet,
    numbers: &A,
) -> (bounds: (Real, Real))
    requires
        numbers.ready(),
    ensures
        bounds_around(original, identified, *numbers, bounds),
{
    let wanted = numbers.pad(original.se);
    let padding = wanted.max(Real::from_bits(LEAST_PADDING_BITS));
    let lower = numbers.below(identified.lb.min(original.estimate), padding);
    let upper = numbers.above(identified.ub.max(original.estimate), padding);
    let bounds = if lower.less(upper) {
        (lower, upper)
    } else {
        (numbers.below(lower, padding), numbers.above(upper, padding))
    };
    assert(reaches_around(original, identified, *numbers, wanted, lower, upper, bounds));
    bounds
}

/// Whether `grid` is the grid around an identified set.
pub open spec fn is_grid_around<A: StudyArithmetic>(
    original: HonestOriginalConfidenceSet,
    identified: HonestIdentifiedSet,
    numbers: A,
    grid: Seq<Real>,
) -> bool {
    exists|bounds: (Real, Real)| #[trigger]
        bounds_around(original, identified, numbers, bounds) && is_linear_grid(
            bounds.0,
            bounds.1,
            GRID_POINTS,
            numbers,
            grid,
        )
}

/// The grid around an identified set.
pub fn grid_around_identified_set<A: StudyArithmetic>(
    original: HonestOriginalConfidenceSet,
    identified: HonestIdentifiedSet,
    numbers: &A,
) -> (grid: Vec<Real>)
    requires
        numbers.ready(),
    ensures
        is_grid_around(original, identified, *numbers, grid@),
        grid.len() == GRID_POINTS,
{
    let bounds = grid_bounds_around_identified_set(original, identified, numbers);
    linear_grid(bounds.0, bounds.1, GRID_POINTS, numbers)
}

/// A grid is never empty.
pub proof fn a_grid_has_points<A: StudyArithmetic>(
    lb: Real,
    ub: Real,
    points: usize,
    numbers: A,
    grid: Seq<Real>,
)
    requires
        is_linear_grid(lb, ub, points, numbers, grid),
    ensures
        grid.len() == if points <= 1 {
            1
        } else {
            points as int
        },
{
}

/// Where the arithmetic of a grid is exact under a reading, the grid around an
/// identified set begins below the set and the estimate, ends above them, both by
/// at least the padding, and its points lie in equal steps.
pub proof fn a_grid_surrounds_its_set<A: StudyArithmetic>(
    original: HonestOriginalConfidenceSet,
    identified: HonestIdentifiedSet,
    numbers: A,
    grid: Seq<Real>,
    read: spec_fn(Real) -> int,
    i: int,
) -> (padding: Real)
    requires
        is_grid_around(original, identified, numbers, grid),
        exact::faithful(read),
        forall|value: Real, padding: Real, lower: Real| #[trigger]
            numbers.lowers(value, padding, lower) ==> !lower.nan() && read(lower) == read(value)
                - read(padding),
        forall|value: Real, padding: Real, upper: Real| #[trigger]
            numbers.lifts(value, padding, upper) ==> !upper.nan() && read(upper) == read(value)
                + read(padding),
        forall|lb: Real, ub: Real, idx: usize, steps: usize, point: Real| #[trigger]
            numbers.places(lb, ub, idx, steps, point) ==> steps * read(point) == (steps - idx)
                * read(lb) + idx * read(ub),
        !identified.lb.nan(),
        !identified.ub.nan(),
        !original.estimate.nan(),
        0 <= i < GRID_POINTS - 1,
    ensures
        grid.len() == GRID_POINTS,
        (Real { bits: LEAST_PADDING_BITS }).le(padding),
        exists|wanted: Real| #[trigger]
            numbers.pads(original.se, wanted) && (wanted.nan() || wanted.le(padding)),
        read(grid[0]) <= read(identified.lb) - read(padding),
        read(grid[0]) <= read(original.estimate) - read(padding),
        read(grid[GRID_POINTS - 1]) >= read(identified.ub) + read(padding),
        read(grid[GRID_POINTS - 1]) >= read(original.estimate) + read(padding),
        (GRID_POINTS - 1) * (read(grid[i + 1]) - read(grid[i])) == read(grid[GRID_POINTS - 1])
            - read(grid[0]),
{
    let bounds = choose|bounds: (Real, Real)| #[trigger]
        bounds_around(original, identified, numbers, bounds) && is_linear_grid(
            bounds.0,
            bounds.1,
            GRID_POINTS,
            numbers,
            grid,
        );
    let (wanted, lower, upper) = choose|wanted: Real, lower: Real, upper: Real| #[trigger]
        reaches_around(original, identified, numbers, wanted, lower, upper, bounds);
    let least = Real { bits: LEAST_PADDING_BITS };
    let padding = wanted.max_spec(least);
    assert(numbers.pads(original.se, wanted));
    assert(least.le(padding));
    assert(Real::zero_spec().le(padding));
    let low = identified.lb.min_spec(original.estimate);
    let high = identified.ub.max_spec(original.estimate);
    assert(low.le(identified.lb) && low.le(original.estimate));
    assert(identified.ub.le(high) && original.estimate.le(high));
    let steps = (GRID_POINTS - 1) as usize;
    let l = read(bounds.0);
    let u = read(bounds.1);
    assert(numbers.places(bounds.0, bounds.1, 0int as usize, steps, grid[0]));
    let first = read(grid[0]);
    assert(first == l) by (nonlinear_arith)
        requires
            steps == 999,
            steps * first == (steps - 0) * l + 0 * u,
    ;
    assert(numbers.places(bounds.0, bounds.1, steps as int as usize, steps, grid[steps as int]));
    let last = read(grid[steps as int]);
    assert(last == u) by (nonlinear_arith)
        requires
            steps == 999,
            steps * last == (steps - steps) * l + steps * u,
    ;
    assert(numbers.places(bounds.0, bounds.1, i as usize, steps, grid[i]));
    assert(numbers.places(bounds.0, bounds.1, (i + 1) as usize, steps, grid[i + 1]));
    assert((steps - (i + 1)) * l + (i + 1) * u == (steps - i) * l + i * u - l + u)
        by (nonlinear_arith);
    padding
}

} // verus!
