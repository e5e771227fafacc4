//! Constraint matrices of the restrictions on violations of parallel trends.
//!
//! A violation path has one entry per period; the reference period between the
//! pre and the post periods has violation zero and no column. Rows are linear
//! constraints on the path. Their entries are integers, or integer multiples of
//! the relative-magnitude bound `Mbar`, so a row is held exactly.

use crate::matrix;
use crate::matrix::{filled_row, tabulate};
use crate::number::Real;
use crate::paths;
use crate::types::{HonestBiasDirection, HonestMonotonicityDirection};
use vstd::prelude::*;

verus! {

/// The entry `constant + multiple * Mbar` of a constraint row.
#[derive(Clone, Copy, Debug, PartialEq, Eq, Structural)]
pub struct Coefficient {
    /// The part that does not depend on `Mbar`.
    pub constant: i64,
    /// The multiple of `Mbar`.
    pub multiple: i64,
}

impl Coefficient {
    /// The entry that is a given integer.
    pub open spec fn integer(value: int) -> Coefficient {
        Coefficient { constant: value as i64, multiple: 0 }
    }

    /// Whether the entry is zero whatever `Mbar` is.
    pub open spec fn zero(self) -> bool {
        self.constant == 0 && self.multiple == 0
    }

    /// The entry with its sign flipped.
    pub open spec fn negative(self) -> Coefficient {
        Coefficient { constant: (-self.constant) as i64, multiple: (-self.multiple) as i64 }
    }

    /// Whether the entry is zero whatever `Mbar` is.
    pub fn is_zero(self) -> (r: bool)
        ensures
            r == self.zero(),
    {
        self.constant == 0 && self.multiple == 0
    }
}

/// The column of the full path, reference period included, that stands at `j`
/// once the reference period is left out.
pub open spec fn full_column(j: int, num_pre: int) -> int {
    if j < num_pre {
        j
    } else {
        j + 1
    }
}

/// Entry `c` of the second difference that starts at period `r`.
pub open spec fn second_difference(r: int, c: int) -> int {
    if c == r || c == r + 2 {
        1
    } else if c == r + 1 {
        -2
    } else {
        0
    }
}

/// Entry `c` of the first difference that starts at period `r`.
pub open spec fn first_difference(r: int, c: int) -> int {
    if c == r {
        -1
    } else if c == r + 1 {
        1
    } else {
        0
    }
}

/// The first second difference that is kept: all of them, or those that reach
/// past the reference period.
pub open spec fn first_smoothness_row(num_pre: int, post_period_moments_only: bool) -> int {
    if post_period_moments_only && num_pre > 0 {
        num_pre - 1
    } else {
        0
    }
}

/// Number of second differences that are kept.
pub open spec fn smoothness_row_count(
    num_pre: int,
    num_post: int,
    post_period_moments_only: bool,
) -> int {
    num_pre + num_post - 1 - first_smoothness_row(num_pre, post_period_moments_only)
}

/// Entry `(i, j)` of the smoothness constraints: the kept second differences
/// without the reference period, followed by their negatives.
pub open spec fn smoothness_entry(
    num_pre: int,
    num_post: int,
    post_period_moments_only: bool,
    i: int,
    j: int,
) -> Coefficient {
    let first = first_smoothness_row(num_pre, post_period_moments_only);
    let count = smoothness_row_count(num_pre, num_post, post_period_moments_only);
    if i < count {
        Coefficient::integer(second_difference(first + i, full_column(j, num_pre)))
    } else {
        Coefficient::integer(-second_difference(first + i - count, full_column(j, num_pre)))
    }
}

/// Each smoothness constraint has a counterpart with all signs flipped.
pub proof fn smoothness_rows_come_in_pairs(
    num_pre: int,
    num_post: int,
    post_period_moments_only: bool,
    i: int,
    j: int,
)
    requires
        0 <= i < smoothness_row_count(num_pre, num_post, post_period_moments_only),
    ensures
        smoothness_entry(
            num_pre,
            num_post,
            post_period_moments_only,
            i + smoothness_row_count(num_pre, num_post, post_period_moments_only),
            j,
        ) == smoothness_entry(num_pre, num_post, post_period_moments_only, i, j).negative(),
{
}

/// A violation along a straight line has no change of slope: its second
/// differences vanish, whatever the bound.
pub proof fn straight_lines_are_smooth(r: int, level: int, slope: int)
    ensures
        second_difference(r, r) * (level + slope * r) + second_difference(r, r + 1) * (level
            + slope * (r + 1)) + second_difference(r, r + 2) * (level + slope * (r + 2)) == 0,
        forall|c: int| c < r || r + 2 < c ==> #[trigger] second_difference(r, c) == 0,
{
    assert((level + slope * r) - 2 * (level + slope * (r + 1)) + (level + slope * (r + 2)) == 0)
        by (nonlinear_arith);
}

/// The smoothness constraints `-M <= second difference <= M` on a violation
/// path.
pub fn build_smoothness_constraint_matrix(
    num_pre_periods: usize,
    num_post_periods: usize,
    post_period_moments_only: bool,
) -> (rows: Vec<Vec<Coefficient>>)
    requires
        1 <= num_pre_periods + num_post_periods,
        2 * (num_pre_periods + num_post_periods) + 2 <= usize::MAX,
    ensures
        rows.len() == 2 * smoothness_row_count(
            num_pre_periods as int,
            num_post_periods as int,
            post_period_moments_only,
        ),
        matrix::has_cols(rows@, num_pre_periods + num_post_periods),
        forall|i: int, j: int|
            0 <= i < rows.len() && 0 <= j < num_pre_periods + num_post_periods
                ==> #[trigger] rows@[i]@[j] == smoothness_entry(
                num_pre_periods as int,
                num_post_periods as int,
                post_period_moments_only,
                i,
                j,
            ),
        forall|path: Seq<int>, limit: int|
            path.len() == num_pre_periods + num_post_periods ==> (#[trigger] paths::all_at_most(
                rows@,
                path,
                0,
                limit,
            ) <==> paths::bends_at_most(
                path,
                num_pre_periods as int,
                if post_period_moments_only && num_pre_periods > 0 {
                    num_pre_periods - 1
                } else {
                    0
                },
                limit,
            )),
{
    let first: usize = if post_period_moments_only && num_pre_periods > 0 {
        num_pre_periods - 1
    } else {
        0
    };
    let count: usize = num_pre_periods + num_post_periods - 1 - first;
    let cols: usize = num_pre_periods + num_post_periods;
    let entry = |i: usize, j: usize| -> (value: Coefficient)
        requires
            i < 2 * count,
            j < cols,
        ensures
            value == smoothness_entry(
                num_pre_periods as int,
                num_post_periods as int,
                post_period_moments_only,
                i as int,
                j as int,
            ),
        {
            let row: usize = if i < count {
                first + i
            } else {
                first + (i - count)
            };
            let col: usize = if j < num_pre_periods {
                j
            } else {
                j + 1
            };
            let value: i64 = if col == row || col == row + 2 {
                1
            } else if col == row + 1 {
                -2
            } else {
                0
            };
            Coefficient {
                constant: if i < count {
                    value
                } else {
                    -value
                },
                multiple: 0,
            }
        };
    let rows = tabulate(2 * count, cols, entry);
    proof {
        assert forall|path: Seq<int>, limit: int|
            path.len() == num_pre_periods + num_post_periods implies (
        #[trigger] paths::all_at_most(rows@, path, 0, limit) <==> paths::bends_at_most(
            path,
            num_pre_periods as int,
            if post_period_moments_only && num_pre_periods > 0 {
                num_pre_periods - 1
            } else {
                0
            },
            limit,
        )) by {
            paths::smoothness_rows_bound_the_bends(
                rows@,
                path,
                num_pre_periods as int,
                num_post_periods as int,
                post_period_moments_only,
                0,
                limit,
            );
        }
    }
    rows
}

/// The right-hand sides of the smoothness constraints: `m` for each.
pub fn build_smoothness_constraint_bounds(
    num_pre_periods: usize,
    num_post_periods: usize,
    m: Real,
    post_period_moments_only: bool,
) -> (bounds: Vec<Real>)
    requires
        1 <= num_pre_periods + num_post_periods,
        2 * (num_pre_periods + num_post_periods) + 2 <= usize::MAX,
    ensures
        bounds@ == Seq::new(
            (2 * smoothness_row_count(
                num_pre_periods as int,
                num_post_periods as int,
                post_period_moments_only,
            )) as nat,
            |i: int| m,
        ),
{
    let rows = build_smoothness_constraint_matrix(
        num_pre_periods,
        num_post_periods,
        post_period_moments_only,
    );
    filled_row(rows.len(), m)
}

/// Entry `(i, j)` of a sign restriction on the post-treatment violations.
pub open spec fn bias_sign_entry(
    num_pre: int,
    bias_direction: HonestBiasDirection,
    i: int,
    j: int,
) -> Coefficient {
    if j != num_pre + i {
        Coefficient::integer(0)
    } else {
        match bias_direction {
            HonestBiasDirection::Positive => Coefficient::integer(-1),
            HonestBiasDirection::Negative => Coefficient::integer(1),
        }
    }
}

/// The constraints that give the post-treatment violations one sign.
pub fn build_bias_sign_restriction_matrix(
    num_pre_periods: usize,
    num_post_periods: usize,
    bias_direction: HonestBiasDirection,
) -> (rows: Vec<Vec<Coefficient>>)
    requires
        num_pre_periods + num_post_periods <= usize::MAX,
    ensures
        rows.len() == num_post_periods,
        matrix::has_cols(rows@, num_pre_periods + num_post_periods),
        forall|i: int, j: int|
            0 <= i < rows.len() && 0 <= j < num_pre_periods + num_post_periods
                ==> #[trigger] rows@[i]@[j] == bias_sign_entry(
                num_pre_periods as int,
                bias_direction,
                i,
                j,
            ),
        forall|path: Seq<int>|
            path.len() == num_pre_periods + num_post_periods ==> (#[trigger] paths::all_at_most(
                rows@,
                path,
                0,
                0,
            ) <==> paths::has_sign(path, num_pre_periods as int, bias_direction)),
{
    let cols: usize = num_pre_periods + num_post_periods;
    let entry = |i: usize, j: usize| -> (value: Coefficient)
        requires
            i < num_post_periods,
            j < cols,
        ensures
            value == bias_sign_entry(num_pre_periods as int, bias_direction, i as int, j as int),
        {
            if j != num_pre_periods + i {
                Coefficient { constant: 0, multiple: 0 }
            } else {
                match bias_direction {
                    HonestBiasDirection::Positive => Coefficient { constant: -1, multiple: 0 },
                    HonestBiasDirection::Negative => Coefficient { constant: 1, multiple: 0 },
                }
            }
        };
    let rows = tabulate(num_post_periods, cols, entry);
    proof {
        assert forall|path: Seq<int>|
            path.len() == num_pre_periods + num_post_periods implies (
        #[trigger] paths::all_at_most(rows@, path, 0, 0) <==> paths::has_sign(
            path,
            num_pre_periods as int,
            bias_direction,
        )) by {
            paths::sign_rows_fix_the_sign(
                rows@,
                path,
                num_pre_periods as int,
                num_post_periods as int,
                bias_direction,
                0,
            );
        }
    }
    rows
}

/// Entry `c` of the r-th row of `violation before - violation after <= 0`, over
/// neighbouring periods and with the reference period at zero.
pub open spec fn increase_entry(num_pre: int, r: int, c: int) -> int {
    if r < num_pre {
        if c == r {
            1
        } else if c == r + 1 && r + 1 < num_pre {
            -1
        } else {
            0
        }
    } else {
        if c == r {
            -1
        } else if c == r - 1 && r > num_pre {
            1
        } else {
            0
        }
    }
}

/// Entry `(i, j)` of a monotonicity restriction.
pub open spec fn monotonicity_entry(
    num_pre: int,
    direction: HonestMonotonicityDirection,
    post_period_moments_only: bool,
    i: int,
    j: int,
) -> Coefficient {
    let r = if post_period_moments_only {
        num_pre + i
    } else {
        i
    };
    match direction {
        HonestMonotonicityDirection::Increasing => Coefficient::integer(
            increase_entry(num_pre, r, j),
        ),
        HonestMonotonicityDirection::Decreasing => Coefficient::integer(
            -increase_entry(num_pre, r, j),
        ),
    }
}

/// The constraints that let the violations move in one direction only; with
/// `post_period_moments_only`, those that involve a post period.
pub fn build_monotonicity_restriction_matrix(
    num_pre_periods: usize,
    num_post_periods: usize,
    monotonicity_direction: HonestMonotonicityDirection,
    post_period_moments_only: bool,
) -> (rows: Vec<Vec<Coefficient>>)
    requires
        num_pre_periods + num_post_periods < usize::MAX,
    ensures
        rows.len() == (if post_period_moments_only {
            num_post_periods as int
        } else {
            num_pre_periods + num_post_periods
        }),
        matrix::has_cols(rows@, num_pre_periods + num_post_periods),
        forall|i: int, j: int|
            0 <= i < rows.len() && 0 <= j < num_pre_periods + num_post_periods
                ==> #[trigger] rows@[i]@[j] == monotonicity_entry(
                num_pre_periods as int,
                monotonicity_direction,
                post_period_moments_only,
                i,
                j,
            ),
        forall|path: Seq<int>|
            path.len() == num_pre_periods + num_post_periods ==> (#[trigger] paths::all_at_most(
                rows@,
                path,
                0,
                0,
            ) <==> paths::moves_one_way(
                path,
                num_pre_periods as int,
                monotonicity_direction,
                if post_period_moments_only {
                    num_pre_periods as int
                } else {
                    0
                },
            )),
{
    let cols: usize = num_pre_periods + num_post_periods;
    let count: usize = if post_period_moments_only {
        num_post_periods
    } else {
        cols
    };
    let entry = |i: usize, j: usize| -> (value: Coefficient)
        requires
            i < count,
            j < cols,
        ensures
            value == monotonicity_entry(
                num_pre_periods as int,
                monotonicity_direction,
                post_period_moments_only,
                i as int,
                j as int,
            ),
        {
            let row: usize = if post_period_moments_only {
                num_pre_periods + i
            } else {
                i
            };
            let value: i64 = if row < num_pre_periods {
                if j == row {
                    1
                } else if j == row + 1 && row + 1 < num_pre_periods {
                    -1
                } else {
                    0
                }
            } else {
                if j == row {
                    -1
                } else if row > num_pre_periods && j == row - 1 {
                    1
                } else {
                    0
                }
            };
            let signed: i64 = match monotonicity_direction {
                HonestMonotonicityDirection::Increasing => value,
                HonestMonotonicityDirection::Decreasing => -value,
            };
            Coefficient { constant: signed, multiple: 0 }
        };
    let rows = tabulate(count, cols, entry);
    proof {
        assert forall|path: Seq<int>|
            path.len() == num_pre_periods + num_post_periods implies (
        #[trigger] paths::all_at_most(rows@, path, 0, 0) <==> paths::moves_one_way(
            path,
            num_pre_periods as int,
            monotonicity_direction,
            if post_period_moments_only {
                num_pre_periods as int
            } else {
                0
            },
        )) by {
            paths::monotone_rows_fix_the_direction(
                rows@,
                path,
                num_pre_periods as int,
                num_post_periods as int,
                monotonicity_direction,
                post_period_moments_only,
                0,
            );
        }
    }
    rows
}

/// The rows below `end` that have a non-zero entry in a post-period column.
pub open spec fn post_period_rows(
    rows: Seq<Vec<Coefficient>>,
    num_pre: int,
    end: int,
) -> Seq<usize>
    decreases end,
{
    if end <= 0 {
        Seq::empty()
    } else if involves_post_period(rows[end - 1]@, num_pre) {
        post_period_rows(rows, num_pre, end - 1).push((end - 1) as usize)
    } else {
        post_period_rows(rows, num_pre, end - 1)
    }
}

/// Whether a row has a non-zero entry in a post-period column.
pub open spec fn involves_post_period(row: Seq<Coefficient>, num_pre: int) -> bool {
    exists|j: int| num_pre <= j < row.len() && !(#[trigger] row[j]).zero()
}

fn row_involves_post_period(row: &[Coefficient], num_pre: usize) -> (r: bool)
    ensures
        r == involves_post_period(row@, num_pre as int),
{
    let mut j: usize = num_pre;
    while j < row.len()
        invariant
            num_pre <= j,
            j <= row.len() || j == num_pre,
            forall|k: int| num_pre <= k < j && k < row.len() ==> (#[trigger] row@[k]).zero(),
        decreases row.len() - j,
    {
        if !row[j].is_zero() {
            return true;
        }
        j = j + 1;
    }
    false
}

/// Indices of the rows that have a non-zero entry in a post-period column.
pub fn find_post_period_constraint_rows(
    rows: &[Vec<Coefficient>],
    num_pre_periods: usize,
) -> (indices: Vec<usize>)
    ensures
        indices@ == post_period_rows(rows@, num_pre_periods as int, rows.len() as int),
{
    let mut indices: Vec<usize> = Vec::new();
    let mut i: usize = 0;
    while i < rows.len()
        invariant
            i <= rows.len(),
            indices@ == post_period_rows(rows@, num_pre_periods as int, i as int),
        decreases rows.len() - i,
    {
        if row_involves_post_period(rows[i].as_slice(), num_pre_periods) {
            indices.push(i);
        }
        i = i + 1;
    }
    indices
}

/// The chosen rows are in ascending order, exist, and involve a post period;
/// every row that involves one is chosen.
pub proof fn post_period_rows_are_exact(rows: Seq<Vec<Coefficient>>, num_pre: int, end: int)
    requires
        0 <= end <= rows.len() <= usize::MAX,
    ensures
        forall|k: int|
            0 <= k < post_period_rows(rows, num_pre, end).len() ==> {
                let row = #[trigger] post_period_rows(rows, num_pre, end)[k] as int;
                row < end && involves_post_period(rows[row]@, num_pre)
            },
        forall|a: int, b: int|
            0 <= a < b < post_period_rows(rows, num_pre, end).len()
                ==> #[trigger] post_period_rows(rows, num_pre, end)[a]
                < #[trigger] post_period_rows(rows, num_pre, end)[b],
        forall|i: int|
            0 <= i < end && involves_post_period((#[trigger] rows[i])@, num_pre)
                ==> post_period_rows(rows, num_pre, end).contains(i as usize),
    decreases end,
{
    if end > 0 {
        post_period_rows_are_exact(rows, num_pre, end - 1);
        let before = post_period_rows(rows, num_pre, end - 1);
        let chosen = post_period_rows(rows, num_pre, end);
        assert forall|i: int|
            0 <= i < end && involves_post_period((#[trigger] rows[i])@, num_pre)
                implies chosen.contains(i as usize) by {
            if i < end - 1 {
                assert(before.contains(i as usize));
                let k = choose|k: int| 0 <= k < before.len() && before[k] == i as usize;
                assert(chosen[k] == i as usize);
            } else {
                assert(chosen[chosen.len() - 1] == i as usize);
            }
        }
    }
}

/// A moment system of a smoothness restriction.
#[derive(Clone, Debug, PartialEq, Eq)]
pub struct SmoothnessMomentSystem {
    /// The constraints.
    pub constraint_matrix: Vec<Vec<Coefficient>>,
    /// Their right-hand sides.
    pub constraint_bounds: Vec<Real>,
    /// The rows that enter the conditional test.
    pub rows_for_arp: Vec<usize>,
}

/// The rows that enter the conditional test: those that involve a post period
/// where that is asked for and there is more than one post period, all rows
/// otherwise.
pub open spec fn conditional_rows(
    rows: Seq<Vec<Coefficient>>,
    num_pre: int,
    num_post: int,
    post_period_moments_only: bool,
) -> Seq<usize> {
    if post_period_moments_only && num_post > 1 {
        post_period_rows(rows, num_pre, rows.len() as int)
    } else {
        Seq::new(rows.len(), |i: int| i as usize)
    }
}

fn choose_conditional_rows(
    rows: &[Vec<Coefficient>],
    num_pre: usize,
    num_post: usize,
    post_period_moments_only: bool,
) -> (indices: Vec<usize>)
    ensures
        indices@ == conditional_rows(
            rows@,
            num_pre as int,
            num_post as int,
            post_period_moments_only,
        ),
{
    if post_period_moments_only && num_post > 1 {
        find_post_period_constraint_rows(rows, num_pre)
    } else {
        let mut indices: Vec<usize> = Vec::new();
        while indices.len() < rows.len()
            invariant
                indices.len() <= rows.len(),
                forall|i: int| 0 <= i < indices.len() ==> indices@[i] == i,
            decreases rows.len() - indices.len(),
        {
            let next: usize = indices.len();
            indices.push(next);
        }
        proof {
            assert(indices@ =~= Seq::new(rows@.len(), |i: int| i as usize));
        }
        indices
    }
}

/// The moment system of the smoothness restriction.
pub fn build_smoothness_moment_system(
    num_pre_periods: usize,
    num_post_periods: usize,
    m: Real,
    post_period_moments_only: bool,
) -> (system: SmoothnessMomentSystem)
    requires
        1 <= num_pre_periods + num_post_periods,
        2 * (num_pre_periods + num_post_periods) + 2 <= usize::MAX,
    ensures
        system.constraint_matrix.len() == 2 * (num_pre_periods + num_post_periods - 1),
        matrix::has_cols(system.constraint_matrix@, num_pre_periods + num_post_periods),
        forall|i: int, j: int|
            0 <= i < system.constraint_matrix.len() && 0 <= j < num_pre_periods + num_post_periods
                ==> #[trigger] system.constraint_matrix@[i]@[j] == smoothness_entry(
                num_pre_periods as int,
                num_post_periods as int,
                false,
                i,
                j,
            ),
        system.constraint_bounds@ == Seq::new(
            (2 * (num_pre_periods + num_post_periods - 1)) as nat,
            |i: int| m,
        ),
        system.rows_for_arp@ == conditional_rows(
            system.constraint_matrix@,
            num_pre_periods as int,
            num_post_periods as int,
            post_period_moments_only,
        ),
{
    let constraint_matrix = build_smoothness_constraint_matrix(
        num_pre_periods,
        num_post_periods,
        false,
    );
    let constraint_bounds = build_smoothness_constraint_bounds(
        num_pre_periods,
        num_post_periods,
        m,
        false,
    );
    let rows_for_arp = choose_conditional_rows(
        constraint_matrix.as_slice(),
        num_pre_periods,
        num_post_periods,
        post_period_moments_only,
    );
    SmoothnessMomentSystem { constraint_matrix, constraint_bounds, rows_for_arp }
}

fn append_rows(rows: &mut Vec<Vec<Coefficient>>, more: Vec<Vec<Coefficient>>)
    ensures
        final(rows)@ == old(rows)@ + more@,
{
    let mut more = more;
    rows.append(&mut more);
}

fn append_zeros(bounds: &mut Vec<Real>, count: usize)
    ensures
        final(bounds)@ == old(bounds)@ + Seq::new(count as nat, |i: int| Real::zero_spec()),
{
    let mut zeros = filled_row(count, Real::zero());
    bounds.append(&mut zeros);
}

/// Entry `(i, j)` of the smoothness constraints followed by a sign restriction.
pub open spec fn signed_smoothness_entry(
    num_pre: int,
    num_post: int,
    bias_direction: HonestBiasDirection,
    i: int,
    j: int,
) -> Coefficient {
    let base = 2 * (num_pre + num_post - 1);
    if i < base {
        smoothness_entry(num_pre, num_post, false, i, j)
    } else {
        bias_sign_entry(num_pre, bias_direction, i - base, j)
    }
}

/// The moment system of the sign-restricted smoothness restriction.
pub fn build_signed_smoothness_moment_system(
    num_pre_periods: usize,
    num_post_periods: usize,
    m: Real,
    bias_direction: HonestBiasDirection,
    post_period_moments_only: bool,
) -> (system: SmoothnessMomentSystem)
    requires
        1 <= num_pre_periods + num_post_periods,
        3 * (num_pre_periods + num_post_periods) + 2 <= usize::MAX,
    ensures
        system.constraint_matrix.len() == 2 * (num_pre_periods + num_post_periods - 1)
            + num_post_periods,
        matrix::has_cols(system.constraint_matrix@, num_pre_periods + num_post_periods),
        forall|i: int, j: int|
            0 <= i < system.constraint_matrix.len() && 0 <= j < num_pre_periods + num_post_periods
                ==> #[trigger] system.constraint_matrix@[i]@[j] == signed_smoothness_entry(
                num_pre_periods as int,
                num_post_periods as int,
                bias_direction,
                i,
                j,
            ),
        system.constraint_bounds@ == Seq::new(
            (2 * (num_pre_periods + num_post_periods - 1) + num_post_periods) as nat,
            |i: int|
                if i < 2 * (num_pre_periods + num_post_periods - 1) {
                    m
                } else {
                    Real::zero_spec()
                },
        ),
        system.rows_for_arp@ == conditional_rows(
            system.constraint_matrix@,
            num_pre_periods as int,
            num_post_periods as int,
            post_period_moments_only,
        ),
{
    let mut constraint_matrix = build_smoothness_constraint_matrix(
        num_pre_periods,
        num_post_periods,
        false,
    );
    let mut constraint_bounds = build_smoothness_constraint_bounds(
        num_pre_periods,
        num_post_periods,
        m,
        false,
    );
    let ghost base = constraint_matrix@;
    let signs = build_bias_sign_restriction_matrix(
        num_pre_periods,
        num_post_periods,
        bias_direction,
    );
    let ghost extra = signs@;
    append_rows(&mut constraint_matrix, signs);
    append_zeros(&mut constraint_bounds, num_post_periods);
    proof {
        assert forall|i: int, j: int|
            0 <= i < constraint_matrix.len() && 0 <= j < num_pre_periods + num_post_periods
                implies #[trigger] constraint_matrix@[i]@[j] == signed_smoothness_entry(
            num_pre_periods as int,
            num_post_periods as int,
            bias_direction,
            i,
            j,
        ) by {
            if i < base.len() {
                assert(constraint_matrix@[i] == base[i]);
                assert(base[i]@[j] == smoothness_entry(
                    num_pre_periods as int,
                    num_post_periods as int,
                    false,
                    i,
                    j,
                ));
            } else {
                assert(constraint_matrix@[i] == extra[i - base.len()]);
                assert(extra[i - base.len()]@[j] == bias_sign_entry(
                    num_pre_periods as int,
                    bias_direction,
                    i - base.len(),
                    j,
                ));
            }
        }
    }
    let rows_for_arp = choose_conditional_rows(
        constraint_matrix.as_slice(),
        num_pre_periods,
        num_post_periods,
        post_period_moments_only,
    );
    SmoothnessMomentSystem { constraint_matrix, constraint_bounds, rows_for_arp }
}

/// Entry `(i, j)` of the smoothness constraints followed by a monotonicity
/// restriction.
pub open spec fn monotone_smoothness_entry(
    num_pre: int,
    num_post: int,
    direction: HonestMonotonicityDirection,
    i: int,
    j: int,
) -> Coefficient {
    let base = 2 * (num_pre + num_post - 1);
    if i < base {
        smoothness_entry(num_pre, num_post, false, i, j)
    } else {
        monotonicity_entry(num_pre, direction, false, i - base, j)
    }
}

/// The moment system of the monotone smoothness restriction.
pub fn build_monotone_smoothness_moment_system(
    num_pre_periods: usize,
    num_post_periods: usize,
    m: Real,
    monotonicity_direction: HonestMonotonicityDirection,
    post_period_moments_only: bool,
) -> (system: SmoothnessMomentSystem)
    requires
        1 <= num_pre_periods + num_post_periods,
        3 * (num_pre_periods + num_post_periods) + 2 <= usize::MAX,
    ensures
        system.constraint_matrix.len() == 3 * (num_pre_periods + num_post_periods) - 2,
        matrix::has_cols(system.constraint_matrix@, num_pre_periods + num_post_periods),
        forall|i: int, j: int|
            0 <= i < system.constraint_matrix.len() && 0 <= j < num_pre_periods + num_post_periods
                ==> #[trigger] system.constraint_matrix@[i]@[j] == monotone_smoothness_entry(
                num_pre_periods as int,
                num_post_periods as int,
                monotonicity_direction,
                i,
                j,
            ),
        system.constraint_bounds@ == Seq::new(
            (3 * (num_pre_periods + num_post_periods) - 2) as nat,
            |i: int|
                if i < 2 * (num_pre_periods + num_post_periods - 1) {
                    m
                } else {
                    Real::zero_spec()
                },
        ),
        system.rows_for_arp@ == conditional_rows(
            system.constraint_matrix@,
            num_pre_periods as int,
            num_post_periods as int,
            post_period_moments_only,
        ),
{
    let mut constraint_matrix = build_smoothness_constraint_matrix(
        num_pre_periods,
        num_post_periods,
        false,
    );
    let mut constraint_bounds = build_smoothness_constraint_bounds(
        num_pre_periods,
        num_post_periods,
        m,
        false,
    );
    let ghost base = constraint_matrix@;
    let steps = build_monotonicity_restriction_matrix(
        num_pre_periods,
        num_post_periods,
        monotonicity_direction,
        false,
    );
    let ghost extra = steps@;
    append_rows(&mut constraint_matrix, steps);
    append_zeros(&mut constraint_bounds, num_pre_periods + num_post_periods);
    proof {
        assert forall|i: int, j: int|
            0 <= i < constraint_matrix.len() && 0 <= j < num_pre_periods + num_post_periods
                implies #[trigger] constraint_matrix@[i]@[j] == monotone_smoothness_entry(
            num_pre_periods as int,
            num_post_periods as int,
            monotonicity_direction,
            i,
            j,
        ) by {
            if i < base.len() {
                assert(constraint_matrix@[i] == base[i]);
                assert(base[i]@[j] == smoothness_entry(
                    num_pre_periods as int,
                    num_post_periods as int,
                    false,
                    i,
                    j,
                ));
            } else {
                assert(constraint_matrix@[i] == extra[i - base.len()]);
                assert(extra[i - base.len()]@[j] == monotonicity_entry(
                    num_pre_periods as int,
                    monotonicity_direction,
                    false,
                    i - base.len(),
                    j,
                ));
            }
        }
    }
    let rows_for_arp = choose_conditional_rows(
        constraint_matrix.as_slice(),
        num_pre_periods,
        num_post_periods,
        post_period_moments_only,
    );
    SmoothnessMomentSystem { constraint_matrix, constraint_bounds, rows_for_arp }
}

/// The constraints that fix the pre-treatment violations: a unit row for each
/// pre period.
pub fn create_pre_period_equality_matrix(num_pre_periods: usize, num_post_periods: usize) -> (rows:
    Vec<Vec<Real>>)
    requires
        num_pre_periods + num_post_periods <= usize::MAX,
    ensures
        rows.len() == num_pre_periods,
        matrix::has_cols(rows@, num_pre_periods + num_post_periods),
        forall|i: int, j: int|
            0 <= i < num_pre_periods && 0 <= j < num_pre_periods + num_post_periods
                ==> #[trigger] rows@[i]@[j] == (if i == j {
                Real::one_spec()
            } else {
                Real::zero_spec()
            }),
{
    let cols: usize = num_pre_periods + num_post_periods;
    let entry = |i: usize, j: usize| -> (value: Real)
        ensures
            value == (if i == j {
                Real::one_spec()
            } else {
                Real::zero_spec()
            }),
        {
            if i == j {
                Real::one()
            } else {
                Real::zero()
            }
        };
    tabulate(num_pre_periods, cols, entry)
}

} // verus!
