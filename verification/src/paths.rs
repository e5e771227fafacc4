//! Violation paths and what the constraint rows say of them.
//!
//! A path holds the violation of parallel trends in each period but the reference
//! period, where it is zero. The laws below read the rows of the restrictions as
//! inequalities on a path and say in terms of its violations when they hold.

use crate::branches;
use crate::branches::{RelativeMagnitudeBranch, RelativeMagnitudeFamily};
use crate::constraints;
use crate::constraints::Coefficient;
use crate::matrix;
use crate::types::{HonestBiasDirection, HonestMonotonicityDirection};
use vstd::arithmetic::mul;
use vstd::prelude::*;

verus! {

// ---------------------------------------------------------------------------
// Paths
// ---------------------------------------------------------------------------

/// The violation in the period at `t`, counted with the reference period, which
/// stands behind the pre periods.
pub open spec fn violation(path: Seq<int>, num_pre: int, t: int) -> int {
    if t < num_pre {
        path[t]
    } else if t == num_pre {
        0int
    } else {
        path[t - 1]
    }
}

/// By how much the violation changes from the period at `t` to the next.
pub open spec fn change(path: Seq<int>, num_pre: int, t: int) -> int {
    violation(path, num_pre, t + 1) - violation(path, num_pre, t)
}

/// By how much the slope of the violation changes at the period behind `t`.
pub open spec fn bend(path: Seq<int>, num_pre: int, t: int) -> int {
    change(path, num_pre, t + 1) - change(path, num_pre, t)
}

/// The magnitude of a number.
pub open spec fn magnitude(value: int) -> int {
    if value < 0int {
        -value
    } else {
        value
    }
}

/// A number, or the same with its sign flipped.
pub open spec fn signed(value: int, positive: bool) -> int {
    if positive {
        value
    } else {
        -value
    }
}

// ---------------------------------------------------------------------------
// Rows on a path
// ---------------------------------------------------------------------------

/// The number of a coefficient at a bound.
pub open spec fn number_of(coefficient: Coefficient, bound: int) -> int {
    coefficient.constant + coefficient.multiple * bound
}

/// The first `end` entries of a row times those of a path.
pub open spec fn row_sum(row: Seq<Coefficient>, path: Seq<int>, bound: int, end: int) -> int
    decreases end,
{
    if end <= 0 {
        0int
    } else {
        row_sum(row, path, bound, end - 1) + number_of(row[end - 1], bound) * path[end - 1]
    }
}

/// A row times a path.
pub open spec fn row_value(row: Seq<Coefficient>, path: Seq<int>, bound: int) -> int {
    row_sum(row, path, bound, path.len() as int)
}

/// Whether every row is at most a limit on a path.
pub open spec fn all_at_most(
    rows: Seq<Vec<Coefficient>>,
    path: Seq<int>,
    bound: int,
    limit: int,
) -> bool {
    forall|i: int|
        0 <= i < rows.len() ==> #[trigger] row_value(rows[i]@, path, bound) <= limit
}

/// The sum over the periods of a path, but the reference period, of a weight
/// times the violation.
spec fn weighted(weight: spec_fn(int) -> int, path: Seq<int>, num_pre: int, end: int) -> int
    decreases end,
{
    if end <= 0 {
        0int
    } else {
        weighted(weight, path, num_pre, end - 1) + weight(
            constraints::full_column(end - 1, num_pre),
        ) * path[end - 1]
    }
}

/// The weight of one period alone.
spec fn unit(at: int) -> spec_fn(int) -> int {
    |c: int|
        if c == at {
            1int
        } else {
            0int
        }
}

proof fn weighted_by_unit(path: Seq<int>, num_pre: int, end: int, at: int)
    requires
        0 <= num_pre,
        0 <= end <= path.len(),
        0 <= at,
    ensures
        weighted(unit(at), path, num_pre, end) == (if at != num_pre && (if at < num_pre {
            at
        } else {
            at - 1
        }) < end {
            violation(path, num_pre, at)
        } else {
            0int
        }),
    decreases end,
{
    if end > 0 {
        weighted_by_unit(path, num_pre, end - 1, at);
        let p = path[end - 1];
        assert(1 * p == p && 0 * p == 0);
    }
}

proof fn weighted_combines(
    left: spec_fn(int) -> int,
    right: spec_fn(int) -> int,
    a: int,
    b: int,
    whole: spec_fn(int) -> int,
    path: Seq<int>,
    num_pre: int,
    end: int,
)
    requires
        forall|c: int| #[trigger] whole(c) == a * left(c) + b * right(c),
    ensures
        weighted(whole, path, num_pre, end) == a * weighted(left, path, num_pre, end) + b
            * weighted(right, path, num_pre, end),
    decreases end,
{
    if end > 0 {
        weighted_combines(left, right, a, b, whole, path, num_pre, end - 1);
        let c = constraints::full_column(end - 1, num_pre);
        let l = weighted(left, path, num_pre, end - 1);
        let r = weighted(right, path, num_pre, end - 1);
        let x = left(c);
        let y = right(c);
        let p = path[end - 1];
        mul::lemma_mul_is_distributive_add(a, l, x * p);
        mul::lemma_mul_is_distributive_add(b, r, y * p);
        mul::lemma_mul_is_associative(a, x, p);
        mul::lemma_mul_is_associative(b, y, p);
        mul::lemma_mul_is_distributive_add_other_way(p, a * x, b * y);
        assert(whole(c) == a * x + b * y);
    }
}

/// The weights of a change.
spec fn change_weight(linear: bool, r: int) -> spec_fn(int) -> int {
    |c: int| branches::change_entry(linear, r, c)
}

/// A change is a first difference of neighbouring violations; one of the slope, a
/// second difference.
proof fn weighted_by_change(path: Seq<int>, num_pre: int, linear: bool, r: int)
    requires
        0 <= num_pre <= path.len(),
        0 <= r,
        linear ==> r + 2 <= path.len(),
        !linear ==> r + 1 <= path.len(),
    ensures
        weighted(change_weight(linear, r), path, num_pre, path.len() as int) == (if linear {
            bend(path, num_pre, r)
        } else {
            change(path, num_pre, r)
        }),
{
    let n = path.len() as int;
    weighted_by_unit(path, num_pre, n, r);
    weighted_by_unit(path, num_pre, n, r + 1);
    if linear {
        weighted_by_unit(path, num_pre, n, r + 2);
        let ends = |c: int| 1int * unit(r)(c) + 1int * unit(r + 2)(c);
        weighted_combines(unit(r), unit(r + 2), 1int, 1int, ends, path, num_pre, n);
        assert forall|c: int| #[trigger] change_weight(true, r)(c) == 1int * ends(c) + (-2int)
            * unit(r + 1)(c) by {}
        weighted_combines(
            ends,
            unit(r + 1),
            1int,
            -2int,
            change_weight(true, r),
            path,
            num_pre,
            n,
        );
    } else {
        assert forall|c: int| #[trigger] change_weight(false, r)(c) == 1int * unit(r + 1)(c) + (
        -1int) * unit(r)(c) by {}
        weighted_combines(
            unit(r + 1),
            unit(r),
            1int,
            -1int,
            change_weight(false, r),
            path,
            num_pre,
            n,
        );
    }
}

/// A row whose entries are weights of periods is their sum over the path.
proof fn row_is_weighted(
    row: Seq<Coefficient>,
    weight: spec_fn(int) -> int,
    path: Seq<int>,
    num_pre: int,
    bound: int,
    end: int,
)
    requires
        end <= path.len(),
        end <= row.len(),
        forall|j: int|
            0 <= j < row.len() ==> number_of(#[trigger] row[j], bound) == weight(
                constraints::full_column(j, num_pre),
            ),
    ensures
        row_sum(row, path, bound, end) == weighted(weight, path, num_pre, end),
    decreases end,
{
    if end > 0 {
        row_is_weighted(row, weight, path, num_pre, bound, end - 1);
        assert(number_of(row[end - 1], bound) == weight(
            constraints::full_column(end - 1, num_pre),
        ));
    }
}

// ---------------------------------------------------------------------------
// Relative magnitudes
// ---------------------------------------------------------------------------

/// Whether a path lies in a branch of the bound on deviations from parallel
/// trends: no change up to the reference period exceeds in magnitude the change
/// that the branch takes for the largest, which ends `-s` periods before the
/// reference period and has the branch's sign, and no change behind it exceeds
/// `bound` times that change.
pub open spec fn in_branch(
    path: Seq<int>,
    num_pre: int,
    s: int,
    max_positive: bool,
    bound: int,
) -> bool {
    let largest = signed(change(path, num_pre, num_pre + s - 1), max_positive);
    &&& forall|t: int|
        0 <= t < num_pre ==> magnitude(#[trigger] change(path, num_pre, t)) <= largest
    &&& forall|t: int|
        num_pre <= t < path.len() ==> magnitude(#[trigger] change(path, num_pre, t)) <= bound
            * largest
}

/// The same for the bound on deviations from a linear trend, by changes of the
/// slope. The last of those before treatment is the one at the last pre period.
pub open spec fn in_linear_branch(
    path: Seq<int>,
    num_pre: int,
    s: int,
    max_positive: bool,
    bound: int,
) -> bool {
    let largest = signed(bend(path, num_pre, num_pre + s - 2), max_positive);
    &&& forall|t: int|
        0 <= t < num_pre - 1 ==> magnitude(#[trigger] bend(path, num_pre, t)) <= largest
    &&& forall|t: int|
        0 <= t && num_pre - 1 <= t < path.len() - 1 ==> magnitude(
            #[trigger] bend(path, num_pre, t),
        ) <= bound * largest
}

/// A change along a path: of the violation, or of its slope.
spec fn moved(path: Seq<int>, num_pre: int, linear: bool, t: int) -> int {
    if linear {
        bend(path, num_pre, t)
    } else {
        change(path, num_pre, t)
    }
}

/// The number of periods between the last change before treatment and the end of
/// the pre periods.
spec fn lag(linear: bool) -> int {
    if linear {
        1
    } else {
        0
    }
}

/// What the row `q` of a branch says of a path: a change, or its negative, less
/// the largest change or `bound` times it.
spec fn row_claim(
    path: Seq<int>,
    num_pre: int,
    linear: bool,
    s: int,
    max_positive: bool,
    bound: int,
    q: int,
) -> int {
    let largest = signed(
        moved(path, num_pre, linear, num_pre - lag(linear) + s - 1),
        max_positive,
    );
    signed(moved(path, num_pre, linear, q / 2), q % 2 == 0) - if q / 2 < num_pre - lag(linear) {
        largest
    } else {
        bound * largest
    }
}

proof fn branch_row_on_path(
    row: Seq<Coefficient>,
    path: Seq<int>,
    num_pre: int,
    linear: bool,
    s: int,
    max_positive: bool,
    bound: int,
    q: int,
)
    requires
        0 <= num_pre <= path.len(),
        row.len() == path.len(),
        s <= path.len() - num_pre,
        0 <= num_pre - lag(linear) + s - 1,
        0 <= q < 2 * (path.len() - lag(linear)),
        forall|j: int|
            0 <= j < row.len() ==> #[trigger] row[j] == branches::branch_row_entry(
                linear,
                num_pre,
                s,
                max_positive,
                q,
                constraints::full_column(j, num_pre),
            ),
    ensures
        row_value(row, path, bound) == row_claim(
            path,
            num_pre,
            linear,
            s,
            max_positive,
            bound,
            q,
        ),
{
    let n = path.len() as int;
    let r = q / 2;
    let top = num_pre - lag(linear) + s - 1;
    let up: int = if q % 2 == 0 {
        1
    } else {
        -1
    };
    let sign: int = if max_positive {
        1
    } else {
        -1
    };
    let factor: int = if r < num_pre - lag(linear) {
        1
    } else {
        bound
    };
    weighted_by_change(path, num_pre, linear, r);
    weighted_by_change(path, num_pre, linear, top);
    let own = change_weight(linear, r);
    let other = change_weight(linear, top);
    let whole = |c: int| up * own(c) + (-(factor * sign)) * other(c);
    weighted_combines(own, other, up, -(factor * sign), whole, path, num_pre, n);
    assert forall|j: int| 0 <= j < row.len() implies number_of(#[trigger] row[j], bound) == whole(
        constraints::full_column(j, num_pre),
    ) by {
        let c = constraints::full_column(j, num_pre);
        let x = branches::change_entry(linear, top, c);
        assert(row[j] == branches::branch_row_entry(linear, num_pre, s, max_positive, q, c));
        mul::lemma_mul_is_commutative(bound, sign);
        assert((-(1 * sign)) * x == -(sign * x)) by (nonlinear_arith);
        assert((-(sign * bound)) * x == (-(sign * x)) * bound) by (nonlinear_arith);
        assert(-2 <= x <= 1);
        assert(sign * x == signed(x, max_positive));
        assert(0 * bound == 0);
    }
    row_is_weighted(row, whole, path, num_pre, bound, n);
    let m = moved(path, num_pre, linear, top);
    assert((-(factor * sign)) * m == -(factor * (sign * m))) by (nonlinear_arith);
    assert(sign * m == signed(m, max_positive));
    assert(1 * (sign * m) == sign * m);
}

/// The row that stands at `i` among those of a branch that are kept.
spec fn kept_row(num_pre: int, linear: bool, s: int, max_positive: bool, i: int) -> int {
    let empty = 2 * (num_pre - lag(linear) + s - 1) + if max_positive {
        0int
    } else {
        1int
    };
    if s > 0 || i < empty {
        i
    } else {
        i + 1
    }
}

proof fn branch_rows_on_path(
    rows: Seq<Vec<Coefficient>>,
    path: Seq<int>,
    num_pre: int,
    num_post: int,
    linear: bool,
    s: int,
    max_positive: bool,
    bound: int,
)
    requires
        branches::is_branch_matrix(rows, linear, num_pre, num_post, s, max_positive),
        0 <= num_pre,
        0 <= num_post,
        path.len() == num_pre + num_post,
        s <= num_post,
        0 <= num_pre - lag(linear) + s - 1,
    ensures
        all_at_most(rows, path, bound, 0) <==> forall|q: int|
            0 <= q < 2 * (path.len() - lag(linear)) ==> #[trigger] row_claim(
                path,
                num_pre,
                linear,
                s,
                max_positive,
                bound,
                q,
            ) <= 0,
{
    assert forall|i: int| 0 <= i < rows.len() implies #[trigger] row_value(rows[i]@, path, bound)
        == row_claim(
        path,
        num_pre,
        linear,
        s,
        max_positive,
        bound,
        kept_row(num_pre, linear, s, max_positive, i),
    ) by {
        let q = kept_row(num_pre, linear, s, max_positive, i);
        assert(rows[i]@.len() == path.len());
        assert forall|j: int| 0 <= j < rows[i]@.len() implies #[trigger] rows[i]@[j]
            == branches::branch_row_entry(
            linear,
            num_pre,
            s,
            max_positive,
            q,
            constraints::full_column(j, num_pre),
        ) by {}
        branch_row_on_path(rows[i]@, path, num_pre, linear, s, max_positive, bound, q);
    }
    let claims = forall|q: int|
        0 <= q < 2 * (path.len() - lag(linear)) ==> #[trigger] row_claim(
            path,
            num_pre,
            linear,
            s,
            max_positive,
            bound,
            q,
        ) <= 0;
    if all_at_most(rows, path, bound, 0) {
        assert forall|q: int| 0 <= q < 2 * (path.len() - lag(linear)) implies #[trigger] row_claim(
            path,
            num_pre,
            linear,
            s,
            max_positive,
            bound,
            q,
        ) <= 0 by {
            let empty = 2 * (num_pre - lag(linear) + s - 1) + if max_positive {
                0int
            } else {
                1int
            };
            if s <= 0 && q == empty {
                assert(q / 2 == num_pre - lag(linear) + s - 1);
            } else {
                let i = if s > 0 || q < empty {
                    q
                } else {
                    q - 1
                };
                assert(kept_row(num_pre, linear, s, max_positive, i) == q);
                assert(row_value(rows[i]@, path, bound) <= 0);
            }
        }
        assert(claims);
    }
    if claims {
        assert forall|i: int| 0 <= i < rows.len() implies #[trigger] row_value(
            rows[i]@,
            path,
            bound,
        ) <= 0 by {
            let q = kept_row(num_pre, linear, s, max_positive, i);
            assert(row_claim(path, num_pre, linear, s, max_positive, bound, q) <= 0);
        }
    }
}

/// Two rows, one for each sign, bound a magnitude.
proof fn claims_are_magnitudes(
    path: Seq<int>,
    num_pre: int,
    linear: bool,
    s: int,
    max_positive: bool,
    bound: int,
    count: int,
)
    requires
        0 <= count,
    ensures
        (forall|q: int|
            0 <= q < 2 * count ==> #[trigger] row_claim(
                path,
                num_pre,
                linear,
                s,
                max_positive,
                bound,
                q,
            ) <= 0) <==> (forall|t: int|
            0 <= t < count ==> magnitude(#[trigger] moved(path, num_pre, linear, t)) <= (if t
                < num_pre - lag(linear) {
                signed(
                    moved(path, num_pre, linear, num_pre - lag(linear) + s - 1),
                    max_positive,
                )
            } else {
                bound * signed(
                    moved(path, num_pre, linear, num_pre - lag(linear) + s - 1),
                    max_positive,
                )
            })),
{
    let largest = signed(
        moved(path, num_pre, linear, num_pre - lag(linear) + s - 1),
        max_positive,
    );
    let claims = forall|q: int|
        0 <= q < 2 * count ==> #[trigger] row_claim(
            path,
            num_pre,
            linear,
            s,
            max_positive,
            bound,
            q,
        ) <= 0;
    let bounds = forall|t: int|
        0 <= t < count ==> magnitude(#[trigger] moved(path, num_pre, linear, t)) <= (if t
            < num_pre - lag(linear) {
            largest
        } else {
            bound * largest
        });
    if claims {
        assert forall|t: int| 0 <= t < count implies magnitude(
            #[trigger] moved(path, num_pre, linear, t),
        ) <= (if t < num_pre - lag(linear) {
            largest
        } else {
            bound * largest
        }) by {
            assert((2 * t) / 2 == t && (2 * t) % 2 == 0);
            assert((2 * t + 1) / 2 == t && (2 * t + 1) % 2 == 1);
            assert(row_claim(path, num_pre, linear, s, max_positive, bound, 2 * t) <= 0);
            assert(row_claim(path, num_pre, linear, s, max_positive, bound, 2 * t + 1) <= 0);
        }
        assert(bounds);
    }
    if bounds {
        assert forall|q: int| 0 <= q < 2 * count implies #[trigger] row_claim(
            path,
            num_pre,
            linear,
            s,
            max_positive,
            bound,
            q,
        ) <= 0 by {
            assert(magnitude(moved(path, num_pre, linear, q / 2)) <= (if q / 2 < num_pre - lag(
                linear,
            ) {
                largest
            } else {
                bound * largest
            }));
        }
        assert(claims);
    }
}

/// The rows of a branch hold on a path exactly where the path lies in the branch:
/// each pre-period change is at most the branch's signed change in magnitude, and
/// each post-period change at most `bound` times it.
pub proof fn branch_rows_bound_the_changes(
    rows: Seq<Vec<Coefficient>>,
    path: Seq<int>,
    num_pre: int,
    num_post: int,
    s: int,
    max_positive: bool,
    bound: int,
)
    requires
        branches::is_branch_matrix(rows, false, num_pre, num_post, s, max_positive),
        0 <= num_pre,
        0 <= num_post,
        path.len() == num_pre + num_post,
        1 - num_pre <= s <= num_post,
    ensures
        all_at_most(rows, path, bound, 0) <==> in_branch(path, num_pre, s, max_positive, bound),
{
    branch_rows_on_path(rows, path, num_pre, num_post, false, s, max_positive, bound);
    claims_are_magnitudes(path, num_pre, false, s, max_positive, bound, path.len() as int);
    assert forall|t: int| moved(path, num_pre, false, t) == #[trigger] change(path, num_pre, t) by {}
    assert forall|t: int| #[trigger] moved(path, num_pre, false, t) == change(path, num_pre, t) by {}
}

/// The rows of a branch of the bound on deviations from a linear trend hold on a
/// path exactly where the path lies in the branch: each change of the slope
/// before treatment is at most the branch's signed one in magnitude, and each
/// later one at most `bound` times it.
pub proof fn linear_branch_rows_bound_the_bends(
    rows: Seq<Vec<Coefficient>>,
    path: Seq<int>,
    num_pre: int,
    num_post: int,
    s: int,
    max_positive: bool,
    bound: int,
)
    requires
        branches::is_branch_matrix(rows, true, num_pre, num_post, s, max_positive),
        0 <= num_pre,
        0 <= num_post,
        path.len() == num_pre + num_post,
        2 - num_pre <= s <= num_post,
    ensures
        all_at_most(rows, path, bound, 0) <==> in_linear_branch(
            path,
            num_pre,
            s,
            max_positive,
            bound,
        ),
{
    branch_rows_on_path(rows, path, num_pre, num_post, true, s, max_positive, bound);
    claims_are_magnitudes(path, num_pre, true, s, max_positive, bound, path.len() - 1);
    let largest = signed(bend(path, num_pre, num_pre + s - 2), max_positive);
    assert(moved(path, num_pre, true, num_pre - 1 + s - 1) == bend(path, num_pre, num_pre + s - 2));
    if all_at_most(rows, path, bound, 0) {
        assert forall|t: int| 0 <= t < num_pre - 1 implies magnitude(
            #[trigger] bend(path, num_pre, t),
        ) <= largest by {
            assert(moved(path, num_pre, true, t) == bend(path, num_pre, t));
        }
        assert forall|t: int| 0 <= t && num_pre - 1 <= t < path.len() - 1 implies magnitude(
            #[trigger] bend(path, num_pre, t),
        ) <= bound * largest by {
            assert(moved(path, num_pre, true, t) == bend(path, num_pre, t));
        }
    }
    if in_linear_branch(path, num_pre, s, max_positive, bound) {
        assert forall|t: int| 0 <= t < path.len() - 1 implies magnitude(
            #[trigger] moved(path, num_pre, true, t),
        ) <= (if t < num_pre - 1 {
            largest
        } else {
            bound * largest
        }) by {
            assert(moved(path, num_pre, true, t) == bend(path, num_pre, t));
        }
    }
}

/// Whether a path obeys the bound on deviations from parallel trends: every
/// change behind the reference period is at most `bound` times some change up to
/// it, in magnitude.
pub open spec fn relatively_bounded(path: Seq<int>, num_pre: int, bound: int) -> bool {
    forall|t: int|
        num_pre <= t < path.len() ==> exists|u: int|
            0 <= u < num_pre && magnitude(#[trigger] change(path, num_pre, t)) <= bound * magnitude(
                #[trigger] change(path, num_pre, u),
            )
}

/// Whether a path obeys the bound on deviations from a linear trend: every
/// change of its slope behind the last pre period is at most `bound` times some
/// earlier one, in magnitude.
pub open spec fn relatively_straight(path: Seq<int>, num_pre: int, bound: int) -> bool {
    forall|t: int|
        num_pre - 1 <= t < path.len() - 1 ==> exists|u: int|
            0 <= u < num_pre - 1 && magnitude(#[trigger] bend(path, num_pre, t)) <= bound
                * magnitude(#[trigger] bend(path, num_pre, u))
}

/// Among the first changes of a path there is a largest one.
proof fn a_largest_change(path: Seq<int>, num_pre: int, linear: bool, count: int) -> (at: int)
    requires
        1 <= count,
    ensures
        0 <= at < count,
        forall|t: int|
            0 <= t < count ==> magnitude(#[trigger] moved(path, num_pre, linear, t)) <= magnitude(
                moved(path, num_pre, linear, at),
            ),
    decreases count,
{
    if count == 1 {
        0
    } else {
        let before = a_largest_change(path, num_pre, linear, count - 1);
        if magnitude(moved(path, num_pre, linear, before)) <= magnitude(
            moved(path, num_pre, linear, count - 1),
        ) {
            count - 1
        } else {
            before
        }
    }
}

/// Whether a path lies in some branch of a family's relative-magnitude bound.
pub open spec fn in_some_branch(
    path: Seq<int>,
    num_pre: int,
    family: RelativeMagnitudeFamily,
    bound: int,
) -> bool {
    exists|k: int|
        0 <= k < family.branches_spec(num_pre).len() && in_listed_branch(
            path,
            num_pre,
            family,
            #[trigger] family.branches_spec(num_pre)[k],
            bound,
        )
}

/// Whether a path lies in a branch of a family's relative-magnitude bound.
pub open spec fn in_listed_branch(
    path: Seq<int>,
    num_pre: int,
    family: RelativeMagnitudeFamily,
    branch: RelativeMagnitudeBranch,
    bound: int,
) -> bool {
    match family {
        RelativeMagnitudeFamily::Base => in_branch(
            path,
            num_pre,
            branch.s as int,
            branch.max_positive,
            bound,
        ),
        RelativeMagnitudeFamily::SignedBase(_) => in_branch(
            path,
            num_pre,
            branch.s as int,
            branch.max_positive,
            bound,
        ),
        RelativeMagnitudeFamily::MonotoneBase(_) => in_branch(
            path,
            num_pre,
            branch.s as int,
            branch.max_positive,
            bound,
        ),
        _ => in_linear_branch(path, num_pre, branch.s as int, branch.max_positive, bound),
    }
}

/// The branches of a bound on deviations from parallel trends together are that
/// bound: a path lies in one of them exactly where every post-period change is
/// at most `bound` times some pre-period change.
pub proof fn branches_are_the_bound_on_changes(
    path: Seq<int>,
    num_pre: int,
    family: RelativeMagnitudeFamily,
    bound: int,
)
    requires
        family is Base || family is SignedBase || family is MonotoneBase,
        1 <= num_pre < i64::MAX,
        num_pre <= path.len(),
        0 <= bound,
    ensures
        in_some_branch(path, num_pre, family, bound) <==> relatively_bounded(path, num_pre, bound),
{
    let listed = family.branches_spec(num_pre);
    if in_some_branch(path, num_pre, family, bound) {
        let k = choose|k: int|
            0 <= k < listed.len() && in_listed_branch(
                path,
                num_pre,
                family,
                #[trigger] listed[k],
                bound,
            );
        let branch = listed[k];
        let u = num_pre + branch.s - 1;
        assert(branch.s == 1 - num_pre + k / 2);
        let largest = signed(change(path, num_pre, u), branch.max_positive);
        assert forall|t: int| num_pre <= t < path.len() implies exists|u: int|
            0 <= u < num_pre && magnitude(#[trigger] change(path, num_pre, t)) <= bound * magnitude(
                #[trigger] change(path, num_pre, u),
            ) by {
            assert(magnitude(change(path, num_pre, u)) <= largest);
            assert(largest <= magnitude(change(path, num_pre, u)));
        }
    }
    if relatively_bounded(path, num_pre, bound) {
        let u = a_largest_change(path, num_pre, false, num_pre);
        let up = change(path, num_pre, u) >= 0;
        let k = 2 * u + if up {
            0int
        } else {
            1int
        };
        let branch = listed[k];
        assert(k / 2 == u);
        assert(branch.s == 1 - num_pre + u);
        assert(branch.max_positive == up);
        let largest = signed(change(path, num_pre, u), up);
        assert(moved(path, num_pre, false, u) == change(path, num_pre, u));
        assert(num_pre + branch.s - 1 == u);
        assert forall|t: int| 0 <= t < num_pre implies magnitude(
            #[trigger] change(path, num_pre, t),
        ) <= largest by {
            assert(moved(path, num_pre, false, t) == change(path, num_pre, t));
        }
        assert forall|t: int| num_pre <= t < path.len() implies magnitude(
            #[trigger] change(path, num_pre, t),
        ) <= bound * largest by {
            let v = choose|v: int|
                0 <= v < num_pre && magnitude(#[trigger] change(path, num_pre, t)) <= bound
                    * magnitude(#[trigger] change(path, num_pre, v));
            assert(moved(path, num_pre, false, v) == change(path, num_pre, v));
            mul::lemma_mul_inequality(magnitude(change(path, num_pre, v)), largest, bound);
            mul::lemma_mul_is_commutative(magnitude(change(path, num_pre, v)), bound);
            mul::lemma_mul_is_commutative(largest, bound);
        }
        assert(in_listed_branch(path, num_pre, family, listed[k], bound));
    }
}

/// The branches of a bound on deviations from a linear trend together are that
/// bound: a path lies in one of them exactly where every later change of its
/// slope is at most `bound` times some earlier one.
pub proof fn branches_are_the_bound_on_bends(
    path: Seq<int>,
    num_pre: int,
    family: RelativeMagnitudeFamily,
    bound: int,
)
    requires
        family is Linear || family is SignedLinear || family is MonotoneLinear,
        2 <= num_pre < i64::MAX,
        num_pre <= path.len(),
        0 <= bound,
    ensures
        in_some_branch(path, num_pre, family, bound) <==> relatively_straight(path, num_pre, bound),
{
    let listed = family.branches_spec(num_pre);
    if in_some_branch(path, num_pre, family, bound) {
        let k = choose|k: int|
            0 <= k < listed.len() && in_listed_branch(
                path,
                num_pre,
                family,
                #[trigger] listed[k],
                bound,
            );
        let branch = listed[k];
        let u = num_pre + branch.s - 2;
        assert(branch.s == 2 - num_pre + k / 2);
        let largest = signed(bend(path, num_pre, u), branch.max_positive);
        assert forall|t: int| num_pre - 1 <= t < path.len() - 1 implies exists|u: int|
            0 <= u < num_pre - 1 && magnitude(#[trigger] bend(path, num_pre, t)) <= bound
                * magnitude(#[trigger] bend(path, num_pre, u)) by {
            assert(magnitude(bend(path, num_pre, u)) <= largest);
            assert(largest <= magnitude(bend(path, num_pre, u)));
        }
    }
    if relatively_straight(path, num_pre, bound) {
        let u = a_largest_change(path, num_pre, true, num_pre - 1);
        let up = bend(path, num_pre, u) >= 0;
        let k = 2 * u + if up {
            0int
        } else {
            1int
        };
        let branch = listed[k];
        assert(k / 2 == u);
        assert(branch.s == 2 - num_pre + u);
        assert(branch.max_positive == up);
        let largest = signed(bend(path, num_pre, u), up);
        assert(moved(path, num_pre, true, u) == bend(path, num_pre, u));
        assert(num_pre + branch.s - 2 == u);
        assert forall|t: int| 0 <= t < num_pre - 1 implies magnitude(
            #[trigger] bend(path, num_pre, t),
        ) <= largest by {
            assert(moved(path, num_pre, true, t) == bend(path, num_pre, t));
        }
        assert forall|t: int| 0 <= t && num_pre - 1 <= t < path.len() - 1 implies magnitude(
            #[trigger] bend(path, num_pre, t),
        ) <= bound * largest by {
            let v = choose|v: int|
                0 <= v < num_pre - 1 && magnitude(#[trigger] bend(path, num_pre, t)) <= bound
                    * magnitude(#[trigger] bend(path, num_pre, v));
            assert(moved(path, num_pre, true, v) == bend(path, num_pre, v));
            mul::lemma_mul_inequality(magnitude(bend(path, num_pre, v)), largest, bound);
            mul::lemma_mul_is_commutative(magnitude(bend(path, num_pre, v)), bound);
            mul::lemma_mul_is_commutative(largest, bound);
        }
        assert(in_listed_branch(path, num_pre, family, listed[k], bound));
    }
}

// ---------------------------------------------------------------------------
// Signs, directions and smoothness
// ---------------------------------------------------------------------------

/// Whether every post-period violation has a sign.
pub open spec fn has_sign(path: Seq<int>, num_pre: int, direction: HonestBiasDirection) -> bool {
    forall|t: int|
        num_pre < t <= path.len() ==> match direction {
            HonestBiasDirection::Positive => #[trigger] violation(path, num_pre, t) >= 0,
            HonestBiasDirection::Negative => violation(path, num_pre, t) <= 0,
        }
}

/// Whether the violations from the period at `first` on move in one direction.
pub open spec fn moves_one_way(
    path: Seq<int>,
    num_pre: int,
    direction: HonestMonotonicityDirection,
    first: int,
) -> bool {
    forall|t: int|
        first <= t < path.len() ==> match direction {
            HonestMonotonicityDirection::Increasing => #[trigger] violation(path, num_pre, t)
                <= violation(path, num_pre, t + 1),
            HonestMonotonicityDirection::Decreasing => violation(path, num_pre, t) >= violation(
                path,
                num_pre,
                t + 1,
            ),
        }
}

/// Whether the slope of the violation changes by at most `bound`, from the
/// change at the period behind `first` on.
pub open spec fn bends_at_most(path: Seq<int>, num_pre: int, first: int, bound: int) -> bool {
    forall|t: int|
        first <= t < path.len() - 1 ==> magnitude(#[trigger] bend(path, num_pre, t)) <= bound
}

/// The rows of a sign restriction hold on a path exactly where every post-period
/// violation has the sign.
pub proof fn sign_rows_fix_the_sign(
    rows: Seq<Vec<Coefficient>>,
    path: Seq<int>,
    num_pre: int,
    num_post: int,
    direction: HonestBiasDirection,
    bound: int,
)
    requires
        0 <= num_pre,
        0 <= num_post,
        path.len() == num_pre + num_post,
        rows.len() == num_post,
        matrix::has_cols(rows, num_pre + num_post),
        forall|i: int, j: int|
            0 <= i < rows.len() && 0 <= j < num_pre + num_post ==> #[trigger] rows[i]@[j]
                == constraints::bias_sign_entry(num_pre, direction, i, j),
    ensures
        all_at_most(rows, path, bound, 0) <==> has_sign(path, num_pre, direction),
{
    let sign: int = match direction {
        HonestBiasDirection::Positive => -1,
        HonestBiasDirection::Negative => 1,
    };
    assert forall|i: int| 0 <= i < rows.len() implies #[trigger] row_value(rows[i]@, path, bound)
        == sign * violation(path, num_pre, num_pre + i + 1) by {
        let at = num_pre + i + 1;
        let n = path.len() as int;
        let whole = |c: int| sign * unit(at)(c) + 0 * unit(at)(c);
        weighted_by_unit(path, num_pre, n, at);
        weighted_combines(unit(at), unit(at), sign, 0, whole, path, num_pre, n);
        assert(rows[i]@.len() == n);
        assert forall|j: int| 0 <= j < rows[i]@.len() implies number_of(
            #[trigger] rows[i]@[j],
            bound,
        ) == whole(constraints::full_column(j, num_pre)) by {
            assert(0 * bound == 0);
        }
        row_is_weighted(rows[i]@, whole, path, num_pre, bound, n);
    }
    if all_at_most(rows, path, bound, 0) {
        assert forall|t: int| num_pre < t <= path.len() implies match direction {
            HonestBiasDirection::Positive => #[trigger] violation(path, num_pre, t) >= 0,
            HonestBiasDirection::Negative => violation(path, num_pre, t) <= 0,
        } by {
            let i = t - num_pre - 1;
            assert(row_value(rows[i]@, path, bound) <= 0);
        }
    }
    if has_sign(path, num_pre, direction) {
        assert forall|i: int| 0 <= i < rows.len() implies #[trigger] row_value(
            rows[i]@,
            path,
            bound,
        ) <= 0 by {
            let v = violation(path, num_pre, num_pre + i + 1);
        }
    }
}

/// The rows of a monotonicity restriction hold on a path exactly where its
/// violations move in the direction: over all periods, or from the reference
/// period on.
pub proof fn monotone_rows_fix_the_direction(
    rows: Seq<Vec<Coefficient>>,
    path: Seq<int>,
    num_pre: int,
    num_post: int,
    direction: HonestMonotonicityDirection,
    post_period_moments_only: bool,
    bound: int,
)
    requires
        0 <= num_pre,
        0 <= num_post,
        path.len() == num_pre + num_post,
        rows.len() == (if post_period_moments_only {
            num_post
        } else {
            num_pre + num_post
        }),
        matrix::has_cols(rows, num_pre + num_post),
        forall|i: int, j: int|
            0 <= i < rows.len() && 0 <= j < num_pre + num_post ==> #[trigger] rows[i]@[j]
                == constraints::monotonicity_entry(
                num_pre,
                direction,
                post_period_moments_only,
                i,
                j,
            ),
    ensures
        all_at_most(rows, path, bound, 0) <==> moves_one_way(
            path,
            num_pre,
            direction,
            if post_period_moments_only {
                num_pre
            } else {
                0
            },
        ),
{
    let first: int = if post_period_moments_only {
        num_pre
    } else {
        0
    };
    let sign: int = match direction {
        HonestMonotonicityDirection::Increasing => -1,
        HonestMonotonicityDirection::Decreasing => 1,
    };
    assert forall|i: int| 0 <= i < rows.len() implies #[trigger] row_value(rows[i]@, path, bound)
        == sign * change(path, num_pre, first + i) by {
        let r = first + i;
        let n = path.len() as int;
        let own = change_weight(false, r);
        let whole = |c: int| sign * own(c) + 0 * own(c);
        weighted_by_change(path, num_pre, false, r);
        weighted_combines(own, own, sign, 0, whole, path, num_pre, n);
        assert(rows[i]@.len() == n);
        assert forall|j: int| 0 <= j < rows[i]@.len() implies number_of(
            #[trigger] rows[i]@[j],
            bound,
        ) == whole(constraints::full_column(j, num_pre)) by {
            assert(0 * bound == 0);
        }
        row_is_weighted(rows[i]@, whole, path, num_pre, bound, n);
    }
    if all_at_most(rows, path, bound, 0) {
        assert forall|t: int| first <= t < path.len() implies match direction {
            HonestMonotonicityDirection::Increasing => #[trigger] violation(path, num_pre, t)
                <= violation(path, num_pre, t + 1),
            HonestMonotonicityDirection::Decreasing => violation(path, num_pre, t) >= violation(
                path,
                num_pre,
                t + 1,
            ),
        } by {
            assert(row_value(rows[t - first]@, path, bound) <= 0);
        }
    }
    if moves_one_way(path, num_pre, direction, first) {
        assert forall|i: int| 0 <= i < rows.len() implies #[trigger] row_value(
            rows[i]@,
            path,
            bound,
        ) <= 0 by {
            let v = violation(path, num_pre, first + i);
        }
    }
}

/// The smoothness rows are at most a limit on a path exactly where the slope of
/// its violations changes by at most that: at all periods, or at those from the
/// last pre period on.
pub proof fn smoothness_rows_bound_the_bends(
    rows: Seq<Vec<Coefficient>>,
    path: Seq<int>,
    num_pre: int,
    num_post: int,
    post_period_moments_only: bool,
    bound: int,
    limit: int,
)
    requires
        0 <= num_pre,
        0 <= num_post,
        1 <= num_pre + num_post,
        path.len() == num_pre + num_post,
        rows.len() == 2 * constraints::smoothness_row_count(
            num_pre,
            num_post,
            post_period_moments_only,
        ),
        matrix::has_cols(rows, num_pre + num_post),
        forall|i: int, j: int|
            0 <= i < rows.len() && 0 <= j < num_pre + num_post ==> #[trigger] rows[i]@[j]
                == constraints::smoothness_entry(
                num_pre,
                num_post,
                post_period_moments_only,
                i,
                j,
            ),
    ensures
        all_at_most(rows, path, bound, limit) <==> bends_at_most(
            path,
            num_pre,
            if post_period_moments_only && num_pre > 0 {
                num_pre - 1
            } else {
                0
            },
            limit,
        ),
{
    let first: int = if post_period_moments_only && num_pre > 0 {
        num_pre - 1
    } else {
        0
    };
    let n = path.len() as int;
    let count = n - 1 - first;
    assert forall|i: int| 0 <= i < rows.len() implies #[trigger] row_value(rows[i]@, path, bound)
        == (if i < count {
        bend(path, num_pre, first + i)
    } else {
        -bend(path, num_pre, first + i - count)
    }) by {
        let r = if i < count {
            first + i
        } else {
            first + i - count
        };
        let sign: int = if i < count {
            1
        } else {
            -1
        };
        let own = change_weight(true, r);
        let whole = |c: int| sign * own(c) + 0 * own(c);
        weighted_by_change(path, num_pre, true, r);
        weighted_combines(own, own, sign, 0, whole, path, num_pre, n);
        assert(rows[i]@.len() == n);
        assert forall|j: int| 0 <= j < rows[i]@.len() implies number_of(
            #[trigger] rows[i]@[j],
            bound,
        ) == whole(constraints::full_column(j, num_pre)) by {
            assert(0 * bound == 0);
        }
        row_is_weighted(rows[i]@, whole, path, num_pre, bound, n);
    }
    if all_at_most(rows, path, bound, limit) {
        assert forall|t: int| first <= t < n - 1 implies magnitude(
            #[trigger] bend(path, num_pre, t),
        ) <= limit by {
            assert(row_value(rows[t - first]@, path, bound) <= limit);
            assert(row_value(rows[t - first + count]@, path, bound) <= limit);
        }
    }
    if bends_at_most(path, num_pre, first, limit) {
        assert forall|i: int| 0 <= i < rows.len() implies #[trigger] row_value(
            rows[i]@,
            path,
            bound,
        ) <= limit by {
            let r = if i < count {
                first + i
            } else {
                first + i - count
            };
            assert(magnitude(bend(path, num_pre, r)) <= limit);
        }
    }
}

/// Whether a path obeys what a family adds to its relative-magnitude bound.
pub open spec fn obeys_addition(
    path: Seq<int>,
    num_pre: int,
    family: RelativeMagnitudeFamily,
) -> bool {
    match family {
        RelativeMagnitudeFamily::Base => true,
        RelativeMagnitudeFamily::Linear => true,
        RelativeMagnitudeFamily::SignedBase(direction) => has_sign(path, num_pre, direction),
        RelativeMagnitudeFamily::SignedLinear(direction) => has_sign(path, num_pre, direction),
        RelativeMagnitudeFamily::MonotoneBase(direction) => moves_one_way(
            path,
            num_pre,
            direction,
            0,
        ),
        RelativeMagnitudeFamily::MonotoneLinear(direction) => moves_one_way(
            path,
            num_pre,
            direction,
            0,
        ),
    }
}

/// The rows of a branch of a family hold on a path exactly where the path lies in
/// the branch and obeys what the family adds.
pub proof fn family_rows_hold_in_the_branch(
    rows: Seq<Vec<Coefficient>>,
    path: Seq<int>,
    num_pre: int,
    num_post: int,
    family: RelativeMagnitudeFamily,
    branch: RelativeMagnitudeBranch,
    bound: int,
)
    requires
        branches::is_family_matrix(
            rows,
            family,
            num_pre,
            num_post,
            branch.s as int,
            branch.max_positive,
        ),
        0 <= num_pre,
        0 <= num_post,
        path.len() == num_pre + num_post,
        branch.s <= 0,
        family is Base || family is SignedBase || family is MonotoneBase ==> 1 - num_pre <= branch.s,
        family is Linear || family is SignedLinear || family is MonotoneLinear ==> 2 - num_pre
            <= branch.s,
    ensures
        all_at_most(rows, path, bound, 0) <==> in_listed_branch(
            path,
            num_pre,
            family,
            branch,
            bound,
        ) && obeys_addition(path, num_pre, family),
{
    let linear = family.linear();
    let base = 2 * branches::change_count(linear, num_pre, num_post) - 1;
    let own = rows.take(base);
    let more = rows.skip(base);
    if linear {
        linear_branch_rows_bound_the_bends(
            own,
            path,
            num_pre,
            num_post,
            branch.s as int,
            branch.max_positive,
            bound,
        );
    } else {
        branch_rows_bound_the_changes(
            own,
            path,
            num_pre,
            num_post,
            branch.s as int,
            branch.max_positive,
            bound,
        );
    }
    assert(matrix::has_cols(more, num_pre + num_post)) by {
        assert forall|i: int| 0 <= i < more.len() implies (#[trigger] more[i])@.len() == num_pre
            + num_post by {
            assert(rows[base + i]@.len() == num_pre + num_post);
        }
    }
    assert forall|i: int, j: int|
        0 <= i < more.len() && 0 <= j < num_pre + num_post implies #[trigger] more[i]@[j]
        == branches::added_entry(family, num_pre, i, j) by {
        assert(rows[base + i]@[j] == branches::added_entry(family, num_pre, base + i - base, j));
    }
    match family {
        RelativeMagnitudeFamily::SignedBase(direction) => {
            sign_rows_fix_the_sign(more, path, num_pre, num_post, direction, bound);
        },
        RelativeMagnitudeFamily::SignedLinear(direction) => {
            sign_rows_fix_the_sign(more, path, num_pre, num_post, direction, bound);
        },
        RelativeMagnitudeFamily::MonotoneBase(direction) => {
            monotone_rows_fix_the_direction(
                more,
                path,
                num_pre,
                num_post,
                direction,
                false,
                bound,
            );
        },
        RelativeMagnitudeFamily::MonotoneLinear(direction) => {
            monotone_rows_fix_the_direction(
                more,
                path,
                num_pre,
                num_post,
                direction,
                false,
                bound,
            );
        },
        _ => {},
    }
    if all_at_most(rows, path, bound, 0) {
        assert forall|i: int| 0 <= i < own.len() implies #[trigger] row_value(own[i]@, path, bound)
            <= 0 by {
            assert(row_value(rows[i]@, path, bound) <= 0);
        }
        assert forall|i: int| 0 <= i < more.len() implies #[trigger] row_value(
            more[i]@,
            path,
            bound,
        ) <= 0 by {
            assert(row_value(rows[base + i]@, path, bound) <= 0);
        }
    }
    if all_at_most(own, path, bound, 0) && all_at_most(more, path, bound, 0) {
        assert forall|i: int| 0 <= i < rows.len() implies #[trigger] row_value(
            rows[i]@,
            path,
            bound,
        ) <= 0 by {
            if i < base {
                assert(row_value(own[i]@, path, bound) <= 0);
            } else {
                assert(row_value(more[i - base]@, path, bound) <= 0);
            }
        }
    }
}

} // verus!
