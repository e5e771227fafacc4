//! Branches of the relative-magnitude restrictions.
//!
//! A relative-magnitude restriction bounds each post-treatment change by `Mbar`
//! times the largest pre-treatment change. It is a union of polyhedra: one for
//! each pre-treatment change that may be the largest and each sign it may have.

use crate::constraints;
use crate::constraints::{
    build_bias_sign_restriction_matrix, build_monotonicity_restriction_matrix, Coefficient,
};
use crate::errors::HonestError;
use crate::matrix;
use crate::paths;
use crate::types::{HonestBiasDirection, HonestMonotonicityDirection};
use vstd::prelude::*;

verus! {

/// One branch: which pre-treatment change is the largest, counted back from
/// the last (`s = 0`), and whether it is positive.
#[derive(Clone, Copy, Debug, PartialEq, Eq, Structural)]
pub struct RelativeMagnitudeBranch {
    /// Position of the change; 0 is the last, -1 the one before.
    pub s: i64,
    /// Whether the change is positive.
    pub max_positive: bool,
}

/// A relative-magnitude restriction with the restrictions added to it.
#[derive(Clone, Copy, Debug, PartialEq, Eq, Structural)]
pub enum RelativeMagnitudeFamily {
    /// Bound on deviations from parallel trends.
    Base,
    /// The same with signed violations.
    SignedBase(HonestBiasDirection),
    /// The same with monotone violations.
    MonotoneBase(HonestMonotonicityDirection),
    /// Bound on deviations from a linear trend.
    Linear,
    /// The same with signed violations.
    SignedLinear(HonestBiasDirection),
    /// The same with monotone violations.
    MonotoneLinear(HonestMonotonicityDirection),
}

impl RelativeMagnitudeFamily {
    /// Whether the bound is on deviations from a linear trend.
    pub open spec fn linear(self) -> bool {
        self is Linear || self is SignedLinear || self is MonotoneLinear
    }

    /// What the restriction is called in messages.
    pub open spec fn description_spec(self) -> &'static str {
        match self {
            RelativeMagnitudeFamily::Base => "relative-magnitude sensitivity",
            RelativeMagnitudeFamily::SignedBase(
                _,
            ) => "sign-restricted relative-magnitude sensitivity",
            RelativeMagnitudeFamily::MonotoneBase(_) => "monotone relative-magnitude sensitivity",
            RelativeMagnitudeFamily::Linear => "linear-trend relative-magnitude sensitivity",
            RelativeMagnitudeFamily::SignedLinear(
                _,
            ) => "sign-restricted linear-trend relative-magnitude sensitivity",
            RelativeMagnitudeFamily::MonotoneLinear(
                _,
            ) => "monotone linear-trend relative-magnitude sensitivity",
        }
    }

    /// What its confidence set is called in messages.
    pub open spec fn confidence_set_spec(self) -> &'static str {
        match self {
            RelativeMagnitudeFamily::Base => "relative-magnitude conditional confidence set",
            RelativeMagnitudeFamily::SignedBase(
                _,
            ) => "sign-restricted relative-magnitude conditional confidence set",
            RelativeMagnitudeFamily::MonotoneBase(
                _,
            ) => "monotone relative-magnitude conditional confidence set",
            RelativeMagnitudeFamily::Linear => "linear-trend relative-magnitude conditional confidence set",
            RelativeMagnitudeFamily::SignedLinear(
                _,
            ) => "sign-restricted linear-trend relative-magnitude conditional confidence set",
            RelativeMagnitudeFamily::MonotoneLinear(
                _,
            ) => "monotone linear-trend relative-magnitude conditional confidence set",
        }
    }

    /// The error of a confidence set that accepts no grid point.
    pub open spec fn empty_spec(self) -> HonestError {
        HonestError::NoAcceptedPoint { class: self.confidence_set_spec() }
    }

    /// The position of the earliest branch.
    pub open spec fn min_s_spec(self, num_pre: int) -> int {
        if self.linear() {
            -(num_pre - 2)
        } else {
            -(num_pre - 1)
        }
    }

    /// What the restriction is called in messages.
    pub fn description(self) -> (words: &'static str)
        ensures
            words == self.description_spec(),
    {
        match self {
            RelativeMagnitudeFamily::Base => "relative-magnitude sensitivity",
            RelativeMagnitudeFamily::SignedBase(
                _,
            ) => "sign-restricted relative-magnitude sensitivity",
            RelativeMagnitudeFamily::MonotoneBase(_) => "monotone relative-magnitude sensitivity",
            RelativeMagnitudeFamily::Linear => "linear-trend relative-magnitude sensitivity",
            RelativeMagnitudeFamily::SignedLinear(
                _,
            ) => "sign-restricted linear-trend relative-magnitude sensitivity",
            RelativeMagnitudeFamily::MonotoneLinear(
                _,
            ) => "monotone linear-trend relative-magnitude sensitivity",
        }
    }

    /// The error of a confidence set that accepts no grid point.
    pub fn empty_error(self) -> (error: HonestError)
        ensures
            error == self.empty_spec(),
    {
        let class = match self {
            RelativeMagnitudeFamily::Base => "relative-magnitude conditional confidence set",
            RelativeMagnitudeFamily::SignedBase(
                _,
            ) => "sign-restricted relative-magnitude conditional confidence set",
            RelativeMagnitudeFamily::MonotoneBase(
                _,
            ) => "monotone relative-magnitude conditional confidence set",
            RelativeMagnitudeFamily::Linear => "linear-trend relative-magnitude conditional confidence set",
            RelativeMagnitudeFamily::SignedLinear(
                _,
            ) => "sign-restricted linear-trend relative-magnitude conditional confidence set",
            RelativeMagnitudeFamily::MonotoneLinear(
                _,
            ) => "monotone linear-trend relative-magnitude conditional confidence set",
        };
        HonestError::NoAcceptedPoint { class }
    }

    /// Whether the restriction needs two pre-periods.
    pub fn requires_two_pre_periods(self) -> (r: bool)
        ensures
            r == self.linear(),
    {
        match self {
            RelativeMagnitudeFamily::Linear => true,
            RelativeMagnitudeFamily::SignedLinear(_) => true,
            RelativeMagnitudeFamily::MonotoneLinear(_) => true,
            _ => false,
        }
    }

    /// The position of the earliest branch.
    pub fn min_s(self, num_pre: usize) -> (s: i64)
        requires
            num_pre <= i64::MAX,
        ensures
            s == self.min_s_spec(num_pre as int),
    {
        if self.requires_two_pre_periods() {
            2 - num_pre as i64
        } else {
            1 - num_pre as i64
        }
    }
}

// ---------------------------------------------------------------------------
// The constraint rows of one branch
// ---------------------------------------------------------------------------

/// Entry `c` of the change that starts at period `r`: a first difference, or a
/// second one for the linear-trend bound.
pub open spec fn change_entry(linear: bool, r: int, c: int) -> int {
    if linear {
        constraints::second_difference(r, c)
    } else {
        constraints::first_difference(r, c)
    }
}

/// Number of changes over the path.
pub open spec fn change_count(linear: bool, num_pre: int, num_post: int) -> int {
    if linear {
        num_pre + num_post - 1
    } else {
        num_pre + num_post
    }
}

/// Number of changes that lie before treatment.
pub open spec fn pre_change_count(linear: bool, num_pre: int) -> int {
    if linear {
        num_pre - 1
    } else {
        num_pre
    }
}

/// The change that a branch takes for the largest.
pub open spec fn largest_change(linear: bool, num_pre: int, s: int) -> int {
    pre_change_count(linear, num_pre) + s - 1
}

/// Entry at full column `c` of the branch row `q`. Rows come in pairs: the even
/// one bounds the change from above, the odd one from below. Changes before
/// treatment are bounded by the largest change, those after it by `Mbar` times
/// the largest change.
pub open spec fn branch_row_entry(
    linear: bool,
    num_pre: int,
    s: int,
    max_positive: bool,
    q: int,
    c: int,
) -> Coefficient {
    let r = q / 2;
    let change = if q % 2 == 0 {
        change_entry(linear, r, c)
    } else {
        -change_entry(linear, r, c)
    };
    let largest = if max_positive {
        change_entry(linear, largest_change(linear, num_pre, s), c)
    } else {
        -change_entry(linear, largest_change(linear, num_pre, s), c)
    };
    if r < pre_change_count(linear, num_pre) {
        Coefficient { constant: (change - largest) as i64, multiple: 0 }
    } else {
        Coefficient { constant: change as i64, multiple: (-largest) as i64 }
    }
}

/// The one branch row that is empty: the largest change bounded by itself,
/// where that is a change of the pre periods. A change of the post periods is
/// bounded by a multiple of itself, so that no row is empty.
pub open spec fn empty_branch_row(
    linear: bool,
    num_pre: int,
    s: int,
    max_positive: bool,
) -> int {
    2 * largest_change(linear, num_pre, s) + if max_positive {
        0int
    } else {
        1int
    }
}

/// Entry `(i, j)` of the constraints of a branch: the branch rows without the
/// reference period and without the empty row.
pub open spec fn branch_entry(
    linear: bool,
    num_pre: int,
    s: int,
    max_positive: bool,
    i: int,
    j: int,
) -> Coefficient {
    let empty = empty_branch_row(linear, num_pre, s, max_positive);
    branch_row_entry(
        linear,
        num_pre,
        s,
        max_positive,
        if s > 0 || i < empty {
            i
        } else {
            i + 1
        },
        constraints::full_column(j, num_pre),
    )
}

/// Whether `rows` are the constraints of a branch.
pub open spec fn is_branch_matrix(
    rows: Seq<Vec<Coefficient>>,
    linear: bool,
    num_pre: int,
    num_post: int,
    s: int,
    max_positive: bool,
) -> bool {
    &&& rows.len() == 2 * change_count(linear, num_pre, num_post) - if s <= 0 {
        1int
    } else {
        0int
    }
    &&& matrix::has_cols(rows, num_pre + num_post)
    &&& forall|i: int, j: int|
        0 <= i < rows.len() && 0 <= j < num_pre + num_post ==> #[trigger] rows[i]@[j]
            == branch_entry(linear, num_pre, s, max_positive, i, j)
}

/// A column in which a branch row that is not empty has an entry.
spec fn witness_column(
    linear: bool,
    num_pre: int,
    s: int,
    q: int,
) -> int {
    let start = largest_change(linear, num_pre, s);
    let r = q / 2;
    if r >= pre_change_count(linear, num_pre) {
        if linear {
            r + 1
        } else {
            r
        }
    } else if r < start {
        r
    } else {
        start
    }
}

/// A branch row is zero throughout exactly where it is the empty one.
proof fn only_one_branch_row_is_empty(
    linear: bool,
    num_pre: int,
    num_post: int,
    s: int,
    max_positive: bool,
    q: int,
)
    requires
        s <= num_post,
        0 <= num_pre,
        0 <= largest_change(linear, num_pre, s),
        0 <= num_post,
        0 <= q < 2 * change_count(linear, num_pre, num_post),
    ensures
        s <= 0 && q == empty_branch_row(linear, num_pre, s, max_positive) ==> forall|c: int|
            (#[trigger] branch_row_entry(linear, num_pre, s, max_positive, q, c)).zero(),
        s > 0 || q != empty_branch_row(linear, num_pre, s, max_positive) ==> {
            let j = witness_column(linear, num_pre, s, q);
            0 <= j < num_pre + num_post && !branch_row_entry(
                linear,
                num_pre,
                s,
                max_positive,
                q,
                constraints::full_column(j, num_pre),
            ).zero()
        },
{
}

/// The constraints of a branch.
fn build_branch_matrix(
    linear: bool,
    num_pre: usize,
    num_post: usize,
    s: i64,
    max_positive: bool,
) -> (rows: Vec<Vec<Coefficient>>)
    requires
        s <= num_post,
        0 <= largest_change(linear, num_pre as int, s as int),
        num_pre <= i64::MAX,
        2 * (num_pre + num_post) + 2 <= usize::MAX,
    ensures
        is_branch_matrix(
            rows@,
            linear,
            num_pre as int,
            num_post as int,
            s as int,
            max_positive,
        ),
{
    let total: usize = if linear {
        num_pre + num_post - 1
    } else {
        num_pre + num_post
    };
    let pre_changes: i64 = if linear {
        num_pre as i64 - 1
    } else {
        num_pre as i64
    };
    let start: usize = (pre_changes + s - 1) as usize;
    let cols: usize = num_pre + num_post;
    let ghost empty = empty_branch_row(linear, num_pre as int, s as int, max_positive);
    let mut rows: Vec<Vec<Coefficient>> = Vec::new();
    let mut q: usize = 0;
    while q < 2 * total
        invariant
            s <= num_post,
            num_pre <= i64::MAX,
            2 * (num_pre + num_post) + 2 <= usize::MAX,
            total == change_count(linear, num_pre as int, num_post as int),
            pre_changes == pre_change_count(linear, num_pre as int),
            start == largest_change(linear, num_pre as int, s as int),
            0 <= largest_change(linear, num_pre as int, s as int),
            cols == num_pre + num_post,
            empty == empty_branch_row(linear, num_pre as int, s as int, max_positive),
            q <= 2 * total,
            rows.len() == (if s > 0 || q <= empty {
                q as int
            } else {
                q - 1
            }),
            matrix::has_cols(rows@, cols as int),
            forall|i: int, j: int|
                0 <= i < rows.len() && 0 <= j < cols ==> #[trigger] rows@[i]@[j] == branch_entry(
                    linear,
                    num_pre as int,
                    s as int,
                    max_positive,
                    i,
                    j,
                ),
        decreases 2 * total - q,
    {
        let r: usize = q / 2;
        let upper = q % 2 == 0;
        let mut row: Vec<Coefficient> = Vec::new();
        let mut any = false;
        while row.len() < cols
            invariant
                s <= num_post,
                num_pre <= i64::MAX,
                2 * (num_pre + num_post) + 2 <= usize::MAX,
                pre_changes == pre_change_count(linear, num_pre as int),
                start == largest_change(linear, num_pre as int, s as int),
                cols == num_pre + num_post,
                r == q / 2,
                q < 2 * (num_pre + num_post),
                upper == (q % 2 == 0),
                start + 2 <= usize::MAX,
                row.len() <= cols,
                forall|j: int|
                    0 <= j < row.len() ==> #[trigger] row@[j] == branch_row_entry(
                        linear,
                        num_pre as int,
                        s as int,
                        max_positive,
                        q as int,
                        constraints::full_column(j, num_pre as int),
                    ),
                any == exists|j: int| 0 <= j < row.len() && !(#[trigger] row@[j]).zero(),
            decreases cols - row.len(),
        {
            let j: usize = row.len();
            let col: usize = if j < num_pre {
                j
            } else {
                j + 1
            };
            let change: i64 = change_at(linear, r, col);
            let largest: i64 = change_at(linear, start, col);
            let signed_change: i64 = if upper {
                change
            } else {
                -change
            };
            let signed_largest: i64 = if max_positive {
                largest
            } else {
                -largest
            };
            let value = if (r as i64) < pre_changes {
                Coefficient { constant: signed_change - signed_largest, multiple: 0 }
            } else {
                Coefficient { constant: signed_change, multiple: -signed_largest }
            };
            let ghost before = row@;
            row.push(value);
            proof {
                if any {
                    let k = choose|k: int| 0 <= k < before.len() && !(#[trigger] before[k]).zero();
                    assert(!row@[k].zero());
                }
                if !value.zero() {
                    assert(!row@[j as int].zero());
                }
            }
            if !value.is_zero() {
                any = true;
            }
        }
        proof {
            only_one_branch_row_is_empty(
                linear,
                num_pre as int,
                num_post as int,
                s as int,
                max_positive,
                q as int,
            );
            let j = witness_column(linear, num_pre as int, s as int, q as int);
            if s > 0 || q != empty {
                assert(!row@[j].zero());
            }
        }
        if any {
            rows.push(row);
        }
        q = q + 1;
    }
    rows
}

/// Entry at full column `c` of the change that starts at period `r`.
fn change_at(linear: bool, r: usize, c: usize) -> (value: i64)
    requires
        r + 2 <= usize::MAX,
    ensures
        value == change_entry(linear, r as int, c as int),
        -2 <= value <= 1,
{
    if linear {
        if c == r || c == r + 2 {
            1
        } else if c == r + 1 {
            -2
        } else {
            0
        }
    } else {
        if c == r {
            -1
        } else if c == r + 1 {
            1
        } else {
            0
        }
    }
}

/// The constraints of a branch of the bound on deviations from parallel trends.
pub fn build_relative_magnitude_constraint_matrix(
    num_pre: usize,
    num_post: usize,
    s: i64,
    max_positive: bool,
) -> (rows: Result<Vec<Vec<Coefficient>>, HonestError>)
    requires
        num_pre <= i64::MAX,
        2 * (num_pre + num_post) + 2 <= usize::MAX,
    ensures
        match rows {
            Ok(found) => largest_change(false, num_pre as int, s as int) >= 0 && s <= num_post
                && is_branch_matrix(
                found@,
                false,
                num_pre as int,
                num_post as int,
                s as int,
                max_positive,
            ),
            Err(error) => (largest_change(false, num_pre as int, s as int) < 0 || s > num_post)
                && error == (HonestError::BranchIndex { s, num_pre }),
        },
        rows matches Ok(found) ==> forall|path: Seq<int>, bound: int|
            path.len() == num_pre + num_post ==> (#[trigger] paths::all_at_most(
                found@,
                path,
                bound,
                0,
            ) <==> paths::in_branch(path, num_pre as int, s as int, max_positive, bound)),
{
    if s < 1 - (num_pre as i64) || (s > 0 && s as u64 > num_post as u64) {
        return Err(HonestError::BranchIndex { s, num_pre });
    }
    let rows = build_branch_matrix(false, num_pre, num_post, s, max_positive);
    proof {
        assert forall|path: Seq<int>, bound: int| path.len() == num_pre + num_post implies (
        #[trigger] paths::all_at_most(rows@, path, bound, 0) <==> paths::in_branch(
            path,
            num_pre as int,
            s as int,
            max_positive,
            bound,
        )) by {
            paths::branch_rows_bound_the_changes(
                rows@,
                path,
                num_pre as int,
                num_post as int,
                s as int,
                max_positive,
                bound,
            );
        }
    }
    Ok(rows)
}

/// The constraints of a branch of the bound on deviations from a linear trend.
pub fn build_linear_trend_relative_magnitude_constraint_matrix(
    num_pre: usize,
    num_post: usize,
    s: i64,
    max_positive: bool,
) -> (rows: Result<Vec<Vec<Coefficient>>, HonestError>)
    requires
        num_pre <= i64::MAX,
        2 * (num_pre + num_post) + 2 <= usize::MAX,
    ensures
        match rows {
            Ok(found) => largest_change(true, num_pre as int, s as int) >= 0 && s <= num_post
                && is_branch_matrix(
                found@,
                true,
                num_pre as int,
                num_post as int,
                s as int,
                max_positive,
            ),
            Err(error) => (largest_change(true, num_pre as int, s as int) < 0 || s > num_post)
                && error == (HonestError::LinearBranchIndex { s, num_pre }),
        },
        rows matches Ok(found) ==> forall|path: Seq<int>, bound: int|
            path.len() == num_pre + num_post ==> (#[trigger] paths::all_at_most(
                found@,
                path,
                bound,
                0,
            ) <==> paths::in_linear_branch(path, num_pre as int, s as int, max_positive, bound)),
{
    if s < 2 - (num_pre as i64) || (s > 0 && s as u64 > num_post as u64) {
        return Err(HonestError::LinearBranchIndex { s, num_pre });
    }
    let rows = build_branch_matrix(true, num_pre, num_post, s, max_positive);
    proof {
        assert forall|path: Seq<int>, bound: int| path.len() == num_pre + num_post implies (
        #[trigger] paths::all_at_most(rows@, path, bound, 0) <==> paths::in_linear_branch(
            path,
            num_pre as int,
            s as int,
            max_positive,
            bound,
        )) by {
            paths::linear_branch_rows_bound_the_bends(
                rows@,
                path,
                num_pre as int,
                num_post as int,
                s as int,
                max_positive,
                bound,
            );
        }
    }
    Ok(rows)
}

// ---------------------------------------------------------------------------
// Families
// ---------------------------------------------------------------------------

/// Number of rows that a family adds to those of a branch.
pub open spec fn added_row_count(
    family: RelativeMagnitudeFamily,
    num_pre: int,
    num_post: int,
) -> int {
    match family {
        RelativeMagnitudeFamily::Base => 0,
        RelativeMagnitudeFamily::Linear => 0,
        RelativeMagnitudeFamily::SignedBase(_) => num_post,
        RelativeMagnitudeFamily::SignedLinear(_) => num_post,
        RelativeMagnitudeFamily::MonotoneBase(_) => num_pre + num_post,
        RelativeMagnitudeFamily::MonotoneLinear(_) => num_pre + num_post,
    }
}

/// Entry `(i, j)` of the rows that a family adds.
pub open spec fn added_entry(
    family: RelativeMagnitudeFamily,
    num_pre: int,
    i: int,
    j: int,
) -> Coefficient {
    match family {
        RelativeMagnitudeFamily::SignedBase(direction) => constraints::bias_sign_entry(
            num_pre,
            direction,
            i,
            j,
        ),
        RelativeMagnitudeFamily::SignedLinear(direction) => constraints::bias_sign_entry(
            num_pre,
            direction,
            i,
            j,
        ),
        RelativeMagnitudeFamily::MonotoneBase(direction) => constraints::monotonicity_entry(
            num_pre,
            direction,
            false,
            i,
            j,
        ),
        RelativeMagnitudeFamily::MonotoneLinear(direction) => constraints::monotonicity_entry(
            num_pre,
            direction,
            false,
            i,
            j,
        ),
        _ => Coefficient::integer(0),
    }
}

/// Whether `rows` are the constraints of a branch of a family: those of the
/// branch, followed by those that the family adds.
pub open spec fn is_family_matrix(
    rows: Seq<Vec<Coefficient>>,
    family: RelativeMagnitudeFamily,
    num_pre: int,
    num_post: int,
    s: int,
    max_positive: bool,
) -> bool {
    let base = 2 * change_count(family.linear(), num_pre, num_post) - 1;
    &&& rows.len() == base + added_row_count(family, num_pre, num_post)
    &&& is_branch_matrix(rows.take(base), family.linear(), num_pre, num_post, s, max_positive)
    &&& matrix::has_cols(rows, num_pre + num_post)
    &&& forall|i: int, j: int|
        base <= i < rows.len() && 0 <= j < num_pre + num_post ==> #[trigger] rows[i]@[j]
            == added_entry(family, num_pre, i - base, j)
}

/// The error of a branch index that lies off the pre-treatment changes.
pub open spec fn branch_index_error(
    family: RelativeMagnitudeFamily,
    s: i64,
    num_pre: usize,
) -> HonestError {
    if family.linear() {
        HonestError::LinearBranchIndex { s, num_pre }
    } else {
        HonestError::BranchIndex { s, num_pre }
    }
}

impl RelativeMagnitudeFamily {
    /// The rows that the family adds to those of a branch.
    fn added_rows(self, num_pre: usize, num_post: usize) -> (rows: Vec<Vec<Coefficient>>)
        requires
            2 * (num_pre + num_post) + 2 <= usize::MAX,
        ensures
            rows.len() == added_row_count(self, num_pre as int, num_post as int),
            matrix::has_cols(rows@, num_pre + num_post),
            forall|i: int, j: int|
                0 <= i < rows.len() && 0 <= j < num_pre + num_post ==> #[trigger] rows@[i]@[j]
                    == added_entry(self, num_pre as int, i, j),
    {
        match self {
            RelativeMagnitudeFamily::Base => Vec::new(),
            RelativeMagnitudeFamily::Linear => Vec::new(),
            RelativeMagnitudeFamily::SignedBase(direction) => build_bias_sign_restriction_matrix(
                num_pre,
                num_post,
                direction,
            ),
            RelativeMagnitudeFamily::SignedLinear(direction) => build_bias_sign_restriction_matrix(
                num_pre,
                num_post,
                direction,
            ),
            RelativeMagnitudeFamily::MonotoneBase(
                direction,
            ) => build_monotonicity_restriction_matrix(num_pre, num_post, direction, false),
            RelativeMagnitudeFamily::MonotoneLinear(
                direction,
            ) => build_monotonicity_restriction_matrix(num_pre, num_post, direction, false),
        }
    }

    /// The constraints of a branch of the family.
    pub fn build_constraint_matrix(
        self,
        num_pre: usize,
        num_post: usize,
        branch: RelativeMagnitudeBranch,
    ) -> (rows: Result<Vec<Vec<Coefficient>>, HonestError>)
        requires
            branch.s <= 0,
            num_pre <= i64::MAX,
            2 * (num_pre + num_post) + 2 <= usize::MAX,
        ensures
            match rows {
                Ok(found) => largest_change(self.linear(), num_pre as int, branch.s as int) >= 0
                    && is_family_matrix(
                    found@,
                    self,
                    num_pre as int,
                    num_post as int,
                    branch.s as int,
                    branch.max_positive,
                ),
                Err(error) => largest_change(self.linear(), num_pre as int, branch.s as int) < 0
                    && error == branch_index_error(self, branch.s, num_pre),
            },
            rows matches Ok(found) ==> forall|path: Seq<int>, bound: int|
                path.len() == num_pre + num_post ==> (#[trigger] paths::all_at_most(
                    found@,
                    path,
                    bound,
                    0,
                ) <==> paths::in_listed_branch(path, num_pre as int, self, branch, bound)
                    && paths::obeys_addition(path, num_pre as int, self)),
    {
        let built = if self.requires_two_pre_periods() {
            build_linear_trend_relative_magnitude_constraint_matrix(
                num_pre,
                num_post,
                branch.s,
                branch.max_positive,
            )
        } else {
            build_relative_magnitude_constraint_matrix(
                num_pre,
                num_post,
                branch.s,
                branch.max_positive,
            )
        };
        match built {
            Err(error) => Err(error),
            Ok(base_rows) => {
                let mut rows = base_rows;
                let ghost base = rows@;
                let mut more = self.added_rows(num_pre, num_post);
                let ghost extra = more@;
                rows.append(&mut more);
                proof {
                    assert(rows@.take(base.len() as int) =~= base);
                    assert forall|i: int, j: int|
                        base.len() <= i < rows.len() && 0 <= j < num_pre + num_post
                            implies #[trigger] rows@[i]@[j] == added_entry(
                        self,
                        num_pre as int,
                        i - base.len(),
                        j,
                    ) by {
                        assert(rows@[i] == extra[i - base.len()]);
                        assert(extra[i - base.len()]@[j] == added_entry(
                            self,
                            num_pre as int,
                            i - base.len(),
                            j,
                        ));
                    }
                    assert forall|path: Seq<int>, bound: int|
                        path.len() == num_pre + num_post implies (#[trigger] paths::all_at_most(
                        rows@,
                        path,
                        bound,
                        0,
                    ) <==> paths::in_listed_branch(path, num_pre as int, self, branch, bound)
                        && paths::obeys_addition(path, num_pre as int, self)) by {
                        paths::family_rows_hold_in_the_branch(
                            rows@,
                            path,
                            num_pre as int,
                            num_post as int,
                            self,
                            branch,
                            bound,
                        );
                    }
                }
                Ok(rows)
            },
        }
    }

    /// The branches of the family, from the earliest change to the last, each
    /// with the positive sign first.
    pub open spec fn branches_spec(self, num_pre: int) -> Seq<RelativeMagnitudeBranch> {
        let count = if 1 - self.min_s_spec(num_pre) > 0 {
            2 * (1 - self.min_s_spec(num_pre))
        } else {
            0
        };
        Seq::new(
            count as nat,
            |k: int|
                RelativeMagnitudeBranch {
                    s: (self.min_s_spec(num_pre) + k / 2) as i64,
                    max_positive: k % 2 == 0,
                },
        )
    }

    /// The branches of the family, from the earliest change to the last, each
    /// with the positive sign first.
    pub fn branches(self, num_pre: usize) -> (branches: Vec<RelativeMagnitudeBranch>)
        requires
            num_pre < i64::MAX,
        ensures
            branches@ == self.branches_spec(num_pre as int),
    {
        let first: i64 = self.min_s(num_pre);
        let mut branches: Vec<RelativeMagnitudeBranch> = Vec::new();
        let mut s: i64 = first;
        while s <= 0
            invariant
                first == self.min_s_spec(num_pre as int),
                first >= -i64::MAX + 1,
                first <= s,
                s <= 1 || s == first,
                branches.len() == 2 * (s - first),
                forall|k: int|
                    0 <= k < branches.len() ==> #[trigger] branches@[k] == (
                    RelativeMagnitudeBranch {
                        s: (first + k / 2) as i64,
                        max_positive: k % 2 == 0,
                    }),
            decreases 1 - s,
        {
            branches.push(RelativeMagnitudeBranch { s, max_positive: true });
            branches.push(RelativeMagnitudeBranch { s, max_positive: false });
            s = s + 1;
        }
        proof {
            assert(branches@ =~= self.branches_spec(num_pre as int));
        }
        branches
    }
}

/// Every branch of a family with the pre-periods it needs has a constraint
/// matrix.
pub proof fn every_listed_branch_is_valid(
    family: RelativeMagnitudeFamily,
    num_pre: int,
    k: int,
)
    requires
        0 <= num_pre < i64::MAX,
        0 <= k < family.branches_spec(num_pre).len(),
    ensures
        ({
            let s = family.branches_spec(num_pre)[k].s as int;
            s <= 0 && 0 <= largest_change(family.linear(), num_pre, s) < pre_change_count(
                family.linear(),
                num_pre,
            )
        }),
{
}

/// The branches cover each pre-treatment change with each sign exactly once.
pub proof fn branches_cover_every_change(
    family: RelativeMagnitudeFamily,
    num_pre: int,
    change: int,
    max_positive: bool,
)
    requires
        0 <= change < pre_change_count(family.linear(), num_pre),
        0 <= num_pre < i64::MAX,
    ensures
        exists|k: int|
            0 <= k < family.branches_spec(num_pre).len() && {
                let branch = #[trigger] family.branches_spec(num_pre)[k];
                largest_change(family.linear(), num_pre, branch.s as int) == change
                    && branch.max_positive == max_positive
            },
        forall|a: int, b: int|
            0 <= a < b < family.branches_spec(num_pre).len()
                ==> #[trigger] family.branches_spec(num_pre)[a]
                != #[trigger] family.branches_spec(num_pre)[b],
{
    let branches = family.branches_spec(num_pre);
    let k = 2 * change + if max_positive {
        0int
    } else {
        1int
    };
    assert(k / 2 == change);
    assert(branches[k].max_positive == max_positive);
    assert(largest_change(family.linear(), num_pre, branches[k].s as int) == change);
}

/// In every constraint row of a branch the reference period aside, `Mbar`
/// multiplies entries of pre periods alone, and such a row has an entry that
/// does not depend on `Mbar`: whether a row is empty never depends on `Mbar`.
pub proof fn bound_scales_pre_periods_only(
    linear: bool,
    num_pre: int,
    num_post: int,
    s: int,
    max_positive: bool,
    i: int,
)
    requires
        s <= 0,
        0 <= largest_change(linear, num_pre, s),
        0 <= num_post,
        0 <= i < 2 * change_count(linear, num_pre, num_post) - 1,
    ensures
        forall|j: int|
            num_pre <= j < num_pre + num_post ==> (#[trigger] branch_entry(
                linear,
                num_pre,
                s,
                max_positive,
                i,
                j,
            )).multiple == 0,
        exists|j: int|
            0 <= j < num_pre + num_post && {
                let entry = #[trigger] branch_entry(linear, num_pre, s, max_positive, i, j);
                entry.multiple == 0 && entry.constant != 0
            },
{
    let empty = empty_branch_row(linear, num_pre, s, max_positive);
    let q = if i < empty {
        i
    } else {
        i + 1
    };
    only_one_branch_row_is_empty(linear, num_pre, num_post, s, max_positive, q);
    let j = witness_column(linear, num_pre, s, q);
    let entry = branch_entry(linear, num_pre, s, max_positive, i, j);
    assert(entry.multiple == 0 && entry.constant != 0);
}

} // verus!
