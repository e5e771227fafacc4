//! The cone programs behind fixed-length confidence intervals.

use crate::exact;
use crate::matrix;
use crate::matrix::{copy_row, filled_row};
use crate::number::Real;
use vstd::prelude::*;

verus! {

/// A linear objective over rows of inequalities, rows of equalities and the
/// rows of one second-order cone, with one right-hand side.
#[derive(Debug, PartialEq, Eq)]
pub struct ConeProgram {
    /// Coefficients of the objective.
    pub objective: Vec<Real>,
    /// Rows that are at most their right-hand sides.
    pub inequalities: Vec<Vec<Real>>,
    /// Rows that equal their right-hand sides.
    pub equalities: Vec<Vec<Real>>,
    /// Rows of the cone.
    pub soc_rows: Vec<Vec<Real>>,
    /// Right-hand sides, in the order of the rows.
    pub rhs: Vec<Real>,
}

/// `len` copies of a number.
pub open spec fn repeated(value: Real, len: int) -> Seq<Real> {
    Seq::new(len as nat, |j: int| value)
}

/// `len` zeros.
pub open spec fn zeros(len: int) -> Seq<Real> {
    repeated(Real::zero_spec(), len)
}

/// `len` ones.
pub open spec fn ones(len: int) -> Seq<Real> {
    repeated(Real::one_spec(), len)
}

/// The row `i` of the lower triangle of ones.
pub open spec fn triangle_row(i: int, len: int) -> Seq<Real> {
    Seq::new(
        len as nat,
        |j: int|
            if j <= i {
                Real::one_spec()
            } else {
                Real::zero_spec()
            },
    )
}

/// The lower triangle of ones.
pub fn lower_triangular_ones(num_pre: usize) -> (rows: Vec<Vec<Real>>)
    ensures
        matrix::rows_of(rows@) == Seq::new(
            num_pre as nat,
            |i: int| triangle_row(i, num_pre as int),
        ),
{
    let entry = |i: usize, j: usize| -> (value: Real)
        ensures
            value == (if j <= i {
                Real::one_spec()
            } else {
                Real::zero_spec()
            }),
        {
            if j <= i {
                Real::one()
            } else {
                Real::zero()
            }
        };
    let rows = matrix::tabulate(num_pre, num_pre, entry);
    proof {
        assert forall|i: int| 0 <= i < rows.len() implies (#[trigger] rows@[i])@ == triangle_row(
            i,
            num_pre as int,
        ) by {
            assert(rows@[i]@ =~= triangle_row(i, num_pre as int));
        }
        assert(matrix::rows_of(rows@) =~= Seq::new(
            num_pre as nat,
            |i: int| triangle_row(i, num_pre as int),
        ));
    }
    rows
}

// ---------------------------------------------------------------------------
// The part of the variance that no weight moves
// ---------------------------------------------------------------------------

/// Whether a row of the variance has a coefficient other than zero.
pub open spec fn movable(row: Seq<Real>) -> bool {
    exists|j: int| 0 <= j < row.len() && !(#[trigger] row[j]).same_value(Real::zero_spec())
}

/// The movable rows among the first `end`.
pub open spec fn movable_rows(rows: Seq<Seq<Real>>, end: int) -> Seq<Seq<Real>>
    decreases end,
{
    if end <= 0 {
        Seq::empty()
    } else if movable(rows[end - 1]) {
        movable_rows(rows, end - 1).push(rows[end - 1])
    } else {
        movable_rows(rows, end - 1)
    }
}

/// The right-hand sides, among the first `end`, of rows that are movable or
/// not, as asked.
pub open spec fn sides_of(
    rows: Seq<Seq<Real>>,
    sides: Seq<Real>,
    asked: bool,
    end: int,
) -> Seq<Real>
    decreases end,
{
    if end <= 0 {
        Seq::empty()
    } else if movable(rows[end - 1]) == asked {
        sides_of(rows, sides, asked, end - 1).push(sides[end - 1])
    } else {
        sides_of(rows, sides, asked, end - 1)
    }
}

/// The rows of the variance that the weights move, with their right-hand sides,
/// and the right-hand sides of the others.
#[derive(Debug, PartialEq, Eq)]
pub struct SplitVariance {
    /// Movable rows.
    pub rows: Vec<Vec<Real>>,
    /// Their right-hand sides.
    pub sides: Vec<Real>,
    /// The other right-hand sides.
    pub fixed: Vec<Real>,
}

impl SplitVariance {
    /// Whether this is the split of given rows and right-hand sides.
    pub open spec fn splits(self, rows: Seq<Seq<Real>>, sides: Seq<Real>) -> bool {
        let count = rows.len() as int;
        &&& matrix::rows_of(self.rows@) == movable_rows(rows, count)
        &&& self.sides@ == sides_of(rows, sides, true, count)
        &&& self.fixed@ == sides_of(rows, sides, false, count)
    }
}

fn is_movable(row: &[Real]) -> (r: bool)
    ensures
        r == movable(row@),
{
    let mut j: usize = 0;
    while j < row.len()
        invariant
            j <= row.len(),
            forall|k: int| 0 <= k < j ==> (#[trigger] row@[k]).same_value(Real::zero_spec()),
        decreases row.len() - j,
    {
        if !row[j].equals(Real::zero()) {
            return true;
        }
        j = j + 1;
    }
    false
}

/// Splits the rows of the variance into those that the weights move and the
/// right-hand sides of the others.
pub fn split_constant_variance(transform: &[Vec<Real>], d: &[Real]) -> (split: SplitVariance)
    requires
        transform.len() == d.len(),
    ensures
        split.splits(matrix::rows_of(transform@), d@),
        split.rows.len() == split.sides.len(),
        forall|width: int|
            #![trigger matrix::has_cols(split.rows@, width)]
            matrix::has_cols(transform@, width) ==> matrix::has_cols(split.rows@, width),
{
    let mut rows: Vec<Vec<Real>> = Vec::new();
    let mut sides: Vec<Real> = Vec::new();
    let mut fixed: Vec<Real> = Vec::new();
    let ghost all = matrix::rows_of(transform@);
    let mut i: usize = 0;
    proof {
        assert(matrix::rows_of(rows@) =~= Seq::empty());
    }
    while i < transform.len()
        invariant
            i <= transform.len(),
            transform.len() == d.len(),
            all == matrix::rows_of(transform@),
            matrix::rows_of(rows@) == movable_rows(all, i as int),
            sides@ == sides_of(all, d@, true, i as int),
            fixed@ == sides_of(all, d@, false, i as int),
            rows.len() == sides.len(),
            forall|width: int|
                #![trigger matrix::has_cols(rows@, width)]
                matrix::has_cols(transform@, width) ==> matrix::has_cols(rows@, width),
        decreases transform.len() - i,
    {
        assert(all[i as int] == transform@[i as int]@);
        if is_movable(transform[i].as_slice()) {
            let ghost before = rows@;
            let copy = copy_row(transform[i].as_slice());
            rows.push(copy);
            sides.push(d[i]);
            proof {
                assert(matrix::rows_of(rows@) =~= matrix::rows_of(before).push(all[i as int]));
                assert forall|width: int| matrix::has_cols(transform@, width) implies
                    #[trigger] matrix::has_cols(rows@, width) by {
                    assert(matrix::has_cols(before, width));
                    assert(transform@[i as int]@.len() == width);
                }
            }
        } else {
            fixed.push(d[i]);
        }
        i = i + 1;
    }
    SplitVariance { rows, sides, fixed }
}

// ---------------------------------------------------------------------------
// The programs
// ---------------------------------------------------------------------------

/// Whether a program minimizes the standard deviation of the estimator: its
/// variables are the weights and, last, the standard deviation.
pub open spec fn is_lowest_program(
    program: ConeProgram,
    num_pre: int,
    weighted_sum: Real,
    split: SplitVariance,
    constant: Real,
) -> bool {
    &&& program.objective@ == zeros(num_pre).push(Real::one_spec())
    &&& program.inequalities@.len() == 0
    &&& matrix::rows_of(program.equalities@) == seq![ones(num_pre).push(Real::zero_spec())]
    &&& matrix::rows_of(program.soc_rows@) == seq![
        zeros(num_pre).push(Real::minus_one_spec()),
    ] + Seq::new(
        split.rows@.len(),
        |i: int| split.rows@[i]@.push(Real::zero_spec()),
    ) + seq![zeros(num_pre + 1)]
    &&& program.rhs@ == seq![weighted_sum, Real::zero_spec()] + split.sides@ + seq![constant]
}

/// Whether a program minimizes the worst-case bias under a bound on the
/// movable part of the standard deviation: its variables are the magnitudes of
/// the running sums of the weights and then the weights.
pub open spec fn is_bias_program(
    program: ConeProgram,
    num_pre: int,
    weighted_sum: Real,
    split: SplitVariance,
    radius: Real,
) -> bool {
    &&& program.objective@ == ones(num_pre) + zeros(num_pre)
    &&& matrix::rows_of(program.inequalities@) == Seq::new(
        (2 * num_pre) as nat,
        |i: int| bias_row(i, num_pre),
    )
    &&& matrix::rows_of(program.equalities@) == seq![zeros(num_pre) + ones(num_pre)]
    &&& matrix::rows_of(program.soc_rows@) == seq![zeros(2 * num_pre)] + Seq::new(
        split.rows@.len(),
        |i: int| zeros(num_pre) + split.rows@[i]@,
    )
    &&& program.rhs@ == zeros(2 * num_pre) + seq![weighted_sum, radius] + split.sides@
}

/// An inequality of the bias program: a running sum of the weights, or its
/// negative, is at most its magnitude.
pub open spec fn bias_row(i: int, num_pre: int) -> Seq<Real> {
    let at = if i < num_pre {
        i
    } else {
        i - num_pre
    };
    Seq::new(
        (2 * num_pre) as nat,
        |j: int|
            if j < num_pre {
                if j == at {
                    Real::minus_one_spec()
                } else {
                    Real::zero_spec()
                }
            } else if i < num_pre {
                triangle_row(at, num_pre)[j - num_pre]
            } else {
                triangle_row(at, num_pre)[j - num_pre].neg_spec()
            },
    )
}

/// One vector behind another.
pub fn appended(left: &[Real], right: &[Real]) -> (whole: Vec<Real>)
    ensures
        whole@ == left@ + right@,
{
    let mut whole = copy_row(left);
    let mut j: usize = 0;
    while j < right.len()
        invariant
            j <= right.len(),
            whole@ == left@ + right@.take(j as int),
        decreases right.len() - j,
    {
        whole.push(right[j]);
        j = j + 1;
        proof {
            assert(right@.take(j as int) =~= right@.take(j - 1).push(right@[j - 1]));
        }
    }
    proof {
        assert(right@.take(j as int) =~= right@);
    }
    whole
}

/// The program whose optimum is the lowest standard deviation.
pub fn lowest_program(
    num_pre: usize,
    weighted_sum: Real,
    split: &SplitVariance,
    constant: Real,
) -> (program: ConeProgram)
    requires
        num_pre < usize::MAX,
        matrix::has_cols(split.rows@, num_pre as int),
    ensures
        is_lowest_program(program, num_pre as int, weighted_sum, *split, constant),
{
    let mut objective = filled_row(num_pre, Real::zero());
    objective.push(Real::one());
    let mut equality = filled_row(num_pre, Real::one());
    equality.push(Real::zero());
    let mut equalities: Vec<Vec<Real>> = Vec::new();
    equalities.push(equality);
    let mut first = filled_row(num_pre, Real::zero());
    first.push(Real::minus_one());
    let mut soc_rows: Vec<Vec<Real>> = Vec::new();
    soc_rows.push(first);
    let ghost head = seq![zeros(num_pre as int).push(Real::minus_one_spec())];
    let ghost body = Seq::new(
        split.rows@.len(),
        |i: int| split.rows@[i]@.push(Real::zero_spec()),
    );
    let mut i: usize = 0;
    proof {
        assert(matrix::rows_of(soc_rows@) =~= head + body.take(0));
    }
    while i < split.rows.len()
        invariant
            i <= split.rows.len(),
            body == Seq::new(
                split.rows@.len(),
                |i: int| split.rows@[i]@.push(Real::zero_spec()),
            ),
            matrix::rows_of(soc_rows@) == head + body.take(i as int),
        decreases split.rows.len() - i,
    {
        let ghost before = soc_rows@;
        let mut row = copy_row(split.rows[i].as_slice());
        row.push(Real::zero());
        soc_rows.push(row);
        i = i + 1;
        proof {
            assert(row@ == body[i - 1]);
            assert(matrix::rows_of(soc_rows@) =~= matrix::rows_of(before).push(body[i - 1]));
            assert(body.take(i as int) =~= body.take(i - 1).push(body[i - 1]));
        }
    }
    let ghost before = soc_rows@;
    let last = filled_row(num_pre + 1, Real::zero());
    soc_rows.push(last);
    let mut start: Vec<Real> = Vec::new();
    start.push(weighted_sum);
    start.push(Real::zero());
    let mut rhs = appended(start.as_slice(), split.sides.as_slice());
    rhs.push(constant);
    proof {
        assert(body.take(i as int) =~= body);
        assert(matrix::rows_of(soc_rows@) =~= matrix::rows_of(before).push(
            zeros(num_pre + 1),
        ));
        assert(matrix::rows_of(soc_rows@) =~= head + body + seq![zeros(num_pre + 1)]);
        assert(matrix::rows_of(equalities@) =~= seq![
            ones(num_pre as int).push(Real::zero_spec()),
        ]);
        assert(start@ =~= seq![weighted_sum, Real::zero_spec()]);
        assert(rhs@ =~= seq![weighted_sum, Real::zero_spec()] + split.sides@ + seq![constant]);
    }
    ConeProgram { objective, inequalities: Vec::new(), equalities, soc_rows, rhs }
}

fn bias_inequalities(num_pre: usize) -> (rows: Vec<Vec<Real>>)
    requires
        2 * num_pre <= usize::MAX,
    ensures
        matrix::rows_of(rows@) == Seq::new(
            (2 * num_pre) as nat,
            |i: int| bias_row(i, num_pre as int),
        ),
{
    let triangle = lower_triangular_ones(num_pre);
    let ghost rows_spec = Seq::new((2 * num_pre) as nat, |i: int| bias_row(i, num_pre as int));
    let mut rows: Vec<Vec<Real>> = Vec::new();
    let mut i: usize = 0;
    proof {
        assert(matrix::rows_of(rows@) =~= rows_spec.take(0));
    }
    while i < 2 * num_pre
        invariant
            i <= 2 * num_pre,
            2 * num_pre <= usize::MAX,
            matrix::rows_of(triangle@) == Seq::new(
                num_pre as nat,
                |i: int| triangle_row(i, num_pre as int),
            ),
            rows_spec == Seq::new((2 * num_pre) as nat, |i: int| bias_row(i, num_pre as int)),
            matrix::rows_of(rows@) == rows_spec.take(i as int),
        decreases 2 * num_pre - i,
    {
        let ghost before = rows@;
        let at: usize = if i < num_pre {
            i
        } else {
            i - num_pre
        };
        assert(matrix::rows_of(triangle@).len() == triangle.len());
        assert(matrix::rows_of(triangle@)[at as int] == triangle@[at as int]@);
        let mut row = filled_row(num_pre, Real::zero());
        row.set(at, Real::minus_one());
        let mut j: usize = 0;
        while j < num_pre
            invariant
                j <= num_pre,
                i < 2 * num_pre,
                at == (if i < num_pre {
                    i as int
                } else {
                    i - num_pre
                }),
                at < triangle.len(),
                triangle@[at as int]@ == triangle_row(at as int, num_pre as int),
                row@ == bias_row(i as int, num_pre as int).take(num_pre + j),
            decreases num_pre - j,
        {
            let value = triangle[at][j];
            if i < num_pre {
                row.push(value);
            } else {
                row.push(value.negated());
            }
            j = j + 1;
            proof {
                assert(row@ =~= bias_row(i as int, num_pre as int).take(num_pre + j));
            }
        }
        proof {
            assert(row@ =~= bias_row(i as int, num_pre as int));
        }
        rows.push(row);
        i = i + 1;
        proof {
            assert(matrix::rows_of(rows@) =~= matrix::rows_of(before).push(rows_spec[i - 1]));
            assert(rows_spec.take(i as int) =~= rows_spec.take(i - 1).push(rows_spec[i - 1]));
        }
    }
    proof {
        assert(rows_spec.take(i as int) =~= rows_spec);
    }
    rows
}

/// The program whose optimum is the smallest worst-case bias within a radius.
pub fn bias_program(
    num_pre: usize,
    weighted_sum: Real,
    split: &SplitVariance,
    radius: Real,
) -> (program: ConeProgram)
    requires
        2 * num_pre <= usize::MAX,
        matrix::has_cols(split.rows@, num_pre as int),
    ensures
        is_bias_program(program, num_pre as int, weighted_sum, *split, radius),
{
    let no_weights = filled_row(num_pre, Real::zero());
    let all_weights = filled_row(num_pre, Real::one());
    let objective = appended(all_weights.as_slice(), no_weights.as_slice());
    let inequalities = bias_inequalities(num_pre);
    let mut equalities: Vec<Vec<Real>> = Vec::new();
    equalities.push(appended(no_weights.as_slice(), all_weights.as_slice()));
    let first = filled_row(2 * num_pre, Real::zero());
    let mut soc_rows: Vec<Vec<Real>> = Vec::new();
    soc_rows.push(first);
    let ghost head = seq![zeros(2 * num_pre)];
    let ghost body = Seq::new(
        split.rows@.len(),
        |i: int| zeros(num_pre as int) + split.rows@[i]@,
    );
    let mut i: usize = 0;
    proof {
        assert(matrix::rows_of(soc_rows@) =~= head + body.take(0));
    }
    while i < split.rows.len()
        invariant
            i <= split.rows.len(),
            no_weights@ == zeros(num_pre as int),
            body == Seq::new(
                split.rows@.len(),
                |i: int| zeros(num_pre as int) + split.rows@[i]@,
            ),
            matrix::rows_of(soc_rows@) == head + body.take(i as int),
        decreases split.rows.len() - i,
    {
        let ghost before = soc_rows@;
        soc_rows.push(appended(no_weights.as_slice(), split.rows[i].as_slice()));
        i = i + 1;
        proof {
            assert(matrix::rows_of(soc_rows@) =~= matrix::rows_of(before).push(body[i - 1]));
            assert(body.take(i as int) =~= body.take(i - 1).push(body[i - 1]));
        }
    }
    let mut start = filled_row(2 * num_pre, Real::zero());
    start.push(weighted_sum);
    start.push(radius);
    let rhs = appended(start.as_slice(), split.sides.as_slice());
    proof {
        assert(body.take(i as int) =~= body);
        assert(matrix::rows_of(equalities@) =~= seq![
            zeros(num_pre as int) + ones(num_pre as int),
        ]);
        assert(start@ =~= zeros(2 * num_pre) + seq![weighted_sum, radius]);
    }
    ConeProgram { objective, inequalities, equalities, soc_rows, rhs }
}

/// Every row of the variance is either movable or fixed: the two parts together
/// have as many right-hand sides as there are rows.
pub proof fn split_loses_no_row(rows: Seq<Seq<Real>>, sides: Seq<Real>, end: int)
    requires
        0 <= end <= rows.len(),
        rows.len() == sides.len(),
    ensures
        sides_of(rows, sides, true, end).len() + sides_of(rows, sides, false, end).len() == end,
        sides_of(rows, sides, true, end).len() == movable_rows(rows, end).len(),
    decreases end,
{
    if end > 0 {
        split_loses_no_row(rows, sides, end - 1);
    }
}

/// The linear rows of the program of the least worst-case bias hold at magnitudes
/// `u` and weights `w` exactly where each running sum of the weights is at most
/// its magnitude, and the weights sum to the weighted sum of the post weights; its
/// objective is the sum of the magnitudes.
pub proof fn bias_program_bounds_running_sums(
    program: ConeProgram,
    num_pre: int,
    weighted_sum: Real,
    split: SplitVariance,
    radius: Real,
    point: Seq<int>,
    read: spec_fn(Real) -> int,
)
    requires
        is_bias_program(program, num_pre, weighted_sum, split, radius),
        exact::faithful(read),
        0 <= num_pre,
        point.len() == 2 * num_pre,
    ensures
        ({
            let u = point.take(num_pre);
            let w = point.skip(num_pre);
            &&& exact::inner(
                exact::values(read, program.objective@),
                point,
                2 * num_pre,
            ) == exact::total(u, num_pre)
            &&& program.inequalities@.len() == 2 * num_pre
            &&& (forall|i: int|
                0 <= i < 2 * num_pre ==> exact::inner(
                    exact::values(read, (#[trigger] program.inequalities@[i])@),
                    point,
                    2 * num_pre,
                ) <= read(program.rhs@[i])) <==> (forall|i: int|
                0 <= i < num_pre ==> -u[i] <= #[trigger] exact::total(w, i + 1) <= u[i])
            &&& program.equalities@.len() == 1
            &&& exact::inner(
                exact::values(read, program.equalities@[0]@),
                point,
                2 * num_pre,
            ) == exact::total(w, num_pre)
            &&& program.rhs@[2 * num_pre] == weighted_sum
        }),
{
    let u = point.take(num_pre);
    let w = point.skip(num_pre);
    let n = 2 * num_pre;
    // The objective.
    let objective = exact::values(read, program.objective@);
    exact::inner_with_ones(objective, point, 1, num_pre, n);
    totals_of_equal_entries(point, u, num_pre);
    // The equality.
    assert(matrix::rows_of(program.equalities@).len() == 1);
    assert(matrix::rows_of(program.equalities@)[0] == program.equalities@[0]@);
    let equality = exact::values(read, program.equalities@[0]@);
    exact::inner_of_parts(equality, point, num_pre, num_pre);
    exact::inner_with_ones(equality, point, 1, 0, num_pre);
    exact::inner_with_ones(equality.skip(num_pre), w, 1, num_pre, num_pre);
    // The inequalities.
    let rows = program.inequalities@;
    assert(matrix::rows_of(rows).len() == n);
    assert forall|i: int| 0 <= i < n implies exact::inner(
        exact::values(read, (#[trigger] rows[i])@),
        point,
        n,
    ) == (if i < num_pre {
        exact::total(w, i + 1) - u[i]
    } else {
        -exact::total(w, i - num_pre + 1) - u[i - num_pre]
    }) by {
        assert(matrix::rows_of(rows)[i] == bias_row(i, num_pre));
        assert(rows[i]@ == bias_row(i, num_pre));
        let at = if i < num_pre {
            i
        } else {
            i - num_pre
        };
        let sign: int = if i < num_pre {
            1
        } else {
            -1
        };
        let row = exact::values(read, rows[i]@);
        exact::inner_of_parts(row, point, num_pre, num_pre);
        let unit = Seq::new(
            num_pre as nat,
            |j: int|
                if j == at {
                    1int
                } else {
                    0int
                },
        );
        exact::inner_with_unit(unit, point, at, num_pre);
        negated_entries(unit, row, point, num_pre);
        let zero = Real::zero_spec();
        assert(read(zero.neg_spec()) == -read(zero));
        assert(read(Real::one_spec().neg_spec()) == -read(Real::one_spec()));
        assert forall|j: int| 0 <= j < num_pre implies #[trigger] row.skip(num_pre)[j] == (if j
            < at + 1 {
            sign
        } else {
            0int
        }) by {
            assert(row.skip(num_pre)[j] == row[num_pre + j]);
        }
        exact::inner_with_ones(row.skip(num_pre), w, sign, at + 1, num_pre);
        let sum = exact::total(w, at + 1);
        assert(1 * sum == sum && (-1) * sum == -sum);
        assert(point[at] == u[at]);
    }
    assert forall|i: int| 0 <= i < n implies read(#[trigger] program.rhs@[i]) == 0 by {}
    let holds = forall|i: int|
        0 <= i < n ==> exact::inner(
            exact::values(read, (#[trigger] rows[i])@),
            point,
            n,
        ) <= read(program.rhs@[i]);
    let bounds = forall|i: int|
        0 <= i < num_pre ==> -u[i] <= #[trigger] exact::total(w, i + 1) <= u[i];
    if holds {
        assert forall|i: int| 0 <= i < num_pre implies -u[i] <= #[trigger] exact::total(w, i + 1)
            <= u[i] by {
            assert(exact::inner(exact::values(read, rows[i]@), point, n) <= read(
                program.rhs@[i],
            ));
            assert(exact::inner(exact::values(read, rows[i + num_pre]@), point, n) <= read(
                program.rhs@[i + num_pre],
            ));
        }
        assert(bounds);
    }
    if bounds {
        assert forall|i: int| 0 <= i < n implies exact::inner(
            exact::values(read, (#[trigger] rows[i])@),
            point,
            n,
        ) <= read(program.rhs@[i]) by {
            let at = if i < num_pre {
                i
            } else {
                i - num_pre
            };
            assert(-u[at] <= exact::total(w, at + 1) <= u[at]);
        }
        assert(holds);
    }
}

proof fn totals_of_equal_entries(one: Seq<int>, two: Seq<int>, end: int)
    requires
        forall|i: int| 0 <= i < end ==> one[i] == #[trigger] two[i],
    ensures
        exact::total(one, end) == exact::total(two, end),
    decreases end,
{
    if end > 0 {
        totals_of_equal_entries(one, two, end - 1);
        assert(one[end - 1] == two[end - 1]);
    }
}

proof fn negated_entries(left: Seq<int>, negated: Seq<int>, right: Seq<int>, end: int)
    requires
        forall|i: int| 0 <= i < end ==> negated[i] == -(#[trigger] left[i]),
    ensures
        exact::inner(negated, right, end) == -exact::inner(left, right, end),
    decreases end,
{
    if end > 0 {
        negated_entries(left, negated, right, end - 1);
        let a = left[end - 1];
        let b = right[end - 1];
        assert(negated[end - 1] == -a);
        assert((-a) * b == -(a * b)) by (nonlinear_arith);
    }
}

/// The program of the lowest standard deviation weighs nothing but its last
/// variable, and has the others sum to the weighted sum of the post weights.
pub proof fn lowest_program_minimizes_its_last_variable(
    program: ConeProgram,
    num_pre: int,
    weighted_sum: Real,
    split: SplitVariance,
    constant: Real,
    point: Seq<int>,
    read: spec_fn(Real) -> int,
)
    requires
        is_lowest_program(program, num_pre, weighted_sum, split, constant),
        exact::faithful(read),
        0 <= num_pre,
        point.len() == num_pre + 1,
    ensures
        exact::inner(exact::values(read, program.objective@), point, num_pre + 1) == point[num_pre],
        program.equalities@.len() == 1,
        exact::inner(exact::values(read, program.equalities@[0]@), point, num_pre + 1)
            == exact::total(point, num_pre),
        program.rhs@[0] == weighted_sum,
{
    let objective = exact::values(read, program.objective@);
    exact::inner_with_unit(objective, point, num_pre, num_pre + 1);
    assert(matrix::rows_of(program.equalities@).len() == 1);
    assert(matrix::rows_of(program.equalities@)[0] == program.equalities@[0]@);
    let equality = exact::values(read, program.equalities@[0]@);
    exact::inner_with_ones(equality, point, 1, num_pre, num_pre + 1);
}

} // verus!
