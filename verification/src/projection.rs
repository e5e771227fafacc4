//! Products and projections of constraint rows.

use crate::errors::HonestError;
use crate::exact;
use crate::matrix;
use crate::number::Real;
use crate::study::{IntervalArithmetic, StudyArithmetic};
use vstd::prelude::*;

verus! {

/// The bits of `1e-12`, up to which an entry is left out of a product.
pub const NEGLIGIBLE_BITS: u64 = 0x3d719799812dea11;

// ---------------------------------------------------------------------------
// Rows times a square matrix
// ---------------------------------------------------------------------------

/// Whether `after` is `before` plus a product, or `before` where the left factor
/// is negligible.
pub open spec fn adds_product<A: Fn(Real, Real, Real) -> Real>(
    before: Real,
    left: Real,
    right: Real,
    accumulate: A,
    after: Real,
) -> bool {
    if left.abs_spec().le(Real { bits: NEGLIGIBLE_BITS }) {
        after == before
    } else {
        call_ensures(accumulate, (before, left, right), after)
    }
}

/// Whether `sums` add up the products of a row with a column of a square matrix.
pub open spec fn sums_products<A: Fn(Real, Real, Real) -> Real>(
    sums: Seq<Real>,
    row: Seq<Real>,
    square: Seq<Vec<Real>>,
    col: int,
    accumulate: A,
) -> bool {
    &&& sums.len() >= 1
    &&& sums[0] == Real::zero_spec()
    &&& forall|k: int|
        0 <= k < sums.len() - 1 ==> adds_product(
            sums[k],
            row[k],
            square[k]@[col],
            accumulate,
            #[trigger] sums[k + 1],
        )
}

/// Whether `entry` is the product of a row with a column.
pub open spec fn is_product<A: Fn(Real, Real, Real) -> Real>(
    row: Seq<Real>,
    square: Seq<Vec<Real>>,
    col: int,
    accumulate: A,
    entry: Real,
) -> bool {
    exists|sums: Seq<Real>| #[trigger]
        sums_products(sums, row, square, col, accumulate) && sums.len() == row.len() + 1
            && sums.last() == entry
}

/// Whether `out` is the product of a row with a square matrix.
pub open spec fn is_row_product<A: Fn(Real, Real, Real) -> Real>(
    row: Seq<Real>,
    square: Seq<Vec<Real>>,
    accumulate: A,
    out: Seq<Real>,
) -> bool {
    &&& out.len() == square.len()
    &&& forall|col: int|
        0 <= col < out.len() ==> #[trigger] is_product(row, square, col, accumulate, out[col])
}

/// A row times a square matrix, without the terms of negligible entries.
pub fn multiply_row_by_square_matrix<A: Fn(Real, Real, Real) -> Real>(
    row: &[Real],
    square: &[Vec<Real>],
    accumulate: &A,
) -> (out: Vec<Real>)
    requires
        row.len() == square.len(),
        matrix::has_cols(square@, square@.len() as int),
        forall|a: Real, b: Real, c: Real| #[trigger] call_requires(*accumulate, (a, b, c)),
    ensures
        is_row_product(row@, square@, *accumulate, out@),
{
    let mut out: Vec<Real> = Vec::new();
    while out.len() < square.len()
        invariant
            out.len() <= square.len(),
            row.len() == square.len(),
            matrix::has_cols(square@, square@.len() as int),
            forall|a: Real, b: Real, c: Real| #[trigger] call_requires(*accumulate, (a, b, c)),
            forall|col: int|
                0 <= col < out.len() ==> #[trigger] is_product(
                    row@,
                    square@,
                    col,
                    *accumulate,
                    out@[col],
                ),
        decreases square.len() - out.len(),
    {
        let col: usize = out.len();
        let mut entry = Real::zero();
        let ghost mut sums: Seq<Real> = seq![entry];
        let mut k: usize = 0;
        while k < row.len()
            invariant
                k <= row.len(),
                col < square.len(),
                row.len() == square.len(),
                matrix::has_cols(square@, square@.len() as int),
                sums.len() == k + 1,
                sums.last() == entry,
                sums_products(sums, row@, square@, col as int, *accumulate),
                forall|a: Real, b: Real, c: Real| #[trigger] call_requires(*accumulate, (a, b, c)),
            decreases row.len() - k,
        {
            assert(square@[k as int]@.len() == square@.len());
            let next = if row[k].abs().at_most(Real::from_bits(NEGLIGIBLE_BITS)) {
                entry
            } else {
                accumulate(entry, row[k], square[k][col])
            };
            proof {
                let before = sums;
                sums = sums.push(next);
                assert forall|q: int| 0 <= q < sums.len() - 1 implies adds_product(
                    sums[q],
                    row@[q],
                    square@[q]@[col as int],
                    *accumulate,
                    #[trigger] sums[q + 1],
                ) by {
                    if q < k {
                        assert(sums[q] == before[q]);
                        assert(sums[q + 1] == before[q + 1]);
                    }
                }
            }
            entry = next;
            k = k + 1;
        }
        assert(is_product(row@, square@, col as int, *accumulate, entry));
        out.push(entry);
    }
    out
}

/// Rows times a square matrix, without the terms of negligible entries.
pub fn multiply_rows_by_square_matrix<A: Fn(Real, Real, Real) -> Real>(
    rows: &[Vec<Real>],
    square: &[Vec<Real>],
    accumulate: &A,
) -> (out: Vec<Vec<Real>>)
    requires
        matrix::has_cols(rows@, square@.len() as int),
        matrix::has_cols(square@, square@.len() as int),
        forall|a: Real, b: Real, c: Real| #[trigger] call_requires(*accumulate, (a, b, c)),
    ensures
        out.len() == rows.len(),
        forall|i: int|
            0 <= i < out.len() ==> is_row_product(
                rows@[i]@,
                square@,
                *accumulate,
                (#[trigger] out@[i])@,
            ),
{
    let mut out: Vec<Vec<Real>> = Vec::new();
    while out.len() < rows.len()
        invariant
            out.len() <= rows.len(),
            matrix::has_cols(rows@, square@.len() as int),
            matrix::has_cols(square@, square@.len() as int),
            forall|a: Real, b: Real, c: Real| #[trigger] call_requires(*accumulate, (a, b, c)),
            forall|i: int|
                0 <= i < out.len() ==> is_row_product(
                    rows@[i]@,
                    square@,
                    *accumulate,
                    (#[trigger] out@[i])@,
                ),
        decreases rows.len() - out.len(),
    {
        let i: usize = out.len();
        assert(rows@[i as int]@.len() == square@.len());
        out.push(multiply_row_by_square_matrix(rows[i].as_slice(), square, accumulate));
    }
    out
}

// ---------------------------------------------------------------------------
// The projection of a hybrid test
// ---------------------------------------------------------------------------

/// Whether `normal` holds the products of the rows with each other, each row's
/// product with itself raised a little.
pub open spec fn is_normal_matrix<A: StudyArithmetic>(rows: Seq<Vec<Real>>, numbers: A, normal: Seq<Vec<Real>>) -> bool {
    &&& normal.len() == rows.len()
    &&& matrix::has_cols(normal, rows.len() as int)
    &&& forall|i: int, j: int|
        0 <= i < rows.len() && 0 <= j < rows.len() ==> is_normal_entry(
            rows,
            i,
            j,
            numbers,
            #[trigger] normal[i]@[j],
        )
}

/// Whether `entry` is the product of two rows, raised where they are one.
pub open spec fn is_normal_entry<A: StudyArithmetic>(rows: Seq<Vec<Real>>, i: int, j: int, numbers: A, entry: Real) -> bool {
    if i == j {
        exists|square: Real| #[trigger]
            numbers.produces(rows[i], rows[i], square) && numbers.raises(square, entry)
    } else {
        numbers.produces(rows[i], rows[j], entry)
    }
}

/// Whether `rhs` holds the products of the rows with a vector.
pub open spec fn multiplies<A: StudyArithmetic>(
    rows: Seq<Vec<Real>>,
    vector: Vec<Real>,
    numbers: A,
    rhs: Seq<Real>,
) -> bool {
    &&& rhs.len() == rows.len()
    &&& forall|i: int|
        0 <= i < rows.len() ==> numbers.produces(
            rows[i],
            vector,
            #[trigger] rhs[i],
        )
}

/// Whether all values are finite.
pub open spec fn all_finite(values: Seq<Real>) -> bool {
    forall|i: int| 0 <= i < values.len() ==> (#[trigger] values[i]).finite()
}

/// Whether `out` is the projection of a vector on rows: the solution of their
/// normal equations, if it is finite.
pub open spec fn projected<A: StudyArithmetic>(
    rows: Seq<Vec<Real>>,
    vector: Vec<Real>,
    numbers: A,
    normal: Vec<Vec<Real>>,
    rhs: Vec<Real>,
    solved: Result<Vec<Real>, HonestError>,
    out: Result<Vec<Real>, HonestError>,
) -> bool {
    &&& is_normal_matrix(rows, numbers, normal@)
    &&& multiplies(rows, vector, numbers, rhs@)
    &&& numbers.framer().solves(normal, rhs, solved)
    &&& out == (match solved {
        Err(error) => Err::<Vec<Real>, HonestError>(error),
        Ok(found) => if all_finite(found@) {
            Ok::<Vec<Real>, HonestError>(found)
        } else {
            Err::<Vec<Real>, HonestError>(HonestError::ProjectionNotFinite)
        },
    })
}

fn is_all_finite(values: &[Real]) -> (r: bool)
    ensures
        r == all_finite(values@),
{
    let mut i: usize = 0;
    while i < values.len()
        invariant
            i <= values.len(),
            forall|k: int| 0 <= k < i ==> (#[trigger] values@[k]).finite(),
        decreases values.len() - i,
    {
        if !values[i].is_finite() {
            assert(!values@[i as int].finite());
            return false;
        }
        i = i + 1;
    }
    true
}

/// The projection of the optimal estimator on the constraint rows.
pub fn solve_vbar_projection<A: StudyArithmetic>(
    rows: &Vec<Vec<Real>>,
    vector: &Vec<Real>,
    numbers: &A,
) -> (out: Result<Vec<Real>, HonestError>)
    requires
        numbers.ready(),
    ensures
        exists|normal: Vec<Vec<Real>>, rhs: Vec<Real>, solved: Result<Vec<Real>, HonestError>|
         #[trigger]
            projected(
                rows@,
                *vector,
                *numbers,
                normal,
                rhs,
                solved,
                out,
            ),
{
    let n: usize = rows.len();
    let mut normal: Vec<Vec<Real>> = Vec::new();
    let mut rhs: Vec<Real> = Vec::new();
    while normal.len() < n
        invariant
            n == rows.len(),
            normal.len() <= n,
            rhs.len() == normal.len(),
            matrix::has_cols(normal@, n as int),
            numbers.ready(),
            forall|i: int, j: int|
                0 <= i < normal.len() && 0 <= j < n ==> is_normal_entry(
                    rows@,
                    i,
                    j,
                    *numbers,
                    #[trigger] normal@[i]@[j],
                ),
            forall|i: int|
                0 <= i < rhs.len() ==> numbers.produces(
                    rows@[i],
                    *vector,
                    #[trigger] rhs@[i],
                ),
        decreases n - normal.len(),
    {
        let i: usize = normal.len();
        rhs.push(numbers.product(&rows[i], vector));
        let mut row: Vec<Real> = Vec::new();
        while row.len() < n
            invariant
                n == rows.len(),
                i < n,
                row.len() <= n,
                numbers.ready(),
                forall|j: int|
                    0 <= j < row.len() ==> is_normal_entry(
                        rows@,
                        i as int,
                        j,
                        *numbers,
                        #[trigger] row@[j],
                    ),
            decreases n - row.len(),
        {
            let j: usize = row.len();
            let entry = numbers.product(&rows[i], &rows[j]);
            if i == j {
                let raised = numbers.raise(entry);
                assert(is_normal_entry(rows@, i as int, j as int, *numbers, raised));
                row.push(raised);
            } else {
                row.push(entry);
            }
        }
        normal.push(row);
    }
    let solved = numbers.intervals().solve_system(&normal, &rhs);
    let ghost said = solved;
    let out = match solved {
        Err(error) => Err(error),
        Ok(found) => if is_all_finite(&found) {
            Ok(found)
        } else {
            Err(HonestError::ProjectionNotFinite)
        },
    };
    assert(projected(
        rows@,
        *vector,
        *numbers,
        normal,
        rhs,
        said,
        out,
    ));
    out
}

// ---------------------------------------------------------------------------
// The variance of an estimator
// ---------------------------------------------------------------------------

/// Whether `sums` add up the weights times the entries of the post periods in
/// a column of the factor of the covariance.
pub open spec fn sums_weights<I: IntervalArithmetic>(
    sums: Seq<Real>,
    lower: Seq<Vec<Real>>,
    num_pre: int,
    weights: Seq<Real>,
    row: int,
    numbers: I,
) -> bool {
    &&& sums.len() >= 1
    &&& sums[0] == Real::zero_spec()
    &&& forall|k: int|
        0 <= k < sums.len() - 1 ==> numbers.accumulates(
            sums[k],
            lower[num_pre + k]@[row],
            weights[k],
            #[trigger] sums[k + 1],
        )
}

/// Whether `side` is the part of a row of the variance that the weights fix.
pub open spec fn is_side<I: IntervalArithmetic>(
    lower: Seq<Vec<Real>>,
    num_pre: int,
    weights: Seq<Real>,
    row: int,
    numbers: I,
    side: Real,
) -> bool {
    exists|sums: Seq<Real>| #[trigger]
        sums_weights(sums, lower, num_pre, weights, row, numbers) && sums.len()
            == weights.len() + 1 && sums.last() == side
}

/// Whether `entry` is what a pre period moves in a row of the variance: its entry
/// in the factor less that of the next pre period, where there is one.
pub open spec fn is_movable_entry<I: IntervalArithmetic>(
    lower: Seq<Vec<Real>>,
    num_pre: int,
    row: int,
    col: int,
    numbers: I,
    entry: Real,
) -> bool {
    numbers.lessens(
        lower[col]@[row],
        if col + 1 < num_pre {
            Some(lower[col + 1]@[row])
        } else {
            None
        },
        entry,
    )
}

fn side_of<I: IntervalArithmetic>(
    lower: &[Vec<Real>],
    num_pre: usize,
    weights: &[Real],
    row: usize,
    numbers: &I,
) -> (side: Real)
    requires
        num_pre + weights.len() <= lower.len(),
        matrix::has_cols(lower@, lower@.len() as int),
        row < lower.len(),
        numbers.ready(),
    ensures
        is_side(lower@, num_pre as int, weights@, row as int, *numbers, side),
{
    let mut side = Real::zero();
    let ghost mut sums: Seq<Real> = seq![side];
    let mut k: usize = 0;
    while k < weights.len()
        invariant
            k <= weights.len(),
            num_pre + weights.len() <= lower.len(),
            matrix::has_cols(lower@, lower@.len() as int),
            row < lower.len(),
            sums.len() == k + 1,
            sums.last() == side,
            sums_weights(sums, lower@, num_pre as int, weights@, row as int, *numbers),
            numbers.ready(),
        decreases weights.len() - k,
    {
        assert(lower@[num_pre + k]@.len() == lower@.len());
        let next = numbers.accumulate(side, lower[num_pre + k][row], weights[k]);
        proof {
            let before = sums;
            sums = sums.push(next);
            assert forall|q: int| 0 <= q < sums.len() - 1 implies numbers.accumulates(
                sums[q],
                lower@[num_pre + q]@[row as int],
                weights@[q],
                #[trigger] sums[q + 1],
            ) by {
                if q < k {
                    assert(sums[q] == before[q]);
                    assert(sums[q + 1] == before[q + 1]);
                }
            }
        }
        side = next;
        k = k + 1;
    }
    side
}

/// Whether `rows` hold what the pre periods move in the variance of an
/// estimator, and `sides` what the weights of the post periods fix.
pub open spec fn terms_of<I: IntervalArithmetic>(
    lower: Seq<Vec<Real>>,
    num_pre: int,
    weights: Seq<Real>,
    numbers: I,
    rows: Seq<Vec<Real>>,
    sides: Seq<Real>,
) -> bool {
    &&& rows.len() == lower.len()
    &&& sides.len() == lower.len()
    &&& matrix::has_cols(rows, num_pre)
    &&& forall|row: int, col: int|
        0 <= row < lower.len() && 0 <= col < num_pre ==> is_movable_entry(
            lower,
            num_pre,
            row,
            col,
            numbers,
            #[trigger] rows[row]@[col],
        )
    &&& forall|row: int|
        0 <= row < lower.len() ==> is_side(
            lower,
            num_pre,
            weights,
            row,
            numbers,
            #[trigger] sides[row],
        )
}

/// The rows of the variance of an estimator, from the factor of the covariance:
/// what the pre periods move, and what the weights of the post periods fix.
pub fn build_variance_soc_terms<I: IntervalArithmetic>(
    lower: &[Vec<Real>],
    num_pre: usize,
    weights: &[Real],
    numbers: &I,
) -> (terms: (Vec<Vec<Real>>, Vec<Real>))
    requires
        num_pre + weights.len() <= lower.len(),
        matrix::has_cols(lower@, lower@.len() as int),
        numbers.ready(),
    ensures
        terms_of(lower@, num_pre as int, weights@, *numbers, terms.0@, terms.1@),
{
    let n: usize = lower.len();
    let mut movable: Vec<Vec<Real>> = Vec::new();
    let mut sides: Vec<Real> = Vec::new();
    while sides.len() < n
        invariant
            n == lower.len(),
            sides.len() <= n,
            movable.len() == sides.len(),
            num_pre + weights.len() <= n,
            matrix::has_cols(lower@, lower@.len() as int),
            matrix::has_cols(movable@, num_pre as int),
            numbers.ready(),
            forall|row: int, col: int|
                0 <= row < movable.len() && 0 <= col < num_pre ==> is_movable_entry(
                    lower@,
                    num_pre as int,
                    row,
                    col,
                    *numbers,
                    #[trigger] movable@[row]@[col],
                ),
            forall|row: int|
                0 <= row < sides.len() ==> is_side(
                    lower@,
                    num_pre as int,
                    weights@,
                    row,
                    *numbers,
                    #[trigger] sides@[row],
                ),
        decreases n - sides.len(),
    {
        let row: usize = sides.len();
        let mut entries: Vec<Real> = Vec::new();
        while entries.len() < num_pre
            invariant
                n == lower.len(),
                row < n,
                entries.len() <= num_pre,
                num_pre <= n,
                numbers.ready(),
                matrix::has_cols(lower@, lower@.len() as int),
                forall|col: int|
                    0 <= col < entries.len() ==> is_movable_entry(
                        lower@,
                        num_pre as int,
                        row as int,
                        col,
                        *numbers,
                        #[trigger] entries@[col],
                    ),
            decreases num_pre - entries.len(),
        {
            let col: usize = entries.len();
            assert(lower@[col as int]@.len() == n);
            let next: Option<Real> = if num_pre - col > 1 {
                assert(lower@[col + 1]@.len() == n);
                Some(lower[col + 1][row])
            } else {
                None
            };
            entries.push(numbers.less(lower[col][row], next));
        }
        sides.push(side_of(lower, num_pre, weights, row, numbers));
        movable.push(entries);
    }
    (movable, sides)
}

proof fn sums_are_inner_products<A: Fn(Real, Real, Real) -> Real>(
    sums: Seq<Real>,
    row: Seq<Real>,
    square: Seq<Vec<Real>>,
    col: int,
    accumulate: A,
    read: spec_fn(Real) -> int,
    end: int,
)
    requires
        sums_products(sums, row, square, col, accumulate),
        0 <= end < sums.len(),
        end <= row.len(),
        end <= square.len(),
        read(Real::zero_spec()) == 0,
        forall|x: Real|
            (#[trigger] x.abs_spec()).le(Real { bits: NEGLIGIBLE_BITS }) ==> read(x) == 0,
        forall|sum: Real, left: Real, right: Real, total: Real| #[trigger]
            call_ensures(accumulate, (sum, left, right), total) ==> read(total) == read(sum) + read(
                left,
            ) * read(right),
    ensures
        read(sums[end]) == exact::inner(
            exact::values(read, row),
            Seq::new(square.len(), |k: int| read(square[k]@[col])),
            end,
        ),
    decreases end,
{
    if end > 0 {
        sums_are_inner_products(sums, row, square, col, accumulate, read, end - 1);
        assert(adds_product(
            sums[end - 1],
            row[end - 1],
            square[end - 1]@[col],
            accumulate,
            sums[end - 1 + 1],
        ));
    }
}

/// A row times a square matrix has the row's inner products with the columns,
/// where sums are exact under a reading and negligible entries read as zero.
pub proof fn a_row_product_is_inner_products<A: Fn(Real, Real, Real) -> Real>(
    row: Seq<Real>,
    square: Seq<Vec<Real>>,
    accumulate: A,
    out: Seq<Real>,
    read: spec_fn(Real) -> int,
    col: int,
)
    requires
        is_row_product(row, square, accumulate, out),
        row.len() == square.len(),
        0 <= col < square.len(),
        read(Real::zero_spec()) == 0,
        forall|x: Real|
            (#[trigger] x.abs_spec()).le(Real { bits: NEGLIGIBLE_BITS }) ==> read(x) == 0,
        forall|sum: Real, left: Real, right: Real, total: Real| #[trigger]
            call_ensures(accumulate, (sum, left, right), total) ==> read(total) == read(sum) + read(
                left,
            ) * read(right),
    ensures
        out.len() == square.len(),
        read(out[col]) == exact::inner(
            exact::values(read, row),
            Seq::new(square.len(), |k: int| read(square[k]@[col])),
            square.len() as int,
        ),
{
    assert(is_product(row, square, col, accumulate, out[col]));
    let sums = choose|sums: Seq<Real>| #[trigger]
        sums_products(sums, row, square, col, accumulate) && sums.len() == row.len() + 1
            && sums.last() == out[col];
    sums_are_inner_products(sums, row, square, col, accumulate, read, row.len() as int);
}

/// Whether sums and differences of the variance's terms are exact under a reading.
pub open spec fn exact_terms<I: IntervalArithmetic>(
    numbers: I,
    read: spec_fn(Real) -> int,
) -> bool {
    &&& read(Real::zero_spec()) == 0
    &&& forall|entry: Real, next: Option<Real>, left: Real| #[trigger]
        numbers.lessens(entry, next, left) ==> read(left) == read(entry) - (match next {
            Some(other) => read(other),
            None => 0int,
        })
    &&& forall|sum: Real, left: Real, right: Real, total: Real| #[trigger]
        numbers.accumulates(sum, left, right, total) ==> read(total) == read(sum) + read(left)
            * read(right)
}

proof fn sides_are_inner_products<I: IntervalArithmetic>(
    sums: Seq<Real>,
    lower: Seq<Vec<Real>>,
    num_pre: int,
    weights: Seq<Real>,
    row: int,
    numbers: I,
    read: spec_fn(Real) -> int,
    end: int,
)
    requires
        exact_terms(numbers, read),
        sums_weights(sums, lower, num_pre, weights, row, numbers),
        0 <= end < sums.len(),
        end <= weights.len(),
        0 <= num_pre,
        num_pre + weights.len() <= lower.len(),
    ensures
        read(sums[end]) == exact::inner(
            factor_column(lower, row, read).skip(num_pre),
            exact::values(read, weights),
            end,
        ),
    decreases end,
{
    if end > 0 {
        sides_are_inner_products(sums, lower, num_pre, weights, row, numbers, read, end - 1);
        assert(numbers.accumulates(
            sums[end - 1],
            lower[num_pre + end - 1]@[row],
            weights[end - 1],
            sums[end - 1 + 1],
        ));
    }
}

/// The readings of one column of a factor.
pub open spec fn factor_column(
    lower: Seq<Vec<Real>>,
    row: int,
    read: spec_fn(Real) -> int,
) -> Seq<int> {
    Seq::new(lower.len(), |k: int| read(lower[k]@[row]))
}

proof fn movable_rows_weigh_differences<I: IntervalArithmetic>(
    lower: Seq<Vec<Real>>,
    num_pre: int,
    weights: Seq<Real>,
    numbers: I,
    rows: Seq<Vec<Real>>,
    sides: Seq<Real>,
    row: int,
    sums: Seq<int>,
    steps: Seq<int>,
    read: spec_fn(Real) -> int,
    end: int,
)
    requires
        exact_terms(numbers, read),
        terms_of(lower, num_pre, weights, numbers, rows, sides),
        0 <= row < lower.len(),
        0 <= end <= num_pre <= lower.len(),
        forall|k: int|
            0 <= k < num_pre ==> #[trigger] steps[k] == sums[k] - (if k > 0 {
                sums[k - 1]
            } else {
                0int
            }),
    ensures
        exact::inner(exact::values(read, rows[row]@), sums, end) == exact::inner(
            factor_column(lower, row, read),
            steps,
            end,
        ) - (if 0 < end < num_pre {
            factor_column(lower, row, read)[end] * sums[end - 1]
        } else {
            0
        }),
    decreases end,
{
    if end > 0 {
        movable_rows_weigh_differences(
            lower,
            num_pre,
            weights,
            numbers,
            rows,
            sides,
            row,
            sums,
            steps,
            read,
            end - 1,
        );
        let at = end - 1;
        let column = factor_column(lower, row, read);
        assert(rows[row]@.len() == num_pre);
        assert(is_movable_entry(lower, num_pre, row, at, numbers, rows[row]@[at]));
        let here = column[at];
        let next = if end < num_pre {
            column[end]
        } else {
            0
        };
        let before = if at > 0 {
            sums[at - 1]
        } else {
            0
        };
        let s = sums[at];
        assert(read(rows[row]@[at]) == here - next);
        assert(steps[at] == s - before);
        assert((here - next) * s == here * (s - before) + here * before - next * s)
            by (nonlinear_arith);
        assert(here * 0 == 0 && 0 * s == 0);
    }
}

/// Each row of the variance of an estimator, with its movable part at the running
/// sums of the pre weights, is the estimator's inner product with a column of the
/// factor of the covariance, so that their squares sum to its variance.
pub proof fn variance_rows_are_the_estimator_in_the_factor<I: IntervalArithmetic>(
    lower: Seq<Vec<Real>>,
    num_pre: int,
    weights: Seq<Real>,
    numbers: I,
    rows: Seq<Vec<Real>>,
    sides: Seq<Real>,
    row: int,
    estimator: Seq<int>,
    sums: Seq<int>,
    read: spec_fn(Real) -> int,
)
    requires
        exact_terms(numbers, read),
        terms_of(lower, num_pre, weights, numbers, rows, sides),
        0 <= num_pre,
        lower.len() == num_pre + weights.len(),
        0 <= row < lower.len(),
        estimator.len() == lower.len(),
        estimator.skip(num_pre) == exact::values(read, weights),
        forall|k: int|
            0 <= k < num_pre ==> #[trigger] sums[k] == exact::total(estimator, k + 1),
    ensures
        exact::inner(exact::values(read, rows[row]@), sums, num_pre) + read(sides[row])
            == exact::inner(
            factor_column(lower, row, read),
            estimator,
            lower.len() as int,
        ),
{
    let column = factor_column(lower, row, read);
    assert forall|k: int| 0 <= k < num_pre implies #[trigger] estimator[k] == sums[k] - (if k > 0 {
        sums[k - 1]
    } else {
        0int
    }) by {
        assert(sums[k] == exact::total(estimator, k + 1));
        if k > 0 {
            assert(sums[k - 1] == exact::total(estimator, k - 1 + 1));
        } else {
            assert(exact::total(estimator, 0) == 0);
        }
    }
    movable_rows_weigh_differences(
        lower,
        num_pre,
        weights,
        numbers,
        rows,
        sides,
        row,
        sums,
        estimator,
        read,
        num_pre,
    );
    assert(is_side(lower, num_pre, weights, row, numbers, sides[row]));
    let partial = choose|partial: Seq<Real>| #[trigger]
        sums_weights(partial, lower, num_pre, weights, row, numbers) && partial.len()
            == weights.len() + 1 && partial.last() == sides[row];
    sides_are_inner_products(
        partial,
        lower,
        num_pre,
        weights,
        row,
        numbers,
        read,
        weights.len() as int,
    );
    exact::inner_of_parts(column, estimator, num_pre, weights.len() as int);
}

/// The projection of a vector on rows solves their normal equations, but for the
/// little that each row's product with itself is raised by: what the rows make of the
/// combination of the rows with the projection is what they make of the vector.
pub proof fn a_projection_solves_the_normal_equations<A: StudyArithmetic>(
    rows: Seq<Vec<Real>>,
    vector: Vec<Real>,
    numbers: A,
    normal: Vec<Vec<Real>>,
    rhs: Vec<Real>,
    solved: Result<Vec<Real>, HonestError>,
    found: Vec<Real>,
    ridge: int,
    read: spec_fn(Real) -> int,
    i: int,
)
    requires
        projected(rows, vector, numbers, normal, rhs, solved, Ok(found)),
        matrix::has_cols(rows, vector@.len() as int),
        0 <= i < rows.len(),
        forall|left: Vec<Real>, right: Vec<Real>, product: Real|
            left@.len() == right@.len() && #[trigger] numbers.produces(left, right, product)
                ==> read(product) == exact::inner(
                exact::values(read, left@),
                exact::values(read, right@),
                left@.len() as int,
            ),
        forall|value: Real, raised: Real| #[trigger]
            numbers.raises(value, raised) ==> read(raised) == read(value) + ridge,
        forall|matrix: Vec<Vec<Real>>, right: Vec<Real>, solution: Vec<Real>| #[trigger]
            numbers.framer().solves(matrix, right, Ok(solution)) ==> solution@.len() == right@.len()
                && forall|k: int|
                0 <= k < right@.len() ==> exact::inner(
                    exact::values(read, matrix@[k]@),
                    exact::values(read, solution@),
                    right@.len() as int,
                ) == read(#[trigger] right@[k]),
    ensures
        found@.len() == rows.len(),
        exact::inner(
            Seq::new(
                rows.len(),
                |j: int|
                    exact::inner(
                        exact::values(read, rows[i]@),
                        exact::values(read, rows[j]@),
                        vector@.len() as int,
                    ),
            ),
            exact::values(read, found@),
            rows.len() as int,
        ) + ridge * read(found@[i]) == exact::inner(
            exact::values(read, rows[i]@),
            exact::values(read, vector@),
            vector@.len() as int,
        ),
{
    let n = rows.len() as int;
    let width = vector@.len() as int;
    assert(solved == Ok::<Vec<Real>, HonestError>(found));
    assert(numbers.framer().solves(normal, rhs, Ok(found)));
    assert(rows[i]@.len() == width);
    assert(numbers.produces(rows[i], vector, rhs@[i]));
    let gram = Seq::new(
        rows.len(),
        |j: int|
            exact::inner(exact::values(read, rows[i]@), exact::values(read, rows[j]@), width),
    );
    let line = exact::values(read, normal@[i]@);
    assert(normal@[i]@.len() == n);
    assert forall|j: int| 0 <= j < n implies #[trigger] line[j] == gram[j] + (if j == i {
        ridge
    } else {
        0int
    }) by {
        assert(rows[j]@.len() == width);
        assert(is_normal_entry(rows, i, j, numbers, normal@[i]@[j]));
        if i == j {
            let square = choose|square: Real| #[trigger]
                numbers.produces(rows[i], rows[i], square) && numbers.raises(
                    square,
                    normal@[i]@[j],
                );
            assert(read(square) == gram[j]);
        }
    }
    exact::inner_of_one_more(gram, line, exact::values(read, found@), i, ridge, n);
}

} // verus!
