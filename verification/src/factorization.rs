//! The inverse of a basis: its factorisation and its change along a pivot.

use crate::dense_simplex;
use crate::dense_simplex::factor_pivot_row;
use crate::elimination;
use crate::lp_arithmetic::LpArithmetic;
use crate::matrix;
use crate::matrix::{columns_from, copy_row, tabulate};
use crate::number::Real;
use crate::simplex::{LpError, SINGULAR_BITS};
use vstd::prelude::*;

verus! {

// ---------------------------------------------------------------------------
// Arithmetic
// ---------------------------------------------------------------------------

/// Whether `scaled` is a row times a factor.
pub open spec fn is_scaled_row<T: LpArithmetic>(
    numbers: T,
    row: Seq<Real>,
    factor: Real,
    scaled: Seq<Real>,
) -> bool {
    &&& scaled.len() == row.len()
    &&& forall|c: int|
        0 <= c < row.len() ==> numbers.multiplies(row[c], factor, #[trigger] scaled[c])
}

/// Whether `cleared` is a row less a factor times the pivot row; a row whose
/// factor is zero stays as it is.
pub open spec fn is_cleared_row<T: LpArithmetic>(
    numbers: T,
    row: Seq<Real>,
    factor: Real,
    pivot: Seq<Real>,
    cleared: Seq<Real>,
) -> bool {
    if factor.same_value(Real::zero_spec()) {
        cleared == row
    } else {
        &&& cleared.len() == row.len()
        &&& forall|c: int|
            0 <= c < row.len() ==> numbers.eliminates(
                row[c],
                factor,
                pivot[c],
                #[trigger] cleared[c],
            )
    }
}

fn scale_row<T: LpArithmetic>(row: &Vec<Real>, factor: Real, numbers: &T) -> (scaled:
    Vec<Real>)
    requires
        numbers.ready(),
    ensures
        is_scaled_row(*numbers, row@, factor, scaled@),
{
    let mut scaled: Vec<Real> = Vec::new();
    while scaled.len() < row.len()
        invariant
            scaled.len() <= row.len(),
            numbers.ready(),
            forall|c: int|
                0 <= c < scaled.len() ==> numbers.multiplies(
                    row@[c],
                    factor,
                    #[trigger] scaled@[c],
                ),
        decreases row.len() - scaled.len(),
    {
        let c: usize = scaled.len();
        scaled.push(numbers.multiply(row[c], factor));
    }
    scaled
}

fn clear_row<T: LpArithmetic>(
    row: &Vec<Real>,
    factor: Real,
    pivot: &Vec<Real>,
    numbers: &T,
) -> (cleared: Vec<Real>)
    requires
        row@.len() == pivot@.len(),
        numbers.ready(),
    ensures
        is_cleared_row(*numbers, row@, factor, pivot@, cleared@),
        cleared@.len() == row@.len(),
{
    if factor.equals(Real::zero()) {
        return copy_row(row.as_slice());
    }
    let mut cleared: Vec<Real> = Vec::new();
    while cleared.len() < row.len()
        invariant
            cleared.len() <= row.len(),
            row@.len() == pivot@.len(),
            numbers.ready(),
            forall|c: int|
                0 <= c < cleared.len() ==> numbers.eliminates(
                    row@[c],
                    factor,
                    pivot@[c],
                    #[trigger] cleared@[c],
                ),
        decreases row.len() - cleared.len(),
    {
        let c: usize = cleared.len();
        cleared.push(numbers.eliminate(row[c], factor, pivot[c]));
    }
    cleared
}

// ---------------------------------------------------------------------------
// Factorisation
// ---------------------------------------------------------------------------

/// One column of a factorisation: the row that is pivoted on comes to its place,
/// is divided by its pivot and taken off all others.
pub open spec fn is_factor_step<T: LpArithmetic>(
    numbers: T,
    k: int,
    before: Seq<Seq<Real>>,
    reciprocal: Real,
    after: Seq<Seq<Real>>,
) -> bool {
    let swapped = elimination::exchanged(before, k, pivot_at(before, k));
    &&& numbers.inverts(swapped[k][k], reciprocal)
    &&& after.len() == before.len()
    &&& is_scaled_row(numbers, swapped[k], reciprocal, after[k])
    &&& forall|i: int|
        0 <= i < after.len() && i != k ==> is_cleared_row(
            numbers,
            swapped[i],
            swapped[i][k],
            after[k],
            #[trigger] after[i],
        )
}

/// One column of a factorisation whose pivot does not count as zero.
pub open spec fn is_regular_step<T: LpArithmetic>(
    numbers: T,
    k: int,
    before: Seq<Seq<Real>>,
    reciprocal: Real,
    after: Seq<Seq<Real>>,
) -> bool {
    !is_singular_at(before, k) && is_factor_step(numbers, k, before, reciprocal, after)
}

/// The entries of a column.
pub open spec fn column_of(rows: Seq<Seq<Real>>, k: int) -> Seq<Real> {
    Seq::new(rows.len(), |i: int| rows[i][k])
}

/// The row that is pivoted on in a column.
pub open spec fn pivot_at(rows: Seq<Seq<Real>>, k: int) -> int {
    dense_simplex::pivot_scan(column_of(rows, k), k, rows.len() as int)
}

/// Whether the entry that would be pivoted on in a column counts as zero.
pub open spec fn is_singular_at(rows: Seq<Seq<Real>>, k: int) -> bool {
    rows[pivot_at(rows, k)][k].abs_spec().lt(Real { bits: SINGULAR_BITS })
}

/// A square matrix with the identity beside it.
pub open spec fn with_identity(rows: Seq<Seq<Real>>) -> Seq<Seq<Real>> {
    Seq::new(
        rows.len(),
        |i: int|
            Seq::new(
                2 * rows.len(),
                |j: int|
                    if j < rows.len() {
                        rows[i][j]
                    } else if j == rows.len() + i {
                        Real::one_spec()
                    } else {
                        Real::zero_spec()
                    },
            ),
    )
}

/// The right halves of rows.
pub open spec fn right_halves(rows: Seq<Seq<Real>>) -> Seq<Seq<Real>> {
    Seq::new(
        rows.len(),
        |i: int| rows[i].subrange(rows.len() as int, rows[i].len() as int),
    )
}

/// What a factorisation went through.
pub struct FactorRun {
    /// The rows before each column, and at the end.
    pub states: Seq<Seq<Seq<Real>>>,
    /// One over each pivot.
    pub reciprocals: Seq<Real>,
}

impl FactorRun {
    /// Whether `out` is the inverse of a matrix by elimination column by column:
    /// nothing where a pivot counts as zero.
    pub open spec fn explains<T: LpArithmetic>(
        self,
        numbers: T,
        square: Seq<Seq<Real>>,
        out: Option<Seq<Seq<Real>>>,
    ) -> bool {
        let done = self.states.len() - 1;
        &&& 0 <= done <= square.len()
        &&& self.reciprocals.len() == done
        &&& self.states[0] == with_identity(square)
        &&& forall|k: int|
            0 <= k < done ==> is_regular_step(
                numbers,
                k,
                self.states[k],
                self.reciprocals[k],
                #[trigger] self.states[k + 1],
            )
        &&& match out {
            None => done < square.len() && is_singular_at(self.states[done], done),
            Some(inverse) => done == square.len() && inverse == right_halves(self.states[done]),
        }
    }
}

/// Rows or nothing, as sequences.
pub open spec fn inverse_view(found: Option<Vec<Vec<Real>>>) -> Option<Seq<Seq<Real>>> {
    match found {
        Some(rows) => Some(matrix::rows_of(rows@)),
        None => None,
    }
}

proof fn pivot_is_in_range(column: Seq<Real>, k: int, end: int)
    requires
        k < end,
    ensures
        k <= dense_simplex::pivot_scan(column, k, end) < end,
    decreases end - k,
{
    if end > k + 1 {
        pivot_is_in_range(column, k, end - 1);
    }
}

fn exchange_rows(rows: &mut Vec<Vec<Real>>, a: usize, b: usize)
    requires
        a < old(rows)@.len(),
        b < old(rows)@.len(),
    ensures
        matrix::rows_of(final(rows)@) == elimination::exchanged(
            matrix::rows_of(old(rows)@),
            a as int,
            b as int,
        ),
{
    let first = copy_row(rows[a].as_slice());
    let second = copy_row(rows[b].as_slice());
    let ghost before = matrix::rows_of(rows@);
    rows.set(a, second);
    rows.set(b, first);
    assert(matrix::rows_of(rows@) =~= elimination::exchanged(before, a as int, b as int));
}

fn factor_column<T: LpArithmetic>(rows: &mut Vec<Vec<Real>>, k: usize, numbers: &T) -> (reciprocal: Option<
    Real,
>)
    requires
        k < old(rows)@.len(),
        2 * old(rows)@.len() <= usize::MAX,
        matrix::has_cols(old(rows)@, (2 * old(rows)@.len()) as int),
        numbers.ready(),
    ensures
        final(rows)@.len() == old(rows)@.len(),
        matrix::has_cols(final(rows)@, (2 * old(rows)@.len()) as int),
        match reciprocal {
            None => is_singular_at(matrix::rows_of(old(rows)@), k as int),
            Some(found) => is_regular_step(
                *numbers,
                k as int,
                matrix::rows_of(old(rows)@),
                found,
                matrix::rows_of(final(rows)@),
            ),
        },
{
    let ghost before = matrix::rows_of(rows@);
    let m: usize = rows.len();
    let width: usize = 2 * m;
    let mut column: Vec<Real> = Vec::new();
    while column.len() < m
        invariant
            column.len() <= m,
            rows@.len() == m,
            k < m,
            width == 2 * m,
            matrix::has_cols(rows@, width as int),
            before == matrix::rows_of(rows@),
            forall|i: int| 0 <= i < column.len() ==> #[trigger] column@[i] == before[i][k as int],
        decreases m - column.len(),
    {
        let i: usize = column.len();
        assert(rows@[i as int]@.len() == width);
        column.push(rows[i][k]);
    }
    assert(column@ =~= column_of(before, k as int));
    proof {
        pivot_is_in_range(column@, k as int, m as int);
    }
    let pivot: usize = match factor_pivot_row(column.as_slice(), k) {
        None => {
            return None;
        },
        Some(pivot) => pivot,
    };
    exchange_rows(rows, k, pivot);
    let ghost swapped = elimination::exchanged(before, k as int, pivot as int);
    proof {
        assert(matrix::rows_of(rows@).len() == m);
        assert forall|i: int| 0 <= i < rows@.len() implies (#[trigger] rows@[i])@.len()
            == width by {
            assert(matrix::rows_of(rows@)[i] == swapped[i]);
            assert(old(rows)@[k as int]@.len() == width);
            assert(old(rows)@[pivot as int]@.len() == width);
            assert(old(rows)@[i]@.len() == width);
        }
        assert(rows@[k as int]@.len() == width);
    }
    let reciprocal = numbers.reciprocal(rows[k][k]);
    let scaled = scale_row(&rows[k], reciprocal, numbers);
    let mut i: usize = 0;
    while i < m
        invariant
            i <= m,
            k < m,
            width == 2 * m,
            rows@.len() == m,
            swapped.len() == m,
            numbers.ready(),
            scaled@.len() == width,
            matrix::has_cols(rows@, width as int),
            forall|j: int| 0 <= j < m ==> (#[trigger] swapped[j]).len() == width,
            is_scaled_row(*numbers, swapped[k as int], reciprocal, scaled@),
            forall|j: int|
                i <= j < m ==> #[trigger] matrix::rows_of(rows@)[j] == swapped[j],
            forall|j: int|
                0 <= j < i ==> if j == k {
                    #[trigger] matrix::rows_of(rows@)[j] == scaled@
                } else {
                    is_cleared_row(
                        *numbers,
                        swapped[j],
                        swapped[j][k as int],
                        scaled@,
                        matrix::rows_of(rows@)[j],
                    )
                },
        decreases m - i,
    {
        let ghost earlier = rows@;
        assert(matrix::rows_of(rows@)[i as int] == swapped[i as int]);
        assert(rows@[i as int]@.len() == width);
        let new_row = if i == k {
            copy_row(scaled.as_slice())
        } else {
            let factor = rows[i][k];
            clear_row(&rows[i], factor, &scaled, numbers)
        };
        rows.set(i, new_row);
        proof {
            assert forall|j: int| 0 <= j < m && j != i implies #[trigger] matrix::rows_of(rows@)[j]
                == matrix::rows_of(earlier)[j] by {}
            assert(matrix::rows_of(rows@)[i as int] == new_row@);
        }
        i = i + 1;
    }
    proof {
        let after = matrix::rows_of(rows@);
        assert(after[k as int] == scaled@);
        assert forall|j: int| 0 <= j < after.len() && j != k implies is_cleared_row(
            *numbers,
            swapped[j],
            swapped[j][k as int],
            after[k as int],
            #[trigger] after[j],
        ) by {}
    }
    Some(reciprocal)
}

/// The inverse of a square matrix by elimination with partial pivoting; nothing
/// where a pivot counts as zero.
pub fn invert_by_elimination<T: LpArithmetic>(square: &Vec<Vec<Real>>, numbers: &T) -> (out: Option<Vec<Vec<Real>>>)
    requires
        matrix::has_cols(square@, square@.len() as int),
        2 * square@.len() <= usize::MAX,
        numbers.ready(),
    ensures
        is_inverse(*numbers, matrix::rows_of(square@), inverse_view(out)),
        out matches Some(inverse) ==> inverse@.len() == square@.len() && matrix::has_cols(
            inverse@,
            square@.len() as int,
        ),
{
    let ghost lines = matrix::rows_of(square@);
    let m: usize = square.len();
    let entry = |i: usize, j: usize| -> (value: Real)
        requires
            i < m,
            j < 2 * m,
        ensures
            value == (if j < m {
                square@[i as int]@[j as int]
            } else if j == m + i {
                Real::one_spec()
            } else {
                Real::zero_spec()
            }),
        {
            assert(square@[i as int]@.len() == m);
            if j < m {
                square[i][j]
            } else if j - m == i {
                Real::one()
            } else {
                Real::zero()
            }
        };
    let mut rows = tabulate(m, 2 * m, entry);
    proof {
        let found = matrix::rows_of(rows@);
        let wanted = with_identity(lines);
        assert forall|i: int| 0 <= i < m implies #[trigger] found[i] == wanted[i] by {
            assert(rows@[i]@.len() == 2 * m);
            assert forall|j: int| 0 <= j < 2 * m implies #[trigger] found[i][j]
                == wanted[i][j] by {
                assert(entry.ensures((i as usize, j as usize), rows@[i]@[j]));
            }
            assert(found[i] =~= wanted[i]);
        }
        assert(found =~= wanted);
    }
    let ghost mut run: FactorRun = arbitrary();
    proof {
        run.states = Seq::empty().push(matrix::rows_of(rows@));
        run.reciprocals = Seq::empty();
    }
    let mut k: usize = 0;
    while k < m
        invariant
            k <= m,
            2 * m <= usize::MAX,
            rows@.len() == m,
            lines.len() == m,
            lines == matrix::rows_of(square@),
            matrix::has_cols(rows@, 2 * m),
            numbers.ready(),
            run.states.len() == k + 1,
            run.reciprocals.len() == k,
            run.states[0] == with_identity(lines),
            run.states.last() == matrix::rows_of(rows@),
            forall|j: int|
                0 <= j < k ==> is_regular_step(
                    *numbers,
                    j,
                    run.states[j],
                    run.reciprocals[j],
                    #[trigger] run.states[j + 1],
                ),
        decreases m - k,
    {
        let ghost earlier = run;
        match factor_column(&mut rows, k, numbers) {
            None => {
                let out: Option<Vec<Vec<Real>>> = None;
                assert(run.explains(*numbers, lines, inverse_view(out)));
                return out;
            },
            Some(reciprocal) => {
                proof {
                    run.states = earlier.states.push(matrix::rows_of(rows@));
                    run.reciprocals = earlier.reciprocals.push(reciprocal);
                    assert forall|j: int| 0 <= j <= k implies is_regular_step(
                        *numbers,
                        j,
                        run.states[j],
                        run.reciprocals[j],
                        #[trigger] run.states[j + 1],
                    ) by {
                        assert(run.states[j] == earlier.states[j]);
                        if j < k {
                            assert(run.states[j + 1] == earlier.states[j + 1]);
                            assert(run.reciprocals[j] == earlier.reciprocals[j]);
                        }
                    }
                }
            },
        }
        k = k + 1;
    }
    let inverse = columns_from(rows.as_slice(), m);
    proof {
        let found = matrix::rows_of(inverse@);
        let wanted = right_halves(matrix::rows_of(rows@));
        assert forall|i: int| 0 <= i < m implies #[trigger] found[i] == wanted[i] by {
            assert(rows@[i]@.len() == 2 * m);
            assert(found[i] == rows@[i]@.skip(m as int));
            assert(found[i] =~= wanted[i]);
        }
        assert(found =~= wanted);
        assert forall|i: int| 0 <= i < inverse@.len() implies (#[trigger] inverse@[i])@.len()
            == m by {
            assert(found[i] == wanted[i]);
            assert(rows@[i]@.len() == 2 * m);
        }
    }
    let out = Some(inverse);
    assert(run.explains(*numbers, lines, inverse_view(out)));
    out
}

/// Whether `out` is the inverse of a matrix by elimination.
pub open spec fn is_inverse<T: LpArithmetic>(
    numbers: T,
    square: Seq<Seq<Real>>,
    out: Option<Seq<Seq<Real>>>,
) -> bool {
    exists|run: FactorRun| #[trigger] run.explains(numbers, square, out)
}

// ---------------------------------------------------------------------------
// The numbers of a basis
// ---------------------------------------------------------------------------

/// The entry of the matrix of a basis: that of the column at a position, or of
/// an artificial column the sign in its own row.
pub open spec fn basis_entry(
    columns: Seq<Seq<Real>>,
    signs: Seq<Real>,
    column: int,
    row: int,
) -> Real {
    if column < columns.len() {
        columns[column][row]
    } else if row == column - columns.len() {
        signs[row]
    } else {
        Real::zero_spec()
    }
}

/// The matrix of a basis.
pub open spec fn basis_rows(
    columns: Seq<Seq<Real>>,
    signs: Seq<Real>,
    basis: Seq<usize>,
) -> Seq<Seq<Real>> {
    Seq::new(
        basis.len(),
        |i: int|
            Seq::new(basis.len(), |p: int| basis_entry(columns, signs, basis[p] as int, i)),
    )
}

/// The matrix of a basis.
pub fn basis_matrix(
    columns: &Vec<Vec<Real>>,
    signs: &Vec<Real>,
    basis: &Vec<usize>,
) -> (rows: Vec<Vec<Real>>)
    requires
        matrix::has_cols(columns@, basis@.len() as int),
        signs@.len() == basis@.len(),
        matrix::indices_below(basis@, (columns@.len() + basis@.len()) as int),
    ensures
        matrix::rows_of(rows@) == basis_rows(matrix::rows_of(columns@), signs@, basis@),
        rows@.len() == basis@.len(),
        matrix::has_cols(rows@, basis@.len() as int),
{
    let m: usize = basis.len();
    let entry = |i: usize, p: usize| -> (value: Real)
        requires
            i < m,
            p < m,
        ensures
            value == basis_entry(
                matrix::rows_of(columns@),
                signs@,
                basis@[p as int] as int,
                i as int,
            ),
        {
            let column: usize = basis[p];
            assert(basis@[p as int] < columns@.len() + basis@.len());
            if column < columns.len() {
                assert(columns@[column as int]@.len() == m);
                columns[column][i]
            } else if i == column - columns.len() {
                signs[i]
            } else {
                Real::zero()
            }
        };
    let rows = tabulate(m, m, entry);
    proof {
        let found = matrix::rows_of(rows@);
        let wanted = basis_rows(matrix::rows_of(columns@), signs@, basis@);
        assert forall|i: int| 0 <= i < m implies #[trigger] found[i] == wanted[i] by {
            assert(rows@[i]@.len() == m);
            assert forall|p: int| 0 <= p < m implies #[trigger] found[i][p] == wanted[i][p] by {
                assert(entry.ensures((i as usize, p as usize), rows@[i]@[p]));
            }
            assert(found[i] =~= wanted[i]);
        }
        assert(found =~= wanted);
    }
    rows
}

/// Whether `values` are products of rows with a right-hand side, at least zero.
pub open spec fn are_basic_values<T: LpArithmetic>(
    numbers: T,
    inverse: Seq<Seq<Real>>,
    right: Seq<Real>,
    values: Seq<Real>,
) -> bool {
    &&& values.len() == inverse.len()
    &&& forall|i: int|
        0 <= i < values.len() ==> is_basic_value(numbers, inverse[i], right, #[trigger] values[i])
}

/// Whether `value` is the product of a row with a right-hand side, at least zero.
pub open spec fn is_basic_value<T: LpArithmetic>(
    numbers: T,
    row: Seq<Real>,
    right: Seq<Real>,
    value: Real,
) -> bool {
    exists|v: Vec<Real>, w: Vec<Real>, product: Real|
        v@ == row && w@ == right && value == product.max_spec(Real::zero_spec())
            && #[trigger] numbers.produces(v, w, product)
}

/// The inverse of a basis with its basic values, or an error where the basis
/// is singular.
pub fn refactor<T: LpArithmetic>(
    columns: &Vec<Vec<Real>>,
    signs: &Vec<Real>,
    basis: &Vec<usize>,
    right: &Vec<Real>,
    numbers: &T,
) -> (out: Result<(Vec<Vec<Real>>, Vec<Real>), LpError>)
    requires
        matrix::has_cols(columns@, basis@.len() as int),
        signs@.len() == basis@.len(),
        right@.len() == basis@.len(),
        matrix::indices_below(basis@, (columns@.len() + basis@.len()) as int),
        2 * basis@.len() <= usize::MAX,
        numbers.ready(),
    ensures
        match out {
            Err(error) => error == LpError::Singular && is_inverse(
                *numbers,
                basis_rows(matrix::rows_of(columns@), signs@, basis@),
                None,
            ),
            Ok(found) => {
                &&& is_inverse(
                    *numbers,
                    basis_rows(matrix::rows_of(columns@), signs@, basis@),
                    Some(matrix::rows_of(found.0@)),
                )
                &&& are_basic_values(*numbers, matrix::rows_of(found.0@), right@, found.1@)
                &&& found.0@.len() == basis@.len()
                &&& matrix::has_cols(found.0@, basis@.len() as int)
                &&& found.1@.len() == basis@.len()
            },
        },
{
    let rows = basis_matrix(columns, signs, basis);
    match invert_by_elimination(&rows, numbers) {
        None => Err(LpError::Singular),
        Some(inverse) => {
            let mut values: Vec<Real> = Vec::new();
            while values.len() < inverse.len()
                invariant
                    values.len() <= inverse.len(),
                    matrix::has_cols(inverse@, right@.len() as int),
                    numbers.ready(),
                    forall|i: int|
                        0 <= i < values.len() ==> is_basic_value(
                            *numbers,
                            matrix::rows_of(inverse@)[i],
                            right@,
                            #[trigger] values@[i],
                        ),
                decreases inverse.len() - values.len(),
            {
                let i: usize = values.len();
                assert(inverse@[i as int]@.len() == right@.len());
                let product = numbers.product(&inverse[i], right);
                values.push(product.max(Real::zero()));
            }
            Ok((inverse, values))
        },
    }
}

/// The signs of the artificial columns and the basic values of their basis: the
/// magnitudes of the right-hand side.
pub fn artificial_start(right: &Vec<Real>) -> (start: (Vec<Real>, Vec<Real>))
    ensures
        start.0@ == Seq::new(
            right@.len(),
            |i: int|
                if right@[i].lt(Real::zero_spec()) {
                    Real::minus_one_spec()
                } else {
                    Real::one_spec()
                },
        ),
        start.1@ == Seq::new(right@.len(), |i: int| right@[i].abs_spec()),
{
    let mut signs: Vec<Real> = Vec::new();
    let mut values: Vec<Real> = Vec::new();
    while signs.len() < right.len()
        invariant
            signs.len() <= right.len(),
            values.len() == signs.len(),
            forall|i: int|
                0 <= i < signs.len() ==> #[trigger] signs@[i] == (if right@[i].lt(
                    Real::zero_spec(),
                ) {
                    Real::minus_one_spec()
                } else {
                    Real::one_spec()
                }),
            forall|i: int| 0 <= i < values.len() ==> #[trigger] values@[i] == right@[i].abs_spec(),
        decreases right.len() - signs.len(),
    {
        let value = right[signs.len()];
        signs.push(
            if value.less(Real::zero()) {
                Real::minus_one()
            } else {
                Real::one()
            },
        );
        values.push(value.abs());
    }
    proof {
        assert(signs@ =~= Seq::new(
            right@.len(),
            |i: int|
                if right@[i].lt(Real::zero_spec()) {
                    Real::minus_one_spec()
                } else {
                    Real::one_spec()
                },
        ));
        assert(values@ =~= Seq::new(right@.len(), |i: int| right@[i].abs_spec()));
    }
    (signs, values)
}

// ---------------------------------------------------------------------------
// Pivots
// ---------------------------------------------------------------------------

/// Whether a basic value moved along a pivot, and was raised to zero where it
/// fell below.
pub open spec fn is_moved_value<T: LpArithmetic>(
    numbers: T,
    value: Real,
    step: Real,
    alpha: Real,
    moved: Real,
) -> bool {
    exists|lowered: Real| #[trigger]
        numbers.eliminates(value, step, alpha, lowered) && moved == (if lowered.lt(
            Real::zero_spec(),
        ) {
            Real::zero_spec()
        } else {
            lowered
        })
}

/// Whether the inverse of a basis and its basic values moved along a pivot: the
/// value at the position becomes the step, its row is divided by the pivot, and
/// the others are cleared of it.
pub open spec fn is_pivot_of_numbers<T: LpArithmetic>(
    numbers: T,
    reciprocal: Real,
    inverse: Seq<Seq<Real>>,
    values: Seq<Real>,
    column: Seq<Real>,
    position: int,
    step: Real,
    next_inverse: Seq<Seq<Real>>,
    next_values: Seq<Real>,
) -> bool {
    &&& numbers.inverts(column[position], reciprocal)
    &&& next_inverse.len() == inverse.len()
    &&& next_values.len() == values.len()
    &&& next_values[position] == step
    &&& is_scaled_row(numbers, inverse[position], reciprocal, next_inverse[position])
    &&& forall|i: int|
        0 <= i < values.len() && i != position ==> is_moved_value(
            numbers,
            values[i],
            step,
            column[i],
            #[trigger] next_values[i],
        )
    &&& forall|i: int|
        0 <= i < inverse.len() && i != position ==> is_cleared_row(
            numbers,
            inverse[i],
            column[i],
            next_inverse[position],
            #[trigger] next_inverse[i],
        )
}

/// Whether the numbers of a basis moved along a pivot.
pub open spec fn numbers_pivoted<T: LpArithmetic>(
    numbers: T,
    inverse: Seq<Seq<Real>>,
    values: Seq<Real>,
    column: Seq<Real>,
    position: int,
    step: Real,
    next_inverse: Seq<Seq<Real>>,
    next_values: Seq<Real>,
) -> bool {
    exists|reciprocal: Real| #[trigger]
        is_pivot_of_numbers(
            numbers,
            reciprocal,
            inverse,
            values,
            column,
            position,
            step,
            next_inverse,
            next_values,
        )
}

/// The inverse of a basis and its basic values after a pivot.
pub fn pivot_numbers<T: LpArithmetic>(
    inverse: &Vec<Vec<Real>>,
    values: &Vec<Real>,
    column: &Vec<Real>,
    position: usize,
    step: Real,
    numbers: &T,
) -> (next: (Vec<Vec<Real>>, Vec<Real>))
    requires
        position < inverse@.len(),
        values@.len() == inverse@.len(),
        column@.len() == inverse@.len(),
        matrix::has_cols(inverse@, inverse@.len() as int),
        numbers.ready(),
    ensures
        numbers_pivoted(
            *numbers,
            matrix::rows_of(inverse@),
            values@,
            column@,
            position as int,
            step,
            matrix::rows_of(next.0@),
            next.1@,
        ),
        next.0@.len() == inverse@.len(),
        matrix::has_cols(next.0@, inverse@.len() as int),
        next.1@.len() == values@.len(),
{
    let m: usize = inverse.len();
    let reciprocal = numbers.reciprocal(column[position]);
    assert(inverse@[position as int]@.len() == m);
    let scaled = scale_row(&inverse[position], reciprocal, numbers);
    let mut rows: Vec<Vec<Real>> = Vec::new();
    let mut moved: Vec<Real> = Vec::new();
    while rows.len() < m
        invariant
            rows.len() <= m,
            moved.len() == rows.len(),
            m == inverse@.len(),
            values@.len() == m,
            column@.len() == m,
            scaled@.len() == m,
            matrix::has_cols(inverse@, m as int),
            matrix::has_cols(rows@, m as int),
            numbers.ready(),
            forall|i: int|
                0 <= i < rows.len() ==> if i == position {
                    #[trigger] matrix::rows_of(rows@)[i] == scaled@
                } else {
                    is_cleared_row(
                        *numbers,
                        inverse@[i]@,
                        column@[i],
                        scaled@,
                        matrix::rows_of(rows@)[i],
                    )
                },
            forall|i: int|
                0 <= i < moved.len() ==> if i == position {
                    #[trigger] moved@[i] == step
                } else {
                    is_moved_value(
                        *numbers,
                        values@[i],
                        step,
                        column@[i],
                        moved@[i],
                    )
                },
        decreases m - rows.len(),
    {
        let i: usize = rows.len();
        let ghost before = rows@;
        let ghost earlier = moved@;
        assert(inverse@[i as int]@.len() == m);
        let (row, value) = if i == position {
            (copy_row(scaled.as_slice()), step)
        } else {
            let lowered = numbers.eliminate(values[i], step, column[i]);
            let value = if lowered.less(Real::zero()) {
                Real::zero()
            } else {
                lowered
            };
            assert(is_moved_value(
                *numbers,
                values@[i as int],
                step,
                column@[i as int],
                value,
            ));
            (clear_row(&inverse[i], column[i], &scaled, numbers), value)
        };
        rows.push(row);
        moved.push(value);
        proof {
            assert forall|k: int| 0 <= k < i implies #[trigger] matrix::rows_of(rows@)[k]
                == matrix::rows_of(before)[k] by {}
            assert forall|k: int| 0 <= k < i implies #[trigger] moved@[k] == earlier[k] by {}
        }
    }
    proof {
        let next = matrix::rows_of(rows@);
        assert(next[position as int] == scaled@);
        assert(moved@[position as int] == step);
        assert forall|i: int| 0 <= i < m && i != position implies is_moved_value(
            *numbers,
            values@[i],
            step,
            column@[i],
            #[trigger] moved@[i],
        ) by {}
        assert forall|i: int| 0 <= i < m && i != position implies is_cleared_row(
            *numbers,
            matrix::rows_of(inverse@)[i],
            column@[i],
            next[position as int],
            #[trigger] next[i],
        ) by {}
        assert(is_pivot_of_numbers(
            *numbers,
            reciprocal,
            matrix::rows_of(inverse@),
            values@,
            column@,
            position as int,
            step,
            next,
            moved@,
        ));
    }
    (rows, moved)
}

/// No basic value falls below zero along a pivot whose step does not.
pub proof fn pivots_keep_values_feasible<T: LpArithmetic>(
    numbers: T,
    inverse: Seq<Seq<Real>>,
    values: Seq<Real>,
    column: Seq<Real>,
    position: int,
    step: Real,
    next_inverse: Seq<Seq<Real>>,
    next_values: Seq<Real>,
    i: int,
)
    requires
        numbers_pivoted(
            numbers,
            inverse,
            values,
            column,
            position,
            step,
            next_inverse,
            next_values,
        ),
        !step.lt(Real::zero_spec()),
        0 <= i < values.len(),
    ensures
        !next_values[i].lt(Real::zero_spec()),
{
    if i != position {
        assert(is_moved_value(numbers, values[i], step, column[i], next_values[i]));
    }
}

} // verus!
