//! Matrices as rows of entries: selection, layout and scanning.

use crate::errors::HonestError;
use crate::number::Real;
use vstd::prelude::*;

verus! {

/// The rows of a matrix.
pub open spec fn rows_of<T>(matrix: Seq<Vec<T>>) -> Seq<Seq<T>> {
    Seq::new(matrix.len(), |i: int| matrix[i]@)
}

/// Whether all rows have `cols` entries.
pub open spec fn has_cols<T>(matrix: Seq<Vec<T>>, cols: int) -> bool {
    forall|i: int| 0 <= i < matrix.len() ==> (#[trigger] matrix[i])@.len() == cols
}

/// Number of entries of the first row; 0 without rows.
pub open spec fn first_width<T>(matrix: Seq<Vec<T>>) -> int {
    if matrix.len() == 0 {
        0
    } else {
        matrix[0]@.len() as int
    }
}

/// Whether all rows have as many entries as the first.
pub open spec fn rectangular<T>(matrix: Seq<Vec<T>>) -> bool {
    has_cols(matrix, first_width(matrix))
}

/// Whether all of `indices` are below `len`.
pub open spec fn indices_below(indices: Seq<usize>, len: int) -> bool {
    forall|k: int| 0 <= k < indices.len() ==> (#[trigger] indices[k]) < len
}

/// A copy of a row.
pub fn copy_row<T: Copy>(row: &[T]) -> (copy: Vec<T>)
    ensures
        copy@ == row@,
{
    let mut copy: Vec<T> = Vec::new();
    let mut j: usize = 0;
    while j < row.len()
        invariant
            j <= row.len(),
            copy@ == row@.take(j as int),
        decreases row.len() - j,
    {
        copy.push(row[j]);
        proof {
            assert(row@.take(j + 1) =~= row@.take(j as int).push(row@[j as int]));
        }
        j = j + 1;
    }
    proof {
        assert(row@.take(j as int) =~= row@);
    }
    copy
}

/// A copy of a matrix.
pub fn copy_matrix<T: Copy>(matrix: &[Vec<T>]) -> (copy: Vec<Vec<T>>)
    ensures
        rows_of(copy@) == rows_of(matrix@),
        copy@.len() == matrix@.len(),
        forall|width: int| #[trigger] has_cols(matrix@, width) ==> has_cols(copy@, width),
{
    let mut copy: Vec<Vec<T>> = Vec::new();
    let mut i: usize = 0;
    while i < matrix.len()
        invariant
            i <= matrix.len(),
            copy.len() == i,
            forall|k: int| 0 <= k < i ==> (#[trigger] copy@[k])@ == matrix@[k]@,
        decreases matrix.len() - i,
    {
        copy.push(copy_row(matrix[i].as_slice()));
        i = i + 1;
    }
    proof {
        assert(rows_of(copy@) =~= rows_of(matrix@));
    }
    copy
}

/// A row of equal entries.
pub fn filled_row<T: Copy>(len: usize, value: T) -> (row: Vec<T>)
    ensures
        row@ == Seq::new(len as nat, |j: int| value),
{
    let mut row: Vec<T> = Vec::new();
    while row.len() < len
        invariant
            row.len() <= len,
            forall|j: int| 0 <= j < row.len() ==> row@[j] == value,
        decreases len - row.len(),
    {
        row.push(value);
    }
    proof {
        assert(row@ =~= Seq::new(len as nat, |j: int| value));
    }
    row
}

/// The matrix whose entry at `(i, j)` is `entry(i, j)`.
pub fn tabulate<T: Copy, F: Fn(usize, usize) -> T>(rows: usize, cols: usize, entry: F) -> (matrix:
    Vec<Vec<T>>)
    requires
        forall|i: usize, j: usize| i < rows && j < cols ==> #[trigger] entry.requires((i, j)),
    ensures
        matrix.len() == rows,
        has_cols(matrix@, cols as int),
        forall|i: int, j: int|
            0 <= i < rows && 0 <= j < cols ==> entry.ensures(
                (i as usize, j as usize),
                #[trigger] matrix@[i]@[j],
            ),
{
    let mut matrix: Vec<Vec<T>> = Vec::new();
    while matrix.len() < rows
        invariant
            matrix.len() <= rows,
            has_cols(matrix@, cols as int),
            forall|i: usize, j: usize| i < rows && j < cols ==> #[trigger] entry.requires((i, j)),
            forall|i: int, j: int|
                0 <= i < matrix.len() && 0 <= j < cols ==> entry.ensures(
                    (i as usize, j as usize),
                    #[trigger] matrix@[i]@[j],
                ),
        decreases rows - matrix.len(),
    {
        let i: usize = matrix.len();
        let mut row: Vec<T> = Vec::new();
        while row.len() < cols
            invariant
                row.len() <= cols,
                i < rows,
                forall|i: usize, j: usize|
                    i < rows && j < cols ==> #[trigger] entry.requires((i, j)),
                forall|j: int|
                    0 <= j < row.len() ==> entry.ensures((i, j as usize), #[trigger] row@[j]),
            decreases cols - row.len(),
        {
            let j: usize = row.len();
            row.push(entry(i, j));
        }
        matrix.push(row);
    }
    matrix
}

/// The rows of a matrix at given indices.
pub open spec fn selected_rows<T>(matrix: Seq<Seq<T>>, rows: Seq<usize>) -> Seq<Seq<T>> {
    Seq::new(rows.len(), |k: int| matrix[rows[k] as int])
}

/// The rows of a matrix at given indices, in the order of the indices.
pub fn select_rows<T: Copy>(matrix: &[Vec<T>], rows: &[usize]) -> (selected: Vec<Vec<T>>)
    requires
        indices_below(rows@, matrix.len() as int),
    ensures
        rows_of(selected@) == selected_rows(rows_of(matrix@), rows@),
{
    let mut selected: Vec<Vec<T>> = Vec::new();
    let mut k: usize = 0;
    while k < rows.len()
        invariant
            k <= rows.len(),
            selected.len() == k,
            indices_below(rows@, matrix.len() as int),
            forall|m: int|
                0 <= m < k ==> (#[trigger] selected@[m])@ == matrix@[rows@[m] as int]@,
        decreases rows.len() - k,
    {
        selected.push(copy_row(matrix[rows[k]].as_slice()));
        k = k + 1;
    }
    proof {
        assert(rows_of(selected@) =~= selected_rows(rows_of(matrix@), rows@));
    }
    selected
}

/// The entries of a vector at given indices.
pub fn select_entries<T: Copy>(vector: &[T], indices: &[usize]) -> (selected: Vec<T>)
    requires
        indices_below(indices@, vector.len() as int),
    ensures
        selected@ == Seq::new(indices@.len(), |k: int| vector@[indices@[k] as int]),
{
    let mut selected: Vec<T> = Vec::new();
    let mut k: usize = 0;
    while k < indices.len()
        invariant
            k <= indices.len(),
            selected.len() == k,
            indices_below(indices@, vector.len() as int),
            forall|m: int| 0 <= m < k ==> #[trigger] selected@[m] == vector@[indices@[m] as int],
        decreases indices.len() - k,
    {
        selected.push(vector[indices[k]]);
        k = k + 1;
    }
    proof {
        assert(selected@ =~= Seq::new(indices@.len(), |k: int| vector@[indices@[k] as int]));
    }
    selected
}

/// The square submatrix at given indices of a square matrix.
pub fn subset_square_matrix<T: Copy>(matrix: &[Vec<T>], rows: &[usize]) -> (subset: Vec<Vec<T>>)
    requires
        has_cols(matrix@, matrix.len() as int),
        indices_below(rows@, matrix.len() as int),
    ensures
        subset.len() == rows.len(),
        has_cols(subset@, rows.len() as int),
        forall|i: int, j: int|
            0 <= i < rows.len() && 0 <= j < rows.len() ==> #[trigger] subset@[i]@[j]
                == matrix@[rows@[i] as int]@[rows@[j] as int],
{
    let entry = |i: usize, j: usize| -> (value: T)
        requires
            i < rows.len(),
            j < rows.len(),
        ensures
            value == matrix@[rows@[i as int] as int]@[rows@[j as int] as int],
        { matrix[rows[i]][rows[j]] };
    tabulate(rows.len(), rows.len(), entry)
}

/// The block of a covariance matrix that belongs to the post periods.
pub fn post_covariance_block<T: Copy>(
    covariance: &[Vec<T>],
    num_pre_periods: usize,
    num_post_periods: usize,
) -> (block: Vec<Vec<T>>)
    requires
        num_pre_periods + num_post_periods <= covariance.len(),
        forall|i: int|
            0 <= i < covariance.len() ==> (#[trigger] covariance@[i])@.len() >= num_pre_periods
                + num_post_periods,
    ensures
        block.len() == num_post_periods,
        has_cols(block@, num_post_periods as int),
        forall|i: int, j: int|
            0 <= i < num_post_periods && 0 <= j < num_post_periods ==> #[trigger] block@[i]@[j]
                == covariance@[num_pre_periods + i]@[num_pre_periods + j],
{
    let entry = |i: usize, j: usize| -> (value: T)
        requires
            i < num_post_periods,
            j < num_post_periods,
        ensures
            value == covariance@[num_pre_periods + i]@[num_pre_periods + j],
        { covariance[num_pre_periods + i][num_pre_periods + j] };
    tabulate(num_post_periods, num_post_periods, entry)
}

/// Number of rows and columns, or an error where the rows differ in length.
pub fn matrix_shape<T>(matrix: &[Vec<T>], name: &'static str) -> (shape: Result<
    (usize, usize),
    HonestError,
>)
    ensures
        shape == (if rectangular(matrix@) {
            Ok((matrix@.len() as usize, first_width(matrix@) as usize))
        } else {
            Err(HonestError::RaggedMatrix { name })
        }),
{
    let cols: usize = if matrix.len() == 0 {
        0
    } else {
        matrix[0].len()
    };
    let mut i: usize = 0;
    while i < matrix.len()
        invariant
            i <= matrix.len(),
            cols == first_width(matrix@),
            forall|k: int| 0 <= k < i ==> (#[trigger] matrix@[k])@.len() == cols,
        decreases matrix.len() - i,
    {
        if matrix[i].len() != cols {
            return Err(HonestError::RaggedMatrix { name });
        }
        i = i + 1;
    }
    Ok((matrix.len(), cols))
}

/// What is wrong with a square system, if anything.
pub open spec fn square_system_fault(
    context: &'static str,
    matrix: Seq<Vec<Real>>,
    rhs_len: Option<usize>,
) -> Option<HonestError> {
    if !rectangular(matrix) {
        Some(HonestError::RaggedMatrix { name: "coefficient" })
    } else if matrix.len() != first_width(matrix) {
        Some(
            HonestError::NotSquare {
                context,
                rows: matrix.len() as usize,
                cols: first_width(matrix) as usize,
            },
        )
    } else {
        match rhs_len {
            Some(len) if len != matrix.len() => Some(
                HonestError::RightSideLength { context, found: len, rows: matrix.len() as usize },
            ),
            _ => None,
        }
    }
}

/// Checks that a matrix is square and that a right-hand side, where there is
/// one, fits it; returns the order of the matrix.
pub fn check_square_system(
    context: &'static str,
    matrix: &[Vec<Real>],
    rhs_len: Option<usize>,
) -> (order: Result<usize, HonestError>)
    ensures
        order == (match square_system_fault(context, matrix@, rhs_len) {
            Some(error) => Err(error),
            None => Ok(matrix@.len() as usize),
        }),
{
    let count: usize = matrix.len();
    assert(count == matrix@.len());
    if count > 0 {
        let width: usize = matrix[0].len();
        assert(width == first_width(matrix@));
    }
    match matrix_shape(matrix, "coefficient") {
        Err(error) => Err(error),
        Ok((rows, cols)) => {
            if rows != cols {
                return Err(HonestError::NotSquare { context, rows, cols });
            }
            match rhs_len {
                Some(len) => {
                    if len != rows {
                        return Err(
                            HonestError::RightSideLength { context, found: len, rows },
                        );
                    }
                    Ok(rows)
                },
                None => Ok(rows),
            }
        },
    }
}

/// The concatenation of the rows.
pub open spec fn row_major<T>(rows: Seq<Seq<T>>) -> Seq<T>
    decreases rows.len(),
{
    if rows.len() == 0 {
        Seq::empty()
    } else {
        row_major(rows.drop_last()) + rows.last()
    }
}

/// The entries of a matrix, row by row.
pub fn flatten_row_major<T: Copy>(matrix: &[Vec<T>]) -> (flat: Vec<T>)
    ensures
        flat@ == row_major(rows_of(matrix@)),
{
    let mut flat: Vec<T> = Vec::new();
    let mut i: usize = 0;
    let ghost rows = rows_of(matrix@);
    proof {
        assert(rows.take(0) =~= Seq::empty());
    }
    while i < matrix.len()
        invariant
            i <= matrix.len(),
            rows == rows_of(matrix@),
            flat@ == row_major(rows.take(i as int)),
        decreases matrix.len() - i,
    {
        let ghost before = flat@;
        let mut j: usize = 0;
        while j < matrix[i].len()
            invariant
                i < matrix.len(),
                j <= matrix@[i as int]@.len(),
                flat@ == before + matrix@[i as int]@.take(j as int),
            decreases matrix@[i as int]@.len() - j,
        {
            flat.push(matrix[i][j]);
            proof {
                let row = matrix@[i as int]@;
                assert(row.take(j + 1) =~= row.take(j as int).push(row[j as int]));
                assert(before + row.take(j + 1) =~= (before + row.take(j as int)).push(
                    row[j as int],
                ));
            }
            j = j + 1;
        }
        proof {
            let row = matrix@[i as int]@;
            assert(row.take(j as int) =~= row);
            assert(rows.take(i + 1).drop_last() =~= rows.take(i as int));
            assert(rows.take(i + 1).last() == row);
        }
        i = i + 1;
    }
    proof {
        assert(rows.take(i as int) =~= rows);
    }
    flat
}

/// The position of an entry in row-major layout.
pub proof fn row_major_position<T>(rows: Seq<Seq<T>>, cols: int, i: int, j: int)
    requires
        0 <= cols,
        forall|k: int| 0 <= k < rows.len() ==> (#[trigger] rows[k]).len() == cols,
        0 <= i < rows.len(),
        0 <= j < cols,
    ensures
        row_major(rows).len() == rows.len() * cols,
        0 <= i * cols + j < row_major(rows).len(),
        row_major(rows)[i * cols + j] == rows[i][j],
    decreases rows.len(),
{
    row_major_len(rows, cols);
    row_major_len(rows.drop_last(), cols);
    let n = rows.len() as int;
    assert(rows.drop_last().len() == n - 1);
    assert(0 <= i * cols + j < n * cols) by (nonlinear_arith)
        requires
            0 <= i < n,
            0 <= j < cols,
    ;
    if i == n - 1 {
        assert(row_major(rows)[(n - 1) * cols + j] == rows.last()[j]);
    } else {
        row_major_position(rows.drop_last(), cols, i, j);
    }
}

proof fn row_major_len<T>(rows: Seq<Seq<T>>, cols: int)
    requires
        forall|k: int| 0 <= k < rows.len() ==> (#[trigger] rows[k]).len() == cols,
    ensures
        row_major(rows).len() == rows.len() * cols,
    decreases rows.len(),
{
    if rows.len() > 0 {
        let n = rows.len() as int;
        row_major_len(rows.drop_last(), cols);
        assert(rows.last().len() == cols);
        assert(n * cols == (n - 1) * cols + cols) by (nonlinear_arith);
    } else {
        assert(0 * cols == 0) by (nonlinear_arith);
    }
}

/// Whether some entry of column `j` exceeds the tolerance in magnitude.
pub open spec fn column_matters(matrix: Seq<Vec<Real>>, j: int, tol: Real) -> bool {
    exists|i: int| 0 <= i < matrix.len() && tol.lt((#[trigger] matrix[i])@[j].abs_spec())
}

/// The entries of `row` at the columns below `end` that matter.
pub open spec fn kept_entries(
    row: Seq<Real>,
    matrix: Seq<Vec<Real>>,
    tol: Real,
    end: int,
) -> Seq<Real>
    decreases end,
{
    if end <= 0 {
        Seq::empty()
    } else if column_matters(matrix, end - 1, tol) {
        kept_entries(row, matrix, tol, end - 1).push(row[end - 1])
    } else {
        kept_entries(row, matrix, tol, end - 1)
    }
}

/// Drops the columns in which no entry exceeds the tolerance in magnitude.
pub fn drop_zero_columns(matrix: &[Vec<Real>], tol: Real) -> (reduced: Vec<Vec<Real>>)
    requires
        rectangular(matrix@),
    ensures
        reduced.len() == matrix.len(),
        forall|i: int|
            0 <= i < matrix.len() ==> (#[trigger] reduced@[i])@ == kept_entries(
                matrix@[i]@,
                matrix@,
                tol,
                first_width(matrix@),
            ),
{
    let mut reduced: Vec<Vec<Real>> = Vec::new();
    if matrix.len() == 0 {
        return reduced;
    }
    let cols: usize = matrix[0].len();
    let mut keep: Vec<bool> = Vec::new();
    while keep.len() < cols
        invariant
            keep.len() <= cols,
            cols == first_width(matrix@),
            rectangular(matrix@),
            matrix.len() > 0,
            forall|j: int| 0 <= j < keep.len() ==> #[trigger] keep@[j] == column_matters(
                matrix@,
                j,
                tol,
            ),
        decreases cols - keep.len(),
    {
        let j: usize = keep.len();
        let mut found = false;
        let mut i: usize = 0;
        while i < matrix.len()
            invariant
                i <= matrix.len(),
                j < cols,
                cols == first_width(matrix@),
                rectangular(matrix@),
                found ==> column_matters(matrix@, j as int, tol),
                !found ==> forall|k: int|
                    0 <= k < i ==> !tol.lt((#[trigger] matrix@[k])@[j as int].abs_spec()),
            decreases matrix.len() - i,
        {
            assert(matrix@[i as int]@.len() == cols);
            if tol.less(matrix[i][j].abs()) {
                found = true;
            }
            i = i + 1;
        }
        keep.push(found);
    }
    while reduced.len() < matrix.len()
        invariant
            reduced.len() <= matrix.len(),
            keep.len() == cols,
            cols == first_width(matrix@),
            rectangular(matrix@),
            forall|j: int| 0 <= j < keep.len() ==> #[trigger] keep@[j] == column_matters(
                matrix@,
                j,
                tol,
            ),
            forall|i: int|
                0 <= i < reduced.len() ==> (#[trigger] reduced@[i])@ == kept_entries(
                    matrix@[i]@,
                    matrix@,
                    tol,
                    cols as int,
                ),
        decreases matrix.len() - reduced.len(),
    {
        let i: usize = reduced.len();
        let mut row: Vec<Real> = Vec::new();
        let mut j: usize = 0;
        while j < cols
            invariant
                j <= cols,
                i < matrix.len(),
                keep.len() == cols,
                cols == first_width(matrix@),
                rectangular(matrix@),
                forall|j: int| 0 <= j < keep.len() ==> #[trigger] keep@[j] == column_matters(
                    matrix@,
                    j,
                    tol,
                ),
                row@ == kept_entries(matrix@[i as int]@, matrix@, tol, j as int),
            decreases cols - j,
        {
            assert(matrix@[i as int]@.len() == cols);
            if keep[j] {
                row.push(matrix[i][j]);
            }
            j = j + 1;
        }
        reduced.push(row);
    }
    reduced
}

/// The diagonal of a square matrix, with negative entries raised to zero.
pub fn clipped_diagonal(matrix: &[Vec<Real>]) -> (diagonal: Vec<Real>)
    requires
        has_cols(matrix@, matrix.len() as int),
    ensures
        diagonal@ == Seq::new(
            matrix@.len(),
            |i: int| matrix@[i]@[i].max_spec(Real::zero_spec()),
        ),
{
    let mut diagonal: Vec<Real> = Vec::new();
    while diagonal.len() < matrix.len()
        invariant
            diagonal.len() <= matrix.len(),
            has_cols(matrix@, matrix.len() as int),
            forall|i: int|
                0 <= i < diagonal.len() ==> #[trigger] diagonal@[i] == matrix@[i]@[i].max_spec(
                    Real::zero_spec(),
                ),
        decreases matrix.len() - diagonal.len(),
    {
        let i: usize = diagonal.len();
        assert(matrix@[i as int]@.len() == matrix.len());
        diagonal.push(matrix[i][i].max(Real::zero()));
    }
    proof {
        assert(diagonal@ =~= Seq::new(
            matrix@.len(),
            |i: int| matrix@[i]@[i].max_spec(Real::zero_spec()),
        ));
    }
    diagonal
}

/// The largest magnitude among the first `end` values, and at least zero.
pub open spec fn largest_magnitude(values: Seq<Real>, end: int) -> Real
    decreases end,
{
    if end <= 0 {
        Real::zero_spec()
    } else {
        largest_magnitude(values, end - 1).max_spec(values[end - 1].abs_spec())
    }
}

/// The largest magnitude among some values, and at least zero.
pub fn max_abs(values: &[Real]) -> (largest: Real)
    ensures
        largest == largest_magnitude(values@, values.len() as int),
{
    let mut largest = Real::zero();
    let mut k: usize = 0;
    while k < values.len()
        invariant
            k <= values.len(),
            largest == largest_magnitude(values@, k as int),
        decreases values.len() - k,
    {
        largest = largest.max(values[k].abs());
        k = k + 1;
    }
    largest
}

/// The largest magnitude is no NaN and not negative, and no value that is a
/// number exceeds it.
pub proof fn largest_magnitude_bounds(values: Seq<Real>, end: int)
    requires
        0 <= end <= values.len(),
    ensures
        Real::zero_spec().le(largest_magnitude(values, end)),
        forall|k: int|
            0 <= k < end && !(#[trigger] values[k]).nan() ==> values[k].abs_spec().le(
                largest_magnitude(values, end),
            ),
    decreases end,
{
    if end > 0 {
        largest_magnitude_bounds(values, end - 1);
    }
}

/// One non-zero entry of a sparse matrix.
#[derive(Clone, Copy, Debug, PartialEq, Eq, Structural)]
pub struct Triplet {
    /// Row of the entry.
    pub row: usize,
    /// Column of the entry.
    pub col: usize,
    /// Value of the entry.
    pub value: Real,
}

/// The non-zero entries among the first `end` of a row.
pub open spec fn row_triplets(row: Seq<Real>, at: int, end: int) -> Seq<Triplet>
    decreases end,
{
    if end <= 0 {
        Seq::empty()
    } else if row[end - 1].same_value(Real::zero_spec()) {
        row_triplets(row, at, end - 1)
    } else {
        row_triplets(row, at, end - 1).push(
            Triplet { row: at as usize, col: (end - 1) as usize, value: row[end - 1] },
        )
    }
}

/// The non-zero entries of the rows, row by row.
pub open spec fn triplets_of(rows: Seq<Seq<Real>>) -> Seq<Triplet>
    decreases rows.len(),
{
    if rows.len() == 0 {
        Seq::empty()
    } else {
        triplets_of(rows.drop_last()) + row_triplets(
            rows.last(),
            rows.len() - 1,
            rows.last().len() as int,
        )
    }
}

fn push_row_triplets(triplets: &mut Vec<Triplet>, row: &[Real], at: usize)
    ensures
        final(triplets)@ == old(triplets)@ + row_triplets(row@, at as int, row.len() as int),
{
    let ghost before = triplets@;
    let mut j: usize = 0;
    proof {
        assert(before + row_triplets(row@, at as int, 0) =~= before);
    }
    while j < row.len()
        invariant
            j <= row.len(),
            triplets@ == before + row_triplets(row@, at as int, j as int),
        decreases row.len() - j,
    {
        if !row[j].equals(Real::zero()) {
            triplets.push(Triplet { row: at, col: j, value: row[j] });
        }
        proof {
            assert(triplets@ =~= before + row_triplets(row@, at as int, j + 1));
        }
        j = j + 1;
    }
}

/// The non-zero entries of a constraint matrix whose rows are the inequalities
/// followed by the equalities.
pub fn constraint_triplets(inequalities: &[Vec<Real>], equalities: &[Vec<Real>]) -> (triplets: Vec<
    Triplet,
>)
    requires
        inequalities.len() + equalities.len() <= usize::MAX,
    ensures
        triplets@ == triplets_of(rows_of(inequalities@) + rows_of(equalities@)),
{
    let mut triplets: Vec<Triplet> = Vec::new();
    let ghost rows = rows_of(inequalities@) + rows_of(equalities@);
    let total: usize = inequalities.len() + equalities.len();
    let mut i: usize = 0;
    proof {
        assert(rows.take(0) =~= Seq::empty());
    }
    while i < total
        invariant
            i <= total,
            total == inequalities.len() + equalities.len(),
            rows == rows_of(inequalities@) + rows_of(equalities@),
            triplets@ == triplets_of(rows.take(i as int)),
        decreases total - i,
    {
        proof {
            assert(rows.take(i + 1).drop_last() =~= rows.take(i as int));
            assert(rows.take(i + 1).last() == rows[i as int]);
        }
        if i < inequalities.len() {
            push_row_triplets(&mut triplets, inequalities[i].as_slice(), i);
        } else {
            push_row_triplets(&mut triplets, equalities[i - inequalities.len()].as_slice(), i);
        }
        i = i + 1;
    }
    proof {
        assert(rows.take(i as int) =~= rows);
    }
    triplets
}

/// Number of columns of a constraint matrix: that of the inequalities, or of
/// the equalities where there are no inequalities.
pub fn constraint_cols(inequalities: &[Vec<Real>], equalities: &[Vec<Real>]) -> (cols: usize)
    ensures
        cols == (if inequalities.len() > 0 {
            first_width(inequalities@)
        } else {
            first_width(equalities@)
        }),
{
    if inequalities.len() > 0 {
        inequalities[0].len()
    } else if equalities.len() > 0 {
        equalities[0].len()
    } else {
        0
    }
}

/// The rows of a design matrix with the standard deviation of each row in
/// front.
pub fn build_w_t(x_arp: &[Vec<Real>], sd_vec: &[Real]) -> (w_t: Vec<Vec<Real>>)
    requires
        x_arp.len() <= sd_vec.len(),
    ensures
        rows_of(w_t@) == Seq::new(x_arp@.len(), |i: int| seq![sd_vec@[i]] + x_arp@[i]@),
{
    let mut w_t: Vec<Vec<Real>> = Vec::new();
    while w_t.len() < x_arp.len()
        invariant
            w_t.len() <= x_arp.len() <= sd_vec.len(),
            forall|i: int|
                0 <= i < w_t.len() ==> (#[trigger] w_t@[i])@ == seq![sd_vec@[i]] + x_arp@[i]@,
        decreases x_arp.len() - w_t.len(),
    {
        let i: usize = w_t.len();
        let mut row: Vec<Real> = Vec::new();
        row.push(sd_vec[i]);
        let mut j: usize = 0;
        while j < x_arp[i].len()
            invariant
                i < x_arp.len() <= sd_vec.len(),
                j <= x_arp@[i as int]@.len(),
                row@ == seq![sd_vec@[i as int]] + x_arp@[i as int]@.take(j as int),
            decreases x_arp@[i as int]@.len() - j,
        {
            row.push(x_arp[i][j]);
            proof {
                let source = x_arp@[i as int]@;
                assert(row@ =~= seq![sd_vec@[i as int]] + source.take(j + 1));
            }
            j = j + 1;
        }
        proof {
            assert(x_arp@[i as int]@.take(j as int) =~= x_arp@[i as int]@);
        }
        w_t.push(row);
    }
    proof {
        assert(rows_of(w_t@) =~= Seq::new(x_arp@.len(), |i: int| seq![sd_vec@[i]] + x_arp@[i]@));
    }
    w_t
}

/// The rows of a matrix without the first `from` columns.
pub fn columns_from<T: Copy>(matrix: &[Vec<T>], from: usize) -> (tail: Vec<Vec<T>>)
    requires
        forall|i: int| 0 <= i < matrix.len() ==> (#[trigger] matrix@[i])@.len() >= from,
    ensures
        rows_of(tail@) == Seq::new(matrix@.len(), |i: int| matrix@[i]@.skip(from as int)),
{
    let mut tail: Vec<Vec<T>> = Vec::new();
    while tail.len() < matrix.len()
        invariant
            tail.len() <= matrix.len(),
            forall|i: int| 0 <= i < matrix.len() ==> (#[trigger] matrix@[i])@.len() >= from,
            forall|i: int|
                0 <= i < tail.len() ==> (#[trigger] tail@[i])@ == matrix@[i]@.skip(from as int),
        decreases matrix.len() - tail.len(),
    {
        let i: usize = tail.len();
        let mut row: Vec<T> = Vec::new();
        let mut j: usize = from;
        assert(matrix@[i as int]@.len() >= from);
        while j < matrix[i].len()
            invariant
                i < matrix.len(),
                from <= j <= matrix@[i as int]@.len(),
                row@ == matrix@[i as int]@.subrange(from as int, j as int),
            decreases matrix@[i as int]@.len() - j,
        {
            row.push(matrix[i][j]);
            proof {
                let source = matrix@[i as int]@;
                assert(row@ =~= source.subrange(from as int, j + 1));
            }
            j = j + 1;
        }
        proof {
            let source = matrix@[i as int]@;
            assert(source.subrange(from as int, source.len() as int) =~= source.skip(from as int));
        }
        tail.push(row);
    }
    proof {
        assert(rows_of(tail@) =~= Seq::new(matrix@.len(), |i: int| matrix@[i]@.skip(from as int)));
    }
    tail
}

/// `values` spread over a vector of zeros: the k-th of them stands at
/// `indices[k]`, and a later one replaces an earlier one.
pub open spec fn scattered(
    indices: Seq<usize>,
    values: Seq<Real>,
    len: int,
    count: int,
) -> Seq<Real>
    decreases count,
{
    if count <= 0 {
        Seq::new(len as nat, |j: int| Real::zero_spec())
    } else {
        scattered(indices, values, len, count - 1).update(
            indices[count - 1] as int,
            values[count - 1],
        )
    }
}

/// Spreads values over a vector of zeros; surplus indices or values are left
/// out.
pub fn scatter(indices: &[usize], values: &[Real], len: usize) -> (out: Vec<Real>)
    requires
        indices_below(indices@, len as int),
    ensures
        out@ == scattered(
            indices@,
            values@,
            len as int,
            if indices.len() <= values.len() {
                indices.len() as int
            } else {
                values.len() as int
            },
        ),
{
    let mut out = filled_row(len, Real::zero());
    let mut k: usize = 0;
    proof {
        assert(out@ =~= scattered(indices@, values@, len as int, 0));
    }
    while k < indices.len() && k < values.len()
        invariant
            k <= indices.len(),
            k <= values.len(),
            out.len() == len,
            indices_below(indices@, len as int),
            out@ == scattered(indices@, values@, len as int, k as int),
        decreases indices.len() - k,
    {
        out.set(indices[k], values[k]);
        k = k + 1;
    }
    out
}

/// Entries away from the indices stay zero.
pub proof fn scattered_elsewhere_is_zero(
    indices: Seq<usize>,
    values: Seq<Real>,
    len: int,
    count: int,
    j: int,
)
    requires
        0 <= count <= indices.len(),
        indices_below(indices, len),
        0 <= j < len,
        forall|k: int| 0 <= k < count ==> indices[k] != j,
    ensures
        scattered(indices, values, len, count).len() == len,
        scattered(indices, values, len, count)[j] == Real::zero_spec(),
    decreases count,
{
    if count > 0 {
        scattered_elsewhere_is_zero(indices, values, len, count - 1, j);
    }
}

/// With distinct indices each value is found where it was put.
pub proof fn scattered_values_are_found(
    indices: Seq<usize>,
    values: Seq<Real>,
    len: int,
    count: int,
    k: int,
)
    requires
        0 <= k < count <= indices.len(),
        indices_below(indices, len),
        forall|a: int, b: int|
            0 <= a < b < count ==> #[trigger] indices[a] != #[trigger] indices[b],
    ensures
        scattered(indices, values, len, count).len() == len,
        scattered(indices, values, len, count)[indices[k] as int] == values[k],
    decreases count,
{
    assert(indices[k] < len);
    scattered_len(indices, values, len, count);
    scattered_len(indices, values, len, count - 1);
    if k < count - 1 {
        scattered_values_are_found(indices, values, len, count - 1, k);
        assert(indices[k] != indices[count - 1]);
    }
}

/// A vector of spread values has the given length.
pub proof fn scattered_len(indices: Seq<usize>, values: Seq<Real>, len: int, count: int)
    requires
        0 <= len,
        count <= indices.len(),
        indices_below(indices, len),
    ensures
        scattered(indices, values, len, count).len() == len,
    decreases count,
{
    if count > 0 {
        scattered_len(indices, values, len, count - 1);
    }
}

/// The entries of a vector from `from` on.
pub fn entries_from(values: &[Real], from: usize) -> (rest: Vec<Real>)
    requires
        from <= values.len(),
    ensures
        rest@ == values@.skip(from as int),
{
    let mut rest: Vec<Real> = Vec::new();
    let mut i: usize = from;
    while i < values.len()
        invariant
            from <= i <= values.len(),
            rest@ == values@.subrange(from as int, i as int),
        decreases values.len() - i,
    {
        rest.push(values[i]);
        proof {
            assert(rest@ =~= values@.subrange(from as int, i + 1));
        }
        i = i + 1;
    }
    proof {
        assert(values@.subrange(from as int, values.len() as int) =~= values@.skip(from as int));
    }
    rest
}

/// The first entries of a vector.
pub fn entries_up_to(values: &[Real], end: usize) -> (first: Vec<Real>)
    requires
        end <= values.len(),
    ensures
        first@ == values@.take(end as int),
{
    let mut first: Vec<Real> = Vec::new();
    while first.len() < end
        invariant
            first.len() <= end <= values.len(),
            first@ == values@.take(first.len() as int),
        decreases end - first.len(),
    {
        let i: usize = first.len();
        first.push(values[i]);
        proof {
            assert(first@ =~= values@.take(i + 1));
        }
    }
    first
}

proof fn place_in_row(row: Seq<Real>, at: int, end: int, col: int) -> (k: int)
    requires
        0 <= col < end,
        !row[col].same_value(Real::zero_spec()),
    ensures
        0 <= k < row_triplets(row, at, end).len(),
        row_triplets(row, at, end)[k] == (Triplet {
            row: at as usize,
            col: col as usize,
            value: row[col],
        }),
    decreases end,
{
    if col == end - 1 {
        row_triplets(row, at, end).len() - 1
    } else {
        place_in_row(row, at, end - 1, col)
    }
}

/// Every entry of a matrix that is not zero has its triplet.
pub proof fn every_entry_has_its_triplet(rows: Seq<Seq<Real>>, row: int, col: int) -> (k: int)
    requires
        0 <= row < rows.len(),
        0 <= col < rows[row].len(),
        !rows[row][col].same_value(Real::zero_spec()),
    ensures
        0 <= k < triplets_of(rows).len(),
        triplets_of(rows)[k] == (Triplet {
            row: row as usize,
            col: col as usize,
            value: rows[row][col],
        }),
    decreases rows.len(),
{
    let before = triplets_of(rows.drop_last());
    if row == rows.len() - 1 {
        before.len() + place_in_row(rows.last(), row, rows.last().len() as int, col)
    } else {
        every_entry_has_its_triplet(rows.drop_last(), row, col)
    }
}

proof fn entry_in_row(row: Seq<Real>, at: int, end: int, k: int)
    requires
        0 <= end <= row.len(),
        row.len() <= usize::MAX,
        0 <= at <= usize::MAX,
        0 <= k < row_triplets(row, at, end).len(),
    ensures
        ({
            let triplet = row_triplets(row, at, end)[k];
            &&& triplet.row == at
            &&& triplet.col < end
            &&& triplet.value == row[triplet.col as int]
            &&& !triplet.value.same_value(Real::zero_spec())
        }),
    decreases end,
{
    if end > 0 {
        if row[end - 1].same_value(Real::zero_spec()) || k < row_triplets(row, at, end).len() - 1 {
            entry_in_row(row, at, end - 1, k);
        }
    }
}

/// Every triplet of a matrix is an entry that is not zero, at its row and column.
pub proof fn every_triplet_is_an_entry(rows: Seq<Seq<Real>>, k: int)
    requires
        rows.len() <= usize::MAX,
        forall|i: int| 0 <= i < rows.len() ==> (#[trigger] rows[i]).len() <= usize::MAX,
        0 <= k < triplets_of(rows).len(),
    ensures
        ({
            let triplet = triplets_of(rows)[k];
            &&& triplet.row < rows.len()
            &&& triplet.col < rows[triplet.row as int].len()
            &&& triplet.value == rows[triplet.row as int][triplet.col as int]
            &&& !triplet.value.same_value(Real::zero_spec())
        }),
    decreases rows.len(),
{
    let before = triplets_of(rows.drop_last());
    if rows.len() > 0 {
        if k < before.len() {
            every_triplet_is_an_entry(rows.drop_last(), k);
        } else {
            assert(rows[rows.len() - 1].len() <= usize::MAX);
            entry_in_row(
                rows.last(),
                rows.len() - 1,
                rows.last().len() as int,
                k - before.len(),
            );
        }
    }
}

/// The largest magnitude is zero or that of one of the values.
pub proof fn largest_magnitude_is_attained(values: Seq<Real>, end: int) -> (k: int)
    requires
        0 <= end <= values.len(),
    ensures
        largest_magnitude(values, end) == Real::zero_spec() || (0 <= k < end && largest_magnitude(
            values,
            end,
        ) == values[k].abs_spec()),
    decreases end,
{
    if end == 0 {
        0
    } else {
        let before = largest_magnitude_is_attained(values, end - 1);
        if largest_magnitude(values, end) == largest_magnitude(values, end - 1) {
            before
        } else {
            end - 1
        }
    }
}

} // verus!
