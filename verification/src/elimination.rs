//! Gaussian elimination: which rows are pivoted on, and what is left.

use crate::errors::HonestError;
use crate::exact;
use crate::matrix;
use crate::matrix::copy_matrix;
use crate::number::Real;
use vstd::prelude::*;

verus! {

/// Whether `best` is the last row from `from` on whose entry in a column is
/// largest in magnitude, in the total order.
pub open spec fn last_largest(rows: Seq<Seq<Real>>, col: int, from: int, best: int) -> bool {
    &&& from <= best < rows.len()
    &&& forall|r: int|
        from <= r < rows.len() ==> (#[trigger] rows[r])[col].abs_spec().rank()
            <= rows[best][col].abs_spec().rank()
    &&& forall|r: int|
        best < r < rows.len() ==> (#[trigger] rows[r])[col].abs_spec().rank()
            < rows[best][col].abs_spec().rank()
}

/// Whether a number counts as zero.
pub open spec fn vanishes(value: Real, tol: Real) -> bool {
    value.abs_spec().le(tol)
}

/// Where an elimination stands.
pub struct EliminationState {
    /// The rows.
    pub rows: Seq<Seq<Real>>,
    /// Columns that were pivoted on.
    pub pivots: Seq<usize>,
}

/// The rows with two of them exchanged.
pub open spec fn exchanged(rows: Seq<Seq<Real>>, a: int, b: int) -> Seq<Seq<Real>> {
    rows.update(a, rows[b]).update(b, rows[a])
}

/// Whether `scaled` is a pivot row divided by its pivot from `start` on.
pub open spec fn row_scaled<D: Fn(Real, Real) -> Real>(
    row: Seq<Real>,
    scaled: Seq<Real>,
    col: int,
    start: int,
    divide: D,
) -> bool {
    &&& scaled.len() == row.len()
    &&& forall|c: int|
        0 <= c < row.len() ==> if c < start {
            #[trigger] scaled[c] == row[c]
        } else {
            call_ensures(divide, (row[c], row[col]), scaled[c])
        }
}

/// Whether `cleared` is a row from which the pivot row was taken off from
/// `start` on; a row whose entry counts as zero stays as it is.
pub open spec fn row_cleared<E: Fn(Real, Real, Real) -> Real>(
    row: Seq<Real>,
    pivot: Seq<Real>,
    cleared: Seq<Real>,
    col: int,
    start: int,
    tol: Real,
    eliminate: E,
) -> bool {
    if vanishes(row[col], tol) {
        cleared == row
    } else {
        &&& cleared.len() == row.len()
        &&& forall|c: int|
            0 <= c < row.len() ==> if c < start {
                #[trigger] cleared[c] == row[c]
            } else {
                call_ensures(eliminate, (row[col], pivot[c], row[c]), cleared[c])
            }
    }
}

/// Whether column `col` takes an elimination from one state to the next.
pub open spec fn column_done<D: Fn(Real, Real) -> Real, E: Fn(Real, Real, Real) -> Real>(
    before: EliminationState,
    after: EliminationState,
    best: int,
    col: int,
    whole_rows: bool,
    tol: Real,
    divide: D,
    eliminate: E,
) -> bool {
    let at = before.pivots.len() as int;
    let start = if whole_rows {
        0
    } else {
        col
    };
    if at >= before.rows.len() {
        after == before
    } else {
        &&& last_largest(before.rows, col, at, best)
        &&& if vanishes(before.rows[best][col], tol) {
            after == before
        } else {
            let swapped = exchanged(before.rows, at, best);
            &&& after.pivots == before.pivots.push(col as usize)
            &&& after.rows.len() == before.rows.len()
            &&& row_scaled(swapped[at], after.rows[at], col, start, divide)
            &&& forall|r: int|
                0 <= r < before.rows.len() && r != at ==> row_cleared(
                    swapped[r],
                    after.rows[at],
                    #[trigger] after.rows[r],
                    col,
                    start,
                    tol,
                    eliminate,
                )
        }
    }
}

/// Whether `states` is an elimination of `rows`, column by column.
pub open spec fn eliminated<D: Fn(Real, Real) -> Real, E: Fn(Real, Real, Real) -> Real>(
    states: Seq<EliminationState>,
    choices: Seq<int>,
    rows: Seq<Seq<Real>>,
    cols: int,
    whole_rows: bool,
    tol: Real,
    divide: D,
    eliminate: E,
) -> bool {
    &&& states.len() == cols + 1
    &&& choices.len() == cols
    &&& states[0] == EliminationState { rows, pivots: Seq::empty() }
    &&& forall|col: int|
        0 <= col < cols ==> column_done(
            #[trigger] states[col],
            states[col + 1],
            choices[col],
            col,
            whole_rows,
            tol,
            divide,
            eliminate,
        )
}

fn find_pivot_row(rows: &Vec<Vec<Real>>, col: usize, from: usize) -> (best: usize)
    requires
        from < rows.len(),
        matrix::rectangular(rows@),
        col < matrix::first_width(rows@),
    ensures
        last_largest(matrix::rows_of(rows@), col as int, from as int, best as int),
        best < rows.len(),
{
    let mut best: usize = from;
    let mut r: usize = from + 1;
    while r < rows.len()
        invariant
            from <= best < r <= rows.len(),
            matrix::rectangular(rows@),
            col < matrix::first_width(rows@),
            forall|k: int|
                from <= k < r ==> (#[trigger] matrix::rows_of(
                    rows@,
                )[k])[col as int].abs_spec().rank() <= rows@[best as int]@[col as int].abs_spec().rank(),
            forall|k: int|
                best < k < r ==> (#[trigger] matrix::rows_of(
                    rows@,
                )[k])[col as int].abs_spec().rank() < rows@[best as int]@[col as int].abs_spec().rank(),
        decreases rows.len() - r,
    {
        assert(rows@[r as int]@.len() == matrix::first_width(rows@));
        assert(rows@[best as int]@.len() == matrix::first_width(rows@));
        if !rows[r][col].abs().ranks_below(rows[best][col].abs()) {
            best = r;
        }
        r = r + 1;
    }
    best
}

fn scale_row<D: Fn(Real, Real) -> Real>(
    row: &Vec<Real>,
    col: usize,
    start: usize,
    divide: &D,
) -> (scaled: Vec<Real>)
    requires
        col < row.len(),
        forall|a: Real, b: Real| #[trigger] call_requires(*divide, (a, b)),
    ensures
        row_scaled(row@, scaled@, col as int, start as int, *divide),
{
    let pivot = row[col];
    let mut scaled: Vec<Real> = Vec::new();
    while scaled.len() < row.len()
        invariant
            scaled.len() <= row.len(),
            col < row.len(),
            pivot == row@[col as int],
            forall|a: Real, b: Real| #[trigger] call_requires(*divide, (a, b)),
            forall|c: int|
                0 <= c < scaled.len() ==> if c < start {
                    #[trigger] scaled@[c] == row@[c]
                } else {
                    call_ensures(*divide, (row@[c], row@[col as int]), scaled@[c])
                },
        decreases row.len() - scaled.len(),
    {
        let c: usize = scaled.len();
        if c < start {
            scaled.push(row[c]);
        } else {
            scaled.push(divide(row[c], pivot));
        }
    }
    scaled
}

fn clear_row<E: Fn(Real, Real, Real) -> Real>(
    row: &Vec<Real>,
    pivot: &Vec<Real>,
    col: usize,
    start: usize,
    tol: Real,
    eliminate: &E,
) -> (cleared: Vec<Real>)
    requires
        col < row.len(),
        pivot.len() == row.len(),
        forall|a: Real, b: Real, c: Real| #[trigger] call_requires(*eliminate, (a, b, c)),
    ensures
        row_cleared(
            row@,
            pivot@,
            cleared@,
            col as int,
            start as int,
            tol,
            *eliminate,
        ),
{
    let factor = row[col];
    let mut cleared: Vec<Real> = Vec::new();
    if factor.abs().at_most(tol) {
        return matrix::copy_row(row.as_slice());
    }
    while cleared.len() < row.len()
        invariant
            cleared.len() <= row.len(),
            col < row.len(),
            pivot.len() == row.len(),
            factor == row@[col as int],
            forall|a: Real, b: Real, c: Real| #[trigger] call_requires(*eliminate, (a, b, c)),
            forall|c: int|
                0 <= c < cleared.len() ==> if c < start {
                    #[trigger] cleared@[c] == row@[c]
                } else {
                    call_ensures(
                        *eliminate,
                        (row@[col as int], pivot@[c], row@[c]),
                        cleared@[c],
                    )
                },
        decreases row.len() - cleared.len(),
    {
        let c: usize = cleared.len();
        if c < start {
            cleared.push(row[c]);
        } else {
            cleared.push(eliminate(factor, pivot[c], row[c]));
        }
    }
    cleared
}

/// The state of an elimination whose rows and pivots are given.
pub open spec fn state_of(rows: Seq<Vec<Real>>, pivots: Seq<usize>) -> EliminationState {
    EliminationState { rows: matrix::rows_of(rows), pivots }
}

fn eliminate_column<D: Fn(Real, Real) -> Real, E: Fn(Real, Real, Real) -> Real>(
    rows: &mut Vec<Vec<Real>>,
    pivots: &mut Vec<usize>,
    col: usize,
    whole_rows: bool,
    tol: Real,
    divide: &D,
    eliminate: &E,
) -> (best: Ghost<int>)
    requires
        matrix::rectangular(old(rows)@),
        col < matrix::first_width(old(rows)@),
        old(pivots).len() <= old(rows).len(),
        forall|a: Real, b: Real| #[trigger] call_requires(*divide, (a, b)),
        forall|a: Real, b: Real, c: Real| #[trigger] call_requires(*eliminate, (a, b, c)),
    ensures
        final(rows).len() == old(rows).len(),
        final(pivots).len() <= final(rows).len(),
        matrix::rectangular(final(rows)@),
        matrix::first_width(final(rows)@) == matrix::first_width(old(rows)@),
        column_done(
            state_of(old(rows)@, old(pivots)@),
            state_of(final(rows)@, final(pivots)@),
            best@,
            col as int,
            whole_rows,
            tol,
            *divide,
            *eliminate,
        ),
{
    let ghost before = state_of(rows@, pivots@);
    let at: usize = pivots.len();
    if at >= rows.len() {
        return Ghost(0int);
    }
    let best: usize = find_pivot_row(rows, col, at);
    assert(rows@[best as int]@.len() == matrix::first_width(rows@));
    if rows[best][col].abs().at_most(tol) {
        return Ghost(best as int);
    }
    let start: usize = if whole_rows {
        0
    } else {
        col
    };
    let ghost width = matrix::first_width(rows@);
    let ghost swapped = exchanged(before.rows, at as int, best as int);
    let scaled = scale_row(&rows[best], col, start, divide);
    let mut next: Vec<Vec<Real>> = Vec::new();
    let mut r: usize = 0;
    while r < rows.len()
        invariant
            r <= rows.len(),
            next.len() == r,
            at < rows.len(),
            best < rows.len(),
            at <= best,
            col < width,
            scaled.len() == width,
            matrix::has_cols(rows@, width),
            before.rows == matrix::rows_of(rows@),
            swapped == exchanged(before.rows, at as int, best as int),
            matrix::has_cols(next@, width),
            forall|a: Real, b: Real, c: Real| #[trigger] call_requires(*eliminate, (a, b, c)),
            at < r ==> next@[at as int]@ == scaled@,
            forall|k: int|
                0 <= k < r && k != at ==> row_cleared(
                    swapped[k],
                    scaled@,
                    #[trigger] next@[k]@,
                    col as int,
                    start as int,
                    tol,
                    *eliminate,
                ),
        decreases rows.len() - r,
    {
        if r == at {
            next.push(matrix::copy_row(scaled.as_slice()));
        } else {
            let source: usize = if r == best {
                at
            } else {
                r
            };
            assert(rows@[source as int]@.len() == width);
            assert(swapped[r as int] == rows@[source as int]@);
            let cleared = clear_row(&rows[source], &scaled, col, start, tol, eliminate);
            next.push(cleared);
        }
        r = r + 1;
    }
    *rows = next;
    pivots.push(col);
    proof {
        let after = state_of(rows@, pivots@);
        assert(rows@[0]@.len() == width);
        assert(swapped[at as int] == before.rows[best as int]);
        assert(after.rows[at as int] == scaled@);
        assert forall|k: int| 0 <= k < before.rows.len() && k != at implies row_cleared(
            swapped[k],
            after.rows[at as int],
            #[trigger] after.rows[k],
            col as int,
            start as int,
            tol,
            *eliminate,
        ) by {
            assert(rows@[k]@ == after.rows[k]);
        }
    }
    Ghost(best as int)
}

fn run_elimination<D: Fn(Real, Real) -> Real, E: Fn(Real, Real, Real) -> Real>(
    rows: &[Vec<Real>],
    whole_rows: bool,
    tol: Real,
    divide: &D,
    eliminate: &E,
) -> (out: (Vec<usize>, Ghost<Seq<EliminationState>>, Ghost<Seq<int>>))
    requires
        matrix::rectangular(rows@),
        rows.len() > 0,
        forall|a: Real, b: Real| #[trigger] call_requires(*divide, (a, b)),
        forall|a: Real, b: Real, c: Real| #[trigger] call_requires(*eliminate, (a, b, c)),
    ensures
        out.0.len() <= rows.len(),
        eliminated(
            out.1@,
            out.2@,
            matrix::rows_of(rows@),
            matrix::first_width(rows@),
            whole_rows,
            tol,
            *divide,
            *eliminate,
        ),
        out.0@ == out.1@.last().pivots,
{
    let mut work = copy_matrix(rows);
    let cols: usize = rows[0].len();
    let mut pivots: Vec<usize> = Vec::new();
    proof {
        assert(matrix::rows_of(work@) == matrix::rows_of(rows@));
        assert(work@.len() == matrix::rows_of(work@).len());
        assert forall|i: int| 0 <= i < work.len() implies (#[trigger] work@[i])@.len() == cols by {
            assert(matrix::rows_of(work@)[i] == matrix::rows_of(rows@)[i]);
            assert(rows@[i]@.len() == cols);
        }
    }
    let ghost mut states: Seq<EliminationState> = Seq::empty().push(state_of(work@, pivots@));
    let ghost mut choices: Seq<int> = Seq::empty();
    proof {
        assert(states[0].pivots =~= Seq::empty());
    }
    let mut col: usize = 0;
    while col < cols
        invariant
            col <= cols,
            rows.len() > 0,
            work.len() == rows.len(),
            pivots.len() <= work.len(),
            matrix::rectangular(work@),
            matrix::first_width(work@) == cols,
            states.len() == col + 1,
            choices.len() == col,
            states[0] == (EliminationState {
                rows: matrix::rows_of(rows@),
                pivots: Seq::empty(),
            }),
            states.last() == state_of(work@, pivots@),
            forall|a: Real, b: Real| #[trigger] call_requires(*divide, (a, b)),
            forall|a: Real, b: Real, c: Real| #[trigger] call_requires(*eliminate, (a, b, c)),
            forall|k: int|
                0 <= k < col ==> column_done(
                    #[trigger] states[k],
                    states[k + 1],
                    choices[k],
                    k,
                    whole_rows,
                    tol,
                    *divide,
                    *eliminate,
                ),
        decreases cols - col,
    {
        let Ghost(best) = eliminate_column(
            &mut work,
            &mut pivots,
            col,
            whole_rows,
            tol,
            divide,
            eliminate,
        );
        proof {
            let longer = states.push(state_of(work@, pivots@));
            let chosen = choices.push(best);
            assert forall|k: int| 0 <= k < col + 1 implies column_done(
                #[trigger] longer[k],
                longer[k + 1],
                chosen[k],
                k,
                whole_rows,
                tol,
                *divide,
                *eliminate,
            ) by {
                if k < col {
                    assert(longer[k] == states[k]);
                    assert(longer[k + 1] == states[k + 1]);
                    assert(chosen[k] == choices[k]);
                } else {
                    assert(longer[k] == states.last());
                }
            }
            states = longer;
            choices = chosen;
        }
        col = col + 1;
    }
    (pivots, Ghost(states), Ghost(choices))
}

/// Pivot columns of the reduced row echelon form; an error where some row has
/// none.
pub fn rref_pivot_columns<D: Fn(Real, Real) -> Real, E: Fn(Real, Real, Real) -> Real>(
    rows: &[Vec<Real>],
    tol: Real,
    divide: &D,
    eliminate: &E,
) -> (pivots: Result<Vec<usize>, HonestError>)
    requires
        matrix::rectangular(rows@),
        forall|a: Real, b: Real| #[trigger] call_requires(*divide, (a, b)),
        forall|a: Real, b: Real, c: Real| #[trigger] call_requires(*eliminate, (a, b, c)),
    ensures
        rows.len() == 0 ==> pivots is Ok && pivots->Ok_0@.len() == 0,
        rows.len() > 0 ==> exists|states: Seq<EliminationState>, choices: Seq<int>| #[trigger]
            eliminated(
                states,
                choices,
                matrix::rows_of(rows@),
                matrix::first_width(rows@),
                true,
                tol,
                *divide,
                *eliminate,
            ) && (match pivots {
                Ok(columns) => columns@ == states.last().pivots && columns.len() == rows.len(),
                Err(error) => states.last().pivots.len() != rows.len() && error
                    == HonestError::PivotBasis,
            }),
{
    if rows.len() == 0 {
        return Ok(Vec::new());
    }
    let (pivots, Ghost(states), Ghost(choices)) = run_elimination(
        rows,
        true,
        tol,
        divide,
        eliminate,
    );
    if pivots.len() != rows.len() {
        return Err(HonestError::PivotBasis);
    }
    Ok(pivots)
}

/// Rank of a matrix: the number of columns that an elimination pivots on.
pub fn matrix_rank<D: Fn(Real, Real) -> Real, E: Fn(Real, Real, Real) -> Real>(
    rows: &[Vec<Real>],
    tol: Real,
    divide: &D,
    eliminate: &E,
) -> (rank: usize)
    requires
        matrix::rectangular(rows@),
        forall|a: Real, b: Real| #[trigger] call_requires(*divide, (a, b)),
        forall|a: Real, b: Real, c: Real| #[trigger] call_requires(*eliminate, (a, b, c)),
    ensures
        rows.len() == 0 ==> rank == 0,
        rows.len() > 0 ==> rank <= rows.len() && exists|
            states: Seq<EliminationState>,
            choices: Seq<int>,
        | #[trigger]
            eliminated(
                states,
                choices,
                matrix::rows_of(rows@),
                matrix::first_width(rows@),
                false,
                tol,
                *divide,
                *eliminate,
            ) && rank == states.last().pivots.len(),
{
    if rows.len() == 0 {
        return 0;
    }
    let (pivots, Ghost(states), Ghost(choices)) = run_elimination(
        rows,
        false,
        tol,
        divide,
        eliminate,
    );
    pivots.len()
}

/// The columns that an elimination pivots on are in ascending order and lie in
/// the matrix, at most one for each row.
pub proof fn pivots_ascend<D: Fn(Real, Real) -> Real, E: Fn(Real, Real, Real) -> Real>(
    states: Seq<EliminationState>,
    choices: Seq<int>,
    rows: Seq<Seq<Real>>,
    cols: int,
    whole_rows: bool,
    tol: Real,
    divide: D,
    eliminate: E,
    at: int,
)
    requires
        eliminated(states, choices, rows, cols, whole_rows, tol, divide, eliminate),
        0 <= at <= cols <= usize::MAX,
    ensures
        states[at].rows.len() == rows.len(),
        states[at].pivots.len() <= rows.len(),
        forall|k: int| 0 <= k < states[at].pivots.len() ==> #[trigger] states[at].pivots[k] < at,
        forall|a: int, b: int|
            0 <= a < b < states[at].pivots.len() ==> #[trigger] states[at].pivots[a]
                < #[trigger] states[at].pivots[b],
    decreases at,
{
    if at > 0 {
        pivots_ascend(
            states,
            choices,
            rows,
            cols,
            whole_rows,
            tol,
            divide,
            eliminate,
            at - 1,
        );
        assert(column_done(
            states[at - 1],
            states[at - 1 + 1],
            choices[at - 1],
            at - 1,
            whole_rows,
            tol,
            divide,
            eliminate,
        ));
    }
}

// ---------------------------------------------------------------------------
// What elimination keeps
// ---------------------------------------------------------------------------

/// Whether the steps of an elimination are exact under a reading, and exactly what
/// counts as zero reads as zero.
pub open spec fn exact_elimination<D: Fn(Real, Real) -> Real, E: Fn(Real, Real, Real) -> Real>(
    divide: D,
    eliminate: E,
    tol: Real,
    read: spec_fn(Real) -> int,
) -> bool {
    &&& forall|value: Real, by: Real, quotient: Real| #[trigger]
        call_ensures(divide, (value, by), quotient) ==> read(quotient) * read(by) == read(value)
    &&& forall|factor: Real, pivot: Real, value: Real, rest: Real| #[trigger]
        call_ensures(eliminate, (factor, pivot, value), rest) ==> read(rest) == read(value) - read(
            factor,
        ) * read(pivot)
    &&& forall|value: Real| #[trigger] vanishes(value, tol) <==> read(value) == 0
}

/// Whether every row takes a vector to zero.
pub open spec fn solved_by(
    rows: Seq<Seq<Real>>,
    x: Seq<int>,
    read: spec_fn(Real) -> int,
) -> bool {
    forall|r: int|
        0 <= r < rows.len() ==> #[trigger] row_at(rows, r, x, read) == 0
}

/// A row's inner product with a vector.
pub open spec fn row_at(
    rows: Seq<Seq<Real>>,
    r: int,
    x: Seq<int>,
    read: spec_fn(Real) -> int,
) -> int {
    exact::inner(exact::values(read, rows[r]), x, x.len() as int)
}

proof fn inner_after_clearing(
    row: Seq<int>,
    pivot: Seq<int>,
    cleared: Seq<int>,
    factor: int,
    x: Seq<int>,
    end: int,
)
    requires
        forall|c: int| 0 <= c < end ==> #[trigger] cleared[c] == row[c] - factor * pivot[c],
    ensures
        exact::inner(cleared, x, end) == exact::inner(row, x, end) - factor * exact::inner(
            pivot,
            x,
            end,
        ),
    decreases end,
{
    if end > 0 {
        inner_after_clearing(row, pivot, cleared, factor, x, end - 1);
        let a = row[end - 1];
        let b = pivot[end - 1];
        let e = x[end - 1];
        let before = exact::inner(pivot, x, end - 1);
        assert(cleared[end - 1] == a - factor * b);
        assert((a - factor * b) * e == a * e - factor * (b * e)) by (nonlinear_arith);
        assert(factor * (before + b * e) == factor * before + factor * (b * e))
            by (nonlinear_arith);
    } else {
        assert(factor * 0 == 0);
    }
}

proof fn inner_after_scaling(
    row: Seq<int>,
    scaled: Seq<int>,
    pivot: int,
    x: Seq<int>,
    end: int,
)
    requires
        forall|c: int| 0 <= c < end ==> #[trigger] scaled[c] * pivot == row[c],
    ensures
        exact::inner(scaled, x, end) * pivot == exact::inner(row, x, end),
    decreases end,
{
    if end > 0 {
        inner_after_scaling(row, scaled, pivot, x, end - 1);
        let s = scaled[end - 1];
        let e = x[end - 1];
        let before = exact::inner(scaled, x, end - 1);
        assert(s * pivot == row[end - 1]);
        assert((before + s * e) * pivot == before * pivot + (s * pivot) * e) by (nonlinear_arith);
    }
}

/// A column of an elimination keeps the solutions of the rows: a vector that all rows
/// take to zero before it, all take to zero after it, and the other way round. Where
/// it pivots, its column is left with a one in the pivot row and zeros elsewhere.
pub proof fn a_column_keeps_the_solutions<D: Fn(Real, Real) -> Real, E: Fn(Real, Real, Real) -> Real>(
    before: EliminationState,
    after: EliminationState,
    best: int,
    col: int,
    whole_rows: bool,
    tol: Real,
    divide: D,
    eliminate: E,
    x: Seq<int>,
    read: spec_fn(Real) -> int,
)
    requires
        column_done(before, after, best, col, whole_rows, tol, divide, eliminate),
        exact_elimination(divide, eliminate, tol, read),
        0 <= col < x.len(),
        forall|r: int| 0 <= r < before.rows.len() ==> (#[trigger] before.rows[r]).len() == x.len(),
        !whole_rows ==> forall|r: int, c: int|
            before.pivots.len() <= r < before.rows.len() && 0 <= c < col ==> read(
                #[trigger] before.rows[r][c],
            ) == 0,
    ensures
        after.rows.len() == before.rows.len(),
        solved_by(before.rows, x, read) <==> solved_by(after.rows, x, read),
        after.pivots.len() > before.pivots.len() ==> forall|r: int|
            0 <= r < after.rows.len() ==> read((#[trigger] after.rows[r])[col]) == (if r
                == before.pivots.len() {
                1int
            } else {
                0int
            }),
{
    let at = before.pivots.len() as int;
    let n = x.len() as int;
    if at < before.rows.len() && !vanishes(before.rows[best][col], tol) {
        let start = if whole_rows {
            0
        } else {
            col
        };
        let swapped = exchanged(before.rows, at, best);
        let p = read(swapped[at][col]);
        assert(swapped[at] == before.rows[best]);
        assert(p != 0);
        let row = exact::values(read, swapped[at]);
        let scaled = exact::values(read, after.rows[at]);
        assert forall|c: int| 0 <= c < n implies #[trigger] scaled[c] * p == row[c] by {
            if c < start {
                assert(after.rows[at][c] == swapped[at][c]);
                assert(read(before.rows[best][c]) == 0);
                assert(0 * p == 0);
            } else {
                assert(call_ensures(
                    divide,
                    (swapped[at][c], swapped[at][col]),
                    after.rows[at][c],
                ));
            }
        }
        inner_after_scaling(row, scaled, p, x, n);
        let along = exact::inner(scaled, x, n);
        assert(along * p == 0 <==> along == 0) by (nonlinear_arith)
            requires
                p != 0,
        ;
        assert(scaled[col] * p == p);
        assert(scaled[col] == 1) by (nonlinear_arith)
            requires
                scaled[col] * p == p,
                p != 0,
        ;
        assert forall|r: int| 0 <= r < before.rows.len() && r != at implies row_at(
            swapped,
            r,
            x,
            read,
        ) == #[trigger] row_at(after.rows, r, x, read) + read(swapped[r][col]) * along && read(
            after.rows[r][col],
        ) == 0 by {
            assert(row_cleared(
                swapped[r],
                after.rows[at],
                after.rows[r],
                col,
                start,
                tol,
                eliminate,
            ));
            let factor = read(swapped[r][col]);
            assert(swapped[r].len() == n);
            if vanishes(swapped[r][col], tol) {
                assert(factor == 0);
                assert(0 * along == 0);
            } else {
                let was = exact::values(read, swapped[r]);
                let cleared = exact::values(read, after.rows[r]);
                assert forall|c: int| 0 <= c < n implies #[trigger] cleared[c] == was[c] - factor
                    * scaled[c] by {
                    if c < start {
                        assert(after.rows[r][c] == swapped[r][c]);
                        assert(after.rows[at][c] == swapped[at][c]);
                        assert(read(before.rows[best][c]) == 0);
                        assert(factor * 0 == 0);
                    } else {
                        assert(call_ensures(
                            eliminate,
                            (swapped[r][col], after.rows[at][c], swapped[r][c]),
                            after.rows[r][c],
                        ));
                    }
                }
                inner_after_clearing(was, scaled, cleared, factor, x, n);
                assert(cleared[col] == was[col] - factor * scaled[col]);
            }
        }
        if solved_by(before.rows, x, read) {
            assert(row_at(before.rows, best, x, read) == 0);
            assert(along == 0);
            assert forall|r: int| 0 <= r < after.rows.len() implies #[trigger] row_at(
                after.rows,
                r,
                x,
                read,
            ) == 0 by {
                let source = if r == best {
                    at
                } else {
                    r
                };
                assert(row_at(before.rows, source, x, read) == 0);
                assert(read(swapped[r][col]) * 0 == 0);
            }
        }
        if solved_by(after.rows, x, read) {
            assert(row_at(after.rows, at, x, read) == 0);
            assert(along == 0);
            assert forall|r: int| 0 <= r < before.rows.len() implies #[trigger] row_at(
                before.rows,
                r,
                x,
                read,
            ) == 0 by {
                let target = if r == best {
                    at
                } else if r == at {
                    best
                } else {
                    r
                };
                assert(swapped[target] == before.rows[r]);
                assert(row_at(after.rows, target, x, read) == 0);
                assert(read(swapped[target][col]) * 0 == 0);
            }
        }
    }
}

} // verus!
