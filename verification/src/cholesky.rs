//! Lower Cholesky factors of covariance matrices.
//!
//! A matrix that is not safely definite is factored again with a little added
//! along its diagonal, and where that fails too, directly, with negligible
//! negative pivots taken for zero.

use crate::errors::HonestError;
use crate::exact;
use crate::matrix;
use crate::matrix::max_abs;
use crate::number::Real;
use vstd::prelude::*;

verus! {

/// The bits of `1e-12`, at or below which a pivot is not divided by.
pub const PIVOT_BITS: u64 = 0x3d719799812dea11;

/// The arithmetic of a factorization.
pub struct FactorNumbers<A, F, J, E, T, Q, D> {
    /// Half the sum of two entries.
    pub average: A,
    /// The factor of a definite matrix.
    pub factor: F,
    /// The factor of a matrix with its diagonal raised in proportion to a scale.
    pub jitter: J,
    /// A value less the product of two entries.
    pub eliminate: E,
    /// The lowest pivot that is taken for zero at a scale.
    pub tolerate: T,
    /// The square root.
    pub root: Q,
    /// The quotient.
    pub divide: D,
}

/// Whether `sym` is the symmetric part of a matrix.
pub open spec fn symmetric_part<A: Fn(Real, Real) -> Real>(
    matrix: Seq<Vec<Real>>,
    sym: Seq<Vec<Real>>,
    average: A,
) -> bool {
    &&& sym.len() == matrix.len()
    &&& matrix::has_cols(sym, matrix.len() as int)
    &&& forall|i: int, j: int|
        0 <= i < sym.len() && 0 <= j < sym.len() ==> call_ensures(
            average,
            (matrix[i]@[j], matrix[j]@[i]),
            #[trigger] sym[i]@[j],
        )
}

/// The diagonal of a matrix.
pub open spec fn diagonal_of(sym: Seq<Vec<Real>>) -> Seq<Real> {
    Seq::new(sym.len(), |i: int| sym[i]@[i])
}

/// The scale of a matrix: the largest magnitude along its diagonal, but no less
/// than one.
pub open spec fn scale_of(sym: Seq<Vec<Real>>) -> Real {
    matrix::largest_magnitude(diagonal_of(sym), sym.len() as int).max_spec(Real::one_spec())
}

/// Whether `rests` are what is left of a value as the products of the entries
/// before column `j` of two rows are taken from it one after another.
pub open spec fn eliminates<E: Fn(Real, Real, Real) -> Real>(
    rests: Seq<Real>,
    value: Real,
    left: Seq<Real>,
    right: Seq<Real>,
    j: int,
    eliminate: E,
) -> bool {
    &&& rests.len() == j + 1
    &&& rests[0] == value
    &&& forall|k: int|
        0 <= k < j ==> call_ensures(
            eliminate,
            (rests[k], left[k], right[k]),
            #[trigger] rests[k + 1],
        )
}

/// Whether `entry` stands below the diagonal of a factor, in a row that starts
/// with `left` and the column of the row `right`.
pub open spec fn is_lower_entry<
    E: Fn(Real, Real, Real) -> Real,
    D: Fn(Real, Real) -> Real,
>(
    rests: Seq<Real>,
    value: Real,
    left: Seq<Real>,
    right: Seq<Real>,
    j: int,
    eliminate: E,
    divide: D,
    entry: Real,
) -> bool {
    &&& eliminates(rests, value, left, right, j, eliminate)
    &&& if (Real { bits: PIVOT_BITS }).lt(right[j].abs_spec()) {
        call_ensures(divide, (rests[j], right[j]), entry)
    } else {
        entry == Real::zero_spec()
    }
}

/// Whether `entry` stands on the diagonal of a factor, in a row that starts with
/// `left`.
pub open spec fn is_pivot<E: Fn(Real, Real, Real) -> Real, Q: Fn(Real) -> Real>(
    rests: Seq<Real>,
    value: Real,
    left: Seq<Real>,
    j: int,
    eliminate: E,
    root: Q,
    floor: Real,
    entry: Real,
) -> bool {
    &&& eliminates(rests, value, left, left, j, eliminate)
    &&& !rests[j].lt(floor)
    &&& call_ensures(root, (rests[j].max_spec(Real::zero_spec()),), entry)
}

/// Whether the entry in column `j` of row `i` of a factor, below its diagonal,
/// is right.
pub open spec fn entry_factored<
    E: Fn(Real, Real, Real) -> Real,
    D: Fn(Real, Real) -> Real,
>(
    sym: Seq<Vec<Real>>,
    lower: Seq<Vec<Real>>,
    row: Seq<Real>,
    i: int,
    j: int,
    eliminate: E,
    divide: D,
) -> bool {
    exists|rests: Seq<Real>| #[trigger]
        is_lower_entry(rests, sym[i]@[j], row, lower[j]@, j, eliminate, divide, row[j])
}

/// Whether the entries before column `end` of row `i` of a factor are right.
pub open spec fn row_factored<
    E: Fn(Real, Real, Real) -> Real,
    D: Fn(Real, Real) -> Real,
>(
    sym: Seq<Vec<Real>>,
    lower: Seq<Vec<Real>>,
    row: Seq<Real>,
    i: int,
    end: int,
    eliminate: E,
    divide: D,
) -> bool {
    forall|j: int|
        0 <= j < end ==> #[trigger] entry_factored(sym, lower, row, i, j, eliminate, divide)
}

/// Whether row `i` of a factor is right.
pub open spec fn is_factor_row<
    E: Fn(Real, Real, Real) -> Real,
    Q: Fn(Real) -> Real,
    D: Fn(Real, Real) -> Real,
>(
    sym: Seq<Vec<Real>>,
    lower: Seq<Vec<Real>>,
    i: int,
    eliminate: E,
    root: Q,
    divide: D,
    floor: Real,
) -> bool {
    &&& lower[i]@.len() == sym.len()
    &&& row_factored(sym, lower, lower[i]@, i, i, eliminate, divide)
    &&& exists|rests: Seq<Real>| #[trigger]
        is_pivot(rests, sym[i]@[i], lower[i]@, i, eliminate, root, floor, lower[i]@[i])
    &&& forall|j: int| i < j < sym.len() ==> #[trigger] lower[i]@[j] == Real::zero_spec()
}

/// Whether `lower` holds the first rows of a factor.
pub open spec fn is_factor<
    E: Fn(Real, Real, Real) -> Real,
    Q: Fn(Real) -> Real,
    D: Fn(Real, Real) -> Real,
>(
    sym: Seq<Vec<Real>>,
    lower: Seq<Vec<Real>>,
    eliminate: E,
    root: Q,
    divide: D,
    floor: Real,
) -> bool {
    forall|i: int|
        0 <= i < lower.len() ==> #[trigger] is_factor_row(
            sym,
            lower,
            i,
            eliminate,
            root,
            divide,
            floor,
        )
}

/// Whether a factorization that got as far as `lower` meets a pivot that is
/// clearly negative in the row that starts with `row`.
pub open spec fn meets_negative_pivot<
    E: Fn(Real, Real, Real) -> Real,
    Q: Fn(Real) -> Real,
    D: Fn(Real, Real) -> Real,
>(
    sym: Seq<Vec<Real>>,
    lower: Seq<Vec<Real>>,
    row: Seq<Real>,
    rests: Seq<Real>,
    eliminate: E,
    root: Q,
    divide: D,
    floor: Real,
) -> bool {
    let i = lower.len() as int;
    &&& i < sym.len()
    &&& row.len() == i
    &&& is_factor(sym, lower, eliminate, root, divide, floor)
    &&& row_factored(sym, lower, row, i, i, eliminate, divide)
    &&& eliminates(rests, sym[i]@[i], row, row, i, eliminate)
    &&& rests[i].lt(floor)
}

/// Whether `outcome` is the direct factor of a matrix, or the refusal of one
/// with a clearly negative pivot.
pub open spec fn factored_directly<
    E: Fn(Real, Real, Real) -> Real,
    Q: Fn(Real) -> Real,
    D: Fn(Real, Real) -> Real,
>(
    sym: Seq<Vec<Real>>,
    eliminate: E,
    root: Q,
    divide: D,
    floor: Real,
    outcome: Result<Vec<Vec<Real>>, HonestError>,
) -> bool {
    match outcome {
        Ok(lower) => {
            &&& lower@.len() == sym.len()
            &&& is_factor(sym, lower@, eliminate, root, divide, floor)
        },
        Err(error) => {
            &&& error is NotSemidefinite
            &&& exists|lower: Seq<Vec<Real>>, row: Seq<Real>, rests: Seq<Real>| #[trigger]
                meets_negative_pivot(sym, lower, row, rests, eliminate, root, divide, floor)
        },
    }
}

proof fn elimination_reads_a_prefix<E: Fn(Real, Real, Real) -> Real>(
    rests: Seq<Real>,
    value: Real,
    left: Seq<Real>,
    right: Seq<Real>,
    other_left: Seq<Real>,
    other_right: Seq<Real>,
    j: int,
    eliminate: E,
)
    requires
        eliminates(rests, value, left, right, j, eliminate),
        forall|k: int| 0 <= k < j ==> #[trigger] left[k] == other_left[k],
        forall|k: int| 0 <= k < j ==> #[trigger] right[k] == other_right[k],
    ensures
        eliminates(rests, value, other_left, other_right, j, eliminate),
{
    assert forall|k: int| 0 <= k < j implies call_ensures(
        eliminate,
        (rests[k], other_left[k], other_right[k]),
        #[trigger] rests[k + 1],
    ) by {
        assert(left[k] == other_left[k]);
        assert(right[k] == other_right[k]);
    }
}

proof fn row_reads_a_prefix<E: Fn(Real, Real, Real) -> Real, D: Fn(Real, Real) -> Real>(
    sym: Seq<Vec<Real>>,
    lower: Seq<Vec<Real>>,
    row: Seq<Real>,
    other_lower: Seq<Vec<Real>>,
    other: Seq<Real>,
    i: int,
    end: int,
    eliminate: E,
    divide: D,
)
    requires
        row_factored(sym, lower, row, i, end, eliminate, divide),
        0 <= end <= row.len(),
        end <= other.len(),
        end <= lower.len(),
        end <= other_lower.len(),
        forall|k: int| 0 <= k < end ==> #[trigger] row[k] == other[k],
        forall|k: int| 0 <= k < end ==> #[trigger] lower[k] == other_lower[k],
    ensures
        row_factored(sym, other_lower, other, i, end, eliminate, divide),
{
    assert forall|j: int| 0 <= j < end implies #[trigger] entry_factored(
        sym,
        other_lower,
        other,
        i,
        j,
        eliminate,
        divide,
    ) by {
        assert(entry_factored(sym, lower, row, i, j, eliminate, divide));
        assert(row[j] == other[j]);
        assert(lower[j] == other_lower[j]);
        let value = sym[i]@[j];
        let right = lower[j]@;
        let rests = choose|rests: Seq<Real>| #[trigger]
            is_lower_entry(rests, value, row, right, j, eliminate, divide, row[j]);
        elimination_reads_a_prefix(rests, value, row, right, other, right, j, eliminate);
        assert(is_lower_entry(rests, value, other, right, j, eliminate, divide, other[j]));
    }
}

proof fn factor_grows<
    E: Fn(Real, Real, Real) -> Real,
    Q: Fn(Real) -> Real,
    D: Fn(Real, Real) -> Real,
>(
    sym: Seq<Vec<Real>>,
    lower: Seq<Vec<Real>>,
    row: Vec<Real>,
    eliminate: E,
    root: Q,
    divide: D,
    floor: Real,
)
    requires
        is_factor(sym, lower, eliminate, root, divide, floor),
        lower.len() < sym.len(),
        row@.len() == sym.len(),
        row_factored(sym, lower, row@, lower.len() as int, lower.len() as int, eliminate, divide),
        exists|rests: Seq<Real>| #[trigger]
            is_pivot(
                rests,
                sym[lower.len() as int]@[lower.len() as int],
                row@,
                lower.len() as int,
                eliminate,
                root,
                floor,
                row@[lower.len() as int],
            ),
        forall|j: int| lower.len() < j < sym.len() ==> #[trigger] row@[j] == Real::zero_spec(),
    ensures
        is_factor(sym, lower.push(row), eliminate, root, divide, floor),
{
    let grown = lower.push(row);
    assert forall|i: int| 0 <= i < grown.len() implies #[trigger] is_factor_row(
        sym,
        grown,
        i,
        eliminate,
        root,
        divide,
        floor,
    ) by {
        if i < lower.len() {
            assert(is_factor_row(sym, lower, i, eliminate, root, divide, floor));
            assert(grown[i] == lower[i]);
            row_reads_a_prefix(
                sym,
                lower,
                lower[i]@,
                grown,
                grown[i]@,
                i,
                i,
                eliminate,
                divide,
            );
        } else {
            row_reads_a_prefix(sym, lower, row@, grown, row@, i, i, eliminate, divide);
        }
    }
}

/// What is left of a value when the products of two rows are taken from it.
fn remainder<E: Fn(Real, Real, Real) -> Real>(
    value: Real,
    left: &Vec<Real>,
    right: &Vec<Real>,
    j: usize,
    eliminate: &E,
) -> (rest: (Real, Ghost<Seq<Real>>))
    requires
        j <= left.len(),
        j <= right.len(),
        forall|a: Real, b: Real, c: Real| #[trigger] call_requires(*eliminate, (a, b, c)),
    ensures
        eliminates(rest.1@, value, left@, right@, j as int, *eliminate),
        rest.0 == rest.1@[j as int],
{
    let mut rest = value;
    let ghost mut rests: Seq<Real> = seq![value];
    let mut k: usize = 0;
    while k < j
        invariant
            k <= j,
            j <= left.len(),
            j <= right.len(),
            eliminates(rests, value, left@, right@, k as int, *eliminate),
            rest == rests[k as int],
            forall|a: Real, b: Real, c: Real| #[trigger] call_requires(*eliminate, (a, b, c)),
        decreases j - k,
    {
        let next = eliminate(rest, left[k], right[k]);
        proof {
            let before = rests;
            rests = rests.push(next);
            assert forall|m: int| 0 <= m < k + 1 implies call_ensures(
                *eliminate,
                (rests[m], left@[m], right@[m]),
                #[trigger] rests[m + 1],
            ) by {
                if m < k {
                    assert(rests[m] == before[m]);
                    assert(rests[m + 1] == before[m + 1]);
                }
            }
        }
        rest = next;
        k = k + 1;
    }
    (rest, Ghost(rests))
}

/// The factor of a symmetric matrix, taken directly: a pivot that is negligibly
/// negative counts as zero, and nothing is divided by a negligible pivot.
pub fn cholesky_lower_tolerant<
    E: Fn(Real, Real, Real) -> Real,
    Q: Fn(Real) -> Real,
    D: Fn(Real, Real) -> Real,
>(sym: &Vec<Vec<Real>>, floor: Real, eliminate: &E, root: &Q, divide: &D) -> (outcome: Result<
    Vec<Vec<Real>>,
    HonestError,
>)
    requires
        matrix::has_cols(sym@, sym@.len() as int),
        forall|a: Real, b: Real, c: Real| #[trigger] call_requires(*eliminate, (a, b, c)),
        forall|a: Real| #[trigger] call_requires(*root, (a,)),
        forall|a: Real, b: Real| #[trigger] call_requires(*divide, (a, b)),
    ensures
        factored_directly(sym@, *eliminate, *root, *divide, floor, outcome),
{
    let n: usize = sym.len();
    let mut lower: Vec<Vec<Real>> = Vec::new();
    while lower.len() < n
        invariant
            n == sym.len(),
            lower.len() <= n,
            matrix::has_cols(sym@, sym@.len() as int),
            is_factor(sym@, lower@, *eliminate, *root, *divide, floor),
            forall|a: Real, b: Real, c: Real| #[trigger] call_requires(*eliminate, (a, b, c)),
            forall|a: Real| #[trigger] call_requires(*root, (a,)),
            forall|a: Real, b: Real| #[trigger] call_requires(*divide, (a, b)),
        decreases n - lower.len(),
    {
        let i: usize = lower.len();
        let mut row: Vec<Real> = Vec::new();
        assert(sym@[i as int]@.len() == n);
        while row.len() < i
            invariant
                i == lower.len(),
                i < n,
                n == sym.len(),
                row.len() <= i,
                sym@[i as int]@.len() == n,
                matrix::has_cols(sym@, sym@.len() as int),
                is_factor(sym@, lower@, *eliminate, *root, *divide, floor),
                row_factored(sym@, lower@, row@, i as int, row@.len() as int, *eliminate, *divide),
                forall|a: Real, b: Real, c: Real| #[trigger] call_requires(*eliminate, (a, b, c)),
                forall|a: Real, b: Real| #[trigger] call_requires(*divide, (a, b)),
            decreases i - row.len(),
        {
            let j: usize = row.len();
            assert(is_factor_row(sym@, lower@, j as int, *eliminate, *root, *divide, floor));
            let (rest, Ghost(rests)) = remainder(sym[i][j], &row, &lower[j], j, eliminate);
            let pivot = lower[j][j];
            let entry = if Real::from_bits(PIVOT_BITS).less(pivot.abs()) {
                divide(rest, pivot)
            } else {
                Real::zero()
            };
            let ghost before = row@;
            row.push(entry);
            proof {
                row_reads_a_prefix(
                    sym@,
                    lower@,
                    before,
                    lower@,
                    row@,
                    i as int,
                    j as int,
                    *eliminate,
                    *divide,
                );
                elimination_reads_a_prefix(
                    rests,
                    sym@[i as int]@[j as int],
                    before,
                    lower@[j as int]@,
                    row@,
                    lower@[j as int]@,
                    j as int,
                    *eliminate,
                );
                assert(is_lower_entry(
                    rests,
                    sym@[i as int]@[j as int],
                    row@,
                    lower@[j as int]@,
                    j as int,
                    *eliminate,
                    *divide,
                    row@[j as int],
                ));
                assert(entry_factored(
                    sym@,
                    lower@,
                    row@,
                    i as int,
                    j as int,
                    *eliminate,
                    *divide,
                ));
            }
        }
        let (rest, Ghost(rests)) = remainder(sym[i][i], &row, &row, i, eliminate);
        if rest.less(floor) {
            proof {
                assert(meets_negative_pivot(
                    sym@,
                    lower@,
                    row@,
                    rests,
                    *eliminate,
                    *root,
                    *divide,
                    floor,
                ));
            }
            return Err(HonestError::NotSemidefinite);
        }
        let pivot = root(rest.max(Real::zero()));
        let ghost before = row@;
        row.push(pivot);
        while row.len() < n
            invariant
                i < n,
                before.len() == i,
                i < row.len() <= n,
                row@[i as int] == pivot,
                forall|k: int| 0 <= k < i ==> #[trigger] row@[k] == before[k],
                forall|k: int| i < k < row.len() ==> #[trigger] row@[k] == Real::zero_spec(),
            decreases n - row.len(),
        {
            row.push(Real::zero());
        }
        proof {
            row_reads_a_prefix(
                sym@,
                lower@,
                before,
                lower@,
                row@,
                i as int,
                i as int,
                *eliminate,
                *divide,
            );
            elimination_reads_a_prefix(
                rests,
                sym@[i as int]@[i as int],
                before,
                before,
                row@,
                row@,
                i as int,
                *eliminate,
            );
            assert(is_pivot(
                rests,
                sym@[i as int]@[i as int],
                row@,
                i as int,
                *eliminate,
                *root,
                floor,
                row@[i as int],
            ));
            factor_grows(sym@, lower@, row, *eliminate, *root, *divide, floor);
        }
        lower.push(row);
    }
    Ok(lower)
}

// ---------------------------------------------------------------------------
// The factor of a covariance matrix
// ---------------------------------------------------------------------------

/// Whether the arithmetic takes whatever it is asked.
pub open spec fn factor_ready<
    A: Fn(Real, Real) -> Real,
    F: Fn(&Vec<Vec<Real>>) -> Option<Vec<Vec<Real>>>,
    J: Fn(&Vec<Vec<Real>>, Real) -> Option<Vec<Vec<Real>>>,
    E: Fn(Real, Real, Real) -> Real,
    T: Fn(Real) -> Real,
    Q: Fn(Real) -> Real,
    D: Fn(Real, Real) -> Real,
>(order: int, numbers: FactorNumbers<A, F, J, E, T, Q, D>) -> bool {
    &&& forall|a: Real, b: Real| #[trigger] call_requires(numbers.average, (a, b))
    &&& forall|sym: Vec<Vec<Real>>|
        sym@.len() == order && matrix::has_cols(sym@, order) ==> #[trigger] call_requires(
            numbers.factor,
            (&sym,),
        )
    &&& forall|sym: Vec<Vec<Real>>, scale: Real|
        sym@.len() == order && matrix::has_cols(sym@, order) ==> #[trigger] call_requires(
            numbers.jitter,
            (&sym, scale),
        )
    &&& forall|a: Real, b: Real, c: Real| #[trigger] call_requires(numbers.eliminate, (a, b, c))
    &&& forall|scale: Real| #[trigger] call_requires(numbers.tolerate, (scale,))
    &&& forall|a: Real| #[trigger] call_requires(numbers.root, (a,))
    &&& forall|a: Real, b: Real| #[trigger] call_requires(numbers.divide, (a, b))
}

/// Whether `outcome` is the first factor of a symmetric matrix that succeeds:
/// as it is, with its diagonal raised, or directly.
pub open spec fn first_factor<
    A: Fn(Real, Real) -> Real,
    F: Fn(&Vec<Vec<Real>>) -> Option<Vec<Vec<Real>>>,
    J: Fn(&Vec<Vec<Real>>, Real) -> Option<Vec<Vec<Real>>>,
    E: Fn(Real, Real, Real) -> Real,
    T: Fn(Real) -> Real,
    Q: Fn(Real) -> Real,
    D: Fn(Real, Real) -> Real,
>(
    sym: Vec<Vec<Real>>,
    numbers: FactorNumbers<A, F, J, E, T, Q, D>,
    plain: Option<Vec<Vec<Real>>>,
    raised: Option<Vec<Vec<Real>>>,
    floor: Real,
    outcome: Result<Vec<Vec<Real>>, HonestError>,
) -> bool {
    &&& call_ensures(numbers.factor, (&sym,), plain)
    &&& match plain {
        Some(lower) => outcome == Ok::<Vec<Vec<Real>>, HonestError>(lower),
        None => {
            &&& call_ensures(numbers.jitter, (&sym, scale_of(sym@)), raised)
            &&& match raised {
                Some(lower) => outcome == Ok::<Vec<Vec<Real>>, HonestError>(lower),
                None => {
                    &&& call_ensures(numbers.tolerate, (scale_of(sym@),), floor)
                    &&& factored_directly(
                        sym@,
                        numbers.eliminate,
                        numbers.root,
                        numbers.divide,
                        floor,
                        outcome,
                    )
                },
            }
        },
    }
}

/// Whether `outcome` is the first factor of the symmetric part of a matrix.
pub open spec fn factored<
    A: Fn(Real, Real) -> Real,
    F: Fn(&Vec<Vec<Real>>) -> Option<Vec<Vec<Real>>>,
    J: Fn(&Vec<Vec<Real>>, Real) -> Option<Vec<Vec<Real>>>,
    E: Fn(Real, Real, Real) -> Real,
    T: Fn(Real) -> Real,
    Q: Fn(Real) -> Real,
    D: Fn(Real, Real) -> Real,
>(
    matrix: Seq<Vec<Real>>,
    numbers: FactorNumbers<A, F, J, E, T, Q, D>,
    sym: Vec<Vec<Real>>,
    plain: Option<Vec<Vec<Real>>>,
    raised: Option<Vec<Vec<Real>>>,
    floor: Real,
    outcome: Result<Vec<Vec<Real>>, HonestError>,
) -> bool {
    symmetric_part(matrix, sym@, numbers.average) && first_factor(
        sym,
        numbers,
        plain,
        raised,
        floor,
        outcome,
    )
}

fn symmetrized<A: Fn(Real, Real) -> Real>(matrix: &Vec<Vec<Real>>, average: &A) -> (sym: Vec<
    Vec<Real>,
>)
    requires
        matrix::has_cols(matrix@, matrix@.len() as int),
        forall|a: Real, b: Real| #[trigger] call_requires(*average, (a, b)),
    ensures
        symmetric_part(matrix@, sym@, *average),
{
    let n: usize = matrix.len();
    let mut sym: Vec<Vec<Real>> = Vec::new();
    while sym.len() < n
        invariant
            n == matrix.len(),
            sym.len() <= n,
            matrix::has_cols(matrix@, n as int),
            matrix::has_cols(sym@, n as int),
            forall|a: Real, b: Real| #[trigger] call_requires(*average, (a, b)),
            forall|i: int, j: int|
                0 <= i < sym.len() && 0 <= j < n ==> call_ensures(
                    *average,
                    (matrix@[i]@[j], matrix@[j]@[i]),
                    #[trigger] sym@[i]@[j],
                ),
        decreases n - sym.len(),
    {
        let i: usize = sym.len();
        let mut row: Vec<Real> = Vec::new();
        assert(matrix@[i as int]@.len() == n);
        while row.len() < n
            invariant
                n == matrix.len(),
                i < n,
                row.len() <= n,
                matrix@[i as int]@.len() == n,
                matrix::has_cols(matrix@, n as int),
                forall|a: Real, b: Real| #[trigger] call_requires(*average, (a, b)),
                forall|j: int|
                    0 <= j < row.len() ==> call_ensures(
                        *average,
                        (matrix@[i as int]@[j], matrix@[j]@[i as int]),
                        #[trigger] row@[j],
                    ),
            decreases n - row.len(),
        {
            let j: usize = row.len();
            assert(matrix@[j as int]@.len() == n);
            row.push(average(matrix[i][j], matrix[j][i]));
        }
        sym.push(row);
    }
    sym
}

fn scale(sym: &Vec<Vec<Real>>) -> (scale: Real)
    requires
        matrix::has_cols(sym@, sym@.len() as int),
    ensures
        scale == scale_of(sym@),
{
    let mut diagonal: Vec<Real> = Vec::new();
    while diagonal.len() < sym.len()
        invariant
            diagonal.len() <= sym.len(),
            matrix::has_cols(sym@, sym@.len() as int),
            forall|i: int| 0 <= i < diagonal.len() ==> #[trigger] diagonal@[i] == sym@[i]@[i],
        decreases sym.len() - diagonal.len(),
    {
        let i: usize = diagonal.len();
        assert(sym@[i as int]@.len() == sym.len());
        diagonal.push(sym[i][i]);
    }
    assert(diagonal@ =~= diagonal_of(sym@));
    max_abs(&diagonal).max(Real::one())
}

fn is_square(matrix: &Vec<Vec<Real>>) -> (r: bool)
    ensures
        r == matrix::has_cols(matrix@, matrix@.len() as int),
{
    let mut i: usize = 0;
    while i < matrix.len()
        invariant
            i <= matrix.len(),
            forall|k: int| 0 <= k < i ==> (#[trigger] matrix@[k])@.len() == matrix@.len(),
        decreases matrix.len() - i,
    {
        if matrix[i].len() != matrix.len() {
            assert(matrix@[i as int]@.len() != matrix@.len());
            return false;
        }
        i = i + 1;
    }
    true
}

/// The lower Cholesky factor of a covariance matrix.
pub fn cholesky_lower<
    A: Fn(Real, Real) -> Real,
    F: Fn(&Vec<Vec<Real>>) -> Option<Vec<Vec<Real>>>,
    J: Fn(&Vec<Vec<Real>>, Real) -> Option<Vec<Vec<Real>>>,
    E: Fn(Real, Real, Real) -> Real,
    T: Fn(Real) -> Real,
    Q: Fn(Real) -> Real,
    D: Fn(Real, Real) -> Real,
>(matrix: &Vec<Vec<Real>>, numbers: &FactorNumbers<A, F, J, E, T, Q, D>) -> (outcome: Result<
    Vec<Vec<Real>>,
    HonestError,
>)
    requires
        factor_ready(matrix@.len() as int, *numbers),
    ensures
        if !matrix::has_cols(matrix@, matrix@.len() as int) {
            outcome == Err::<Vec<Vec<Real>>, HonestError>(HonestError::FactorNotSquare)
        } else if matrix@.len() == 0 {
            outcome matches Ok(lower) && lower@.len() == 0
        } else {
            exists|
                sym: Vec<Vec<Real>>,
                plain: Option<Vec<Vec<Real>>>,
                raised: Option<Vec<Vec<Real>>>,
                floor: Real,
            | #[trigger] factored(matrix@, *numbers, sym, plain, raised, floor, outcome)
        },
{
    if !is_square(matrix) {
        return Err(HonestError::FactorNotSquare);
    }
    if matrix.len() == 0 {
        return Ok(Vec::new());
    }
    let ghost nothing: Option<Vec<Vec<Real>>> = None;
    let sym = symmetrized(matrix, &numbers.average);
    let plain = (numbers.factor)(&sym);
    let ghost first = plain;
    if let Some(lower) = plain {
        proof {
            let floor = Real::zero_spec();
            assert(factored(matrix@, *numbers, sym, first, nothing, floor, Ok(lower)));
        }
        return Ok(lower);
    }
    let size = scale(&sym);
    let raised = (numbers.jitter)(&sym, size);
    let ghost second = raised;
    if let Some(lower) = raised {
        proof {
            let floor = Real::zero_spec();
            assert(factored(matrix@, *numbers, sym, first, second, floor, Ok(lower)));
        }
        return Ok(lower);
    }
    let floor = (numbers.tolerate)(size);
    let outcome = cholesky_lower_tolerant(
        &sym,
        floor,
        &numbers.eliminate,
        &numbers.root,
        &numbers.divide,
    );
    assert(factored(matrix@, *numbers, sym, first, second, floor, outcome));
    outcome
}

/// A factor that was taken directly is zero above its diagonal.
pub proof fn direct_factor_is_lower<
    E: Fn(Real, Real, Real) -> Real,
    Q: Fn(Real) -> Real,
    D: Fn(Real, Real) -> Real,
>(
    sym: Seq<Vec<Real>>,
    eliminate: E,
    root: Q,
    divide: D,
    floor: Real,
    lower: Vec<Vec<Real>>,
    i: int,
    j: int,
)
    requires
        factored_directly(sym, eliminate, root, divide, floor, Ok(lower)),
        0 <= i < j < sym.len(),
    ensures
        lower@[i]@[j] == Real::zero_spec(),
{
    assert(is_factor_row(sym, lower@, i, eliminate, root, divide, floor));
}

// ---------------------------------------------------------------------------
// What a factor is
// ---------------------------------------------------------------------------

/// Whether the steps of a factorization are exact under a reading.
pub open spec fn exact_steps<
    E: Fn(Real, Real, Real) -> Real,
    Q: Fn(Real) -> Real,
    D: Fn(Real, Real) -> Real,
>(eliminate: E, root: Q, divide: D, read: spec_fn(Real) -> int) -> bool {
    &&& exact::faithful(read)
    &&& forall|value: Real, left: Real, right: Real, rest: Real| #[trigger]
        call_ensures(eliminate, (value, left, right), rest) ==> !rest.nan() && read(rest) == read(
            value,
        ) - read(left) * read(right)
    &&& forall|value: Real, root_of: Real| #[trigger]
        call_ensures(root, (value,), root_of) ==> read(root_of) * read(root_of) == read(value)
    &&& forall|value: Real, by: Real, quotient: Real| #[trigger]
        call_ensures(divide, (value, by), quotient) ==> read(quotient) * read(by) == read(value)
}

proof fn what_is_left<
    E: Fn(Real, Real, Real) -> Real,
    Q: Fn(Real) -> Real,
    D: Fn(Real, Real) -> Real,
>(
    rests: Seq<Real>,
    value: Real,
    left: Seq<Real>,
    right: Seq<Real>,
    j: int,
    eliminate: E,
    root: Q,
    divide: D,
    read: spec_fn(Real) -> int,
    end: int,
)
    requires
        exact_steps(eliminate, root, divide, read),
        eliminates(rests, value, left, right, j, eliminate),
        !value.nan(),
        0 <= end <= j,
        j <= left.len(),
        j <= right.len(),
    ensures
        !rests[end].nan(),
        read(rests[end]) == read(value) - exact::inner(
            exact::values(read, left),
            exact::values(read, right),
            end,
        ),
    decreases end,
{
    if end > 0 {
        what_is_left(rests, value, left, right, j, eliminate, root, divide, read, end - 1);
        assert(call_ensures(
            eliminate,
            (rests[end - 1], left[end - 1], right[end - 1]),
            rests[end - 1 + 1],
        ));
    }
}

proof fn zeros_add_nothing(left: Seq<int>, right: Seq<int>, from: int, end: int)
    requires
        0 <= from <= end,
        forall|k: int| from <= k < end ==> #[trigger] right[k] == 0,
    ensures
        exact::inner(left, right, end) == exact::inner(left, right, from),
    decreases end,
{
    if from < end {
        zeros_add_nothing(left, right, from, end - 1);
        assert(right[end - 1] == 0);
    }
}

/// A factor times its transpose is the matrix, wherever the pivots that were
/// divided by are safe and no pivot was raised to zero.
pub proof fn a_factor_reproduces_its_matrix<
    E: Fn(Real, Real, Real) -> Real,
    Q: Fn(Real) -> Real,
    D: Fn(Real, Real) -> Real,
>(
    sym: Seq<Vec<Real>>,
    lower: Seq<Vec<Real>>,
    eliminate: E,
    root: Q,
    divide: D,
    floor: Real,
    read: spec_fn(Real) -> int,
    i: int,
    j: int,
)
    requires
        is_factor(sym, lower, eliminate, root, divide, floor),
        lower.len() == sym.len(),
        exact_steps(eliminate, root, divide, read),
        0 <= j <= i < sym.len(),
        !sym[i]@[j].nan(),
        Real::zero_spec().le(floor),
        (Real { bits: PIVOT_BITS }).lt(lower[j]@[j].abs_spec()),
    ensures
        exact::inner(
            exact::values(read, lower[i]@),
            exact::values(read, lower[j]@),
            sym.len() as int,
        ) == read(sym[i]@[j]),
{
    assert(is_factor_row(sym, lower, i, eliminate, root, divide, floor));
    assert(is_factor_row(sym, lower, j, eliminate, root, divide, floor));
    let left = exact::values(read, lower[i]@);
    let right = exact::values(read, lower[j]@);
    let value = sym[i]@[j];
    if j < i {
        assert(entry_factored(sym, lower, lower[i]@, i, j, eliminate, divide));
        let rests = choose|rests: Seq<Real>| #[trigger]
            is_lower_entry(rests, value, lower[i]@, lower[j]@, j, eliminate, divide, lower[i]@[j]);
        what_is_left(rests, value, lower[i]@, lower[j]@, j, eliminate, root, divide, read, j);
        assert(call_ensures(divide, (rests[j], lower[j]@[j]), lower[i]@[j]));
    } else {
        let rests = choose|rests: Seq<Real>| #[trigger]
            is_pivot(rests, value, lower[i]@, i, eliminate, root, floor, lower[i]@[i]);
        what_is_left(rests, value, lower[i]@, lower[i]@, i, eliminate, root, divide, read, i);
        assert(rests[i].max_spec(Real::zero_spec()) == rests[i]
            || read(rests[i].max_spec(Real::zero_spec())) == read(rests[i]));
    }
    assert(exact::inner(left, right, j + 1) == exact::inner(left, right, j) + left[j] * right[j]);
    assert forall|k: int| j + 1 <= k < sym.len() implies #[trigger] right[k] == 0 by {
        assert(lower[j]@[k] == Real::zero_spec());
    }
    zeros_add_nothing(left, right, j + 1, sym.len() as int);
}

} // verus!
