//! Covariance matrices of influence functions and the joint Wald test.

use crate::errors::HonestError;
use crate::exact;
use crate::input;
use crate::input::are_finite;
use crate::matrix;
use crate::matrix::{copy_row, filled_row, flatten_row_major, tabulate};
use crate::number::Real;
use vstd::prelude::*;
use vstd::std_specs::cmp::PartialEqSpec;

verus! {

/// Number of rows of a block.
pub const VCOV_BLOCK_SIZE: usize = 32;

/// The arithmetic of covariance matrices.
pub trait CovarianceNumbers {
    /// Whether the arithmetic takes whatever may be asked of it.
    spec fn ready(&self) -> bool;

    /// Whether `mean` is the mean of values.
    spec fn is_mean(&self, values: Seq<Real>, mean: Real) -> bool;

    /// Whether `difference` is the difference of two numbers.
    spec fn is_difference(&self, left: Real, right: Real, difference: Real) -> bool;

    /// Whether `sum` is the sum of two numbers.
    spec fn is_sum(&self, left: Real, right: Real, sum: Real) -> bool;

    /// Whether `ratio` is a count over the count less one.
    spec fn is_ratio(&self, count: usize, ratio: Real) -> bool;

    /// Whether `scale` is a correction over the square of a count.
    spec fn is_scale(&self, correction: Real, count: usize, scale: Real) -> bool;

    /// Whether `block` holds the scaled inner products of two lists of rows,
    /// which are samples or sums over clusters.
    spec fn is_block(
        &self,
        clustered: bool,
        left: Seq<Seq<Real>>,
        right: Seq<Seq<Real>>,
        scale: Real,
        block: Seq<Seq<Real>>,
    ) -> bool;

    /// The mean of values.
    fn mean(&self, values: &Vec<Real>) -> (mean: Real)
        requires
            self.ready(),
            values@.len() > 0,
        ensures
            self.is_mean(values@, mean),
    ;

    /// The difference of two numbers.
    fn difference(&self, left: Real, right: Real) -> (difference: Real)
        requires
            self.ready(),
        ensures
            self.is_difference(left, right, difference),
    ;

    /// The sum of two numbers.
    fn sum(&self, left: Real, right: Real) -> (sum: Real)
        requires
            self.ready(),
        ensures
            self.is_sum(left, right, sum),
    ;

    /// A count over the count less one.
    fn ratio(&self, count: usize) -> (ratio: Real)
        requires
            self.ready(),
            count >= 2,
        ensures
            self.is_ratio(count, ratio),
    ;

    /// A correction over the square of a count.
    fn scale(&self, correction: Real, count: usize) -> (scale: Real)
        requires
            self.ready(),
            count > 0,
        ensures
            self.is_scale(correction, count, scale),
    ;

    /// The scaled inner products of two lists of rows.
    fn block(
        &self,
        clustered: bool,
        left: &Vec<Vec<Real>>,
        right: &Vec<Vec<Real>>,
        scale: Real,
    ) -> (block: Vec<Vec<Real>>)
        requires
            self.ready(),
        ensures
            self.is_block(
                clustered,
                matrix::rows_of(left@),
                matrix::rows_of(right@),
                scale,
                matrix::rows_of(block@),
            ),
            block.len() == left.len(),
            matrix::has_cols(block@, right.len() as int),
    ;
}

/// The arithmetic of [`CovarianceNumbers`].
pub struct CovarianceArithmetic<CM, CD, CS, CR, CC, CB> {
    /// Mean of values.
    pub average: CM,
    /// Difference of two numbers.
    pub subtract: CD,
    /// Sum of two numbers.
    pub increase: CS,
    /// Count over the count less one.
    pub correct: CR,
    /// Correction over the square of a count.
    pub rescale: CC,
    /// Scaled inner products.
    pub multiply: CB,
}

impl<
    CM: Fn(&Vec<Real>) -> Real,
    CD: Fn(Real, Real) -> Real,
    CS: Fn(Real, Real) -> Real,
    CR: Fn(usize) -> Real,
    CC: Fn(Real, usize) -> Real,
    CB: Fn(bool, &Vec<Vec<Real>>, &Vec<Vec<Real>>, Real) -> Vec<Vec<Real>>,
> CovarianceNumbers for CovarianceArithmetic<CM, CD, CS, CR, CC, CB> {
    open spec fn ready(&self) -> bool {
        &&& forall|v: Vec<Real>| v@.len() > 0 ==> #[trigger] call_requires(self.average, (&v,))
        &&& forall|a: Real, b: Real| #[trigger] call_requires(self.subtract, (a, b))
        &&& forall|a: Real, b: Real| #[trigger] call_requires(self.increase, (a, b))
        &&& forall|n: usize| n >= 2 ==> #[trigger] call_requires(self.correct, (n,))
        &&& forall|a: Real, n: usize| n > 0 ==> #[trigger] call_requires(self.rescale, (a, n))
        &&& forall|c: bool, m: Vec<Vec<Real>>, w: Vec<Vec<Real>>, a: Real| #[trigger]
            call_requires(self.multiply, (c, &m, &w, a))
        &&& forall|
            c: bool,
            m: Vec<Vec<Real>>,
            w: Vec<Vec<Real>>,
            a: Real,
            block: Vec<Vec<Real>>,
        | #[trigger]
            call_ensures(self.multiply, (c, &m, &w, a), block) ==> block.len() == m.len()
                && matrix::has_cols(block@, w.len() as int)
    }

    open spec fn is_mean(&self, values: Seq<Real>, mean: Real) -> bool {
        exists|v: Vec<Real>| v@ == values && #[trigger] call_ensures(self.average, (&v,), mean)
    }

    open spec fn is_difference(&self, left: Real, right: Real, difference: Real) -> bool {
        call_ensures(self.subtract, (left, right), difference)
    }

    open spec fn is_sum(&self, left: Real, right: Real, sum: Real) -> bool {
        call_ensures(self.increase, (left, right), sum)
    }

    open spec fn is_ratio(&self, count: usize, ratio: Real) -> bool {
        call_ensures(self.correct, (count,), ratio)
    }

    open spec fn is_scale(&self, correction: Real, count: usize, scale: Real) -> bool {
        call_ensures(self.rescale, (correction, count), scale)
    }

    open spec fn is_block(
        &self,
        clustered: bool,
        left: Seq<Seq<Real>>,
        right: Seq<Seq<Real>>,
        scale: Real,
        block: Seq<Seq<Real>>,
    ) -> bool {
        exists|m: Vec<Vec<Real>>, w: Vec<Vec<Real>>, found: Vec<Vec<Real>>|
            matrix::rows_of(m@) == left && matrix::rows_of(w@) == right && matrix::rows_of(found@)
                == block && #[trigger] call_ensures(
                self.multiply,
                (clustered, &m, &w, scale),
                found,
            )
    }

    fn mean(&self, values: &Vec<Real>) -> (mean: Real) {
        (self.average)(values)
    }

    fn difference(&self, left: Real, right: Real) -> (difference: Real) {
        (self.subtract)(left, right)
    }

    fn sum(&self, left: Real, right: Real) -> (sum: Real) {
        (self.increase)(left, right)
    }

    fn ratio(&self, count: usize) -> (ratio: Real) {
        (self.correct)(count)
    }

    fn scale(&self, correction: Real, count: usize) -> (scale: Real) {
        (self.rescale)(correction, count)
    }

    fn block(
        &self,
        clustered: bool,
        left: &Vec<Vec<Real>>,
        right: &Vec<Vec<Real>>,
        scale: Real,
    ) -> (block: Vec<Vec<Real>>) {
        (self.multiply)(clustered, left, right, scale)
    }
}

// ---------------------------------------------------------------------------
// Checks
// ---------------------------------------------------------------------------

/// What is wrong with the influence vectors from `from` on, if anything.
pub open spec fn row_fault(
    rows: Seq<Seq<Real>>,
    count: int,
    context: &'static str,
    from: int,
) -> Option<HonestError>
    decreases rows.len() - from,
{
    if from >= rows.len() {
        None
    } else if rows[from].len() != count {
        Some(HonestError::InfluenceRagged { context })
    } else if !input::all_finite(rows[from]) {
        Some(HonestError::InfluenceNotFinite { context })
    } else {
        row_fault(rows, count, context, from + 1)
    }
}

/// Whether there are no influence values.
pub open spec fn no_influence(rows: Seq<Seq<Real>>) -> bool {
    rows.len() == 0 || rows[0].len() == 0
}

/// What is wrong with influence vectors, if anything: none at all, or the first
/// that differs in length from the first one or has a value that is not finite.
pub open spec fn influence_fault(rows: Seq<Seq<Real>>, context: &'static str) -> Option<
    HonestError,
> {
    if no_influence(rows) {
        Some(HonestError::InfluenceEmpty { context })
    } else {
        row_fault(rows, rows[0].len() as int, context, 0)
    }
}

fn check_rows(influence: &Vec<Vec<Real>>, count: usize, context: &'static str) -> (checked: Result<
    (),
    HonestError,
>)
    ensures
        match checked {
            Err(error) => row_fault(matrix::rows_of(influence@), count as int, context, 0) == Some(
                error,
            ),
            Ok(()) => row_fault(matrix::rows_of(influence@), count as int, context, 0) is None
                && matrix::has_cols(influence@, count as int),
        },
{
    let ghost rows = matrix::rows_of(influence@);
    let mut i: usize = 0;
    while i < influence.len()
        invariant
            i <= influence.len(),
            rows == matrix::rows_of(influence@),
            row_fault(rows, count as int, context, 0) == row_fault(
                rows,
                count as int,
                context,
                i as int,
            ),
            forall|k: int| 0 <= k < i ==> (#[trigger] influence@[k])@.len() == count,
        decreases influence.len() - i,
    {
        if influence[i].len() != count {
            return Err(HonestError::InfluenceRagged { context });
        }
        if !are_finite(influence[i].as_slice()) {
            return Err(HonestError::InfluenceNotFinite { context });
        }
        i = i + 1;
    }
    Ok(())
}

/// Checks influence vectors and returns their number and their length.
pub fn validate_influence_matrix(
    influence_functions: &Vec<Vec<Real>>,
    context: &'static str,
) -> (checked: Result<(usize, usize), HonestError>)
    ensures
        match checked {
            Err(error) => influence_fault(matrix::rows_of(influence_functions@), context) == Some(
                error,
            ),
            Ok(shape) => {
                &&& influence_fault(matrix::rows_of(influence_functions@), context) is None
                &&& shape.0 == influence_functions@.len() > 0
                &&& shape.1 > 0
                &&& shape.1 == matrix::rows_of(influence_functions@)[0].len()
                &&& matrix::has_cols(influence_functions@, shape.1 as int)
            },
        },
{
    if influence_functions.len() == 0 {
        return Err(HonestError::InfluenceEmpty { context });
    }
    let count: usize = influence_functions[0].len();
    if count == 0 {
        return Err(HonestError::InfluenceEmpty { context });
    }
    match check_rows(influence_functions, count, context) {
        Err(error) => Err(error),
        Ok(()) => Ok((influence_functions.len(), count)),
    }
}

// ---------------------------------------------------------------------------
// Blocks
// ---------------------------------------------------------------------------

/// Number of blocks that cover `count` rows.
pub open spec fn block_count(count: int) -> int {
    (count + VCOV_BLOCK_SIZE - 1) / (VCOV_BLOCK_SIZE as int)
}

/// The rows of a block.
pub open spec fn block_rows(rows: Seq<Seq<Real>>, at: int) -> Seq<Seq<Real>> {
    let start = at * VCOV_BLOCK_SIZE;
    let end = if rows.len() - start <= VCOV_BLOCK_SIZE {
        rows.len() as int
    } else {
        start + VCOV_BLOCK_SIZE
    };
    rows.subrange(start, end)
}

/// The entry of a matrix that is put together from blocks: within a block on the
/// diagonal the one below it, else the one of the block above the diagonal.
pub open spec fn blocked_entry(blocks: Seq<Seq<Seq<Seq<Real>>>>, i: int, j: int) -> Real {
    let low = if i < j {
        i
    } else {
        j
    };
    let high = if i < j {
        j
    } else {
        i
    };
    let size = VCOV_BLOCK_SIZE as int;
    if low / size == high / size {
        blocks[low / size][0][high % size][low % size]
    } else {
        blocks[low / size][high / size - low / size][low % size][high % size]
    }
}

/// Whether a block holds the scaled inner products of the rows of two blocks.
pub open spec fn is_block_at<C: CovarianceNumbers>(
    numbers: C,
    clustered: bool,
    rows: Seq<Seq<Real>>,
    scale: Real,
    at: int,
    across: int,
    block: Seq<Seq<Real>>,
) -> bool {
    numbers.is_block(
        clustered,
        block_rows(rows, at),
        block_rows(rows, at + across),
        scale,
        block,
    )
}

/// Whether the blocks of a row of blocks are in order.
pub open spec fn is_block_line<C: CovarianceNumbers>(
    numbers: C,
    clustered: bool,
    rows: Seq<Seq<Real>>,
    scale: Real,
    at: int,
    line: Seq<Seq<Seq<Real>>>,
) -> bool {
    &&& line.len() == block_count(rows.len() as int) - at
    &&& forall|across: int|
        0 <= across < line.len() ==> is_block_at(
            numbers,
            clustered,
            rows,
            scale,
            at,
            across,
            #[trigger] line[across],
        )
}

/// Whether a matrix is put together from the blocks of inner products.
pub open spec fn is_blocked<C: CovarianceNumbers>(
    numbers: C,
    clustered: bool,
    rows: Seq<Seq<Real>>,
    scale: Real,
    blocks: Seq<Seq<Seq<Seq<Real>>>>,
    covariance: Seq<Seq<Real>>,
) -> bool {
    &&& blocks.len() == block_count(rows.len() as int)
    &&& forall|at: int|
        0 <= at < blocks.len() ==> is_block_line(
            numbers,
            clustered,
            rows,
            scale,
            at,
            #[trigger] blocks[at],
        )
    &&& covariance.len() == rows.len()
    &&& forall|i: int|
        0 <= i < covariance.len() ==> (#[trigger] covariance[i]).len() == rows.len()
    &&& forall|i: int, j: int|
        0 <= i < rows.len() && 0 <= j < rows.len() ==> #[trigger] covariance[i][j]
            == blocked_entry(blocks, i, j)
}

/// The lines of blocks, as sequences.
pub open spec fn line_view(line: Seq<Vec<Vec<Real>>>) -> Seq<Seq<Seq<Real>>> {
    Seq::new(line.len(), |i: int| matrix::rows_of(line[i]@))
}

/// The blocks, as sequences.
pub open spec fn block_view(blocks: Seq<Vec<Vec<Vec<Real>>>>) -> Seq<Seq<Seq<Seq<Real>>>> {
    Seq::new(blocks.len(), |i: int| line_view(blocks[i]@))
}

fn rows_of_block(rows: &Vec<Vec<Real>>, at: usize) -> (part: Vec<Vec<Real>>)
    requires
        at < block_count(rows@.len() as int),
        rows@.len() + VCOV_BLOCK_SIZE <= usize::MAX,
    ensures
        matrix::rows_of(part@) == block_rows(matrix::rows_of(rows@), at as int),
        part.len() == (if rows@.len() - at * VCOV_BLOCK_SIZE <= VCOV_BLOCK_SIZE {
            rows@.len() - at * VCOV_BLOCK_SIZE
        } else {
            VCOV_BLOCK_SIZE as int
        }),
{
    let ghost lines = matrix::rows_of(rows@);
    assert(at * VCOV_BLOCK_SIZE < rows@.len()) by (nonlinear_arith)
        requires
            at < (rows@.len() + VCOV_BLOCK_SIZE - 1) / (VCOV_BLOCK_SIZE as int),
            VCOV_BLOCK_SIZE == 32,
    ;
    let start: usize = at * VCOV_BLOCK_SIZE;
    let end: usize = if rows.len() - start <= VCOV_BLOCK_SIZE {
        rows.len()
    } else {
        start + VCOV_BLOCK_SIZE
    };
    let mut part: Vec<Vec<Real>> = Vec::new();
    let mut i: usize = start;
    while i < end
        invariant
            start <= i <= end <= rows.len(),
            lines == matrix::rows_of(rows@),
            part.len() == i - start,
            forall|k: int| 0 <= k < part.len() ==> (#[trigger] part@[k])@ == lines[start + k],
        decreases end - i,
    {
        part.push(copy_row(rows[i].as_slice()));
        i = i + 1;
    }
    assert(matrix::rows_of(part@) =~= block_rows(lines, at as int));
    part
}

fn blocks_of<C: CovarianceNumbers>(
    rows: &Vec<Vec<Real>>,
    clustered: bool,
    scale: Real,
    numbers: &C,
) -> (blocks: Vec<Vec<Vec<Vec<Real>>>>)
    requires
        numbers.ready(),
        rows@.len() + VCOV_BLOCK_SIZE <= usize::MAX,
    ensures
        blocks@.len() == block_count(rows@.len() as int),
        forall|at: int|
            0 <= at < blocks@.len() ==> is_block_line(
                *numbers,
                clustered,
                matrix::rows_of(rows@),
                scale,
                at,
                #[trigger] block_view(blocks@)[at],
            ),
        forall|at: int, across: int|
            0 <= at < blocks@.len() && 0 <= across < blocks@.len() - at
                ==> #[trigger] blocks@[at]@[across]@.len() == block_rows(
                matrix::rows_of(rows@),
                at,
            ).len() && matrix::has_cols(
                blocks@[at]@[across]@,
                block_rows(matrix::rows_of(rows@), at + across).len() as int,
            ),
{
    let ghost lines = matrix::rows_of(rows@);
    let count: usize = (rows.len() + VCOV_BLOCK_SIZE - 1) / VCOV_BLOCK_SIZE;
    let mut blocks: Vec<Vec<Vec<Vec<Real>>>> = Vec::new();
    while blocks.len() < count
        invariant
            blocks.len() <= count,
            count == block_count(rows@.len() as int),
            rows@.len() + VCOV_BLOCK_SIZE <= usize::MAX,
            lines == matrix::rows_of(rows@),
            numbers.ready(),
            forall|at: int|
                0 <= at < blocks@.len() ==> is_block_line(
                    *numbers,
                    clustered,
                    lines,
                    scale,
                    at,
                    #[trigger] block_view(blocks@)[at],
                ),
            forall|at: int, across: int|
                0 <= at < blocks@.len() && 0 <= across < count - at
                    ==> #[trigger] blocks@[at]@[across]@.len() == block_rows(lines, at).len()
                    && matrix::has_cols(
                    blocks@[at]@[across]@,
                    block_rows(lines, at + across).len() as int,
                ),
        decreases count - blocks.len(),
    {
        let at: usize = blocks.len();
        let left = rows_of_block(rows, at);
        let mut line: Vec<Vec<Vec<Real>>> = Vec::new();
        while line.len() < count - at
            invariant
                at < count,
                line.len() <= count - at,
                count == block_count(rows@.len() as int),
                rows@.len() + VCOV_BLOCK_SIZE <= usize::MAX,
                lines == matrix::rows_of(rows@),
                numbers.ready(),
                matrix::rows_of(left@) == block_rows(lines, at as int),
                forall|across: int|
                    0 <= across < line.len() ==> is_block_at(
                        *numbers,
                        clustered,
                        lines,
                        scale,
                        at as int,
                        across,
                        #[trigger] line_view(line@)[across],
                    ),
                forall|across: int|
                    0 <= across < line.len() ==> (#[trigger] line@[across])@.len() == block_rows(
                        lines,
                        at as int,
                    ).len() && matrix::has_cols(
                        line@[across]@,
                        block_rows(lines, at + across).len() as int,
                    ),
            decreases count - at - line.len(),
        {
            let ghost before = line@;
            let across: usize = line.len();
            let right = rows_of_block(rows, at + across);
            let block = numbers.block(clustered, &left, &right, scale);
            proof {
                assert(matrix::rows_of(left@).len() == left.len());
                assert(matrix::rows_of(right@).len() == right.len());
            }
            line.push(block);
            proof {
                assert forall|k: int| 0 <= k < line.len() implies is_block_at(
                    *numbers,
                    clustered,
                    lines,
                    scale,
                    at as int,
                    k,
                    #[trigger] line_view(line@)[k],
                ) by {
                    if k < across {
                        assert(line_view(line@)[k] == line_view(before)[k]);
                    }
                }
            }
        }
        let ghost earlier = blocks@;
        blocks.push(line);
        proof {
            assert forall|k: int| 0 <= k < blocks.len() implies is_block_line(
                *numbers,
                clustered,
                lines,
                scale,
                k,
                #[trigger] block_view(blocks@)[k],
            ) by {
                if k < at {
                    assert(block_view(blocks@)[k] == block_view(earlier)[k]);
                }
            }
            assert forall|k: int, across: int|
                0 <= k < blocks@.len() && 0 <= across < count - k
                implies #[trigger] blocks@[k]@[across]@.len() == block_rows(lines, k).len()
                && matrix::has_cols(
                blocks@[k]@[across]@,
                block_rows(lines, k + across).len() as int,
            ) by {
                if k < at {
                    assert(blocks@[k] == earlier[k]);
                } else {
                    assert(blocks@[k]@ == line@);
                    assert(line@[across]@.len() == block_rows(lines, at as int).len());
                }
            }
        }
    }
    blocks
}

proof fn entry_is_in_a_block(rows: Seq<Seq<Real>>, i: int)
    requires
        0 <= i < rows.len(),
    ensures
        0 <= i / (VCOV_BLOCK_SIZE as int) < block_count(rows.len() as int),
        0 <= i % (VCOV_BLOCK_SIZE as int) < block_rows(
            rows,
            i / (VCOV_BLOCK_SIZE as int),
        ).len(),
{
    let size = VCOV_BLOCK_SIZE as int;
    assert(size == 32);
    assert(i == (i / 32) * 32 + i % 32);
}

/// Whether blocks have the shapes of inner products of rows.
spec fn fits_rows(blocks: Seq<Vec<Vec<Vec<Real>>>>, rows: Seq<Seq<Real>>) -> bool {
    &&& blocks.len() == block_count(rows.len() as int)
    &&& forall|at: int|
        0 <= at < blocks.len() ==> (#[trigger] blocks[at])@.len() == blocks.len() - at
    &&& forall|at: int, across: int|
        0 <= at < blocks.len() && 0 <= across < blocks.len() - at
            ==> #[trigger] blocks[at]@[across]@.len() == block_rows(rows, at).len()
            && matrix::has_cols(
            blocks[at]@[across]@,
            block_rows(rows, at + across).len() as int,
        )
}

fn entry_of(
    blocks: &Vec<Vec<Vec<Vec<Real>>>>,
    rows: &Vec<Vec<Real>>,
    i: usize,
    j: usize,
) -> (value: Real)
    requires
        fits_rows(blocks@, matrix::rows_of(rows@)),
        i < rows@.len(),
        j < rows@.len(),
    ensures
        value == blocked_entry(block_view(blocks@), i as int, j as int),
{
    let ghost lines = matrix::rows_of(rows@);
    let low: usize = if i < j {
        i
    } else {
        j
    };
    let high: usize = if i < j {
        j
    } else {
        i
    };
    proof {
        entry_is_in_a_block(lines, low as int);
        entry_is_in_a_block(lines, high as int);
        assert(low / 32 <= high / 32);
    }
    let at: usize = low / VCOV_BLOCK_SIZE;
    let across: usize = high / VCOV_BLOCK_SIZE - at;
    let x: usize = low % VCOV_BLOCK_SIZE;
    let y: usize = high % VCOV_BLOCK_SIZE;
    proof {
        let block = blocks@[at as int]@[across as int]@;
        assert(block.len() == block_rows(lines, at as int).len());
        assert(matrix::rows_of(block) == block_view(blocks@)[at as int][across as int]);
        if across == 0 {
            assert(block[y as int]@.len() == block_rows(lines, at as int).len());
        } else {
            assert(block[x as int]@.len() == block_rows(lines, at + across).len());
        }
    }
    if across == 0 {
        blocks[at][0][y][x]
    } else {
        blocks[at][across][x][y]
    }
}

fn blocked_matrix<C: CovarianceNumbers>(
    rows: &Vec<Vec<Real>>,
    clustered: bool,
    scale: Real,
    numbers: &C,
) -> (covariance: Vec<Vec<Real>>)
    requires
        numbers.ready(),
        rows@.len() + VCOV_BLOCK_SIZE <= usize::MAX,
    ensures
        blocked_from(
            *numbers,
            clustered,
            matrix::rows_of(rows@),
            scale,
            matrix::rows_of(covariance@),
        ),
{
    let ghost lines = matrix::rows_of(rows@);
    let blocks = blocks_of(rows, clustered, scale, numbers);
    let ghost views = block_view(blocks@);
    let count: usize = rows.len();
    proof {
        assert forall|at: int| 0 <= at < blocks@.len() implies (#[trigger] blocks@[at])@.len()
            == blocks@.len() - at by {
            assert(is_block_line(*numbers, clustered, lines, scale, at, views[at]));
        }
        assert(fits_rows(blocks@, lines));
    }
    let entry = |i: usize, j: usize| -> (value: Real)
        requires
            i < count,
            j < count,
        ensures
            value == blocked_entry(block_view(blocks@), i as int, j as int),
        { entry_of(&blocks, rows, i, j) };
    let covariance = tabulate(count, count, entry);
    proof {
        let found = matrix::rows_of(covariance@);
        assert forall|i: int, j: int|
            0 <= i < lines.len() && 0 <= j < lines.len() implies #[trigger] found[i][j]
            == blocked_entry(views, i, j) by {
            assert(entry.ensures((i as usize, j as usize), covariance@[i]@[j]));
        }
        assert(is_blocked(*numbers, clustered, lines, scale, views, found));
    }
    covariance
}

/// Whether a matrix is put together from blocks of inner products.
pub open spec fn blocked_from<C: CovarianceNumbers>(
    numbers: C,
    clustered: bool,
    rows: Seq<Seq<Real>>,
    scale: Real,
    covariance: Seq<Seq<Real>>,
) -> bool {
    exists|blocks: Seq<Seq<Seq<Seq<Real>>>>| #[trigger]
        is_blocked(numbers, clustered, rows, scale, blocks, covariance)
}

/// A covariance matrix is symmetric.
pub proof fn covariance_is_symmetric<C: CovarianceNumbers>(
    numbers: C,
    clustered: bool,
    rows: Seq<Seq<Real>>,
    scale: Real,
    covariance: Seq<Seq<Real>>,
    i: int,
    j: int,
)
    requires
        blocked_from(numbers, clustered, rows, scale, covariance),
        0 <= i < rows.len(),
        0 <= j < rows.len(),
    ensures
        covariance[i][j] == covariance[j][i],
{
    let blocks = choose|blocks: Seq<Seq<Seq<Seq<Real>>>>| #[trigger]
        is_blocked(numbers, clustered, rows, scale, blocks, covariance);
    assert(covariance[i][j] == blocked_entry(blocks, i, j));
    assert(covariance[j][i] == blocked_entry(blocks, j, i));
}

// ---------------------------------------------------------------------------
// Influence functions
// ---------------------------------------------------------------------------

/// A matrix or an error, as sequences.
pub open spec fn matrix_view(found: Result<Vec<Vec<Real>>, HonestError>) -> Result<
    Seq<Seq<Real>>,
    HonestError,
> {
    match found {
        Ok(rows) => Ok(matrix::rows_of(rows@)),
        Err(error) => Err(error),
    }
}

/// Whether `centered` holds values less a mean.
pub open spec fn is_centered<C: CovarianceNumbers>(
    numbers: C,
    values: Seq<Real>,
    mean: Real,
    centered: Seq<Real>,
) -> bool {
    &&& numbers.is_mean(values, mean)
    &&& centered.len() == values.len()
    &&& forall|i: int|
        0 <= i < values.len() ==> numbers.is_difference(values[i], mean, #[trigger] centered[i])
}

/// What a covariance matrix rested on.
pub struct CovarianceRun {
    /// Means of the influence vectors.
    pub means: Seq<Real>,
    /// Influence vectors less their means.
    pub centered: Seq<Seq<Real>>,
    /// Scale of the inner products.
    pub scale: Real,
}

impl CovarianceRun {
    /// Whether `out` is the covariance matrix of influence vectors: their fault,
    /// or the scaled inner products of the centered vectors.
    pub open spec fn explains<C: CovarianceNumbers>(
        self,
        numbers: C,
        influence: Seq<Seq<Real>>,
        out: Result<Seq<Seq<Real>>, HonestError>,
    ) -> bool {
        match influence_fault(influence, "covariance matrix") {
            Some(error) => out == Err::<Seq<Seq<Real>>, HonestError>(error),
            None => {
                &&& self.means.len() == influence.len()
                &&& self.centered.len() == influence.len()
                &&& forall|i: int|
                    0 <= i < influence.len() ==> is_centered(
                        numbers,
                        influence[i],
                        self.means[i],
                        #[trigger] self.centered[i],
                    )
                &&& numbers.is_scale(Real::one_spec(), influence[0].len() as usize, self.scale)
                &&& out matches Ok(found) && blocked_from(
                    numbers,
                    false,
                    self.centered,
                    self.scale,
                    found,
                )
            },
        }
    }
}

fn centered_row<C: CovarianceNumbers>(values: &Vec<Real>, numbers: &C) -> (centered: (
    Vec<Real>,
    Real,
))
    requires
        numbers.ready(),
        values@.len() > 0,
    ensures
        is_centered(*numbers, values@, centered.1, centered.0@),
{
    let mean = numbers.mean(values);
    let mut centered: Vec<Real> = Vec::new();
    while centered.len() < values.len()
        invariant
            centered.len() <= values.len(),
            numbers.ready(),
            forall|i: int|
                0 <= i < centered.len() ==> numbers.is_difference(
                    values@[i],
                    mean,
                    #[trigger] centered@[i],
                ),
        decreases values.len() - centered.len(),
    {
        let i: usize = centered.len();
        centered.push(numbers.difference(values[i], mean));
    }
    (centered, mean)
}

/// The covariance matrix of influence vectors.
pub fn covariance_matrix_from_influence_matrix<C: CovarianceNumbers>(
    influence_functions: &Vec<Vec<Real>>,
    numbers: &C,
) -> (out: Result<Vec<Vec<Real>>, HonestError>)
    requires
        numbers.ready(),
        influence_functions@.len() + VCOV_BLOCK_SIZE <= usize::MAX,
    ensures
        exists|run: CovarianceRun| #[trigger]
            run.explains(*numbers, matrix::rows_of(influence_functions@), matrix_view(out)),
{
    let ghost mut run: CovarianceRun = arbitrary();
    let ghost rows = matrix::rows_of(influence_functions@);
    let count: usize = match validate_influence_matrix(influence_functions, "covariance matrix") {
        Err(error) => {
            let out = Err(error);
            assert(run.explains(*numbers, rows, matrix_view(out)));
            return out;
        },
        Ok(shape) => shape.1,
    };
    let ghost mut means: Seq<Real> = Seq::empty();
    let mut centered: Vec<Vec<Real>> = Vec::new();
    while centered.len() < influence_functions.len()
        invariant
            centered.len() <= influence_functions.len(),
            rows == matrix::rows_of(influence_functions@),
            matrix::has_cols(influence_functions@, count as int),
            count > 0,
            numbers.ready(),
            means.len() == centered.len(),
            forall|i: int|
                0 <= i < centered.len() ==> is_centered(
                    *numbers,
                    rows[i],
                    means[i],
                    #[trigger] matrix::rows_of(centered@)[i],
                ),
        decreases influence_functions.len() - centered.len(),
    {
        let i: usize = centered.len();
        let ghost before = centered@;
        let ghost earlier = means;
        assert(influence_functions@[i as int]@.len() == count);
        let (row, mean) = centered_row(&influence_functions[i], numbers);
        centered.push(row);
        proof {
            means = earlier.push(mean);
            assert forall|k: int| 0 <= k < centered.len() implies is_centered(
                *numbers,
                rows[k],
                means[k],
                #[trigger] matrix::rows_of(centered@)[k],
            ) by {
                if k < i {
                    assert(matrix::rows_of(centered@)[k] == matrix::rows_of(before)[k]);
                    assert(means[k] == earlier[k]);
                }
            }
        }
    }
    let scale = numbers.scale(Real::one(), count);
    let covariance = blocked_matrix(&centered, false, scale, numbers);
    proof {
        run.means = means;
        run.centered = matrix::rows_of(centered@);
        run.scale = scale;
    }
    let out = Ok(covariance);
    assert(run.explains(*numbers, rows, matrix_view(out)));
    out
}

// ---------------------------------------------------------------------------
// Clusters
// ---------------------------------------------------------------------------

/// The cluster of each sample.
#[derive(Debug, PartialEq, Eq)]
pub struct ClusterIndex {
    /// Cluster of each sample.
    pub group_assignments: Vec<usize>,
    /// Number of clusters.
    pub n_groups: usize,
}

/// Whether a sum grew by one value.
pub open spec fn grows<C: CovarianceNumbers>(
    numbers: C,
    before: Seq<Real>,
    group: int,
    value: Real,
    after: Seq<Real>,
) -> bool {
    exists|sum: Real| #[trigger]
        numbers.is_sum(before[group], value, sum) && after == before.update(group, sum)
}

/// Whether `partials` are the sums over clusters, value by value from zero.
pub open spec fn are_group_sums<C: CovarianceNumbers>(
    numbers: C,
    values: Seq<Real>,
    groups: Seq<usize>,
    count: int,
    partials: Seq<Seq<Real>>,
) -> bool {
    &&& partials.len() == values.len() + 1
    &&& partials[0] == Seq::new(count as nat, |g: int| Real::zero_spec())
    &&& forall|s: int|
        0 <= s < values.len() ==> grows(
            numbers,
            partials[s],
            groups[s] as int,
            values[s],
            #[trigger] partials[s + 1],
        )
}

/// What a clustered covariance matrix rested on.
pub struct ClusteredRun {
    /// Correction for the number of clusters.
    pub correction: Real,
    /// Scale of the inner products.
    pub scale: Real,
    /// Sums over clusters of each influence vector, value by value.
    pub partials: Seq<Seq<Seq<Real>>>,
    /// The sums over clusters.
    pub sums: Seq<Seq<Real>>,
}

impl ClusteredRun {
    /// Whether `out` is the clustered covariance matrix of influence vectors:
    /// their fault, an error where the clusters differ in number from the values,
    /// or the scaled inner products of the sums over clusters.
    pub open spec fn explains<C: CovarianceNumbers>(
        self,
        numbers: C,
        influence: Seq<Seq<Real>>,
        groups: Seq<usize>,
        count: usize,
        out: Result<Seq<Seq<Real>>, HonestError>,
    ) -> bool {
        match influence_fault(influence, "clustered covariance matrix") {
            Some(error) => out == Err::<Seq<Seq<Real>>, HonestError>(error),
            None => if groups.len() != influence[0].len() {
                out == Err::<Seq<Seq<Real>>, HonestError>(
                    cluster_error(influence[0].len() as int, groups.len() as int),
                )
            } else {
                &&& if count >= 2 {
                    numbers.is_ratio(count, self.correction)
                } else {
                    self.correction == Real::one_spec()
                }
                &&& numbers.is_scale(self.correction, influence[0].len() as usize, self.scale)
                &&& self.partials.len() == influence.len()
                &&& self.sums.len() == influence.len()
                &&& forall|i: int|
                    0 <= i < influence.len() ==> are_group_sums(
                        numbers,
                        influence[i],
                        groups,
                        count as int,
                        #[trigger] self.partials[i],
                    )
                &&& forall|i: int|
                    0 <= i < influence.len() ==> #[trigger] self.sums[i] == self.partials[i].last()
                &&& out matches Ok(found) && blocked_from(
                    numbers,
                    true,
                    self.sums,
                    self.scale,
                    found,
                )
            },
        }
    }
}

/// The error of clusters that differ in number from the values.
pub open spec fn cluster_error(influence: int, clusters: int) -> HonestError {
    HonestError::ClusterCount { influence: influence as usize, clusters: clusters as usize }
}

/// Whether `out` is the clustered covariance matrix of influence vectors.
pub open spec fn is_clustered<C: CovarianceNumbers>(
    numbers: C,
    influence: Seq<Seq<Real>>,
    groups: Seq<usize>,
    count: usize,
    out: Result<Seq<Seq<Real>>, HonestError>,
) -> bool {
    exists|run: ClusteredRun| #[trigger] run.explains(numbers, influence, groups, count, out)
}

fn group_sums<C: CovarianceNumbers>(
    values: &Vec<Real>,
    groups: &Vec<usize>,
    count: usize,
    numbers: &C,
) -> (out: (Vec<Real>, Ghost<Seq<Seq<Real>>>))
    requires
        numbers.ready(),
        values@.len() == groups@.len(),
        matrix::indices_below(groups@, count as int),
    ensures
        are_group_sums(*numbers, values@, groups@, count as int, out.1@),
        out.0@ == out.1@.last(),
{
    let mut sums = filled_row(count, Real::zero());
    let ghost mut partials: Seq<Seq<Real>> = Seq::empty().push(sums@);
    let mut s: usize = 0;
    while s < values.len()
        invariant
            s <= values.len(),
            values@.len() == groups@.len(),
            matrix::indices_below(groups@, count as int),
            numbers.ready(),
            sums@.len() == count,
            partials.len() == s + 1,
            partials[0] == Seq::new(count as nat, |g: int| Real::zero_spec()),
            partials.last() == sums@,
            forall|k: int|
                0 <= k < s ==> grows(
                    *numbers,
                    partials[k],
                    groups@[k] as int,
                    values@[k],
                    #[trigger] partials[k + 1],
                ),
        decreases values.len() - s,
    {
        let group: usize = groups[s];
        let ghost before = sums@;
        let ghost earlier = partials;
        let sum = numbers.sum(sums[group], values[s]);
        sums.set(group, sum);
        proof {
            partials = earlier.push(sums@);
            assert(grows(*numbers, before, group as int, values@[s as int], sums@));
            assert forall|k: int| 0 <= k <= s implies grows(
                *numbers,
                partials[k],
                groups@[k] as int,
                values@[k],
                #[trigger] partials[k + 1],
            ) by {
                if k < s {
                    assert(partials[k + 1] == earlier[k + 1]);
                    assert(partials[k] == earlier[k]);
                } else {
                    assert(partials[k] == before);
                }
            }
        }
        s = s + 1;
    }
    (sums, Ghost(partials))
}

/// The clustered covariance matrix of influence vectors, by the cluster of each
/// sample.
pub fn clustered_covariance_matrix_from_influence_matrix_index<C: CovarianceNumbers>(
    influence_functions: &Vec<Vec<Real>>,
    cluster_index: &ClusterIndex,
    numbers: &C,
) -> (out: Result<Vec<Vec<Real>>, HonestError>)
    requires
        numbers.ready(),
        influence_functions@.len() + VCOV_BLOCK_SIZE <= usize::MAX,
        matrix::indices_below(
            cluster_index.group_assignments@,
            cluster_index.n_groups as int,
        ),
    ensures
        is_clustered(
            *numbers,
            matrix::rows_of(influence_functions@),
            cluster_index.group_assignments@,
            cluster_index.n_groups,
            matrix_view(out),
        ),
{
    let ghost mut run: ClusteredRun = arbitrary();
    let ghost rows = matrix::rows_of(influence_functions@);
    let groups = &cluster_index.group_assignments;
    let groups_count: usize = cluster_index.n_groups;
    let count: usize = match validate_influence_matrix(
        influence_functions,
        "clustered covariance matrix",
    ) {
        Err(error) => {
            let out = Err(error);
            assert(run.explains(*numbers, rows, groups@, groups_count, matrix_view(out)));
            return out;
        },
        Ok(shape) => shape.1,
    };
    if groups.len() != count {
        let out = Err(HonestError::ClusterCount { influence: count, clusters: groups.len() });
        assert(run.explains(*numbers, rows, groups@, groups_count, matrix_view(out)));
        return out;
    }
    let correction = if groups_count >= 2 {
        numbers.ratio(groups_count)
    } else {
        Real::one()
    };
    let scale = numbers.scale(correction, count);
    let ghost mut partials: Seq<Seq<Seq<Real>>> = Seq::empty();
    let mut sums: Vec<Vec<Real>> = Vec::new();
    while sums.len() < influence_functions.len()
        invariant
            sums.len() <= influence_functions.len(),
            rows == matrix::rows_of(influence_functions@),
            matrix::has_cols(influence_functions@, count as int),
            groups@.len() == count,
            matrix::indices_below(groups@, groups_count as int),
            numbers.ready(),
            partials.len() == sums.len(),
            forall|i: int|
                0 <= i < sums.len() ==> are_group_sums(
                    *numbers,
                    rows[i],
                    groups@,
                    groups_count as int,
                    #[trigger] partials[i],
                ),
            forall|i: int|
                0 <= i < sums.len() ==> #[trigger] matrix::rows_of(sums@)[i] == partials[i].last(),
        decreases influence_functions.len() - sums.len(),
    {
        let i: usize = sums.len();
        let ghost before = sums@;
        let ghost earlier = partials;
        assert(influence_functions@[i as int]@.len() == count);
        let (row, Ghost(said)) = group_sums(&influence_functions[i], groups, groups_count, numbers);
        sums.push(row);
        proof {
            partials = earlier.push(said);
            assert forall|k: int| 0 <= k < sums.len() implies are_group_sums(
                *numbers,
                rows[k],
                groups@,
                groups_count as int,
                #[trigger] partials[k],
            ) by {
                if k < i {
                    assert(partials[k] == earlier[k]);
                }
            }
            assert forall|k: int| 0 <= k < sums.len() implies #[trigger] matrix::rows_of(sums@)[k]
                == partials[k].last() by {
                if k < i {
                    assert(matrix::rows_of(sums@)[k] == matrix::rows_of(before)[k]);
                }
            }
        }
    }
    let covariance = blocked_matrix(&sums, true, scale, numbers);
    proof {
        run.correction = correction;
        run.scale = scale;
        run.partials = partials;
        run.sums = matrix::rows_of(sums@);
    }
    let out = Ok(covariance);
    assert(run.explains(*numbers, rows, groups@, groups_count, matrix_view(out)));
    out
}

/// Whether equality of labels is one that groups can be formed by.
pub open spec fn groups_by<L: PartialEq>() -> bool {
    &&& L::obeys_eq_spec()
    &&& forall|a: L| #[trigger] a.eq_spec(&a)
    &&& forall|a: L, b: L| #[trigger] a.eq_spec(&b) ==> b.eq_spec(&a)
    &&& forall|a: L, b: L, c: L|
        #[trigger] a.eq_spec(&b) && #[trigger] b.eq_spec(&c) ==> a.eq_spec(&c)
}

/// Whether a label is the first of its kind.
pub open spec fn is_new<L: PartialEq>(labels: Seq<L>, i: int) -> bool {
    forall|j: int| 0 <= j < i ==> !(#[trigger] labels[j]).eq_spec(&labels[i])
}

/// Number of kinds among the first `count` labels.
pub open spec fn kinds<L: PartialEq>(labels: Seq<L>, count: int) -> int
    decreases count,
{
    if count <= 0 {
        0
    } else if is_new(labels, count - 1) {
        kinds(labels, count - 1) + 1
    } else {
        kinds(labels, count - 1)
    }
}

/// Whether labels were numbered in the order of their first appearance.
pub open spec fn numbered<L: PartialEq>(labels: Seq<L>, groups: Seq<usize>) -> bool {
    &&& groups.len() == labels.len()
    &&& forall|i: int|
        0 <= i < labels.len() && is_new(labels, i) ==> #[trigger] groups[i] == kinds(labels, i)
    &&& forall|i: int, j: int|
        0 <= i < labels.len() && 0 <= j < labels.len() ==> ((#[trigger] groups[i]
            == #[trigger] groups[j]) <==> labels[i].eq_spec(&labels[j]))
}

/// Numbers labels in the order of their first appearance.
pub fn cluster_index_of<L: PartialEq>(labels: &Vec<L>) -> (index: ClusterIndex)
    requires
        groups_by::<L>(),
    ensures
        numbered(labels@, index.group_assignments@),
        index.n_groups == kinds(labels@, labels@.len() as int),
        matrix::indices_below(index.group_assignments@, index.n_groups as int),
{
    let mut groups: Vec<usize> = Vec::new();
    let mut firsts: Vec<usize> = Vec::new();
    while groups.len() < labels.len()
        invariant
            groups.len() <= labels.len(),
            firsts.len() <= groups.len(),
            groups_by::<L>(),
            firsts.len() == kinds(labels@, groups.len() as int),
            forall|g: int|
                0 <= g < firsts.len() ==> (#[trigger] firsts@[g]) < groups.len()
                    && groups@[firsts@[g] as int] == g,
            forall|i: int|
                0 <= i < groups.len() && is_new(labels@, i) ==> #[trigger] groups@[i] == kinds(
                    labels@,
                    i,
                ),
            forall|i: int| 0 <= i < groups.len() ==> #[trigger] groups@[i] < firsts.len(),
            forall|i: int, j: int|
                0 <= i < groups.len() && 0 <= j < groups.len() ==> ((#[trigger] groups@[i]
                    == #[trigger] groups@[j]) <==> labels@[i].eq_spec(&labels@[j])),
        decreases labels.len() - groups.len(),
    {
        let i: usize = groups.len();
        let ghost before = groups@;
        let mut g: usize = 0;
        while g < firsts.len() && !(labels[firsts[g]] == labels[i])
            invariant
                i < labels.len(),
                g <= firsts.len(),
                groups_by::<L>(),
                forall|k: int| 0 <= k < firsts.len() ==> (#[trigger] firsts@[k]) < i,
                forall|k: int|
                    0 <= k < g ==> !labels@[(#[trigger] firsts@[k]) as int].eq_spec(
                        &labels@[i as int],
                    ),
            decreases firsts.len() - g,
        {
            g = g + 1;
        }
        proof {
            if g < firsts.len() {
                let f = firsts@[g as int] as int;
                assert(labels@[f].eq_spec(&labels@[i as int]));
                assert(!is_new(labels@, i as int));
            } else {
                assert forall|j: int| 0 <= j < i implies !(#[trigger] labels@[j]).eq_spec(
                    &labels@[i as int],
                ) by {
                    let f = firsts@[before[j] as int] as int;
                    assert(before[f] == before[j]);
                    assert(labels@[f].eq_spec(&labels@[j]));
                    if labels@[j].eq_spec(&labels@[i as int]) {
                        assert(labels@[f].eq_spec(&labels@[i as int]));
                    }
                }
                assert(is_new(labels@, i as int));
            }
        }
        if g == firsts.len() {
            firsts.push(i);
        }
        groups.push(g);
        proof {
            assert forall|x: int, y: int|
                0 <= x < groups.len() && 0 <= y < groups.len() implies ((#[trigger] groups@[x]
                == #[trigger] groups@[y]) <==> labels@[x].eq_spec(&labels@[y])) by {
                if x < i && y < i {
                    assert(groups@[x] == before[x]);
                    assert(groups@[y] == before[y]);
                } else if x == i && y == i {
                    assert(labels@[x].eq_spec(&labels@[x]));
                } else {
                    let z = if x < i {
                        x
                    } else {
                        y
                    };
                    assert(groups@[z] == before[z]);
                    let f = firsts@[g as int] as int;
                    if f < i {
                        assert(before[f] == g);
                        assert((before[z] == before[f]) <==> labels@[z].eq_spec(&labels@[f]));
                        assert(labels@[f].eq_spec(&labels@[i as int]));
                        if labels@[z].eq_spec(&labels@[f]) {
                            assert(labels@[z].eq_spec(&labels@[i as int]));
                            assert(labels@[i as int].eq_spec(&labels@[z]));
                        }
                        if labels@[z].eq_spec(&labels@[i as int]) || labels@[i as int].eq_spec(
                            &labels@[z],
                        ) {
                            assert(labels@[z].eq_spec(&labels@[i as int]));
                            assert(labels@[i as int].eq_spec(&labels@[f]));
                            assert(labels@[z].eq_spec(&labels@[f]));
                        }
                    } else {
                        assert(!labels@[z].eq_spec(&labels@[i as int]));
                        if labels@[i as int].eq_spec(&labels@[z]) {
                            assert(labels@[z].eq_spec(&labels@[i as int]));
                        }
                    }
                }
            }
        }
    }
    ClusterIndex { group_assignments: groups, n_groups: firsts.len() }
}

/// What is wrong with influence vectors and their labels, if anything.
pub open spec fn labelled_fault(influence: Seq<Seq<Real>>, labels: int) -> Option<HonestError> {
    let context = "clustered covariance matrix";
    if no_influence(influence) {
        Some(HonestError::InfluenceEmpty { context })
    } else if labels != influence[0].len() {
        Some(cluster_error(influence[0].len() as int, labels))
    } else {
        row_fault(influence, influence[0].len() as int, context, 0)
    }
}

/// Whether `out` is the clustered covariance matrix of influence vectors by
/// labels that were numbered as `groups`.
pub open spec fn clustered_by<C: CovarianceNumbers, L: PartialEq>(
    numbers: C,
    influence: Seq<Seq<Real>>,
    labels: Seq<L>,
    groups: Seq<usize>,
    out: Result<Seq<Seq<Real>>, HonestError>,
) -> bool {
    match labelled_fault(influence, labels.len() as int) {
        Some(error) => out == Err::<Seq<Seq<Real>>, HonestError>(error),
        None => {
            &&& numbered(labels, groups)
            &&& is_clustered(
                numbers,
                influence,
                groups,
                kinds(labels, labels.len() as int) as usize,
                out,
            )
        },
    }
}

/// The clustered covariance matrix of influence vectors, by the label of each
/// sample.
pub fn clustered_covariance_matrix_from_influence_matrix<C: CovarianceNumbers, L: PartialEq>(
    influence_functions: &Vec<Vec<Real>>,
    cluster_labels: &Vec<L>,
    numbers: &C,
) -> (out: Result<Vec<Vec<Real>>, HonestError>)
    requires
        numbers.ready(),
        influence_functions@.len() + VCOV_BLOCK_SIZE <= usize::MAX,
        groups_by::<L>(),
    ensures
        exists|groups: Seq<usize>| #[trigger]
            clustered_by(
                *numbers,
                matrix::rows_of(influence_functions@),
                cluster_labels@,
                groups,
                matrix_view(out),
            ),
{
    let ghost rows = matrix::rows_of(influence_functions@);
    let ghost nothing: Seq<usize> = Seq::empty();
    let context = "clustered covariance matrix";
    if influence_functions.len() == 0 {
        let out = Err(HonestError::InfluenceEmpty { context });
        assert(clustered_by(*numbers, rows, cluster_labels@, nothing, matrix_view(out)));
        return out;
    }
    let count: usize = influence_functions[0].len();
    if count == 0 {
        let out = Err(HonestError::InfluenceEmpty { context });
        assert(clustered_by(*numbers, rows, cluster_labels@, nothing, matrix_view(out)));
        return out;
    }
    if cluster_labels.len() != count {
        let out = Err(
            HonestError::ClusterCount { influence: count, clusters: cluster_labels.len() },
        );
        assert(clustered_by(*numbers, rows, cluster_labels@, nothing, matrix_view(out)));
        return out;
    }
    match check_rows(influence_functions, count, context) {
        Err(error) => {
            let out = Err(error);
            assert(clustered_by(*numbers, rows, cluster_labels@, nothing, matrix_view(out)));
            return out;
        },
        Ok(()) => {},
    }
    let index = cluster_index_of(cluster_labels);
    let out = clustered_covariance_matrix_from_influence_matrix_index(
        influence_functions,
        &index,
        numbers,
    );
    assert(clustered_by(
        *numbers,
        rows,
        cluster_labels@,
        index.group_assignments@,
        matrix_view(out),
    ));
    out
}

// ---------------------------------------------------------------------------
// What covariances are
// ---------------------------------------------------------------------------

/// Whether the arithmetic of covariances is exact under a reading.
pub open spec fn exact_covariances<C: CovarianceNumbers>(
    numbers: C,
    read: spec_fn(Real) -> int,
) -> bool {
    &&& read(Real::zero_spec()) == 0
    &&& read(Real::one_spec()) == 1
    &&& forall|values: Seq<Real>, mean: Real| #[trigger]
        numbers.is_mean(values, mean) ==> values.len() * read(mean) == exact::total(
            exact::values(read, values),
            values.len() as int,
        )
    &&& forall|left: Real, right: Real, difference: Real| #[trigger]
        numbers.is_difference(left, right, difference) ==> read(difference) == read(left) - read(
            right,
        )
    &&& forall|left: Real, right: Real, sum: Real| #[trigger]
        numbers.is_sum(left, right, sum) ==> read(sum) == read(left) + read(right)
    &&& forall|count: usize, ratio: Real|
        count >= 2 && #[trigger] numbers.is_ratio(count, ratio) ==> (count - 1) * read(ratio)
            == count
    &&& forall|correction: Real, count: usize, scale: Real| #[trigger]
        numbers.is_scale(correction, count, scale) ==> (count * count) * read(scale) == read(
            correction,
        )
    &&& forall|
        clustered: bool,
        left: Seq<Seq<Real>>,
        right: Seq<Seq<Real>>,
        scale: Real,
        block: Seq<Seq<Real>>,
        a: int,
        b: int,
    |
        #![trigger numbers.is_block(clustered, left, right, scale, block), block[a][b]]
        numbers.is_block(clustered, left, right, scale, block) && 0 <= a < left.len() && 0 <= b
            < right.len() && left[a].len() == right[b].len() ==> read(block[a][b]) == read(scale)
            * exact::inner(
            exact::values(read, left[a]),
            exact::values(read, right[b]),
            left[a].len() as int,
        )
}

/// An entry of a matrix put together from blocks is the scaled inner product of
/// its two rows.
proof fn blocked_entries_are_inner_products<C: CovarianceNumbers>(
    numbers: C,
    clustered: bool,
    rows: Seq<Seq<Real>>,
    scale: Real,
    covariance: Seq<Seq<Real>>,
    read: spec_fn(Real) -> int,
    width: int,
    i: int,
    j: int,
)
    requires
        blocked_from(numbers, clustered, rows, scale, covariance),
        exact_covariances(numbers, read),
        forall|k: int| 0 <= k < rows.len() ==> (#[trigger] rows[k]).len() == width,
        0 <= i < rows.len(),
        0 <= j < rows.len(),
    ensures
        read(covariance[i][j]) == read(scale) * exact::inner(
            exact::values(read, rows[i]),
            exact::values(read, rows[j]),
            width,
        ),
{
    let blocks = choose|blocks: Seq<Seq<Seq<Seq<Real>>>>| #[trigger]
        is_blocked(numbers, clustered, rows, scale, blocks, covariance);
    let size = VCOV_BLOCK_SIZE as int;
    assert(size == 32);
    let low = if i < j {
        i
    } else {
        j
    };
    let high = if i < j {
        j
    } else {
        i
    };
    entry_is_in_a_block(rows, low);
    entry_is_in_a_block(rows, high);
    let at = low / size;
    let across = high / size - at;
    assert(low / 32 <= high / 32);
    assert(low == at * 32 + low % 32);
    assert(high == (high / 32) * 32 + high % 32);
    assert(covariance[i][j] == blocked_entry(blocks, i, j));
    assert(is_block_line(numbers, clustered, rows, scale, at, blocks[at]));
    assert(is_block_at(numbers, clustered, rows, scale, at, across, blocks[at][across]));
    let block = blocks[at][across];
    let above = block_rows(rows, at);
    let beyond = block_rows(rows, at + across);
    assert(at + across == high / size);
    assert(above[low % size] == rows[low]);
    assert(beyond[high % size] == rows[high]);
    assert(rows[low].len() == width && rows[high].len() == width);
    let l = exact::values(read, rows[low]);
    let h = exact::values(read, rows[high]);
    exact::inner_commutes(l, h, width);
    if across == 0 {
        assert(above[high % size] == rows[high]);
        assert(numbers.is_block(clustered, above, above, scale, block));
        assert(read(block[high % size][low % size]) == read(scale) * exact::inner(h, l, width));
    } else {
        assert(read(block[low % size][high % size]) == read(scale) * exact::inner(l, h, width));
    }
}

/// The covariance of two influence vectors, times the square of the number of
/// samples, is the sum of the products of their values less their means.
pub proof fn covariances_are_sums_of_products<C: CovarianceNumbers>(
    run: CovarianceRun,
    numbers: C,
    influence: Seq<Seq<Real>>,
    found: Seq<Seq<Real>>,
    read: spec_fn(Real) -> int,
    i: int,
    j: int,
) -> (means: (int, int))
    requires
        run.explains(numbers, influence, Ok(found)),
        exact_covariances(numbers, read),
        influence[0].len() <= usize::MAX,
        0 <= i < influence.len(),
        0 <= j < influence.len(),
    ensures
        ({
            let n = influence[0].len() as int;
            let one = influence[i];
            let two = influence[j];
            &&& n * means.0 == exact::total(exact::values(read, one), n)
            &&& n * means.1 == exact::total(exact::values(read, two), n)
            &&& (n * n) * read(found[i][j]) == exact::inner(
                Seq::new(n as nat, |s: int| read(one[s]) - means.0),
                Seq::new(n as nat, |s: int| read(two[s]) - means.1),
                n,
            )
        }),
{
    let n = influence[0].len() as int;
    assert(influence_fault(influence, "covariance matrix") is None);
    valid_rows_are_even(influence, "covariance matrix");
    assert(influence[i].len() == n && influence[j].len() == n);
    assert(is_centered(numbers, influence[i], run.means[i], run.centered[i]));
    assert(is_centered(numbers, influence[j], run.means[j], run.centered[j]));
    assert forall|k: int| 0 <= k < run.centered.len() implies (#[trigger] run.centered[k]).len()
        == n by {
        assert(is_centered(numbers, influence[k], run.means[k], run.centered[k]));
        assert(influence[k].len() == n);
    }
    blocked_entries_are_inner_products(
        numbers,
        false,
        run.centered,
        run.scale,
        found,
        read,
        n,
        i,
        j,
    );
    let means = (read(run.means[i]), read(run.means[j]));
    let left = Seq::new(n as nat, |s: int| read(influence[i][s]) - means.0);
    let right = Seq::new(n as nat, |s: int| read(influence[j][s]) - means.1);
    let a = exact::values(read, run.centered[i]);
    let b = exact::values(read, run.centered[j]);
    assert forall|s: int| 0 <= s < n implies #[trigger] a[s] == left[s] by {
        assert(numbers.is_difference(influence[i][s], run.means[i], run.centered[i][s]));
    }
    assert forall|s: int| 0 <= s < n implies #[trigger] b[s] == right[s] by {
        assert(numbers.is_difference(influence[j][s], run.means[j], run.centered[j][s]));
    }
    exact::inner_of_equal_entries(a, b, left, right, n);
    let v = exact::inner(a, b, n);
    let scale = read(run.scale);
    assert(n as usize as int == n);
    assert((n * n) * scale == 1);
    assert((n * n) * (scale * v) == ((n * n) * scale) * v) by (nonlinear_arith);
    assert(1 * v == v);
    means
}

/// Influence vectors without a fault have one length.
proof fn valid_rows_are_even(influence: Seq<Seq<Real>>, context: &'static str)
    requires
        influence_fault(influence, context) is None,
    ensures
        influence.len() > 0,
        influence[0].len() > 0,
        forall|k: int| 0 <= k < influence.len() ==> (#[trigger] influence[k]).len()
            == influence[0].len(),
{
    rows_without_fault_are_even(influence, influence[0].len() as int, context, 0);
}

proof fn rows_without_fault_are_even(
    rows: Seq<Seq<Real>>,
    count: int,
    context: &'static str,
    from: int,
)
    requires
        row_fault(rows, count, context, from) is None,
    ensures
        forall|k: int| from <= k < rows.len() ==> (#[trigger] rows[k]).len() == count,
    decreases rows.len() - from,
{
    if from < rows.len() {
        rows_without_fault_are_even(rows, count, context, from + 1);
    }
}

/// The sum of the values of one cluster among the first `end`.
pub open spec fn cluster_total(
    read: spec_fn(Real) -> int,
    values: Seq<Real>,
    groups: Seq<usize>,
    group: int,
    end: int,
) -> int
    decreases end,
{
    if end <= 0 {
        0
    } else {
        cluster_total(read, values, groups, group, end - 1) + if groups[end - 1] == group {
            read(values[end - 1])
        } else {
            0
        }
    }
}

proof fn partial_sums_are_cluster_totals<C: CovarianceNumbers>(
    numbers: C,
    values: Seq<Real>,
    groups: Seq<usize>,
    count: int,
    partials: Seq<Seq<Real>>,
    read: spec_fn(Real) -> int,
    group: int,
    end: int,
)
    requires
        are_group_sums(numbers, values, groups, count, partials),
        exact_covariances(numbers, read),
        0 <= end <= values.len(),
        groups.len() == values.len(),
        forall|s: int| 0 <= s < groups.len() ==> (#[trigger] groups[s]) < count,
        0 <= group < count,
    ensures
        partials[end].len() == count,
        read(partials[end][group]) == cluster_total(read, values, groups, group, end),
    decreases end,
{
    if end > 0 {
        partial_sums_are_cluster_totals(
            numbers,
            values,
            groups,
            count,
            partials,
            read,
            group,
            end - 1,
        );
        assert(grows(
            numbers,
            partials[end - 1],
            groups[end - 1] as int,
            values[end - 1],
            partials[end - 1 + 1],
        ));
        assert(groups[end - 1] < count);
    }
}

/// The clustered covariance of two influence vectors, times the square of the
/// number of samples, is the sum over clusters of the products of their totals
/// there; with two or more clusters it is larger by their number over one less.
pub proof fn clustered_covariances_are_sums_over_clusters<C: CovarianceNumbers>(
    run: ClusteredRun,
    numbers: C,
    influence: Seq<Seq<Real>>,
    groups: Seq<usize>,
    count: usize,
    found: Seq<Seq<Real>>,
    read: spec_fn(Real) -> int,
    i: int,
    j: int,
)
    requires
        run.explains(numbers, influence, groups, count, Ok(found)),
        exact_covariances(numbers, read),
        influence[0].len() <= usize::MAX,
        forall|s: int| 0 <= s < groups.len() ==> (#[trigger] groups[s]) < count,
        0 <= i < influence.len(),
        0 <= j < influence.len(),
    ensures
        ({
            let n = influence[0].len() as int;
            let products = exact::inner(
                Seq::new(
                    count as nat,
                    |g: int| cluster_total(read, influence[i], groups, g, n),
                ),
                Seq::new(
                    count as nat,
                    |g: int| cluster_total(read, influence[j], groups, g, n),
                ),
                count as int,
            );
            if count >= 2 {
                (count - 1) * ((n * n) * read(found[i][j])) == count * products
            } else {
                (n * n) * read(found[i][j]) == products
            }
        }),
{
    let n = influence[0].len() as int;
    let c = count as int;
    assert(influence_fault(influence, "clustered covariance matrix") is None);
    valid_rows_are_even(influence, "clustered covariance matrix");
    assert(groups.len() == n);
    assert forall|k: int| 0 <= k < run.sums.len() implies (#[trigger] run.sums[k]).len() == c by {
        assert(are_group_sums(numbers, influence[k], groups, c, run.partials[k]));
        assert(influence[k].len() == n);
        assert(groups[0] < count);
        partial_sums_are_cluster_totals(
            numbers,
            influence[k],
            groups,
            c,
            run.partials[k],
            read,
            0,
            n,
        );
    }
    blocked_entries_are_inner_products(numbers, true, run.sums, run.scale, found, read, c, i, j);
    let left = Seq::new(count as nat, |g: int| cluster_total(read, influence[i], groups, g, n));
    let right = Seq::new(count as nat, |g: int| cluster_total(read, influence[j], groups, g, n));
    let a = exact::values(read, run.sums[i]);
    let b = exact::values(read, run.sums[j]);
    assert(run.sums[i].len() == c && run.sums[j].len() == c);
    assert(are_group_sums(numbers, influence[i], groups, c, run.partials[i]));
    assert(are_group_sums(numbers, influence[j], groups, c, run.partials[j]));
    assert(influence[i].len() == n && influence[j].len() == n);
    assert forall|g: int| 0 <= g < c implies #[trigger] a[g] == left[g] by {
        partial_sums_are_cluster_totals(
            numbers,
            influence[i],
            groups,
            c,
            run.partials[i],
            read,
            g,
            n,
        );
    }
    assert forall|g: int| 0 <= g < c implies #[trigger] b[g] == right[g] by {
        partial_sums_are_cluster_totals(
            numbers,
            influence[j],
            groups,
            c,
            run.partials[j],
            read,
            g,
            n,
        );
    }
    exact::inner_of_equal_entries(a, b, left, right, c);
    let v = exact::inner(a, b, c);
    let scale = read(run.scale);
    let correction = read(run.correction);
    assert(n as usize as int == n);
    assert((n * n) * scale == correction);
    assert((n * n) * (scale * v) == ((n * n) * scale) * v) by (nonlinear_arith);
    if count >= 2 {
        assert((count - 1) * correction == count);
        assert((c - 1) * (correction * v) == ((c - 1) * correction) * v) by (nonlinear_arith);
    } else {
        assert(1 * v == v);
    }
}

// ---------------------------------------------------------------------------
// The joint Wald test
// ---------------------------------------------------------------------------

/// What a Wald test rested on.
pub struct WaldRun {
    /// The covariance matrix's inverse times the estimates.
    pub solution: Result<Seq<Real>, String>,
    /// The statistic, term by term from zero.
    pub sums: Seq<Real>,
    /// The p-value.
    pub p_value: Result<Real, String>,
}

/// A solution or an error message, as a sequence.
pub open spec fn solution_view(solution: Result<Vec<Real>, String>) -> Result<Seq<Real>, String> {
    match solution {
        Ok(values) => Ok(values@),
        Err(message) => Err(message),
    }
}

/// Whether `solution` solves a system given row by row.
pub open spec fn is_solution<F: Fn(&Vec<Real>, &Vec<Real>) -> Result<Vec<Real>, String>>(
    solve: F,
    flat: Seq<Real>,
    right: Seq<Real>,
    solution: Result<Seq<Real>, String>,
) -> bool {
    exists|m: Vec<Real>, v: Vec<Real>, found: Result<Vec<Real>, String>|
        m@ == flat && v@ == right && solution == solution_view(found) && #[trigger] call_ensures(
            solve,
            (&m, &v),
            found,
        )
}

impl WaldRun {
    /// Whether `out` is a Wald test: an error without estimates, of the system or
    /// of the p-value, else the statistic, the p-value and the degrees of
    /// freedom.
    pub open spec fn explains<
        F: Fn(&Vec<Real>, &Vec<Real>) -> Result<Vec<Real>, String>,
        A: Fn(Real, Real, Real) -> Real,
        Q: Fn(usize, Real) -> Result<Real, String>,
    >(
        self,
        solve: F,
        accumulate: A,
        tail: Q,
        estimates: Seq<Real>,
        covariance: Seq<Seq<Real>>,
        out: Result<(Real, Real, usize), HonestError>,
    ) -> bool {
        if estimates.len() == 0 {
            out == Err::<(Real, Real, usize), HonestError>(HonestError::WaldEmpty)
        } else {
            &&& is_solution(solve, matrix::row_major(covariance), estimates, self.solution)
            &&& match self.solution {
                Err(message) => out == Err::<(Real, Real, usize), HonestError>(
                    HonestError::Numerical { message },
                ),
                Ok(solution) => {
                    &&& self.sums.len() == estimates.len() + 1
                    &&& self.sums[0] == Real::zero_spec()
                    &&& forall|i: int|
                        0 <= i < estimates.len() ==> call_ensures(
                            accumulate,
                            (estimates[i], solution[i], self.sums[i]),
                            #[trigger] self.sums[i + 1],
                        )
                    &&& call_ensures(
                        tail,
                        (estimates.len() as usize, self.sums.last()),
                        self.p_value,
                    )
                    &&& out == (match self.p_value {
                        Err(message) => Err::<(Real, Real, usize), HonestError>(
                            HonestError::Numerical { message },
                        ),
                        Ok(p_value) => Ok::<(Real, Real, usize), HonestError>(
                            (self.sums.last(), p_value, estimates.len() as usize),
                        ),
                    })
                },
            }
        }
    }
}

/// Tests that all estimates are zero: the statistic, its p-value and its degrees
/// of freedom.
pub fn joint_wald_test<
    F: Fn(&Vec<Real>, &Vec<Real>) -> Result<Vec<Real>, String>,
    A: Fn(Real, Real, Real) -> Real,
    Q: Fn(usize, Real) -> Result<Real, String>,
>(
    estimates: &Vec<Real>,
    covariance_matrix: &Vec<Vec<Real>>,
    solve: &F,
    accumulate: &A,
    tail: &Q,
) -> (out: Result<(Real, Real, usize), HonestError>)
    requires
        forall|m: Vec<Real>, v: Vec<Real>| #[trigger] call_requires(*solve, (&m, &v)),
        forall|m: Vec<Real>, v: Vec<Real>, found: Vec<Real>| #[trigger]
            call_ensures(*solve, (&m, &v), Ok(found)) ==> found@.len() == v@.len(),
        forall|a: Real, b: Real, c: Real| #[trigger] call_requires(*accumulate, (a, b, c)),
        forall|n: usize, a: Real| n > 0 ==> #[trigger] call_requires(*tail, (n, a)),
    ensures
        exists|run: WaldRun| #[trigger]
            run.explains(
                *solve,
                *accumulate,
                *tail,
                estimates@,
                matrix::rows_of(covariance_matrix@),
                out,
            ),
        out matches Ok(test) ==> test.2 == estimates@.len() && forall|read: spec_fn(Real) -> int|
            #[trigger] exact_accumulation(*accumulate, read) ==> is_wald_statistic(
                *solve,
                estimates@,
                matrix::rows_of(covariance_matrix@),
                read,
                test.0,
            ),
{
    let ghost mut run: WaldRun = arbitrary();
    let ghost rows = matrix::rows_of(covariance_matrix@);
    let count: usize = estimates.len();
    if count == 0 {
        assert(run.explains(
            *solve,
            *accumulate,
            *tail,
            estimates@,
            rows,
            Err(HonestError::WaldEmpty),
        ));
        return Err(HonestError::WaldEmpty);
    }
    let flat = flatten_row_major(covariance_matrix.as_slice());
    let solved = solve(&flat, estimates);
    proof {
        run.solution = solution_view(solved);
        assert(is_solution(*solve, flat@, estimates@, run.solution));
    }
    let solution = match solved {
        Err(message) => {
            let out = Err(HonestError::Numerical { message });
            assert(run.explains(*solve, *accumulate, *tail, estimates@, rows, out));
            return out;
        },
        Ok(solution) => solution,
    };
    let mut statistic = Real::zero();
    let ghost mut sums: Seq<Real> = Seq::empty().push(statistic);
    let mut i: usize = 0;
    while i < count
        invariant
            i <= count,
            count == estimates@.len(),
            solution@.len() == count,
            forall|a: Real, b: Real, c: Real| #[trigger] call_requires(*accumulate, (a, b, c)),
            sums.len() == i + 1,
            sums[0] == Real::zero_spec(),
            sums.last() == statistic,
            forall|k: int|
                0 <= k < i ==> call_ensures(
                    *accumulate,
                    (estimates@[k], solution@[k], sums[k]),
                    #[trigger] sums[k + 1],
                ),
        decreases count - i,
    {
        let ghost earlier = sums;
        statistic = accumulate(estimates[i], solution[i], statistic);
        proof {
            sums = earlier.push(statistic);
            assert forall|k: int| 0 <= k <= i implies call_ensures(
                *accumulate,
                (estimates@[k], solution@[k], sums[k]),
                #[trigger] sums[k + 1],
            ) by {
                assert(sums[k] == earlier[k]);
                if k < i {
                    assert(sums[k + 1] == earlier[k + 1]);
                }
            }
        }
        i = i + 1;
    }
    let p_value = tail(count, statistic);
    proof {
        run.sums = sums;
        run.p_value = p_value;
    }
    let out = match p_value {
        Err(message) => Err(HonestError::Numerical { message }),
        Ok(p_value) => Ok((statistic, p_value, count)),
    };
    assert(run.explains(*solve, *accumulate, *tail, estimates@, rows, out));
    proof {
        if out is Ok {
            assert forall|read: spec_fn(Real) -> int| #[trigger]
                exact_accumulation(*accumulate, read) implies is_wald_statistic(
                *solve,
                estimates@,
                rows,
                read,
                out->Ok_0.0,
            ) by {
                wald_statistic_is_an_inner_product(
                    run,
                    *solve,
                    *accumulate,
                    *tail,
                    estimates@,
                    rows,
                    out->Ok_0,
                    read,
                );
            }
        }
    }
    out
}

/// Whether accumulation is exact under a reading: a product is added to a sum.
pub open spec fn exact_accumulation<A: Fn(Real, Real, Real) -> Real>(
    accumulate: A,
    read: spec_fn(Real) -> int,
) -> bool {
    &&& read(Real::zero_spec()) == 0
    &&& forall|left: Real, right: Real, sum: Real, total: Real| #[trigger]
        call_ensures(accumulate, (left, right, sum), total) ==> read(total) == read(left) * read(
            right,
        ) + read(sum)
}

/// Whether `statistic` is the inner product of estimates with the solution of the
/// system whose matrix is their covariance and whose right-hand side they are.
pub open spec fn is_wald_statistic<F: Fn(&Vec<Real>, &Vec<Real>) -> Result<Vec<Real>, String>>(
    solve: F,
    estimates: Seq<Real>,
    covariance: Seq<Seq<Real>>,
    read: spec_fn(Real) -> int,
    statistic: Real,
) -> bool {
    exists|flat: Vec<Real>, right: Vec<Real>, solution: Vec<Real>| #[trigger]
        call_ensures(solve, (&flat, &right), Ok(solution)) && flat@ == matrix::row_major(covariance)
            && right@ == estimates && read(statistic) == exact::inner(
            exact::values(read, estimates),
            exact::values(read, solution@),
            estimates.len() as int,
        )
}

proof fn sums_are_inner_products<A: Fn(Real, Real, Real) -> Real>(
    accumulate: A,
    estimates: Seq<Real>,
    solution: Seq<Real>,
    sums: Seq<Real>,
    read: spec_fn(Real) -> int,
    end: int,
)
    requires
        exact_accumulation(accumulate, read),
        0 <= end <= estimates.len(),
        solution.len() == estimates.len(),
        sums.len() == estimates.len() + 1,
        sums[0] == Real::zero_spec(),
        forall|i: int|
            0 <= i < estimates.len() ==> call_ensures(
                accumulate,
                (estimates[i], solution[i], sums[i]),
                #[trigger] sums[i + 1],
            ),
    ensures
        read(sums[end]) == exact::inner(
            exact::values(read, estimates),
            exact::values(read, solution),
            end,
        ),
    decreases end,
{
    if end > 0 {
        sums_are_inner_products(accumulate, estimates, solution, sums, read, end - 1);
        assert(call_ensures(
            accumulate,
            (estimates[end - 1], solution[end - 1], sums[end - 1]),
            sums[end - 1 + 1],
        ));
    }
}

/// The statistic of a Wald test is the inner product of the estimates with the
/// solution `x` of `covariance * x = estimates`, and its p-value is the tail
/// beyond that statistic at one degree of freedom for each estimate.
pub proof fn wald_statistic_is_an_inner_product<
    F: Fn(&Vec<Real>, &Vec<Real>) -> Result<Vec<Real>, String>,
    A: Fn(Real, Real, Real) -> Real,
    Q: Fn(usize, Real) -> Result<Real, String>,
>(
    run: WaldRun,
    solve: F,
    accumulate: A,
    tail: Q,
    estimates: Seq<Real>,
    covariance: Seq<Seq<Real>>,
    test: (Real, Real, usize),
    read: spec_fn(Real) -> int,
)
    requires
        run.explains(solve, accumulate, tail, estimates, covariance, Ok(test)),
        exact_accumulation(accumulate, read),
        forall|m: Vec<Real>, v: Vec<Real>, found: Vec<Real>| #[trigger]
            call_ensures(solve, (&m, &v), Ok(found)) ==> found@.len() == v@.len(),
    ensures
        is_wald_statistic(solve, estimates, covariance, read, test.0),
        call_ensures(tail, (estimates.len() as usize, test.0), Ok(test.1)),
        test.2 == estimates.len() as usize,
{
    let solution = run.solution->Ok_0;
    let (m, v, found) = choose|m: Vec<Real>, v: Vec<Real>, found: Result<Vec<Real>, String>|
        m@ == matrix::row_major(covariance) && v@ == estimates && run.solution == solution_view(
            found,
        ) && #[trigger] call_ensures(solve, (&m, &v), found);
    assert(found is Ok);
    let x = found->Ok_0;
    assert(call_ensures(solve, (&m, &v), Ok(x)));
    assert(x@ == solution);
    sums_are_inner_products(
        accumulate,
        estimates,
        solution,
        run.sums,
        read,
        estimates.len() as int,
    );
}

/// Whether a solver is exact under a reading: each row of the matrix times the
/// solution is the entry of the right-hand side.
pub open spec fn exact_solver<F: Fn(&Vec<Real>, &Vec<Real>) -> Result<Vec<Real>, String>>(
    solve: F,
    read: spec_fn(Real) -> int,
) -> bool {
    forall|flat: Vec<Real>, right: Vec<Real>, solution: Vec<Real>, rows: Seq<Seq<Real>>, i: int|
        #![trigger call_ensures(solve, (&flat, &right), Ok(solution)), matrix::row_major(rows), rows[i]]
        call_ensures(solve, (&flat, &right), Ok(solution)) && flat@ == matrix::row_major(rows)
            && rows.len() == right@.len() && 0 <= i < rows.len() && rows[i].len() == rows.len()
            ==> solution@.len() == right@.len() && exact::inner(
            exact::values(read, rows[i]),
            exact::values(read, solution@),
            rows.len() as int,
        ) == read(right@[i])
}

/// Where the solver is exact, the statistic is `b'x` for an `x` that the
/// covariance matrix maps to the estimates `b`.
pub proof fn wald_statistic_weighs_by_the_covariance<
    F: Fn(&Vec<Real>, &Vec<Real>) -> Result<Vec<Real>, String>,
>(
    solve: F,
    estimates: Seq<Real>,
    covariance: Seq<Seq<Real>>,
    statistic: Real,
    read: spec_fn(Real) -> int,
)
    requires
        is_wald_statistic(solve, estimates, covariance, read, statistic),
        exact_solver(solve, read),
        estimates.len() > 0,
        covariance.len() == estimates.len(),
        forall|i: int| 0 <= i < covariance.len() ==> (#[trigger] covariance[i]).len()
            == covariance.len(),
    ensures
        exists|x: Seq<int>|
            x.len() == estimates.len() && (forall|i: int|
                0 <= i < estimates.len() ==> exact::inner(
                    exact::values(read, #[trigger] covariance[i]),
                    x,
                    estimates.len() as int,
                ) == read(estimates[i])) && read(statistic) == #[trigger] exact::inner(
                exact::values(read, estimates),
                x,
                estimates.len() as int,
            ),
{
    let (flat, right, solution) = choose|flat: Vec<Real>, right: Vec<Real>, solution: Vec<Real>|
        #[trigger] call_ensures(solve, (&flat, &right), Ok(solution)) && flat@
            == matrix::row_major(covariance) && right@ == estimates && read(statistic)
            == exact::inner(
            exact::values(read, estimates),
            exact::values(read, solution@),
            estimates.len() as int,
        );
    let x = exact::values(read, solution@);
    assert(covariance[0].len() == covariance.len());
    assert forall|i: int| 0 <= i < estimates.len() implies exact::inner(
        exact::values(read, #[trigger] covariance[i]),
        x,
        estimates.len() as int,
    ) == read(estimates[i]) by {
        assert(flat@ == matrix::row_major(covariance));
    }
}

/// Whether a solver gives, for a matrix `factor` times as large, the solution of
/// which `factor` times is the other solution.
pub open spec fn solves_in_proportion<
    F: Fn(&Vec<Real>, &Vec<Real>) -> Result<Vec<Real>, String>,
>(solve: F, read: spec_fn(Real) -> int, factor: int) -> bool {
    forall|
        small: Vec<Real>,
        large: Vec<Real>,
        right: Vec<Real>,
        other: Vec<Real>,
        one: Vec<Real>,
        two: Vec<Real>,
    |
        #[trigger] call_ensures(solve, (&small, &right), Ok(one)) && #[trigger] call_ensures(
            solve,
            (&large, &other),
            Ok(two),
        ) && right@ == other@ && is_multiple(small@, large@, factor, read) ==> is_multiple(
            two@,
            one@,
            factor,
            read,
        )
}

/// Whether each entry of `large` is `factor` times that of `small`.
pub open spec fn is_multiple(
    small: Seq<Real>,
    large: Seq<Real>,
    factor: int,
    read: spec_fn(Real) -> int,
) -> bool {
    &&& small.len() == large.len()
    &&& forall|i: int| 0 <= i < small.len() ==> read(#[trigger] large[i]) == factor * read(small[i])
}

/// A covariance matrix `factor` times as large gives a statistic of which
/// `factor` times is that of the smaller one.
pub proof fn wald_statistic_shrinks_with_the_covariance<
    F: Fn(&Vec<Real>, &Vec<Real>) -> Result<Vec<Real>, String>,
>(
    solve: F,
    estimates: Seq<Real>,
    covariance: Seq<Seq<Real>>,
    larger: Seq<Seq<Real>>,
    statistic: Real,
    smaller_statistic: Real,
    factor: int,
    read: spec_fn(Real) -> int,
)
    requires
        is_wald_statistic(solve, estimates, covariance, read, statistic),
        is_wald_statistic(solve, estimates, larger, read, smaller_statistic),
        is_multiple(matrix::row_major(covariance), matrix::row_major(larger), factor, read),
        solves_in_proportion(solve, read, factor),
        forall|m: Vec<Real>, v: Vec<Real>, found: Vec<Real>| #[trigger]
            call_ensures(solve, (&m, &v), Ok(found)) ==> found@.len() == v@.len(),
    ensures
        read(statistic) == factor * read(smaller_statistic),
{
    let n = estimates.len() as int;
    let b = exact::values(read, estimates);
    let (small, right, one) = choose|flat: Vec<Real>, right: Vec<Real>, solution: Vec<Real>|
        #[trigger] call_ensures(solve, (&flat, &right), Ok(solution)) && flat@
            == matrix::row_major(covariance) && right@ == estimates && read(statistic)
            == exact::inner(b, exact::values(read, solution@), n);
    let (large, other, two) = choose|flat: Vec<Real>, right: Vec<Real>, solution: Vec<Real>|
        #[trigger] call_ensures(solve, (&flat, &right), Ok(solution)) && flat@
            == matrix::row_major(larger) && right@ == estimates && read(smaller_statistic)
            == exact::inner(b, exact::values(read, solution@), n);
    assert(is_multiple(two@, one@, factor, read));
    let scaled = exact::values(read, one@);
    assert forall|i: int| 0 <= i < n implies #[trigger] scaled[i] == factor * exact::values(
        read,
        two@,
    )[i] by {
        assert(read(one@[i]) == factor * read(two@[i]));
    }
    exact::inner_scales(b, exact::values(read, two@), scaled, factor, n);
}

} // verus!
