//! A linear program `max c'l` subject to `A l = g` and `l >= 0`, and the numbers
//! of its bases.

use crate::factorization;
use crate::factorization::{artificial_start, pivot_numbers, refactor};
use crate::lp_arithmetic::LpArithmetic;
use crate::matrix;
use crate::matrix::copy_row;
use crate::number::Real;
use crate::pricing;
use crate::pricing::{artificial_inverse, collect_artificial, compute_duals, reduced_costs};
use crate::simplex;
use crate::simplex::{BasisNumbers, Phase};
use vstd::prelude::*;

verus! {

/// The columns and the right-hand side of a program.
#[derive(Debug, PartialEq, Eq)]
pub struct LinearProgram {
    /// The columns.
    pub columns: Vec<Vec<Real>>,
    /// The right-hand side.
    pub right: Vec<Real>,
    /// Signs of the artificial columns.
    pub signs: Vec<Real>,
}

/// The sign of each artificial column: that of its right-hand side.
pub open spec fn signs_of(right: Seq<Real>) -> Seq<Real> {
    Seq::new(
        right.len(),
        |i: int|
            if right[i].lt(Real::zero_spec()) {
                Real::minus_one_spec()
            } else {
                Real::one_spec()
            },
    )
}

impl LinearProgram {
    /// Number of rows.
    pub open spec fn rows(self) -> int {
        self.right@.len() as int
    }

    /// Number of columns.
    pub open spec fn count(self) -> int {
        self.columns@.len() as int
    }

    /// Every column has an entry per row, and the signs are those of the
    /// right-hand side.
    pub open spec fn wf(self) -> bool {
        &&& matrix::has_cols(self.columns@, self.rows())
        &&& self.signs@ == signs_of(self.right@)
        &&& 2 * self.rows() <= usize::MAX
    }

    /// A program by its columns and right-hand side.
    pub fn new(columns: Vec<Vec<Real>>, right: Vec<Real>) -> (program: Self)
        requires
            matrix::has_cols(columns@, right@.len() as int),
            2 * right@.len() <= usize::MAX,
        ensures
            program.wf(),
            program.columns == columns,
            program.right == right,
    {
        let (signs, _values) = artificial_start(&right);
        LinearProgram { columns, right, signs }
    }

    /// Whether `duals` and `reduced` are the duals of a basis for the costs of a
    /// phase and the reduced costs of the columns there. Duals that are not stale
    /// are those that the basis came with.
    pub open spec fn prices<T: LpArithmetic>(
        self,
        numbers: T,
        phase: Phase,
        basis: Seq<usize>,
        stale: bool,
        state: BasisNumbers,
        cost: Seq<Real>,
        duals: Vec<Real>,
        reduced: Seq<Real>,
    ) -> bool {
        &&& if stale {
            are_duals(numbers, phase, basis, state.binv@, cost, duals@)
        } else {
            duals@ == state.y@
        }
        &&& self.reduces_to(numbers, phase, cost, duals, reduced)
    }

    /// Whether `reduced` are the reduced costs of the columns at given duals.
    pub open spec fn reduces_to<T: LpArithmetic>(
        self,
        numbers: T,
        phase: Phase,
        cost: Seq<Real>,
        duals: Vec<Real>,
        reduced: Seq<Real>,
    ) -> bool {
        &&& reduced.len() == self.columns@.len()
        &&& forall|j: int|
            0 <= j < reduced.len() ==> numbers.reduces(
                pricing::phase_cost(j, phase, cost),
                self.columns@[j],
                duals,
                #[trigger] reduced[j],
            )
    }

    /// Whether `col` is a column in terms of a basis, by the inverse of the
    /// basis.
    pub open spec fn turns<T: LpArithmetic>(
        self,
        numbers: T,
        column: int,
        binv: Seq<Vec<Real>>,
        col: Seq<Real>,
    ) -> bool {
        &&& col.len() == binv.len()
        &&& forall|i: int|
            0 <= i < col.len() ==> numbers.produces(
                binv[i],
                self.columns@[column],
                #[trigger] col[i],
            )
    }

    /// Whether `out` are the inverse and the basic values of a basis; none where
    /// it is singular.
    pub open spec fn factors<T: LpArithmetic>(
        self,
        numbers: T,
        basis: Seq<usize>,
        out: Option<(Vec<Vec<Real>>, Vec<Real>)>,
    ) -> bool {
        let square = factorization::basis_rows(
            matrix::rows_of(self.columns@),
            self.signs@,
            basis,
        );
        match out {
            None => factorization::is_inverse(numbers, square, None),
            Some(found) => {
                &&& factorization::is_inverse(numbers, square, Some(matrix::rows_of(found.0@)))
                &&& factorization::are_basic_values(
                    numbers,
                    matrix::rows_of(found.0@),
                    self.right@,
                    found.1@,
                )
            },
        }
    }

    /// Whether these are the inverse and the basic values of the artificial
    /// basis.
    pub open spec fn installs(self, installed: (Vec<Vec<Real>>, Vec<Real>)) -> bool {
        let m = self.rows();
        &&& installed.0@.len() == m
        &&& matrix::has_cols(installed.0@, m)
        &&& forall|i: int, j: int|
            0 <= i < m && 0 <= j < m ==> #[trigger] installed.0@[i]@[j] == (if i == j {
                self.signs@[i]
            } else {
                Real::zero_spec()
            })
        &&& installed.1@ == Seq::new(m as nat, |i: int| self.right@[i].abs_spec())
    }

    /// Whether `total` is the sum of the values of the artificial columns in a
    /// basis.
    pub open spec fn is_infeasible_by<T: LpArithmetic>(
        self,
        numbers: T,
        basis: Seq<usize>,
        values: Seq<Real>,
        total: Real,
    ) -> bool {
        exists|kept: Vec<Real>| #[trigger]
            numbers.totals(kept, total) && kept@ == pricing::artificial_values(
                basis,
                values,
                self.count(),
                basis.len() as int,
            )
    }

    /// The duals of a basis and the reduced costs of the columns.
    pub fn price<T: LpArithmetic>(
        &self,
        phase: Phase,
        basis: &[usize],
        stale: bool,
        state: &BasisNumbers,
        cost: &Vec<Real>,
        numbers: &T,
    ) -> (priced: (Vec<Real>, Vec<Real>))
        requires
            self.wf(),
            basis.len() == self.rows(),
            cost.len() == self.count(),
            simplex::sized(*state, self.rows()),
            !stale ==> state.y.len() == self.rows(),
            numbers.ready(),
        ensures
            self.prices(*numbers, phase, basis@, stale, *state, cost@, priced.0, priced.1@),
            priced.0.len() == self.rows(),
    {
        let duals = if stale {
            compute_duals(basis, state.binv.as_slice(), phase, cost.as_slice(), numbers)
        } else {
            copy_row(state.y.as_slice())
        };
        let reduced = reduced_costs(&self.columns, phase, cost.as_slice(), &duals, numbers);
        (duals, reduced)
    }

    /// A column in terms of a basis.
    pub fn column<T: LpArithmetic>(
        &self,
        column: usize,
        binv: &Vec<Vec<Real>>,
        numbers: &T,
    ) -> (col: Vec<Real>)
        requires
            column < self.count(),
            numbers.ready(),
        ensures
            self.turns(*numbers, column as int, binv@, col@),
    {
        let mut col: Vec<Real> = Vec::new();
        while col.len() < binv.len()
            invariant
                col.len() <= binv.len(),
                column < self.count(),
                numbers.ready(),
                forall|i: int|
                    0 <= i < col.len() ==> numbers.produces(
                        binv@[i],
                        self.columns@[column as int],
                        #[trigger] col@[i],
                    ),
            decreases binv.len() - col.len(),
        {
            let i: usize = col.len();
            col.push(numbers.product(&binv[i], &self.columns[column]));
        }
        col
    }

    /// The inverse and the basic values of a basis; none where it is singular.
    pub fn refactor<T: LpArithmetic>(&self, basis: &Vec<usize>, numbers: &T) -> (out: Option<
        (Vec<Vec<Real>>, Vec<Real>),
    >)
        requires
            self.wf(),
            basis.len() == self.rows(),
            forall|i: int|
                0 <= i < basis.len() ==> (#[trigger] basis@[i]) < self.count() + self.rows(),
            numbers.ready(),
        ensures
            self.factors(*numbers, basis@, out),
            out matches Some(found) ==> found.0.len() == self.rows() && matrix::has_cols(
                found.0@,
                self.rows(),
            ) && found.1.len() == self.rows(),
    {
        match refactor(&self.columns, &self.signs, basis, &self.right, numbers) {
            Err(_) => None,
            Ok(found) => Some(found),
        }
    }

    /// The inverse and the basic values of the artificial basis.
    pub fn install(&self) -> (installed: (Vec<Vec<Real>>, Vec<Real>))
        requires
            self.wf(),
        ensures
            self.installs(installed),
    {
        let (signs, values) = artificial_start(&self.right);
        (artificial_inverse(signs.as_slice()), values)
    }

    /// The sum of the values of the artificial columns in a basis.
    pub fn infeasibility<T: LpArithmetic>(
        &self,
        basis: &Vec<usize>,
        values: &Vec<Real>,
        numbers: &T,
    ) -> (total: Real)
        requires
            values.len() == basis.len(),
            numbers.ready(),
        ensures
            self.is_infeasible_by(*numbers, basis@, values@, total),
    {
        let kept = collect_artificial(basis.as_slice(), values.as_slice(), self.columns.len());
        numbers.total(&kept)
    }
}

/// Whether `duals` are the duals of a basis for the costs of a phase.
pub open spec fn are_duals<T: LpArithmetic>(
    numbers: T,
    phase: Phase,
    basis: Seq<usize>,
    binv: Seq<Vec<Real>>,
    cost: Seq<Real>,
    duals: Seq<Real>,
) -> bool {
    &&& duals.len() == basis.len()
    &&& forall|k: int|
        0 <= k < duals.len() ==> #[trigger] pricing::is_dual(
            basis,
            binv,
            k,
            phase,
            cost,
            numbers,
            duals[k],
        )
}

/// Whether `after` are the numbers of a basis after a pivot: the inverse and the
/// basic values moved along it, and each dual moved by the reduced cost of the
/// entering column times its entry in the row that left.
pub open spec fn steps<T: LpArithmetic>(
    numbers: T,
    before: BasisNumbers,
    col: Seq<Real>,
    leaving: int,
    theta: Real,
    reduced: Real,
    after: BasisNumbers,
) -> bool {
    &&& factorization::numbers_pivoted(
        numbers,
        matrix::rows_of(before.binv@),
        before.xb@,
        col,
        leaving,
        theta,
        matrix::rows_of(after.binv@),
        after.xb@,
    )
    &&& after.y.len() == before.y.len()
    &&& forall|k: int|
        0 <= k < after.y.len() ==> numbers.accumulates(
            before.y@[k],
            reduced,
            after.binv@[leaving]@[k],
            #[trigger] after.y@[k],
        )
}

/// The numbers of a basis after a pivot.
pub fn step_numbers<T: LpArithmetic>(
    state: &BasisNumbers,
    col: &Vec<Real>,
    leaving: usize,
    theta: Real,
    reduced: Real,
    numbers: &T,
) -> (after: BasisNumbers)
    requires
        simplex::sized(*state, state.y@.len() as int),
        col.len() == state.y.len(),
        leaving < state.y.len(),
        numbers.ready(),
    ensures
        steps(*numbers, *state, col@, leaving as int, theta, reduced, after),
        simplex::sized(after, state.y@.len() as int),
{
    let (binv, xb) = pivot_numbers(&state.binv, &state.xb, col, leaving, theta, numbers);
    let mut y: Vec<Real> = Vec::new();
    while y.len() < state.y.len()
        invariant
            y.len() <= state.y.len(),
            leaving < state.y.len(),
            binv.len() == state.y.len(),
            matrix::has_cols(binv@, state.y@.len() as int),
            numbers.ready(),
            forall|k: int|
                0 <= k < y.len() ==> numbers.accumulates(
                    state.y@[k],
                    reduced,
                    binv@[leaving as int]@[k],
                    #[trigger] y@[k],
                ),
        decreases state.y.len() - y.len(),
    {
        let k: usize = y.len();
        assert(binv@[leaving as int]@.len() == state.y@.len());
        y.push(numbers.accumulate(state.y[k], reduced, binv[leaving][k]));
    }
    BasisNumbers { binv, xb, y }
}

} // verus!
