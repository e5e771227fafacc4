//! Costs, duals and reduced costs of a basis.

use crate::lp_arithmetic::LpArithmetic;
use crate::matrix;
use crate::matrix::tabulate;
use crate::number::Real;
use crate::simplex::Phase;
use vstd::prelude::*;

verus! {

/// The cost of a column: in the first phase only artificial columns cost, in the
/// second only the others. Artificial columns stand behind the others.
pub open spec fn phase_cost(column: int, phase: Phase, cost: Seq<Real>) -> Real {
    match phase {
        Phase::One => if column < cost.len() {
            Real::zero_spec()
        } else {
            Real::minus_one_spec()
        },
        Phase::Two => if column < cost.len() {
            cost[column]
        } else {
            Real::zero_spec()
        },
    }
}

/// The cost of a column in a phase.
pub fn cost_of(column: usize, phase: Phase, cost: &[Real]) -> (value: Real)
    ensures
        value == phase_cost(column as int, phase, cost@),
{
    match phase {
        Phase::One => if column < cost.len() {
            Real::zero()
        } else {
            Real::minus_one()
        },
        Phase::Two => if column < cost.len() {
            cost[column]
        } else {
            Real::zero()
        },
    }
}

/// Whether `sums` add up the costs of the basic columns times their entries in a
/// column of the inverse, without the columns that cost nothing.
pub open spec fn sums_costs<T: LpArithmetic>(
    sums: Seq<Real>,
    basis: Seq<usize>,
    inverse: Seq<Vec<Real>>,
    k: int,
    phase: Phase,
    cost: Seq<Real>,
    numbers: T,
) -> bool {
    &&& sums.len() >= 1
    &&& sums[0] == Real::zero_spec()
    &&& forall|r: int|
        0 <= r < sums.len() - 1 ==> adds_cost(
            sums[r],
            phase_cost(basis[r] as int, phase, cost),
            inverse[r]@[k],
            numbers,
            #[trigger] sums[r + 1],
        )
}

/// Whether `after` is `before` plus a cost times an entry.
pub open spec fn adds_cost<T: LpArithmetic>(
    before: Real,
    cost: Real,
    entry: Real,
    numbers: T,
    after: Real,
) -> bool {
    if cost.same_value(Real::zero_spec()) {
        after == before
    } else {
        numbers.accumulates(before, cost, entry, after)
    }
}

/// Whether `dual` is the dual of row `k`.
pub open spec fn is_dual<T: LpArithmetic>(
    basis: Seq<usize>,
    inverse: Seq<Vec<Real>>,
    k: int,
    phase: Phase,
    cost: Seq<Real>,
    numbers: T,
    dual: Real,
) -> bool {
    exists|sums: Seq<Real>| #[trigger]
        sums_costs(sums, basis, inverse, k, phase, cost, numbers) && sums.len() == basis.len()
            + 1 && sums.last() == dual
}

/// The dual of one row.
pub fn dual_of_row<T: LpArithmetic>(
    basis: &[usize],
    inverse: &[Vec<Real>],
    k: usize,
    phase: Phase,
    cost: &[Real],
    numbers: &T,
) -> (dual: Real)
    requires
        inverse.len() == basis.len(),
        matrix::has_cols(inverse@, basis@.len() as int),
        k < basis.len(),
        numbers.ready(),
    ensures
        is_dual(basis@, inverse@, k as int, phase, cost@, *numbers, dual),
{
    let mut dual = Real::zero();
    let ghost mut sums: Seq<Real> = seq![dual];
    let mut r: usize = 0;
    while r < basis.len()
        invariant
            r <= basis.len(),
            inverse.len() == basis.len(),
            matrix::has_cols(inverse@, basis@.len() as int),
            k < basis.len(),
            sums.len() == r + 1,
            sums.last() == dual,
            sums_costs(sums, basis@, inverse@, k as int, phase, cost@, *numbers),
            numbers.ready(),
        decreases basis.len() - r,
    {
        let price = cost_of(basis[r], phase, cost);
        assert(inverse@[r as int]@.len() == basis@.len());
        let next = if price.equals(Real::zero()) {
            dual
        } else {
            numbers.accumulate(dual, price, inverse[r][k])
        };
        proof {
            let before = sums;
            sums = sums.push(next);
            assert forall|q: int| 0 <= q < sums.len() - 1 implies adds_cost(
                sums[q],
                phase_cost(basis@[q] as int, phase, cost@),
                inverse@[q]@[k as int],
                *numbers,
                #[trigger] sums[q + 1],
            ) by {
                if q < r {
                    assert(sums[q] == before[q]);
                    assert(sums[q + 1] == before[q + 1]);
                }
            }
        }
        dual = next;
        r = r + 1;
    }
    dual
}

/// The duals of the rows for the costs of a phase.
pub fn compute_duals<T: LpArithmetic>(
    basis: &[usize],
    inverse: &[Vec<Real>],
    phase: Phase,
    cost: &[Real],
    numbers: &T,
) -> (duals: Vec<Real>)
    requires
        inverse.len() == basis.len(),
        matrix::has_cols(inverse@, basis@.len() as int),
        numbers.ready(),
    ensures
        duals.len() == basis.len(),
        forall|k: int|
            0 <= k < duals.len() ==> #[trigger] is_dual(
                basis@,
                inverse@,
                k,
                phase,
                cost@,
                *numbers,
                duals@[k],
            ),
{
    let mut duals: Vec<Real> = Vec::new();
    while duals.len() < basis.len()
        invariant
            duals.len() <= basis.len(),
            inverse.len() == basis.len(),
            matrix::has_cols(inverse@, basis@.len() as int),
            numbers.ready(),
            forall|k: int|
                0 <= k < duals.len() ==> #[trigger] is_dual(
                    basis@,
                    inverse@,
                    k,
                    phase,
                    cost@,
                    *numbers,
                    duals@[k],
                ),
        decreases basis.len() - duals.len(),
    {
        let k: usize = duals.len();
        duals.push(dual_of_row(basis, inverse, k, phase, cost, numbers));
    }
    duals
}

/// The first dual alone: the optimal value of the program whose dual this is,
/// where the right-hand side is the first unit vector.
pub fn dual_0<T: LpArithmetic>(
    basis: &[usize],
    inverse: &[Vec<Real>],
    cost: &[Real],
    numbers: &T,
) -> (dual: Real)
    requires
        basis.len() > 0,
        inverse.len() == basis.len(),
        matrix::has_cols(inverse@, basis@.len() as int),
        numbers.ready(),
    ensures
        is_dual(basis@, inverse@, 0, Phase::Two, cost@, *numbers, dual),
{
    dual_of_row(basis, inverse, 0, Phase::Two, cost, numbers)
}

/// The reduced costs of the columns at given duals.
pub fn reduced_costs<T: LpArithmetic>(
    columns: &Vec<Vec<Real>>,
    phase: Phase,
    cost: &[Real],
    duals: &Vec<Real>,
    numbers: &T,
) -> (reduced: Vec<Real>)
    requires
        columns.len() == cost.len(),
        numbers.ready(),
    ensures
        reduced.len() == columns.len(),
        forall|j: int|
            0 <= j < reduced.len() ==> numbers.reduces(
                phase_cost(j, phase, cost@),
                columns@[j],
                *duals,
                #[trigger] reduced@[j],
            ),
{
    let mut reduced: Vec<Real> = Vec::new();
    while reduced.len() < columns.len()
        invariant
            reduced.len() <= columns.len(),
            columns.len() == cost.len(),
            numbers.ready(),
            forall|j: int|
                0 <= j < reduced.len() ==> numbers.reduces(
                    phase_cost(j, phase, cost@),
                    columns@[j],
                    *duals,
                    #[trigger] reduced@[j],
                ),
        decreases columns.len() - reduced.len(),
    {
        let j: usize = reduced.len();
        let price = cost_of(j, phase, cost);
        reduced.push(numbers.reduce(price, &columns[j], duals));
    }
    reduced
}

// ---------------------------------------------------------------------------
// Values of a basis
// ---------------------------------------------------------------------------

/// The value of a basic column, with a negative one taken for zero if it is
/// clipped.
pub open spec fn basic_value(value: Real, clipped: bool) -> Real {
    if clipped {
        value.max_spec(Real::zero_spec())
    } else {
        value
    }
}

/// Whether `sums` add up the costs of the basic columns times their values,
/// without the artificial columns.
pub open spec fn sums_objective<T: LpArithmetic>(
    sums: Seq<Real>,
    basis: Seq<usize>,
    values: Seq<Real>,
    cost: Seq<Real>,
    clipped: bool,
    numbers: T,
) -> bool {
    &&& sums.len() >= 1
    &&& sums[0] == Real::zero_spec()
    &&& forall|r: int|
        0 <= r < sums.len() - 1 ==> adds_value(
            sums[r],
            basis[r] as int,
            basic_value(values[r], clipped),
            cost,
            numbers,
            #[trigger] sums[r + 1],
        )
}

/// Whether `after` is `before` plus the cost of a column times its value, or
/// `before` where the column is artificial.
pub open spec fn adds_value<T: LpArithmetic>(
    before: Real,
    column: int,
    value: Real,
    cost: Seq<Real>,
    numbers: T,
    after: Real,
) -> bool {
    if column < cost.len() {
        numbers.accumulates(before, cost[column], value, after)
    } else {
        after == before
    }
}

/// Whether `objective` is the objective at a basis.
pub open spec fn is_objective<T: LpArithmetic>(
    basis: Seq<usize>,
    values: Seq<Real>,
    cost: Seq<Real>,
    clipped: bool,
    numbers: T,
    objective: Real,
) -> bool {
    exists|sums: Seq<Real>| #[trigger]
        sums_objective(sums, basis, values, cost, clipped, numbers) && sums.len()
            == basis.len() + 1 && sums.last() == objective
}

/// The objective at a basis.
pub fn basis_objective<T: LpArithmetic>(
    basis: &[usize],
    values: &[Real],
    cost: &[Real],
    clipped: bool,
    numbers: &T,
) -> (objective: Real)
    requires
        values.len() == basis.len(),
        numbers.ready(),
    ensures
        is_objective(basis@, values@, cost@, clipped, *numbers, objective),
{
    let mut objective = Real::zero();
    let ghost mut sums: Seq<Real> = seq![objective];
    let mut r: usize = 0;
    while r < basis.len()
        invariant
            r <= basis.len(),
            values.len() == basis.len(),
            sums.len() == r + 1,
            sums.last() == objective,
            sums_objective(sums, basis@, values@, cost@, clipped, *numbers),
            numbers.ready(),
        decreases basis.len() - r,
    {
        let column: usize = basis[r];
        let next = if column < cost.len() {
            let value = if clipped {
                values[r].max(Real::zero())
            } else {
                values[r]
            };
            numbers.accumulate(objective, cost[column], value)
        } else {
            objective
        };
        proof {
            let before = sums;
            sums = sums.push(next);
            assert forall|q: int| 0 <= q < sums.len() - 1 implies adds_value(
                sums[q],
                basis@[q] as int,
                basic_value(values@[q], clipped),
                cost@,
                *numbers,
                #[trigger] sums[q + 1],
            ) by {
                if q < r {
                    assert(sums[q] == before[q]);
                    assert(sums[q + 1] == before[q + 1]);
                }
            }
        }
        objective = next;
        r = r + 1;
    }
    objective
}

/// Whether an addition is a function of its arguments.
pub open spec fn adds_as_a_function<T: LpArithmetic>(numbers: T) -> bool {
    forall|a: Real, b: Real, c: Real, x: Real, y: Real| #[trigger]
        numbers.accumulates(a, b, c, x) && #[trigger] numbers.accumulates(a, b, c, y)
            ==> x == y
}

/// A basis has one objective, where the addition is a function.
pub proof fn an_objective_is_one_number<T: LpArithmetic>(
    basis: Seq<usize>,
    values: Seq<Real>,
    cost: Seq<Real>,
    clipped: bool,
    numbers: T,
    one: Real,
    two: Real,
)
    requires
        adds_as_a_function(numbers),
        is_objective(basis, values, cost, clipped, numbers, one),
        is_objective(basis, values, cost, clipped, numbers, two),
    ensures
        one == two,
{
    let first = choose|sums: Seq<Real>| #[trigger]
        sums_objective(sums, basis, values, cost, clipped, numbers) && sums.len()
            == basis.len() + 1 && sums.last() == one;
    let second = choose|sums: Seq<Real>| #[trigger]
        sums_objective(sums, basis, values, cost, clipped, numbers) && sums.len()
            == basis.len() + 1 && sums.last() == two;
    objective_sums_agree(
        first,
        second,
        basis,
        values,
        cost,
        clipped,
        numbers,
        basis.len() as int,
    );
}

/// Two ways to add up an objective agree up to `end`.
proof fn objective_sums_agree<T: LpArithmetic>(
    first: Seq<Real>,
    second: Seq<Real>,
    basis: Seq<usize>,
    values: Seq<Real>,
    cost: Seq<Real>,
    clipped: bool,
    numbers: T,
    end: int,
)
    requires
        adds_as_a_function(numbers),
        sums_objective(first, basis, values, cost, clipped, numbers),
        sums_objective(second, basis, values, cost, clipped, numbers),
        0 <= end < first.len(),
        first.len() == second.len(),
    ensures
        first[end] == second[end],
    decreases end,
{
    if end > 0 {
        objective_sums_agree(
            first,
            second,
            basis,
            values,
            cost,
            clipped,
            numbers,
            end - 1,
        );
        let value = basic_value(values[end - 1], clipped);
        let column = basis[end - 1] as int;
        let r = end - 1;
        assert(adds_value(first[r], column, value, cost, numbers, first[r + 1]));
        assert(adds_value(second[r], column, value, cost, numbers, second[r + 1]));
    }
}

/// The values of the artificial columns of a basis below `end`, in order.
pub open spec fn artificial_values(
    basis: Seq<usize>,
    values: Seq<Real>,
    n: int,
    end: int,
) -> Seq<Real>
    decreases end,
{
    if end <= 0 {
        Seq::empty()
    } else if basis[end - 1] >= n {
        artificial_values(basis, values, n, end - 1).push(values[end - 1])
    } else {
        artificial_values(basis, values, n, end - 1)
    }
}

/// The values of the artificial columns of a basis: a feasible basis has none
/// that is not negligible.
pub fn collect_artificial(basis: &[usize], values: &[Real], n: usize) -> (kept: Vec<Real>)
    requires
        values.len() == basis.len(),
    ensures
        kept@ == artificial_values(basis@, values@, n as int, basis@.len() as int),
{
    let mut kept: Vec<Real> = Vec::new();
    let mut r: usize = 0;
    while r < basis.len()
        invariant
            r <= basis.len(),
            values.len() == basis.len(),
            kept@ == artificial_values(basis@, values@, n as int, r as int),
        decreases basis.len() - r,
    {
        if basis[r] >= n {
            kept.push(values[r]);
        }
        r = r + 1;
    }
    kept
}

/// The inverse of the basis of artificial columns: their signs on the diagonal.
pub fn artificial_inverse(signs: &[Real]) -> (inverse: Vec<Vec<Real>>)
    ensures
        inverse.len() == signs.len(),
        matrix::has_cols(inverse@, signs@.len() as int),
        forall|i: int, j: int|
            0 <= i < signs.len() && 0 <= j < signs.len() ==> #[trigger] inverse@[i]@[j] == (if i
                == j {
                signs@[i]
            } else {
                Real::zero_spec()
            }),
{
    let m: usize = signs.len();
    assert(m == signs@.len());
    let entry = |i: usize, j: usize| -> (value: Real)
        requires
            i < signs@.len(),
        ensures
            value == (if i == j {
                signs@[i as int]
            } else {
                Real::zero_spec()
            }),
        {
            if i == j {
                signs[i]
            } else {
                Real::zero()
            }
        };
    tabulate(m, m, entry)
}

proof fn sums_are_determined<T: LpArithmetic>(
    one: Seq<Real>,
    other: Seq<Real>,
    basis: Seq<usize>,
    inverse: Seq<Vec<Real>>,
    k: int,
    phase: Phase,
    cost: Seq<Real>,
    numbers: T,
    r: int,
)
    requires
        sums_costs(one, basis, inverse, k, phase, cost, numbers),
        sums_costs(other, basis, inverse, k, phase, cost, numbers),
        one.len() == other.len(),
        0 <= r < one.len(),
        adds_as_a_function(numbers),
    ensures
        one[r] == other[r],
    decreases r,
{
    if r > 0 {
        sums_are_determined(
            one,
            other,
            basis,
            inverse,
            k,
            phase,
            cost,
            numbers,
            r - 1,
        );
        let price = phase_cost(basis[r - 1] as int, phase, cost);
        let entry = inverse[r - 1]@[k];
        assert(adds_cost(one[r - 1], price, entry, numbers, one[(r - 1) + 1]));
        assert(adds_cost(other[r - 1], price, entry, numbers, other[(r - 1) + 1]));
    }
}

/// A row has one dual, where the arithmetic has one answer to a question: the
/// first dual that is computed alone is the first of all.
pub proof fn duals_are_unique<T: LpArithmetic>(
    basis: Seq<usize>,
    inverse: Seq<Vec<Real>>,
    k: int,
    phase: Phase,
    cost: Seq<Real>,
    numbers: T,
    one: Real,
    other: Real,
)
    requires
        is_dual(basis, inverse, k, phase, cost, numbers, one),
        is_dual(basis, inverse, k, phase, cost, numbers, other),
        adds_as_a_function(numbers),
    ensures
        one == other,
{
    let left = choose|sums: Seq<Real>| #[trigger]
        sums_costs(sums, basis, inverse, k, phase, cost, numbers) && sums.len() == basis.len()
            + 1 && sums.last() == one;
    let right = choose|sums: Seq<Real>| #[trigger]
        sums_costs(sums, basis, inverse, k, phase, cost, numbers) && sums.len() == basis.len()
            + 1 && sums.last() == other;
    sums_are_determined(
        left,
        right,
        basis,
        inverse,
        k,
        phase,
        cost,
        numbers,
        basis.len() as int,
    );
}

} // verus!
