//! Readings of numbers as integers, under which arithmetic may be exact.
//!
//! The laws that speak of sums and products hold where the arithmetic at hand is
//! exact under some reading: each operation gives the number whose reading is the
//! sum, the difference or the product of the readings.

use crate::number::Real;
use vstd::arithmetic::mul;
use vstd::prelude::*;

verus! {

/// Whether a reading keeps the constants, the sign and the order of numbers.
pub open spec fn faithful(read: spec_fn(Real) -> int) -> bool {
    &&& read(Real::zero_spec()) == 0
    &&& read(Real::one_spec()) == 1
    &&& read(Real::minus_one_spec()) == -1
    &&& forall|x: Real| read(#[trigger] x.neg_spec()) == -read(x)
    &&& forall|x: Real, y: Real| #[trigger] x.le(y) ==> read(x) <= read(y)
}

/// The readings of numbers.
pub open spec fn values(read: spec_fn(Real) -> int, numbers: Seq<Real>) -> Seq<int> {
    Seq::new(numbers.len(), |i: int| read(numbers[i]))
}

/// The sum of the products of the first `end` entries.
pub open spec fn inner(left: Seq<int>, right: Seq<int>, end: int) -> int
    decreases end,
{
    if end <= 0 {
        0
    } else {
        inner(left, right, end - 1) + left[end - 1] * right[end - 1]
    }
}

/// Inner products take entries that are equal, wherever they stand.
pub proof fn inner_of_equal_entries(
    left: Seq<int>,
    right: Seq<int>,
    other_left: Seq<int>,
    other_right: Seq<int>,
    end: int,
)
    requires
        forall|i: int| 0 <= i < end ==> #[trigger] left[i] == other_left[i],
        forall|i: int| 0 <= i < end ==> #[trigger] right[i] == other_right[i],
    ensures
        inner(left, right, end) == inner(other_left, other_right, end),
    decreases end,
{
    if end > 0 {
        inner_of_equal_entries(left, right, other_left, other_right, end - 1);
        assert(left[end - 1] == other_left[end - 1]);
        assert(right[end - 1] == other_right[end - 1]);
    }
}

/// A factor of one side is a factor of the inner product.
pub proof fn inner_scales(left: Seq<int>, right: Seq<int>, scaled: Seq<int>, factor: int, end: int)
    requires
        forall|i: int| 0 <= i < end ==> #[trigger] scaled[i] == factor * right[i],
    ensures
        inner(left, scaled, end) == factor * inner(left, right, end),
    decreases end,
{
    if end > 0 {
        inner_scales(left, right, scaled, factor, end - 1);
        let l = left[end - 1];
        let r = right[end - 1];
        assert(scaled[end - 1] == factor * r);
        mul::lemma_mul_is_associative(l, factor, r);
        mul::lemma_mul_is_commutative(l, factor);
        mul::lemma_mul_is_associative(factor, l, r);
        mul::lemma_mul_is_distributive_add(factor, inner(left, right, end - 1), l * r);
    } else {
        assert(factor * 0 == 0);
    }
}

/// The inner product with a vector that has a single entry other than zero.
pub proof fn inner_with_unit(left: Seq<int>, right: Seq<int>, at: int, end: int)
    requires
        0 <= at,
        forall|i: int|
            0 <= i < end ==> #[trigger] left[i] == (if i == at {
                1int
            } else {
                0int
            }),
    ensures
        inner(left, right, end) == (if at < end {
            right[at]
        } else {
            0
        }),
    decreases end,
{
    if end > 0 {
        inner_with_unit(left, right, at, end - 1);
        let r = right[end - 1];
        assert(left[end - 1] == (if end - 1 == at {
            1int
        } else {
            0int
        }));
        assert(1 * r == r && 0 * r == 0);
    }
}

/// The inner product of a sum is the sum of the inner products.
pub proof fn inner_of_difference(
    left: Seq<int>,
    one: Seq<int>,
    two: Seq<int>,
    difference: Seq<int>,
    end: int,
)
    requires
        forall|i: int| 0 <= i < end ==> #[trigger] difference[i] == one[i] - two[i],
    ensures
        inner(left, difference, end) == inner(left, one, end) - inner(left, two, end),
    decreases end,
{
    if end > 0 {
        inner_of_difference(left, one, two, difference, end - 1);
        assert(difference[end - 1] == one[end - 1] - two[end - 1]);
        mul::lemma_mul_is_distributive_sub(left[end - 1], one[end - 1], two[end - 1]);
    }
}

/// An inner product is the same both ways.
pub proof fn inner_commutes(left: Seq<int>, right: Seq<int>, end: int)
    ensures
        inner(left, right, end) == inner(right, left, end),
    decreases end,
{
    if end > 0 {
        inner_commutes(left, right, end - 1);
        mul::lemma_mul_is_commutative(left[end - 1], right[end - 1]);
    }
}

/// The sum of the first `end` entries.
pub open spec fn total(entries: Seq<int>, end: int) -> int
    decreases end,
{
    if end <= 0 {
        0
    } else {
        total(entries, end - 1) + entries[end - 1]
    }
}

/// An inner product is the sum of those of two parts.
pub proof fn inner_of_parts(left: Seq<int>, right: Seq<int>, at: int, end: int)
    requires
        0 <= at,
        0 <= end,
        at + end <= left.len(),
        at + end <= right.len(),
    ensures
        inner(left, right, at + end) == inner(left, right, at) + inner(
            left.skip(at),
            right.skip(at),
            end,
        ),
    decreases end,
{
    if end > 0 {
        inner_of_parts(left, right, at, end - 1);
        assert(left.skip(at)[end - 1] == left[at + end - 1]);
        assert(right.skip(at)[end - 1] == right[at + end - 1]);
    }
}

/// The inner product with ones up to a place, each with a sign, is the sum of the
/// entries up to there with that sign.
pub proof fn inner_with_ones(left: Seq<int>, right: Seq<int>, sign: int, upto: int, end: int)
    requires
        sign == 1 || sign == -1,
        0 <= upto,
        forall|i: int|
            0 <= i < end ==> #[trigger] left[i] == (if i < upto {
                sign
            } else {
                0int
            }),
    ensures
        inner(left, right, end) == sign * total(
            right,
            if upto < end {
                upto
            } else {
                end
            },
        ),
    decreases end,
{
    if end > 0 {
        inner_with_ones(left, right, sign, upto, end - 1);
        let r = right[end - 1];
        assert(left[end - 1] == (if end - 1 < upto {
            sign
        } else {
            0int
        }));
        assert(1 * r == r && 0 * r == 0 && (-1) * r == -r);
    }
}

/// An inner product with one entry raised.
pub proof fn inner_of_one_more(
    before: Seq<int>,
    after: Seq<int>,
    effects: Seq<int>,
    at: int,
    more: int,
    end: int,
)
    requires
        0 <= at,
        forall|i: int|
            0 <= i < end ==> #[trigger] after[i] == before[i] + (if i == at {
                more
            } else {
                0int
            }),
    ensures
        inner(after, effects, end) == inner(before, effects, end) + (if at < end {
            more * effects[at]
        } else {
            0
        }),
    decreases end,
{
    if end > 0 {
        inner_of_one_more(before, after, effects, at, more, end - 1);
        let b = before[end - 1];
        let e = effects[end - 1];
        assert((b + more) * e == b * e + more * e) by (nonlinear_arith);
        assert(after[end - 1] == b + (if end - 1 == at {
            more
        } else {
            0int
        }));
    }
}

} // verus!
