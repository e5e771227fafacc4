//! The arithmetic of linear programs: everything that their solver computes in
//! floating point.

use crate::number::Real;
use vstd::prelude::*;

verus! {

/// The arithmetic of a linear program.
pub trait LpArithmetic {
    /// Whether it can be asked.
    spec fn ready(&self) -> bool;

    /// Whether two numbers have this quotient.
    spec fn divides(&self, left: Real, right: Real, quotient: Real) -> bool;

    /// Whether a number is lowered to this.
    spec fn lowers(&self, value: Real, lowered: Real) -> bool;

    /// Whether two numbers have this difference.
    spec fn subtracts(&self, left: Real, right: Real, difference: Real) -> bool;

    /// Whether this is a sum plus a product.
    spec fn accumulates(&self, sum: Real, left: Real, right: Real, total: Real) -> bool;

    /// Whether a cost is reduced to this.
    spec fn reduces(&self, cost: Real, column: Vec<Real>, duals: Vec<Real>, reduced: Real) -> bool;

    /// Whether two vectors have this inner product.
    spec fn produces(&self, left: Vec<Real>, right: Vec<Real>, product: Real) -> bool;

    /// Whether this is one over a number.
    spec fn inverts(&self, value: Real, inverse: Real) -> bool;

    /// Whether two numbers have this product.
    spec fn multiplies(&self, left: Real, right: Real, product: Real) -> bool;

    /// Whether this is a number less a product.
    spec fn eliminates(&self, value: Real, factor: Real, pivot: Real, left: Real) -> bool;

    /// Whether a vector has this sum.
    spec fn totals(&self, values: Vec<Real>, total: Real) -> bool;

    /// Whether a cost along a line is this.
    spec fn prices(&self, start: Real, slope: Real, at: Real, cost: Real) -> bool;

    /// Whether a reduced cost along a line reaches its tolerance there.
    spec fn limits(&self, start: Real, slope: Real, bound: Real) -> bool;

    /// Quotient of two numbers.
    fn divide(&self, left: Real, right: Real) -> (quotient: Real)
        requires
            self.ready(),
        ensures
            self.divides(left, right, quotient),
    ;

    /// A number lowered by the degeneracy tolerance.
    fn lower(&self, value: Real) -> (lowered: Real)
        requires
            self.ready(),
        ensures
            self.lowers(value, lowered),
    ;

    /// Difference of two numbers.
    fn subtract(&self, left: Real, right: Real) -> (difference: Real)
        requires
            self.ready(),
        ensures
            self.subtracts(left, right, difference),
    ;

    /// A sum plus a product.
    fn accumulate(&self, sum: Real, left: Real, right: Real) -> (total: Real)
        requires
            self.ready(),
        ensures
            self.accumulates(sum, left, right, total),
    ;

    /// A cost less the inner product of a column with the duals.
    fn reduce(&self, cost: Real, column: &Vec<Real>, duals: &Vec<Real>) -> (reduced: Real)
        requires
            self.ready(),
        ensures
            self.reduces(cost, *column, *duals, reduced),
    ;

    /// Inner product.
    fn product(&self, left: &Vec<Real>, right: &Vec<Real>) -> (product: Real)
        requires
            self.ready(),
        ensures
            self.produces(*left, *right, product),
    ;

    /// One over a number.
    fn reciprocal(&self, value: Real) -> (inverse: Real)
        requires
            self.ready(),
        ensures
            self.inverts(value, inverse),
    ;

    /// Product of two numbers.
    fn multiply(&self, left: Real, right: Real) -> (product: Real)
        requires
            self.ready(),
        ensures
            self.multiplies(left, right, product),
    ;

    /// A number less the product of two others.
    fn eliminate(&self, value: Real, factor: Real, pivot: Real) -> (left: Real)
        requires
            self.ready(),
        ensures
            self.eliminates(value, factor, pivot, left),
    ;

    /// Sum of a vector.
    fn total(&self, values: &Vec<Real>) -> (total: Real)
        requires
            self.ready(),
        ensures
            self.totals(*values, total),
    ;

    /// A cost along a line.
    fn cost(&self, start: Real, slope: Real, at: Real) -> (cost: Real)
        requires
            self.ready(),
        ensures
            self.prices(start, slope, at, cost),
    ;

    /// Where a reduced cost along a line reaches its tolerance.
    fn bound(&self, start: Real, slope: Real) -> (bound: Real)
        requires
            self.ready(),
        ensures
            self.limits(start, slope, bound),
    ;
}

/// [`LpArithmetic`] by one function each.
pub struct LpFunctions<A, B, C, D, E, F, G, H, I, J, K, L> {
    /// Quotient of two numbers.
    pub divide: A,
    /// A number lowered by the degeneracy tolerance.
    pub lower: B,
    /// Difference of two numbers.
    pub subtract: C,
    /// A sum plus a product.
    pub accumulate: D,
    /// A cost less the inner product of a column with the duals.
    pub reduce: E,
    /// Inner product.
    pub product: F,
    /// One over a number.
    pub reciprocal: G,
    /// Product of two numbers.
    pub multiply: H,
    /// A number less the product of two others.
    pub eliminate: I,
    /// Sum of a vector.
    pub total: J,
    /// A cost along a line.
    pub cost: K,
    /// Where a reduced cost along a line reaches its tolerance.
    pub bound: L,
}

impl<
    A: Fn(Real, Real) -> Real,
    B: Fn(Real) -> Real,
    C: Fn(Real, Real) -> Real,
    D: Fn(Real, Real, Real) -> Real,
    E: Fn(Real, &Vec<Real>, &Vec<Real>) -> Real,
    F: Fn(&Vec<Real>, &Vec<Real>) -> Real,
    G: Fn(Real) -> Real,
    H: Fn(Real, Real) -> Real,
    I: Fn(Real, Real, Real) -> Real,
    J: Fn(&Vec<Real>) -> Real,
    K: Fn(Real, Real, Real) -> Real,
    L: Fn(Real, Real) -> Real,
> LpArithmetic for LpFunctions<A, B, C, D, E, F, G, H, I, J, K, L> {
    open spec fn ready(&self) -> bool {
        &&& forall|left: Real, right: Real| #[trigger]
            call_requires(self.divide, (left, right))
        &&& forall|value: Real| #[trigger]
            call_requires(self.lower, (value,))
        &&& forall|left: Real, right: Real| #[trigger]
            call_requires(self.subtract, (left, right))
        &&& forall|sum: Real, left: Real, right: Real| #[trigger]
            call_requires(self.accumulate, (sum, left, right))
        &&& forall|cost: Real, column: Vec<Real>, duals: Vec<Real>| #[trigger]
            call_requires(self.reduce, (cost, &column, &duals))
        &&& forall|left: Vec<Real>, right: Vec<Real>| #[trigger]
            call_requires(self.product, (&left, &right))
        &&& forall|value: Real| #[trigger]
            call_requires(self.reciprocal, (value,))
        &&& forall|left: Real, right: Real| #[trigger]
            call_requires(self.multiply, (left, right))
        &&& forall|value: Real, factor: Real, pivot: Real| #[trigger]
            call_requires(self.eliminate, (value, factor, pivot))
        &&& forall|values: Vec<Real>| #[trigger]
            call_requires(self.total, (&values,))
        &&& forall|start: Real, slope: Real, at: Real| #[trigger]
            call_requires(self.cost, (start, slope, at))
        &&& forall|start: Real, slope: Real| #[trigger]
            call_requires(self.bound, (start, slope))
    }

    open spec fn divides(&self, left: Real, right: Real, quotient: Real) -> bool {
        call_ensures(self.divide, (left, right), quotient)
    }

    open spec fn lowers(&self, value: Real, lowered: Real) -> bool {
        call_ensures(self.lower, (value,), lowered)
    }

    open spec fn subtracts(&self, left: Real, right: Real, difference: Real) -> bool {
        call_ensures(self.subtract, (left, right), difference)
    }

    open spec fn accumulates(&self, sum: Real, left: Real, right: Real, total: Real) -> bool {
        call_ensures(self.accumulate, (sum, left, right), total)
    }

    open spec fn reduces(
        &self,
        cost: Real,
        column: Vec<Real>,
        duals: Vec<Real>,
        reduced: Real,
    ) -> bool {
        call_ensures(self.reduce, (cost, &column, &duals), reduced)
    }

    open spec fn produces(&self, left: Vec<Real>, right: Vec<Real>, product: Real) -> bool {
        call_ensures(self.product, (&left, &right), product)
    }

    open spec fn inverts(&self, value: Real, inverse: Real) -> bool {
        call_ensures(self.reciprocal, (value,), inverse)
    }

    open spec fn multiplies(&self, left: Real, right: Real, product: Real) -> bool {
        call_ensures(self.multiply, (left, right), product)
    }

    open spec fn eliminates(&self, value: Real, factor: Real, pivot: Real, left: Real) -> bool {
        call_ensures(self.eliminate, (value, factor, pivot), left)
    }

    open spec fn totals(&self, values: Vec<Real>, total: Real) -> bool {
        call_ensures(self.total, (&values,), total)
    }

    open spec fn prices(&self, start: Real, slope: Real, at: Real, cost: Real) -> bool {
        call_ensures(self.cost, (start, slope, at), cost)
    }

    open spec fn limits(&self, start: Real, slope: Real, bound: Real) -> bool {
        call_ensures(self.bound, (start, slope), bound)
    }

    fn divide(&self, left: Real, right: Real) -> (quotient: Real) {
        (self.divide)(left, right)
    }

    fn lower(&self, value: Real) -> (lowered: Real) {
        (self.lower)(value)
    }

    fn subtract(&self, left: Real, right: Real) -> (difference: Real) {
        (self.subtract)(left, right)
    }

    fn accumulate(&self, sum: Real, left: Real, right: Real) -> (total: Real) {
        (self.accumulate)(sum, left, right)
    }

    fn reduce(&self, cost: Real, column: &Vec<Real>, duals: &Vec<Real>) -> (reduced: Real) {
        (self.reduce)(cost, column, duals)
    }

    fn product(&self, left: &Vec<Real>, right: &Vec<Real>) -> (product: Real) {
        (self.product)(left, right)
    }

    fn reciprocal(&self, value: Real) -> (inverse: Real) {
        (self.reciprocal)(value)
    }

    fn multiply(&self, left: Real, right: Real) -> (product: Real) {
        (self.multiply)(left, right)
    }

    fn eliminate(&self, value: Real, factor: Real, pivot: Real) -> (left: Real) {
        (self.eliminate)(value, factor, pivot)
    }

    fn total(&self, values: &Vec<Real>) -> (total: Real) {
        (self.total)(values)
    }

    fn cost(&self, start: Real, slope: Real, at: Real) -> (cost: Real) {
        (self.cost)(start, slope, at)
    }

    fn bound(&self, start: Real, slope: Real) -> (bound: Real) {
        (self.bound)(start, slope)
    }
}

} // verus!
