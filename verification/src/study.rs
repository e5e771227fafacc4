//! The arithmetic of an event study: everything that is computed in floating
//! point, from all that it depends on.

use crate::cone::ConeProgram;
use crate::constraints::Coefficient;
use crate::errors::HonestError;
use crate::matrix;
use crate::moments::TestArithmetic;
use crate::number::Real;
use crate::programs::ProgramAnswer;
use crate::smoothness_intervals;
use crate::types::{HonestOriginalConfidenceSet, InferenceConfig};
use vstd::prelude::*;

verus! {

/// The arithmetic of the sets of an event study. Every operation is handed all
/// that its answer depends on.
pub trait StudyArithmetic {
    /// The arithmetic of the tests.
    type Tests: TestArithmetic;

    /// The arithmetic of fixed-length intervals.
    type Intervals: IntervalArithmetic;

    /// Whether it can be asked.
    spec fn ready(&self) -> bool;

    /// The arithmetic of the tests.
    spec fn tester(&self) -> Self::Tests;

    /// The arithmetic of fixed-length intervals.
    spec fn framer(&self) -> Self::Intervals;

    /// Whether a functional has this confidence set under parallel trends.
    spec fn measures(
        &self,
        weights: Vec<Real>,
        betas: Vec<Real>,
        block: Vec<Vec<Real>>,
        inference: InferenceConfig,
        set: HonestOriginalConfidenceSet,
    ) -> bool;

    /// Whether two vectors have this inner product.
    spec fn produces(&self, left: Vec<Real>, right: Vec<Real>, product: Real) -> bool;

    /// Whether this is left of an estimate when a violation is taken off.
    spec fn shifts(&self, estimate: Real, violation: Real, left: Real) -> bool;

    /// Whether a coefficient has this number at a bound.
    spec fn evaluates(&self, coefficient: Coefficient, bound: Real, value: Real) -> bool;

    /// Whether this is a matrix times a vector.
    spec fn multiplies(&self, rows: Vec<Vec<Real>>, vector: Vec<Real>, values: Vec<Real>) -> bool;

    /// Whether the values of rows have this covariance.
    spec fn covaries(
        &self,
        rows: Vec<Vec<Real>>,
        covariance: Vec<Vec<Real>>,
        sigma: Vec<Vec<Real>>,
    ) -> bool;

    /// Whether a number has this square root.
    spec fn roots(&self, value: Real, root: Real) -> bool;

    /// Whether this is a row times a matrix.
    spec fn projects(&self, matrix: Vec<Vec<Real>>, row: Vec<Real>, projected: Vec<Real>) -> bool;

    /// Whether a square matrix has this inverse.
    spec fn inverts(&self, rows: Vec<Vec<Real>>, inverse: Result<Vec<Vec<Real>>, String>) -> bool;

    /// Whether a program has this answer, under plain or under looser settings.
    spec fn answers(
        &self,
        program: ConeProgram,
        loose: bool,
        answer: Result<ProgramAnswer<Vec<Real>>, String>,
    ) -> bool;

    /// Whether a standard error has this padding.
    spec fn pads(&self, se: Real, padding: Real) -> bool;

    /// Whether this is a value less a padding.
    spec fn lowers(&self, value: Real, padding: Real, lower: Real) -> bool;

    /// Whether this is a value plus a padding.
    spec fn lifts(&self, value: Real, padding: Real, upper: Real) -> bool;

    /// Whether a point of an even grid lies there.
    spec fn places(&self, lb: Real, ub: Real, idx: usize, steps: usize, point: Real) -> bool;

    /// Whether grid points lie so far from a value.
    spec fn lies_off(&self, grid: Vec<Real>, value: Real, gaps: Vec<Real>) -> bool;

    /// Whether this is the middle of two values.
    spec fn halves(&self, low: Real, high: Real, mid: Real) -> bool;

    /// Whether the slope changes so over three values in a row.
    spec fn bends(&self, before: Real, at: Real, after: Real, change: Real) -> bool;

    /// Whether a number is raised to this.
    spec fn raises(&self, value: Real, raised: Real) -> bool;

    /// Whether the values of constraint rows exceed their bounds by this.
    spec fn exceeds(
        &self,
        rows: Vec<Vec<Real>>,
        bounds: Vec<Real>,
        betahat: Vec<Real>,
        moments: Vec<Real>,
    ) -> bool;

    /// The arithmetic of the tests.
    fn tests(&self) -> (tests: &Self::Tests)
        requires
            self.ready(),
        ensures
            *tests == self.tester(),
            tests.ready(),
    ;

    /// The arithmetic of fixed-length intervals.
    fn intervals(&self) -> (intervals: &Self::Intervals)
        requires
            self.ready(),
        ensures
            *intervals == self.framer(),
            intervals.ready(),
    ;

    /// Confidence set of a functional under parallel trends, from the
    /// coefficients and covariances of the post periods.
    fn measure(
        &self,
        weights: &Vec<Real>,
        betas: &Vec<Real>,
        block: &Vec<Vec<Real>>,
        inference: InferenceConfig,
    ) -> (set: HonestOriginalConfidenceSet)
        requires
            self.ready(),
        ensures
            self.measures(*weights, *betas, *block, inference, set),
    ;

    /// Inner product.
    fn product(&self, left: &Vec<Real>, right: &Vec<Real>) -> (product: Real)
        requires
            self.ready(),
        ensures
            self.produces(*left, *right, product),
    ;

    /// What is left of an estimate when a violation is taken off.
    fn shift(&self, estimate: Real, violation: Real) -> (left: Real)
        requires
            self.ready(),
        ensures
            self.shifts(estimate, violation, left),
    ;

    /// Number of a coefficient at a bound.
    fn value(&self, coefficient: Coefficient, bound: Real) -> (value: Real)
        requires
            self.ready(),
        ensures
            self.evaluates(coefficient, bound, value),
    ;

    /// A matrix times a vector.
    fn multiply(&self, rows: &Vec<Vec<Real>>, vector: &Vec<Real>) -> (values: Vec<Real>)
        requires
            self.ready(),
        ensures
            self.multiplies(*rows, *vector, values),
            values.len() == rows.len(),
    ;

    /// Covariance of the values of rows.
    fn sandwich(
        &self,
        rows: &Vec<Vec<Real>>,
        covariance: &Vec<Vec<Real>>,
    ) -> (sigma: Vec<Vec<Real>>)
        requires
            self.ready(),
        ensures
            self.covaries(*rows, *covariance, sigma),
            sigma.len() == rows.len() && matrix::has_cols(sigma@, rows.len() as int),
    ;

    /// Square root.
    fn root(&self, value: Real) -> (root: Real)
        requires
            self.ready(),
        ensures
            self.roots(value, root),
    ;

    /// A row times a matrix.
    fn project(&self, matrix: &Vec<Vec<Real>>, row: &Vec<Real>) -> (projected: Vec<Real>)
        requires
            self.ready(),
        ensures
            self.projects(*matrix, *row, projected),
            projected.len() == row.len(),
    ;

    /// Inverse of a square matrix.
    fn invert(&self, rows: &Vec<Vec<Real>>) -> (inverse: Result<Vec<Vec<Real>>, String>)
        requires
            self.ready(),
        ensures
            self.inverts(*rows, inverse),
    ;

    /// Status and solution of a program, under plain or under looser settings.
    fn program(
        &self,
        program: &ConeProgram,
        loose: bool,
    ) -> (answer: Result<ProgramAnswer<Vec<Real>>, String>)
        requires
            self.ready(),
        ensures
            self.answers(*program, loose, answer),
            answer matches Ok(found) ==> found.found.len() == program.objective.len(),
    ;

    /// Padding of a grid for a standard error.
    fn pad(&self, se: Real) -> (padding: Real)
        requires
            self.ready(),
        ensures
            self.pads(se, padding),
    ;

    /// A value less a padding.
    fn below(&self, value: Real, padding: Real) -> (lower: Real)
        requires
            self.ready(),
        ensures
            self.lowers(value, padding, lower),
    ;

    /// A value plus a padding.
    fn above(&self, value: Real, padding: Real) -> (upper: Real)
        requires
            self.ready(),
        ensures
            self.lifts(value, padding, upper),
    ;

    /// Point of an even grid by its number among the steps.
    fn place(&self, lb: Real, ub: Real, idx: usize, steps: usize) -> (point: Real)
        requires
            self.ready(),
        ensures
            self.places(lb, ub, idx, steps, point),
    ;

    /// Distances of grid points from a value.
    fn distances(&self, grid: &Vec<Real>, value: Real) -> (gaps: Vec<Real>)
        requires
            self.ready(),
        ensures
            self.lies_off(*grid, value, gaps),
    ;

    /// Middle of two values.
    fn middle(&self, low: Real, high: Real) -> (mid: Real)
        requires
            self.ready(),
        ensures
            self.halves(low, high, mid),
    ;

    /// Change of slope over three values in a row.
    fn bend(&self, before: Real, at: Real, after: Real) -> (change: Real)
        requires
            self.ready(),
        ensures
            self.bends(before, at, after, change),
    ;

    /// A number raised by a small tolerance.
    fn raise(&self, value: Real) -> (raised: Real)
        requires
            self.ready(),
        ensures
            self.raises(value, raised),
    ;

    /// Values of constraint rows less their bounds.
    fn moments(
        &self,
        rows: &Vec<Vec<Real>>,
        bounds: &Vec<Real>,
        betahat: &Vec<Real>,
    ) -> (moments: Vec<Real>)
        requires
            self.ready(),
        ensures
            self.exceeds(*rows, *bounds, *betahat, moments),
            moments.len() == rows.len(),
    ;
}

/// [`StudyArithmetic`] by one function each.
pub struct StudyFunctions<Z, Y, A, B, C, D, E, F, G, H, I, J, K, L, M, N, O, P, Q, R, S> {
    /// The arithmetic of the tests.
    pub tests: Z,
    /// The arithmetic of fixed-length intervals.
    pub intervals: Y,
    /// Confidence set of a functional under parallel trends, from the
    /// coefficients and covariances of the post periods.
    pub measure: A,
    /// Inner product.
    pub product: B,
    /// What is left of an estimate when a violation is taken off.
    pub shift: C,
    /// Number of a coefficient at a bound.
    pub value: D,
    /// A matrix times a vector.
    pub multiply: E,
    /// Covariance of the values of rows.
    pub sandwich: F,
    /// Square root.
    pub root: G,
    /// A row times a matrix.
    pub project: H,
    /// Inverse of a square matrix.
    pub invert: I,
    /// Status and solution of a program, under plain or under looser settings.
    pub program: J,
    /// Padding of a grid for a standard error.
    pub pad: K,
    /// A value less a padding.
    pub below: L,
    /// A value plus a padding.
    pub above: M,
    /// Point of an even grid by its number among the steps.
    pub place: N,
    /// Distances of grid points from a value.
    pub distances: O,
    /// Middle of two values.
    pub middle: P,
    /// Change of slope over three values in a row.
    pub bend: Q,
    /// A number raised by a small tolerance.
    pub raise: R,
    /// Values of constraint rows less their bounds.
    pub moments: S,
}

impl<
    Z: TestArithmetic,
    Y: IntervalArithmetic,
    A: Fn(&Vec<Real>, &Vec<Real>, &Vec<Vec<Real>>, InferenceConfig) -> HonestOriginalConfidenceSet,
    B: Fn(&Vec<Real>, &Vec<Real>) -> Real,
    C: Fn(Real, Real) -> Real,
    D: Fn(Coefficient, Real) -> Real,
    E: Fn(&Vec<Vec<Real>>, &Vec<Real>) -> Vec<Real>,
    F: Fn(&Vec<Vec<Real>>, &Vec<Vec<Real>>) -> Vec<Vec<Real>>,
    G: Fn(Real) -> Real,
    H: Fn(&Vec<Vec<Real>>, &Vec<Real>) -> Vec<Real>,
    I: Fn(&Vec<Vec<Real>>) -> Result<Vec<Vec<Real>>, String>,
    J: Fn(&ConeProgram, bool) -> Result<ProgramAnswer<Vec<Real>>, String>,
    K: Fn(Real) -> Real,
    L: Fn(Real, Real) -> Real,
    M: Fn(Real, Real) -> Real,
    N: Fn(Real, Real, usize, usize) -> Real,
    O: Fn(&Vec<Real>, Real) -> Vec<Real>,
    P: Fn(Real, Real) -> Real,
    Q: Fn(Real, Real, Real) -> Real,
    R: Fn(Real) -> Real,
    S: Fn(&Vec<Vec<Real>>, &Vec<Real>, &Vec<Real>) -> Vec<Real>,
> StudyArithmetic for StudyFunctions<Z, Y, A, B, C, D, E, F, G, H, I, J, K, L, M, N, O, P, Q, R, S> {
    type Tests = Z;

    type Intervals = Y;

    open spec fn ready(&self) -> bool {
        &&& self.tests.ready()
        &&& self.intervals.ready()
        &&& forall|
            weights: Vec<Real>,
            betas: Vec<Real>,
            block: Vec<Vec<Real>>,
            inference: InferenceConfig,
        | #[trigger]
            call_requires(self.measure, (&weights, &betas, &block, inference))
        &&& forall|left: Vec<Real>, right: Vec<Real>| #[trigger]
            call_requires(self.product, (&left, &right))
        &&& forall|estimate: Real, violation: Real| #[trigger]
            call_requires(self.shift, (estimate, violation))
        &&& forall|coefficient: Coefficient, bound: Real| #[trigger]
            call_requires(self.value, (coefficient, bound))
        &&& forall|rows: Vec<Vec<Real>>, vector: Vec<Real>| #[trigger]
            call_requires(self.multiply, (&rows, &vector))
        &&& forall|rows: Vec<Vec<Real>>, vector: Vec<Real>, values: Vec<Real>| #[trigger]
            call_ensures(self.multiply, (&rows, &vector), values) ==> (values.len() == rows.len())
        &&& forall|rows: Vec<Vec<Real>>, covariance: Vec<Vec<Real>>| #[trigger]
            call_requires(self.sandwich, (&rows, &covariance))
        &&& forall|
            rows: Vec<Vec<Real>>,
            covariance: Vec<Vec<Real>>,
            sigma: Vec<Vec<Real>>,
        | #[trigger]
            call_ensures(self.sandwich, (&rows, &covariance), sigma) ==> (sigma.len() == rows.len() && matrix::has_cols(sigma@, rows.len() as int))
        &&& forall|value: Real| #[trigger]
            call_requires(self.root, (value,))
        &&& forall|matrix: Vec<Vec<Real>>, row: Vec<Real>| #[trigger]
            call_requires(self.project, (&matrix, &row))
        &&& forall|matrix: Vec<Vec<Real>>, row: Vec<Real>, projected: Vec<Real>| #[trigger]
            call_ensures(self.project, (&matrix, &row), projected) ==> (projected.len() == row.len())
        &&& forall|rows: Vec<Vec<Real>>| #[trigger]
            call_requires(self.invert, (&rows,))
        &&& forall|program: ConeProgram, loose: bool| #[trigger]
            call_requires(self.program, (&program, loose))
        &&& forall|
            program: ConeProgram,
            loose: bool,
            answer: Result<ProgramAnswer<Vec<Real>>, String>,
        | #[trigger]
            call_ensures(self.program, (&program, loose), answer) ==> (answer matches Ok(found) ==> found.found.len() == program.objective.len())
        &&& forall|se: Real| #[trigger]
            call_requires(self.pad, (se,))
        &&& forall|value: Real, padding: Real| #[trigger]
            call_requires(self.below, (value, padding))
        &&& forall|value: Real, padding: Real| #[trigger]
            call_requires(self.above, (value, padding))
        &&& forall|lb: Real, ub: Real, idx: usize, steps: usize| #[trigger]
            call_requires(self.place, (lb, ub, idx, steps))
        &&& forall|grid: Vec<Real>, value: Real| #[trigger]
            call_requires(self.distances, (&grid, value))
        &&& forall|low: Real, high: Real| #[trigger]
            call_requires(self.middle, (low, high))
        &&& forall|before: Real, at: Real, after: Real| #[trigger]
            call_requires(self.bend, (before, at, after))
        &&& forall|value: Real| #[trigger]
            call_requires(self.raise, (value,))
        &&& forall|rows: Vec<Vec<Real>>, bounds: Vec<Real>, betahat: Vec<Real>| #[trigger]
            call_requires(self.moments, (&rows, &bounds, &betahat))
        &&& forall|
            rows: Vec<Vec<Real>>,
            bounds: Vec<Real>,
            betahat: Vec<Real>,
            moments: Vec<Real>,
        | #[trigger]
            call_ensures(self.moments, (&rows, &bounds, &betahat), moments) ==> (moments.len() == rows.len())
    }

    open spec fn tester(&self) -> Z {
        self.tests
    }

    open spec fn framer(&self) -> Y {
        self.intervals
    }

    open spec fn measures(
        &self,
        weights: Vec<Real>,
        betas: Vec<Real>,
        block: Vec<Vec<Real>>,
        inference: InferenceConfig,
        set: HonestOriginalConfidenceSet,
    ) -> bool {
        call_ensures(self.measure, (&weights, &betas, &block, inference), set)
    }

    open spec fn produces(&self, left: Vec<Real>, right: Vec<Real>, product: Real) -> bool {
        call_ensures(self.product, (&left, &right), product)
    }

    open spec fn shifts(&self, estimate: Real, violation: Real, left: Real) -> bool {
        call_ensures(self.shift, (estimate, violation), left)
    }

    open spec fn evaluates(&self, coefficient: Coefficient, bound: Real, value: Real) -> bool {
        call_ensures(self.value, (coefficient, bound), value)
    }

    open spec fn multiplies(
        &self,
        rows: Vec<Vec<Real>>,
        vector: Vec<Real>,
        values: Vec<Real>,
    ) -> bool {
        call_ensures(self.multiply, (&rows, &vector), values)
    }

    open spec fn covaries(
        &self,
        rows: Vec<Vec<Real>>,
        covariance: Vec<Vec<Real>>,
        sigma: Vec<Vec<Real>>,
    ) -> bool {
        call_ensures(self.sandwich, (&rows, &covariance), sigma)
    }

    open spec fn roots(&self, value: Real, root: Real) -> bool {
        call_ensures(self.root, (value,), root)
    }

    open spec fn projects(
        &self,
        matrix: Vec<Vec<Real>>,
        row: Vec<Real>,
        projected: Vec<Real>,
    ) -> bool {
        call_ensures(self.project, (&matrix, &row), projected)
    }

    open spec fn inverts(
        &self,
        rows: Vec<Vec<Real>>,
        inverse: Result<Vec<Vec<Real>>, String>,
    ) -> bool {
        call_ensures(self.invert, (&rows,), inverse)
    }

    open spec fn answers(
        &self,
        program: ConeProgram,
        loose: bool,
        answer: Result<ProgramAnswer<Vec<Real>>, String>,
    ) -> bool {
        call_ensures(self.program, (&program, loose), answer)
    }

    open spec fn pads(&self, se: Real, padding: Real) -> bool {
        call_ensures(self.pad, (se,), padding)
    }

    open spec fn lowers(&self, value: Real, padding: Real, lower: Real) -> bool {
        call_ensures(self.below, (value, padding), lower)
    }

    open spec fn lifts(&self, value: Real, padding: Real, upper: Real) -> bool {
        call_ensures(self.above, (value, padding), upper)
    }

    open spec fn places(&self, lb: Real, ub: Real, idx: usize, steps: usize, point: Real) -> bool {
        call_ensures(self.place, (lb, ub, idx, steps), point)
    }

    open spec fn lies_off(&self, grid: Vec<Real>, value: Real, gaps: Vec<Real>) -> bool {
        call_ensures(self.distances, (&grid, value), gaps)
    }

    open spec fn halves(&self, low: Real, high: Real, mid: Real) -> bool {
        call_ensures(self.middle, (low, high), mid)
    }

    open spec fn bends(&self, before: Real, at: Real, after: Real, change: Real) -> bool {
        call_ensures(self.bend, (before, at, after), change)
    }

    open spec fn raises(&self, value: Real, raised: Real) -> bool {
        call_ensures(self.raise, (value,), raised)
    }

    open spec fn exceeds(
        &self,
        rows: Vec<Vec<Real>>,
        bounds: Vec<Real>,
        betahat: Vec<Real>,
        moments: Vec<Real>,
    ) -> bool {
        call_ensures(self.moments, (&rows, &bounds, &betahat), moments)
    }

    fn tests(&self) -> (tests: &Z) {
        &self.tests
    }

    fn intervals(&self) -> (intervals: &Y) {
        &self.intervals
    }

    fn measure(
        &self,
        weights: &Vec<Real>,
        betas: &Vec<Real>,
        block: &Vec<Vec<Real>>,
        inference: InferenceConfig,
    ) -> (set: HonestOriginalConfidenceSet) {
        (self.measure)(weights, betas, block, inference)
    }

    fn product(&self, left: &Vec<Real>, right: &Vec<Real>) -> (product: Real) {
        (self.product)(left, right)
    }

    fn shift(&self, estimate: Real, violation: Real) -> (left: Real) {
        (self.shift)(estimate, violation)
    }

    fn value(&self, coefficient: Coefficient, bound: Real) -> (value: Real) {
        (self.value)(coefficient, bound)
    }

    fn multiply(&self, rows: &Vec<Vec<Real>>, vector: &Vec<Real>) -> (values: Vec<Real>) {
        (self.multiply)(rows, vector)
    }

    fn sandwich(
        &self,
        rows: &Vec<Vec<Real>>,
        covariance: &Vec<Vec<Real>>,
    ) -> (sigma: Vec<Vec<Real>>) {
        (self.sandwich)(rows, covariance)
    }

    fn root(&self, value: Real) -> (root: Real) {
        (self.root)(value)
    }

    fn project(&self, matrix: &Vec<Vec<Real>>, row: &Vec<Real>) -> (projected: Vec<Real>) {
        (self.project)(matrix, row)
    }

    fn invert(&self, rows: &Vec<Vec<Real>>) -> (inverse: Result<Vec<Vec<Real>>, String>) {
        (self.invert)(rows)
    }

    fn program(
        &self,
        program: &ConeProgram,
        loose: bool,
    ) -> (answer: Result<ProgramAnswer<Vec<Real>>, String>) {
        (self.program)(program, loose)
    }

    fn pad(&self, se: Real) -> (padding: Real) {
        (self.pad)(se)
    }

    fn below(&self, value: Real, padding: Real) -> (lower: Real) {
        (self.below)(value, padding)
    }

    fn above(&self, value: Real, padding: Real) -> (upper: Real) {
        (self.above)(value, padding)
    }

    fn place(&self, lb: Real, ub: Real, idx: usize, steps: usize) -> (point: Real) {
        (self.place)(lb, ub, idx, steps)
    }

    fn distances(&self, grid: &Vec<Real>, value: Real) -> (gaps: Vec<Real>) {
        (self.distances)(grid, value)
    }

    fn middle(&self, low: Real, high: Real) -> (mid: Real) {
        (self.middle)(low, high)
    }

    fn bend(&self, before: Real, at: Real, after: Real) -> (change: Real) {
        (self.bend)(before, at, after)
    }

    fn raise(&self, value: Real) -> (raised: Real) {
        (self.raise)(value)
    }

    fn moments(
        &self,
        rows: &Vec<Vec<Real>>,
        bounds: &Vec<Real>,
        betahat: &Vec<Real>,
    ) -> (moments: Vec<Real>) {
        (self.moments)(rows, bounds, betahat)
    }
}

/// The arithmetic of fixed-length intervals. Every operation is handed all that
/// its answer depends on.
pub trait IntervalArithmetic {
    /// Whether it can be asked.
    spec fn ready(&self) -> bool;

    /// Whether a vector has this norm.
    spec fn norms(&self, values: Vec<Real>, norm: Real) -> bool;

    /// Whether this is left of a squared bound when a square is taken off.
    spec fn squares(&self, h: Real, fixed: Real, left: Real) -> bool;

    /// Whether two numbers have this difference.
    spec fn differs(&self, left: Real, right: Real, difference: Real) -> bool;

    /// Whether the magnitudes of the running sums stand for this bias.
    spec fn biases(&self, weights: Vec<Real>, magnitudes: Vec<Real>, bias: Real) -> bool;

    /// Whether an estimator has this standard deviation.
    spec fn spreads(&self, covariance: Vec<Vec<Real>>, estimator: Vec<Real>, spread: Real) -> bool;

    /// Whether a standard deviation of the grid is this.
    spec fn steps(&self, low: Real, high: Real, points: usize, idx: usize, h: Real) -> bool;

    /// Whether two numbers have this product.
    spec fn scales(&self, factor: Real, value: Real, scaled: Real) -> bool;

    /// Whether this is one less a number.
    spec fn complements(&self, value: Real, rest: Real) -> bool;

    /// Whether two numbers have this ratio.
    spec fn relates(&self, value: Real, unit: Real, ratio: Real) -> bool;

    /// Whether this is the upper end above a mean.
    spec fn starts(&self, mu: Real, start: Real) -> bool;

    /// Whether the distribution has this value.
    spec fn distributes(&self, mu: Real, q: Real, value: Real) -> bool;

    /// Whether this is twice a number.
    spec fn doubles(&self, value: Real, twice: Real) -> bool;

    /// Whether this is the middle of a bracket.
    spec fn centers(&self, low: Real, high: Real, mid: Real) -> bool;

    /// Whether an interval around an estimator's value has these ends.
    spec fn ends_at(
        &self,
        betahat: Vec<Real>,
        estimator: Vec<Real>,
        half: Real,
        ends: (Real, Real),
    ) -> bool;

    /// Whether the weights, each counted by its place, have this sum.
    spec fn sums(&self, weights: Vec<Real>, total: Real) -> bool;

    /// Whether a covariance has this factor.
    spec fn factors(
        &self,
        covariance: Vec<Vec<Real>>,
        lower: Result<Vec<Vec<Real>>, String>,
    ) -> bool;

    /// Whether this is an entry less the next one.
    spec fn lessens(&self, entry: Real, next: Option<Real>, left: Real) -> bool;

    /// Whether this is a sum plus a product.
    spec fn accumulates(&self, sum: Real, left: Real, right: Real, total: Real) -> bool;

    /// Whether a size has this configuration.
    spec fn configures(&self, size: Real, inference: InferenceConfig) -> bool;

    /// Whether a square system has this solution.
    spec fn solves(
        &self,
        rows: Vec<Vec<Real>>,
        right: Vec<Real>,
        solution: Result<Vec<Real>, HonestError>,
    ) -> bool;

    /// Whether a confidence level is known to lie strictly between zero and one.
    spec fn bounds_level(&self, level: Real, valid: bool) -> bool;

    /// Euclidean norm.
    fn norm(&self, values: &Vec<Real>) -> (norm: Real)
        requires
            self.ready(),
        ensures
            self.norms(*values, norm),
    ;

    /// What is left of a squared bound when a square is taken off.
    fn radius_square(&self, h: Real, fixed: Real) -> (left: Real)
        requires
            self.ready(),
        ensures
            self.squares(h, fixed, left),
    ;

    /// Difference of two numbers.
    fn difference(&self, left: Real, right: Real) -> (difference: Real)
        requires
            self.ready(),
        ensures
            self.differs(left, right, difference),
    ;

    /// Bias that the magnitudes of the running sums stand for, given the weights
    /// of the post periods.
    fn bias(&self, weights: &Vec<Real>, magnitudes: &Vec<Real>) -> (bias: Real)
        requires
            self.ready(),
        ensures
            self.biases(*weights, *magnitudes, bias),
    ;

    /// Standard deviation of an estimator.
    fn spread(&self, covariance: &Vec<Vec<Real>>, estimator: &Vec<Real>) -> (spread: Real)
        requires
            self.ready(),
        ensures
            self.spreads(*covariance, *estimator, spread),
    ;

    /// A standard deviation of the grid between two others.
    fn step(&self, low: Real, high: Real, points: usize, idx: usize) -> (h: Real)
        requires
            self.ready(),
        ensures
            self.steps(low, high, points, idx, h),
    ;

    /// Product of two numbers.
    fn scale(&self, factor: Real, value: Real) -> (scaled: Real)
        requires
            self.ready(),
        ensures
            self.scales(factor, value, scaled),
    ;

    /// One less a number.
    fn complement(&self, value: Real) -> (rest: Real)
        requires
            self.ready(),
        ensures
            self.complements(value, rest),
    ;

    /// Ratio of two numbers.
    fn ratio(&self, value: Real, unit: Real) -> (ratio: Real)
        requires
            self.ready(),
        ensures
            self.relates(value, unit, ratio),
    ;

    /// An upper end above the mean of the absolute value of a normal variable.
    fn start(&self, mu: Real) -> (start: Real)
        requires
            self.ready(),
        ensures
            self.starts(mu, start),
            Real::zero_spec().lt(start),
    ;

    /// Distribution of the absolute value of a normal variable with unit variance.
    fn distribution(&self, mu: Real, q: Real) -> (value: Real)
        requires
            self.ready(),
        ensures
            self.distributes(mu, q, value),
    ;

    /// Twice a number.
    fn double(&self, value: Real) -> (twice: Real)
        requires
            self.ready(),
        ensures
            self.doubles(value, twice),
            Real::zero_spec().lt(value) ==> value.le(twice) && (value.le(smoothness_intervals::limit_spec()) ==> value.lt(twice)),
    ;

    /// Middle of a bracket.
    fn center(&self, low: Real, high: Real) -> (mid: Real)
        requires
            self.ready(),
        ensures
            self.centers(low, high, mid),
    ;

    /// Interval around an estimator's value.
    fn ends(&self, betahat: &Vec<Real>, estimator: &Vec<Real>, half: Real) -> (ends: (Real, Real))
        requires
            self.ready(),
        ensures
            self.ends_at(*betahat, *estimator, half, ends),
    ;

    /// The weights of the post periods, each counted by its place.
    fn weighted_sum(&self, weights: &Vec<Real>) -> (total: Real)
        requires
            self.ready(),
        ensures
            self.sums(*weights, total),
    ;

    /// Lower triangular factor of a covariance.
    fn factor(&self, covariance: &Vec<Vec<Real>>) -> (lower: Result<Vec<Vec<Real>>, String>)
        requires
            self.ready(),
        ensures
            self.factors(*covariance, lower),
            lower matches Ok(found) ==> matrix::has_cols(found@, covariance.len() as int) && found.len() == covariance.len(),
    ;

    /// An entry less the next one, where there is one.
    fn less(&self, entry: Real, next: Option<Real>) -> (left: Real)
        requires
            self.ready(),
        ensures
            self.lessens(entry, next, left),
    ;

    /// A sum plus a product.
    fn accumulate(&self, sum: Real, left: Real, right: Real) -> (total: Real)
        requires
            self.ready(),
        ensures
            self.accumulates(sum, left, right, total),
    ;

    /// The configuration whose level is one less a size.
    fn at_size(&self, size: Real) -> (inference: InferenceConfig)
        requires
            self.ready(),
        ensures
            self.configures(size, inference),
    ;

    /// Solution of a square system.
    fn solve_system(
        &self,
        rows: &Vec<Vec<Real>>,
        right: &Vec<Real>,
    ) -> (solution: Result<Vec<Real>, HonestError>)
        requires
            self.ready(),
        ensures
            self.solves(*rows, *right, solution),
    ;

    /// Whether a confidence level lies strictly between zero and one.
    fn is_level(&self, level: Real) -> (valid: bool)
        requires
            self.ready(),
        ensures
            self.bounds_level(level, valid),
    ;
}

/// [`IntervalArithmetic`] by one function each.
pub struct IntervalFunctions<A, B, C, D, E, F, G, H, I, J, K, L, M, N, O, P, Q, R, S, T, U> {
    /// Euclidean norm.
    pub norm: A,
    /// What is left of a squared bound when a square is taken off.
    pub radius_square: B,
    /// Difference of two numbers.
    pub difference: C,
    /// Bias that the magnitudes of the running sums stand for, given the weights
    /// of the post periods.
    pub bias: D,
    /// Standard deviation of an estimator.
    pub spread: E,
    /// A standard deviation of the grid between two others.
    pub step: F,
    /// Product of two numbers.
    pub scale: G,
    /// One less a number.
    pub complement: H,
    /// Ratio of two numbers.
    pub ratio: I,
    /// An upper end above the mean of the absolute value of a normal variable.
    pub start: J,
    /// Distribution of the absolute value of a normal variable with unit variance.
    pub distribution: K,
    /// Twice a number.
    pub double: L,
    /// Middle of a bracket.
    pub center: M,
    /// Interval around an estimator's value.
    pub ends: N,
    /// The weights of the post periods, each counted by its place.
    pub weighted_sum: O,
    /// Lower triangular factor of a covariance.
    pub factor: P,
    /// An entry less the next one, where there is one.
    pub less: Q,
    /// A sum plus a product.
    pub accumulate: R,
    /// The configuration whose level is one less a size.
    pub at_size: S,
    /// Solution of a square system.
    pub solve_system: T,
    /// Whether a confidence level lies strictly between zero and one.
    pub is_level: U,
}

impl<
    A: Fn(&Vec<Real>) -> Real,
    B: Fn(Real, Real) -> Real,
    C: Fn(Real, Real) -> Real,
    D: Fn(&Vec<Real>, &Vec<Real>) -> Real,
    E: Fn(&Vec<Vec<Real>>, &Vec<Real>) -> Real,
    F: Fn(Real, Real, usize, usize) -> Real,
    G: Fn(Real, Real) -> Real,
    H: Fn(Real) -> Real,
    I: Fn(Real, Real) -> Real,
    J: Fn(Real) -> Real,
    K: Fn(Real, Real) -> Real,
    L: Fn(Real) -> Real,
    M: Fn(Real, Real) -> Real,
    N: Fn(&Vec<Real>, &Vec<Real>, Real) -> (Real, Real),
    O: Fn(&Vec<Real>) -> Real,
    P: Fn(&Vec<Vec<Real>>) -> Result<Vec<Vec<Real>>, String>,
    Q: Fn(Real, Option<Real>) -> Real,
    R: Fn(Real, Real, Real) -> Real,
    S: Fn(Real) -> InferenceConfig,
    T: Fn(&Vec<Vec<Real>>, &Vec<Real>) -> Result<Vec<Real>, HonestError>,
    U: Fn(Real) -> bool,
> IntervalArithmetic for IntervalFunctions<A, B, C, D, E, F, G, H, I, J, K, L, M, N, O, P, Q, R, S, T, U> {
    open spec fn ready(&self) -> bool {
        &&& forall|values: Vec<Real>| #[trigger]
            call_requires(self.norm, (&values,))
        &&& forall|h: Real, fixed: Real| #[trigger]
            call_requires(self.radius_square, (h, fixed))
        &&& forall|left: Real, right: Real| #[trigger]
            call_requires(self.difference, (left, right))
        &&& forall|weights: Vec<Real>, magnitudes: Vec<Real>| #[trigger]
            call_requires(self.bias, (&weights, &magnitudes))
        &&& forall|covariance: Vec<Vec<Real>>, estimator: Vec<Real>| #[trigger]
            call_requires(self.spread, (&covariance, &estimator))
        &&& forall|low: Real, high: Real, points: usize, idx: usize| #[trigger]
            call_requires(self.step, (low, high, points, idx))
        &&& forall|factor: Real, value: Real| #[trigger]
            call_requires(self.scale, (factor, value))
        &&& forall|value: Real| #[trigger]
            call_requires(self.complement, (value,))
        &&& forall|value: Real, unit: Real| #[trigger]
            call_requires(self.ratio, (value, unit))
        &&& forall|mu: Real| #[trigger]
            call_requires(self.start, (mu,))
        &&& forall|mu: Real, start: Real| #[trigger]
            call_ensures(self.start, (mu,), start) ==> (Real::zero_spec().lt(start))
        &&& forall|mu: Real, q: Real| #[trigger]
            call_requires(self.distribution, (mu, q))
        &&& forall|value: Real| #[trigger]
            call_requires(self.double, (value,))
        &&& forall|value: Real, twice: Real| #[trigger]
            call_ensures(self.double, (value,), twice) ==> (Real::zero_spec().lt(value) ==> value.le(twice) && (value.le(smoothness_intervals::limit_spec()) ==> value.lt(twice)))
        &&& forall|low: Real, high: Real| #[trigger]
            call_requires(self.center, (low, high))
        &&& forall|betahat: Vec<Real>, estimator: Vec<Real>, half: Real| #[trigger]
            call_requires(self.ends, (&betahat, &estimator, half))
        &&& forall|weights: Vec<Real>| #[trigger]
            call_requires(self.weighted_sum, (&weights,))
        &&& forall|covariance: Vec<Vec<Real>>| #[trigger]
            call_requires(self.factor, (&covariance,))
        &&& forall|covariance: Vec<Vec<Real>>, lower: Result<Vec<Vec<Real>>, String>| #[trigger]
            call_ensures(self.factor, (&covariance,), lower) ==> (lower matches Ok(found) ==> matrix::has_cols(found@, covariance.len() as int) && found.len() == covariance.len())
        &&& forall|entry: Real, next: Option<Real>| #[trigger]
            call_requires(self.less, (entry, next))
        &&& forall|sum: Real, left: Real, right: Real| #[trigger]
            call_requires(self.accumulate, (sum, left, right))
        &&& forall|size: Real| #[trigger]
            call_requires(self.at_size, (size,))
        &&& forall|rows: Vec<Vec<Real>>, right: Vec<Real>| #[trigger]
            call_requires(self.solve_system, (&rows, &right))
        &&& forall|level: Real| #[trigger]
            call_requires(self.is_level, (level,))
    }

    open spec fn norms(&self, values: Vec<Real>, norm: Real) -> bool {
        call_ensures(self.norm, (&values,), norm)
    }

    open spec fn squares(&self, h: Real, fixed: Real, left: Real) -> bool {
        call_ensures(self.radius_square, (h, fixed), left)
    }

    open spec fn differs(&self, left: Real, right: Real, difference: Real) -> bool {
        call_ensures(self.difference, (left, right), difference)
    }

    open spec fn biases(&self, weights: Vec<Real>, magnitudes: Vec<Real>, bias: Real) -> bool {
        call_ensures(self.bias, (&weights, &magnitudes), bias)
    }

    open spec fn spreads(
        &self,
        covariance: Vec<Vec<Real>>,
        estimator: Vec<Real>,
        spread: Real,
    ) -> bool {
        call_ensures(self.spread, (&covariance, &estimator), spread)
    }

    open spec fn steps(&self, low: Real, high: Real, points: usize, idx: usize, h: Real) -> bool {
        call_ensures(self.step, (low, high, points, idx), h)
    }

    open spec fn scales(&self, factor: Real, value: Real, scaled: Real) -> bool {
        call_ensures(self.scale, (factor, value), scaled)
    }

    open spec fn complements(&self, value: Real, rest: Real) -> bool {
        call_ensures(self.complement, (value,), rest)
    }

    open spec fn relates(&self, value: Real, unit: Real, ratio: Real) -> bool {
        call_ensures(self.ratio, (value, unit), ratio)
    }

    open spec fn starts(&self, mu: Real, start: Real) -> bool {
        call_ensures(self.start, (mu,), start)
    }

    open spec fn distributes(&self, mu: Real, q: Real, value: Real) -> bool {
        call_ensures(self.distribution, (mu, q), value)
    }

    open spec fn doubles(&self, value: Real, twice: Real) -> bool {
        call_ensures(self.double, (value,), twice)
    }

    open spec fn centers(&self, low: Real, high: Real, mid: Real) -> bool {
        call_ensures(self.center, (low, high), mid)
    }

    open spec fn ends_at(
        &self,
        betahat: Vec<Real>,
        estimator: Vec<Real>,
        half: Real,
        ends: (Real, Real),
    ) -> bool {
        call_ensures(self.ends, (&betahat, &estimator, half), ends)
    }

    open spec fn sums(&self, weights: Vec<Real>, total: Real) -> bool {
        call_ensures(self.weighted_sum, (&weights,), total)
    }

    open spec fn factors(
        &self,
        covariance: Vec<Vec<Real>>,
        lower: Result<Vec<Vec<Real>>, String>,
    ) -> bool {
        call_ensures(self.factor, (&covariance,), lower)
    }

    open spec fn lessens(&self, entry: Real, next: Option<Real>, left: Real) -> bool {
        call_ensures(self.less, (entry, next), left)
    }

    open spec fn accumulates(&self, sum: Real, left: Real, right: Real, total: Real) -> bool {
        call_ensures(self.accumulate, (sum, left, right), total)
    }

    open spec fn configures(&self, size: Real, inference: InferenceConfig) -> bool {
        call_ensures(self.at_size, (size,), inference)
    }

    open spec fn solves(
        &self,
        rows: Vec<Vec<Real>>,
        right: Vec<Real>,
        solution: Result<Vec<Real>, HonestError>,
    ) -> bool {
        call_ensures(self.solve_system, (&rows, &right), solution)
    }

    open spec fn bounds_level(&self, level: Real, valid: bool) -> bool {
        call_ensures(self.is_level, (level,), valid)
    }

    fn norm(&self, values: &Vec<Real>) -> (norm: Real) {
        (self.norm)(values)
    }

    fn radius_square(&self, h: Real, fixed: Real) -> (left: Real) {
        (self.radius_square)(h, fixed)
    }

    fn difference(&self, left: Real, right: Real) -> (difference: Real) {
        (self.difference)(left, right)
    }

    fn bias(&self, weights: &Vec<Real>, magnitudes: &Vec<Real>) -> (bias: Real) {
        (self.bias)(weights, magnitudes)
    }

    fn spread(&self, covariance: &Vec<Vec<Real>>, estimator: &Vec<Real>) -> (spread: Real) {
        (self.spread)(covariance, estimator)
    }

    fn step(&self, low: Real, high: Real, points: usize, idx: usize) -> (h: Real) {
        (self.step)(low, high, points, idx)
    }

    fn scale(&self, factor: Real, value: Real) -> (scaled: Real) {
        (self.scale)(factor, value)
    }

    fn complement(&self, value: Real) -> (rest: Real) {
        (self.complement)(value)
    }

    fn ratio(&self, value: Real, unit: Real) -> (ratio: Real) {
        (self.ratio)(value, unit)
    }

    fn start(&self, mu: Real) -> (start: Real) {
        (self.start)(mu)
    }

    fn distribution(&self, mu: Real, q: Real) -> (value: Real) {
        (self.distribution)(mu, q)
    }

    fn double(&self, value: Real) -> (twice: Real) {
        (self.double)(value)
    }

    fn center(&self, low: Real, high: Real) -> (mid: Real) {
        (self.center)(low, high)
    }

    fn ends(&self, betahat: &Vec<Real>, estimator: &Vec<Real>, half: Real) -> (ends: (Real, Real)) {
        (self.ends)(betahat, estimator, half)
    }

    fn weighted_sum(&self, weights: &Vec<Real>) -> (total: Real) {
        (self.weighted_sum)(weights)
    }

    fn factor(&self, covariance: &Vec<Vec<Real>>) -> (lower: Result<Vec<Vec<Real>>, String>) {
        (self.factor)(covariance)
    }

    fn less(&self, entry: Real, next: Option<Real>) -> (left: Real) {
        (self.less)(entry, next)
    }

    fn accumulate(&self, sum: Real, left: Real, right: Real) -> (total: Real) {
        (self.accumulate)(sum, left, right)
    }

    fn at_size(&self, size: Real) -> (inference: InferenceConfig) {
        (self.at_size)(size)
    }

    fn solve_system(
        &self,
        rows: &Vec<Vec<Real>>,
        right: &Vec<Real>,
    ) -> (solution: Result<Vec<Real>, HonestError>) {
        (self.solve_system)(rows, right)
    }

    fn is_level(&self, level: Real) -> (valid: bool) {
        (self.is_level)(level)
    }
}

} // verus!
