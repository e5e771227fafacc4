//! Moments along the target parameter and the arithmetic of their tests.

use crate::errors::HonestError;
use crate::matrix;
use crate::number::Real;
use crate::smoothness_test::{HybridSlope, HybridStatistic, SmoothnessFlciHybridData};
use crate::theta_test::{ProgramSolution, RowTerm, Standardized};
use crate::vertices::VertexFit;
use vstd::prelude::*;

verus! {

/// Moments along the target parameter, with the programs that test them.
#[derive(Debug, PartialEq, Eq)]
pub struct Moments {
    /// Moments at a target of zero.
    pub y_base: Vec<Real>,
    /// Their slopes in the target.
    pub a_target: Vec<Real>,
    /// Design of the nuisance parameters.
    pub design: Vec<Vec<Real>>,
    /// Covariance of the moments.
    pub sigma: Vec<Vec<Real>>,
    /// Their standard deviations.
    pub sd: Vec<Real>,
    /// Rows of the dual program.
    pub w_t: Vec<Vec<Real>>,
}

impl Moments {
    /// Every moment has a slope, a standard deviation, a row of the dual program
    /// and a row of a design of one width.
    pub open spec fn shaped(self) -> bool {
        &&& self.a_target.len() == self.y_base.len()
        &&& self.design.len() == self.y_base.len()
        &&& self.sd.len() == self.y_base.len()
        &&& self.w_t.len() == self.y_base.len()
        &&& matrix::rectangular(self.design@)
        &&& matrix::first_width(self.design@) < usize::MAX
    }

    /// One more than the width of the design.
    pub open spec fn dim(self) -> int {
        matrix::first_width(self.design@) + 1
    }

    /// Whether `y` are the moments at a value of the target.
    pub open spec fn moved<T: TestArithmetic>(
        self,
        arithmetic: T,
        theta: Real,
        y: Seq<Real>,
    ) -> bool {
        &&& y.len() == self.y_base.len()
        &&& forall|i: int|
            0 <= i < y.len() ==> arithmetic.shifts(
                self.y_base@[i],
                self.a_target@[i],
                theta,
                #[trigger] y[i],
            )
    }

    /// The moments at a value of the target.
    pub fn at<T: TestArithmetic>(&self, theta: Real, arithmetic: &T) -> (y: Vec<Real>)
        requires
            self.shaped(),
            arithmetic.ready(),
        ensures
            self.moved(*arithmetic, theta, y@),
    {
        let mut y: Vec<Real> = Vec::new();
        let mut i: usize = 0;
        while i < self.y_base.len()
            invariant
                i <= self.y_base.len(),
                y.len() == i,
                self.shaped(),
                arithmetic.ready(),
                forall|k: int|
                    0 <= k < i ==> arithmetic.shifts(
                        self.y_base@[k],
                        self.a_target@[k],
                        theta,
                        #[trigger] y@[k],
                    ),
            decreases self.y_base.len() - i,
        {
            y.push(arithmetic.shift(self.y_base[i], self.a_target[i], theta));
            i = i + 1;
        }
        y
    }

    /// Width of the design.
    pub fn width(&self) -> (width: usize)
        requires
            self.shaped(),
        ensures
            width + 1 == self.dim(),
    {
        if self.design.len() == 0 {
            0
        } else {
            self.design[0].len()
        }
    }
}

/// At what level values are tested.
#[derive(Clone, Copy, Debug, PartialEq, Eq, Structural)]
pub struct TestLevel {
    /// Size of the test.
    pub alpha: Real,
    /// Size of its first stage.
    pub kappa: Real,
    /// Least-favorable critical value of the first stage.
    pub lf_cv: Real,
}

/// The arithmetic that the test of a value of the target parameter rests on.
/// Every operation is handed all that its answer depends on.
pub trait TestArithmetic {
    /// Whether it can be asked.
    spec fn ready(&self) -> bool;

    /// Whether a moment has this value at a value of the target.
    spec fn shifts(&self, base: Real, slope: Real, theta: Real, at: Real) -> bool;

    /// Whether the program of the moments has this solution.
    spec fn programs(
        &self,
        moments: Moments,
        y: Vec<Real>,
        solution: Option<ProgramSolution>,
    ) -> bool;

    /// Whether a row has this slack at the optimum.
    spec fn slacks(
        &self,
        y: Real,
        sd: Real,
        row: Vec<Real>,
        solution: ProgramSolution,
        slack: Real,
    ) -> bool;

    /// Whether a row-major square matrix has this inverse.
    spec fn inverts(&self, flat: Vec<Real>, dim: usize, inverse: Option<Vec<Real>>) -> bool;

    /// Whether this is the variance along a direction of binding rows.
    spec fn varies(&self, sigma: Vec<Vec<Real>>, direction: Vec<Real>, variance: Real) -> bool;

    /// Whether a row has these coefficients on the binding rows.
    spec fn combines(
        &self,
        sd: Real,
        row: Vec<Real>,
        inverse: Vec<Real>,
        coefficients: Vec<Real>,
    ) -> bool;

    /// Whether a contrast has this term against a direction.
    spec fn terms(
        &self,
        sigma: Vec<Vec<Real>>,
        y: Vec<Real>,
        contrast: Vec<Real>,
        direction: Vec<Real>,
        term: RowTerm,
    ) -> bool;

    /// Whether the second stage has this size, given that of the first.
    spec fn sizes(&self, alpha: Real, kappa: Real, size: Real) -> bool;

    /// Whether the statistic between truncation points is so many standard deviations.
    spec fn standardizes(
        &self,
        low: Real,
        high: Real,
        variance: Real,
        eta: Real,
        statistic: Standardized,
    ) -> bool;

    /// Whether a size has this critical value between two truncation points.
    spec fn quantiles(
        &self,
        size: Real,
        zlo: Real,
        zup: Real,
        critical: Result<Real, String>,
    ) -> bool;

    /// Whether a matrix has this rank.
    spec fn ranks(&self, rows: Vec<Vec<Real>>, rank: usize) -> bool;

    /// Whether the transposed system has this solution.
    spec fn transposes(
        &self,
        rows: Vec<Vec<Real>>,
        rhs: Vec<Real>,
        solution: Option<Vec<Real>>,
    ) -> bool;

    /// Whether multipliers fit the dual program at an optimum so well.
    spec fn fits(
        &self,
        moments: Moments,
        y: Vec<Real>,
        eta: Real,
        gamma: Vec<Real>,
        fit: VertexFit,
    ) -> bool;

    /// Whether this is the variance along multipliers.
    spec fn measures(&self, sigma: Vec<Vec<Real>>, gamma: Vec<Real>, variance: Real) -> bool;

    /// Whether the dual optimum misses a value by so much.
    spec fn misses(
        &self,
        moments: Moments,
        y: Vec<Real>,
        gamma: Vec<Real>,
        c: Real,
        by: Result<Real, HonestError>,
    ) -> bool;

    /// Whether two ends lie so far apart.
    spec fn spans(&self, high: Real, low: Real, width: Real) -> bool;

    /// Whether a value is the middle of two ends.
    spec fn halves_at(&self, high: Real, low: Real, mid: Real) -> bool;

    /// Whether a number is the square root of a value.
    spec fn roots(&self, value: Real, root: Real) -> bool;

    /// Whether a number lies twenty standard deviations below the statistic.
    spec fn starts_low(&self, eta: Real, sigma_b: Real, low: Real) -> bool;

    /// Whether a number lies twenty standard deviations above the statistic.
    spec fn starts_high(&self, eta: Real, sigma_b: Real, high: Real) -> bool;

    /// Whether this is the first stage by a fixed-length interval.
    spec fn first_stages(
        &self,
        data: SmoothnessFlciHybridData,
        y_full: Vec<Real>,
        theta: Real,
        statistic: HybridStatistic,
    ) -> bool;

    /// Whether the first stage moves so along multipliers of all moments.
    spec fn slopes(
        &self,
        data: SmoothnessFlciHybridData,
        sigma_full: Vec<Vec<Real>>,
        y_full: Vec<Real>,
        gamma_full: Vec<Real>,
        sigma_b2: Real,
        theta: Real,
        slope: HybridSlope,
    ) -> bool;

    /// Whether these are draws of the moments, one after the other.
    spec fn simulates(&self, moments: Moments, draws: Result<Vec<Real>, String>) -> bool;

    /// Whether the program of the moments has this optimum at a draw.
    spec fn optimizes(
        &self,
        moments: Moments,
        draw: Vec<Real>,
        optimum: Result<Option<Real>, String>,
    ) -> bool;

    /// Whether a place among others has reached the rank of a size, or not.
    spec fn places(&self, kappa: Real, last: usize, place: usize, reached: bool) -> bool;

    /// Whether an error has this message.
    spec fn describes(&self, error: HonestError, message: String) -> bool;

    /// A moment at a value of the target.
    fn shift(&self, base: Real, slope: Real, theta: Real) -> (at: Real)
        requires
            self.ready(),
        ensures
            self.shifts(base, slope, theta, at),
    ;

    /// Solves the program of the moments, where it can be solved.
    fn solve(&self, moments: &Moments, y: &Vec<Real>) -> (solution: Option<ProgramSolution>)
        requires
            self.ready(),
        ensures
            self.programs(*moments, *y, solution),
    ;

    /// Slack of a row at the optimum.
    fn slack(&self, y: Real, sd: Real, row: &Vec<Real>, solution: &ProgramSolution) -> (slack: Real)
        requires
            self.ready(),
        ensures
            self.slacks(y, sd, *row, *solution, slack),
    ;

    /// Inverts a row-major square matrix, where it has an inverse.
    fn invert(&self, flat: &Vec<Real>, dim: usize) -> (inverse: Option<Vec<Real>>)
        requires
            self.ready(),
        ensures
            self.inverts(*flat, dim, inverse),
    ;

    /// Variance along a direction of binding rows.
    fn variance(&self, sigma: &Vec<Vec<Real>>, direction: &Vec<Real>) -> (variance: Real)
        requires
            self.ready(),
        ensures
            self.varies(*sigma, *direction, variance),
    ;

    /// Coefficients of a row on the binding rows, by the inverse.
    fn coefficients(
        &self,
        sd: Real,
        row: &Vec<Real>,
        inverse: &Vec<Real>,
    ) -> (coefficients: Vec<Real>)
        requires
            self.ready(),
        ensures
            self.combines(sd, *row, *inverse, coefficients),
    ;

    /// Covariance and truncation point of a contrast against a direction.
    fn term(
        &self,
        sigma: &Vec<Vec<Real>>,
        y: &Vec<Real>,
        contrast: &Vec<Real>,
        direction: &Vec<Real>,
    ) -> (term: RowTerm)
        requires
            self.ready(),
        ensures
            self.terms(*sigma, *y, *contrast, *direction, term),
    ;

    /// Size of the second stage, given that of the first.
    fn size(&self, alpha: Real, kappa: Real) -> (size: Real)
        requires
            self.ready(),
        ensures
            self.sizes(alpha, kappa, size),
    ;

    /// The statistic between truncation points, in standard deviations.
    fn standardize(
        &self,
        low: Real,
        high: Real,
        variance: Real,
        eta: Real,
    ) -> (statistic: Standardized)
        requires
            self.ready(),
        ensures
            self.standardizes(low, high, variance, eta, statistic),
    ;

    /// Critical value of a size between two truncation points.
    fn quantile(&self, size: Real, zlo: Real, zup: Real) -> (critical: Result<Real, String>)
        requires
            self.ready(),
        ensures
            self.quantiles(size, zlo, zup, critical),
    ;

    /// Rank of a matrix.
    fn rank(&self, rows: &Vec<Vec<Real>>) -> (rank: usize)
        requires
            self.ready(),
        ensures
            self.ranks(*rows, rank),
    ;

    /// Solves the transposed system, where it can be solved.
    fn transposed(&self, rows: &Vec<Vec<Real>>, rhs: &Vec<Real>) -> (solution: Option<Vec<Real>>)
        requires
            self.ready(),
        ensures
            self.transposes(*rows, *rhs, solution),
    ;

    /// How well multipliers fit the dual program at an optimum.
    fn fit(
        &self,
        moments: &Moments,
        y: &Vec<Real>,
        eta: Real,
        gamma: &Vec<Real>,
    ) -> (fit: VertexFit)
        requires
            self.ready(),
        ensures
            self.fits(*moments, *y, eta, *gamma, fit),
    ;

    /// Variance along multipliers.
    fn along(&self, sigma: &Vec<Vec<Real>>, gamma: &Vec<Real>) -> (variance: Real)
        requires
            self.ready(),
        ensures
            self.measures(*sigma, *gamma, variance),
    ;

    /// By how much the dual optimum misses a value.
    fn miss(
        &self,
        moments: &Moments,
        y: &Vec<Real>,
        gamma: &Vec<Real>,
        c: Real,
    ) -> (by: Result<Real, HonestError>)
        requires
            self.ready(),
        ensures
            self.misses(*moments, *y, *gamma, c, by),
    ;

    /// How far two ends lie apart.
    fn width(&self, high: Real, low: Real) -> (width: Real)
        requires
            self.ready(),
        ensures
            self.spans(high, low, width),
    ;

    /// The middle of two ends.
    fn midpoint(&self, high: Real, low: Real) -> (mid: Real)
        requires
            self.ready(),
        ensures
            self.halves_at(high, low, mid),
    ;

    /// The square root.
    fn root(&self, value: Real) -> (root: Real)
        requires
            self.ready(),
        ensures
            self.roots(value, root),
    ;

    /// Twenty standard deviations below the statistic.
    fn below(&self, eta: Real, sigma_b: Real) -> (low: Real)
        requires
            self.ready(),
        ensures
            self.starts_low(eta, sigma_b, low),
    ;

    /// Twenty standard deviations above the statistic.
    fn above(&self, eta: Real, sigma_b: Real) -> (high: Real)
        requires
            self.ready(),
        ensures
            self.starts_high(eta, sigma_b, high),
    ;

    /// The first stage by a fixed-length interval.
    fn first_stage(
        &self,
        data: &SmoothnessFlciHybridData,
        y_full: &Vec<Real>,
        theta: Real,
    ) -> (statistic: HybridStatistic)
        requires
            self.ready(),
        ensures
            self.first_stages(*data, *y_full, theta, statistic),
    ;

    /// How the first stage moves along multipliers of all moments.
    fn slope(
        &self,
        data: &SmoothnessFlciHybridData,
        sigma_full: &Vec<Vec<Real>>,
        y_full: &Vec<Real>,
        gamma_full: &Vec<Real>,
        sigma_b2: Real,
        theta: Real,
    ) -> (slope: HybridSlope)
        requires
            self.ready(),
        ensures
            self.slopes(*data, *sigma_full, *y_full, *gamma_full, sigma_b2, theta, slope),
    ;

    /// Draws of the moments, one after the other.
    fn simulate(&self, moments: &Moments) -> (draws: Result<Vec<Real>, String>)
        requires
            self.ready(),
        ensures
            self.simulates(*moments, draws),
    ;

    /// Optimum of the program of the moments at a draw, where it can be solved.
    fn optimum(&self, moments: &Moments, draw: &Vec<Real>) -> (optimum: Result<
        Option<Real>,
        String,
    >)
        requires
            self.ready(),
        ensures
            self.optimizes(*moments, *draw, optimum),
    ;

    /// Whether a place among others has reached the rank of a size.
    fn reached(&self, kappa: Real, last: usize, place: usize) -> (reached: bool)
        requires
            self.ready(),
        ensures
            self.places(kappa, last, place, reached),
    ;

    /// The message of an error.
    fn describe(&self, error: &HonestError) -> (message: String)
        requires
            self.ready(),
        ensures
            self.describes(*error, message),
    ;
}

/// [`TestArithmetic`] by one function each.
pub struct TestFunctions<
    A,
    B,
    C,
    D,
    E,
    F,
    G,
    H,
    I,
    J,
    K,
    L,
    M,
    N,
    O,
    P,
    Q,
    R,
    S,
    T,
    U,
    V,
    W,
    X,
    Y,
    Z,
> {
    /// A moment at a value of the target.
    pub shift: A,
    /// Solves the program of the moments, where it can be solved.
    pub solve: B,
    /// Slack of a row at the optimum.
    pub slack: C,
    /// Inverts a row-major square matrix, where it has an inverse.
    pub invert: D,
    /// Variance along a direction of binding rows.
    pub variance: E,
    /// Coefficients of a row on the binding rows, by the inverse.
    pub coefficients: F,
    /// Covariance and truncation point of a contrast against a direction.
    pub term: G,
    /// Size of the second stage, given that of the first.
    pub size: H,
    /// The statistic between truncation points, in standard deviations.
    pub standardize: I,
    /// Critical value of a size between two truncation points.
    pub quantile: J,
    /// Rank of a matrix.
    pub rank: K,
    /// Solves the transposed system, where it can be solved.
    pub transposed: L,
    /// How well multipliers fit the dual program at an optimum.
    pub fit: M,
    /// Variance along multipliers.
    pub along: N,
    /// By how much the dual optimum misses a value.
    pub miss: O,
    /// How far two ends lie apart.
    pub width: P,
    /// The middle of two ends.
    pub midpoint: Q,
    /// The square root.
    pub root: R,
    /// Twenty standard deviations below the statistic.
    pub below: S,
    /// Twenty standard deviations above the statistic.
    pub above: T,
    /// The first stage by a fixed-length interval.
    pub first_stage: U,
    /// How the first stage moves along multipliers of all moments.
    pub slope: V,
    /// Draws of the moments, one after the other.
    pub simulate: W,
    /// Optimum of the program of the moments at a draw, where it can be solved.
    pub optimum: X,
    /// Whether a place among others has reached the rank of a size.
    pub reached: Y,
    /// The message of an error.
    pub describe: Z,
}

impl<
    A: Fn(Real, Real, Real) -> Real,
    B: Fn(&Moments, &Vec<Real>) -> Option<ProgramSolution>,
    C: Fn(Real, Real, &Vec<Real>, &ProgramSolution) -> Real,
    D: Fn(&Vec<Real>, usize) -> Option<Vec<Real>>,
    E: Fn(&Vec<Vec<Real>>, &Vec<Real>) -> Real,
    F: Fn(Real, &Vec<Real>, &Vec<Real>) -> Vec<Real>,
    G: Fn(&Vec<Vec<Real>>, &Vec<Real>, &Vec<Real>, &Vec<Real>) -> RowTerm,
    H: Fn(Real, Real) -> Real,
    I: Fn(Real, Real, Real, Real) -> Standardized,
    J: Fn(Real, Real, Real) -> Result<Real, String>,
    K: Fn(&Vec<Vec<Real>>) -> usize,
    L: Fn(&Vec<Vec<Real>>, &Vec<Real>) -> Option<Vec<Real>>,
    M: Fn(&Moments, &Vec<Real>, Real, &Vec<Real>) -> VertexFit,
    N: Fn(&Vec<Vec<Real>>, &Vec<Real>) -> Real,
    O: Fn(&Moments, &Vec<Real>, &Vec<Real>, Real) -> Result<Real, HonestError>,
    P: Fn(Real, Real) -> Real,
    Q: Fn(Real, Real) -> Real,
    R: Fn(Real) -> Real,
    S: Fn(Real, Real) -> Real,
    T: Fn(Real, Real) -> Real,
    U: Fn(&SmoothnessFlciHybridData, &Vec<Real>, Real) -> HybridStatistic,
    V: Fn(&SmoothnessFlciHybridData, &Vec<Vec<Real>>, &Vec<Real>, &Vec<Real>, Real, Real) -> HybridSlope,
    W: Fn(&Moments) -> Result<Vec<Real>, String>,
    X: Fn(&Moments, &Vec<Real>) -> Result<Option<Real>, String>,
    Y: Fn(Real, usize, usize) -> bool,
    Z: Fn(&HonestError) -> String,
> TestArithmetic for TestFunctions<
    A,
    B,
    C,
    D,
    E,
    F,
    G,
    H,
    I,
    J,
    K,
    L,
    M,
    N,
    O,
    P,
    Q,
    R,
    S,
    T,
    U,
    V,
    W,
    X,
    Y,
    Z,
> {
    open spec fn ready(&self) -> bool {
        &&& forall|base: Real, slope: Real, theta: Real| #[trigger]
            call_requires(self.shift, (base, slope, theta))
        &&& forall|moments: Moments, y: Vec<Real>| #[trigger]
            call_requires(self.solve, (&moments, &y))
        &&& forall|y: Real, sd: Real, row: Vec<Real>, solution: ProgramSolution| #[trigger]
            call_requires(self.slack, (y, sd, &row, &solution))
        &&& forall|flat: Vec<Real>, dim: usize| #[trigger]
            call_requires(self.invert, (&flat, dim))
        &&& forall|sigma: Vec<Vec<Real>>, direction: Vec<Real>| #[trigger]
            call_requires(self.variance, (&sigma, &direction))
        &&& forall|sd: Real, row: Vec<Real>, inverse: Vec<Real>| #[trigger]
            call_requires(self.coefficients, (sd, &row, &inverse))
        &&& forall|sigma: Vec<Vec<Real>>, y: Vec<Real>, contrast: Vec<Real>, direction: Vec<Real>| #[trigger]
            call_requires(self.term, (&sigma, &y, &contrast, &direction))
        &&& forall|alpha: Real, kappa: Real| #[trigger]
            call_requires(self.size, (alpha, kappa))
        &&& forall|low: Real, high: Real, variance: Real, eta: Real| #[trigger]
            call_requires(self.standardize, (low, high, variance, eta))
        &&& forall|size: Real, zlo: Real, zup: Real| #[trigger]
            call_requires(self.quantile, (size, zlo, zup))
        &&& forall|rows: Vec<Vec<Real>>| #[trigger]
            call_requires(self.rank, (&rows,))
        &&& forall|rows: Vec<Vec<Real>>, rhs: Vec<Real>| #[trigger]
            call_requires(self.transposed, (&rows, &rhs))
        &&& forall|moments: Moments, y: Vec<Real>, eta: Real, gamma: Vec<Real>| #[trigger]
            call_requires(self.fit, (&moments, &y, eta, &gamma))
        &&& forall|sigma: Vec<Vec<Real>>, gamma: Vec<Real>| #[trigger]
            call_requires(self.along, (&sigma, &gamma))
        &&& forall|moments: Moments, y: Vec<Real>, gamma: Vec<Real>, c: Real| #[trigger]
            call_requires(self.miss, (&moments, &y, &gamma, c))
        &&& forall|high: Real, low: Real| #[trigger]
            call_requires(self.width, (high, low))
        &&& forall|high: Real, low: Real| #[trigger]
            call_requires(self.midpoint, (high, low))
        &&& forall|value: Real| #[trigger]
            call_requires(self.root, (value,))
        &&& forall|eta: Real, sigma_b: Real| #[trigger]
            call_requires(self.below, (eta, sigma_b))
        &&& forall|eta: Real, sigma_b: Real| #[trigger]
            call_requires(self.above, (eta, sigma_b))
        &&& forall|data: SmoothnessFlciHybridData, y_full: Vec<Real>, theta: Real| #[trigger]
            call_requires(self.first_stage, (&data, &y_full, theta))
        &&& forall|data: SmoothnessFlciHybridData, sigma_full: Vec<Vec<Real>>, y_full: Vec<Real>, gamma_full: Vec<Real>, sigma_b2: Real, theta: Real| #[trigger]
            call_requires(self.slope, (&data, &sigma_full, &y_full, &gamma_full, sigma_b2, theta))
        &&& forall|moments: Moments| #[trigger] call_requires(self.simulate, (&moments,))
        &&& forall|moments: Moments, draw: Vec<Real>| #[trigger]
            call_requires(self.optimum, (&moments, &draw))
        &&& forall|kappa: Real, last: usize, place: usize| #[trigger]
            call_requires(self.reached, (kappa, last, place))
        &&& forall|error: HonestError| #[trigger]
            call_requires(self.describe, (&error,))
    }

    open spec fn shifts(&self, base: Real, slope: Real, theta: Real, at: Real) -> bool {
        call_ensures(self.shift, (base, slope, theta), at)
    }

    open spec fn programs(
        &self,
        moments: Moments,
        y: Vec<Real>,
        solution: Option<ProgramSolution>,
    ) -> bool {
        call_ensures(self.solve, (&moments, &y), solution)
    }

    open spec fn slacks(
        &self,
        y: Real,
        sd: Real,
        row: Vec<Real>,
        solution: ProgramSolution,
        slack: Real,
    ) -> bool {
        call_ensures(self.slack, (y, sd, &row, &solution), slack)
    }

    open spec fn inverts(&self, flat: Vec<Real>, dim: usize, inverse: Option<Vec<Real>>) -> bool {
        call_ensures(self.invert, (&flat, dim), inverse)
    }

    open spec fn varies(
        &self,
        sigma: Vec<Vec<Real>>,
        direction: Vec<Real>,
        variance: Real,
    ) -> bool {
        call_ensures(self.variance, (&sigma, &direction), variance)
    }

    open spec fn combines(
        &self,
        sd: Real,
        row: Vec<Real>,
        inverse: Vec<Real>,
        coefficients: Vec<Real>,
    ) -> bool {
        call_ensures(self.coefficients, (sd, &row, &inverse), coefficients)
    }

    open spec fn terms(
        &self,
        sigma: Vec<Vec<Real>>,
        y: Vec<Real>,
        contrast: Vec<Real>,
        direction: Vec<Real>,
        term: RowTerm,
    ) -> bool {
        call_ensures(self.term, (&sigma, &y, &contrast, &direction), term)
    }

    open spec fn sizes(&self, alpha: Real, kappa: Real, size: Real) -> bool {
        call_ensures(self.size, (alpha, kappa), size)
    }

    open spec fn standardizes(
        &self,
        low: Real,
        high: Real,
        variance: Real,
        eta: Real,
        statistic: Standardized,
    ) -> bool {
        call_ensures(self.standardize, (low, high, variance, eta), statistic)
    }

    open spec fn quantiles(
        &self,
        size: Real,
        zlo: Real,
        zup: Real,
        critical: Result<Real, String>,
    ) -> bool {
        call_ensures(self.quantile, (size, zlo, zup), critical)
    }

    open spec fn ranks(&self, rows: Vec<Vec<Real>>, rank: usize) -> bool {
        call_ensures(self.rank, (&rows,), rank)
    }

    open spec fn transposes(
        &self,
        rows: Vec<Vec<Real>>,
        rhs: Vec<Real>,
        solution: Option<Vec<Real>>,
    ) -> bool {
        call_ensures(self.transposed, (&rows, &rhs), solution)
    }

    open spec fn fits(
        &self,
        moments: Moments,
        y: Vec<Real>,
        eta: Real,
        gamma: Vec<Real>,
        fit: VertexFit,
    ) -> bool {
        call_ensures(self.fit, (&moments, &y, eta, &gamma), fit)
    }

    open spec fn measures(&self, sigma: Vec<Vec<Real>>, gamma: Vec<Real>, variance: Real) -> bool {
        call_ensures(self.along, (&sigma, &gamma), variance)
    }

    open spec fn misses(
        &self,
        moments: Moments,
        y: Vec<Real>,
        gamma: Vec<Real>,
        c: Real,
        by: Result<Real, HonestError>,
    ) -> bool {
        call_ensures(self.miss, (&moments, &y, &gamma, c), by)
    }

    open spec fn spans(&self, high: Real, low: Real, width: Real) -> bool {
        call_ensures(self.width, (high, low), width)
    }

    open spec fn halves_at(&self, high: Real, low: Real, mid: Real) -> bool {
        call_ensures(self.midpoint, (high, low), mid)
    }

    open spec fn roots(&self, value: Real, root: Real) -> bool {
        call_ensures(self.root, (value,), root)
    }

    open spec fn starts_low(&self, eta: Real, sigma_b: Real, low: Real) -> bool {
        call_ensures(self.below, (eta, sigma_b), low)
    }

    open spec fn starts_high(&self, eta: Real, sigma_b: Real, high: Real) -> bool {
        call_ensures(self.above, (eta, sigma_b), high)
    }

    open spec fn first_stages(
        &self,
        data: SmoothnessFlciHybridData,
        y_full: Vec<Real>,
        theta: Real,
        statistic: HybridStatistic,
    ) -> bool {
        call_ensures(self.first_stage, (&data, &y_full, theta), statistic)
    }

    open spec fn slopes(
        &self,
        data: SmoothnessFlciHybridData,
        sigma_full: Vec<Vec<Real>>,
        y_full: Vec<Real>,
        gamma_full: Vec<Real>,
        sigma_b2: Real,
        theta: Real,
        slope: HybridSlope,
    ) -> bool {
        call_ensures(self.slope, (&data, &sigma_full, &y_full, &gamma_full, sigma_b2, theta), slope)
    }

    open spec fn simulates(&self, moments: Moments, draws: Result<Vec<Real>, String>) -> bool {
        call_ensures(self.simulate, (&moments,), draws)
    }

    open spec fn optimizes(
        &self,
        moments: Moments,
        draw: Vec<Real>,
        optimum: Result<Option<Real>, String>,
    ) -> bool {
        call_ensures(self.optimum, (&moments, &draw), optimum)
    }

    open spec fn places(&self, kappa: Real, last: usize, place: usize, reached: bool) -> bool {
        call_ensures(self.reached, (kappa, last, place), reached)
    }

    open spec fn describes(&self, error: HonestError, message: String) -> bool {
        call_ensures(self.describe, (&error,), message)
    }

    fn shift(&self, base: Real, slope: Real, theta: Real) -> (at: Real) {
        (self.shift)(base, slope, theta)
    }

    fn solve(&self, moments: &Moments, y: &Vec<Real>) -> (solution: Option<ProgramSolution>) {
        (self.solve)(moments, y)
    }

    fn slack(
        &self,
        y: Real,
        sd: Real,
        row: &Vec<Real>,
        solution: &ProgramSolution,
    ) -> (slack: Real) {
        (self.slack)(y, sd, row, solution)
    }

    fn invert(&self, flat: &Vec<Real>, dim: usize) -> (inverse: Option<Vec<Real>>) {
        (self.invert)(flat, dim)
    }

    fn variance(&self, sigma: &Vec<Vec<Real>>, direction: &Vec<Real>) -> (variance: Real) {
        (self.variance)(sigma, direction)
    }

    fn coefficients(
        &self,
        sd: Real,
        row: &Vec<Real>,
        inverse: &Vec<Real>,
    ) -> (coefficients: Vec<Real>) {
        (self.coefficients)(sd, row, inverse)
    }

    fn term(
        &self,
        sigma: &Vec<Vec<Real>>,
        y: &Vec<Real>,
        contrast: &Vec<Real>,
        direction: &Vec<Real>,
    ) -> (term: RowTerm) {
        (self.term)(sigma, y, contrast, direction)
    }

    fn size(&self, alpha: Real, kappa: Real) -> (size: Real) {
        (self.size)(alpha, kappa)
    }

    fn standardize(
        &self,
        low: Real,
        high: Real,
        variance: Real,
        eta: Real,
    ) -> (statistic: Standardized) {
        (self.standardize)(low, high, variance, eta)
    }

    fn quantile(&self, size: Real, zlo: Real, zup: Real) -> (critical: Result<Real, String>) {
        (self.quantile)(size, zlo, zup)
    }

    fn rank(&self, rows: &Vec<Vec<Real>>) -> (rank: usize) {
        (self.rank)(rows)
    }

    fn transposed(&self, rows: &Vec<Vec<Real>>, rhs: &Vec<Real>) -> (solution: Option<Vec<Real>>) {
        (self.transposed)(rows, rhs)
    }

    fn fit(
        &self,
        moments: &Moments,
        y: &Vec<Real>,
        eta: Real,
        gamma: &Vec<Real>,
    ) -> (fit: VertexFit) {
        (self.fit)(moments, y, eta, gamma)
    }

    fn along(&self, sigma: &Vec<Vec<Real>>, gamma: &Vec<Real>) -> (variance: Real) {
        (self.along)(sigma, gamma)
    }

    fn miss(
        &self,
        moments: &Moments,
        y: &Vec<Real>,
        gamma: &Vec<Real>,
        c: Real,
    ) -> (by: Result<Real, HonestError>) {
        (self.miss)(moments, y, gamma, c)
    }

    fn width(&self, high: Real, low: Real) -> (width: Real) {
        (self.width)(high, low)
    }

    fn midpoint(&self, high: Real, low: Real) -> (mid: Real) {
        (self.midpoint)(high, low)
    }

    fn root(&self, value: Real) -> (root: Real) {
        (self.root)(value)
    }

    fn below(&self, eta: Real, sigma_b: Real) -> (low: Real) {
        (self.below)(eta, sigma_b)
    }

    fn above(&self, eta: Real, sigma_b: Real) -> (high: Real) {
        (self.above)(eta, sigma_b)
    }

    fn first_stage(
        &self,
        data: &SmoothnessFlciHybridData,
        y_full: &Vec<Real>,
        theta: Real,
    ) -> (statistic: HybridStatistic) {
        (self.first_stage)(data, y_full, theta)
    }

    fn slope(
        &self,
        data: &SmoothnessFlciHybridData,
        sigma_full: &Vec<Vec<Real>>,
        y_full: &Vec<Real>,
        gamma_full: &Vec<Real>,
        sigma_b2: Real,
        theta: Real,
    ) -> (slope: HybridSlope) {
        (self.slope)(data, sigma_full, y_full, gamma_full, sigma_b2, theta)
    }

    fn simulate(&self, moments: &Moments) -> (draws: Result<Vec<Real>, String>) {
        (self.simulate)(moments)
    }

    fn optimum(&self, moments: &Moments, draw: &Vec<Real>) -> (optimum: Result<
        Option<Real>,
        String,
    >) {
        (self.optimum)(moments, draw)
    }

    fn reached(&self, kappa: Real, last: usize, place: usize) -> (reached: bool) {
        (self.reached)(kappa, last, place)
    }

    fn describe(&self, error: &HonestError) -> (message: String) {
        (self.describe)(error)
    }
}

} // verus!
