//! The dual side of the conditional test: truncation points by bisection, and
//! multipliers recovered from the binding rows.

use crate::errors::HonestError;
use crate::number::Real;
use crate::theta_test;
use crate::theta_test::{decide_conditionally, Standardized, EPSILON_BITS};
use vstd::prelude::*;

verus! {

/// The bits of `1e-6`, up to which the dual optimum counts as attained.
pub const FEASIBILITY_BITS: u64 = 0x3eb0c6f7a0b5ed8d;

/// The bits of `1e-4`, the width at which a bisection stops.
pub const BOUNDARY_BITS: u64 = 0x3f1a36e2eb1c432d;

/// The bits of `-100.0`, the highest lower bound of a search.
pub const LOWEST_START_BITS: u64 = 0xc059000000000000;

/// The bits of `100.0`, the lowest upper bound of a search.
pub const HIGHEST_START_BITS: u64 = 0x4059000000000000;

/// Steps after which a bisection stops whatever its width.
pub const BISECTION_LIMIT: usize = 10_000;

/// The arithmetic behind the conditional test of one statistic.
pub trait DualArithmetic {
    /// Whether it can be asked.
    spec fn ready(&self) -> bool;

    /// Whether the dual optimum misses a value by so much.
    spec fn misses(&self, c: Real, by: Result<Real, HonestError>) -> bool;

    /// Whether two ends lie so far apart.
    spec fn spans(&self, high: Real, low: Real, width: Real) -> bool;

    /// Whether a value is the middle of two ends.
    spec fn halves_at(&self, high: Real, low: Real, mid: Real) -> bool;

    /// Whether a number is the square root of a value.
    spec fn roots(&self, value: Real, root: Real) -> bool;

    /// Whether a number lies twenty standard deviations below the statistic.
    spec fn starts_low(&self, eta: Real, sigma_b: Real, low: Real) -> bool;

    /// Whether a number lies twenty standard deviations above the statistic.
    spec fn starts_high(&self, eta: Real, sigma_b: Real, high: Real) -> bool;

    /// Whether the statistic between truncation points is so many standard deviations.
    spec fn standardizes(&self, low: Real, high: Real, statistic: Standardized) -> bool;

    /// Whether the quantile between two points is this one.
    spec fn quantiles(&self, zlo: Real, zup: Real, critical: Result<Real, String>) -> bool;

    /// By how much the dual optimum misses a value.
    fn miss(&self, c: Real) -> (by: Result<Real, HonestError>)
        requires
            self.ready(),
        ensures
            self.misses(c, by),
    ;

    /// How far two ends lie apart.
    fn width(&self, high: Real, low: Real) -> (width: Real)
        requires
            self.ready(),
        ensures
            self.spans(high, low, width),
    ;

    /// The middle of two ends.
    fn midpoint(&self, high: Real, low: Real) -> (mid: Real)
        requires
            self.ready(),
        ensures
            self.halves_at(high, low, mid),
    ;

    /// The square root.
    fn root(&self, value: Real) -> (root: Real)
        requires
            self.ready(),
        ensures
            self.roots(value, root),
    ;

    /// Twenty standard deviations below the statistic.
    fn below(&self, eta: Real, sigma_b: Real) -> (low: Real)
        requires
            self.ready(),
        ensures
            self.starts_low(eta, sigma_b, low),
    ;

    /// Twenty standard deviations above the statistic.
    fn above(&self, eta: Real, sigma_b: Real) -> (high: Real)
        requires
            self.ready(),
        ensures
            self.starts_high(eta, sigma_b, high),
    ;

    /// The statistic between truncation points, in standard deviations.
    fn standardize(&self, low: Real, high: Real) -> (statistic: Standardized)
        requires
            self.ready(),
        ensures
            self.standardizes(low, high, statistic),
    ;

    /// Quantile of the normal distribution between two points.
    fn quantile(&self, zlo: Real, zup: Real) -> (critical: Result<Real, String>)
        requires
            self.ready(),
        ensures
            self.quantiles(zlo, zup, critical),
    ;
}

/// [`DualArithmetic`] by one function each.
pub struct DualFunctions<A, B, C, D, E, F, G, H> {
    /// By how much the dual optimum misses a value.
    pub miss: A,
    /// How far two ends lie apart.
    pub width: B,
    /// The middle of two ends.
    pub midpoint: C,
    /// The square root.
    pub root: D,
    /// Twenty standard deviations below the statistic.
    pub below: E,
    /// Twenty standard deviations above the statistic.
    pub above: F,
    /// The statistic between truncation points, in standard deviations.
    pub standardize: G,
    /// Quantile of the normal distribution between two points.
    pub quantile: H,
}

impl<
    A: Fn(Real) -> Result<Real, HonestError>,
    B: Fn(Real, Real) -> Real,
    C: Fn(Real, Real) -> Real,
    D: Fn(Real) -> Real,
    E: Fn(Real, Real) -> Real,
    F: Fn(Real, Real) -> Real,
    G: Fn(Real, Real) -> Standardized,
    H: Fn(Real, Real) -> Result<Real, String>,
> DualArithmetic for DualFunctions<A, B, C, D, E, F, G, H> {
    open spec fn ready(&self) -> bool {
        &&& forall|c: Real| #[trigger]
            call_requires(self.miss, (c,))
        &&& forall|high: Real, low: Real| #[trigger]
            call_requires(self.width, (high, low))
        &&& forall|high: Real, low: Real| #[trigger]
            call_requires(self.midpoint, (high, low))
        &&& forall|value: Real| #[trigger]
            call_requires(self.root, (value,))
        &&& forall|eta: Real, sigma_b: Real| #[trigger]
            call_requires(self.below, (eta, sigma_b))
        &&& forall|eta: Real, sigma_b: Real| #[trigger]
            call_requires(self.above, (eta, sigma_b))
        &&& forall|low: Real, high: Real| #[trigger]
            call_requires(self.standardize, (low, high))
        &&& forall|zlo: Real, zup: Real| #[trigger]
            call_requires(self.quantile, (zlo, zup))
    }

    open spec fn misses(&self, c: Real, by: Result<Real, HonestError>) -> bool {
        call_ensures(self.miss, (c,), by)
    }

    open spec fn spans(&self, high: Real, low: Real, width: Real) -> bool {
        call_ensures(self.width, (high, low), width)
    }

    open spec fn halves_at(&self, high: Real, low: Real, mid: Real) -> bool {
        call_ensures(self.midpoint, (high, low), mid)
    }

    open spec fn roots(&self, value: Real, root: Real) -> bool {
        call_ensures(self.root, (value,), root)
    }

    open spec fn starts_low(&self, eta: Real, sigma_b: Real, low: Real) -> bool {
        call_ensures(self.below, (eta, sigma_b), low)
    }

    open spec fn starts_high(&self, eta: Real, sigma_b: Real, high: Real) -> bool {
        call_ensures(self.above, (eta, sigma_b), high)
    }

    open spec fn standardizes(&self, low: Real, high: Real, statistic: Standardized) -> bool {
        call_ensures(self.standardize, (low, high), statistic)
    }

    open spec fn quantiles(&self, zlo: Real, zup: Real, critical: Result<Real, String>) -> bool {
        call_ensures(self.quantile, (zlo, zup), critical)
    }

    fn miss(&self, c: Real) -> (by: Result<Real, HonestError>) {
        (self.miss)(c)
    }

    fn width(&self, high: Real, low: Real) -> (width: Real) {
        (self.width)(high, low)
    }

    fn midpoint(&self, high: Real, low: Real) -> (mid: Real) {
        (self.midpoint)(high, low)
    }

    fn root(&self, value: Real) -> (root: Real) {
        (self.root)(value)
    }

    fn below(&self, eta: Real, sigma_b: Real) -> (low: Real) {
        (self.below)(eta, sigma_b)
    }

    fn above(&self, eta: Real, sigma_b: Real) -> (high: Real) {
        (self.above)(eta, sigma_b)
    }

    fn standardize(&self, low: Real, high: Real) -> (statistic: Standardized) {
        (self.standardize)(low, high)
    }

    fn quantile(&self, zlo: Real, zup: Real) -> (critical: Result<Real, String>) {
        (self.quantile)(zlo, zup)
    }
}

/// Whether the dual optimum attains the value it was asked at, given by how
/// much it misses it.
pub open spec fn attained(miss: Real) -> bool {
    miss.abs_spec().le(Real { bits: FEASIBILITY_BITS })
}

fn is_attained(miss: Real) -> (r: bool)
    ensures
        r == attained(miss),
{
    miss.abs().at_most(Real { bits: FEASIBILITY_BITS })
}

/// Whether the ends of a bisection have met.
pub open spec fn narrow(width: Real) -> bool {
    width.abs_spec().le(Real { bits: BOUNDARY_BITS })
}

/// One halving of a bisection.
#[derive(Clone, Copy, Debug, PartialEq, Eq, Structural)]
pub struct Halving {
    /// Upper end.
    pub high: Real,
    /// Lower end.
    pub low: Real,
    /// Distance of the ends.
    pub width: Real,
    /// Middle of the ends.
    pub mid: Real,
    /// By how much the dual optimum misses the middle.
    pub miss: Real,
}

impl Halving {
    /// The ends after the halving: an attained middle replaces the end that is
    /// itself attained, any other middle the end that is not.
    pub open spec fn next(self, low_is_solution: bool) -> (Real, Real) {
        if attained(self.miss) == low_is_solution {
            (self.high, self.mid)
        } else {
            (self.mid, self.low)
        }
    }
}

/// The ends after a run of halvings.
pub open spec fn ends_after(
    trace: Seq<Halving>,
    high: Real,
    low: Real,
    low_is_solution: bool,
) -> (Real, Real) {
    if trace.len() == 0 {
        (high, low)
    } else {
        trace.last().next(low_is_solution)
    }
}

/// The arithmetic of a bisection: how much the dual optimum misses a value,
/// the distance of two ends, and their middle.
pub open spec fn halves<T: DualArithmetic>(
    step: Halving,
    arithmetic: T,
    ends: (Real, Real),
) -> bool {
    &&& (step.high, step.low) == ends
    &&& arithmetic.spans(step.high, step.low, step.width)
    &&& !narrow(step.width)
    &&& arithmetic.halves_at(step.high, step.low, step.mid)
    &&& arithmetic.misses(step.mid, Ok(step.miss))
}

/// Whether `trace` is a run of halvings from the given ends.
pub open spec fn is_bisection<T: DualArithmetic>(
    trace: Seq<Halving>,
    arithmetic: T,
    high: Real,
    low: Real,
    low_is_solution: bool,
) -> bool {
    forall|i: int|
        0 <= i < trace.len() ==> halves(
            #[trigger] trace[i],
            arithmetic,
            ends_after(trace.take(i), high, low, low_is_solution),
        )
}

/// Whether an end of a bisection is the one it started with, or a middle that
/// the dual optimum attains or misses, as that end should.
pub open spec fn keeps_end(trace: Seq<Halving>, end: Real, start: Real, solution: bool) -> bool {
    end == start || exists|i: int|
        0 <= i < trace.len() && #[trigger] trace[i].mid == end && attained(trace[i].miss)
            == solution
}

/// A bisection keeps its bracket: one end is never replaced but by a middle
/// that the dual optimum attains, the other never but by one that it misses.
pub proof fn bisection_keeps_its_bracket<T: DualArithmetic>(
    trace: Seq<Halving>,
    arithmetic: T,
    high: Real,
    low: Real,
    low_is_solution: bool,
)
    requires
        is_bisection(trace, arithmetic, high, low, low_is_solution),
    ensures
        keeps_end(
            trace,
            ends_after(trace, high, low, low_is_solution).0,
            high,
            !low_is_solution,
        ),
        keeps_end(trace, ends_after(trace, high, low, low_is_solution).1, low, low_is_solution),
    decreases trace.len(),
{
    if trace.len() > 0 {
        let before = trace.drop_last();
        let last = trace.len() - 1;
        assert(before =~= trace.take(last));
        assert forall|i: int| 0 <= i < before.len() implies halves(
            #[trigger] before[i],
            arithmetic,
            ends_after(before.take(i), high, low, low_is_solution),
        ) by {
            assert(before.take(i) =~= trace.take(i));
            assert(halves(
                trace[i],
                arithmetic,
                ends_after(trace.take(i), high, low, low_is_solution),
            ));
        }
        bisection_keeps_its_bracket(before, arithmetic, high, low, low_is_solution);
        assert(halves(
            trace[last],
            arithmetic,
            ends_after(trace.take(last), high, low, low_is_solution),
        ));
        let ends = ends_after(before, high, low, low_is_solution);
        if ends.0 != high {
            let i = choose|i: int|
                0 <= i < before.len() && #[trigger] before[i].mid == ends.0 && attained(
                    before[i].miss,
                ) == !low_is_solution;
            assert(trace[i] == before[i]);
        }
        if ends.1 != low {
            let i = choose|i: int|
                0 <= i < before.len() && #[trigger] before[i].mid == ends.1 && attained(
                    before[i].miss,
                ) == low_is_solution;
            assert(trace[i] == before[i]);
        }
        assert(trace[last].mid == trace.last().mid);
    }
}

/// Whether `boundary` is where a bisection between the given ends stops: at
/// the middle of ends that have met or have been halved often enough, or at
/// the first error.
pub open spec fn stops_at<T: DualArithmetic>(
    trace: Seq<Halving>,
    arithmetic: T,
    high: Real,
    low: Real,
    low_is_solution: bool,
    boundary: Result<Real, HonestError>,
) -> bool {
    let ends = ends_after(trace, high, low, low_is_solution);
    &&& is_bisection(trace, arithmetic, high, low, low_is_solution)
    &&& trace.len() <= BISECTION_LIMIT
    &&& match boundary {
        Ok(value) => {
            &&& arithmetic.halves_at(ends.0, ends.1, value)
            &&& trace.len() < BISECTION_LIMIT ==> exists|w: Real| #[trigger]
                arithmetic.spans(ends.0, ends.1, w) && narrow(w)
        },
        Err(error) => {
            &&& trace.len() < BISECTION_LIMIT
            &&& exists|w: Real| #[trigger] arithmetic.spans(ends.0, ends.1, w) && !narrow(w)
            &&& exists|mid: Real|
                arithmetic.halves_at(ends.0, ends.1, mid) && #[trigger] arithmetic.misses(mid, Err(error),
                )
        },
    }
}

/// The boundary between attained and unattained values, by bisection.
pub fn bisect_dual_boundary<T: DualArithmetic>(
    high: Real,
    low: Real,
    low_is_solution: bool,
    arithmetic: &T,
) -> (boundary: Result<Real, HonestError>)
    requires
        arithmetic.ready(),
    ensures
        exists|trace: Seq<Halving>| #[trigger]
            stops_at(
                trace,
                *arithmetic,
                high,
                low,
                low_is_solution,
                boundary,
            ),
{
    let ghost mut trace: Seq<Halving> = Seq::empty();
    let mut upper = high;
    let mut lower = low;
    let mut steps: usize = 0;
    while steps < BISECTION_LIMIT
        invariant
            steps <= BISECTION_LIMIT,
            trace.len() == steps,
            (upper, lower) == ends_after(trace, high, low, low_is_solution),
            is_bisection(trace, *arithmetic, high, low, low_is_solution),
            arithmetic.ready(),
        decreases BISECTION_LIMIT - steps,
    {
        let ghost ends = ends_after(trace, high, low, low_is_solution);
        let distance = arithmetic.width(upper, lower);
        assert(arithmetic.spans(ends.0, ends.1, distance));
        let mid = arithmetic.midpoint(upper, lower);
        if distance.abs().at_most(Real { bits: BOUNDARY_BITS }) {
            assert(stops_at(
                trace,
                *arithmetic,
                high,
                low,
                low_is_solution,
                Ok(mid),
            ));
            return Ok(mid);
        }
        let answer = arithmetic.miss(mid);
        match answer {
            Err(error) => {
                assert(stops_at(
                    trace,
                    *arithmetic,
                    high,
                    low,
                    low_is_solution,
                    Err(error),
                ));
                return Err(error);
            },
            Ok(by) => {
                let ghost step = Halving { high: upper, low: lower, width: distance, mid, miss: by };
                proof {
                    let longer = trace.push(step);
                    assert forall|i: int| 0 <= i < longer.len() implies halves(
                        #[trigger] longer[i],
                        *arithmetic,
                        ends_after(longer.take(i), high, low, low_is_solution),
                    ) by {
                        assert(longer.take(i) =~= trace.take(i));
                        if i == trace.len() {
                            assert(trace.take(i) =~= trace);
                        } else {
                            assert(longer[i] == trace[i]);
                        }
                    }
                    trace = longer;
                }
                if is_attained(by) == low_is_solution {
                    lower = mid;
                } else {
                    upper = mid;
                }
            },
        }
        steps = steps + 1;
    }
    let mid = arithmetic.midpoint(upper, lower);
    assert(stops_at(trace, *arithmetic, high, low, low_is_solution, Ok(mid)));
    Ok(mid)
}

/// Whether `limit` is where some bisection between the statistic and a far end
/// stops.
pub open spec fn bisected<T: DualArithmetic>(
    arithmetic: T,
    far: Real,
    eta: Real,
    upward: bool,
    limit: Result<Real, HonestError>,
) -> bool {
    if upward {
        exists|trace: Seq<Halving>| #[trigger]
            stops_at(trace, arithmetic, far, eta, true, limit)
    } else {
        exists|trace: Seq<Halving>| #[trigger]
            stops_at(trace, arithmetic, eta, far, false, limit)
    }
}

fn bisect_from<T: DualArithmetic>(
    far: Real,
    eta: Real,
    upward: bool,
    arithmetic: &T,
) -> (limit: Result<
    Real,
    HonestError,
>)
    requires
        arithmetic.ready(),
    ensures
        bisected(*arithmetic, far, eta, upward, limit),
{
    if upward {
        bisect_dual_boundary(far, eta, true, arithmetic)
    } else {
        bisect_dual_boundary(eta, far, false, arithmetic)
    }
}

/// How a truncation point was found: without limit where the far end is
/// attained, else by bisection.
pub open spec fn limit_found<T: DualArithmetic>(
    far_miss: Result<Real, HonestError>,
    arithmetic: T,
    far: Real,
    eta: Real,
    upward: bool,
    limit: Result<Real, HonestError>,
) -> bool {
    &&& arithmetic.misses(far, far_miss)
    &&& match far_miss {
        Err(error) => limit == Err::<Real, HonestError>(error),
        Ok(by) => if attained(by) {
            limit == Ok::<Real, HonestError>(
                if upward {
                    Real::infinity_spec()
                } else {
                    Real::neg_infinity_spec()
                },
            )
        } else {
            bisected(arithmetic, far, eta, upward, limit)
        },
    }
}

fn find_limit<T: DualArithmetic>(
    far: Real,
    eta: Real,
    upward: bool,
    arithmetic: &T,
) -> (limit: Result<
    Real,
    HonestError,
>)
    requires
        arithmetic.ready(),
    ensures
        exists|far_miss: Result<Real, HonestError>| #[trigger]
            limit_found(far_miss, *arithmetic, far, eta, upward, limit),
{
    let answer = arithmetic.miss(far);
    let ghost said = answer;
    match answer {
        Err(error) => {
            assert(limit_found(said, *arithmetic, far, eta, upward, Err(error)));
            Err(error)
        },
        Ok(by) => {
            if is_attained(by) {
                let limit = if upward {
                    Real::infinity()
                } else {
                    Real::neg_infinity()
                };
                assert(limit_found(said, *arithmetic, far, eta, upward, Ok(limit)));
                Ok(limit)
            } else {
                let limit = bisect_from(far, eta, upward, arithmetic);
                assert(limit_found(said, *arithmetic, far, eta, upward, limit));
                limit
            }
        },
    }
}

/// Whether `points` are the truncation points of a statistic `eta`, searched
/// between `low` and `high`. A statistic that is not attained itself is its own
/// lower point and has no upper one.
pub open spec fn truncated_at<T: DualArithmetic>(
    at_eta: Result<Real, HonestError>,
    arithmetic: T,
    eta: Real,
    low: Real,
    high: Real,
    points: Result<(Real, Real), HonestError>,
) -> bool {
    &&& arithmetic.misses(eta, at_eta)
    &&& match at_eta {
        Err(error) => points == Err::<(Real, Real), HonestError>(error),
        Ok(by) => if !attained(by) {
            points == Ok::<(Real, Real), HonestError>((eta, Real::infinity_spec()))
        } else {
            exists|
                high_miss: Result<Real, HonestError>,
                vup: Result<Real, HonestError>,
                low_miss: Result<Real, HonestError>,
                vlo: Result<Real, HonestError>,
            |
                #![trigger limit_found(high_miss, arithmetic, high, eta, true, vup), limit_found(low_miss, arithmetic, low, eta, false, vlo)]
                limit_found(high_miss, arithmetic, high, eta, true, vup) && (vup is Ok
                    ==> limit_found(low_miss, arithmetic, low, eta, false, vlo))
                    && points == (match vup {
                    Err(error) => Err::<(Real, Real), HonestError>(error),
                    Ok(upper) => match vlo {
                        Err(error) => Err(error),
                        Ok(lower) => Ok((lower, upper)),
                    },
                })
        },
    }
}

/// Truncation points of the statistic, searched between two far ends.
pub fn compute_dual_vlo_vup<T: DualArithmetic>(
    eta: Real,
    low: Real,
    high: Real,
    arithmetic: &T,
) -> (points: Result<
    (Real, Real),
    HonestError,
>)
    requires
        arithmetic.ready(),
    ensures
        exists|at_eta: Result<Real, HonestError>| #[trigger]
            truncated_at(at_eta, *arithmetic, eta, low, high, points),
{
    let answer = arithmetic.miss(eta);
    let ghost said = answer;
    match answer {
        Err(error) => {
            assert(truncated_at(said, *arithmetic, eta, low, high, Err(error)));
            return Err(error);
        },
        Ok(by) => {
            if !is_attained(by) {
                let points = (eta, Real::infinity());
                assert(truncated_at(said, *arithmetic, eta, low, high, Ok(points)));
                return Ok(points);
            }
        },
    }
    let upper = find_limit(high, eta, true, arithmetic);
    let ghost high_miss = choose|high_miss: Result<Real, HonestError>| #[trigger]
        limit_found(high_miss, *arithmetic, high, eta, true, upper);
    match upper {
        Err(error) => {
            proof {
                assert(limit_found(
                    high_miss,
                    *arithmetic,
                    high,
                    eta,
                    true,
                    upper,
                ));
                let unasked = limit_found(
                    high_miss,
                    *arithmetic,
                    low,
                    eta,
                    false,
                    upper,
                );
                assert(truncated_at(said, *arithmetic, eta, low, high, Err(error)));
            }
            Err(error)
        },
        Ok(vup) => {
            let lower = find_limit(low, eta, false, arithmetic);
            let ghost low_miss = choose|low_miss: Result<Real, HonestError>| #[trigger]
                limit_found(low_miss, *arithmetic, low, eta, false, lower);
            let points = match lower {
                Err(error) => Err(error),
                Ok(vlo) => Ok((vlo, vup)),
            };
            proof {
                assert(limit_found(
                    high_miss,
                    *arithmetic,
                    high,
                    eta,
                    true,
                    upper,
                ));
                assert(limit_found(low_miss, *arithmetic, low, eta, false, lower));
                assert(truncated_at(said, *arithmetic, eta, low, high, points));
            }
            points
        },
    }
}

/// Whether `bounds` are where a search for truncation points starts: twenty
/// standard deviations around the statistic, and at least a hundred either way.
pub open spec fn search_bounds<T: DualArithmetic>(
    eta: Real,
    sigma_b2: Real,
    arithmetic: T,
    sigma_b: Real,
    lower: Real,
    upper: Real,
    bounds: (Real, Real),
) -> bool {
    &&& arithmetic.roots(sigma_b2.max_spec(Real::zero_spec()), sigma_b)
    &&& arithmetic.starts_low(eta, sigma_b, lower)
    &&& arithmetic.starts_high(eta, sigma_b, upper)
    &&& bounds.0 == (Real { bits: LOWEST_START_BITS }).min_spec(lower)
    &&& bounds.1 == (Real { bits: HIGHEST_START_BITS }).max_spec(upper)
}

/// Where a search for truncation points starts.
pub fn dual_search_bounds<T: DualArithmetic>(
    eta: Real,
    sigma_b2: Real,
    arithmetic: &T,
) -> (bounds: (
    Real,
    Real,
))
    requires
        arithmetic.ready(),
    ensures
        exists|sigma_b: Real, lower: Real, upper: Real| #[trigger]
            search_bounds(
                eta,
                sigma_b2,
                *arithmetic,
                sigma_b,
                lower,
                upper,
                bounds,
            ),
{
    let sigma_b = arithmetic.root(sigma_b2.max(Real::zero()));
    let lower = arithmetic.below(eta, sigma_b);
    let upper = arithmetic.above(eta, sigma_b);
    let bounds = (
        Real::from_bits(LOWEST_START_BITS).min(lower),
        Real::from_bits(HIGHEST_START_BITS).max(upper),
    );
    assert(search_bounds(
        eta,
        sigma_b2,
        *arithmetic,
        sigma_b,
        lower,
        upper,
        bounds,
    ));
    bounds
}

/// Whether `region` are the truncation points of a statistic whose variance is
/// `sigma_b2`: none where the variance vanishes, an error where it is negative.
pub open spec fn region_found<T: DualArithmetic>(
    points: Result<(Real, Real), HonestError>,
    arithmetic: T,
    eta: Real,
    sigma_b2: Real,
    low: Real,
    high: Real,
    region: Result<Option<(Real, Real)>, HonestError>,
) -> bool {
    if sigma_b2.abs_spec().lt(Real { bits: EPSILON_BITS }) {
        region == Ok::<Option<(Real, Real)>, HonestError>(None)
    } else if sigma_b2.lt(Real::zero_spec()) {
        region == Err::<Option<(Real, Real)>, HonestError>(HonestError::NegativeDualVariance)
    } else {
        &&& exists|at_eta: Result<Real, HonestError>| #[trigger]
            truncated_at(at_eta, arithmetic, eta, low, high, points)
        &&& region == (match points {
            Ok(found) => Ok::<Option<(Real, Real)>, HonestError>(Some(found)),
            Err(error) => Err(error),
        })
    }
}

/// Truncation points of a statistic, where its variance does not vanish.
pub fn dual_acceptance_region<T: DualArithmetic>(
    eta: Real,
    sigma_b2: Real,
    low: Real,
    high: Real,
    arithmetic: &T,
) -> (region: Result<Option<(Real, Real)>, HonestError>)
    requires
        arithmetic.ready(),
    ensures
        exists|points: Result<(Real, Real), HonestError>| #[trigger]
            region_found(
                points,
                *arithmetic,
                eta,
                sigma_b2,
                low,
                high,
                region,
            ),
{
    let ghost unasked: Result<(Real, Real), HonestError> = arbitrary();
    if sigma_b2.abs().less(Real { bits: EPSILON_BITS }) {
        assert(region_found(
            unasked,
            *arithmetic,
            eta,
            sigma_b2,
            low,
            high,
            Ok(None),
        ));
        return Ok(None);
    }
    if sigma_b2.less(Real::zero()) {
        let error = HonestError::NegativeDualVariance;
        assert(region_found(
            unasked,
            *arithmetic,
            eta,
            sigma_b2,
            low,
            high,
            Err(error),
        ));
        return Err(error);
    }
    let points = compute_dual_vlo_vup(eta, low, high, arithmetic);
    let ghost found = points;
    let region = match points {
        Ok(pair) => Ok(Some(pair)),
        Err(error) => Err(error),
    };
    assert(region_found(found, *arithmetic, eta, sigma_b2, low, high, region));
    region
}

/// The verdict on a statistic, given its truncation points: without them by its
/// sign, with them by its conditional distribution.
pub open spec fn dual_verdict(
    region: Result<Option<(Real, Real)>, HonestError>,
    eta: Real,
    statistic: Standardized,
    quantile: Result<Real, String>,
) -> Result<bool, HonestError> {
    match region {
        Err(error) => Err(error),
        Ok(None) => Ok(Real::zero_spec().lt(eta)),
        Ok(Some(_)) => theta_test::conditional_verdict(statistic, quantile),
    }
}

/// Whether the statistic and the quantile are what the arithmetic gives on
/// truncation points of which the upper one does not exceed `lf_cv`.
pub open spec fn dual_answered<T: DualArithmetic>(
    region: Result<Option<(Real, Real)>, HonestError>,
    lf_cv: Real,
    arithmetic: T,
    statistic: Standardized,
    critical: Result<Real, String>,
) -> bool {
    region matches Ok(Some(points)) ==> {
        &&& arithmetic.standardizes(points.0, points.1.min_spec(lf_cv), statistic)
        &&& statistic.inside() ==> arithmetic.quantiles(
            statistic.zlo,
            statistic.zup,
            critical,
        )
    }
}

/// Tests by multipliers, given the truncation points that they imply;
/// `Ok(true)` rejects.
pub fn dual_conditional_test<T: DualArithmetic>(
    region: Result<Option<(Real, Real)>, HonestError>,
    eta: Real,
    lf_cv: Real,
    arithmetic: &T,
) -> (rejected: Result<bool, HonestError>)
    requires
        arithmetic.ready(),
    ensures
        exists|statistic: Standardized, critical: Result<Real, String>| #[trigger]
            dual_answered(region, lf_cv, *arithmetic, statistic, critical) && rejected
                == dual_verdict(region, eta, statistic, critical),
{
    let ghost none: Standardized = arbitrary();
    let ghost unasked: Result<Real, String> = arbitrary();
    match region {
        Err(error) => {
            assert(dual_answered(region, lf_cv, *arithmetic, none, unasked));
            Err(error)
        },
        Ok(None) => {
            assert(dual_answered(region, lf_cv, *arithmetic, none, unasked));
            Ok(Real::zero().less(eta))
        },
        Ok(Some((vlo, vup))) => {
            let statistic = arithmetic.standardize(vlo, vup.min(lf_cv));
            if !statistic.is_inside() {
                assert(dual_answered(region, lf_cv, *arithmetic, statistic, unasked));
                return Ok(false);
            }
            let critical = arithmetic.quantile(statistic.zlo, statistic.zup);
            let ghost said = critical;
            let rejected = decide_conditionally(statistic, critical);
            assert(dual_answered(region, lf_cv, *arithmetic, statistic, said));
            rejected
        },
    }
}

proof fn ends_stay_within<T: DualArithmetic>(
    trace: Seq<Halving>,
    arithmetic: T,
    high: Real,
    low: Real,
    low_is_solution: bool,
    read: spec_fn(Real) -> int,
)
    requires
        is_bisection(trace, arithmetic, high, low, low_is_solution),
        forall|above: Real, below: Real, mid: Real| #[trigger]
            arithmetic.halves_at(above, below, mid) ==> 2 * read(mid) == read(above) + read(below),
        read(low) <= read(high),
    ensures
        ({
            let ends = ends_after(trace, high, low, low_is_solution);
            read(low) <= read(ends.1) <= read(ends.0) <= read(high)
        }),
    decreases trace.len(),
{
    if trace.len() > 0 {
        let before = trace.drop_last();
        let last = trace.len() - 1;
        assert(before =~= trace.take(last));
        assert forall|i: int| 0 <= i < before.len() implies halves(
            #[trigger] before[i],
            arithmetic,
            ends_after(before.take(i), high, low, low_is_solution),
        ) by {
            assert(before.take(i) =~= trace.take(i));
            assert(halves(
                trace[i],
                arithmetic,
                ends_after(trace.take(i), high, low, low_is_solution),
            ));
        }
        ends_stay_within(before, arithmetic, high, low, low_is_solution, read);
        assert(halves(
            trace[last],
            arithmetic,
            ends_after(trace.take(last), high, low, low_is_solution),
        ));
    }
}

proof fn a_limit_lies_on_its_side<T: DualArithmetic>(
    far_miss: Result<Real, HonestError>,
    arithmetic: T,
    far: Real,
    eta: Real,
    upward: bool,
    limit: Real,
    read: spec_fn(Real) -> int,
)
    requires
        limit_found(far_miss, arithmetic, far, eta, upward, Ok(limit)),
        forall|above: Real, below: Real, mid: Real| #[trigger]
            arithmetic.halves_at(above, below, mid) ==> 2 * read(mid) == read(above) + read(below),
        upward ==> read(eta) <= read(far),
        !upward ==> read(far) <= read(eta),
    ensures
        upward ==> limit == Real::infinity_spec() || read(eta) <= read(limit) <= read(far),
        !upward ==> limit == Real::neg_infinity_spec() || read(far) <= read(limit) <= read(eta),
{
    if !attained(far_miss->Ok_0) {
        if upward {
            let trace = choose|trace: Seq<Halving>| #[trigger]
                stops_at(trace, arithmetic, far, eta, true, Ok(limit));
            ends_stay_within(trace, arithmetic, far, eta, true, read);
        } else {
            let trace = choose|trace: Seq<Halving>| #[trigger]
                stops_at(trace, arithmetic, eta, far, false, Ok(limit));
            ends_stay_within(trace, arithmetic, eta, far, false, read);
        }
    }
}

/// The truncation points of a statistic surround it: the lower one is not above it and
/// the upper one not below it, where middles are exact under a reading and the search
/// starts on both sides of it.
pub proof fn truncation_points_surround_the_statistic<T: DualArithmetic>(
    at_eta: Result<Real, HonestError>,
    arithmetic: T,
    eta: Real,
    low: Real,
    high: Real,
    points: (Real, Real),
    read: spec_fn(Real) -> int,
)
    requires
        truncated_at(at_eta, arithmetic, eta, low, high, Ok(points)),
        forall|above: Real, below: Real, mid: Real| #[trigger]
            arithmetic.halves_at(above, below, mid) ==> 2 * read(mid) == read(above) + read(below),
        read(low) <= read(eta) <= read(high),
    ensures
        points.0 == Real::neg_infinity_spec() || read(points.0) <= read(eta),
        points.1 == Real::infinity_spec() || read(eta) <= read(points.1),
        arithmetic.misses(eta, at_eta),
        at_eta matches Ok(by) && !attained(by) ==> points == (eta, Real::infinity_spec()),
{
    if attained(at_eta->Ok_0) {
        let (high_miss, vup, low_miss, vlo) = choose|
            high_miss: Result<Real, HonestError>,
            vup: Result<Real, HonestError>,
            low_miss: Result<Real, HonestError>,
            vlo: Result<Real, HonestError>,
        |
            #![trigger limit_found(high_miss, arithmetic, high, eta, true, vup), limit_found(low_miss, arithmetic, low, eta, false, vlo)]
            limit_found(high_miss, arithmetic, high, eta, true, vup) && (vup is Ok ==> limit_found(
                low_miss,
                arithmetic,
                low,
                eta,
                false,
                vlo,
            )) && Ok::<(Real, Real), HonestError>(points) == (match vup {
                Err(error) => Err::<(Real, Real), HonestError>(error),
                Ok(upper) => match vlo {
                    Err(error) => Err(error),
                    Ok(lower) => Ok((lower, upper)),
                },
            });
        a_limit_lies_on_its_side(high_miss, arithmetic, high, eta, true, points.1, read);
        a_limit_lies_on_its_side(low_miss, arithmetic, low, eta, false, points.0, read);
    }
}

} // verus!
