//! The conditional test under smoothness restrictions.

use crate::errors::HonestError;
use crate::inversion;
use crate::inversion::find_moments_fault;
use crate::matrix;
use crate::matrix::scatter;
use crate::moments::{Moments, TestArithmetic, TestLevel};
use crate::number::Real;
use crate::theta_test;
use crate::theta_test::{
    decide_conditionally, region_along_multipliers, ProgramSolution, RegionRun, Standardized,
};
use crate::types::SmoothnessHybrid;
use vstd::prelude::*;

verus! {

/// The bits of `-1e-12`.
pub const NEGATIVE_SLOPE_BITS: u64 = 0xbd719799812dea11;

/// The bits of `1e-12`.
pub const POSITIVE_SLOPE_BITS: u64 = 0x3d719799812dea11;

/// The fixed-length interval's statistic with its two limits.
#[derive(Clone, Copy, Debug, PartialEq, Eq, Structural)]
pub struct HybridStatistic {
    /// The statistic.
    pub value: Real,
    /// Its largest accepted value.
    pub upper: Real,
    /// The largest accepted value of its negative.
    pub lower: Real,
}

impl HybridStatistic {
    /// Whether the first stage rejects.
    pub open spec fn rejects(self) -> bool {
        self.upper.lt(self.value) || self.lower.lt(self.value.neg_spec())
    }

    /// Whether the first stage rejects.
    pub fn is_rejected(self) -> (r: bool)
        ensures
            r == self.rejects(),
    {
        self.upper.less(self.value) || self.lower.less(self.value.negated())
    }
}

/// How the first stage moves along the binding direction, and where it meets
/// its two limits.
#[derive(Clone, Copy, Debug, PartialEq, Eq, Structural)]
pub struct HybridSlope {
    /// Change of the first stage along the direction.
    pub slope: Real,
    /// Where it meets the upper limit.
    pub at_upper: Real,
    /// Where its negative meets the lower limit.
    pub at_lower: Real,
}

/// A limit met with a falling statistic is a lower truncation point, one met
/// with a rising statistic an upper one.
pub open spec fn limit_met(slope: Real, at: Real, points: (Real, Real)) -> (Real, Real) {
    if slope.lt(Real { bits: NEGATIVE_SLOPE_BITS }) {
        (points.0.max_spec(at), points.1)
    } else if (Real { bits: POSITIVE_SLOPE_BITS }).lt(slope) {
        (points.0, points.1.min_spec(at))
    } else {
        points
    }
}

impl HybridSlope {
    /// The truncation points that the first stage implies.
    pub open spec fn points(self) -> (Real, Real) {
        limit_met(
            self.slope.neg_spec(),
            self.at_lower,
            limit_met(
                self.slope,
                self.at_upper,
                (Real::neg_infinity_spec(), Real::infinity_spec()),
            ),
        )
    }
}

fn meet_limit(slope: Real, at: Real, points: (Real, Real)) -> (next: (Real, Real))
    ensures
        next == limit_met(slope, at, points),
{
    let floor = Real { bits: NEGATIVE_SLOPE_BITS };
    let ceiling = Real { bits: POSITIVE_SLOPE_BITS };
    if slope.less(floor) {
        (points.0.max(at), points.1)
    } else if ceiling.less(slope) {
        (points.0, points.1.min(at))
    } else {
        points
    }
}

/// The truncation points that the first stage implies.
pub fn flci_vlo_vup(slope: HybridSlope) -> (points: (Real, Real))
    ensures
        points == slope.points(),
{
    let unlimited = (Real::neg_infinity(), Real::infinity());
    let once = meet_limit(slope.slope, slope.at_upper, unlimited);
    meet_limit(slope.slope.negated(), slope.at_lower, once)
}

/// What the first stage by a fixed-length interval rests on.
#[derive(Debug, PartialEq, Eq)]
pub struct SmoothnessFlciHybridData {
    /// Weights of all moments that make up the interval's estimate.
    pub vbar: Vec<Real>,
    /// Their product with the bounds of the restriction.
    pub vbar_dot_d: Real,
    /// Their product with the target coefficients.
    pub vbar_dot_a_target: Real,
    /// Half-length of the interval.
    pub optimal_half_length: Real,
}

/// All moments of a restriction, those without a post period included.
#[derive(Debug, PartialEq, Eq)]
pub struct FullMoments {
    /// Moments at a target of zero.
    pub y_base: Vec<Real>,
    /// Their slopes in the target.
    pub a_target: Vec<Real>,
    /// Their covariance.
    pub sigma: Vec<Vec<Real>>,
    /// The moments that enter the test.
    pub rows_for_arp: Vec<usize>,
}

impl FullMoments {
    /// Every moment has a slope, and the moments that enter the test exist.
    pub open spec fn shaped(self) -> bool {
        &&& self.a_target.len() == self.y_base.len()
        &&& matrix::indices_below(self.rows_for_arp@, self.y_base.len() as int)
    }

    /// Whether `y` are all moments at a value of the target.
    pub open spec fn moved<T: TestArithmetic>(
        self,
        arithmetic: T,
        theta: Real,
        y: Seq<Real>,
    ) -> bool {
        &&& y.len() == self.y_base.len()
        &&& forall|i: int|
            0 <= i < y.len() ==> arithmetic.shifts(
                self.y_base@[i],
                self.a_target@[i],
                theta,
                #[trigger] y[i],
            )
    }

    /// All moments at a value of the target.
    pub fn at<T: TestArithmetic>(&self, theta: Real, arithmetic: &T) -> (y: Vec<Real>)
        requires
            self.shaped(),
            arithmetic.ready(),
        ensures
            self.moved(*arithmetic, theta, y@),
    {
        let mut y: Vec<Real> = Vec::new();
        let mut i: usize = 0;
        while i < self.y_base.len()
            invariant
                i <= self.y_base.len(),
                y.len() == i,
                self.shaped(),
                arithmetic.ready(),
                forall|k: int|
                    0 <= k < i ==> arithmetic.shifts(
                        self.y_base@[k],
                        self.a_target@[k],
                        theta,
                        #[trigger] y@[k],
                    ),
            decreases self.y_base.len() - i,
        {
            y.push(arithmetic.shift(self.y_base[i], self.a_target[i], theta));
            i = i + 1;
        }
        y
    }
}

/// A test under a smoothness restriction at one value of the target.
pub struct SmoothnessProblem<'a> {
    /// The moments that enter the test.
    pub moments: &'a Moments,
    /// Their values at the tested value.
    pub y: &'a Vec<Real>,
    /// All moments.
    pub full: &'a FullMoments,
    /// Their values at the tested value.
    pub y_full: &'a Vec<Real>,
    /// The tested value.
    pub theta: Real,
    /// Level of the test.
    pub level: TestLevel,
    /// First stage of the test.
    pub hybrid: SmoothnessHybrid,
    /// What the first stage by a fixed-length interval rests on.
    pub flci: &'a Option<SmoothnessFlciHybridData>,
}

impl<'a> SmoothnessProblem<'a> {
    /// Whether the moments fit together.
    pub open spec fn shaped(self) -> bool {
        &&& self.full.shaped()
        &&& self.y_full.len() == self.full.y_base.len()
    }
}

/// What one test rested on.
pub struct SmoothnessTestRun {
    /// Size of the conditional test.
    pub size: Real,
    /// What the program gave.
    pub program: Option<ProgramSolution>,
    /// The first stage.
    pub first: HybridStatistic,
    /// How the truncation points came about.
    pub region_run: RegionRun,
    /// Truncation points.
    pub region: Result<Option<(Real, Real)>, HonestError>,
    /// Multipliers of all moments.
    pub gamma_full: Vec<Real>,
    /// How the first stage moves.
    pub slope: HybridSlope,
    /// The statistic and its limits.
    pub statistic: Standardized,
    /// Quantile between the limits.
    pub quantile: Result<Real, String>,
}

impl SmoothnessTestRun {
    /// Whether the first stage decides: it rejects, or its data are missing.
    pub open spec fn first_verdict(self, problem: SmoothnessProblem<'_>) -> Option<
        Result<bool, HonestError>,
    > {
        match self.program {
            None => Some(Ok(true)),
            Some(solution) => match problem.hybrid {
                SmoothnessHybrid::ArpOnly => None,
                SmoothnessHybrid::LeastFavorable => if problem.level.lf_cv.lt(solution.eta) {
                    Some(Ok(true))
                } else {
                    None
                },
                SmoothnessHybrid::Flci => match *problem.flci {
                    None => Some(Err(HonestError::MissingHybridData)),
                    Some(_) => if self.first.rejects() {
                        Some(Ok(true))
                    } else {
                        None
                    },
                },
            },
        }
    }

    /// The truncation points after the hybrid narrowed them.
    pub open spec fn narrowed(self, problem: SmoothnessProblem<'_>, points: (Real, Real)) -> (
        Real,
        Real,
    ) {
        match problem.hybrid {
            SmoothnessHybrid::ArpOnly => points,
            SmoothnessHybrid::LeastFavorable => (points.0, points.1.min_spec(problem.level.lf_cv)),
            SmoothnessHybrid::Flci => {
                let limits = self.slope.points();
                (points.0.max_spec(limits.0), points.1.min_spec(limits.1))
            },
        }
    }

    /// The verdict; `Ok(true)` rejects.
    pub open spec fn verdict(self, problem: SmoothnessProblem<'_>) -> Result<bool, HonestError> {
        match self.first_verdict(problem) {
            Some(verdict) => verdict,
            None => match self.region {
                Err(error) => Err(error),
                Ok(None) => Ok(Real::zero_spec().lt(self.program->Some_0.eta)),
                Ok(Some(_)) => theta_test::conditional_verdict(self.statistic, self.quantile),
            },
        }
    }

    /// Whether every answer that the test needed is one that the arithmetic
    /// gives.
    pub open spec fn answered_by<T: TestArithmetic>(
        self,
        arithmetic: T,
        problem: SmoothnessProblem<'_>,
    ) -> bool {
        &&& arithmetic.programs(*problem.moments, *problem.y, self.program)
        &&& match problem.hybrid {
            SmoothnessHybrid::ArpOnly => self.size == problem.level.alpha,
            _ => arithmetic.sizes(problem.level.alpha, problem.level.kappa, self.size),
        }
        &&& (problem.hybrid == SmoothnessHybrid::Flci && self.program is Some
            && *problem.flci is Some) ==> arithmetic.first_stages(
            problem.flci->Some_0,
            *problem.y_full,
            problem.theta,
            self.first,
        )
        &&& self.first_verdict(problem) is None ==> {
            let solution = self.program->Some_0;
            &&& self.region_run.answered_by(
                arithmetic,
                *problem.moments,
                *problem.y,
                solution.eta,
                solution.multipliers,
                self.size,
                self.region,
            )
            &&& self.region matches Ok(Some(points)) ==> {
                let ends = self.narrowed(problem, points);
                &&& problem.hybrid == SmoothnessHybrid::Flci ==> {
                    &&& self.gamma_full@ == theta_test::spread(
                        problem.full.rows_for_arp@,
                        solution.multipliers@,
                        problem.y_full.len() as int,
                    )
                    &&& arithmetic.slopes(
                        problem.flci->Some_0,
                        problem.full.sigma,
                        *problem.y_full,
                        self.gamma_full,
                        self.region_run.sigma_b2,
                        problem.theta,
                        self.slope,
                    )
                }
                &&& arithmetic.standardizes(
                    ends.0,
                    ends.1,
                    self.region_run.sigma_b2,
                    solution.eta,
                    self.statistic,
                )
                &&& self.statistic.inside() ==> arithmetic.quantiles(
                    self.size,
                    self.statistic.zlo,
                    self.statistic.zup,
                    self.quantile,
                )
            }
        }
    }
}

/// Tests one value of the target parameter; `Ok(true)` rejects it.
///
/// A program that cannot be solved rejects, and so does the first stage of a
/// hybrid. Otherwise the truncation points of the multipliers, narrowed by the
/// hybrid, decide.
pub fn smoothness_dual_conditional_test<T: TestArithmetic>(
    problem: &SmoothnessProblem<'_>,
    arithmetic: &T,
) -> (rejected: Result<bool, HonestError>)
    requires
        problem.shaped(),
        arithmetic.ready(),
    ensures
        exists|run: SmoothnessTestRun| #[trigger]
            run.answered_by(*arithmetic, *problem) && rejected == run.verdict(*problem),
{
    let ghost mut run: SmoothnessTestRun = arbitrary();
    let level = problem.level;
    let size = match problem.hybrid {
        SmoothnessHybrid::ArpOnly => level.alpha,
        SmoothnessHybrid::LeastFavorable => arithmetic.size(level.alpha, level.kappa),
        SmoothnessHybrid::Flci => arithmetic.size(level.alpha, level.kappa),
    };
    let program = arithmetic.solve(problem.moments, problem.y);
    proof {
        run.size = size;
        run.program = program;
    }
    let solution = match program {
        None => {
            assert(run.answered_by(*arithmetic, *problem));
            return Ok(true);
        },
        Some(solution) => solution,
    };
    match problem.hybrid {
        SmoothnessHybrid::ArpOnly => {},
        SmoothnessHybrid::LeastFavorable => {
            if level.lf_cv.less(solution.eta) {
                assert(run.answered_by(*arithmetic, *problem));
                return Ok(true);
            }
        },
        SmoothnessHybrid::Flci => {
            match problem.flci {
                None => {
                    assert(run.answered_by(*arithmetic, *problem));
                    return Err(HonestError::MissingHybridData);
                },
                Some(data) => {
                    let first = arithmetic.first_stage(data, problem.y_full, problem.theta);
                    proof {
                        run.first = first;
                    }
                    if first.is_rejected() {
                        assert(run.answered_by(*arithmetic, *problem));
                        return Ok(true);
                    }
                },
            }
        },
    }
    let (region, Ghost(region_run), sigma_b2) = region_along_multipliers(
        problem.moments,
        problem.y,
        solution.eta,
        &solution.multipliers,
        size,
        arithmetic,
    );
    proof {
        run.region_run = region_run;
        run.region = region;
    }
    let (vlo, vup) = match region {
        Err(error) => {
            assert(run.answered_by(*arithmetic, *problem));
            return Err(error);
        },
        Ok(None) => {
            assert(run.answered_by(*arithmetic, *problem));
            return Ok(Real::zero().less(solution.eta));
        },
        Ok(Some(points)) => points,
    };
    let (low, high) = match problem.hybrid {
        SmoothnessHybrid::ArpOnly => (vlo, vup),
        SmoothnessHybrid::LeastFavorable => (vlo, vup.min(level.lf_cv)),
        SmoothnessHybrid::Flci => {
            match problem.flci {
                None => {
                    assert(false);
                    (vlo, vup)
                },
                Some(data) => {
                    let gamma_full = scatter(
                        problem.full.rows_for_arp.as_slice(),
                        solution.multipliers.as_slice(),
                        problem.y_full.len(),
                    );
                    let slope = arithmetic.slope(
                        data,
                        &problem.full.sigma,
                        problem.y_full,
                        &gamma_full,
                        sigma_b2,
                        problem.theta,
                    );
                    proof {
                        run.gamma_full = gamma_full;
                        run.slope = slope;
                    }
                    let (lower, upper) = flci_vlo_vup(slope);
                    (vlo.max(lower), vup.min(upper))
                },
            }
        },
    };
    let statistic = arithmetic.standardize(low, high, sigma_b2, solution.eta);
    proof {
        run.statistic = statistic;
    }
    if !statistic.is_inside() {
        assert(run.answered_by(*arithmetic, *problem));
        return Ok(false);
    }
    let critical = arithmetic.quantile(size, statistic.zlo, statistic.zup);
    proof {
        run.quantile = critical;
        assert(run.answered_by(*arithmetic, *problem));
    }
    decide_conditionally(statistic, critical)
}

/// The tests of values of the target under a smoothness restriction.
pub struct SmoothnessTests<'a, T> {
    /// The arithmetic.
    pub arithmetic: &'a T,
    /// The moments that enter the test.
    pub moments: &'a Moments,
    /// All moments.
    pub full: &'a FullMoments,
    /// Level of the test.
    pub level: TestLevel,
    /// First stage of the test.
    pub hybrid: SmoothnessHybrid,
    /// What the first stage by a fixed-length interval rests on.
    pub flci: &'a Option<SmoothnessFlciHybridData>,
}

impl<'a, T: TestArithmetic> SmoothnessTests<'a, T> {
    /// Whether values can be tested.
    pub open spec fn ready(self) -> bool {
        &&& self.arithmetic.ready()
        &&& self.full.shaped()
    }

    /// The test of one value.
    pub open spec fn problem(
        self,
        theta: Real,
        y: Vec<Real>,
        y_full: Vec<Real>,
    ) -> SmoothnessProblem<
        'a,
    > {
        SmoothnessProblem {
            moments: self.moments,
            y: &y,
            full: self.full,
            y_full: &y_full,
            theta,
            level: self.level,
            hybrid: self.hybrid,
            flci: self.flci,
        }
    }

    /// Whether the test of a value came about like this: an error where the
    /// moments cannot be tested, else accepted exactly where the conditional
    /// test does not reject.
    pub open spec fn decided(
        self,
        theta: Real,
        y: Vec<Real>,
        y_full: Vec<Real>,
        run: SmoothnessTestRun,
        verdict: Result<bool, HonestError>,
        accepted: Result<bool, String>,
    ) -> bool {
        &&& match inversion::moments_fault(*self.moments) {
            Some(error) => verdict == Err::<bool, HonestError>(error),
            None => {
                &&& self.moments.moved(*self.arithmetic, theta, y@)
                &&& self.full.moved(*self.arithmetic, theta, y_full@)
                &&& run.answered_by(*self.arithmetic, self.problem(theta, y, y_full))
                &&& verdict == theta_test::negated(run.verdict(self.problem(theta, y, y_full)))
            },
        }
        &&& inversion::told(*self.arithmetic, verdict, accepted)
    }

    /// Whether `accepted` is what the test says of a value.
    pub open spec fn decides(self, theta: Real, accepted: Result<bool, String>) -> bool {
        exists|
            y: Vec<Real>,
            y_full: Vec<Real>,
            run: SmoothnessTestRun,
            verdict: Result<bool, HonestError>,
        | #[trigger]
            self.decided(theta, y, y_full, run, verdict, accepted)
    }

    /// Whether a value of the target is accepted.
    pub fn decide(&self, theta: Real) -> (accepted: Result<bool, String>)
        requires
            self.ready(),
        ensures
            self.decides(theta, accepted),
    {
        let ghost mut at: (Vec<Real>, Vec<Real>) = arbitrary();
        let ghost mut run: SmoothnessTestRun = arbitrary();
        let verdict = match find_moments_fault(self.moments) {
            Some(error) => Err(error),
            None => {
                let y = self.moments.at(theta, self.arithmetic);
                let y_full = self.full.at(theta, self.arithmetic);
                let problem = SmoothnessProblem {
                    moments: self.moments,
                    y: &y,
                    full: self.full,
                    y_full: &y_full,
                    theta,
                    level: self.level,
                    hybrid: self.hybrid,
                    flci: self.flci,
                };
                let rejected = smoothness_dual_conditional_test(&problem, self.arithmetic);
                proof {
                    at = (y, y_full);
                    run = choose|run: SmoothnessTestRun| #[trigger]
                        run.answered_by(*self.arithmetic, problem) && rejected == run.verdict(
                            problem,
                        );
                }
                match rejected {
                    Ok(rejected) => Ok(!rejected),
                    Err(error) => Err(error),
                }
            },
        };
        let ghost said = verdict;
        let accepted = match verdict {
            Ok(kept) => Ok(kept),
            Err(error) => Err(self.arithmetic.describe(&error)),
        };
        assert(self.decided(theta, at.0, at.1, run, said, accepted));
        accepted
    }
}

/// Test inversion: a value of the target is kept exactly where the conditional
/// test of the moments at that value does not reject it.
pub proof fn a_value_is_kept_exactly_where_its_test_does_not_reject<T: TestArithmetic>(
    tests: SmoothnessTests<'_, T>,
    theta: Real,
    kept: bool,
)
    requires
        tests.decides(theta, Ok(kept)),
    ensures
        inversion::moments_fault(*tests.moments) is None,
        exists|y: Vec<Real>, y_full: Vec<Real>, run: SmoothnessTestRun|
            tests.moments.moved(*tests.arithmetic, theta, y@) && tests.full.moved(
                *tests.arithmetic,
                theta,
                y_full@,
            ) && #[trigger] run.answered_by(*tests.arithmetic, tests.problem(theta, y, y_full))
                && run.verdict(tests.problem(theta, y, y_full)) == Ok::<bool, HonestError>(!kept),
{
    let (y, y_full, run, verdict) = choose|
        y: Vec<Real>,
        y_full: Vec<Real>,
        run: SmoothnessTestRun,
        verdict: Result<bool, HonestError>,
    | #[trigger]
        tests.decided(theta, y, y_full, run, verdict, Ok(kept));
    assert(run.answered_by(*tests.arithmetic, tests.problem(theta, y, y_full)));
}

/// Where the first stage moves along the statistic in a straight line, it does not
/// reject exactly between the truncation points that it implies.
pub proof fn the_first_stage_accepts_between_its_points(
    slope: HybridSlope,
    upper: Real,
    lower: Real,
    start: int,
    x: Real,
    read: spec_fn(Real) -> int,
)
    requires
        read(Real::zero_spec()) == 0,
        forall|a: Real, b: Real|
            !a.nan() && !b.nan() ==> (#[trigger] a.le(b) <==> read(a) <= read(b)),
        slope.slope.lt(Real { bits: NEGATIVE_SLOPE_BITS }) || (Real {
            bits: POSITIVE_SLOPE_BITS,
        }).lt(slope.slope),
        !slope.at_upper.nan(),
        !slope.at_lower.nan(),
        read(slope.slope) * read(slope.at_upper) + start == read(upper),
        -(read(slope.slope) * read(slope.at_lower) + start) == read(lower),
        x.finite(),
        slope.at_upper.finite(),
        slope.at_lower.finite(),
    ensures
        ({
            let stage = read(slope.slope) * read(x) + start;
            slope.points().0.le(x) && x.le(slope.points().1) <==> stage <= read(upper) && -stage
                <= read(lower)
        }),
{
    let zero = Real::zero_spec();
    let s = read(slope.slope);
    let v = read(x);
    let up = read(slope.at_upper);
    let low = read(slope.at_lower);
    assert(x.le(slope.at_upper) <==> v <= up);
    assert(slope.at_upper.le(x) <==> up <= v);
    assert(x.le(slope.at_lower) <==> v <= low);
    assert(slope.at_lower.le(x) <==> low <= v);
    assert(zero.le(slope.slope) <==> 0 <= s);
    assert(slope.slope.le(zero) <==> s <= 0);
    if (Real { bits: POSITIVE_SLOPE_BITS }).lt(slope.slope) {
        assert(s > 0);
        assert(s * v <= s * up <==> v <= up) by (nonlinear_arith)
            requires
                s > 0,
        ;
        assert(s * low <= s * v <==> low <= v) by (nonlinear_arith)
            requires
                s > 0,
        ;
    } else {
        assert(s < 0);
        assert(s * v <= s * up <==> up <= v) by (nonlinear_arith)
            requires
                s < 0,
        ;
        assert(s * low <= s * v <==> v <= low) by (nonlinear_arith)
            requires
                s < 0,
        ;
    }
}

/// The first stage of a hybrid rejects what it should: a program without a solution,
/// an optimum above the least-favorable critical value, and a statistic beyond a
/// limit of the fixed-length interval.
pub proof fn the_first_stage_rejects<T: TestArithmetic>(
    run: SmoothnessTestRun,
    arithmetic: T,
    problem: SmoothnessProblem<'_>,
)
    requires
        run.answered_by(arithmetic, problem),
    ensures
        run.program is None ==> run.verdict(problem) == Ok::<bool, HonestError>(true),
        problem.hybrid == SmoothnessHybrid::LeastFavorable ==> (run.program matches Some(
            solution,
        ) ==> problem.level.lf_cv.lt(solution.eta) ==> run.verdict(problem) == Ok::<
            bool,
            HonestError,
        >(true)),
        problem.hybrid == SmoothnessHybrid::Flci && run.program is Some && *problem.flci is Some && (
        run.first.upper.lt(run.first.value) || run.first.lower.lt(run.first.value.neg_spec()))
            ==> run.verdict(problem) == Ok::<bool, HonestError>(true),
        run.verdict(problem) == Ok::<bool, HonestError>(true) && problem.hybrid
            == SmoothnessHybrid::ArpOnly && run.program is Some ==> Real::zero_spec().lt(
            run.program->Some_0.eta,
        ) || Real::zero_spec().lt(run.statistic.maxstat),
{
}

/// The conditional test of a hybrid standardizes the optimum between truncation
/// points that the first stage narrowed and never widened, and takes its quantile at
/// the whole size without a first stage, else at the size that is left.
pub proof fn the_second_stage_is_narrowed_and_sized<T: TestArithmetic>(
    run: SmoothnessTestRun,
    arithmetic: T,
    problem: SmoothnessProblem<'_>,
    found: (Real, Real),
) -> (points: (Real, Real))
    requires
        run.answered_by(arithmetic, problem),
        run.first_verdict(problem) is None,
        run.region == Ok::<Option<(Real, Real)>, HonestError>(Some(found)),
        !found.0.nan(),
        !found.1.nan(),
        !problem.level.lf_cv.nan(),
    ensures
        arithmetic.standardizes(
            points.0,
            points.1,
            run.region_run.sigma_b2,
            run.program->Some_0.eta,
            run.statistic,
        ),
        found.0.le(points.0),
        points.1.le(found.1),
        problem.hybrid == SmoothnessHybrid::ArpOnly ==> points == found && run.size
            == problem.level.alpha,
        problem.hybrid == SmoothnessHybrid::LeastFavorable ==> points.1.le(problem.level.lf_cv),
        problem.hybrid != SmoothnessHybrid::ArpOnly ==> arithmetic.sizes(
            problem.level.alpha,
            problem.level.kappa,
            run.size,
        ),
        run.statistic.inside() ==> arithmetic.quantiles(
            run.size,
            run.statistic.zlo,
            run.statistic.zup,
            run.quantile,
        ),
{
    run.narrowed(problem, found)
}

} // verus!
