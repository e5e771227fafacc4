//! The conditional test of one value of the target parameter.
//!
//! The test solves a linear program, and rejects or accepts by where its
//! optimum stands against a truncated normal distribution. The numbers come
//! from the functions that a caller hands in; which of them is needed, on what,
//! and what follows from it is decided here.

use crate::dual;
use crate::dual::{
    dual_acceptance_region, dual_conditional_test, dual_search_bounds, DualArithmetic,
};
use crate::errors::HonestError;
use crate::matrix;
use crate::matrix::scatter;
use crate::moments::{Moments, TestArithmetic, TestLevel};
use crate::number::Real;
use crate::vertices;
use crate::vertices::{
    binding_multipliers, recover_dual_vertex_from_binding, VertexArithmetic, VertexFit, VertexTrial,
};
use vstd::prelude::*;

verus! {

/// The bits of `1e-4`, up to which a row counts as binding.
pub const BINDING_SLACK_BITS: u64 = 0x3f1a36e2eb1c432d;

/// The bits of the machine epsilon, up to which a variance counts as zero.
pub const EPSILON_BITS: u64 = 0x3cb0000000000000;

/// The bits of `1e-12`, up to which a covariance counts as zero.
pub const COVARIANCE_FLOOR_BITS: u64 = 0x3d719799812dea11;

/// Optimum of the program behind the test.
#[derive(Debug, PartialEq, Eq)]
pub struct ProgramSolution {
    /// Optimal value.
    pub eta: Real,
    /// Nuisance parameters at the optimum.
    pub delta: Vec<Real>,
    /// Multipliers of the rows, where the program gave them.
    pub multipliers: Vec<Real>,
}

/// A row's covariance with the binding direction, and the truncation point it
/// implies.
#[derive(Clone, Copy, Debug, PartialEq, Eq, Structural)]
pub struct RowTerm {
    /// Covariance of the row's contrast with the binding direction.
    pub rho: Real,
    /// Truncation point of the row.
    pub maximand: Real,
}

/// A statistic with the limits of its conditional distribution, in units of
/// its standard deviation.
#[derive(Clone, Copy, Debug, PartialEq, Eq, Structural)]
pub struct Standardized {
    /// Lower truncation point.
    pub zlo: Real,
    /// Upper truncation point.
    pub zup: Real,
    /// The statistic.
    pub maxstat: Real,
}

impl Standardized {
    /// Whether the statistic lies between its truncation points.
    pub open spec fn inside(self) -> bool {
        self.zlo.le(self.maxstat) && self.maxstat.le(self.zup)
    }

    /// Whether the statistic lies between its truncation points.
    pub fn is_inside(self) -> (r: bool)
        ensures
            r == self.inside(),
    {
        self.zlo.at_most(self.maxstat) && self.maxstat.at_most(self.zup)
    }

    /// Whether the statistic lies above a critical value that counts as zero
    /// where it is negative.
    pub open spec fn exceeds(self, critical: Real) -> bool {
        critical.max_spec(Real::zero_spec()).lt(self.maxstat)
    }

    /// Whether the statistic lies above a critical value that counts as zero
    /// where it is negative.
    pub fn is_above(self, critical: Real) -> (r: bool)
        ensures
            r == self.exceeds(critical),
    {
        critical.max(Real::zero()).less(self.maxstat)
    }
}

/// What the conditional distribution says of a statistic: not rejected outside
/// the truncation points, else rejected where it exceeds the quantile.
pub open spec fn conditional_verdict(
    statistic: Standardized,
    quantile: Result<Real, String>,
) -> Result<
    bool,
    HonestError,
> {
    if !statistic.inside() {
        Ok(false)
    } else {
        match quantile {
            Ok(critical) => Ok(statistic.exceeds(critical)),
            Err(message) => Err(HonestError::Numerical { message }),
        }
    }
}

/// Decides by the conditional distribution of a statistic, given the quantile
/// between its truncation points.
pub fn decide_conditionally(statistic: Standardized, quantile: Result<Real, String>) -> (rejected:
    Result<bool, HonestError>)
    ensures
        rejected == conditional_verdict(statistic, quantile),
{
    if !statistic.is_inside() {
        return Ok(false);
    }
    match quantile {
        Ok(critical) => Ok(statistic.is_above(critical)),
        Err(message) => Err(HonestError::Numerical { message }),
    }
}

/// Whether a row binds at the optimum.
pub open spec fn binds(slack: Real) -> bool {
    slack.abs_spec().le(Real { bits: BINDING_SLACK_BITS })
}

/// Indices below `end` of the rows that bind.
pub open spec fn binding_rows(slacks: Seq<Real>, end: int) -> Seq<usize>
    decreases end,
{
    if end <= 0 {
        Seq::empty()
    } else if binds(slacks[end - 1]) {
        binding_rows(slacks, end - 1).push((end - 1) as usize)
    } else {
        binding_rows(slacks, end - 1)
    }
}

/// Indices of the rows that bind, given the slack of each.
pub fn find_binding_rows(slacks: &[Real]) -> (binding: Vec<usize>)
    ensures
        binding@ == binding_rows(slacks@, slacks.len() as int),
        matrix::indices_below(binding@, slacks.len() as int),
        binding.len() <= slacks.len(),
{
    let mut binding: Vec<usize> = Vec::new();
    let mut idx: usize = 0;
    while idx < slacks.len()
        invariant
            idx <= slacks.len(),
            binding@ == binding_rows(slacks@, idx as int),
            matrix::indices_below(binding@, idx as int),
            binding.len() <= idx,
        decreases slacks.len() - idx,
    {
        if slacks[idx].abs().at_most(Real { bits: BINDING_SLACK_BITS }) {
            binding.push(idx);
        }
        idx = idx + 1;
    }
    binding
}

/// The binding rows are listed in order, and exactly the rows that bind are
/// listed.
pub proof fn binding_rows_are_exact(slacks: Seq<Real>, end: int)
    requires
        0 <= end <= slacks.len(),
        slacks.len() <= usize::MAX,
    ensures
        forall|k: int|
            0 <= k < binding_rows(slacks, end).len() ==> #[trigger] binding_rows(slacks, end)[k]
                < end && binds(slacks[binding_rows(slacks, end)[k] as int]),
        forall|a: int, b: int|
            0 <= a < b < binding_rows(slacks, end).len() ==> #[trigger] binding_rows(
                slacks,
                end,
            )[a] < #[trigger] binding_rows(slacks, end)[b],
        forall|i: int|
            0 <= i < end && binds(#[trigger] slacks[i]) ==> binding_rows(slacks, end).contains(
                i as usize,
            ),
    decreases end,
{
    if end > 0 {
        binding_rows_are_exact(slacks, end - 1);
        let before = binding_rows(slacks, end - 1);
        let now = binding_rows(slacks, end);
        assert forall|i: int| 0 <= i < end && binds(#[trigger] slacks[i]) implies now.contains(
            i as usize,
        ) by {
            if i < end - 1 {
                let k = choose|k: int| 0 <= k < before.len() && before[k] == i as usize;
                assert(now[k] == i as usize);
            } else {
                assert(now[now.len() - 1] == i as usize);
            }
        }
    }
}

/// The rows `(sd, design)` of the binding rows, one after another.
pub open spec fn binding_matrix(
    sd: Seq<Real>,
    design: Seq<Vec<Real>>,
    binding: Seq<usize>,
    end: int,
) -> Seq<Real>
    decreases end,
{
    if end <= 0 {
        Seq::empty()
    } else {
        binding_matrix(sd, design, binding, end - 1).push(sd[binding[end - 1] as int])
            + design[binding[end - 1] as int]@
    }
}

/// Gathers the rows `(sd, design)` of the binding rows in row-major order.
pub fn gather_binding_matrix(sd: &[Real], design: &[Vec<Real>], binding: &[usize]) -> (flat: Vec<
    Real,
>)
    requires
        matrix::indices_below(binding@, sd.len() as int),
        matrix::indices_below(binding@, design.len() as int),
    ensures
        flat@ == binding_matrix(sd@, design@, binding@, binding.len() as int),
{
    let mut flat: Vec<Real> = Vec::new();
    let mut pos: usize = 0;
    while pos < binding.len()
        invariant
            pos <= binding.len(),
            matrix::indices_below(binding@, sd.len() as int),
            matrix::indices_below(binding@, design.len() as int),
            flat@ == binding_matrix(sd@, design@, binding@, pos as int),
        decreases binding.len() - pos,
    {
        let row: usize = binding[pos];
        flat.push(sd[row]);
        let ghost before = flat@;
        let columns = &design[row];
        let mut j: usize = 0;
        while j < columns.len()
            invariant
                j <= columns.len(),
                flat@ == before + columns@.take(j as int),
            decreases columns.len() - j,
        {
            flat.push(columns[j]);
            proof {
                assert(columns@.take(j as int + 1) =~= columns@.take(j as int).push(
                    columns@[j as int],
                ));
                assert(flat@ =~= before + columns@.take(j as int + 1));
            }
            j = j + 1;
        }
        proof {
            assert(columns@.take(columns.len() as int) =~= columns@);
        }
        pos = pos + 1;
    }
    flat
}

/// `values` on the rows of `indices`, and zero elsewhere.
pub open spec fn spread(indices: Seq<usize>, values: Seq<Real>, rows: int) -> Seq<Real> {
    matrix::scattered(
        indices,
        values,
        rows,
        if indices.len() <= values.len() {
            indices.len() as int
        } else {
            values.len() as int
        },
    )
}

/// The contrast of a row that does not bind: its coefficients on the binding
/// rows, less the row itself.
pub open spec fn row_contrast(
    binding: Seq<usize>,
    coefficients: Seq<Real>,
    rows: int,
    row: int,
) -> Seq<Real> {
    spread(binding, coefficients, rows).update(row, Real::minus_one_spec())
}

/// The truncation points that the rows below `end` imply. A covariance that
/// counts as zero implies none; a positive one raises the lower point, a
/// negative one lowers the upper point.
pub open spec fn truncation(terms: Seq<Option<RowTerm>>, end: int) -> (Real, Real)
    decreases end,
{
    if end <= 0 {
        (Real::neg_infinity_spec(), Real::infinity_spec())
    } else {
        let (vlo, vup) = truncation(terms, end - 1);
        match terms[end - 1] {
            None => (vlo, vup),
            Some(term) => if term.rho.abs_spec().le(Real { bits: COVARIANCE_FLOOR_BITS }) {
                (vlo, vup)
            } else if Real::zero_spec().lt(term.rho) {
                (vlo.max_spec(term.maximand), vup)
            } else {
                (vlo, vup.min_spec(term.maximand))
            },
        }
    }
}

/// The test along given multipliers.
pub struct AlongMultipliers<'a, T> {
    /// The arithmetic.
    pub arithmetic: &'a T,
    /// The moments.
    pub moments: &'a Moments,
    /// Their values at the tested value of the target.
    pub y: &'a Vec<Real>,
    /// The multipliers.
    pub gamma: &'a Vec<Real>,
    /// The optimum.
    pub eta: Real,
    /// Variance along the multipliers.
    pub sigma_b2: Real,
    /// Size of the test.
    pub size: Real,
}

impl<'a, T: TestArithmetic> DualArithmetic for AlongMultipliers<'a, T> {
    open spec fn ready(&self) -> bool {
        self.arithmetic.ready()
    }

    open spec fn misses(&self, c: Real, by: Result<Real, HonestError>) -> bool {
        self.arithmetic.misses(*self.moments, *self.y, *self.gamma, c, by)
    }

    open spec fn spans(&self, high: Real, low: Real, width: Real) -> bool {
        self.arithmetic.spans(high, low, width)
    }

    open spec fn halves_at(&self, high: Real, low: Real, mid: Real) -> bool {
        self.arithmetic.halves_at(high, low, mid)
    }

    open spec fn roots(&self, value: Real, root: Real) -> bool {
        self.arithmetic.roots(value, root)
    }

    open spec fn starts_low(&self, eta: Real, sigma_b: Real, low: Real) -> bool {
        self.arithmetic.starts_low(eta, sigma_b, low)
    }

    open spec fn starts_high(&self, eta: Real, sigma_b: Real, high: Real) -> bool {
        self.arithmetic.starts_high(eta, sigma_b, high)
    }

    open spec fn standardizes(&self, low: Real, high: Real, statistic: Standardized) -> bool {
        self.arithmetic.standardizes(low, high, self.sigma_b2, self.eta, statistic)
    }

    open spec fn quantiles(&self, zlo: Real, zup: Real, critical: Result<Real, String>) -> bool {
        self.arithmetic.quantiles(self.size, zlo, zup, critical)
    }

    fn miss(&self, c: Real) -> (by: Result<Real, HonestError>) {
        self.arithmetic.miss(self.moments, self.y, self.gamma, c)
    }

    fn width(&self, high: Real, low: Real) -> (width: Real) {
        self.arithmetic.width(high, low)
    }

    fn midpoint(&self, high: Real, low: Real) -> (mid: Real) {
        self.arithmetic.midpoint(high, low)
    }

    fn root(&self, value: Real) -> (root: Real) {
        self.arithmetic.root(value)
    }

    fn below(&self, eta: Real, sigma_b: Real) -> (low: Real) {
        self.arithmetic.below(eta, sigma_b)
    }

    fn above(&self, eta: Real, sigma_b: Real) -> (high: Real) {
        self.arithmetic.above(eta, sigma_b)
    }

    fn standardize(&self, low: Real, high: Real) -> (statistic: Standardized) {
        self.arithmetic.standardize(low, high, self.sigma_b2, self.eta)
    }

    fn quantile(&self, zlo: Real, zup: Real) -> (critical: Result<Real, String>) {
        self.arithmetic.quantile(self.size, zlo, zup)
    }
}

/// The truncation points along multipliers and what they rest on.
pub struct RegionRun {
    /// Variance along the multipliers.
    pub sigma_b2: Real,
    /// Its square root.
    pub sigma_b: Real,
    /// Twenty standard deviations below the optimum.
    pub lower: Real,
    /// Twenty standard deviations above it.
    pub upper: Real,
    /// Where the search for truncation points starts.
    pub bounds: (Real, Real),
    /// The truncation points of a statistic that varies.
    pub points: Result<(Real, Real), HonestError>,
}

impl RegionRun {
    /// Whether `region` are the truncation points along multipliers.
    pub open spec fn answered_by<T: TestArithmetic>(
        self,
        arithmetic: T,
        moments: Moments,
        y: Vec<Real>,
        eta: Real,
        gamma: Vec<Real>,
        size: Real,
        region: Result<Option<(Real, Real)>, HonestError>,
    ) -> bool {
        let along = AlongMultipliers {
            arithmetic: &arithmetic,
            moments: &moments,
            y: &y,
            gamma: &gamma,
            eta,
            sigma_b2: self.sigma_b2,
            size,
        };
        &&& arithmetic.measures(moments.sigma, gamma, self.sigma_b2)
        &&& dual::search_bounds(
            eta,
            self.sigma_b2,
            along,
            self.sigma_b,
            self.lower,
            self.upper,
            self.bounds,
        )
        &&& dual::region_found(
            self.points,
            along,
            eta,
            self.sigma_b2,
            self.bounds.0,
            self.bounds.1,
            region,
        )
    }
}

/// Whether `verdict` is the verdict by multipliers: their truncation points,
/// the upper one capped at the least-favorable critical value, decide by the
/// conditional distribution of the given size.
pub open spec fn judged_along<T: TestArithmetic>(
    run: RegionRun,
    region: Result<Option<(Real, Real)>, HonestError>,
    statistic: Standardized,
    critical: Result<Real, String>,
    arithmetic: T,
    moments: Moments,
    y: Vec<Real>,
    eta: Real,
    gamma: Vec<Real>,
    size: Real,
    lf_cv: Real,
    verdict: Result<bool, HonestError>,
) -> bool {
    let along = AlongMultipliers {
        arithmetic: &arithmetic,
        moments: &moments,
        y: &y,
        gamma: &gamma,
        eta,
        sigma_b2: run.sigma_b2,
        size,
    };
    &&& run.answered_by(arithmetic, moments, y, eta, gamma, size, region)
    &&& dual::dual_answered(region, lf_cv, along, statistic, critical)
    &&& verdict == dual::dual_verdict(region, eta, statistic, critical)
}

/// The truncation points along multipliers.
pub fn region_along_multipliers<T: TestArithmetic>(
    moments: &Moments,
    y: &Vec<Real>,
    eta: Real,
    gamma: &Vec<Real>,
    size: Real,
    arithmetic: &T,
) -> (out: (Result<Option<(Real, Real)>, HonestError>, Ghost<RegionRun>, Real))
    requires
        arithmetic.ready(),
    ensures
        out.1@.answered_by(*arithmetic, *moments, *y, eta, *gamma, size, out.0),
        out.2 == out.1@.sigma_b2,
{
    let sigma_b2 = arithmetic.along(&moments.sigma, gamma);
    let along = AlongMultipliers { arithmetic, moments, y, gamma, eta, sigma_b2, size };
    let bounds = dual_search_bounds(eta, sigma_b2, &along);
    let region = dual_acceptance_region(eta, sigma_b2, bounds.0, bounds.1, &along);
    let ghost mut run: RegionRun = arbitrary();
    proof {
        let (sigma_b, lower, upper) = choose|sigma_b: Real, lower: Real, upper: Real| #[trigger]
            dual::search_bounds(eta, sigma_b2, along, sigma_b, lower, upper, bounds);
        run.sigma_b2 = sigma_b2;
        run.sigma_b = sigma_b;
        run.lower = lower;
        run.upper = upper;
        run.bounds = bounds;
        run.points = choose|points: Result<(Real, Real), HonestError>| #[trigger]
            dual::region_found(points, along, eta, sigma_b2, bounds.0, bounds.1, region);
    }
    (region, Ghost(run), sigma_b2)
}

/// Whether the multipliers lead to the verdict.
pub open spec fn judged_by_multipliers<T: TestArithmetic>(
    arithmetic: T,
    moments: Moments,
    y: Vec<Real>,
    eta: Real,
    gamma: Vec<Real>,
    size: Real,
    lf_cv: Real,
    verdict: Result<bool, HonestError>,
) -> bool {
    exists|
        run: RegionRun,
        region: Result<Option<(Real, Real)>, HonestError>,
        statistic: Standardized,
        critical: Result<Real, String>,
    | #[trigger]
        judged_along(
            run,
            region,
            statistic,
            critical,
            arithmetic,
            moments,
            y,
            eta,
            gamma,
            size,
            lf_cv,
            verdict,
        )
}

/// Tests by multipliers; `Ok(true)` rejects.
fn test_by_multipliers<T: TestArithmetic>(
    moments: &Moments,
    y: &Vec<Real>,
    eta: Real,
    gamma: &Vec<Real>,
    size: Real,
    lf_cv: Real,
    arithmetic: &T,
) -> (rejected: Result<bool, HonestError>)
    requires
        arithmetic.ready(),
    ensures
        judged_by_multipliers(*arithmetic, *moments, *y, eta, *gamma, size, lf_cv, rejected),
{
    let (region, Ghost(run), sigma_b2) = region_along_multipliers(
        moments,
        y,
        eta,
        gamma,
        size,
        arithmetic,
    );
    let ghost found = region;
    let along = AlongMultipliers { arithmetic, moments, y, gamma, eta, sigma_b2, size };
    let rejected = dual_conditional_test(region, eta, lf_cv, &along);
    proof {
        let (statistic, critical) = choose|
            statistic: Standardized,
            critical: Result<Real, String>,
        | #[trigger]
            dual::dual_answered(found, lf_cv, along, statistic, critical) && rejected
                == dual::dual_verdict(found, eta, statistic, critical);
        assert(judged_along(
            run,
            found,
            statistic,
            critical,
            *arithmetic,
            *moments,
            *y,
            eta,
            *gamma,
            size,
            lf_cv,
            rejected,
        ));
    }
    rejected
}

/// The recovery of multipliers from the rows that bind.
pub struct AmongRows<'a, T> {
    /// The arithmetic.
    pub arithmetic: &'a T,
    /// The moments.
    pub moments: &'a Moments,
    /// Their values at the tested value of the target.
    pub y: &'a Vec<Real>,
    /// The optimum.
    pub eta: Real,
}

/// Whether a choice of rows has the multipliers; an empty choice has none.
pub open spec fn chosen_multipliers<T: TestArithmetic>(
    arithmetic: T,
    w_t: Seq<Vec<Real>>,
    chosen: Seq<usize>,
    multipliers: Option<Vec<Real>>,
) -> bool {
    if chosen.len() == 0 {
        multipliers is None
    } else {
        exists|rows: Vec<Vec<Real>>, unit: Vec<Real>, rank: usize| #[trigger]
            vertices::multipliers_of(chosen, w_t, arithmetic, rows, unit, rank, multipliers)
    }
}

impl<'a, T: TestArithmetic> VertexArithmetic for AmongRows<'a, T> {
    open spec fn ready(&self) -> bool {
        self.arithmetic.ready()
    }

    open spec fn rows(&self) -> int {
        self.moments.w_t.len() as int
    }

    open spec fn solves(&self, chosen: Vec<usize>, multipliers: Option<Vec<Real>>) -> bool {
        chosen_multipliers(*self.arithmetic, self.moments.w_t@, chosen@, multipliers)
    }

    open spec fn fits(&self, gamma: Vec<Real>, fit: VertexFit) -> bool {
        self.arithmetic.fits(*self.moments, *self.y, self.eta, gamma, fit)
    }

    fn solve(&self, chosen: &Vec<usize>) -> (multipliers: Option<Vec<Real>>) {
        if chosen.len() == 0 {
            None
        } else {
            binding_multipliers(chosen.as_slice(), self.moments.w_t.as_slice(), self.arithmetic)
        }
    }

    fn fit(&self, gamma: &Vec<Real>) -> (fit: VertexFit) {
        self.arithmetic.fit(self.moments, self.y, self.eta, gamma)
    }
}

/// Whether `recovered` are multipliers recovered from the binding rows.
pub open spec fn recovered_from<T: TestArithmetic>(
    trials: Seq<VertexTrial>,
    arithmetic: T,
    moments: Moments,
    y: Vec<Real>,
    eta: Real,
    binding: Seq<usize>,
    recovered: Result<Vec<Real>, HonestError>,
) -> bool {
    vertices::recovers(
        trials,
        AmongRows { arithmetic: &arithmetic, moments: &moments, y: &y, eta },
        binding,
        y.len() as int,
        moments.dim(),
        recovered,
    )
}

/// The answers that the arithmetic gave in one test.
pub struct ThetaRun {
    /// Size of the second stage.
    pub size: Real,
    /// What the program gave.
    pub program: Option<ProgramSolution>,
    /// Slack of each row.
    pub slacks: Vec<Real>,
    /// The binding rows.
    pub binding: Vec<usize>,
    /// Matrix of the binding rows.
    pub matrix: Vec<Real>,
    /// Its inverse.
    pub inverse: Option<Vec<Real>>,
    /// The choices of rows that were tried for multipliers.
    pub trials: Seq<VertexTrial>,
    /// Multipliers recovered from the binding rows.
    pub recovered: Result<Vec<Real>, HonestError>,
    /// Verdict by multipliers.
    pub dual: Result<bool, HonestError>,
    /// Direction of the binding rows.
    pub direction: Vec<Real>,
    /// Variance along it.
    pub variance: Real,
    /// Coefficients of each row.
    pub coefficients: Seq<Vec<Real>>,
    /// Contrast of each row.
    pub contrasts: Seq<Vec<Real>>,
    /// Term of each row that does not bind.
    pub terms: Seq<Option<RowTerm>>,
    /// The statistic and its limits.
    pub statistic: Standardized,
    /// Quantile between the limits.
    pub quantile: Result<Real, String>,
}

/// Where the decision of a test comes from.
pub enum ThetaRoute {
    /// The program could not be solved, which keeps the value.
    Unsolved,
    /// The optimum exceeds the least-favorable critical value.
    Rejected,
    /// The program gave the multipliers.
    GivenMultipliers,
    /// No row binds.
    NothingBinds,
    /// The multipliers have to be recovered.
    RecoveredMultipliers,
    /// The binding rows have no variance.
    NoVariance,
    /// The truncation points come from the binding rows.
    ClosedForm,
}

impl ThetaRun {
    /// Which way the answers lead.
    pub open spec fn route(self, moments: Moments, lf_cv: Real) -> ThetaRoute {
        match self.program {
            None => ThetaRoute::Unsolved,
            Some(solution) => if lf_cv.lt(solution.eta) {
                ThetaRoute::Rejected
            } else if solution.multipliers.len() == moments.sd.len() {
                ThetaRoute::GivenMultipliers
            } else if self.binding.len() == moments.dim() && self.inverse is Some {
                if self.variance.max_spec(Real::zero_spec()).le(Real { bits: EPSILON_BITS }) {
                    ThetaRoute::NoVariance
                } else {
                    ThetaRoute::ClosedForm
                }
            } else if self.binding.len() == 0 {
                ThetaRoute::NothingBinds
            } else {
                ThetaRoute::RecoveredMultipliers
            },
        }
    }

    /// The verdict that the answers lead to; `Ok(true)` rejects.
    pub open spec fn verdict(self, moments: Moments, lf_cv: Real) -> Result<bool, HonestError> {
        match self.route(moments, lf_cv) {
            ThetaRoute::Unsolved => Ok(false),
            ThetaRoute::Rejected => Ok(true),
            ThetaRoute::GivenMultipliers => self.dual,
            ThetaRoute::NothingBinds => Err(
                HonestError::EmptyBindingSet {
                    eta: self.program->Some_0.eta,
                    rows: moments.sd.len(),
                    cols: (moments.dim() - 1) as usize,
                },
            ),
            ThetaRoute::RecoveredMultipliers => match self.recovered {
                Ok(_) => self.dual,
                Err(error) => Err(error),
            },
            ThetaRoute::NoVariance => Ok(Real::zero_spec().lt(self.program->Some_0.eta)),
            ThetaRoute::ClosedForm => conditional_verdict(self.statistic, self.quantile),
        }
    }

    /// Whether the program was solved below the critical value without giving
    /// multipliers, so that the binding rows decide.
    pub open spec fn looks_at_rows(self, moments: Moments, lf_cv: Real) -> bool {
        &&& self.program is Some
        &&& !lf_cv.lt(self.program->Some_0.eta)
        &&& self.program->Some_0.multipliers.len() != moments.sd.len()
    }

    /// The slacks, the binding rows and their inverse are what they should be.
    pub open spec fn rows_answered<T: TestArithmetic>(
        self,
        arithmetic: T,
        moments: Moments,
        y: Vec<Real>,
    ) -> bool {
        &&& slacks_of(arithmetic, moments, y@, self.program->Some_0, self.slacks@)
        &&& self.binding@ == binding_rows(self.slacks@, self.slacks.len() as int)
        &&& self.binding.len() == moments.dim() ==> {
            &&& self.matrix@ == binding_matrix(
                moments.sd@,
                moments.design@,
                self.binding@,
                self.binding.len() as int,
            )
            &&& arithmetic.inverts(self.matrix, moments.dim() as usize, self.inverse)
        }
    }

    /// The term of row `i` is what the arithmetic gives for its contrast.
    pub open spec fn row_answered<T: TestArithmetic>(
        self,
        arithmetic: T,
        moments: Moments,
        y: Vec<Real>,
        i: int,
    ) -> bool {
        row_term(
            arithmetic,
            moments,
            y,
            self.slacks@,
            self.binding@,
            self.inverse->Some_0,
            self.direction,
            self.coefficients[i],
            self.contrasts[i],
            self.terms[i],
            i,
        )
    }

    /// The truncation points, the statistic and the quantile are what they
    /// should be.
    pub open spec fn closed_form_answered<T: TestArithmetic>(
        self,
        arithmetic: T,
        moments: Moments,
        y: Vec<Real>,
        lf_cv: Real,
    ) -> bool {
        let rows = moments.sd.len() as int;
        let (vlo, vup) = truncation(self.terms, rows);
        &&& self.terms.len() == rows
        &&& forall|i: int|
            0 <= i < rows ==> #[trigger] self.row_answered(arithmetic, moments, y, i)
        &&& arithmetic.standardizes(
            vlo,
            vup.min_spec(lf_cv),
            self.variance.max_spec(Real::zero_spec()),
            self.program->Some_0.eta,
            self.statistic,
        )
        &&& self.statistic.inside() ==> arithmetic.quantiles(
            self.size,
            self.statistic.zlo,
            self.statistic.zup,
            self.quantile,
        )
    }

    /// Every answer that the test needed is one that the arithmetic gives.
    pub open spec fn answered_by<T: TestArithmetic>(
        self,
        arithmetic: T,
        moments: Moments,
        y: Vec<Real>,
        level: TestLevel,
    ) -> bool {
        let rows = moments.sd.len() as int;
        &&& arithmetic.programs(moments, y, self.program)
        &&& arithmetic.sizes(level.alpha, level.kappa, self.size)
        &&& self.looks_at_rows(moments, level.lf_cv) ==> self.rows_answered(
            arithmetic,
            moments,
            y,
        )
        &&& match self.route(moments, level.lf_cv) {
            ThetaRoute::Unsolved => true,
            ThetaRoute::Rejected => true,
            ThetaRoute::NothingBinds => true,
            ThetaRoute::GivenMultipliers => judged_by_multipliers(
                arithmetic,
                moments,
                y,
                self.program->Some_0.eta,
                self.program->Some_0.multipliers,
                self.size,
                level.lf_cv,
                self.dual,
            ),
            ThetaRoute::RecoveredMultipliers => {
                &&& recovered_from(
                    self.trials,
                    arithmetic,
                    moments,
                    y,
                    self.program->Some_0.eta,
                    self.binding@,
                    self.recovered,
                )
                &&& self.recovered is Ok ==> judged_by_multipliers(
                    arithmetic,
                    moments,
                    y,
                    self.program->Some_0.eta,
                    self.recovered->Ok_0,
                    self.size,
                    level.lf_cv,
                    self.dual,
                )
            },
            ThetaRoute::NoVariance => {
                &&& self.direction@ == spread(self.binding@, self.inverse->Some_0@, rows)
                &&& arithmetic.varies(moments.sigma, self.direction, self.variance)
            },
            ThetaRoute::ClosedForm => {
                &&& self.direction@ == spread(self.binding@, self.inverse->Some_0@, rows)
                &&& arithmetic.varies(moments.sigma, self.direction, self.variance)
                &&& self.closed_form_answered(arithmetic, moments, y, level.lf_cv)
            },
        }
    }
}

/// Whether `slacks` are the slacks of all rows at the optimum.
pub open spec fn slacks_of<T: TestArithmetic>(
    arithmetic: T,
    moments: Moments,
    y: Seq<Real>,
    solution: ProgramSolution,
    slacks: Seq<Real>,
) -> bool {
    &&& slacks.len() == y.len()
    &&& forall|i: int|
        0 <= i < slacks.len() ==> arithmetic.slacks(
            y[i],
            moments.sd@[i],
            moments.design@[i],
            solution,
            #[trigger] slacks[i],
        )
}

/// The slacks of all rows at the optimum.
fn all_slacks<T: TestArithmetic>(
    moments: &Moments,
    y: &Vec<Real>,
    solution: &ProgramSolution,
    arithmetic: &T,
) -> (slacks: Vec<Real>)
    requires
        arithmetic.ready(),
        moments.shaped(),
        y.len() == moments.y_base.len(),
    ensures
        slacks_of(*arithmetic, *moments, y@, *solution, slacks@),
{
    let mut slacks: Vec<Real> = Vec::new();
    let mut i: usize = 0;
    while i < y.len()
        invariant
            i <= y.len(),
            slacks.len() == i,
            arithmetic.ready(),
            moments.shaped(),
            y.len() == moments.y_base.len(),
            forall|k: int|
                0 <= k < i ==> arithmetic.slacks(
                    y@[k],
                    moments.sd@[k],
                    moments.design@[k],
                    *solution,
                    #[trigger] slacks@[k],
                ),
        decreases y.len() - i,
    {
        slacks.push(arithmetic.slack(y[i], moments.sd[i], &moments.design[i], solution));
        i = i + 1;
    }
    slacks
}

/// Whether a row that does not bind has the coefficients, the contrast and the
/// term.
pub open spec fn row_term<T: TestArithmetic>(
    arithmetic: T,
    moments: Moments,
    y: Vec<Real>,
    slacks: Seq<Real>,
    binding: Seq<usize>,
    inverse: Vec<Real>,
    direction: Vec<Real>,
    coefficient: Vec<Real>,
    contrast: Vec<Real>,
    value: Option<RowTerm>,
    i: int,
) -> bool {
    if binds(slacks[i]) {
        value is None
    } else {
        &&& arithmetic.combines(moments.sd@[i], moments.design@[i], inverse, coefficient)
        &&& contrast@ == row_contrast(binding, coefficient@, slacks.len() as int, i)
        &&& value is Some
        &&& arithmetic.terms(moments.sigma, y, contrast, direction, value->Some_0)
    }
}

/// The terms of all rows, by the contrasts of those that do not bind.
fn row_terms<T: TestArithmetic>(
    moments: &Moments,
    y: &Vec<Real>,
    slacks: &Vec<Real>,
    binding: &Vec<usize>,
    inverse: &Vec<Real>,
    direction: &Vec<Real>,
    arithmetic: &T,
) -> (out: (Vec<Option<RowTerm>>, Ghost<(Seq<Vec<Real>>, Seq<Vec<Real>>)>))
    requires
        arithmetic.ready(),
        moments.shaped(),
        slacks.len() == moments.y_base.len(),
        matrix::indices_below(binding@, slacks.len() as int),
    ensures
        out.0.len() == slacks.len(),
        forall|i: int|
            0 <= i < slacks.len() ==> #[trigger] row_term(
                *arithmetic,
                *moments,
                *y,
                slacks@,
                binding@,
                *inverse,
                *direction,
                out.1@.0[i],
                out.1@.1[i],
                out.0@[i],
                i,
            ),
{
    let rows: usize = slacks.len();
    let mut terms: Vec<Option<RowTerm>> = Vec::new();
    let ghost mut coeffs: Seq<Vec<Real>> = Seq::empty();
    let ghost mut contrasts: Seq<Vec<Real>> = Seq::empty();
    let mut i: usize = 0;
    while i < rows
        invariant
            i <= rows,
            rows == slacks.len(),
            rows == moments.y_base.len(),
            moments.shaped(),
            terms.len() == i,
            coeffs.len() == i,
            contrasts.len() == i,
            matrix::indices_below(binding@, rows as int),
            arithmetic.ready(),
            forall|k: int|
                0 <= k < i ==> #[trigger] row_term(
                    *arithmetic,
                    *moments,
                    *y,
                    slacks@,
                    binding@,
                    *inverse,
                    *direction,
                    coeffs[k],
                    contrasts[k],
                    terms@[k],
                    k,
                ),
        decreases rows - i,
    {
        if slacks[i].abs().at_most(Real { bits: BINDING_SLACK_BITS }) {
            terms.push(None);
            proof {
                coeffs = coeffs.push(*inverse);
                contrasts = contrasts.push(*inverse);
            }
        } else {
            let row_coefficients = arithmetic.coefficients(
                moments.sd[i],
                &moments.design[i],
                inverse,
            );
            let mut contrast = scatter(binding.as_slice(), row_coefficients.as_slice(), rows);
            proof {
                spread_len(binding@, row_coefficients@, rows as int);
            }
            contrast.set(i, Real::minus_one());
            let value = arithmetic.term(&moments.sigma, y, &contrast, direction);
            terms.push(Some(value));
            proof {
                coeffs = coeffs.push(row_coefficients);
                contrasts = contrasts.push(contrast);
            }
        }
        i = i + 1;
    }
    (terms, Ghost((coeffs, contrasts)))
}

proof fn spread_len(indices: Seq<usize>, values: Seq<Real>, rows: int)
    requires
        0 <= rows,
        matrix::indices_below(indices, rows),
    ensures
        spread(indices, values, rows).len() == rows,
{
    let count = if indices.len() <= values.len() {
        indices.len() as int
    } else {
        values.len() as int
    };
    matrix::scattered_len(indices, values, rows, count);
}

/// The truncation points that the terms of the rows imply.
pub fn truncation_points(terms: &[Option<RowTerm>]) -> (points: (Real, Real))
    ensures
        points == truncation(terms@, terms.len() as int),
{
    let mut vlo = Real::neg_infinity();
    let mut vup = Real::infinity();
    let mut i: usize = 0;
    while i < terms.len()
        invariant
            i <= terms.len(),
            (vlo, vup) == truncation(terms@, i as int),
        decreases terms.len() - i,
    {
        match terms[i] {
            None => {},
            Some(term) => {
                if term.rho.abs().at_most(Real { bits: COVARIANCE_FLOOR_BITS }) {
                } else if Real::zero().less(term.rho) {
                    vlo = vlo.max(term.maximand);
                } else {
                    vup = vup.min(term.maximand);
                }
            },
        }
        i = i + 1;
    }
    (vlo, vup)
}

/// Tests one value of the target parameter, given the moments at it; `Ok(true)`
/// rejects the value.
///
/// A program that cannot be solved keeps the value, so that it can only widen
/// the confidence set. An optimum above the least-favorable critical value
/// rejects. Multipliers that came with the optimum are tested as
/// they are. Otherwise the rows that bind decide: in closed form where they
/// are as many as the unknowns and independent, by recovered multipliers where
/// they are not.
pub fn relative_magnitude_lp_conditional_test_prepared<T: TestArithmetic>(
    moments: &Moments,
    y: &Vec<Real>,
    level: TestLevel,
    arithmetic: &T,
) -> (rejected: Result<bool, HonestError>)
    requires
        moments.shaped(),
        y.len() == moments.y_base.len(),
        arithmetic.ready(),
    ensures
        exists|run: ThetaRun| #[trigger]
            run.answered_by(*arithmetic, *moments, *y, level) && rejected == run.verdict(
                *moments,
                level.lf_cv,
            ),
{
    let rows: usize = moments.sd.len();
    let ghost mut run: ThetaRun = arbitrary();
    let size = arithmetic.size(level.alpha, level.kappa);
    let program = arithmetic.solve(moments, y);
    proof {
        run.size = size;
        run.program = program;
    }
    let solution = match program {
        None => {
            assert(run.answered_by(*arithmetic, *moments, *y, level));
            return Ok(false);
        },
        Some(solution) => solution,
    };
    if level.lf_cv.less(solution.eta) {
        assert(run.answered_by(*arithmetic, *moments, *y, level));
        return Ok(true);
    }
    if solution.multipliers.len() == rows {
        let answer = test_by_multipliers(
            moments,
            y,
            solution.eta,
            &solution.multipliers,
            size,
            level.lf_cv,
            arithmetic,
        );
        proof {
            run.dual = answer;
            assert(run.answered_by(*arithmetic, *moments, *y, level));
        }
        return answer;
    }
    let slacks = all_slacks(moments, y, &solution, arithmetic);
    let binding = find_binding_rows(slacks.as_slice());
    let width: usize = moments.width();
    proof {
        run.slacks = slacks;
        run.binding = binding;
    }
    if binding.len() == width + 1 {
        let flat = gather_binding_matrix(
            moments.sd.as_slice(),
            moments.design.as_slice(),
            binding.as_slice(),
        );
        let inverted = arithmetic.invert(&flat, width + 1);
        proof {
            run.matrix = flat;
            run.inverse = inverted;
        }
        if let Some(inverse) = inverted {
            let direction = scatter(binding.as_slice(), inverse.as_slice(), rows);
            let raw = arithmetic.variance(&moments.sigma, &direction);
            proof {
                run.direction = direction;
                run.variance = raw;
            }
            let variance = raw.max(Real::zero());
            if variance.at_most(Real { bits: EPSILON_BITS }) {
                assert(run.answered_by(*arithmetic, *moments, *y, level));
                return Ok(Real::zero().less(solution.eta));
            }
            let (terms, Ghost(trail)) = row_terms(
                moments,
                y,
                &slacks,
                &binding,
                &inverse,
                &direction,
                arithmetic,
            );
            let (vlo, vup) = truncation_points(terms.as_slice());
            let statistic = arithmetic.standardize(
                vlo,
                vup.min(level.lf_cv),
                variance,
                solution.eta,
            );
            proof {
                run.coefficients = trail.0;
                run.contrasts = trail.1;
                run.terms = terms@;
                run.statistic = statistic;
                assert forall|i: int| 0 <= i < rows implies #[trigger] run.row_answered(
                    *arithmetic,
                    *moments,
                    *y,
                    i,
                ) by {
                    assert(row_term(
                        *arithmetic,
                        *moments,
                        *y,
                        slacks@,
                        binding@,
                        inverse,
                        direction,
                        trail.0[i],
                        trail.1[i],
                        terms@[i],
                        i,
                    ));
                }
            }
            if !statistic.is_inside() {
                assert(run.closed_form_answered(*arithmetic, *moments, *y, level.lf_cv));
                assert(run.answered_by(*arithmetic, *moments, *y, level));
                return Ok(false);
            }
            let critical = arithmetic.quantile(size, statistic.zlo, statistic.zup);
            proof {
                let before = run;
                run.quantile = critical;
                assert forall|i: int| 0 <= i < rows implies #[trigger] run.row_answered(
                    *arithmetic,
                    *moments,
                    *y,
                    i,
                ) by {
                    assert(before.row_answered(*arithmetic, *moments, *y, i));
                }
                assert(run.closed_form_answered(*arithmetic, *moments, *y, level.lf_cv));
                assert(run.answered_by(*arithmetic, *moments, *y, level));
            }
            return decide_conditionally(statistic, critical);
        }
    }
    if binding.len() == 0 {
        assert(run.answered_by(*arithmetic, *moments, *y, level));
        return Err(HonestError::EmptyBindingSet { eta: solution.eta, rows, cols: width });
    }
    let among = AmongRows { arithmetic, moments, y, eta: solution.eta };
    let recovered = recover_dual_vertex_from_binding(
        binding.as_slice(),
        y.len(),
        width + 1,
        &among,
    );
    proof {
        run.trials = choose|trials: Seq<VertexTrial>| #[trigger]
            vertices::recovers(
                trials,
                among,
                binding@,
                y.len() as int,
                width + 1,
                recovered,
            );
        run.recovered = recovered;
        assert(recovered_from(
            run.trials,
            *arithmetic,
            *moments,
            *y,
            solution.eta,
            binding@,
            recovered,
        ));
    }
    match recovered {
        Err(error) => {
            assert(run.answered_by(*arithmetic, *moments, *y, level));
            Err(error)
        },
        Ok(multipliers) => {
            let answer = test_by_multipliers(
                moments,
                y,
                solution.eta,
                &multipliers,
                size,
                level.lf_cv,
                arithmetic,
            );
            proof {
                run.dual = answer;
                assert(run.answered_by(*arithmetic, *moments, *y, level));
            }
            answer
        },
    }
}

/// A verdict turned round: what a test rejects is not accepted.
pub open spec fn negated(verdict: Result<bool, HonestError>) -> Result<bool, HonestError> {
    match verdict {
        Ok(rejected) => Ok(!rejected),
        Err(error) => Err(error),
    }
}

/// Whether `accepted` says of a value of the target whether the test keeps it.
pub open spec fn accepted_by<T: TestArithmetic>(
    arithmetic: T,
    moments: Moments,
    theta: Real,
    level: TestLevel,
    y: Vec<Real>,
    run: ThetaRun,
    accepted: Result<bool, HonestError>,
) -> bool {
    &&& moments.moved(arithmetic, theta, y@)
    &&& run.answered_by(arithmetic, moments, y, level)
    &&& accepted == negated(run.verdict(moments, level.lf_cv))
}

/// Whether a value of the target is accepted: it is where the conditional test
/// of the moments at it does not reject.
pub fn accepts<T: TestArithmetic>(
    moments: &Moments,
    theta: Real,
    level: TestLevel,
    arithmetic: &T,
) -> (accepted: Result<bool, HonestError>)
    requires
        moments.shaped(),
        arithmetic.ready(),
    ensures
        exists|y: Vec<Real>, run: ThetaRun| #[trigger]
            accepted_by(*arithmetic, *moments, theta, level, y, run, accepted),
{
    let y = moments.at(theta, arithmetic);
    let rejected = relative_magnitude_lp_conditional_test_prepared(moments, &y, level, arithmetic);
    let ghost said = rejected;
    let accepted = match rejected {
        Ok(rejected) => Ok(!rejected),
        Err(error) => Err(error),
    };
    proof {
        let run = choose|run: ThetaRun| #[trigger]
            run.answered_by(*arithmetic, *moments, y, level) && said == run.verdict(
                *moments,
                level.lf_cv,
            );
        assert(accepted_by(*arithmetic, *moments, theta, level, y, run, accepted));
    }
    accepted
}

/// The conditional distribution rejects only a positive statistic that lies
/// between its truncation points.
pub proof fn rejection_needs_a_positive_statistic(
    statistic: Standardized,
    quantile: Result<Real, String>,
)
    requires
        conditional_verdict(statistic, quantile) == Ok::<bool, HonestError>(true),
    ensures
        statistic.inside(),
        Real::zero_spec().lt(statistic.maxstat),
{
}

proof fn truncation_points_are_numbers(terms: Seq<Option<RowTerm>>, end: int)
    ensures
        !truncation(terms, end).0.nan(),
        !truncation(terms, end).1.nan(),
    decreases end,
{
    if end > 0 {
        truncation_points_are_numbers(terms, end - 1);
    }
}

/// A row that moves up with the statistic holds it above its truncation point, one
/// that moves down holds it below.
pub proof fn truncation_points_respect_every_row(
    terms: Seq<Option<RowTerm>>,
    end: int,
    i: int,
    term: RowTerm,
)
    requires
        0 <= i < end,
        terms[i] == Some(term),
        !term.maximand.nan(),
        !term.rho.abs_spec().le(Real { bits: COVARIANCE_FLOOR_BITS }),
    ensures
        Real::zero_spec().lt(term.rho) ==> term.maximand.le(truncation(terms, end).0),
        term.rho.lt(Real::zero_spec()) ==> truncation(terms, end).1.le(term.maximand),
    decreases end,
{
    truncation_points_are_numbers(terms, end - 1);
    truncation_points_are_numbers(terms, end);
    if i < end - 1 {
        truncation_points_respect_every_row(terms, end - 1, i, term);
    }
}

/// Every truncation point other than an infinity is that of a row.
pub proof fn truncation_points_come_from_rows(terms: Seq<Option<RowTerm>>, end: int) -> (at: (
    int,
    int,
))
    ensures
        truncation(terms, end).0 == Real::neg_infinity_spec() || (0 <= at.0 < end && (
        terms[at.0] matches Some(term) && !term.rho.lt(Real::zero_spec()) && term.maximand
            == truncation(terms, end).0)),
        truncation(terms, end).1 == Real::infinity_spec() || (0 <= at.1 < end && (
        terms[at.1] matches Some(term) && !Real::zero_spec().lt(term.rho) && term.maximand
            == truncation(terms, end).1)),
    decreases end,
{
    if end <= 0 {
        (0, 0)
    } else {
        let before = truncation_points_come_from_rows(terms, end - 1);
        let was = truncation(terms, end - 1);
        let now = truncation(terms, end);
        (
            if now.0 == was.0 {
                before.0
            } else {
                end - 1
            },
            if now.1 == was.1 {
                before.1
            } else {
                end - 1
            },
        )
    }
}

/// A value at which the optimum exceeds the least-favorable critical value is
/// rejected, and one whose program cannot be solved is kept.
pub proof fn an_optimum_above_the_critical_value_rejects<T: TestArithmetic>(
    arithmetic: T,
    moments: Moments,
    theta: Real,
    level: TestLevel,
    y: Vec<Real>,
    run: ThetaRun,
    accepted: Result<bool, HonestError>,
)
    requires
        accepted_by(arithmetic, moments, theta, level, y, run, accepted),
    ensures
        arithmetic.programs(moments, y, run.program),
        run.program matches Some(solution) ==> level.lf_cv.lt(solution.eta) ==> accepted == Ok::<
            bool,
            HonestError,
        >(false),
        run.program is None ==> accepted == Ok::<bool, HonestError>(true),
{
}

/// Whether truncation points respect a row that does not bind: one that moves up
/// with the statistic lies below the lower point, one that moves down above the
/// upper.
pub open spec fn held_back(term: Option<RowTerm>, points: (Real, Real)) -> bool {
    term matches Some(row) ==> !row.maximand.nan() && !row.rho.abs_spec().le(
        Real { bits: COVARIANCE_FLOOR_BITS },
    ) ==> {
        &&& Real::zero_spec().lt(row.rho) ==> row.maximand.le(points.0)
        &&& row.rho.lt(Real::zero_spec()) ==> points.1.le(row.maximand)
    }
}

/// A conditional test in closed form standardizes the optimum between points of
/// which the upper one does not exceed the least-favorable critical value, and takes
/// its quantile at the size that is left for the second stage.
pub proof fn the_closed_form_is_truncated_and_sized<T: TestArithmetic>(
    arithmetic: T,
    moments: Moments,
    y: Vec<Real>,
    level: TestLevel,
    run: ThetaRun,
) -> (points: (Real, Real))
    requires
        run.answered_by(arithmetic, moments, y, level),
        run.route(moments, level.lf_cv) is ClosedForm,
        !level.lf_cv.nan(),
    ensures
        arithmetic.standardizes(
            points.0,
            points.1,
            run.variance.max_spec(Real::zero_spec()),
            run.program->Some_0.eta,
            run.statistic,
        ),
        points.1.le(level.lf_cv),
        forall|i: int|
            0 <= i < run.terms.len() ==> #[trigger] held_back(run.terms[i], points),
        arithmetic.sizes(level.alpha, level.kappa, run.size),
        run.statistic.inside() ==> arithmetic.quantiles(
            run.size,
            run.statistic.zlo,
            run.statistic.zup,
            run.quantile,
        ),
{
    let rows = moments.sd.len() as int;
    let (vlo, vup) = truncation(run.terms, rows);
    truncation_points_are_numbers(run.terms, rows);
    let points = (vlo, vup.min_spec(level.lf_cv));
    assert forall|i: int| 0 <= i < run.terms.len() implies #[trigger] held_back(
        run.terms[i],
        points,
    ) by {
        if let Some(term) = run.terms[i] {
            if !term.maximand.nan() && !term.rho.abs_spec().le(
                Real { bits: COVARIANCE_FLOOR_BITS },
            ) {
                truncation_points_respect_every_row(run.terms, rows, i, term);
            }
        }
    }
    points
}

/// A verdict by multipliers standardizes the optimum, with the variance along them,
/// between points of which the upper one does not exceed the least-favorable critical
/// value, and takes its quantile at the given size.
pub proof fn multipliers_are_truncated_and_sized<T: TestArithmetic>(
    run: RegionRun,
    region: Result<Option<(Real, Real)>, HonestError>,
    statistic: Standardized,
    critical: Result<Real, String>,
    arithmetic: T,
    moments: Moments,
    y: Vec<Real>,
    eta: Real,
    gamma: Vec<Real>,
    size: Real,
    lf_cv: Real,
    verdict: Result<bool, HonestError>,
) -> (points: (Real, Real))
    requires
        judged_along(
            run,
            region,
            statistic,
            critical,
            arithmetic,
            moments,
            y,
            eta,
            gamma,
            size,
            lf_cv,
            verdict,
        ),
        !lf_cv.nan(),
        region matches Ok(Some(_)),
    ensures
        arithmetic.measures(moments.sigma, gamma, run.sigma_b2),
        arithmetic.standardizes(points.0, points.1, run.sigma_b2, eta, statistic),
        points.1.le(lf_cv),
        region matches Ok(Some(found)) && points.0 == found.0 && (found.1.nan() || points.1.le(
            found.1,
        )),
        statistic.inside() ==> arithmetic.quantiles(size, statistic.zlo, statistic.zup, critical),
        verdict == Ok::<bool, HonestError>(true) ==> statistic.inside() && Real::zero_spec().lt(
            statistic.maxstat,
        ),
{
    let found = region->Ok_0->Some_0;
    (found.0, found.1.min_spec(lf_cv))
}

} // verus!
