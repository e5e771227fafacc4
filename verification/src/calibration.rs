//! Calibration of simultaneous confidence levels.

use crate::errors::HonestError;
use crate::exact;
use crate::input;
use crate::input::{are_finite, HonestEventStudyInput};
use crate::matrix;
use crate::matrix::{filled_row, post_covariance_block};
use crate::number::Real;
use crate::simulation;
use crate::simulation::nth_smallest;
use crate::types::{HonestJointPathConfig, HonestJointPathMethod, InferenceConfig};
use vstd::prelude::*;

verus! {

/// The bits of `1e-12`, at or below which a product of standard deviations
/// counts as zero.
pub const ZERO_PRODUCT_BITS: u64 = 0x3d719799812dea11;

/// The bits of `1e-14`, at or below which a variance counts as zero.
pub const ZERO_VARIANCE_BITS: u64 = 0x3d06849b86a12b9b;

/// Draws or an error, as a sequence.
pub open spec fn viewed(draws: Result<Vec<Real>, String>) -> Result<Seq<Real>, String> {
    match draws {
        Ok(list) => Ok(list@),
        Err(message) => Err(message),
    }
}

/// The arithmetic of confidence levels, correlations and simulated maxima.
pub trait Levels {
    /// Whether the arithmetic takes whatever may be asked of it.
    spec fn ready(&self) -> bool;

    /// Whether `config` is the configuration of a level.
    spec fn is_config(&self, level: Real, config: InferenceConfig) -> bool;

    /// Whether `valid` says if a level lies between zero and one.
    spec fn is_valid(&self, level: Real, valid: bool) -> bool;

    /// Whether `level` shares the error of a configuration among `count`.
    spec fn is_shared(&self, inference: InferenceConfig, count: usize, level: Real) -> bool;

    /// Whether `critical` is the critical value of a level.
    spec fn is_critical(&self, level: Real, critical: Result<Real, String>) -> bool;

    /// Whether `level` is the level of a critical value.
    spec fn is_level(&self, critical: Real, level: Result<Real, String>) -> bool;

    /// Whether `rank` is the place of a level among `count` draws.
    spec fn is_rank(&self, count: usize, level: Real, rank: usize) -> bool;

    /// Whether `product` is the inner product of two vectors.
    spec fn is_dot(&self, left: Seq<Real>, right: Seq<Real>, product: Real) -> bool;

    /// Whether `sum` is the sum of magnitudes.
    spec fn is_sum(&self, values: Seq<Real>, sum: Real) -> bool;

    /// Whether `root` is the square root of a number.
    spec fn is_root(&self, value: Real, root: Real) -> bool;

    /// Whether `product` is the product of two numbers.
    spec fn is_product(&self, left: Real, right: Real, product: Real) -> bool;

    /// Whether `ratio` is a covariance over the product of two deviations.
    spec fn is_ratio(&self, covariance: Real, left: Real, right: Real, ratio: Real) -> bool;

    /// Whether `maxima` are the largest magnitudes of simulated draws with
    /// given correlations.
    spec fn is_maxima(
        &self,
        correlations: Seq<Seq<Real>>,
        draws: usize,
        seed: u64,
        maxima: Result<Seq<Real>, String>,
    ) -> bool;

    /// The configuration of a level.
    fn config(&self, level: Real) -> (config: InferenceConfig)
        requires
            self.ready(),
        ensures
            self.is_config(level, config),
            Real::zero_spec().le(level) && level.le(Real::one_spec()) ==> config.tied(),
    ;

    /// Whether a level lies between zero and one.
    fn valid(&self, level: Real) -> (valid: bool)
        requires
            self.ready(),
        ensures
            self.is_valid(level, valid),
    ;

    /// The level that shares the error of a configuration among `count`.
    fn shared(&self, inference: InferenceConfig, count: usize) -> (level: Real)
        requires
            self.ready(),
        ensures
            self.is_shared(inference, count, level),
    ;

    /// The critical value of a level.
    fn critical(&self, level: Real) -> (critical: Result<Real, String>)
        requires
            self.ready(),
        ensures
            self.is_critical(level, critical),
    ;

    /// The level of a critical value.
    fn level(&self, critical: Real) -> (level: Result<Real, String>)
        requires
            self.ready(),
        ensures
            self.is_level(critical, level),
    ;

    /// The place of a level among `count` draws.
    fn rank(&self, count: usize, level: Real) -> (rank: usize)
        requires
            self.ready(),
        ensures
            self.is_rank(count, level, rank),
    ;

    /// The inner product of two vectors.
    fn dot(&self, left: &Vec<Real>, right: &Vec<Real>) -> (product: Real)
        requires
            self.ready(),
        ensures
            self.is_dot(left@, right@, product),
    ;

    /// The sum of magnitudes.
    fn sum(&self, values: &Vec<Real>) -> (sum: Real)
        requires
            self.ready(),
        ensures
            self.is_sum(values@, sum),
    ;

    /// The square root of a number.
    fn root(&self, value: Real) -> (root: Real)
        requires
            self.ready(),
        ensures
            self.is_root(value, root),
    ;

    /// The product of two numbers.
    fn product(&self, left: Real, right: Real) -> (product: Real)
        requires
            self.ready(),
        ensures
            self.is_product(left, right, product),
    ;

    /// A covariance over the product of two deviations.
    fn ratio(&self, covariance: Real, left: Real, right: Real) -> (ratio: Real)
        requires
            self.ready(),
        ensures
            self.is_ratio(covariance, left, right, ratio),
    ;

    /// The largest magnitudes of simulated draws with given correlations.
    fn maxima(&self, correlations: &Vec<Vec<Real>>, draws: usize, seed: u64) -> (maxima: Result<
        Vec<Real>,
        String,
    >)
        requires
            self.ready(),
        ensures
            self.is_maxima(
                matrix::rows_of(correlations@),
                draws,
                seed,
                viewed(maxima),
            ),
            maxima matches Ok(found) ==> found.len() == draws,
    ;
}

/// The arithmetic of [`Levels`].
pub struct LevelArithmetic<LC, LV, LS, LK, LL, LR, LD, LM, LQ, LP, LT, LX> {
    /// Configuration of a level.
    pub configure: LC,
    /// Whether a level lies between zero and one.
    pub validate: LV,
    /// Level that shares an error.
    pub share: LS,
    /// Critical value of a level.
    pub criticize: LK,
    /// Level of a critical value.
    pub cover: LL,
    /// Place of a level among draws.
    pub place: LR,
    /// Inner product.
    pub multiply: LD,
    /// Sum of magnitudes.
    pub total: LM,
    /// Square root.
    pub extract: LQ,
    /// Product of two numbers.
    pub scale: LP,
    /// Covariance over the product of two deviations.
    pub divide: LT,
    /// Largest magnitudes of simulated draws.
    pub simulate: LX,
}

impl<
    LC: Fn(Real) -> InferenceConfig,
    LV: Fn(Real) -> bool,
    LS: Fn(InferenceConfig, usize) -> Real,
    LK: Fn(Real) -> Result<Real, String>,
    LL: Fn(Real) -> Result<Real, String>,
    LR: Fn(usize, Real) -> usize,
    LD: Fn(&Vec<Real>, &Vec<Real>) -> Real,
    LM: Fn(&Vec<Real>) -> Real,
    LQ: Fn(Real) -> Real,
    LP: Fn(Real, Real) -> Real,
    LT: Fn(Real, Real, Real) -> Real,
    LX: Fn(&Vec<Vec<Real>>, usize, u64) -> Result<Vec<Real>, String>,
> Levels for LevelArithmetic<LC, LV, LS, LK, LL, LR, LD, LM, LQ, LP, LT, LX> {
    open spec fn ready(&self) -> bool {
        &&& forall|a: Real| #[trigger] call_requires(self.configure, (a,))
        &&& forall|a: Real, config: InferenceConfig|
            Real::zero_spec().le(a) && a.le(Real::one_spec()) && #[trigger] call_ensures(
                self.configure,
                (a,),
                config,
            ) ==> config.tied()
        &&& forall|a: Real| #[trigger] call_requires(self.validate, (a,))
        &&& forall|i: InferenceConfig, n: usize| #[trigger] call_requires(self.share, (i, n))
        &&& forall|a: Real| #[trigger] call_requires(self.criticize, (a,))
        &&& forall|a: Real| #[trigger] call_requires(self.cover, (a,))
        &&& forall|n: usize, a: Real| #[trigger] call_requires(self.place, (n, a))
        &&& forall|v: Vec<Real>, w: Vec<Real>| #[trigger] call_requires(self.multiply, (&v, &w))
        &&& forall|v: Vec<Real>| #[trigger] call_requires(self.total, (&v,))
        &&& forall|a: Real| #[trigger] call_requires(self.extract, (a,))
        &&& forall|a: Real, b: Real| #[trigger] call_requires(self.scale, (a, b))
        &&& forall|a: Real, b: Real, c: Real| #[trigger] call_requires(self.divide, (a, b, c))
        &&& forall|m: Vec<Vec<Real>>, n: usize, s: u64| #[trigger]
            call_requires(self.simulate, (&m, n, s))
        &&& forall|m: Vec<Vec<Real>>, n: usize, s: u64, found: Vec<Real>| #[trigger]
            call_ensures(self.simulate, (&m, n, s), Ok(found)) ==> found.len() == n
    }

    open spec fn is_config(&self, level: Real, config: InferenceConfig) -> bool {
        call_ensures(self.configure, (level,), config)
    }

    open spec fn is_valid(&self, level: Real, valid: bool) -> bool {
        call_ensures(self.validate, (level,), valid)
    }

    open spec fn is_shared(&self, inference: InferenceConfig, count: usize, level: Real) -> bool {
        call_ensures(self.share, (inference, count), level)
    }

    open spec fn is_critical(&self, level: Real, critical: Result<Real, String>) -> bool {
        call_ensures(self.criticize, (level,), critical)
    }

    open spec fn is_level(&self, critical: Real, level: Result<Real, String>) -> bool {
        call_ensures(self.cover, (critical,), level)
    }

    open spec fn is_rank(&self, count: usize, level: Real, rank: usize) -> bool {
        call_ensures(self.place, (count, level), rank)
    }

    open spec fn is_dot(&self, left: Seq<Real>, right: Seq<Real>, product: Real) -> bool {
        exists|v: Vec<Real>, w: Vec<Real>|
            v@ == left && w@ == right && #[trigger] call_ensures(
                self.multiply,
                (&v, &w),
                product,
            )
    }

    open spec fn is_sum(&self, values: Seq<Real>, sum: Real) -> bool {
        exists|v: Vec<Real>| v@ == values && #[trigger] call_ensures(self.total, (&v,), sum)
    }

    open spec fn is_root(&self, value: Real, root: Real) -> bool {
        call_ensures(self.extract, (value,), root)
    }

    open spec fn is_product(&self, left: Real, right: Real, product: Real) -> bool {
        call_ensures(self.scale, (left, right), product)
    }

    open spec fn is_ratio(&self, covariance: Real, left: Real, right: Real, ratio: Real) -> bool {
        call_ensures(self.divide, (covariance, left, right), ratio)
    }

    open spec fn is_maxima(
        &self,
        correlations: Seq<Seq<Real>>,
        draws: usize,
        seed: u64,
        maxima: Result<Seq<Real>, String>,
    ) -> bool {
        exists|m: Vec<Vec<Real>>, found: Result<Vec<Real>, String>|
            matrix::rows_of(m@) == correlations && #[trigger] call_ensures(
                self.simulate,
                (&m, draws, seed),
                found,
            ) && maxima == viewed(found)
    }

    fn config(&self, level: Real) -> (config: InferenceConfig) {
        (self.configure)(level)
    }

    fn valid(&self, level: Real) -> (valid: bool) {
        (self.validate)(level)
    }

    fn shared(&self, inference: InferenceConfig, count: usize) -> (level: Real) {
        (self.share)(inference, count)
    }

    fn critical(&self, level: Real) -> (critical: Result<Real, String>) {
        (self.criticize)(level)
    }

    fn level(&self, critical: Real) -> (level: Result<Real, String>) {
        (self.cover)(critical)
    }

    fn rank(&self, count: usize, level: Real) -> (rank: usize) {
        (self.place)(count, level)
    }

    fn dot(&self, left: &Vec<Real>, right: &Vec<Real>) -> (product: Real) {
        (self.multiply)(left, right)
    }

    fn sum(&self, values: &Vec<Real>) -> (sum: Real) {
        (self.total)(values)
    }

    fn root(&self, value: Real) -> (root: Real) {
        (self.extract)(value)
    }

    fn product(&self, left: Real, right: Real) -> (product: Real) {
        (self.scale)(left, right)
    }

    fn ratio(&self, covariance: Real, left: Real, right: Real) -> (ratio: Real) {
        (self.divide)(covariance, left, right)
    }

    fn maxima(&self, correlations: &Vec<Vec<Real>>, draws: usize, seed: u64) -> (maxima: Result<
        Vec<Real>,
        String,
    >) {
        (self.simulate)(correlations, draws, seed)
    }
}

// ---------------------------------------------------------------------------
// Correlations
// ---------------------------------------------------------------------------

/// A number moved into the range from minus one to one; a NaN stays.
pub open spec fn clamped(value: Real) -> Real {
    if value.lt(Real::minus_one_spec()) {
        Real::minus_one_spec()
    } else if Real::one_spec().lt(value) {
        Real::one_spec()
    } else {
        value
    }
}

fn clamp(value: Real) -> (r: Real)
    ensures
        r == clamped(value),
{
    if value.less(Real::minus_one()) {
        Real::minus_one()
    } else if Real::one().less(value) {
        Real::one()
    } else {
        value
    }
}

/// Whether `entry` is the correlation of two post periods: one on the diagonal,
/// zero where a deviation is negligible.
pub open spec fn is_path_entry<L: Levels>(
    levels: L,
    covariance: Real,
    left: Real,
    right: Real,
    same: bool,
    product: Real,
    ratio: Real,
    entry: Real,
) -> bool {
    if same {
        entry == Real::one_spec()
    } else {
        &&& levels.is_product(left, right, product)
        &&& if product.le(Real { bits: ZERO_PRODUCT_BITS }) {
            entry == Real::zero_spec()
        } else {
            &&& levels.is_ratio(covariance, left, right, ratio)
            &&& entry == clamped(ratio)
        }
    }
}

/// Whether `entry` is the correlation of two post periods.
pub open spec fn has_path_entry<L: Levels>(
    levels: L,
    covariance: Real,
    left: Real,
    right: Real,
    same: bool,
    entry: Real,
) -> bool {
    exists|product: Real, ratio: Real| #[trigger]
        is_path_entry(levels, covariance, left, right, same, product, ratio, entry)
}

/// Whether `correlations` are those of the post periods, given their standard
/// deviations.
pub open spec fn is_path_correlations<L: Levels>(
    levels: L,
    data: HonestEventStudyInput,
    deviations: Seq<Real>,
    correlations: Seq<Seq<Real>>,
) -> bool {
    let num_pre = data.pre_periods@.len() as int;
    let num_post = data.post_periods@.len() as int;
    &&& deviations.len() == num_post
    &&& forall|i: int|
        0 <= i < num_post ==> levels.is_root(
            data.covariance@[num_pre + i]@[num_pre + i].max_spec(Real::zero_spec()),
            #[trigger] deviations[i],
        )
    &&& correlations.len() == num_post
    &&& forall|i: int| 0 <= i < num_post ==> (#[trigger] correlations[i]).len() == num_post
    &&& forall|i: int, j: int|
        0 <= i < num_post && 0 <= j < num_post ==> has_path_entry(
            levels,
            data.covariance@[num_pre + i]@[num_pre + j],
            deviations[i],
            deviations[j],
            i == j,
            #[trigger] correlations[i][j],
        )
}

/// The correlations of the post periods.
pub fn build_post_correlation_block<L: Levels>(data: &HonestEventStudyInput, levels: &L) -> (
correlations: Vec<Vec<Real>>)
    requires
        data.shaped(),
        data.total() <= usize::MAX,
        levels.ready(),
    ensures
        exists|deviations: Seq<Real>| #[trigger]
            is_path_correlations(
                *levels,
                *data,
                deviations,
                matrix::rows_of(correlations@),
            ),
{
    let num_pre: usize = data.num_pre_periods();
    let num_post: usize = data.num_post_periods();
    let mut deviations: Vec<Real> = Vec::new();
    while deviations.len() < num_post
        invariant
            deviations.len() <= num_post,
            num_pre == data.pre_periods@.len(),
            num_post == data.post_periods@.len(),
            data.shaped(),
            data.total() <= usize::MAX,
            levels.ready(),
            forall|i: int|
                0 <= i < deviations.len() ==> levels.is_root(
                    data.covariance@[num_pre + i]@[num_pre + i].max_spec(Real::zero_spec()),
                    #[trigger] deviations@[i],
                ),
        decreases num_post - deviations.len(),
    {
        let at: usize = num_pre + deviations.len();
        assert(data.covariance@[at as int]@.len() == data.total());
        let variance = data.covariance[at][at].max(Real::zero());
        let deviation = levels.root(variance);
        deviations.push(deviation);
    }
    let mut correlations: Vec<Vec<Real>> = Vec::new();
    while correlations.len() < num_post
        invariant
            correlations.len() <= num_post,
            deviations.len() == num_post,
            num_pre == data.pre_periods@.len(),
            num_post == data.post_periods@.len(),
            data.shaped(),
            data.total() <= usize::MAX,
            levels.ready(),
            forall|i: int|
                0 <= i < correlations.len() ==> (#[trigger] correlations@[i])@.len() == num_post,
            forall|i: int, j: int|
                0 <= i < correlations.len() && 0 <= j < num_post ==> has_path_entry(
                    *levels,
                    data.covariance@[num_pre + i]@[num_pre + j],
                    deviations@[i],
                    deviations@[j],
                    i == j,
                    #[trigger] correlations@[i]@[j],
                ),
        decreases num_post - correlations.len(),
    {
        let i: usize = correlations.len();
        let mut row: Vec<Real> = Vec::new();
        while row.len() < num_post
            invariant
                row.len() <= num_post,
                i < num_post,
                deviations.len() == num_post,
                num_pre == data.pre_periods@.len(),
                num_post == data.post_periods@.len(),
                data.shaped(),
                data.total() <= usize::MAX,
                levels.ready(),
                forall|j: int|
                    0 <= j < row.len() ==> has_path_entry(
                        *levels,
                        data.covariance@[num_pre + i]@[num_pre + j],
                        deviations@[i as int],
                        deviations@[j],
                        i == j,
                        #[trigger] row@[j],
                    ),
            decreases num_post - row.len(),
        {
            let j: usize = row.len();
            assert(data.covariance@[num_pre + i]@.len() == data.total());
            let covariance = data.covariance[num_pre + i][num_pre + j];
            let left = deviations[i];
            let right = deviations[j];
            let ghost unasked = Real::zero_spec();
            let entry = if i == j {
                assert(is_path_entry(
                    *levels,
                    covariance,
                    left,
                    right,
                    true,
                    unasked,
                    unasked,
                    Real::one_spec(),
                ));
                Real::one()
            } else {
                let product = levels.product(left, right);
                if product.at_most(Real { bits: ZERO_PRODUCT_BITS }) {
                    assert(is_path_entry(
                        *levels,
                        covariance,
                        left,
                        right,
                        false,
                        product,
                        unasked,
                        Real::zero_spec(),
                    ));
                    Real::zero()
                } else {
                    let ratio = levels.ratio(covariance, left, right);
                    let inside = clamp(ratio);
                    assert(is_path_entry(
                        *levels,
                        covariance,
                        left,
                        right,
                        false,
                        product,
                        ratio,
                        inside,
                    ));
                    inside
                }
            };
            row.push(entry);
        }
        correlations.push(row);
    }
    proof {
        let found = matrix::rows_of(correlations@);
        assert forall|i: int, j: int| 0 <= i < num_post && 0 <= j < num_post implies has_path_entry(
            *levels,
            data.covariance@[num_pre + i]@[num_pre + j],
            deviations@[i],
            deviations@[j],
            i == j,
            #[trigger] found[i][j],
        ) by {
            assert(found[i][j] == correlations@[i]@[j]);
        }
        assert(is_path_correlations(*levels, *data, deviations@, found));
    }
    correlations
}

/// What the correlations of functionals rest on.
pub struct CorrelationRun {
    /// Covariances of the post periods.
    pub block: Seq<Seq<Real>>,
    /// Covariances of the post periods with each functional.
    pub projected: Seq<Seq<Real>>,
    /// Variances of the functionals.
    pub products: Seq<Real>,
    /// Standard deviations of the functionals.
    pub deviations: Seq<Real>,
    /// Covariances of pairs of functionals.
    pub covariances: Seq<Seq<Real>>,
    /// Their ratios to the deviations.
    pub ratios: Seq<Seq<Real>>,
}

impl CorrelationRun {
    /// Whether some functional has no variance.
    pub open spec fn degenerate(self) -> bool {
        exists|i: int|
            0 <= i < self.products.len() && (#[trigger] self.products[i]).max_spec(
                Real::zero_spec(),
            ).le(Real { bits: ZERO_VARIANCE_BITS })
    }

    /// Whether the variances of the functionals came about like this.
    pub open spec fn measured<L: Levels>(
        self,
        levels: L,
        data: HonestEventStudyInput,
        functionals: Seq<Seq<Real>>,
    ) -> bool {
        let num_pre = data.pre_periods@.len() as int;
        let num_post = data.post_periods@.len() as int;
        &&& self.block.len() == num_post
        &&& forall|i: int|
            0 <= i < num_post ==> (#[trigger] self.block[i]).len() == num_post
        &&& forall|i: int, j: int|
            0 <= i < num_post && 0 <= j < num_post ==> #[trigger] self.block[i][j]
                == data.covariance@[num_pre + i]@[num_pre + j]
        &&& self.projected.len() == functionals.len()
        &&& forall|k: int|
            0 <= k < functionals.len() ==> projects(
                levels,
                functionals[k],
                self.block,
                #[trigger] self.projected[k],
            )
        &&& self.products.len() == functionals.len()
        &&& forall|k: int|
            0 <= k < functionals.len() ==> levels.is_dot(
                functionals[k],
                self.projected[k],
                #[trigger] self.products[k],
            )
    }

    /// Whether `correlations` are those of functionals whose variances came
    /// about like this.
    pub open spec fn correlated<L: Levels>(
        self,
        levels: L,
        functionals: Seq<Seq<Real>>,
        correlations: Seq<Seq<Real>>,
    ) -> bool {
        let count = functionals.len() as int;
        &&& self.deviations.len() == count
        &&& forall|k: int|
            0 <= k < count ==> levels.is_root(
                self.products[k].max_spec(Real::zero_spec()),
                #[trigger] self.deviations[k],
            )
        &&& correlations.len() == count
        &&& forall|i: int| 0 <= i < count ==> (#[trigger] correlations[i]).len() == count
        &&& forall|i: int, j: int|
            0 <= i < count && 0 <= j < count ==> (#[trigger] correlations[i][j]) == (if i == j {
                Real::one_spec()
            } else if i < j {
                clamped(self.ratios[i][j])
            } else {
                clamped(self.ratios[j][i])
            })
        &&& forall|i: int, j: int|
            0 <= i < j < count ==> correlates(
                levels,
                functionals[i],
                self.projected[j],
                self.deviations[i],
                self.deviations[j],
                self.covariances[i][j],
                #[trigger] self.ratios[i][j],
            )
    }
}

/// Whether `ratio` comes from the covariance of two functionals and their
/// deviations.
pub open spec fn correlates<L: Levels>(
    levels: L,
    functional: Seq<Real>,
    projected: Seq<Real>,
    left: Real,
    right: Real,
    covariance: Real,
    ratio: Real,
) -> bool {
    levels.is_dot(functional, projected, covariance) && levels.is_ratio(
        covariance,
        left,
        right,
        ratio,
    )
}

/// Whether `projected` are the inner products of a functional with the rows of
/// a matrix.
pub open spec fn projects<L: Levels>(
    levels: L,
    functional: Seq<Real>,
    block: Seq<Seq<Real>>,
    projected: Seq<Real>,
) -> bool {
    &&& projected.len() == block.len()
    &&& forall|r: int|
        0 <= r < block.len() ==> levels.is_dot(functional, block[r], #[trigger] projected[r])
}

fn project<L: Levels>(functional: &Vec<Real>, block: &Vec<Vec<Real>>, levels: &L) -> (projected:
    Vec<Real>)
    requires
        levels.ready(),
    ensures
        projects(*levels, functional@, matrix::rows_of(block@), projected@),
{
    let mut projected: Vec<Real> = Vec::new();
    while projected.len() < block.len()
        invariant
            projected.len() <= block.len(),
            levels.ready(),
            forall|r: int|
                0 <= r < projected.len() ==> levels.is_dot(
                    functional@,
                    block@[r]@,
                    #[trigger] projected@[r],
                ),
        decreases block.len() - projected.len(),
    {
        let r: usize = projected.len();
        projected.push(levels.dot(functional, &block[r]));
    }
    projected
}

/// The correlations of functionals, or the given error where one of them has no
/// variance.
pub fn functional_correlation_matrix<L: Levels>(
    data: &HonestEventStudyInput,
    functionals: &Vec<Vec<Real>>,
    degenerate: HonestError,
    levels: &L,
) -> (correlations: Result<Vec<Vec<Real>>, HonestError>)
    requires
        data.shaped(),
        data.total() <= usize::MAX,
        levels.ready(),
    ensures
        exists|run: CorrelationRun| #[trigger]
            run.measured(*levels, *data, matrix::rows_of(functionals@)) && (
            match correlations {
                Err(error) => run.degenerate() && error == degenerate,
                Ok(found) => !run.degenerate() && run.correlated(
                    *levels,
                    matrix::rows_of(functionals@),
                    matrix::rows_of(found@),
                ),
            }),
{
    let ghost mut run: CorrelationRun = arbitrary();
    let ghost rows = matrix::rows_of(functionals@);
    let count: usize = functionals.len();
    let block = post_covariance_block(
        data.covariance.as_slice(),
        data.num_pre_periods(),
        data.num_post_periods(),
    );
    let ghost block_rows = matrix::rows_of(block@);
    let mut projected: Vec<Vec<Real>> = Vec::new();
    let mut products: Vec<Real> = Vec::new();
    let mut tiny = false;
    while products.len() < count
        invariant
            count == functionals.len(),
            products.len() <= count,
            projected.len() == products.len(),
            levels.ready(),
            rows == matrix::rows_of(functionals@),
            block_rows == matrix::rows_of(block@),
            forall|k: int|
                0 <= k < projected.len() ==> projects(
                    *levels,
                    rows[k],
                    block_rows,
                    (#[trigger] projected@[k])@,
                ),
            forall|k: int|
                0 <= k < products.len() ==> levels.is_dot(
                    rows[k],
                    projected@[k]@,
                    #[trigger] products@[k],
                ),
            tiny == exists|i: int|
                0 <= i < products.len() && (#[trigger] products@[i]).max_spec(
                    Real::zero_spec(),
                ).le(Real { bits: ZERO_VARIANCE_BITS }),
        decreases count - products.len(),
    {
        let k: usize = products.len();
        let ghost before_products = products@;
        let next = project(&functionals[k], &block, levels);
        let product = levels.dot(&functionals[k], &next);
        let small = product.max(Real::zero()).at_most(Real { bits: ZERO_VARIANCE_BITS });
        projected.push(next);
        products.push(product);
        proof {
            if tiny {
                let i = choose|i: int|
                    0 <= i < before_products.len() && (#[trigger] before_products[i]).max_spec(
                        Real::zero_spec(),
                    ).le(Real { bits: ZERO_VARIANCE_BITS });
                assert(products@[i] == before_products[i]);
            }
            if small {
                assert(products@[k as int] == product);
            }
            assert forall|i: int| 0 <= i < products.len() && (#[trigger] products@[i]).max_spec(
                Real::zero_spec(),
            ).le(Real { bits: ZERO_VARIANCE_BITS }) implies tiny || small by {
                if i < k {
                    assert(before_products[i] == products@[i]);
                }
            }
        }
        if small {
            tiny = true;
        }
    }
    proof {
        run.block = block_rows;
        run.projected = matrix::rows_of(projected@);
        run.products = products@;
        assert forall|i: int, j: int|
            0 <= i < block_rows.len() && 0 <= j < block_rows.len() implies #[trigger] block_rows[i][j]
            == data.covariance@[data.pre_periods@.len() + i]@[data.pre_periods@.len() + j] by {
            assert(block_rows[i][j] == block@[i]@[j]);
        }
        assert forall|k: int| 0 <= k < count implies projects(
            *levels,
            rows[k],
            run.block,
            #[trigger] run.projected[k],
        ) by {
            assert(run.projected[k] == projected@[k]@);
        }
        assert forall|k: int| 0 <= k < count implies levels.is_dot(
            rows[k],
            run.projected[k],
            #[trigger] run.products[k],
        ) by {
            assert(run.projected[k] == projected@[k]@);
        }
        assert(run.measured(*levels, *data, rows));
        assert(run.degenerate() == tiny);
    }
    if tiny {
        assert(run.measured(*levels, *data, rows) && run.degenerate());
        return Err(degenerate);
    }
    let mut deviations: Vec<Real> = Vec::new();
    while deviations.len() < count
        invariant
            deviations.len() <= count,
            products.len() == count,
            levels.ready(),
            forall|k: int|
                0 <= k < deviations.len() ==> levels.is_root(
                    products@[k].max_spec(Real::zero_spec()),
                    #[trigger] deviations@[k],
                ),
        decreases count - deviations.len(),
    {
        let k: usize = deviations.len();
        deviations.push(levels.root(products[k].max(Real::zero())));
    }
    let (correlations, Ghost(covariances), Ghost(ratios)) = correlate(
        functionals,
        &projected,
        &deviations,
        levels,
    );
    proof {
        run.deviations = deviations@;
        run.covariances = covariances;
        run.ratios = ratios;
        let found = matrix::rows_of(correlations@);
        assert forall|i: int, j: int| 0 <= i < count && 0 <= j < count implies (
        #[trigger] found[i][j]) == (if i == j {
            Real::one_spec()
        } else if i < j {
            clamped(run.ratios[i][j])
        } else {
            clamped(run.ratios[j][i])
        }) by {
            assert(found[i][j] == correlations@[i]@[j]);
        }
        assert forall|i: int, j: int| 0 <= i < j < count implies correlates(
            *levels,
            rows[i],
            run.projected[j],
            run.deviations[i],
            run.deviations[j],
            run.covariances[i][j],
            #[trigger] run.ratios[i][j],
        ) by {
            assert(run.projected[j] == projected@[j]@);
            assert(rows[i] == functionals@[i]@);
        }
        assert(run.measured(*levels, *data, rows));
        assert(run.correlated(*levels, rows, found));
    }
    Ok(correlations)
}

fn correlate<L: Levels>(
    functionals: &Vec<Vec<Real>>,
    projected: &Vec<Vec<Real>>,
    deviations: &Vec<Real>,
    levels: &L,
) -> (out: (Vec<Vec<Real>>, Ghost<Seq<Seq<Real>>>, Ghost<Seq<Seq<Real>>>))
    requires
        projected.len() == functionals.len(),
        deviations.len() == functionals.len(),
        levels.ready(),
    ensures
        out.0.len() == functionals.len(),
        matrix::has_cols(out.0@, functionals.len() as int),
        forall|i: int, j: int|
            0 <= i < functionals.len() && 0 <= j < functionals.len() ==> (
            #[trigger] out.0@[i]@[j]) == (if i == j {
                Real::one_spec()
            } else if i < j {
                clamped(out.2@[i][j])
            } else {
                clamped(out.2@[j][i])
            }),
        forall|i: int, j: int|
            0 <= i < j < functionals.len() ==> correlates(
                *levels,
                functionals@[i]@,
                projected@[j]@,
                deviations@[i],
                deviations@[j],
                out.1@[i][j],
                #[trigger] out.2@[i][j],
            ),
{
    let count: usize = functionals.len();
    let ghost blank: Seq<Seq<Real>> = Seq::new(
        count as nat,
        |i: int| Seq::new(count as nat, |j: int| Real::zero_spec()),
    );
    let ghost mut covariances: Seq<Seq<Real>> = blank;
    let ghost mut ratios: Seq<Seq<Real>> = blank;
    let mut upper: Vec<Vec<Real>> = Vec::new();
    while upper.len() < count
        invariant
            upper.len() <= count,
            count == functionals.len(),
            projected.len() == count,
            deviations.len() == count,
            levels.ready(),
            covariances.len() == count,
            ratios.len() == count,
            forall|i: int| 0 <= i < upper.len() ==> (#[trigger] upper@[i])@.len() == count,
            forall|i: int, j: int|
                0 <= i < upper.len() && i < j < count ==> (#[trigger] upper@[i]@[j]) == clamped(
                    ratios[i][j],
                ),
            forall|i: int, j: int|
                0 <= i < upper.len() && i < j < count ==> correlates(
                    *levels,
                    functionals@[i]@,
                    projected@[j]@,
                    deviations@[i],
                    deviations@[j],
                    covariances[i][j],
                    #[trigger] ratios[i][j],
                ),
        decreases count - upper.len(),
    {
        let i: usize = upper.len();
        let ghost mut row_covariances: Seq<Real> = Seq::new(
            (i + 1) as nat,
            |j: int| Real::zero_spec(),
        );
        let ghost mut row_ratios: Seq<Real> = row_covariances;
        let mut row = filled_row(i + 1, Real::one());
        while row.len() < count
            invariant
                i < count,
                i < row.len() <= count,
                count == functionals.len(),
                projected.len() == count,
                deviations.len() == count,
                levels.ready(),
                row_covariances.len() == row.len(),
                row_ratios.len() == row.len(),
                forall|j: int|
                    i < j < row.len() ==> (#[trigger] row@[j]) == clamped(row_ratios[j]),
                forall|j: int|
                    i < j < row.len() ==> correlates(
                        *levels,
                        functionals@[i as int]@,
                        projected@[j]@,
                        deviations@[i as int],
                        deviations@[j],
                        row_covariances[j],
                        #[trigger] row_ratios[j],
                    ),
            decreases count - row.len(),
        {
            let j: usize = row.len();
            let covariance = levels.dot(&functionals[i], &projected[j]);
            let ratio = levels.ratio(covariance, deviations[i], deviations[j]);
            assert(levels.is_dot(functionals@[i as int]@, projected@[j as int]@, covariance));
            assert(levels.is_ratio(
                covariance,
                deviations@[i as int],
                deviations@[j as int],
                ratio,
            ));
            row.push(clamp(ratio));
            proof {
                let old_covariances = row_covariances;
                let old_ratios = row_ratios;
                row_covariances = row_covariances.push(covariance);
                row_ratios = row_ratios.push(ratio);
                assert forall|b: int| i < b < row.len() implies correlates(
                    *levels,
                    functionals@[i as int]@,
                    projected@[b]@,
                    deviations@[i as int],
                    deviations@[b],
                    row_covariances[b],
                    #[trigger] row_ratios[b],
                ) by {
                    if b < j {
                        assert(row_ratios[b] == old_ratios[b]);
                        assert(row_covariances[b] == old_covariances[b]);
                    }
                }
            }
        }
        proof {
            let old_covariances = covariances;
            let old_ratios = ratios;
            covariances = covariances.update(i as int, row_covariances);
            ratios = ratios.update(i as int, row_ratios);
            assert forall|a: int, b: int| 0 <= a < i && a < b < count implies (
            #[trigger] upper@[a]@[b]) == clamped(ratios[a][b]) by {
                assert(ratios[a] == old_ratios[a]);
            }
            assert forall|a: int, b: int| 0 <= a <= i && a < b < count implies correlates(
                *levels,
                functionals@[a]@,
                projected@[b]@,
                deviations@[a],
                deviations@[b],
                covariances[a][b],
                #[trigger] ratios[a][b],
            ) by {
                if a < i {
                    assert(ratios[a] == old_ratios[a]);
                    assert(covariances[a] == old_covariances[a]);
                    assert(old_ratios[a][b] == ratios[a][b]);
                } else {
                    assert(ratios[a] == row_ratios);
                    assert(covariances[a] == row_covariances);
                    assert(row_ratios[b] == ratios[a][b]);
                }
            }
        }
        let ghost before = upper@;
        upper.push(row);
        proof {
            assert forall|a: int, b: int| 0 <= a < upper.len() && a < b < count implies (
            #[trigger] upper@[a]@[b]) == clamped(ratios[a][b]) by {
                if a < i {
                    assert(upper@[a] == before[a]);
                    assert(before[a]@[b] == clamped(ratios[a][b]));
                } else {
                    assert(ratios[a] == row_ratios);
                    assert(row@[b] == clamped(row_ratios[b]));
                }
            }
        }
    }
    let entry = |i: usize, j: usize| -> (value: Real)
        requires
            i < count,
            j < count,
            upper.len() == count,
            forall|k: int| 0 <= k < count ==> (#[trigger] upper@[k])@.len() == count,
        ensures
            value == (if i == j {
                Real::one_spec()
            } else if i < j {
                upper@[i as int]@[j as int]
            } else {
                upper@[j as int]@[i as int]
            }),
        {
            if i == j {
                Real::one()
            } else if i < j {
                upper[i][j]
            } else {
                upper[j][i]
            }
        };
    let correlations = matrix::tabulate(count, count, entry);
    proof {
        assert forall|i: int, j: int| 0 <= i < count && 0 <= j < count implies (
        #[trigger] correlations@[i]@[j]) == (if i == j {
            Real::one_spec()
        } else if i < j {
            clamped(ratios[i][j])
        } else {
            clamped(ratios[j][i])
        }) by {
            if i < j {
                assert(upper@[i]@[j] == clamped(ratios[i][j]));
            } else if j < i {
                assert(upper@[j]@[i] == clamped(ratios[j][i]));
            }
        }
    }
    (correlations, Ghost(covariances), Ghost(ratios))
}

/// Correlations are the same both ways, and a functional correlates fully with
/// itself.
pub proof fn correlations_are_symmetric<L: Levels>(
    run: CorrelationRun,
    levels: L,
    functionals: Seq<Seq<Real>>,
    correlations: Seq<Seq<Real>>,
    i: int,
    j: int,
)
    requires
        run.correlated(levels, functionals, correlations),
        0 <= i < functionals.len(),
        0 <= j < functionals.len(),
    ensures
        correlations[i][j] == correlations[j][i],
        correlations[i][i] == Real::one_spec(),
{
}

// ---------------------------------------------------------------------------
// Levels
// ---------------------------------------------------------------------------

/// A level with its critical value, or the error of the latter.
pub open spec fn with_critical(level: Real, critical: Result<Real, String>) -> Result<
    (Real, Real),
    HonestError,
> {
    match critical {
        Ok(value) => Ok((level, value)),
        Err(message) => Err(HonestError::Numerical { message }),
    }
}

/// Whether `out` is a level with its critical value.
pub open spec fn is_plain<L: Levels>(
    levels: L,
    level: Real,
    out: Result<(Real, Real), HonestError>,
) -> bool {
    exists|critical: Result<Real, String>| #[trigger]
        levels.is_critical(level, critical) && out == with_critical(level, critical)
}

/// Whether `out` shares the error among `count`, an invalid level being refused
/// where it is checked.
pub open spec fn is_bonferroni<L: Levels>(
    levels: L,
    inference: InferenceConfig,
    count: usize,
    checked: bool,
    out: Result<(Real, Real), HonestError>,
) -> bool {
    exists|level: Real, valid: bool|
        #[trigger] levels.is_shared(inference, count, level) && #[trigger] levels.is_valid(
            level,
            valid,
        ) && if checked && !valid {
            out == Err::<(Real, Real), HonestError>(HonestError::InvalidBonferroniLevel { level })
        } else {
            is_plain(levels, level, out)
        }
}

/// The place of a rank among `count` draws.
pub open spec fn place_of(rank: usize, count: int) -> int {
    if rank < count {
        rank as int
    } else {
        count - 1
    }
}

/// Whether `out` is the simulated critical value with its level.
pub open spec fn is_simulated<L: Levels>(
    levels: L,
    inference: InferenceConfig,
    correlations: Seq<Seq<Real>>,
    config: HonestJointPathConfig,
    out: Result<(Real, Real), HonestError>,
) -> bool {
    exists|maxima: Result<Seq<Real>, String>|
        #[trigger] levels.is_maxima(
            correlations,
            config.simulation_draws,
            config.simulation_seed,
            maxima,
        ) && match maxima {
            Err(message) => out == Err::<(Real, Real), HonestError>(
                HonestError::Numerical { message },
            ),
            Ok(draws) => is_selected(levels, inference.confidence_level, draws, out),
        }
}

/// Whether `out` is the order statistic of draws at a level, with the level of
/// that critical value.
pub open spec fn is_selected<L: Levels>(
    levels: L,
    level: Real,
    draws: Seq<Real>,
    out: Result<(Real, Real), HonestError>,
) -> bool {
    exists|rank: usize, critical: Real, covered: Result<Real, String>|
        #[trigger] levels.is_rank(draws.len() as usize, level, rank)
            && simulation::order_statistic(
            draws,
            place_of(rank, draws.len() as int),
            critical,
        ) && #[trigger] levels.is_level(critical, covered) && out == (match covered {
            Ok(value) => Ok((value, critical)),
            Err(message) => Err(HonestError::Numerical { message }),
        })
}

/// A level with its critical value.
pub fn plain_level<L: Levels>(levels: &L, level: Real) -> (out: Result<(Real, Real), HonestError>)
    requires
        levels.ready(),
    ensures
        is_plain(*levels, level, out),
{
    match levels.critical(level) {
        Ok(value) => Ok((level, value)),
        Err(message) => Err(HonestError::Numerical { message }),
    }
}

/// The level that shares the error among `count`.
pub fn bonferroni_level<L: Levels>(
    levels: &L,
    inference: InferenceConfig,
    count: usize,
    checked: bool,
) -> (out: Result<(Real, Real), HonestError>)
    requires
        levels.ready(),
    ensures
        is_bonferroni(*levels, inference, count, checked, out),
{
    let level = levels.shared(inference, count);
    let valid = levels.valid(level);
    if checked && !valid {
        return Err(HonestError::InvalidBonferroniLevel { level });
    }
    plain_level(levels, level)
}

/// The simulated critical value with its level.
pub fn simulated_level<L: Levels>(
    levels: &L,
    inference: InferenceConfig,
    correlations: &Vec<Vec<Real>>,
    config: HonestJointPathConfig,
) -> (out: Result<(Real, Real), HonestError>)
    requires
        levels.ready(),
        config.simulation_draws > 0,
    ensures
        is_simulated(*levels, inference, matrix::rows_of(correlations@), config, out),
{
    let simulated = levels.maxima(
        correlations,
        config.simulation_draws,
        config.simulation_seed,
    );
    let ghost said = viewed(simulated);
    assert(levels.is_maxima(
        matrix::rows_of(correlations@),
        config.simulation_draws,
        config.simulation_seed,
        said,
    ));
    match simulated {
        Err(message) => Err(HonestError::Numerical { message }),
        Ok(maxima) => {
            let rank: usize = levels.rank(maxima.len(), inference.confidence_level);
            let place: usize = if rank < maxima.len() {
                rank
            } else {
                maxima.len() - 1
            };
            let critical = nth_smallest(maxima.as_slice(), place);
            let covered = levels.level(critical);
            let ghost asked = covered;
            let out = match covered {
                Ok(value) => Ok((value, critical)),
                Err(message) => Err(HonestError::Numerical { message }),
            };
            proof {
                assert(maxima@.len() as usize == maxima.len());
                assert(levels.is_rank(
                    maxima@.len() as usize,
                    inference.confidence_level,
                    rank,
                ));
                assert(levels.is_level(critical, asked));
                assert(is_selected(*levels, inference.confidence_level, maxima@, out));
            }
            out
        },
    }
}

/// Whether `out` is the level of the post-treatment path.
pub open spec fn is_path_calibration<L: Levels>(
    levels: L,
    data: HonestEventStudyInput,
    inference: InferenceConfig,
    config: HonestJointPathConfig,
    out: Result<(Real, Real), HonestError>,
) -> bool {
    let count = data.post_periods@.len() as int;
    if count == 0 {
        out == Err::<(Real, Real), HonestError>(no_path_error())
    } else if count == 1 {
        is_plain(levels, inference.confidence_level, out)
    } else {
        match config.method {
            HonestJointPathMethod::Bonferroni => is_bonferroni(
                levels,
                inference,
                count as usize,
                true,
                out,
            ),
            HonestJointPathMethod::GaussianSimulated => if config.simulation_draws == 0 {
                out == Err::<(Real, Real), HonestError>(no_draws_error("joint path"))
            } else {
                exists|deviations: Seq<Real>, correlations: Seq<Seq<Real>>| #[trigger]
                    is_path_correlations(levels, data, deviations, correlations) && is_simulated(
                        levels,
                        inference,
                        correlations,
                        config,
                        out,
                    )
            },
        }
    }
}

/// Whether a calibration simulates nothing or has draws to simulate.
pub open spec fn can_draw(config: HonestJointPathConfig) -> bool {
    config.method == HonestJointPathMethod::Bonferroni || config.simulation_draws > 0
}

/// The error of a path without post periods.
pub open spec fn no_path_error() -> HonestError {
    HonestError::NoPostPeriod {
        context: "joint path region requires at least one post-treatment period",
    }
}

/// The error of a simulation without draws.
pub open spec fn no_draws_error(context: &'static str) -> HonestError {
    HonestError::NoSimulationDraws { context }
}

/// The level of the post-treatment path, with its critical value.
pub fn joint_path_level<L: Levels>(
    data: &HonestEventStudyInput,
    inference: InferenceConfig,
    config: HonestJointPathConfig,
    levels: &L,
) -> (out: Result<(Real, Real), HonestError>)
    requires
        data.shaped(),
        data.total() <= usize::MAX,
        levels.ready(),
    ensures
        is_path_calibration(*levels, *data, inference, config, out),
        out matches Ok(found) ==> data.post_periods@.len() >= 2 && config.method
            == HonestJointPathMethod::Bonferroni ==> levels.is_shared(
            inference,
            data.post_periods@.len() as usize,
            found.0,
        ) && levels.is_critical(found.0, Ok(found.1)),
{
    let count: usize = data.num_post_periods();
    if count == 0 {
        return Err(
            HonestError::NoPostPeriod {
                context: "joint path region requires at least one post-treatment period",
            },
        );
    }
    if count == 1 {
        return plain_level(levels, inference.confidence_level);
    }
    match config.method {
        HonestJointPathMethod::Bonferroni => bonferroni_level(levels, inference, count, true),
        HonestJointPathMethod::GaussianSimulated => {
            if config.simulation_draws == 0 {
                return Err(HonestError::NoSimulationDraws { context: "joint path" });
            }
            let correlations = build_post_correlation_block(data, levels);
            simulated_level(levels, inference, &correlations, config)
        },
    }
}

/// Whether `out` is the simulated level of functionals, or the given error where
/// one of them has no variance.
pub open spec fn is_correlated_level<L: Levels>(
    levels: L,
    data: HonestEventStudyInput,
    functionals: Seq<Seq<Real>>,
    inference: InferenceConfig,
    config: HonestJointPathConfig,
    degenerate: HonestError,
    out: Result<(Real, Real), HonestError>,
) -> bool {
    exists|run: CorrelationRun, correlations: Seq<Seq<Real>>|
        #![trigger run.correlated(levels, functionals, correlations)]
        run.measured(levels, data, functionals) && if run.degenerate() {
            out == Err::<(Real, Real), HonestError>(degenerate)
        } else {
            run.correlated(levels, functionals, correlations) && is_simulated(
                levels,
                inference,
                correlations,
                config,
                out,
            )
        }
}

fn correlated_level<L: Levels>(
    data: &HonestEventStudyInput,
    functionals: &Vec<Vec<Real>>,
    inference: InferenceConfig,
    config: HonestJointPathConfig,
    degenerate: HonestError,
    levels: &L,
) -> (out: Result<(Real, Real), HonestError>)
    requires
        data.shaped(),
        data.total() <= usize::MAX,
        config.simulation_draws > 0,
        levels.ready(),
    ensures
        is_correlated_level(
            *levels,
            *data,
            matrix::rows_of(functionals@),
            inference,
            config,
            degenerate,
            out,
        ),
{
    let ghost rows = matrix::rows_of(functionals@);
    let ghost nothing: Seq<Seq<Real>> = Seq::empty();
    let correlated = functional_correlation_matrix(data, functionals, degenerate, levels);
    let ghost run = choose|run: CorrelationRun| #[trigger]
        run.measured(*levels, *data, rows) && (match correlated {
            Err(error) => run.degenerate() && error == degenerate,
            Ok(found) => !run.degenerate() && run.correlated(
                *levels,
                rows,
                matrix::rows_of(found@),
            ),
        });
    match correlated {
        Err(error) => {
            proof {
                let unused = run.correlated(*levels, rows, nothing);
                assert(is_correlated_level(
                    *levels,
                    *data,
                    rows,
                    inference,
                    config,
                    degenerate,
                    Err(error),
                ));
            }
            Err(error)
        },
        Ok(correlations) => {
            let out = simulated_level(levels, inference, &correlations, config);
            assert(run.correlated(*levels, rows, matrix::rows_of(correlations@)));
            out
        },
    }
}

/// Whether `out` is the level of several functionals; a single one keeps its
/// level.
pub open spec fn is_functional_calibration<L: Levels>(
    levels: L,
    data: HonestEventStudyInput,
    functionals: Seq<Seq<Real>>,
    inference: InferenceConfig,
    config: HonestJointPathConfig,
    checked: bool,
    out: Result<(Real, Real), HonestError>,
) -> bool {
    if functionals.len() == 1 {
        is_plain(levels, inference.confidence_level, out)
    } else {
        match config.method {
            HonestJointPathMethod::Bonferroni => is_bonferroni(
                levels,
                inference,
                functionals.len() as usize,
                checked,
                out,
            ),
            HonestJointPathMethod::GaussianSimulated => if checked && config.simulation_draws
                == 0 {
                out == Err::<(Real, Real), HonestError>(no_draws_error("multi FLCI"))
            } else {
                is_correlated_level(
                    levels,
                    data,
                    functionals,
                    inference,
                    config,
                    HonestError::FunctionalVariance,
                    out,
                )
            },
        }
    }
}

/// The level of several functionals, with its critical value. `checked` says
/// whether an invalid level and a simulation without draws are refused.
pub fn functional_level<L: Levels>(
    data: &HonestEventStudyInput,
    functionals: &Vec<Vec<Real>>,
    inference: InferenceConfig,
    config: HonestJointPathConfig,
    checked: bool,
    levels: &L,
) -> (out: Result<(Real, Real), HonestError>)
    requires
        functionals.len() != 1 ==> data.shaped(),
        data.total() <= usize::MAX,
        checked || functionals.len() == 1 || config.method == HonestJointPathMethod::Bonferroni
            || config.simulation_draws > 0,
        levels.ready(),
    ensures
        is_functional_calibration(
            *levels,
            *data,
            matrix::rows_of(functionals@),
            inference,
            config,
            checked,
            out,
        ),
{
    if functionals.len() == 1 {
        return plain_level(levels, inference.confidence_level);
    }
    match config.method {
        HonestJointPathMethod::Bonferroni => bonferroni_level(
            levels,
            inference,
            functionals.len(),
            checked,
        ),
        HonestJointPathMethod::GaussianSimulated => {
            if checked && config.simulation_draws == 0 {
                return Err(HonestError::NoSimulationDraws { context: "multi FLCI" });
            }
            correlated_level(
                data,
                functionals,
                inference,
                config,
                HonestError::FunctionalVariance,
                levels,
            )
        },
    }
}

// ---------------------------------------------------------------------------
// Directions
// ---------------------------------------------------------------------------

/// Whether `checked` says what is wrong with a direction, if anything: its
/// length, an entry, or all of them zero.
pub open spec fn is_direction_check<L: Levels>(
    levels: L,
    direction: Seq<Real>,
    num_post: int,
    sum: Real,
    checked: Result<(), HonestError>,
) -> bool {
    if direction.len() != num_post {
        checked == Err::<(), HonestError>(
            HonestError::DirectionLength {
                found: direction.len() as usize,
                expected: num_post as usize,
            },
        )
    } else if !input::all_finite(direction) {
        checked == Err::<(), HonestError>(HonestError::DirectionNotFinite)
    } else {
        &&& levels.is_sum(direction, sum)
        &&& checked == (if sum.le(Real { bits: input::ZERO_WEIGHT_BITS }) {
            Err::<(), HonestError>(HonestError::DirectionZero)
        } else {
            Ok(())
        })
    }
}

/// Whether `checked` says what is wrong with a direction, if anything.
pub open spec fn direction_checked<L: Levels>(
    levels: L,
    direction: Seq<Real>,
    num_post: int,
    checked: Result<(), HonestError>,
) -> bool {
    exists|sum: Real| #[trigger] is_direction_check(levels, direction, num_post, sum, checked)
}

/// Checks a direction.
pub fn validate_direction<L: Levels>(direction: &Vec<Real>, num_post: usize, levels: &L) -> (
checked: Result<(), HonestError>)
    requires
        levels.ready(),
    ensures
        direction_checked(*levels, direction@, num_post as int, checked),
        checked is Ok ==> direction.len() == num_post,
{
    let ghost unasked = Real::zero_spec();
    if direction.len() != num_post {
        let error = HonestError::DirectionLength { found: direction.len(), expected: num_post };
        assert(is_direction_check(*levels, direction@, num_post as int, unasked, Err(error)));
        return Err(error);
    }
    if !are_finite(direction.as_slice()) {
        let error = HonestError::DirectionNotFinite;
        assert(is_direction_check(*levels, direction@, num_post as int, unasked, Err(error)));
        return Err(error);
    }
    let sum = levels.sum(direction);
    let checked = if sum.at_most(Real { bits: input::ZERO_WEIGHT_BITS }) {
        Err(HonestError::DirectionZero)
    } else {
        Ok(())
    };
    assert(is_direction_check(*levels, direction@, num_post as int, sum, checked));
    checked
}

/// Whether `checked` says what is wrong with a set of directions, if anything:
/// the input, no direction, or the first direction with a fault.
pub open spec fn is_set_check<L: Levels>(
    levels: L,
    data: HonestEventStudyInput,
    directions: Seq<Seq<Real>>,
    checks: Seq<Result<(), HonestError>>,
    checked: Result<(), HonestError>,
) -> bool {
    if data.fault() is Some {
        checked == Err::<(), HonestError>(data.fault()->Some_0)
    } else if directions.len() == 0 {
        checked == Err::<(), HonestError>(HonestError::NoDirection)
    } else {
        &&& 0 < checks.len() <= directions.len()
        &&& forall|i: int|
            0 <= i < checks.len() ==> direction_checked(
                levels,
                directions[i],
                data.post_periods@.len() as int,
                #[trigger] checks[i],
            )
        &&& forall|i: int| 0 <= i < checks.len() - 1 ==> #[trigger] checks[i] is Ok
        &&& checks.len() < directions.len() ==> checks.last() is Err
        &&& checked == checks.last()
    }
}

/// Whether `checked` says what is wrong with a set of directions, if anything.
pub open spec fn directions_checked<L: Levels>(
    levels: L,
    data: HonestEventStudyInput,
    directions: Seq<Seq<Real>>,
    checked: Result<(), HonestError>,
) -> bool {
    exists|checks: Seq<Result<(), HonestError>>| #[trigger]
        is_set_check(levels, data, directions, checks, checked)
}

/// Checks a set of directions.
pub fn validate_direction_set<L: Levels>(
    data: &HonestEventStudyInput,
    directions: &Vec<Vec<Real>>,
    levels: &L,
) -> (checked: Result<(), HonestError>)
    requires
        data.total() <= usize::MAX,
        levels.ready(),
    ensures
        directions_checked(*levels, *data, matrix::rows_of(directions@), checked),
        checked is Ok ==> data.fault() is None && directions.len() > 0 && matrix::has_cols(
            directions@,
            data.post_periods@.len() as int,
        ),
{
    let ghost mut checks: Seq<Result<(), HonestError>> = Seq::empty();
    let ghost rows = matrix::rows_of(directions@);
    match data.validate() {
        Err(error) => {
            assert(is_set_check(*levels, *data, rows, checks, Err(error)));
            return Err(error);
        },
        Ok(()) => {},
    }
    if directions.len() == 0 {
        assert(is_set_check(*levels, *data, rows, checks, Err(HonestError::NoDirection)));
        return Err(HonestError::NoDirection);
    }
    let num_post: usize = data.num_post_periods();
    let mut i: usize = 0;
    while i < directions.len()
        invariant
            i <= directions.len(),
            directions.len() > 0,
            num_post == data.post_periods@.len(),
            data.fault() is None,
            levels.ready(),
            rows == matrix::rows_of(directions@),
            checks.len() == i,
            forall|k: int|
                0 <= k < i ==> direction_checked(
                    *levels,
                    rows[k],
                    num_post as int,
                    #[trigger] checks[k],
                ),
            forall|k: int| 0 <= k < i ==> (#[trigger] checks[k]) == Ok::<(), HonestError>(()),
            forall|k: int| 0 <= k < i ==> (#[trigger] directions@[k])@.len() == num_post,
        decreases directions.len() - i,
    {
        let checked = validate_direction(&directions[i], num_post, levels);
        let ghost before = checks;
        proof {
            checks = checks.push(checked);
            assert forall|k: int| 0 <= k < checks.len() implies direction_checked(
                *levels,
                rows[k],
                num_post as int,
                #[trigger] checks[k],
            ) by {
                if k < i {
                    assert(checks[k] == before[k]);
                }
            }
            assert forall|k: int| 0 <= k < checks.len() - 1 implies (#[trigger] checks[k]) == Ok::<
                (),
                HonestError,
            >(()) by {
                assert(checks[k] == before[k]);
            }
        }
        match checked {
            Err(error) => {
                assert(is_set_check(*levels, *data, rows, checks, Err(error)));
                return Err(error);
            },
            Ok(()) => {},
        }
        i = i + 1;
    }
    assert(is_set_check(*levels, *data, rows, checks, Ok(())));
    Ok(())
}

/// Whether `out` is the level of a set of directions.
pub open spec fn is_direction_calibration<L: Levels>(
    levels: L,
    data: HonestEventStudyInput,
    directions: Seq<Seq<Real>>,
    inference: InferenceConfig,
    config: HonestJointPathConfig,
    checked: Result<(), HonestError>,
    out: Result<(Real, Real), HonestError>,
) -> bool {
    &&& directions_checked(levels, data, directions, checked)
    &&& match checked {
        Err(error) => out == Err::<(Real, Real), HonestError>(error),
        Ok(()) => match config.method {
            HonestJointPathMethod::Bonferroni => is_bonferroni(
                levels,
                inference,
                directions.len() as usize,
                true,
                out,
            ),
            HonestJointPathMethod::GaussianSimulated => if config.simulation_draws == 0 {
                out == Err::<(Real, Real), HonestError>(no_draws_error("directional"))
            } else {
                is_correlated_level(
                    levels,
                    data,
                    directions,
                    inference,
                    config,
                    HonestError::DirectionVariance,
                    out,
                )
            },
        },
    }
}

/// Whether `out` is the level of a set of directions.
pub open spec fn directions_calibrated<L: Levels>(
    levels: L,
    data: HonestEventStudyInput,
    directions: Seq<Seq<Real>>,
    inference: InferenceConfig,
    config: HonestJointPathConfig,
    out: Result<(Real, Real), HonestError>,
) -> bool {
    exists|checked: Result<(), HonestError>| #[trigger]
        is_direction_calibration(levels, data, directions, inference, config, checked, out)
}

/// The level of a set of directions, with its critical value.
pub fn calibrate_directional_region<L: Levels>(
    data: &HonestEventStudyInput,
    directions: &Vec<Vec<Real>>,
    inference: InferenceConfig,
    config: HonestJointPathConfig,
    levels: &L,
) -> (out: Result<(Real, Real), HonestError>)
    requires
        data.total() <= usize::MAX,
        levels.ready(),
    ensures
        directions_calibrated(
            *levels,
            *data,
            matrix::rows_of(directions@),
            inference,
            config,
            out,
        ),
        out is Ok ==> data.fault() is None && directions.len() > 0 && matrix::has_cols(
            directions@,
            data.post_periods@.len() as int,
        ) && can_draw(config),
{
    let ghost rows = matrix::rows_of(directions@);
    let checked = validate_direction_set(data, directions, levels);
    let out = match checked {
        Err(error) => Err(error),
        Ok(()) => {
            proof {
                input::valid_input_is_shaped(*data);
            }
            match config.method {
                HonestJointPathMethod::Bonferroni => bonferroni_level(
                    levels,
                    inference,
                    directions.len(),
                    true,
                ),
                HonestJointPathMethod::GaussianSimulated => {
                    if config.simulation_draws == 0 {
                        Err(HonestError::NoSimulationDraws { context: "directional" })
                    } else {
                        correlated_level(
                            data,
                            directions,
                            inference,
                            config,
                            HonestError::DirectionVariance,
                            levels,
                        )
                    }
                },
            }
        },
    };
    assert(is_direction_calibration(*levels, *data, rows, inference, config, checked, out));
    out
}

// ---------------------------------------------------------------------------
// Laws of the calibrations
// ---------------------------------------------------------------------------

/// With two or more post periods, the Bonferroni level of the path shares the
/// family-wise error among as many parts as there are post periods, and comes
/// with its own critical value.
pub proof fn the_path_shares_the_error_among_its_periods<L: Levels>(
    levels: L,
    data: HonestEventStudyInput,
    inference: InferenceConfig,
    config: HonestJointPathConfig,
    level: Real,
    critical: Real,
)
    requires
        is_path_calibration(levels, data, inference, config, Ok((level, critical))),
        config.method == HonestJointPathMethod::Bonferroni,
        data.post_periods@.len() >= 2,
    ensures
        levels.is_shared(inference, data.post_periods@.len() as usize, level),
        levels.is_valid(level, true),
        levels.is_critical(level, Ok(critical)),
{
}

/// The errors that the periods of a path are allowed together make up the
/// family-wise error, where sharing is exact under a reading.
pub proof fn errors_of_the_periods_add_up<L: Levels>(
    levels: L,
    data: HonestEventStudyInput,
    inference: InferenceConfig,
    config: HonestJointPathConfig,
    level: Real,
    critical: Real,
    read: spec_fn(Real) -> int,
)
    requires
        is_path_calibration(levels, data, inference, config, Ok((level, critical))),
        config.method == HonestJointPathMethod::Bonferroni,
        2 <= data.post_periods@.len() <= usize::MAX,
        forall|of: InferenceConfig, count: usize, shared: Real|
            count > 0 && #[trigger] levels.is_shared(of, count, shared) ==> count * (read(
                Real::one_spec(),
            ) - read(shared)) == read(Real::one_spec()) - read(of.confidence_level),
    ensures
        data.post_periods@.len() * (read(Real::one_spec()) - read(level)) == read(
            Real::one_spec(),
        ) - read(inference.confidence_level),
{
}

/// The Bonferroni level of a path is that of as many directions, such as those
/// that select its periods one by one.
pub proof fn path_and_directions_share_alike<L: Levels>(
    levels: L,
    data: HonestEventStudyInput,
    inference: InferenceConfig,
    config: HonestJointPathConfig,
    directions: Seq<Seq<Real>>,
    out: Result<(Real, Real), HonestError>,
)
    requires
        config.method == HonestJointPathMethod::Bonferroni,
        data.post_periods@.len() >= 2,
        directions.len() == data.post_periods@.len(),
        directions_checked(levels, data, directions, Ok(())),
    ensures
        is_path_calibration(levels, data, inference, config, out) <==> is_direction_calibration(
            levels,
            data,
            directions,
            inference,
            config,
            Ok(()),
            out,
        ),
{
}

/// The Bonferroni level of a path is that of as many functionals, such as those
/// that select its periods one by one.
pub proof fn path_and_functionals_share_alike<L: Levels>(
    levels: L,
    data: HonestEventStudyInput,
    inference: InferenceConfig,
    config: HonestJointPathConfig,
    functionals: Seq<Seq<Real>>,
    out: Result<(Real, Real), HonestError>,
)
    requires
        config.method == HonestJointPathMethod::Bonferroni,
        data.post_periods@.len() >= 1,
        functionals.len() == data.post_periods@.len(),
    ensures
        is_path_calibration(levels, data, inference, config, out) <==> is_functional_calibration(
            levels,
            data,
            functionals,
            inference,
            config,
            true,
            out,
        ),
{
}

/// The Bonferroni level of functionals shares the error among them; a single one
/// keeps it whole.
pub proof fn functionals_share_the_error<L: Levels>(
    levels: L,
    data: HonestEventStudyInput,
    functionals: Seq<Seq<Real>>,
    inference: InferenceConfig,
    config: HonestJointPathConfig,
    checked: bool,
    level: Real,
    critical: Real,
)
    requires
        is_functional_calibration(
            levels,
            data,
            functionals,
            inference,
            config,
            checked,
            Ok((level, critical)),
        ),
        config.method == HonestJointPathMethod::Bonferroni,
    ensures
        functionals.len() == 1 ==> level == inference.confidence_level,
        functionals.len() != 1 ==> levels.is_shared(inference, functionals.len() as usize, level),
        levels.is_critical(level, Ok(critical)),
{
}

/// The Bonferroni level of directions shares the error among them.
pub proof fn directions_share_the_error<L: Levels>(
    levels: L,
    data: HonestEventStudyInput,
    directions: Seq<Seq<Real>>,
    inference: InferenceConfig,
    config: HonestJointPathConfig,
    level: Real,
    critical: Real,
)
    requires
        directions_calibrated(
            levels,
            data,
            directions,
            inference,
            config,
            Ok((level, critical)),
        ),
        config.method == HonestJointPathMethod::Bonferroni,
    ensures
        levels.is_shared(inference, directions.len() as usize, level),
        levels.is_critical(level, Ok(critical)),
{
}

/// A simulated critical value is the draw at the rank of the family-wise level,
/// the last one at most: at least as many draws as that rank lie at or below it,
/// and the level of the periods is that which this critical value covers.
pub proof fn a_simulated_level_covers_its_draws<L: Levels>(
    levels: L,
    inference: InferenceConfig,
    correlations: Seq<Seq<Real>>,
    config: HonestJointPathConfig,
    level: Real,
    critical: Real,
)
    requires
        is_simulated(levels, inference, correlations, config, Ok((level, critical))),
    ensures
        levels.is_level(critical, Ok(level)),
        exists|draws: Seq<Real>, sorted: Seq<Real>, rank: usize|
            levels.is_maxima(
                correlations,
                config.simulation_draws,
                config.simulation_seed,
                Ok(draws),
            ) && #[trigger] simulation::sorts(draws, sorted) && #[trigger] levels.is_rank(
                draws.len() as usize,
                inference.confidence_level,
                rank,
            ) && critical == (if rank < draws.len() {
                sorted[rank as int]
            } else {
                sorted[draws.len() - 1]
            }),
{
    let maxima = choose|maxima: Result<Seq<Real>, String>|
        #[trigger] levels.is_maxima(
            correlations,
            config.simulation_draws,
            config.simulation_seed,
            maxima,
        ) && match maxima {
            Err(message) => false,
            Ok(draws) => is_selected(
                levels,
                inference.confidence_level,
                draws,
                Ok((level, critical)),
            ),
        };
    let draws = maxima->Ok_0;
    let (rank, found, covered) = choose|rank: usize, found: Real, covered: Result<Real, String>|
        #[trigger] levels.is_rank(draws.len() as usize, inference.confidence_level, rank)
            && simulation::order_statistic(draws, place_of(rank, draws.len() as int), found)
            && #[trigger] levels.is_level(found, covered) && Ok::<(Real, Real), HonestError>(
            (level, critical),
        ) == (match covered {
            Ok(value) => Ok((value, found)),
            Err(message) => Err(HonestError::Numerical { message }),
        });
    let sorted = choose|sorted: Seq<Real>| #[trigger]
        simulation::sorts(draws, sorted) && found == sorted[place_of(rank, draws.len() as int)];
    assert(simulation::sorts(draws, sorted));
}

/// Whether the inner product with the weights of one period is that period's
/// entry.
pub open spec fn selects_exactly<L: Levels>(levels: L, num_post: int) -> bool {
    forall|i: int, entries: Seq<Real>, product: Real|
        0 <= i < num_post && entries.len() == num_post && #[trigger] levels.is_dot(
            input::basis_weights(num_post, i),
            entries,
            product,
        ) ==> product == entries[i]
}

/// The functionals that select the post periods one by one correlate as the post
/// periods do: by the ratio of their covariance to their standard deviations.
pub proof fn unit_functionals_correlate_as_their_periods<L: Levels>(
    run: CorrelationRun,
    levels: L,
    data: HonestEventStudyInput,
    functionals: Seq<Seq<Real>>,
    correlations: Seq<Seq<Real>>,
    i: int,
    j: int,
)
    requires
        functionals == Seq::new(
            data.post_periods@.len(),
            |k: int| input::basis_weights(data.post_periods@.len() as int, k),
        ),
        run.measured(levels, data, functionals),
        run.correlated(levels, functionals, correlations),
        selects_exactly(levels, data.post_periods@.len() as int),
        0 <= i < j < data.post_periods@.len(),
    ensures
        levels.is_root(
            data.covariance@[data.pre_periods@.len() + i]@[data.pre_periods@.len() + i].max_spec(
                Real::zero_spec(),
            ),
            run.deviations[i],
        ),
        levels.is_ratio(
            data.covariance@[data.pre_periods@.len() + i]@[data.pre_periods@.len() + j],
            run.deviations[i],
            run.deviations[j],
            run.ratios[i][j],
        ),
        correlations[i][j] == clamped(run.ratios[i][j]),
        correlations[j][i] == correlations[i][j],
{
    let n = data.post_periods@.len() as int;
    assert(projects(levels, functionals[j], run.block, run.projected[j]));
    assert(levels.is_dot(functionals[j], run.block[i], run.projected[j][i]));
    assert(run.block[i].len() == n);
    assert(run.projected[j][i] == run.block[i][j]);
    assert(run.projected[i].len() == n) by {
        assert(projects(levels, functionals[i], run.block, run.projected[i]));
    }
    assert(levels.is_dot(functionals[i], run.block[i], run.projected[i][i])) by {
        assert(projects(levels, functionals[i], run.block, run.projected[i]));
    }
    assert(levels.is_dot(functionals[i], run.projected[i], run.products[i]));
    assert(run.products[i] == run.projected[i][i]);
    assert(run.projected[i][i] == run.block[i][i]);
    assert(levels.is_root(run.products[i].max_spec(Real::zero_spec()), run.deviations[i]));
    assert(correlates(
        levels,
        functionals[i],
        run.projected[j],
        run.deviations[i],
        run.deviations[j],
        run.covariances[i][j],
        run.ratios[i][j],
    ));
    assert(run.covariances[i][j] == run.projected[j][i]);
    assert(correlations[i][j] == clamped(run.ratios[i][j]));
    assert(correlations[j][i] == clamped(run.ratios[i][j]));
}

/// A clamped number lies from minus one to one, and a number that lies there already
/// is kept.
pub proof fn clamping_moves_into_range(value: Real)
    requires
        !value.nan(),
    ensures
        Real::minus_one_spec().le(clamped(value)),
        clamped(value).le(Real::one_spec()),
        Real::minus_one_spec().le(value) && value.le(Real::one_spec()) ==> clamped(value) == value,
{
}

/// The covariance of two functionals of the post periods under a covariance matrix.
pub open spec fn covaried(
    left: Seq<Real>,
    right: Seq<Real>,
    data: HonestEventStudyInput,
    read: spec_fn(Real) -> int,
) -> int {
    let num_pre = data.pre_periods@.len() as int;
    let num_post = data.post_periods@.len();
    exact::inner(
        exact::values(read, left),
        Seq::new(
            num_post,
            |r: int|
                exact::inner(
                    exact::values(read, right),
                    Seq::new(num_post, |c: int| read(data.covariance@[num_pre + r]@[num_pre + c])),
                    num_post as int,
                ),
        ),
        num_post as int,
    )
}

/// Whether inner products, square roots and ratios of levels are exact under a
/// reading.
pub open spec fn exact_levels<L: Levels>(levels: L, read: spec_fn(Real) -> int) -> bool {
    &&& exact::faithful(read)
    &&& forall|left: Seq<Real>, right: Seq<Real>, product: Real|
        #[trigger] levels.is_dot(left, right, product) && left.len() == right.len() ==> read(
            product,
        ) == exact::inner(
            exact::values(read, left),
            exact::values(read, right),
            left.len() as int,
        )
    &&& forall|value: Real, root: Real| #[trigger]
        levels.is_root(value, root) ==> read(root) * read(root) == read(value)
    &&& forall|covariance: Real, left: Real, right: Real, ratio: Real| #[trigger]
        levels.is_ratio(covariance, left, right, ratio) ==> read(ratio) * (read(left) * read(
            right,
        )) == read(covariance)
}

proof fn a_dot_with_projections_is_a_covariance<L: Levels>(
    run: CorrelationRun,
    levels: L,
    data: HonestEventStudyInput,
    functionals: Seq<Seq<Real>>,
    i: int,
    j: int,
    product: Real,
    read: spec_fn(Real) -> int,
)
    requires
        exact_levels(levels, read),
        run.measured(levels, data, functionals),
        0 <= i < functionals.len(),
        0 <= j < functionals.len(),
        functionals[i].len() == data.post_periods@.len(),
        functionals[j].len() == data.post_periods@.len(),
        levels.is_dot(functionals[i], run.projected[j], product),
    ensures
        read(product) == covaried(functionals[i], functionals[j], data, read),
{
    let num_pre = data.pre_periods@.len() as int;
    let num_post = data.post_periods@.len();
    assert(projects(levels, functionals[j], run.block, run.projected[j]));
    let sums = Seq::new(
        num_post,
        |r: int|
            exact::inner(
                exact::values(read, functionals[j]),
                Seq::new(num_post, |c: int| read(data.covariance@[num_pre + r]@[num_pre + c])),
                num_post as int,
            ),
    );
    assert(exact::values(read, run.projected[j]) =~= sums) by {
        assert forall|r: int| 0 <= r < num_post implies #[trigger] exact::values(
            read,
            run.projected[j],
        )[r] == sums[r] by {
            assert(levels.is_dot(functionals[j], run.block[r], run.projected[j][r]));
            assert(exact::values(read, run.block[r]) =~= Seq::new(
                num_post,
                |c: int| read(data.covariance@[num_pre + r]@[num_pre + c]),
            )) by {
                assert forall|c: int| 0 <= c < num_post implies exact::values(
                    read,
                    run.block[r],
                )[c] == read(data.covariance@[num_pre + r]@[num_pre + c]) by {
                    assert(run.block[r][c] == data.covariance@[num_pre + r]@[num_pre + c]);
                }
            }
        }
    }
}

/// The ratio behind the correlation of two functionals, times the standard
/// deviations of both, is their covariance under the covariance of the post periods,
/// and the square of each standard deviation is the functional's variance.
pub proof fn functionals_correlate_by_the_covariance<L: Levels>(
    run: CorrelationRun,
    levels: L,
    data: HonestEventStudyInput,
    functionals: Seq<Seq<Real>>,
    correlations: Seq<Seq<Real>>,
    i: int,
    j: int,
    read: spec_fn(Real) -> int,
)
    requires
        exact_levels(levels, read),
        run.measured(levels, data, functionals),
        run.correlated(levels, functionals, correlations),
        !run.degenerate(),
        0 <= i < j < functionals.len(),
        functionals[i].len() == data.post_periods@.len(),
        functionals[j].len() == data.post_periods@.len(),
        !run.products[i].nan(),
    ensures
        read(run.deviations[i]) * read(run.deviations[i]) == covaried(
            functionals[i],
            functionals[i],
            data,
            read,
        ),
        Real::minus_one_spec().le(run.ratios[i][j]) && run.ratios[i][j].le(Real::one_spec())
            ==> read(correlations[i][j]) * (read(run.deviations[i]) * read(run.deviations[j]))
            == covaried(functionals[i], functionals[j], data, read),
        correlations[j][i] == correlations[i][j],
        correlations[i][i] == Real::one_spec(),
{
    assert(levels.is_dot(functionals[i], run.projected[i], run.products[i]));
    a_dot_with_projections_is_a_covariance(
        run,
        levels,
        data,
        functionals,
        i,
        i,
        run.products[i],
        read,
    );
    assert(levels.is_root(run.products[i].max_spec(Real::zero_spec()), run.deviations[i]));
    let variance = run.products[i].max_spec(Real::zero_spec());
    assert(!variance.le(Real { bits: ZERO_VARIANCE_BITS }));
    assert(variance == run.products[i]);
    assert(correlates(
        levels,
        functionals[i],
        run.projected[j],
        run.deviations[i],
        run.deviations[j],
        run.covariances[i][j],
        run.ratios[i][j],
    ));
    a_dot_with_projections_is_a_covariance(
        run,
        levels,
        data,
        functionals,
        i,
        j,
        run.covariances[i][j],
        read,
    );
    assert(correlations[i][j] == clamped(run.ratios[i][j]));
    assert(correlations[j][i] == clamped(run.ratios[i][j]));
}

} // verus!
