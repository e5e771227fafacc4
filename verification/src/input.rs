//! Event-study input and the functionals of its post-treatment coefficients.

use crate::errors::HonestError;
use crate::exact;
use crate::matrix;
use crate::matrix::{copy_row, filled_row};
use crate::number::Real;
use crate::types::{HonestPostFunctional, HonestSensitivity};
use vstd::prelude::*;

verus! {

/// The bits of `1e-12`, at or below which a weight counts as zero.
pub const ZERO_WEIGHT_BITS: u64 = 0x3d719799812dea11;

/// The bits of the smallest number that is within `1e-12` of one.
pub const ONE_LOWER_BITS: u64 = 0x3fefffffffffdcd1;

/// The bits of the largest number that is within `1e-12` of one.
pub const ONE_UPPER_BITS: u64 = 0x3ff0000000001197;

/// Coefficients of an event study, pre periods first, with their covariance.
#[derive(Clone, Debug, PartialEq, Eq)]
pub struct HonestEventStudyInput {
    /// Coefficients in pre-then-post order.
    pub betahat: Vec<Real>,
    /// Covariance matrix of the coefficients.
    pub covariance: Vec<Vec<Real>>,
    /// Labels of the pre periods.
    pub pre_periods: Vec<i32>,
    /// Labels of the post periods.
    pub post_periods: Vec<i32>,
}

/// Whether every value is finite.
pub open spec fn all_finite(values: Seq<Real>) -> bool {
    forall|i: int| 0 <= i < values.len() ==> (#[trigger] values[i]).finite()
}

/// Whether every entry of a matrix is finite.
pub open spec fn all_rows_finite(rows: Seq<Vec<Real>>) -> bool {
    forall|i: int| 0 <= i < rows.len() ==> all_finite((#[trigger] rows[i])@)
}

/// Whether every value is finite.
pub fn are_finite(values: &[Real]) -> (r: bool)
    ensures
        r == all_finite(values@),
{
    let mut i: usize = 0;
    while i < values.len()
        invariant
            i <= values.len(),
            forall|k: int| 0 <= k < i ==> (#[trigger] values@[k]).finite(),
        decreases values.len() - i,
    {
        if !values[i].is_finite() {
            return false;
        }
        i = i + 1;
    }
    true
}

fn are_rows_finite(rows: &[Vec<Real>]) -> (r: bool)
    ensures
        r == all_rows_finite(rows@),
{
    let mut i: usize = 0;
    while i < rows.len()
        invariant
            i <= rows.len(),
            forall|k: int| 0 <= k < i ==> all_finite((#[trigger] rows@[k])@),
        decreases rows.len() - i,
    {
        if !are_finite(rows[i].as_slice()) {
            return false;
        }
        i = i + 1;
    }
    true
}

/// Whether a weight counts as zero.
pub open spec fn negligible(weight: Real) -> bool {
    weight.abs_spec().le(Real { bits: ZERO_WEIGHT_BITS })
}

/// Whether a weight exceeds what counts as zero.
pub open spec fn matters(weight: Real) -> bool {
    Real { bits: ZERO_WEIGHT_BITS }.lt(weight.abs_spec())
}

/// Whether a weight exceeds what counts as zero.
pub fn weight_matters(weight: Real) -> (r: bool)
    ensures
        r == matters(weight),
{
    let bound = Real { bits: ZERO_WEIGHT_BITS };
    bound.less(weight.abs())
}

/// Whether every weight counts as zero.
pub open spec fn all_negligible(weights: Seq<Real>) -> bool {
    forall|i: int| 0 <= i < weights.len() ==> negligible(#[trigger] weights[i])
}

/// Whether a weight counts as zero.
pub fn is_negligible(weight: Real) -> (r: bool)
    ensures
        r == negligible(weight),
{
    weight.abs().at_most(Real { bits: ZERO_WEIGHT_BITS })
}

/// Whether every weight counts as zero.
pub fn are_negligible(weights: &[Real]) -> (r: bool)
    ensures
        r == all_negligible(weights@),
{
    let mut i: usize = 0;
    while i < weights.len()
        invariant
            i <= weights.len(),
            forall|k: int| 0 <= k < i ==> negligible(#[trigger] weights@[k]),
        decreases weights.len() - i,
    {
        if !is_negligible(weights[i]) {
            return false;
        }
        i = i + 1;
    }
    true
}

impl HonestEventStudyInput {
    /// Number of periods.
    pub open spec fn total(self) -> int {
        (self.pre_periods@.len() + self.post_periods@.len()) as int
    }

    /// Whether the numbers of coefficients, covariances and labels agree.
    pub open spec fn shaped(self) -> bool {
        &&& self.betahat@.len() == self.total()
        &&& self.covariance@.len() == self.total()
        &&& matrix::has_cols(self.covariance@, self.total())
    }

    /// What is wrong with the input, if anything: first the number of
    /// coefficients, then the shape of the covariance matrix, then values that
    /// are not finite.
    pub open spec fn fault(self) -> Option<HonestError> {
        if self.betahat@.len() != self.total() {
            Some(
                HonestError::CoefficientCount {
                    found: self.betahat@.len() as usize,
                    expected: self.total() as usize,
                },
            )
        } else if self.covariance@.len() != self.total() || !matrix::has_cols(
            self.covariance@,
            self.total(),
        ) {
            Some(HonestError::CovarianceShape)
        } else if !all_finite(self.betahat@) {
            Some(HonestError::CoefficientNotFinite)
        } else if !all_rows_finite(self.covariance@) {
            Some(HonestError::CovarianceNotFinite)
        } else {
            None
        }
    }

    /// Checks the dimensions and the finiteness of the input.
    pub fn validate(&self) -> (checked: Result<(), HonestError>)
        requires
            self.total() <= usize::MAX,
        ensures
            checked == (match self.fault() {
                Some(error) => Err(error),
                None => Ok(()),
            }),
    {
        let total: usize = self.pre_periods.len() + self.post_periods.len();
        if self.betahat.len() != total {
            return Err(
                HonestError::CoefficientCount { found: self.betahat.len(), expected: total },
            );
        }
        if self.covariance.len() != total {
            return Err(HonestError::CovarianceShape);
        }
        let mut i: usize = 0;
        while i < self.covariance.len()
            invariant
                i <= self.covariance.len(),
                total == self.total(),
                self.betahat@.len() == total,
                self.covariance@.len() == total,
                forall|k: int| 0 <= k < i ==> (#[trigger] self.covariance@[k])@.len() == total,
            decreases self.covariance.len() - i,
        {
            if self.covariance[i].len() != total {
                return Err(HonestError::CovarianceShape);
            }
            i = i + 1;
        }
        if !are_finite(self.betahat.as_slice()) {
            return Err(HonestError::CoefficientNotFinite);
        }
        if !are_rows_finite(self.covariance.as_slice()) {
            return Err(HonestError::CovarianceNotFinite);
        }
        Ok(())
    }

    /// Whether two inputs hold the same numbers and labels.
    pub open spec fn same_as(self, other: HonestEventStudyInput) -> bool {
        &&& self.betahat@ == other.betahat@
        &&& matrix::rows_of(self.covariance@) == matrix::rows_of(other.covariance@)
        &&& self.pre_periods@ == other.pre_periods@
        &&& self.post_periods@ == other.post_periods@
    }

    /// A copy of the input.
    pub fn copy(&self) -> (copy: HonestEventStudyInput)
        ensures
            copy.same_as(*self),
    {
        HonestEventStudyInput {
            betahat: copy_row(self.betahat.as_slice()),
            covariance: matrix::copy_matrix(self.covariance.as_slice()),
            pre_periods: copy_row(self.pre_periods.as_slice()),
            post_periods: copy_row(self.post_periods.as_slice()),
        }
    }

    /// Number of pre periods.
    pub fn num_pre_periods(&self) -> (count: usize)
        ensures
            count == self.pre_periods@.len(),
    {
        self.pre_periods.len()
    }

    /// Number of post periods.
    pub fn num_post_periods(&self) -> (count: usize)
        ensures
            count == self.post_periods@.len(),
    {
        self.post_periods.len()
    }
}

/// An input that passes the checks has one coefficient and one row of finite
/// covariances per period.
pub proof fn valid_input_is_shaped(input: HonestEventStudyInput)
    requires
        input.fault() is None,
    ensures
        input.shaped(),
        all_finite(input.betahat@),
        all_rows_finite(input.covariance@),
{
}

/// What is wrong with the weights of a functional, if anything.
pub open spec fn weights_fault(
    weights: Seq<Real>,
    num_post: int,
    require_nonzero: bool,
) -> Option<HonestError> {
    if weights.len() != num_post {
        Some(
            HonestError::PostWeightCount {
                found: weights.len() as usize,
                expected: num_post as usize,
            },
        )
    } else if !all_finite(weights) {
        Some(HonestError::PostWeightNotFinite)
    } else if require_nonzero && all_negligible(weights) {
        Some(HonestError::PostWeightsZero)
    } else {
        None
    }
}

/// Checks the weights of a functional: their number, their finiteness, and
/// where asked for that one of them is not zero.
pub fn validate_post_weights(
    input: &HonestEventStudyInput,
    post_weights: &[Real],
    require_nonzero: bool,
) -> (checked: Result<(), HonestError>)
    ensures
        checked == (match weights_fault(
            post_weights@,
            input.post_periods@.len() as int,
            require_nonzero,
        ) {
            Some(error) => Err(error),
            None => Ok(()),
        }),
{
    if post_weights.len() != input.num_post_periods() {
        return Err(
            HonestError::PostWeightCount {
                found: post_weights.len(),
                expected: input.num_post_periods(),
            },
        );
    }
    if !are_finite(post_weights) {
        return Err(HonestError::PostWeightNotFinite);
    }
    if require_nonzero && are_negligible(post_weights) {
        return Err(HonestError::PostWeightsZero);
    }
    Ok(())
}

// ---------------------------------------------------------------------------
// Functionals
// ---------------------------------------------------------------------------

/// The first position of a label from `from` on.
pub open spec fn label_position(labels: Seq<i32>, label: i32, from: int) -> Option<int>
    decreases labels.len() - from,
{
    if from >= labels.len() {
        None
    } else if labels[from] == label {
        Some(from)
    } else {
        label_position(labels, label, from + 1)
    }
}

/// The first position of a label.
pub fn position_of(labels: &[i32], label: i32) -> (position: Option<usize>)
    ensures
        label_position(labels@, label, 0) == (match position {
            Some(i) => Some(i as int),
            None => None,
        }),
        position matches Some(i) ==> i < labels.len() && labels@[i as int] == label,
        position is None ==> forall|i: int| 0 <= i < labels.len() ==> labels@[i] != label,
{
    let mut i: usize = 0;
    while i < labels.len()
        invariant
            i <= labels.len(),
            label_position(labels@, label, 0) == label_position(labels@, label, i as int),
            forall|k: int| 0 <= k < i ==> labels@[k] != label,
        decreases labels.len() - i,
    {
        if labels[i] == label {
            return Some(i);
        }
        i = i + 1;
    }
    None
}

/// The weights that select one post period.
pub open spec fn basis_weights(num_post: int, post_idx: int) -> Seq<Real> {
    Seq::new(
        num_post as nat,
        |i: int|
            if i == post_idx {
                Real::one_spec()
            } else {
                Real::zero_spec()
            },
    )
}

/// The weights that select one post period.
pub fn basis_post_weights(num_post_periods: usize, post_idx: usize) -> (weights: Vec<Real>)
    requires
        post_idx < num_post_periods,
    ensures
        weights@ == basis_weights(num_post_periods as int, post_idx as int),
{
    let mut weights = filled_row(num_post_periods, Real::zero());
    weights.set(post_idx, Real::one());
    proof {
        assert(weights@ =~= basis_weights(num_post_periods as int, post_idx as int));
    }
    weights
}

/// The weights of each post period alone.
pub fn basis_directions(num_post: usize) -> (directions: Vec<Vec<Real>>)
    ensures
        directions.len() == num_post,
        forall|i: int|
            0 <= i < num_post ==> (#[trigger] directions@[i])@ == basis_weights(num_post as int, i),
{
    let mut directions: Vec<Vec<Real>> = Vec::new();
    while directions.len() < num_post
        invariant
            directions.len() <= num_post,
            forall|i: int|
                0 <= i < directions.len() ==> (#[trigger] directions@[i])@ == basis_weights(
                    num_post as int,
                    i,
                ),
        decreases num_post - directions.len(),
    {
        let idx: usize = directions.len();
        directions.push(basis_post_weights(num_post, idx));
    }
    directions
}

/// Whether a number is within `1e-12` of one.
pub open spec fn near_one(value: Real) -> bool {
    Real { bits: ONE_LOWER_BITS }.le(value) && value.le(Real { bits: ONE_UPPER_BITS })
}

/// Whether weights select one post period: all are finite, one is near one and
/// the others count as zero.
pub open spec fn selects(weights: Seq<Real>, index: int) -> bool {
    &&& 0 <= index < weights.len()
    &&& all_finite(weights)
    &&& near_one(weights[index])
    &&& forall|i: int| 0 <= i < weights.len() && i != index ==> negligible(#[trigger] weights[i])
}

/// The post period that weights select, if they select one.
pub fn basis_vector_index(post_weights: &[Real]) -> (index: Option<usize>)
    ensures
        match index {
            Some(i) => selects(post_weights@, i as int),
            None => forall|i: int| !selects(post_weights@, i),
        },
{
    let mut index: Option<usize> = None;
    let mut k: usize = 0;
    while k < post_weights.len()
        invariant
            k <= post_weights.len(),
            forall|i: int| 0 <= i < k ==> (#[trigger] post_weights@[i]).finite(),
            match index {
                Some(found) => {
                    &&& found < k
                    &&& near_one(post_weights@[found as int])
                    &&& !negligible(post_weights@[found as int])
                    &&& forall|i: int|
                        0 <= i < k && i != found ==> negligible(#[trigger] post_weights@[i])
                },
                None => forall|i: int| 0 <= i < k ==> negligible(#[trigger] post_weights@[i]),
            },
        decreases post_weights.len() - k,
    {
        let value = post_weights[k];
        if !value.is_finite() {
            proof {
                assert(!all_finite(post_weights@)) by {
                    assert(!post_weights@[k as int].finite());
                }
            }
            return None;
        }
        if !is_negligible(value) {
            let close = Real { bits: ONE_LOWER_BITS }.at_most(value) && value.at_most(
                Real { bits: ONE_UPPER_BITS },
            );
            if !close || index.is_some() {
                proof {
                    assert forall|i: int| !selects(post_weights@, i) by {
                        if selects(post_weights@, i) {
                            assert(negligible(post_weights@[k as int]) || i == k);
                            if let Some(found) = index {
                                assert(negligible(post_weights@[found as int]) || i == found);
                            }
                        }
                    }
                }
                return None;
            }
            index = Some(k);
        }
        k = k + 1;
    }
    proof {
        if index is None {
            assert forall|i: int| !selects(post_weights@, i) by {
                if selects(post_weights@, i) {
                    assert(negligible(post_weights@[i]));
                    assert(near_one(post_weights@[i]));
                }
            }
        }
    }
    index
}

/// Whether the label at `i` lies in a window.
pub open spec fn in_window(labels: Seq<i32>, start: i32, end: i32, i: int) -> bool {
    start <= labels[i] <= end
}

/// Number of labels below `count` that lie in a window.
pub open spec fn window_size(labels: Seq<i32>, start: i32, end: i32, count: int) -> int
    decreases count,
{
    if count <= 0 {
        0
    } else if in_window(labels, start, end, count - 1) {
        window_size(labels, start, end, count - 1) + 1
    } else {
        window_size(labels, start, end, count - 1)
    }
}

/// Whether `after` is `before` with one weight added, by the addition `plus`,
/// to the entry of its label.
pub open spec fn adds_term<P: Fn(Real, Real) -> Real>(
    plus: P,
    labels: Seq<i32>,
    term: (i32, Real),
    before: Seq<Real>,
    after: Seq<Real>,
) -> bool {
    match label_position(labels, term.0, 0) {
        Some(at) => {
            &&& before.len() == labels.len()
            &&& after == before.update(at, after[at])
            &&& plus.ensures((before[at], term.1), after[at])
        },
        None => false,
    }
}

/// Whether `sums` are the weights that arise from zeros by adding the terms one
/// after the other.
pub open spec fn running_sums<P: Fn(Real, Real) -> Real>(
    plus: P,
    labels: Seq<i32>,
    terms: Seq<(i32, Real)>,
    sums: Seq<Seq<Real>>,
) -> bool {
    &&& sums.len() == terms.len() + 1
    &&& sums[0] == Seq::new(labels.len(), |i: int| Real::zero_spec())
    &&& forall|k: int|
        0 <= k < terms.len() ==> adds_term(
            plus,
            labels,
            #[trigger] terms[k],
            sums[k],
            sums[k + 1],
        )
}

/// The first label among `terms` that is not among the labels.
pub open spec fn first_absent(
    labels: Seq<i32>,
    terms: Seq<(i32, Real)>,
    from: int,
) -> Option<i32>
    decreases terms.len() - from,
{
    if from >= terms.len() {
        None
    } else if label_position(labels, terms[from].0, 0) is None {
        Some(terms[from].0)
    } else {
        first_absent(labels, terms, from + 1)
    }
}

/// What is wrong with a functional, if anything.
pub open spec fn functional_fault(
    labels: Seq<i32>,
    functional: HonestPostFunctional,
) -> Option<HonestError> {
    match functional {
        HonestPostFunctional::Period(period) => if label_position(labels, period, 0) is None {
            Some(HonestError::PostPeriodAbsent { period })
        } else {
            None
        },
        HonestPostFunctional::AverageWindow { start_period, end_period } => if start_period
            > end_period {
            Some(HonestError::WindowReversed { start: start_period, end: end_period })
        } else if window_size(labels, start_period, end_period, labels.len() as int) == 0 {
            Some(HonestError::WindowEmpty { start: start_period, end: end_period })
        } else {
            None
        },
        HonestPostFunctional::Weighted(terms) => if terms@.len() == 0 {
            Some(HonestError::NoWeightedPeriod)
        } else {
            match first_absent(labels, terms@, 0) {
                Some(period) => Some(HonestError::PostPeriodAbsent { period }),
                None => None,
            }
        },
    }
}

/// Whether `weights` are the weights of a functional without fault: one on a
/// single period, the equal share of a window's periods on each of them, or the
/// sums of given weights.
pub open spec fn functional_weights<S: Fn(usize) -> Real, P: Fn(Real, Real) -> Real>(
    share: S,
    plus: P,
    labels: Seq<i32>,
    functional: HonestPostFunctional,
    weights: Seq<Real>,
) -> bool {
    match functional {
        HonestPostFunctional::Period(period) => weights == basis_weights(
            labels.len() as int,
            label_position(labels, period, 0)->0,
        ),
        HonestPostFunctional::AverageWindow { start_period, end_period } => exists|weight: Real|
            {
                &&& #[trigger] share.ensures(
                    (window_size(
                        labels,
                        start_period,
                        end_period,
                        labels.len() as int,
                    ) as usize,),
                    weight,
                )
                &&& weights == Seq::new(
                    labels.len(),
                    |i: int|
                        if in_window(labels, start_period, end_period, i) {
                            weight
                        } else {
                            Real::zero_spec()
                        },
                )
            },
        HonestPostFunctional::Weighted(terms) => exists|sums: Seq<Seq<Real>>| #[trigger]
            running_sums(plus, labels, terms@, sums) && weights == sums.last(),
    }
}

fn window_weights<S: Fn(usize) -> Real>(
    labels: &[i32],
    start: i32,
    end: i32,
    share: &S,
) -> (weights: Result<Vec<Real>, HonestError>)
    requires
        forall|n: usize| #[trigger] share.requires((n,)),
    ensures
        match weights {
            Err(error) => window_size(labels@, start, end, labels.len() as int) == 0 && error == (
            HonestError::WindowEmpty { start, end }),
            Ok(found) => window_size(labels@, start, end, labels.len() as int) > 0
                && exists|weight: Real|
                {
                    &&& #[trigger] share.ensures(
                        (window_size(labels@, start, end, labels.len() as int) as usize,),
                        weight,
                    )
                    &&& found@ == Seq::new(
                        labels@.len(),
                        |i: int|
                            if in_window(labels@, start, end, i) {
                                weight
                            } else {
                                Real::zero_spec()
                            },
                    )
                },
        },
{
    let mut covered: usize = 0;
    let mut i: usize = 0;
    while i < labels.len()
        invariant
            i <= labels.len(),
            covered == window_size(labels@, start, end, i as int),
            covered <= i,
        decreases labels.len() - i,
    {
        if start <= labels[i] && labels[i] <= end {
            covered = covered + 1;
        }
        i = i + 1;
    }
    if covered == 0 {
        return Err(HonestError::WindowEmpty { start, end });
    }
    let weight = share(covered);
    let mut weights: Vec<Real> = Vec::new();
    while weights.len() < labels.len()
        invariant
            weights.len() <= labels.len(),
            forall|k: int|
                0 <= k < weights.len() ==> #[trigger] weights@[k] == (if in_window(
                    labels@,
                    start,
                    end,
                    k,
                ) {
                    weight
                } else {
                    Real::zero_spec()
                }),
        decreases labels.len() - weights.len(),
    {
        let k: usize = weights.len();
        if start <= labels[k] && labels[k] <= end {
            weights.push(weight);
        } else {
            weights.push(Real::zero());
        }
    }
    proof {
        assert(share.ensures(
            (window_size(labels@, start, end, labels.len() as int) as usize,),
            weight,
        ));
        assert(weights@ =~= Seq::new(
            labels@.len(),
            |i: int|
                if in_window(labels@, start, end, i) {
                    weight
                } else {
                    Real::zero_spec()
                },
        ));
    }
    Ok(weights)
}

fn summed_weights<P: Fn(Real, Real) -> Real>(
    labels: &[i32],
    terms: &[(i32, Real)],
    plus: &P,
) -> (weights: Result<Vec<Real>, HonestError>)
    requires
        forall|a: Real, b: Real| #[trigger] plus.requires((a, b)),
    ensures
        match weights {
            Err(error) => first_absent(labels@, terms@, 0) matches Some(period) && error == (
            HonestError::PostPeriodAbsent { period }),
            Ok(found) => first_absent(labels@, terms@, 0) is None && exists|sums: Seq<Seq<Real>>|
                #[trigger]
                running_sums(*plus, labels@, terms@, sums) && found@ == sums.last(),
        },
{
    let mut weights = filled_row(labels.len(), Real::zero());
    let mut k: usize = 0;
    let ghost mut sums = seq![weights@];
    while k < terms.len()
        invariant
            k <= terms.len(),
            weights.len() == labels.len(),
            forall|a: Real, b: Real| #[trigger] plus.requires((a, b)),
            first_absent(labels@, terms@, 0) == first_absent(labels@, terms@, k as int),
            sums.len() == k + 1,
            sums[0] == Seq::new(labels@.len(), |i: int| Real::zero_spec()),
            sums[k as int] == weights@,
            forall|m: int|
                0 <= m < k ==> adds_term(
                    *plus,
                    labels@,
                    #[trigger] terms@[m],
                    sums[m],
                    sums[m + 1],
                ),
        decreases terms.len() - k,
    {
        let (period, weight) = terms[k];
        match position_of(labels, period) {
            None => {
                return Err(HonestError::PostPeriodAbsent { period });
            },
            Some(at) => {
                let ghost before = weights@;
                let sum = plus(weights[at], weight);
                weights.set(at, sum);
                proof {
                    assert(weights@ =~= before.update(at as int, weights@[at as int]));
                    sums = sums.push(weights@);
                }
            },
        }
        k = k + 1;
    }
    proof {
        assert(running_sums(*plus, labels@, terms@, sums));
        assert(weights@ == sums.last());
    }
    Ok(weights)
}

/// A functional without fault has one weight per post period, and there is a
/// post period.
pub proof fn weights_match_the_labels<S: Fn(usize) -> Real, P: Fn(Real, Real) -> Real>(
    share: S,
    plus: P,
    labels: Seq<i32>,
    functional: HonestPostFunctional,
    weights: Seq<Real>,
)
    requires
        functional_fault(labels, functional) is None,
        functional_weights(share, plus, labels, functional, weights),
    ensures
        weights.len() == labels.len(),
        labels.len() > 0,
{
    match functional {
        HonestPostFunctional::Period(period) => {
            let at = label_position(labels, period, 0)->0;
            label_position_is_first(labels, period, 0);
            assert(basis_weights(labels.len() as int, at).len() == labels.len());
        },
        HonestPostFunctional::AverageWindow { .. } => {},
        HonestPostFunctional::Weighted(terms) => {
            let sums = choose|sums: Seq<Seq<Real>>| #[trigger]
                running_sums(plus, labels, terms@, sums) && weights == sums.last();
            let last = terms@.len() - 1;
            assert(adds_term(plus, labels, terms@[last], sums[last], sums[last + 1]));
            label_position_is_first(labels, terms@[last].0, 0);
            assert(sums[last + 1].len() == sums[last].len());
        },
    }
}

/// The weights of a functional. `share` gives the equal share of a number of
/// periods and `plus` adds two weights.
pub fn post_weights_for_functional<S: Fn(usize) -> Real, P: Fn(Real, Real) -> Real>(
    input: &HonestEventStudyInput,
    functional: &HonestPostFunctional,
    share: &S,
    plus: &P,
) -> (weights: Result<Vec<Real>, HonestError>)
    requires
        forall|n: usize| #[trigger] share.requires((n,)),
        forall|a: Real, b: Real| #[trigger] plus.requires((a, b)),
    ensures
        match weights {
            Err(error) => functional_fault(input.post_periods@, *functional) == Some(error),
            Ok(found) => functional_fault(input.post_periods@, *functional) is None
                && functional_weights(
                *share,
                *plus,
                input.post_periods@,
                *functional,
                found@,
            ),
        },
{
    let labels = input.post_periods.as_slice();
    match functional {
        HonestPostFunctional::Period(period) => match position_of(labels, *period) {
            None => Err(HonestError::PostPeriodAbsent { period: *period }),
            Some(at) => Ok(basis_post_weights(labels.len(), at)),
        },
        HonestPostFunctional::AverageWindow { start_period, end_period } => {
            if *start_period > *end_period {
                return Err(
                    HonestError::WindowReversed { start: *start_period, end: *end_period },
                );
            }
            window_weights(labels, *start_period, *end_period, share)
        },
        HonestPostFunctional::Weighted(terms) => {
            if terms.len() == 0 {
                return Err(HonestError::NoWeightedPeriod);
            }
            summed_weights(labels, terms.as_slice(), plus)
        },
    }
}

/// The selection of a period is the functional of that period: its weights
/// select it.
pub proof fn period_weights_select_the_period(labels: Seq<i32>, period: i32)
    requires
        label_position(labels, period, 0) is Some,
    ensures
        selects(
            basis_weights(labels.len() as int, label_position(labels, period, 0)->0),
            label_position(labels, period, 0)->0,
        ),
{
    let at = label_position(labels, period, 0)->0;
    label_position_is_first(labels, period, 0);
    let weights = basis_weights(labels.len() as int, at);
    assert forall|i: int| 0 <= i < weights.len() implies (#[trigger] weights[i]).finite() by {
        assert(weights[i] == Real::one_spec() || weights[i] == Real::zero_spec());
    }
}

/// A label's position holds the label, and no earlier position does.
pub proof fn label_position_is_first(labels: Seq<i32>, label: i32, from: int)
    requires
        0 <= from,
    ensures
        match label_position(labels, label, from) {
            Some(at) => from <= at < labels.len() && labels[at] == label && forall|i: int|
                from <= i < at ==> labels[i] != label,
            None => forall|i: int| from <= i < labels.len() ==> labels[i] != label,
        },
    decreases labels.len() - from,
{
    if from < labels.len() && labels[from] != label {
        label_position_is_first(labels, label, from + 1);
    }
}

/// The objective of an identified-set program: the weights of the post periods
/// behind a zero for each pre period.
pub fn relative_magnitude_objective(
    num_pre: usize,
    num_post: usize,
    post_weights: &[Real],
) -> (objective: Vec<Real>)
    requires
        num_post <= post_weights.len(),
        num_pre + num_post <= usize::MAX,
    ensures
        objective@ == Seq::new(num_pre as nat, |i: int| Real::zero_spec()) + post_weights@.take(
            num_post as int,
        ),
{
    let mut objective = filled_row(num_pre, Real::zero());
    let ghost zeros = objective@;
    let mut k: usize = 0;
    proof {
        assert(zeros + post_weights@.take(0) =~= zeros);
    }
    while k < num_post
        invariant
            k <= num_post <= post_weights.len(),
            objective@ == zeros + post_weights@.take(k as int),
        decreases num_post - k,
    {
        objective.push(post_weights[k]);
        proof {
            assert(objective@ =~= zeros + post_weights@.take(k + 1));
        }
        k = k + 1;
    }
    objective
}

/// The values with their signs flipped.
pub fn negated_values(values: &[Real]) -> (negated: Vec<Real>)
    ensures
        negated@ == Seq::new(values@.len(), |i: int| values@[i].neg_spec()),
{
    let mut negated: Vec<Real> = Vec::new();
    while negated.len() < values.len()
        invariant
            negated.len() <= values.len(),
            forall|i: int|
                0 <= i < negated.len() ==> #[trigger] negated@[i] == values@[i].neg_spec(),
        decreases values.len() - negated.len(),
    {
        let i: usize = negated.len();
        negated.push(values[i].negated());
    }
    proof {
        assert(negated@ =~= Seq::new(values@.len(), |i: int| values@[i].neg_spec()));
    }
    negated
}

/// A basis of the post-treatment space whose first element is a functional:
/// the functional, then the unit vectors but for that of its first weight.
pub open spec fn gamma_rows(weights: Seq<Real>, pivot: int) -> Seq<Seq<Real>> {
    Seq::new(
        weights.len(),
        |k: int|
            if k == 0 {
                weights
            } else {
                basis_weights(
                    weights.len() as int,
                    if k <= pivot {
                        k - 1
                    } else {
                        k
                    },
                )
            },
    )
}

/// The first weight from `from` on that does not count as zero.
pub open spec fn first_weight(weights: Seq<Real>, from: int) -> Option<int>
    decreases weights.len() - from,
{
    if from >= weights.len() {
        None
    } else if matters(weights[from]) {
        Some(from)
    } else {
        first_weight(weights, from + 1)
    }
}

/// A basis of the post-treatment space whose first element is a functional.
pub fn construct_gamma(post_weights: &[Real]) -> (gamma: Result<Vec<Vec<Real>>, HonestError>)
    ensures
        match gamma {
            Ok(rows) => first_weight(post_weights@, 0) matches Some(pivot) && matrix::rows_of(rows@)
                == gamma_rows(post_weights@, pivot),
            Err(error) => first_weight(post_weights@, 0) is None && error
                == HonestError::GammaBasis,
        },
{
    let mut pivot: usize = 0;
    while pivot < post_weights.len() && !weight_matters(post_weights[pivot])
        invariant
            pivot <= post_weights.len(),
            first_weight(post_weights@, 0) == first_weight(post_weights@, pivot as int),
        decreases post_weights.len() - pivot,
    {
        pivot = pivot + 1;
    }
    if pivot == post_weights.len() {
        return Err(HonestError::GammaBasis);
    }
    let mut gamma: Vec<Vec<Real>> = Vec::new();
    gamma.push(copy_row(post_weights));
    let mut basis_idx: usize = 0;
    while basis_idx < post_weights.len()
        invariant
            pivot < post_weights.len(),
            basis_idx <= post_weights.len(),
            gamma.len() == (if basis_idx <= pivot {
                basis_idx + 1
            } else {
                basis_idx as int
            }),
            forall|k: int|
                0 <= k < gamma.len() ==> (#[trigger] gamma@[k])@ == gamma_rows(
                    post_weights@,
                    pivot as int,
                )[k],
        decreases post_weights.len() - basis_idx,
    {
        if basis_idx != pivot {
            gamma.push(basis_post_weights(post_weights.len(), basis_idx));
        }
        basis_idx = basis_idx + 1;
    }
    proof {
        assert(matrix::rows_of(gamma@) =~= gamma_rows(post_weights@, pivot as int));
    }
    Ok(gamma)
}

// ---------------------------------------------------------------------------
// The scalar case
// ---------------------------------------------------------------------------

/// What bounds the bias of a single post period.
#[derive(Clone, Copy, Debug, PartialEq, Eq, Structural)]
pub enum ScalarBias {
    /// The last pre-treatment estimate, continued up to `m`.
    Trend {
        /// The last pre-treatment estimate.
        last: Real,
        /// The bound of the restriction.
        m: Real,
    },
    /// `m` times the largest pre-treatment estimate in magnitude.
    Magnitude {
        /// The largest magnitude.
        largest: Real,
        /// The bound of the restriction.
        m: Real,
    },
}

/// What bounds the bias of a single post period, given the pre-treatment
/// estimates, the number of rows of the covariance matrix, and whether one of
/// its rows does not fit the estimates.
pub fn scalar_bias(
    pre_estimates: &[Real],
    covariance_rows: usize,
    ragged: bool,
    sensitivity: HonestSensitivity,
) -> (bias: Result<ScalarBias, HonestError>)
    ensures
        bias == (if covariance_rows != pre_estimates.len() + 1 || ragged {
            Err(HonestError::ScalarCovarianceShape)
        } else {
            match sensitivity {
                HonestSensitivity::Smoothness(m) => if pre_estimates.len() == 0 {
                    Err(HonestError::ScalarNeedsPrePeriod)
                } else {
                    Ok(ScalarBias::Trend { last: pre_estimates@.last(), m })
                },
                HonestSensitivity::RelativeMagnitude(m) => Ok(
                    ScalarBias::Magnitude {
                        largest: matrix::largest_magnitude(
                            pre_estimates@,
                            pre_estimates.len() as int,
                        ),
                        m,
                    },
                ),
            }
        }),
{
    let count: usize = pre_estimates.len();
    if covariance_rows == 0 || covariance_rows - 1 != count || ragged {
        return Err(HonestError::ScalarCovarianceShape);
    }
    match sensitivity {
        HonestSensitivity::Smoothness(m) => {
            if count == 0 {
                return Err(HonestError::ScalarNeedsPrePeriod);
            }
            Ok(ScalarBias::Trend { last: pre_estimates[count - 1], m })
        },
        HonestSensitivity::RelativeMagnitude(m) => Ok(
            ScalarBias::Magnitude { largest: matrix::max_abs(pre_estimates), m },
        ),
    }
}

// ---------------------------------------------------------------------------
// What functionals make of effects
// ---------------------------------------------------------------------------

/// Number of labels from `start` to `end`, among the first `count`.
pub open spec fn labels_between(labels: Seq<i32>, start: i32, end: i32, count: int) -> int
    decreases count,
{
    if count <= 0 {
        0
    } else {
        labels_between(labels, start, end, count - 1) + (if start <= labels[count - 1]
            && labels[count - 1] <= end {
            1int
        } else {
            0int
        })
    }
}

/// Sum of the effects whose labels lie from `start` to `end`, among the first
/// `count`.
pub open spec fn total_between(
    labels: Seq<i32>,
    effects: Seq<int>,
    start: i32,
    end: i32,
    count: int,
) -> int
    decreases count,
{
    if count <= 0 {
        0
    } else {
        total_between(labels, effects, start, end, count - 1) + (if start <= labels[count - 1]
            && labels[count - 1] <= end {
            effects[count - 1]
        } else {
            0int
        })
    }
}

proof fn a_window_has_its_labels(labels: Seq<i32>, start: i32, end: i32, count: int)
    requires
        0 <= count <= labels.len(),
    ensures
        window_size(labels, start, end, count) == labels_between(labels, start, end, count),
        0 <= window_size(labels, start, end, count) <= count,
    decreases count,
{
    if count > 0 {
        a_window_has_its_labels(labels, start, end, count - 1);
    }
}

proof fn inner_with_share(
    labels: Seq<i32>,
    effects: Seq<int>,
    start: i32,
    end: i32,
    weights: Seq<int>,
    share: int,
    count: int,
)
    requires
        forall|i: int|
            0 <= i < count ==> #[trigger] weights[i] == (if in_window(labels, start, end, i) {
                share
            } else {
                0int
            }),
    ensures
        exact::inner(weights, effects, count) == share * total_between(
            labels,
            effects,
            start,
            end,
            count,
        ),
    decreases count,
{
    if count > 0 {
        inner_with_share(labels, effects, start, end, weights, share, count - 1);
        let before = total_between(labels, effects, start, end, count - 1);
        let e = effects[count - 1];
        assert(weights[count - 1] == (if in_window(labels, start, end, count - 1) {
            share
        } else {
            0int
        }));
        assert(share * (before + e) == share * before + share * e) by (nonlinear_arith);
        assert(0 * e == 0);
        assert(before + 0 == before);
    } else {
        assert(share * 0 == 0);
    }
}

/// The weights of an average make of the effects the mean over the periods of its
/// window: the number of the periods times it is the sum of their effects, where
/// shares are exact.
pub proof fn an_average_is_the_mean_of_its_window<
    S: Fn(usize) -> Real,
    P: Fn(Real, Real) -> Real,
>(
    share: S,
    plus: P,
    labels: Seq<i32>,
    start: i32,
    end: i32,
    weights: Seq<Real>,
    effects: Seq<int>,
    unit: int,
    read: spec_fn(Real) -> int,
)
    requires
        functional_weights(
            share,
            plus,
            labels,
            (HonestPostFunctional::AverageWindow { start_period: start, end_period: end }),
            weights,
        ),
        labels.len() <= usize::MAX,
        effects.len() == labels.len(),
        read(Real::zero_spec()) == 0,
        forall|count: usize, weight: Real| #[trigger]
            share.ensures((count,), weight) ==> count * read(weight) == unit,
    ensures
        labels_between(labels, start, end, labels.len() as int) * exact::inner(
            exact::values(read, weights),
            effects,
            labels.len() as int,
        ) == unit * total_between(labels, effects, start, end, labels.len() as int),
{
    let n = labels.len() as int;
    a_window_has_its_labels(labels, start, end, n);
    let size = window_size(labels, start, end, n);
    let weight = choose|weight: Real|
        {
            &&& #[trigger] share.ensures((size as usize,), weight)
            &&& weights == Seq::new(
                labels.len(),
                |i: int|
                    if in_window(labels, start, end, i) {
                        weight
                    } else {
                        Real::zero_spec()
                    },
            )
        };
    inner_with_share(labels, effects, start, end, exact::values(read, weights), read(weight), n);
    let total = total_between(labels, effects, start, end, n);
    let w = read(weight);
    assert(size * (w * total) == (size * w) * total) by (nonlinear_arith);
}

/// The weights of a period make of the effects that of the period.
pub proof fn a_period_is_its_effect<S: Fn(usize) -> Real, P: Fn(Real, Real) -> Real>(
    share: S,
    plus: P,
    labels: Seq<i32>,
    weights: Seq<Real>,
    effects: Seq<int>,
    at: int,
    read: spec_fn(Real) -> int,
)
    requires
        0 <= at < labels.len(),
        forall|i: int| 0 <= i < at ==> #[trigger] labels[i] != labels[at],
        functional_weights(
            share,
            plus,
            labels,
            HonestPostFunctional::Period(labels[at]),
            weights,
        ),
        exact::faithful(read),
    ensures
        exact::inner(exact::values(read, weights), effects, labels.len() as int) == effects[at],
{
    label_position_is_first(labels, labels[at], 0);
    exact::inner_with_unit(exact::values(read, weights), effects, at, labels.len() as int);
}

/// Sum of the effects of the first `count` given periods, each times its weight.
pub open spec fn weighted_total(
    labels: Seq<i32>,
    effects: Seq<int>,
    terms: Seq<(i32, Real)>,
    read: spec_fn(Real) -> int,
    count: int,
) -> int
    decreases count,
{
    if count <= 0 {
        0
    } else {
        weighted_total(labels, effects, terms, read, count - 1) + read(terms[count - 1].1)
            * effects[labels.index_of(terms[count - 1].0)]
    }
}

proof fn running_sums_weigh_the_terms<P: Fn(Real, Real) -> Real>(
    plus: P,
    labels: Seq<i32>,
    terms: Seq<(i32, Real)>,
    sums: Seq<Seq<Real>>,
    effects: Seq<int>,
    read: spec_fn(Real) -> int,
    count: int,
)
    requires
        running_sums(plus, labels, terms, sums),
        labels.no_duplicates(),
        0 <= count <= terms.len(),
        read(Real::zero_spec()) == 0,
        forall|a: Real, b: Real, sum: Real| #[trigger]
            plus.ensures((a, b), sum) ==> read(sum) == read(a) + read(b),
    ensures
        sums[count].len() == labels.len(),
        exact::inner(exact::values(read, sums[count]), effects, labels.len() as int)
            == weighted_total(labels, effects, terms, read, count),
    decreases count,
{
    let n = labels.len() as int;
    if count == 0 {
        let nothing = exact::values(read, sums[0]);
        exact::inner_commutes(nothing, effects, n);
        exact::inner_scales(effects, nothing, nothing, 0, n);
    } else {
        running_sums_weigh_the_terms(plus, labels, terms, sums, effects, read, count - 1);
        let term = terms[count - 1];
        assert(adds_term(plus, labels, term, sums[count - 1], sums[count]));
        let at = label_position(labels, term.0, 0)->0;
        label_position_is_first(labels, term.0, 0);
        assert(labels.contains(term.0));
        assert(labels.index_of(term.0) == at);
        exact::inner_of_one_more(
            exact::values(read, sums[count - 1]),
            exact::values(read, sums[count]),
            effects,
            at,
            read(term.1),
            n,
        );
    }
}

/// The weights of a weighted functional make of the effects the sum of those of its
/// periods, each times the weight that was given to it.
pub proof fn given_weights_weigh_their_periods<S: Fn(usize) -> Real, P: Fn(Real, Real) -> Real>(
    share: S,
    plus: P,
    labels: Seq<i32>,
    terms: Vec<(i32, Real)>,
    weights: Seq<Real>,
    effects: Seq<int>,
    read: spec_fn(Real) -> int,
)
    requires
        functional_weights(share, plus, labels, HonestPostFunctional::Weighted(terms), weights),
        labels.no_duplicates(),
        read(Real::zero_spec()) == 0,
        forall|a: Real, b: Real, sum: Real| #[trigger]
            plus.ensures((a, b), sum) ==> read(sum) == read(a) + read(b),
    ensures
        exact::inner(exact::values(read, weights), effects, labels.len() as int) == weighted_total(
            labels,
            effects,
            terms@,
            read,
            terms@.len() as int,
        ),
{
    let sums = choose|sums: Seq<Seq<Real>>| #[trigger]
        running_sums(plus, labels, terms@, sums) && weights == sums.last();
    running_sums_weigh_the_terms(
        plus,
        labels,
        terms@,
        sums,
        effects,
        read,
        terms@.len() as int,
    );
}

} // verus!
