//! Draws and quantiles of the normal distribution.

use crate::input::negated_values;
use crate::matrix;
use crate::matrix::max_abs;
use crate::number::Real;
use crate::simulation;
use crate::simulation::{parallel_arm, simulation_draw_seed};
use vstd::prelude::*;

verus! {

/// The bits of `1e-12`, the lowest probability that is used.
pub const LOWEST_PROBABILITY_BITS: u64 = 0x3d719799812dea11;

/// The bits of `1.0 - 1e-12`, the highest probability that is used.
pub const HIGHEST_PROBABILITY_BITS: u64 = 0x3fefffffffffdcd1;

// ---------------------------------------------------------------------------
// Probabilities and quantiles
// ---------------------------------------------------------------------------

/// A probability, moved off zero and one; a NaN stays.
pub open spec fn usable_probability(p: Real) -> Real {
    if p.lt(Real { bits: LOWEST_PROBABILITY_BITS }) {
        Real { bits: LOWEST_PROBABILITY_BITS }
    } else if (Real { bits: HIGHEST_PROBABILITY_BITS }).lt(p) {
        Real { bits: HIGHEST_PROBABILITY_BITS }
    } else {
        p
    }
}

fn clamp_probability(p: Real) -> (usable: Real)
    ensures
        usable == usable_probability(p),
{
    if p.less(Real::from_bits(LOWEST_PROBABILITY_BITS)) {
        Real::from_bits(LOWEST_PROBABILITY_BITS)
    } else if Real::from_bits(HIGHEST_PROBABILITY_BITS).less(p) {
        Real::from_bits(HIGHEST_PROBABILITY_BITS)
    } else {
        p
    }
}

/// The confidence level of a two-sided critical value, moved off zero and one.
pub fn pointwise_confidence_level_from_critical<C: Fn(Real) -> Real>(
    critical: Real,
    cover: &C,
) -> (level: Real)
    requires
        call_requires(*cover, (critical,)),
    ensures
        exists|covered: Real| #[trigger]
            call_ensures(*cover, (critical,), covered) && level == usable_probability(covered),
{
    let covered = cover(critical);
    clamp_probability(covered)
}

/// Whether `below` is the probability below the lower truncation point and
/// `upto` the one below the upper.
pub open spec fn truncates<C: Fn(Real) -> Real>(
    l: Real,
    u: Real,
    cdf: C,
    below: Real,
    upto: Real,
) -> bool {
    &&& if l == Real::neg_infinity_spec() {
        below == Real::zero_spec()
    } else {
        call_ensures(cdf, (l,), below)
    }
    &&& if u == Real::infinity_spec() {
        upto == Real::one_spec()
    } else {
        call_ensures(cdf, (u,), upto)
    }
}

/// Whether `value` is the quantile of a truncated normal distribution: zero
/// where nothing lies between the truncation points.
pub open spec fn is_truncated_quantile<
    C: Fn(Real) -> Real,
    B: Fn(Real, Real, Real) -> Real,
    Q: Fn(Real) -> Real,
>(
    p: Real,
    l: Real,
    u: Real,
    cdf: C,
    blend: B,
    quantile: Q,
    below: Real,
    upto: Real,
    target: Real,
    value: Real,
) -> bool {
    &&& truncates(l, u, cdf, below, upto)
    &&& if upto.le(below) {
        value == Real::zero_spec()
    } else {
        &&& call_ensures(blend, (p, below, upto), target)
        &&& call_ensures(quantile, (usable_probability(target),), value)
    }
}

/// The quantile of the standard normal distribution truncated to an interval.
pub fn truncated_normal_quantile<
    C: Fn(Real) -> Real,
    B: Fn(Real, Real, Real) -> Real,
    Q: Fn(Real) -> Real,
>(p: Real, l: Real, u: Real, cdf: &C, blend: &B, quantile: &Q) -> (value: Real)
    requires
        forall|x: Real| #[trigger] call_requires(*cdf, (x,)),
        forall|a: Real, b: Real, c: Real| #[trigger] call_requires(*blend, (a, b, c)),
        forall|x: Real| #[trigger] call_requires(*quantile, (x,)),
    ensures
        exists|below: Real, upto: Real, target: Real| #[trigger]
            is_truncated_quantile(
                p,
                l,
                u,
                *cdf,
                *blend,
                *quantile,
                below,
                upto,
                target,
                value,
            ),
{
    let below = if l == Real::neg_infinity() {
        Real::zero()
    } else {
        cdf(l)
    };
    let upto = if u == Real::infinity() {
        Real::one()
    } else {
        cdf(u)
    };
    if upto.at_most(below) {
        let value = Real::zero();
        assert(is_truncated_quantile(
            p,
            l,
            u,
            *cdf,
            *blend,
            *quantile,
            below,
            upto,
            Real::zero_spec(),
            value,
        ));
        return value;
    }
    let target = blend(p, below, upto);
    let value = quantile(clamp_probability(target));
    assert(is_truncated_quantile(
        p,
        l,
        u,
        *cdf,
        *blend,
        *quantile,
        below,
        upto,
        target,
        value,
    ));
    value
}

// ---------------------------------------------------------------------------
// Draws
// ---------------------------------------------------------------------------

/// Whether `out` holds draws two by two from pairs, and a single one last where
/// their number is odd.
pub open spec fn drawn_in_pairs<P: FnMut() -> (Real, Real), S: FnMut() -> Real>(
    out: Seq<Real>,
    pair: P,
    single: S,
) -> bool {
    &&& forall|k: int|
        0 <= k && 2 * k + 1 < out.len() ==> call_ensures(
            pair,
            (),
            (#[trigger] out[2 * k], out[2 * k + 1]),
        )
    &&& out.len() % 2 == 1 ==> call_ensures(single, (), out.last())
}

/// Independent standard normal draws, made in pairs as far as possible.
pub fn draw_standard_normal_vec<P: FnMut() -> (Real, Real), S: FnMut() -> Real>(
    len: usize,
    pair: &mut P,
    single: &mut S,
) -> (out: Vec<Real>)
    requires
        call_requires(*old(pair), ()),
        call_requires(*old(single), ()),
    ensures
        *final(pair) == *old(pair),
        *final(single) == *old(single),
        out.len() == len,
        drawn_in_pairs(out@, *old(pair), *old(single)),
{
    let ghost pairs = *pair;
    let ghost singles = *single;
    let mut out: Vec<Real> = Vec::new();
    while len - out.len() >= 2
        invariant
            out.len() <= len,
            out.len() % 2 == 0,
            *pair == pairs,
            *old(pair) == pairs,
            *single == singles,
            *old(single) == singles,
            call_requires(pairs, ()),
            call_requires(singles, ()),
            forall|k: int|
                0 <= k && 2 * k + 1 < out.len() ==> call_ensures(
                    pairs,
                    (),
                    (#[trigger] out@[2 * k], out@[2 * k + 1]),
                ),
        decreases len - out.len(),
    {
        let ghost before = out@;
        let (one, other) = pair();
        out.push(one);
        out.push(other);
        proof {
            assert forall|k: int| 0 <= k && 2 * k + 1 < out.len() implies call_ensures(
                pairs,
                (),
                (#[trigger] out@[2 * k], out@[2 * k + 1]),
            ) by {
                if 2 * k + 1 < before.len() {
                    assert(out@[2 * k] == before[2 * k]);
                    assert(out@[2 * k + 1] == before[2 * k + 1]);
                } else {
                    assert(2 * k == before.len());
                }
            }
        }
    }
    if out.len() < len {
        let ghost before = out@;
        let last = single();
        out.push(last);
        proof {
            assert forall|k: int| 0 <= k && 2 * k + 1 < out.len() implies call_ensures(
                pairs,
                (),
                (#[trigger] out@[2 * k], out@[2 * k + 1]),
            ) by {
                assert(out@[2 * k] == before[2 * k]);
                assert(out@[2 * k + 1] == before[2 * k + 1]);
            }
        }
    }
    out
}

/// Whether draws from seeds have a dimension, and draws of that dimension can be
/// correlated.
pub open spec fn draws_fit<D: Fn(u64) -> Vec<Real>, M: Fn(&Vec<Real>) -> Vec<Real>>(
    dim: int,
    draw: D,
    correlate: M,
) -> bool {
    &&& forall|seed: u64, independent: Vec<Real>| #[trigger]
        call_ensures(draw, (seed,), independent) ==> independent@.len() == dim
    &&& forall|independent: Vec<Real>|
        independent@.len() == dim ==> #[trigger] call_requires(correlate, (&independent,))
}

/// Whether `maximum` is the largest magnitude of a correlated draw.
pub open spec fn is_maximum<D: Fn(u64) -> Vec<Real>, M: Fn(&Vec<Real>) -> Vec<Real>>(
    seed: u64,
    draw: D,
    correlate: M,
    independent: Vec<Real>,
    correlated: Vec<Real>,
    maximum: Real,
) -> bool {
    &&& call_ensures(draw, (seed,), independent)
    &&& call_ensures(correlate, (&independent,), correlated)
    &&& maximum == matrix::largest_magnitude(correlated@, correlated@.len() as int)
}

/// Whether `maximum` is the largest magnitude of some correlated draw from a
/// seed.
pub open spec fn maximum_from<D: Fn(u64) -> Vec<Real>, M: Fn(&Vec<Real>) -> Vec<Real>>(
    seed: u64,
    draw: D,
    correlate: M,
    maximum: Real,
) -> bool {
    exists|independent: Vec<Real>, correlated: Vec<Real>| #[trigger]
        is_maximum(seed, draw, correlate, independent, correlated, maximum)
}

/// The largest magnitudes of correlated draws, each from a seed of its own.
pub fn simulated_lower_cholesky_maxima<
    D: Fn(u64) -> Vec<Real>,
    M: Fn(&Vec<Real>) -> Vec<Real>,
>(dim: usize, simulation_draws: usize, simulation_seed: u64, draw: &D, correlate: &M) -> (maxima:
    Vec<Real>)
    requires
        forall|seed: u64| #[trigger] call_requires(*draw, (seed,)),
        draws_fit(dim as int, *draw, *correlate),
    ensures
        maxima.len() == simulation_draws,
        forall|i: int|
            0 <= i < maxima.len() ==> #[trigger] maximum_from(
                simulation::draw_seed(simulation_seed, i as usize),
                *draw,
                *correlate,
                maxima@[i],
            ),
{
    let mut maxima: Vec<Real> = Vec::new();
    while maxima.len() < simulation_draws
        invariant
            maxima.len() <= simulation_draws,
            forall|seed: u64| #[trigger] call_requires(*draw, (seed,)),
            draws_fit(dim as int, *draw, *correlate),
            forall|i: int|
                0 <= i < maxima.len() ==> #[trigger] maximum_from(
                    simulation::draw_seed(simulation_seed, i as usize),
                    *draw,
                    *correlate,
                    maxima@[i],
                ),
        decreases simulation_draws - maxima.len(),
    {
        let idx: usize = maxima.len();
        let seed: u64 = simulation_draw_seed(simulation_seed, idx);
        let independent = draw(seed);
        let correlated = correlate(&independent);
        let maximum = max_abs(&correlated);
        assert(is_maximum(seed, *draw, *correlate, independent, correlated, maximum));
        assert(maximum_from(seed, *draw, *correlate, maximum));
        maxima.push(maximum);
    }
    maxima
}

/// Whether `y` is the draw at a place: a correlated draw with its signs flipped,
/// from a seed of its own where the simulation can be split, else the next of
/// one generator.
pub open spec fn is_draw<
    D: Fn(u64) -> Vec<Real>,
    N: FnMut() -> Vec<Real>,
    M: Fn(&Vec<Real>) -> Vec<Real>,
>(
    apart: bool,
    seed: u64,
    draw: D,
    next: N,
    correlate: M,
    independent: Vec<Real>,
    correlated: Vec<Real>,
    y: Seq<Real>,
) -> bool {
    &&& if apart {
        call_ensures(draw, (seed,), independent)
    } else {
        call_ensures(next, (), independent)
    }
    &&& call_ensures(correlate, (&independent,), correlated)
    &&& y == Seq::new(correlated@.len(), |k: int| correlated@[k].neg_spec())
}

/// Whether `y` is some draw at a place.
pub open spec fn drawn<
    D: Fn(u64) -> Vec<Real>,
    N: FnMut() -> Vec<Real>,
    M: Fn(&Vec<Real>) -> Vec<Real>,
>(apart: bool, seed: u64, draw: D, next: N, correlate: M, y: Seq<Real>) -> bool {
    exists|independent: Vec<Real>, correlated: Vec<Real>| #[trigger]
        is_draw(apart, seed, draw, next, correlate, independent, correlated, y)
}

/// The draws that a least-favorable simulation solves against.
pub fn simulation_draws<
    D: Fn(u64) -> Vec<Real>,
    N: FnMut() -> Vec<Real>,
    M: Fn(&Vec<Real>) -> Vec<Real>,
>(sims: usize, dim: usize, seed: u64, draw: &D, next: &mut N, correlate: &M) -> (draws: Vec<
    Vec<Real>,
>)
    requires
        forall|s: u64| #[trigger] call_requires(*draw, (s,)),
        call_requires(*old(next), ()),
        forall|independent: Vec<Real>| #[trigger]
            call_ensures(*old(next), (), independent) ==> independent@.len() == dim,
        draws_fit(dim as int, *draw, *correlate),
    ensures
        *final(next) == *old(next),
        draws.len() == sims,
        forall|i: int|
            0 <= i < sims ==> #[trigger] drawn(
                simulation::draws_apart(sims, dim),
                simulation::draw_seed(seed, i as usize),
                *draw,
                *old(next),
                *correlate,
                draws@[i]@,
            ),
{
    let ghost generator = *next;
    let apart = parallel_arm(sims, dim);
    let mut draws: Vec<Vec<Real>> = Vec::new();
    while draws.len() < sims
        invariant
            draws.len() <= sims,
            *next == generator,
            *old(next) == generator,
            call_requires(generator, ()),
            apart == simulation::draws_apart(sims, dim),
            forall|independent: Vec<Real>| #[trigger]
                call_ensures(generator, (), independent) ==> independent@.len() == dim,
            forall|s: u64| #[trigger] call_requires(*draw, (s,)),
            draws_fit(dim as int, *draw, *correlate),
            forall|i: int|
                0 <= i < draws.len() ==> #[trigger] drawn(
                    apart,
                    simulation::draw_seed(seed, i as usize),
                    *draw,
                    generator,
                    *correlate,
                    draws@[i]@,
                ),
        decreases sims - draws.len(),
    {
        let idx: usize = draws.len();
        let own: u64 = simulation_draw_seed(seed, idx);
        let independent = if apart {
            draw(own)
        } else {
            next()
        };
        let correlated = correlate(&independent);
        let y = negated_values(&correlated);
        proof {
            assert(is_draw(
                apart,
                own,
                *draw,
                generator,
                *correlate,
                independent,
                correlated,
                y@,
            ));
            assert(drawn(apart, own, *draw, generator, *correlate, y@));
        }
        draws.push(y);
    }
    draws
}

/// No maximum is negative.
pub proof fn maxima_are_not_negative<D: Fn(u64) -> Vec<Real>, M: Fn(&Vec<Real>) -> Vec<Real>>(
    seed: u64,
    draw: D,
    correlate: M,
    maximum: Real,
)
    requires
        maximum_from(seed, draw, correlate, maximum),
    ensures
        Real::zero_spec().le(maximum),
{
    let (independent, correlated) = choose|independent: Vec<Real>, correlated: Vec<Real>|
        #[trigger] is_maximum(seed, draw, correlate, independent, correlated, maximum);
    matrix::largest_magnitude_bounds(correlated@, correlated@.len() as int);
}

/// A usable probability lies strictly between zero and one, unless it is no
/// number.
pub proof fn usable_probabilities_are_inside(p: Real)
    requires
        !p.nan(),
    ensures
        Real::zero_spec().lt(usable_probability(p)),
        usable_probability(p).lt(Real::one_spec()),
{
}

/// Between its truncation points, the share of the distribution below a truncated
/// quantile is the given probability, where the functions handed in are those of a
/// distribution and the quantile needs no moving off zero and one.
pub proof fn a_truncated_quantile_splits_what_lies_between<
    C: Fn(Real) -> Real,
    B: Fn(Real, Real, Real) -> Real,
    Q: Fn(Real) -> Real,
>(
    p: Real,
    l: Real,
    u: Real,
    cdf: C,
    blend: B,
    quantile: Q,
    below: Real,
    upto: Real,
    target: Real,
    value: Real,
    chance: spec_fn(Real) -> int,
    unit: int,
    read: spec_fn(Real) -> int,
)
    requires
        is_truncated_quantile(
            p,
            l,
            u,
            cdf,
            blend,
            quantile,
            below,
            upto,
            target,
            value,
        ),
        read(Real::zero_spec()) == 0,
        read(Real::one_spec()) == unit,
        forall|x: Real, y: Real| #[trigger] x.le(y) ==> read(x) <= read(y),
        chance(Real::neg_infinity_spec()) == 0,
        chance(Real::infinity_spec()) == unit,
        forall|x: Real, share: Real| #[trigger]
            cdf.ensures((x,), share) ==> read(share) == chance(x),
        forall|share: Real, low: Real, high: Real, mixed: Real| #[trigger]
            blend.ensures((share, low, high), mixed) ==> unit * read(mixed) == unit * read(low)
                + read(share) * (read(high) - read(low)),
        forall|share: Real, x: Real| #[trigger]
            quantile.ensures((share,), x) ==> chance(x) == read(share),
        chance(l) < chance(u),
        usable_probability(target) == target,
    ensures
        unit * (chance(value) - chance(l)) == read(p) * (chance(u) - chance(l)),
{
    assert(read(below) == chance(l));
    assert(read(upto) == chance(u));
    assert(!upto.le(below));
    let v = chance(value);
    let c = chance(l);
    assert(unit * (v - c) == unit * v - unit * c) by (nonlinear_arith);
}

/// The maximum of a correlated draw is at least the magnitude of each of its entries,
/// and is zero or that of one of them.
pub proof fn a_maximum_bounds_every_entry<D: Fn(u64) -> Vec<Real>, M: Fn(&Vec<Real>) -> Vec<Real>>(
    seed: u64,
    draw: D,
    correlate: M,
    independent: Vec<Real>,
    correlated: Vec<Real>,
    maximum: Real,
    i: int,
) -> (k: int)
    requires
        is_maximum(seed, draw, correlate, independent, correlated, maximum),
        0 <= i < correlated@.len(),
        !correlated@[i].nan(),
    ensures
        correlated@[i].abs_spec().le(maximum),
        maximum == Real::zero_spec() || (0 <= k < correlated@.len() && maximum
            == correlated@[k].abs_spec()),
{
    let end = correlated@.len() as int;
    matrix::largest_magnitude_bounds(correlated@, end);
    matrix::largest_magnitude_is_attained(correlated@, end)
}

} // verus!
