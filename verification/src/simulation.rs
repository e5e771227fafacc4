//! Seeds, order statistics and critical values of simulations.

use crate::errors::HonestError;
use crate::number::Real;
use vstd::prelude::*;

verus! {

// ---------------------------------------------------------------------------
// Seeds
// ---------------------------------------------------------------------------

/// The increment of the sequence of seeds.
pub const SEED_INCREMENT: u64 = 0x9e37_79b9_7f4a_7c15;

/// The first multiplier of the mixing step.
pub const FIRST_MIX: u64 = 0xbf58_476d_1ce4_e5b9;

/// The second multiplier of the mixing step.
pub const SECOND_MIX: u64 = 0x94d0_49bb_1331_11eb;

/// A seed with its bits mixed.
pub open spec fn mixed(seed: u64) -> u64 {
    let first = (seed ^ (seed >> 30u64)).wrapping_mul(FIRST_MIX);
    let second = (first ^ (first >> 27u64)).wrapping_mul(SECOND_MIX);
    second ^ (second >> 31u64)
}

/// The seed of a draw: the base seed, advanced once for the draw and for each
/// one before it, and mixed.
pub open spec fn draw_seed(base_seed: u64, draw_idx: usize) -> u64 {
    mixed(base_seed.wrapping_add(SEED_INCREMENT.wrapping_mul((draw_idx + 1) as u64)))
}

/// The seed of a draw.
pub fn simulation_draw_seed(base_seed: u64, draw_idx: usize) -> (seed: u64)
    requires
        draw_idx < u64::MAX,
    ensures
        seed == draw_seed(base_seed, draw_idx),
{
    let count: u64 = draw_idx as u64 + 1;
    let start: u64 = base_seed.wrapping_add(SEED_INCREMENT.wrapping_mul(count));
    let first: u64 = (start ^ (start >> 30u64)).wrapping_mul(FIRST_MIX);
    let second: u64 = (first ^ (first >> 27u64)).wrapping_mul(SECOND_MIX);
    second ^ (second >> 31u64)
}

// ---------------------------------------------------------------------------
// Order statistics
// ---------------------------------------------------------------------------

/// Whether values ascend in the total order.
pub open spec fn ascending(values: Seq<Real>) -> bool {
    forall|i: int, j: int|
        0 <= i <= j < values.len() ==> (#[trigger] values[i]).rank() <= (
        #[trigger] values[j]).rank()
}

/// Whether `sorted` holds the values of `values` in ascending order.
pub open spec fn sorts(values: Seq<Real>, sorted: Seq<Real>) -> bool {
    ascending(sorted) && sorted.to_multiset() == values.to_multiset()
}

fn merge(left: &Vec<Real>, right: &Vec<Real>) -> (merged: Vec<Real>)
    requires
        ascending(left@),
        ascending(right@),
        left.len() + right.len() <= usize::MAX,
    ensures
        ascending(merged@),
        merged@.to_multiset() == left@.to_multiset().add(right@.to_multiset()),
        merged.len() == left.len() + right.len(),
{
    broadcast use vstd::seq_lib::group_to_multiset_ensures;

    let mut merged: Vec<Real> = Vec::new();
    let mut i: usize = 0;
    let mut j: usize = 0;
    proof {
        assert(left@.take(0) =~= Seq::empty());
        assert(right@.take(0) =~= Seq::empty());
        assert(merged@ =~= Seq::empty());
        assert(merged@.to_multiset() =~= left@.take(0).to_multiset().add(
            right@.take(0).to_multiset(),
        ));
    }
    while i < left.len() || j < right.len()
        invariant
            i <= left.len(),
            j <= right.len(),
            ascending(left@),
            ascending(right@),
            ascending(merged@),
            merged.len() == i + j,
            left.len() + right.len() <= usize::MAX,
            merged@.to_multiset() == left@.take(i as int).to_multiset().add(
                right@.take(j as int).to_multiset(),
            ),
            forall|a: int, b: int|
                0 <= a < merged.len() && i <= b < left.len() ==> (#[trigger] merged@[a]).rank() <= (
                #[trigger] left@[b]).rank(),
            forall|a: int, b: int|
                0 <= a < merged.len() && j <= b < right.len() ==> (#[trigger] merged@[a]).rank()
                    <= (#[trigger] right@[b]).rank(),
        decreases left.len() - i + right.len() - j,
    {
        broadcast use vstd::seq_lib::group_to_multiset_ensures;

        let from_left = j >= right.len() || (i < left.len() && !right[j].ranks_below(left[i]));
        let ghost before = merged@;
        if from_left {
            merged.push(left[i]);
            proof {
                assert(left@.take(i + 1) =~= left@.take(i as int).push(left@[i as int]));
                assert(merged@.to_multiset() =~= left@.take(i + 1).to_multiset().add(
                    right@.take(j as int).to_multiset(),
                ));
            }
            i = i + 1;
        } else {
            merged.push(right[j]);
            proof {
                assert(right@.take(j + 1) =~= right@.take(j as int).push(right@[j as int]));
                assert(merged@.to_multiset() =~= left@.take(i as int).to_multiset().add(
                    right@.take(j + 1).to_multiset(),
                ));
            }
            j = j + 1;
        }
    }
    proof {
        assert(left@.take(i as int) =~= left@);
        assert(right@.take(j as int) =~= right@);
    }
    merged
}

/// The values in ascending order.
pub fn sort_by_rank(values: &[Real]) -> (sorted: Vec<Real>)
    ensures
        sorts(values@, sorted@),
        sorted.len() == values.len(),
{
    sort_part(values, 0, values.len())
}

fn sort_part(values: &[Real], from: usize, to: usize) -> (sorted: Vec<Real>)
    requires
        from <= to <= values.len(),
    ensures
        sorts(values@.subrange(from as int, to as int), sorted@),
        sorted.len() == to - from,
        from == 0 && to == values.len() ==> sorts(values@, sorted@),
    decreases to - from,
{
    broadcast use vstd::seq_lib::group_to_multiset_ensures;

    let ghost part = values@.subrange(from as int, to as int);
    proof {
        if from == 0 && to == values.len() {
            assert(part =~= values@);
        }
    }
    if to - from <= 1 {
        let mut sorted: Vec<Real> = Vec::new();
        if from < to {
            sorted.push(values[from]);
        }
        proof {
            assert(sorted@ =~= part);
        }
        return sorted;
    }
    let mid: usize = from + (to - from) / 2;
    let left = sort_part(values, from, mid);
    let right = sort_part(values, mid, to);
    let merged = merge(&left, &right);
    proof {
        let first = values@.subrange(from as int, mid as int);
        let second = values@.subrange(mid as int, to as int);
        assert(part =~= first + second);
        vstd::seq_lib::lemma_multiset_commutative(first, second);
        assert(merged@.to_multiset() =~= part.to_multiset());
    }
    merged
}

/// Whether `value` is the order statistic at `idx`: it stands there when the
/// values are put in ascending order.
pub open spec fn order_statistic(values: Seq<Real>, idx: int, value: Real) -> bool {
    exists|sorted: Seq<Real>| #[trigger] sorts(values, sorted) && value == sorted[idx]
}

/// The order statistic at `idx`.
pub fn nth_smallest(values: &[Real], idx: usize) -> (value: Real)
    requires
        idx < values.len(),
    ensures
        order_statistic(values@, idx as int, value),
{
    let sorted = sort_by_rank(values);
    assert(sorts(values@, sorted@));
    sorted[idx]
}

/// The order statistic of given values does not depend on how they are sorted.
pub proof fn order_statistic_is_unique(values: Seq<Real>, idx: int, one: Real, two: Real)
    requires
        0 <= idx < values.len(),
        order_statistic(values, idx, one),
        order_statistic(values, idx, two),
    ensures
        one == two,
{
    broadcast use vstd::seq_lib::group_to_multiset_ensures;

    let first = choose|sorted: Seq<Real>| #[trigger] sorts(values, sorted) && one == sorted[idx];
    let second = choose|sorted: Seq<Real>| #[trigger] sorts(values, sorted) && two == sorted[idx];
    assert(first.len() == values.to_multiset().len());
    assert(second.len() == values.to_multiset().len());
    sorted_alike(first, second);
}

proof fn sorted_alike(first: Seq<Real>, second: Seq<Real>)
    requires
        ascending(first),
        ascending(second),
        first.to_multiset() == second.to_multiset(),
    ensures
        first == second,
    decreases first.len(),
{
    broadcast use vstd::seq_lib::group_to_multiset_ensures;

    assert(first.len() == first.to_multiset().len());
    assert(second.len() == second.to_multiset().len());
    if first.len() == 0 {
        assert(first =~= second);
    } else {
        let n = first.len() as int;
        let a = first[n - 1];
        let b = second[n - 1];
        assert(first.to_multiset().contains(a)) by {
            assert(first.contains(a));
        }
        assert(second.contains(a));
        let i = choose|i: int| 0 <= i < second.len() && second[i] == a;
        assert(second[i].rank() <= second[n - 1].rank());
        assert(second.to_multiset().contains(b)) by {
            assert(second.contains(b));
        }
        assert(first.contains(b));
        let j = choose|j: int| 0 <= j < first.len() && first[j] == b;
        assert(first[j].rank() <= first[n - 1].rank());
        crate::number::rank_is_injective(a, b);
        let short_first = first.drop_last();
        let short_second = second.drop_last();
        assert(first =~= short_first.push(a));
        assert(second =~= short_second.push(a));
        assert(short_first.to_multiset() =~= short_second.to_multiset()) by {
            assert(first.to_multiset() =~= short_first.to_multiset().insert(a));
            assert(second.to_multiset() =~= short_second.to_multiset().insert(a));
            assert(short_first.to_multiset() =~= first.to_multiset().remove(a));
            assert(short_second.to_multiset() =~= second.to_multiset().remove(a));
        }
        sorted_alike(short_first, short_second);
    }
}

// ---------------------------------------------------------------------------
// Least-favorable critical values
// ---------------------------------------------------------------------------

/// Draws from which a simulation is worth splitting.
pub const PARALLEL_MIN_DRAWS: usize = 512;

/// Dimension from which a simulation is worth splitting.
pub const PARALLEL_MIN_DIM: usize = 16;

/// Whether each draw has a generator of its own, so that a simulation can be
/// split.
pub open spec fn draws_apart(sims: usize, dim: usize) -> bool {
    sims >= PARALLEL_MIN_DRAWS && dim >= PARALLEL_MIN_DIM
}

/// Whether each draw has a generator of its own, so that a simulation can be
/// split.
pub fn parallel_arm(sims: usize, dim: usize) -> (r: bool)
    ensures
        r == draws_apart(sims, dim),
{
    sims >= PARALLEL_MIN_DRAWS && dim >= PARALLEL_MIN_DIM
}

/// The values of the draws below `end` that could be solved, in order.
pub open spec fn solved_values(draws: Seq<Option<Real>>, end: int) -> Seq<Real>
    decreases end,
{
    if end <= 0 {
        Seq::empty()
    } else {
        match draws[end - 1] {
            Some(value) => solved_values(draws, end - 1).push(value),
            None => solved_values(draws, end - 1),
        }
    }
}

fn collect_solved(draws: &[Option<Real>]) -> (values: Vec<Real>)
    ensures
        values@ == solved_values(draws@, draws.len() as int),
        values.len() <= draws.len(),
{
    let mut values: Vec<Real> = Vec::new();
    let mut i: usize = 0;
    while i < draws.len()
        invariant
            i <= draws.len(),
            values@ == solved_values(draws@, i as int),
            values.len() <= i,
        decreases draws.len() - i,
    {
        if let Some(value) = draws[i] {
            values.push(value);
        }
        i = i + 1;
    }
    values
}

/// The draws that could be solved or not.
pub open spec fn draws_of(answers: Seq<Result<Option<Real>, String>>) -> Seq<Option<Real>> {
    Seq::new(answers.len(), |k: int| answers[k]->Ok_0)
}

/// The last place among the values of the draws that were solved.
pub open spec fn last_place(answers: Seq<Result<Option<Real>, String>>) -> usize {
    let draws = draws_of(answers);
    (solved_values(draws, draws.len() as int).len() - 1) as usize
}

/// Whether `cv` is the critical value that the answers to so many draws lead to,
/// with the value at place `idx` taken.
pub open spec fn concluded(
    answers: Seq<Result<Option<Real>, String>>,
    idx: usize,
    len: usize,
    dim: usize,
    cv: Result<Real, HonestError>,
) -> bool {
    if dim == 0 || len % dim != 0 {
        &&& answers.len() == 0
        &&& cv == Err::<Real, HonestError>(HonestError::DrawTiling { len, dim })
    } else {
        &&& answers.len() <= len / dim
        &&& forall|k: int| 0 <= k < answers.len() - 1 ==> #[trigger] answers[k] is Ok
        &&& answers.len() < len / dim ==> answers.len() > 0 && answers.last() is Err
        &&& if answers.len() > 0 && answers.last() is Err {
            cv == Err::<Real, HonestError>(
                HonestError::Numerical { message: answers.last()->Err_0 },
            )
        } else {
            let draws = draws_of(answers);
            let values = solved_values(draws, draws.len() as int);
            if values.len() < draws.len() / 2 {
                cv == Err::<Real, HonestError>(
                    HonestError::TooManyFailures {
                        failed: (draws.len() - values.len()) as usize,
                        sims: draws.len() as usize,
                    },
                )
            } else if values.len() == 0 {
                cv == Err::<Real, HonestError>(HonestError::NoCriticalValue)
            } else {
                cv is Ok && order_statistic(values, idx as int, cv->Ok_0)
            }
        }
    }
}

/// Whether `cv` is the critical value from draws of given number and dimension.
pub open spec fn simulated<
    S: Fn(usize) -> Result<Option<Real>, String>,
    A: Fn(usize, usize) -> bool,
>(
    answers: Seq<Result<Option<Real>, String>>,
    idx: usize,
    len: usize,
    dim: usize,
    solve: S,
    reached: A,
    cv: Result<Real, HonestError>,
) -> bool {
    &&& concluded(answers, idx, len, dim, cv)
    &&& forall|k: int|
        0 <= k < answers.len() ==> call_ensures(solve, (k as usize,), #[trigger] answers[k])
    &&& cv is Ok ==> places_at(reached, last_place(answers), idx)
}

/// Whether `idx` is the first of the places up to `last` that has reached the
/// target rank among so many places, or the last where none has.
pub open spec fn places_at<A: Fn(usize, usize) -> bool>(
    reached: A,
    last: usize,
    idx: usize,
) -> bool {
    &&& idx <= last
    &&& forall|k: usize| k < idx ==> #[trigger] call_ensures(reached, (last, k), false)
    &&& idx < last ==> call_ensures(reached, (last, idx), true)
}

/// Critical value from draws that are solved one by one. `reached` says of a
/// last place and a place whether the place has reached the target rank.
pub fn compute_least_favorable_cv_from_draws<
    S: Fn(usize) -> Result<Option<Real>, String>,
    A: Fn(usize, usize) -> bool,
>(len: usize, dim: usize, solve: &S, reached: &A) -> (cv: Result<Real, HonestError>)
    requires
        forall|k: usize|
            dim > 0 && k < len / dim ==> #[trigger] call_requires(*solve, (k,)),
        forall|l: usize, k: usize| #[trigger] call_requires(*reached, (l, k)),
    ensures
        exists|answers: Seq<Result<Option<Real>, String>>, idx: usize| #[trigger]
            simulated(answers, idx, len, dim, *solve, *reached, cv),
{
    let ghost mut answers: Seq<Result<Option<Real>, String>> = Seq::empty();
    if dim == 0 || len % dim != 0 {
        let error = HonestError::DrawTiling { len, dim };
        assert(simulated(answers, 0, len, dim, *solve, *reached, Err(error)));
        return Err(error);
    }
    let sims: usize = len / dim;
    let mut draws: Vec<Option<Real>> = Vec::new();
    let mut k: usize = 0;
    while k < sims
        invariant
            k <= sims,
            dim > 0,
            len % dim == 0,
            sims == len / dim,
            draws.len() == k,
            answers.len() == k,
            draws@ == draws_of(answers),
            forall|i: int| 0 <= i < k ==> #[trigger] answers[i] is Ok,
            forall|i: int|
                0 <= i < k ==> call_ensures(*solve, (i as usize,), #[trigger] answers[i]),
            forall|k: usize| k < len / dim ==> #[trigger] call_requires(*solve, (k,)),
        decreases sims - k,
    {
        let answer = solve(k);
        let ghost longer = answers.push(answer);
        match answer {
            Err(message) => {
                let error = HonestError::Numerical { message };
                assert(longer.last() == answer);
                assert(simulated(longer, 0, len, dim, *solve, *reached, Err(error)));
                return Err(error);
            },
            Ok(draw) => {
                draws.push(draw);
                proof {
                    assert(draws@ =~= draws_of(longer));
                    answers = longer;
                }
            },
        }
        k = k + 1;
    }
    let values = collect_solved(draws.as_slice());
    if values.len() < sims / 2 {
        let error = HonestError::TooManyFailures { failed: sims - values.len(), sims };
        assert(simulated(answers, 0, len, dim, *solve, *reached, Err(error)));
        return Err(error);
    }
    if values.len() == 0 {
        let error = HonestError::NoCriticalValue;
        assert(simulated(answers, 0, len, dim, *solve, *reached, Err(error)));
        return Err(error);
    }
    let last: usize = values.len() - 1;
    let mut idx: usize = 0;
    while idx < last && !reached(last, idx)
        invariant
            idx <= last,
            forall|l: usize, k: usize| #[trigger] call_requires(*reached, (l, k)),
            forall|k: usize| k < idx ==> #[trigger] call_ensures(*reached, (last, k), false),
        ensures
            idx <= last,
            forall|k: usize| k < idx ==> #[trigger] call_ensures(*reached, (last, k), false),
            idx < last ==> call_ensures(*reached, (last, idx), true),
        decreases last - idx,
    {
        idx = idx + 1;
    }
    let value = nth_smallest(values.as_slice(), idx);
    assert(simulated(answers, idx, len, dim, *solve, *reached, Ok(value)));
    Ok(value)
}

} // verus!
