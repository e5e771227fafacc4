//! Multipliers recovered from the binding rows.
//!
//! A vertex of the dual program is carried by as many rows as there are
//! unknowns. Rows are tried in order, one choice after another, and the first
//! choice that gives feasible multipliers is taken.

use crate::errors::HonestError;
use crate::matrix;
use crate::matrix::{copy_row, filled_row, scatter, select_rows};
use crate::moments::TestArithmetic;
use crate::number::Real;
use crate::theta_test;
use vstd::prelude::*;

verus! {

/// The bits of `-1e-8`, below which a multiplier counts as negative.
pub const NEGATIVE_MULTIPLIER_BITS: u64 = 0xbe45798ee2308c3a;

/// The bits of `1e-4`, the largest residual of a feasible vertex.
pub const RESIDUAL_BITS: u64 = 0x3f1a36e2eb1c432d;

/// The bits of `1e-3`, the largest distance of a vertex from the optimum.
pub const OPTIMUM_GAP_BITS: u64 = 0x3f50624dd2f1a9fc;

/// All choices that extend `chosen` to `target` entries by candidates from
/// `start` on, in the order in which they are tried.
pub open spec fn choices(
    candidates: Seq<usize>,
    start: int,
    chosen: Seq<usize>,
    target: int,
) -> Seq<Seq<usize>>
    decreases candidates.len() - start,
{
    if chosen.len() == target {
        seq![chosen]
    } else if start >= candidates.len() {
        Seq::empty()
    } else {
        choices(candidates, start + 1, chosen.push(candidates[start]), target) + choices(
            candidates,
            start + 1,
            chosen,
            target,
        )
    }
}

/// How well multipliers fit the dual program.
#[derive(Debug, PartialEq, Eq)]
pub struct VertexFit {
    /// By how much each equality is missed.
    pub residuals: Vec<Real>,
    /// By how much the optimum is missed.
    pub gap: Real,
}

impl VertexFit {
    /// Whether no equality and not the optimum is missed by too much.
    pub open spec fn good(self) -> bool {
        &&& forall|j: int|
            0 <= j < self.residuals.len() ==> !Real { bits: RESIDUAL_BITS }.lt(
                (#[trigger] self.residuals@[j]).abs_spec(),
            )
        &&& !Real { bits: OPTIMUM_GAP_BITS }.lt(self.gap.abs_spec())
    }

    fn is_good(&self) -> (r: bool)
        ensures
            r == self.good(),
    {
        let bound = Real { bits: RESIDUAL_BITS };
        let mut j: usize = 0;
        while j < self.residuals.len()
            invariant
                j <= self.residuals.len(),
                bound == (Real { bits: RESIDUAL_BITS }),
                forall|k: int| 0 <= k < j ==> !bound.lt((#[trigger] self.residuals@[k]).abs_spec()),
            decreases self.residuals.len() - j,
        {
            if bound.less(self.residuals[j].abs()) {
                return false;
            }
            j = j + 1;
        }
        let limit = Real { bits: OPTIMUM_GAP_BITS };
        !limit.less(self.gap.abs())
    }
}

/// The arithmetic behind the recovery of multipliers.
pub trait VertexArithmetic {
    /// Whether it can be asked.
    spec fn ready(&self) -> bool;

    /// How many rows there are to choose from.
    spec fn rows(&self) -> int;

    /// Whether a choice of rows has these multipliers.
    spec fn solves(&self, chosen: Vec<usize>, multipliers: Option<Vec<Real>>) -> bool;

    /// Whether multipliers of all rows fit the dual program so well.
    spec fn fits(&self, gamma: Vec<Real>, fit: VertexFit) -> bool;

    /// The multipliers of a choice of rows, where the rows are independent.
    fn solve(&self, chosen: &Vec<usize>) -> (multipliers: Option<Vec<Real>>)
        requires
            self.ready(),
            matrix::indices_below(chosen@, self.rows()),
        ensures
            self.solves(*chosen, multipliers),
    ;

    /// How well multipliers of all rows fit the dual program.
    fn fit(&self, gamma: &Vec<Real>) -> (fit: VertexFit)
        requires
            self.ready(),
        ensures
            self.fits(*gamma, fit),
    ;
}

/// [`VertexArithmetic`] by one function each.
pub struct VertexFunctions<A, B> {
    /// The multipliers of a choice of rows, where the rows are independent.
    pub solve: A,
    /// How well multipliers of all rows fit the dual program.
    pub fit: B,
}

impl<
    A: Fn(&Vec<usize>) -> Option<Vec<Real>>,
    B: Fn(&Vec<Real>) -> VertexFit,
> VertexArithmetic for VertexFunctions<A, B> {
    open spec fn ready(&self) -> bool {
        &&& forall|chosen: Vec<usize>| #[trigger]
            call_requires(self.solve, (&chosen,))
        &&& forall|gamma: Vec<Real>| #[trigger]
            call_requires(self.fit, (&gamma,))
    }

    open spec fn rows(&self) -> int {
        usize::MAX + 1
    }

    open spec fn solves(&self, chosen: Vec<usize>, multipliers: Option<Vec<Real>>) -> bool {
        call_ensures(self.solve, (&chosen,), multipliers)
    }

    open spec fn fits(&self, gamma: Vec<Real>, fit: VertexFit) -> bool {
        call_ensures(self.fit, (&gamma,), fit)
    }

    fn solve(&self, chosen: &Vec<usize>) -> (multipliers: Option<Vec<Real>>) {
        (self.solve)(chosen)
    }

    fn fit(&self, gamma: &Vec<Real>) -> (fit: VertexFit) {
        (self.fit)(gamma)
    }
}

/// Whether a multiplier is negative by more than rounding.
pub open spec fn too_negative(value: Real) -> bool {
    value.lt(Real { bits: NEGATIVE_MULTIPLIER_BITS })
}

/// `values` with negative ones replaced by zero.
pub open spec fn clipped(values: Seq<Real>) -> Seq<Real> {
    Seq::new(values.len(), |k: int| values[k].max_spec(Real::zero_spec()))
}

/// What trying one choice of rows brought.
pub struct VertexTrial {
    /// The rows.
    pub rows: Vec<usize>,
    /// Their multipliers, where the rows are independent.
    pub solved: Option<Vec<Real>>,
    /// The multipliers of all rows.
    pub gamma: Vec<Real>,
    /// How well they fit.
    pub fit: VertexFit,
}

impl VertexTrial {
    /// Whether the rows gave multipliers none of which is negative.
    pub open spec fn positive(self) -> bool {
        &&& self.solved is Some
        &&& forall|k: int|
            0 <= k < self.solved->Some_0.len() ==> !too_negative(
                #[trigger] self.solved->Some_0@[k],
            )
    }

    /// Whether the trial gave feasible multipliers.
    pub open spec fn succeeds(self) -> bool {
        self.positive() && self.fit.good()
    }

    /// Whether the trial is one of the given rows with the given arithmetic.
    pub open spec fn answered_by<T: VertexArithmetic>(
        self,
        arithmetic: T,
        total: int,
        rows: Seq<usize>,
    ) -> bool {
        &&& self.rows@ == rows
        &&& arithmetic.solves(self.rows, self.solved)
        &&& self.positive() ==> {
            &&& self.gamma@ == theta_test::spread(rows, clipped(self.solved->Some_0@), total)
            &&& arithmetic.fits(self.gamma, self.fit)
        }
    }
}

/// Whether `trials` are the choices of `list` tried one after another, of which
/// none before the last succeeds.
pub open spec fn tried<T: VertexArithmetic>(
    trials: Seq<VertexTrial>,
    arithmetic: T,
    total: int,
    list: Seq<Seq<usize>>,
) -> bool {
    &&& trials.len() <= list.len()
    &&& forall|i: int|
        0 <= i < trials.len() ==> (#[trigger] trials[i]).answered_by(arithmetic, total, list[i])
    &&& forall|i: int| 0 <= i < trials.len() - 1 ==> !(#[trigger] trials[i]).succeeds()
}

/// What the trials found: the multipliers of the last one where it succeeds,
/// nothing where every choice was tried and none succeeded.
pub open spec fn found(
    trials: Seq<VertexTrial>,
    list: Seq<Seq<usize>>,
    gamma: Option<Seq<Real>>,
) -> bool {
    match gamma {
        Some(values) => trials.len() > 0 && trials.last().succeeds() && values
            == trials.last().gamma@,
        None => trials.len() == list.len() && (trials.len() > 0 ==> !trials.last().succeeds()),
    }
}

fn try_binding_vertex<T: VertexArithmetic>(
    rows: &Vec<usize>,
    total: usize,
    arithmetic: &T,
) -> (out: (
    Option<Vec<Real>>,
    Ghost<VertexTrial>,
))
    requires
        matrix::indices_below(rows@, total as int),
        arithmetic.ready(),
        total <= arithmetic.rows(),
    ensures
        out.1@.answered_by(*arithmetic, total as int, rows@),
        out.0 is Some <==> out.1@.succeeds(),
        out.0 is Some ==> out.0->Some_0@ == out.1@.gamma@,
{
    let ghost mut trial: VertexTrial = arbitrary();
    let solved = arithmetic.solve(rows);
    proof {
        trial.rows = *rows;
        trial.solved = solved;
    }
    let values = match solved {
        None => {
            return (None, Ghost(trial));
        },
        Some(values) => values,
    };
    let floor = Real { bits: NEGATIVE_MULTIPLIER_BITS };
    let mut kept: Vec<Real> = Vec::new();
    let mut k: usize = 0;
    while k < values.len()
        invariant
            k <= values.len(),
            kept.len() == k,
            floor == (Real { bits: NEGATIVE_MULTIPLIER_BITS }),
            trial.solved == Some(values),
            trial.rows == *rows,
            arithmetic.solves(trial.rows, trial.solved),
            forall|i: int| 0 <= i < k ==> !too_negative(#[trigger] values@[i]),
            forall|i: int| 0 <= i < k ==> #[trigger] kept@[i] == clipped(values@)[i],
        decreases values.len() - k,
    {
        if values[k].less(floor) {
            return (None, Ghost(trial));
        }
        kept.push(values[k].max(Real::zero()));
        k = k + 1;
    }
    proof {
        assert(kept@ =~= clipped(values@));
    }
    let gamma = scatter(rows.as_slice(), kept.as_slice(), total);
    let fitted = arithmetic.fit(&gamma);
    proof {
        trial.gamma = gamma;
        trial.fit = fitted;
    }
    if fitted.is_good() {
        (Some(gamma), Ghost(trial))
    } else {
        (None, Ghost(trial))
    }
}

proof fn trials_chain<T: VertexArithmetic>(
    first: Seq<VertexTrial>,
    second: Seq<VertexTrial>,
    arithmetic: T,
    total: int,
    one: Seq<Seq<usize>>,
    two: Seq<Seq<usize>>,
)
    requires
        tried(first, arithmetic, total, one),
        tried(second, arithmetic, total, two),
        first.len() == one.len(),
        first.len() > 0 ==> !first.last().succeeds(),
    ensures
        tried(first + second, arithmetic, total, one + two),
{
    let all = first + second;
    let list = one + two;
    assert forall|i: int| 0 <= i < all.len() implies (#[trigger] all[i]).answered_by(
        arithmetic,
        total,
        list[i],
    ) by {
        if i < first.len() {
            assert(all[i] == first[i]);
            assert(list[i] == one[i]);
        } else {
            assert(all[i] == second[i - first.len()]);
            assert(list[i] == two[i - first.len()]);
        }
    }
    assert forall|i: int| 0 <= i < all.len() - 1 implies !(#[trigger] all[i]).succeeds() by {
        if i < first.len() {
            assert(all[i] == first[i]);
        } else {
            assert(all[i] == second[i - first.len()]);
        }
    }
}

proof fn trials_extend<T: VertexArithmetic>(
    first: Seq<VertexTrial>,
    arithmetic: T,
    total: int,
    one: Seq<Seq<usize>>,
    two: Seq<Seq<usize>>,
)
    requires
        tried(first, arithmetic, total, one),
    ensures
        tried(first, arithmetic, total, one + two),
{
    assert forall|i: int| 0 <= i < first.len() implies (#[trigger] first[i]).answered_by(
        arithmetic,
        total,
        (one + two)[i],
    ) by {
        assert((one + two)[i] == one[i]);
    }
}

fn search_binding_vertex<T: VertexArithmetic>(
    candidates: &[usize],
    start: usize,
    chosen: &mut Vec<usize>,
    target: usize,
    total: usize,
    arithmetic: &T,
) -> (out: (Option<Vec<Real>>, Ghost<Seq<VertexTrial>>))
    requires
        start <= candidates.len(),
        old(chosen).len() <= target,
        matrix::indices_below(candidates@, total as int),
        matrix::indices_below(old(chosen)@, total as int),
        arithmetic.ready(),
        total <= arithmetic.rows(),
    ensures
        final(chosen)@ == old(chosen)@,
        tried(
            out.1@,
            *arithmetic,
            total as int,
            choices(candidates@, start as int, old(chosen)@, target as int),
        ),
        found(
            out.1@,
            choices(candidates@, start as int, old(chosen)@, target as int),
            match out.0 {
                Some(gamma) => Some(gamma@),
                None => None,
            },
        ),
    decreases candidates.len() - start,
{
    let ghost list = choices(candidates@, start as int, chosen@, target as int);
    if chosen.len() == target {
        let (gamma, Ghost(trial)) = try_binding_vertex(chosen, total, arithmetic);
        let ghost only: Seq<VertexTrial> = seq![trial];
        return (gamma, Ghost(only));
    }
    if start >= candidates.len() {
        return (None, Ghost(Seq::empty()));
    }
    let ghost before = chosen@;
    chosen.push(candidates[start]);
    let ghost one = choices(candidates@, start as int + 1, chosen@, target as int);
    let ghost two = choices(candidates@, start as int + 1, before, target as int);
    let (gamma, Ghost(first)) = search_binding_vertex(
        candidates,
        start + 1,
        chosen,
        target,
        total,
        arithmetic,
    );
    let last = chosen.pop();
    proof {
        assert(chosen@ =~= before);
        assert(list == one + two);
    }
    if let Some(gamma) = gamma {
        proof {
            trials_extend(first, *arithmetic, total as int, one, two);
        }
        return (Some(gamma), Ghost(first));
    }
    let (gamma, Ghost(second)) = search_binding_vertex(
        candidates,
        start + 1,
        chosen,
        target,
        total,
        arithmetic,
    );
    proof {
        trials_chain(first, second, *arithmetic, total as int, one, two);
        if second.len() > 0 {
            assert((first + second).last() == second.last());
        } else if first.len() > 0 {
            assert((first + second).last() == first.last());
        }
    }
    (gamma, Ghost(first + second))
}

/// The rows that may carry a vertex: the binding rows, or all rows where too
/// few bind.
pub open spec fn candidate_rows(binding: Seq<usize>, rows: int, target: int) -> Seq<usize> {
    if binding.len() < target {
        Seq::new(rows as nat, |i: int| i as usize)
    } else {
        binding
    }
}

/// Whether `trials` lead to `gamma`: the multipliers of the first choice of
/// `target` candidate rows that gives feasible ones, or an error where no
/// choice does.
pub open spec fn recovers<T: VertexArithmetic>(
    trials: Seq<VertexTrial>,
    arithmetic: T,
    binding: Seq<usize>,
    rows: int,
    target: int,
    gamma: Result<Vec<Real>, HonestError>,
) -> bool {
    let list = choices(candidate_rows(binding, rows, target), 0, Seq::empty(), target);
    &&& tried(trials, arithmetic, rows, list)
    &&& match gamma {
        Ok(values) => found(trials, list, Some(values@)),
        Err(error) => found(trials, list, None) && error == HonestError::NoFeasibleVertex {
            binding: binding.len() as usize,
            rows: rows as usize,
            target: target as usize,
        },
    }
}

/// Recovers the multipliers of all rows from those that bind.
pub fn recover_dual_vertex_from_binding<T: VertexArithmetic>(
    binding: &[usize],
    rows: usize,
    target: usize,
    arithmetic: &T,
) -> (gamma: Result<
    Vec<Real>,
    HonestError,
>)
    requires
        matrix::indices_below(binding@, rows as int),
        arithmetic.ready(),
        rows <= arithmetic.rows(),
    ensures
        exists|trials: Seq<VertexTrial>| #[trigger]
            recovers(
                trials,
                *arithmetic,
                binding@,
                rows as int,
                target as int,
                gamma,
            ),
{
    let mut candidates: Vec<usize> = Vec::new();
    if binding.len() < target {
        let mut i: usize = 0;
        while i < rows
            invariant
                i <= rows,
                candidates.len() == i,
                forall|k: int| 0 <= k < i ==> #[trigger] candidates@[k] == k,
            decreases rows - i,
        {
            candidates.push(i);
            i = i + 1;
        }
    } else {
        candidates = copy_row(binding);
    }
    proof {
        assert(candidates@ =~= candidate_rows(binding@, rows as int, target as int));
    }
    let mut chosen: Vec<usize> = Vec::new();
    let (gamma, Ghost(trials)) = search_binding_vertex(
        candidates.as_slice(),
        0,
        &mut chosen,
        target,
        rows,
        arithmetic,
    );
    match gamma {
        Some(values) => {
            assert(recovers(
                trials,
                *arithmetic,
                binding@,
                rows as int,
                target as int,
                Ok(values),
            ));
            Ok(values)
        },
        None => {
            let error = HonestError::NoFeasibleVertex { binding: binding.len(), rows, target };
            assert(recovers(
                trials,
                *arithmetic,
                binding@,
                rows as int,
                target as int,
                Err(error),
            ));
            Err(error)
        },
    }
}

// ---------------------------------------------------------------------------
// Laws
// ---------------------------------------------------------------------------

/// The candidates at the given places.
pub open spec fn picked(candidates: Seq<usize>, places: Seq<int>) -> Seq<usize> {
    Seq::new(places.len(), |k: int| candidates[places[k]])
}

/// Strictly increasing places in `start..end`.
pub open spec fn increasing(places: Seq<int>, start: int, end: int) -> bool {
    &&& forall|k: int| 0 <= k < places.len() ==> start <= #[trigger] places[k] < end
    &&& forall|a: int, b: int|
        0 <= a < b < places.len() ==> #[trigger] places[a] < #[trigger] places[b]
}

/// Every way to fill up a choice with candidates in their order is tried.
pub proof fn every_choice_is_tried(
    candidates: Seq<usize>,
    start: int,
    chosen: Seq<usize>,
    target: int,
    places: Seq<int>,
)
    requires
        0 <= start <= candidates.len(),
        increasing(places, start, candidates.len() as int),
        chosen.len() + places.len() == target,
    ensures
        choices(candidates, start, chosen, target).contains(chosen + picked(candidates, places)),
    decreases candidates.len() - start,
{
    let list = choices(candidates, start, chosen, target);
    if places.len() == 0 {
        assert(chosen + picked(candidates, places) =~= chosen);
        assert(list[0] == chosen);
    } else {
        assert(start <= places[0] < candidates.len());
        let one = choices(candidates, start + 1, chosen.push(candidates[start]), target);
        let two = choices(candidates, start + 1, chosen, target);
        let wanted = chosen + picked(candidates, places);
        if places[0] == start {
            let rest = places.skip(1);
            assert forall|k: int| 0 <= k < rest.len() implies start + 1 <= #[trigger] rest[k]
                < candidates.len() by {
                assert(places[0] < places[k + 1]);
            }
            every_choice_is_tried(
                candidates,
                start + 1,
                chosen.push(candidates[start]),
                target,
                rest,
            );
            assert(chosen.push(candidates[start]) + picked(candidates, rest) =~= wanted);
            let i = choose|i: int| 0 <= i < one.len() && one[i] == wanted;
            assert(list[i] == wanted);
        } else {
            assert forall|k: int| 0 <= k < places.len() implies start + 1 <= #[trigger] places[k]
                < candidates.len() by {
                if k > 0 {
                    assert(places[0] < places[k]);
                }
            }
            every_choice_is_tried(candidates, start + 1, chosen, target, places);
            let i = choose|i: int| 0 <= i < two.len() && two[i] == wanted;
            assert(list[one.len() + i] == wanted);
        }
    }
}

/// Nothing else is tried: each choice fills up the given one with candidates in
/// their order.
pub proof fn only_choices_are_tried(
    candidates: Seq<usize>,
    start: int,
    chosen: Seq<usize>,
    target: int,
    i: int,
) -> (places: Seq<int>)
    requires
        0 <= start <= candidates.len(),
        chosen.len() <= target,
        0 <= i < choices(candidates, start, chosen, target).len(),
    ensures
        increasing(places, start, candidates.len() as int),
        chosen.len() + places.len() == target,
        choices(candidates, start, chosen, target)[i] == chosen + picked(candidates, places),
    decreases candidates.len() - start,
{
    if chosen.len() == target {
        let places = Seq::<int>::empty();
        assert(chosen + picked(candidates, places) =~= chosen);
        places
    } else {
        let one = choices(candidates, start + 1, chosen.push(candidates[start]), target);
        if i < one.len() {
            let rest = only_choices_are_tried(
                candidates,
                start + 1,
                chosen.push(candidates[start]),
                target,
                i,
            );
            let places = seq![start] + rest;
            assert(chosen.push(candidates[start]) + picked(candidates, rest) =~= chosen + picked(
                candidates,
                places,
            ));
            places
        } else {
            only_choices_are_tried(candidates, start + 1, chosen, target, i - one.len())
        }
    }
}

/// Whether `out` are the multipliers of a choice of rows: none where the rows
/// are dependent or their system cannot be solved.
pub open spec fn multipliers_of<T: TestArithmetic>(
    chosen: Seq<usize>,
    w_t: Seq<Vec<Real>>,
    arithmetic: T,
    rows: Vec<Vec<Real>>,
    unit: Vec<Real>,
    found: usize,
    out: Option<Vec<Real>>,
) -> bool {
    &&& matrix::rows_of(rows@) == Seq::new(chosen.len(), |i: int| w_t[chosen[i] as int]@)
    &&& unit@ == Seq::new(
        chosen.len(),
        |i: int|
            if i == 0 {
                Real::one_spec()
            } else {
                Real::zero_spec()
            },
    )
    &&& arithmetic.ranks(rows, found)
    &&& if found == chosen.len() {
        arithmetic.transposes(rows, unit, out)
    } else {
        out is None
    }
}

/// The multipliers of a choice of rows, whose first combination is one and whose
/// others vanish.
pub fn binding_multipliers<T: TestArithmetic>(
    chosen: &[usize],
    w_t: &[Vec<Real>],
    arithmetic: &T,
) -> (out: Option<Vec<Real>>)
    requires
        chosen.len() > 0,
        matrix::indices_below(chosen@, w_t@.len() as int),
        arithmetic.ready(),
    ensures
        exists|rows: Vec<Vec<Real>>, unit: Vec<Real>, found: usize| #[trigger]
            multipliers_of(chosen@, w_t@, *arithmetic, rows, unit, found, out),
{
    let rows = select_rows(w_t, chosen);
    let mut unit = filled_row(chosen.len(), Real::zero());
    unit.set(0, Real::one());
    let found: usize = arithmetic.rank(&rows);
    let out = if found == chosen.len() {
        arithmetic.transposed(&rows, &unit)
    } else {
        None
    };
    proof {
        assert(unit@ =~= Seq::new(
            chosen@.len(),
            |i: int|
                if i == 0 {
                    Real::one_spec()
                } else {
                    Real::zero_spec()
                },
        ));
        assert(matrix::rows_of(rows@) =~= Seq::new(
            chosen@.len(),
            |i: int| w_t@[chosen@[i] as int]@,
        ));
        assert(multipliers_of(chosen@, w_t@, *arithmetic, rows, unit, found, out));
    }
    out
}

} // verus!
