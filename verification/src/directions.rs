//! Directions of the post-treatment coefficients.

use crate::errors::HonestError;
use crate::input;
use crate::input::negated_values;
use crate::matrix;
use crate::matrix::{copy_row, filled_row};
use crate::number::Real;
use vstd::prelude::*;

verus! {

/// The bits of `1e-14`, at or below which a sum of squares counts as zero.
pub const ZERO_SQUARE_BITS: u64 = 0x3d06849b86a12b9b;

/// The bits of `1e-12`, above which an entry decides the sign of a direction.
pub const LEADING_BITS: u64 = 0x3d719799812dea11;

/// The bits of `5e-11`, below which an entry falls into the zero bucket.
pub const ZERO_BUCKET_BITS: u64 = 0x3dcb7cdfd9d7bdbb;

/// How many directions are refined.
pub const REFINED_DIRECTIONS: usize = 8;

/// A direction or nothing, as a sequence.
pub open spec fn direction_view(direction: Option<Vec<Real>>) -> Option<Seq<Real>> {
    match direction {
        Some(found) => Some(found@),
        None => None,
    }
}

/// The outcome of a search, as a sequence.
pub open spec fn search_view(best: Result<Option<Vec<Real>>, String>) -> Result<
    Option<Seq<Real>>,
    String,
> {
    match best {
        Ok(found) => Ok(direction_view(found)),
        Err(message) => Err(message),
    }
}

/// The arithmetic of directions.
pub trait DirectionNumbers {
    /// Whether the arithmetic takes whatever may be asked of it.
    spec fn ready(&self) -> bool;

    /// Whether `square` is the sum of squares of a direction.
    spec fn is_square(&self, direction: Seq<Real>, square: Real) -> bool;

    /// Whether `scaled` is an entry over the root of a sum of squares.
    spec fn is_scaled(&self, value: Real, square: Real, scaled: Real) -> bool;

    /// Whether `form` is the quadratic form of a matrix at a direction.
    spec fn is_form(&self, direction: Seq<Real>, sigma: Seq<Seq<Real>>, form: Real) -> bool;

    /// Whether `stepped` is the entry of a neighbouring vertex.
    spec fn is_stepped(&self, value: Real, stepped: Real) -> bool;

    /// Whether `best` is where a simplex search for the largest variance ends.
    spec fn is_search(
        &self,
        simplex: Seq<Seq<Real>>,
        sigma: Seq<Seq<Real>>,
        best: Result<Option<Seq<Real>>, String>,
    ) -> bool;

    /// Whether `key` is the bucket of an entry.
    spec fn is_rounded(&self, value: Real, key: i64) -> bool;

    /// Whether `draws` are standard normal vectors from a seed.
    spec fn is_draws(&self, seed: u64, count: usize, dim: usize, draws: Seq<Seq<Real>>) -> bool;

    /// Whether `difference` is the difference of two numbers.
    spec fn is_difference(&self, left: Real, right: Real, difference: Real) -> bool;

    /// The sum of squares of a direction.
    fn square(&self, direction: &Vec<Real>) -> (square: Real)
        requires
            self.ready(),
        ensures
            self.is_square(direction@, square),
    ;

    /// An entry over the root of a sum of squares.
    fn scaled(&self, value: Real, square: Real) -> (scaled: Real)
        requires
            self.ready(),
        ensures
            self.is_scaled(value, square, scaled),
    ;

    /// The quadratic form of a matrix at a direction.
    fn form(&self, direction: &Vec<Real>, sigma: &Vec<Vec<Real>>) -> (form: Real)
        requires
            self.ready(),
            direction.len() == sigma.len(),
            matrix::has_cols(sigma@, sigma.len() as int),
        ensures
            self.is_form(direction@, matrix::rows_of(sigma@), form),
    ;

    /// The entry of a neighbouring vertex.
    fn stepped(&self, value: Real) -> (stepped: Real)
        requires
            self.ready(),
        ensures
            self.is_stepped(value, stepped),
    ;

    /// Where a simplex search for the largest variance ends.
    fn search(&self, simplex: Vec<Vec<Real>>, sigma: &Vec<Vec<Real>>) -> (best: Result<
        Option<Vec<Real>>,
        String,
    >)
        requires
            self.ready(),
            simplex.len() == sigma.len() + 1,
            matrix::has_cols(simplex@, sigma.len() as int),
            matrix::has_cols(sigma@, sigma.len() as int),
        ensures
            self.is_search(matrix::rows_of(simplex@), matrix::rows_of(sigma@), search_view(best)),
    ;

    /// The bucket of an entry.
    fn rounded(&self, value: Real) -> (key: i64)
        requires
            self.ready(),
        ensures
            self.is_rounded(value, key),
    ;

    /// Standard normal vectors from a seed.
    fn draws(&self, seed: u64, count: usize, dim: usize) -> (draws: Vec<Vec<Real>>)
        requires
            self.ready(),
        ensures
            self.is_draws(seed, count, dim, matrix::rows_of(draws@)),
            draws.len() == count,
            matrix::has_cols(draws@, dim as int),
    ;

    /// The difference of two numbers.
    fn difference(&self, left: Real, right: Real) -> (difference: Real)
        requires
            self.ready(),
        ensures
            self.is_difference(left, right, difference),
    ;
}

/// The arithmetic of [`DirectionNumbers`].
pub struct DirectionArithmetic<DQ, DS, DF, DT, DN, DK, DD, DM> {
    /// Sum of squares.
    pub square: DQ,
    /// Entry over the root of a sum of squares.
    pub scale: DS,
    /// Quadratic form.
    pub form: DF,
    /// Entry of a neighbouring vertex.
    pub step: DT,
    /// Simplex search.
    pub search: DN,
    /// Bucket of an entry.
    pub round: DK,
    /// Standard normal vectors.
    pub draw: DD,
    /// Difference of two numbers.
    pub subtract: DM,
}

impl<
    DQ: Fn(&Vec<Real>) -> Real,
    DS: Fn(Real, Real) -> Real,
    DF: Fn(&Vec<Real>, &Vec<Vec<Real>>) -> Real,
    DT: Fn(Real) -> Real,
    DN: Fn(Vec<Vec<Real>>, &Vec<Vec<Real>>) -> Result<Option<Vec<Real>>, String>,
    DK: Fn(Real) -> i64,
    DD: Fn(u64, usize, usize) -> Vec<Vec<Real>>,
    DM: Fn(Real, Real) -> Real,
> DirectionNumbers for DirectionArithmetic<DQ, DS, DF, DT, DN, DK, DD, DM> {
    open spec fn ready(&self) -> bool {
        &&& forall|v: Vec<Real>| #[trigger] call_requires(self.square, (&v,))
        &&& forall|a: Real, b: Real| #[trigger] call_requires(self.scale, (a, b))
        &&& forall|v: Vec<Real>, m: Vec<Vec<Real>>|
            v.len() == m.len() && matrix::has_cols(m@, m.len() as int) ==> #[trigger] call_requires(
                self.form,
                (&v, &m),
            )
        &&& forall|a: Real| #[trigger] call_requires(self.step, (a,))
        &&& forall|s: Vec<Vec<Real>>, m: Vec<Vec<Real>>|
            s.len() == m.len() + 1 && matrix::has_cols(s@, m.len() as int) && matrix::has_cols(
                m@,
                m.len() as int,
            ) ==> #[trigger] call_requires(self.search, (s, &m))
        &&& forall|a: Real| #[trigger] call_requires(self.round, (a,))
        &&& forall|s: u64, n: usize, d: usize| #[trigger] call_requires(self.draw, (s, n, d))
        &&& forall|s: u64, n: usize, d: usize, draws: Vec<Vec<Real>>| #[trigger]
            call_ensures(self.draw, (s, n, d), draws) ==> draws.len() == n && matrix::has_cols(
                draws@,
                d as int,
            )
        &&& forall|a: Real, b: Real| #[trigger] call_requires(self.subtract, (a, b))
    }

    open spec fn is_square(&self, direction: Seq<Real>, square: Real) -> bool {
        exists|v: Vec<Real>| v@ == direction && #[trigger] call_ensures(self.square, (&v,), square)
    }

    open spec fn is_scaled(&self, value: Real, square: Real, scaled: Real) -> bool {
        call_ensures(self.scale, (value, square), scaled)
    }

    open spec fn is_form(&self, direction: Seq<Real>, sigma: Seq<Seq<Real>>, form: Real) -> bool {
        exists|v: Vec<Real>, m: Vec<Vec<Real>>|
            v@ == direction && matrix::rows_of(m@) == sigma && #[trigger] call_ensures(
                self.form,
                (&v, &m),
                form,
            )
    }

    open spec fn is_stepped(&self, value: Real, stepped: Real) -> bool {
        call_ensures(self.step, (value,), stepped)
    }

    open spec fn is_search(
        &self,
        simplex: Seq<Seq<Real>>,
        sigma: Seq<Seq<Real>>,
        best: Result<Option<Seq<Real>>, String>,
    ) -> bool {
        exists|s: Vec<Vec<Real>>, m: Vec<Vec<Real>>, found: Result<Option<Vec<Real>>, String>|
            matrix::rows_of(s@) == simplex && matrix::rows_of(m@) == sigma && #[trigger] call_ensures(
                self.search,
                (s, &m),
                found,
            ) && best == search_view(found)
    }

    open spec fn is_rounded(&self, value: Real, key: i64) -> bool {
        call_ensures(self.round, (value,), key)
    }

    open spec fn is_draws(
        &self,
        seed: u64,
        count: usize,
        dim: usize,
        draws: Seq<Seq<Real>>,
    ) -> bool {
        exists|found: Vec<Vec<Real>>|
            matrix::rows_of(found@) == draws && #[trigger] call_ensures(
                self.draw,
                (seed, count, dim),
                found,
            )
    }

    open spec fn is_difference(&self, left: Real, right: Real, difference: Real) -> bool {
        call_ensures(self.subtract, (left, right), difference)
    }

    fn square(&self, direction: &Vec<Real>) -> (square: Real) {
        (self.square)(direction)
    }

    fn scaled(&self, value: Real, square: Real) -> (scaled: Real) {
        (self.scale)(value, square)
    }

    fn form(&self, direction: &Vec<Real>, sigma: &Vec<Vec<Real>>) -> (form: Real) {
        (self.form)(direction, sigma)
    }

    fn stepped(&self, value: Real) -> (stepped: Real) {
        (self.step)(value)
    }

    fn search(&self, simplex: Vec<Vec<Real>>, sigma: &Vec<Vec<Real>>) -> (best: Result<
        Option<Vec<Real>>,
        String,
    >) {
        (self.search)(simplex, sigma)
    }

    fn rounded(&self, value: Real) -> (key: i64) {
        (self.round)(value)
    }

    fn draws(&self, seed: u64, count: usize, dim: usize) -> (draws: Vec<Vec<Real>>) {
        (self.draw)(seed, count, dim)
    }

    fn difference(&self, left: Real, right: Real) -> (difference: Real) {
        (self.subtract)(left, right)
    }
}

// ---------------------------------------------------------------------------
// Unit directions
// ---------------------------------------------------------------------------

/// Whether an entry decides the sign of a direction.
pub open spec fn decides(value: Real) -> bool {
    Real { bits: LEADING_BITS }.lt(value.abs_spec())
}

/// The first entry from `from` on that decides the sign of a direction.
pub open spec fn leading(values: Seq<Real>, from: int) -> Option<int>
    decreases values.len() - from,
{
    if from >= values.len() {
        None
    } else if decides(values[from]) {
        Some(from)
    } else {
        leading(values, from + 1)
    }
}

/// Whether the entry that decides the sign of a direction is negative.
pub open spec fn points_down(unit: Seq<Real>) -> bool {
    match leading(unit, 0) {
        Some(i) => unit[i].lt(Real::zero_spec()),
        None => false,
    }
}

/// A direction turned round.
pub open spec fn turned(values: Seq<Real>) -> Seq<Real> {
    Seq::new(values.len(), |i: int| values[i].neg_spec())
}

/// A direction, turned round where it points down.
pub open spec fn oriented(unit: Seq<Real>) -> Seq<Real> {
    if points_down(unit) {
        turned(unit)
    } else {
        unit
    }
}

/// Whether `out` is the canonical form of a direction: nothing where its sum of
/// squares is not finite or counts as zero, else its entries over the root of
/// that sum, oriented.
pub open spec fn canonical_by<D: DirectionNumbers>(
    numbers: D,
    square: Real,
    unit: Seq<Real>,
    direction: Seq<Real>,
    out: Option<Seq<Real>>,
) -> bool {
    &&& numbers.is_square(direction, square)
    &&& if !square.finite() || square.le(Real { bits: ZERO_SQUARE_BITS }) {
        out is None
    } else {
        &&& unit.len() == direction.len()
        &&& forall|i: int|
            0 <= i < unit.len() ==> numbers.is_scaled(direction[i], square, #[trigger] unit[i])
        &&& out == Some(oriented(unit))
    }
}

/// Whether `out` is the canonical form of a direction.
pub open spec fn is_canonical<D: DirectionNumbers>(
    numbers: D,
    direction: Seq<Real>,
    out: Option<Seq<Real>>,
) -> bool {
    exists|square: Real, unit: Seq<Real>| #[trigger]
        canonical_by(numbers, square, unit, direction, out)
}

fn decides_down(unit: &Vec<Real>) -> (down: bool)
    ensures
        down == points_down(unit@),
{
    let mut i: usize = 0;
    while i < unit.len()
        invariant
            i <= unit.len(),
            leading(unit@, 0) == leading(unit@, i as int),
        decreases unit.len() - i,
    {
        if Real::from_bits(LEADING_BITS).less(unit[i].abs()) {
            return unit[i].less(Real::zero());
        }
        i = i + 1;
    }
    false
}

/// The canonical form of a direction: of unit length, its first entry that is
/// not negligible positive.
pub fn canonicalize_unit_direction<D: DirectionNumbers>(
    direction: &Vec<Real>,
    numbers: &D,
) -> (out: Option<Vec<Real>>)
    requires
        numbers.ready(),
    ensures
        is_canonical(*numbers, direction@, direction_view(out)),
        out matches Some(unit) ==> unit.len() == direction.len() && !points_down(unit@),
{
    let square = numbers.square(direction);
    if !square.is_finite() || square.at_most(Real::from_bits(ZERO_SQUARE_BITS)) {
        assert(canonical_by(*numbers, square, Seq::<Real>::empty(), direction@, None));
        return None;
    }
    let mut unit: Vec<Real> = Vec::new();
    while unit.len() < direction.len()
        invariant
            unit.len() <= direction.len(),
            numbers.ready(),
            forall|i: int|
                0 <= i < unit.len() ==> numbers.is_scaled(
                    direction@[i],
                    square,
                    #[trigger] unit@[i],
                ),
        decreases direction.len() - unit.len(),
    {
        let i: usize = unit.len();
        unit.push(numbers.scaled(direction[i], square));
    }
    let ghost scaled = unit@;
    if decides_down(&unit) {
        let up = negated_values(unit.as_slice());
        proof {
            assert(up@ =~= turned(scaled));
            turned_points_up(scaled);
            assert(canonical_by(*numbers, square, scaled, direction@, Some(up@)));
        }
        return Some(up);
    }
    assert(canonical_by(*numbers, square, scaled, direction@, Some(unit@)));
    Some(unit)
}

proof fn leading_is_kept(values: Seq<Real>, from: int)
    requires
        0 <= from <= values.len(),
    ensures
        leading(turned(values), from) == leading(values, from),
        leading(values, from) matches Some(i) ==> from <= i < values.len() && decides(values[i]),
    decreases values.len() - from,
{
    if from < values.len() {
        assert(turned(values)[from].abs_spec() == values[from].abs_spec());
        if !decides(values[from]) {
            leading_is_kept(values, from + 1);
        }
    }
}

/// A direction that points down points up once it is turned round.
pub proof fn turned_points_up(unit: Seq<Real>)
    requires
        points_down(unit),
    ensures
        !points_down(turned(unit)),
{
    leading_is_kept(unit, 0);
}

/// A canonical direction never points down.
pub proof fn canonical_directions_point_up<D: DirectionNumbers>(
    numbers: D,
    direction: Seq<Real>,
    unit: Seq<Real>,
)
    requires
        is_canonical(numbers, direction, Some(unit)),
    ensures
        unit.len() == direction.len(),
        !points_down(unit),
{
    let (square, scaled) = choose|square: Real, scaled: Seq<Real>| #[trigger]
        canonical_by(numbers, square, scaled, direction, Some(unit));
    if points_down(scaled) {
        turned_points_up(scaled);
    }
}

// ---------------------------------------------------------------------------
// Ranking
// ---------------------------------------------------------------------------

/// Whether `variance` is the variance of a direction: its quadratic form, at
/// least zero.
pub open spec fn is_variance<D: DirectionNumbers>(
    numbers: D,
    direction: Seq<Real>,
    sigma: Seq<Seq<Real>>,
    variance: Real,
) -> bool {
    exists|form: Real| #[trigger]
        numbers.is_form(direction, sigma, form) && variance == form.max_spec(Real::zero_spec())
}

/// The variance of a direction.
pub fn projected_variance<D: DirectionNumbers>(
    direction: &Vec<Real>,
    sigma_post: &Vec<Vec<Real>>,
    numbers: &D,
) -> (variance: Real)
    requires
        numbers.ready(),
        direction.len() == sigma_post.len(),
        matrix::has_cols(sigma_post@, sigma_post.len() as int),
    ensures
        is_variance(*numbers, direction@, matrix::rows_of(sigma_post@), variance),
{
    numbers.form(direction, sigma_post).max(Real::zero())
}

/// Whether direction `a` comes before direction `b`: the larger variance first,
/// and of equal ones the earlier.
pub open spec fn precedes(variances: Seq<Real>, a: int, b: int) -> bool {
    variances[a].rank() > variances[b].rank() || (variances[a].rank() == variances[b].rank() && a
        < b)
}

/// Whether a ranking holds a direction.
pub open spec fn ranks(ranking: Seq<(usize, Real)>, k: int) -> bool {
    exists|i: int| 0 <= i < ranking.len() && (#[trigger] ranking[i]).0 == k
}

/// Whether a ranking holds the first `max_count` directions in order.
pub open spec fn is_ranking(
    variances: Seq<Real>,
    max_count: int,
    ranking: Seq<(usize, Real)>,
) -> bool {
    &&& ranking.len() == (if variances.len() < max_count {
        variances.len() as int
    } else {
        max_count
    })
    &&& forall|i: int|
        0 <= i < ranking.len() ==> (#[trigger] ranking[i]).0 < variances.len() && ranking[i].1
            == variances[ranking[i].0 as int]
    &&& forall|i: int, j: int|
        0 <= i < j < ranking.len() ==> precedes(
            variances,
            (#[trigger] ranking[i]).0 as int,
            (#[trigger] ranking[j]).0 as int,
        )
    &&& forall|i: int, k: int|
        0 <= i < ranking.len() && 0 <= k < variances.len() && !#[trigger] ranks(ranking, k)
            ==> precedes(variances, (#[trigger] ranking[i]).0 as int, k)
}

/// Two rankings of the same directions agree.
pub proof fn ranking_is_unique(
    variances: Seq<Real>,
    max_count: int,
    first: Seq<(usize, Real)>,
    second: Seq<(usize, Real)>,
)
    requires
        0 <= max_count,
        is_ranking(variances, max_count, first),
        is_ranking(variances, max_count, second),
    ensures
        first == second,
{
    assert forall|i: int| 0 <= i < first.len() implies first[i] == second[i] by {
        ranking_agrees(variances, max_count, first, second, i);
    }
    assert(first =~= second);
}

proof fn ranking_agrees(
    variances: Seq<Real>,
    max_count: int,
    first: Seq<(usize, Real)>,
    second: Seq<(usize, Real)>,
    i: int,
)
    requires
        is_ranking(variances, max_count, first),
        is_ranking(variances, max_count, second),
        0 <= i < first.len(),
    ensures
        first[i] == second[i],
    decreases i,
{
    assert forall|j: int| 0 <= j < i implies first[j] == second[j] by {
        ranking_agrees(variances, max_count, first, second, j);
    }
    let a = first[i].0 as int;
    let b = second[i].0 as int;
    if a != b {
        // Each of the two would stand before the other.
        if ranks(second, a) {
            let at = choose|at: int| 0 <= at < second.len() && (#[trigger] second[at]).0 == a;
            if at < i {
                assert(first[at] == second[at]);
                assert(precedes(variances, first[at].0 as int, first[i].0 as int));
            } else {
                assert(precedes(variances, second[i].0 as int, second[at].0 as int));
            }
        } else {
            assert(precedes(variances, second[i].0 as int, a));
        }
        if ranks(first, b) {
            let at = choose|at: int| 0 <= at < first.len() && (#[trigger] first[at]).0 == b;
            if at < i {
                assert(first[at] == second[at]);
                assert(precedes(variances, second[at].0 as int, second[i].0 as int));
            } else {
                assert(precedes(variances, first[i].0 as int, first[at].0 as int));
            }
        } else {
            assert(precedes(variances, first[i].0 as int, b));
        }
    }
}

fn all_variances<D: DirectionNumbers>(
    directions: &Vec<Vec<Real>>,
    sigma_post: &Vec<Vec<Real>>,
    numbers: &D,
) -> (variances: Vec<Real>)
    requires
        numbers.ready(),
        matrix::has_cols(directions@, sigma_post.len() as int),
        matrix::has_cols(sigma_post@, sigma_post.len() as int),
    ensures
        variances.len() == directions.len(),
        forall|i: int|
            0 <= i < variances.len() ==> is_variance(
                *numbers,
                directions@[i]@,
                matrix::rows_of(sigma_post@),
                #[trigger] variances@[i],
            ),
{
    let mut variances: Vec<Real> = Vec::new();
    while variances.len() < directions.len()
        invariant
            variances.len() <= directions.len(),
            numbers.ready(),
            matrix::has_cols(directions@, sigma_post.len() as int),
            matrix::has_cols(sigma_post@, sigma_post.len() as int),
            forall|i: int|
                0 <= i < variances.len() ==> is_variance(
                    *numbers,
                    directions@[i]@,
                    matrix::rows_of(sigma_post@),
                    #[trigger] variances@[i],
                ),
        decreases directions.len() - variances.len(),
    {
        let i: usize = variances.len();
        assert(directions@[i as int]@.len() == sigma_post.len());
        variances.push(projected_variance(&directions[i], sigma_post, numbers));
    }
    variances
}

/// Whether a variance belongs to each direction.
pub open spec fn are_variances<D: DirectionNumbers>(
    numbers: D,
    directions: Seq<Seq<Real>>,
    sigma: Seq<Seq<Real>>,
    variances: Seq<Real>,
) -> bool {
    &&& variances.len() == directions.len()
    &&& forall|i: int|
        0 <= i < variances.len() ==> is_variance(
            numbers,
            directions[i],
            sigma,
            #[trigger] variances[i],
        )
}

/// Whether a ranking orders directions by their variance.
pub open spec fn is_variance_ranking<D: DirectionNumbers>(
    numbers: D,
    directions: Seq<Seq<Real>>,
    sigma: Seq<Seq<Real>>,
    max_count: int,
    ranking: Seq<(usize, Real)>,
) -> bool {
    exists|variances: Seq<Real>| #[trigger]
        are_variances(numbers, directions, sigma, variances) && is_ranking(
            variances,
            max_count,
            ranking,
        )
}

/// The first direction that is not taken yet.
fn next_ranked(variances: &Vec<Real>, taken: &Vec<bool>) -> (best: Option<usize>)
    requires
        taken.len() == variances.len(),
    ensures
        match best {
            Some(a) => a < variances.len() && !taken@[a as int] && forall|k: int|
                0 <= k < variances.len() && k != a && !#[trigger] taken@[k] ==> precedes(
                    variances@,
                    a as int,
                    k,
                ),
            None => forall|k: int| 0 <= k < variances.len() ==> #[trigger] taken@[k],
        },
{
    let mut best: Option<usize> = None;
    let mut i: usize = 0;
    while i < variances.len()
        invariant
            i <= variances.len(),
            taken.len() == variances.len(),
            match best {
                Some(a) => a < i && !taken@[a as int] && forall|k: int|
                    0 <= k < i && k != a && !#[trigger] taken@[k] ==> precedes(
                        variances@,
                        a as int,
                        k,
                    ),
                None => forall|k: int| 0 <= k < i ==> #[trigger] taken@[k],
            },
        decreases variances.len() - i,
    {
        if !taken[i] {
            best = match best {
                None => Some(i),
                Some(a) => if variances[a].ranks_below(variances[i]) {
                    Some(i)
                } else {
                    Some(a)
                },
            };
        }
        i = i + 1;
    }
    best
}

/// The directions of largest variance with their variances, the largest first;
/// of equal ones the earlier comes first.
pub fn top_ranked_indices_by_variance<D: DirectionNumbers>(
    directions: &Vec<Vec<Real>>,
    sigma_post: &Vec<Vec<Real>>,
    max_count: usize,
    numbers: &D,
) -> (ranking: Vec<(usize, Real)>)
    requires
        numbers.ready(),
        matrix::has_cols(directions@, sigma_post.len() as int),
        matrix::has_cols(sigma_post@, sigma_post.len() as int),
    ensures
        is_variance_ranking(
            *numbers,
            matrix::rows_of(directions@),
            matrix::rows_of(sigma_post@),
            max_count as int,
            ranking@,
        ),
{
    let variances = all_variances(directions, sigma_post, numbers);
    assert(are_variances(
        *numbers,
        matrix::rows_of(directions@),
        matrix::rows_of(sigma_post@),
        variances@,
    ));
    let keep: usize = if variances.len() < max_count {
        variances.len()
    } else {
        max_count
    };
    let mut taken: Vec<bool> = filled_row(variances.len(), false);
    let mut ranking: Vec<(usize, Real)> = Vec::new();
    while ranking.len() < keep
        invariant
            ranking.len() <= keep <= variances.len(),
            taken.len() == variances.len(),
            forall|i: int|
                0 <= i < ranking.len() ==> (#[trigger] ranking@[i]).0 < variances.len()
                    && ranking@[i].1 == variances@[ranking@[i].0 as int],
            forall|i: int, j: int|
                0 <= i < j < ranking.len() ==> precedes(
                    variances@,
                    (#[trigger] ranking@[i]).0 as int,
                    (#[trigger] ranking@[j]).0 as int,
                ),
            forall|i: int, k: int|
                0 <= i < ranking.len() && 0 <= k < variances.len() && !#[trigger] taken@[k]
                    ==> precedes(variances@, (#[trigger] ranking@[i]).0 as int, k),
            forall|k: int|
                0 <= k < variances.len() ==> #[trigger] taken@[k] == ranks(ranking@, k),
        decreases keep - ranking.len(),
    {
        let ghost earlier = ranking@;
        let ghost before = taken@;
        match next_ranked(&variances, &taken) {
            None => {
                proof {
                    assert forall|k: int| 0 <= k < variances.len() implies ranks(ranking@, k) by {
                        assert(taken@[k]);
                    }
                    all_ranked_is_long(ranking@, variances.len() as int);
                }
                return ranking;
            },
            Some(a) => {
                taken.set(a, true);
                ranking.push((a, variances[a]));
                proof {
                    let at = ranking@.len() - 1;
                    assert forall|k: int| 0 <= k < variances.len() implies #[trigger] taken@[k]
                        == ranks(ranking@, k) by {
                        if k == a {
                            assert(ranking@[at].0 == k);
                        } else if before[k] {
                            let i = choose|i: int|
                                0 <= i < earlier.len() && (#[trigger] earlier[i]).0 == k;
                            assert(ranking@[i] == earlier[i]);
                        } else if ranks(ranking@, k) {
                            let i = choose|i: int|
                                0 <= i < ranking@.len() && (#[trigger] ranking@[i]).0 == k;
                            assert(i != at);
                            assert(ranking@[i] == earlier[i]);
                            assert(ranks(earlier, k));
                            assert(before[k]);
                        }
                    }
                    assert forall|i: int, j: int| 0 <= i < j < ranking@.len() implies precedes(
                        variances@,
                        (#[trigger] ranking@[i]).0 as int,
                        (#[trigger] ranking@[j]).0 as int,
                    ) by {
                        assert(ranking@[i] == earlier[i]);
                        if j < at {
                            assert(ranking@[j] == earlier[j]);
                        } else {
                            assert(!before[a as int]);
                        }
                    }
                    assert forall|i: int, k: int|
                        0 <= i < ranking@.len() && 0 <= k < variances.len() && !#[trigger] taken@[k]
                        implies precedes(variances@, (#[trigger] ranking@[i]).0 as int, k) by {
                        assert(!before[k]);
                        if i < at {
                            assert(ranking@[i] == earlier[i]);
                        }
                    }
                }
            },
        }
    }
    proof {
        assert forall|i: int, k: int|
            0 <= i < ranking@.len() && 0 <= k < variances.len() && !#[trigger] ranks(
                ranking@,
                k,
            ) implies precedes(variances@, (#[trigger] ranking@[i]).0 as int, k) by {
            assert(!taken@[k]);
        }
    }
    ranking
}

proof fn all_ranked_is_long(ranking: Seq<(usize, Real)>, count: int)
    requires
        0 <= count,
        forall|k: int| 0 <= k < count ==> ranks(ranking, k),
    ensures
        ranking.len() >= count,
    decreases count,
{
    if count > 0 {
        let last = choose|i: int| 0 <= i < ranking.len() && (#[trigger] ranking[i]).0 == count - 1;
        assert(ranks(ranking, count - 1));
        let rest = ranking.remove(last);
        assert forall|k: int| 0 <= k < count - 1 implies ranks(rest, k) by {
            assert(ranks(ranking, k));
            let i = choose|i: int| 0 <= i < ranking.len() && (#[trigger] ranking[i]).0 == k;
            if i < last {
                assert(rest[i].0 == k);
            } else {
                assert(rest[i - 1].0 == k);
            }
        }
        all_ranked_is_long(rest, count - 1);
    }
}

// ---------------------------------------------------------------------------
// Deduplication
// ---------------------------------------------------------------------------

/// Whether `key` is the bucket of an entry; small entries share the zero bucket.
pub open spec fn is_entry_key<D: DirectionNumbers>(numbers: D, value: Real, key: i64) -> bool {
    if value.abs_spec().lt(Real { bits: ZERO_BUCKET_BITS }) {
        key == 0
    } else {
        numbers.is_rounded(value, key)
    }
}

/// Whether `key` holds the buckets of a direction.
pub open spec fn is_key<D: DirectionNumbers>(
    numbers: D,
    direction: Seq<Real>,
    key: Seq<i64>,
) -> bool {
    &&& key.len() == direction.len()
    &&& forall|i: int|
        0 <= i < key.len() ==> is_entry_key(numbers, direction[i], #[trigger] key[i])
}

/// The buckets of a direction.
pub fn direction_dedup_key<D: DirectionNumbers>(direction: &Vec<Real>, numbers: &D) -> (key: Vec<
    i64,
>)
    requires
        numbers.ready(),
    ensures
        is_key(*numbers, direction@, key@),
{
    let mut key: Vec<i64> = Vec::new();
    while key.len() < direction.len()
        invariant
            key.len() <= direction.len(),
            numbers.ready(),
            forall|i: int|
                0 <= i < key.len() ==> is_entry_key(*numbers, direction@[i], #[trigger] key@[i]),
        decreases direction.len() - key.len(),
    {
        let value = direction[key.len()];
        let bucket: i64 = if value.abs().less(Real::from_bits(ZERO_BUCKET_BITS)) {
            0
        } else {
            numbers.rounded(value)
        };
        key.push(bucket);
    }
    key
}

/// Whether no earlier direction shares the key of this one.
pub open spec fn is_first(keys: Seq<Seq<i64>>, i: int) -> bool {
    forall|j: int| 0 <= j < i ==> #[trigger] keys[j] != keys[i]
}

/// The places of the directions that are the first with their key, among the
/// first `count`.
pub open spec fn first_places(keys: Seq<Seq<i64>>, count: int) -> Seq<int>
    decreases count,
{
    if count <= 0 {
        Seq::empty()
    } else if is_first(keys, count - 1) {
        first_places(keys, count - 1).push(count - 1)
    } else {
        first_places(keys, count - 1)
    }
}

/// The elements at given places.
pub open spec fn picked<T>(list: Seq<T>, places: Seq<int>) -> Seq<T> {
    Seq::new(places.len(), |i: int| list[places[i]])
}

/// Number of set flags.
pub open spec fn set_flags(flags: Seq<bool>) -> int
    decreases flags.len(),
{
    if flags.len() == 0 {
        0
    } else {
        set_flags(flags.drop_last()) + (if flags.last() {
            1int
        } else {
            0int
        })
    }
}

/// Whether a key belongs to each direction.
pub open spec fn are_keys<D: DirectionNumbers>(
    numbers: D,
    directions: Seq<Seq<Real>>,
    keys: Seq<Seq<i64>>,
) -> bool {
    &&& keys.len() == directions.len()
    &&& forall|i: int| 0 <= i < keys.len() ==> is_key(numbers, directions[i], #[trigger] keys[i])
}

/// Whether directions and flags were deduplicated by keys, the first direction
/// of each key staying where it was.
pub open spec fn deduplicated_by(
    keys: Seq<Seq<i64>>,
    directions: Seq<Seq<Real>>,
    flags: Seq<bool>,
    kept: Seq<Seq<Real>>,
    kept_flags: Seq<bool>,
    count: int,
) -> bool {
    let places = first_places(keys, directions.len() as int);
    &&& kept == picked(directions, places)
    &&& kept_flags == picked(flags, places)
    &&& count == set_flags(kept_flags)
}

/// Whether directions and flags were deduplicated.
pub open spec fn is_deduplicated<D: DirectionNumbers>(
    numbers: D,
    directions: Seq<Seq<Real>>,
    flags: Seq<bool>,
    kept: Seq<Seq<Real>>,
    kept_flags: Seq<bool>,
    count: int,
) -> bool {
    exists|keys: Seq<Seq<i64>>| #[trigger]
        are_keys(numbers, directions, keys) && deduplicated_by(
            keys,
            directions,
            flags,
            kept,
            kept_flags,
            count,
        )
}

/// The places of kept directions ascend, and each is the first with its key.
pub proof fn kept_places_ascend(keys: Seq<Seq<i64>>, count: int)
    requires
        0 <= count <= keys.len(),
    ensures
        first_places(keys, count).len() <= count,
        forall|i: int|
            0 <= i < first_places(keys, count).len() ==> 0 <= #[trigger] first_places(
                keys,
                count,
            )[i] < count && is_first(keys, first_places(keys, count)[i]),
        forall|i: int, j: int|
            0 <= i < j < first_places(keys, count).len() ==> #[trigger] first_places(keys, count)[i]
                < #[trigger] first_places(keys, count)[j],
    decreases count,
{
    if count > 0 {
        kept_places_ascend(keys, count - 1);
    }
}

/// No two kept directions share a key.
pub proof fn kept_directions_differ(keys: Seq<Seq<i64>>, i: int, j: int)
    requires
        0 <= i < j < first_places(keys, keys.len() as int).len(),
    ensures
        keys[first_places(keys, keys.len() as int)[i]] != keys[first_places(
            keys,
            keys.len() as int,
        )[j]],
{
    kept_places_ascend(keys, keys.len() as int);
    let places = first_places(keys, keys.len() as int);
    assert(is_first(keys, places[j]));
    assert(places[i] < places[j]);
}

/// Every key stays: a direction is kept, or an earlier one with its key is.
pub proof fn every_key_is_kept(keys: Seq<Seq<i64>>, count: int, k: int) -> (p: int)
    requires
        0 <= k < count <= keys.len(),
    ensures
        0 <= p < first_places(keys, count).len(),
        first_places(keys, count)[p] <= k,
        keys[first_places(keys, count)[p]] == keys[k],
    decreases count,
{
    if k < count - 1 {
        every_key_is_kept(keys, count - 1, k)
    } else if is_first(keys, k) {
        first_places(keys, count).len() - 1
    } else {
        let j = choose|j: int| 0 <= j < k && #[trigger] keys[j] == keys[k];
        every_key_is_kept(keys, count - 1, j)
    }
}

proof fn pushed_flag(flags: Seq<bool>, flag: bool)
    ensures
        set_flags(flags.push(flag)) == set_flags(flags) + (if flag {
            1int
        } else {
            0int
        }),
{
    assert(flags.push(flag).drop_last() =~= flags);
}

proof fn flags_are_bounded(flags: Seq<bool>)
    ensures
        0 <= set_flags(flags) <= flags.len(),
    decreases flags.len(),
{
    if flags.len() > 0 {
        flags_are_bounded(flags.drop_last());
    }
}

fn same_key(left: &Vec<i64>, right: &Vec<i64>) -> (same: bool)
    ensures
        same == (left@ == right@),
{
    if left.len() != right.len() {
        return false;
    }
    let mut i: usize = 0;
    while i < left.len()
        invariant
            i <= left.len(),
            left.len() == right.len(),
            forall|k: int| 0 <= k < i ==> left@[k] == right@[k],
        decreases left.len() - i,
    {
        if left[i] != right[i] {
            return false;
        }
        i = i + 1;
    }
    assert(left@ =~= right@);
    true
}

fn has_key(keys: &Vec<Vec<i64>>, key: &Vec<i64>) -> (found: bool)
    ensures
        found == exists|i: int| 0 <= i < keys.len() && (#[trigger] keys@[i])@ == key@,
{
    let mut i: usize = 0;
    while i < keys.len()
        invariant
            i <= keys.len(),
            forall|k: int| 0 <= k < i ==> (#[trigger] keys@[k])@ != key@,
        decreases keys.len() - i,
    {
        if same_key(&keys[i], key) {
            return true;
        }
        i = i + 1;
    }
    false
}

/// Drops each direction whose buckets an earlier one has, with its flag, and
/// counts the set flags that are left.
pub fn deduplicate_unit_directions<D: DirectionNumbers>(
    directions: &mut Vec<Vec<Real>>,
    is_random: &mut Vec<bool>,
    numbers: &D,
) -> (count: usize)
    requires
        numbers.ready(),
        old(directions)@.len() == old(is_random)@.len(),
    ensures
        is_deduplicated(
            *numbers,
            matrix::rows_of(old(directions)@),
            old(is_random)@,
            matrix::rows_of(final(directions)@),
            final(is_random)@,
            count as int,
        ),
        final(directions)@.len() == final(is_random)@.len(),
        count <= final(directions)@.len() <= old(directions)@.len(),
        forall|i: int|
            0 <= i < final(directions)@.len() ==> exists|k: int|
                0 <= k < old(directions)@.len() && (#[trigger] final(directions)@[i])@ == (
                #[trigger] old(directions)@[k])@,
{
    let ghost rows = matrix::rows_of(directions@);
    let ghost flags = is_random@;
    let ghost mut keys: Seq<Seq<i64>> = Seq::empty();
    let mut kept: Vec<Vec<Real>> = Vec::new();
    let mut kept_flags: Vec<bool> = Vec::new();
    let mut kept_keys: Vec<Vec<i64>> = Vec::new();
    let mut count: usize = 0;
    let mut i: usize = 0;
    while i < directions.len()
        invariant
            i <= directions.len(),
            directions@ == old(directions)@,
            is_random@ == flags,
            rows == matrix::rows_of(directions@),
            flags.len() == directions@.len(),
            numbers.ready(),
            keys.len() == i,
            forall|k: int| 0 <= k < i ==> is_key(*numbers, rows[k], #[trigger] keys[k]),
            kept.len() == first_places(keys, i as int).len(),
            kept_flags.len() == kept.len(),
            kept_keys.len() == kept.len(),
            kept.len() <= i,
            matrix::rows_of(kept@) == picked(rows, first_places(keys, i as int)),
            kept_flags@ == picked(flags, first_places(keys, i as int)),
            forall|p: int|
                0 <= p < kept_keys.len() ==> (#[trigger] kept_keys@[p])@ == keys[first_places(
                    keys,
                    i as int,
                )[p]],
            count == set_flags(kept_flags@),
        decreases directions.len() - i,
    {
        let key = direction_dedup_key(&directions[i], numbers);
        let ghost before = keys;
        let ghost places = first_places(before, i as int);
        proof {
            keys = before.push(key@);
            kept_places_ascend(before, i as int);
            places_are_kept(before, key@, i as int);
            assert forall|k: int| 0 <= k <= i implies is_key(
                *numbers,
                rows[k],
                #[trigger] keys[k],
            ) by {
                if k < i {
                    assert(keys[k] == before[k]);
                }
            }
        }
        let seen = has_key(&kept_keys, &key);
        proof {
            if seen {
                let p = choose|p: int| 0 <= p < kept_keys.len() && (#[trigger] kept_keys@[p])@
                    == key@;
                assert(keys[places[p]] == keys[i as int]);
            } else {
                assert forall|j: int| 0 <= j < i implies #[trigger] keys[j] != keys[i as int] by {
                    let p = every_key_is_kept(before, i as int, j);
                    assert(kept_keys@[p]@ == before[places[p]]);
                }
            }
            assert(seen == !is_first(keys, i as int));
        }
        if !seen {
            let flag = is_random[i];
            let ghost old_kept = kept@;
            let ghost old_flags = kept_flags@;
            kept.push(copy_row(directions[i].as_slice()));
            kept_flags.push(flag);
            kept_keys.push(key);
            proof {
                pushed_flag(old_flags, flag);
                flags_are_bounded(old_flags);
                assert(first_places(keys, i + 1) == places.push(i as int));
                assert forall|p: int| 0 <= p < kept@.len() implies #[trigger] matrix::rows_of(
                    kept@,
                )[p] == picked(rows, places.push(i as int))[p] by {
                    if p < old_kept.len() {
                        assert(matrix::rows_of(old_kept)[p] == picked(rows, places)[p]);
                    }
                }
                assert(matrix::rows_of(kept@) =~= picked(rows, places.push(i as int)));
                assert(kept_flags@ =~= picked(flags, places.push(i as int)));
            }
            if flag {
                count = count + 1;
            }
        }
        i = i + 1;
    }
    proof {
        assert(are_keys(*numbers, rows, keys));
        kept_places_ascend(keys, i as int);
        flags_are_bounded(kept_flags@);
        assert forall|p: int| 0 <= p < kept@.len() implies exists|k: int|
            0 <= k < old(directions)@.len() && (#[trigger] kept@[p])@ == (#[trigger] old(directions)@[k])@ by {
            let k = first_places(keys, i as int)[p];
            assert(matrix::rows_of(kept@)[p] == kept@[p]@);
            assert(rows[k] == old(directions)@[k]@);
        }
    }
    *directions = kept;
    *is_random = kept_flags;
    count
}

proof fn places_are_kept(keys: Seq<Seq<i64>>, key: Seq<i64>, count: int)
    requires
        0 <= count <= keys.len(),
    ensures
        first_places(keys.push(key), count) == first_places(keys, count),
    decreases count,
{
    if count > 0 {
        places_are_kept(keys, key, count - 1);
        let longer = keys.push(key);
        assert(is_first(longer, count - 1) == is_first(keys, count - 1)) by {
            if is_first(keys, count - 1) {
                assert forall|j: int| 0 <= j < count - 1 implies #[trigger] longer[j]
                    != longer[count - 1] by {
                    assert(longer[j] == keys[j]);
                }
            }
            if is_first(longer, count - 1) {
                assert forall|j: int| 0 <= j < count - 1 implies #[trigger] keys[j]
                    != keys[count - 1] by {
                    assert(longer[j] == keys[j]);
                }
            }
        }
    }
}

// ---------------------------------------------------------------------------
// Refinement
// ---------------------------------------------------------------------------

/// Whether `simplex` holds a direction and, for each entry, the direction with
/// that entry stepped.
pub open spec fn is_simplex<D: DirectionNumbers>(
    numbers: D,
    seed: Seq<Real>,
    simplex: Seq<Seq<Real>>,
) -> bool {
    &&& simplex.len() == seed.len() + 1
    &&& simplex[0] == seed
    &&& forall|k: int| 0 <= k < seed.len() ==> is_vertex(numbers, seed, k, #[trigger] simplex[k + 1])
}

/// Whether `vertex` is a direction with one entry stepped.
pub open spec fn is_vertex<D: DirectionNumbers>(
    numbers: D,
    seed: Seq<Real>,
    axis: int,
    vertex: Seq<Real>,
) -> bool {
    exists|stepped: Real| #[trigger]
        numbers.is_stepped(seed[axis], stepped) && vertex == seed.update(axis, stepped)
}

/// The simplex round a direction from which a search starts.
pub fn build_nelder_mead_simplex<D: DirectionNumbers>(
    seed: &Vec<Real>,
    numbers: &D,
) -> (simplex: Vec<Vec<Real>>)
    requires
        numbers.ready(),
    ensures
        is_simplex(*numbers, seed@, matrix::rows_of(simplex@)),
        simplex.len() == seed.len() + 1,
        matrix::has_cols(simplex@, seed.len() as int),
{
    let mut simplex: Vec<Vec<Real>> = Vec::new();
    simplex.push(copy_row(seed.as_slice()));
    let mut axis: usize = 0;
    while axis < seed.len()
        invariant
            axis <= seed.len(),
            numbers.ready(),
            simplex.len() == axis + 1,
            simplex@[0]@ == seed@,
            matrix::has_cols(simplex@, seed.len() as int),
            forall|k: int|
                0 <= k < axis ==> is_vertex(
                    *numbers,
                    seed@,
                    k,
                    #[trigger] matrix::rows_of(simplex@)[k + 1],
                ),
        decreases seed.len() - axis,
    {
        let mut vertex = copy_row(seed.as_slice());
        let stepped = numbers.stepped(vertex[axis]);
        vertex.set(axis, stepped);
        let ghost before = simplex@;
        simplex.push(vertex);
        proof {
            assert forall|k: int| 0 <= k <= axis implies is_vertex(
                *numbers,
                seed@,
                k,
                #[trigger] matrix::rows_of(simplex@)[k + 1],
            ) by {
                if k < axis {
                    assert(matrix::rows_of(before)[k + 1] == matrix::rows_of(simplex@)[k + 1]);
                }
            }
        }
        axis = axis + 1;
    }
    simplex
}

/// What the refinement of one direction rested on.
pub struct RefinementRun {
    /// The canonical form of the direction.
    pub seed: Option<Seq<Real>>,
    /// The simplex round it.
    pub simplex: Seq<Seq<Real>>,
    /// Where the search ended.
    pub best: Result<Option<Seq<Real>>, String>,
}

impl RefinementRun {
    /// Whether `out` is a refined direction: an error where the direction is
    /// degenerate, the direction itself where it has at most one entry, an error
    /// of the search, or the canonical form of where the search ended.
    pub open spec fn explains<D: DirectionNumbers>(
        self,
        numbers: D,
        direction: Seq<Real>,
        sigma: Seq<Seq<Real>>,
        out: Result<Option<Seq<Real>>, HonestError>,
    ) -> bool {
        &&& is_canonical(numbers, direction, self.seed)
        &&& match self.seed {
            None => out == Err::<Option<Seq<Real>>, HonestError>(HonestError::DegenerateSeed),
            Some(seed) => if seed.len() <= 1 {
                out == Ok::<Option<Seq<Real>>, HonestError>(Some(seed))
            } else {
                &&& is_simplex(numbers, seed, self.simplex)
                &&& numbers.is_search(self.simplex, sigma, self.best)
                &&& match self.best {
                    Err(message) => out == Err::<Option<Seq<Real>>, HonestError>(
                        HonestError::Numerical { message },
                    ),
                    Ok(None) => out == Ok::<Option<Seq<Real>>, HonestError>(None),
                    Ok(Some(best)) => out matches Ok(found) && is_canonical(numbers, best, found),
                }
            },
        }
    }
}

/// A refined direction, as a sequence.
pub open spec fn refined_view(refined: Result<Option<Vec<Real>>, HonestError>) -> Result<
    Option<Seq<Real>>,
    HonestError,
> {
    match refined {
        Ok(found) => Ok(direction_view(found)),
        Err(error) => Err(error),
    }
}

/// Whether `out` is a refined direction.
pub open spec fn is_refinement<D: DirectionNumbers>(
    numbers: D,
    direction: Seq<Real>,
    sigma: Seq<Seq<Real>>,
    out: Result<Option<Seq<Real>>, HonestError>,
) -> bool {
    exists|run: RefinementRun| #[trigger] run.explains(numbers, direction, sigma, out)
}

/// The direction that a simplex search finds from a direction.
pub fn refine_direction_with_argmin<D: DirectionNumbers>(
    seed_direction: &Vec<Real>,
    sigma_post: &Vec<Vec<Real>>,
    numbers: &D,
) -> (out: Result<Option<Vec<Real>>, HonestError>)
    requires
        numbers.ready(),
        seed_direction.len() == sigma_post.len(),
        matrix::has_cols(sigma_post@, sigma_post.len() as int),
    ensures
        is_refinement(
            *numbers,
            seed_direction@,
            matrix::rows_of(sigma_post@),
            refined_view(out),
        ),
{
    let ghost mut run: RefinementRun = arbitrary();
    let ghost rows = matrix::rows_of(sigma_post@);
    let canonical = canonicalize_unit_direction(seed_direction, numbers);
    proof {
        run.seed = direction_view(canonical);
    }
    match canonical {
        None => {
            let out = Err(HonestError::DegenerateSeed);
            assert(run.explains(*numbers, seed_direction@, rows, refined_view(out)));
            out
        },
        Some(seed) => {
            if seed.len() <= 1 {
                let out = Ok(Some(seed));
                assert(run.explains(*numbers, seed_direction@, rows, refined_view(out)));
                return out;
            }
            let simplex = build_nelder_mead_simplex(&seed, numbers);
            proof {
                run.simplex = matrix::rows_of(simplex@);
            }
            let best = numbers.search(simplex, sigma_post);
            proof {
                run.best = search_view(best);
            }
            let out = match best {
                Err(message) => Err(HonestError::Numerical { message }),
                Ok(None) => Ok(None),
                Ok(Some(found)) => Ok(canonicalize_unit_direction(&found, numbers)),
            };
            assert(run.explains(*numbers, seed_direction@, rows, refined_view(out)));
            out
        },
    }
}

/// A direction or an error, as a sequence.
pub open spec fn settled_view(settled: Result<Vec<Real>, HonestError>) -> Result<
    Seq<Real>,
    HonestError,
> {
    match settled {
        Ok(found) => Ok(found@),
        Err(error) => Err(error),
    }
}

/// Whether `out` is what a direction is replaced by: its refinement, else its
/// canonical form, else an error.
pub open spec fn settles<D: DirectionNumbers>(
    numbers: D,
    refined: Result<Option<Seq<Real>>, HonestError>,
    canonical: Option<Seq<Real>>,
    direction: Seq<Real>,
    sigma: Seq<Seq<Real>>,
    out: Result<Seq<Real>, HonestError>,
) -> bool {
    &&& is_refinement(numbers, direction, sigma, refined)
    &&& match refined {
        Err(error) => out == Err::<Seq<Real>, HonestError>(error),
        Ok(Some(found)) => out == Ok::<Seq<Real>, HonestError>(found),
        Ok(None) => {
            &&& is_canonical(numbers, direction, canonical)
            &&& out == (match canonical {
                Some(found) => Ok::<Seq<Real>, HonestError>(found),
                None => Err::<Seq<Real>, HonestError>(HonestError::DegenerateRefinement),
            })
        },
    }
}

/// Whether `out` is what a direction is replaced by.
pub open spec fn is_settled<D: DirectionNumbers>(
    numbers: D,
    direction: Seq<Real>,
    sigma: Seq<Seq<Real>>,
    out: Result<Seq<Real>, HonestError>,
) -> bool {
    exists|refined: Result<Option<Seq<Real>>, HonestError>, canonical: Option<Seq<Real>>| #[trigger]
        settles(numbers, refined, canonical, direction, sigma, out)
}

fn settle_direction<D: DirectionNumbers>(
    seed: &Vec<Real>,
    sigma_post: &Vec<Vec<Real>>,
    numbers: &D,
) -> (out: Result<Vec<Real>, HonestError>)
    requires
        numbers.ready(),
        seed.len() == sigma_post.len(),
        matrix::has_cols(sigma_post@, sigma_post.len() as int),
    ensures
        is_settled(*numbers, seed@, matrix::rows_of(sigma_post@), settled_view(out)),
{
    let ghost rows = matrix::rows_of(sigma_post@);
    let refined = refine_direction_with_argmin(seed, sigma_post, numbers);
    let ghost said = refined_view(refined);
    let ghost nothing: Option<Seq<Real>> = None;
    match refined {
        Err(error) => {
            let out = Err(error);
            assert(settles(*numbers, said, nothing, seed@, rows, settled_view(out)));
            out
        },
        Ok(Some(found)) => {
            let out = Ok(found);
            assert(settles(*numbers, said, nothing, seed@, rows, settled_view(out)));
            out
        },
        Ok(None) => {
            let canonical = canonicalize_unit_direction(seed, numbers);
            let ghost kept = direction_view(canonical);
            let out = match canonical {
                Some(found) => Ok(found),
                None => Err(HonestError::DegenerateRefinement),
            };
            assert(settles(*numbers, said, kept, seed@, rows, settled_view(out)));
            out
        },
    }
}

/// The seed of the direction at a rank: a warm start of the same length, else
/// the direction itself.
pub open spec fn seed_at(
    directions: Seq<Seq<Real>>,
    warm: Option<Seq<Seq<Real>>>,
    rank: int,
    index: int,
) -> Seq<Real> {
    match warm {
        Some(starts) => if rank < starts.len() && starts[rank].len() == directions[index].len() {
            starts[rank]
        } else {
            directions[index]
        },
        None => directions[index],
    }
}

/// Directions or nothing, as sequences.
pub open spec fn warm_view(warm: Option<&Vec<Vec<Real>>>) -> Option<Seq<Seq<Real>>> {
    match warm {
        Some(starts) => Some(matrix::rows_of(starts@)),
        None => None,
    }
}

/// Directions or an error, as sequences.
pub open spec fn rows_view(rows: Result<Vec<Vec<Real>>, HonestError>) -> Result<
    Seq<Seq<Real>>,
    HonestError,
> {
    match rows {
        Ok(found) => Ok(matrix::rows_of(found@)),
        Err(error) => Err(error),
    }
}

/// What the refinement of a set of directions rested on.
pub struct SurfaceRefinementRun {
    /// The directions of largest variance.
    pub ranking: Seq<(usize, Real)>,
    /// What each of them is replaced by, up to the first error.
    pub settled: Seq<Result<Seq<Real>, HonestError>>,
}

impl SurfaceRefinementRun {
    /// Whether the directions of largest variance were replaced: an error of one
    /// of them with nothing changed, or all of them replaced.
    pub open spec fn explains<D: DirectionNumbers>(
        self,
        numbers: D,
        directions: Seq<Seq<Real>>,
        sigma: Seq<Seq<Real>>,
        warm: Option<Seq<Seq<Real>>>,
        after: Seq<Seq<Real>>,
        out: Result<Seq<Seq<Real>>, HonestError>,
    ) -> bool {
        &&& is_variance_ranking(
            numbers,
            directions,
            sigma,
            REFINED_DIRECTIONS as int,
            self.ranking,
        )
        &&& self.settled.len() <= self.ranking.len()
        &&& forall|i: int|
            0 <= i < self.settled.len() ==> is_settled(
                numbers,
                seed_at(directions, warm, i, self.ranking[i].0 as int),
                sigma,
                #[trigger] self.settled[i],
            )
        &&& forall|i: int| 0 <= i < self.settled.len() - 1 ==> #[trigger] self.settled[i] is Ok
        &&& after.len() == directions.len()
        &&& if self.settled.len() > 0 && self.settled.last() is Err {
            &&& out == Err::<Seq<Seq<Real>>, HonestError>(self.settled.last()->Err_0)
            &&& after == directions
        } else {
            &&& self.settled.len() == self.ranking.len()
            &&& out matches Ok(refined) && refined == Seq::new(
                self.settled.len(),
                |i: int| self.settled[i]->Ok_0,
            )
            &&& forall|i: int|
                0 <= i < self.ranking.len() ==> after[(#[trigger] self.ranking[i]).0 as int]
                    == self.settled[i]->Ok_0
            &&& forall|k: int|
                0 <= k < after.len() && !ranks(self.ranking, k) ==> #[trigger] after[k]
                    == directions[k]
        }
    }
}

fn settle_ranked<D: DirectionNumbers>(
    directions: &Vec<Vec<Real>>,
    ranking: &Vec<(usize, Real)>,
    sigma_post: &Vec<Vec<Real>>,
    warm: Option<&Vec<Vec<Real>>>,
    numbers: &D,
) -> (out: (Result<Vec<Vec<Real>>, HonestError>, Ghost<Seq<Result<Seq<Real>, HonestError>>>))
    requires
        numbers.ready(),
        matrix::has_cols(directions@, sigma_post.len() as int),
        matrix::has_cols(sigma_post@, sigma_post.len() as int),
        forall|i: int| 0 <= i < ranking.len() ==> (#[trigger] ranking@[i]).0 < directions.len(),
    ensures
        out.1@.len() <= ranking.len(),
        forall|i: int|
            0 <= i < out.1@.len() ==> is_settled(
                *numbers,
                seed_at(
                    matrix::rows_of(directions@),
                    warm_view(warm),
                    i,
                    ranking@[i].0 as int,
                ),
                matrix::rows_of(sigma_post@),
                #[trigger] out.1@[i],
            ),
        forall|i: int| 0 <= i < out.1@.len() - 1 ==> #[trigger] out.1@[i] is Ok,
        match out.0 {
            Err(error) => out.1@.len() > 0 && out.1@.last() == Err::<Seq<Real>, HonestError>(error),
            Ok(refined) => {
                &&& out.1@.len() == ranking.len()
                &&& refined.len() == ranking.len()
                &&& forall|i: int|
                    0 <= i < refined.len() ==> out.1@[i] == Ok::<Seq<Real>, HonestError>(
                        (#[trigger] refined@[i])@,
                    )
            },
        },
{
    let ghost rows = matrix::rows_of(directions@);
    let ghost mut settled: Seq<Result<Seq<Real>, HonestError>> = Seq::empty();
    let mut refined: Vec<Vec<Real>> = Vec::new();
    while refined.len() < ranking.len()
        invariant
            refined.len() <= ranking.len(),
            rows == matrix::rows_of(directions@),
            numbers.ready(),
            matrix::has_cols(directions@, sigma_post.len() as int),
            matrix::has_cols(sigma_post@, sigma_post.len() as int),
            forall|i: int| 0 <= i < ranking.len() ==> (#[trigger] ranking@[i]).0 < directions.len(),
            settled.len() == refined.len(),
            forall|i: int|
                0 <= i < settled.len() ==> is_settled(
                    *numbers,
                    seed_at(rows, warm_view(warm), i, ranking@[i].0 as int),
                    matrix::rows_of(sigma_post@),
                    #[trigger] settled[i],
                ),
            forall|i: int|
                0 <= i < refined.len() ==> settled[i] == Ok::<Seq<Real>, HonestError>(
                    (#[trigger] refined@[i])@,
                ),
        decreases ranking.len() - refined.len(),
    {
        let rank: usize = refined.len();
        let index: usize = ranking[rank].0;
        assert(directions@[index as int]@.len() == sigma_post.len());
        let seed: &Vec<Real> = match warm {
            Some(starts) => if rank < starts.len() && starts[rank].len() == directions[index].len() {
                &starts[rank]
            } else {
                &directions[index]
            },
            None => &directions[index],
        };
        assert(seed@ == seed_at(rows, warm_view(warm), rank as int, index as int));
        let ghost earlier = settled;
        let found = settle_direction(seed, sigma_post, numbers);
        proof {
            settled = earlier.push(settled_view(found));
            assert forall|i: int| 0 <= i < settled.len() implies is_settled(
                *numbers,
                seed_at(rows, warm_view(warm), i, ranking@[i].0 as int),
                matrix::rows_of(sigma_post@),
                #[trigger] settled[i],
            ) by {
                if i < rank {
                    assert(settled[i] == earlier[i]);
                }
            }
            assert forall|i: int| 0 <= i < rank implies settled[i] == Ok::<Seq<Real>, HonestError>(
                (#[trigger] refined@[i])@,
            ) by {
                assert(settled[i] == earlier[i]);
            }
            assert forall|i: int| 0 <= i < settled.len() - 1 implies #[trigger] settled[i]
                is Ok by {
                assert(settled[i] == Ok::<Seq<Real>, HonestError>(refined@[i]@));
            }
        }
        match found {
            Err(error) => {
                return (Err(error), Ghost(settled));
            },
            Ok(direction) => {
                let ghost before = refined@;
                refined.push(direction);
                proof {
                    assert forall|i: int| 0 <= i < refined.len() implies settled[i] == Ok::<
                        Seq<Real>,
                        HonestError,
                    >((#[trigger] refined@[i])@) by {
                        if i < rank {
                            assert(refined@[i] == before[i]);
                        }
                    }
                }
            },
        }
    }
    proof {
        assert forall|i: int| 0 <= i < settled.len() - 1 implies #[trigger] settled[i] is Ok by {
            assert(settled[i] == Ok::<Seq<Real>, HonestError>(refined@[i]@));
        }
    }
    (Ok(refined), Ghost(settled))
}

fn place_refined(
    directions: &mut Vec<Vec<Real>>,
    ranking: &Vec<(usize, Real)>,
    refined: &Vec<Vec<Real>>,
)
    requires
        refined.len() == ranking.len(),
        forall|i: int|
            0 <= i < ranking.len() ==> (#[trigger] ranking@[i]).0 < old(directions)@.len(),
        forall|i: int, j: int|
            0 <= i < j < ranking.len() ==> (#[trigger] ranking@[i]).0 != (#[trigger] ranking@[j]).0,
    ensures
        final(directions)@.len() == old(directions)@.len(),
        forall|i: int|
            0 <= i < ranking.len() ==> final(directions)@[(#[trigger] ranking@[i]).0 as int]@
                == refined@[i]@,
        forall|k: int|
            0 <= k < final(directions)@.len() && !ranks(ranking@, k) ==> #[trigger] final(directions)@[k] == old(directions)@[k],
{
    let mut rank: usize = 0;
    while rank < ranking.len()
        invariant
            rank <= ranking.len(),
            refined.len() == ranking.len(),
            directions@.len() == old(directions)@.len(),
            forall|i: int|
                0 <= i < ranking.len() ==> (#[trigger] ranking@[i]).0 < directions@.len(),
            forall|i: int, j: int|
                0 <= i < j < ranking.len() ==> (#[trigger] ranking@[i]).0 != (
                #[trigger] ranking@[j]).0,
            forall|i: int|
                0 <= i < rank ==> directions@[(#[trigger] ranking@[i]).0 as int]@ == refined@[i]@,
            forall|k: int|
                0 <= k < directions@.len() && !ranks(ranking@, k) ==> #[trigger] directions@[k]
                    == old(directions)@[k],
        decreases ranking.len() - rank,
    {
        let ghost before = directions@;
        let index: usize = ranking[rank].0;
        directions.set(index, copy_row(refined[rank].as_slice()));
        proof {
            assert forall|k: int|
                0 <= k < directions@.len() && !ranks(ranking@, k) implies #[trigger] directions@[k]
                == old(directions)@[k] by {
                if k == index {
                    assert(ranking@[rank as int].0 == k);
                } else {
                    assert(directions@[k] == before[k]);
                }
            }
        }
        rank = rank + 1;
    }
}

/// Replaces the directions of largest variance by what a search finds from them,
/// or from a warm start of the same rank, and returns the replacements in order.
pub fn refine_optimization_surface_directions_with_argmin<D: DirectionNumbers>(
    sigma_post: &Vec<Vec<Real>>,
    directions: &mut Vec<Vec<Real>>,
    warm_starts_by_rank: Option<&Vec<Vec<Real>>>,
    numbers: &D,
) -> (out: Result<Vec<Vec<Real>>, HonestError>)
    requires
        numbers.ready(),
        matrix::has_cols(old(directions)@, sigma_post.len() as int),
        matrix::has_cols(sigma_post@, sigma_post.len() as int),
    ensures
        exists|run: SurfaceRefinementRun| #[trigger]
            run.explains(
                *numbers,
                matrix::rows_of(old(directions)@),
                matrix::rows_of(sigma_post@),
                warm_view(warm_starts_by_rank),
                matrix::rows_of(final(directions)@),
                rows_view(out),
            ),
{
    let ghost mut run: SurfaceRefinementRun = arbitrary();
    let ghost rows = matrix::rows_of(directions@);
    let ghost sigma = matrix::rows_of(sigma_post@);
    let ranking = top_ranked_indices_by_variance(
        directions,
        sigma_post,
        REFINED_DIRECTIONS,
        numbers,
    );
    proof {
        run.ranking = ranking@;
        let variances = choose|variances: Seq<Real>| #[trigger]
            are_variances(*numbers, rows, sigma, variances) && is_ranking(
                variances,
                REFINED_DIRECTIONS as int,
                ranking@,
            );
        assert forall|i: int, j: int| 0 <= i < j < ranking.len() implies (
        #[trigger] ranking@[i]).0 != (#[trigger] ranking@[j]).0 by {
            assert(precedes(variances, ranking@[i].0 as int, ranking@[j].0 as int));
        }
    }
    let (settled, Ghost(said)) = settle_ranked(
        directions,
        &ranking,
        sigma_post,
        warm_starts_by_rank,
        numbers,
    );
    proof {
        run.settled = said;
    }
    match settled {
        Err(error) => {
            let out = Err(error);
            assert(run.explains(
                *numbers,
                rows,
                sigma,
                warm_view(warm_starts_by_rank),
                matrix::rows_of(directions@),
                rows_view(out),
            ));
            out
        },
        Ok(refined) => {
            place_refined(directions, &ranking, &refined);
            proof {
                let after = matrix::rows_of(directions@);
                assert(matrix::rows_of(refined@) =~= Seq::new(
                    said.len(),
                    |i: int| said[i]->Ok_0,
                )) by {
                    assert forall|i: int| 0 <= i < refined.len() implies #[trigger] matrix::rows_of(
                        refined@,
                    )[i] == said[i]->Ok_0 by {
                        assert(said[i] == Ok::<Seq<Real>, HonestError>(refined@[i]@));
                    }
                }
                assert forall|i: int| 0 <= i < ranking.len() implies after[(
                #[trigger] ranking@[i]).0 as int] == said[i]->Ok_0 by {
                    assert(said[i] == Ok::<Seq<Real>, HonestError>(refined@[i]@));
                }
                assert forall|k: int| 0 <= k < after.len() && !ranks(ranking@, k) implies
                    #[trigger] after[k] == rows[k] by {
                    assert(after[k] == directions@[k]@);
                }
                if said.len() > 0 {
                    let last = said.len() - 1;
                    assert(said[last] == Ok::<Seq<Real>, HonestError>(refined@[last]@));
                }
            }
            let out = Ok(refined);
            assert(run.explains(
                *numbers,
                rows,
                sigma,
                warm_view(warm_starts_by_rank),
                matrix::rows_of(directions@),
                rows_view(out),
            ));
            out
        },
    }
}

/// A ranking descends in variance, and no direction that it leaves out varies more
/// than one that it holds.
pub proof fn ranked_directions_vary_most(
    variances: Seq<Real>,
    max_count: int,
    ranking: Seq<(usize, Real)>,
    i: int,
    k: int,
)
    requires
        is_ranking(variances, max_count, ranking),
        0 <= i < ranking.len(),
        0 <= k < variances.len(),
        !variances[k].nan(),
        !ranking[i].1.nan(),
        !ranks(ranking, k) || exists|j: int| i <= j < ranking.len() && #[trigger] ranking[j].0 == k,
    ensures
        variances[k].le(ranking[i].1),
{
    if ranks(ranking, k) {
        let j = choose|j: int| i <= j < ranking.len() && #[trigger] ranking[j].0 == k;
        if i < j {
            assert(precedes(variances, ranking[i].0 as int, ranking[j].0 as int));
        }
    } else {
        assert(precedes(variances, ranking[i].0 as int, k));
    }
    let best = ranking[i].1;
    let other = variances[k];
    assert(other.rank() <= best.rank());
}

} // verus!
