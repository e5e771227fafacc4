//! Search for the accepted part of a one-dimensional grid.
//!
//! A test is expensive, so the search asks about as few grid points as it can:
//! it starts at an anchor, looks for both ends of the accepted interval by
//! bisection, and checks the ends that it found. Where an answer contradicts
//! the assumption that the accepted points form one interval, it falls back to
//! asking about every point. No point is asked about twice.

use crate::grid_memory::{search_grid, test_grid};
use crate::number::Real;
use vstd::prelude::*;

verus! {

/// First and last accepted index of a grid.
#[derive(Clone, Copy, Debug, PartialEq, Eq, Structural)]
pub struct AcceptedGridRange {
    /// First accepted index.
    pub lower_idx: usize,
    /// Last accepted index.
    pub upper_idx: usize,
}

/// What an adaptive search did.
#[derive(Clone, Copy, Debug, PartialEq, Eq, Structural)]
pub struct AdaptiveGridDiagnostics {
    /// The anchor, moved onto the grid where it lay past the end.
    pub anchor_idx: usize,
    /// The accepted index from which the ends were sought.
    pub accepted_anchor_idx: Option<usize>,
    /// Points that were put to the test before any fallback.
    pub unique_evaluations: usize,
    /// Questions that were answered from memory before any fallback.
    pub cache_hits: usize,
    /// Whether the anchor itself was accepted.
    pub anchor_accepted: bool,
    /// Whether the nearest accepted point took the anchor's place.
    pub used_nearest_accepted_anchor: bool,
    /// Whether the whole grid was tested.
    pub used_full_grid_fallback: bool,
}

// ---------------------------------------------------------------------------
// The answers of a test, and what the search makes of them
// ---------------------------------------------------------------------------

/// Whether the test accepts the point at `i`.
pub open spec fn accepts(answers: Seq<Result<bool, String>>, i: int) -> bool {
    answers[i] == Ok::<bool, String>(true)
}

/// The first error met when the points `queries` are asked about in order.
pub open spec fn first_error(
    answers: Seq<Result<bool, String>>,
    queries: Seq<int>,
) -> Option<String>
    decreases queries.len(),
{
    if queries.len() == 0 {
        None
    } else {
        match answers[queries[0]] {
            Err(error) => Some(error),
            Ok(_) => first_error(answers, queries.drop_first()),
        }
    }
}

/// The queries up to and including the first that fails; all of them where
/// none does.
pub open spec fn until_error(answers: Seq<Result<bool, String>>, queries: Seq<int>) -> Seq<int>
    decreases queries.len(),
{
    if queries.len() == 0 {
        queries
    } else if answers[queries[0]] is Err {
        seq![queries[0]]
    } else {
        seq![queries[0]] + until_error(answers, queries.drop_first())
    }
}

/// First index from `from` on that carries a flag.
pub open spec fn first_flag(flags: Seq<bool>, from: int) -> Option<int>
    decreases flags.len() - from,
{
    if from >= flags.len() {
        None
    } else if flags[from] {
        Some(from)
    } else {
        first_flag(flags, from + 1)
    }
}

/// Last index below `end` that carries a flag.
pub open spec fn last_flag(flags: Seq<bool>, end: int) -> Option<int>
    decreases end,
{
    if end <= 0 {
        None
    } else if flags[end - 1] {
        Some(end - 1)
    } else {
        last_flag(flags, end - 1)
    }
}

/// First and last flagged index.
pub open spec fn flagged_range(flags: Seq<bool>) -> Option<AcceptedGridRange> {
    match (first_flag(flags, 0), last_flag(flags, flags.len() as int)) {
        (Some(lower), Some(upper)) => Some(
            AcceptedGridRange { lower_idx: lower as usize, upper_idx: upper as usize },
        ),
        _ => None,
    }
}

/// The acceptance flags of a whole grid.
pub open spec fn acceptance_flags(answers: Seq<Result<bool, String>>) -> Seq<bool> {
    Seq::new(answers.len(), |i: int| accepts(answers, i))
}

/// First and last accepted index of a whole grid.
pub open spec fn full_grid_range(answers: Seq<Result<bool, String>>) -> Option<AcceptedGridRange> {
    flagged_range(acceptance_flags(answers))
}

/// Every index of a grid, in order.
pub open spec fn every_index(len: int) -> Seq<int> {
    Seq::new(len as nat, |i: int| i)
}

/// The accepted index nearest to `anchor` at distance `radius` or more; at
/// equal distance the left one.
pub open spec fn nearest_accepted(
    answers: Seq<Result<bool, String>>,
    anchor: int,
    radius: int,
) -> Option<int>
    decreases answers.len() - radius,
{
    if radius >= answers.len() {
        None
    } else if anchor - radius >= 0 && accepts(answers, anchor - radius) {
        Some(anchor - radius)
    } else if anchor + radius < answers.len() && accepts(answers, anchor + radius) {
        Some(anchor + radius)
    } else {
        nearest_accepted(answers, anchor, radius + 1)
    }
}

/// The points asked about while the nearest accepted index is sought.
pub open spec fn nearest_queries(
    answers: Seq<Result<bool, String>>,
    anchor: int,
    radius: int,
) -> Seq<int>
    decreases answers.len() - radius,
{
    if radius >= answers.len() {
        Seq::empty()
    } else {
        let left = if anchor - radius >= 0 {
            seq![anchor - radius]
        } else {
            Seq::empty()
        };
        let right = if anchor + radius < answers.len() {
            seq![anchor + radius]
        } else {
            Seq::empty()
        };
        if anchor - radius >= 0 && accepts(answers, anchor - radius) {
            left
        } else if anchor + radius < answers.len() && accepts(answers, anchor + radius) {
            left + right
        } else {
            left + right + nearest_queries(answers, anchor, radius + 1)
        }
    }
}

/// Where bisection between `lo` and the accepted `hi` puts the first accepted
/// index.
pub open spec fn bisect_lower(answers: Seq<Result<bool, String>>, lo: int, hi: int) -> int
    decreases hi - lo,
{
    if lo >= hi {
        lo
    } else {
        let mid = lo + (hi - lo) / 2;
        if accepts(answers, mid) {
            bisect_lower(answers, lo, mid)
        } else {
            bisect_lower(answers, mid + 1, hi)
        }
    }
}

/// The points asked about by [`bisect_lower`].
pub open spec fn bisect_lower_queries(
    answers: Seq<Result<bool, String>>,
    lo: int,
    hi: int,
) -> Seq<int>
    decreases hi - lo,
{
    if lo >= hi {
        Seq::empty()
    } else {
        let mid = lo + (hi - lo) / 2;
        seq![mid] + if accepts(answers, mid) {
            bisect_lower_queries(answers, lo, mid)
        } else {
            bisect_lower_queries(answers, mid + 1, hi)
        }
    }
}

/// Where bisection between the accepted `lo` and `hi` puts the last accepted
/// index.
pub open spec fn bisect_upper(answers: Seq<Result<bool, String>>, lo: int, hi: int) -> int
    decreases hi - lo,
{
    if lo >= hi {
        lo
    } else {
        let mid = lo + (hi - lo + 1) / 2;
        if accepts(answers, mid) {
            bisect_upper(answers, mid, hi)
        } else {
            bisect_upper(answers, lo, mid - 1)
        }
    }
}

/// The points asked about by [`bisect_upper`].
pub open spec fn bisect_upper_queries(
    answers: Seq<Result<bool, String>>,
    lo: int,
    hi: int,
) -> Seq<int>
    decreases hi - lo,
{
    if lo >= hi {
        Seq::empty()
    } else {
        let mid = lo + (hi - lo + 1) / 2;
        seq![mid] + if accepts(answers, mid) {
            bisect_upper_queries(answers, mid, hi)
        } else {
            bisect_upper_queries(answers, lo, mid - 1)
        }
    }
}

/// The accepted index from which the ends are sought.
pub open spec fn search_anchor(answers: Seq<Result<bool, String>>, anchor: int) -> Option<int> {
    if accepts(answers, anchor) {
        Some(anchor)
    } else {
        nearest_accepted(answers, anchor, 1)
    }
}

/// The points asked about to find the accepted anchor.
pub open spec fn anchor_queries(answers: Seq<Result<bool, String>>, anchor: int) -> Seq<int> {
    if accepts(answers, anchor) {
        seq![anchor]
    } else {
        seq![anchor] + nearest_queries(answers, anchor, 1)
    }
}

/// The lower end that the search proposes.
pub open spec fn lower_end(answers: Seq<Result<bool, String>>, start: int) -> int {
    if start == 0 || accepts(answers, 0) {
        0
    } else {
        bisect_lower(answers, 0, start)
    }
}

/// The points asked about to propose the lower end.
pub open spec fn lower_queries(answers: Seq<Result<bool, String>>, start: int) -> Seq<int> {
    if start == 0 {
        Seq::empty()
    } else if accepts(answers, 0) {
        seq![0]
    } else {
        seq![0] + bisect_lower_queries(answers, 0, start)
    }
}

/// The upper end that the search proposes.
pub open spec fn upper_end(answers: Seq<Result<bool, String>>, start: int) -> int {
    let last = answers.len() - 1;
    if start == last || accepts(answers, last) {
        last
    } else {
        bisect_upper(answers, start, last)
    }
}

/// The points asked about to propose the upper end.
pub open spec fn upper_queries(answers: Seq<Result<bool, String>>, start: int) -> Seq<int> {
    let last = answers.len() - 1;
    if start == last {
        Seq::empty()
    } else if accepts(answers, last) {
        seq![last]
    } else {
        seq![last] + bisect_upper_queries(answers, start, last)
    }
}

/// The points asked about when walking down from below `end` until one is
/// accepted.
pub open spec fn walk_down_queries(answers: Seq<Result<bool, String>>, end: int) -> Seq<int>
    decreases end,
{
    if end <= 0 {
        Seq::empty()
    } else if accepts(answers, end - 1) {
        seq![end - 1]
    } else {
        seq![end - 1] + walk_down_queries(answers, end - 1)
    }
}

/// The points asked about when walking up from `from` until one is accepted.
pub open spec fn walk_up_queries(answers: Seq<Result<bool, String>>, from: int) -> Seq<int>
    decreases answers.len() - from,
{
    if from >= answers.len() {
        Seq::empty()
    } else if accepts(answers, from) {
        seq![from]
    } else {
        seq![from] + walk_up_queries(answers, from + 1)
    }
}

/// Whether a point on the far side of `start`, seen from the rejected
/// `anchor`, reaches back to the anchor's side: an accepted point below
/// `start` where `start` lies above the anchor, or above it where it lies
/// below.
pub open spec fn accepted_across(
    answers: Seq<Result<bool, String>>,
    anchor: int,
    start: int,
) -> bool {
    if start > anchor {
        exists|i: int| 0 <= i < start && #[trigger] accepts(answers, i)
    } else if start < anchor {
        exists|i: int| start < i < answers.len() && #[trigger] accepts(answers, i)
    } else {
        false
    }
}

/// The points asked about to decide [`accepted_across`].
pub open spec fn across_queries(
    answers: Seq<Result<bool, String>>,
    anchor: int,
    start: int,
) -> Seq<int> {
    if start > anchor {
        walk_down_queries(answers, start)
    } else if start < anchor {
        walk_up_queries(answers, start + 1)
    } else {
        Seq::empty()
    }
}

/// Whether the points around the proposed ends fit one interval: the points
/// just outside are rejected, and those halfway between the ends and the
/// accepted anchor are accepted.
pub open spec fn ends_fit(
    answers: Seq<Result<bool, String>>,
    start: int,
    lower: int,
    upper: int,
) -> bool {
    &&& lower == 0 || !accepts(answers, lower - 1)
    &&& upper + 1 == answers.len() || !accepts(answers, upper + 1)
    &&& lower == start || accepts(answers, lower + (start - lower) / 2)
    &&& upper == start || accepts(answers, start + (upper - start + 1) / 2)
}

/// One query where `needed` holds, none otherwise.
pub open spec fn query_where(needed: bool, i: int) -> Seq<int> {
    if needed {
        seq![i]
    } else {
        Seq::empty()
    }
}

/// The points asked about to decide [`ends_fit`].
pub open spec fn ends_queries(len: int, start: int, lower: int, upper: int) -> Seq<int> {
    query_where(lower != 0, lower - 1) + query_where(upper + 1 != len, upper + 1) + query_where(
        lower != start,
        lower + (start - lower) / 2,
    ) + query_where(upper != start, start + (upper - start + 1) / 2)
}

/// Whether the accepted points contradict the proposed interval, so that the
/// whole grid is tested.
pub open spec fn falls_back(answers: Seq<Result<bool, String>>, anchor: int) -> bool {
    match search_anchor(answers, anchor) {
        None => true,
        Some(start) => {
            let lower = lower_end(answers, start);
            let upper = upper_end(answers, start);
            ||| !accepts(answers, anchor) && accepted_across(answers, anchor, start)
            ||| !(lower == 0 && upper == answers.len() - 1) && !ends_fit(
                answers,
                start,
                lower,
                upper,
            )
        },
    }
}

/// The points asked about once the accepted anchor is known.
pub open spec fn refinement_queries(
    answers: Seq<Result<bool, String>>,
    anchor: int,
    start: int,
) -> Seq<int> {
    let lower = lower_end(answers, start);
    let upper = upper_end(answers, start);
    let across = if accepts(answers, anchor) {
        Seq::empty()
    } else {
        across_queries(answers, anchor, start)
    };
    let ends = if (!accepts(answers, anchor) && accepted_across(answers, anchor, start)) || (lower
        == 0 && upper == answers.len() - 1) {
        Seq::empty()
    } else {
        ends_queries(answers.len() as int, start, lower, upper)
    };
    lower_queries(answers, start) + upper_queries(answers, start) + across + ends
}

/// The points asked about before any fallback, in order and with repetitions.
pub open spec fn search_queries(answers: Seq<Result<bool, String>>, anchor: int) -> Seq<int> {
    match search_anchor(answers, anchor) {
        None => anchor_queries(answers, anchor),
        Some(start) => anchor_queries(answers, anchor) + refinement_queries(
            answers,
            anchor,
            start,
        ),
    }
}

/// All points asked about: those of the search, and the whole grid after it
/// where the search falls back.
pub open spec fn all_queries(answers: Seq<Result<bool, String>>, anchor: int) -> Seq<int> {
    if falls_back(answers, anchor) {
        search_queries(answers, anchor) + every_index(answers.len() as int)
    } else {
        search_queries(answers, anchor)
    }
}

/// The range that the search returns.
pub open spec fn adaptive_range(
    answers: Seq<Result<bool, String>>,
    anchor: int,
) -> Option<AcceptedGridRange> {
    if falls_back(answers, anchor) {
        full_grid_range(answers)
    } else {
        let start = search_anchor(answers, anchor)->0;
        Some(
            AcceptedGridRange {
                lower_idx: lower_end(answers, start) as usize,
                upper_idx: upper_end(answers, start) as usize,
            },
        )
    }
}

/// `value`, or the largest `usize` where it lies above.
pub open spec fn saturated(value: int) -> usize {
    if value > usize::MAX {
        usize::MAX
    } else {
        value as usize
    }
}

/// The diagnostics that the search reports.
pub open spec fn adaptive_diagnostics(
    answers: Seq<Result<bool, String>>,
    anchor: int,
) -> AdaptiveGridDiagnostics {
    let queries = search_queries(answers, anchor);
    let distinct = queries.to_set().len() as int;
    AdaptiveGridDiagnostics {
        anchor_idx: anchor as usize,
        accepted_anchor_idx: match search_anchor(answers, anchor) {
            Some(start) => Some(start as usize),
            None => None,
        },
        unique_evaluations: saturated(distinct),
        cache_hits: saturated(queries.len() - distinct),
        anchor_accepted: accepts(answers, anchor),
        used_nearest_accepted_anchor: !accepts(answers, anchor) && search_anchor(
            answers,
            anchor,
        ) is Some,
        used_full_grid_fallback: falls_back(answers, anchor),
    }
}

/// The outcome of an adaptive search whose test gives `answers`.
pub open spec fn adaptive_outcome(
    answers: Seq<Result<bool, String>>,
    anchor: int,
) -> Result<(Option<AcceptedGridRange>, AdaptiveGridDiagnostics), String> {
    match first_error(answers, all_queries(answers, anchor)) {
        Some(error) => Err(error),
        None => Ok((adaptive_range(answers, anchor), adaptive_diagnostics(answers, anchor))),
    }
}

/// Whether `answers` could have come from `evaluate` at the points `queries`.
pub open spec fn answered_by<F: FnMut(Real) -> Result<bool, String>>(
    evaluate: F,
    grid: Seq<Real>,
    answers: Seq<Result<bool, String>>,
    queries: Seq<int>,
) -> bool {
    &&& answers.len() == grid.len()
    &&& forall|i: int|
        0 <= i < grid.len() && #[trigger] queries.contains(i) ==> call_ensures(
            evaluate,
            (grid[i],),
            answers[i],
        )
}

/// The anchor, moved onto the grid where it lies past the end.
pub open spec fn clamped_anchor(anchor_idx: int, len: int) -> int {
    if anchor_idx < len {
        anchor_idx
    } else {
        len - 1
    }
}

/// Whether `outcome` is what the search makes of `answers`, and `answers`
/// could have come from `evaluate` wherever it was asked.
pub open spec fn explains<F: FnMut(Real) -> Result<bool, String>>(
    answers: Seq<Result<bool, String>>,
    evaluate: F,
    grid: Seq<Real>,
    anchor: int,
    outcome: Result<(Option<AcceptedGridRange>, AdaptiveGridDiagnostics), String>,
) -> bool {
    &&& answered_by(
        evaluate,
        grid,
        answers,
        until_error(answers, all_queries(answers, anchor)),
    )
    &&& outcome == adaptive_outcome(answers, anchor)
}

/// Whether `range` is what a test of every point makes of `answers`, and
/// `answers` could have come from `evaluate` wherever it was asked.
pub open spec fn explains_full_grid<F: FnMut(Real) -> Result<bool, String>>(
    answers: Seq<Result<bool, String>>,
    evaluate: F,
    grid: Seq<Real>,
    range: Result<Option<AcceptedGridRange>, String>,
) -> bool {
    let queries = every_index(grid.len() as int);
    &&& answered_by(evaluate, grid, answers, until_error(answers, queries))
    &&& range == (match first_error(answers, queries) {
        Some(error) => Err(error),
        None => Ok(full_grid_range(answers)),
    })
}

/// Index of the first smallest distance in the total order.
pub open spec fn nearest_index(distances: Seq<Real>, i: int) -> bool {
    &&& 0 <= i < distances.len()
    &&& forall|k: int| 0 <= k < i ==> distances[i].rank() < (#[trigger] distances[k]).rank()
    &&& forall|k: int|
        0 <= k < distances.len() ==> distances[i].rank() <= (#[trigger] distances[k]).rank()
}

/// Index of the grid point nearest to a value, given the distance of each grid
/// point from it; the first of several, and 0 on an empty grid.
pub fn nearest_grid_index(distances: &[Real]) -> (idx: usize)
    ensures
        distances.len() == 0 ==> idx == 0,
        distances.len() > 0 ==> nearest_index(distances@, idx as int),
{
    let mut best: usize = 0;
    let mut idx: usize = 1;
    while idx < distances.len()
        invariant
            distances.len() > 0 ==> best < distances.len(),
            distances.len() == 0 ==> best == 0,
            best < idx,
            idx <= distances.len() || distances.len() == 0,
            forall|k: int|
                0 <= k < best && k < distances.len() ==> distances@[best as int].rank() < (
                #[trigger] distances@[k]).rank(),
            forall|k: int|
                0 <= k < idx && k < distances.len() ==> distances@[best as int].rank() <= (
                #[trigger] distances@[k]).rank(),
        decreases distances.len() - idx,
    {
        if distances[idx].ranks_below(distances[best]) {
            best = idx;
        }
        idx = idx + 1;
    }
    best
}

/// First and last flagged index, or `None` where no flag is set.
pub fn accepted_grid_range_from_flags(flags: &[bool]) -> (range: Option<AcceptedGridRange>)
    ensures
        range == flagged_range(flags@),
{
    let mut lower: usize = 0;
    while lower < flags.len() && !flags[lower]
        invariant
            lower <= flags.len(),
            first_flag(flags@, 0) == first_flag(flags@, lower as int),
        decreases flags.len() - lower,
    {
        lower = lower + 1;
    }
    if lower == flags.len() {
        return None;
    }
    let mut end: usize = flags.len();
    while end > 0 && !flags[end - 1]
        invariant
            end <= flags.len(),
            last_flag(flags@, flags.len() as int) == last_flag(flags@, end as int),
            lower < flags.len(),
            flags@[lower as int],
            end > lower,
        decreases end,
    {
        end = end - 1;
    }
    Some(AcceptedGridRange { lower_idx: lower, upper_idx: end - 1 })
}

/// The accepted part of a grid, found with as few tests as the answers allow.
///
/// The outcome is a function of the anchor and of the answers that `evaluate`
/// gave; each index is put to the test at most once.
pub fn compute_accepted_grid_range_adaptive_with_diagnostics<
    F: FnMut(Real) -> Result<bool, String>,
>(grid: &[Real], anchor_idx: usize, evaluate: F) -> (outcome: Result<
    (Option<AcceptedGridRange>, AdaptiveGridDiagnostics),
    String,
>)
    requires
        grid.len() > 0,
        forall|i: int| 0 <= i < grid.len() ==> call_requires(evaluate, (#[trigger] grid@[i],)),
    ensures
        exists|answers: Seq<Result<bool, String>>| #[trigger]
            explains(
                answers,
                evaluate,
                grid@,
                clamped_anchor(anchor_idx as int, grid.len() as int),
                outcome,
            ),
{
    let anchor: usize = if anchor_idx < grid.len() {
        anchor_idx
    } else {
        grid.len() - 1
    };
    assert(anchor == clamped_anchor(anchor_idx as int, grid.len() as int));
    search_grid(grid, anchor, evaluate)
}

/// The accepted part of a grid, without the diagnostics of the search.
pub fn compute_accepted_grid_range_adaptive<F: FnMut(Real) -> Result<bool, String>>(
    grid: &[Real],
    anchor_idx: usize,
    evaluate: F,
) -> (range: Result<Option<AcceptedGridRange>, String>)
    requires
        grid.len() > 0,
        forall|i: int| 0 <= i < grid.len() ==> call_requires(evaluate, (#[trigger] grid@[i],)),
    ensures
        exists|
            answers: Seq<Result<bool, String>>,
            outcome: Result<(Option<AcceptedGridRange>, AdaptiveGridDiagnostics), String>,
        | #[trigger]
            explains(
                answers,
                evaluate,
                grid@,
                clamped_anchor(anchor_idx as int, grid.len() as int),
                outcome,
            ) && range == (match outcome {
                Ok((found, _)) => Ok(found),
                Err(error) => Err(error),
            }),
{
    match compute_accepted_grid_range_adaptive_with_diagnostics(grid, anchor_idx, evaluate) {
        Ok((range, _)) => Ok(range),
        Err(error) => Err(error),
    }
}

/// The accepted part of a grid, found by testing every point.
pub fn compute_accepted_grid_range_full_grid<F: FnMut(Real) -> Result<bool, String>>(
    grid: &[Real],
    evaluate: F,
) -> (range: Result<Option<AcceptedGridRange>, String>)
    requires
        forall|i: int| 0 <= i < grid.len() ==> call_requires(evaluate, (#[trigger] grid@[i],)),
    ensures
        exists|answers: Seq<Result<bool, String>>| #[trigger]
            explains_full_grid(answers, evaluate, grid@, range),
{
    test_grid(grid, evaluate)
}

// ---------------------------------------------------------------------------
// Laws
// ---------------------------------------------------------------------------

/// The first flag is flagged and nothing before it is; there is none exactly
/// where no flag is set.
proof fn first_flag_is_first(flags: Seq<bool>, from: int)
    requires
        0 <= from,
    ensures
        match first_flag(flags, from) {
            Some(i) => from <= i < flags.len() && flags[i] && forall|k: int|
                from <= k < i ==> !(#[trigger] flags[k]),
            None => forall|k: int| from <= k < flags.len() ==> !(#[trigger] flags[k]),
        },
    decreases flags.len() - from,
{
    if from < flags.len() && !flags[from] {
        first_flag_is_first(flags, from + 1);
    }
}

/// The last flag is flagged and nothing behind it is.
proof fn last_flag_is_last(flags: Seq<bool>, end: int)
    requires
        end <= flags.len(),
    ensures
        match last_flag(flags, end) {
            Some(i) => 0 <= i < end && flags[i] && forall|k: int|
                i < k < end ==> !(#[trigger] flags[k]),
            None => forall|k: int| 0 <= k < end ==> !(#[trigger] flags[k]),
        },
    decreases end,
{
    if end > 0 && !flags[end - 1] {
        last_flag_is_last(flags, end - 1);
    }
}

/// A flagged range starts at the first flag and ends at the last; there is
/// none exactly where no flag is set.
pub proof fn flagged_range_spans_the_flags(flags: Seq<bool>)
    requires
        flags.len() <= usize::MAX,
    ensures
        match flagged_range(flags) {
            Some(range) => {
                &&& range.lower_idx <= range.upper_idx < flags.len()
                &&& flags[range.lower_idx as int] && flags[range.upper_idx as int]
                &&& forall|k: int|
                    0 <= k < flags.len() && (k < range.lower_idx || k > range.upper_idx) ==> !(
                    #[trigger] flags[k])
            },
            None => forall|k: int| 0 <= k < flags.len() ==> !(#[trigger] flags[k]),
        },
{
    first_flag_is_first(flags, 0);
    last_flag_is_last(flags, flags.len() as int);
}

/// How far two indices lie apart.
pub open spec fn distance(a: int, b: int) -> int {
    if a <= b {
        b - a
    } else {
        a - b
    }
}

/// Of the indices at least `radius` away from the anchor, the nearest accepted
/// one is accepted and no nearer one is; of two as near, it is the left one.
pub proof fn nearest_accepted_is_nearest(
    answers: Seq<Result<bool, String>>,
    anchor: int,
    radius: int,
)
    requires
        0 <= anchor < answers.len(),
        1 <= radius,
    ensures
        match nearest_accepted(answers, anchor, radius) {
            Some(i) => {
                &&& 0 <= i < answers.len()
                &&& accepts(answers, i)
                &&& i <= anchor - radius || i >= anchor + radius
                &&& forall|k: int|
                    0 <= k < answers.len() && (k <= anchor - radius || k >= anchor + radius)
                        && distance(k, anchor) < distance(i, anchor) ==> !#[trigger] accepts(
                        answers,
                        k,
                    )
                &&& i > anchor && 2 * anchor - i >= 0 ==> !accepts(answers, 2 * anchor - i)
            },
            None => forall|k: int|
                0 <= k < answers.len() && (k <= anchor - radius || k >= anchor + radius)
                    ==> !#[trigger] accepts(answers, k),
        },
    decreases answers.len() - radius,
{
    if radius < answers.len() {
        nearest_accepted_is_nearest(answers, anchor, radius + 1);
        if let Some(i) = nearest_accepted(answers, anchor, radius) {
            assert forall|k: int|
                0 <= k < answers.len() && (k <= anchor - radius || k >= anchor + radius)
                    && distance(k, anchor) < distance(i, anchor) implies !#[trigger] accepts(
                answers,
                k,
            ) by {
                if k != anchor - radius && k != anchor + radius {
                    assert(k <= anchor - (radius + 1) || k >= anchor + (radius + 1));
                }
            }
        }
        if nearest_accepted(answers, anchor, radius) is None {
            assert forall|k: int|
                0 <= k < answers.len() && (k <= anchor - radius || k >= anchor + radius)
                    implies !#[trigger] accepts(answers, k) by {
                if k != anchor - radius && k != anchor + radius {
                    assert(k <= anchor - (radius + 1) || k >= anchor + (radius + 1));
                }
            }
        }
    }
}

/// Bisection for the lower end stays between its bounds and ends on an
/// accepted index.
proof fn bisect_lower_is_accepted(answers: Seq<Result<bool, String>>, lo: int, hi: int)
    requires
        0 <= lo <= hi < answers.len(),
        accepts(answers, hi),
    ensures
        lo <= bisect_lower(answers, lo, hi) <= hi,
        accepts(answers, bisect_lower(answers, lo, hi)),
    decreases hi - lo,
{
    if lo < hi {
        let mid = lo + (hi - lo) / 2;
        if accepts(answers, mid) {
            bisect_lower_is_accepted(answers, lo, mid);
        } else {
            bisect_lower_is_accepted(answers, mid + 1, hi);
        }
    }
}

/// Bisection for the upper end stays between its bounds and ends on an
/// accepted index.
proof fn bisect_upper_is_accepted(answers: Seq<Result<bool, String>>, lo: int, hi: int)
    requires
        0 <= lo <= hi < answers.len(),
        accepts(answers, lo),
    ensures
        lo <= bisect_upper(answers, lo, hi) <= hi,
        accepts(answers, bisect_upper(answers, lo, hi)),
    decreases hi - lo,
{
    if lo < hi {
        let mid = lo + (hi - lo + 1) / 2;
        if accepts(answers, mid) {
            bisect_upper_is_accepted(answers, mid, hi);
        } else {
            bisect_upper_is_accepted(answers, lo, mid - 1);
        }
    }
}

/// The proposed ends enclose the accepted index they were sought from, and are
/// accepted themselves.
proof fn proposed_ends_are_accepted(answers: Seq<Result<bool, String>>, start: int)
    requires
        0 <= start < answers.len(),
        accepts(answers, start),
    ensures
        0 <= lower_end(answers, start) <= start <= upper_end(answers, start) < answers.len(),
        accepts(answers, lower_end(answers, start)),
        accepts(answers, upper_end(answers, start)),
{
    bisect_lower_is_accepted(answers, 0, start);
    bisect_upper_is_accepted(answers, start, answers.len() - 1);
}

/// The accepted anchor is accepted; there is none exactly where nothing is.
proof fn search_anchor_is_accepted(answers: Seq<Result<bool, String>>, anchor: int)
    requires
        0 <= anchor < answers.len(),
    ensures
        match search_anchor(answers, anchor) {
            Some(i) => 0 <= i < answers.len() && accepts(answers, i),
            None => forall|k: int| 0 <= k < answers.len() ==> !#[trigger] accepts(answers, k),
        },
{
    nearest_accepted_is_nearest(answers, anchor, 1);
    if search_anchor(answers, anchor) is None {
        assert forall|k: int| 0 <= k < answers.len() implies !#[trigger] accepts(answers, k) by {
            if k != anchor {
                assert(k <= anchor - 1 || k >= anchor + 1);
            }
        }
    }
}

/// Whatever the answers, a range that the search returns begins and ends with
/// an accepted point, and the points just outside it are rejected.
pub proof fn returned_range_has_sharp_ends(answers: Seq<Result<bool, String>>, anchor: int)
    requires
        0 <= anchor < answers.len() <= usize::MAX,
        adaptive_range(answers, anchor) is Some,
    ensures
        ({
            let range = adaptive_range(answers, anchor)->0;
            let lower = range.lower_idx as int;
            let upper = range.upper_idx as int;
            &&& 0 <= lower <= upper < answers.len()
            &&& accepts(answers, lower) && accepts(answers, upper)
            &&& lower == 0 || !accepts(answers, lower - 1)
            &&& upper + 1 == answers.len() || !accepts(answers, upper + 1)
        }),
{
    let flags = acceptance_flags(answers);
    flagged_range_spans_the_flags(flags);
    search_anchor_is_accepted(answers, anchor);
    if falls_back(answers, anchor) {
        let range = full_grid_range(answers)->0;
        assert(flags[range.lower_idx as int] && flags[range.upper_idx as int]);
        if range.lower_idx > 0 {
            assert(!flags[range.lower_idx - 1]);
        }
        if range.upper_idx + 1 < answers.len() {
            assert(!flags[range.upper_idx + 1]);
        }
    } else {
        proposed_ends_are_accepted(answers, search_anchor(answers, anchor)->0);
    }
}

/// The search returns no range exactly where no point is accepted.
pub proof fn nothing_is_returned_only_where_nothing_is_accepted(
    answers: Seq<Result<bool, String>>,
    anchor: int,
)
    requires
        0 <= anchor < answers.len() <= usize::MAX,
    ensures
        adaptive_range(answers, anchor) is None <==> forall|k: int|
            0 <= k < answers.len() ==> !#[trigger] accepts(answers, k),
{
    let flags = acceptance_flags(answers);
    flagged_range_spans_the_flags(flags);
    search_anchor_is_accepted(answers, anchor);
    if adaptive_range(answers, anchor) is None {
        assert forall|k: int| 0 <= k < answers.len() implies !#[trigger] accepts(answers, k) by {
            assert(!flags[k]);
        }
    } else {
        returned_range_has_sharp_ends(answers, anchor);
        let range = adaptive_range(answers, anchor)->0;
        assert(accepts(answers, range.lower_idx as int));
    }
}

/// Where the anchor is accepted, the range contains it.
pub proof fn returned_range_contains_an_accepted_anchor(
    answers: Seq<Result<bool, String>>,
    anchor: int,
)
    requires
        0 <= anchor < answers.len() <= usize::MAX,
        accepts(answers, anchor),
    ensures
        adaptive_range(answers, anchor) is Some,
        adaptive_range(answers, anchor)->0.lower_idx <= anchor
            <= adaptive_range(answers, anchor)->0.upper_idx,
{
    let flags = acceptance_flags(answers);
    flagged_range_spans_the_flags(flags);
    assert(flags[anchor]);
    if !falls_back(answers, anchor) {
        proposed_ends_are_accepted(answers, anchor);
    }
}

/// Bisection finds the lower end of one interval.
proof fn bisect_lower_finds_the_end(
    answers: Seq<Result<bool, String>>,
    lo: int,
    hi: int,
    lower: int,
)
    requires
        0 <= lo <= lower <= hi < answers.len(),
        forall|k: int| lo <= k <= hi ==> #[trigger] accepts(answers, k) == (k >= lower),
    ensures
        bisect_lower(answers, lo, hi) == lower,
    decreases hi - lo,
{
    if lo < hi {
        let mid = lo + (hi - lo) / 2;
        if accepts(answers, mid) {
            bisect_lower_finds_the_end(answers, lo, mid, lower);
        } else {
            bisect_lower_finds_the_end(answers, mid + 1, hi, lower);
        }
    }
}

/// Bisection finds the upper end of one interval.
proof fn bisect_upper_finds_the_end(
    answers: Seq<Result<bool, String>>,
    lo: int,
    hi: int,
    upper: int,
)
    requires
        0 <= lo <= upper <= hi < answers.len(),
        forall|k: int| lo <= k <= hi ==> #[trigger] accepts(answers, k) == (k <= upper),
    ensures
        bisect_upper(answers, lo, hi) == upper,
    decreases hi - lo,
{
    if lo < hi {
        let mid = lo + (hi - lo + 1) / 2;
        if accepts(answers, mid) {
            bisect_upper_finds_the_end(answers, mid, hi, upper);
        } else {
            bisect_upper_finds_the_end(answers, lo, mid - 1, upper);
        }
    }
}

/// The nearest accepted index to a point outside an interval is the end of the
/// interval that faces it.
proof fn nearest_accepted_faces_the_anchor(
    answers: Seq<Result<bool, String>>,
    anchor: int,
    radius: int,
    lower: int,
    upper: int,
)
    requires
        0 <= lower <= upper < answers.len(),
        0 <= anchor < answers.len(),
        forall|k: int|
            0 <= k < answers.len() ==> #[trigger] accepts(answers, k) == (lower <= k <= upper),
        1 <= radius,
        anchor < lower ==> radius <= lower - anchor,
        anchor > upper ==> radius <= anchor - upper,
        anchor < lower || anchor > upper,
    ensures
        nearest_accepted(answers, anchor, radius) == Some(
            if anchor < lower {
                lower
            } else {
                upper
            },
        ),
    decreases answers.len() - radius,
{
    if anchor < lower && radius < lower - anchor || anchor > upper && radius < anchor - upper {
        nearest_accepted_faces_the_anchor(answers, anchor, radius + 1, lower, upper);
    }
}

/// Where the accepted points form one interval, the search returns it without a
/// fallback, as testing the whole grid would.
pub proof fn one_interval_is_found(
    answers: Seq<Result<bool, String>>,
    anchor: int,
    lower: int,
    upper: int,
)
    requires
        0 <= anchor < answers.len() <= usize::MAX,
        0 <= lower <= upper < answers.len(),
        forall|k: int|
            0 <= k < answers.len() ==> #[trigger] accepts(answers, k) == (lower <= k <= upper),
    ensures
        !falls_back(answers, anchor),
        adaptive_range(answers, anchor) == Some(
            AcceptedGridRange { lower_idx: lower as usize, upper_idx: upper as usize },
        ),
        full_grid_range(answers) == adaptive_range(answers, anchor),
{
    if !accepts(answers, anchor) {
        nearest_accepted_faces_the_anchor(answers, anchor, 1, lower, upper);
    }
    let start = search_anchor(answers, anchor)->0;
    assert(lower <= start <= upper);
    if start != 0 && !accepts(answers, 0) {
        bisect_lower_finds_the_end(answers, 0, start, lower);
    }
    let last = answers.len() - 1;
    if start != last && !accepts(answers, last) {
        bisect_upper_finds_the_end(answers, start, last, upper);
    }
    assert(lower_end(answers, start) == lower);
    assert(upper_end(answers, start) == upper);
    let flags = acceptance_flags(answers);
    flagged_range_spans_the_flags(flags);
    assert(flags[lower] && flags[upper]);
    let range = full_grid_range(answers)->0;
    assert(flags[range.lower_idx as int] && flags[range.upper_idx as int]);
}

/// On a grid that is accepted throughout, the search asks at most three
/// questions.
pub proof fn an_accepted_grid_needs_three_tests(answers: Seq<Result<bool, String>>, anchor: int)
    requires
        0 <= anchor < answers.len() <= usize::MAX,
        forall|k: int| 0 <= k < answers.len() ==> #[trigger] accepts(answers, k),
    ensures
        all_queries(answers, anchor).len() <= 3,
        adaptive_diagnostics(answers, anchor).unique_evaluations <= 3,
{
    one_interval_is_found(answers, anchor, 0, answers.len() - 1);
    let queries = search_queries(answers, anchor);
    assert(queries.len() <= 3);
    queries.lemma_cardinality_of_set();
}

/// Whether every query lies on the grid.
spec fn on_grid(queries: Seq<int>, len: int) -> bool {
    forall|k: int| 0 <= k < queries.len() ==> 0 <= #[trigger] queries[k] < len
}

proof fn nearest_queries_on_grid(answers: Seq<Result<bool, String>>, anchor: int, radius: int)
    requires
        0 <= anchor < answers.len(),
        1 <= radius,
    ensures
        on_grid(nearest_queries(answers, anchor, radius), answers.len() as int),
    decreases answers.len() - radius,
{
    if radius < answers.len() {
        nearest_queries_on_grid(answers, anchor, radius + 1);
    }
}

proof fn bisect_queries_on_grid(answers: Seq<Result<bool, String>>, lo: int, hi: int)
    requires
        0 <= lo,
        hi < answers.len(),
    ensures
        on_grid(bisect_lower_queries(answers, lo, hi), answers.len() as int),
        on_grid(bisect_upper_queries(answers, lo, hi), answers.len() as int),
    decreases hi - lo,
{
    if lo < hi {
        let low_mid = lo + (hi - lo) / 2;
        let high_mid = lo + (hi - lo + 1) / 2;
        bisect_queries_on_grid(answers, lo, low_mid);
        bisect_queries_on_grid(answers, low_mid + 1, hi);
        bisect_queries_on_grid(answers, high_mid, hi);
        bisect_queries_on_grid(answers, lo, high_mid - 1);
    }
}

proof fn walk_queries_on_grid(answers: Seq<Result<bool, String>>, at: int)
    requires
        0 <= at <= answers.len(),
    ensures
        on_grid(walk_up_queries(answers, at), answers.len() as int),
    decreases answers.len() - at,
{
    if at < answers.len() {
        walk_queries_on_grid(answers, at + 1);
    }
}

proof fn walk_down_queries_on_grid(answers: Seq<Result<bool, String>>, end: int)
    requires
        end <= answers.len(),
    ensures
        on_grid(walk_down_queries(answers, end), answers.len() as int),
    decreases end,
{
    if end > 0 {
        walk_down_queries_on_grid(answers, end - 1);
    }
}

proof fn concat_on_grid(left: Seq<int>, right: Seq<int>, len: int)
    requires
        on_grid(left, len),
        on_grid(right, len),
    ensures
        on_grid(left + right, len),
{
}

proof fn ends_queries_on_grid(len: int, start: int, lower: int, upper: int)
    requires
        0 <= lower <= start <= upper < len,
    ensures
        on_grid(ends_queries(len, start, lower, upper), len),
{
    let q1 = query_where(lower != 0, lower - 1);
    let q2 = query_where(upper + 1 != len, upper + 1);
    let q3 = query_where(lower != start, lower + (start - lower) / 2);
    let q4 = query_where(upper != start, start + (upper - start + 1) / 2);
    concat_on_grid(q1, q2, len);
    concat_on_grid(q1 + q2, q3, len);
    concat_on_grid(q1 + q2 + q3, q4, len);
}

proof fn refinement_queries_on_grid(answers: Seq<Result<bool, String>>, anchor: int, start: int)
    requires
        0 <= start < answers.len(),
        accepts(answers, start),
    ensures
        on_grid(refinement_queries(answers, anchor, start), answers.len() as int),
{
    let len = answers.len() as int;
    proposed_ends_are_accepted(answers, start);
    bisect_queries_on_grid(answers, 0, start);
    bisect_queries_on_grid(answers, start, len - 1);
    walk_down_queries_on_grid(answers, start);
    walk_queries_on_grid(answers, start + 1);
    let lower = lower_end(answers, start);
    let upper = upper_end(answers, start);
    ends_queries_on_grid(len, start, lower, upper);
    let low = lower_queries(answers, start);
    let high = upper_queries(answers, start);
    concat_on_grid(seq![0], bisect_lower_queries(answers, 0, start), len);
    concat_on_grid(seq![len - 1], bisect_upper_queries(answers, start, len - 1), len);
    let across = if accepts(answers, anchor) {
        Seq::empty()
    } else {
        across_queries(answers, anchor, start)
    };
    let ends = if (!accepts(answers, anchor) && accepted_across(answers, anchor, start)) || (lower
        == 0 && upper == len - 1) {
        Seq::empty()
    } else {
        ends_queries(len, start, lower, upper)
    };
    concat_on_grid(low, high, len);
    concat_on_grid(low + high, across, len);
    concat_on_grid(low + high + across, ends, len);
}

/// The questions that are new when they come up: an answer that is known is not
/// asked for again.
pub open spec fn fresh_queries(queries: Seq<int>) -> Seq<int>
    decreases queries.len(),
{
    if queries.len() == 0 {
        Seq::empty()
    } else {
        let before = fresh_queries(queries.drop_last());
        if before.contains(queries.last()) {
            before
        } else {
            before.push(queries.last())
        }
    }
}

proof fn fresh_queries_are_distinct(queries: Seq<int>)
    ensures
        fresh_queries(queries).no_duplicates(),
        fresh_queries(queries).to_set() =~= queries.to_set(),
    decreases queries.len(),
{
    if queries.len() > 0 {
        let rest = queries.drop_last();
        let before = fresh_queries(rest);
        let now = fresh_queries(queries);
        fresh_queries_are_distinct(rest);
        assert forall|i: int| now.to_set().contains(i) == queries.to_set().contains(i) by {
            assert(before.to_set().contains(i) == rest.to_set().contains(i));
            if queries.contains(i) {
                let k = choose|k: int| 0 <= k < queries.len() && queries[k] == i;
                if k < rest.len() {
                    assert(rest[k] == i);
                    let p = choose|p: int| 0 <= p < before.len() && before[p] == i;
                    assert(now[p] == i);
                } else if before.contains(i) {
                    let p = choose|p: int| 0 <= p < before.len() && before[p] == i;
                    assert(now[p] == i);
                } else {
                    assert(now[before.len() as int] == i);
                }
            }
            if now.contains(i) {
                let p = choose|p: int| 0 <= p < now.len() && now[p] == i;
                if p < before.len() {
                    assert(before[p] == i);
                    let k = choose|k: int| 0 <= k < rest.len() && rest[k] == i;
                    assert(queries[k] == i);
                } else {
                    assert(queries[queries.len() - 1] == i);
                }
            }
        }
    }
}

/// The search puts no point to the test twice: the questions that are not
/// answered from memory are distinct, they are as many as the search counts, and
/// no more than the grid has points.
pub proof fn no_point_is_tested_twice(answers: Seq<Result<bool, String>>, anchor: int)
    requires
        0 <= anchor < answers.len() <= usize::MAX,
    ensures
        fresh_queries(search_queries(answers, anchor)).no_duplicates(),
        fresh_queries(search_queries(answers, anchor)).len() == adaptive_diagnostics(
            answers,
            anchor,
        ).unique_evaluations,
        adaptive_diagnostics(answers, anchor).unique_evaluations <= answers.len(),
{
    fresh_queries_are_distinct(search_queries(answers, anchor));
    fresh_queries(search_queries(answers, anchor)).unique_seq_to_set();
    let len = answers.len() as int;
    nearest_queries_on_grid(answers, anchor, 1);
    search_anchor_is_accepted(answers, anchor);
    concat_on_grid(seq![anchor], nearest_queries(answers, anchor, 1), len);
    if let Some(start) = search_anchor(answers, anchor) {
        refinement_queries_on_grid(answers, anchor, start);
        concat_on_grid(
            anchor_queries(answers, anchor),
            refinement_queries(answers, anchor, start),
            len,
        );
    }
    let queries = search_queries(answers, anchor);
    assert(on_grid(queries, len));
    let grid = vstd::set_lib::set_int_range(0, len);
    vstd::set_lib::lemma_int_range(0, len);
    assert(queries.to_set().subset_of(grid)) by {
        assert forall|i: int| #[trigger] queries.to_set().contains(i) implies grid.contains(i) by {
            let k = choose|k: int| 0 <= k < queries.len() && queries[k] == i;
            assert(0 <= queries[k] < len);
        }
    }
    vstd::set_lib::lemma_len_subset(queries.to_set(), grid);
}

// ---------------------------------------------------------------------------
// The points that decide a range were asked about
// ---------------------------------------------------------------------------

/// Where no query fails, every query was answered, and none was left out.
proof fn queries_without_error(answers: Seq<Result<bool, String>>, queries: Seq<int>)
    requires
        first_error(answers, queries) is None,
    ensures
        until_error(answers, queries) == queries,
        forall|i: int| #[trigger] queries.contains(i) ==> answers[i] is Ok,
    decreases queries.len(),
{
    if queries.len() > 0 {
        let rest = queries.drop_first();
        queries_without_error(answers, rest);
        assert(seq![queries[0]] + rest =~= queries);
        assert forall|i: int| #[trigger] queries.contains(i) implies answers[i] is Ok by {
            if i != queries[0] {
                vstd::seq_lib::lemma_seq_concat_contains_all_elements(seq![queries[0]], rest, i);
                assert(rest.contains(i));
            }
        }
    }
}

/// Bisection for the lower end stops at a point it asked about, or where it
/// began.
proof fn bisect_lower_stops_at_a_query(answers: Seq<Result<bool, String>>, lo: int, hi: int)
    requires
        lo <= hi,
    ensures
        bisect_lower(answers, lo, hi) == hi || bisect_lower_queries(answers, lo, hi).contains(
            bisect_lower(answers, lo, hi),
        ),
    decreases hi - lo,
{
    if lo < hi {
        let mid = lo + (hi - lo) / 2;
        let end = bisect_lower(answers, lo, hi);
        let rest = if accepts(answers, mid) {
            bisect_lower_queries(answers, lo, mid)
        } else {
            bisect_lower_queries(answers, mid + 1, hi)
        };
        if accepts(answers, mid) {
            bisect_lower_stops_at_a_query(answers, lo, mid);
        } else {
            bisect_lower_stops_at_a_query(answers, mid + 1, hi);
        }
        assert(seq![mid][0] == mid);
        assert(seq![mid].contains(mid));
        vstd::seq_lib::lemma_seq_concat_contains_all_elements(seq![mid], rest, end);
    }
}

/// Bisection for the upper end stops at a point it asked about, or where it
/// began.
proof fn bisect_upper_stops_at_a_query(answers: Seq<Result<bool, String>>, lo: int, hi: int)
    requires
        lo <= hi,
    ensures
        bisect_upper(answers, lo, hi) == lo || bisect_upper_queries(answers, lo, hi).contains(
            bisect_upper(answers, lo, hi),
        ),
    decreases hi - lo,
{
    if lo < hi {
        let mid = lo + (hi - lo + 1) / 2;
        let end = bisect_upper(answers, lo, hi);
        let rest = if accepts(answers, mid) {
            bisect_upper_queries(answers, mid, hi)
        } else {
            bisect_upper_queries(answers, lo, mid - 1)
        };
        if accepts(answers, mid) {
            bisect_upper_stops_at_a_query(answers, mid, hi);
        } else {
            bisect_upper_stops_at_a_query(answers, lo, mid - 1);
        }
        assert(seq![mid][0] == mid);
        assert(seq![mid].contains(mid));
        vstd::seq_lib::lemma_seq_concat_contains_all_elements(seq![mid], rest, end);
    }
}

/// The nearest accepted point was asked about.
proof fn nearest_accepted_is_a_query(
    answers: Seq<Result<bool, String>>,
    anchor: int,
    radius: int,
)
    requires
        nearest_accepted(answers, anchor, radius) is Some,
    ensures
        nearest_queries(answers, anchor, radius).contains(
            nearest_accepted(answers, anchor, radius)->0,
        ),
    decreases answers.len() - radius,
{
    let found = nearest_accepted(answers, anchor, radius)->0;
    let left = query_where(anchor - radius >= 0, anchor - radius);
    let right = query_where(anchor + radius < answers.len(), anchor + radius);
    if anchor - radius >= 0 && accepts(answers, anchor - radius) {
        assert(left[0] == found);
    } else if anchor + radius < answers.len() && accepts(answers, anchor + radius) {
        assert(right[0] == found);
        vstd::seq_lib::lemma_seq_concat_contains_all_elements(left, right, found);
    } else {
        nearest_accepted_is_a_query(answers, anchor, radius + 1);
        vstd::seq_lib::lemma_seq_concat_contains_all_elements(
            left + right,
            nearest_queries(answers, anchor, radius + 1),
            found,
        );
    }
}

/// The accepted anchor was asked about.
proof fn search_anchor_is_a_query(answers: Seq<Result<bool, String>>, anchor: int)
    requires
        search_anchor(answers, anchor) is Some,
    ensures
        anchor_queries(answers, anchor).contains(search_anchor(answers, anchor)->0),
{
    assert(seq![anchor][0] == anchor);
    if !accepts(answers, anchor) {
        nearest_accepted_is_a_query(answers, anchor, 1);
        vstd::seq_lib::lemma_seq_concat_contains_all_elements(
            seq![anchor],
            nearest_queries(answers, anchor, 1),
            search_anchor(answers, anchor)->0,
        );
    }
}

/// The proposed ends were asked about, unless they are the accepted anchor.
proof fn proposed_ends_are_queries(answers: Seq<Result<bool, String>>, start: int)
    requires
        0 <= start < answers.len(),
    ensures
        lower_end(answers, start) == start || lower_queries(answers, start).contains(
            lower_end(answers, start),
        ),
        upper_end(answers, start) == start || upper_queries(answers, start).contains(
            upper_end(answers, start),
        ),
{
    let last = answers.len() - 1;
    assert(seq![0int][0] == 0);
    assert(seq![last][0] == last);
    bisect_lower_stops_at_a_query(answers, 0, start);
    bisect_upper_stops_at_a_query(answers, start, last);
    vstd::seq_lib::lemma_seq_concat_contains_all_elements(
        seq![0int],
        bisect_lower_queries(answers, 0, start),
        lower_end(answers, start),
    );
    vstd::seq_lib::lemma_seq_concat_contains_all_elements(
        seq![last],
        bisect_upper_queries(answers, start, last),
        upper_end(answers, start),
    );
}

/// The ends of a range that the search returns, and the points just outside it,
/// were all asked about.
pub proof fn what_bounds_a_range_was_asked_about(
    answers: Seq<Result<bool, String>>,
    anchor: int,
)
    requires
        0 <= anchor < answers.len() <= usize::MAX,
        adaptive_range(answers, anchor) is Some,
    ensures
        ({
            let queries = all_queries(answers, anchor);
            let lower = adaptive_range(answers, anchor)->0.lower_idx as int;
            let upper = adaptive_range(answers, anchor)->0.upper_idx as int;
            &&& queries.contains(lower) && queries.contains(upper)
            &&& lower == 0 || queries.contains(lower - 1)
            &&& upper + 1 == answers.len() || queries.contains(upper + 1)
        }),
{
    let queries = all_queries(answers, anchor);
    let lower = adaptive_range(answers, anchor)->0.lower_idx as int;
    let upper = adaptive_range(answers, anchor)->0.upper_idx as int;
    returned_range_has_sharp_ends(answers, anchor);
    search_anchor_is_accepted(answers, anchor);
    if falls_back(answers, anchor) {
        every_point_is_asked_about_in_a_fallback(answers, anchor);
    } else {
        let start = search_anchor(answers, anchor)->0;
        let opening = anchor_queries(answers, anchor);
        let below = lower_queries(answers, start);
        let above = upper_queries(answers, start);
        let across = if accepts(answers, anchor) {
            Seq::empty()
        } else {
            across_queries(answers, anchor, start)
        };
        let ends = if lower == 0 && upper == answers.len() - 1 {
            Seq::empty()
        } else {
            ends_queries(answers.len() as int, start, lower, upper)
        };
        search_anchor_is_a_query(answers, anchor);
        proposed_ends_are_accepted(answers, start);
        proposed_ends_are_queries(answers, start);
        assert(queries == opening + (below + above + across + ends));
        assert forall|i: int|
            opening.contains(i) || below.contains(i) || above.contains(i) || ends.contains(
                i,
            ) implies #[trigger] queries.contains(i) by {
            broadcast use vstd::seq_lib::lemma_seq_concat_contains_all_elements;

            assert((below + above).contains(i) || ends.contains(i) || opening.contains(i));
            assert((below + above + across).contains(i) || ends.contains(i) || opening.contains(i));
            assert((below + above + across + ends).contains(i) || opening.contains(i));
        }
        let a = query_where(lower != 0, lower - 1);
        let b = query_where(upper + 1 != answers.len(), upper + 1);
        let c = query_where(lower != start, lower + (start - lower) / 2);
        let d = query_where(upper != start, start + (upper - start + 1) / 2);
        if lower != 0 {
            assert(a[0] == lower - 1);
            assert((a + b + c + d)[0] == lower - 1);
            assert(ends.contains(lower - 1));
        }
        if upper + 1 != answers.len() {
            assert(b[0] == upper + 1);
            assert((a + b + c + d)[a.len() as int] == upper + 1);
            assert(ends.contains(upper + 1));
        }
    }
}

/// A search that falls back asks about every point.
proof fn every_point_is_asked_about_in_a_fallback(
    answers: Seq<Result<bool, String>>,
    anchor: int,
)
    requires
        falls_back(answers, anchor),
    ensures
        forall|i: int|
            0 <= i < answers.len() ==> #[trigger] all_queries(answers, anchor).contains(i),
{
    let every = every_index(answers.len() as int);
    assert forall|i: int| 0 <= i < answers.len() implies #[trigger] all_queries(
        answers,
        anchor,
    ).contains(i) by {
        assert(every[i] == i);
        vstd::seq_lib::lemma_seq_concat_contains_all_elements(
            search_queries(answers, anchor),
            every,
            i,
        );
    }
}

/// A search that succeeds rests on answered questions: its range begins and
/// ends with a point whose answer was to accept, and the points just outside
/// were answered with a rejection; without a range every point was.
pub proof fn a_range_rests_on_answered_questions(
    answers: Seq<Result<bool, String>>,
    anchor: int,
)
    requires
        0 <= anchor < answers.len() <= usize::MAX,
        adaptive_outcome(answers, anchor) is Ok,
    ensures
        ({
            let asked = until_error(answers, all_queries(answers, anchor));
            match adaptive_range(answers, anchor) {
                Some(range) => {
                    let lower = range.lower_idx as int;
                    let upper = range.upper_idx as int;
                    &&& 0 <= lower <= upper < answers.len()
                    &&& asked.contains(lower) && answers[lower] == Ok::<bool, String>(true)
                    &&& asked.contains(upper) && answers[upper] == Ok::<bool, String>(true)
                    &&& lower == 0 || asked.contains(lower - 1) && answers[lower - 1] == Ok::<
                        bool,
                        String,
                    >(false)
                    &&& upper + 1 == answers.len() || asked.contains(upper + 1) && answers[upper
                        + 1] == Ok::<bool, String>(false)
                },
                None => forall|i: int|
                    0 <= i < answers.len() ==> #[trigger] asked.contains(i) && answers[i] == Ok::<
                        bool,
                        String,
                    >(false),
            }
        }),
{
    let queries = all_queries(answers, anchor);
    queries_without_error(answers, queries);
    assert forall|i: int| queries.contains(i) && !accepts(answers, i) implies #[trigger] answers[i]
        == Ok::<bool, String>(false) by {
        let flag = answers[i]->Ok_0;
        assert(answers[i] == Ok::<bool, String>(flag));
    }
    if adaptive_range(answers, anchor) is Some {
        returned_range_has_sharp_ends(answers, anchor);
        what_bounds_a_range_was_asked_about(answers, anchor);
    } else {
        nothing_is_returned_only_where_nothing_is_accepted(answers, anchor);
        every_point_is_asked_about_in_a_fallback(answers, anchor);
        assert forall|i: int| 0 <= i < answers.len() implies #[trigger] all_queries(
            answers,
            anchor,
        ).contains(i) && answers[i] == Ok::<bool, String>(false) by {
            assert(!accepts(answers, i));
        }
    }
}

} // verus!
