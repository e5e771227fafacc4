//! Bases of the primal simplex method.
//!
//! The program is `max c'l` subject to `A l = g` and `l >= 0`, with `m` rows and
//! `n` columns. Column `n + i` is the artificial column of row `i`.

use crate::linear_program;
use crate::linear_program::{step_numbers, LinearProgram};
use crate::lp_arithmetic::LpArithmetic;
use crate::matrix;
use crate::matrix::copy_row;
use crate::number::Real;
use vstd::prelude::*;

verus! {

/// The bits of `1e-9`, above which a reduced cost counts as positive.
pub const REDUCED_COST_BITS: u64 = 0x3e112e0be826d695;

/// The bits of `1e-10`, above which an entry can be pivoted on.
pub const PIVOT_BITS: u64 = 0x3ddb7cdfd9d7bdbb;

/// The bits of `1e-12`, up to which a step counts as none.
pub const DEGENERATE_BITS: u64 = 0x3d719799812dea11;

/// The bits of `1e-8`, up to which artificial columns count as zero.
pub const PHASE_ONE_BITS: u64 = 0x3e45798ee2308c3a;

/// The bits of `1e-13`, below which a pivot counts as zero.
pub const SINGULAR_BITS: u64 = 0x3d3c25c268497682;

/// Pivots after which a basis is factorised anew.
pub const REFACTOR_EVERY: usize = 40;

/// Steps without progress after which the first improving column enters.
pub const BLAND_AFTER_DEGENERATE: usize = 25;

/// Why a program was not solved.
#[derive(Clone, Copy, Debug, PartialEq, Eq, Structural)]
pub enum LpError {
    /// No point satisfies the constraints.
    Infeasible,
    /// The objective increases without bound.
    Unbounded,
    /// The steps ran out.
    IterationLimit,
    /// The basis could not be factorised.
    Singular,
}

impl LpError {
    /// The name of the error.
    pub open spec fn label_spec(self) -> &'static str {
        match self {
            LpError::Infeasible => "Infeasible",
            LpError::Unbounded => "Unbounded",
            LpError::IterationLimit => "IterationLimit",
            LpError::Singular => "Singular",
        }
    }

    /// The name of the error.
    pub fn label(self) -> (label: &'static str)
        ensures
            label == self.label_spec(),
    {
        match self {
            LpError::Infeasible => "Infeasible",
            LpError::Unbounded => "Unbounded",
            LpError::IterationLimit => "IterationLimit",
            LpError::Singular => "Singular",
        }
    }
}

/// The two phases of the method.
#[derive(Clone, Copy, Debug, PartialEq, Eq, Structural)]
pub enum Phase {
    /// Artificial columns are driven out.
    One,
    /// The objective is maximised.
    Two,
}

/// A basis: the column at each position.
#[derive(Debug, PartialEq, Eq)]
pub struct SimplexBasis {
    /// Number of rows.
    pub m: usize,
    /// Number of columns.
    pub n: usize,
    /// Column at each position.
    pub basis: Vec<usize>,
    /// Whether each column is in the basis.
    pub is_basic: Vec<bool>,
    /// Pivots since the basis was last factorised.
    pub pivots_since_refactor: usize,
}

/// Whether no column occurs twice.
pub open spec fn distinct(columns: Seq<usize>) -> bool {
    forall|a: int, b: int|
        0 <= a < b < columns.len() ==> #[trigger] columns[a] != #[trigger] columns[b]
}

/// Whether `flags` marks exactly the columns of a basis.
pub open spec fn marks(flags: Seq<bool>, columns: Seq<usize>) -> bool {
    &&& forall|i: int| 0 <= i < columns.len() ==> flags[(#[trigger] columns[i]) as int]
    &&& forall|j: int|
        0 <= j < flags.len() && #[trigger] flags[j] ==> columns.contains(j as usize)
}

impl SimplexBasis {
    /// The basis has one column per row, none twice, and the marks are right.
    pub open spec fn wf(self) -> bool {
        &&& self.m + self.n <= usize::MAX
        &&& self.basis.len() == self.m
        &&& self.is_basic.len() == self.n + self.m
        &&& forall|i: int| 0 <= i < self.m ==> (#[trigger] self.basis@[i]) < self.n + self.m
        &&& distinct(self.basis@)
        &&& marks(self.is_basic@, self.basis@)
    }

    /// The basis of all artificial columns.
    pub fn artificial(m: usize, n: usize) -> (made: Self)
        requires
            m + n <= usize::MAX,
        ensures
            made.wf(),
            made.m == m,
            made.n == n,
            made.basis@ == Seq::new(m as nat, |i: int| (n + i) as usize),
            made.pivots_since_refactor == 0,
    {
        let mut basis: Vec<usize> = Vec::new();
        let mut is_basic: Vec<bool> = Vec::new();
        while is_basic.len() < n
            invariant
                is_basic.len() <= n,
                forall|j: int| 0 <= j < is_basic.len() ==> !(#[trigger] is_basic@[j]),
            decreases n - is_basic.len(),
        {
            is_basic.push(false);
        }
        while basis.len() < m
            invariant
                m + n <= usize::MAX,
                basis.len() <= m,
                is_basic.len() == n + basis.len(),
                forall|j: int| 0 <= j < n ==> !(#[trigger] is_basic@[j]),
                forall|j: int| n <= j < is_basic.len() ==> #[trigger] is_basic@[j],
                forall|i: int| 0 <= i < basis.len() ==> #[trigger] basis@[i] == n + i,
            decreases m - basis.len(),
        {
            let i: usize = basis.len();
            basis.push(n + i);
            is_basic.push(true);
        }
        proof {
            assert forall|j: int| 0 <= j < is_basic.len() && #[trigger] is_basic@[j] implies basis@.contains(
            j as usize) by {
                assert(basis@[j - n] == j);
            }
            assert(basis@ =~= Seq::new(m as nat, |i: int| (n + i) as usize));
        }
        SimplexBasis { m, n, basis, is_basic, pivots_since_refactor: 0 }
    }

    /// Puts column `entering` at position `leaving`.
    pub fn pivot(&mut self, leaving: usize, entering: usize)
        requires
            old(self).wf(),
            leaving < old(self).m,
            entering < old(self).n + old(self).m,
            !old(self).is_basic@[entering as int],
            old(self).pivots_since_refactor < usize::MAX,
        ensures
            final(self).wf(),
            final(self).m == old(self).m,
            final(self).n == old(self).n,
            final(self).basis@ == old(self).basis@.update(leaving as int, entering),
            final(self).pivots_since_refactor == old(self).pivots_since_refactor + 1,
    {
        let ghost before = *self;
        let out: usize = self.basis[leaving];
        proof {
            assert(self.basis@[leaving as int] < self.n + self.m);
        }
        self.is_basic.set(out, false);
        self.is_basic.set(entering, true);
        self.basis.set(leaving, entering);
        self.pivots_since_refactor = self.pivots_since_refactor + 1;
        proof {
            let now = self.basis@;
            assert(!before.basis@.contains(entering)) by {
                if before.basis@.contains(entering) {
                    let i = choose|i: int| 0 <= i < before.basis@.len() && before.basis@[i]
                        == entering;
                    assert(before.is_basic@[before.basis@[i] as int]);
                }
            }
            assert forall|a: int, b: int| 0 <= a < b < now.len() implies #[trigger] now[a]
                != #[trigger] now[b] by {
                if a == leaving {
                    assert(before.basis@[b] != entering);
                } else if b == leaving {
                    assert(before.basis@[a] != entering);
                } else {
                    assert(before.basis@[a] != before.basis@[b]);
                }
            }
            assert forall|i: int| 0 <= i < now.len() implies self.is_basic@[(
            #[trigger] now[i]) as int] by {
                if i != leaving {
                    assert(before.is_basic@[before.basis@[i] as int]);
                    assert(now[i] != out) by {
                        if i < leaving {
                            assert(before.basis@[i] != before.basis@[leaving as int]);
                        } else {
                            assert(before.basis@[leaving as int] != before.basis@[i]);
                        }
                    }
                }
            }
            assert forall|j: int|
                0 <= j < self.is_basic.len() && #[trigger] self.is_basic@[j] implies now.contains(
                j as usize,
            ) by {
                if j == entering {
                    assert(now[leaving as int] == entering);
                } else {
                    assert(before.is_basic@[j]);
                    let i = choose|i: int| 0 <= i < before.basis@.len() && before.basis@[i]
                        == j as usize;
                    assert(i != leaving);
                    assert(now[i] == j as usize);
                }
            }
        }
    }

    /// Replaces the basis by another one.
    pub fn load(&mut self, basis: &[usize], pivots_since_refactor: usize)
        requires
            old(self).wf(),
            basis.len() == old(self).m,
            distinct(basis@),
            forall|i: int|
                0 <= i < basis.len() ==> (#[trigger] basis@[i]) < old(self).n + old(self).m,
        ensures
            final(self).wf(),
            final(self).m == old(self).m,
            final(self).n == old(self).n,
            final(self).basis@ == basis@,
            final(self).pivots_since_refactor == pivots_since_refactor,
    {
        let total: usize = self.n + self.m;
        let mut flags: Vec<bool> = Vec::new();
        while flags.len() < total
            invariant
                flags.len() <= total,
                forall|j: int| 0 <= j < flags.len() ==> !(#[trigger] flags@[j]),
            decreases total - flags.len(),
        {
            flags.push(false);
        }
        let mut i: usize = 0;
        while i < basis.len()
            invariant
                i <= basis.len(),
                flags.len() == total,
                forall|k: int| 0 <= k < basis.len() ==> (#[trigger] basis@[k]) < total,
                forall|k: int| 0 <= k < i ==> flags@[(#[trigger] basis@[k]) as int],
                forall|j: int|
                    0 <= j < total && #[trigger] flags@[j] ==> exists|k: int|
                        0 <= k < i && #[trigger] basis@[k] == j,
            decreases basis.len() - i,
        {
            let ghost before = flags@;
            flags.set(basis[i], true);
            proof {
                assert forall|j: int| 0 <= j < total && #[trigger] flags@[j] implies exists|k: int|
                    0 <= k < i + 1 && #[trigger] basis@[k] == j by {
                    if j == basis@[i as int] {
                        assert(basis@[i as int] == j);
                    } else {
                        assert(before[j]);
                        let k = choose|k: int| 0 <= k < i && #[trigger] basis@[k] == j;
                        assert(basis@[k] == j);
                    }
                }
            }
            i = i + 1;
        }
        self.basis = copy_row(basis);
        self.is_basic = flags;
        self.pivots_since_refactor = pivots_since_refactor;
        proof {
            assert forall|j: int|
                0 <= j < self.is_basic.len()
                    && #[trigger] self.is_basic@[j] implies self.basis@.contains(j as usize) by {
                let k = choose|k: int| 0 <= k < basis.len() && #[trigger] basis@[k] == j;
                assert(self.basis@[k] == j as usize);
            }
        }
    }
}

// ---------------------------------------------------------------------------
// Pricing
// ---------------------------------------------------------------------------

/// Whether a column may enter: it is not basic and its reduced cost is
/// positive.
pub open spec fn may_enter(is_basic: Seq<bool>, reduced: Seq<Real>, j: int) -> bool {
    &&& 0 <= j < reduced.len()
    &&& !is_basic[j]
    &&& Real { bits: REDUCED_COST_BITS }.lt(reduced[j])
}

/// Whether no column may enter.
pub open spec fn none_may_enter(is_basic: Seq<bool>, reduced: Seq<Real>) -> bool {
    forall|j: int| !(#[trigger] may_enter(is_basic, reduced, j))
}

/// Whether `j` is the column that enters: the first that may under the rule
/// that cannot cycle, else the first of largest reduced cost.
pub open spec fn enters(is_basic: Seq<bool>, reduced: Seq<Real>, bland: bool, j: int) -> bool {
    &&& may_enter(is_basic, reduced, j)
    &&& forall|k: int| #[trigger]
        may_enter(is_basic, reduced, k) ==> if bland {
            j <= k
        } else {
            reduced[k].lt(reduced[j]) || (reduced[k].le(reduced[j]) && j <= k)
        }
}

/// Chooses the column that enters, if any may.
pub fn choose_entering(
    is_basic: &[bool],
    reduced: &[Real],
    bland: bool,
) -> (entering: Option<usize>)
    requires
        reduced.len() <= is_basic.len(),
    ensures
        match entering {
            Some(j) => enters(is_basic@, reduced@, bland, j as int),
            None => none_may_enter(is_basic@, reduced@),
        },
{
    let floor = Real { bits: REDUCED_COST_BITS };
    let mut entering: Option<usize> = None;
    let mut best = floor;
    let mut j: usize = 0;
    while j < reduced.len()
        invariant
            j <= reduced.len() <= is_basic.len(),
            floor == (Real { bits: REDUCED_COST_BITS }),
            !floor.nan(),
            !best.nan(),
            floor.le(best),
            match entering {
                Some(q) => {
                    &&& q < j
                    &&& !bland
                    &&& best == reduced@[q as int]
                    &&& may_enter(is_basic@, reduced@, q as int)
                    &&& forall|k: int| #[trigger]
                        may_enter(is_basic@, reduced@, k) && k < j ==> (reduced@[k].lt(best) || (
                        reduced@[k].le(best) && q <= k))
                },
                None => best == floor && forall|k: int| #[trigger]
                    may_enter(is_basic@, reduced@, k) ==> k >= j,
            },
        decreases reduced.len() - j,
    {
        if !is_basic[j] {
            let d = reduced[j];
            if bland {
                if floor.less(d) {
                    return Some(j);
                }
            } else if best.less(d) {
                best = d;
                entering = Some(j);
            }
        }
        j = j + 1;
    }
    entering
}

// ---------------------------------------------------------------------------
// The ratio test
// ---------------------------------------------------------------------------

/// What the arithmetic gave for one row of a ratio test.
#[derive(Clone, Copy, Debug, PartialEq, Eq, Structural)]
pub struct RatioRow {
    /// Basic value over the entry of the entering column.
    pub ratio: Real,
    /// The step so far, lowered by the degeneracy tolerance.
    pub lowered: Real,
    /// The ratio less the step so far.
    pub difference: Real,
}

/// Where a ratio test stands.
pub struct RatioState {
    /// Position that leaves, if any.
    pub leaving: Option<int>,
    /// Step so far.
    pub theta: Real,
    /// Whether an artificial column blocks at zero.
    pub blocked: bool,
}

/// Whether a basic artificial column blocks the step: in the second phase it
/// must not move at all.
pub open spec fn blocks(phase: Phase, column: usize, n: usize, alpha: Real) -> bool {
    phase == Phase::Two && column >= n && Real { bits: PIVOT_BITS }.lt(alpha.abs_spec())
}

/// Whether a row's ratio takes the place of the one so far: it is clearly
/// smaller, or about equal with a smaller column.
pub open spec fn improves(row: RatioRow, column: usize, current: usize) -> bool {
    ||| row.ratio.lt(row.lowered)
    ||| row.difference.abs_spec().le(Real { bits: DEGENERATE_BITS }) && column < current
}

/// The ratio test after the rows below `end`.
pub open spec fn ratio_state(
    rows: Seq<RatioRow>,
    phase: Phase,
    basis: Seq<usize>,
    n: usize,
    col: Seq<Real>,
    end: int,
) -> RatioState
    decreases end,
{
    if end <= 0 {
        RatioState { leaving: None, theta: Real::infinity_spec(), blocked: false }
    } else {
        let before = ratio_state(rows, phase, basis, n, col, end - 1);
        let i = end - 1;
        if before.blocked {
            before
        } else if blocks(phase, basis[i], n, col[i]) {
            RatioState { leaving: Some(i), theta: Real::zero_spec(), blocked: true }
        } else if (Real { bits: PIVOT_BITS }).lt(col[i]) && (before.leaving is None || improves(
            rows[i],
            basis[i],
            basis[before.leaving->Some_0],
        )) {
            RatioState { leaving: Some(i), theta: rows[i].ratio, blocked: false }
        } else {
            before
        }
    }
}

/// Whether row `i` was computed by the arithmetic as far as the test needs it.
pub open spec fn ratio_answered<T: LpArithmetic>(
    rows: Seq<RatioRow>,
    phase: Phase,
    basis: Seq<usize>,
    n: usize,
    col: Seq<Real>,
    xb: Seq<Real>,
    numbers: T,
    i: int,
) -> bool {
    let before = ratio_state(rows, phase, basis, n, col, i);
    !before.blocked && !blocks(phase, basis[i], n, col[i]) && (Real { bits: PIVOT_BITS }).lt(
        col[i],
    ) ==> {
        &&& numbers.divides(xb[i], col[i], rows[i].ratio)
        &&& before.leaving is Some ==> {
            &&& numbers.lowers(before.theta, rows[i].lowered)
            &&& numbers.subtracts(rows[i].ratio, before.theta, rows[i].difference)
        }
    }
}

/// Whether `out` is the position that leaves and the step, if any position
/// leaves.
pub open spec fn ratio_tested<T: LpArithmetic>(
    rows: Seq<RatioRow>,
    phase: Phase,
    basis: Seq<usize>,
    n: usize,
    col: Seq<Real>,
    xb: Seq<Real>,
    numbers: T,
    out: Option<(usize, Real)>,
) -> bool {
    let state = ratio_state(rows, phase, basis, n, col, basis.len() as int);
    &&& forall|i: int|
        0 <= i < basis.len() ==> #[trigger] ratio_answered(
            rows,
            phase,
            basis,
            n,
            col,
            xb,
            numbers,
            i,
        )
    &&& out == (match state.leaving {
        Some(i) => Some((i as usize, state.theta)),
        None => None,
    })
}

proof fn blocked_stays(
    rows: Seq<RatioRow>,
    phase: Phase,
    basis: Seq<usize>,
    n: usize,
    col: Seq<Real>,
    from: int,
    end: int,
)
    requires
        0 <= from <= end,
        ratio_state(rows, phase, basis, n, col, from).blocked,
    ensures
        ratio_state(rows, phase, basis, n, col, end) == ratio_state(
            rows,
            phase,
            basis,
            n,
            col,
            from,
        ),
    decreases end - from,
{
    if from < end {
        blocked_stays(rows, phase, basis, n, col, from, end - 1);
    }
}

proof fn state_ignores_later_rows(
    rows: Seq<RatioRow>,
    more: Seq<RatioRow>,
    phase: Phase,
    basis: Seq<usize>,
    n: usize,
    col: Seq<Real>,
    end: int,
)
    requires
        end <= rows.len() <= more.len(),
        forall|i: int| 0 <= i < rows.len() ==> rows[i] == more[i],
    ensures
        ratio_state(rows, phase, basis, n, col, end) == ratio_state(
            more,
            phase,
            basis,
            n,
            col,
            end,
        ),
    decreases end,
{
    if end > 0 {
        state_ignores_later_rows(rows, more, phase, basis, n, col, end - 1);
    }
}

/// Chooses the position that leaves and the step that is taken.
pub fn choose_leaving<T: LpArithmetic>(
    phase: Phase,
    basis: &[usize],
    n: usize,
    col: &[Real],
    xb: &[Real],
    numbers: &T,
) -> (out: Option<(usize, Real)>)
    requires
        col.len() == basis.len(),
        xb.len() == basis.len(),
        numbers.ready(),
    ensures
        out matches Some((r, _)) ==> r < basis.len(),
        exists|rows: Seq<RatioRow>| #[trigger]
            ratio_tested(
                rows,
                phase,
                basis@,
                n,
                col@,
                xb@,
                *numbers,
                out,
            ),
{
    let ghost blank = RatioRow {
        ratio: Real::zero_spec(),
        lowered: Real::zero_spec(),
        difference: Real::zero_spec(),
    };
    let ghost mut rows: Seq<RatioRow> = Seq::empty();
    let floor = Real { bits: PIVOT_BITS };
    let mut leaving: Option<usize> = None;
    let mut theta = Real::infinity();
    let mut i: usize = 0;
    while i < basis.len()
        invariant
            i <= basis.len(),
            col.len() == basis.len(),
            xb.len() == basis.len(),
            floor == (Real { bits: PIVOT_BITS }),
            rows.len() == i,
            blank == (RatioRow {
                ratio: Real::zero_spec(),
                lowered: Real::zero_spec(),
                difference: Real::zero_spec(),
            }),
            leaving is Some ==> leaving->Some_0 < i,
            ratio_state(rows, phase, basis@, n, col@, i as int) == (RatioState {
                leaving: match leaving {
                    Some(r) => Some(r as int),
                    None => None,
                },
                theta,
                blocked: false,
            }),
            forall|k: int|
                0 <= k < i ==> #[trigger] ratio_answered(
                    rows,
                    phase,
                    basis@,
                    n,
                    col@,
                    xb@,
                    *numbers,
                    k,
                ),
            numbers.ready(),
        decreases basis.len() - i,
    {
        let alpha = col[i];
        let ghost mut row = blank;
        let ghost before = ratio_state(rows, phase, basis@, n, col@, i as int);
        let mut chosen = false;
        let mut step = theta;
        let mut stop = false;
        if phase == Phase::Two && basis[i] >= n && floor.less(alpha.abs()) {
            stop = true;
        } else if floor.less(alpha) {
            let ratio = numbers.divide(xb[i], alpha);
            proof {
                row.ratio = ratio;
            }
            step = ratio;
            chosen = match leaving {
                None => true,
                Some(r) => {
                    let lowered = numbers.lower(theta);
                    let difference = numbers.subtract(ratio, theta);
                    proof {
                        row.lowered = lowered;
                        row.difference = difference;
                    }
                    ratio.less(lowered) || (difference.abs().at_most(
                        Real { bits: DEGENERATE_BITS },
                    ) && basis[i] < basis[r])
                },
            };
        }
        let ghost longer = rows.push(row);
        proof {
            assert forall|k: int| 0 <= k <= i implies #[trigger] ratio_answered(
                longer,
                phase,
                basis@,
                n,
                col@,
                xb@,
                *numbers,
                k,
            ) by {
                state_ignores_later_rows(rows, longer, phase, basis@, n, col@, k);
                if k < i {
                    assert(ratio_answered(
                        rows,
                        phase,
                        basis@,
                        n,
                        col@,
                        xb@,
                        *numbers,
                        k,
                    ));
                    assert(longer[k] == rows[k]);
                } else {
                    assert(longer[k] == row);
                }
            }
            state_ignores_later_rows(rows, longer, phase, basis@, n, col@, i as int);
            assert(longer[i as int] == row);
        }
        if stop {
            proof {
                let len = basis.len() as int;
                assert(ratio_state(longer, phase, basis@, n, col@, i + 1).blocked);
                assert forall|k: int| 0 <= k < len implies #[trigger] ratio_answered(
                    longer,
                    phase,
                    basis@,
                    n,
                    col@,
                    xb@,
                    *numbers,
                    k,
                ) by {
                    if k > i {
                        blocked_stays(longer, phase, basis@, n, col@, i + 1, k);
                    }
                }
                blocked_stays(longer, phase, basis@, n, col@, i + 1, len);
                assert(ratio_tested(
                    longer,
                    phase,
                    basis@,
                    n,
                    col@,
                    xb@,
                    *numbers,
                    Some((i, Real::zero_spec())),
                ));
            }
            return Some((i, Real::zero()));
        }
        proof {
            rows = longer;
        }
        if chosen {
            theta = step;
            leaving = Some(i);
        }
        i = i + 1;
    }
    let out = match leaving {
        Some(r) => Some((r, theta)),
        None => None,
    };
    assert(ratio_tested(
        rows,
        phase,
        basis@,
        n,
        col@,
        xb@,
        *numbers,
        out,
    ));
    out
}

// ---------------------------------------------------------------------------
// The iteration
// ---------------------------------------------------------------------------

/// The numbers of a basis.
#[derive(Debug, PartialEq, Eq)]
pub struct BasisNumbers {
    /// Inverse of the basis.
    pub binv: Vec<Vec<Real>>,
    /// Basic values.
    pub xb: Vec<Real>,
    /// Duals.
    pub y: Vec<Real>,
}

/// Whether each column is in a basis.
pub open spec fn flags_of(basis: Seq<usize>, total: int) -> Seq<bool> {
    Seq::new(total as nat, |j: int| basis.contains(j as usize))
}

/// Where an iteration stands.
pub struct IterationState {
    /// Column at each position.
    pub basis: Seq<usize>,
    /// Pivots since the basis was last factorised.
    pub since: int,
    /// Steps without progress in a row.
    pub streak: int,
    /// Whether the first improving column enters.
    pub bland: bool,
    /// Whether the duals have to be rebuilt.
    pub stale: bool,
    /// Numbers of the basis.
    pub numbers: BasisNumbers,
}

/// What one pivot rested on.
pub struct PivotStep {
    /// The basis.
    pub basis: Vec<usize>,
    /// Duals.
    pub y: Vec<Real>,
    /// Reduced costs.
    pub reduced: Vec<Real>,
    /// Column that enters.
    pub entering: usize,
    /// That column in terms of the basis.
    pub col: Vec<Real>,
    /// Rows of the ratio test.
    pub rows: Seq<RatioRow>,
    /// Position that leaves.
    pub leaving: usize,
    /// Step.
    pub theta: Real,
    /// The basis after the pivot.
    pub moved: Vec<usize>,
    /// Numbers after the pivot.
    pub stepped: BasisNumbers,
    /// Inverse and basic values of the basis, where it was factorised.
    pub factored: Option<(Vec<Vec<Real>>, Vec<Real>)>,
}

impl PivotStep {
    /// The state after the pivot.
    pub open spec fn next(self, before: IterationState) -> IterationState {
        let idle = self.theta.le(Real { bits: DEGENERATE_BITS });
        let streak = if idle {
            before.streak + 1
        } else {
            0
        };
        let due = before.since + 1 >= REFACTOR_EVERY;
        IterationState {
            basis: before.basis.update(self.leaving as int, self.entering),
            since: if due && self.factored is Some {
                0
            } else {
                before.since + 1
            },
            streak,
            bland: before.bland || streak >= BLAND_AFTER_DEGENERATE,
            stale: due,
            numbers: if due && self.factored is Some {
                BasisNumbers {
                    binv: self.factored->Some_0.0,
                    xb: self.factored->Some_0.1,
                    y: self.stepped.y,
                }
            } else {
                self.stepped
            },
        }
    }

    /// Whether the reduced costs and the entering column are right.
    pub open spec fn priced<T: LpArithmetic>(
        self,
        before: IterationState,
        phase: Phase,
        cost: Vec<Real>,
        m: int,
        n: usize,
        program: LinearProgram,
        numbers: T,
    ) -> bool {
        &&& self.basis@ == before.basis
        &&& program.prices(
            numbers,
            phase,
            self.basis@,
            before.stale,
            before.numbers,
            cost@,
            self.y,
            self.reduced@,
        )
        &&& enters(
            flags_of(before.basis, n + m),
            self.reduced@,
            before.bland,
            self.entering as int,
        )
        &&& program.turns(numbers, self.entering as int, before.numbers.binv@, self.col@)
    }

    /// Whether the pivot is one that the method makes.
    pub open spec fn made<T: LpArithmetic>(
        self,
        before: IterationState,
        phase: Phase,
        cost: Vec<Real>,
        m: int,
        n: usize,
        program: LinearProgram,
        numbers: T,
    ) -> bool {
        &&& self.priced(before, phase, cost, m, n, program, numbers)
        &&& ratio_tested(
            self.rows,
            phase,
            before.basis,
            n,
            self.col@,
            before.numbers.xb@,
            numbers,
            Some((self.leaving, self.theta)),
        )
        &&& linear_program::steps(
            numbers,
            (BasisNumbers { y: self.y, ..before.numbers }),
            self.col@,
            self.leaving as int,
            self.theta,
            self.reduced@[self.entering as int],
            self.stepped,
        )
        &&& self.moved@ == self.next(before).basis
        &&& before.since + 1 >= REFACTOR_EVERY ==> program.factors(
            numbers,
            self.moved@,
            self.factored,
        )
    }
}

/// The state after a run of pivots.
pub open spec fn state_after(trace: Seq<PivotStep>, start: IterationState) -> IterationState
    decreases trace.len(),
{
    if trace.len() == 0 {
        start
    } else {
        trace.last().next(state_after(trace.drop_last(), start))
    }
}

/// Whether a pivot ended the iteration because the basis is singular.
pub open spec fn breaks_down(step: PivotStep, before: IterationState) -> bool {
    before.since + 1 >= REFACTOR_EVERY && step.factored is None
}

/// Whether `trace` is a run of pivots that the method makes, of which none but
/// the last breaks down.
pub open spec fn pivots_made<T: LpArithmetic>(
    trace: Seq<PivotStep>,
    start: IterationState,
    phase: Phase,
    cost: Vec<Real>,
    m: int,
    n: usize,
    program: LinearProgram,
    numbers: T,
) -> bool {
    &&& forall|k: int|
        0 <= k < trace.len() ==> (#[trigger] trace[k]).made(
            state_after(trace.take(k), start),
            phase,
            cost,
            m,
            n,
            program,
            numbers,
        )
    &&& forall|k: int|
        0 <= k < trace.len() - 1 ==> !breaks_down(
            #[trigger] trace[k],
            state_after(trace.take(k), start),
        )
}

/// Largest number of pivots of an iteration.
pub open spec fn pivot_limit(m: int, n: int) -> int {
    100 * (m + n) + 1_000
}

/// Whether the iteration may end like this: no column may enter, nothing limits
/// the step, the basis is singular, or the pivots ran out.
pub open spec fn iteration_ends<T: LpArithmetic>(
    trace: Seq<PivotStep>,
    end: PivotStep,
    start: IterationState,
    phase: Phase,
    cost: Vec<Real>,
    m: int,
    n: usize,
    program: LinearProgram,
    numbers: T,
    outcome: Result<(), LpError>,
) -> bool {
    let state = state_after(trace, start);
    &&& pivots_made(trace, start, phase, cost, m, n, program, numbers)
    &&& trace.len() <= pivot_limit(m, n as int)
    &&& outcome != Err::<(), LpError>(LpError::Singular) ==> trace.len() == 0 || !breaks_down(
        trace.last(),
        state_after(trace.drop_last(), start),
    )
    &&& match outcome {
        Ok(()) => {
            &&& trace.len() < pivot_limit(m, n as int)
            &&& end.basis@ == state.basis
            &&& program.prices(
                numbers,
                phase,
                end.basis@,
                state.stale,
                state.numbers,
                cost@,
                end.y,
                end.reduced@,
            )
            &&& none_may_enter(flags_of(state.basis, n + m), end.reduced@)
        },
        Err(LpError::Unbounded) => {
            &&& trace.len() < pivot_limit(m, n as int)
            &&& end.priced(state, phase, cost, m, n, program, numbers)
            &&& ratio_tested(
                end.rows,
                phase,
                state.basis,
                n,
                end.col@,
                state.numbers.xb@,
                numbers,
                None,
            )
        },
        Err(LpError::Singular) => trace.len() > 0 && breaks_down(
            trace.last(),
            state_after(trace.drop_last(), start),
        ),
        Err(LpError::IterationLimit) => trace.len() == pivot_limit(m, n as int),
        Err(LpError::Infeasible) => false,
    }
}

/// An iteration that succeeds ends at prices at which no column outside the
/// basis improves the objective by more than the tolerance.
pub proof fn optimum_has_no_improving_column<T: LpArithmetic>(
    trace: Seq<PivotStep>,
    end: PivotStep,
    start: IterationState,
    phase: Phase,
    cost: Vec<Real>,
    m: int,
    n: usize,
    program: LinearProgram,
    numbers: T,
    j: usize,
)
    requires
        iteration_ends(trace, end, start, phase, cost, m, n, program, numbers, Ok(())),
        0 <= m,
        j < n,
        j < end.reduced.len(),
        !state_after(trace, start).basis.contains(j),
    ensures
        !(Real { bits: REDUCED_COST_BITS }).lt(end.reduced@[j as int]),
{
    let flags = flags_of(state_after(trace, start).basis, n + m);
    assert(!flags[j as int]);
    assert(!may_enter(flags, end.reduced@, j as int));
}

/// Whether the numbers of a basis have one row and one value per row.
pub open spec fn sized(numbers: BasisNumbers, m: int) -> bool {
    &&& numbers.binv.len() == m
    &&& matrix::has_cols(numbers.binv@, m)
    &&& numbers.xb.len() == m
}

proof fn marks_are_flags(flags: Seq<bool>, basis: Seq<usize>)
    requires
        marks(flags, basis),
        forall|i: int| 0 <= i < basis.len() ==> (#[trigger] basis[i]) < flags.len(),
        flags.len() <= usize::MAX,
    ensures
        flags =~= flags_of(basis, flags.len() as int),
{
    assert forall|j: int| 0 <= j < flags.len() implies #[trigger] flags[j] == basis.contains(
        j as usize,
    ) by {
        if basis.contains(j as usize) {
            let i = choose|i: int| 0 <= i < basis.len() && basis[i] == j as usize;
            assert(flags[basis[i] as int]);
        }
    }
}

/// The numbers with which an iteration ends: where it ended at prices, the
/// duals are those of the prices.
pub open spec fn numbers_at(
    numbers: BasisNumbers,
    end: PivotStep,
    outcome: Result<(), LpError>,
) -> BasisNumbers {
    match outcome {
        Ok(()) => BasisNumbers { y: end.y, ..numbers },
        Err(LpError::Unbounded) => BasisNumbers { y: end.y, ..numbers },
        _ => numbers,
    }
}

impl SimplexBasis {
    /// The state in which an iteration starts.
    pub open spec fn start_state(self, numbers: BasisNumbers) -> IterationState {
        IterationState {
            basis: self.basis@,
            since: self.pivots_since_refactor as int,
            streak: 0,
            bland: false,
            stale: true,
            numbers,
        }
    }

    /// Pivots until no column may enter, nothing limits the step, the basis is
    /// singular, or the pivots run out.
    pub fn iterate<T: LpArithmetic>(
        &mut self,
        phase: Phase,
        cost: &Vec<Real>,
        state: &mut BasisNumbers,
        program: &LinearProgram,
        numbers: &T,
    ) -> (outcome: Result<(), LpError>)
        requires
            old(self).wf(),
            old(self).pivots_since_refactor < usize::MAX,
            sized(*old(state), old(self).m as int),
            cost.len() == old(self).n,
            program.wf(),
            program.rows() == old(self).m,
            program.count() == old(self).n,
            pivot_limit(old(self).m as int, old(self).n as int) <= usize::MAX,
            numbers.ready(),
        ensures
            final(self).wf(),
            final(self).m == old(self).m,
            final(self).n == old(self).n,
            final(self).pivots_since_refactor <= old(self).pivots_since_refactor
                || final(self).pivots_since_refactor <= REFACTOR_EVERY
                || final(self).pivots_since_refactor == old(self).pivots_since_refactor + 1,
            sized(*final(state), old(self).m as int),
            outcome is Ok ==> final(state).y.len() == old(self).m,
            exists|trace: Seq<PivotStep>, end: PivotStep| #[trigger]
                iteration_ends(
                    trace,
                    end,
                    old(self).start_state(*old(state)),
                    phase,
                    *cost,
                    old(self).m as int,
                    old(self).n,
                    *program,
                    *numbers,
                    outcome,
                ) && final(self).basis@ == state_after(trace, old(self).start_state(*old(state))).basis
                    && final(self).pivots_since_refactor == state_after(
                    trace,
                    old(self).start_state(*old(state)),
                ).since && *final(state) == numbers_at(
                    state_after(trace, old(self).start_state(*old(state))).numbers,
                    end,
                    outcome,
                ),
    {
        let ghost start = self.start_state(*state);
        let ghost mut trace: Seq<PivotStep> = Seq::empty();
        let ghost nowhere: PivotStep = arbitrary();
        let m: usize = self.m;
        let n: usize = self.n;
        let limit: usize = 100 * (m + n) + 1_000;
        let mut streak: usize = 0;
        let mut bland = false;
        let mut stale = true;
        let mut taken: usize = 0;
        while taken < limit
            invariant
                taken <= limit,
                limit == pivot_limit(m as int, n as int),
                self.wf(),
                self.m == m,
                self.n == n,
                m == old(self).m,
                n == old(self).n,
                start == old(self).start_state(*old(state)),
                numbers.ready(),
                program.wf(),
                program.rows() == m,
                program.count() == n,
                cost.len() == n,
                self.pivots_since_refactor < usize::MAX,
                self.pivots_since_refactor <= old(self).pivots_since_refactor
                    || self.pivots_since_refactor < REFACTOR_EVERY,
                old(self).pivots_since_refactor < usize::MAX,
                sized(*state, m as int),
                !stale ==> state.y.len() == m,
                streak <= taken,
                trace.len() == taken,
                pivots_made(trace, start, phase, *cost, m as int, n, *program, *numbers),
                trace.len() > 0 ==> !breaks_down(
                    trace.last(),
                    state_after(trace.drop_last(), start),
                ),
                state_after(trace, start) == (IterationState {
                    basis: self.basis@,
                    since: self.pivots_since_refactor as int,
                    streak: streak as int,
                    bland,
                    stale,
                    numbers: *state,
                }),
            decreases limit - taken,
        {
            let ghost before = state_after(trace, start);
            let ghost mut step: PivotStep = nowhere;
            proof {
                marks_are_flags(self.is_basic@, self.basis@);
            }
            let (y, reduced) = program.price(phase, self.basis.as_slice(), stale, state, cost, numbers);
            let entering = choose_entering(self.is_basic.as_slice(), reduced.as_slice(), bland);
            proof {
                step.basis = self.basis;
                step.y = y;
                step.reduced = reduced;
            }
            let ghost was = *state;
            state.y = y;
            let q: usize = match entering {
                None => {
                    assert(iteration_ends(
                        trace,
                        step,
                        start,
                        phase,
                        *cost,
                        m as int,
                        n,
                        *program,
                        *numbers,
                        Ok(()),
                    ));
                    return Ok(());
                },
                Some(q) => q,
            };
            let col = program.column(q, &state.binv, numbers);
            let left = choose_leaving(
                phase,
                self.basis.as_slice(),
                n,
                col.as_slice(),
                state.xb.as_slice(),
                numbers,
            );
            proof {
                step.entering = q;
                step.col = col;
                step.rows = choose|rows: Seq<RatioRow>| #[trigger]
                    ratio_tested(
                        rows,
                        phase,
                        self.basis@,
                        n,
                        col@,
                        was.xb@,
                        *numbers,
                        left,
                    );
                assert(step.priced(before, phase, *cost, m as int, n, *program, *numbers));
            }
            let (r, theta) = match left {
                None => {
                    assert(iteration_ends(
                        trace,
                        step,
                        start,
                        phase,
                        *cost,
                        m as int,
                        n,
                        *program,
                        *numbers,
                        Err(LpError::Unbounded),
                    ));
                    return Err(LpError::Unbounded);
                },
                Some(pair) => pair,
            };
            if theta.at_most(Real { bits: DEGENERATE_BITS }) {
                streak = streak + 1;
                if streak >= BLAND_AFTER_DEGENERATE {
                    bland = true;
                }
            } else {
                streak = 0;
            }
            let stepped = step_numbers(state, &col, r, theta, reduced[q], numbers);
            *state = stepped;
            self.pivot(r, q);
            stale = false;
            let mut singular = false;
            let ghost mut factored: Option<(Vec<Vec<Real>>, Vec<Real>)> = None;
            if self.pivots_since_refactor >= REFACTOR_EVERY {
                let found = program.refactor(&self.basis, numbers);
                proof {
                    factored = found;
                }
                stale = true;
                match found {
                    Some((binv, xb)) => {
                        state.binv = binv;
                        state.xb = xb;
                        self.pivots_since_refactor = 0;
                    },
                    None => {
                        singular = true;
                    },
                }
            }
            proof {
                step.leaving = r;
                step.theta = theta;
                step.moved = self.basis;
                step.stepped = stepped;
                step.factored = factored;
                assert(step.priced(before, phase, *cost, m as int, n, *program, *numbers));
                assert(step.made(before, phase, *cost, m as int, n, *program, *numbers));
                let longer = trace.push(step);
                assert(longer.drop_last() =~= trace);
                assert forall|k: int| 0 <= k < longer.len() implies (#[trigger] longer[k]).made(
                    state_after(longer.take(k), start),
                    phase,
                    *cost,
                    m as int,
                    n,
                    *program,
                    *numbers,
                ) by {
                    assert(longer.take(k) =~= trace.take(k));
                    if k == trace.len() {
                        assert(trace.take(k) =~= trace);
                    } else {
                        assert(longer[k] == trace[k]);
                    }
                }
                assert forall|k: int| 0 <= k < longer.len() - 1 implies !breaks_down(
                    #[trigger] longer[k],
                    state_after(longer.take(k), start),
                ) by {
                    assert(longer.take(k) =~= trace.take(k));
                    assert(longer[k] == trace[k]);
                    if k == trace.len() - 1 {
                        assert(trace.take(k) =~= trace.drop_last());
                    }
                }
                trace = longer;
            }
            if singular {
                assert(iteration_ends(
                    trace,
                    step,
                    start,
                    phase,
                    *cost,
                    m as int,
                    n,
                    *program,
                    *numbers,
                    Err(LpError::Singular),
                ));
                return Err(LpError::Singular);
            }
            taken = taken + 1;
        }
        assert(iteration_ends(
            trace,
            nowhere,
            start,
            phase,
            *cost,
            m as int,
            n,
            *program,
            *numbers,
            Err(LpError::IterationLimit),
        ));
        Err(LpError::IterationLimit)
    }
}

} // verus!
