//! The two programs behind the conditional test.

use crate::cone::ConeProgram;
use crate::conic;
use crate::conic::dual_max_program;
use crate::dense_simplex::{DenseSimplex, LpOptimum, SimplexState, SolveRun};
use crate::errors::HonestError;
use crate::lp_arithmetic::LpArithmetic;
use crate::matrix;
use crate::matrix::{copy_matrix, copy_row, filled_row};
use crate::number::Real;
use crate::pricing;
use crate::pricing::basis_objective;
use crate::simplex;
use crate::simplex::{LpError, REFACTOR_EVERY};
use crate::theta_test::EPSILON_BITS;
use vstd::prelude::*;

verus! {

/// Bases that a program remembers.
pub const BASIS_MEMORY: usize = 32;

/// Pieces that a dual program remembers for one family of costs.
pub const DUAL_PIECES: usize = 64;

// ---------------------------------------------------------------------------
// The moment program
// ---------------------------------------------------------------------------

/// The largest standard deviation below `end`, from zero.
pub open spec fn largest_sd(sd: Seq<Real>, end: int) -> Real
    decreases end,
{
    if end <= 0 {
        Real::zero_spec()
    } else {
        largest_sd(sd, end - 1).max_spec(sd[end - 1])
    }
}

/// The scale of a moment program: its largest standard deviation, but no less
/// than one.
pub open spec fn scale_of(sd: Seq<Real>) -> Real {
    largest_sd(sd, sd.len() as int).max_spec(Real::one_spec())
}

/// The scale of a moment program.
pub fn program_scale(sd: &[Real]) -> (scale: Real)
    ensures
        scale == scale_of(sd@),
{
    let mut largest = Real::zero();
    let mut i: usize = 0;
    while i < sd.len()
        invariant
            i <= sd.len(),
            largest == largest_sd(sd@, i as int),
        decreases sd.len() - i,
    {
        largest = largest.max(sd[i]);
        i = i + 1;
    }
    largest.max(Real::one())
}

/// Columns of a moment program: the scaled standard deviation of each row and
/// its scaled design.
pub open spec fn moment_columns<T: LpArithmetic>(
    columns: Seq<Vec<Real>>,
    x_matrix: Seq<Vec<Real>>,
    sd: Seq<Real>,
    scale: Real,
    numbers: T,
) -> bool {
    &&& columns.len() == x_matrix.len()
    &&& forall|i: int|
        0 <= i < columns.len() ==> (#[trigger] columns[i])@.len() == x_matrix[i]@.len() + 1
    &&& forall|i: int, j: int|
        0 <= i < columns.len() && 0 <= j < columns[i]@.len() ==> numbers.divides(
            if j == 0 {
                sd[i]
            } else {
                x_matrix[i]@[j - 1]
            },
            scale,
            #[trigger] columns[i]@[j],
        )
}

/// A moment program, ready to be solved: its scale, its columns and the
/// right-hand side, a one followed by zeros.
#[derive(Debug, PartialEq, Eq)]
pub struct MomentProgram {
    /// Width of the design.
    pub k: usize,
    /// Scale of the program.
    pub scale: Real,
    /// Columns.
    pub columns: Vec<Vec<Real>>,
    /// Right-hand side.
    pub rhs: Vec<Real>,
}

/// A one followed by zeros.
pub open spec fn first_unit(len: int) -> Seq<Real> {
    Seq::new(
        len as nat,
        |i: int|
            if i == 0 {
                Real::one_spec()
            } else {
                Real::zero_spec()
            },
    )
}

fn unit_vector(len: usize) -> (unit: Vec<Real>)
    ensures
        unit@ == first_unit(len as int),
{
    let mut unit = filled_row(len, Real::zero());
    if len > 0 {
        unit.set(0, Real::one());
    }
    proof {
        assert(unit@ =~= first_unit(len as int));
    }
    unit
}

/// Whether `made` is the moment program of a design and standard deviations.
pub open spec fn moment_program_of<T: LpArithmetic>(
    x_matrix: Seq<Vec<Real>>,
    sd: Seq<Real>,
    numbers: T,
    made: Result<MomentProgram, HonestError>,
) -> bool {
    if sd.len() != x_matrix.len() {
        made == Err::<MomentProgram, HonestError>(
            HonestError::VarianceCount {
                rows: x_matrix.len() as usize,
                variances: sd.len() as usize,
            },
        )
    } else {
        &&& made is Ok
        &&& made->Ok_0.k == matrix::first_width(x_matrix)
        &&& made->Ok_0.scale == scale_of(sd)
        &&& moment_columns(made->Ok_0.columns@, x_matrix, sd, scale_of(sd), numbers)
        &&& made->Ok_0.rhs@ == first_unit(matrix::first_width(x_matrix) + 1)
    }
}

/// Sets up the moment program of a design and standard deviations.
pub fn build_moment_program<T: LpArithmetic>(
    x_matrix: &[Vec<Real>],
    sd: &[Real],
    numbers: &T,
) -> (made: Result<MomentProgram, HonestError>)
    requires
        matrix::first_width(x_matrix@) < usize::MAX,
        numbers.ready(),
    ensures
        moment_program_of(x_matrix@, sd@, *numbers, made),
{
    if sd.len() != x_matrix.len() {
        return Err(
            HonestError::VarianceCount { rows: x_matrix.len(), variances: sd.len() },
        );
    }
    let scale = program_scale(sd);
    let k: usize = if x_matrix.len() == 0 {
        0
    } else {
        x_matrix[0].len()
    };
    let mut columns: Vec<Vec<Real>> = Vec::new();
    while columns.len() < x_matrix.len()
        invariant
            columns.len() <= x_matrix.len(),
            sd.len() == x_matrix.len(),
            numbers.ready(),
            forall|i: int|
                0 <= i < columns.len() ==> (#[trigger] columns@[i])@.len() == x_matrix@[i]@.len()
                    + 1,
            forall|i: int, j: int|
                0 <= i < columns.len() && 0 <= j < columns@[i]@.len() ==> numbers.divides(
                    if j == 0 {
                        sd@[i]
                    } else {
                        x_matrix@[i]@[j - 1]
                    },
                    scale,
                    #[trigger] columns@[i]@[j],
                ),
        decreases x_matrix.len() - columns.len(),
    {
        let i: usize = columns.len();
        let mut column: Vec<Real> = Vec::new();
        column.push(numbers.divide(sd[i], scale));
        let mut j: usize = 0;
        while j < x_matrix[i].len()
            invariant
                i < x_matrix.len(),
                j <= x_matrix@[i as int]@.len(),
                column.len() == j + 1,
                numbers.ready(),
                forall|c: int|
                    0 <= c < column.len() ==> numbers.divides(
                        if c == 0 {
                            sd@[i as int]
                        } else {
                            x_matrix@[i as int]@[c - 1]
                        },
                        scale,
                        #[trigger] column@[c],
                    ),
            decreases x_matrix@[i as int]@.len() - j,
        {
            column.push(numbers.divide(x_matrix[i][j], scale));
            j = j + 1;
        }
        columns.push(column);
    }
    Ok(MomentProgram { k, scale, columns, rhs: unit_vector(k + 1) })
}

/// Checks the length of a right-hand side against the rows of the program.
pub fn check_moment_rhs(rows: usize, found: usize) -> (checked: Result<(), HonestError>)
    ensures
        checked == (if rows != found {
            Err(HonestError::RhsLength { expected: rows, found })
        } else {
            Ok(())
        }),
{
    if rows != found {
        Err(HonestError::RhsLength { expected: rows, found })
    } else {
        Ok(())
    }
}

/// The error of a moment program that was not solved.
pub fn moment_program_error(error: LpError) -> (failure: HonestError)
    ensures
        failure == (HonestError::ProgramFailed { status: error.label_spec() }),
{
    HonestError::ProgramFailed { status: error.label() }
}

// ---------------------------------------------------------------------------
// The dual program
// ---------------------------------------------------------------------------

/// A basis of the dual program with the interval on which it is optimal.
#[derive(Debug, PartialEq, Eq)]
pub struct Piece {
    /// Lower end of the interval.
    pub lo: Real,
    /// Upper end of the interval.
    pub hi: Real,
    /// Column at each position.
    pub basis: Vec<usize>,
    /// Basic values.
    pub xb: Vec<Real>,
}

impl Piece {
    /// Whether there is a value for each position.
    pub open spec fn fits(self) -> bool {
        self.xb.len() == self.basis.len()
    }

    /// Whether the interval holds a value.
    pub open spec fn spans(self, c: Real) -> bool {
        self.lo.le(c) && c.le(self.hi)
    }

    fn is_over(&self, c: Real) -> (r: bool)
        ensures
            r == self.spans(c),
    {
        self.lo.at_most(c) && c.at_most(self.hi)
    }
}

/// The pieces of one family of dual programs, whose costs are `f0 + c f1`.
#[derive(Debug, PartialEq, Eq)]
pub struct DualPieces {
    /// Constant part of the costs.
    pub f0: Vec<Real>,
    /// Part of the costs that `c` scales.
    pub f1: Vec<Real>,
    /// Whether there is a family.
    pub has_family: bool,
    /// Its pieces.
    pub pieces: Vec<Piece>,
    /// Place of the piece that is replaced next.
    pub next: usize,
}

/// Whether two vectors hold equal numbers.
pub open spec fn equal_values(left: Seq<Real>, right: Seq<Real>) -> bool {
    &&& left.len() == right.len()
    &&& forall|i: int| 0 <= i < left.len() ==> (#[trigger] left[i]).same_value(right[i])
}

fn are_equal_values(left: &[Real], right: &[Real]) -> (r: bool)
    ensures
        r == equal_values(left@, right@),
{
    if left.len() != right.len() {
        return false;
    }
    let mut i: usize = 0;
    while i < left.len()
        invariant
            i <= left.len(),
            left.len() == right.len(),
            forall|k: int| 0 <= k < i ==> (#[trigger] left@[k]).same_value(right@[k]),
        decreases left.len() - i,
    {
        if !left[i].equals(right[i]) {
            assert(!left@[i as int].same_value(right@[i as int]));
            return false;
        }
        i = i + 1;
    }
    true
}

/// The first piece from `from` on that spans a value.
pub open spec fn first_piece(pieces: Seq<Piece>, c: Real, from: int) -> Option<int>
    decreases pieces.len() - from,
{
    if from >= pieces.len() {
        None
    } else if pieces[from].spans(c) {
        Some(from)
    } else {
        first_piece(pieces, c, from + 1)
    }
}

impl DualPieces {
    /// The memory is not overfull, and every piece has a value for each
    /// position.
    pub open spec fn wf(self) -> bool {
        &&& self.pieces.len() <= DUAL_PIECES
        &&& self.next < DUAL_PIECES
        &&& forall|i: int| 0 <= i < self.pieces.len() ==> (#[trigger] self.pieces@[i]).fits()
    }

    /// Whether the pieces belong to a family of costs.
    pub open spec fn is_family(self, f0: Seq<Real>, f1: Seq<Real>) -> bool {
        self.has_family && equal_values(self.f0@, f0) && equal_values(self.f1@, f1)
    }

    /// The pieces that count for a family of costs.
    pub open spec fn known(self, f0: Seq<Real>, f1: Seq<Real>) -> Seq<Piece> {
        if self.is_family(f0, f1) {
            self.pieces@
        } else {
            Seq::empty()
        }
    }

    /// Where the next piece of a family goes once the memory is full.
    pub open spec fn turn(self, f0: Seq<Real>, f1: Seq<Real>) -> int {
        if self.is_family(f0, f1) {
            self.next as int
        } else {
            0
        }
    }

    /// A memory without a family.
    pub fn new() -> (made: Self)
        ensures
            made.wf(),
            !made.has_family,
            made.pieces@.len() == 0,
            made.next == 0,
    {
        DualPieces {
            f0: Vec::new(),
            f1: Vec::new(),
            has_family: false,
            pieces: Vec::new(),
            next: 0,
        }
    }
}

/// Whether `slopes` and `costs` are those of a dual program.
pub open spec fn costs_made<T: LpArithmetic>(
    slopes: Seq<Real>,
    costs: Seq<Real>,
    s_t: Seq<Real>,
    sigma_gamma: Seq<Real>,
    sigma_b2: Real,
    c: Real,
    numbers: T,
) -> bool {
    &&& slopes.len() == sigma_gamma.len()
    &&& forall|i: int|
        0 <= i < slopes.len() ==> numbers.divides(
            sigma_gamma[i],
            sigma_b2,
            #[trigger] slopes[i],
        )
    &&& costs.len() == s_t.len()
    &&& forall|i: int|
        0 <= i < costs.len() ==> numbers.prices(
            s_t[i],
            slopes[i],
            c,
            #[trigger] costs[i],
        )
}

/// What a dual program was answered from.
pub struct DualRun {
    /// Changes of the costs with `c`.
    pub slopes: Vec<Real>,
    /// Costs.
    pub costs: Vec<Real>,
    /// Objective of a known piece.
    pub value: Real,
    /// The program with the costs set.
    pub loaded: DenseSimplex,
    /// How solving it ended.
    pub solved: Result<(), LpError>,
    /// The piece that it left.
    pub piece: Piece,
    /// The program of the second attempt.
    pub program: ConeProgram,
    /// What that gave.
    pub fallback: Result<Real, String>,
}

/// The dual program of a design, solved for one family of costs after another.
#[derive(Debug, PartialEq, Eq)]
pub struct DualMaxLpWorkspace {
    /// The program.
    pub lp: DenseSimplex,
    /// Bases of the current family of costs.
    pub pieces: DualPieces,
}

impl DualRun {
    /// What a solve leads to.
    pub open spec fn solve_outcome(self, objective: Real) -> Result<Real, HonestError> {
        match self.solved {
            Ok(()) => Ok(objective),
            Err(LpError::Infeasible) => Err(HonestError::DualInfeasible),
            Err(LpError::Unbounded) => Err(HonestError::DualUnbounded),
            Err(status) => match self.fallback {
                Ok(value) => Ok(value),
                Err(message) => Err(
                    HonestError::DualFallback { status: status.label_spec(), message },
                ),
            },
        }
    }

    /// Whether a dual program was answered like this: by the objective at the
    /// first known piece that spans the value, else by a solve of the program for
    /// the costs, whose basis is remembered with the interval on which it stays
    /// optimal.
    pub open spec fn explains<T: LpArithmetic, K: Fn(&ConeProgram, &Vec<Real>) -> Result<
        Real,
        String,
    >>(
        self,
        before: DualMaxLpWorkspace,
        after: DualMaxLpWorkspace,
        s_t: Seq<Real>,
        sigma_gamma: Seq<Real>,
        sigma_b2: Real,
        c: Real,
        numbers: T,
        fallback: K,
        answer: Result<Real, HonestError>,
    ) -> bool {
        if sigma_b2.abs_spec().lt(Real { bits: EPSILON_BITS }) {
            &&& answer == Err::<Real, HonestError>(HonestError::ZeroDualVariance)
            &&& after == before
        } else {
            let known = before.pieces.known(s_t, self.slopes@);
            let turn = before.pieces.turn(s_t, self.slopes@);
            &&& costs_made(self.slopes@, self.costs@, s_t, sigma_gamma, sigma_b2, c, numbers)
            &&& after.pieces.is_family_of(before.pieces, s_t, self.slopes@)
            &&& match first_piece(known, c, 0) {
                Some(i) => {
                    &&& pricing::is_objective(
                        known[i].basis@,
                        known[i].xb@,
                        self.costs@,
                        true,
                        numbers,
                        self.value,
                    )
                    &&& answer == Ok::<Real, HonestError>(self.value)
                    &&& after.pieces.pieces@ == known
                    &&& after.pieces.next == before.pieces.next
                    &&& after.lp == before.lp
                },
                None => {
                    &&& self.loaded.program == before.lp.program
                    &&& self.loaded.objective == before.lp.objective
                    &&& self.loaded.lambda == before.lp.lambda
                    &&& self.loaded.state == (SimplexState {
                        cost: self.loaded.state.cost,
                        ..before.lp.state
                    })
                    &&& self.loaded.state.cost@ == self.costs@
                    &&& self.loaded.solves(after.lp, numbers, self.solved)
                    &&& (self.solved matches Err(status) && status != LpError::Infeasible && status
                        != LpError::Unbounded) ==> {
                        &&& conic::is_dual_max_program(
                            self.program,
                            before.lp.program.columns@,
                            self.costs@,
                            before.lp.program.rows(),
                        )
                        &&& call_ensures(fallback, (&self.program, &self.costs), self.fallback)
                    }
                    &&& answer == self.solve_outcome(after.lp.objective)
                    &&& match self.solved {
                        Ok(()) => {
                            &&& after.lp.is_optimal_for(
                                numbers,
                                after.pieces.f0@,
                                after.pieces.f1@,
                                (self.piece.lo, self.piece.hi),
                            )
                            &&& self.piece.basis@ == after.lp.state.basis.basis@
                            &&& self.piece.xb@ == after.lp.state.numbers.xb@
                            &&& if known.len() < DUAL_PIECES {
                                after.pieces.pieces@ == known.push(self.piece) && after.pieces.next
                                    == turn
                            } else {
                                &&& after.pieces.pieces@ == known.update(turn, self.piece)
                                &&& after.pieces.next == (turn + 1) % (DUAL_PIECES as int)
                            }
                        },
                        Err(_) => {
                            &&& after.pieces.pieces@ == known
                            &&& after.pieces.next == turn
                        },
                    }
                },
            }
        }
    }
}

/// The slopes and costs of a dual program.
fn make_costs<T: LpArithmetic>(
    s_t: &[Real],
    sigma_gamma: &[Real],
    sigma_b2: Real,
    c: Real,
    numbers: &T,
) -> (made: (Vec<Real>, Vec<Real>))
    requires
        s_t.len() == sigma_gamma.len(),
        numbers.ready(),
    ensures
        costs_made(made.0@, made.1@, s_t@, sigma_gamma@, sigma_b2, c, *numbers),
{
    let mut slopes: Vec<Real> = Vec::new();
    let mut costs: Vec<Real> = Vec::new();
    while costs.len() < s_t.len()
        invariant
            slopes.len() == costs.len() <= s_t.len(),
            s_t.len() == sigma_gamma.len(),
            numbers.ready(),
            forall|i: int|
                0 <= i < slopes.len() ==> numbers.divides(
                    sigma_gamma@[i],
                    sigma_b2,
                    #[trigger] slopes@[i],
                ),
            forall|i: int|
                0 <= i < costs.len() ==> numbers.prices(
                    s_t@[i],
                    slopes@[i],
                    c,
                    #[trigger] costs@[i],
                ),
        decreases s_t.len() - costs.len(),
    {
        let i: usize = costs.len();
        let slope = numbers.divide(sigma_gamma[i], sigma_b2);
        let cost = numbers.cost(s_t[i], slope, c);
        slopes.push(slope);
        costs.push(cost);
    }
    (slopes, costs)
}

impl DualPieces {
    /// Whether the costs are those of the family before where it is the same,
    /// else the given ones.
    pub open spec fn is_family_of(self, before: DualPieces, f0: Seq<Real>, f1: Seq<Real>) -> bool {
        &&& self.has_family
        &&& if before.is_family(f0, f1) {
            self.f0 == before.f0 && self.f1 == before.f1
        } else {
            self.f0@ == f0 && self.f1@ == f1
        }
    }
}

impl DualMaxLpWorkspace {
    /// The program and the pieces are sound, and the pieces are of costs of its
    /// columns.
    pub open spec fn wf(self) -> bool {
        &&& self.lp.wf()
        &&& self.lp.program.count() + self.lp.program.rows() < usize::MAX
        &&& self.pieces.wf()
        &&& self.pieces.has_family ==> self.pieces.f0.len() == self.lp.program.count()
            && self.pieces.f1.len() == self.lp.program.count()
    }

    /// The dual program of the given rows, or an error where they differ in
    /// width.
    pub fn new(w_t: &[Vec<Real>]) -> (made: Result<Self, HonestError>)
        requires
            forall|i: int|
                0 <= i < w_t@.len() ==> simplex::pivot_limit(
                    (#[trigger] w_t@[i])@.len() as int,
                    w_t@.len() as int,
                ) <= usize::MAX,
            simplex::pivot_limit(0, w_t@.len() as int) <= usize::MAX,
        ensures
            dual_program_of(w_t@, made),
            made matches Ok(workspace) ==> workspace.wf()
                && workspace.lp.state.basis.pivots_since_refactor == 0,
    {
        let right = match dual_program_rhs(w_t) {
            Err(error) => {
                return Err(error);
            },
            Ok(right) => right,
        };
        let columns = copy_matrix(w_t);
        proof {
            assert(matrix::rows_of(columns@).len() == w_t@.len());
            assert forall|i: int| 0 <= i < columns@.len() implies (#[trigger] columns@[i])@.len()
                == right@.len() by {
                assert(matrix::rows_of(columns@)[i] == matrix::rows_of(w_t@)[i]);
            }
            if w_t@.len() > 0 {
                assert(w_t@[0]@.len() == right@.len());
            }
        }
        let mut lp = DenseSimplex::new(columns, right);
        lp.set_memory(BASIS_MEMORY);
        Ok(DualMaxLpWorkspace { lp, pieces: DualPieces::new() })
    }

    /// Optimal value of the dual program with costs
    /// `s_t + c sigma_gamma / sigma_b2`. `fallback` gives the optimal value for
    /// costs by another solver.
    pub fn solve_for_c<T: LpArithmetic, K: Fn(&ConeProgram, &Vec<Real>) -> Result<Real, String>>(
        &mut self,
        s_t: &[Real],
        sigma_gamma: &[Real],
        sigma_b2: Real,
        c: Real,
        numbers: &T,
        fallback: &K,
    ) -> (answer: Result<Real, HonestError>)
        requires
            old(self).wf(),
            old(self).lp.state.basis.pivots_since_refactor < usize::MAX,
            s_t.len() == old(self).lp.program.count(),
            s_t.len() == sigma_gamma.len(),
            numbers.ready(),
            forall|p: ConeProgram, f: Vec<Real>| #[trigger] call_requires(*fallback, (&p, &f)),
        ensures
            final(self).wf(),
            final(self).lp.program == old(self).lp.program,
            final(self).lp.state.basis.pivots_since_refactor
                <= old(self).lp.state.basis.pivots_since_refactor + 1
                || final(self).lp.state.basis.pivots_since_refactor <= REFACTOR_EVERY,
            exists|run: DualRun| #[trigger]
                run.explains(
                    *old(self),
                    *final(self),
                    s_t@,
                    sigma_gamma@,
                    sigma_b2,
                    c,
                    *numbers,
                    *fallback,
                    answer,
                ),
    {
        let ghost before = *self;
        let ghost mut run: DualRun = arbitrary();
        if sigma_b2.abs().less(Real { bits: EPSILON_BITS }) {
            let answer = Err(HonestError::ZeroDualVariance);
            assert(run.explains(
                before,
                *self,
                s_t@,
                sigma_gamma@,
                sigma_b2,
                c,
                *numbers,
                *fallback,
                answer,
            ));
            return answer;
        }
        let (slopes, costs) = make_costs(s_t, sigma_gamma, sigma_b2, c, numbers);
        proof {
            run.slopes = slopes;
            run.costs = costs;
        }
        let same = self.pieces.has_family && are_equal_values(self.pieces.f0.as_slice(), s_t)
            && are_equal_values(self.pieces.f1.as_slice(), slopes.as_slice());
        if same {
            let mut i: usize = 0;
            while i < self.pieces.pieces.len() && !self.pieces.pieces[i].is_over(c)
                invariant
                    i <= self.pieces.pieces.len(),
                    *self == before,
                    first_piece(before.pieces.pieces@, c, 0) == first_piece(
                        before.pieces.pieces@,
                        c,
                        i as int,
                    ),
                decreases self.pieces.pieces.len() - i,
            {
                i = i + 1;
            }
            if i < self.pieces.pieces.len() {
                assert(before.pieces.pieces@[i as int].fits());
                let found = basis_objective(
                    self.pieces.pieces[i].basis.as_slice(),
                    self.pieces.pieces[i].xb.as_slice(),
                    costs.as_slice(),
                    true,
                    numbers,
                );
                proof {
                    run.value = found;
                    assert(run.explains(
                        before,
                        *self,
                        s_t@,
                        sigma_gamma@,
                        sigma_b2,
                        c,
                        *numbers,
                        *fallback,
                        Ok(found),
                    ));
                }
                return Ok(found);
            }
        } else {
            self.pieces.f0 = copy_row(s_t);
            self.pieces.f1 = copy_row(slopes.as_slice());
            self.pieces.has_family = true;
            self.pieces.pieces = Vec::new();
            self.pieces.next = 0;
            proof {
                assert(self.pieces.pieces@ =~= Seq::empty());
            }
        }
        let ghost known = before.pieces.known(s_t@, slopes@);
        assert(self.pieces.pieces@ == known);
        self.lp.set_cost(costs.as_slice());
        proof {
            run.loaded = self.lp;
        }
        let solved = self.lp.solve(numbers);
        proof {
            run.solved = solved;
        }
        let answer = match solved {
            Ok(()) => {
                let (lo, hi) = self.lp.optimality_interval(
                    &self.pieces.f0,
                    &self.pieces.f1,
                    numbers,
                );
                let piece = Piece {
                    lo,
                    hi,
                    basis: copy_row(self.lp.state.basis.basis.as_slice()),
                    xb: copy_row(self.lp.state.numbers.xb.as_slice()),
                };
                proof {
                    run.piece = piece;
                }
                if self.pieces.pieces.len() < DUAL_PIECES {
                    self.pieces.pieces.push(piece);
                } else {
                    let place: usize = self.pieces.next;
                    self.pieces.pieces.set(place, piece);
                    self.pieces.next = (place + 1) % DUAL_PIECES;
                }
                Ok(self.lp.objective)
            },
            Err(LpError::Infeasible) => Err(HonestError::DualInfeasible),
            Err(LpError::Unbounded) => Err(HonestError::DualUnbounded),
            Err(status) => {
                let program = dual_max_program(
                    self.lp.program.columns.as_slice(),
                    costs.as_slice(),
                    self.lp.program.right.len(),
                );
                let second = fallback(&program, &costs);
                proof {
                    run.program = program;
                    run.fallback = second;
                }
                match second {
                    Ok(value) => Ok(value),
                    Err(message) => Err(
                        HonestError::DualFallback { status: status.label(), message },
                    ),
                }
            },
        };
        assert(run.explains(
            before,
            *self,
            s_t@,
            sigma_gamma@,
            sigma_b2,
            c,
            *numbers,
            *fallback,
            answer,
        ));
        answer
    }
}

/// What a comparison with a dual optimum rested on.
pub struct MissRun {
    /// The covariance times the multipliers.
    pub sigma_gamma: Vec<Real>,
    /// The variance along the multipliers.
    pub sigma_b2: Real,
    /// The moments along the multipliers.
    pub gamma_y: Real,
    /// The part of the moments that is independent of those along the
    /// multipliers.
    pub s_t: Vec<Real>,
    /// The optimum of the dual program.
    pub optimum: Result<Real, HonestError>,
    /// How it was found.
    pub dual: DualRun,
    /// The value less the optimum.
    pub difference: Real,
}

/// Whether `rest` is a moment less its share of the moments along multipliers.
pub open spec fn is_independent_part<T: LpArithmetic>(
    numbers: T,
    y: Real,
    covariance: Real,
    gamma_y: Real,
    sigma_b2: Real,
    rest: Real,
) -> bool {
    exists|product: Real, share: Real| #[trigger]
        numbers.multiplies(covariance, gamma_y, product) && #[trigger] numbers.divides(
            product,
            sigma_b2,
            share,
        ) && numbers.subtracts(y, share, rest)
}

impl MissRun {
    /// Whether a value misses the dual optimum by `by`: the magnitude of its
    /// difference from the optimum at the costs that the value implies.
    pub open spec fn explains<T: LpArithmetic, K: Fn(&ConeProgram, &Vec<Real>) -> Result<
        Real,
        String,
    >>(
        self,
        before: DualMaxLpWorkspace,
        after: DualMaxLpWorkspace,
        sigma: Seq<Vec<Real>>,
        y: Vec<Real>,
        gamma: Vec<Real>,
        c: Real,
        numbers: T,
        fallback: K,
        by: Result<Real, HonestError>,
    ) -> bool {
        &&& self.sigma_gamma@.len() == sigma.len()
        &&& forall|i: int|
            0 <= i < sigma.len() ==> numbers.produces(
                sigma[i],
                gamma,
                #[trigger] self.sigma_gamma@[i],
            )
        &&& numbers.produces(gamma, self.sigma_gamma, self.sigma_b2)
        &&& numbers.produces(gamma, y, self.gamma_y)
        &&& self.s_t@.len() == y@.len()
        &&& forall|i: int|
            0 <= i < y@.len() ==> is_independent_part(
                numbers,
                y@[i],
                self.sigma_gamma@[i],
                self.gamma_y,
                self.sigma_b2,
                #[trigger] self.s_t@[i],
            )
        &&& self.dual.explains(
            before,
            after,
            self.s_t@,
            self.sigma_gamma@,
            self.sigma_b2,
            c,
            numbers,
            fallback,
            self.optimum,
        )
        &&& match self.optimum {
            Err(error) => by == Err::<Real, HonestError>(error),
            Ok(value) => numbers.subtracts(c, value, self.difference) && by == Ok::<
                Real,
                HonestError,
            >(self.difference.abs_spec()),
        }
    }
}

impl DualMaxLpWorkspace {
    /// By how much the dual optimum misses a value, for moments and multipliers.
    pub fn miss<T: LpArithmetic, K: Fn(&ConeProgram, &Vec<Real>) -> Result<Real, String>>(
        &mut self,
        sigma: &Vec<Vec<Real>>,
        y: &Vec<Real>,
        gamma: &Vec<Real>,
        c: Real,
        numbers: &T,
        fallback: &K,
    ) -> (by: Result<Real, HonestError>)
        requires
            old(self).wf(),
            old(self).lp.state.basis.pivots_since_refactor < usize::MAX,
            sigma.len() == old(self).lp.program.count(),
            y.len() == old(self).lp.program.count(),
            numbers.ready(),
            forall|p: ConeProgram, f: Vec<Real>| #[trigger] call_requires(*fallback, (&p, &f)),
        ensures
            final(self).wf(),
            final(self).lp.program == old(self).lp.program,
            final(self).lp.state.basis.pivots_since_refactor
                <= old(self).lp.state.basis.pivots_since_refactor + 1
                || final(self).lp.state.basis.pivots_since_refactor <= REFACTOR_EVERY,
            exists|run: MissRun| #[trigger]
                run.explains(
                    *old(self),
                    *final(self),
                    sigma@,
                    *y,
                    *gamma,
                    c,
                    *numbers,
                    *fallback,
                    by,
                ),
    {
        let ghost before = *self;
        let ghost mut run: MissRun = arbitrary();
        let mut sigma_gamma: Vec<Real> = Vec::new();
        while sigma_gamma.len() < sigma.len()
            invariant
                sigma_gamma.len() <= sigma.len(),
                numbers.ready(),
                forall|i: int|
                    0 <= i < sigma_gamma.len() ==> numbers.produces(
                        sigma@[i],
                        *gamma,
                        #[trigger] sigma_gamma@[i],
                    ),
            decreases sigma.len() - sigma_gamma.len(),
        {
            let i: usize = sigma_gamma.len();
            sigma_gamma.push(numbers.product(&sigma[i], gamma));
        }
        let sigma_b2 = numbers.product(gamma, &sigma_gamma);
        let gamma_y = numbers.product(gamma, y);
        let mut s_t: Vec<Real> = Vec::new();
        while s_t.len() < y.len()
            invariant
                s_t.len() <= y.len(),
                sigma_gamma.len() == y.len(),
                numbers.ready(),
                forall|i: int|
                    0 <= i < s_t.len() ==> is_independent_part(
                        *numbers,
                        y@[i],
                        sigma_gamma@[i],
                        gamma_y,
                        sigma_b2,
                        #[trigger] s_t@[i],
                    ),
            decreases y.len() - s_t.len(),
        {
            let i: usize = s_t.len();
            let product = numbers.multiply(sigma_gamma[i], gamma_y);
            let share = numbers.divide(product, sigma_b2);
            let rest = numbers.subtract(y[i], share);
            assert(is_independent_part(
                *numbers,
                y@[i as int],
                sigma_gamma@[i as int],
                gamma_y,
                sigma_b2,
                rest,
            )) by {
                assert(numbers.multiplies(sigma_gamma@[i as int], gamma_y, product));
                assert(numbers.divides(product, sigma_b2, share));
            }
            s_t.push(rest);
        }
        let optimum = self.solve_for_c(
            s_t.as_slice(),
            sigma_gamma.as_slice(),
            sigma_b2,
            c,
            numbers,
            fallback,
        );
        proof {
            run.sigma_gamma = sigma_gamma;
            run.sigma_b2 = sigma_b2;
            run.gamma_y = gamma_y;
            run.s_t = s_t;
            run.optimum = optimum;
            run.dual = choose|dual: DualRun| #[trigger]
                dual.explains(
                    before,
                    *self,
                    s_t@,
                    sigma_gamma@,
                    sigma_b2,
                    c,
                    *numbers,
                    *fallback,
                    optimum,
                );
        }
        let by = match optimum {
            Err(error) => Err(error),
            Ok(value) => {
                let difference = numbers.subtract(c, value);
                proof {
                    run.difference = difference;
                }
                Ok(difference.abs())
            },
        };
        assert(run.explains(before, *self, sigma@, *y, *gamma, c, *numbers, *fallback, by));
        by
    }
}

/// Whether `made` holds the dual program of the given rows, whose right-hand side
/// is a one followed by zeros, or the error of rows that differ in width.
pub open spec fn dual_program_of(
    w_t: Seq<Vec<Real>>,
    made: Result<DualMaxLpWorkspace, HonestError>,
) -> bool {
    match made {
        Err(error) => !matrix::rectangular(w_t) && error == HonestError::RaggedDualProgram,
        Ok(workspace) => {
            &&& matrix::rectangular(w_t)
            &&& matrix::rows_of(workspace.lp.program.columns@) == matrix::rows_of(w_t)
            &&& workspace.lp.program.right@ == first_unit(matrix::first_width(w_t))
            &&& workspace.lp.state.memory.cap == BASIS_MEMORY
            &&& !workspace.pieces.has_family
        },
    }
}

/// Checks that the rows of a dual program have one width, and gives its
/// right-hand side, a one followed by zeros.
pub fn dual_program_rhs(w_t: &[Vec<Real>]) -> (rhs: Result<Vec<Real>, HonestError>)
    ensures
        match rhs {
            Ok(unit) => matrix::rectangular(w_t@) && unit@ == first_unit(
                matrix::first_width(w_t@),
            ),
            Err(error) => !matrix::rectangular(w_t@) && error == HonestError::RaggedDualProgram,
        },
{
    let width: usize = if w_t.len() == 0 {
        0
    } else {
        w_t[0].len()
    };
    let mut i: usize = 0;
    while i < w_t.len()
        invariant
            i <= w_t.len(),
            width == matrix::first_width(w_t@),
            forall|k: int| 0 <= k < i ==> (#[trigger] w_t@[k])@.len() == width,
        decreases w_t.len() - i,
    {
        if w_t[i].len() != width {
            assert(w_t@[i as int]@.len() != width);
            return Err(HonestError::RaggedDualProgram);
        }
        i = i + 1;
    }
    Ok(unit_vector(width))
}

// ---------------------------------------------------------------------------
// Where a basis stays optimal
// ---------------------------------------------------------------------------

/// Reduced cost of a column for costs `c0 + t c1`: how it changes with `t`, and
/// the `t` at which it becomes positive.
#[derive(Clone, Copy, Debug, PartialEq, Eq, Structural)]
pub struct ReducedCost {
    /// Change with `t`.
    pub slope: Real,
    /// Value of `t` at which the tolerance is met.
    pub bound: Real,
}

/// The interval of `t` on which the columns below `end` keep a basis optimal: a
/// rising reduced cost bounds it from above, a falling one from below.
pub open spec fn optimal_interval(
    is_basic: Seq<bool>,
    costs: Seq<ReducedCost>,
    end: int,
) -> (Real, Real)
    decreases end,
{
    if end <= 0 {
        (Real::neg_infinity_spec(), Real::infinity_spec())
    } else {
        let (lo, hi) = optimal_interval(is_basic, costs, end - 1);
        let cost = costs[end - 1];
        if is_basic[end - 1] {
            (lo, hi)
        } else if Real::zero_spec().lt(cost.slope) {
            (lo, hi.min_spec(cost.bound))
        } else if cost.slope.lt(Real::zero_spec()) {
            (lo.max_spec(cost.bound), hi)
        } else {
            (lo, hi)
        }
    }
}

/// The interval of `t` on which a basis stays optimal.
pub fn optimality_interval(is_basic: &[bool], costs: &[ReducedCost]) -> (interval: (Real, Real))
    requires
        costs.len() <= is_basic.len(),
    ensures
        interval == optimal_interval(is_basic@, costs@, costs.len() as int),
{
    let mut lo = Real::neg_infinity();
    let mut hi = Real::infinity();
    let mut j: usize = 0;
    while j < costs.len()
        invariant
            j <= costs.len() <= is_basic.len(),
            (lo, hi) == optimal_interval(is_basic@, costs@, j as int),
        decreases costs.len() - j,
    {
        if !is_basic[j] {
            if Real::zero().less(costs[j].slope) {
                hi = hi.min(costs[j].bound);
            } else if costs[j].slope.less(Real::zero()) {
                lo = lo.max(costs[j].bound);
            }
        }
        j = j + 1;
    }
    (lo, hi)
}

/// Whether the arithmetic of dual programs is a function of its arguments.
pub open spec fn dual_functional<T: LpArithmetic>(numbers: T) -> bool {
    &&& forall|a: Real, b: Real, x: Real, y: Real| #[trigger]
        numbers.divides(a, b, x) && #[trigger] numbers.divides(
            a,
            b,
            y,
        ) ==> x == y
    &&& forall|a: Real, b: Real, c: Real, x: Real, y: Real| #[trigger]
        numbers.prices(a, b, c, x) && #[trigger] numbers.prices(
            a,
            b,
            c,
            y,
        ) ==> x == y
    &&& pricing::adds_as_a_function(numbers)
}

/// A program has one family of costs.
proof fn costs_are_determined<T: LpArithmetic>(
    one: DualRun,
    two: DualRun,
    s_t: Seq<Real>,
    sigma_gamma: Seq<Real>,
    sigma_b2: Real,
    c: Real,
    numbers: T,
)
    requires
        s_t.len() == sigma_gamma.len(),
        dual_functional(numbers),
        costs_made(one.slopes@, one.costs@, s_t, sigma_gamma, sigma_b2, c, numbers),
        costs_made(two.slopes@, two.costs@, s_t, sigma_gamma, sigma_b2, c, numbers),
    ensures
        one.slopes@ == two.slopes@,
        one.costs@ == two.costs@,
{
    assert forall|i: int| 0 <= i < one.slopes.len() implies one.slopes@[i]
        == #[trigger] two.slopes@[i] by {
        assert(numbers.divides(sigma_gamma[i], sigma_b2, one.slopes@[i]));
    }
    assert(one.slopes@ =~= two.slopes@);
    assert forall|i: int| 0 <= i < one.costs.len() implies one.costs@[i]
        == #[trigger] two.costs@[i] by {
        assert(numbers.prices(s_t[i], one.slopes@[i], c, one.costs@[i]));
    }
    assert(one.costs@ =~= two.costs@);
}

/// Remembered pieces do not change an optimum: where a workspace answers from a
/// piece that it remembers, it gives the number that another finds by solving
/// the same program, if the solve ends in the columns and basic values of that
/// piece and the arithmetic is a function of its arguments.
pub proof fn remembered_pieces_do_not_change_the_optimum<T: LpArithmetic, K: Fn(
    &ConeProgram,
    &Vec<Real>,
) -> Result<Real, String>>(
    run: DualRun,
    before: DualMaxLpWorkspace,
    after: DualMaxLpWorkspace,
    answer: Result<Real, HonestError>,
    fresh: DualRun,
    empty: DualMaxLpWorkspace,
    filled: DualMaxLpWorkspace,
    s_t: Seq<Real>,
    sigma_gamma: Seq<Real>,
    sigma_b2: Real,
    c: Real,
    numbers: T,
    fallback: K,
)
    requires
        s_t.len() == sigma_gamma.len(),
        !sigma_b2.abs_spec().lt(Real { bits: EPSILON_BITS }),
        run.explains(before, after, s_t, sigma_gamma, sigma_b2, c, numbers, fallback, answer),
        first_piece(before.pieces.known(s_t, run.slopes@), c, 0) is Some,
        empty.pieces.pieces@.len() == 0,
        fresh.solved == Ok::<(), LpError>(()),
        fresh.explains(
            empty,
            filled,
            s_t,
            sigma_gamma,
            sigma_b2,
            c,
            numbers,
            fallback,
            Ok(filled.lp.objective),
        ),
        dual_functional(numbers),
        ({
            let known = before.pieces.known(s_t, run.slopes@);
            let piece = known[first_piece(known, c, 0)->0];
            piece.basis@ == filled.lp.state.basis.basis@ && piece.xb@
                == filled.lp.state.numbers.xb@
        }),
    ensures
        answer == Ok::<Real, HonestError>(filled.lp.objective),
{
    costs_are_determined(run, fresh, s_t, sigma_gamma, sigma_b2, c, numbers);
    assert(empty.pieces.known(s_t, fresh.slopes@).len() == 0);
    let lp = fresh.loaded;
    let (solve, stage, solved) = choose|
        solve: SolveRun,
        stage: int,
        solved: Result<LpOptimum, LpError>,
    |
        #[trigger] solve.explains(
            lp.state,
            filled.lp.state,
            lp.program,
            numbers,
            solved,
            stage,
        ) && match solved {
            Ok(optimum) => {
                &&& fresh.solved == Ok::<(), LpError>(())
                &&& filled.lp.objective == optimum.objective
                &&& filled.lp.lambda == optimum.lambda
            },
            Err(error) => {
                &&& fresh.solved == Err::<(), LpError>(error)
                &&& filled.lp.objective == lp.objective
                &&& filled.lp.lambda == lp.lambda
            },
        };
    assert(solved is Ok);
    pricing::an_objective_is_one_number(
        filled.lp.state.basis.basis@,
        filled.lp.state.numbers.xb@,
        fresh.costs@,
        true,
        numbers,
        run.value,
        filled.lp.objective,
    );
}

/// The piece that is found spans the value.
proof fn first_piece_spans(pieces: Seq<Piece>, c: Real, from: int)
    requires
        0 <= from,
        first_piece(pieces, c, from) is Some,
    ensures
        from <= first_piece(pieces, c, from)->0 < pieces.len(),
        pieces[first_piece(pieces, c, from)->0].spans(c),
    decreases pieces.len() - from,
{
    if !pieces[from].spans(c) {
        first_piece_spans(pieces, c, from + 1);
    }
}

} // verus!
