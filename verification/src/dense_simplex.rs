//! Solves of one program after another over the same constraints.

use crate::basis_memory;
use crate::basis_memory::{find_best_above, BasisMemory, RememberedBasis};
use crate::linear_program;
use crate::linear_program::LinearProgram;
use crate::lp_arithmetic::LpArithmetic;
use crate::matrix;
use crate::matrix::{copy_matrix, copy_row, filled_row};
use crate::number::Real;
use crate::pricing;
use crate::pricing::{basis_objective, compute_duals, dual_0};
use crate::simplex;
use crate::simplex::{
    BasisNumbers, IterationState, LpError, Phase, PivotStep, SimplexBasis, PHASE_ONE_BITS,
    REFACTOR_EVERY, SINGULAR_BITS,
};
use crate::workspaces;
use crate::workspaces::{optimality_interval, ReducedCost};
use vstd::prelude::*;

verus! {

/// The bases of a program whose costs change from solve to solve: the current
/// one, and the optimal ones of earlier solves.
#[derive(Debug, PartialEq, Eq)]
pub struct SimplexState {
    /// The basis.
    pub basis: SimplexBasis,
    /// Optimal bases of earlier solves.
    pub memory: BasisMemory,
    /// Whether the basis is feasible.
    pub has_feasible_basis: bool,
    /// Numbers of the basis.
    pub numbers: BasisNumbers,
    /// Cost of each column.
    pub cost: Vec<Real>,
}

/// The optimum of a program.
#[derive(Debug, PartialEq, Eq)]
pub struct LpOptimum {
    /// Optimal value.
    pub objective: Real,
    /// Value of each column.
    pub lambda: Vec<Real>,
}

impl SimplexState {
    /// The basis and the memory are sound.
    pub open spec fn wf(self) -> bool {
        &&& self.basis.wf()
        &&& self.memory.wf()
        &&& self.memory.fits(self.basis.m as int, self.basis.n as int)
        &&& self.cost.len() == self.basis.n
        &&& self.has_feasible_basis ==> simplex::sized(self.numbers, self.basis.m as int)
        &&& simplex::pivot_limit(self.basis.m as int, self.basis.n as int) <= usize::MAX
    }

    /// Whether the bases are those of a program.
    pub open spec fn suits(self, program: LinearProgram) -> bool {
        &&& program.wf()
        &&& program.rows() == self.basis.m
        &&& program.count() == self.basis.n
    }

    /// Bases of a program with `m` rows and `n` columns and a memory for `cap` of
    /// them.
    pub fn new(m: usize, n: usize, cap: usize) -> (made: Self)
        requires
            simplex::pivot_limit(m as int, n as int) <= usize::MAX,
        ensures
            made.wf(),
            made.basis.m == m,
            made.basis.n == n,
            made.basis.pivots_since_refactor == 0,
            made.memory.cap == cap,
            made.memory.entries@.len() == 0,
            !made.has_feasible_basis,
    {
        SimplexState {
            basis: SimplexBasis::artificial(m, n),
            memory: BasisMemory::new(cap),
            has_feasible_basis: false,
            numbers: BasisNumbers { binv: Vec::new(), xb: Vec::new(), y: Vec::new() },
            cost: filled_row(n, Real::zero()),
        }
    }

    /// Sets the cost of each column.
    pub fn set_cost(&mut self, cost: &[Real])
        requires
            old(self).wf(),
            cost.len() == old(self).basis.n,
        ensures
            final(self).wf(),
            final(self).cost@ == cost@,
            final(self).basis == old(self).basis,
            final(self).numbers == old(self).numbers,
            final(self).memory == old(self).memory,
            final(self).has_feasible_basis == old(self).has_feasible_basis,
    {
        self.cost = copy_row(cost);
    }

    /// Forgets all bases and makes room for `cap` of them.
    pub fn set_memory(&mut self, cap: usize)
        requires
            old(self).wf(),
        ensures
            final(self).wf(),
            final(self).basis == old(self).basis,
            final(self).numbers == old(self).numbers,
            final(self).cost == old(self).cost,
            final(self).has_feasible_basis == old(self).has_feasible_basis,
            final(self).memory.cap == cap,
            final(self).memory.entries@.len() == 0,
            final(self).memory.next == 0,
    {
        self.memory = BasisMemory::new(cap);
    }
}

/// What a search for a feasible basis rested on.
pub struct PrepareRun {
    /// Numbers of the artificial basis.
    pub installed: (Vec<Vec<Real>>, Vec<Real>),
    /// The pivots.
    pub trace: Seq<PivotStep>,
    /// Where they ended.
    pub end: PivotStep,
    /// The basis at the end.
    pub found: Vec<usize>,
    /// How infeasible it is.
    pub infeasibility: Real,
}

/// The state in which a program is made feasible.
pub open spec fn artificial_state(m: int, n: int, numbers: BasisNumbers) -> IterationState {
    IterationState {
        basis: Seq::new(m as nat, |i: int| (n + i) as usize),
        since: 0,
        streak: 0,
        bland: false,
        stale: true,
        numbers,
    }
}

impl PrepareRun {
    /// Whether the search for a feasible basis went like this: nothing is done
    /// where there is one, else the first phase runs from the artificial basis
    /// and what is left of the artificial columns decides.
    pub open spec fn explains<T: LpArithmetic>(
        self,
        before: SimplexState,
        after: SimplexState,
        program: LinearProgram,
        numbers: T,
        outcome: Result<(), LpError>,
    ) -> bool {
        let m = before.basis.m as int;
        let n = before.basis.n;
        &&& after.memory == before.memory
        &&& after.cost == before.cost
        &&& if before.has_feasible_basis {
            outcome == Ok::<(), LpError>(()) && after == before
        } else {
            let start = artificial_state(
                m,
                n as int,
                BasisNumbers {
                    binv: self.installed.0,
                    xb: self.installed.1,
                    y: before.numbers.y,
                },
            );
            let state = simplex::state_after(self.trace, start);
            &&& program.installs(self.installed)
            &&& after.basis.basis@ == state.basis
            &&& after.basis.pivots_since_refactor == state.since
            &&& if outcome matches Err(error) && error != LpError::Infeasible {
                &&& simplex::iteration_ends(
                    self.trace,
                    self.end,
                    start,
                    Phase::One,
                    before.cost,
                    m,
                    n,
                    program,
                    numbers,
                    outcome,
                )
                &&& after.numbers == simplex::numbers_at(state.numbers, self.end, outcome)
                &&& !after.has_feasible_basis
            } else {
                &&& simplex::iteration_ends(
                    self.trace,
                    self.end,
                    start,
                    Phase::One,
                    before.cost,
                    m,
                    n,
                    program,
                    numbers,
                    Ok(()),
                )
                &&& after.numbers == simplex::numbers_at(state.numbers, self.end, Ok(()))
                &&& self.found@ == state.basis
                &&& program.is_infeasible_by(
                    numbers,
                    self.found@,
                    after.numbers.xb@,
                    self.infeasibility,
                )
                &&& outcome is Err <==> (Real { bits: PHASE_ONE_BITS }).lt(self.infeasibility)
                &&& after.has_feasible_basis == outcome is Ok
            }
        }
    }
}

impl SimplexState {
    /// Finds a feasible basis, where there is none yet.
    pub fn prepare<T: LpArithmetic>(
        &mut self,
        program: &LinearProgram,
        numbers: &T,
    ) -> (outcome: Result<(), LpError>)
        requires
            old(self).wf(),
            old(self).basis.pivots_since_refactor < usize::MAX,
            old(self).suits(*program),
            numbers.ready(),
        ensures
            final(self).wf(),
            final(self).basis.m == old(self).basis.m,
            final(self).basis.n == old(self).basis.n,
            final(self).cost == old(self).cost,
            outcome is Ok ==> final(self).has_feasible_basis,
            final(self).basis.pivots_since_refactor <= old(self).basis.pivots_since_refactor
                || final(self).basis.pivots_since_refactor <= REFACTOR_EVERY,
            exists|run: PrepareRun| #[trigger]
                run.explains(*old(self), *final(self), *program, *numbers, outcome),
    {
        let ghost before = *self;
        let ghost mut run: PrepareRun = arbitrary();
        if self.has_feasible_basis {
            assert(run.explains(before, *self, *program, *numbers, Ok(())));
            return Ok(());
        }
        self.basis = SimplexBasis::artificial(self.basis.m, self.basis.n);
        let (binv, xb) = program.install();
        let ghost installed = (binv, xb);
        self.numbers.binv = binv;
        self.numbers.xb = xb;
        let ghost start = self.basis.start_state(self.numbers);
        let iterated = self.basis.iterate(
            Phase::One,
            &self.cost,
            &mut self.numbers,
            program,
            numbers,
        );
        proof {
            let m = before.basis.m as int;
            let n = before.basis.n;
            run.installed = installed;
            assert(start.basis =~= artificial_state(m, n as int, start.numbers).basis);
            let (trace, end) = choose|trace: Seq<PivotStep>, end: PivotStep| #[trigger]
                simplex::iteration_ends(
                    trace,
                    end,
                    start,
                    Phase::One,
                    before.cost,
                    m,
                    n,
                    *program,
                    *numbers,
                    iterated,
                ) && self.basis.basis@ == simplex::state_after(trace, start).basis
                    && self.basis.pivots_since_refactor == simplex::state_after(
                    trace,
                    start,
                ).since && self.numbers == simplex::numbers_at(
                    simplex::state_after(trace, start).numbers,
                    end,
                    iterated,
                );
            run.trace = trace;
            run.end = end;
        }
        match iterated {
            Err(error) => {
                assert(run.explains(before, *self, *program, *numbers, Err(error)));
                return Err(error);
            },
            Ok(()) => {},
        }
        let infeasibility = program.infeasibility(
            &self.basis.basis,
            &self.numbers.xb,
            numbers,
        );
        let ceiling = Real { bits: PHASE_ONE_BITS };
        proof {
            run.found = self.basis.basis;
            run.infeasibility = infeasibility;
        }
        if ceiling.less(infeasibility) {
            assert(run.explains(before, *self, *program, *numbers, Err(LpError::Infeasible)));
            return Err(LpError::Infeasible);
        }
        self.has_feasible_basis = true;
        assert(run.explains(before, *self, *program, *numbers, Ok(())));
        Ok(())
    }
}

/// What the choice of a starting basis rested on.
pub struct StartRun {
    /// Objective of the current basis.
    pub current: Real,
    /// Objectives of the remembered bases.
    pub values: Vec<Real>,
}

impl StartRun {
    /// Whether a solve starts like this: from the first remembered basis with
    /// the largest objective, where that lies above the objective of the
    /// current basis.
    pub open spec fn explains<T: LpArithmetic>(
        self,
        before: SimplexState,
        after: SimplexState,
        numbers: T,
    ) -> bool {
        let entries = before.memory.entries@;
        &&& after.memory == before.memory
        &&& after.has_feasible_basis == before.has_feasible_basis
        &&& after.cost == before.cost
        &&& after.basis.m == before.basis.m
        &&& after.basis.n == before.basis.n
        &&& if entries.len() == 0 {
            after == before
        } else {
            &&& pricing::is_objective(
                before.basis.basis@,
                before.numbers.xb@,
                before.cost@,
                false,
                numbers,
                self.current,
            )
            &&& self.values.len() == entries.len()
            &&& forall|i: int|
                0 <= i < entries.len() ==> pricing::is_objective(
                    entries[i].basis@,
                    entries[i].xb@,
                    before.cost@,
                    false,
                    numbers,
                    #[trigger] self.values@[i],
                )
            &&& if exists|i: int| basis_memory::best_above(self.values@, self.current, i) {
                exists|i: int| #[trigger]
                    basis_memory::best_above(self.values@, self.current, i)
                        && matrix::rows_of(after.numbers.binv@) == matrix::rows_of(entries[i].binv@)
                        && after.numbers.xb@
                        == entries[i].xb@ && after.numbers.y == before.numbers.y
                        && after.basis.basis@ == entries[i].basis@
                        && after.basis.pivots_since_refactor == entries[i].pivots_since_refactor
            } else {
                after == before
            }
        }
    }
}

/// What remembering a basis rested on.
pub struct RememberRun {
    /// The basis.
    pub basis: Vec<usize>,
    /// Its inverse and basic values, where it was factorised.
    pub factored: Option<(Vec<Vec<Real>>, Vec<Real>)>,
    /// What was remembered.
    pub entry: RememberedBasis,
}

impl RememberRun {
    /// Whether a basis was remembered like this: not at all where the memory
    /// has no room or knows it, else after it was factorised where it is more
    /// than half way to its next factorisation.
    pub open spec fn explains<T: LpArithmetic>(
        self,
        before: SimplexState,
        after: SimplexState,
        program: LinearProgram,
        numbers: T,
        outcome: Result<(), LpError>,
    ) -> bool {
        let due = before.basis.pivots_since_refactor > REFACTOR_EVERY / 2;
        &&& after.has_feasible_basis == before.has_feasible_basis
        &&& after.cost == before.cost
        &&& after.basis.m == before.basis.m
        &&& after.basis.n == before.basis.n
        &&& after.basis.basis@ == before.basis.basis@
        &&& if before.memory.cap == 0 || before.memory.holds(before.basis.basis@) {
            outcome == Ok::<(), LpError>(()) && after == before
        } else {
            &&& self.basis@ == before.basis.basis@
            &&& due ==> program.factors(numbers, self.basis@, self.factored)
            &&& if due && self.factored is None {
                &&& outcome == Err::<(), LpError>(LpError::Singular)
                &&& after == before
            } else {
                &&& outcome == Ok::<(), LpError>(())
                &&& after.basis.pivots_since_refactor == (if due {
                    0
                } else {
                    before.basis.pivots_since_refactor
                })
                &&& after.numbers.y == before.numbers.y
                &&& if due {
                    &&& after.numbers.binv == self.factored->Some_0.0
                    &&& after.numbers.xb == self.factored->Some_0.1
                } else {
                    after.numbers == before.numbers
                }
                &&& self.entry.basis@ == before.basis.basis@
                &&& matrix::rows_of(self.entry.binv@) == matrix::rows_of(after.numbers.binv@)
                &&& self.entry.xb@ == after.numbers.xb@
                &&& self.entry.pivots_since_refactor == after.basis.pivots_since_refactor
                &&& after.memory.cap == before.memory.cap
                &&& after.memory.entries@ == before.memory.with_entry(self.entry)
            }
        }
    }
}

impl SimplexState {
    /// Starts from the best remembered basis, where it beats the current one.
    pub fn start_from_best_remembered<T: LpArithmetic>(&mut self, numbers: &T)
        requires
            old(self).wf(),
            old(self).has_feasible_basis,
            numbers.ready(),
        ensures
            final(self).wf(),
            final(self).has_feasible_basis,
            final(self).cost == old(self).cost,
            final(self).basis.m == old(self).basis.m,
            final(self).basis.n == old(self).basis.n,
            final(self).basis.pivots_since_refactor <= old(self).basis.pivots_since_refactor
                || final(self).basis.pivots_since_refactor < REFACTOR_EVERY,
            exists|run: StartRun| #[trigger] run.explains(*old(self), *final(self), *numbers),
    {
        let ghost before = *self;
        let ghost mut run: StartRun = arbitrary();
        if self.memory.entries.len() == 0 {
            assert(run.explains(before, *self, *numbers));
            return ;
        }
        let current = basis_objective(
            self.basis.basis.as_slice(),
            self.numbers.xb.as_slice(),
            self.cost.as_slice(),
            false,
            numbers,
        );
        let mut objectives: Vec<Real> = Vec::new();
        while objectives.len() < self.memory.entries.len()
            invariant
                objectives.len() <= self.memory.entries.len(),
                *self == before,
                before == *old(self),
                before.wf(),
                numbers.ready(),
                forall|i: int|
                    0 <= i < objectives.len() ==> pricing::is_objective(
                        before.memory.entries@[i].basis@,
                        before.memory.entries@[i].xb@,
                        before.cost@,
                        false,
                        *numbers,
                        #[trigger] objectives@[i],
                    ),
            decreases self.memory.entries.len() - objectives.len(),
        {
            let entry = &self.memory.entries[objectives.len()];
            assert(entry.fits(before.basis.m as int, before.basis.n as int));
            let value = basis_objective(
                entry.basis.as_slice(),
                entry.xb.as_slice(),
                self.cost.as_slice(),
                false,
                numbers,
            );
            objectives.push(value);
        }
        proof {
            run.current = current;
            run.values = objectives;
        }
        match find_best_above(objectives.as_slice(), current) {
            None => {
                proof {
                    assert forall|i: int| !basis_memory::best_above(
                        objectives@,
                        current,
                        i,
                    ) by {
                        if 0 <= i < objectives.len() {
                            assert(!current.lt(objectives@[i]));
                        }
                    }
                    assert(run.explains(before, *self, *numbers));
                }
            },
            Some(i) => {
                let entry = &self.memory.entries[i];
                assert(entry.fits(before.basis.m as int, before.basis.n as int));
                let binv = copy_matrix(entry.binv.as_slice());
                let xb = copy_row(entry.xb.as_slice());
                let since: usize = entry.pivots_since_refactor;
                let columns = copy_row(entry.basis.as_slice());
                self.basis.load(columns.as_slice(), since);
                self.numbers.binv = binv;
                self.numbers.xb = xb;
                proof {
                    assert(basis_memory::best_above(run.values@, run.current, i as int));
                    assert(run.explains(before, *self, *numbers));
                }
            },
        }
    }

    /// Remembers the current basis, where the memory has room and does not know
    /// it.
    pub fn remember_current<T: LpArithmetic>(
        &mut self,
        program: &LinearProgram,
        numbers: &T,
    ) -> (outcome: Result<(), LpError>)
        requires
            old(self).wf(),
            old(self).has_feasible_basis,
            old(self).suits(*program),
            numbers.ready(),
        ensures
            final(self).wf(),
            final(self).has_feasible_basis,
            final(self).cost == old(self).cost,
            final(self).basis.m == old(self).basis.m,
            final(self).basis.n == old(self).basis.n,
            final(self).basis.pivots_since_refactor <= old(self).basis.pivots_since_refactor,
            exists|run: RememberRun| #[trigger]
                run.explains(*old(self), *final(self), *program, *numbers, outcome),
    {
        let ghost before = *self;
        let ghost mut run: RememberRun = arbitrary();
        if self.memory.cap == 0 || self.memory.knows(self.basis.basis.as_slice()) {
            assert(run.explains(before, *self, *program, *numbers, Ok(())));
            return Ok(());
        }
        proof {
            run.basis = self.basis.basis;
        }
        if self.basis.pivots_since_refactor > REFACTOR_EVERY / 2 {
            let factored = program.refactor(&self.basis.basis, numbers);
            proof {
                run.factored = factored;
            }
            match factored {
                None => {
                    assert(run.explains(before, *self, *program, *numbers, Err(LpError::Singular)));
                    return Err(LpError::Singular);
                },
                Some((binv, xb)) => {
                    self.numbers.binv = binv;
                    self.numbers.xb = xb;
                },
            }
            self.basis.pivots_since_refactor = 0;
        }
        let binv = copy_matrix(self.numbers.binv.as_slice());
        let xb = copy_row(self.numbers.xb.as_slice());
        let entry = RememberedBasis {
            basis: copy_row(self.basis.basis.as_slice()),
            binv,
            xb,
            pivots_since_refactor: self.basis.pivots_since_refactor,
        };
        proof {
            run.entry = entry;
            assert forall|i: int| 0 <= i < self.memory.entries.len() implies simplex::distinct(
                (#[trigger] self.memory.entries@[i]).basis@,
            ) by {
                assert(self.memory.entries@[i].fits(
                    before.basis.m as int,
                    before.basis.n as int,
                ));
            }
        }
        self.memory.remember(entry);
        proof {
            assert forall|i: int| 0 <= i < self.memory.entries.len() implies (
            #[trigger] self.memory.entries@[i]).fits(
                before.basis.m as int,
                before.basis.n as int,
            ) by {
                if self.memory.entries@[i] != entry {
                    assert(self.memory.entries@[i] == before.memory.entries@[i]);
                }
            }
            assert(run.explains(before, *self, *program, *numbers, Ok(())));
        }
        Ok(())
    }
}

/// What a solve rested on.
pub struct SolveRun {
    /// The program after each stage.
    pub stages: (SimplexState, SimplexState, SimplexState),
    /// How a feasible basis was found.
    pub prepared: PrepareRun,
    /// How the start was chosen.
    pub start: StartRun,
    /// The pivots.
    pub trace: Seq<PivotStep>,
    /// Where they ended.
    pub end: PivotStep,
    /// How the last basis was remembered.
    pub remembered: RememberRun,
}

impl SolveRun {
    /// Whether a solve went like this: a feasible basis, the best start, the
    /// pivots of the second phase, and the last basis remembered.
    pub open spec fn explains<T: LpArithmetic>(
        self,
        before: SimplexState,
        after: SimplexState,
        program: LinearProgram,
        numbers: T,
        outcome: Result<LpOptimum, LpError>,
        stage: int,
    ) -> bool {
        let (feasible, started, pivoted) = self.stages;
        let m = before.basis.m as int;
        let n = before.basis.n;
        if stage == 0 {
            &&& outcome is Err
            &&& self.prepared.explains(
                before,
                after,
                program,
                numbers,
                Err(outcome->Err_0),
            )
        } else {
            let state = simplex::state_after(self.trace, started.basis.start_state(started.numbers));
            &&& self.prepared.explains(before, feasible, program, numbers, Ok(()))
            &&& self.start.explains(feasible, started, numbers)
            &&& pivoted.memory == started.memory
            &&& pivoted.cost == started.cost
            &&& pivoted.basis.m == m
            &&& pivoted.basis.n == n
            &&& pivoted.has_feasible_basis == started.has_feasible_basis
            &&& pivoted.basis.basis@ == state.basis
            &&& pivoted.basis.pivots_since_refactor == state.since
            &&& if stage == 1 {
                &&& outcome is Err
                &&& after == pivoted
                &&& simplex::iteration_ends(
                    self.trace,
                    self.end,
                    started.basis.start_state(started.numbers),
                    Phase::Two,
                    before.cost,
                    m,
                    n,
                    program,
                    numbers,
                    Err(outcome->Err_0),
                )
                &&& pivoted.numbers == simplex::numbers_at(
                    state.numbers,
                    self.end,
                    Err(outcome->Err_0),
                )
            } else {
                &&& simplex::iteration_ends(
                    self.trace,
                    self.end,
                    started.basis.start_state(started.numbers),
                    Phase::Two,
                    before.cost,
                    m,
                    n,
                    program,
                    numbers,
                    Ok(()),
                )
                &&& pivoted.numbers == simplex::numbers_at(state.numbers, self.end, Ok(()))
                &&& match outcome {
                    Err(error) => self.remembered.explains(
                        pivoted,
                        after,
                        program,
                        numbers,
                        Err(error),
                    ),
                    Ok(optimum) => {
                        &&& self.remembered.explains(pivoted, after, program, numbers, Ok(()))
                        &&& optimum.lambda@ == solution_of(
                            after.basis.basis@,
                            after.numbers.xb@,
                            n as int,
                            m,
                        )
                        &&& pricing::is_objective(
                            after.basis.basis@,
                            after.numbers.xb@,
                            after.cost@,
                            true,
                            numbers,
                            optimum.objective,
                        )
                    },
                }
            }
        }
    }
}

impl SimplexState {
    /// Solves the program for its current costs.
    #[verifier::rlimit(100)]
    #[verifier::spinoff_prover]
    pub fn solve<T: LpArithmetic>(
        &mut self,
        program: &LinearProgram,
        numbers: &T,
    ) -> (outcome: Result<LpOptimum, LpError>)
        requires
            old(self).wf(),
            old(self).basis.pivots_since_refactor < usize::MAX,
            old(self).suits(*program),
            numbers.ready(),
        ensures
            final(self).wf(),
            final(self).basis.m == old(self).basis.m,
            final(self).basis.n == old(self).basis.n,
            final(self).cost == old(self).cost,
            outcome is Ok ==> final(self).has_feasible_basis,
            final(self).basis.pivots_since_refactor <= old(self).basis.pivots_since_refactor + 1
                || final(self).basis.pivots_since_refactor <= REFACTOR_EVERY,
            exists|run: SolveRun, stage: int| #[trigger]
                run.explains(*old(self), *final(self), *program, *numbers, outcome, stage),
    {
        let ghost before = *self;
        let ghost mut run: SolveRun = arbitrary();
        let prepared = self.prepare(program, numbers);
        proof {
            run.prepared = choose|prepare: PrepareRun| #[trigger]
                prepare.explains(before, *self, *program, *numbers, prepared);
            run.stages.0 = *self;
        }
        match prepared {
            Err(error) => {
                assert(run.explains(before, *self, *program, *numbers, Err(error), 0));
                return Err(error);
            },
            Ok(()) => {},
        }
        let ghost feasible = *self;
        self.start_from_best_remembered(numbers);
        proof {
            run.start = choose|start: StartRun| #[trigger]
                start.explains(feasible, *self, *numbers);
            run.stages.1 = *self;
        }
        let ghost started = *self;
        let iterated = self.basis.iterate(
            Phase::Two,
            &self.cost,
            &mut self.numbers,
            program,
            numbers,
        );
        proof {
            let (trace, end) = choose|trace: Seq<PivotStep>, end: PivotStep| #[trigger]
                simplex::iteration_ends(
                    trace,
                    end,
                    started.basis.start_state(started.numbers),
                    Phase::Two,
                    started.cost,
                    started.basis.m as int,
                    started.basis.n,
                    *program,
                    *numbers,
                    iterated,
                ) && self.basis.basis@ == simplex::state_after(
                    trace,
                    started.basis.start_state(started.numbers),
                ).basis && self.basis.pivots_since_refactor == simplex::state_after(
                    trace,
                    started.basis.start_state(started.numbers),
                ).since && self.numbers == simplex::numbers_at(
                    simplex::state_after(
                        trace,
                        started.basis.start_state(started.numbers),
                    ).numbers,
                    end,
                    iterated,
                );
            run.trace = trace;
            run.end = end;
            run.stages.2 = *self;
        }
        match iterated {
            Err(error) => {
                assert(run.explains(before, *self, *program, *numbers, Err(error), 1));
                return Err(error);
            },
            Ok(()) => {},
        }
        let ghost pivoted = *self;
        let kept = self.remember_current(program, numbers);
        proof {
            run.remembered = choose|remember: RememberRun| #[trigger]
                remember.explains(pivoted, *self, *program, *numbers, kept);
        }
        match kept {
            Err(error) => {
                assert(run.explains(before, *self, *program, *numbers, Err(error), 2));
                return Err(error);
            },
            Ok(()) => {},
        }
        let lambda = basic_solution(
            self.basis.basis.as_slice(),
            self.numbers.xb.as_slice(),
            self.basis.n,
        );
        let objective = basis_objective(
            self.basis.basis.as_slice(),
            self.numbers.xb.as_slice(),
            self.cost.as_slice(),
            true,
            numbers,
        );
        let optimum = LpOptimum { objective, lambda };
        assert(run.explains(before, *self, *program, *numbers, Ok(optimum), 2));
        Ok(optimum)
    }
}

// ---------------------------------------------------------------------------
// A program and its solver
// ---------------------------------------------------------------------------

/// A program `max c'l` subject to `A l = g` and `l >= 0`, solved for one cost
/// after another.
#[derive(Debug, PartialEq, Eq)]
pub struct DenseSimplex {
    /// Columns and right-hand side.
    pub program: LinearProgram,
    /// Bases and costs.
    pub state: SimplexState,
    /// Optimal value of the last solve that succeeded.
    pub objective: Real,
    /// Value of each column there.
    pub lambda: Vec<Real>,
}

impl DenseSimplex {
    /// The bases are those of the program.
    pub open spec fn wf(self) -> bool {
        self.state.wf() && self.state.suits(self.program)
    }

    /// Whether a solve turned `self` into `after`: one of its program, which
    /// leaves the optimal value and the values of the columns where it succeeds
    /// and changes neither where it fails.
    pub open spec fn solves<T: LpArithmetic>(
        self,
        after: DenseSimplex,
        numbers: T,
        outcome: Result<(), LpError>,
    ) -> bool {
        exists|run: SolveRun, stage: int, solved: Result<LpOptimum, LpError>|
            #[trigger] run.explains(
                self.state,
                after.state,
                self.program,
                numbers,
                solved,
                stage,
            ) && match solved {
                Ok(optimum) => {
                    &&& outcome == Ok::<(), LpError>(())
                    &&& after.objective == optimum.objective
                    &&& after.lambda == optimum.lambda
                },
                Err(error) => {
                    &&& outcome == Err::<(), LpError>(error)
                    &&& after.objective == self.objective
                    &&& after.lambda == self.lambda
                },
            }
    }

    /// A program by its columns and right-hand side, without a memory.
    pub fn new(columns: Vec<Vec<Real>>, right: Vec<Real>) -> (made: Self)
        requires
            matrix::has_cols(columns@, right@.len() as int),
            simplex::pivot_limit(right@.len() as int, columns@.len() as int) <= usize::MAX,
        ensures
            made.wf(),
            made.program.columns == columns,
            made.program.right == right,
            made.state.memory.cap == 0,
            made.state.basis.pivots_since_refactor == 0,
            !made.state.has_feasible_basis,
    {
        let n: usize = columns.len();
        let state = SimplexState::new(right.len(), n, 0);
        DenseSimplex {
            program: LinearProgram::new(columns, right),
            state,
            objective: Real::zero(),
            lambda: filled_row(n, Real::zero()),
        }
    }

    /// Forgets all bases and makes room for `cap` of them.
    pub fn set_memory(&mut self, cap: usize)
        requires
            old(self).wf(),
        ensures
            final(self).wf(),
            final(self).program == old(self).program,
            final(self).objective == old(self).objective,
            final(self).lambda == old(self).lambda,
            final(self).state.basis == old(self).state.basis,
            final(self).state.numbers == old(self).state.numbers,
            final(self).state.cost == old(self).state.cost,
            final(self).state.has_feasible_basis == old(self).state.has_feasible_basis,
            final(self).state.memory.cap == cap,
            final(self).state.memory.entries@.len() == 0,
            final(self).state.memory.next == 0,
    {
        self.state.set_memory(cap);
    }

    /// Sets the cost of each column.
    pub fn set_cost(&mut self, cost: &[Real])
        requires
            old(self).wf(),
            cost.len() == old(self).program.count(),
        ensures
            final(self).wf(),
            final(self).program == old(self).program,
            final(self).objective == old(self).objective,
            final(self).lambda == old(self).lambda,
            final(self).state.cost@ == cost@,
            final(self).state.basis == old(self).state.basis,
            final(self).state.numbers == old(self).state.numbers,
            final(self).state.memory == old(self).state.memory,
            final(self).state.has_feasible_basis == old(self).state.has_feasible_basis,
    {
        self.state.set_cost(cost);
    }

    /// Finds a feasible basis, where there is none yet.
    #[verifier::rlimit(60)]
    #[verifier::spinoff_prover]
    pub fn prepare<T: LpArithmetic>(&mut self, numbers: &T) -> (outcome: Result<(), LpError>)
        requires
            old(self).wf(),
            old(self).state.basis.pivots_since_refactor < usize::MAX,
            numbers.ready(),
        ensures
            final(self).wf(),
            final(self).program == old(self).program,
            final(self).objective == old(self).objective,
            final(self).lambda == old(self).lambda,
            outcome is Ok ==> final(self).state.has_feasible_basis,
            exists|run: PrepareRun| #[trigger]
                run.explains(
                    old(self).state,
                    final(self).state,
                    old(self).program,
                    *numbers,
                    outcome,
                ),
    {
        self.state.prepare(&self.program, numbers)
    }

    /// Solves the program for its current costs, from the last basis where there
    /// is one.
    #[verifier::rlimit(60)]
    #[verifier::spinoff_prover]
    pub fn solve<T: LpArithmetic>(&mut self, numbers: &T) -> (outcome: Result<(), LpError>)
        requires
            old(self).wf(),
            old(self).state.basis.pivots_since_refactor < usize::MAX,
            numbers.ready(),
        ensures
            final(self).wf(),
            final(self).program == old(self).program,
            final(self).state.cost == old(self).state.cost,
            outcome is Ok ==> final(self).state.has_feasible_basis,
            final(self).state.basis.pivots_since_refactor
                <= old(self).state.basis.pivots_since_refactor + 1
                || final(self).state.basis.pivots_since_refactor <= REFACTOR_EVERY,
            old(self).solves(*final(self), *numbers, outcome),
    {
        let ghost before = *self;
        let solved = self.state.solve(&self.program, numbers);
        let ghost said = solved;
        let ghost (run, stage) = choose|run: SolveRun, stage: int| #[trigger]
            run.explains(
                before.state,
                self.state,
                before.program,
                *numbers,
                solved,
                stage,
            );
        let outcome = match solved {
            Ok(optimum) => {
                self.objective = optimum.objective;
                self.lambda = optimum.lambda;
                Ok(())
            },
            Err(error) => Err(error),
        };
        proof {
            assert(run.explains(
                before.state,
                self.state,
                before.program,
                *numbers,
                said,
                stage,
            ));
            assert(before.solves(*self, *numbers, outcome));
        }
        outcome
    }

    /// The duals of the current basis and costs.
    pub fn duals<T: LpArithmetic>(&self, numbers: &T) -> (y: Vec<Real>)
        requires
            self.wf(),
            self.state.has_feasible_basis,
            numbers.ready(),
        ensures
            y.len() == self.program.rows(),
            linear_program::are_duals(
                *numbers,
                Phase::Two,
                self.state.basis.basis@,
                self.state.numbers.binv@,
                self.state.cost@,
                y@,
            ),
    {
        compute_duals(
            self.state.basis.basis.as_slice(),
            self.state.numbers.binv.as_slice(),
            Phase::Two,
            self.state.cost.as_slice(),
            numbers,
        )
    }

    /// The first dual alone: the optimal value of the program whose dual this is,
    /// where the right-hand side is the first unit vector.
    pub fn dual_0<T: LpArithmetic>(&self, numbers: &T) -> (dual: Real)
        requires
            self.wf(),
            self.state.has_feasible_basis,
            self.program.rows() > 0,
            numbers.ready(),
        ensures
            pricing::is_dual(
                self.state.basis.basis@,
                self.state.numbers.binv@,
                0,
                Phase::Two,
                self.state.cost@,
                *numbers,
                dual,
            ),
    {
        dual_0(
            self.state.basis.basis.as_slice(),
            self.state.numbers.binv.as_slice(),
            self.state.cost.as_slice(),
            numbers,
        )
    }

    /// Whether `reduced` are the reduced costs of the columns in the current
    /// basis for given costs.
    pub open spec fn reduces_at<T: LpArithmetic>(
        self,
        numbers: T,
        cost: Seq<Real>,
        reduced: Seq<Real>,
    ) -> bool {
        exists|y: Vec<Real>| #[trigger]
            self.program.reduces_to(numbers, Phase::Two, cost, y, reduced)
                && linear_program::are_duals(
                numbers,
                Phase::Two,
                self.state.basis.basis@,
                self.state.numbers.binv@,
                cost,
                y@,
            )
    }

    /// Whether `costs` are the reduced costs of the columns for costs along a
    /// line.
    pub open spec fn ranges<T: LpArithmetic>(
        self,
        numbers: T,
        c0: Seq<Real>,
        c1: Seq<Real>,
        d0: Seq<Real>,
        d1: Seq<Real>,
        costs: Seq<ReducedCost>,
    ) -> bool {
        &&& self.reduces_at(numbers, c0, d0)
        &&& self.reduces_at(numbers, c1, d1)
        &&& costs.len() == self.program.count()
        &&& forall|j: int|
            0 <= j < costs.len() ==> (#[trigger] costs[j]).slope == d1[j] && numbers.limits(
                d0[j],
                d1[j],
                costs[j].bound,
            )
    }

    /// Whether the current basis is optimal for the costs `c0 + t c1` with `t` in
    /// an interval.
    pub open spec fn is_optimal_for<T: LpArithmetic>(
        self,
        numbers: T,
        c0: Seq<Real>,
        c1: Seq<Real>,
        interval: (Real, Real),
    ) -> bool {
        exists|d0: Seq<Real>, d1: Seq<Real>, costs: Seq<ReducedCost>| #[trigger]
            self.ranges(numbers, c0, c1, d0, d1, costs) && interval
                == workspaces::optimal_interval(
                self.state.basis.is_basic@,
                costs,
                costs.len() as int,
            )
    }

    fn reduced_at<T: LpArithmetic>(&self, cost: &Vec<Real>, numbers: &T) -> (reduced: Vec<Real>)
        requires
            self.wf(),
            self.state.has_feasible_basis,
            cost.len() == self.program.count(),
            numbers.ready(),
        ensures
            self.reduces_at(*numbers, cost@, reduced@),
            reduced.len() == self.program.count(),
    {
        let (y, reduced) = self.program.price(
            Phase::Two,
            self.state.basis.basis.as_slice(),
            true,
            &self.state.numbers,
            cost,
            numbers,
        );
        assert(self.program.reduces_to(*numbers, Phase::Two, cost@, y, reduced@));
        reduced
    }

    /// The `t` for which the current basis stays optimal for the costs
    /// `c0 + t c1`.
    pub fn optimality_interval<T: LpArithmetic>(
        &self,
        c0: &Vec<Real>,
        c1: &Vec<Real>,
        numbers: &T,
    ) -> (interval: (Real, Real))
        requires
            self.wf(),
            self.state.has_feasible_basis,
            c0.len() == self.program.count(),
            c1.len() == self.program.count(),
            numbers.ready(),
        ensures
            self.is_optimal_for(*numbers, c0@, c1@, interval),
    {
        let d0 = self.reduced_at(c0, numbers);
        let d1 = self.reduced_at(c1, numbers);
        let mut costs: Vec<ReducedCost> = Vec::new();
        while costs.len() < d0.len()
            invariant
                costs.len() <= d0.len(),
                d1.len() == d0.len(),
                numbers.ready(),
                forall|j: int|
                    0 <= j < costs.len() ==> (#[trigger] costs@[j]).slope == d1@[j]
                        && numbers.limits(d0@[j], d1@[j], costs@[j].bound),
            decreases d0.len() - costs.len(),
        {
            let j: usize = costs.len();
            costs.push(ReducedCost { slope: d1[j], bound: numbers.bound(d0[j], d1[j]) });
        }
        let interval = optimality_interval(self.state.basis.is_basic.as_slice(), costs.as_slice());
        assert(self.ranges(*numbers, c0@, c1@, d0@, d1@, costs@));
        interval
    }
}

/// The value of each column: the basic value of a basic column, raised to zero
/// where rounding made it negative, and zero elsewhere.
pub open spec fn solution_of(basis: Seq<usize>, xb: Seq<Real>, n: int, end: int) -> Seq<Real>
    decreases end,
{
    if end <= 0 {
        Seq::new(n as nat, |j: int| Real::zero_spec())
    } else if basis[end - 1] < n {
        solution_of(basis, xb, n, end - 1).update(
            basis[end - 1] as int,
            xb[end - 1].max_spec(Real::zero_spec()),
        )
    } else {
        solution_of(basis, xb, n, end - 1)
    }
}

/// The value of each column of a solved program.
pub fn basic_solution(basis: &[usize], xb: &[Real], n: usize) -> (values: Vec<Real>)
    requires
        basis.len() == xb.len(),
    ensures
        values@ == solution_of(basis@, xb@, n as int, basis.len() as int),
        values.len() == n,
{
    let mut values = filled_row(n, Real::zero());
    proof {
        assert(values@ =~= solution_of(basis@, xb@, n as int, 0));
    }
    let mut i: usize = 0;
    while i < basis.len()
        invariant
            i <= basis.len(),
            basis.len() == xb.len(),
            values.len() == n,
            values@ == solution_of(basis@, xb@, n as int, i as int),
        decreases basis.len() - i,
    {
        if basis[i] < n {
            values.set(basis[i], xb[i].max(Real::zero()));
        }
        i = i + 1;
    }
    values
}

/// The row that is pivoted on when the rows `k` to `end` of a column have been
/// looked at: one takes the place of the row so far where its magnitude is
/// larger.
pub open spec fn pivot_scan(column: Seq<Real>, k: int, end: int) -> int
    decreases end - k,
{
    if end <= k + 1 {
        k
    } else {
        let row = pivot_scan(column, k, end - 1);
        if column[row].abs_spec().lt(column[end - 1].abs_spec()) {
            end - 1
        } else {
            row
        }
    }
}

/// The row that is pivoted on in column `k` of a factorisation; none where its
/// entry counts as zero.
pub fn factor_pivot_row(column: &[Real], k: usize) -> (row: Option<usize>)
    requires
        k < column.len(),
    ensures
        ({
            let found = pivot_scan(column@, k as int, column.len() as int);
            row == (if column@[found].abs_spec().lt(Real { bits: SINGULAR_BITS }) {
                None
            } else {
                Some(found as usize)
            })
        }),
        row matches Some(r) ==> k <= r < column.len(),
{
    let mut row: usize = k;
    let mut i: usize = k + 1;
    while i < column.len()
        invariant
            k < i <= column.len(),
            k <= row < i,
            row == pivot_scan(column@, k as int, i as int),
        decreases column.len() - i,
    {
        if column[row].abs().less(column[i].abs()) {
            row = i;
        }
        i = i + 1;
    }
    let floor = Real { bits: SINGULAR_BITS };
    if column[row].abs().less(floor) {
        None
    } else {
        Some(row)
    }
}

/// In a column without NaN the row that is pivoted on is the first of largest
/// magnitude.
pub proof fn pivot_row_is_largest(column: Seq<Real>, k: int, end: int)
    requires
        0 <= k < end <= column.len(),
        forall|i: int| k <= i < end ==> !(#[trigger] column[i]).nan(),
    ensures
        ({
            let row = pivot_scan(column, k, end);
            &&& k <= row < end
            &&& forall|i: int|
                k <= i < row ==> (#[trigger] column[i]).magnitude() < column[row].magnitude()
            &&& forall|i: int|
                k <= i < end ==> (#[trigger] column[i]).magnitude() <= column[row].magnitude()
        }),
    decreases end - k,
{
    if end > k + 1 {
        pivot_row_is_largest(column, k, end - 1);
        let row = pivot_scan(column, k, end - 1);
        assert(!column[row].nan() && !column[end - 1].nan());
    }
}

} // verus!
