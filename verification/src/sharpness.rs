//! What identified sets hold.
//!
//! An effect is what a functional of the coefficients is once a violation path is
//! taken off. Where the arithmetic is exact under a reading and the solver finds
//! optima, an identified set spans the effects of the paths that agree with the
//! pre-period coefficients and obey the restriction: each of them lies in the set,
//! and its ends are among them.

use crate::branches;
use crate::branches::RelativeMagnitudeFamily;
use crate::cone;
use crate::cone::ConeProgram;
use crate::conic;
use crate::conic::{BranchProgramRun, RelativeMagnitudeIdentifiedSetWorkspace};
use crate::constraints;
use crate::constraints::Coefficient;
use crate::errors::HonestError;
use crate::exact;
use crate::functional;
use crate::input;
use crate::input::HonestEventStudyInput;
use crate::matrix;
use crate::number::Real;
use crate::paths;
use crate::programs::ProgramAnswer;
use crate::relative_magnitude;
use crate::smoothness;
use crate::smoothness::{SetRun, SmoothnessFamily};
use crate::study::StudyArithmetic;
use crate::types::HonestIdentifiedSet;
use vstd::prelude::*;

verus! {

// ---------------------------------------------------------------------------
// Exact arithmetic
// ---------------------------------------------------------------------------

/// Whether a point satisfies the rows of a program without a cone.
pub open spec fn feasible(
    program: ConeProgram,
    read: spec_fn(Real) -> int,
    point: Seq<int>,
) -> bool {
    let count = program.inequalities@.len() as int;
    let n = program.objective@.len() as int;
    &&& point.len() == n
    &&& forall|i: int|
        0 <= i < count ==> exact::inner(
            exact::values(read, (#[trigger] program.inequalities@[i])@),
            point,
            n,
        ) <= read(program.rhs@[i])
    &&& forall|i: int|
        0 <= i < program.equalities@.len() ==> exact::inner(
            exact::values(read, (#[trigger] program.equalities@[i])@),
            point,
            n,
        ) == read(program.rhs@[count + i])
}

/// The objective of a program at a point.
pub open spec fn cost(program: ConeProgram, read: spec_fn(Real) -> int, point: Seq<int>) -> int {
    exact::inner(
        exact::values(read, program.objective@),
        point,
        program.objective@.len() as int,
    )
}

/// Whether an answer is true of a program without a cone: a solution is feasible
/// and none is cheaper, and where there is none, no point is feasible.
pub open spec fn truthful(
    program: ConeProgram,
    read: spec_fn(Real) -> int,
    answer: ProgramAnswer<Vec<Real>>,
) -> bool {
    &&& answer.status.solved() ==> feasible(program, read, exact::values(read, answer.found@))
        && forall|point: Seq<int>| #[trigger]
        feasible(program, read, point) ==> cost(
            program,
            read,
            exact::values(read, answer.found@),
        ) <= cost(program, read, point)
    &&& answer.status.infeasible() ==> forall|point: Seq<int>| !#[trigger]
        feasible(program, read, point)
}

/// Whether the arithmetic of an event study is exact under a reading and its
/// solver true.
pub open spec fn exact_study<A: StudyArithmetic>(numbers: A, read: spec_fn(Real) -> int) -> bool {
    &&& exact::faithful(read)
    &&& forall|left: Vec<Real>, right: Vec<Real>, product: Real|
        left@.len() == right@.len() && #[trigger] numbers.produces(left, right, product) ==> read(
            product,
        ) == exact::inner(
            exact::values(read, left@),
            exact::values(read, right@),
            left@.len() as int,
        )
    &&& forall|estimate: Real, violation: Real, left: Real| #[trigger]
        numbers.shifts(estimate, violation, left) ==> !left.nan() && read(left) == read(estimate)
            - read(violation)
    &&& forall|coefficient: Coefficient, bound: Real, value: Real| #[trigger]
        numbers.evaluates(coefficient, bound, value) ==> read(value) == paths::number_of(
            coefficient,
            read(bound),
        )
    &&& forall|program: ConeProgram, loose: bool, answer: ProgramAnswer<Vec<Real>>| #[trigger]
        numbers.answers(program, loose, Ok(answer)) && program.soc_rows@.len() == 0 ==> truthful(
            program,
            read,
            answer,
        )
}

// ---------------------------------------------------------------------------
// Effects
// ---------------------------------------------------------------------------

/// The effect that a functional has once a path of violations is taken off the
/// coefficients.
pub open spec fn effect(
    read: spec_fn(Real) -> int,
    betahat: Seq<Real>,
    weights: Seq<Real>,
    num_pre: int,
    path: Seq<int>,
) -> int {
    exact::inner(
        exact::values(read, weights),
        Seq::new(weights.len(), |i: int| read(betahat[num_pre + i]) - path[num_pre + i]),
        weights.len() as int,
    )
}

/// Whether a path has the violations that the pre-period coefficients show.
pub open spec fn agrees(
    read: spec_fn(Real) -> int,
    betahat: Seq<Real>,
    num_pre: int,
    path: Seq<int>,
) -> bool {
    forall|t: int| 0 <= t < num_pre ==> #[trigger] path[t] == read(betahat[t])
}

/// Whether a path meets rows with limits.
spec fn meets(
    read: spec_fn(Real) -> int,
    rows: Seq<Vec<Real>>,
    limits: Seq<Real>,
    path: Seq<int>,
) -> bool {
    forall|i: int|
        0 <= i < rows.len() ==> exact::inner(
            exact::values(read, (#[trigger] rows[i])@),
            path,
            path.len() as int,
        ) <= read(limits[i])
}

/// Whether a program asks for a path that meets rows and agrees with coefficients.
spec fn asks_for_path(
    program: ConeProgram,
    rows: Seq<Vec<Real>>,
    limits: Seq<Real>,
    num_pre: int,
    num_post: int,
    pre: Seq<Real>,
    objective: Seq<Real>,
) -> bool {
    &&& program.objective@ == objective
    &&& objective.len() == num_pre + num_post
    &&& matrix::rows_of(program.inequalities@) == matrix::rows_of(rows)
    &&& limits.len() == rows.len()
    &&& pre.len() == num_pre
    &&& functional::is_identity_block(program.equalities@, num_pre, num_pre + num_post)
    &&& program.rhs@ == limits + pre
}

proof fn feasible_points_are_paths(
    program: ConeProgram,
    read: spec_fn(Real) -> int,
    rows: Seq<Vec<Real>>,
    limits: Seq<Real>,
    num_pre: int,
    num_post: int,
    pre: Seq<Real>,
    objective: Seq<Real>,
    point: Seq<int>,
)
    requires
        asks_for_path(program, rows, limits, num_pre, num_post, pre, objective),
        exact::faithful(read),
        0 <= num_pre,
        0 <= num_post,
        point.len() == num_pre + num_post,
    ensures
        feasible(program, read, point) <==> meets(read, rows, limits, point) && agrees(
            read,
            pre,
            num_pre,
            point,
        ),
{
    let n = num_pre + num_post;
    let count = rows.len() as int;
    assert(program.inequalities@.len() == count) by {
        assert(matrix::rows_of(program.inequalities@).len() == matrix::rows_of(rows).len());
    }
    assert forall|i: int| 0 <= i < count implies (#[trigger] program.inequalities@[i])@
        == rows[i]@ by {
        assert(matrix::rows_of(program.inequalities@)[i] == matrix::rows_of(rows)[i]);
    }
    assert forall|i: int| 0 <= i < num_pre implies exact::inner(
        exact::values(read, (#[trigger] program.equalities@[i])@),
        point,
        n,
    ) == point[i] by {
        let row = exact::values(read, program.equalities@[i]@);
        assert(program.equalities@[i]@.len() == n);
        assert forall|j: int| 0 <= j < n implies #[trigger] row[j] == (if j == i {
            1int
        } else {
            0int
        }) by {
            assert(program.equalities@[i]@[j] == (if i == j {
                Real::one_spec()
            } else {
                Real::zero_spec()
            }));
        }
        exact::inner_with_unit(row, point, i, n);
    }
    if feasible(program, read, point) {
        assert forall|i: int| 0 <= i < rows.len() implies exact::inner(
            exact::values(read, (#[trigger] rows[i])@),
            point,
            n,
        ) <= read(limits[i]) by {
            assert(program.inequalities@[i]@ == rows[i]@);
        }
        assert forall|t: int| 0 <= t < num_pre implies #[trigger] point[t] == read(pre[t]) by {
            assert(exact::inner(exact::values(read, program.equalities@[t]@), point, n)
                == read(program.rhs@[count + t]));
        }
    }
    if meets(read, rows, limits, point) && agrees(read, pre, num_pre, point) {
        assert forall|i: int| 0 <= i < program.inequalities@.len() implies exact::inner(
            exact::values(read, (#[trigger] program.inequalities@[i])@),
            point,
            n,
        ) <= read(program.rhs@[i]) by {
            assert(rows[i]@ == program.inequalities@[i]@);
        }
        assert forall|i: int| 0 <= i < program.equalities@.len() implies exact::inner(
            exact::values(read, (#[trigger] program.equalities@[i])@),
            point,
            n,
        ) == read(program.rhs@[count + i]) by {
            assert(point[i] == read(pre[i]));
        }
    }
}

/// The objective of a functional weighs the post periods alone.
proof fn objective_is_functional(
    read: spec_fn(Real) -> int,
    objective: Seq<Real>,
    weights: Seq<Real>,
    num_pre: int,
    path: Seq<int>,
    end: int,
)
    requires
        read(Real::zero_spec()) == 0,
        0 <= num_pre,
        objective == cone::zeros(num_pre) + weights,
        0 <= end <= weights.len(),
        path.len() == num_pre + weights.len(),
    ensures
        exact::inner(exact::values(read, objective), path, num_pre + end) == exact::inner(
            exact::values(read, weights),
            path.skip(num_pre),
            end,
        ),
    decreases end,
{
    if end > 0 {
        objective_is_functional(read, objective, weights, num_pre, path, end - 1);
        assert(objective[num_pre + end - 1] == weights[end - 1]);
        assert(path.skip(num_pre)[end - 1] == path[num_pre + end - 1]);
    } else {
        zeros_weigh_nothing(read, objective, path, num_pre);
    }
}

proof fn zeros_weigh_nothing(
    read: spec_fn(Real) -> int,
    objective: Seq<Real>,
    path: Seq<int>,
    end: int,
)
    requires
        read(Real::zero_spec()) == 0,
        0 <= end <= objective.len(),
        forall|i: int| 0 <= i < end ==> #[trigger] objective[i] == Real::zero_spec(),
    ensures
        exact::inner(exact::values(read, objective), path, end) == 0,
    decreases end,
{
    if end > 0 {
        zeros_weigh_nothing(read, objective, path, end - 1);
        assert(objective[end - 1] == Real::zero_spec());
        assert(0 * path[end - 1] == 0);
    }
}

proof fn negated_objective(
    read: spec_fn(Real) -> int,
    objective: Seq<Real>,
    negated: Seq<Real>,
    path: Seq<int>,
    end: int,
)
    requires
        exact::faithful(read),
        0 <= end <= objective.len(),
        negated == Seq::new(objective.len(), |i: int| objective[i].neg_spec()),
    ensures
        exact::inner(exact::values(read, negated), path, end) == -exact::inner(
            exact::values(read, objective),
            path,
            end,
        ),
    decreases end,
{
    if end > 0 {
        negated_objective(read, objective, negated, path, end - 1);
        let x = objective[end - 1];
        let a = read(x);
        let b = path[end - 1];
        assert(negated[end - 1] == x.neg_spec());
        assert(read(x.neg_spec()) == -a);
        assert((-a) * b == -(a * b)) by (nonlinear_arith);
    }
}

/// The effect of a path is the estimate less the violation of the functional.
proof fn effect_is_what_is_left(
    read: spec_fn(Real) -> int,
    betahat: Seq<Real>,
    weights: Seq<Real>,
    objective: Seq<Real>,
    num_pre: int,
    path: Seq<int>,
)
    requires
        read(Real::zero_spec()) == 0,
        0 <= num_pre,
        objective == cone::zeros(num_pre) + weights,
        path.len() == num_pre + weights.len(),
        betahat.len() == num_pre + weights.len(),
    ensures
        effect(read, betahat, weights, num_pre, path) == exact::inner(
            exact::values(read, weights),
            exact::values(read, betahat.skip(num_pre)),
            weights.len() as int,
        ) - exact::inner(
            exact::values(read, objective),
            path,
            path.len() as int,
        ),
{
    let k = weights.len() as int;
    objective_is_functional(read, objective, weights, num_pre, path, k);
    let left = Seq::new(weights.len(), |i: int| read(betahat[num_pre + i]) - path[num_pre + i]);
    let betas = exact::values(read, betahat.skip(num_pre));
    assert forall|i: int| 0 <= i < k implies #[trigger] left[i] == betas[i] - path.skip(
        num_pre,
    )[i] by {
        assert(betahat.skip(num_pre)[i] == betahat[num_pre + i]);
    }
    exact::inner_of_difference(
        exact::values(read, weights),
        betas,
        path.skip(num_pre),
        left,
        k,
    );
}

/// Whether a set spans the effects of the paths that meet rows and agree with the
/// coefficients.
spec fn spans(
    read: spec_fn(Real) -> int,
    betahat: Seq<Real>,
    weights: Seq<Real>,
    num_pre: int,
    rows: Seq<Vec<Real>>,
    limits: Seq<Real>,
    set: HonestIdentifiedSet,
) -> bool {
    let n = betahat.len() as int;
    &&& forall|path: Seq<int>|
        path.len() == n && #[trigger] meets(read, rows, limits, path) && agrees(
            read,
            betahat,
            num_pre,
            path,
        ) ==> read(set.lb) <= effect(read, betahat, weights, num_pre, path) <= read(set.ub)
    &&& exists|path: Seq<int>|
        path.len() == n && #[trigger] meets(read, rows, limits, path) && agrees(
            read,
            betahat,
            num_pre,
            path,
        ) && effect(read, betahat, weights, num_pre, path) == read(set.lb)
    &&& exists|path: Seq<int>|
        path.len() == n && #[trigger] meets(read, rows, limits, path) && agrees(
            read,
            betahat,
            num_pre,
            path,
        ) && effect(read, betahat, weights, num_pre, path) == read(set.ub)
}

proof fn two_programs_span<A: StudyArithmetic>(
    numbers: A,
    read: spec_fn(Real) -> int,
    betahat: Seq<Real>,
    weights: Seq<Real>,
    num_pre: int,
    rows: Seq<Vec<Real>>,
    limits: Seq<Real>,
    highest: ConeProgram,
    lowest: ConeProgram,
    objective: Vec<Real>,
    negated: Seq<Real>,
    top: ProgramAnswer<Vec<Real>>,
    bottom: ProgramAnswer<Vec<Real>>,
    estimate: Real,
    most: Real,
    least: Real,
    set: HonestIdentifiedSet,
)
    requires
        exact_study(numbers, read),
        0 <= num_pre <= betahat.len(),
        weights.len() == betahat.len() - num_pre,
        objective@ == cone::zeros(num_pre) + weights,
        negated == Seq::new(objective@.len(), |i: int| objective@[i].neg_spec()),
        asks_for_path(
            highest,
            rows,
            limits,
            num_pre,
            weights.len() as int,
            betahat.take(num_pre),
            negated,
        ),
        asks_for_path(
            lowest,
            rows,
            limits,
            num_pre,
            weights.len() as int,
            betahat.take(num_pre),
            objective@,
        ),
        truthful(highest, read, top),
        truthful(lowest, read, bottom),
        top.status.solved(),
        bottom.status.solved(),
        read(estimate) == exact::inner(
            exact::values(read, weights),
            exact::values(read, betahat.skip(num_pre)),
            weights.len() as int,
        ),
        numbers.produces(objective, top.found, most),
        numbers.produces(objective, bottom.found, least),
        numbers.shifts(estimate, most, set.lb),
        numbers.shifts(estimate, least, set.ub),
    ensures
        spans(read, betahat, weights, num_pre, rows, limits, set),
{
    let n = betahat.len() as int;
    let k = weights.len() as int;
    let pre = betahat.take(num_pre);
    let up = exact::values(read, top.found@);
    let down = exact::values(read, bottom.found@);
    assert(feasible(highest, read, up));
    assert(feasible(lowest, read, down));
    assert(top.found@.len() == n && bottom.found@.len() == n);
    assert forall|path: Seq<int>| agrees(read, pre, num_pre, path) == #[trigger] agrees(
        read,
        betahat,
        num_pre,
        path,
    ) by {
        if agrees(read, pre, num_pre, path) {
            assert forall|t: int| 0 <= t < num_pre implies #[trigger] path[t] == read(
                betahat[t],
            ) by {
                assert(pre[t] == betahat[t]);
            }
        }
        if agrees(read, betahat, num_pre, path) {
            assert forall|t: int| 0 <= t < num_pre implies #[trigger] path[t] == read(pre[t]) by {
                assert(pre[t] == betahat[t]);
            }
        }
    }
    feasible_points_are_paths(highest, read, rows, limits, num_pre, k, pre, negated, up);
    feasible_points_are_paths(lowest, read, rows, limits, num_pre, k, pre, objective@, down);
    effect_is_what_is_left(read, betahat, weights, objective@, num_pre, up);
    effect_is_what_is_left(read, betahat, weights, objective@, num_pre, down);
    negated_objective(read, objective@, negated, up, n);
    assert(agrees(read, betahat, num_pre, up));
    assert(agrees(read, betahat, num_pre, down));
    assert(meets(read, rows, limits, up));
    assert(meets(read, rows, limits, down));
    assert(effect(read, betahat, weights, num_pre, up) == read(set.lb));
    assert(effect(read, betahat, weights, num_pre, down) == read(set.ub));
    assert forall|path: Seq<int>|
        path.len() == n && #[trigger] meets(read, rows, limits, path) && agrees(
            read,
            betahat,
            num_pre,
            path,
        ) implies read(set.lb) <= effect(read, betahat, weights, num_pre, path) <= read(set.ub) by {
        feasible_points_are_paths(highest, read, rows, limits, num_pre, k, pre, negated, path);
        feasible_points_are_paths(lowest, read, rows, limits, num_pre, k, pre, objective@, path);
        effect_is_what_is_left(read, betahat, weights, objective@, num_pre, path);
        negated_objective(read, objective@, negated, path, n);
        assert(feasible(highest, read, path));
        assert(feasible(lowest, read, path));
        assert(cost(highest, read, up) <= cost(highest, read, path));
        assert(cost(lowest, read, down) <= cost(lowest, read, path));
    }
}

// ---------------------------------------------------------------------------
// Rows of coefficients
// ---------------------------------------------------------------------------

proof fn valued_row_is_its_value<A: StudyArithmetic>(
    numbers: A,
    read: spec_fn(Real) -> int,
    row: Seq<Coefficient>,
    value: Seq<Real>,
    bound: Real,
    path: Seq<int>,
    end: int,
)
    requires
        exact_study(numbers, read),
        value.len() == row.len(),
        0 <= end <= row.len(),
        forall|j: int|
            0 <= j < row.len() ==> numbers.evaluates(row[j], bound, #[trigger] value[j]),
    ensures
        exact::inner(exact::values(read, value), path, end) == paths::row_sum(
            row,
            path,
            read(bound),
            end,
        ),
    decreases end,
{
    if end > 0 {
        valued_row_is_its_value(numbers, read, row, value, bound, path, end - 1);
        assert(numbers.evaluates(row[end - 1], bound, value[end - 1]));
    }
}

/// The numbers of coefficient rows have the values of the rows on every path.
pub proof fn valued_rows_are_their_values<A: StudyArithmetic>(
    numbers: A,
    read: spec_fn(Real) -> int,
    rows: Seq<Vec<Coefficient>>,
    values: Seq<Vec<Real>>,
    bound: Real,
    path: Seq<int>,
)
    requires
        exact_study(numbers, read),
        functional::valued(rows, numbers, bound, values),
        matrix::has_cols(rows, path.len() as int),
    ensures
        forall|i: int|
            0 <= i < rows.len() ==> #[trigger] paths::row_value(rows[i]@, path, read(bound))
                == exact::inner(
                exact::values(read, values[i]@),
                path,
                path.len() as int,
            ),
{
    assert forall|i: int| 0 <= i < rows.len() implies #[trigger] paths::row_value(
        rows[i]@,
        path,
        read(bound),
    ) == exact::inner(exact::values(read, values[i]@), path, path.len() as int) by {
        assert(rows[i]@.len() == path.len());
        assert(values[i]@.len() == rows[i]@.len());
        assert forall|j: int| 0 <= j < rows[i]@.len() implies numbers.evaluates(
            rows[i]@[j],
            bound,
            #[trigger] values[i]@[j],
        ) by {}
        valued_row_is_its_value(
            numbers,
            read,
            rows[i]@,
            values[i]@,
            bound,
            path,
            path.len() as int,
        );
    }
}

// ---------------------------------------------------------------------------
// Relative magnitudes
// ---------------------------------------------------------------------------

/// Whether a path obeys a relative-magnitude restriction at a bound.
pub open spec fn obeys_magnitudes(
    path: Seq<int>,
    num_pre: int,
    family: RelativeMagnitudeFamily,
    bound: int,
) -> bool {
    &&& match family {
        RelativeMagnitudeFamily::Base => paths::relatively_bounded(path, num_pre, bound),
        RelativeMagnitudeFamily::SignedBase(_) => paths::relatively_bounded(path, num_pre, bound),
        RelativeMagnitudeFamily::MonotoneBase(_) => paths::relatively_bounded(
            path,
            num_pre,
            bound,
        ),
        _ => paths::relatively_straight(path, num_pre, bound),
    }
    &&& paths::obeys_addition(path, num_pre, family)
}

proof fn an_optimum_is_truthful<A: StudyArithmetic>(
    before: RelativeMagnitudeIdentifiedSetWorkspace,
    after: RelativeMagnitudeIdentifiedSetWorkspace,
    program: ConeProgram,
    numbers: A,
    read: spec_fn(Real) -> int,
    out: Option<Vec<Real>>,
) -> (answer: ProgramAnswer<Vec<Real>>)
    requires
        exact_study(numbers, read),
        program.soc_rows@.len() == 0,
        conic::optimum_on(before, after, program, numbers, Ok(out)),
    ensures
        truthful(program, read, answer),
        out is Some ==> answer.status.solved() && answer.found == out->Some_0,
        out is None ==> answer.status.infeasible(),
{
    let (first, second) = choose|
        first: Result<ProgramAnswer<Vec<Real>>, String>,
        second: Result<ProgramAnswer<Vec<Real>>, String>,
    | #[trigger]
        conic::solved_on(before, after, program, numbers, first, second, Ok(out));
    assert(first is Ok);
    if first->Ok_0.status.inaccurate() {
        assert(second is Ok);
        assert(numbers.answers(program, true, Ok(second->Ok_0)));
        second->Ok_0
    } else {
        assert(numbers.answers(program, before.loose, Ok(first->Ok_0)));
        first->Ok_0
    }
}

proof fn branch_program_asks_for_path(
    program: ConeProgram,
    rows: Seq<Vec<Real>>,
    num_pre: int,
    num_post: int,
    pre: Seq<Real>,
    objective: Seq<Real>,
)
    requires
        conic::is_branch_program(program, rows, num_pre, num_post, pre, objective),
        objective.len() == num_pre + num_post,
        pre.len() == num_pre,
    ensures
        asks_for_path(
            program,
            rows,
            cone::zeros(rows.len() as int),
            num_pre,
            num_post,
            pre,
            objective,
        ),
{
}

/// What the answer of a branch says of paths.
spec fn branch_answer_is_true(
    read: spec_fn(Real) -> int,
    betahat: Seq<Real>,
    weights: Seq<Real>,
    num_pre: int,
    rows: Seq<Vec<Real>>,
    answer: Option<HonestIdentifiedSet>,
) -> bool {
    match answer {
        Some(set) => spans(
            read,
            betahat,
            weights,
            num_pre,
            rows,
            cone::zeros(rows.len() as int),
            set,
        ) && !set.lb.nan() && !set.ub.nan(),
        None => forall|path: Seq<int>|
            path.len() == betahat.len() && #[trigger] meets(
                read,
                rows,
                cone::zeros(rows.len() as int),
                path,
            ) ==> !agrees(read, betahat, num_pre, path),
    }
}

proof fn branch_answers_are_true<A: StudyArithmetic>(
    numbers: A,
    read: spec_fn(Real) -> int,
    betahat: Seq<Real>,
    weights: Seq<Real>,
    num_pre: int,
    rows: Seq<Vec<Real>>,
    answer: Option<HonestIdentifiedSet>,
)
    requires
        exact_study(numbers, read),
        0 <= num_pre <= betahat.len(),
        weights.len() == betahat.len() - num_pre,
        conic::branch_identified(
            num_pre,
            weights.len() as int,
            betahat,
            weights,
            rows,
            numbers,
            Ok(answer),
        ),
    ensures
        branch_answer_is_true(read, betahat, weights, num_pre, rows, answer),
{
    let k = weights.len() as int;
    let pre = betahat.take(num_pre);
    let limits = cone::zeros(rows.len() as int);
    let run = choose|run: BranchProgramRun| #[trigger]
        run.explains(num_pre, k, betahat, weights, rows, numbers, Ok(answer));
    let start = RelativeMagnitudeIdentifiedSetWorkspace { loose: false };
    assert(run.largest is Ok);
    assert(run.smallest is Ok);
    let largest = run.largest->Ok_0;
    let smallest = run.smallest->Ok_0;
    let top = an_optimum_is_truthful(start, run.between, run.highest, numbers, read, largest);
    let bottom = an_optimum_is_truthful(
        run.between,
        run.after,
        run.lowest,
        numbers,
        read,
        smallest,
    );
    branch_program_asks_for_path(run.highest, rows, num_pre, k, pre, run.negated@);
    branch_program_asks_for_path(run.lowest, rows, num_pre, k, pre, run.objective@);
    match answer {
        Some(set) => {
            two_programs_span(
                numbers,
                read,
                betahat,
                weights,
                num_pre,
                rows,
                limits,
                run.highest,
                run.lowest,
                run.objective,
                run.negated@,
                top,
                bottom,
                run.estimate,
                run.most,
                run.least,
                set,
            );
        },
        None => {
            assert forall|path: Seq<int>|
                path.len() == betahat.len() && #[trigger] meets(
                    read,
                    rows,
                    limits,
                    path,
                ) implies !agrees(read, betahat, num_pre, path) by {
                if agrees(read, betahat, num_pre, path) {
                    assert forall|t: int| 0 <= t < num_pre implies #[trigger] path[t] == read(
                        pre[t],
                    ) by {
                        assert(pre[t] == betahat[t]);
                    }
                    feasible_points_are_paths(
                        run.highest,
                        read,
                        rows,
                        limits,
                        num_pre,
                        k,
                        pre,
                        run.negated@,
                        path,
                    );
                    feasible_points_are_paths(
                        run.lowest,
                        read,
                        rows,
                        limits,
                        num_pre,
                        k,
                        pre,
                        run.objective@,
                        path,
                    );
                    assert(feasible(run.highest, read, path));
                    assert(feasible(run.lowest, read, path));
                }
            }
        },
    }
}

/// What the answer of a branch of a family says of the paths in the branch.
spec fn family_answer_is_true(
    read: spec_fn(Real) -> int,
    data: HonestEventStudyInput,
    weights: Seq<Real>,
    family: RelativeMagnitudeFamily,
    k: int,
    bound: int,
    answer: Option<HonestIdentifiedSet>,
) -> bool {
    let num_pre = data.pre_periods@.len() as int;
    let branch = family.branches_spec(num_pre)[k];
    let betahat = data.betahat@;
    &&& forall|path: Seq<int>|
        path.len() == betahat.len() && #[trigger] paths::in_listed_branch(
            path,
            num_pre,
            family,
            branch,
            bound,
        ) && paths::obeys_addition(path, num_pre, family) && agrees(read, betahat, num_pre, path)
            ==> answer is Some && read(answer->Some_0.lb) <= effect(
            read,
            betahat,
            weights,
            num_pre,
            path,
        ) <= read(answer->Some_0.ub)
    &&& answer matches Some(set) ==> !set.lb.nan() && !set.ub.nan() && (exists|path: Seq<int>|
        path.len() == betahat.len() && #[trigger] paths::in_listed_branch(
            path,
            num_pre,
            family,
            branch,
            bound,
        ) && paths::obeys_addition(path, num_pre, family) && agrees(read, betahat, num_pre, path)
            && effect(read, betahat, weights, num_pre, path) == read(set.lb)) && (exists|
        path: Seq<int>,
    |
        path.len() == betahat.len() && #[trigger] paths::in_listed_branch(
            path,
            num_pre,
            family,
            branch,
            bound,
        ) && paths::obeys_addition(path, num_pre, family) && agrees(read, betahat, num_pre, path)
            && effect(read, betahat, weights, num_pre, path) == read(set.ub))
}

proof fn meeting_is_being_in_the_branch<A: StudyArithmetic>(
    numbers: A,
    read: spec_fn(Real) -> int,
    rows: Seq<Vec<Coefficient>>,
    values: Seq<Vec<Real>>,
    num_pre: int,
    num_post: int,
    family: RelativeMagnitudeFamily,
    k: int,
    mbar: Real,
    path: Seq<int>,
)
    requires
        exact_study(numbers, read),
        0 <= num_pre < i64::MAX,
        0 <= num_post,
        0 <= k < family.branches_spec(num_pre).len(),
        branches::is_family_matrix(
            rows,
            family,
            num_pre,
            num_post,
            family.branches_spec(num_pre)[k].s as int,
            family.branches_spec(num_pre)[k].max_positive,
        ),
        functional::valued(rows, numbers, mbar, values),
        path.len() == num_pre + num_post,
    ensures
        meets(read, values, cone::zeros(values.len() as int), path) <==> paths::in_listed_branch(
            path,
            num_pre,
            family,
            family.branches_spec(num_pre)[k],
            read(mbar),
        ) && paths::obeys_addition(path, num_pre, family),
{
    let branch = family.branches_spec(num_pre)[k];
    branches::every_listed_branch_is_valid(family, num_pre, k);
    valued_rows_are_their_values(numbers, read, rows, values, mbar, path);
    paths::family_rows_hold_in_the_branch(
        rows,
        path,
        num_pre,
        num_post,
        family,
        branch,
        read(mbar),
    );
    let limits = cone::zeros(values.len() as int);
    if meets(read, values, limits, path) {
        assert forall|i: int| 0 <= i < rows.len() implies #[trigger] paths::row_value(
            rows[i]@,
            path,
            read(mbar),
        ) <= 0 by {
            assert(exact::inner(
                exact::values(read, values[i]@),
                path,
                path.len() as int,
            ) <= read(limits[i]));
        }
    }
    if paths::all_at_most(rows, path, read(mbar), 0) {
        assert forall|i: int| 0 <= i < values.len() implies exact::inner(
            exact::values(read, (#[trigger] values[i])@),
            path,
            path.len() as int,
        ) <= read(limits[i]) by {
            assert(paths::row_value(rows[i]@, path, read(mbar)) <= 0);
        }
    }
}

proof fn family_answers_are_true<A: StudyArithmetic>(
    numbers: A,
    read: spec_fn(Real) -> int,
    data: HonestEventStudyInput,
    weights: Seq<Real>,
    family: RelativeMagnitudeFamily,
    k: int,
    mbar: Real,
    answer: Option<HonestIdentifiedSet>,
)
    requires
        exact_study(numbers, read),
        data.shaped(),
        weights.len() == data.post_periods@.len(),
        data.pre_periods@.len() < i64::MAX,
        0 <= k < family.branches_spec(data.pre_periods@.len() as int).len(),
        relative_magnitude::branch_solved(
            Ok(answer),
            family,
            family.branches_spec(data.pre_periods@.len() as int)[k],
            data,
            weights,
            mbar,
            numbers,
        ),
    ensures
        family_answer_is_true(read, data, weights, family, k, read(mbar), answer),
{
    let num_pre = data.pre_periods@.len() as int;
    let num_post = data.post_periods@.len() as int;
    let branch = family.branches_spec(num_pre)[k];
    let betahat = data.betahat@;
    let (rows, values) = choose|rows: Vec<Vec<Coefficient>>, values: Vec<Vec<Real>>|
        branches::is_family_matrix(
            rows@,
            family,
            num_pre,
            num_post,
            branch.s as int,
            branch.max_positive,
        ) && #[trigger] functional::valued(rows@, numbers, mbar, values@)
            && conic::branch_identified(
            num_pre,
            num_post,
            betahat,
            weights,
            values@,
            numbers,
            Ok(answer),
        );
    let limits = cone::zeros(values@.len() as int);
    branch_answers_are_true(numbers, read, betahat, weights, num_pre, values@, answer);
    assert forall|path: Seq<int>|
        path.len() == betahat.len() && #[trigger] paths::in_listed_branch(
            path,
            num_pre,
            family,
            branch,
            read(mbar),
        ) && paths::obeys_addition(path, num_pre, family) && agrees(
            read,
            betahat,
            num_pre,
            path,
        ) implies answer is Some && read(answer->Some_0.lb) <= effect(
        read,
        betahat,
        weights,
        num_pre,
        path,
    ) <= read(answer->Some_0.ub) by {
        meeting_is_being_in_the_branch(
            numbers,
            read,
            rows@,
            values@,
            num_pre,
            num_post,
            family,
            k,
            mbar,
            path,
        );
        assert(meets(read, values@, limits, path));
    }
    if answer is Some {
        let set = answer->Some_0;
        let low = choose|path: Seq<int>|
            path.len() == betahat.len() && #[trigger] meets(read, values@, limits, path) && agrees(
                read,
                betahat,
                num_pre,
                path,
            ) && effect(read, betahat, weights, num_pre, path) == read(set.lb);
        let high = choose|path: Seq<int>|
            path.len() == betahat.len() && #[trigger] meets(read, values@, limits, path) && agrees(
                read,
                betahat,
                num_pre,
                path,
            ) && effect(read, betahat, weights, num_pre, path) == read(set.ub);
        meeting_is_being_in_the_branch(
            numbers,
            read,
            rows@,
            values@,
            num_pre,
            num_post,
            family,
            k,
            mbar,
            low,
        );
        meeting_is_being_in_the_branch(
            numbers,
            read,
            rows@,
            values@,
            num_pre,
            num_post,
            family,
            k,
            mbar,
            high,
        );
        assert(paths::in_listed_branch(low, num_pre, family, branch, read(mbar)));
        assert(paths::in_listed_branch(high, num_pre, family, branch, read(mbar)));
    }
}

proof fn obeying_is_being_in_some_branch(
    path: Seq<int>,
    num_pre: int,
    family: RelativeMagnitudeFamily,
    bound: int,
)
    requires
        1 <= num_pre < i64::MAX,
        family.linear() ==> 2 <= num_pre,
        num_pre <= path.len(),
        0 <= bound,
    ensures
        obeys_magnitudes(path, num_pre, family, bound) <==> paths::in_some_branch(
            path,
            num_pre,
            family,
            bound,
        ) && paths::obeys_addition(path, num_pre, family),
{
    if family.linear() {
        paths::branches_are_the_bound_on_bends(path, num_pre, family, bound);
    } else {
        paths::branches_are_the_bound_on_changes(path, num_pre, family, bound);
    }
}

/// The identified set under a relative-magnitude restriction holds the effect of
/// every violation path that agrees with the pre-period coefficients and obeys the
/// restriction at the bound.
pub proof fn magnitude_set_holds_every_allowed_effect<A: StudyArithmetic>(
    answers: Seq<Result<Option<HonestIdentifiedSet>, HonestError>>,
    estimate: Real,
    family: RelativeMagnitudeFamily,
    data: HonestEventStudyInput,
    weights: Seq<Real>,
    mbar: Real,
    numbers: A,
    set: HonestIdentifiedSet,
    read: spec_fn(Real) -> int,
    path: Seq<int>,
)
    requires
        relative_magnitude::identified_by(
            answers,
            estimate,
            family,
            data,
            weights,
            mbar,
            numbers,
            Ok(set),
        ),
        data.pre_periods@.len() < i64::MAX,
        exact_study(numbers, read),
        path.len() == data.total(),
        agrees(read, data.betahat@, data.pre_periods@.len() as int, path),
        obeys_magnitudes(path, data.pre_periods@.len() as int, family, read(mbar)),
    ensures
        read(set.lb) <= effect(
            read,
            data.betahat@,
            weights,
            data.pre_periods@.len() as int,
            path,
        ) <= read(set.ub),
{
    let num_pre = data.pre_periods@.len() as int;
    let listed = family.branches_spec(num_pre);
    input::valid_input_is_shaped(data);
    assert(Real::zero_spec().le(mbar));
    obeying_is_being_in_some_branch(path, num_pre, family, read(mbar));
    let k = choose|k: int|
        0 <= k < listed.len() && paths::in_listed_branch(
            path,
            num_pre,
            family,
            #[trigger] listed[k],
            read(mbar),
        );
    assert(answers.len() == listed.len());
    let sets = relative_magnitude::solved_sets(answers);
    assert(answers[k] is Ok);
    let answer = answers[k]->Ok_0;
    assert(relative_magnitude::branch_solved(
        answers[k],
        family,
        listed[k],
        data,
        weights,
        mbar,
        numbers,
    ));
    family_answers_are_true(numbers, read, data, weights, family, k, mbar, answer);
    assert(sets[k] == answer);
    relative_magnitude::union_holds_every_branch(sets, estimate, k);
    assert(set.lb.le(answer->Some_0.lb));
    assert(answer->Some_0.ub.le(set.ub));
}

proof fn hull_ends_are_ends(sets: Seq<Option<HonestIdentifiedSet>>, end: int) -> (at: (int, int))
    requires
        0 <= end <= sets.len(),
        exists|i: int| 0 <= i < end && #[trigger] sets[i] is Some,
        forall|i: int|
            0 <= i < end && #[trigger] sets[i] is Some ==> !sets[i]->Some_0.lb.nan()
                && !sets[i]->Some_0.ub.nan(),
    ensures
        0 <= at.0 < end,
        sets[at.0] is Some,
        relative_magnitude::hull_of(sets, end).lb == sets[at.0]->Some_0.lb,
        0 <= at.1 < end,
        sets[at.1] is Some,
        relative_magnitude::hull_of(sets, end).ub == sets[at.1]->Some_0.ub,
    decreases end,
{
    let before = relative_magnitude::hull_of(sets, end - 1);
    if exists|i: int| 0 <= i < end - 1 && #[trigger] sets[i] is Some {
        let earlier = hull_ends_are_ends(sets, end - 1);
        match sets[end - 1] {
            None => earlier,
            Some(set) => {
                let low = if before.lb.nan() || set.lb.lt(before.lb) {
                    end - 1
                } else {
                    earlier.0
                };
                let high = if before.ub.nan() || before.ub.lt(set.ub) {
                    end - 1
                } else {
                    earlier.1
                };
                (low, high)
            },
        }
    } else {
        assert(sets[end - 1] is Some);
        no_set_no_hull(sets, end - 1);
        (end - 1, end - 1)
    }
}

proof fn no_set_no_hull(sets: Seq<Option<HonestIdentifiedSet>>, end: int)
    requires
        0 <= end <= sets.len(),
        forall|i: int| 0 <= i < end ==> !(#[trigger] sets[i] is Some),
    ensures
        relative_magnitude::hull_of(sets, end) == (HonestIdentifiedSet {
            lb: Real::infinity_spec(),
            ub: Real::neg_infinity_spec(),
        }),
    decreases end,
{
    if end > 0 {
        no_set_no_hull(sets, end - 1);
        assert(!(sets[end - 1] is Some));
    }
}

/// The ends of the identified set under a relative-magnitude restriction are
/// effects of paths that agree with the pre-period coefficients and obey the
/// restriction, wherever there is such a path.
pub proof fn magnitude_set_ends_are_allowed_effects<A: StudyArithmetic>(
    answers: Seq<Result<Option<HonestIdentifiedSet>, HonestError>>,
    estimate: Real,
    family: RelativeMagnitudeFamily,
    data: HonestEventStudyInput,
    weights: Seq<Real>,
    mbar: Real,
    numbers: A,
    set: HonestIdentifiedSet,
    read: spec_fn(Real) -> int,
    path: Seq<int>,
) -> (ends: (Seq<int>, Seq<int>))
    requires
        relative_magnitude::identified_by(
            answers,
            estimate,
            family,
            data,
            weights,
            mbar,
            numbers,
            Ok(set),
        ),
        data.pre_periods@.len() < i64::MAX,
        exact_study(numbers, read),
        path.len() == data.total(),
        agrees(read, data.betahat@, data.pre_periods@.len() as int, path),
        obeys_magnitudes(path, data.pre_periods@.len() as int, family, read(mbar)),
    ensures
        ends.0.len() == data.total(),
        agrees(read, data.betahat@, data.pre_periods@.len() as int, ends.0),
        obeys_magnitudes(ends.0, data.pre_periods@.len() as int, family, read(mbar)),
        effect(read, data.betahat@, weights, data.pre_periods@.len() as int, ends.0) == read(
            set.lb,
        ),
        ends.1.len() == data.total(),
        agrees(read, data.betahat@, data.pre_periods@.len() as int, ends.1),
        obeys_magnitudes(ends.1, data.pre_periods@.len() as int, family, read(mbar)),
        effect(read, data.betahat@, weights, data.pre_periods@.len() as int, ends.1) == read(
            set.ub,
        ),
{
    let num_pre = data.pre_periods@.len() as int;
    let betahat = data.betahat@;
    let listed = family.branches_spec(num_pre);
    input::valid_input_is_shaped(data);
    assert(Real::zero_spec().le(mbar));
    obeying_is_being_in_some_branch(path, num_pre, family, read(mbar));
    let k = choose|k: int|
        0 <= k < listed.len() && paths::in_listed_branch(
            path,
            num_pre,
            family,
            #[trigger] listed[k],
            read(mbar),
        );
    assert(answers.len() == listed.len());
    let sets = relative_magnitude::solved_sets(answers);
    assert forall|i: int| 0 <= i < sets.len() implies family_answer_is_true(
        read,
        data,
        weights,
        family,
        i,
        read(mbar),
        #[trigger] sets[i],
    ) by {
        assert(answers[i] is Ok);
        assert(relative_magnitude::branch_solved(
            answers[i],
            family,
            listed[i],
            data,
            weights,
            mbar,
            numbers,
        ));
        family_answers_are_true(numbers, read, data, weights, family, i, mbar, answers[i]->Ok_0);
    }
    assert(family_answer_is_true(read, data, weights, family, k, read(mbar), sets[k]));
    assert(paths::in_listed_branch(path, num_pre, family, listed[k], read(mbar)));
    assert(sets[k] is Some);
    assert forall|i: int| 0 <= i < sets.len() && #[trigger] sets[i] is Some implies !sets[i]->Some_0.lb.nan()
        && !sets[i]->Some_0.ub.nan() by {
        assert(family_answer_is_true(read, data, weights, family, i, read(mbar), sets[i]));
    }
    let at = hull_ends_are_ends(sets, sets.len() as int);
    assert(family_answer_is_true(read, data, weights, family, at.0, read(mbar), sets[at.0]));
    assert(family_answer_is_true(read, data, weights, family, at.1, read(mbar), sets[at.1]));
    let low = choose|path: Seq<int>|
        path.len() == betahat.len() && #[trigger] paths::in_listed_branch(
            path,
            num_pre,
            family,
            listed[at.0],
            read(mbar),
        ) && paths::obeys_addition(path, num_pre, family) && agrees(read, betahat, num_pre, path)
            && effect(read, betahat, weights, num_pre, path) == read(sets[at.0]->Some_0.lb);
    let high = choose|path: Seq<int>|
        path.len() == betahat.len() && #[trigger] paths::in_listed_branch(
            path,
            num_pre,
            family,
            listed[at.1],
            read(mbar),
        ) && paths::obeys_addition(path, num_pre, family) && agrees(read, betahat, num_pre, path)
            && effect(read, betahat, weights, num_pre, path) == read(sets[at.1]->Some_0.ub);
    obeying_is_being_in_some_branch(low, num_pre, family, read(mbar));
    obeying_is_being_in_some_branch(high, num_pre, family, read(mbar));
    assert(paths::in_some_branch(low, num_pre, family, read(mbar))) by {
        assert(paths::in_listed_branch(low, num_pre, family, listed[at.0], read(mbar)));
    }
    assert(paths::in_some_branch(high, num_pre, family, read(mbar))) by {
        assert(paths::in_listed_branch(high, num_pre, family, listed[at.1], read(mbar)));
    }
    (low, high)
}

// ---------------------------------------------------------------------------
// Smoothness
// ---------------------------------------------------------------------------

/// Whether a path obeys a smoothness restriction at a bound: its slope never
/// changes by more than that, and it has the sign or moves in the direction that
/// the restriction adds.
pub open spec fn obeys_smoothness(
    path: Seq<int>,
    num_pre: int,
    family: SmoothnessFamily,
    bound: int,
) -> bool {
    &&& paths::bends_at_most(path, num_pre, 0, bound)
    &&& match family {
        SmoothnessFamily::Plain => true,
        SmoothnessFamily::Signed(direction) => paths::has_sign(path, num_pre, direction),
        SmoothnessFamily::Monotone(direction) => paths::moves_one_way(path, num_pre, direction, 0),
    }
}

/// The rows of a moment system are at most their bounds on a path exactly where
/// the path obeys the restriction.
pub proof fn system_rows_hold_where_the_restriction_does(
    system: constraints::SmoothnessMomentSystem,
    family: SmoothnessFamily,
    num_pre: int,
    num_post: int,
    m: Real,
    post_period_moments_only: bool,
    path: Seq<int>,
    read: spec_fn(Real) -> int,
)
    requires
        family.is_system(system, num_pre, num_post, m, post_period_moments_only),
        0 <= num_pre,
        0 <= num_post,
        1 <= num_pre + num_post,
        path.len() == num_pre + num_post,
        read(Real::zero_spec()) == 0,
    ensures
        (forall|i: int|
            0 <= i < system.constraint_matrix@.len() ==> #[trigger] paths::row_value(
                system.constraint_matrix@[i]@,
                path,
                0,
            ) <= read(system.constraint_bounds@[i])) <==> obeys_smoothness(
            path,
            num_pre,
            family,
            read(m),
        ),
{
    let base = 2 * (num_pre + num_post - 1);
    let rows = system.constraint_matrix@;
    let own = rows.take(base);
    let more = rows.skip(base);
    assert(matrix::has_cols(own, num_pre + num_post)) by {
        assert forall|i: int| 0 <= i < own.len() implies (#[trigger] own[i])@.len() == num_pre
            + num_post by {
            assert(rows[i]@.len() == num_pre + num_post);
        }
    }
    assert(matrix::has_cols(more, num_pre + num_post)) by {
        assert forall|i: int| 0 <= i < more.len() implies (#[trigger] more[i])@.len() == num_pre
            + num_post by {
            assert(rows[base + i]@.len() == num_pre + num_post);
        }
    }
    assert forall|i: int, j: int|
        0 <= i < own.len() && 0 <= j < num_pre + num_post implies #[trigger] own[i]@[j]
        == constraints::smoothness_entry(num_pre, num_post, false, i, j) by {
        assert(rows[i]@[j] == family.entry(num_pre, num_post, i, j));
    }
    paths::smoothness_rows_bound_the_bends(own, path, num_pre, num_post, false, 0, read(m));
    match family {
        SmoothnessFamily::Plain => {},
        SmoothnessFamily::Signed(direction) => {
            assert forall|i: int, j: int|
                0 <= i < more.len() && 0 <= j < num_pre + num_post implies #[trigger] more[i]@[j]
                == constraints::bias_sign_entry(num_pre, direction, i, j) by {
                assert(rows[base + i]@[j] == family.entry(num_pre, num_post, base + i, j));
            }
            paths::sign_rows_fix_the_sign(more, path, num_pre, num_post, direction, 0);
        },
        SmoothnessFamily::Monotone(direction) => {
            assert forall|i: int, j: int|
                0 <= i < more.len() && 0 <= j < num_pre + num_post implies #[trigger] more[i]@[j]
                == constraints::monotonicity_entry(num_pre, direction, false, i, j) by {
                assert(rows[base + i]@[j] == family.entry(num_pre, num_post, base + i, j));
            }
            paths::monotone_rows_fix_the_direction(
                more,
                path,
                num_pre,
                num_post,
                direction,
                false,
                0,
            );
        },
    }
    let holds = forall|i: int|
        0 <= i < rows.len() ==> #[trigger] paths::row_value(rows[i]@, path, 0) <= read(
            system.constraint_bounds@[i],
        );
    if holds {
        assert forall|i: int| 0 <= i < own.len() implies #[trigger] paths::row_value(
            own[i]@,
            path,
            0,
        ) <= read(m) by {
            assert(paths::row_value(rows[i]@, path, 0) <= read(system.constraint_bounds@[i]));
        }
        assert forall|i: int| 0 <= i < more.len() implies #[trigger] paths::row_value(
            more[i]@,
            path,
            0,
        ) <= 0 by {
            assert(paths::row_value(rows[base + i]@, path, 0) <= read(
                system.constraint_bounds@[base + i],
            ));
        }
    }
    if paths::all_at_most(own, path, 0, read(m)) && paths::all_at_most(more, path, 0, 0) {
        assert forall|i: int| 0 <= i < rows.len() implies #[trigger] paths::row_value(
            rows[i]@,
            path,
            0,
        ) <= read(system.constraint_bounds@[i]) by {
            if i < base {
                assert(paths::row_value(own[i]@, path, 0) <= read(m));
            } else {
                assert(paths::row_value(more[i - base]@, path, 0) <= 0);
            }
        }
        assert(holds);
    }
}

proof fn meeting_a_system_is_obeying<A: StudyArithmetic>(
    numbers: A,
    read: spec_fn(Real) -> int,
    system: constraints::SmoothnessMomentSystem,
    rows: Seq<Vec<Real>>,
    family: SmoothnessFamily,
    num_pre: int,
    num_post: int,
    m: Real,
    path: Seq<int>,
)
    requires
        exact_study(numbers, read),
        family.is_system(system, num_pre, num_post, m, false),
        functional::valued(system.constraint_matrix@, numbers, Real::zero_spec(), rows),
        0 <= num_pre,
        0 <= num_post,
        1 <= num_pre + num_post,
        path.len() == num_pre + num_post,
    ensures
        meets(read, rows, system.constraint_bounds@, path) <==> obeys_smoothness(
            path,
            num_pre,
            family,
            read(m),
        ),
{
    let all = system.constraint_matrix@;
    valued_rows_are_their_values(numbers, read, all, rows, Real::zero_spec(), path);
    system_rows_hold_where_the_restriction_does(
        system,
        family,
        num_pre,
        num_post,
        m,
        false,
        path,
        read,
    );
    let limits = system.constraint_bounds@;
    if meets(read, rows, limits, path) {
        assert forall|i: int| 0 <= i < all.len() implies #[trigger] paths::row_value(
            all[i]@,
            path,
            0,
        ) <= read(limits[i]) by {
            assert(paths::row_value(all[i]@, path, read(Real::zero_spec())) == exact::inner(
                exact::values(read, rows[i]@),
                path,
                path.len() as int,
            ));
        }
    }
    if obeys_smoothness(path, num_pre, family, read(m)) {
        assert forall|i: int| 0 <= i < rows.len() implies exact::inner(
            exact::values(read, (#[trigger] rows[i])@),
            path,
            path.len() as int,
        ) <= read(limits[i]) by {
            assert(paths::row_value(all[i]@, path, 0) <= read(limits[i]));
            assert(paths::row_value(all[i]@, path, read(Real::zero_spec())) == exact::inner(
                exact::values(read, rows[i]@),
                path,
                path.len() as int,
            ));
        }
    }
}

proof fn a_bounded_smoothness_set_spans<A: StudyArithmetic>(
    run: SetRun,
    family: SmoothnessFamily,
    data: HonestEventStudyInput,
    weights: Seq<Real>,
    m: Real,
    numbers: A,
    set: HonestIdentifiedSet,
    read: spec_fn(Real) -> int,
)
    requires
        run.explains(family, data, weights, m, numbers, Ok(set)),
        set.bounded(),
        exact_study(numbers, read),
    ensures
        data.shaped(),
        weights.len() == data.post_periods@.len(),
        family.is_system(
            run.system,
            data.pre_periods@.len() as int,
            data.post_periods@.len() as int,
            m,
            false,
        ),
        functional::valued(
            run.system.constraint_matrix@,
            numbers,
            Real::zero_spec(),
            run.rows@,
        ),
        spans(
            read,
            data.betahat@,
            weights,
            data.pre_periods@.len() as int,
            run.rows@,
            run.system.constraint_bounds@,
            set,
        ),
{
    let num_pre = data.pre_periods@.len() as int;
    let num_post = data.post_periods@.len() as int;
    input::valid_input_is_shaped(data);
    assert(!HonestIdentifiedSet::everything_spec().bounded());
    assert(run.largest is Ok && run.smallest is Ok);
    let top = run.largest->Ok_0;
    let bottom = run.smallest->Ok_0;
    assert(top.status.solved() && bottom.status.solved());
    let (w, betas) = choose|w: Vec<Real>, betas: Vec<Real>| #[trigger]
        numbers.produces(w, betas, run.estimate) && w@ == weights && betas@ == data.betahat@.skip(
            num_pre,
        );
    assert(run.objective@ == cone::zeros(num_pre) + weights);
    assert(asks_for_path(
        run.highest,
        run.rows@,
        run.system.constraint_bounds@,
        num_pre,
        num_post,
        data.betahat@.take(num_pre),
        run.negated@,
    ));
    assert(asks_for_path(
        run.lowest,
        run.rows@,
        run.system.constraint_bounds@,
        num_pre,
        num_post,
        data.betahat@.take(num_pre),
        run.objective@,
    ));
    two_programs_span(
        numbers,
        read,
        data.betahat@,
        weights,
        num_pre,
        run.rows@,
        run.system.constraint_bounds@,
        run.highest,
        run.lowest,
        run.objective,
        run.negated@,
        top,
        bottom,
        run.estimate,
        run.most,
        run.least,
        set,
    );
}

/// A bounded identified set under a smoothness restriction holds the effect of
/// every violation path that agrees with the pre-period coefficients and obeys the
/// restriction at the bound.
pub proof fn smoothness_set_holds_every_allowed_effect<A: StudyArithmetic>(
    run: SetRun,
    family: SmoothnessFamily,
    data: HonestEventStudyInput,
    weights: Seq<Real>,
    m: Real,
    numbers: A,
    set: HonestIdentifiedSet,
    read: spec_fn(Real) -> int,
    path: Seq<int>,
)
    requires
        run.explains(family, data, weights, m, numbers, Ok(set)),
        set.bounded(),
        1 <= data.total(),
        exact_study(numbers, read),
        path.len() == data.total(),
        agrees(read, data.betahat@, data.pre_periods@.len() as int, path),
        obeys_smoothness(path, data.pre_periods@.len() as int, family, read(m)),
    ensures
        read(set.lb) <= effect(
            read,
            data.betahat@,
            weights,
            data.pre_periods@.len() as int,
            path,
        ) <= read(set.ub),
{
    a_bounded_smoothness_set_spans(run, family, data, weights, m, numbers, set, read);
    meeting_a_system_is_obeying(
        numbers,
        read,
        run.system,
        run.rows@,
        family,
        data.pre_periods@.len() as int,
        data.post_periods@.len() as int,
        m,
        path,
    );
    assert(meets(read, run.rows@, run.system.constraint_bounds@, path));
}

/// The ends of a bounded identified set under a smoothness restriction are effects
/// of paths that agree with the pre-period coefficients and obey the restriction.
pub proof fn smoothness_set_ends_are_allowed_effects<A: StudyArithmetic>(
    run: SetRun,
    family: SmoothnessFamily,
    data: HonestEventStudyInput,
    weights: Seq<Real>,
    m: Real,
    numbers: A,
    set: HonestIdentifiedSet,
    read: spec_fn(Real) -> int,
) -> (ends: (Seq<int>, Seq<int>))
    requires
        run.explains(family, data, weights, m, numbers, Ok(set)),
        set.bounded(),
        1 <= data.total(),
        exact_study(numbers, read),
    ensures
        ends.0.len() == data.total(),
        agrees(read, data.betahat@, data.pre_periods@.len() as int, ends.0),
        obeys_smoothness(ends.0, data.pre_periods@.len() as int, family, read(m)),
        effect(read, data.betahat@, weights, data.pre_periods@.len() as int, ends.0) == read(
            set.lb,
        ),
        ends.1.len() == data.total(),
        agrees(read, data.betahat@, data.pre_periods@.len() as int, ends.1),
        obeys_smoothness(ends.1, data.pre_periods@.len() as int, family, read(m)),
        effect(read, data.betahat@, weights, data.pre_periods@.len() as int, ends.1) == read(
            set.ub,
        ),
{
    let num_pre = data.pre_periods@.len() as int;
    let betahat = data.betahat@;
    let limits = run.system.constraint_bounds@;
    a_bounded_smoothness_set_spans(run, family, data, weights, m, numbers, set, read);
    let low = choose|path: Seq<int>|
        path.len() == betahat.len() && #[trigger] meets(read, run.rows@, limits, path) && agrees(
            read,
            betahat,
            num_pre,
            path,
        ) && effect(read, betahat, weights, num_pre, path) == read(set.lb);
    let high = choose|path: Seq<int>|
        path.len() == betahat.len() && #[trigger] meets(read, run.rows@, limits, path) && agrees(
            read,
            betahat,
            num_pre,
            path,
        ) && effect(read, betahat, weights, num_pre, path) == read(set.ub);
    meeting_a_system_is_obeying(
        numbers,
        read,
        run.system,
        run.rows@,
        family,
        num_pre,
        data.post_periods@.len() as int,
        m,
        low,
    );
    meeting_a_system_is_obeying(
        numbers,
        read,
        run.system,
        run.rows@,
        family,
        num_pre,
        data.post_periods@.len() as int,
        m,
        high,
    );
    (low, high)
}

/// An identified set under a smoothness restriction is bounded by the programs of
/// the restriction wherever the slope of the pre-period coefficients obeys the
/// raised bound and both programs have an optimum; otherwise it excludes nothing.
pub proof fn smoothness_set_excludes_nothing_without_cause<A: StudyArithmetic>(
    run: SetRun,
    family: SmoothnessFamily,
    data: HonestEventStudyInput,
    weights: Seq<Real>,
    m: Real,
    numbers: A,
    set: HonestIdentifiedSet,
    read: spec_fn(Real) -> int,
    path: Seq<int>,
)
    requires
        run.explains(family, data, weights, m, numbers, Ok(set)),
        1 <= data.total(),
        exact_study(numbers, read),
        smoothness::changes_within(run.changes@, run.bound),
        path.len() == data.total(),
        agrees(read, data.betahat@, data.pre_periods@.len() as int, path),
        obeys_smoothness(path, data.pre_periods@.len() as int, family, read(m)),
    ensures
        numbers.shifts(run.estimate, run.most, set.lb),
        numbers.shifts(run.estimate, run.least, set.ub),
{
    let num_pre = data.pre_periods@.len() as int;
    let num_post = data.post_periods@.len() as int;
    let pre = data.betahat@.take(num_pre);
    let limits = run.system.constraint_bounds@;
    input::valid_input_is_shaped(data);
    meeting_a_system_is_obeying(
        numbers,
        read,
        run.system,
        run.rows@,
        family,
        num_pre,
        num_post,
        m,
        path,
    );
    assert forall|t: int| 0 <= t < num_pre implies #[trigger] path[t] == read(pre[t]) by {
        assert(pre[t] == data.betahat@[t]);
    }
    assert(run.objective@.len() == data.total());
    assert(asks_for_path(
        run.highest,
        run.rows@,
        limits,
        num_pre,
        num_post,
        pre,
        run.negated@,
    ));
    feasible_points_are_paths(
        run.highest,
        read,
        run.rows@,
        limits,
        num_pre,
        num_post,
        pre,
        run.negated@,
        path,
    );
    assert(feasible(run.highest, read, path));
    assert(run.largest is Ok);
    assert(asks_for_path(
        run.lowest,
        run.rows@,
        limits,
        num_pre,
        num_post,
        pre,
        run.objective@,
    ));
    feasible_points_are_paths(
        run.lowest,
        read,
        run.rows@,
        limits,
        num_pre,
        num_post,
        pre,
        run.objective@,
        path,
    );
    assert(feasible(run.lowest, read, path));
}

/// The pre periods respect a smoothness bound exactly where the slope of their path up
/// to the reference period changes by at most the bound.
pub proof fn a_bound_is_respected_where_the_pre_periods_are_smooth<A: StudyArithmetic>(
    pre: Seq<Real>,
    numbers: A,
    changes: Seq<Real>,
    bound: Real,
    read: spec_fn(Real) -> int,
)
    requires
        smoothness::slope_changes(smoothness::pre_path(pre), numbers, changes),
        exact::faithful(read),
        forall|x: Real, y: Real|
            !x.nan() && !y.nan() ==> (#[trigger] x.le(y) <==> read(x) <= read(y)),
        forall|before: Real, at: Real, after: Real, change: Real| #[trigger]
            numbers.bends(before, at, after, change) ==> !change.nan() && read(change) == (read(
                after,
            ) - read(at)) - (read(at) - read(before)),
        Real::zero_spec().le(bound),
    ensures
        smoothness::changes_within(changes, bound) <==> paths::bends_at_most(
            exact::values(read, pre),
            pre.len() as int,
            0,
            read(bound),
        ),
{
    let n = pre.len() as int;
    let path = exact::values(read, pre);
    let whole = smoothness::pre_path(pre);
    let count = changes.len() as int;
    assert forall|i: int| 0 <= i < count implies #[trigger] read(changes[i]) == paths::bend(
        path,
        n,
        i,
    ) && read(changes[i].abs_spec()) == paths::magnitude(paths::bend(path, n, i))
        && !changes[i].nan() by {
        assert(numbers.bends(whole[i], whole[i + 1], whole[i + 2], changes[i]));
        let change = changes[i];
        assert(Real::zero_spec().le(change) <==> 0 <= read(change));
        assert(change.le(Real::zero_spec()) <==> read(change) <= 0);
        if change.signed() {
            assert(change.abs_spec() == change.neg_spec());
        } else {
            assert(change.abs_spec() == change);
        }
    }
    matrix::largest_magnitude_bounds(changes, count);
    let k = matrix::largest_magnitude_is_attained(changes, count);
    let largest = matrix::largest_magnitude(changes, count);
    if smoothness::changes_within(changes, bound) {
        assert forall|t: int| 0 <= t < path.len() - 1 implies paths::magnitude(
            #[trigger] paths::bend(path, n, t),
        ) <= read(bound) by {
            assert(read(changes[t]) == paths::bend(path, n, t));
            assert(changes[t].abs_spec().le(largest));
            assert(largest.le(bound));
        }
    }
    if paths::bends_at_most(path, n, 0, read(bound)) {
        if largest != Real::zero_spec() {
            assert(read(changes[k]) == paths::bend(path, n, k));
            assert(paths::magnitude(paths::bend(path, n, k)) <= read(bound));
            assert(!largest.nan());
            assert(largest.le(bound) <==> read(largest) <= read(bound));
        }
    }
}

} // verus!
