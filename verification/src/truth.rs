//! What the moments of a confidence set are at the truth.
//!
//! Coefficients are violations plus effects. Where the arithmetic is exact under a
//! reading, the moments at the effect of a path of violations are what the
//! restriction's rows make of that path, so that a path within the restriction
//! leaves no moment violated and its effect is kept.

use crate::branch_search::RelativeMagnitudePreparedFunctionalBranch;
use crate::branches;
use crate::branches::RelativeMagnitudeFamily;
use crate::constraints;
use crate::constraints::Coefficient;
use crate::errors::HonestError;
use crate::exact;
use crate::functional;
use crate::functional::{
    RelativeMagnitudePreparedBranch, RelativeMagnitudePreparedFunctionalTransform,
    RelativeMagnitudePreparedInputBranch,
};
use crate::input;
use crate::input::HonestEventStudyInput;
use crate::inversion;
use crate::matrix;
use crate::moments::{Moments, TestArithmetic, TestLevel};
use crate::number::Real;
use crate::paths;
use crate::sharpness;
use crate::smoothness::{LinearSetup, SetupRun};
use crate::smoothness_test::FullMoments;
use crate::study::StudyArithmetic;
use crate::theta_test;
use crate::theta_test::{RegionRun, Standardized, ThetaRun};
use vstd::prelude::*;

verus! {

/// The readings of one column of a matrix.
pub open spec fn column(read: spec_fn(Real) -> int, rows: Seq<Vec<Real>>, j: int) -> Seq<int> {
    Seq::new(rows.len(), |k: int| read(rows[k]@[j]))
}

/// Whether products, inverses and square roots are exact under a reading, and what
/// counts as zero reads as zero.
pub open spec fn exact_algebra<A: StudyArithmetic>(
    numbers: A,
    read: spec_fn(Real) -> int,
) -> bool {
    &&& forall|rows: Vec<Vec<Real>>, vector: Vec<Real>, values: Vec<Real>| #[trigger]
        numbers.multiplies(rows, vector, values) ==> forall|i: int|
            0 <= i < rows@.len() && rows@[i]@.len() == vector@.len() ==> read(
                #[trigger] values@[i],
            ) == exact::inner(
                exact::values(read, rows@[i]@),
                exact::values(read, vector@),
                vector@.len() as int,
            )
    &&& forall|rows: Vec<Vec<Real>>, bounds: Vec<Real>, vector: Vec<Real>, values: Vec<Real>|
        #[trigger]
        numbers.exceeds(rows, bounds, vector, values) ==> forall|i: int|
            0 <= i < rows@.len() && rows@[i]@.len() == vector@.len() ==> read(
                #[trigger] values@[i],
            ) == exact::inner(
                exact::values(read, rows@[i]@),
                exact::values(read, vector@),
                vector@.len() as int,
            ) - read(bounds@[i])
    &&& forall|
        rows: Vec<Vec<Real>>,
        inverse: Vec<Vec<Real>>,
        row: Vec<Real>,
        projected: Vec<Real>,
    |
        #[trigger] numbers.inverts(rows, Ok(inverse)) && #[trigger] numbers.projects(
            inverse,
            row,
            projected,
        ) && row@.len() == rows@.len() ==> projected@.len() == rows@.len() && forall|j: int|
            0 <= j < row@.len() ==> exact::inner(
                exact::values(read, projected@),
                column(read, rows@, j),
                rows@.len() as int,
            ) == read(#[trigger] row@[j])
    &&& forall|rows: Vec<Vec<Real>>, covariance: Vec<Vec<Real>>, sigma: Vec<Vec<Real>>| #[trigger]
        numbers.covaries(rows, covariance, sigma) ==> forall|i: int, j: int|
            0 <= i < rows@.len() && 0 <= j < rows@.len() ==> read(#[trigger] sigma@[i]@[j])
                == covaried(read, rows@[i]@, rows@[j]@, covariance@)
    &&& forall|value: Real, root: Real| #[trigger]
        numbers.roots(value, root) ==> read(root) * read(root) == read(value)
    &&& forall|x: Real|
        !(Real { bits: input::ZERO_WEIGHT_BITS }).lt(#[trigger] x.abs_spec()) ==> read(x) == 0
}

/// The covariance of two rows of coefficients with a covariance matrix.
pub open spec fn covaried(
    read: spec_fn(Real) -> int,
    left: Seq<Real>,
    right: Seq<Real>,
    covariance: Seq<Vec<Real>>,
) -> int {
    exact::inner(
        exact::values(read, left),
        Seq::new(
            covariance.len(),
            |k: int|
                exact::inner(
                    exact::values(read, covariance[k]@),
                    exact::values(read, right),
                    covariance.len() as int,
                ),
        ),
        covariance.len() as int,
    )
}

/// Whether weights that select a period read as exactly its unit vector.
pub open spec fn exact_weights(read: spec_fn(Real) -> int, weights: Seq<Real>) -> bool {
    forall|i: int, j: int|
        #[trigger] input::selects(weights, i) && 0 <= j < weights.len() ==> read(
            #[trigger] weights[j],
        ) == (if i == j {
            1int
        } else {
            0int
        })
}

// ---------------------------------------------------------------------------
// Target and nuisance parameters
// ---------------------------------------------------------------------------

/// The parameters beside the target: the effects of the other periods where the
/// functional is one period, else those of the basis beside the functional.
pub open spec fn nuisance(
    read: spec_fn(Real) -> int,
    weights: Seq<Real>,
    transform: RelativeMagnitudePreparedFunctionalTransform,
    effects: Seq<int>,
) -> Seq<int> {
    match transform {
        RelativeMagnitudePreparedFunctionalTransform::Basis { target_idx } => effects.take(
            target_idx as int,
        ) + effects.skip(target_idx + 1),
        RelativeMagnitudePreparedFunctionalTransform::General { .. } => Seq::new(
            (effects.len() - 1) as nat,
            |k: int|
                exact::inner(
                    exact::values(
                        read,
                        input::gamma_rows(weights, input::first_weight(weights, 0)->Some_0)[k + 1],
                    ),
                    effects,
                    effects.len() as int,
                ),
        ),
    }
}

proof fn inner_of_combined_rows(
    combined: Seq<int>,
    factors: Seq<int>,
    rows: Seq<Seq<int>>,
    right: Seq<int>,
    end: int,
)
    requires
        0 <= end,
        factors.len() == rows.len(),
        forall|j: int|
            0 <= j < end ==> #[trigger] combined[j] == exact::inner(
                factors,
                Seq::new(rows.len(), |k: int| rows[k][j]),
                rows.len() as int,
            ),
    ensures
        exact::inner(combined, right, end) == exact::inner(
            factors,
            Seq::new(rows.len(), |k: int| exact::inner(rows[k], right, end)),
            rows.len() as int,
        ),
    decreases end,
{
    let after = Seq::new(rows.len(), |k: int| exact::inner(rows[k], right, end));
    if end == 0 {
        inner_with_zeros(factors, after, rows.len() as int);
    } else {
        inner_of_combined_rows(combined, factors, rows, right, end - 1);
        let before = Seq::new(rows.len(), |k: int| exact::inner(rows[k], right, end - 1));
        let last = Seq::new(rows.len(), |k: int| rows[k][end - 1]);
        let r = right[end - 1];
        let scaled = Seq::new(rows.len(), |k: int| r * last[k]);
        exact::inner_scales(factors, last, scaled, r, rows.len() as int);
        assert forall|k: int| 0 <= k < rows.len() implies #[trigger] scaled[k] == after[k]
            - before[k] by {
            let a = rows[k][end - 1];
            assert(r * a == a * r) by (nonlinear_arith);
        }
        exact::inner_of_difference(factors, after, before, scaled, rows.len() as int);
        assert(combined[end - 1] == exact::inner(factors, last, rows.len() as int));
        let c = combined[end - 1];
        assert(r * c == c * r) by (nonlinear_arith);
    }
}

proof fn inner_with_zeros(left: Seq<int>, zeros: Seq<int>, end: int)
    requires
        forall|i: int| 0 <= i < end ==> #[trigger] zeros[i] == 0,
    ensures
        exact::inner(left, zeros, end) == 0,
    decreases end,
{
    if end > 0 {
        inner_with_zeros(left, zeros, end - 1);
        assert(zeros[end - 1] == 0);
    }
}

proof fn inner_without(row: Seq<int>, effects: Seq<int>, at: int)
    requires
        row.len() == effects.len(),
        0 <= at < row.len(),
    ensures
        exact::inner(row, effects, row.len() as int) == row[at] * effects[at] + exact::inner(
            row.take(at) + row.skip(at + 1),
            effects.take(at) + effects.skip(at + 1),
            row.len() - 1,
        ),
{
    let n = row.len() as int;
    let left = row.take(at) + row.skip(at + 1);
    let right = effects.take(at) + effects.skip(at + 1);
    exact::inner_of_parts(row, effects, at, n - at);
    exact::inner_of_parts(row.skip(at), effects.skip(at), 1, n - at - 1);
    assert(exact::inner(row.skip(at), effects.skip(at), 0) == 0);
    assert(row.skip(at)[0] == row[at] && effects.skip(at)[0] == effects[at]);
    exact::inner_of_parts(left, right, at, n - at - 1);
    assert(left.skip(at) =~= row.skip(at).skip(1));
    assert(right.skip(at) =~= effects.skip(at).skip(1));
    exact::inner_of_equal_entries(left, right, row, effects, at);
}

/// What a row makes of the effects is its target coefficient times the functional
/// of the effects plus what its design makes of the nuisance parameters.
pub proof fn a_row_splits_into_target_and_nuisance<A: StudyArithmetic>(
    weights: Seq<Real>,
    numbers: A,
    gamma: Vec<Vec<Real>>,
    answer: Result<Vec<Vec<Real>>, String>,
    transform: RelativeMagnitudePreparedFunctionalTransform,
    row: Vec<Real>,
    target: Real,
    design: Seq<Real>,
    effects: Seq<int>,
    read: spec_fn(Real) -> int,
)
    requires
        exact_algebra(numbers, read),
        exact_weights(read, weights),
        functional::transform_of(weights, numbers, gamma, answer, Ok(transform)),
        functional::row_split(transform, numbers, row, target, design),
        row@.len() == weights.len(),
        effects.len() == weights.len(),
        weights.len() > 0,
    ensures
        design.len() == weights.len() - 1,
        nuisance(read, weights, transform, effects).len() == weights.len() - 1,
        exact::inner(exact::values(read, row@), effects, weights.len() as int) == read(target)
            * exact::inner(exact::values(read, weights), effects, weights.len() as int)
            + exact::inner(
            exact::values(read, design),
            nuisance(read, weights, transform, effects),
            weights.len() - 1,
        ),
{
    let n = weights.len() as int;
    let rest = nuisance(read, weights, transform, effects);
    match transform {
        RelativeMagnitudePreparedFunctionalTransform::Basis { target_idx } => {
            let at = target_idx as int;
            assert(input::selects(weights, at));
            exact::inner_with_unit(exact::values(read, weights), effects, at, n);
            inner_without(exact::values(read, row@), effects, at);
            assert(exact::values(read, design) =~= exact::values(read, row@).take(at)
                + exact::values(read, row@).skip(at + 1));
        },
        RelativeMagnitudePreparedFunctionalTransform::General { gamma_inverse } => {
            let pivot = input::first_weight(weights, 0)->Some_0;
            let basis = input::gamma_rows(weights, pivot);
            assert(answer == Ok::<Vec<Vec<Real>>, String>(gamma_inverse));
            let projected = choose|projected: Vec<Real>|
                {
                    &&& #[trigger] numbers.projects(gamma_inverse, row, projected)
                    &&& target == projected@[0]
                    &&& design == projected@.skip(1)
                };
            assert(matrix::rows_of(gamma@).len() == gamma@.len());
            assert(numbers.inverts(gamma, Ok(gamma_inverse)));
            let factors = exact::values(read, projected@);
            let rows = Seq::new(basis.len(), |k: int| exact::values(read, basis[k]));
            assert forall|j: int| 0 <= j < n implies #[trigger] exact::values(read, row@)[j]
                == exact::inner(
                factors,
                Seq::new(rows.len(), |k: int| rows[k][j]),
                rows.len() as int,
            ) by {
                assert(column(read, gamma@, j) =~= Seq::new(rows.len(), |k: int| rows[k][j])) by {
                    assert forall|k: int| 0 <= k < rows.len() implies column(read, gamma@, j)[k]
                        == rows[k][j] by {
                        assert(matrix::rows_of(gamma@)[k] == gamma@[k]@);
                        assert(basis[k].len() == n);
                    }
                }
                assert(exact::inner(factors, column(read, gamma@, j), gamma@.len() as int) == read(
                    row@[j],
                ));
            }
            inner_of_combined_rows(exact::values(read, row@), factors, rows, effects, n);
            let parts = Seq::new(rows.len(), |k: int| exact::inner(rows[k], effects, n));
            exact::inner_of_parts(factors, parts, 1, n - 1);
            assert(exact::inner(factors, parts, 0) == 0);
            assert(factors.skip(1) =~= exact::values(read, design));
            assert(parts.skip(1) =~= rest);
            assert(parts[0] == exact::inner(exact::values(read, weights), effects, n));
        },
    }
}

// ---------------------------------------------------------------------------
// Moments
// ---------------------------------------------------------------------------

/// The effects of the post periods once a path of violations is taken off the
/// coefficients.
pub open spec fn effects_at(
    read: spec_fn(Real) -> int,
    betahat: Seq<Real>,
    num_pre: int,
    num_post: int,
    path: Seq<int>,
) -> Seq<int> {
    Seq::new(num_post as nat, |i: int| read(betahat[num_pre + i]) - path[num_pre + i])
}

proof fn a_row_of_violations_and_effects(
    read: spec_fn(Real) -> int,
    betahat: Seq<Real>,
    num_pre: int,
    num_post: int,
    path: Seq<int>,
    row: Seq<Real>,
)
    requires
        0 <= num_pre,
        0 <= num_post,
        row.len() == num_pre + num_post,
        betahat.len() == num_pre + num_post,
        path.len() == num_pre + num_post,
        sharpness::agrees(read, betahat, num_pre, path),
    ensures
        exact::inner(exact::values(read, row), exact::values(read, betahat), num_pre + num_post)
            == exact::inner(exact::values(read, row), path, num_pre + num_post) + exact::inner(
            exact::values(read, row.skip(num_pre)),
            effects_at(read, betahat, num_pre, num_post, path),
            num_post,
        ),
{
    let left = exact::values(read, row);
    let beta = exact::values(read, betahat);
    let effects = effects_at(read, betahat, num_pre, num_post, path);
    exact::inner_of_parts(left, beta, num_pre, num_post);
    exact::inner_of_parts(left, path, num_pre, num_post);
    assert forall|i: int| 0 <= i < num_pre implies #[trigger] beta[i] == path[i] by {
        assert(path[i] == read(betahat[i]));
    }
    exact::inner_of_equal_entries(left, beta, left, path, num_pre);
    exact::inner_of_difference(
        left.skip(num_pre),
        beta.skip(num_pre),
        path.skip(num_pre),
        effects,
        num_post,
    );
    assert(left.skip(num_pre) =~= exact::values(read, row.skip(num_pre)));
}

/// The entries of a vector at the columns of a matrix that are kept.
pub open spec fn kept(vector: Seq<int>, matrix: Seq<Vec<Real>>, end: int) -> Seq<int>
    decreases end,
{
    if end <= 0 {
        Seq::empty()
    } else if matrix::column_matters(
        matrix,
        end - 1,
        (Real { bits: input::ZERO_WEIGHT_BITS }),
    ) {
        kept(vector, matrix, end - 1).push(vector[end - 1])
    } else {
        kept(vector, matrix, end - 1)
    }
}

proof fn dropped_columns_add_nothing<A: StudyArithmetic>(
    numbers: A,
    read: spec_fn(Real) -> int,
    design: Seq<Vec<Real>>,
    i: int,
    vector: Seq<int>,
    end: int,
)
    requires
        exact_algebra(numbers, read),
        0 <= i < design.len(),
        0 <= end <= design[i]@.len(),
    ensures
        ({
            let row = matrix::kept_entries(
                design[i]@,
                design,
                (Real { bits: input::ZERO_WEIGHT_BITS }),
                end,
            );
            &&& kept(vector, design, end).len() == row.len()
            &&& exact::inner(
                exact::values(read, row),
                kept(vector, design, end),
                row.len() as int,
            ) == exact::inner(exact::values(read, design[i]@), vector, end)
        }),
    decreases end,
{
    let tol = Real { bits: input::ZERO_WEIGHT_BITS };
    if end > 0 {
        dropped_columns_add_nothing(numbers, read, design, i, vector, end - 1);
        let before = matrix::kept_entries(design[i]@, design, tol, end - 1);
        let row = matrix::kept_entries(design[i]@, design, tol, end);
        let entries = kept(vector, design, end - 1);
        if matrix::column_matters(design, end - 1, tol) {
            exact::inner_of_equal_entries(
                exact::values(read, row),
                kept(vector, design, end),
                exact::values(read, before),
                entries,
                before.len() as int,
            );
        } else {
            assert(!tol.lt(design[i]@[end - 1].abs_spec()));
            assert(read(design[i]@[end - 1]) == 0);
        }
    }
}

/// The parameters beside the target that the moments of a branch are at, once a
/// path of violations is taken off.
pub open spec fn beside(
    read: spec_fn(Real) -> int,
    betahat: Seq<Real>,
    weights: Seq<Real>,
    transform: RelativeMagnitudePreparedFunctionalTransform,
    num_pre: int,
    path: Seq<int>,
    design: Seq<Vec<Real>>,
) -> Seq<int> {
    kept(
        nuisance(
            read,
            weights,
            transform,
            effects_at(read, betahat, num_pre, weights.len() as int, path),
        ),
        design,
        matrix::first_width(design),
    )
}

proof fn a_moment_at_a_path<A: StudyArithmetic>(
    weights: Seq<Real>,
    numbers: A,
    gamma: Vec<Vec<Real>>,
    answer: Result<Vec<Vec<Real>>, String>,
    transform: RelativeMagnitudePreparedFunctionalTransform,
    betahat: Seq<Real>,
    num_pre: int,
    path: Seq<int>,
    row: Seq<Real>,
    post: Vec<Real>,
    target: Real,
    design: Seq<Vec<Real>>,
    k: int,
    read: spec_fn(Real) -> int,
)
    requires
        exact_algebra(numbers, read),
        exact_weights(read, weights),
        functional::transform_of(weights, numbers, gamma, answer, Ok(transform)),
        functional::row_split(transform, numbers, post, target, design[k]@),
        post@ == row.skip(num_pre),
        0 <= k < design.len(),
        matrix::first_width(design) == design[k]@.len(),
        0 <= num_pre,
        weights.len() > 0,
        row.len() == num_pre + weights.len(),
        betahat.len() == num_pre + weights.len(),
        path.len() == num_pre + weights.len(),
        sharpness::agrees(read, betahat, num_pre, path),
    ensures
        ({
            let reduced = matrix::kept_entries(
                design[k]@,
                design,
                (Real { bits: input::ZERO_WEIGHT_BITS }),
                matrix::first_width(design),
            );
            let eta = beside(read, betahat, weights, transform, num_pre, path, design);
            &&& eta.len() == reduced.len()
            &&& exact::inner(exact::values(read, row), exact::values(read, betahat), path.len() as int)
                == exact::inner(exact::values(read, row), path, path.len() as int) + read(target)
                * sharpness::effect(read, betahat, weights, num_pre, path) + exact::inner(
                exact::values(read, reduced),
                eta,
                reduced.len() as int,
            )
        }),
{
    let num_post = weights.len() as int;
    let effects = effects_at(read, betahat, num_pre, num_post, path);
    a_row_of_violations_and_effects(read, betahat, num_pre, num_post, path, row);
    a_row_splits_into_target_and_nuisance(
        weights,
        numbers,
        gamma,
        answer,
        transform,
        post,
        target,
        design[k]@,
        effects,
        read,
    );
    dropped_columns_add_nothing(
        numbers,
        read,
        design,
        k,
        nuisance(read, weights, transform, effects),
        matrix::first_width(design),
    );
}

/// The moments of a branch at the effect of a path that agrees with the pre
/// periods, less what the design makes of the other parameters, are the values of
/// the branch's rows on the path.
pub proof fn magnitude_moments_at_a_path_are_its_rows<A: StudyArithmetic>(
    weights: Seq<Real>,
    numbers: A,
    gamma: Vec<Vec<Real>>,
    answer: Result<Vec<Vec<Real>>, String>,
    transform: RelativeMagnitudePreparedFunctionalTransform,
    data: HonestEventStudyInput,
    family: RelativeMagnitudeFamily,
    branch: branches::RelativeMagnitudeBranch,
    mbar: Real,
    prepared: RelativeMagnitudePreparedBranch,
    inputs: RelativeMagnitudePreparedInputBranch,
    functional: RelativeMagnitudePreparedFunctionalBranch,
    moments: Moments,
    path: Seq<int>,
    read: spec_fn(Real) -> int,
) -> (found: (Vec<Vec<Coefficient>>, Seq<int>))
    requires
        sharpness::exact_study(numbers, read),
        exact_algebra(numbers, read),
        exact_weights(read, weights),
        functional::transform_of(weights, numbers, gamma, answer, Ok(transform)),
        functional::branch_of(
            prepared,
            family,
            branch,
            data.pre_periods@.len() as int,
            data.post_periods@.len() as int,
            numbers,
            mbar,
        ),
        functional::has_moments(inputs, prepared, data.betahat, data.covariance, numbers),
        functional::has_rows(functional, prepared, inputs.sd_arp@, transform, numbers),
        inversion::moments_from(moments, inputs, functional),
        weights.len() == data.post_periods@.len(),
        weights.len() > 0,
        data.betahat@.len() == data.total(),
        path.len() == data.total(),
        sharpness::agrees(read, data.betahat@, data.pre_periods@.len() as int, path),
    ensures
        branches::is_family_matrix(
            found.0@,
            family,
            data.pre_periods@.len() as int,
            data.post_periods@.len() as int,
            branch.s as int,
            branch.max_positive,
        ),
        prepared.rows_for_arp@ == constraints::post_period_rows(
            found.0@,
            data.pre_periods@.len() as int,
            found.0@.len() as int,
        ),
        moments.y_base@.len() == prepared.rows_for_arp@.len(),
        forall|k: int|
            0 <= k < moments.y_base@.len() ==> read(#[trigger] moments.y_base@[k]) == read(
                moments.a_target@[k],
            ) * sharpness::effect(
                read,
                data.betahat@,
                weights,
                data.pre_periods@.len() as int,
                path,
            ) + exact::inner(
                exact::values(read, moments.design@[k]@),
                found.1,
                moments.design@[k]@.len() as int,
            ) + paths::row_value(
                found.0@[prepared.rows_for_arp@[k] as int]@,
                path,
                read(mbar),
            ),
{
    let num_pre = data.pre_periods@.len() as int;
    let num_post = data.post_periods@.len() as int;
    let (rows, equalities) = choose|rows: Vec<Vec<Coefficient>>, equalities: Vec<Vec<Real>>|
        branches::is_family_matrix(
            rows@,
            family,
            num_pre,
            num_post,
            branch.s as int,
            branch.max_positive,
        ) && functional::is_identity_block(equalities@, num_pre, num_pre + num_post)
            && #[trigger] functional::branch_prepared(
            prepared,
            rows@,
            equalities@,
            num_pre,
            numbers,
            mbar,
        );
    let (y_vec, sigma_y) = choose|y_vec: Vec<Real>, sigma_y: Vec<Vec<Real>>| #[trigger]
        functional::input_branch_of(
            inputs,
            prepared,
            data.betahat,
            data.covariance,
            numbers,
            y_vec,
            sigma_y,
        );
    let design = choose|design: Vec<Vec<Real>>| #[trigger]
        functional::functional_branch_of(
            functional,
            prepared,
            inputs.sd_arp@,
            transform,
            numbers,
            design,
        );
    constraints::post_period_rows_are_exact(rows@, num_pre, rows@.len() as int);
    let values = prepared.constraint_rows@;
    sharpness::valued_rows_are_their_values(numbers, read, rows@, values, mbar, path);
    let eta = beside(read, data.betahat@, weights, transform, num_pre, path, design@);
    assert(matrix::rows_of(moments.design@).len() == matrix::rows_of(functional.x_arp@).len());
    let chosen = prepared.rows_for_arp@;
    assert(matrix::rows_of(prepared.a_post@).len() == rows@.len());
    assert forall|k: int| 0 <= k < chosen.len() implies #[trigger] design@[k]@.len() == num_post
        - 1 && prepared.a_post@[chosen[k] as int]@ == values[chosen[k] as int]@.skip(num_pre)
        && values[chosen[k] as int]@.len() == num_pre + num_post by {
        let at = chosen[k] as int;
        assert(0 <= at < rows@.len());
        assert(matrix::rows_of(prepared.a_post@)[at] == prepared.a_post@[at]@);
        assert(rows@[at]@.len() == num_pre + num_post);
        assert(values[at]@.len() == rows@[at]@.len());
        a_row_splits_into_target_and_nuisance(
            weights,
            numbers,
            gamma,
            answer,
            transform,
            prepared.a_post@[at],
            functional.a_target_arp@[k],
            design@[k]@,
            effects_at(read, data.betahat@, num_pre, num_post, path),
            read,
        );
    }
    assert forall|k: int| 0 <= k < moments.y_base@.len() implies read(
        #[trigger] moments.y_base@[k],
    ) == read(moments.a_target@[k]) * sharpness::effect(
        read,
        data.betahat@,
        weights,
        num_pre,
        path,
    ) + exact::inner(
        exact::values(read, moments.design@[k]@),
        eta,
        moments.design@[k]@.len() as int,
    ) + paths::row_value(rows@[chosen[k] as int]@, path, read(mbar)) by {
        let at = chosen[k] as int;
        assert(design@[k]@.len() == num_post - 1);
        assert(design@[0]@.len() == num_post - 1);
        assert(0 <= at < rows@.len());
        assert(matrix::rows_of(moments.design@)[k] == moments.design@[k]@);
        assert(matrix::rows_of(functional.x_arp@)[k] == functional.x_arp@[k]@);
        assert(read(y_vec@[at]) == exact::inner(
            exact::values(read, values[at]@),
            exact::values(read, data.betahat@),
            data.betahat@.len() as int,
        ));
        assert(paths::row_value(rows@[at]@, path, read(mbar)) == exact::inner(
            exact::values(read, values[at]@),
            path,
            path.len() as int,
        ));
        a_moment_at_a_path(
            weights,
            numbers,
            gamma,
            answer,
            transform,
            data.betahat@,
            num_pre,
            path,
            values[at]@,
            prepared.a_post@[at],
            functional.a_target_arp@[k],
            design@,
            k,
            read,
        );
    }
    (rows, eta)
}

/// The moments under a smoothness restriction at the effect of a path that agrees
/// with the pre periods, less what the design makes of the other parameters, are
/// what the restriction's rows have over their bounds on the path.
pub proof fn smoothness_moments_at_a_path_are_its_rows<A: StudyArithmetic>(
    weights: Seq<Real>,
    numbers: A,
    data: HonestEventStudyInput,
    system: constraints::SmoothnessMomentSystem,
    run: SetupRun,
    setup: LinearSetup,
    path: Seq<int>,
    read: spec_fn(Real) -> int,
) -> (eta: Seq<int>)
    requires
        sharpness::exact_study(numbers, read),
        exact_algebra(numbers, read),
        exact_weights(read, weights),
        run.explains(system, data, weights, numbers, Ok(setup)),
        matrix::has_cols(system.constraint_matrix@, data.total()),
        matrix::indices_below(system.rows_for_arp@, system.constraint_matrix@.len() as int),
        weights.len() == data.post_periods@.len(),
        weights.len() > 0,
        data.betahat@.len() == data.total(),
        path.len() == data.total(),
        sharpness::agrees(read, data.betahat@, data.pre_periods@.len() as int, path),
    ensures
        setup.views.y_arp_base@.len() == system.rows_for_arp@.len(),
        forall|k: int|
            0 <= k < system.rows_for_arp@.len() ==> read(#[trigger] setup.views.y_arp_base@[k])
                == read(setup.views.a_target_arp@[k]) * sharpness::effect(
                read,
                data.betahat@,
                weights,
                data.pre_periods@.len() as int,
                path,
            ) + exact::inner(
                exact::values(read, setup.views.x_arp@[k]@),
                eta,
                setup.views.x_arp@[k]@.len() as int,
            ) + paths::row_value(
                system.constraint_matrix@[system.rows_for_arp@[k] as int]@,
                path,
                0,
            ) - read(system.constraint_bounds@[system.rows_for_arp@[k] as int]),
{
    let num_pre = data.pre_periods@.len() as int;
    let num_post = data.post_periods@.len() as int;
    let rows = system.constraint_matrix@;
    let values = run.rows@;
    let chosen = system.rows_for_arp@;
    let transform = run.transform->Ok_0;
    sharpness::valued_rows_are_their_values(
        numbers,
        read,
        rows,
        values,
        Real::zero_spec(),
        path,
    );
    let picked = choose|picked: Vec<Vec<Real>>|
        matrix::rows_of(#[trigger] picked@) == matrix::selected_rows(
            matrix::rows_of(run.x_matrix@),
            chosen,
        ) && functional::zero_columns_dropped(picked@, setup.views.x_arp@);
    assert(matrix::rows_of(picked@).len() == picked@.len());
    assert(matrix::rows_of(run.a_post@).len() == run.a_post@.len());
    let eta = beside(read, data.betahat@, weights, transform, num_pre, path, picked@);
    assert forall|k: int| 0 <= k < chosen.len() implies #[trigger] picked@[k]@.len() == num_post
        - 1 && run.a_post@[chosen[k] as int]@ == values[chosen[k] as int]@.skip(num_pre)
        && values[chosen[k] as int]@.len() == num_pre + num_post && picked@[k]@
        == run.x_matrix@[chosen[k] as int]@ by {
        let at = chosen[k] as int;
        assert(0 <= at < rows.len());
        assert(matrix::rows_of(picked@)[k] == picked@[k]@);
        assert(matrix::rows_of(run.x_matrix@)[at] == run.x_matrix@[at]@);
        assert(matrix::rows_of(run.a_post@)[at] == run.a_post@[at]@);
        assert(rows[at]@.len() == num_pre + num_post);
        assert(values[at]@.len() == rows[at]@.len());
        assert(functional::row_split(
            transform,
            numbers,
            run.a_post@[at],
            setup.a_target_full@[at],
            run.x_matrix@[at]@,
        ));
        a_row_splits_into_target_and_nuisance(
            weights,
            numbers,
            run.gamma,
            run.inverse,
            transform,
            run.a_post@[at],
            setup.a_target_full@[at],
            run.x_matrix@[at]@,
            effects_at(read, data.betahat@, num_pre, num_post, path),
            read,
        );
    }
    assert forall|k: int| 0 <= k < chosen.len() implies read(
        #[trigger] setup.views.y_arp_base@[k],
    ) == read(setup.views.a_target_arp@[k]) * sharpness::effect(
        read,
        data.betahat@,
        weights,
        num_pre,
        path,
    ) + exact::inner(
        exact::values(read, setup.views.x_arp@[k]@),
        eta,
        setup.views.x_arp@[k]@.len() as int,
    ) + paths::row_value(rows[chosen[k] as int]@, path, 0) - read(
        system.constraint_bounds@[chosen[k] as int],
    ) by {
        let at = chosen[k] as int;
        assert(0 <= at < rows.len());
        assert(picked@[k]@.len() == num_post - 1);
        assert(picked@[0]@.len() == num_post - 1);
        assert(setup.views.x_arp@[k]@ == matrix::kept_entries(
            picked@[k]@,
            picked@,
            (Real { bits: input::ZERO_WEIGHT_BITS }),
            matrix::first_width(picked@),
        ));
        assert(read(setup.y_full_base@[at]) == exact::inner(
            exact::values(read, values[at]@),
            exact::values(read, data.betahat@),
            data.betahat@.len() as int,
        ) - read(system.constraint_bounds@[at]));
        assert(paths::row_value(rows[at]@, path, read(Real::zero_spec())) == exact::inner(
            exact::values(read, values[at]@),
            path,
            path.len() as int,
        ));
        assert(functional::row_split(
            transform,
            numbers,
            run.a_post@[at],
            setup.a_target_full@[at],
            run.x_matrix@[at]@,
        ));
        a_moment_at_a_path(
            weights,
            numbers,
            run.gamma,
            run.inverse,
            transform,
            data.betahat@,
            num_pre,
            path,
            values[at]@,
            run.a_post@[at],
            setup.a_target_full@[at],
            picked@,
            k,
            read,
        );
    }
    eta
}

// ---------------------------------------------------------------------------
// Their covariances
// ---------------------------------------------------------------------------

/// The covariances of the moments of a branch are those of the values of its
/// rows, their standard deviations are the square roots of the variances, and each
/// row of the dual program is the standard deviation followed by the design.
pub proof fn magnitude_moments_vary_as_their_rows<A: StudyArithmetic>(
    numbers: A,
    data: HonestEventStudyInput,
    transform: RelativeMagnitudePreparedFunctionalTransform,
    prepared: RelativeMagnitudePreparedBranch,
    inputs: RelativeMagnitudePreparedInputBranch,
    functional: RelativeMagnitudePreparedFunctionalBranch,
    moments: Moments,
    read: spec_fn(Real) -> int,
    i: int,
    j: int,
)
    requires
        exact::faithful(read),
        exact_algebra(numbers, read),
        functional::has_moments(inputs, prepared, data.betahat, data.covariance, numbers),
        functional::has_rows(functional, prepared, inputs.sd_arp@, transform, numbers),
        inversion::moments_from(moments, inputs, functional),
        matrix::indices_below(prepared.rows_for_arp@, prepared.constraint_rows@.len() as int),
        0 <= i < prepared.rows_for_arp@.len(),
        0 <= j < prepared.rows_for_arp@.len(),
    ensures
        ({
            let left = prepared.constraint_rows@[prepared.rows_for_arp@[i] as int]@;
            let right = prepared.constraint_rows@[prepared.rows_for_arp@[j] as int]@;
            let variance = covaried(read, left, left, data.covariance@);
            &&& read(moments.sigma@[i]@[j]) == covaried(read, left, right, data.covariance@)
            &&& Real::zero_spec().le(moments.sigma@[i]@[i]) ==> read(moments.sd@[i]) * read(
                moments.sd@[i],
            ) == variance
            &&& moments.w_t@[i]@ == seq![moments.sd@[i]] + moments.design@[i]@
        }),
{
    let (y_vec, sigma_y) = choose|y_vec: Vec<Real>, sigma_y: Vec<Vec<Real>>| #[trigger]
        functional::input_branch_of(
            inputs,
            prepared,
            data.betahat,
            data.covariance,
            numbers,
            y_vec,
            sigma_y,
        );
    let design = choose|design: Vec<Vec<Real>>| #[trigger]
        functional::functional_branch_of(
            functional,
            prepared,
            inputs.sd_arp@,
            transform,
            numbers,
            design,
        );
    let at = prepared.rows_for_arp@[i] as int;
    let other = prepared.rows_for_arp@[j] as int;
    assert(0 <= at < prepared.constraint_rows@.len());
    assert(0 <= other < prepared.constraint_rows@.len());
    assert(matrix::rows_of(moments.sigma@).len() == inputs.sigma_arp@.len());
    assert(matrix::rows_of(moments.design@).len() == functional.x_arp@.len());
    assert(matrix::rows_of(moments.w_t@).len() == functional.w_t@.len());
    assert(matrix::rows_of(functional.w_t@).len() == functional.x_arp@.len());
    assert(matrix::rows_of(moments.sigma@)[i] == moments.sigma@[i]@);
    assert(matrix::rows_of(inputs.sigma_arp@)[i] == inputs.sigma_arp@[i]@);
    assert(matrix::rows_of(moments.design@)[i] == moments.design@[i]@);
    assert(matrix::rows_of(functional.x_arp@)[i] == functional.x_arp@[i]@);
    assert(matrix::rows_of(moments.w_t@)[i] == moments.w_t@[i]@);
    assert(matrix::rows_of(functional.w_t@)[i] == functional.w_t@[i]@);
    assert(inputs.sigma_arp@[i]@[j] == sigma_y@[at]@[other]);
    assert(inputs.sigma_arp@[i]@[i] == sigma_y@[at]@[at]);
    let own = inputs.sigma_arp@[i]@[i];
    assert(numbers.roots(own.max_spec(Real::zero_spec()), inputs.sd_arp@[i]));
    if Real::zero_spec().le(own) {
        assert(read(own.max_spec(Real::zero_spec())) == read(own));
    }
}

// ---------------------------------------------------------------------------
// The test
// ---------------------------------------------------------------------------

/// Whether the arithmetic of a test is exact under a reading: moments move in a
/// straight line, the optimum of the program is at most every value that it can
/// attain, and a statistic has the sign of the optimum.
pub open spec fn exact_test<T: TestArithmetic>(arithmetic: T, read: spec_fn(Real) -> int) -> bool {
    &&& exact::faithful(read)
    &&& forall|x: Real| #[trigger] read(x) <= 0 ==> !Real::zero_spec().lt(x)
    &&& forall|base: Real, slope: Real, theta: Real, at: Real| #[trigger]
        arithmetic.shifts(base, slope, theta, at) ==> read(at) == read(base) - read(slope) * read(
            theta,
        )
    &&& forall|
        moments: Moments,
        y: Vec<Real>,
        solution: theta_test::ProgramSolution,
        most: int,
        eta: Seq<int>,
    |
        #[trigger] arithmetic.programs(moments, y, Some(solution)) && #[trigger] attains(
            read,
            moments,
            y@,
            most,
            eta,
        ) ==> read(solution.eta) <= most
    &&& forall|low: Real, high: Real, variance: Real, eta: Real, statistic: Standardized|
        #[trigger]
        arithmetic.standardizes(low, high, variance, eta, statistic) && !Real::zero_spec().lt(eta)
            ==> !Real::zero_spec().lt(statistic.maxstat)
}

/// Whether no moment exceeds a multiple of its standard deviation beside what the
/// design makes of given parameters.
pub open spec fn attains(
    read: spec_fn(Real) -> int,
    moments: Moments,
    y: Seq<Real>,
    most: int,
    eta: Seq<int>,
) -> bool {
    forall|k: int|
        0 <= k < y.len() ==> read(#[trigger] y[k]) <= read(moments.sd@[k]) * most + exact::inner(
            exact::values(read, moments.design@[k]@),
            eta,
            moments.design@[k]@.len() as int,
        )
}

/// A value of the target at which some parameters beside it leave no moment
/// violated is never rejected.
pub proof fn a_value_that_violates_nothing_is_not_rejected<T: TestArithmetic>(
    arithmetic: T,
    moments: Moments,
    theta: Real,
    level: TestLevel,
    y: Vec<Real>,
    run: ThetaRun,
    accepted: Result<bool, HonestError>,
    eta: Seq<int>,
    read: spec_fn(Real) -> int,
)
    requires
        exact_test(arithmetic, read),
        theta_test::accepted_by(arithmetic, moments, theta, level, y, run, accepted),
        !level.lf_cv.lt(Real::zero_spec()),
        !level.lf_cv.nan(),
        forall|k: int|
            0 <= k < moments.y_base@.len() ==> read(#[trigger] moments.y_base@[k]) <= read(
                moments.a_target@[k],
            ) * read(theta) + exact::inner(
                exact::values(read, moments.design@[k]@),
                eta,
                moments.design@[k]@.len() as int,
            ),
    ensures
        accepted != Ok::<bool, HonestError>(false),
        run.program matches Some(solution) ==> read(solution.eta) <= 0,
{
    assert(attains(read, moments, y@, 0, eta)) by {
        assert forall|k: int| 0 <= k < y@.len() implies read(#[trigger] y@[k]) <= read(
            moments.sd@[k],
        ) * 0 + exact::inner(
            exact::values(read, moments.design@[k]@),
            eta,
            moments.design@[k]@.len() as int,
        ) by {
            assert(arithmetic.shifts(moments.y_base@[k], moments.a_target@[k], theta, y@[k]));
            assert(read(moments.y_base@[k]) <= read(moments.a_target@[k]) * read(theta)
                + exact::inner(
                exact::values(read, moments.design@[k]@),
                eta,
                moments.design@[k]@.len() as int,
            ));
        }
    }
    if let Some(solution) = run.program {
        assert(read(solution.eta) <= 0);
        assert(!Real::zero_spec().lt(solution.eta));
        if level.lf_cv.lt(solution.eta) {
            assert(Real::zero_spec().le(level.lf_cv));
        }
        match run.route(moments, level.lf_cv) {
            theta_test::ThetaRoute::GivenMultipliers => {
                multipliers_reject_no_optimum_at_zero(
                    arithmetic,
                    moments,
                    y,
                    solution.eta,
                    solution.multipliers,
                    run.size,
                    level.lf_cv,
                    run.dual,
                    read,
                );
            },
            theta_test::ThetaRoute::RecoveredMultipliers => {
                if run.recovered is Ok {
                    multipliers_reject_no_optimum_at_zero(
                        arithmetic,
                        moments,
                        y,
                        solution.eta,
                        run.recovered->Ok_0,
                        run.size,
                        level.lf_cv,
                        run.dual,
                        read,
                    );
                }
            },
            theta_test::ThetaRoute::ClosedForm => {
                if run.verdict(moments, level.lf_cv) == Ok::<bool, HonestError>(true) {
                    theta_test::rejection_needs_a_positive_statistic(run.statistic, run.quantile);
                }
            },
            _ => {},
        }
    }
}

proof fn multipliers_reject_no_optimum_at_zero<T: TestArithmetic>(
    arithmetic: T,
    moments: Moments,
    y: Vec<Real>,
    eta: Real,
    gamma: Vec<Real>,
    size: Real,
    lf_cv: Real,
    verdict: Result<bool, HonestError>,
    read: spec_fn(Real) -> int,
)
    requires
        exact_test(arithmetic, read),
        theta_test::judged_by_multipliers(
            arithmetic,
            moments,
            y,
            eta,
            gamma,
            size,
            lf_cv,
            verdict,
        ),
        !Real::zero_spec().lt(eta),
    ensures
        verdict != Ok::<bool, HonestError>(true),
{
    let (run, region, statistic, critical) = choose|
        run: RegionRun,
        region: Result<Option<(Real, Real)>, HonestError>,
        statistic: Standardized,
        critical: Result<Real, String>,
    | #[trigger]
        theta_test::judged_along(
            run,
            region,
            statistic,
            critical,
            arithmetic,
            moments,
            y,
            eta,
            gamma,
            size,
            lf_cv,
            verdict,
        );
    if verdict == Ok::<bool, HonestError>(true) {
        if let Ok(Some(_)) = region {
            theta_test::rejection_needs_a_positive_statistic(statistic, critical);
        }
    }
}

/// The effect of a path within a branch is not rejected by the test of that branch,
/// wherever the path agrees with the pre periods.
pub proof fn an_allowed_effect_is_not_rejected<A: StudyArithmetic, T: TestArithmetic>(
    weights: Seq<Real>,
    numbers: A,
    arithmetic: T,
    gamma: Vec<Vec<Real>>,
    answer: Result<Vec<Vec<Real>>, String>,
    transform: RelativeMagnitudePreparedFunctionalTransform,
    data: HonestEventStudyInput,
    family: RelativeMagnitudeFamily,
    place: int,
    mbar: Real,
    prepared: RelativeMagnitudePreparedBranch,
    inputs: RelativeMagnitudePreparedInputBranch,
    functional: RelativeMagnitudePreparedFunctionalBranch,
    moments: Moments,
    path: Seq<int>,
    theta: Real,
    level: TestLevel,
    y: Vec<Real>,
    run: ThetaRun,
    accepted: Result<bool, HonestError>,
    read: spec_fn(Real) -> int,
)
    requires
        sharpness::exact_study(numbers, read),
        exact_algebra(numbers, read),
        exact_weights(read, weights),
        exact_test(arithmetic, read),
        functional::transform_of(weights, numbers, gamma, answer, Ok(transform)),
        data.pre_periods@.len() < i64::MAX,
        0 <= place < family.branches_spec(data.pre_periods@.len() as int).len(),
        functional::branch_of(
            prepared,
            family,
            family.branches_spec(data.pre_periods@.len() as int)[place],
            data.pre_periods@.len() as int,
            data.post_periods@.len() as int,
            numbers,
            mbar,
        ),
        functional::has_moments(inputs, prepared, data.betahat, data.covariance, numbers),
        functional::has_rows(functional, prepared, inputs.sd_arp@, transform, numbers),
        inversion::moments_from(moments, inputs, functional),
        weights.len() == data.post_periods@.len(),
        weights.len() > 0,
        data.betahat@.len() == data.total(),
        path.len() == data.total(),
        sharpness::agrees(read, data.betahat@, data.pre_periods@.len() as int, path),
        paths::in_listed_branch(
            path,
            data.pre_periods@.len() as int,
            family,
            family.branches_spec(data.pre_periods@.len() as int)[place],
            read(mbar),
        ),
        paths::obeys_addition(path, data.pre_periods@.len() as int, family),
        read(theta) == sharpness::effect(
            read,
            data.betahat@,
            weights,
            data.pre_periods@.len() as int,
            path,
        ),
        !level.lf_cv.lt(Real::zero_spec()),
        !level.lf_cv.nan(),
        theta_test::accepted_by(arithmetic, moments, theta, level, y, run, accepted),
    ensures
        accepted != Ok::<bool, HonestError>(false),
{
    let num_pre = data.pre_periods@.len() as int;
    let num_post = data.post_periods@.len() as int;
    let branch = family.branches_spec(num_pre)[place];
    let (rows, eta) = magnitude_moments_at_a_path_are_its_rows(
        weights,
        numbers,
        gamma,
        answer,
        transform,
        data,
        family,
        branch,
        mbar,
        prepared,
        inputs,
        functional,
        moments,
        path,
        read,
    );
    branches::every_listed_branch_is_valid(family, num_pre, place);
    paths::family_rows_hold_in_the_branch(
        rows@,
        path,
        num_pre,
        num_post,
        family,
        branch,
        read(mbar),
    );
    constraints::post_period_rows_are_exact(rows@, num_pre, rows@.len() as int);
    assert forall|k: int| 0 <= k < moments.y_base@.len() implies read(
        #[trigger] moments.y_base@[k],
    ) <= read(moments.a_target@[k]) * read(theta) + exact::inner(
        exact::values(read, moments.design@[k]@),
        eta,
        moments.design@[k]@.len() as int,
    ) by {
        let at = prepared.rows_for_arp@[k] as int;
        assert(0 <= at < rows@.len());
        assert(paths::row_value(rows@[at]@, path, read(mbar)) <= 0);
    }
    a_value_that_violates_nothing_is_not_rejected(
        arithmetic,
        moments,
        theta,
        level,
        y,
        run,
        accepted,
        eta,
        read,
    );
}

// ---------------------------------------------------------------------------
// The direction of the binding rows
// ---------------------------------------------------------------------------

/// Entry `c` of the dual program's row `i`: the standard deviation, then the design.
pub open spec fn dual_entry(read: spec_fn(Real) -> int, moments: Moments, i: int, c: int) -> int {
    if c == 0 {
        read(moments.sd@[i])
    } else {
        read(moments.design@[i]@[c - 1])
    }
}

/// A column of the dual program.
pub open spec fn dual_column(read: spec_fn(Real) -> int, moments: Moments, c: int) -> Seq<int> {
    Seq::new(moments.sd@.len(), |i: int| dual_entry(read, moments, i, c))
}

/// Whether inverses of row-major matrices are exact under a reading, and so are the
/// coefficients of rows by them.
pub open spec fn exact_inverses<T: TestArithmetic>(
    arithmetic: T,
    read: spec_fn(Real) -> int,
) -> bool {
    &&& exact::faithful(read)
    &&& forall|flat: Vec<Real>, dim: usize, inverse: Vec<Real>| #[trigger]
        arithmetic.inverts(flat, dim, Some(inverse)) ==> inverse@.len() == dim * dim
            && forall|r: int, c: int|
            0 <= r < dim && 0 <= c < dim ==> #[trigger] product_entry(
                read,
                inverse@.subrange(r * dim, r * dim + dim),
                flat@,
                dim as int,
                c,
            ) == (if r == c {
                1int
            } else {
                0int
            })
    &&& forall|
        flat: Vec<Real>,
        dim: usize,
        inverse: Vec<Real>,
        sd: Real,
        row: Vec<Real>,
        coefficients: Vec<Real>,
    |
        #[trigger] arithmetic.inverts(flat, dim, Some(inverse)) && #[trigger] arithmetic.combines(
            sd,
            row,
            inverse,
            coefficients,
        ) ==> coefficients@.len() == dim && forall|c: int|
            0 <= c < dim ==> #[trigger] product_entry(
                read,
                coefficients@,
                flat@,
                dim as int,
                c,
            ) == (if c == 0 {
                read(sd)
            } else {
                read(row@[c - 1])
            })
}

/// The inner product of factors with column `c` of a row-major square matrix.
pub open spec fn product_entry(
    read: spec_fn(Real) -> int,
    factors: Seq<Real>,
    flat: Seq<Real>,
    dim: int,
    c: int,
) -> int {
    exact::inner(
        exact::values(read, factors),
        Seq::new(dim as nat, |k: int| read(flat[k * dim + c])),
        dim,
    )
}

proof fn gathered_rows_stand_in_order(
    moments: Moments,
    binding: Seq<usize>,
    end: int,
    k: int,
    c: int,
    read: spec_fn(Real) -> int,
)
    requires
        0 <= k < end <= binding.len(),
        0 <= c < moments.dim(),
        matrix::indices_below(binding, moments.design@.len() as int),
        matrix::rectangular(moments.design@),
    ensures
        theta_test::binding_matrix(moments.sd@, moments.design@, binding, end).len() == end
            * moments.dim(),
        read(
            theta_test::binding_matrix(moments.sd@, moments.design@, binding, end)[k * moments.dim()
                + c],
        ) == dual_entry(read, moments, binding[k] as int, c),
    decreases end,
{
    let dim = moments.dim();
    let before = theta_test::binding_matrix(moments.sd@, moments.design@, binding, end - 1);
    let at = binding[end - 1] as int;
    assert(moments.design@[at]@.len() == dim - 1);
    assert(end * dim == (end - 1) * dim + dim) by (nonlinear_arith);
    assert(0 * dim == 0);
    if end > 1 {
        gathered_rows_stand_in_order(
            moments,
            binding,
            end - 1,
            if k < end - 1 {
                k
            } else {
                0
            },
            c,
            read,
        );
    }
    assert(before.len() == (end - 1) * dim);
    if k < end - 1 {
        assert(k * dim + c < (end - 1) * dim) by (nonlinear_arith)
            requires
                k <= end - 2,
                0 <= c < dim,
        ;
        assert(0 <= k * dim + c) by (nonlinear_arith)
            requires
                0 <= k,
                0 <= c < dim,
        ;
    }
}

proof fn scattered_inner(
    read: spec_fn(Real) -> int,
    indices: Seq<usize>,
    factors: Seq<Real>,
    right: Seq<int>,
    len: int,
    count: int,
)
    requires
        read(Real::zero_spec()) == 0,
        0 <= count <= indices.len(),
        count <= factors.len(),
        0 <= len,
        right.len() == len,
        matrix::indices_below(indices, len),
        forall|a: int, b: int| 0 <= a < b < indices.len() ==> #[trigger] indices[a]
            != #[trigger] indices[b],
    ensures
        exact::inner(
            exact::values(read, matrix::scattered(indices, factors, len, count)),
            right,
            len,
        ) == exact::inner(
            exact::values(read, factors),
            Seq::new(indices.len(), |k: int| right[indices[k] as int]),
            count,
        ),
    decreases count,
{
    let picked = Seq::new(indices.len(), |k: int| right[indices[k] as int]);
    matrix::scattered_len(indices, factors, len, count);
    if count == 0 {
        let nothing = exact::values(read, matrix::scattered(indices, factors, len, 0));
        exact::inner_commutes(nothing, right, len);
        inner_with_zeros(right, nothing, len);
    } else {
        scattered_inner(read, indices, factors, right, len, count - 1);
        matrix::scattered_len(indices, factors, len, count - 1);
        let at = indices[count - 1] as int;
        assert(indices[count - 1] < len);
        matrix::scattered_elsewhere_is_zero(indices, factors, len, count - 1, at);
        exact::inner_of_one_more(
            exact::values(read, matrix::scattered(indices, factors, len, count - 1)),
            exact::values(read, matrix::scattered(indices, factors, len, count)),
            right,
            at,
            read(factors[count - 1]),
            len,
        );
    }
}

/// The direction of the binding rows solves the dual program's equations: the
/// standard deviations weigh up to one along it, and the design to nothing.
pub proof fn the_binding_direction_solves_the_dual_program<T: TestArithmetic>(
    arithmetic: T,
    moments: Moments,
    slacks: Seq<Real>,
    binding: Vec<usize>,
    flat: Vec<Real>,
    inverse: Vec<Real>,
    direction: Vec<Real>,
    read: spec_fn(Real) -> int,
    c: int,
)
    requires
        exact_inverses(arithmetic, read),
        moments.shaped(),
        slacks.len() == moments.sd@.len(),
        slacks.len() <= usize::MAX,
        binding@ == theta_test::binding_rows(slacks, slacks.len() as int),
        binding@.len() == moments.dim(),
        flat@ == theta_test::binding_matrix(
            moments.sd@,
            moments.design@,
            binding@,
            binding@.len() as int,
        ),
        arithmetic.inverts(flat, moments.dim() as usize, Some(inverse)),
        direction@ == theta_test::spread(binding@, inverse@, moments.sd@.len() as int),
        0 <= c < moments.dim(),
    ensures
        exact::inner(
            exact::values(read, direction@),
            dual_column(read, moments, c),
            moments.sd@.len() as int,
        ) == (if c == 0 {
            1int
        } else {
            0int
        }),
{
    let dim = moments.dim();
    let rows = moments.sd@.len() as int;
    theta_test::binding_rows_are_exact(slacks, rows);
    assert(dim * dim >= dim) by (nonlinear_arith)
        requires
            dim >= 1,
    ;
    let first = inverse@.subrange(0 * dim, 0 * dim + dim);
    assert(product_entry(read, first, flat@, dim, c) == (if 0 == c {
        1int
    } else {
        0int
    }));
    scattered_inner(read, binding@, inverse@, dual_column(read, moments, c), rows, dim);
    let picked = Seq::new(
        binding@.len(),
        |k: int| dual_column(read, moments, c)[binding@[k] as int],
    );
    let column = Seq::new(dim as nat, |k: int| read(flat@[k * dim + c]));
    assert forall|k: int| 0 <= k < dim implies #[trigger] picked[k] == column[k] by {
        gathered_rows_stand_in_order(moments, binding@, dim, k, c, read);
        assert(binding@[k] < rows);
    }
    assert forall|k: int| 0 <= k < dim implies #[trigger] exact::values(read, inverse@)[k]
        == exact::values(read, first)[k] by {}
    exact::inner_of_equal_entries(
        exact::values(read, inverse@),
        picked,
        exact::values(read, first),
        column,
        dim,
    );
}

/// The contrast of a row that does not bind weighs every column of the dual
/// program to nothing.
pub proof fn a_contrast_weighs_the_dual_program_to_nothing<T: TestArithmetic>(
    arithmetic: T,
    moments: Moments,
    slacks: Seq<Real>,
    binding: Vec<usize>,
    flat: Vec<Real>,
    inverse: Vec<Real>,
    coefficients: Vec<Real>,
    read: spec_fn(Real) -> int,
    row: int,
    c: int,
)
    requires
        exact_inverses(arithmetic, read),
        moments.shaped(),
        slacks.len() == moments.sd@.len(),
        slacks.len() <= usize::MAX,
        binding@ == theta_test::binding_rows(slacks, slacks.len() as int),
        binding@.len() == moments.dim(),
        flat@ == theta_test::binding_matrix(
            moments.sd@,
            moments.design@,
            binding@,
            binding@.len() as int,
        ),
        arithmetic.inverts(flat, moments.dim() as usize, Some(inverse)),
        0 <= row < moments.sd@.len(),
        !theta_test::binds(slacks[row]),
        arithmetic.combines(moments.sd@[row], moments.design@[row], inverse, coefficients),
        0 <= c < moments.dim(),
    ensures
        exact::inner(
            exact::values(
                read,
                theta_test::row_contrast(
                    binding@,
                    coefficients@,
                    moments.sd@.len() as int,
                    row,
                ),
            ),
            dual_column(read, moments, c),
            moments.sd@.len() as int,
        ) == 0,
{
    let dim = moments.dim();
    let rows = moments.sd@.len() as int;
    theta_test::binding_rows_are_exact(slacks, rows);
    let along = dual_column(read, moments, c);
    assert(product_entry(read, coefficients@, flat@, dim, c) == dual_entry(
        read,
        moments,
        row,
        c,
    ));
    scattered_inner(read, binding@, coefficients@, along, rows, dim);
    let picked = Seq::new(binding@.len(), |k: int| along[binding@[k] as int]);
    let column = Seq::new(dim as nat, |k: int| read(flat@[k * dim + c]));
    assert forall|k: int| 0 <= k < dim implies #[trigger] picked[k] == column[k] by {
        gathered_rows_stand_in_order(moments, binding@, dim, k, c, read);
        assert(binding@[k] < rows);
    }
    exact::inner_of_equal_entries(
        exact::values(read, coefficients@),
        picked,
        exact::values(read, coefficients@),
        column,
        dim,
    );
    let spread = theta_test::spread(binding@, coefficients@, rows);
    matrix::scattered_len(binding@, coefficients@, rows, dim);
    matrix::scattered_elsewhere_is_zero(binding@, coefficients@, rows, dim, row);
    exact::inner_of_one_more(
        exact::values(read, spread),
        exact::values(
            read,
            theta_test::row_contrast(binding@, coefficients@, rows, row),
        ),
        along,
        row,
        -1,
        rows,
    );
}

/// The covariances of the moments under a smoothness restriction are those of the
/// values of its rows, their standard deviations are the square roots of the
/// variances, and each row of the dual program is the standard deviation followed by
/// the design.
pub proof fn smoothness_moments_vary_as_their_rows<A: StudyArithmetic>(
    weights: Seq<Real>,
    numbers: A,
    data: HonestEventStudyInput,
    system: constraints::SmoothnessMomentSystem,
    run: SetupRun,
    setup: LinearSetup,
    moments: Moments,
    full: FullMoments,
    read: spec_fn(Real) -> int,
    i: int,
    j: int,
)
    requires
        exact::faithful(read),
        exact_algebra(numbers, read),
        run.explains(system, data, weights, numbers, Ok(setup)),
        setup.has_moments(system.rows_for_arp@, moments, full),
        matrix::indices_below(system.rows_for_arp@, run.rows@.len() as int),
        0 <= i < system.rows_for_arp@.len(),
        0 <= j < system.rows_for_arp@.len(),
    ensures
        ({
            let left = run.rows@[system.rows_for_arp@[i] as int]@;
            let right = run.rows@[system.rows_for_arp@[j] as int]@;
            &&& read(moments.sigma@[i]@[j]) == covaried(read, left, right, data.covariance@)
            &&& Real::zero_spec().le(moments.sigma@[i]@[i]) ==> read(moments.sd@[i]) * read(
                moments.sd@[i],
            ) == covaried(read, left, left, data.covariance@)
            &&& moments.w_t@[i]@ == seq![moments.sd@[i]] + moments.design@[i]@
        }),
{
    let at = system.rows_for_arp@[i] as int;
    let other = system.rows_for_arp@[j] as int;
    let views = setup.views;
    assert(0 <= at < run.rows@.len());
    assert(0 <= other < run.rows@.len());
    let picked = choose|picked: Vec<Vec<Real>>|
        matrix::rows_of(#[trigger] picked@) == matrix::selected_rows(
            matrix::rows_of(run.x_matrix@),
            system.rows_for_arp@,
        ) && functional::zero_columns_dropped(picked@, views.x_arp@);
    assert(matrix::rows_of(picked@).len() == picked@.len());
    assert(matrix::rows_of(moments.sigma@).len() == views.sigma_arp@.len());
    assert(matrix::rows_of(moments.design@).len() == views.x_arp@.len());
    assert(matrix::rows_of(moments.w_t@).len() == setup.w_t@.len());
    assert(matrix::rows_of(setup.w_t@).len() == views.x_arp@.len());
    assert(matrix::rows_of(moments.sigma@)[i] == moments.sigma@[i]@);
    assert(matrix::rows_of(views.sigma_arp@)[i] == views.sigma_arp@[i]@);
    assert(matrix::rows_of(moments.design@)[i] == moments.design@[i]@);
    assert(matrix::rows_of(views.x_arp@)[i] == views.x_arp@[i]@);
    assert(matrix::rows_of(moments.w_t@)[i] == moments.w_t@[i]@);
    assert(matrix::rows_of(setup.w_t@)[i] == setup.w_t@[i]@);
    assert(views.sigma_arp@[i]@[j] == setup.sigma_full@[at]@[other]);
    assert(views.sigma_arp@[i]@[i] == setup.sigma_full@[at]@[at]);
    let own = views.sigma_arp@[i]@[i];
    assert(numbers.roots(own.max_spec(Real::zero_spec()), setup.sd_arp@[i]));
    if Real::zero_spec().le(own) {
        assert(read(own.max_spec(Real::zero_spec())) == read(own));
    }
}

} // verus!
