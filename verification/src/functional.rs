//! Moment conditions of one functional: its target coefficients, its nuisance
//! design and the data that go with them.

use crate::branches::RelativeMagnitudeFamily;
use crate::branch_search::RelativeMagnitudePreparedFunctionalBranch;
use crate::branches;
use crate::constraints;
use crate::constraints::{
    create_pre_period_equality_matrix, find_post_period_constraint_rows, Coefficient,
};
use crate::cv_cache::CriticalValueCache;
use crate::errors::HonestError;
use crate::input;
use crate::input::{basis_vector_index, construct_gamma, ZERO_WEIGHT_BITS};
use crate::matrix;
use crate::matrix::{
    build_w_t, columns_from, drop_zero_columns, select_entries, select_rows, subset_square_matrix,
};
use crate::number::Real;
use crate::study::StudyArithmetic;
use vstd::prelude::*;

verus! {

/// How the post-treatment columns are turned into a target and nuisance
/// parameters.
#[derive(Debug, PartialEq, Eq)]
pub enum RelativeMagnitudePreparedFunctionalTransform {
    /// The functional is one post period: its column is the target.
    Basis {
        /// Position of the period.
        target_idx: usize,
    },
    /// Any other functional: rows are multiplied by the inverse of a basis
    /// whose first element is the functional.
    General {
        /// The inverse.
        gamma_inverse: Vec<Vec<Real>>,
    },
}

/// Whether `transform` is that of the given weights.
pub open spec fn transform_of<A: StudyArithmetic>(
    weights: Seq<Real>,
    numbers: A,
    gamma: Vec<Vec<Real>>,
    answer: Result<Vec<Vec<Real>>, String>,
    transform: Result<RelativeMagnitudePreparedFunctionalTransform, HonestError>,
) -> bool {
    if exists|i: int| input::selects(weights, i) {
        transform matches Ok(
            RelativeMagnitudePreparedFunctionalTransform::Basis { target_idx },
        ) && input::selects(weights, target_idx as int)
    } else {
        match input::first_weight(weights, 0) {
            None => transform == Err::<
                RelativeMagnitudePreparedFunctionalTransform,
                HonestError,
            >(HonestError::GammaBasis),
            Some(pivot) => {
                &&& matrix::rows_of(gamma@) == input::gamma_rows(weights, pivot)
                &&& numbers.inverts(gamma, answer)
                &&& transform == (match answer {
                    Ok(gamma_inverse) => Ok(
                        RelativeMagnitudePreparedFunctionalTransform::General { gamma_inverse },
                    ),
                    Err(message) => Err(HonestError::Numerical { message }),
                })
            },
        }
    }
}

/// Prepares the transform of a functional.
pub fn prepare_relative_magnitude_functional_transform<A: StudyArithmetic>(
    post_weights: &[Real],
    numbers: &A,
) -> (transform: Result<RelativeMagnitudePreparedFunctionalTransform, HonestError>)
    requires
        numbers.ready(),
    ensures
        exists|gamma: Vec<Vec<Real>>, answer: Result<Vec<Vec<Real>>, String>| #[trigger]
            transform_of(post_weights@, *numbers, gamma, answer, transform),
{
    let ghost no_rows: Vec<Vec<Real>> = arbitrary();
    let ghost no_answer: Result<Vec<Vec<Real>>, String> = arbitrary();
    if let Some(target_idx) = basis_vector_index(post_weights) {
        let transform = Ok(RelativeMagnitudePreparedFunctionalTransform::Basis { target_idx });
        assert(transform_of(post_weights@, *numbers, no_rows, no_answer, transform));
        return transform;
    }
    match construct_gamma(post_weights) {
        Err(error) => {
            assert(transform_of(post_weights@, *numbers, no_rows, no_answer, Err(error)));
            Err(error)
        },
        Ok(gamma) => {
            let answer = numbers.invert(&gamma);
            let ghost said = answer;
            let transform = match answer {
                Ok(gamma_inverse) => Ok(
                    RelativeMagnitudePreparedFunctionalTransform::General { gamma_inverse },
                ),
                Err(message) => Err(HonestError::Numerical { message }),
            };
            assert(transform_of(post_weights@, *numbers, gamma, said, transform));
            transform
        },
    }
}

/// A row without the entry at `at`.
pub open spec fn without(row: Seq<Real>, at: int) -> Seq<Real> {
    row.take(at) + row.skip(at + 1)
}

fn copy_without(row: &[Real], at: usize) -> (reduced: Vec<Real>)
    requires
        at < row.len(),
    ensures
        reduced@ == without(row@, at as int),
{
    let mut reduced: Vec<Real> = Vec::new();
    let mut j: usize = 0;
    while j < row.len()
        invariant
            j <= row.len(),
            at < row.len(),
            reduced@ == (if j <= at {
                row@.take(j as int)
            } else {
                row@.take(at as int) + row@.subrange(at as int + 1, j as int)
            }),
        decreases row.len() - j,
    {
        if j != at {
            reduced.push(row[j]);
        }
        proof {
            if j < at {
                assert(row@.take(j + 1) =~= row@.take(j as int).push(row@[j as int]));
            } else if j == at {
                assert(row@.take(at as int) + row@.subrange(at as int + 1, j + 1) =~= row@.take(
                    at as int,
                ));
            } else {
                assert(row@.take(at as int) + row@.subrange(at as int + 1, j + 1) =~= (row@.take(
                    at as int,
                ) + row@.subrange(at as int + 1, j as int)).push(row@[j as int]));
            }
        }
        j = j + 1;
    }
    proof {
        assert(row@.subrange(at as int + 1, row.len() as int) =~= row@.skip(at as int + 1));
    }
    reduced
}

/// Whether `target` and `design` are what the transform makes of a row.
pub open spec fn row_split<A: StudyArithmetic>(
    transform: RelativeMagnitudePreparedFunctionalTransform,
    numbers: A,
    row: Vec<Real>,
    target: Real,
    design: Seq<Real>,
) -> bool {
    match transform {
        RelativeMagnitudePreparedFunctionalTransform::Basis { target_idx } => {
            &&& target == row@[target_idx as int]
            &&& design == without(row@, target_idx as int)
        },
        RelativeMagnitudePreparedFunctionalTransform::General { gamma_inverse } => {
            exists|projected: Vec<Real>|
                {
                    &&& #[trigger] numbers.projects(gamma_inverse, row, projected)
                    &&& target == projected@[0]
                    &&& design == projected@.skip(1)
                }
        },
    }
}

/// Whether a transform applies to rows of the given width.
pub open spec fn applies(
    transform: RelativeMagnitudePreparedFunctionalTransform,
    width: int,
) -> bool {
    &&& width > 0
    &&& match transform {
        RelativeMagnitudePreparedFunctionalTransform::Basis { target_idx } => target_idx < width,
        RelativeMagnitudePreparedFunctionalTransform::General { .. } => true,
    }
}

fn skip_first(row: &[Real]) -> (rest: Vec<Real>)
    requires
        row.len() > 0,
    ensures
        rest@ == row@.skip(1),
{
    let rest = copy_without(row, 0);
    assert(rest@ =~= row@.skip(1));
    rest
}

/// Target coefficients and nuisance design of the selected rows.
pub fn build_selected_target_and_design_from_transform<A: StudyArithmetic>(
    a_post: &[Vec<Real>],
    selected: &[usize],
    transform: &RelativeMagnitudePreparedFunctionalTransform,
    numbers: &A,
    width: usize,
) -> (split: (Vec<Real>, Vec<Vec<Real>>))
    requires
        matrix::has_cols(a_post@, width as int),
        matrix::indices_below(selected@, a_post.len() as int),
        applies(*transform, width as int),
        numbers.ready(),
    ensures
        split.0.len() == selected.len(),
        split.1.len() == selected.len(),
        matrix::has_cols(split.1@, width - 1),
        forall|k: int|
            0 <= k < selected.len() ==> row_split(
                *transform,
                *numbers,
                a_post@[selected@[k] as int],
                #[trigger] split.0@[k],
                split.1@[k]@,
            ),
{
    let mut target: Vec<Real> = Vec::new();
    let mut design: Vec<Vec<Real>> = Vec::new();
    let mut k: usize = 0;
    while k < selected.len()
        invariant
            k <= selected.len(),
            target.len() == k,
            design.len() == k,
            matrix::has_cols(a_post@, width as int),
            matrix::indices_below(selected@, a_post.len() as int),
            applies(*transform, width as int),
            numbers.ready(),
            matrix::has_cols(design@, width - 1),
            forall|i: int|
                0 <= i < k ==> row_split(
                    *transform,
                    *numbers,
                    a_post@[selected@[i] as int],
                    #[trigger] target@[i],
                    design@[i]@,
                ),
        decreases selected.len() - k,
    {
        let row = &a_post[selected[k]];
        assert(row@.len() == width);
        match transform {
            RelativeMagnitudePreparedFunctionalTransform::Basis { target_idx } => {
                target.push(row[*target_idx]);
                design.push(copy_without(row.as_slice(), *target_idx));
            },
            RelativeMagnitudePreparedFunctionalTransform::General { gamma_inverse } => {
                let projected = numbers.project(gamma_inverse, row);
                target.push(projected[0]);
                design.push(skip_first(projected.as_slice()));
            },
        }
        k = k + 1;
    }
    (target, design)
}

/// Target coefficients and nuisance design of all rows.
pub fn build_target_and_design_from_transform<A: StudyArithmetic>(
    a_post: &[Vec<Real>],
    transform: &RelativeMagnitudePreparedFunctionalTransform,
    numbers: &A,
    width: usize,
) -> (split: (Vec<Real>, Vec<Vec<Real>>))
    requires
        matrix::has_cols(a_post@, width as int),
        applies(*transform, width as int),
        numbers.ready(),
    ensures
        split.0.len() == a_post.len(),
        split.1.len() == a_post.len(),
        matrix::has_cols(split.1@, width - 1),
        forall|k: int|
            0 <= k < a_post.len() ==> row_split(
                *transform,
                *numbers,
                a_post@[k],
                #[trigger] split.0@[k],
                split.1@[k]@,
            ),
{
    let mut every: Vec<usize> = Vec::new();
    while every.len() < a_post.len()
        invariant
            every.len() <= a_post.len(),
            forall|i: int| 0 <= i < every.len() ==> #[trigger] every@[i] == i,
        decreases a_post.len() - every.len(),
    {
        let next: usize = every.len();
        every.push(next);
    }
    build_selected_target_and_design_from_transform(
        a_post,
        every.as_slice(),
        transform,
        numbers,
        width,
    )
}

/// Whether `subset` is the submatrix of a square matrix at the given indices.
pub open spec fn is_square_subset(
    matrix: Seq<Vec<Real>>,
    rows: Seq<usize>,
    subset: Seq<Vec<Real>>,
) -> bool {
    &&& subset.len() == rows.len()
    &&& matrix::has_cols(subset, rows.len() as int)
    &&& forall|i: int, j: int|
        0 <= i < rows.len() && 0 <= j < rows.len() ==> #[trigger] subset[i]@[j]
            == matrix[rows[i] as int]@[rows[j] as int]
}

/// The moment conditions that the conditional test sees.
#[derive(Debug, PartialEq, Eq)]
pub struct ArpViews {
    /// Nuisance design, without columns of zeros.
    pub x_arp: Vec<Vec<Real>>,
    /// Moments.
    pub y_arp_base: Vec<Real>,
    /// Target coefficients.
    pub a_target_arp: Vec<Real>,
    /// Covariance of the moments.
    pub sigma_arp: Vec<Vec<Real>>,
}

/// Whether `views` are the given moments restricted to the given rows.
pub open spec fn views_of(
    views: ArpViews,
    x_matrix: Seq<Vec<Real>>,
    y_vec: Seq<Real>,
    a_target: Seq<Real>,
    sigma_y: Seq<Vec<Real>>,
    rows: Seq<usize>,
) -> bool {
    &&& views.y_arp_base@ == Seq::new(rows.len(), |k: int| y_vec[rows[k] as int])
    &&& views.a_target_arp@ == Seq::new(rows.len(), |k: int| a_target[rows[k] as int])
    &&& is_square_subset(sigma_y, rows, views.sigma_arp@)
    &&& exists|picked: Vec<Vec<Real>>|
        matrix::rows_of(#[trigger] picked@) == matrix::selected_rows(
            matrix::rows_of(x_matrix),
            rows,
        ) && zero_columns_dropped(picked@, views.x_arp@)
}

/// Restricts moments to the given rows.
pub fn prepare_arp_views(
    x_matrix: &[Vec<Real>],
    y_vec: &[Real],
    a_target: &[Real],
    sigma_y: &[Vec<Real>],
    rows_for_arp: &[usize],
) -> (views: ArpViews)
    requires
        matrix::rectangular(x_matrix@),
        matrix::indices_below(rows_for_arp@, x_matrix.len() as int),
        matrix::indices_below(rows_for_arp@, y_vec.len() as int),
        matrix::indices_below(rows_for_arp@, a_target.len() as int),
        matrix::indices_below(rows_for_arp@, sigma_y.len() as int),
        matrix::has_cols(sigma_y@, sigma_y.len() as int),
    ensures
        views_of(views, x_matrix@, y_vec@, a_target@, sigma_y@, rows_for_arp@),
{
    let sigma_arp = subset_square_matrix(sigma_y, rows_for_arp);
    let picked = select_rows(x_matrix, rows_for_arp);
    proof {
        assert(matrix::rows_of(picked@).len() == rows_for_arp@.len());
        assert forall|i: int| 0 <= i < picked.len() implies (#[trigger] picked@[i])@.len()
            == matrix::first_width(picked@) by {
            assert(matrix::rows_of(picked@)[i] == picked@[i]@);
            assert(matrix::rows_of(picked@)[0] == picked@[0]@);
            assert(rows_for_arp@[i] < x_matrix.len() && rows_for_arp@[0] < x_matrix.len());
            assert(x_matrix@[rows_for_arp@[i] as int]@.len() == matrix::first_width(x_matrix@));
            assert(x_matrix@[rows_for_arp@[0] as int]@.len() == matrix::first_width(x_matrix@));
        }
    }
    let x_arp = drop_zero_columns(picked.as_slice(), Real { bits: ZERO_WEIGHT_BITS });
    let y_arp_base = select_entries(y_vec, rows_for_arp);
    let a_target_arp = select_entries(a_target, rows_for_arp);
    let views = ArpViews { x_arp, y_arp_base, a_target_arp, sigma_arp };
    assert(zero_columns_dropped(picked@, views.x_arp@));
    views
}

/// Whether `reduced` is `matrix` without its columns of zeros.
pub open spec fn zero_columns_dropped(matrix: Seq<Vec<Real>>, reduced: Seq<Vec<Real>>) -> bool {
    &&& reduced.len() == matrix.len()
    &&& forall|i: int|
        0 <= i < matrix.len() ==> (#[trigger] reduced[i])@ == matrix::kept_entries(
            matrix[i]@,
            matrix,
            Real { bits: ZERO_WEIGHT_BITS },
            matrix::first_width(matrix),
        )
}

/// A branch of a restriction, with its constraints as numbers.
#[derive(Debug, PartialEq, Eq)]
pub struct RelativeMagnitudePreparedBranch {
    /// Constraints that involve a post period.
    pub rows_for_arp: Vec<usize>,
    /// All constraints.
    pub constraint_rows: Vec<Vec<Real>>,
    /// Their columns of post periods.
    pub a_post: Vec<Vec<Real>>,
    /// Entries of the constraints with the equalities of the pre periods below.
    pub solver_matrix: Vec<matrix::Triplet>,
    /// Number of constraints.
    pub inequality_len: usize,
}

/// Whether `values` holds the numbers of a coefficient matrix.
pub open spec fn valued<A: StudyArithmetic>(
    rows: Seq<Vec<Coefficient>>,
    numbers: A,
    bound: Real,
    values: Seq<Vec<Real>>,
) -> bool {
    &&& values.len() == rows.len()
    &&& forall|i: int|
        0 <= i < rows.len() ==> (#[trigger] values[i])@.len() == rows[i]@.len()
    &&& forall|i: int, j: int|
        0 <= i < rows.len() && 0 <= j < rows[i]@.len() ==> numbers.evaluates(rows[i]@[j], bound, #[trigger] values[i]@[j])
}

/// The numbers of a coefficient matrix.
pub fn matrix_values<A: StudyArithmetic>(
    rows: &[Vec<Coefficient>],
    numbers: &A,
    bound: Real,
) -> (values: Vec<
    Vec<Real>,
>)
    requires
        numbers.ready(),
    ensures
        valued(rows@, *numbers, bound, values@),
{
    let mut values: Vec<Vec<Real>> = Vec::new();
    while values.len() < rows.len()
        invariant
            values.len() <= rows.len(),
            numbers.ready(),
            forall|i: int|
                0 <= i < values.len() ==> (#[trigger] values@[i])@.len() == rows@[i]@.len(),
            forall|i: int, j: int|
                0 <= i < values.len() && 0 <= j < rows@[i]@.len() ==> numbers.evaluates(rows@[i]@[j], bound, #[trigger] values@[i]@[j]),
        decreases rows.len() - values.len(),
    {
        let i: usize = values.len();
        let mut row: Vec<Real> = Vec::new();
        while row.len() < rows[i].len()
            invariant
                i < rows.len(),
                row.len() <= rows@[i as int]@.len(),
                numbers.ready(),
                forall|j: int|
                    0 <= j < row.len() ==> numbers.evaluates(rows@[i as int]@[j], bound, #[trigger] row@[j]),
            decreases rows@[i as int]@.len() - row.len(),
        {
            let j: usize = row.len();
            row.push(numbers.value(rows[i][j], bound));
        }
        values.push(row);
    }
    values
}

/// Whether a prepared branch has the given constraints.
pub open spec fn branch_prepared<A: StudyArithmetic>(
    prepared: RelativeMagnitudePreparedBranch,
    rows: Seq<Vec<Coefficient>>,
    equalities: Seq<Vec<Real>>,
    num_pre: int,
    numbers: A,
    bound: Real,
) -> bool {
    &&& prepared.rows_for_arp@ == constraints::post_period_rows(rows, num_pre, rows.len() as int)
    &&& valued(rows, numbers, bound, prepared.constraint_rows@)
    &&& matrix::rows_of(prepared.a_post@) == Seq::new(
        rows.len(),
        |i: int| prepared.constraint_rows@[i]@.skip(num_pre),
    )
    &&& prepared.inequality_len == rows.len()
    &&& prepared.solver_matrix@ == matrix::triplets_of(
        matrix::rows_of(prepared.constraint_rows@) + matrix::rows_of(equalities),
    )
}

/// Prepares the branches of a restriction, in their order.
pub fn prepare_relative_magnitude_branches<A: StudyArithmetic>(
    family: RelativeMagnitudeFamily,
    num_pre: usize,
    num_post: usize,
    numbers: &A,
    bound: Real,
) -> (prepared: Result<Vec<RelativeMagnitudePreparedBranch>, HonestError>)
    requires
        num_pre < i64::MAX,
        4 * (num_pre + num_post) + 4 <= usize::MAX,
        numbers.ready(),
    ensures
        prepared matches Ok(found) && branches_prepared(
            found@,
            family,
            num_pre as int,
            num_post as int,
            *numbers,
            bound,
        ),
{
    let equalities = create_pre_period_equality_matrix(num_pre, num_post);
    let listed = family.branches(num_pre);
    let mut prepared: Vec<RelativeMagnitudePreparedBranch> = Vec::new();
    let mut k: usize = 0;
    while k < listed.len()
        invariant
            k <= listed.len(),
            num_pre < i64::MAX,
            4 * (num_pre + num_post) + 4 <= usize::MAX,
            listed@ == family.branches_spec(num_pre as int),
            prepared.len() == k,
            is_identity_block(equalities@, num_pre as int, num_pre + num_post),
            numbers.ready(),
            forall|i: int|
                0 <= i < k ==> branch_of(
                    #[trigger] prepared@[i],
                    family,
                    listed@[i],
                    num_pre as int,
                    num_post as int,
                    *numbers,
            bound,
                ),
        decreases listed.len() - k,
    {
        let branch = listed[k];
        proof {
            branches::every_listed_branch_is_valid(family, num_pre as int, k as int);
        }
        match family.build_constraint_matrix(num_pre, num_post, branch) {
            Err(error) => {
                return Err(error);
            },
            Ok(rows) => {
                let rows_for_arp = find_post_period_constraint_rows(rows.as_slice(), num_pre);
                let constraint_rows = matrix_values(rows.as_slice(), numbers, bound);
                proof {
                    assert forall|i: int| 0 <= i < constraint_rows.len() implies (
                    #[trigger] constraint_rows@[i])@.len() >= num_pre by {
                        assert(rows@[i]@.len() == num_pre + num_post);
                    }
                }
                let a_post = columns_from(constraint_rows.as_slice(), num_pre);
                let inequality_len: usize = constraint_rows.len();
                let solver_matrix = matrix::constraint_triplets(
                    constraint_rows.as_slice(),
                    equalities.as_slice(),
                );
                let made = RelativeMagnitudePreparedBranch {
                    rows_for_arp,
                    constraint_rows,
                    a_post,
                    solver_matrix,
                    inequality_len,
                };
                proof {
                    assert(branch_prepared(made, rows@, equalities@, num_pre as int, *numbers, bound));
                    assert(branch_of(made, family, branch, num_pre as int, num_post as int, *numbers, bound));
                }
                prepared.push(made);
            },
        }
        k = k + 1;
    }
    Ok(prepared)
}

/// Whether the rows are the first `count` unit rows.
pub open spec fn is_identity_block(rows: Seq<Vec<Real>>, count: int, cols: int) -> bool {
    &&& rows.len() == count
    &&& matrix::has_cols(rows, cols)
    &&& forall|i: int, j: int|
        0 <= i < count && 0 <= j < cols ==> #[trigger] rows[i]@[j] == (if i == j {
            Real::one_spec()
        } else {
            Real::zero_spec()
        })
}

/// Whether a prepared branch is the given branch of a restriction.
pub open spec fn branch_of<A: StudyArithmetic>(
    prepared: RelativeMagnitudePreparedBranch,
    family: RelativeMagnitudeFamily,
    branch: branches::RelativeMagnitudeBranch,
    num_pre: int,
    num_post: int,
    numbers: A,
    bound: Real,
) -> bool {
    exists|rows: Vec<Vec<Coefficient>>, equalities: Vec<Vec<Real>>|
        branches::is_family_matrix(
            rows@,
            family,
            num_pre,
            num_post,
            branch.s as int,
            branch.max_positive,
        ) && is_identity_block(equalities@, num_pre, num_pre + num_post)
            && #[trigger] branch_prepared(prepared, rows@, equalities@, num_pre, numbers, bound)
}

/// Whether these are all branches of a restriction, in their order.
pub open spec fn branches_prepared<A: StudyArithmetic>(
    prepared: Seq<RelativeMagnitudePreparedBranch>,
    family: RelativeMagnitudeFamily,
    num_pre: int,
    num_post: int,
    numbers: A,
    bound: Real,
) -> bool {
    let listed = family.branches_spec(num_pre);
    &&& prepared.len() == listed.len()
    &&& forall|i: int|
        0 <= i < prepared.len() ==> branch_of(
            #[trigger] prepared[i],
            family,
            listed[i],
            num_pre,
            num_post,
            numbers, bound,
        )
}

/// The rows of every branch of a restriction exist and have one column
/// per post period.
pub proof fn prepared_branches_are_shaped<A: StudyArithmetic>(
    prepared: Seq<RelativeMagnitudePreparedBranch>,
    family: RelativeMagnitudeFamily,
    num_pre: int,
    num_post: int,
    numbers: A,
    bound: Real,
    i: int,
)
    requires
        branches_prepared(prepared, family, num_pre, num_post, numbers, bound),
        0 <= i < prepared.len(),
        0 <= num_pre,
        0 <= num_post,
    ensures
        branch_shaped(prepared[i], num_post),
{
    let branch = prepared[i];
    let listed = family.branches_spec(num_pre);
    assert(branch_of(branch, family, listed[i], num_pre, num_post, numbers, bound));
    let (rows, equalities) = choose|rows: Vec<Vec<Coefficient>>, equalities: Vec<Vec<Real>>|
        branches::is_family_matrix(
            rows@,
            family,
            num_pre,
            num_post,
            listed[i].s as int,
            listed[i].max_positive,
        ) && is_identity_block(equalities@, num_pre, num_pre + num_post)
            && #[trigger] branch_prepared(branch, rows@, equalities@, num_pre, numbers, bound);
    constraints::post_period_rows_are_exact(rows@, num_pre, rows@.len() as int);
    assert(matrix::rows_of(branch.a_post@).len() == rows@.len());
    assert forall|k: int| 0 <= k < branch.a_post.len() implies (#[trigger] branch.a_post@[k])@.len()
        == num_post by {
        assert(matrix::rows_of(branch.a_post@)[k] == branch.a_post@[k]@);
        assert(branch.constraint_rows@[k]@.len() == rows@[k]@.len());
        assert(rows@[k]@.len() == num_pre + num_post);
    }
}

/// Moments of one branch and their covariance.
#[derive(Debug, PartialEq, Eq)]
pub struct RelativeMagnitudePreparedInputBranch {
    /// Moments.
    pub y_arp_base: Vec<Real>,
    /// Covariance of the moments.
    pub sigma_arp: Vec<Vec<Real>>,
    /// Standard deviations of the moments.
    pub sd_arp: Vec<Real>,
}

/// Whether the rows of a branch exist and have one width.
pub open spec fn branch_shaped(branch: RelativeMagnitudePreparedBranch, width: int) -> bool {
    &&& matrix::indices_below(branch.rows_for_arp@, branch.constraint_rows.len() as int)
    &&& branch.a_post.len() == branch.constraint_rows.len()
    &&& matrix::has_cols(branch.a_post@, width)
}

/// Whether `made` are the moments of a branch: the constraint rows applied to
/// the coefficients, with the covariance that this implies, restricted to the
/// rows that involve a post period.
pub open spec fn input_branch_of<A: StudyArithmetic>(
    made: RelativeMagnitudePreparedInputBranch,
    branch: RelativeMagnitudePreparedBranch,
    betahat: Vec<Real>,
    covariance: Vec<Vec<Real>>,
    numbers: A,
    y_vec: Vec<Real>,
    sigma_y: Vec<Vec<Real>>,
) -> bool {
    &&& numbers.multiplies(branch.constraint_rows, betahat, y_vec)
    &&& numbers.covaries(branch.constraint_rows, covariance, sigma_y)
    &&& made.y_arp_base@ == Seq::new(
        branch.rows_for_arp@.len(),
        |k: int| y_vec@[branch.rows_for_arp@[k] as int],
    )
    &&& is_square_subset(sigma_y@, branch.rows_for_arp@, made.sigma_arp@)
    &&& made.sd_arp.len() == branch.rows_for_arp.len()
    &&& forall|k: int|
        0 <= k < made.sd_arp.len() ==> numbers.roots(made.sigma_arp@[k]@[k].max_spec(Real::zero_spec()), #[trigger] made.sd_arp@[k])
}

/// Whether `made` are the moments of a branch.
pub open spec fn has_moments<A: StudyArithmetic>(
    made: RelativeMagnitudePreparedInputBranch,
    branch: RelativeMagnitudePreparedBranch,
    betahat: Vec<Real>,
    covariance: Vec<Vec<Real>>,
    numbers: A,
) -> bool {
    exists|y_vec: Vec<Real>, sigma_y: Vec<Vec<Real>>| #[trigger]
        input_branch_of(made, branch, betahat, covariance, numbers, y_vec, sigma_y)
}

/// Square roots of the diagonal of a square matrix, negative entries counting
/// as zero.
pub fn diag_sqrt<A: StudyArithmetic>(matrix: &[Vec<Real>], numbers: &A) -> (roots: Vec<Real>)
    requires
        matrix::has_cols(matrix@, matrix.len() as int),
        numbers.ready(),
    ensures
        roots.len() == matrix.len(),
        forall|k: int|
            0 <= k < roots.len() ==> numbers.roots(matrix@[k]@[k].max_spec(Real::zero_spec()), #[trigger] roots@[k]),
{
    let diagonal = matrix::clipped_diagonal(matrix);
    let mut roots: Vec<Real> = Vec::new();
    while roots.len() < diagonal.len()
        invariant
            roots.len() <= diagonal.len(),
            diagonal.len() == matrix.len(),
            numbers.ready(),
            forall|k: int|
                0 <= k < diagonal.len() ==> #[trigger] diagonal@[k] == matrix@[k]@[k].max_spec(
                    Real::zero_spec(),
                ),
            forall|k: int|
                0 <= k < roots.len() ==> numbers.roots(matrix@[k]@[k].max_spec(Real::zero_spec()), #[trigger] roots@[k]),
        decreases diagonal.len() - roots.len(),
    {
        let k: usize = roots.len();
        roots.push(numbers.root(diagonal[k]));
    }
    roots
}

/// Moments and covariances of all branches, in order.
pub fn prepare_relative_magnitude_input_branches<A: StudyArithmetic>(
    branches: &[RelativeMagnitudePreparedBranch],
    betahat: &Vec<Real>,
    covariance: &Vec<Vec<Real>>,
    numbers: &A,
) -> (inputs: Vec<RelativeMagnitudePreparedInputBranch>)
    requires
        forall|i: int|
            0 <= i < branches.len() ==> matrix::indices_below(
                (#[trigger] branches@[i]).rows_for_arp@,
                branches@[i].constraint_rows.len() as int,
            ),
        numbers.ready(),
    ensures
        inputs.len() == branches.len(),
        forall|i: int|
            0 <= i < branches.len() ==> has_moments(
                #[trigger] inputs@[i],
                branches@[i],
                *betahat,
                *covariance,
                *numbers,
            ),
{
    let mut inputs: Vec<RelativeMagnitudePreparedInputBranch> = Vec::new();
    while inputs.len() < branches.len()
        invariant
            inputs.len() <= branches.len(),
            forall|i: int|
                0 <= i < branches.len() ==> matrix::indices_below(
                    (#[trigger] branches@[i]).rows_for_arp@,
                    branches@[i].constraint_rows.len() as int,
                ),
            numbers.ready(),
            forall|i: int|
                0 <= i < inputs.len() ==> has_moments(
                #[trigger] inputs@[i],
                branches@[i],
                *betahat,
                *covariance,
                *numbers,
            ),
        decreases branches.len() - inputs.len(),
    {
        let branch = &branches[inputs.len()];
        let y_vec = numbers.multiply(&branch.constraint_rows, betahat);
        let sigma_y = numbers.sandwich(&branch.constraint_rows, covariance);
        let y_arp_base = select_entries(y_vec.as_slice(), branch.rows_for_arp.as_slice());
        let sigma_arp = subset_square_matrix(sigma_y.as_slice(), branch.rows_for_arp.as_slice());
        let sd_arp = diag_sqrt(sigma_arp.as_slice(), numbers);
        let made = RelativeMagnitudePreparedInputBranch { y_arp_base, sigma_arp, sd_arp };
        assert(input_branch_of(
            made,
            *branch,
            *betahat,
            *covariance,
            *numbers,
            y_vec,
            sigma_y,
        ));
        inputs.push(made);
    }
    inputs
}

/// Whether `made` are the rows of a branch for a functional, with nothing
/// remembered yet.
pub open spec fn functional_branch_of<A: StudyArithmetic>(
    made: RelativeMagnitudePreparedFunctionalBranch,
    branch: RelativeMagnitudePreparedBranch,
    sd_arp: Seq<Real>,
    transform: RelativeMagnitudePreparedFunctionalTransform,
    numbers: A,
    design: Vec<Vec<Real>>,
) -> bool {
    &&& made.a_target_arp.len() == branch.rows_for_arp.len()
    &&& design.len() == branch.rows_for_arp.len()
    &&& forall|k: int|
        0 <= k < branch.rows_for_arp.len() ==> row_split(
            transform,
            numbers,
            branch.a_post@[branch.rows_for_arp@[k] as int],
            #[trigger] made.a_target_arp@[k],
            design@[k]@,
        )
    &&& zero_columns_dropped(design@, made.x_arp@)
    &&& matrix::rows_of(made.w_t@) == Seq::new(
        made.x_arp@.len(),
        |k: int| seq![sd_arp[k]] + made.x_arp@[k]@,
    )
    &&& forall|key: u64| !made.lf_cache@.contains_key(key)
}

/// Whether `made` are the rows of a branch for a functional.
pub open spec fn has_rows<A: StudyArithmetic>(
    made: RelativeMagnitudePreparedFunctionalBranch,
    branch: RelativeMagnitudePreparedBranch,
    sd_arp: Seq<Real>,
    transform: RelativeMagnitudePreparedFunctionalTransform,
    numbers: A,
) -> bool {
    exists|design: Vec<Vec<Real>>| #[trigger]
        functional_branch_of(made, branch, sd_arp, transform, numbers, design)
}

/// The rows of a branch for a functional.
pub fn prepare_functional_branch<A: StudyArithmetic>(
    branch: &RelativeMagnitudePreparedBranch,
    sd_arp: &[Real],
    transform: &RelativeMagnitudePreparedFunctionalTransform,
    numbers: &A,
    width: usize,
) -> (made: RelativeMagnitudePreparedFunctionalBranch)
    requires
        branch_shaped(*branch, width as int),
        sd_arp.len() >= branch.rows_for_arp.len(),
        applies(*transform, width as int),
        numbers.ready(),
    ensures
        has_rows(made, *branch, sd_arp@, *transform, *numbers),
{
    let (a_target_arp, design) = build_selected_target_and_design_from_transform(
        branch.a_post.as_slice(),
        branch.rows_for_arp.as_slice(),
        transform,
        numbers,
        width,
    );
    let x_arp = drop_zero_columns(design.as_slice(), Real { bits: ZERO_WEIGHT_BITS });
    let w_t = build_w_t(x_arp.as_slice(), sd_arp);
    let made = RelativeMagnitudePreparedFunctionalBranch {
        a_target_arp,
        x_arp,
        w_t,
        lf_cache: CriticalValueCache::new(),
    };
    assert(functional_branch_of(made, *branch, sd_arp@, *transform, *numbers, design));
    made
}

/// Whether these are the rows of all branches for a functional, in order.
pub open spec fn functional_branches_of<A: StudyArithmetic>(
    made: Seq<RelativeMagnitudePreparedFunctionalBranch>,
    branches: Seq<RelativeMagnitudePreparedBranch>,
    inputs: Seq<RelativeMagnitudePreparedInputBranch>,
    transform: RelativeMagnitudePreparedFunctionalTransform,
    numbers: A,
) -> bool {
    &&& made.len() == branches.len()
    &&& forall|i: int|
        0 <= i < made.len() ==> has_rows(
                #[trigger] made[i],
                branches[i],
                inputs[i].sd_arp@,
                transform,
                numbers,
            )
}

/// The rows of all branches for a transformed functional.
pub fn functional_branches_by_transform<A: StudyArithmetic>(
    branches: &[RelativeMagnitudePreparedBranch],
    inputs: &[RelativeMagnitudePreparedInputBranch],
    transform: &RelativeMagnitudePreparedFunctionalTransform,
    numbers: &A,
    width: usize,
) -> (made: Vec<RelativeMagnitudePreparedFunctionalBranch>)
    requires
        branches.len() == inputs.len(),
        forall|i: int|
            0 <= i < branches.len() ==> branch_shaped(#[trigger] branches@[i], width as int)
                && inputs@[i].sd_arp.len() >= branches@[i].rows_for_arp.len(),
        applies(*transform, width as int),
        numbers.ready(),
    ensures
        functional_branches_of(made@, branches@, inputs@, *transform, *numbers),
{
    let mut made: Vec<RelativeMagnitudePreparedFunctionalBranch> = Vec::new();
    while made.len() < branches.len()
        invariant
            made.len() <= branches.len(),
            branches.len() == inputs.len(),
            forall|i: int|
                0 <= i < branches.len() ==> branch_shaped(#[trigger] branches@[i], width as int)
                    && inputs@[i].sd_arp.len() >= branches@[i].rows_for_arp.len(),
            applies(*transform, width as int),
            numbers.ready(),
            forall|i: int|
                0 <= i < made.len() ==> has_rows(
                #[trigger] made@[i],
                branches@[i],
                inputs@[i].sd_arp@,
                *transform,
                *numbers,
            ),
        decreases branches.len() - made.len(),
    {
        let i: usize = made.len();
        assert(branch_shaped(branches@[i as int], width as int));
        let next = prepare_functional_branch(
            &branches[i],
            inputs[i].sd_arp.as_slice(),
            transform,
            numbers,
            width,
        );
        made.push(next);
    }
    made
}

/// The rows of all branches for a functional.
pub fn prepare_relative_magnitude_functional_branches<A: StudyArithmetic>(
    post_weights: &[Real],
    branches: &[RelativeMagnitudePreparedBranch],
    inputs: &[RelativeMagnitudePreparedInputBranch],
    numbers: &A,
) -> (made: Result<Vec<RelativeMagnitudePreparedFunctionalBranch>, HonestError>)
    requires
        branches.len() == inputs.len() ==> forall|i: int|
            0 <= i < branches.len() ==> branch_shaped(
                #[trigger] branches@[i],
                post_weights.len() as int,
            ) && inputs@[i].sd_arp.len() >= branches@[i].rows_for_arp.len(),
        numbers.ready(),
    ensures
        branches.len() != inputs.len() ==> made == Err::<
            Vec<RelativeMagnitudePreparedFunctionalBranch>,
            HonestError,
        >(branch_count_error(branches.len(), inputs.len())),
        branches.len() == inputs.len() ==> exists|
            gamma: Vec<Vec<Real>>,
            answer: Result<Vec<Vec<Real>>, String>,
            transform: Result<RelativeMagnitudePreparedFunctionalTransform, HonestError>,
        | #[trigger]
            transform_of(post_weights@, *numbers, gamma, answer, transform) && (match transform {
                Err(error) => made == Err::<
                    Vec<RelativeMagnitudePreparedFunctionalBranch>,
                    HonestError,
                >(error),
                Ok(found) => made matches Ok(list) && functional_branches_of(
                    list@,
                    branches@,
                    inputs@,
                    found,
                    *numbers,
                ),
            }),
{
    if branches.len() != inputs.len() {
        return Err(branch_count_mismatch(branches.len(), inputs.len()));
    }
    let transform = prepare_relative_magnitude_functional_transform(post_weights, numbers);
    match transform {
        Err(error) => Err(error),
        Ok(found) => Ok(
            functional_branches_by_transform(
                branches,
                inputs,
                &found,
                numbers,
                post_weights.len(),
            ),
        ),
    }
}

/// The error of prepared branches and prepared moments that differ in number.
pub open spec fn branch_count_error(branches: usize, inputs: usize) -> HonestError {
    HonestError::CountMismatch {
        list: "prepared relative-magnitude branch",
        found: branches,
        other: "prepared input branch",
        expected: inputs,
    }
}

/// The error of prepared branches and prepared moments that differ in number.
pub fn branch_count_mismatch(branches: usize, inputs: usize) -> (error: HonestError)
    ensures
        error == branch_count_error(branches, inputs),
{
    HonestError::CountMismatch {
        list: "prepared relative-magnitude branch",
        found: branches,
        other: "prepared input branch",
        expected: inputs,
    }
}

} // verus!
