//! Square linear systems, and which of their solutions are accepted.

use crate::errors::HonestError;
use crate::matrix;
use crate::matrix::{check_square_system, max_abs};
use crate::number::Real;
use vstd::prelude::*;

verus! {

/// The bits of `1e-7`, above which a product with an inverse misses the
/// identity.
pub const INVERSE_TOLERANCE_BITS: u64 = 0x3e7ad7f29abcaf48;

/// What a solve is called in messages.
pub const PLAIN_SOLVE: &'static str = "square linear solve";

/// What a solve with the matrix transposed is called in messages.
pub const TRANSPOSED_SOLVE: &'static str = "transposed square linear solve";

/// What an inversion is called in messages.
pub const INVERSE: &'static str = "matrix inverse";

/// The arithmetic of a solve.
pub struct SystemNumbers<S, R, T> {
    /// A candidate solution.
    pub solve: S,
    /// By how much a candidate misses each entry of the right-hand side.
    pub misses: R,
    /// The residual that is tolerated at a scale.
    pub tolerate: T,
}

/// The scale of a right-hand side: its largest magnitude, but no less than one.
pub open spec fn scale_of(rhs: Seq<Real>) -> Real {
    matrix::largest_magnitude(rhs, rhs.len() as int).max_spec(Real::one_spec())
}

/// Whether `outcome` is a candidate that is returned where its residual is
/// tolerated.
pub open spec fn judged<
    S: Fn(&Vec<Vec<Real>>, &Vec<Real>) -> Vec<Real>,
    R: Fn(&Vec<Vec<Real>>, &Vec<Real>, &Vec<Real>) -> Vec<Real>,
    T: Fn(Real) -> Real,
>(
    context: &'static str,
    matrix: Vec<Vec<Real>>,
    rhs: Vec<Real>,
    numbers: SystemNumbers<S, R, T>,
    candidate: Vec<Real>,
    misses: Vec<Real>,
    tolerance: Real,
    outcome: Result<Vec<Real>, HonestError>,
) -> bool {
    let residual = matrix::largest_magnitude(misses@, misses@.len() as int);
    &&& call_ensures(numbers.solve, (&matrix, &rhs), candidate)
    &&& call_ensures(numbers.misses, (&matrix, &rhs, &candidate), misses)
    &&& call_ensures(numbers.tolerate, (scale_of(rhs@),), tolerance)
    &&& outcome == (if tolerance.lt(residual) {
        Err::<Vec<Real>, HonestError>(HonestError::SolveResidual { context, residual, tolerance })
    } else {
        Ok::<Vec<Real>, HonestError>(candidate)
    })
}

/// Whether `outcome` is what a solve returns: the fault of a system that is not
/// square, or a judged candidate.
pub open spec fn solves<
    S: Fn(&Vec<Vec<Real>>, &Vec<Real>) -> Vec<Real>,
    R: Fn(&Vec<Vec<Real>>, &Vec<Real>, &Vec<Real>) -> Vec<Real>,
    T: Fn(Real) -> Real,
>(
    context: &'static str,
    matrix: Vec<Vec<Real>>,
    rhs: Vec<Real>,
    numbers: SystemNumbers<S, R, T>,
    outcome: Result<Vec<Real>, HonestError>,
) -> bool {
    match matrix::square_system_fault(context, matrix@, Some(rhs@.len() as usize)) {
        Some(error) => outcome == Err::<Vec<Real>, HonestError>(error),
        None => exists|candidate: Vec<Real>, misses: Vec<Real>, tolerance: Real| #[trigger]
            judged(context, matrix, rhs, numbers, candidate, misses, tolerance, outcome),
    }
}

/// Whether the arithmetic takes a system and whatever its candidate is.
pub open spec fn system_ready<
    S: Fn(&Vec<Vec<Real>>, &Vec<Real>) -> Vec<Real>,
    R: Fn(&Vec<Vec<Real>>, &Vec<Real>, &Vec<Real>) -> Vec<Real>,
    T: Fn(Real) -> Real,
>(matrix: Vec<Vec<Real>>, rhs: Vec<Real>, numbers: SystemNumbers<S, R, T>) -> bool {
    &&& call_requires(numbers.solve, (&matrix, &rhs))
    &&& forall|candidate: Vec<Real>|
        call_ensures(numbers.solve, (&matrix, &rhs), candidate) ==> #[trigger] call_requires(
            numbers.misses,
            (&matrix, &rhs, &candidate),
        )
    &&& forall|scale: Real| #[trigger] call_requires(numbers.tolerate, (scale,))
}

fn solve_and_judge<
    S: Fn(&Vec<Vec<Real>>, &Vec<Real>) -> Vec<Real>,
    R: Fn(&Vec<Vec<Real>>, &Vec<Real>, &Vec<Real>) -> Vec<Real>,
    T: Fn(Real) -> Real,
>(
    context: &'static str,
    matrix: &Vec<Vec<Real>>,
    rhs: &Vec<Real>,
    numbers: &SystemNumbers<S, R, T>,
) -> (outcome: Result<Vec<Real>, HonestError>)
    requires
        matrix::square_system_fault(context, matrix@, Some(rhs@.len() as usize)) is None
            ==> system_ready(*matrix, *rhs, *numbers),
    ensures
        solves(context, *matrix, *rhs, *numbers, outcome),
{
    let len: usize = rhs.len();
    assert(len == rhs@.len() as usize);
    if let Err(error) = check_square_system(context, matrix, Some(len)) {
        return Err(error);
    }
    let candidate = (numbers.solve)(matrix, rhs);
    let misses = (numbers.misses)(matrix, rhs, &candidate);
    let residual = max_abs(&misses);
    let tolerance = (numbers.tolerate)(max_abs(rhs).max(Real::one()));
    let ghost found = candidate;
    let outcome = if tolerance.less(residual) {
        Err(HonestError::SolveResidual { context, residual, tolerance })
    } else {
        Ok(candidate)
    };
    assert(judged(context, *matrix, *rhs, *numbers, found, misses, tolerance, outcome));
    outcome
}

/// The solution of a square system, unless it misses the right-hand side.
pub fn solve_square_linear_system<
    S: Fn(&Vec<Vec<Real>>, &Vec<Real>) -> Vec<Real>,
    R: Fn(&Vec<Vec<Real>>, &Vec<Real>, &Vec<Real>) -> Vec<Real>,
    T: Fn(Real) -> Real,
>(matrix: &Vec<Vec<Real>>, rhs: &Vec<Real>, numbers: &SystemNumbers<S, R, T>) -> (outcome: Result<
    Vec<Real>,
    HonestError,
>)
    requires
        matrix::square_system_fault(PLAIN_SOLVE, matrix@, Some(rhs@.len() as usize)) is None
            ==> system_ready(*matrix, *rhs, *numbers),
    ensures
        solves(PLAIN_SOLVE, *matrix, *rhs, *numbers, outcome),
{
    solve_and_judge(PLAIN_SOLVE, matrix, rhs, numbers)
}

/// The solution of a square system with its matrix transposed, unless it misses
/// the right-hand side.
pub fn solve_square_linear_system_transposed<
    S: Fn(&Vec<Vec<Real>>, &Vec<Real>) -> Vec<Real>,
    R: Fn(&Vec<Vec<Real>>, &Vec<Real>, &Vec<Real>) -> Vec<Real>,
    T: Fn(Real) -> Real,
>(matrix: &Vec<Vec<Real>>, rhs: &Vec<Real>, numbers: &SystemNumbers<S, R, T>) -> (outcome: Result<
    Vec<Real>,
    HonestError,
>)
    requires
        matrix::square_system_fault(TRANSPOSED_SOLVE, matrix@, Some(rhs@.len() as usize)) is None
            ==> system_ready(*matrix, *rhs, *numbers),
    ensures
        solves(TRANSPOSED_SOLVE, *matrix, *rhs, *numbers, outcome),
{
    solve_and_judge(TRANSPOSED_SOLVE, matrix, rhs, numbers)
}

/// Whether `outcome` is a candidate inverse that is returned where its product
/// is close to the identity.
pub open spec fn inverse_judged<
    S: Fn(&Vec<Vec<Real>>) -> Vec<Vec<Real>>,
    R: Fn(&Vec<Vec<Real>>, &Vec<Vec<Real>>) -> Vec<Real>,
>(
    matrix: Vec<Vec<Real>>,
    invert: S,
    misses_of: R,
    candidate: Vec<Vec<Real>>,
    misses: Vec<Real>,
    outcome: Result<Vec<Vec<Real>>, HonestError>,
) -> bool {
    let residual = matrix::largest_magnitude(misses@, misses@.len() as int);
    &&& call_ensures(invert, (&matrix,), candidate)
    &&& call_ensures(misses_of, (&matrix, &candidate), misses)
    &&& outcome == (if (Real { bits: INVERSE_TOLERANCE_BITS }).lt(residual) {
        Err::<Vec<Vec<Real>>, HonestError>(HonestError::InverseResidual { residual })
    } else {
        Ok::<Vec<Vec<Real>>, HonestError>(candidate)
    })
}

/// The inverse of a square matrix, unless its product misses the identity.
pub fn invert_square_matrix<
    S: Fn(&Vec<Vec<Real>>) -> Vec<Vec<Real>>,
    R: Fn(&Vec<Vec<Real>>, &Vec<Vec<Real>>) -> Vec<Real>,
>(matrix: &Vec<Vec<Real>>, invert: &S, misses_of: &R) -> (outcome: Result<
    Vec<Vec<Real>>,
    HonestError,
>)
    requires
        matrix::square_system_fault(INVERSE, matrix@, None) is None ==> call_requires(
            *invert,
            (matrix,),
        ),
        forall|candidate: Vec<Vec<Real>>|
            call_ensures(*invert, (matrix,), candidate) ==> #[trigger] call_requires(
                *misses_of,
                (matrix, &candidate),
            ),
    ensures
        match matrix::square_system_fault(INVERSE, matrix@, None) {
            Some(error) => outcome == Err::<Vec<Vec<Real>>, HonestError>(error),
            None => exists|candidate: Vec<Vec<Real>>, misses: Vec<Real>| #[trigger]
                inverse_judged(*matrix, *invert, *misses_of, candidate, misses, outcome),
        },
{
    if let Err(error) = check_square_system(INVERSE, matrix, None) {
        return Err(error);
    }
    let candidate = invert(matrix);
    let misses = misses_of(matrix, &candidate);
    let residual = max_abs(&misses);
    let ghost found = candidate;
    let outcome = if Real::from_bits(INVERSE_TOLERANCE_BITS).less(residual) {
        Err(HonestError::InverseResidual { residual })
    } else {
        Ok(candidate)
    };
    assert(inverse_judged(*matrix, *invert, *misses_of, found, misses, outcome));
    outcome
}

/// Whether `outcome` is a candidate inverse, row by row, that is kept where its
/// product is close to the identity.
pub open spec fn flat_inverse_judged<
    S: Fn(&Vec<Real>) -> Vec<Real>,
    R: Fn(&Vec<Real>, &Vec<Real>) -> Vec<Real>,
>(
    matrix: Vec<Real>,
    invert: S,
    misses_of: R,
    candidate: Vec<Real>,
    misses: Vec<Real>,
    outcome: Option<Vec<Real>>,
) -> bool {
    let residual = matrix::largest_magnitude(misses@, misses@.len() as int);
    &&& call_ensures(invert, (&matrix,), candidate)
    &&& call_ensures(misses_of, (&matrix, &candidate), misses)
    &&& outcome == (if residual.le(Real { bits: INVERSE_TOLERANCE_BITS }) {
        Some(candidate)
    } else {
        None
    })
}

/// The inverse of a square matrix, both row by row, if its product is close to
/// the identity.
pub fn try_invert_square_matrix_row_major<
    S: Fn(&Vec<Real>) -> Vec<Real>,
    R: Fn(&Vec<Real>, &Vec<Real>) -> Vec<Real>,
>(matrix: &Vec<Real>, invert: &S, misses_of: &R) -> (outcome: Option<Vec<Real>>)
    requires
        call_requires(*invert, (matrix,)),
        forall|candidate: Vec<Real>|
            call_ensures(*invert, (matrix,), candidate) ==> #[trigger] call_requires(
                *misses_of,
                (matrix, &candidate),
            ),
    ensures
        exists|candidate: Vec<Real>, misses: Vec<Real>| #[trigger]
            flat_inverse_judged(*matrix, *invert, *misses_of, candidate, misses, outcome),
{
    let candidate = invert(matrix);
    let misses = misses_of(matrix, &candidate);
    let ghost found = candidate;
    let outcome = if max_abs(&misses).at_most(Real::from_bits(INVERSE_TOLERANCE_BITS)) {
        Some(candidate)
    } else {
        None
    };
    assert(flat_inverse_judged(*matrix, *invert, *misses_of, found, misses, outcome));
    outcome
}

/// An accepted solution misses no entry of its right-hand side by more than was
/// tolerated.
pub proof fn accepted_solutions_are_close<
    S: Fn(&Vec<Vec<Real>>, &Vec<Real>) -> Vec<Real>,
    R: Fn(&Vec<Vec<Real>>, &Vec<Real>, &Vec<Real>) -> Vec<Real>,
    T: Fn(Real) -> Real,
>(
    context: &'static str,
    matrix: Vec<Vec<Real>>,
    rhs: Vec<Real>,
    numbers: SystemNumbers<S, R, T>,
    candidate: Vec<Real>,
    misses: Vec<Real>,
    tolerance: Real,
    outcome: Result<Vec<Real>, HonestError>,
    k: int,
)
    requires
        judged(context, matrix, rhs, numbers, candidate, misses, tolerance, outcome),
        outcome is Ok,
        !tolerance.nan(),
        0 <= k < misses@.len(),
        !misses@[k].nan(),
    ensures
        outcome == Ok::<Vec<Real>, HonestError>(candidate),
        misses@[k].abs_spec().le(tolerance),
{
    matrix::largest_magnitude_bounds(misses@, misses@.len() as int);
}

} // verus!
