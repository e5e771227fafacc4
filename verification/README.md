# honest_did

Sensitivity analysis for event studies: how far the conclusions of a
difference-in-differences design survive violations of parallel trends. The
violations are bounded relative to the pre-period ones, or by how much their
slope may change, with optional restrictions of sign or monotonicity.

## Layout

- `src/` is the library. Its functions are verified with Verus. Two small ones in
  `cv_cache` call the once_map crate: their bodies are not verified, and their
  contracts are taken on trust.
- `app/` is the part that computes with floating-point numbers: linear algebra,
  single operations on numbers, the calls of the interior-point solver, the
  optimiser and the distributions, and the rendering of reports as JSON and CSV.
- `tests/` runs the library, with the same kind of arithmetic where it needs it.

## Numbers

The library holds a floating-point number by its bits (`number::Real`). It
compares, orders, selects and copies numbers itself, and its contracts say which
number comes out where. Arithmetic is handed to it behind traits (`study::StudyArithmetic`,
`lp_arithmetic::LpArithmetic` and the like), one operation each, with all
operands as arguments. A contract then speaks of those operations: which of them
was asked, at which values, and what followed from the answers.

## Where to look

- `input`, `types`, `errors`: studies, configurations, results and refusals.
- `constraints`, `branches`, `functional`: the restrictions as linear systems.
- `study`, `lp_arithmetic`: the arithmetic that analyses and linear programs ask
  for.
- `linear_program`, `simplex`, `dense_simplex`, `pricing`, `factorization`,
  `basis_memory`, `moment_workspace`, `workspaces`, `programs`, `conic`: linear
  programs.
- `systems`, `cholesky`, `elimination`, `projection`, `normal`, `grids`: which
  solutions, factors, quantiles and draws are taken.
- `moments`, `inversion`, `theta_test`, `dual`, `vertices`, `simulation`,
  `cv_cache`: the conditional test of one value.
- `adaptive_grid`, `branch_search`: the search for the accepted range of a grid.
- `relative_magnitude`, `smoothness`, `smoothness_intervals`, `smoothness_test`,
  `cone`: identified and confidence sets of one functional.
- `prepared`, `prepared_sets`, `functional_sets`, `multi_intervals`,
  `calibration`, `directions`, `regions`, `surface`: several functionals at once.
- `assessment`, `summary`, `report`, `workflow`: what is reported.
- `covariance`: covariance from influence functions.
