//! Regions over a dense set of directions.

use crate::calibration;
use crate::calibration::{calibrate_directional_region, Levels};
use crate::directions;
use crate::directions::{
    canonicalize_unit_direction, deduplicate_unit_directions,
    refine_optimization_surface_directions_with_argmin, DirectionNumbers, SurfaceRefinementRun,
};
use crate::errors::HonestError;
use crate::exact;
use crate::functional_sets;
use crate::functional_sets::FunctionalSets;
use crate::input;
use crate::input::{basis_directions, HonestEventStudyInput};
use crate::matrix;
use crate::matrix::{filled_row, post_covariance_block};
use crate::multi_intervals;
use crate::number::Real;
use crate::prepared_sets::PreparedSets;
use crate::regions;
use crate::regions::assess_honest_event_study_directional_region_with_config;
use crate::types::{
    HonestDirectionalRegion, HonestDirectionalRegionDiagnostics, HonestJointPathConfig,
    HonestOptimizationSurfaceAdaptiveConfig, HonestOptimizationSurfaceAdaptiveRunConfig,
    HonestOptimizationSurfaceConfig, HonestSensitivity, InferenceConfig,
    RelativeMagnitudeConfidenceSetConfig,
};
use vstd::prelude::*;

verus! {

// ---------------------------------------------------------------------------
// The directions of a surface
// ---------------------------------------------------------------------------

/// The difference of two post periods.
pub open spec fn contrast(num_post: int, left: int, right: int) -> Seq<Real> {
    input::basis_weights(num_post, left).update(right, Real::minus_one_spec())
}

/// The differences of one post period to the later ones.
pub open spec fn contrasts_of(num_post: int, left: int) -> Seq<Seq<Real>> {
    Seq::new(
        (num_post - left - 1) as nat,
        |k: int| contrast(num_post, left, left + 1 + k),
    )
}

/// The differences of the first `lefts` post periods to the later ones, in order.
pub open spec fn contrasts(num_post: int, lefts: int) -> Seq<Seq<Real>>
    decreases lefts,
{
    if lefts <= 0 {
        Seq::empty()
    } else {
        contrasts(num_post, lefts - 1) + contrasts_of(num_post, lefts - 1)
    }
}

/// The directions that are there, among the first `count`.
pub open spec fn present(units: Seq<Option<Seq<Real>>>, count: int) -> Seq<Seq<Real>>
    decreases count,
{
    if count <= 0 {
        Seq::empty()
    } else {
        match units[count - 1] {
            Some(unit) => present(units, count - 1).push(unit),
            None => present(units, count - 1),
        }
    }
}

/// Whether a canonical form belongs to each direction.
pub open spec fn are_canonical<D: DirectionNumbers>(
    numbers: D,
    list: Seq<Seq<Real>>,
    units: Seq<Option<Seq<Real>>>,
) -> bool {
    &&& units.len() == list.len()
    &&& forall|i: int|
        0 <= i < units.len() ==> directions::is_canonical(numbers, list[i], #[trigger] units[i])
}

/// The directions of a surface.
pub struct OptimizationSurfaceDirections {
    /// Directions in order.
    pub directions: Vec<Vec<Real>>,
    /// Number of random ones among them.
    pub random_direction_count: usize,
}

/// Directions with the number of random ones, or an error.
pub open spec fn surface_view(made: Result<OptimizationSurfaceDirections, HonestError>) -> Result<
    (Seq<Seq<Real>>, usize),
    HonestError,
> {
    match made {
        Ok(set) => Ok((matrix::rows_of(set.directions@), set.random_direction_count)),
        Err(error) => Err(error),
    }
}

/// What the directions of a surface rested on.
pub struct SurfaceRun {
    /// Canonical forms of the differences.
    pub contrast_units: Seq<Option<Seq<Real>>>,
    /// Random vectors.
    pub draws: Seq<Seq<Real>>,
    /// Canonical forms of the random vectors.
    pub draw_units: Seq<Option<Seq<Real>>>,
    /// Flags of the directions that are left.
    pub flags: Seq<bool>,
}

impl SurfaceRun {
    /// The directions that are not random.
    pub open spec fn given(self, num_post: int, config: HonestOptimizationSurfaceConfig) -> Seq<
        Seq<Real>,
    > {
        (if config.include_basis {
            regions::unit_weights(num_post)
        } else {
            Seq::empty()
        }) + (if config.include_pairwise_contrasts && num_post >= 2 {
            present(self.contrast_units, self.contrast_units.len() as int)
        } else {
            Seq::empty()
        })
    }

    /// The random directions.
    pub open spec fn random(self, config: HonestOptimizationSurfaceConfig) -> Seq<Seq<Real>> {
        if config.random_unit_directions > 0 {
            present(self.draw_units, self.draw_units.len() as int)
        } else {
            Seq::empty()
        }
    }

    /// Whether the directions of a surface are the post periods, their
    /// differences and the random directions, as far as the configuration asks
    /// for them, without those whose buckets an earlier one has.
    pub open spec fn explains<D: DirectionNumbers>(
        self,
        numbers: D,
        num_post: int,
        config: HonestOptimizationSurfaceConfig,
        set: Seq<Seq<Real>>,
        random: usize,
    ) -> bool {
        let listed = self.given(num_post, config) + self.random(config);
        let flags = Seq::new(
            listed.len(),
            |i: int| i >= self.given(num_post, config).len(),
        );
        &&& config.include_pairwise_contrasts && num_post >= 2 ==> are_canonical(
            numbers,
            contrasts(num_post, num_post),
            self.contrast_units,
        )
        &&& config.random_unit_directions > 0 ==> {
            &&& numbers.is_draws(
                config.random_seed,
                config.random_unit_directions,
                num_post as usize,
                self.draws,
            )
            &&& are_canonical(numbers, self.draws, self.draw_units)
        }
        &&& directions::is_deduplicated(numbers, listed, flags, set, self.flags, random as int)
    }
}

/// The error of a surface without post periods.
pub open spec fn no_surface_error() -> HonestError {
    HonestError::NoPostPeriod {
        context: "optimization surface region requires at least one post period",
    }
}

/// Whether `out` is the set of directions of a surface: an error without post
/// periods or without any kind of direction, else the directions.
pub open spec fn is_surface<D: DirectionNumbers>(
    numbers: D,
    num_post: int,
    config: HonestOptimizationSurfaceConfig,
    out: Result<(Seq<Seq<Real>>, usize), HonestError>,
) -> bool {
    if num_post == 0 {
        out == Err::<(Seq<Seq<Real>>, usize), HonestError>(no_surface_error())
    } else if !config.include_basis && !config.include_pairwise_contrasts
        && config.random_unit_directions == 0 {
        out == Err::<(Seq<Seq<Real>>, usize), HonestError>(HonestError::EmptySurface)
    } else {
        out matches Ok(set) && is_direction_set(numbers, num_post, config, set.0, set.1)
    }
}

/// Whether these are the directions of a surface.
pub open spec fn is_direction_set<D: DirectionNumbers>(
    numbers: D,
    num_post: int,
    config: HonestOptimizationSurfaceConfig,
    set: Seq<Seq<Real>>,
    random: usize,
) -> bool {
    exists|run: SurfaceRun| #[trigger] run.explains(numbers, num_post, config, set, random)
}

fn contrast_direction(num_post: usize, left: usize, right: usize) -> (direction: Vec<Real>)
    requires
        left < right < num_post,
    ensures
        direction@ == contrast(num_post as int, left as int, right as int),
{
    let mut direction = input::basis_post_weights(num_post, left);
    direction.set(right, Real::minus_one());
    direction
}

fn contrast_directions(num_post: usize) -> (list: Vec<Vec<Real>>)
    ensures
        matrix::rows_of(list@) == contrasts(num_post as int, num_post as int),
        matrix::has_cols(list@, num_post as int),
{
    let mut list: Vec<Vec<Real>> = Vec::new();
    let mut left: usize = 0;
    assert(matrix::rows_of(list@) =~= contrasts(num_post as int, 0));
    while left < num_post
        invariant
            left <= num_post,
            matrix::rows_of(list@) == contrasts(num_post as int, left as int),
            matrix::has_cols(list@, num_post as int),
        decreases num_post - left,
    {
        let ghost start = matrix::rows_of(list@);
        let ghost row = contrasts_of(num_post as int, left as int);
        let mut right: usize = left + 1;
        assert(start + row.subrange(0, 0) =~= start);
        while right < num_post
            invariant
                left < right <= num_post,
                row == contrasts_of(num_post as int, left as int),
                matrix::rows_of(list@) == start + row.subrange(0, right - left - 1),
                matrix::has_cols(list@, num_post as int),
            decreases num_post - right,
        {
            let ghost before = list@;
            let direction = contrast_direction(num_post, left, right);
            list.push(direction);
            proof {
                assert(direction@ == row[right - left - 1]);
                assert(matrix::rows_of(list@) =~= matrix::rows_of(before).push(direction@));
                assert(row.subrange(0, right - left) =~= row.subrange(0, right - left - 1).push(
                    direction@,
                ));
                assert(matrix::rows_of(list@) =~= start + row.subrange(0, right - left));
                assert forall|i: int| 0 <= i < list.len() implies (#[trigger] list@[i])@.len()
                    == num_post by {
                    if i < before.len() {
                        assert(list@[i] == before[i]);
                    }
                }
            }
            right = right + 1;
        }
        proof {
            assert(row.subrange(0, num_post - left - 1) =~= row);
        }
        left = left + 1;
    }
    list
}

fn canonical_units<D: DirectionNumbers>(
    list: &Vec<Vec<Real>>,
    cols: usize,
    numbers: &D,
) -> (out: (Vec<Vec<Real>>, Ghost<Seq<Option<Seq<Real>>>>))
    requires
        numbers.ready(),
        matrix::has_cols(list@, cols as int),
    ensures
        are_canonical(*numbers, matrix::rows_of(list@), out.1@),
        matrix::rows_of(out.0@) == present(out.1@, out.1@.len() as int),
        matrix::has_cols(out.0@, cols as int),
{
    let ghost rows = matrix::rows_of(list@);
    let ghost mut units: Seq<Option<Seq<Real>>> = Seq::empty();
    let mut found: Vec<Vec<Real>> = Vec::new();
    let mut i: usize = 0;
    assert(matrix::rows_of(found@) =~= present(units, 0));
    while i < list.len()
        invariant
            i <= list.len(),
            numbers.ready(),
            rows == matrix::rows_of(list@),
            matrix::has_cols(list@, cols as int),
            units.len() == i,
            forall|k: int|
                0 <= k < units.len() ==> directions::is_canonical(
                    *numbers,
                    rows[k],
                    #[trigger] units[k],
                ),
            matrix::rows_of(found@) == present(units, i as int),
            matrix::has_cols(found@, cols as int),
        decreases list.len() - i,
    {
        let ghost before = units;
        let ghost old_found = found@;
        assert(list@[i as int]@.len() == cols);
        let canonical = canonicalize_unit_direction(&list[i], numbers);
        proof {
            units = before.push(directions::direction_view(canonical));
            present_is_kept(before, directions::direction_view(canonical), i as int);
            assert forall|k: int| 0 <= k < units.len() implies directions::is_canonical(
                *numbers,
                rows[k],
                #[trigger] units[k],
            ) by {
                if k < i {
                    assert(units[k] == before[k]);
                }
            }
        }
        match canonical {
            None => {},
            Some(unit) => {
                found.push(unit);
                proof {
                    assert(matrix::rows_of(found@) =~= matrix::rows_of(old_found).push(unit@));
                    assert forall|k: int| 0 <= k < found.len() implies (#[trigger] found@[k])@.len()
                        == cols by {
                        if k < old_found.len() {
                            assert(found@[k] == old_found[k]);
                        }
                    }
                }
            },
        }
        i = i + 1;
    }
    (found, Ghost(units))
}

proof fn present_is_kept(units: Seq<Option<Seq<Real>>>, unit: Option<Seq<Real>>, count: int)
    requires
        0 <= count <= units.len(),
    ensures
        present(units.push(unit), count) == present(units, count),
    decreases count,
{
    if count > 0 {
        present_is_kept(units, unit, count - 1);
    }
}

fn append_directions(
    all: &mut Vec<Vec<Real>>,
    flags: &mut Vec<bool>,
    more: Vec<Vec<Real>>,
    flag: bool,
    Ghost(cols): Ghost<int>,
)
    requires
        old(all)@.len() == old(flags)@.len(),
        matrix::has_cols(old(all)@, cols),
        matrix::has_cols(more@, cols),
    ensures
        matrix::rows_of(final(all)@) == matrix::rows_of(old(all)@) + matrix::rows_of(more@),
        final(flags)@ == old(flags)@ + Seq::new(more@.len(), |i: int| flag),
        final(all)@.len() == final(flags)@.len(),
        matrix::has_cols(final(all)@, cols),
{
    let ghost count = more@.len();
    let ghost lines = matrix::rows_of(more@);
    let ghost before = matrix::rows_of(all@);
    let mut i: usize = 0;
    assert(before + lines.subrange(0, 0) =~= before);
    assert(flags@ =~= old(flags)@ + Seq::new(0, |i: int| flag));
    while i < more.len()
        invariant
            i <= more.len(),
            lines == matrix::rows_of(more@),
            matrix::rows_of(all@) == before + lines.subrange(0, i as int),
            flags@ == old(flags)@ + Seq::new(i as nat, |i: int| flag),
            all@.len() == flags@.len(),
            matrix::has_cols(all@, cols),
            matrix::has_cols(more@, cols),
        decreases more.len() - i,
    {
        let ghost earlier = all@;
        let row = matrix::copy_row(more[i].as_slice());
        all.push(row);
        flags.push(flag);
        proof {
            assert(lines[i as int] == row@);
            assert(matrix::rows_of(all@) =~= matrix::rows_of(earlier).push(row@));
            assert(lines.subrange(0, i + 1) =~= lines.subrange(0, i as int).push(row@));
            assert(matrix::rows_of(all@) =~= before + lines.subrange(0, i + 1));
            assert(flags@ =~= old(flags)@ + Seq::new((i + 1) as nat, |i: int| flag));
            assert forall|k: int| 0 <= k < all@.len() implies (#[trigger] all@[k])@.len()
                == cols by {
                if k < earlier.len() {
                    assert(all@[k] == earlier[k]);
                } else {
                    assert(more@[i as int]@.len() == cols);
                }
            }
        }
        i = i + 1;
    }
    proof {
        assert(lines.subrange(0, count as int) =~= lines);
    }
}

/// The directions of a surface: the post periods, their differences and random
/// directions, as far as the configuration asks for them, each once.
pub fn generate_optimization_surface_directions<D: DirectionNumbers>(
    num_post: usize,
    config: HonestOptimizationSurfaceConfig,
    numbers: &D,
) -> (out: Result<OptimizationSurfaceDirections, HonestError>)
    requires
        numbers.ready(),
    ensures
        is_surface(*numbers, num_post as int, config, surface_view(out)),
        out matches Ok(set) ==> set.random_direction_count <= set.directions.len()
            && matrix::has_cols(set.directions@, num_post as int),
{
    if num_post == 0 {
        return Err(
            HonestError::NoPostPeriod {
                context: "optimization surface region requires at least one post period",
            },
        );
    }
    if !config.include_basis && !config.include_pairwise_contrasts && config.random_unit_directions
        == 0 {
        return Err(HonestError::EmptySurface);
    }
    let ghost mut run: SurfaceRun = arbitrary();
    let mut all: Vec<Vec<Real>> = Vec::new();
    let mut flags: Vec<bool> = Vec::new();
    if config.include_basis {
        let basis = basis_directions(num_post);
        proof {
            assert(matrix::rows_of(basis@) =~= regions::unit_weights(num_post as int)) by {
                assert forall|i: int| 0 <= i < basis.len() implies #[trigger] matrix::rows_of(
                    basis@,
                )[i] == regions::unit_weights(num_post as int)[i] by {
                    assert(basis@[i]@ == input::basis_weights(num_post as int, i));
                }
            }
        }
        append_directions(&mut all, &mut flags, basis, false, Ghost(num_post as int));
    }
    let ghost first = matrix::rows_of(all@);
    assert(first =~= (if config.include_basis {
        regions::unit_weights(num_post as int)
    } else {
        Seq::empty()
    }));
    if config.include_pairwise_contrasts && num_post >= 2 {
        let list = contrast_directions(num_post);
        let (units, Ghost(said)) = canonical_units(&list, num_post, numbers);
        proof {
            run.contrast_units = said;
        }
        append_directions(&mut all, &mut flags, units, false, Ghost(num_post as int));
    }
    let ghost given = matrix::rows_of(all@);
    assert(given =~= run.given(num_post as int, config));
    assert(flags@ =~= Seq::new(given.len(), |i: int| false));
    if config.random_unit_directions > 0 {
        let draws = numbers.draws(config.random_seed, config.random_unit_directions, num_post);
        let (units, Ghost(said)) = canonical_units(&draws, num_post, numbers);
        proof {
            run.draws = matrix::rows_of(draws@);
            run.draw_units = said;
        }
        append_directions(&mut all, &mut flags, units, true, Ghost(num_post as int));
    }
    let ghost listed = matrix::rows_of(all@);
    let ghost listed_flags = flags@;
    let ghost before = all@;
    proof {
        assert(given =~= run.given(num_post as int, config));
        assert(listed =~= given + run.random(config));
        assert(flags@ =~= Seq::new(listed.len(), |i: int| i >= given.len()));
    }
    let count: usize = deduplicate_unit_directions(&mut all, &mut flags, numbers);
    proof {
        run.flags = flags@;
        assert(run.explains(
            *numbers,
            num_post as int,
            config,
            matrix::rows_of(all@),
            count,
        ));
        assert(is_direction_set(
            *numbers,
            num_post as int,
            config,
            matrix::rows_of(all@),
            count,
        ));
        assert forall|i: int| 0 <= i < all.len() implies (#[trigger] all@[i])@.len()
            == num_post by {
            let k = choose|k: int|
                0 <= k < before.len() && all@[i]@ == (#[trigger] before[k])@;
            assert(before[k]@.len() == num_post);
        }
    }
    Ok(OptimizationSurfaceDirections { directions: all, random_direction_count: count })
}

// ---------------------------------------------------------------------------
// Regions over the directions of a surface
// ---------------------------------------------------------------------------

/// Whether `out` is the region of the directions `made`: their error, or their
/// region with the numbers of directions in its diagnostics.
pub open spec fn fixed_region_by<
    D: DirectionNumbers,
    L: Levels,
    E: FunctionalSets,
    R: PreparedSets,
>(
    made: Result<(Seq<Seq<Real>>, usize), HonestError>,
    region: Result<HonestDirectionalRegion, HonestError>,
    numbers: D,
    levels: L,
    sets: E,
    branches: R,
    data: HonestEventStudyInput,
    sensitivity: HonestSensitivity,
    inference: InferenceConfig,
    null_value: Real,
    config: RelativeMagnitudeConfidenceSetConfig,
    joint: HonestJointPathConfig,
    surface: HonestOptimizationSurfaceConfig,
    out: Result<HonestDirectionalRegion, HonestError>,
) -> bool {
    &&& is_surface(numbers, data.post_periods@.len() as int, surface, made)
    &&& match made {
        Err(error) => out == Err::<HonestDirectionalRegion, HonestError>(error),
        Ok(set) => {
            &&& regions::directional_region(
                levels,
                sets,
                branches,
                data,
                set.0,
                sensitivity,
                inference,
                null_value,
                config,
                joint,
                None,
                region,
            )
            &&& match region {
                Err(error) => out == Err::<HonestDirectionalRegion, HonestError>(error),
                Ok(found) => out == Ok::<HonestDirectionalRegion, HonestError>(
                    (HonestDirectionalRegion {
                        diagnostics: HonestDirectionalRegionDiagnostics::fixed_spec(
                            set.0.len() as usize,
                            set.1,
                        ),
                        ..found
                    }),
                ),
            }
        },
    }
}

/// Whether `out` is the region of the directions of a surface.
pub open spec fn is_fixed_region<
    D: DirectionNumbers,
    L: Levels,
    E: FunctionalSets,
    R: PreparedSets,
>(
    numbers: D,
    levels: L,
    sets: E,
    branches: R,
    data: HonestEventStudyInput,
    sensitivity: HonestSensitivity,
    inference: InferenceConfig,
    null_value: Real,
    config: RelativeMagnitudeConfidenceSetConfig,
    joint: HonestJointPathConfig,
    surface: HonestOptimizationSurfaceConfig,
    out: Result<HonestDirectionalRegion, HonestError>,
) -> bool {
    exists|
        made: Result<(Seq<Seq<Real>>, usize), HonestError>,
        region: Result<HonestDirectionalRegion, HonestError>,
    | #[trigger]
        fixed_region_by(
            made,
            region,
            numbers,
            levels,
            sets,
            branches,
            data,
            sensitivity,
            inference,
            null_value,
            config,
            joint,
            surface,
            out,
        )
}

/// The region of the directions of a surface.
pub fn assess_honest_event_study_optimization_surface_region_with_config<
    D: DirectionNumbers,
    L: Levels,
    E: FunctionalSets,
    R: PreparedSets,
>(
    data: &HonestEventStudyInput,
    sensitivity: HonestSensitivity,
    inference: InferenceConfig,
    null_value: Real,
    relative_magnitude_config: RelativeMagnitudeConfidenceSetConfig,
    joint_config: HonestJointPathConfig,
    surface_config: HonestOptimizationSurfaceConfig,
    numbers: &D,
    levels: &L,
    sets: &E,
    branches: &R,
) -> (out: Result<HonestDirectionalRegion, HonestError>)
    requires
        functional_sets::countable(*data),
        numbers.ready(),
        levels.ready(),
        sets.ready(*data),
        branches.ready(*data),
    ensures
        is_fixed_region(
            *numbers,
            *levels,
            *sets,
            *branches,
            *data,
            sensitivity,
            inference,
            null_value,
            relative_magnitude_config,
            joint_config,
            surface_config,
            out,
        ),
        out matches Ok(region) ==> region.points@.len() == region.diagnostics.direction_count
            && region.diagnostics.random_direction_count <= region.diagnostics.direction_count
            && calibration::can_draw(joint_config),
{
    let ghost nothing: Result<HonestDirectionalRegion, HonestError> = arbitrary();
    let made = generate_optimization_surface_directions(
        data.num_post_periods(),
        surface_config,
        numbers,
    );
    let ghost said = surface_view(made);
    match made {
        Err(error) => {
            let out = Err(error);
            assert(fixed_region_by(
                said,
                nothing,
                *numbers,
                *levels,
                *sets,
                *branches,
                *data,
                sensitivity,
                inference,
                null_value,
                relative_magnitude_config,
                joint_config,
                surface_config,
                out,
            ));
            out
        },
        Ok(set) => {
            let assessed = assess_honest_event_study_directional_region_with_config(
                data,
                &set.directions,
                sensitivity,
                inference,
                null_value,
                relative_magnitude_config,
                joint_config,
                levels,
                sets,
                branches,
            );
            let ghost region = assessed;
            let out = match assessed {
                Err(error) => Err(error),
                Ok(found) => {
                    let mut found = found;
                    found.diagnostics = HonestDirectionalRegionDiagnostics::fixed(
                        set.directions.len(),
                        set.random_direction_count,
                    );
                    Ok(found)
                },
            };
            assert(fixed_region_by(
                said,
                region,
                *numbers,
                *levels,
                *sets,
                *branches,
                *data,
                sensitivity,
                inference,
                null_value,
                relative_magnitude_config,
                joint_config,
                surface_config,
                out,
            ));
            out
        },
    }
}

/// The region of the directions of a surface with the default settings.
pub fn assess_honest_event_study_optimization_surface_region<
    D: DirectionNumbers,
    L: Levels,
    E: FunctionalSets,
    R: PreparedSets,
>(
    data: &HonestEventStudyInput,
    sensitivity: HonestSensitivity,
    inference: InferenceConfig,
    null_value: Real,
    numbers: &D,
    levels: &L,
    sets: &E,
    branches: &R,
) -> (out: Result<HonestDirectionalRegion, HonestError>)
    requires
        functional_sets::countable(*data),
        numbers.ready(),
        levels.ready(),
        sets.ready(*data),
        branches.ready(*data),
    ensures
        is_fixed_region(
            *numbers,
            *levels,
            *sets,
            *branches,
            *data,
            sensitivity,
            inference,
            null_value,
            RelativeMagnitudeConfidenceSetConfig::from_inference_spec(inference),
            multi_intervals::default_joint(),
            default_surface(),
            out,
        ),
{
    assess_honest_event_study_optimization_surface_region_with_config(
        data,
        sensitivity,
        inference,
        null_value,
        RelativeMagnitudeConfidenceSetConfig::from_inference(inference),
        HonestJointPathConfig::default_for_production(),
        HonestOptimizationSurfaceConfig::default_for_production(),
        numbers,
        levels,
        sets,
        branches,
    )
}

/// The default directions of a surface.
pub open spec fn default_surface() -> HonestOptimizationSurfaceConfig {
    HonestOptimizationSurfaceConfig {
        include_basis: true,
        include_pairwise_contrasts: true,
        random_unit_directions: 250,
        random_seed: 1729,
    }
}

// ---------------------------------------------------------------------------
// Enriched surfaces
// ---------------------------------------------------------------------------

/// The covariances of the post periods.
pub open spec fn post_block(data: HonestEventStudyInput) -> Seq<Seq<Real>> {
    let pre = data.pre_periods@.len() as int;
    Seq::new(
        data.post_periods@.len(),
        |i: int|
            Seq::new(
                data.post_periods@.len(),
                |j: int| data.covariance@[pre + i]@[pre + j],
            ),
    )
}

/// Whether the covariance matrix covers all periods.
pub open spec fn covers(data: HonestEventStudyInput) -> bool {
    &&& data.total() <= data.covariance@.len()
    &&& forall|i: int|
        0 <= i < data.covariance@.len() ==> (#[trigger] data.covariance@[i])@.len() >= data.total()
}

/// Number of random directions in an iteration: a batch more in each, up to all.
pub open spec fn drawn_at(batch: int, total: int, i: int) -> int
    decreases i,
{
    let more = if i <= 0 {
        batch
    } else {
        drawn_at(batch, total, i - 1) + batch
    };
    if more < total {
        more
    } else {
        total
    }
}

/// Flags of directions of which the last `random` are random.
pub open spec fn trailing_flags(count: int, random: int) -> Seq<bool> {
    Seq::new(count as nat, |i: int| i >= count - random)
}

/// Whether the directions of largest variance were replaced.
pub open spec fn is_surface_refinement<D: DirectionNumbers>(
    numbers: D,
    set: Seq<Seq<Real>>,
    sigma: Seq<Seq<Real>>,
    warm: Option<Seq<Seq<Real>>>,
    after: Seq<Seq<Real>>,
    out: Result<Seq<Seq<Real>>, HonestError>,
) -> bool {
    exists|run: SurfaceRefinementRun| #[trigger]
        run.explains(numbers, set, sigma, warm, after, out)
}

/// One iteration of an enriched surface.
pub struct Round {
    /// Number of random directions asked for.
    pub drawn: usize,
    /// The directions with the number of random ones.
    pub made: Result<(Seq<Seq<Real>>, usize), HonestError>,
    /// The directions after refinement.
    pub moved: Seq<Seq<Real>>,
    /// The refined directions in the order of their variance.
    pub refined: Result<Seq<Seq<Real>>, HonestError>,
    /// The directions that are left without doubles.
    pub kept: Seq<Seq<Real>>,
    /// Their flags.
    pub flags: Seq<bool>,
    /// Number of random ones among them.
    pub random: usize,
    /// The level of these directions, with its critical value.
    pub level: Result<(Real, Real), HonestError>,
    /// Difference to the level of the iteration before.
    pub change: Real,
}

impl Round {
    /// The first error of the iteration.
    pub open spec fn error(self) -> Option<HonestError> {
        if self.made is Err {
            Some(self.made->Err_0)
        } else if self.refined is Err {
            Some(self.refined->Err_0)
        } else if self.level is Err {
            Some(self.level->Err_0)
        } else {
            None
        }
    }

    /// Whether the iteration went like this: directions are listed, refined from
    /// the refined ones of the iteration before, cleared of doubles and
    /// calibrated.
    pub open spec fn runs<D: DirectionNumbers, L: Levels>(
        self,
        numbers: D,
        levels: L,
        data: HonestEventStudyInput,
        inference: InferenceConfig,
        config: HonestOptimizationSurfaceAdaptiveRunConfig,
        previous: Option<Round>,
    ) -> bool {
        &&& is_surface(
            numbers,
            data.post_periods@.len() as int,
            (HonestOptimizationSurfaceConfig {
                random_unit_directions: self.drawn,
                ..config.surface
            }),
            self.made,
        )
        &&& self.made is Ok ==> {
            &&& is_surface_refinement(
                numbers,
                self.made->Ok_0.0,
                post_block(data),
                (match previous {
                    Some(round) => Some(round.refined->Ok_0),
                    None => None,
                }),
                self.moved,
                self.refined,
            )
            &&& self.refined is Ok ==> {
                &&& directions::is_deduplicated(
                    numbers,
                    self.moved,
                    trailing_flags(self.moved.len() as int, self.made->Ok_0.1 as int),
                    self.kept,
                    self.flags,
                    self.random as int,
                )
                &&& calibration::directions_calibrated(
                    levels,
                    data,
                    self.kept,
                    inference,
                    config.joint,
                    self.level,
                )
                &&& self.level is Ok && previous is Some ==> numbers.is_difference(
                    self.level->Ok_0.0,
                    previous->Some_0.level->Ok_0.0,
                    self.change,
                )
            }
        }
    }

    /// Whether the level has settled: there was an iteration before, its level is
    /// within the tolerance, and enough random directions are left.
    pub open spec fn converged(
        self,
        config: HonestOptimizationSurfaceAdaptiveConfig,
        previous: Option<Round>,
    ) -> bool {
        &&& previous is Some
        &&& self.change.abs_spec().le(config.pointwise_tolerance)
        &&& self.random >= config.min_random_for_convergence
    }
}

/// What the region of an enriched surface rested on.
pub struct AdaptiveRun {
    /// Iterations in order.
    pub rounds: Seq<Round>,
    /// The region at the chosen number of random directions.
    pub fixed: Result<HonestDirectionalRegion, HonestError>,
}

impl AdaptiveRun {
    /// The iteration before.
    pub open spec fn before(self, i: int) -> Option<Round> {
        if i > 0 {
            Some(self.rounds[i - 1])
        } else {
            None
        }
    }

    /// Whether an iteration follows the rules.
    pub open spec fn follows<D: DirectionNumbers, L: Levels>(
        self,
        numbers: D,
        levels: L,
        data: HonestEventStudyInput,
        inference: InferenceConfig,
        config: HonestOptimizationSurfaceAdaptiveRunConfig,
        i: int,
        round: Round,
    ) -> bool {
        &&& round.drawn == drawn_at(
            config.adaptive.random_batch_size as int,
            config.surface.random_unit_directions as int,
            i,
        )
        &&& round.runs(numbers, levels, data, inference, config, self.before(i))
    }

    /// Whether an iteration is the last: its level has settled, or all random
    /// directions were used.
    pub open spec fn stops(
        self,
        config: HonestOptimizationSurfaceAdaptiveRunConfig,
        i: int,
        round: Round,
    ) -> bool {
        round.converged(config.adaptive, self.before(i)) || round.drawn
            >= config.surface.random_unit_directions
    }

    /// Whether an iteration is followed by another.
    pub open spec fn goes_on(
        self,
        config: HonestOptimizationSurfaceAdaptiveRunConfig,
        i: int,
        round: Round,
    ) -> bool {
        round.error() is None && !self.stops(config, i, round)
    }

    /// Number of random directions of the region: that of the last iteration
    /// where it stopped, else that of the first.
    pub open spec fn chosen(self, config: HonestOptimizationSurfaceAdaptiveRunConfig) -> usize {
        let last = self.rounds.len() - 1;
        if self.stops(config, last, self.rounds[last]) {
            self.rounds[last].drawn
        } else {
            self.rounds[0].drawn
        }
    }

    /// The diagnostics of the region.
    pub open spec fn diagnostics(
        self,
        config: HonestOptimizationSurfaceAdaptiveRunConfig,
        region: HonestDirectionalRegion,
    ) -> HonestDirectionalRegionDiagnostics {
        let last = self.rounds.len() - 1;
        let stopped = self.stops(config, last, self.rounds[last]);
        HonestDirectionalRegionDiagnostics {
            direction_count: region.points@.len() as usize,
            random_direction_count: region.diagnostics.random_direction_count,
            iterations_run: self.rounds.len() as usize,
            converged: stopped && self.rounds[last].converged(config.adaptive, self.before(last)),
        }
    }

    /// Whether `out` is the region of an enriched surface: the fault of the
    /// settings; without random directions the region of the fixed surface; an
    /// error of an iteration; else the region of the fixed surface with the
    /// chosen number of random directions.
    pub open spec fn explains<
        D: DirectionNumbers,
        L: Levels,
        E: FunctionalSets,
        R: PreparedSets,
    >(
        self,
        numbers: D,
        levels: L,
        sets: E,
        branches: R,
        data: HonestEventStudyInput,
        sensitivity: HonestSensitivity,
        inference: InferenceConfig,
        null_value: Real,
        config: HonestOptimizationSurfaceAdaptiveRunConfig,
        out: Result<HonestDirectionalRegion, HonestError>,
    ) -> bool {
        if config.adaptive.fault() is Some {
            out == Err::<HonestDirectionalRegion, HonestError>(config.adaptive.fault()->Some_0)
        } else if config.surface.random_unit_directions == 0 {
            is_fixed_region(
                numbers,
                levels,
                sets,
                branches,
                data,
                sensitivity,
                inference,
                null_value,
                config.relative_magnitude,
                config.joint,
                config.surface,
                out,
            )
        } else {
            &&& 1 <= self.rounds.len() <= config.adaptive.max_iterations
            &&& forall|i: int|
                0 <= i < self.rounds.len() ==> self.follows(
                    numbers,
                    levels,
                    data,
                    inference,
                    config,
                    i,
                    #[trigger] self.rounds[i],
                )
            &&& forall|i: int|
                0 <= i < self.rounds.len() - 1 ==> self.goes_on(
                    config,
                    i,
                    #[trigger] self.rounds[i],
                )
            &&& match self.rounds.last().error() {
                Some(error) => out == Err::<HonestDirectionalRegion, HonestError>(error),
                None => {
                    &&& self.stops(config, self.rounds.len() - 1, self.rounds.last())
                        || self.rounds.len() == config.adaptive.max_iterations
                    &&& is_fixed_region(
                        numbers,
                        levels,
                        sets,
                        branches,
                        data,
                        sensitivity,
                        inference,
                        null_value,
                        config.relative_magnitude,
                        config.joint,
                        (HonestOptimizationSurfaceConfig {
                            random_unit_directions: self.chosen(config),
                            ..config.surface
                        }),
                        self.fixed,
                    )
                    &&& match self.fixed {
                        Err(error) => out == Err::<HonestDirectionalRegion, HonestError>(error),
                        Ok(region) => out == Ok::<HonestDirectionalRegion, HonestError>(
                            (HonestDirectionalRegion {
                                diagnostics: self.diagnostics(config, region),
                                ..region
                            }),
                        ),
                    }
                },
            }
        }
    }
}

/// What an iteration leaves to the next.
struct RoundOutcome {
    /// The refined directions.
    refined: Vec<Vec<Real>>,
    /// The level.
    level: Real,
    /// Whether the level has settled.
    converged: bool,
}

fn run_round<D: DirectionNumbers, L: Levels>(
    data: &HonestEventStudyInput,
    sigma: &Vec<Vec<Real>>,
    inference: InferenceConfig,
    config: HonestOptimizationSurfaceAdaptiveRunConfig,
    drawn: usize,
    last: &Option<RoundOutcome>,
    Ghost(previous): Ghost<Option<Round>>,
    numbers: &D,
    levels: &L,
) -> (out: (Result<RoundOutcome, HonestError>, Ghost<Round>))
    requires
        data.total() <= usize::MAX,
        data.post_periods@.len() > 0 ==> matrix::rows_of(sigma@) == post_block(*data),
        data.post_periods@.len() > 0 ==> matrix::has_cols(sigma@, data.post_periods@.len() as int)
            && sigma.len() == data.post_periods@.len(),
        numbers.ready(),
        levels.ready(),
        match *last {
            None => previous is None,
            Some(outcome) => previous matches Some(round) && round.refined is Ok && round.level
                is Ok && round.refined->Ok_0 == matrix::rows_of(outcome.refined@)
                && round.level->Ok_0.0 == outcome.level,
        },
    ensures
        out.1@.drawn == drawn,
        out.1@.runs(*numbers, *levels, *data, inference, config, previous),
        match out.0 {
            Err(error) => out.1@.error() == Some(error),
            Ok(outcome) => {
                &&& out.1@.error() is None
                &&& out.1@.refined == Ok::<Seq<Seq<Real>>, HonestError>(
                    matrix::rows_of(outcome.refined@),
                )
                &&& out.1@.level is Ok && out.1@.level->Ok_0.0 == outcome.level
                &&& outcome.converged == out.1@.converged(config.adaptive, previous)
            },
        },
{
    let ghost mut round: Round = arbitrary();
    proof {
        round.drawn = drawn;
    }
    let mut surface = config.surface;
    surface.random_unit_directions = drawn;
    let made = generate_optimization_surface_directions(data.num_post_periods(), surface, numbers);
    proof {
        round.made = surface_view(made);
    }
    let set = match made {
        Err(error) => {
            return (Err(error), Ghost(round));
        },
        Ok(set) => set,
    };
    let mut list = set.directions;
    let warm: Option<&Vec<Vec<Real>>> = match last {
        Some(outcome) => Some(&outcome.refined),
        None => None,
    };
    let refined = refine_optimization_surface_directions_with_argmin(
        sigma,
        &mut list,
        warm,
        numbers,
    );
    proof {
        round.refined = directions::rows_view(refined);
        round.moved = matrix::rows_of(list@);
    }
    let refined = match refined {
        Err(error) => {
            return (Err(error), Ghost(round));
        },
        Ok(refined) => refined,
    };
    let mut flags = filled_row(list.len() - set.random_direction_count, false);
    let mut more = filled_row(set.random_direction_count, true);
    flags.append(&mut more);
    assert(flags@ =~= trailing_flags(list.len() as int, set.random_direction_count as int));
    let random: usize = deduplicate_unit_directions(&mut list, &mut flags, numbers);
    proof {
        round.kept = matrix::rows_of(list@);
        round.flags = flags@;
        round.random = random;
    }
    let level = calibrate_directional_region(data, &list, inference, config.joint, levels);
    proof {
        round.level = level;
    }
    let level = match level {
        Err(error) => {
            return (Err(error), Ghost(round));
        },
        Ok(level) => level,
    };
    let converged = match last {
        None => false,
        Some(outcome) => {
            let change = numbers.difference(level.0, outcome.level);
            proof {
                round.change = change;
            }
            change.abs().at_most(config.adaptive.pointwise_tolerance) && random
                >= config.adaptive.min_random_for_convergence
        },
    };
    (Ok(RoundOutcome { refined, level: level.0, converged }), Ghost(round))
}

fn post_block_of(data: &HonestEventStudyInput) -> (sigma: Vec<Vec<Real>>)
    requires
        data.total() <= usize::MAX,
        data.post_periods@.len() > 0 ==> covers(*data),
    ensures
        data.post_periods@.len() > 0 ==> matrix::rows_of(sigma@) == post_block(*data),
        data.post_periods@.len() > 0 ==> matrix::has_cols(sigma@, data.post_periods@.len() as int)
            && sigma.len() == data.post_periods@.len(),
{
    if data.num_post_periods() == 0 {
        return Vec::new();
    }
    let sigma = post_covariance_block(
        data.covariance.as_slice(),
        data.num_pre_periods(),
        data.num_post_periods(),
    );
    proof {
        let lines = matrix::rows_of(sigma@);
        assert forall|i: int| 0 <= i < lines.len() implies lines[i] == post_block(*data)[i] by {
            assert(sigma@[i]@.len() == data.post_periods@.len());
            assert(lines[i] =~= post_block(*data)[i]);
        }
        assert(lines =~= post_block(*data));
    }
    sigma
}

/// Whether the settings of an enriched surface lead to its iterations.
pub open spec fn iterates(config: HonestOptimizationSurfaceAdaptiveRunConfig) -> bool {
    config.adaptive.fault() is None && config.surface.random_unit_directions > 0
}

/// The region of a surface that is enriched by batches of random directions
/// until its level settles.
pub fn assess_honest_event_study_optimization_surface_region_adaptive_with_config<
    D: DirectionNumbers,
    L: Levels,
    E: FunctionalSets,
    R: PreparedSets,
>(
    data: &HonestEventStudyInput,
    sensitivity: HonestSensitivity,
    inference: InferenceConfig,
    null_value: Real,
    config: HonestOptimizationSurfaceAdaptiveRunConfig,
    numbers: &D,
    levels: &L,
    sets: &E,
    branches: &R,
) -> (out: Result<HonestDirectionalRegion, HonestError>)
    requires
        functional_sets::countable(*data),
        iterates(config) && data.post_periods@.len() > 0 ==> covers(*data),
        numbers.ready(),
        levels.ready(),
        sets.ready(*data),
        branches.ready(*data),
    ensures
        is_adaptive_region(
            *numbers,
            *levels,
            *sets,
            *branches,
            *data,
            sensitivity,
            inference,
            null_value,
            config,
            out,
        ),
        out is Ok ==> calibration::can_draw(config.joint),
{
    let ghost mut run: AdaptiveRun = arbitrary();
    match config.adaptive.validate() {
        Err(error) => {
            assert(run.explains(
                *numbers,
                *levels,
                *sets,
                *branches,
                *data,
                sensitivity,
                inference,
                null_value,
                config,
                Err(error),
            ));
            return Err(error);
        },
        Ok(()) => {},
    }
    let total: usize = config.surface.random_unit_directions;
    if total == 0 {
        let out = assess_honest_event_study_optimization_surface_region_with_config(
            data,
            sensitivity,
            inference,
            null_value,
            config.relative_magnitude,
            config.joint,
            config.surface,
            numbers,
            levels,
            sets,
            branches,
        );
        assert(run.explains(
            *numbers,
            *levels,
            *sets,
            *branches,
            *data,
            sensitivity,
            inference,
            null_value,
            config,
            out,
        ));
        return out;
    }
    let sigma = post_block_of(data);
    let batch: usize = config.adaptive.random_batch_size;
    let mut drawn: usize = if batch < total {
        batch
    } else {
        total
    };
    let first: usize = drawn;
    let mut chosen: usize = drawn;
    let mut iterations: usize = 0;
    let mut converged: bool = false;
    let mut last: Option<RoundOutcome> = None;
    let mut stopped: bool = false;
    proof {
        run.rounds = Seq::empty();
    }
    while !stopped && iterations < config.adaptive.max_iterations
        invariant
            functional_sets::countable(*data),
            data.post_periods@.len() > 0 ==> matrix::rows_of(sigma@) == post_block(*data),
            data.post_periods@.len() > 0 ==> matrix::has_cols(
                sigma@,
                data.post_periods@.len() as int,
            ) && sigma.len() == data.post_periods@.len(),
            numbers.ready(),
            levels.ready(),
            config.adaptive.fault() is None,
            total == config.surface.random_unit_directions,
            total > 0,
            batch == config.adaptive.random_batch_size,
            first == drawn_at(batch as int, total as int, 0),
            iterations <= config.adaptive.max_iterations,
            stopped ==> iterations < config.adaptive.max_iterations,
            run.rounds.len() == (if stopped {
                iterations + 1
            } else {
                iterations as int
            }),
            !stopped ==> drawn == drawn_at(batch as int, total as int, iterations as int),
            !stopped ==> iterations + 1 <= drawn <= total,
            stopped ==> iterations + 1 <= total,
            run.rounds.len() > 0 ==> run.rounds[0].drawn == first,
            forall|i: int|
                0 <= i < run.rounds.len() ==> run.follows(
                    *numbers,
                    *levels,
                    *data,
                    inference,
                    config,
                    i,
                    #[trigger] run.rounds[i],
                ),
            forall|i: int|
                0 <= i < iterations ==> run.goes_on(config, i, #[trigger] run.rounds[i]),
            stopped ==> run.rounds.last().error() is None && run.stops(
                config,
                iterations as int,
                run.rounds.last(),
            ) && chosen == run.rounds.last().drawn && converged == run.rounds.last().converged(
                config.adaptive,
                run.before(iterations as int),
            ),
            !stopped ==> chosen == first && !converged,
            !stopped ==> match last {
                None => iterations == 0,
                Some(outcome) => iterations > 0 && run.rounds.last().error() is None
                    && run.rounds.last().refined->Ok_0 == matrix::rows_of(outcome.refined@)
                    && run.rounds.last().level->Ok_0.0 == outcome.level,
            },
        decreases
                config.adaptive.max_iterations - iterations,
                (if stopped {
                    0int
                } else {
                    1int
                }),
    {
        let ghost earlier = run;
        let ghost previous = run.before(iterations as int);
        let (found, Ghost(round)) = run_round(
            data,
            &sigma,
            inference,
            config,
            drawn,
            &last,
            Ghost(previous),
            numbers,
            levels,
        );
        proof {
            run.rounds = earlier.rounds.push(round);
            assert forall|i: int| 0 <= i < run.rounds.len() implies run.follows(
                *numbers,
                *levels,
                *data,
                inference,
                config,
                i,
                #[trigger] run.rounds[i],
            ) by {
                assert(run.before(i) == earlier.before(i));
                if i < iterations {
                    assert(run.rounds[i] == earlier.rounds[i]);
                }
            }
            assert forall|i: int| 0 <= i < iterations implies run.goes_on(
                config,
                i,
                #[trigger] run.rounds[i],
            ) by {
                assert(run.before(i) == earlier.before(i));
                assert(run.rounds[i] == earlier.rounds[i]);
            }
            assert(run.before(iterations as int) == previous);
        }
        match found {
            Err(error) => {
                assert(run.rounds.last() == round);
                assert(run.explains(
                    *numbers,
                    *levels,
                    *sets,
                    *branches,
                    *data,
                    sensitivity,
                    inference,
                    null_value,
                    config,
                    Err(error),
                ));
                return Err(error);
            },
            Ok(outcome) => {
                if outcome.converged || drawn >= total {
                    converged = outcome.converged;
                    chosen = drawn;
                    stopped = true;
                } else {
                    last = Some(outcome);
                    drawn = if total - drawn <= batch {
                        total
                    } else {
                        drawn + batch
                    };
                    iterations = iterations + 1;
                }
            },
        }
    }
    let mut surface = config.surface;
    surface.random_unit_directions = chosen;
    let fixed = assess_honest_event_study_optimization_surface_region_with_config(
        data,
        sensitivity,
        inference,
        null_value,
        config.relative_magnitude,
        config.joint,
        surface,
        numbers,
        levels,
        sets,
        branches,
    );
    proof {
        run.fixed = fixed;
        let end = run.rounds.len() - 1;
        assert(run.rounds[end] == run.rounds.last());
        if !stopped {
            assert(run.goes_on(config, end, run.rounds[end]));
        }
    }
    let out = match fixed {
        Err(error) => Err(error),
        Ok(region) => {
            let mut region = region;
            region.diagnostics = HonestDirectionalRegionDiagnostics::adaptive(
                region.points.len(),
                region.diagnostics.random_direction_count,
                if stopped {
                    iterations + 1
                } else {
                    iterations
                },
                converged,
            );
            Ok(region)
        },
    };
    proof {
        assert forall|i: int| 0 <= i < run.rounds.len() implies run.follows(
            *numbers,
            *levels,
            *data,
            inference,
            config,
            i,
            #[trigger] run.rounds[i],
        ) by {}
        assert(run.explains(
            *numbers,
            *levels,
            *sets,
            *branches,
            *data,
            sensitivity,
            inference,
            null_value,
            config,
            out,
        ));
    }
    out
}

/// Whether `out` is the region of an enriched surface.
pub open spec fn is_adaptive_region<
    D: DirectionNumbers,
    L: Levels,
    E: FunctionalSets,
    R: PreparedSets,
>(
    numbers: D,
    levels: L,
    sets: E,
    branches: R,
    data: HonestEventStudyInput,
    sensitivity: HonestSensitivity,
    inference: InferenceConfig,
    null_value: Real,
    config: HonestOptimizationSurfaceAdaptiveRunConfig,
    out: Result<HonestDirectionalRegion, HonestError>,
) -> bool {
    exists|run: AdaptiveRun| #[trigger]
        run.explains(
            numbers,
            levels,
            sets,
            branches,
            data,
            sensitivity,
            inference,
            null_value,
            config,
            out,
        )
}

/// The default settings of an enriched surface for a confidence level.
pub open spec fn default_adaptive(inference: InferenceConfig) ->
    HonestOptimizationSurfaceAdaptiveRunConfig {
    HonestOptimizationSurfaceAdaptiveRunConfig {
        relative_magnitude: RelativeMagnitudeConfidenceSetConfig::from_inference_spec(inference),
        joint: multi_intervals::default_joint(),
        surface: default_surface(),
        adaptive: HonestOptimizationSurfaceAdaptiveConfig {
            random_batch_size: 100,
            min_random_for_convergence: 250,
            pointwise_tolerance: Real { bits: crate::types::DEFAULT_TOLERANCE_BITS },
            max_iterations: 6,
        },
    }
}

/// The region of an enriched surface with the default settings.
pub fn assess_honest_event_study_optimization_surface_region_adaptive<
    D: DirectionNumbers,
    L: Levels,
    E: FunctionalSets,
    R: PreparedSets,
>(
    data: &HonestEventStudyInput,
    sensitivity: HonestSensitivity,
    inference: InferenceConfig,
    null_value: Real,
    numbers: &D,
    levels: &L,
    sets: &E,
    branches: &R,
) -> (out: Result<HonestDirectionalRegion, HonestError>)
    requires
        functional_sets::countable(*data),
        data.post_periods@.len() > 0 ==> covers(*data),
        numbers.ready(),
        levels.ready(),
        sets.ready(*data),
        branches.ready(*data),
    ensures
        is_adaptive_region(
            *numbers,
            *levels,
            *sets,
            *branches,
            *data,
            sensitivity,
            inference,
            null_value,
            default_adaptive(inference),
            out,
        ),
{
    let config = HonestOptimizationSurfaceAdaptiveRunConfig::from_inference(inference);
    assert(config == default_adaptive(inference));
    assess_honest_event_study_optimization_surface_region_adaptive_with_config(
        data,
        sensitivity,
        inference,
        null_value,
        config,
        numbers,
        levels,
        sets,
        branches,
    )
}

/// The region of an enriched surface is the region of the fixed surface with
/// some number of random directions, but for its diagnostics: how the
/// iterations went decides nothing else.
pub proof fn enriched_region_is_a_fixed_region<
    D: DirectionNumbers,
    L: Levels,
    E: FunctionalSets,
    R: PreparedSets,
>(
    numbers: D,
    levels: L,
    sets: E,
    branches: R,
    data: HonestEventStudyInput,
    sensitivity: HonestSensitivity,
    inference: InferenceConfig,
    null_value: Real,
    config: HonestOptimizationSurfaceAdaptiveRunConfig,
    region: HonestDirectionalRegion,
) -> (fixed: (usize, HonestDirectionalRegion))
    requires
        is_adaptive_region(
            numbers,
            levels,
            sets,
            branches,
            data,
            sensitivity,
            inference,
            null_value,
            config,
            Ok(region),
        ),
    ensures
        fixed.0 <= config.surface.random_unit_directions,
        is_fixed_region(
            numbers,
            levels,
            sets,
            branches,
            data,
            sensitivity,
            inference,
            null_value,
            config.relative_magnitude,
            config.joint,
            (HonestOptimizationSurfaceConfig { random_unit_directions: fixed.0, ..config.surface }),
            Ok(fixed.1),
        ),
        region == (HonestDirectionalRegion { diagnostics: region.diagnostics, ..fixed.1 }),
        region.diagnostics.random_direction_count == fixed.1.diagnostics.random_direction_count,
{
    let run = choose|run: AdaptiveRun| #[trigger]
        run.explains(
            numbers,
            levels,
            sets,
            branches,
            data,
            sensitivity,
            inference,
            null_value,
            config,
            Ok(region),
        );
    if config.surface.random_unit_directions == 0 {
        assert(config.surface == (HonestOptimizationSurfaceConfig {
            random_unit_directions: 0,
            ..config.surface
        }));
        (0usize, region)
    } else {
        let last = run.rounds.len() - 1;
        assert(run.follows(numbers, levels, data, inference, config, last, run.rounds[last]));
        assert(run.follows(numbers, levels, data, inference, config, 0, run.rounds[0]));
        (run.chosen(config), run.fixed->Ok_0)
    }
}

proof fn inner_with_contrast(
    num_post: int,
    left: int,
    right: int,
    effects: Seq<int>,
    read: spec_fn(Real) -> int,
    end: int,
)
    requires
        exact::faithful(read),
        0 <= left < num_post,
        0 <= right < num_post,
        left != right,
        0 <= end <= num_post,
    ensures
        exact::inner(exact::values(read, contrast(num_post, left, right)), effects, end) == (if left
            < end {
            effects[left]
        } else {
            0
        }) - (if right < end {
            effects[right]
        } else {
            0
        }),
    decreases end,
{
    if end > 0 {
        inner_with_contrast(num_post, left, right, effects, read, end - 1);
        let e = effects[end - 1];
        assert(1 * e == e && 0 * e == 0 && (-1) * e == -e);
    }
}

/// A contrast makes of the effects the difference of its two periods.
pub proof fn a_contrast_is_a_difference(
    num_post: int,
    left: int,
    right: int,
    effects: Seq<int>,
    read: spec_fn(Real) -> int,
)
    requires
        exact::faithful(read),
        0 <= left < num_post,
        0 <= right < num_post,
        left != right,
    ensures
        exact::inner(exact::values(read, contrast(num_post, left, right)), effects, num_post)
            == effects[left] - effects[right],
{
    inner_with_contrast(num_post, left, right, effects, read, num_post);
}

/// Every two post periods have their contrast among those of a surface.
pub proof fn every_pair_has_its_contrast(num_post: int, lefts: int, left: int, right: int) -> (k:
    int)
    requires
        0 <= left < lefts <= num_post,
        left < right < num_post,
    ensures
        0 <= k < contrasts(num_post, lefts).len(),
        contrasts(num_post, lefts)[k] == contrast(num_post, left, right),
    decreases lefts,
{
    let before = contrasts(num_post, lefts - 1);
    if left == lefts - 1 {
        before.len() + right - left - 1
    } else {
        every_pair_has_its_contrast(num_post, lefts - 1, left, right)
    }
}

proof fn drawn_in_closed_form(batch: int, total: int, i: int)
    requires
        0 <= batch,
        0 <= total,
        0 <= i,
    ensures
        drawn_at(batch, total, i) == (if batch * (i + 1) < total {
            batch * (i + 1)
        } else {
            total
        }),
    decreases i,
{
    assert(batch * (i + 1) == batch * i + batch) by (nonlinear_arith);
    assert(batch * 1 == batch);
    if i > 0 {
        drawn_in_closed_form(batch, total, i - 1);
    } else {
        assert(batch * 0 == 0);
    }
}

/// Each iteration of an enriched surface has drawn as many batches of random
/// directions as there were iterations, but no more directions than there may be.
pub proof fn iterations_draw_batch_after_batch(batch: int, total: int, i: int)
    requires
        0 <= batch,
        0 <= total,
        0 <= i,
    ensures
        drawn_at(batch, total, i) <= total,
        drawn_at(batch, total, i) <= drawn_at(batch, total, i + 1),
        batch * (i + 1) <= total ==> drawn_at(batch, total, i) == batch * (i + 1),
        batch * (i + 1) >= total ==> drawn_at(batch, total, i) == total,
{
    drawn_in_closed_form(batch, total, i);
    drawn_in_closed_form(batch, total, i + 1);
    assert(batch * (i + 1 + 1) == batch * (i + 1) + batch) by (nonlinear_arith);
}

/// An enriched surface reports convergence only where the level of its last iteration
/// differs from that of the one before by at most the tolerance, with enough random
/// directions, and no earlier iteration did.
pub proof fn convergence_means_a_settled_level<
    D: DirectionNumbers,
    L: Levels,
    E: FunctionalSets,
    R: PreparedSets,
>(
    run: AdaptiveRun,
    numbers: D,
    levels: L,
    sets: E,
    branches: R,
    data: HonestEventStudyInput,
    sensitivity: HonestSensitivity,
    inference: InferenceConfig,
    null_value: Real,
    config: HonestOptimizationSurfaceAdaptiveRunConfig,
    region: HonestDirectionalRegion,
)
    requires
        run.explains(
            numbers,
            levels,
            sets,
            branches,
            data,
            sensitivity,
            inference,
            null_value,
            config,
            Ok(region),
        ),
        config.adaptive.fault() is None,
        config.surface.random_unit_directions > 0,
        region.diagnostics.converged,
    ensures
        run.rounds.len() >= 2,
        region.diagnostics.iterations_run == run.rounds.len(),
        numbers.is_difference(
            run.rounds.last().level->Ok_0.0,
            run.rounds[run.rounds.len() - 2].level->Ok_0.0,
            run.rounds.last().change,
        ),
        run.rounds.last().change.abs_spec().le(config.adaptive.pointwise_tolerance),
        run.rounds.last().random >= config.adaptive.min_random_for_convergence,
        forall|i: int|
            1 <= i < run.rounds.len() - 1 ==> !(#[trigger] run.rounds[i]).change.abs_spec().le(
                config.adaptive.pointwise_tolerance,
            ) || run.rounds[i].random < config.adaptive.min_random_for_convergence,
{
    let last = run.rounds.len() - 1;
    assert(run.follows(numbers, levels, data, inference, config, last, run.rounds[last]));
    assert forall|i: int| 1 <= i < run.rounds.len() - 1 implies !(
    #[trigger] run.rounds[i]).change.abs_spec().le(config.adaptive.pointwise_tolerance)
        || run.rounds[i].random < config.adaptive.min_random_for_convergence by {
        assert(run.goes_on(config, i, run.rounds[i]));
    }
}

} // verus!
