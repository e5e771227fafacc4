//! Fixed-length confidence intervals under the smoothness restriction.

use crate::cone;
use crate::cone::{
    bias_program, lowest_program, split_constant_variance, ConeProgram, SplitVariance,
};
use crate::errors::HonestError;
use crate::exact;
use crate::input::HonestEventStudyInput;
use crate::matrix;
use crate::matrix::{entries_from, entries_up_to, filled_row};
use crate::number::Real;
use crate::programs;
use crate::programs::{read_answer, ProgramAnswer};
use crate::projection;
use crate::projection::build_variance_soc_terms;
use crate::study::{IntervalArithmetic, StudyArithmetic};
use crate::types::{HonestIdentifiedSet, HonestOriginalConfidenceSet, InferenceConfig};
use vstd::arithmetic::power2::{lemma2_to64, lemma_pow2_unfold, pow2};
use vstd::prelude::*;

verus! {

/// The bits of `1e-12`, at or below which a standard deviation counts as zero.
pub const ZERO_SPREAD_BITS: u64 = 0x3d719799812dea11;

/// The bits of `1e6`, beyond which a quantile is not looked for.
pub const QUANTILE_LIMIT_BITS: u64 = 0x412e848000000000;

/// What the programs of an estimator are called in messages.
pub const CONE_PROGRAM: &'static str = "smoothness SOCP";

/// Settings of fixed-length intervals.
#[derive(Clone, Copy, Debug, PartialEq, Eq, Structural)]
pub struct SmoothnessFlciConfig {
    /// Number of standard deviations that are tried.
    pub num_grid_points: usize,
}

impl SmoothnessFlciConfig {
    /// The default settings.
    pub open spec fn default_spec() -> Self {
        SmoothnessFlciConfig { num_grid_points: 48 }
    }

    /// The default settings.
    pub fn default_for_production() -> (config: Self)
        ensures
            config == Self::default_spec(),
    {
        SmoothnessFlciConfig { num_grid_points: 48 }
    }
}

/// A functional whose fixed-length interval is wanted.
#[derive(Debug, PartialEq, Eq)]
pub struct SmoothnessFlciProblem {
    /// The event study.
    pub input: HonestEventStudyInput,
    /// Weights of the post periods.
    pub post_weights: Vec<Real>,
    /// Bound of the restriction.
    pub m: Real,
    /// Confidence level.
    pub inference: InferenceConfig,
    /// Confidence set under parallel trends.
    pub original: HonestOriginalConfidenceSet,
    /// Identified set.
    pub identified_set: HonestIdentifiedSet,
}

/// A fixed-length interval.
#[derive(Debug, PartialEq, Eq)]
pub struct SmoothnessFlciResult {
    /// The interval.
    pub flci: (Real, Real),
    /// Confidence interval under parallel trends.
    pub original_ci: (Real, Real),
    /// Identified set.
    pub identified_set: (Real, Real),
    /// Weights of all periods in the estimator.
    pub optimal_vec: Vec<Real>,
    /// Half the length of the interval.
    pub optimal_half_length: Real,
}

/// The smallest worst-case bias at a standard deviation.
#[derive(Debug, PartialEq, Eq)]
pub struct SmoothnessBiasAtH {
    /// The bias where the bound of the restriction is one.
    pub value_at_m_one: Real,
    /// Weights of the pre periods.
    pub optimal_l_pre: Vec<Real>,
}

// ---------------------------------------------------------------------------
// Estimators
// ---------------------------------------------------------------------------

/// Whether `pre` are the weights of the pre periods whose running sums are `w`.
pub open spec fn pre_weights_of<I: IntervalArithmetic>(
    w: Seq<Real>,
    numbers: I,
    pre: Seq<Real>,
) -> bool {
    &&& pre.len() == w.len()
    &&& w.len() > 0 ==> pre[0] == w[0]
    &&& forall|i: int|
        1 <= i < w.len() ==> numbers.differs(w[i], w[i - 1], #[trigger] pre[i])
}

/// The weights of the pre periods whose running sums are `w`.
pub fn w_to_l_pre<I: IntervalArithmetic>(w: &[Real], numbers: &I) -> (pre: Vec<Real>)
    requires
        numbers.ready(),
    ensures
        pre_weights_of(w@, *numbers, pre@),
{
    let mut pre: Vec<Real> = Vec::new();
    while pre.len() < w.len()
        invariant
            pre.len() <= w.len(),
            pre.len() > 0 ==> pre@[0] == w@[0],
            forall|i: int|
                1 <= i < pre.len() ==> numbers.differs(
                    w@[i],
                    w@[i - 1],
                    #[trigger] pre@[i],
                ),
            numbers.ready(),
        decreases w.len() - pre.len(),
    {
        let i: usize = pre.len();
        if i == 0 {
            pre.push(w[0]);
        } else {
            pre.push(numbers.difference(w[i], w[i - 1]));
        }
    }
    pre
}

fn append_weights(pre: &mut Vec<Real>, post_weights: &[Real])
    ensures
        final(pre)@ == old(pre)@ + post_weights@,
{
    let ghost before = pre@;
    let mut j: usize = 0;
    while j < post_weights.len()
        invariant
            j <= post_weights.len(),
            before == old(pre)@,
            pre@ == before + post_weights@.take(j as int),
        decreases post_weights.len() - j,
    {
        pre.push(post_weights[j]);
        j = j + 1;
        proof {
            assert(post_weights@.take(j as int) =~= post_weights@.take(j - 1).push(
                post_weights@[j - 1],
            ));
        }
    }
    proof {
        assert(post_weights@.take(j as int) =~= post_weights@);
    }
}

/// Whether `estimator` has the pre weights whose running sums are `w`, and then
/// the post weights.
pub open spec fn estimator_of<I: IntervalArithmetic>(
    w: Seq<Real>,
    post_weights: Seq<Real>,
    numbers: I,
    estimator: Seq<Real>,
) -> bool {
    &&& estimator.len() == w.len() + post_weights.len()
    &&& pre_weights_of(w, numbers, estimator.take(w.len() as int))
    &&& estimator.skip(w.len() as int) == post_weights
}

/// The weights of all periods, given the running sums of the pre weights.
pub fn full_estimator_vec<I: IntervalArithmetic>(
    w: &[Real],
    post_weights: &[Real],
    numbers: &I,
) -> (estimator: Vec<Real>)
    requires
        numbers.ready(),
    ensures
        estimator_of(w@, post_weights@, *numbers, estimator@),
{
    let mut estimator = w_to_l_pre(w, numbers);
    let ghost pre = estimator@;
    append_weights(&mut estimator, post_weights);
    proof {
        assert(estimator@.take(w.len() as int) =~= pre);
        assert(estimator@.skip(w.len() as int) =~= post_weights@);
    }
    estimator
}

// ---------------------------------------------------------------------------
// The lowest standard deviation and the lowest bias
// ---------------------------------------------------------------------------

/// What a program rested on.
pub struct ProgramRun {
    /// The factor of the covariance.
    pub lower: Result<Vec<Vec<Real>>, String>,
    /// Rows of the variance.
    pub rows: Vec<Vec<Real>>,
    /// Their right-hand sides.
    pub sides: Vec<Real>,
    /// The weighted sum of the post weights.
    pub weighted_sum: Real,
    /// The split of the variance.
    pub split: SplitVariance,
    /// The norm of its fixed part.
    pub fixed: Real,
    /// The squared radius.
    pub radius_square: Real,
    /// The radius.
    pub radius: Real,
    /// The program.
    pub program: ConeProgram,
    /// What the solver returned.
    pub answer: Result<ProgramAnswer<Vec<Real>>, String>,
    /// The magnitudes of the running sums at the optimum.
    pub magnitudes: Vec<Real>,
}

impl ProgramRun {
    /// Whether the variance was split like this.
    pub open spec fn split_from<A: StudyArithmetic>(
        self,
        input: HonestEventStudyInput,
        post_weights: Vec<Real>,
        numbers: A,
    ) -> bool {
        &&& numbers.framer().sums(post_weights, self.weighted_sum)
        &&& numbers.framer().factors(input.covariance, self.lower)
        &&& self.lower matches Ok(lower) ==> {
            &&& projection::terms_of(
                lower@,
                input.pre_periods@.len() as int,
                post_weights@,
                numbers.framer(),
                self.rows@,
                self.sides@,
            )
            &&& self.split.splits(matrix::rows_of(self.rows@), self.sides@)
            &&& numbers.framer().norms(self.split.fixed, self.fixed)
        }
    }

    /// What the solver's answer means.
    pub open spec fn solution(self) -> Result<Option<Vec<Real>>, HonestError> {
        match self.answer {
            Err(message) => Err(HonestError::Numerical { message }),
            Ok(answer) => programs::answer_meaning(CONE_PROGRAM, answer),
        }
    }

    /// Whether `lowest` is the lowest standard deviation with its weights: an
    /// error of the variance or of the program, nothing where the program has no
    /// optimum, or its last and its other variables.
    pub open spec fn explains_lowest<A: StudyArithmetic>(
        self,
        input: HonestEventStudyInput,
        post_weights: Vec<Real>,
        numbers: A,
        lowest: Result<Option<(Real, Vec<Real>)>, HonestError>,
    ) -> bool {
        let num_pre = input.pre_periods@.len() as int;
        &&& self.split_from(input, post_weights, numbers)
        &&& match self.lower {
            Err(message) => lowest == Err::<Option<(Real, Vec<Real>)>, HonestError>(
                HonestError::Numerical { message },
            ),
            Ok(_) => {
                &&& cone::is_lowest_program(
                    self.program,
                    num_pre,
                    self.weighted_sum,
                    self.split,
                    self.fixed,
                )
                &&& numbers.answers(self.program, false, self.answer)
                &&& match self.solution() {
                    Err(error) => lowest == Err::<Option<(Real, Vec<Real>)>, HonestError>(error),
                    Ok(None) => lowest == Ok::<Option<(Real, Vec<Real>)>, HonestError>(None),
                    Ok(Some(x)) => lowest matches Ok(Some(found)) && found.0 == x@[num_pre]
                        && found.1@ == x@.take(num_pre),
                }
            },
        }
    }

    /// Whether `bias` is the smallest worst-case bias at a standard deviation:
    /// nothing where the fixed part of the variance alone exceeds it.
    pub open spec fn explains_bias<A: StudyArithmetic>(
        self,
        input: HonestEventStudyInput,
        post_weights: Vec<Real>,
        h: Real,
        numbers: A,
        bias: Result<Option<SmoothnessBiasAtH>, HonestError>,
    ) -> bool {
        let num_pre = input.pre_periods@.len() as int;
        &&& self.split_from(input, post_weights, numbers)
        &&& match self.lower {
            Err(message) => bias == Err::<Option<SmoothnessBiasAtH>, HonestError>(
                HonestError::Numerical { message },
            ),
            Ok(_) => {
                &&& numbers.framer().squares(h, self.fixed, self.radius_square)
                &&& if self.radius_square.lt(Real::zero_spec()) {
                    bias == Ok::<Option<SmoothnessBiasAtH>, HonestError>(None)
                } else {
                    &&& numbers.roots(self.radius_square, self.radius)
                    &&& cone::is_bias_program(
                        self.program,
                        num_pre,
                        self.weighted_sum,
                        self.split,
                        self.radius,
                    )
                    &&& numbers.answers(self.program, false, self.answer)
                    &&& match self.solution() {
                        Err(error) => bias == Err::<Option<SmoothnessBiasAtH>, HonestError>(error),
                        Ok(None) => bias == Ok::<Option<SmoothnessBiasAtH>, HonestError>(None),
                        Ok(Some(x)) => bias matches Ok(Some(found)) && {
                            &&& self.magnitudes@ == x@.take(num_pre)
                            &&& numbers.framer().biases(
                                post_weights,
                                self.magnitudes,
                                found.value_at_m_one,
                            )
                            &&& pre_weights_of(
                                x@.skip(num_pre),
                                numbers.framer(),
                                found.optimal_l_pre@,
                            )
                        },
                    }
                }
            },
        }
    }
}

/// Whether the factor of the covariance has the periods of a functional.
pub open spec fn fits(input: HonestEventStudyInput, post_weights: Seq<Real>) -> bool {
    &&& 2 * input.pre_periods@.len() < usize::MAX
    &&& input.pre_periods@.len() + post_weights.len() <= input.covariance@.len()
}

fn split_variance<A: StudyArithmetic>(
    run: Ghost<ProgramRun>,
    input: &HonestEventStudyInput,
    post_weights: &Vec<Real>,
    numbers: &A,
) -> (out: (Result<(Real, SplitVariance, Real), HonestError>, Ghost<ProgramRun>))
    requires
        fits(*input, post_weights@),
        numbers.ready(),
    ensures
        out.1@.split_from(*input, *post_weights, *numbers),
        match out.0 {
            Err(error) => out.1@.lower matches Err(message) && error == (HonestError::Numerical {
                message,
            }),
            Ok((weighted_sum, split, fixed)) => {
                &&& out.1@.lower is Ok
                &&& weighted_sum == out.1@.weighted_sum
                &&& split == out.1@.split
                &&& fixed == out.1@.fixed
                &&& matrix::has_cols(split.rows@, input.pre_periods@.len() as int)
            },
        },
{
    let ghost mut run = run@;
    let framer = numbers.intervals();
    let weighted_sum = framer.weighted_sum(post_weights);
    let factored = framer.factor(&input.covariance);
    proof {
        run.weighted_sum = weighted_sum;
        run.lower = factored;
    }
    let lower = match factored {
        Err(message) => {
            return (Err(HonestError::Numerical { message }), Ghost(run));
        },
        Ok(lower) => lower,
    };
    let (rows, sides) = build_variance_soc_terms(
        lower.as_slice(),
        input.num_pre_periods(),
        post_weights.as_slice(),
        framer,
    );
    let split = split_constant_variance(rows.as_slice(), sides.as_slice());
    let fixed = framer.norm(&split.fixed);
    proof {
        run.rows = rows;
        run.sides = sides;
        run.split = split;
        run.fixed = fixed;
    }
    (Ok((weighted_sum, split, fixed)), Ghost(run))
}

fn solve_cone<A: StudyArithmetic>(run: Ghost<ProgramRun>, program: ConeProgram, numbers: &A) -> (out: (
    Result<Option<Vec<Real>>, HonestError>,
    Ghost<ProgramRun>,
))
    requires
        numbers.ready(),
    ensures
        out.1@ == (ProgramRun { program, answer: out.1@.answer, ..run@ }),
        numbers.answers(program, false, out.1@.answer),
        out.0 == out.1@.solution(),
        out.0 matches Ok(Some(found)) ==> found.len() == program.objective.len(),
{
    let ghost mut run = run@;
    let answer = numbers.program(&program, false);
    proof {
        run.program = program;
        run.answer = answer;
    }
    let solution = match answer {
        Err(message) => Err(HonestError::Numerical { message }),
        Ok(answer) => read_answer(CONE_PROGRAM, answer),
    };
    (solution, Ghost(run))
}

/// The lowest standard deviation of an estimator, with the running sums of its
/// pre weights.
pub fn find_lowest_h<A: StudyArithmetic>(
    input: &HonestEventStudyInput,
    post_weights: &Vec<Real>,
    numbers: &A,
) -> (lowest: Result<Option<(Real, Vec<Real>)>, HonestError>)
    requires
        fits(*input, post_weights@),
        numbers.ready(),
    ensures
        exists|run: ProgramRun| #[trigger]
            run.explains_lowest(*input, *post_weights, *numbers, lowest),
{
    let num_pre: usize = input.num_pre_periods();
    let ghost nothing: ProgramRun = arbitrary();
    let (parts, Ghost(run)) = split_variance(Ghost(nothing), input, post_weights, numbers);
    let (weighted_sum, split, fixed) = match parts {
        Err(error) => {
            assert(run.explains_lowest(*input, *post_weights, *numbers, Err(error)));
            return Err(error);
        },
        Ok(parts) => parts,
    };
    let program = lowest_program(num_pre, weighted_sum, &split, fixed);
    let (solution, Ghost(run)) = solve_cone(Ghost(run), program, numbers);
    let lowest = match solution {
        Err(error) => Err(error),
        Ok(None) => Ok(None),
        Ok(Some(x)) => Ok(Some((x[num_pre], entries_up_to(x.as_slice(), num_pre)))),
    };
    assert(run.explains_lowest(*input, *post_weights, *numbers, lowest));
    lowest
}

/// Whether `found` is the standard deviation of the least biased estimator with
/// the running sums of its pre weights: the last of them is the weighted sum of
/// the post weights and the others are zero.
pub open spec fn least_biased<A: StudyArithmetic>(
    weighted_sum: Real,
    estimator: Vec<Real>,
    input: HonestEventStudyInput,
    post_weights: Vec<Real>,
    numbers: A,
    found: (Real, Vec<Real>),
) -> bool {
    let num_pre = input.pre_periods@.len() as int;
    &&& numbers.framer().sums(post_weights, weighted_sum)
    &&& found.1@ == (if num_pre == 0 {
        cone::zeros(0)
    } else {
        cone::zeros(num_pre - 1).push(weighted_sum)
    })
    &&& estimator_of(found.1@, post_weights@, numbers.framer(), estimator@)
    &&& numbers.framer().spreads(input.covariance, estimator, found.0)
}

/// The standard deviation of the least biased estimator, with the running sums
/// of its pre weights.
pub fn find_h_for_minimum_bias<A: StudyArithmetic>(
    input: &HonestEventStudyInput,
    post_weights: &Vec<Real>,
    numbers: &A,
) -> (found: (Real, Vec<Real>))
    requires
        numbers.ready(),
    ensures
        exists|weighted_sum: Real, estimator: Vec<Real>| #[trigger]
            least_biased(weighted_sum, estimator, *input, *post_weights, *numbers, found),
{
    let num_pre: usize = input.num_pre_periods();
    let framer = numbers.intervals();
    let weighted_sum = framer.weighted_sum(post_weights);
    let mut w: Vec<Real> = Vec::new();
    if num_pre > 0 {
        w = filled_row(num_pre - 1, Real::zero());
        w.push(weighted_sum);
    }
    proof {
        assert(w@ =~= (if num_pre == 0 {
            cone::zeros(0)
        } else {
            cone::zeros(num_pre - 1).push(weighted_sum)
        }));
    }
    let estimator = full_estimator_vec(w.as_slice(), post_weights.as_slice(), framer);
    let h = framer.spread(&input.covariance, &estimator);
    let found = (h, w);
    assert(least_biased(weighted_sum, estimator, *input, *post_weights, *numbers, found));
    found
}

/// The smallest worst-case bias at a standard deviation.
pub fn find_worst_case_bias_given_h<A: StudyArithmetic>(
    input: &HonestEventStudyInput,
    post_weights: &Vec<Real>,
    h: Real,
    numbers: &A,
) -> (bias: Result<Option<SmoothnessBiasAtH>, HonestError>)
    requires
        fits(*input, post_weights@),
        numbers.ready(),
    ensures
        exists|run: ProgramRun| #[trigger]
            run.explains_bias(*input, *post_weights, h, *numbers, bias),
        bias matches Ok(Some(found)) ==> found.optimal_l_pre.len() == input.pre_periods@.len(),
{
    let num_pre: usize = input.num_pre_periods();
    let framer = numbers.intervals();
    let ghost nothing: ProgramRun = arbitrary();
    let (parts, Ghost(run)) = split_variance(Ghost(nothing), input, post_weights, numbers);
    let (weighted_sum, split, fixed) = match parts {
        Err(error) => {
            assert(run.explains_bias(*input, *post_weights, h, *numbers, Err(error)));
            return Err(error);
        },
        Ok(parts) => parts,
    };
    let radius_square = framer.radius_square(h, fixed);
    let ghost run = ProgramRun { radius_square, ..run };
    if radius_square.less(Real::zero()) {
        assert(run.explains_bias(*input, *post_weights, h, *numbers, Ok(None)));
        return Ok(None);
    }
    let radius = numbers.root(radius_square);
    let ghost run = ProgramRun { radius, ..run };
    let program = bias_program(num_pre, weighted_sum, &split, radius);
    let (solution, Ghost(run)) = solve_cone(Ghost(run), program, numbers);
    match solution {
        Err(error) => {
            assert(run.explains_bias(*input, *post_weights, h, *numbers, Err(error)));
            Err(error)
        },
        Ok(None) => {
            assert(run.explains_bias(*input, *post_weights, h, *numbers, Ok(None)));
            Ok(None)
        },
        Ok(Some(x)) => {
            let magnitudes = entries_up_to(x.as_slice(), num_pre);
            let w = entries_from(x.as_slice(), num_pre);
            let optimal_l_pre = w_to_l_pre(w.as_slice(), framer);
            let value_at_m_one = framer.bias(post_weights, &magnitudes);
            let ghost run = ProgramRun { magnitudes, ..run };
            let found = SmoothnessBiasAtH { value_at_m_one, optimal_l_pre };
            assert(run.explains_bias(*input, *post_weights, h, *numbers, Ok(Some(found))));
            Ok(Some(found))
        },
    }
}

// ---------------------------------------------------------------------------
// Half lengths
// ---------------------------------------------------------------------------

/// Whether a probability lies between zero and one, one left out.
pub open spec fn proper(p: Real) -> bool {
    Real::zero_spec().le(p) && p.lt(Real::one_spec())
}

/// The steps that raise the upper end of a bracket: each end but the last lies
/// below the quantile and within the limit.
pub open spec fn raised<I: IntervalArithmetic>(
    ends: Seq<Real>,
    values: Seq<Real>,
    p: Real,
    mu: Real,
    numbers: I,
) -> bool {
    &&& ends.len() > 0
    &&& values.len() <= ends.len() <= values.len() + 1
    &&& numbers.starts(mu, ends[0])
    &&& forall|k: int|
        0 <= k < values.len() ==> numbers.distributes(mu, ends[k], #[trigger] values[k])
    &&& forall|k: int|
        0 <= k < ends.len() - 1 ==> !p.le(#[trigger] values[k]) && numbers.doubles(
            ends[k],
            ends[k + 1],
        )
    &&& forall|k: int|
        0 < k < ends.len() && (k + 1 < ends.len() || values.len() == ends.len())
            ==> !limit_spec().lt(#[trigger] ends[k])
    &&& if values.len() == ends.len() {
        p.le(values.last())
    } else {
        limit_spec().lt(ends.last())
    }
}

/// `1e6`.
pub open spec fn limit_spec() -> Real {
    Real { bits: QUANTILE_LIMIT_BITS }
}

/// The halving of a bracket: the middle replaces the upper end where the
/// distribution has reached the probability there, else the lower end.
pub open spec fn halved<I: IntervalArithmetic>(
    lowers: Seq<Real>,
    uppers: Seq<Real>,
    middles: Seq<Real>,
    values: Seq<Real>,
    p: Real,
    upper: Real,
    mu: Real,
    numbers: I,
) -> bool {
    &&& lowers.len() == middles.len() + 1
    &&& uppers.len() == lowers.len()
    &&& values.len() == middles.len()
    &&& lowers[0] == Real::zero_spec()
    &&& uppers[0] == upper
    &&& forall|k: int|
        0 <= k < middles.len() ==> {
            &&& numbers.centers(lowers[k], uppers[k], #[trigger] middles[k])
            &&& numbers.distributes(mu, middles[k], values[k])
            &&& if p.le(values[k]) {
                uppers[k + 1] == middles[k] && lowers[k + 1] == lowers[k]
            } else {
                lowers[k + 1] == middles[k] && uppers[k + 1] == uppers[k]
            }
        }
}

/// What a quantile rested on.
pub struct QuantileRun {
    /// Upper ends that were tried.
    pub ends: Seq<Real>,
    /// The distribution there.
    pub reached: Seq<Real>,
    /// Lower ends of the bracket.
    pub lowers: Seq<Real>,
    /// Upper ends of the bracket.
    pub uppers: Seq<Real>,
    /// Its middles.
    pub middles: Seq<Real>,
    /// The distribution there.
    pub values: Seq<Real>,
}

impl QuantileRun {
    /// Whether a quantile came about like this, by eighty halvings.
    pub open spec fn explains<I: IntervalArithmetic>(self, p: Real, mu: Real, numbers: I, quantile: Real) -> bool {
        &&& raised(self.ends, self.reached, p, mu, numbers)
        &&& halved(
            self.lowers,
            self.uppers,
            self.middles,
            self.values,
            p,
            self.ends.last(),
            mu,
            numbers,
        )
        &&& self.middles.len() == 80
        &&& quantile == self.uppers.last()
    }
}

/// Whether a quantile came about by raising the end of a bracket and halving it.
pub open spec fn is_quantile<I: IntervalArithmetic>(p: Real, mu: Real, numbers: I, quantile: Real) -> bool {
    exists|run: QuantileRun| #[trigger] run.explains(p, mu, numbers, quantile)
}

proof fn raised_beyond<I: IntervalArithmetic>(
    ends: Seq<Real>,
    values: Seq<Real>,
    p: Real,
    mu: Real,
    numbers: I,
)
    requires
        ends.len() == values.len() + 1,
        numbers.starts(mu, ends[0]),
        forall|k: int|
            0 <= k < values.len() ==> numbers.distributes(mu, ends[k], #[trigger] values[k]),
        forall|k: int|
            0 <= k < values.len() ==> !p.le(#[trigger] values[k]) && numbers.doubles(
                ends[k],
                ends[k + 1],
            ),
        forall|k: int| 0 < k < ends.len() - 1 ==> !limit_spec().lt(#[trigger] ends[k]),
        limit_spec().lt(ends.last()),
    ensures
        raised(ends, values, p, mu, numbers),
{
}

/// The upper end at which a bracket of the quantile starts.
fn raise_end<I: IntervalArithmetic>(
    p: Real,
    mu: Real,
    numbers: &I,
) -> (out: (Real, Ghost<Seq<Real>>, Ghost<Seq<Real>>))
    requires
        numbers.ready(),
    ensures
        raised(out.1@, out.2@, p, mu, *numbers),
        out.0 == out.1@.last(),
{
    let start = numbers.start(mu);
    let limit = Real { bits: QUANTILE_LIMIT_BITS };
    let ghost mut ends: Seq<Real> = seq![start];
    let ghost mut reached: Seq<Real> = Seq::empty();
    let mut upper = start;
    loop
        invariant
            limit == limit_spec(),
            Real::zero_spec().lt(upper),
            ends.len() == reached.len() + 1,
            numbers.starts(mu, ends[0]),
            ends.last() == upper,
            numbers.ready(),
            forall|k: int|
                0 <= k < reached.len() ==> numbers.distributes(mu, ends[k], #[trigger] reached[k]),
            forall|k: int|
                0 <= k < reached.len() ==> {
                    &&& !p.le(#[trigger] reached[k])
                    &&& numbers.doubles(ends[k], ends[k + 1])
                },
            forall|k: int| 0 < k < ends.len() ==> !limit_spec().lt(#[trigger] ends[k]),
        decreases 0x7ff0000000000000 - upper.ordinal(),
    {
        let value = numbers.distribution(mu, upper);
        let ghost more = reached.push(value);
        if p.at_most(value) {
            proof {
                assert forall|k: int| 0 <= k < more.len() implies numbers.distributes(
                    mu,
                    ends[k],
                    #[trigger] more[k],
                ) by {
                    if k < reached.len() {
                        assert(more[k] == reached[k]);
                    }
                }
                assert forall|k: int| 0 <= k < ends.len() - 1 implies !p.le(#[trigger] more[k])
                    && numbers.doubles(ends[k], ends[k + 1]) by {
                    assert(more[k] == reached[k]);
                }
                assert(raised(ends, more, p, mu, *numbers));
            }
            return (upper, Ghost(ends), Ghost(more));
        }
        let next = numbers.double(upper);
        let ghost longer = ends.push(next);
        proof {
            assert forall|k: int| 0 <= k < more.len() implies numbers.distributes(
                mu,
                longer[k],
                #[trigger] more[k],
            ) by {
                assert(longer[k] == ends[k]);
                if k < reached.len() {
                    assert(more[k] == reached[k]);
                }
            }
            assert forall|k: int| 0 <= k < more.len() implies !p.le(#[trigger] more[k])
                && numbers.doubles(longer[k], longer[k + 1]) by {
                assert(longer[k] == ends[k]);
                if k < reached.len() {
                    assert(more[k] == reached[k]);
                    assert(longer[k + 1] == ends[k + 1]);
                }
            }
        }
        proof {
            assert forall|k: int| 0 < k < longer.len() - 1 implies !limit_spec().lt(
                #[trigger] longer[k],
            ) by {
                assert(longer[k] == ends[k]);
            }
        }
        if limit.less(next) {
            proof {
                raised_beyond(longer, more, p, mu, *numbers);
            }
            return (next, Ghost(longer), Ghost(more));
        }
        proof {
            ends = longer;
            reached = more;
        }
        upper = next;
    }
}

/// The quantile of the absolute value of a normal variable with unit variance.
/// `mu` is the magnitude of that variable's mean.
pub fn folded_normal_quantile<I: IntervalArithmetic>(p: Real, mu: Real, numbers: &I) -> (quantile: Result<
    Real,
    HonestError,
>)
    requires
        numbers.ready(),
    ensures
        !proper(p) ==> quantile == Err::<Real, HonestError>(
            HonestError::FoldedProbability { p },
        ),
        proper(p) ==> quantile is Ok,
        quantile is Ok ==> is_quantile(p, mu, *numbers, quantile->Ok_0),
{
    if !(Real::zero().at_most(p) && p.less(Real::one())) {
        return Err(HonestError::FoldedProbability { p });
    }
    let (first, Ghost(ends), Ghost(reached)) = raise_end(p, mu, numbers);
    let mut lower = Real::zero();
    let mut upper = first;
    let ghost mut lowers: Seq<Real> = seq![lower];
    let ghost mut uppers: Seq<Real> = seq![upper];
    let ghost mut middles: Seq<Real> = Seq::empty();
    let ghost mut values: Seq<Real> = Seq::empty();
    let mut step: usize = 0;
    while step < 80
        invariant
            step <= 80,
            proper(p),
            middles.len() == step,
            lower == lowers.last(),
            upper == uppers.last(),
            halved(lowers, uppers, middles, values, p, first, mu, *numbers),
            numbers.ready(),
        decreases 80 - step,
    {
        let mid = numbers.center(lower, upper);
        let value = numbers.distribution(mu, mid);
        let ghost old_lowers = lowers;
        let ghost old_uppers = uppers;
        let ghost old_middles = middles;
        let ghost old_values = values;
        if p.at_most(value) {
            upper = mid;
        } else {
            lower = mid;
        }
        proof {
            lowers = lowers.push(lower);
            uppers = uppers.push(upper);
            middles = middles.push(mid);
            values = values.push(value);
            assert forall|k: int| 0 <= k < middles.len() implies numbers.centers(
                lowers[k], uppers[k],
                #[trigger] middles[k],
            ) && numbers.distributes(mu, middles[k], values[k]) && (if p.le(values[k]) {
                uppers[k + 1] == middles[k] && lowers[k + 1] == lowers[k]
            } else {
                lowers[k + 1] == middles[k] && uppers[k + 1] == uppers[k]
            }) by {
                if k < old_middles.len() {
                    assert(middles[k] == old_middles[k]);
                    assert(values[k] == old_values[k]);
                    assert(lowers[k] == old_lowers[k]);
                    assert(uppers[k] == old_uppers[k]);
                    assert(lowers[k + 1] == old_lowers[k + 1]);
                    assert(uppers[k + 1] == old_uppers[k + 1]);
                }
            }
        }
        step = step + 1;
    }
    let ghost run = QuantileRun { ends, reached, lowers, uppers, middles, values };
    let found = upper;
    assert(run.explains(p, mu, *numbers, found));
    assert(is_quantile(p, mu, *numbers, found));
    Ok(found)
}

/// What a half length rested on.
pub struct HalfRun {
    /// Probability that the interval covers.
    pub p: Real,
    /// The bias in units of the standard deviation.
    pub ratio: Real,
    /// Quantile of the absolute value.
    pub quantile: Result<Real, HonestError>,
}

impl HalfRun {
    /// Whether `half` is the half length at a bias and a standard deviation: the
    /// bias itself where the standard deviation is negligible, else the quantile
    /// at the bias in units of the standard deviation, or its error, scaled back.
    pub open spec fn explains<I: IntervalArithmetic>(
        self,
        alpha: Real,
        max_bias: Real,
        h: Real,
        numbers: I,
        half: Result<Real, HonestError>,
    ) -> bool {
        if h.le(Real { bits: ZERO_SPREAD_BITS }) {
            half == Ok::<Real, HonestError>(max_bias.abs_spec())
        } else {
            &&& numbers.complements(alpha, self.p)
            &&& numbers.relates(max_bias, h, self.ratio)
            &&& if proper(self.p) {
                &&& self.quantile is Ok
                &&& is_quantile(self.p, self.ratio.abs_spec(), numbers, self.quantile->Ok_0)
                &&& half is Ok
                &&& numbers.scales(self.quantile->Ok_0, h, half->Ok_0)
            } else {
                half == Err::<Real, HonestError>(HonestError::FoldedProbability { p: self.p })
            }
        }
    }
}

/// Whether `half` is the half length at a bias and a standard deviation.
pub open spec fn half_by<I: IntervalArithmetic>(
    alpha: Real,
    max_bias: Real,
    h: Real,
    numbers: I,
    half: Result<Real, HonestError>,
) -> bool {
    exists|run: HalfRun| #[trigger] run.explains(alpha, max_bias, h, numbers, half)
}

/// Half the length of an interval around a biased estimator.
pub fn half_length_for_bias<I: IntervalArithmetic>(
    alpha: Real,
    max_bias: Real,
    h: Real,
    numbers: &I,
) -> (half: Result<Real, HonestError>)
    requires
        numbers.ready(),
    ensures
        half_by(alpha, max_bias, h, *numbers, half),
{
    let ghost mut run: HalfRun = arbitrary();
    if h.at_most(Real { bits: ZERO_SPREAD_BITS }) {
        let half = Ok(max_bias.abs());
        assert(run.explains(alpha, max_bias, h, *numbers, half));
        return half;
    }
    let p = numbers.complement(alpha);
    let ratio = numbers.ratio(max_bias, h);
    let quantile = folded_normal_quantile(p, ratio.abs(), numbers);
    proof {
        run.p = p;
        run.ratio = ratio;
        run.quantile = quantile;
    }
    let half = match quantile {
        Err(error) => Err(error),
        Ok(found) => Ok(numbers.scale(found, h)),
    };
    assert(run.explains(alpha, max_bias, h, *numbers, half));
    half
}

// ---------------------------------------------------------------------------
// The shortest interval
// ---------------------------------------------------------------------------

/// One standard deviation of the grid.
pub struct GridRun {
    /// The standard deviation.
    pub h: Real,
    /// The smallest worst-case bias there.
    pub bias: Result<Option<SmoothnessBiasAtH>, HonestError>,
    /// How the bias was found.
    pub program: ProgramRun,
    /// The bias at the bound of the restriction.
    pub max_bias: Real,
    /// Half the length of the interval.
    pub half: Result<Real, HonestError>,
}

impl GridRun {
    /// Whether the grid point `idx` of `points` was tried like this.
    pub open spec fn explains<A: StudyArithmetic>(
        self,
        problem: SmoothnessFlciProblem,
        alpha: Real,
        lower: Real,
        upper: Real,
        points: usize,
        idx: usize,
        numbers: A,
    ) -> bool {
        &&& if idx + 1 == points {
            self.h == upper
        } else {
            numbers.framer().steps(lower, upper, points, idx, self.h)
        }
        &&& self.program.explains_bias(
            problem.input,
            problem.post_weights,
            self.h,
            numbers,
            self.bias,
        )
        &&& self.bias matches Ok(Some(found)) ==> {
            &&& found.optimal_l_pre.len() == problem.input.pre_periods@.len()
            &&& numbers.framer().scales(problem.m, found.value_at_m_one, self.max_bias)
            &&& half_by(alpha, self.max_bias, self.h, numbers.framer(), self.half)
        }
    }

    /// The error of this grid point, if any.
    pub open spec fn error(self) -> Option<HonestError> {
        match self.bias {
            Err(error) => Some(error),
            Ok(None) => None,
            Ok(Some(_)) => match self.half {
                Err(error) => Some(error),
                Ok(_) => None,
            },
        }
    }
}

/// The shortest of the first `end` intervals, the first among equals.
pub open spec fn shortest(runs: Seq<GridRun>, end: int) -> Option<int>
    decreases end,
{
    if end <= 0 {
        None
    } else {
        let best = shortest(runs, end - 1);
        if runs[end - 1].bias == Ok::<Option<SmoothnessBiasAtH>, HonestError>(None) {
            best
        } else {
            match best {
                Some(k) => if runs[k].half->Ok_0.le(runs[end - 1].half->Ok_0) {
                    best
                } else {
                    Some(end - 1)
                },
                None => Some(end - 1),
            }
        }
    }
}

/// What the shortest interval rested on.
pub struct OptimalRun {
    /// The lowest standard deviation.
    pub lowest: Result<Option<(Real, Vec<Real>)>, HonestError>,
    /// How it was found.
    pub lowest_run: ProgramRun,
    /// The least biased estimator.
    pub least_biased: (Real, Vec<Real>),
    /// The weighted sum in it.
    pub weighted_sum: Real,
    /// Its weights.
    pub least_estimator: Vec<Real>,
    /// Error probability of the interval.
    pub alpha: Real,
    /// The grid points that were tried.
    pub runs: Seq<GridRun>,
    /// Half length of the least biased interval.
    pub last_half: Result<Real, HonestError>,
}

impl OptimalRun {
    /// The lower end of the grid.
    pub open spec fn lower(self) -> Real {
        self.lowest->Ok_0->Some_0.0.max_spec(Real::zero_spec())
    }

    /// The upper end of the grid.
    pub open spec fn upper(self) -> Real {
        self.least_biased.0.max_spec(self.lower())
    }

    /// Whether the grid was tried like this, up to its end or to the first
    /// error.
    pub open spec fn tried<A: StudyArithmetic>(
        self,
        problem: SmoothnessFlciProblem,
        alpha: Real,
        points: usize,
        numbers: A,
    ) -> bool {
        &&& self.runs.len() <= points
        &&& forall|i: int|
            0 <= i < self.runs.len() ==> (#[trigger] self.runs[i]).explains(
                problem,
                alpha,
                self.lower(),
                self.upper(),
                points,
                i as usize,
                numbers,
            )
        &&& forall|i: int|
            0 <= i < self.runs.len() - 1 ==> (#[trigger] self.runs[i]).error() is None
        &&& self.runs.len() < points ==> self.runs.len() > 0 && self.runs.last().error() is Some
    }

    /// Whether `found` are the weights and the half length of the shortest
    /// interval: an error, nothing where no estimator is feasible, the first
    /// shortest interval of the grid, or the least biased one where the grid
    /// has none.
    pub open spec fn explains<A: StudyArithmetic>(
        self,
        problem: SmoothnessFlciProblem,
        config: SmoothnessFlciConfig,
        numbers: A,
        found: Result<Option<(Vec<Real>, Real)>, HonestError>,
    ) -> bool {
        let points = grid_size(config);
        let post_weights = problem.post_weights@;
        &&& self.lowest_run.explains_lowest(
            problem.input,
            problem.post_weights,
            numbers,
            self.lowest,
        )
        &&& match self.lowest {
            Err(error) => found == Err::<Option<(Vec<Real>, Real)>, HonestError>(error),
            Ok(None) => found == Ok::<Option<(Vec<Real>, Real)>, HonestError>(None),
            Ok(Some(_)) => {
                &&& least_biased(
                    self.weighted_sum,
                    self.least_estimator,
                    problem.input,
                    problem.post_weights,
                    numbers,
                    self.least_biased,
                )
                &&& numbers.framer().complements(
                    problem.inference.confidence_level,
                    self.alpha,
                )
                &&& self.tried(problem, self.alpha, points, numbers)
                &&& if self.runs.len() > 0 && self.runs.last().error() is Some {
                    found == Err::<Option<(Vec<Real>, Real)>, HonestError>(
                        self.runs.last().error()->Some_0,
                    )
                } else {
                    match shortest(self.runs, self.runs.len() as int) {
                        Some(k) => found matches Ok(Some(best)) && best.0@
                            == self.runs[k].bias->Ok_0->Some_0.optimal_l_pre@ + post_weights
                            && best.1 == self.runs[k].half->Ok_0,
                        None => {
                            &&& half_by(
                                self.alpha,
                                Real::zero_spec(),
                                self.least_biased.0,
                                numbers.framer(),
                                self.last_half,
                            )
                            &&& match self.last_half {
                                Err(error) => found == Err::<
                                    Option<(Vec<Real>, Real)>,
                                    HonestError,
                                >(error),
                                Ok(half) => found matches Ok(Some(best)) && estimator_of(
                                    self.least_biased.1@,
                                    post_weights,
                                    numbers.framer(),
                                    best.0@,
                                ) && best.1 == half,
                            }
                        },
                    }
                }
            },
        }
    }
}

/// The number of standard deviations that are tried: two at least.
pub open spec fn grid_size(config: SmoothnessFlciConfig) -> usize {
    if config.num_grid_points < 2 {
        2
    } else {
        config.num_grid_points
    }
}

fn try_spread<A: StudyArithmetic>(
    problem: &SmoothnessFlciProblem,
    alpha: Real,
    lower: Real,
    upper: Real,
    points: usize,
    idx: usize,
    numbers: &A,
) -> (out: (Result<Option<(SmoothnessBiasAtH, Real)>, HonestError>, Ghost<GridRun>))
    requires
        fits(problem.input, problem.post_weights@),
        idx < points,
        numbers.ready(),
    ensures
        out.1@.explains(*problem, alpha, lower, upper, points, idx, *numbers),
        match out.0 {
            Err(error) => out.1@.error() == Some(error),
            Ok(None) => out.1@.bias == Ok::<Option<SmoothnessBiasAtH>, HonestError>(None),
            Ok(Some(found)) => {
                &&& out.1@.bias == Ok::<Option<SmoothnessBiasAtH>, HonestError>(Some(found.0))
                &&& out.1@.half == Ok::<Real, HonestError>(found.1)
            },
        },
{
    let ghost mut run: GridRun = arbitrary();
    let h = if idx + 1 == points {
        upper
    } else {
        numbers.intervals().step(lower, upper, points, idx)
    };
    let bias = find_worst_case_bias_given_h(&problem.input, &problem.post_weights, h, numbers);
    proof {
        run.h = h;
        run.bias = bias;
        run.program = choose|inner: ProgramRun| #[trigger]
            inner.explains_bias(problem.input, problem.post_weights, h, *numbers, bias);
    }
    match bias {
        Err(error) => (Err(error), Ghost(run)),
        Ok(None) => (Ok(None), Ghost(run)),
        Ok(Some(found)) => {
            let max_bias = numbers.intervals().scale(problem.m, found.value_at_m_one);
            let half = half_length_for_bias(alpha, max_bias, h, numbers.intervals());
            proof {
                run.max_bias = max_bias;
                run.half = half;
            }
            match half {
                Err(error) => (Err(error), Ghost(run)),
                Ok(length) => (Ok(Some((found, length))), Ghost(run)),
            }
        },
    }
}

proof fn shortest_of_prefix(runs: Seq<GridRun>, longer: Seq<GridRun>, end: int)
    requires
        end <= runs.len() <= longer.len(),
        forall|i: int| 0 <= i < runs.len() ==> longer[i] == runs[i],
    ensures
        shortest(runs, end) == shortest(longer, end),
        shortest(runs, end) matches Some(k) ==> 0 <= k < end && runs[k].bias != Ok::<
            Option<SmoothnessBiasAtH>,
            HonestError,
        >(None),
    decreases end,
{
    if end > 0 {
        shortest_of_prefix(runs, longer, end - 1);
    }
}

fn shortest_on_grid<A: StudyArithmetic>(
    start: Ghost<OptimalRun>,
    problem: &SmoothnessFlciProblem,
    alpha: Real,
    lower: Real,
    upper: Real,
    points: usize,
    numbers: &A,
) -> (out: (Result<Option<(SmoothnessBiasAtH, Real)>, HonestError>, Ghost<OptimalRun>))
    requires
        fits(problem.input, problem.post_weights@),
        points > 0,
        numbers.ready(),
        lower == start@.lower(),
        upper == start@.upper(),
    ensures
        out.1@ == (OptimalRun { runs: out.1@.runs, ..start@ }),
        out.1@.tried(*problem, alpha, points, *numbers),
        match out.0 {
            Err(error) => out.1@.runs.len() > 0 && out.1@.runs.last().error() == Some(error),
            Ok(best) => {
                &&& out.1@.runs.len() > 0 && out.1@.runs.last().error() is None
                &&& match shortest(out.1@.runs, out.1@.runs.len() as int) {
                    None => best is None,
                    Some(k) => best matches Some(found) && out.1@.runs[k].bias == Ok::<
                        Option<SmoothnessBiasAtH>,
                        HonestError,
                    >(Some(found.0)) && out.1@.runs[k].half == Ok::<Real, HonestError>(found.1),
                }
            },
        },
{
    let ghost mut run: OptimalRun = start@;
    proof {
        run.runs = Seq::empty();
    }
    let mut best: Option<(SmoothnessBiasAtH, Real)> = None;
    let mut idx: usize = 0;
    while idx < points
        invariant
            idx <= points,
            fits(problem.input, problem.post_weights@),
            numbers.ready(),
            lower == start@.lower(),
            upper == start@.upper(),
            run == (OptimalRun { runs: run.runs, ..start@ }),
            run.runs.len() == idx,
            forall|i: int|
                0 <= i < idx ==> (#[trigger] run.runs[i]).explains(
                    *problem,
                    alpha,
                    lower,
                    upper,
                    points,
                    i as usize,
                    *numbers,
                ),
            forall|i: int| 0 <= i < idx ==> (#[trigger] run.runs[i]).error() is None,
            match shortest(run.runs, idx as int) {
                None => best is None,
                Some(k) => best matches Some(found) && run.runs[k].bias == Ok::<
                    Option<SmoothnessBiasAtH>,
                    HonestError,
                >(Some(found.0)) && run.runs[k].half == Ok::<Real, HonestError>(found.1),
            },
        decreases points - idx,
    {
        let (tried, Ghost(point)) = try_spread(problem, alpha, lower, upper, points, idx, numbers);
        let ghost before = run.runs;
        proof {
            run.runs = before.push(point);
            shortest_of_prefix(before, run.runs, idx as int);
            assert forall|i: int| 0 <= i < run.runs.len() implies (
            #[trigger] run.runs[i]).explains(
                *problem,
                alpha,
                lower,
                upper,
                points,
                i as usize,
                *numbers,
            ) by {
                if i < idx {
                    assert(run.runs[i] == before[i]);
                }
            }
            assert forall|i: int| 0 <= i < run.runs.len() - 1 implies (
            #[trigger] run.runs[i]).error() is None by {
                assert(run.runs[i] == before[i]);
            }
        }
        match tried {
            Err(error) => {
                return (Err(error), Ghost(run));
            },
            Ok(None) => {},
            Ok(Some(candidate)) => {
                let keep = match &best {
                    Some(held) => held.1.at_most(candidate.1),
                    None => false,
                };
                if !keep {
                    best = Some(candidate);
                }
            },
        }
        idx = idx + 1;
    }
    (Ok(best), Ghost(run))
}

/// The weights of all periods and the half length of the shortest interval.
pub fn find_optimal_flci<A: StudyArithmetic>(
    problem: &SmoothnessFlciProblem,
    config: SmoothnessFlciConfig,
    numbers: &A,
) -> (found: Result<Option<(Vec<Real>, Real)>, HonestError>)
    requires
        fits(problem.input, problem.post_weights@),
        numbers.ready(),
    ensures
        exists|run: OptimalRun| #[trigger]
            run.explains(*problem, config, *numbers, found),
{
    let ghost mut run: OptimalRun = arbitrary();
    let lowest = find_lowest_h(&problem.input, &problem.post_weights, numbers);
    proof {
        run.lowest = lowest;
        run.lowest_run = choose|inner: ProgramRun| #[trigger]
            inner.explains_lowest(problem.input, problem.post_weights, *numbers, lowest);
    }
    let (h_min, _w) = match lowest {
        Err(error) => {
            assert(run.explains(*problem, config, *numbers, Err(error)));
            return Err(error);
        },
        Ok(None) => {
            assert(run.explains(*problem, config, *numbers, Ok(None)));
            return Ok(None);
        },
        Ok(Some(pair)) => pair,
    };
    let least = find_h_for_minimum_bias(&problem.input, &problem.post_weights, numbers);
    proof {
        let (weighted_sum, estimator) = choose|weighted_sum: Real, estimator: Vec<Real>| #[trigger]
            least_biased(
                weighted_sum,
                estimator,
                problem.input,
                problem.post_weights,
                *numbers,
                least,
            );
        run.least_biased = least;
        run.weighted_sum = weighted_sum;
        run.least_estimator = estimator;
    }
    let alpha = numbers.intervals().complement(problem.inference.confidence_level);
    proof {
        run.alpha = alpha;
    }
    let lower = h_min.max(Real::zero());
    let upper = least.0.max(lower);
    let points: usize = if config.num_grid_points < 2 {
        2
    } else {
        config.num_grid_points
    };
    let (searched, Ghost(done)) = shortest_on_grid(
        Ghost(run),
        problem,
        alpha,
        lower,
        upper,
        points,
        numbers,
    );
    let best = match searched {
        Err(error) => {
            assert(done.explains(*problem, config, *numbers, Err(error)));
            return Err(error);
        },
        Ok(best) => best,
    };
    match best {
        Some((bias, half)) => {
            let mut estimator = bias.optimal_l_pre;
            append_weights(&mut estimator, problem.post_weights.as_slice());
            let found = (estimator, half);
            assert(done.explains(
                *problem,
                config,
                *numbers,
                Ok(Some(found)),
            ));
            Ok(Some(found))
        },
        None => {
            let estimator = full_estimator_vec(
                least.1.as_slice(),
                problem.post_weights.as_slice(),
                numbers.intervals(),
            );
            let half = half_length_for_bias(
                alpha,
                Real::zero(),
                least.0,
                numbers.intervals(),
            );
            let ghost finished = OptimalRun { last_half: half, ..done };
            match half {
                Err(error) => {
                    assert(finished.explains(
                        *problem,
                        config,
                        *numbers,
                        Err(error),
                    ));
                    Err(error)
                },
                Ok(length) => {
                    let found = (estimator, length);
                    assert(finished.explains(
                        *problem,
                        config,
                        *numbers,
                        Ok(Some(found)),
                    ));
                    Ok(Some(found))
                },
            }
        },
    }
}

/// No interval of the grid is shorter than the one that is chosen, where all
/// half lengths are numbers.
pub proof fn no_shorter_interval_on_the_grid(runs: Seq<GridRun>, end: int, i: int)
    requires
        0 <= i < end <= runs.len(),
        forall|k: int| 0 <= k < end ==> (#[trigger] runs[k]).error() is None,
        forall|k: int|
            0 <= k < end && !((#[trigger] runs[k]).bias->Ok_0 is None) ==> !runs[k].half->Ok_0.nan(),
        runs[i].bias->Ok_0 is Some,
    ensures
        shortest(runs, end) is Some,
        runs[shortest(runs, end)->Some_0].half->Ok_0.le(runs[i].half->Ok_0),
    decreases end,
{
    shortest_of_prefix(runs, runs, end - 1);
    if i < end - 1 {
        no_shorter_interval_on_the_grid(runs, end - 1, i);
    }
    assert(runs[i].error() is None);
    assert(runs[end - 1].error() is None);
    if shortest(runs, end - 1) is Some {
        assert(runs[shortest(runs, end - 1)->Some_0].error() is None);
    }
}

// ---------------------------------------------------------------------------
// The interval of a problem
// ---------------------------------------------------------------------------

/// Whether `result` is the fixed-length interval of a problem: an invalid
/// level, everything where the identified set is unbounded, an error of the
/// search, or the interval around the shortest estimator.
pub open spec fn flci_by<A: StudyArithmetic>(
    run: OptimalRun,
    valid_level: bool,
    found: Result<Option<(Vec<Real>, Real)>, HonestError>,
    problem: SmoothnessFlciProblem,
    config: SmoothnessFlciConfig,
    numbers: A,
    result: Result<SmoothnessFlciResult, HonestError>,
) -> bool {
    let num_pre = problem.input.pre_periods@.len() as int;
    let set = problem.identified_set;
    &&& numbers.framer().bounds_level(problem.inference.confidence_level, valid_level)
    &&& if !valid_level {
        result == Err::<SmoothnessFlciResult, HonestError>(
            HonestError::InvalidConfidenceLevel { level: problem.inference.confidence_level },
        )
    } else if !set.bounded() {
        result matches Ok(made) && {
            &&& made.flci == (Real::neg_infinity_spec(), Real::infinity_spec())
            &&& made.original_ci == problem.original.ci
            &&& made.identified_set == (set.lb, set.ub)
            &&& made.optimal_vec@ == cone::zeros(num_pre) + problem.post_weights@
            &&& made.optimal_half_length == Real::infinity_spec()
        }
    } else {
        &&& run.explains(problem, config, numbers, found)
        &&& match found {
            Err(error) => result == Err::<SmoothnessFlciResult, HonestError>(error),
            Ok(None) => result == Err::<SmoothnessFlciResult, HonestError>(
                HonestError::NoFixedLengthInterval,
            ),
            Ok(Some(best)) => result matches Ok(made) && {
                &&& numbers.framer().ends_at(problem.input.betahat, best.0, best.1, made.flci)
                &&& made.original_ci == problem.original.ci
                &&& made.identified_set == (set.lb, set.ub)
                &&& made.optimal_vec == best.0
                &&& made.optimal_half_length == best.1
            },
        }
    }
}

/// The fixed-length interval of a problem.
pub fn compute_smoothness_flci_with_config<A: StudyArithmetic>(
    problem: &SmoothnessFlciProblem,
    config: SmoothnessFlciConfig,
    numbers: &A,
) -> (result: Result<SmoothnessFlciResult, HonestError>)
    requires
        problem.identified_set.bounded() ==> fits(problem.input, problem.post_weights@),
        numbers.ready(),
    ensures
        exists|
            run: OptimalRun,
            valid_level: bool,
            found: Result<Option<(Vec<Real>, Real)>, HonestError>,
        | #[trigger]
            flci_by(run, valid_level, found, *problem, config, *numbers, result),
        result matches Ok(made) ==> problem.identified_set.bounded() ==> has_estimator(
            *problem,
            *numbers,
            made,
        ),
{
    let ghost no_run: OptimalRun = arbitrary();
    let ghost nothing: Result<Option<(Vec<Real>, Real)>, HonestError> = arbitrary();
    let set = problem.identified_set;
    let valid_level = numbers.intervals().is_level(problem.inference.confidence_level);
    if !valid_level {
        let error = HonestError::InvalidConfidenceLevel {
            level: problem.inference.confidence_level,
        };
        assert(flci_by(no_run, valid_level, nothing, *problem, config, *numbers, Err(error)));
        return Err(error);
    }
    if !set.is_bounded() {
        let mut optimal_vec = filled_row(problem.input.num_pre_periods(), Real::zero());
        append_weights(&mut optimal_vec, problem.post_weights.as_slice());
        let made = SmoothnessFlciResult {
            flci: (Real::neg_infinity(), Real::infinity()),
            original_ci: problem.original.ci,
            identified_set: (set.lb, set.ub),
            optimal_vec,
            optimal_half_length: Real::infinity(),
        };
        assert(flci_by(no_run, valid_level, nothing, *problem, config, *numbers, Ok(made)));
        return Ok(made);
    }
    let found = find_optimal_flci(problem, config, numbers);
    let ghost asked = found;
    let ghost run = choose|run: OptimalRun| #[trigger]
        run.explains(*problem, config, *numbers, found);
    let result = match found {
        Err(error) => Err(error),
        Ok(None) => Err(HonestError::NoFixedLengthInterval),
        Ok(Some((optimal_vec, optimal_half_length))) => {
            let flci = numbers.intervals().ends(
                &problem.input.betahat,
                &optimal_vec,
                optimal_half_length,
            );
            Ok(
                SmoothnessFlciResult {
                    flci,
                    original_ci: problem.original.ci,
                    identified_set: (set.lb, set.ub),
                    optimal_vec,
                    optimal_half_length,
                },
            )
        },
    };
    assert(flci_by(run, valid_level, asked, *problem, config, *numbers, result));
    proof {
        if result is Ok {
            an_interval_allows_for_the_bias_at_its_bound(
                run,
                valid_level,
                asked,
                *problem,
                config,
                *numbers,
                result->Ok_0,
            );
        }
    }
    result
}

/// The fixed-length interval of a problem with the default settings.
pub fn compute_smoothness_flci<A: StudyArithmetic>(
    problem: &SmoothnessFlciProblem,
    numbers: &A,
) -> (result: Result<SmoothnessFlciResult, HonestError>)
    requires
        problem.identified_set.bounded() ==> fits(problem.input, problem.post_weights@),
        numbers.ready(),
    ensures
        exists|
            run: OptimalRun,
            valid_level: bool,
            found: Result<Option<(Vec<Real>, Real)>, HonestError>,
        | #[trigger]
            flci_by(
                run,
                valid_level,
                found,
                *problem,
                SmoothnessFlciConfig::default_spec(),
                *numbers,
                result,
            ),
{
    compute_smoothness_flci_with_config(
        problem,
        SmoothnessFlciConfig::default_for_production(),
        numbers,
    )
}

// ---------------------------------------------------------------------------
// What the length of an interval allows for
// ---------------------------------------------------------------------------

/// Whether an interval of half length `half` around an estimator with a given
/// bias and standard deviation `h` is as long as its level asks: the magnitude of
/// the bias where the standard deviation is negligible, else `h` times the
/// quantile, at one less the error probability, of the magnitude of a normal
/// variable whose mean is the bias over `h`.
pub open spec fn reaches<I: IntervalArithmetic>(
    numbers: I,
    alpha: Real,
    bias: Real,
    h: Real,
    half: Real,
) -> bool {
    if h.le(Real { bits: ZERO_SPREAD_BITS }) {
        half == bias.abs_spec()
    } else {
        exists|p: Real, ratio: Real, quantile: Real|
            numbers.complements(alpha, p) && #[trigger] numbers.relates(bias, h, ratio)
                && #[trigger] is_quantile(p, ratio.abs_spec(), numbers, quantile)
                && #[trigger] numbers.scales(quantile, h, half)
    }
}

/// What an interval with a bounded identified set was made of.
pub struct EstimatorRun {
    /// Error probability.
    pub alpha: Real,
    /// Standard deviation of the estimator.
    pub h: Real,
    /// Its smallest worst-case bias where the bound is one.
    pub unit_bias: Real,
    /// The bias that the length allows for.
    pub allowed: Real,
    /// The bias as it was found.
    pub bias: SmoothnessBiasAtH,
    /// The program that it came from.
    pub program: ProgramRun,
}

impl EstimatorRun {
    /// Whether the length of an interval allows for the bound of the problem times
    /// the worst-case bias at a bound of one, of the estimator that it is around.
    pub open spec fn allows<A: StudyArithmetic>(
        self,
        problem: SmoothnessFlciProblem,
        numbers: A,
        made: SmoothnessFlciResult,
    ) -> bool {
        &&& numbers.framer().complements(problem.inference.confidence_level, self.alpha)
        &&& self.program.explains_bias(
            problem.input,
            problem.post_weights,
            self.h,
            numbers,
            Ok(Some(self.bias)),
        )
        &&& self.unit_bias == self.bias.value_at_m_one
        &&& made.optimal_vec@ == self.bias.optimal_l_pre@ + problem.post_weights@
        &&& numbers.framer().scales(problem.m, self.unit_bias, self.allowed)
        &&& reaches(numbers.framer(), self.alpha, self.allowed, self.h, made.optimal_half_length)
        &&& numbers.framer().ends_at(
            problem.input.betahat,
            made.optimal_vec,
            made.optimal_half_length,
            made.flci,
        )
    }

    /// Whether an interval is the one around the least biased estimator, whose
    /// length allows for no bias.
    pub open spec fn unbiased<A: StudyArithmetic>(
        self,
        problem: SmoothnessFlciProblem,
        numbers: A,
        made: SmoothnessFlciResult,
    ) -> bool {
        &&& numbers.framer().complements(problem.inference.confidence_level, self.alpha)
        &&& exists|weighted_sum: Real, estimator: Vec<Real>, w: Vec<Real>| #[trigger]
            least_biased(
                weighted_sum,
                estimator,
                problem.input,
                problem.post_weights,
                numbers,
                (self.h, w),
            )
        &&& reaches(
            numbers.framer(),
            self.alpha,
            Real::zero_spec(),
            self.h,
            made.optimal_half_length,
        )
        &&& numbers.framer().ends_at(
            problem.input.betahat,
            made.optimal_vec,
            made.optimal_half_length,
            made.flci,
        )
    }
}

/// Whether an interval is around an estimator and as long as its bias asks.
pub open spec fn has_estimator<A: StudyArithmetic>(
    problem: SmoothnessFlciProblem,
    numbers: A,
    made: SmoothnessFlciResult,
) -> bool {
    ||| exists|run: EstimatorRun| #[trigger] run.allows(problem, numbers, made)
    ||| exists|run: EstimatorRun| #[trigger] run.unbiased(problem, numbers, made)
}

proof fn half_lengths_reach<I: IntervalArithmetic>(
    numbers: I,
    alpha: Real,
    bias: Real,
    h: Real,
    half: Real,
)
    requires
        half_by(alpha, bias, h, numbers, Ok(half)),
    ensures
        reaches(numbers, alpha, bias, h, half),
{
    let run = choose|run: HalfRun| #[trigger] run.explains(alpha, bias, h, numbers, Ok(half));
    if !h.le(Real { bits: ZERO_SPREAD_BITS }) {
        assert(numbers.relates(bias, h, run.ratio));
        assert(is_quantile(run.p, run.ratio.abs_spec(), numbers, run.quantile->Ok_0));
        assert(numbers.scales(run.quantile->Ok_0, h, half));
    }
}

/// The length of an interval allows for the bias of its estimator at the bound of
/// the problem: the bound times the worst-case bias at a bound of one. Only where
/// no standard deviation of the grid is feasible is the interval around the least
/// biased estimator, for which it allows for none.
pub proof fn an_interval_allows_for_the_bias_at_its_bound<A: StudyArithmetic>(
    run: OptimalRun,
    valid_level: bool,
    found: Result<Option<(Vec<Real>, Real)>, HonestError>,
    problem: SmoothnessFlciProblem,
    config: SmoothnessFlciConfig,
    numbers: A,
    made: SmoothnessFlciResult,
)
    requires
        flci_by(run, valid_level, found, problem, config, numbers, Ok(made)),
        problem.identified_set.bounded(),
    ensures
        has_estimator(problem, numbers, made),
{
    let best = found->Ok_0->Some_0;
    let end = run.runs.len() as int;
    shortest_of_prefix(run.runs, run.runs, end);
    match shortest(run.runs, end) {
        Some(k) => {
            let point = run.runs[k];
            assert(point.explains(
                problem,
                run.alpha,
                run.lower(),
                run.upper(),
                grid_size(config),
                k as usize,
                numbers,
            ));
            assert(point.error() is None) by {
                if k < end - 1 {
                    assert(run.runs[k].error() is None);
                }
            }
            let bias = point.bias->Ok_0->Some_0;
            half_lengths_reach(
                numbers.framer(),
                run.alpha,
                point.max_bias,
                point.h,
                point.half->Ok_0,
            );
            let made_of = EstimatorRun {
                alpha: run.alpha,
                h: point.h,
                unit_bias: bias.value_at_m_one,
                allowed: point.max_bias,
                bias,
                program: point.program,
            };
            assert(made_of.allows(problem, numbers, made));
        },
        None => {
            half_lengths_reach(
                numbers.framer(),
                run.alpha,
                Real::zero_spec(),
                run.least_biased.0,
                run.last_half->Ok_0,
            );
            let made_of = EstimatorRun {
                alpha: run.alpha,
                h: run.least_biased.0,
                unit_bias: Real::zero_spec(),
                allowed: Real::zero_spec(),
                bias: arbitrary(),
                program: arbitrary(),
            };
            assert(least_biased(
                run.weighted_sum,
                run.least_estimator,
                problem.input,
                problem.post_weights,
                numbers,
                (made_of.h, run.least_biased.1),
            ));
            assert(made_of.unbiased(problem, numbers, made));
        },
    }
}

/// Where violations lie on a straight line, so that the bound is zero, an interval
/// is as long as that of an unbiased estimator with its standard deviation.
pub proof fn straight_violations_bias_no_interval<A: StudyArithmetic>(
    problem: SmoothnessFlciProblem,
    numbers: A,
    made: SmoothnessFlciResult,
)
    requires
        has_estimator(problem, numbers, made),
        forall|value: Real, product: Real| #[trigger]
            numbers.framer().scales(problem.m, value, product) ==> product == Real::zero_spec(),
    ensures
        exists|alpha: Real, h: Real|
            numbers.framer().complements(problem.inference.confidence_level, alpha)
                && #[trigger] reaches(
                numbers.framer(),
                alpha,
                Real::zero_spec(),
                h,
                made.optimal_half_length,
            ),
{
    if exists|run: EstimatorRun| #[trigger] run.allows(problem, numbers, made) {
        let run = choose|run: EstimatorRun| #[trigger] run.allows(problem, numbers, made);
        assert(run.allowed == Real::zero_spec());
        assert(reaches(
            numbers.framer(),
            run.alpha,
            Real::zero_spec(),
            run.h,
            made.optimal_half_length,
        ));
    } else {
        let run = choose|run: EstimatorRun| #[trigger] run.unbiased(problem, numbers, made);
        assert(reaches(
            numbers.framer(),
            run.alpha,
            Real::zero_spec(),
            run.h,
            made.optimal_half_length,
        ));
    }
}

/// The biases that two intervals allow for are in the ratio of their bounds, where
/// their estimators have the same bias at a bound of one and products are exact
/// under a reading.
pub proof fn allowed_biases_are_in_the_ratio_of_the_bounds<A: StudyArithmetic>(
    one: EstimatorRun,
    two: EstimatorRun,
    problem: SmoothnessFlciProblem,
    other: SmoothnessFlciProblem,
    numbers: A,
    made: SmoothnessFlciResult,
    second: SmoothnessFlciResult,
    read: spec_fn(Real) -> int,
)
    requires
        one.allows(problem, numbers, made),
        two.allows(other, numbers, second),
        one.unit_bias == two.unit_bias,
        forall|factor: Real, value: Real, product: Real| #[trigger]
            numbers.framer().scales(factor, value, product) ==> read(product) == read(factor)
                * read(value),
    ensures
        read(one.allowed) == read(problem.m) * read(one.unit_bias),
        read(one.allowed) * read(other.m) == read(two.allowed) * read(problem.m),
{
    let v = read(one.unit_bias);
    let a = read(problem.m);
    let b = read(other.m);
    assert((a * v) * b == (b * v) * a) by (nonlinear_arith);
}

// ---------------------------------------------------------------------------
// What a quantile is
// ---------------------------------------------------------------------------

proof fn ends_straddle<I: IntervalArithmetic>(
    run: QuantileRun,
    p: Real,
    mu: Real,
    numbers: I,
    k: int,
)
    requires
        raised(run.ends, run.reached, p, mu, numbers),
        halved(
            run.lowers,
            run.uppers,
            run.middles,
            run.values,
            p,
            run.ends.last(),
            mu,
            numbers,
        ),
        0 <= k < run.uppers.len(),
    ensures
        run.uppers[k] == run.ends.last() && limit_spec().lt(run.uppers[k]) || exists|value: Real|
            #[trigger] numbers.distributes(mu, run.uppers[k], value) && p.le(value),
        run.lowers[k] == Real::zero_spec() || exists|value: Real| #[trigger]
            numbers.distributes(mu, run.lowers[k], value) && !p.le(value),
    decreases k,
{
    if k == 0 {
        if run.reached.len() == run.ends.len() {
            let last = run.ends.len() - 1;
            assert(numbers.distributes(mu, run.ends[last], run.reached[last]));
        }
    } else {
        ends_straddle(run, p, mu, numbers, k - 1);
        assert(numbers.centers(run.lowers[k - 1], run.uppers[k - 1], run.middles[k - 1]));
        assert(numbers.distributes(mu, run.middles[k - 1], run.values[k - 1]));
    }
}

/// A quantile is a point at which the distribution has reached the probability,
/// unless it lies beyond the limit of the search.
pub proof fn a_quantile_reaches_the_probability<I: IntervalArithmetic>(
    p: Real,
    mu: Real,
    numbers: I,
    quantile: Real,
)
    requires
        is_quantile(p, mu, numbers, quantile),
    ensures
        limit_spec().lt(quantile) || exists|value: Real| #[trigger]
            numbers.distributes(mu, quantile, value) && p.le(value),
{
    let run = choose|run: QuantileRun| #[trigger] run.explains(p, mu, numbers, quantile);
    ends_straddle(run, p, mu, numbers, run.uppers.len() - 1);
}

// ---------------------------------------------------------------------------
// What an estimator is
// ---------------------------------------------------------------------------

/// The running sums of the pre weights of an estimator are the numbers that it was
/// made from, and its post weights are those of the functional, where differences
/// are exact under a reading.
pub proof fn pre_weights_have_their_running_sums<I: IntervalArithmetic>(
    w: Seq<Real>,
    post_weights: Seq<Real>,
    numbers: I,
    estimator: Seq<Real>,
    read: spec_fn(Real) -> int,
    k: int,
)
    requires
        estimator_of(w, post_weights, numbers, estimator),
        forall|left: Real, right: Real, difference: Real| #[trigger]
            numbers.differs(left, right, difference) ==> read(difference) == read(left) - read(
                right,
            ),
        0 <= k < w.len(),
    ensures
        exact::total(exact::values(read, estimator), k + 1) == read(w[k]),
        estimator.len() == w.len() + post_weights.len(),
        forall|i: int|
            0 <= i < post_weights.len() ==> estimator[w.len() + i] == #[trigger] post_weights[i],
    decreases k,
{
    let pre = estimator.take(w.len() as int);
    assert(pre[k] == estimator[k]);
    if k > 0 {
        pre_weights_have_their_running_sums(w, post_weights, numbers, estimator, read, k - 1);
        assert(numbers.differs(w[k], w[k - 1], pre[k]));
    } else {
        assert(exact::total(exact::values(read, estimator), 0) == 0);
    }
    assert forall|i: int| 0 <= i < post_weights.len() implies estimator[w.len() + i]
        == #[trigger] post_weights[i] by {
        assert(estimator.skip(w.len() as int)[i] == estimator[w.len() + i]);
    }
}

/// The width of the bracket of a quantile halves with each step.
proof fn brackets_halve<I: IntervalArithmetic>(
    run: QuantileRun,
    p: Real,
    mu: Real,
    numbers: I,
    read: spec_fn(Real) -> int,
    k: int,
)
    requires
        halved(
            run.lowers,
            run.uppers,
            run.middles,
            run.values,
            p,
            run.ends.last(),
            mu,
            numbers,
        ),
        read(Real::zero_spec()) == 0,
        forall|low: Real, high: Real, mid: Real| #[trigger]
            numbers.centers(low, high, mid) ==> 2 * read(mid) == read(low) + read(high),
        0 <= k < run.uppers.len(),
    ensures
        pow2(k as nat) * (read(run.uppers[k]) - read(run.lowers[k])) == read(run.ends.last()),
    decreases k,
{
    if k == 0 {
        lemma2_to64();
        let x = read(run.ends.last());
        assert(1 * (x - 0) == x);
    } else {
        brackets_halve(run, p, mu, numbers, read, k - 1);
        assert(numbers.centers(run.lowers[k - 1], run.uppers[k - 1], run.middles[k - 1]));
        lemma_pow2_unfold(k as nat);
        let before = read(run.uppers[k - 1]) - read(run.lowers[k - 1]);
        let after = read(run.uppers[k]) - read(run.lowers[k]);
        assert(2 * after == before);
        let power = pow2((k - 1) as nat) as int;
        assert((2 * power) * after == power * (2 * after)) by (nonlinear_arith);
    }
}

/// A quantile is the upper end of a bracket, narrowed from the range of the search
/// by eighty halvings, whose lower end is zero or a point at which the
/// distribution has not reached the probability.
pub proof fn a_quantile_is_no_larger_than_needed<I: IntervalArithmetic>(
    p: Real,
    mu: Real,
    numbers: I,
    quantile: Real,
    read: spec_fn(Real) -> int,
) -> (bracket: (Real, Real))
    requires
        is_quantile(p, mu, numbers, quantile),
        read(Real::zero_spec()) == 0,
        forall|low: Real, high: Real, mid: Real| #[trigger]
            numbers.centers(low, high, mid) ==> 2 * read(mid) == read(low) + read(high),
    ensures
        bracket.0 == Real::zero_spec() || exists|value: Real| #[trigger]
            numbers.distributes(mu, bracket.0, value) && !p.le(value),
        pow2(80) * (read(quantile) - read(bracket.0)) == read(bracket.1),
        limit_spec().lt(bracket.1) || exists|value: Real| #[trigger]
            numbers.distributes(mu, bracket.1, value) && p.le(value),
{
    let run = choose|run: QuantileRun| #[trigger] run.explains(p, mu, numbers, quantile);
    ends_straddle(run, p, mu, numbers, 80);
    ends_straddle(run, p, mu, numbers, 0);
    brackets_halve(run, p, mu, numbers, read, 80);
    (run.lowers[80], run.ends.last())
}

/// The least biased estimator has no running sum of its running sums before the last
/// pre period, where it has the weighted sum of the post weights: only the bend at the
/// end of the pre periods moves it.
pub proof fn the_least_biased_estimator_weighs_the_last_bend<A: StudyArithmetic>(
    weighted_sum: Real,
    estimator: Vec<Real>,
    input: HonestEventStudyInput,
    post_weights: Vec<Real>,
    numbers: A,
    found: (Real, Vec<Real>),
    read: spec_fn(Real) -> int,
    k: int,
)
    requires
        least_biased(weighted_sum, estimator, input, post_weights, numbers, found),
        exact::faithful(read),
        0 <= k <= input.pre_periods@.len(),
        input.pre_periods@.len() > 0,
    ensures
        found.1@.len() == input.pre_periods@.len(),
        exact::total(exact::values(read, found.1@), k) == (if k == input.pre_periods@.len() {
            read(weighted_sum)
        } else {
            0
        }),
    decreases k,
{
    if k > 0 {
        the_least_biased_estimator_weighs_the_last_bend(
            weighted_sum,
            estimator,
            input,
            post_weights,
            numbers,
            found,
            read,
            k - 1,
        );
    }
}

/// The standard deviations that are tried lie on a grid from the lowest possible to
/// that of the least biased estimator: its ends are these, in order, and the last
/// point is the upper end.
pub proof fn the_tried_spreads_end_at_the_least_biased<A: StudyArithmetic>(
    run: OptimalRun,
    problem: SmoothnessFlciProblem,
    alpha: Real,
    points: usize,
    numbers: A,
    lowest: (Real, Vec<Real>),
)
    requires
        run.tried(problem, alpha, points, numbers),
        run.lowest == Ok::<Option<(Real, Vec<Real>)>, HonestError>(Some(lowest)),
        points > 0,
        run.runs.len() == points,
        !lowest.0.nan(),
        !run.least_biased.0.nan(),
    ensures
        lowest.0.le(run.lower()),
        Real::zero_spec().le(run.lower()),
        run.lower() == lowest.0 || run.lower() == Real::zero_spec(),
        run.lower().le(run.runs.last().h),
        run.least_biased.0.le(run.runs.last().h),
        run.runs.last().h == run.least_biased.0 || run.runs.last().h == run.lower(),
{
    let last = points - 1;
    assert(run.runs[last].explains(
        problem,
        alpha,
        run.lower(),
        run.upper(),
        points,
        last as usize,
        numbers,
    ));
}

} // verus!
