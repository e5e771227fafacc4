//! Reports of regions and intervals.

use crate::matrix::copy_row;
use crate::number::Real;
use crate::text;
use crate::text::{append_decimal, append_signed};
use crate::types;
use crate::types::{
    HonestDirectionalRegion, HonestJointPathMethod, HonestJointPathRegion, HonestMultiFlciResult,
};
use vstd::prelude::*;
use vstd::string::StringExecFns;

verus! {

/// Version of the layout of reports.
pub const HONEST_REPORT_SCHEMA_V1: &'static str = "honestdid_joint_report_v1";

/// What a method is called in reports.
pub open spec fn method_name(method: HonestJointPathMethod) -> &'static str {
    match method {
        HonestJointPathMethod::Bonferroni => "bonferroni",
        HonestJointPathMethod::GaussianSimulated => "gaussian_simulated",
    }
}

/// What a method is called in reports.
pub fn method_label(method: HonestJointPathMethod) -> (label: &'static str)
    ensures
        label == method_name(method),
{
    match method {
        HonestJointPathMethod::Bonferroni => "bonferroni",
        HonestJointPathMethod::GaussianSimulated => "gaussian_simulated",
    }
}

// ---------------------------------------------------------------------------
// Rows
// ---------------------------------------------------------------------------

/// One row of the report of a joint region.
#[derive(Clone, Copy, Debug, PartialEq, Eq)]
pub struct HonestJointPathReportRow {
    /// Version of the layout.
    pub schema_version: &'static str,
    /// Method of calibration.
    pub method: &'static str,
    /// Family-wise confidence level.
    pub confidence_level: Real,
    /// Level of each interval.
    pub pointwise_confidence_level: Real,
    /// Critical value of the largest `|t|`.
    pub calibrated_max_t_critical_value: Real,
    /// Label of the post period.
    pub post_period: i32,
    /// Point estimate.
    pub estimate: Real,
    /// Standard error.
    pub se: Real,
    /// Null value of the assessment.
    pub null_value: Real,
    /// Bound of the restriction.
    pub sensitivity_value: Real,
    /// Lower end under parallel trends.
    pub original_ci_low: Real,
    /// Upper end under parallel trends.
    pub original_ci_high: Real,
    /// Lower end of the identified set.
    pub identified_lb: Real,
    /// Upper end of the identified set.
    pub identified_ub: Real,
    /// Lower end of the robust interval.
    pub robust_ci_low: Real,
    /// Upper end of the robust interval.
    pub robust_ci_high: Real,
    /// Whether the interval excludes the null value.
    pub robustly_significant: bool,
}

/// The report of a joint region.
#[derive(Debug, PartialEq, Eq)]
pub struct HonestJointPathReport {
    /// Version of the layout.
    pub schema_version: &'static str,
    /// Rows in order.
    pub rows: Vec<HonestJointPathReportRow>,
}

/// One row of the report of a directional region.
#[derive(Debug, PartialEq, Eq)]
pub struct HonestDirectionalReportRow {
    /// Version of the layout.
    pub schema_version: &'static str,
    /// Method of calibration.
    pub method: &'static str,
    /// Family-wise confidence level.
    pub confidence_level: Real,
    /// Level of each interval.
    pub pointwise_confidence_level: Real,
    /// Critical value of the largest `|t|`.
    pub calibrated_max_t_critical_value: Real,
    /// Number of directions.
    pub direction_count: usize,
    /// Number of random directions among them.
    pub random_direction_count: usize,
    /// Number of enrichment iterations.
    pub iterations_run: usize,
    /// Whether enrichment converged.
    pub converged: bool,
    /// Place of the functional.
    pub functional_id: usize,
    /// Weights of the post periods.
    pub post_weights: Vec<Real>,
    /// Point estimate.
    pub estimate: Real,
    /// Standard error.
    pub se: Real,
    /// Null value of the assessment.
    pub null_value: Real,
    /// Bound of the restriction.
    pub sensitivity_value: Real,
    /// Lower end under parallel trends.
    pub original_ci_low: Real,
    /// Upper end under parallel trends.
    pub original_ci_high: Real,
    /// Lower end of the identified set.
    pub identified_lb: Real,
    /// Upper end of the identified set.
    pub identified_ub: Real,
    /// Lower end of the robust interval.
    pub robust_ci_low: Real,
    /// Upper end of the robust interval.
    pub robust_ci_high: Real,
    /// Whether the interval excludes the null value.
    pub robustly_significant: bool,
}

/// The report of a directional region.
#[derive(Debug, PartialEq, Eq)]
pub struct HonestDirectionalReport {
    /// Version of the layout.
    pub schema_version: &'static str,
    /// Rows in order.
    pub rows: Vec<HonestDirectionalReportRow>,
}

/// One row of the report of a set of simultaneous intervals.
#[derive(Debug, PartialEq, Eq)]
pub struct HonestMultiFlciReportRow {
    /// Version of the layout.
    pub schema_version: &'static str,
    /// Method of calibration.
    pub method: &'static str,
    /// Family-wise confidence level.
    pub confidence_level: Real,
    /// Level of each interval.
    pub pointwise_confidence_level: Real,
    /// Critical value of the largest `|t|`.
    pub calibrated_max_t_critical_value: Real,
    /// Place of the functional.
    pub functional_id: usize,
    /// Weights of the post periods.
    pub post_weights: Vec<Real>,
    /// Lower end of the simultaneous interval.
    pub interval_low: Real,
    /// Upper end of the simultaneous interval.
    pub interval_high: Real,
    /// Lower end under parallel trends.
    pub original_ci_low: Real,
    /// Upper end under parallel trends.
    pub original_ci_high: Real,
    /// Lower end of the identified set.
    pub identified_lb: Real,
    /// Upper end of the identified set.
    pub identified_ub: Real,
    /// Null value of the assessment.
    pub null_value: Real,
    /// Whether the interval excludes the null value.
    pub robustly_significant: bool,
}

/// The report of a set of simultaneous intervals.
#[derive(Debug, PartialEq, Eq)]
pub struct HonestMultiFlciReport {
    /// Version of the layout.
    pub schema_version: &'static str,
    /// Rows in order.
    pub rows: Vec<HonestMultiFlciReportRow>,
}

/// Whether a row reports point `i` of a joint region.
pub open spec fn is_joint_row(
    region: HonestJointPathRegion,
    i: int,
    row: HonestJointPathReportRow,
) -> bool {
    &&& row.schema_version == HONEST_REPORT_SCHEMA_V1
    &&& row.method == method_name(region.method)
    &&& row.confidence_level == region.confidence_level
    &&& row.pointwise_confidence_level == region.pointwise_confidence_level
    &&& row.calibrated_max_t_critical_value == region.calibrated_max_t_critical_value
    &&& row.post_period == region.points@[i].post_period
    &&& row.estimate == region.points@[i].assessment.estimate
    &&& row.se == region.points@[i].assessment.se
    &&& row.null_value == region.points@[i].assessment.null_value
    &&& row.sensitivity_value == region.points@[i].assessment.sensitivity_value
    &&& row.original_ci_low == region.points@[i].assessment.original_ci.0
    &&& row.original_ci_high == region.points@[i].assessment.original_ci.1
    &&& row.identified_lb == region.points@[i].assessment.identified_set.0
    &&& row.identified_ub == region.points@[i].assessment.identified_set.1
    &&& row.robust_ci_low == region.points@[i].assessment.robust_ci.0
    &&& row.robust_ci_high == region.points@[i].assessment.robust_ci.1
    &&& row.robustly_significant == region.points@[i].assessment.robustly_significant
}

/// The rows of the report of a joint region, one per point.
pub fn build_honest_joint_path_report_rows(
    region: &HonestJointPathRegion,
) -> (rows: Vec<HonestJointPathReportRow>)
    ensures
        rows@.len() == region.points@.len(),
        forall|i: int|
            0 <= i < rows@.len() ==> is_joint_row(*region, i, #[trigger] rows@[i]),
{
    let mut rows: Vec<HonestJointPathReportRow> = Vec::new();
    while rows.len() < region.points.len()
        invariant
            rows.len() <= region.points.len(),
            forall|i: int|
                0 <= i < rows@.len() ==> is_joint_row(*region, i, #[trigger] rows@[i]),
        decreases region.points.len() - rows.len(),
    {
        let i: usize = rows.len();
        let point = &region.points[i];
        rows.push(
            HonestJointPathReportRow {
                schema_version: HONEST_REPORT_SCHEMA_V1,
                method: method_label(region.method),
                confidence_level: region.confidence_level,
                pointwise_confidence_level: region.pointwise_confidence_level,
                calibrated_max_t_critical_value: region.calibrated_max_t_critical_value,
                post_period: point.post_period,
                estimate: point.assessment.estimate,
                se: point.assessment.se,
                null_value: point.assessment.null_value,
                sensitivity_value: point.assessment.sensitivity_value,
                original_ci_low: point.assessment.original_ci.0,
                original_ci_high: point.assessment.original_ci.1,
                identified_lb: point.assessment.identified_set.0,
                identified_ub: point.assessment.identified_set.1,
                robust_ci_low: point.assessment.robust_ci.0,
                robust_ci_high: point.assessment.robust_ci.1,
                robustly_significant: point.assessment.robustly_significant,
            },
        );
    }
    rows
}

/// Whether a row reports point `i` of a directional region.
pub open spec fn is_directional_row(
    region: HonestDirectionalRegion,
    i: int,
    row: HonestDirectionalReportRow,
) -> bool {
    &&& row.schema_version == HONEST_REPORT_SCHEMA_V1
    &&& row.method == method_name(region.method)
    &&& row.confidence_level == region.confidence_level
    &&& row.pointwise_confidence_level == region.pointwise_confidence_level
    &&& row.calibrated_max_t_critical_value == region.calibrated_max_t_critical_value
    &&& row.direction_count == region.diagnostics.direction_count
    &&& row.random_direction_count == region.diagnostics.random_direction_count
    &&& row.iterations_run == region.diagnostics.iterations_run
    &&& row.converged == region.diagnostics.converged
    &&& row.functional_id == i
    &&& row.post_weights@ == region.points@[i].post_weights@
    &&& row.estimate == region.points@[i].assessment.estimate
    &&& row.se == region.points@[i].assessment.se
    &&& row.null_value == region.points@[i].assessment.null_value
    &&& row.sensitivity_value == region.points@[i].assessment.sensitivity_value
    &&& row.original_ci_low == region.points@[i].assessment.original_ci.0
    &&& row.original_ci_high == region.points@[i].assessment.original_ci.1
    &&& row.identified_lb == region.points@[i].assessment.identified_set.0
    &&& row.identified_ub == region.points@[i].assessment.identified_set.1
    &&& row.robust_ci_low == region.points@[i].assessment.robust_ci.0
    &&& row.robust_ci_high == region.points@[i].assessment.robust_ci.1
    &&& row.robustly_significant == region.points@[i].assessment.robustly_significant
}

/// The rows of the report of a directional region, one per point.
pub fn build_honest_directional_report_rows(
    region: &HonestDirectionalRegion,
) -> (rows: Vec<HonestDirectionalReportRow>)
    ensures
        rows@.len() == region.points@.len(),
        forall|i: int|
            0 <= i < rows@.len() ==> is_directional_row(*region, i, #[trigger] rows@[i]),
{
    let mut rows: Vec<HonestDirectionalReportRow> = Vec::new();
    while rows.len() < region.points.len()
        invariant
            rows.len() <= region.points.len(),
            forall|i: int|
                0 <= i < rows@.len() ==> is_directional_row(*region, i, #[trigger] rows@[i]),
        decreases region.points.len() - rows.len(),
    {
        let i: usize = rows.len();
        let point = &region.points[i];
        rows.push(
            HonestDirectionalReportRow {
                schema_version: HONEST_REPORT_SCHEMA_V1,
                method: method_label(region.method),
                confidence_level: region.confidence_level,
                pointwise_confidence_level: region.pointwise_confidence_level,
                calibrated_max_t_critical_value: region.calibrated_max_t_critical_value,
                direction_count: region.diagnostics.direction_count,
                random_direction_count: region.diagnostics.random_direction_count,
                iterations_run: region.diagnostics.iterations_run,
                converged: region.diagnostics.converged,
                functional_id: i,
                post_weights: copy_row(point.post_weights.as_slice()),
                estimate: point.assessment.estimate,
                se: point.assessment.se,
                null_value: point.assessment.null_value,
                sensitivity_value: point.assessment.sensitivity_value,
                original_ci_low: point.assessment.original_ci.0,
                original_ci_high: point.assessment.original_ci.1,
                identified_lb: point.assessment.identified_set.0,
                identified_ub: point.assessment.identified_set.1,
                robust_ci_low: point.assessment.robust_ci.0,
                robust_ci_high: point.assessment.robust_ci.1,
                robustly_significant: point.assessment.robustly_significant,
            },
        );
    }
    rows
}

/// Whether a row reports point `i` of a set of simultaneous intervals.
pub open spec fn is_multi_row(
    result: HonestMultiFlciResult,
    i: int,
    row: HonestMultiFlciReportRow,
) -> bool {
    &&& row.schema_version == HONEST_REPORT_SCHEMA_V1
    &&& row.method == method_name(result.method)
    &&& row.confidence_level == result.confidence_level
    &&& row.pointwise_confidence_level == result.pointwise_confidence_level
    &&& row.calibrated_max_t_critical_value == result.calibrated_max_t_critical_value
    &&& row.functional_id == i
    &&& row.post_weights@ == result.points@[i].post_weights@
    &&& row.interval_low == result.points@[i].flci.0
    &&& row.interval_high == result.points@[i].flci.1
    &&& row.original_ci_low == result.points@[i].original_ci.0
    &&& row.original_ci_high == result.points@[i].original_ci.1
    &&& row.identified_lb == result.points@[i].identified_set.0
    &&& row.identified_ub == result.points@[i].identified_set.1
    &&& row.null_value == result.points@[i].null_value
    &&& row.robustly_significant == result.points@[i].robustly_significant
}

/// The rows of the report of a set of simultaneous intervals, one per point.
pub fn build_honest_multi_flci_report_rows(
    result: &HonestMultiFlciResult,
) -> (rows: Vec<HonestMultiFlciReportRow>)
    ensures
        rows@.len() == result.points@.len(),
        forall|i: int|
            0 <= i < rows@.len() ==> is_multi_row(*result, i, #[trigger] rows@[i]),
{
    let mut rows: Vec<HonestMultiFlciReportRow> = Vec::new();
    while rows.len() < result.points.len()
        invariant
            rows.len() <= result.points.len(),
            forall|i: int|
                0 <= i < rows@.len() ==> is_multi_row(*result, i, #[trigger] rows@[i]),
        decreases result.points.len() - rows.len(),
    {
        let i: usize = rows.len();
        let point = &result.points[i];
        rows.push(
            HonestMultiFlciReportRow {
                schema_version: HONEST_REPORT_SCHEMA_V1,
                method: method_label(result.method),
                confidence_level: result.confidence_level,
                pointwise_confidence_level: result.pointwise_confidence_level,
                calibrated_max_t_critical_value: result.calibrated_max_t_critical_value,
                functional_id: i,
                post_weights: copy_row(point.post_weights.as_slice()),
                interval_low: point.flci.0,
                interval_high: point.flci.1,
                original_ci_low: point.original_ci.0,
                original_ci_high: point.original_ci.1,
                identified_lb: point.identified_set.0,
                identified_ub: point.identified_set.1,
                null_value: point.null_value,
                robustly_significant: point.robustly_significant,
            },
        );
    }
    rows
}

// ---------------------------------------------------------------------------
// Lines
// ---------------------------------------------------------------------------

/// A field of a line.
#[derive(Clone, Copy, Debug, PartialEq, Eq)]
pub enum Field {
    /// Fixed words.
    Text(&'static str),
    /// A count.
    Count(usize),
    /// A label.
    Signed(i32),
    /// A flag.
    Flag(bool),
    /// A number, whose decimal form is supplied when the line is made.
    Number(Real),
}

/// Whether `word` is the text of a field.
pub open spec fn is_word<F: Fn(Real) -> String>(show: F, field: Field, word: Seq<char>) -> bool {
    match field {
        Field::Text(words) => word == words@,
        Field::Count(n) => word == text::decimal(n as nat),
        Field::Signed(n) => word == text::signed_decimal(n as int),
        Field::Flag(flag) => word == (if flag {
            "true"@
        } else {
            "false"@
        }),
        Field::Number(value) => is_shown(show, value, word),
    }
}

/// Whether `word` is the decimal form of a number.
pub open spec fn is_shown<F: Fn(Real) -> String>(show: F, value: Real, word: Seq<char>) -> bool {
    exists|shown: String| #[trigger] call_ensures(show, (value,), shown) && shown@ == word
}

/// Words with commas between them.
pub open spec fn joined(words: Seq<Seq<char>>) -> Seq<char>
    decreases words.len(),
{
    if words.len() == 0 {
        Seq::empty()
    } else if words.len() == 1 {
        words[0]
    } else {
        joined(words.drop_last()) + ","@ + words.last()
    }
}

/// Lines with their ends.
pub open spec fn lines_text(lines: Seq<Seq<Seq<char>>>) -> Seq<char>
    decreases lines.len(),
{
    if lines.len() == 0 {
        Seq::empty()
    } else {
        lines_text(lines.drop_last()) + joined(lines.last()) + "\n"@
    }
}

/// Whether words are the texts of fields.
pub open spec fn are_words<F: Fn(Real) -> String>(
    show: F,
    fields: Seq<Field>,
    words: Seq<Seq<char>>,
) -> bool {
    &&& words.len() == fields.len()
    &&& forall|i: int| 0 <= i < words.len() ==> is_word(show, fields[i], #[trigger] words[i])
}

/// Whether a text is a table: a line of column names, then a line per row.
pub open spec fn is_table<F: Fn(Real) -> String>(
    show: F,
    columns: Seq<Seq<char>>,
    rows: Seq<Seq<Field>>,
    lines: Seq<Seq<Seq<char>>>,
    out: Seq<char>,
) -> bool {
    &&& lines.len() == rows.len() + 1
    &&& lines[0] == columns
    &&& forall|i: int| 0 <= i < rows.len() ==> are_words(show, rows[i], #[trigger] lines[i + 1])
    &&& out == lines_text(lines)
}

fn append_word<F: Fn(Real) -> String>(out: &mut String, field: Field, show: &F) -> (word: Ghost<
    Seq<char>,
>)
    requires
        forall|v: Real| #[trigger] call_requires(*show, (v,)),
    ensures
        is_word(*show, field, word@),
        final(out)@ == old(out)@ + word@,
{
    match field {
        Field::Text(words) => {
            out.append(words);
            Ghost(words@)
        },
        Field::Count(n) => {
            append_decimal(out, n as u64);
            Ghost(text::decimal(n as nat))
        },
        Field::Signed(n) => {
            append_signed(out, n as i64);
            Ghost(text::signed_decimal(n as int))
        },
        Field::Flag(flag) => {
            let words = if flag {
                "true"
            } else {
                "false"
            };
            out.append(words);
            Ghost(words@)
        },
        Field::Number(value) => {
            let shown = show(value);
            assert(is_shown(*show, value, shown@));
            out.append(shown.as_str());
            Ghost(shown@)
        },
    }
}

fn append_line<F: Fn(Real) -> String>(out: &mut String, fields: &Vec<Field>, show: &F) -> (words:
    Ghost<Seq<Seq<char>>>)
    requires
        forall|v: Real| #[trigger] call_requires(*show, (v,)),
    ensures
        are_words(*show, fields@, words@),
        final(out)@ == old(out)@ + joined(words@) + "\n"@,
{
    let ghost start = out@;
    let ghost mut words: Seq<Seq<char>> = Seq::empty();
    let mut i: usize = 0;
    assert(start + joined(words) =~= start);
    while i < fields.len()
        invariant
            i <= fields.len(),
            forall|v: Real| #[trigger] call_requires(*show, (v,)),
            words.len() == i,
            forall|k: int| 0 <= k < i ==> is_word(*show, fields@[k], #[trigger] words[k]),
            out@ == start + joined(words),
        decreases fields.len() - i,
    {
        let ghost before = words;
        if i > 0 {
            out.append(",");
        }
        let Ghost(word) = append_word(out, fields[i], show);
        proof {
            words = before.push(word);
            assert(words.drop_last() =~= before);
            if i == 0 {
                assert(joined(before) =~= Seq::empty());
                assert(out@ =~= start + joined(words));
            } else {
                assert(joined(words) == joined(before) + ","@ + word);
                assert(out@ =~= start + joined(words));
            }
        }
        i = i + 1;
    }
    out.append("\n");
    Ghost(words)
}

fn text_fields(columns: &Vec<&'static str>) -> (fields: Vec<Field>)
    ensures
        fields@ == Seq::new(columns@.len(), |i: int| Field::Text(columns@[i])),
{
    let mut fields: Vec<Field> = Vec::new();
    while fields.len() < columns.len()
        invariant
            fields.len() <= columns.len(),
            forall|i: int|
                0 <= i < fields.len() ==> #[trigger] fields@[i] == Field::Text(columns@[i]),
        decreases columns.len() - fields.len(),
    {
        let i: usize = fields.len();
        fields.push(Field::Text(columns[i]));
    }
    assert(fields@ =~= Seq::new(columns@.len(), |i: int| Field::Text(columns@[i])));
    fields
}

/// The texts of column names.
pub open spec fn name_views(columns: Seq<&'static str>) -> Seq<Seq<char>> {
    Seq::new(columns.len(), |i: int| columns[i]@)
}

fn start_table<F: Fn(Real) -> String>(columns: &Vec<&'static str>, show: &F) -> (out: String)
    requires
        forall|v: Real| #[trigger] call_requires(*show, (v,)),
    ensures
        out@ == lines_text(seq![name_views(columns@)]),
{
    let mut out = String::new();
    let fields = text_fields(columns);
    let Ghost(words) = append_line(&mut out, &fields, show);
    proof {
        assert(words =~= name_views(columns@)) by {
            assert forall|i: int| 0 <= i < words.len() implies words[i] == name_views(
                columns@,
            )[i] by {
                assert(is_word(*show, fields@[i], words[i]));
            }
        }
        let lines = seq![name_views(columns@)];
        assert(lines.drop_last() =~= Seq::empty());
        assert(lines_text(lines.drop_last()) =~= Seq::empty());
        assert(out@ =~= lines_text(lines));
    }
    out
}

proof fn line_is_added(lines: Seq<Seq<Seq<char>>>, words: Seq<Seq<char>>)
    ensures
        lines_text(lines.push(words)) == lines_text(lines) + joined(words) + "\n"@,
{
    assert(lines.push(words).drop_last() =~= lines);
}

/// The columns of the report of a joint region.
pub open spec fn joint_columns() -> Seq<&'static str> {
    seq![
        "schema_version",
        "method",
        "confidence_level",
        "pointwise_confidence_level",
        "calibrated_max_t_critical_value",
        "post_period",
        "estimate",
        "se",
        "null_value",
        "sensitivity_value",
        "original_ci_low",
        "original_ci_high",
        "identified_lb",
        "identified_ub",
        "robust_ci_low",
        "robust_ci_high",
        "robustly_significant",
    ]
}

/// The fields of a row of the report of a joint region.
pub open spec fn joint_fields(row: HonestJointPathReportRow) -> Seq<Field> {
    seq![
        Field::Text(row.schema_version),
        Field::Text(row.method),
        Field::Number(row.confidence_level),
        Field::Number(row.pointwise_confidence_level),
        Field::Number(row.calibrated_max_t_critical_value),
        Field::Signed(row.post_period),
        Field::Number(row.estimate),
        Field::Number(row.se),
        Field::Number(row.null_value),
        Field::Number(row.sensitivity_value),
        Field::Number(row.original_ci_low),
        Field::Number(row.original_ci_high),
        Field::Number(row.identified_lb),
        Field::Number(row.identified_ub),
        Field::Number(row.robust_ci_low),
        Field::Number(row.robust_ci_high),
        Field::Flag(row.robustly_significant),
    ]
}

/// The lines of fields of a report.
pub open spec fn joint_lines(rows: Seq<HonestJointPathReportRow>) -> Seq<Seq<Field>> {
    Seq::new(rows.len(), |i: int| joint_fields(rows[i]))
}

/// Whether a text is the table of a joint region.
pub open spec fn is_joint_table<F: Fn(Real) -> String>(
    show: F,
    rows: Seq<HonestJointPathReportRow>,
    lines: Seq<Seq<Seq<char>>>,
    region: HonestJointPathRegion,
    out: Seq<char>,
) -> bool {
    &&& rows.len() == region.points@.len()
    &&& forall|i: int| 0 <= i < rows.len() ==> is_joint_row(region, i, #[trigger] rows[i])
    &&& is_table(show, name_views(joint_columns()), joint_lines(rows), lines, out)
}

/// The table of a joint region: the column names, then a line per point.
pub fn render_honest_joint_path_report_csv<F: Fn(Real) -> String>(
    region: &HonestJointPathRegion,
    show: &F,
) -> (out: String)
    requires
        forall|v: Real| #[trigger] call_requires(*show, (v,)),
    ensures
        exists|rows: Seq<HonestJointPathReportRow>, lines: Seq<Seq<Seq<char>>>| #[trigger]
            is_joint_table(*show, rows, lines, *region, out@),
{
    let rows = build_honest_joint_path_report_rows(region);
    let columns: Vec<&'static str> = vec![
        "schema_version",
        "method",
        "confidence_level",
        "pointwise_confidence_level",
        "calibrated_max_t_critical_value",
        "post_period",
        "estimate",
        "se",
        "null_value",
        "sensitivity_value",
        "original_ci_low",
        "original_ci_high",
        "identified_lb",
        "identified_ub",
        "robust_ci_low",
        "robust_ci_high",
        "robustly_significant",
    ];
    assert(columns@ =~= joint_columns());
    let ghost names = name_views(joint_columns());
    let ghost mut lines: Seq<Seq<Seq<char>>> = seq![names];
    let mut out = start_table(&columns, show);
    let mut i: usize = 0;
    while i < rows.len()
        invariant
            i <= rows.len(),
            forall|v: Real| #[trigger] call_requires(*show, (v,)),
            lines.len() == i + 1,
            lines[0] == names,
            forall|k: int|
                0 <= k < i ==> are_words(
                    *show,
                    joint_lines(rows@)[k],
                    #[trigger] lines[k + 1],
                ),
            out@ == lines_text(lines),
        decreases rows.len() - i,
    {
        let row = &rows[i];
        let fields: Vec<Field> = vec![
            Field::Text(row.schema_version),
            Field::Text(row.method),
            Field::Number(row.confidence_level),
            Field::Number(row.pointwise_confidence_level),
            Field::Number(row.calibrated_max_t_critical_value),
            Field::Signed(row.post_period),
            Field::Number(row.estimate),
            Field::Number(row.se),
            Field::Number(row.null_value),
            Field::Number(row.sensitivity_value),
            Field::Number(row.original_ci_low),
            Field::Number(row.original_ci_high),
            Field::Number(row.identified_lb),
            Field::Number(row.identified_ub),
            Field::Number(row.robust_ci_low),
            Field::Number(row.robust_ci_high),
            Field::Flag(row.robustly_significant),
        ];
        assert(fields@ =~= joint_fields(*row));
        let ghost before = lines;
        let Ghost(words) = append_line(&mut out, &fields, show);
        proof {
            lines = before.push(words);
            line_is_added(before, words);
            assert forall|k: int| 0 <= k <= i implies are_words(
                *show,
                joint_lines(rows@)[k],
                #[trigger] lines[k + 1],
            ) by {
                if k < i {
                    assert(lines[k + 1] == before[k + 1]);
                }
            }
        }
        i = i + 1;
    }
    assert(is_joint_table(*show, rows@, lines, *region, out@));
    out
}

/// The columns of the report of a directional region.
pub open spec fn directional_columns() -> Seq<&'static str> {
    seq![
        "schema_version",
        "method",
        "confidence_level",
        "pointwise_confidence_level",
        "calibrated_max_t_critical_value",
        "direction_count",
        "random_direction_count",
        "iterations_run",
        "converged",
        "functional_id",
        "estimate",
        "se",
        "null_value",
        "sensitivity_value",
        "original_ci_low",
        "original_ci_high",
        "identified_lb",
        "identified_ub",
        "robust_ci_low",
        "robust_ci_high",
        "robustly_significant",
    ]
}

/// The fields of a row of the report of a directional region.
pub open spec fn directional_fields(row: HonestDirectionalReportRow) -> Seq<Field> {
    seq![
        Field::Text(row.schema_version),
        Field::Text(row.method),
        Field::Number(row.confidence_level),
        Field::Number(row.pointwise_confidence_level),
        Field::Number(row.calibrated_max_t_critical_value),
        Field::Count(row.direction_count),
        Field::Count(row.random_direction_count),
        Field::Count(row.iterations_run),
        Field::Flag(row.converged),
        Field::Count(row.functional_id),
        Field::Number(row.estimate),
        Field::Number(row.se),
        Field::Number(row.null_value),
        Field::Number(row.sensitivity_value),
        Field::Number(row.original_ci_low),
        Field::Number(row.original_ci_high),
        Field::Number(row.identified_lb),
        Field::Number(row.identified_ub),
        Field::Number(row.robust_ci_low),
        Field::Number(row.robust_ci_high),
        Field::Flag(row.robustly_significant),
    ]
}

/// The lines of fields of a report.
pub open spec fn directional_lines(rows: Seq<HonestDirectionalReportRow>) -> Seq<Seq<Field>> {
    Seq::new(rows.len(), |i: int| directional_fields(rows[i]))
}

/// Whether a text is the table of a directional region.
pub open spec fn is_directional_table<F: Fn(Real) -> String>(
    show: F,
    rows: Seq<HonestDirectionalReportRow>,
    lines: Seq<Seq<Seq<char>>>,
    region: HonestDirectionalRegion,
    out: Seq<char>,
) -> bool {
    &&& rows.len() == region.points@.len()
    &&& forall|i: int| 0 <= i < rows.len() ==> is_directional_row(region, i, #[trigger] rows[i])
    &&& is_table(show, name_views(directional_columns()), directional_lines(rows), lines, out)
}

/// The table of a directional region: the column names, then a line per point.
pub fn render_honest_directional_report_csv<F: Fn(Real) -> String>(
    region: &HonestDirectionalRegion,
    show: &F,
) -> (out: String)
    requires
        forall|v: Real| #[trigger] call_requires(*show, (v,)),
    ensures
        exists|rows: Seq<HonestDirectionalReportRow>, lines: Seq<Seq<Seq<char>>>| #[trigger]
            is_directional_table(*show, rows, lines, *region, out@),
{
    let rows = build_honest_directional_report_rows(region);
    let columns: Vec<&'static str> = vec![
        "schema_version",
        "method",
        "confidence_level",
        "pointwise_confidence_level",
        "calibrated_max_t_critical_value",
        "direction_count",
        "random_direction_count",
        "iterations_run",
        "converged",
        "functional_id",
        "estimate",
        "se",
        "null_value",
        "sensitivity_value",
        "original_ci_low",
        "original_ci_high",
        "identified_lb",
        "identified_ub",
        "robust_ci_low",
        "robust_ci_high",
        "robustly_significant",
    ];
    assert(columns@ =~= directional_columns());
    let ghost names = name_views(directional_columns());
    let ghost mut lines: Seq<Seq<Seq<char>>> = seq![names];
    let mut out = start_table(&columns, show);
    let mut i: usize = 0;
    while i < rows.len()
        invariant
            i <= rows.len(),
            forall|v: Real| #[trigger] call_requires(*show, (v,)),
            lines.len() == i + 1,
            lines[0] == names,
            forall|k: int|
                0 <= k < i ==> are_words(
                    *show,
                    directional_lines(rows@)[k],
                    #[trigger] lines[k + 1],
                ),
            out@ == lines_text(lines),
        decreases rows.len() - i,
    {
        let row = &rows[i];
        let fields: Vec<Field> = vec![
            Field::Text(row.schema_version),
            Field::Text(row.method),
            Field::Number(row.confidence_level),
            Field::Number(row.pointwise_confidence_level),
            Field::Number(row.calibrated_max_t_critical_value),
            Field::Count(row.direction_count),
            Field::Count(row.random_direction_count),
            Field::Count(row.iterations_run),
            Field::Flag(row.converged),
            Field::Count(row.functional_id),
            Field::Number(row.estimate),
            Field::Number(row.se),
            Field::Number(row.null_value),
            Field::Number(row.sensitivity_value),
            Field::Number(row.original_ci_low),
            Field::Number(row.original_ci_high),
            Field::Number(row.identified_lb),
            Field::Number(row.identified_ub),
            Field::Number(row.robust_ci_low),
            Field::Number(row.robust_ci_high),
            Field::Flag(row.robustly_significant),
        ];
        assert(fields@ =~= directional_fields(*row));
        let ghost before = lines;
        let Ghost(words) = append_line(&mut out, &fields, show);
        proof {
            lines = before.push(words);
            line_is_added(before, words);
            assert forall|k: int| 0 <= k <= i implies are_words(
                *show,
                directional_lines(rows@)[k],
                #[trigger] lines[k + 1],
            ) by {
                if k < i {
                    assert(lines[k + 1] == before[k + 1]);
                }
            }
        }
        i = i + 1;
    }
    assert(is_directional_table(*show, rows@, lines, *region, out@));
    out
}

/// The columns of the report of a set of simultaneous intervals.
pub open spec fn multi_columns() -> Seq<&'static str> {
    seq![
        "schema_version",
        "method",
        "confidence_level",
        "pointwise_confidence_level",
        "calibrated_max_t_critical_value",
        "functional_id",
        "interval_low",
        "interval_high",
        "original_ci_low",
        "original_ci_high",
        "identified_lb",
        "identified_ub",
        "null_value",
        "robustly_significant",
    ]
}

/// The fields of a row of the report of a set of simultaneous intervals.
pub open spec fn multi_fields(row: HonestMultiFlciReportRow) -> Seq<Field> {
    seq![
        Field::Text(row.schema_version),
        Field::Text(row.method),
        Field::Number(row.confidence_level),
        Field::Number(row.pointwise_confidence_level),
        Field::Number(row.calibrated_max_t_critical_value),
        Field::Count(row.functional_id),
        Field::Number(row.interval_low),
        Field::Number(row.interval_high),
        Field::Number(row.original_ci_low),
        Field::Number(row.original_ci_high),
        Field::Number(row.identified_lb),
        Field::Number(row.identified_ub),
        Field::Number(row.null_value),
        Field::Flag(row.robustly_significant),
    ]
}

/// The lines of fields of a report.
pub open spec fn multi_lines(rows: Seq<HonestMultiFlciReportRow>) -> Seq<Seq<Field>> {
    Seq::new(rows.len(), |i: int| multi_fields(rows[i]))
}

/// Whether a text is the table of a set of simultaneous intervals.
pub open spec fn is_multi_table<F: Fn(Real) -> String>(
    show: F,
    rows: Seq<HonestMultiFlciReportRow>,
    lines: Seq<Seq<Seq<char>>>,
    result: HonestMultiFlciResult,
    out: Seq<char>,
) -> bool {
    &&& rows.len() == result.points@.len()
    &&& forall|i: int| 0 <= i < rows.len() ==> is_multi_row(result, i, #[trigger] rows[i])
    &&& is_table(show, name_views(multi_columns()), multi_lines(rows), lines, out)
}

/// The table of a set of simultaneous intervals: the column names, then a line per point.
pub fn render_honest_multi_flci_report_csv<F: Fn(Real) -> String>(
    result: &HonestMultiFlciResult,
    show: &F,
) -> (out: String)
    requires
        forall|v: Real| #[trigger] call_requires(*show, (v,)),
    ensures
        exists|rows: Seq<HonestMultiFlciReportRow>, lines: Seq<Seq<Seq<char>>>| #[trigger]
            is_multi_table(*show, rows, lines, *result, out@),
{
    let rows = build_honest_multi_flci_report_rows(result);
    let columns: Vec<&'static str> = vec![
        "schema_version",
        "method",
        "confidence_level",
        "pointwise_confidence_level",
        "calibrated_max_t_critical_value",
        "functional_id",
        "interval_low",
        "interval_high",
        "original_ci_low",
        "original_ci_high",
        "identified_lb",
        "identified_ub",
        "null_value",
        "robustly_significant",
    ];
    assert(columns@ =~= multi_columns());
    let ghost names = name_views(multi_columns());
    let ghost mut lines: Seq<Seq<Seq<char>>> = seq![names];
    let mut out = start_table(&columns, show);
    let mut i: usize = 0;
    while i < rows.len()
        invariant
            i <= rows.len(),
            forall|v: Real| #[trigger] call_requires(*show, (v,)),
            lines.len() == i + 1,
            lines[0] == names,
            forall|k: int|
                0 <= k < i ==> are_words(
                    *show,
                    multi_lines(rows@)[k],
                    #[trigger] lines[k + 1],
                ),
            out@ == lines_text(lines),
        decreases rows.len() - i,
    {
        let row = &rows[i];
        let fields: Vec<Field> = vec![
            Field::Text(row.schema_version),
            Field::Text(row.method),
            Field::Number(row.confidence_level),
            Field::Number(row.pointwise_confidence_level),
            Field::Number(row.calibrated_max_t_critical_value),
            Field::Count(row.functional_id),
            Field::Number(row.interval_low),
            Field::Number(row.interval_high),
            Field::Number(row.original_ci_low),
            Field::Number(row.original_ci_high),
            Field::Number(row.identified_lb),
            Field::Number(row.identified_ub),
            Field::Number(row.null_value),
            Field::Flag(row.robustly_significant),
        ];
        assert(fields@ =~= multi_fields(*row));
        let ghost before = lines;
        let Ghost(words) = append_line(&mut out, &fields, show);
        proof {
            lines = before.push(words);
            line_is_added(before, words);
            assert forall|k: int| 0 <= k <= i implies are_words(
                *show,
                multi_lines(rows@)[k],
                #[trigger] lines[k + 1],
            ) by {
                if k < i {
                    assert(lines[k + 1] == before[k + 1]);
                }
            }
        }
        i = i + 1;
    }
    assert(is_multi_table(*show, rows@, lines, *result, out@));
    out
}

/// The report of a joint region.
pub fn joint_path_report(region: &HonestJointPathRegion) -> (report: HonestJointPathReport)
    ensures
        report.schema_version == HONEST_REPORT_SCHEMA_V1,
        report.rows@.len() == region.points@.len(),
        forall|i: int|
            0 <= i < report.rows@.len() ==> is_joint_row(
                *region,
                i,
                #[trigger] report.rows@[i],
            ),
{
    HonestJointPathReport {
        schema_version: HONEST_REPORT_SCHEMA_V1,
        rows: build_honest_joint_path_report_rows(region),
    }
}

/// The report of a directional region.
pub fn directional_report(region: &HonestDirectionalRegion) -> (report: HonestDirectionalReport)
    ensures
        report.schema_version == HONEST_REPORT_SCHEMA_V1,
        report.rows@.len() == region.points@.len(),
        forall|i: int|
            0 <= i < report.rows@.len() ==> is_directional_row(
                *region,
                i,
                #[trigger] report.rows@[i],
            ),
{
    HonestDirectionalReport {
        schema_version: HONEST_REPORT_SCHEMA_V1,
        rows: build_honest_directional_report_rows(region),
    }
}

/// The report of a set of simultaneous intervals.
pub fn multi_flci_report(result: &HonestMultiFlciResult) -> (report: HonestMultiFlciReport)
    ensures
        report.schema_version == HONEST_REPORT_SCHEMA_V1,
        report.rows@.len() == result.points@.len(),
        forall|i: int|
            0 <= i < report.rows@.len() ==> is_multi_row(
                *result,
                i,
                #[trigger] report.rows@[i],
            ),
{
    HonestMultiFlciReport {
        schema_version: HONEST_REPORT_SCHEMA_V1,
        rows: build_honest_multi_flci_report_rows(result),
    }
}

/// Every line of a report has as many fields as there are columns.
pub proof fn lines_match_the_columns(
    joint: HonestJointPathReportRow,
    directional: HonestDirectionalReportRow,
    multi: HonestMultiFlciReportRow,
)
    ensures
        joint_fields(joint).len() == joint_columns().len(),
        directional_fields(directional).len() == directional_columns().len(),
        multi_fields(multi).len() == multi_columns().len(),
{
}

/// A row of a joint report carries its interval the way round that its point does, and
/// its verdict is that of the interval and the null value that it shows.
pub proof fn a_joint_row_agrees_with_its_verdict(
    region: HonestJointPathRegion,
    i: int,
    row: HonestJointPathReportRow,
)
    requires
        is_joint_row(region, i, row),
        region.points@[i].assessment.robustly_significant == types::excludes(
            region.points@[i].assessment.robust_ci,
            region.points@[i].assessment.null_value,
        ),
        region.points@[i].assessment.robust_ci.0.le(region.points@[i].assessment.robust_ci.1),
        region.points@[i].assessment.identified_set.0.le(
            region.points@[i].assessment.identified_set.1,
        ),
        region.points@[i].assessment.original_ci.0.le(region.points@[i].assessment.original_ci.1),
    ensures
        row.robust_ci_low.le(row.robust_ci_high),
        row.identified_lb.le(row.identified_ub),
        row.original_ci_low.le(row.original_ci_high),
        row.robustly_significant == (row.null_value.lt(row.robust_ci_low) || row.robust_ci_high.lt(
            row.null_value,
        )),
{
}

/// A row of a directional report carries its interval the way round that its point
/// does, and its verdict is that of the interval and the null value that it shows.
pub proof fn a_directional_row_agrees_with_its_verdict(
    region: HonestDirectionalRegion,
    i: int,
    row: HonestDirectionalReportRow,
)
    requires
        is_directional_row(region, i, row),
        region.points@[i].assessment.robustly_significant == types::excludes(
            region.points@[i].assessment.robust_ci,
            region.points@[i].assessment.null_value,
        ),
        region.points@[i].assessment.robust_ci.0.le(region.points@[i].assessment.robust_ci.1),
        region.points@[i].assessment.identified_set.0.le(
            region.points@[i].assessment.identified_set.1,
        ),
        region.points@[i].assessment.original_ci.0.le(region.points@[i].assessment.original_ci.1),
    ensures
        row.robust_ci_low.le(row.robust_ci_high),
        row.identified_lb.le(row.identified_ub),
        row.original_ci_low.le(row.original_ci_high),
        row.robustly_significant == (row.null_value.lt(row.robust_ci_low) || row.robust_ci_high.lt(
            row.null_value,
        )),
{
}

/// A row of a report of simultaneous intervals carries its interval the way round that
/// its point does, and its verdict is that of the interval and the null value that it
/// shows.
pub proof fn a_multi_row_agrees_with_its_verdict(
    result: HonestMultiFlciResult,
    i: int,
    row: HonestMultiFlciReportRow,
)
    requires
        is_multi_row(result, i, row),
        result.points@[i].robustly_significant == types::excludes(
            result.points@[i].flci,
            result.points@[i].null_value,
        ),
        result.points@[i].flci.0.le(result.points@[i].flci.1),
        result.points@[i].identified_set.0.le(result.points@[i].identified_set.1),
        result.points@[i].original_ci.0.le(result.points@[i].original_ci.1),
    ensures
        row.interval_low.le(row.interval_high),
        row.identified_lb.le(row.identified_ub),
        row.original_ci_low.le(row.original_ci_high),
        row.robustly_significant == (row.null_value.lt(row.interval_low) || row.interval_high.lt(
            row.null_value,
        )),
{
}

} // verus!
