//! Checks a chart specification before anything is drawn.
//!
//! Every check has a stable code and points at the offending part of the
//! specification with a JSON Pointer. The checks run in a fixed order and
//! the first failure is reported.

use vstd::prelude::*;

use crate::digits::{decimal, push_decimal};
use crate::error::{outcome, ChartError, ChartWarning, Issue};
use crate::spec::{ChartSpec, ChartType, Orientation, MAX_DATA_POINTS, MAX_SERIES};

verus! {

/// Bits of the binary64 value 1e100.
pub const LARGEST_MAGNITUDE_BITS: u64 = 0x54b2_49ad_2594_c37d;

/// Bits of the binary64 value 1e-100.
pub const SMALLEST_MAGNITUDE_BITS: u64 = 0x2b2b_ff2e_e48e_0530;

/// Bits of positive infinity; finite magnitudes lie below.
pub const INFINITY_BITS: u64 = 0x7ff0_0000_0000_0000;

/// Sign bit of a binary64 value.
pub const SIGN_BIT: u64 = 0x8000_0000_0000_0000;

/// The first issue of `a` and `b`.
pub open spec fn or_else(a: Option<Issue>, b: Option<Issue>) -> Option<Issue> {
    if a is Some {
        a
    } else {
        b
    }
}

/// Unicode `White_Space`: the characters that `str::trim` removes.
pub open spec fn is_white_space(c: char) -> bool {
    ||| '\u{9}' <= c <= '\u{d}'
    ||| c == ' '
    ||| c == '\u{85}'
    ||| c == '\u{a0}'
    ||| c == '\u{1680}'
    ||| '\u{2000}' <= c <= '\u{200a}'
    ||| c == '\u{2028}'
    ||| c == '\u{2029}'
    ||| c == '\u{202f}'
    ||| c == '\u{205f}'
    ||| c == '\u{3000}'
}

/// Characters that XML 1.0 can represent.
pub open spec fn is_xml_char(c: char) -> bool {
    ||| c == '\u{9}'
    ||| c == '\u{a}'
    ||| c == '\u{d}'
    ||| '\u{20}' <= c <= '\u{d7ff}'
    ||| '\u{e000}' <= c <= '\u{fffd}'
    ||| '\u{10000}' <= c <= '\u{10ffff}'
}

/// Whether `c` can appear in an XML 1.0 document.
pub fn is_xml_character(c: char) -> (valid: bool)
    ensures
        valid == is_xml_char(c),
{
    match c {
        '\u{9}' | '\u{a}' | '\u{d}' => true,
        '\u{20}'..='\u{d7ff}' => true,
        '\u{e000}'..='\u{fffd}' => true,
        '\u{10000}'..='\u{10ffff}' => true,
        _ => false,
    }
}

fn is_white_space_char(c: char) -> (white: bool)
    ensures
        white == is_white_space(c),
{
    match c {
        '\u{9}'..='\u{d}' | ' ' | '\u{85}' | '\u{a0}' | '\u{1680}' => true,
        '\u{2000}'..='\u{200a}' => true,
        '\u{2028}' | '\u{2029}' | '\u{202f}' | '\u{205f}' | '\u{3000}' => true,
        _ => false,
    }
}

/// The issue of a text at `path` that may hold at most `max_length` characters.
pub open spec fn text_issue(value: Seq<char>, path: Seq<char>, max_length: int) -> Option<Issue> {
    if forall|i: int| 0 <= i < value.len() ==> is_white_space(#[trigger] value[i]) {
        Some(("empty_text"@, path, "value must contain visible text"@))
    } else if value.len() > max_length {
        Some(
            (
                "text_too_long"@,
                path,
                "value must not exceed "@ + decimal(max_length) + " characters"@,
            ),
        )
    } else if exists|i: int| 0 <= i < value.len() && !is_xml_char(#[trigger] value[i]) {
        Some(
            (
                "invalid_xml_character"@,
                path,
                "text contains a control character that XML 1.0 cannot represent"@,
            ),
        )
    } else {
        None
    }
}

/// The issue of an optional text.
pub open spec fn optional_text_issue(
    value: Option<String>,
    path: Seq<char>,
    max_length: int,
) -> Option<Issue> {
    match value {
        Some(text) => text_issue(text@, path, max_length),
        None => None,
    }
}

/// Checks that a text has visible characters, at most `max_length` of
/// them, and only characters that XML 1.0 can represent.
pub fn validate_text(value: &str, path: &str, max_length: usize) -> (result: Result<(), ChartError>)
    ensures
        outcome(result) == text_issue(value@, path@, max_length as int),
{
    let length = value.unicode_len();
    let mut visible = false;
    let mut invalid = false;
    let mut i: usize = 0;
    while i < length
        invariant
            length == value@.len(),
            i <= length,
            visible == exists|j: int| 0 <= j < i && !is_white_space(#[trigger] value@[j]),
            invalid == exists|j: int| 0 <= j < i && !is_xml_char(#[trigger] value@[j]),
        decreases length - i,
    {
        let c = value.get_char(i);
        if !is_white_space_char(c) {
            visible = true;
        }
        if !is_xml_character(c) {
            invalid = true;
        }
        i += 1;
    }
    if !visible {
        return Err(ChartError::new("empty_text", path, "value must contain visible text"));
    }
    if length > max_length {
        let mut message = String::new();
        message.append("value must not exceed ");
        push_decimal(&mut message, max_length);
        message.append(" characters");
        return Err(ChartError::new("text_too_long", path, message.as_str()));
    }
    if invalid {
        return Err(
            ChartError::new(
                "invalid_xml_character",
                path,
                "text contains a control character that XML 1.0 cannot represent",
            ),
        );
    }
    Ok(())
}

/// Checks an optional text; a missing one is fine.
pub fn validate_optional_text(value: Option<&String>, path: &str, max_length: usize) -> (result:
    Result<(), ChartError>)
    ensures
        outcome(result) == match value {
            Some(text) => text_issue(text@, path@, max_length as int),
            None => None,
        },
{
    if let Some(value) = value {
        validate_text(value.as_str(), path, max_length)?;
    }
    Ok(())
}

/// The absolute value of a binary64 value, as bits: the bits without the
/// sign. Magnitudes order as their bits do.
pub open spec fn magnitude(bits: u64) -> int {
    (bits % SIGN_BIT) as int
}

/// The issue of the value with binary64 `bits` at `path`.
pub open spec fn number_issue(bits: u64, path: Seq<char>) -> Option<Issue> {
    if magnitude(bits) >= INFINITY_BITS {
        Some(("non_finite_value"@, path, "value must be finite"@))
    } else if magnitude(bits) > LARGEST_MAGNITUDE_BITS || (0 < magnitude(bits)
        < SMALLEST_MAGNITUDE_BITS) {
        Some(
            (
                "unsupported_numeric_range"@,
                path,
                "value magnitude must be zero or between 1e-100 and 1e100"@,
            ),
        )
    } else {
        None
    }
}

/// Checks that a value is finite and zero or of a magnitude between 1e-100
/// and 1e100.
pub fn validate_number(bits: u64, path: &str) -> (result: Result<(), ChartError>)
    ensures
        outcome(result) == number_issue(bits, path@),
{
    let magnitude = bits % SIGN_BIT;
    if magnitude >= INFINITY_BITS {
        return Err(ChartError::new("non_finite_value", path, "value must be finite"));
    }
    if magnitude > LARGEST_MAGNITUDE_BITS || (magnitude > 0 && magnitude < SMALLEST_MAGNITUDE_BITS) {
        return Err(
            ChartError::new(
                "unsupported_numeric_range",
                path,
                "value magnitude must be zero or between 1e-100 and 1e100",
            ),
        );
    }
    Ok(())
}

/// `prefix`, the index and `suffix`: a JSON Pointer into a list.
pub open spec fn indexed_path(prefix: Seq<char>, index: int, suffix: Seq<char>) -> Seq<char> {
    prefix + decimal(index) + suffix
}

fn indexed(prefix: &str, index: usize, suffix: &str) -> (path: String)
    ensures
        path@ == indexed_path(prefix@, index as int, suffix@),
{
    let mut path = String::new();
    path.append(prefix);
    push_decimal(&mut path, index);
    path.append(suffix);
    path
}

/// The dense-chart warning, when a chart has more than 16 categories.
pub open spec fn dense_warnings(spec: &ChartSpec) -> Seq<Issue> {
    let message =
        "more than 16 categories can be difficult to read at the configured size"@;
    if spec.categories@.len() == 0 && spec.series@.len() == 0 {
        if spec.data@.len() > 16 {
            seq![("dense_chart"@, "/data"@, message)]
        } else {
            seq![]
        }
    } else if spec.categories@.len() > 16 {
        seq![("dense_chart"@, "/categories"@, message)]
    } else {
        seq![]
    }
}

/// Whether `warnings` report exactly `issues`, in order.
pub open spec fn reports(warnings: Seq<ChartWarning>, issues: Seq<Issue>) -> bool {
    &&& warnings.len() == issues.len()
    &&& forall|i: int| 0 <= i < warnings.len() ==> (#[trigger] warnings[i])@ == issues[i]
}

impl ChartSpec {
    /// Number of categories that the zoom steps refer to.
    pub open spec fn zoom_category_count(&self) -> int {
        if self.data@.len() == 0 {
            self.categories@.len() as int
        } else {
            self.data@.len() as int
        }
    }

    /// The issue of zoom step `k`.
    pub open spec fn zoom_step_issue(&self, k: int) -> Option<Issue> {
        let step = self.zoom_steps@[k];
        or_else(
            text_issue(step.label@, indexed_path("/zoomSteps/"@, k, "/label"@), 40),
            if step.from > step.to {
                Some(
                    (
                        "invalid_zoom_step"@,
                        indexed_path("/zoomSteps/"@, k, "/from"@),
                        "from must not be greater than to"@,
                    ),
                )
            } else if step.to >= self.zoom_category_count() {
                Some(
                    (
                        "zoom_out_of_range"@,
                        indexed_path("/zoomSteps/"@, k, "/to"@),
                        "to must be less than the number of categories ("@ + decimal(
                            self.zoom_category_count(),
                        ) + ")"@,
                    ),
                )
            } else {
                None
            },
        )
    }

    /// The first issue among the zoom steps from `k` on.
    pub open spec fn zoom_steps_issue_from(&self, k: int) -> Option<Issue>
        decreases self.zoom_steps@.len() - k,
    {
        if 0 <= k < self.zoom_steps@.len() {
            or_else(self.zoom_step_issue(k), self.zoom_steps_issue_from(k + 1))
        } else {
            None
        }
    }

    /// The issue of the fields that do not hold data.
    pub open spec fn metadata_issue(&self) -> Option<Issue> {
        if self.schema_version != 1 {
            Some(
                (
                    "unsupported_schema_version"@,
                    "/schemaVersion"@,
                    "expected schemaVersion 1"@,
                ),
            )
        } else if self.chart_type == ChartType::Line && self.orientation
            != Orientation::Vertical {
            Some(
                (
                    "option_not_supported"@,
                    "/orientation"@,
                    "orientation is only available for bar charts"@,
                ),
            )
        } else {
            or_else(
                text_issue(self.title@, "/title"@, 200),
                or_else(
                    optional_text_issue(self.description, "/description"@, 1000),
                    or_else(
                        optional_text_issue(self.source, "/source"@, 300),
                        or_else(
                            optional_text_issue(
                                self.category_axis.title,
                                "/categoryAxis/title"@,
                                100,
                            ),
                            or_else(
                                optional_text_issue(
                                    self.value_axis.title,
                                    "/valueAxis/title"@,
                                    100,
                                ),
                                self.dimension_issue(),
                            ),
                        ),
                    ),
                ),
            )
        }
    }

    /// The issue of width, height and zoom steps.
    pub open spec fn dimension_issue(&self) -> Option<Issue> {
        if !(320 <= self.width <= 2400) {
            Some(("invalid_dimension"@, "/width"@, "width must be between 320 and 2400"@))
        } else if !(240 <= self.height <= 1600) {
            Some(("invalid_dimension"@, "/height"@, "height must be between 240 and 1600"@))
        } else if self.zoom_steps@.len() == 1 {
            Some(
                (
                    "not_enough_zoom_steps"@,
                    "/zoomSteps"@,
                    "provide at least 2 zoom steps so the view can be switched"@,
                ),
            )
        } else {
            or_else(self.zoom_steps_issue_from(0), self.zoom_count_issue())
        }
    }

    /// The issue of too many zoom steps.
    pub open spec fn zoom_count_issue(&self) -> Option<Issue> {
        if self.zoom_steps@.len() > 4 {
            Some(("too_many_zoom_steps"@, "/zoomSteps"@, "at most 4 zoom steps are supported"@))
        } else {
            None
        }
    }

    /// Whether an earlier data point has the label of point `i`.
    pub open spec fn repeats_point_label(&self, i: int) -> bool {
        exists|j: int| 0 <= j < i && (#[trigger] self.data@[j]).label@ == self.data@[i].label@
    }

    /// The issue of data point `i`.
    pub open spec fn point_issue(&self, i: int) -> Option<Issue> {
        let point = self.data@[i];
        or_else(
            text_issue(point.label@, indexed_path("/data/"@, i, "/label"@), 200),
            or_else(
                match point.value {
                    Some(bits) => number_issue(bits, indexed_path("/data/"@, i, "/value"@)),
                    None => if self.chart_type == ChartType::Bar {
                        Some(
                            (
                                "missing_bar_value"@,
                                indexed_path("/data/"@, i, "/value"@),
                                "bar charts require a numeric value for every category"@,
                            ),
                        )
                    } else {
                        None
                    },
                },
                if self.repeats_point_label(i) {
                    Some(
                        (
                            "duplicate_label"@,
                            indexed_path("/data/"@, i, "/label"@),
                            "labels must be unique in a single-series chart"@,
                        ),
                    )
                } else {
                    None
                },
            ),
        )
    }

    /// The first issue among the data points from `i` on.
    pub open spec fn points_issue_from(&self, i: int) -> Option<Issue>
        decreases self.data@.len() - i,
    {
        if 0 <= i < self.data@.len() {
            or_else(self.point_issue(i), self.points_issue_from(i + 1))
        } else {
            None
        }
    }

    /// The issue of a single-series `data` list.
    pub open spec fn points_issue(&self) -> Option<Issue> {
        if self.data@.len() == 0 {
            Some(("empty_data"@, "/data"@, "provide at least one data point"@))
        } else if self.data@.len() > MAX_DATA_POINTS {
            Some(
                (
                    "too_many_data_points"@,
                    "/data"@,
                    "at most 100 data points are supported"@,
                ),
            )
        } else {
            self.points_issue_from(0)
        }
    }

    /// The issue of the shape of categories and series.
    pub open spec fn series_shape_issue(&self) -> Option<Issue> {
        if self.data@.len() != 0 {
            Some(
                (
                    "conflicting_data_shape"@,
                    "/data"@,
                    "use either data or categories with series, not both"@,
                ),
            )
        } else if self.chart_type == ChartType::Line {
            Some(
                (
                    "option_not_supported"@,
                    "/series"@,
                    "series are only available for bar charts in this alpha; use data for a line chart"@,
                ),
            )
        } else if self.categories@.len() == 0 {
            Some(("empty_data"@, "/categories"@, "provide at least one category"@))
        } else if self.categories@.len() > MAX_DATA_POINTS {
            Some(
                (
                    "too_many_data_points"@,
                    "/categories"@,
                    "at most 100 categories are supported"@,
                ),
            )
        } else if self.series@.len() == 0 {
            Some(("empty_data"@, "/series"@, "provide at least one series"@))
        } else if self.series@.len() > MAX_SERIES {
            Some(("too_many_series"@, "/series"@, "at most 4 series are supported"@))
        } else {
            None
        }
    }

    /// Whether an earlier category has the label of category `i`.
    pub open spec fn repeats_category(&self, i: int) -> bool {
        exists|j: int| 0 <= j < i && (#[trigger] self.categories@[j])@ == self.categories@[i]@
    }

    /// The issue of category `i`.
    pub open spec fn category_issue(&self, i: int) -> Option<Issue> {
        or_else(
            text_issue(self.categories@[i]@, indexed_path("/categories/"@, i, ""@), 200),
            if self.repeats_category(i) {
                Some(
                    (
                        "duplicate_label"@,
                        indexed_path("/categories/"@, i, ""@),
                        "categories must be unique"@,
                    ),
                )
            } else {
                None
            },
        )
    }

    /// The first issue among the categories from `i` on.
    pub open spec fn categories_issue_from(&self, i: int) -> Option<Issue>
        decreases self.categories@.len() - i,
    {
        if 0 <= i < self.categories@.len() {
            or_else(self.category_issue(i), self.categories_issue_from(i + 1))
        } else {
            None
        }
    }

    /// Whether an earlier series has the name of series `k`.
    pub open spec fn repeats_series_name(&self, k: int) -> bool {
        exists|j: int| 0 <= j < k && (#[trigger] self.series@[j]).name@ == self.series@[k].name@
    }

    /// The issue of value `j` of series `k`.
    pub open spec fn series_value_issue(&self, k: int, j: int) -> Option<Issue> {
        match self.series@[k].values@[j] {
            Some(bits) => number_issue(
                bits,
                "/series/"@ + decimal(k) + "/values/"@ + decimal(j),
            ),
            None => None,
        }
    }

    /// The first issue among the values of series `k` from `j` on.
    pub open spec fn series_values_issue_from(&self, k: int, j: int) -> Option<Issue>
        decreases self.series@[k].values@.len() - j,
    {
        if 0 <= j < self.series@[k].values@.len() {
            or_else(self.series_value_issue(k, j), self.series_values_issue_from(k, j + 1))
        } else {
            None
        }
    }

    /// The issue of series `k`.
    pub open spec fn one_series_issue(&self, k: int) -> Option<Issue> {
        let series = self.series@[k];
        or_else(
            text_issue(series.name@, indexed_path("/series/"@, k, "/name"@), 100),
            if self.repeats_series_name(k) {
                Some(
                    (
                        "duplicate_series"@,
                        indexed_path("/series/"@, k, "/name"@),
                        "series names must be unique"@,
                    ),
                )
            } else if series.values@.len() != self.categories@.len() {
                Some(
                    (
                        "series_length_mismatch"@,
                        indexed_path("/series/"@, k, "/values"@),
                        "expected "@ + decimal(self.categories@.len() as int)
                            + " values, one per category; use null for a missing value"@,
                    ),
                )
            } else {
                self.series_values_issue_from(k, 0)
            },
        )
    }

    /// The first issue among the series from `k` on.
    pub open spec fn series_issue_from(&self, k: int) -> Option<Issue>
        decreases self.series@.len() - k,
    {
        if 0 <= k < self.series@.len() {
            or_else(self.one_series_issue(k), self.series_issue_from(k + 1))
        } else {
            None
        }
    }

    /// Whether no series holds a value.
    pub open spec fn all_series_values_missing(&self) -> bool {
        forall|k: int, j: int|
            0 <= k < self.series@.len() && 0 <= j < self.series@[k].values@.len()
                ==> #[trigger] self.series@[k].values@[j] is None
    }

    /// The issue of series without any value.
    pub open spec fn missing_values_issue(&self) -> Option<Issue> {
        if self.all_series_values_missing() {
            Some(("empty_series"@, "/series"@, "provide at least one numeric value"@))
        } else {
            None
        }
    }

    /// The issue of categories with series.
    pub open spec fn series_issue(&self) -> Option<Issue> {
        or_else(
            self.series_shape_issue(),
            or_else(
                self.categories_issue_from(0),
                or_else(
                    self.series_issue_from(0),
                    if self.all_series_values_missing() {
                        Some(("empty_series"@, "/series"@, "provide at least one numeric value"@))
                    } else {
                        None
                    },
                ),
            ),
        )
    }

    /// The issue of the data, given as a `data` list or as categories with series.
    pub open spec fn data_issue(&self) -> Option<Issue> {
        if self.categories@.len() == 0 && self.series@.len() == 0 {
            self.points_issue()
        } else {
            self.series_issue()
        }
    }

    /// Whether no data point holds a value.
    pub open spec fn all_point_values_missing(&self) -> bool {
        forall|i: int| 0 <= i < self.data@.len() ==> (#[trigger] self.data@[i]).value is None
    }

    /// The first issue of the specification, in the order the checks run;
    /// `None` for a specification that can be rendered.
    pub open spec fn validation_issue(&self) -> Option<Issue> {
        or_else(
            self.metadata_issue(),
            or_else(
                self.data_issue(),
                if self.chart_type == ChartType::Line && self.all_point_values_missing() {
                    Some(
                        (
                            "empty_series"@,
                            "/data"@,
                            "line charts require at least one numeric value"@,
                        ),
                    )
                } else {
                    None
                },
            ),
        )
    }
}


impl ChartSpec {
    /// Checks everything but the data: version, options, texts, size and
    /// zoom steps.
    fn validate_metadata(&self) -> (result: Result<(), ChartError>)
        ensures
            outcome(result) == self.metadata_issue(),
    {
        if self.schema_version != 1 {
            return Err(
                ChartError::new(
                    "unsupported_schema_version",
                    "/schemaVersion",
                    "expected schemaVersion 1",
                ),
            );
        }
        if self.chart_type == ChartType::Line && self.orientation != Orientation::Vertical {
            return Err(
                ChartError::new(
                    "option_not_supported",
                    "/orientation",
                    "orientation is only available for bar charts",
                ),
            );
        }
        validate_text(self.title.as_str(), "/title", 200)?;
        validate_optional_text(self.description.as_ref(), "/description", 1_000)?;
        validate_optional_text(self.source.as_ref(), "/source", 300)?;
        validate_optional_text(self.category_axis.title.as_ref(), "/categoryAxis/title", 100)?;
        validate_optional_text(self.value_axis.title.as_ref(), "/valueAxis/title", 100)?;
        if !(320 <= self.width && self.width <= 2_400) {
            return Err(
                ChartError::new("invalid_dimension", "/width", "width must be between 320 and 2400"),
            );
        }
        if !(240 <= self.height && self.height <= 1_600) {
            return Err(
                ChartError::new(
                    "invalid_dimension",
                    "/height",
                    "height must be between 240 and 1600",
                ),
            );
        }
        if self.zoom_steps.len() == 1 {
            return Err(
                ChartError::new(
                    "not_enough_zoom_steps",
                    "/zoomSteps",
                    "provide at least 2 zoom steps so the view can be switched",
                ),
            );
        }
        let count = if self.data.len() == 0 {
            self.categories.len()
        } else {
            self.data.len()
        };
        let mut i: usize = 0;
        while i < self.zoom_steps.len()
            invariant
                i <= self.zoom_steps@.len(),
                count == self.zoom_category_count(),
                self.metadata_issue() == or_else(
                    self.zoom_steps_issue_from(i as int),
                    self.zoom_count_issue(),
                ),
            decreases self.zoom_steps@.len() - i,
        {
            let step = &self.zoom_steps[i];
            let label_path = indexed("/zoomSteps/", i, "/label");
            validate_text(step.label.as_str(), label_path.as_str(), 40)?;
            if step.from > step.to {
                let path = indexed("/zoomSteps/", i, "/from");
                return Err(
                    ChartError::new(
                        "invalid_zoom_step",
                        path.as_str(),
                        "from must not be greater than to",
                    ),
                );
            }
            if step.to >= count {
                let path = indexed("/zoomSteps/", i, "/to");
                let mut message = String::new();
                message.append("to must be less than the number of categories (");
                push_decimal(&mut message, count);
                message.append(")");
                return Err(ChartError::new("zoom_out_of_range", path.as_str(), message.as_str()));
            }
            i += 1;
        }
        if self.zoom_steps.len() > 4 {
            return Err(
                ChartError::new(
                    "too_many_zoom_steps",
                    "/zoomSteps",
                    "at most 4 zoom steps are supported",
                ),
            );
        }
        Ok(())
    }

    fn repeats_point_label_at(&self, i: usize) -> (repeated: bool)
        requires
            i < self.data@.len(),
        ensures
            repeated == self.repeats_point_label(i as int),
    {
        let mut j: usize = 0;
        while j < i
            invariant
                i < self.data@.len(),
                j <= i,
                forall|t: int| 0 <= t < j ==> (#[trigger] self.data@[t]).label@ != self.data@[i as int].label@,
            decreases i - j,
        {
            if self.data[j].label == self.data[i].label {
                return true;
            }
            j += 1;
        }
        false
    }

    fn repeats_category_at(&self, i: usize) -> (repeated: bool)
        requires
            i < self.categories@.len(),
        ensures
            repeated == self.repeats_category(i as int),
    {
        let mut j: usize = 0;
        while j < i
            invariant
                i < self.categories@.len(),
                j <= i,
                forall|t: int| 0 <= t < j ==> (#[trigger] self.categories@[t])@ != self.categories@[i as int]@,
            decreases i - j,
        {
            if self.categories[j] == self.categories[i] {
                return true;
            }
            j += 1;
        }
        false
    }

    fn repeats_series_name_at(&self, k: usize) -> (repeated: bool)
        requires
            k < self.series@.len(),
        ensures
            repeated == self.repeats_series_name(k as int),
    {
        let mut j: usize = 0;
        while j < k
            invariant
                k < self.series@.len(),
                j <= k,
                forall|t: int| 0 <= t < j ==> (#[trigger] self.series@[t]).name@ != self.series@[k as int].name@,
            decreases k - j,
        {
            if self.series[j].name == self.series[k].name {
                return true;
            }
            j += 1;
        }
        false
    }

    /// Checks a single-series `data` list.
    fn validate_points(&self) -> (result: Result<Vec<ChartWarning>, ChartError>)
        ensures
            outcome(result) == self.points_issue(),
            result matches Ok(warnings) ==> reports(
                warnings@,
                if self.data@.len() > 16 {
                    seq![
                        (
                            "dense_chart"@,
                            "/data"@,
                            "more than 16 categories can be difficult to read at the configured size"@,
                        ),
                    ]
                } else {
                    seq![]
                },
            ),
    {
        if self.data.len() == 0 {
            return Err(ChartError::new("empty_data", "/data", "provide at least one data point"));
        }
        if self.data.len() > MAX_DATA_POINTS {
            return Err(
                ChartError::new(
                    "too_many_data_points",
                    "/data",
                    "at most 100 data points are supported",
                ),
            );
        }
        let mut i: usize = 0;
        while i < self.data.len()
            invariant
                i <= self.data@.len(),
                self.points_issue() == self.points_issue_from(i as int),
            decreases self.data@.len() - i,
        {
            let point = &self.data[i];
            let label_path = indexed("/data/", i, "/label");
            validate_text(point.label.as_str(), label_path.as_str(), 200)?;
            match point.value {
                Some(bits) => {
                    let value_path = indexed("/data/", i, "/value");
                    validate_number(bits, value_path.as_str())?;
                },
                None => {
                    if self.chart_type == ChartType::Bar {
                        let value_path = indexed("/data/", i, "/value");
                        return Err(
                            ChartError::new(
                                "missing_bar_value",
                                value_path.as_str(),
                                "bar charts require a numeric value for every category",
                            ),
                        );
                    }
                },
            }
            if self.repeats_point_label_at(i) {
                return Err(
                    ChartError::new(
                        "duplicate_label",
                        label_path.as_str(),
                        "labels must be unique in a single-series chart",
                    ),
                );
            }
            i += 1;
        }
        let mut warnings: Vec<ChartWarning> = Vec::new();
        if self.data.len() > 16 {
            warnings.push(
                ChartWarning::new(
                    "dense_chart",
                    "/data",
                    "more than 16 categories can be difficult to read at the configured size",
                ),
            );
        }
        Ok(warnings)
    }

    /// Checks that categories and series are given in a shape that can be drawn.
    fn validate_series_shape(&self) -> (result: Result<(), ChartError>)
        ensures
            outcome(result) == self.series_shape_issue(),
    {
        if self.data.len() != 0 {
            return Err(
                ChartError::new(
                    "conflicting_data_shape",
                    "/data",
                    "use either data or categories with series, not both",
                ),
            );
        }
        if self.chart_type == ChartType::Line {
            return Err(
                ChartError::new(
                    "option_not_supported",
                    "/series",
                    "series are only available for bar charts in this alpha; use data for a line chart",
                ),
            );
        }
        if self.categories.len() == 0 {
            return Err(ChartError::new("empty_data", "/categories", "provide at least one category"));
        }
        if self.categories.len() > MAX_DATA_POINTS {
            return Err(
                ChartError::new(
                    "too_many_data_points",
                    "/categories",
                    "at most 100 categories are supported",
                ),
            );
        }
        if self.series.len() == 0 {
            return Err(ChartError::new("empty_data", "/series", "provide at least one series"));
        }
        if self.series.len() > MAX_SERIES {
            return Err(
                ChartError::new("too_many_series", "/series", "at most 4 series are supported"),
            );
        }
        Ok(())
    }

    /// Checks the values of series `k`.
    fn validate_series_values(&self, k: usize) -> (result: Result<(), ChartError>)
        requires
            k < self.series@.len(),
        ensures
            outcome(result) == self.series_values_issue_from(k as int, 0),
    {
        let values = &self.series[k].values;
        let mut j: usize = 0;
        while j < values.len()
            invariant
                k < self.series@.len(),
                values == self.series@[k as int].values,
                j <= values@.len(),
                self.series_values_issue_from(k as int, 0) == self.series_values_issue_from(
                    k as int,
                    j as int,
                ),
            decreases values@.len() - j,
        {
            if let Some(bits) = values[j] {
                let mut path = String::new();
                path.append("/series/");
                push_decimal(&mut path, k);
                path.append("/values/");
                push_decimal(&mut path, j);
                validate_number(bits, path.as_str())?;
            }
            j += 1;
        }
        Ok(())
    }

    /// Checks categories with series.
    fn validate_series(&self) -> (result: Result<Vec<ChartWarning>, ChartError>)
        ensures
            outcome(result) == self.series_issue(),
            result matches Ok(warnings) ==> reports(
                warnings@,
                if self.categories@.len() > 16 {
                    seq![
                        (
                            "dense_chart"@,
                            "/categories"@,
                            "more than 16 categories can be difficult to read at the configured size"@,
                        ),
                    ]
                } else {
                    seq![]
                },
            ),
    {
        self.validate_series_shape()?;
        let mut i: usize = 0;
        while i < self.categories.len()
            invariant
                i <= self.categories@.len(),
                self.series_issue() == or_else(
                    self.categories_issue_from(i as int),
                    or_else(self.series_issue_from(0), self.missing_values_issue()),
                ),
            decreases self.categories@.len() - i,
        {
            let path = indexed("/categories/", i, "");
            validate_text(self.categories[i].as_str(), path.as_str(), 200)?;
            if self.repeats_category_at(i) {
                return Err(
                    ChartError::new("duplicate_label", path.as_str(), "categories must be unique"),
                );
            }
            i += 1;
        }
        let mut k: usize = 0;
        while k < self.series.len()
            invariant
                k <= self.series@.len(),
                self.series_issue() == or_else(
                    self.series_issue_from(k as int),
                    self.missing_values_issue(),
                ),
            decreases self.series@.len() - k,
        {
            let series = &self.series[k];
            let name_path = indexed("/series/", k, "/name");
            validate_text(series.name.as_str(), name_path.as_str(), 100)?;
            if self.repeats_series_name_at(k) {
                return Err(
                    ChartError::new(
                        "duplicate_series",
                        name_path.as_str(),
                        "series names must be unique",
                    ),
                );
            }
            if series.values.len() != self.categories.len() {
                let path = indexed("/series/", k, "/values");
                let mut message = String::new();
                message.append("expected ");
                push_decimal(&mut message, self.categories.len());
                message.append(" values, one per category; use null for a missing value");
                return Err(
                    ChartError::new("series_length_mismatch", path.as_str(), message.as_str()),
                );
            }
            self.validate_series_values(k)?;
            k += 1;
        }
        let mut missing = true;
        let mut m: usize = 0;
        while m < self.series.len()
            invariant
                m <= self.series@.len(),
                missing == forall|s: int, j: int|
                    0 <= s < m && 0 <= j < self.series@[s].values@.len()
                        ==> #[trigger] self.series@[s].values@[j] is None,
            decreases self.series@.len() - m,
        {
            let values = &self.series[m].values;
            let mut j: usize = 0;
            while j < values.len()
                invariant
                    m < self.series@.len(),
                    values == self.series@[m as int].values,
                    j <= values@.len(),
                    missing == ((forall|s: int, t: int|
                        0 <= s < m && 0 <= t < self.series@[s].values@.len()
                            ==> #[trigger] self.series@[s].values@[t] is None) && (forall|t: int|
                        0 <= t < j ==> #[trigger] values@[t] is None)),
                decreases values@.len() - j,
            {
                if values[j].is_some() {
                    missing = false;
                }
                j += 1;
            }
            assert(missing == forall|s: int, t: int|
                0 <= s < m + 1 && 0 <= t < self.series@[s].values@.len()
                    ==> #[trigger] self.series@[s].values@[t] is None) by {
                if missing {
                    assert forall|s: int, t: int|
                        0 <= s < m + 1 && 0 <= t < self.series@[s].values@.len() implies
                        #[trigger] self.series@[s].values@[t] is None by {
                        if s == m {
                            assert(values@[t] is None);
                        }
                    }
                }
            }
            m += 1;
        }
        if missing {
            return Err(
                ChartError::new("empty_series", "/series", "provide at least one numeric value"),
            );
        }
        let mut warnings: Vec<ChartWarning> = Vec::new();
        if self.categories.len() > 16 {
            warnings.push(
                ChartWarning::new(
                    "dense_chart",
                    "/categories",
                    "more than 16 categories can be difficult to read at the configured size",
                ),
            );
        }
        Ok(warnings)
    }

    /// Checks the data, given as a `data` list or as categories with series.
    fn validate_data(&self) -> (result: Result<Vec<ChartWarning>, ChartError>)
        ensures
            outcome(result) == self.data_issue(),
            result matches Ok(warnings) ==> reports(warnings@, dense_warnings(self)),
    {
        if self.categories.len() == 0 && self.series.len() == 0 {
            self.validate_points()
        } else {
            self.validate_series()
        }
    }

    /// Checks the whole specification and returns the warnings that do not
    /// stop rendering.
    ///
    /// # Errors
    ///
    /// The first failed check, in the order of [`ChartSpec::validation_issue`].
    pub fn validate(&self) -> (result: Result<Vec<ChartWarning>, ChartError>)
        ensures
            outcome(result) == self.validation_issue(),
            result matches Ok(warnings) ==> reports(warnings@, dense_warnings(self)),
    {
        self.validate_metadata()?;
        let warnings = self.validate_data()?;
        if self.chart_type == ChartType::Line {
            let mut missing = true;
            let mut i: usize = 0;
            while i < self.data.len()
                invariant
                    i <= self.data@.len(),
                    missing == forall|t: int| 0 <= t < i ==> (#[trigger] self.data@[t]).value is None,
                decreases self.data@.len() - i,
            {
                if self.data[i].value.is_some() {
                    missing = false;
                }
                i += 1;
            }
            if missing {
                return Err(
                    ChartError::new(
                        "empty_series",
                        "/data",
                        "line charts require at least one numeric value",
                    ),
                );
            }
        }
        Ok(warnings)
    }
}

/// Every data point from `k` on is free of issues when the first issue
/// from `k` on is none.
proof fn lemma_points_free(spec: &ChartSpec, k: int)
    requires
        0 <= k,
        spec.points_issue_from(k) is None,
    ensures
        forall|i: int| k <= i < spec.data@.len() ==> #[trigger] spec.point_issue(i) is None,
    decreases spec.data@.len() - k,
{
    if k < spec.data@.len() {
        lemma_points_free(spec, k + 1);
    }
}

proof fn lemma_categories_free(spec: &ChartSpec, k: int)
    requires
        0 <= k,
        spec.categories_issue_from(k) is None,
    ensures
        forall|i: int| k <= i < spec.categories@.len() ==> #[trigger] spec.category_issue(i) is None,
    decreases spec.categories@.len() - k,
{
    if k < spec.categories@.len() {
        lemma_categories_free(spec, k + 1);
    }
}

proof fn lemma_series_free(spec: &ChartSpec, k: int)
    requires
        0 <= k,
        spec.series_issue_from(k) is None,
    ensures
        forall|t: int| k <= t < spec.series@.len() ==> #[trigger] spec.one_series_issue(t) is None,
    decreases spec.series@.len() - k,
{
    if k < spec.series@.len() {
        lemma_series_free(spec, k + 1);
    }
}

proof fn lemma_series_values_free(spec: &ChartSpec, t: int, k: int)
    requires
        0 <= t < spec.series@.len(),
        0 <= k,
        spec.series_values_issue_from(t, k) is None,
    ensures
        forall|j: int|
            k <= j < spec.series@[t].values@.len() ==> #[trigger] spec.series_value_issue(t, j) is None,
    decreases spec.series@[t].values@.len() - k,
{
    if k < spec.series@[t].values@.len() {
        lemma_series_values_free(spec, t, k + 1);
    }
}

proof fn lemma_zoom_steps_free(spec: &ChartSpec, k: int)
    requires
        0 <= k,
        spec.zoom_steps_issue_from(k) is None,
    ensures
        forall|i: int| k <= i < spec.zoom_steps@.len() ==> #[trigger] spec.zoom_step_issue(i) is None,
    decreases spec.zoom_steps@.len() - k,
{
    if k < spec.zoom_steps@.len() {
        lemma_zoom_steps_free(spec, k + 1);
    }
}

/// Whether `text` has a visible character, at most `max_length`
/// characters, and only characters that XML 1.0 can represent.
pub open spec fn proper_text(text: Seq<char>, max_length: int) -> bool {
    &&& exists|i: int| 0 <= i < text.len() && !is_white_space(#[trigger] text[i])
    &&& text.len() <= max_length
    &&& forall|i: int| 0 <= i < text.len() ==> is_xml_char(#[trigger] text[i])
}

proof fn lemma_proper_text(text: Seq<char>, path: Seq<char>, max_length: int)
    requires
        text_issue(text, path, max_length) is None,
    ensures
        proper_text(text, max_length),
{
}

/// The limits of a chart that passes validation: a title of at most 200
/// visible characters; a size of 320–2400 × 240–1600 pixels; between one
/// and 100 categories with unique labels of at most 200 characters; one to
/// four series with unique names, each with exactly one value or gap per
/// category; at least one value; a value for every category of a
/// single-series bar chart; only values that are zero or have a magnitude
/// between 1e-100 and 1e100; and no zoom steps, or two to four that stay
/// within the categories.
pub proof fn lemma_valid_limits(spec: &ChartSpec)
    requires
        spec.validation_issue() is None,
    ensures
        spec.schema_version == 1,
        proper_text(spec.title@, 200),
        320 <= spec.width <= 2400,
        240 <= spec.height <= 1600,
        1 <= spec.category_count() <= MAX_DATA_POINTS,
        1 <= spec.series_count() <= MAX_SERIES,
        forall|i: int|
            0 <= i < spec.category_count() ==> proper_text(#[trigger] spec.category_label(i), 200),
        forall|i: int, j: int|
            0 <= i < j < spec.category_count() ==> #[trigger] spec.category_label(i)
                != #[trigger] spec.category_label(j),
        forall|s: int, t: int|
            0 <= s < t < spec.series_count() ==> #[trigger] spec.series_name(s)
                != #[trigger] spec.series_name(t),
        forall|s: int| 0 <= s < spec.series_count() ==> #[trigger] spec.series_len(s) == spec.category_count(),
        exists|s: int, i: int|
            0 <= s < spec.series_count() && 0 <= i < spec.category_count()
                && #[trigger] spec.series_value(s, i) is Some,
        spec.chart_type == ChartType::Bar && !spec.uses_series() ==> forall|i: int|
            0 <= i < spec.category_count() ==> #[trigger] spec.series_value(0, i) is Some,
        forall|s: int, i: int|
            0 <= s < spec.series_count() && 0 <= i < spec.category_count()
                && #[trigger] spec.series_value(s, i) is Some ==> {
                let m = magnitude(spec.series_value(s, i)->0);
                m == 0 || SMALLEST_MAGNITUDE_BITS <= m <= LARGEST_MAGNITUDE_BITS
            },
        spec.zoom_steps@.len() == 0 || 2 <= spec.zoom_steps@.len() <= 4,
        forall|k: int|
            0 <= k < spec.zoom_steps@.len() ==> (#[trigger] spec.zoom_steps@[k]).from
                <= spec.zoom_steps@[k].to < spec.category_count(),
{
    lemma_proper_text(spec.title@, "/title"@, 200);
    lemma_zoom_steps_free(spec, 0);
    assert forall|k: int| 0 <= k < spec.zoom_steps@.len() implies (#[trigger] spec.zoom_steps@[k]).from
        <= spec.zoom_steps@[k].to < spec.category_count() by {
        assert(spec.zoom_step_issue(k) is None);
    }
    if spec.categories@.len() == 0 && spec.series@.len() == 0 {
        lemma_points_free(spec, 0);
        assert forall|i: int| 0 <= i < spec.category_count() implies proper_text(
            #[trigger] spec.category_label(i),
            200,
        ) by {
            assert(spec.point_issue(i) is None);
            lemma_proper_text(spec.data@[i].label@, indexed_path("/data/"@, i, "/label"@), 200);
        }
        assert forall|i: int, j: int| 0 <= i < j < spec.category_count() implies #[trigger] spec.category_label(i)
            != #[trigger] spec.category_label(j) by {
            assert(spec.point_issue(j) is None);
            assert(!spec.repeats_point_label(j));
        }
        assert forall|s: int, i: int|
            0 <= s < spec.series_count() && 0 <= i < spec.category_count()
                && #[trigger] spec.series_value(s, i) is Some implies {
            let m = magnitude(spec.series_value(s, i)->0);
            m == 0 || SMALLEST_MAGNITUDE_BITS <= m <= LARGEST_MAGNITUDE_BITS
        } by {
            assert(spec.point_issue(i) is None);
        }
        if spec.chart_type == ChartType::Bar {
            assert forall|i: int| 0 <= i < spec.category_count() implies #[trigger] spec.series_value(0, i) is Some by {
                assert(spec.point_issue(i) is None);
            }
            assert(spec.series_value(0, 0) is Some);
        } else {
            let i = choose|i: int| 0 <= i < spec.data@.len() && !((#[trigger] spec.data@[i]).value is None);
            assert(spec.series_value(0, i) is Some);
        }
    } else {
        lemma_categories_free(spec, 0);
        lemma_series_free(spec, 0);
        assert forall|i: int| 0 <= i < spec.category_count() implies proper_text(
            #[trigger] spec.category_label(i),
            200,
        ) by {
            assert(spec.category_issue(i) is None);
            lemma_proper_text(spec.categories@[i]@, indexed_path("/categories/"@, i, ""@), 200);
        }
        assert forall|i: int, j: int| 0 <= i < j < spec.category_count() implies #[trigger] spec.category_label(i)
            != #[trigger] spec.category_label(j) by {
            assert(spec.category_issue(j) is None);
            assert(!spec.repeats_category(j));
        }
        assert forall|s: int, t: int| 0 <= s < t < spec.series_count() implies #[trigger] spec.series_name(s)
            != #[trigger] spec.series_name(t) by {
            assert(spec.one_series_issue(t) is None);
            assert(!spec.repeats_series_name(t));
        }
        assert forall|s: int| 0 <= s < spec.series_count() implies #[trigger] spec.series_len(s)
            == spec.category_count() by {
            assert(spec.one_series_issue(s) is None);
        }
        assert forall|s: int, i: int|
            0 <= s < spec.series_count() && 0 <= i < spec.category_count()
                && #[trigger] spec.series_value(s, i) is Some implies {
            let m = magnitude(spec.series_value(s, i)->0);
            m == 0 || SMALLEST_MAGNITUDE_BITS <= m <= LARGEST_MAGNITUDE_BITS
        } by {
            assert(spec.one_series_issue(s) is None);
            lemma_series_values_free(spec, s, 0);
            assert(spec.series_value_issue(s, i) is None);
        }
        let (s, i) = choose|s: int, i: int|
            0 <= s < spec.series@.len() && 0 <= i < spec.series@[s].values@.len()
                && !(#[trigger] spec.series@[s].values@[i] is None);
        assert(spec.one_series_issue(s) is None);
        assert(spec.series_value(s, i) is Some);
    }
}

/// Whether `path` is a JSON Pointer into the specification: it starts with `/`.
pub open spec fn is_pointer(path: Seq<char>) -> bool {
    path.len() > 0 && path[0] == '/'
}

/// Whether an issue, if there is one, points into the specification.
pub open spec fn points_into_spec(issue: Option<Issue>) -> bool {
    match issue {
        Some(issue) => is_pointer(issue.1),
        None => true,
    }
}

proof fn lemma_prefixed_pointer(prefix: Seq<char>, rest: Seq<char>)
    requires
        is_pointer(prefix),
    ensures
        is_pointer(prefix + rest),
{
    assert((prefix + rest)[0] == prefix[0]);
}

proof fn lemma_list_pointers()
    ensures
        forall|k: int, suffix: Seq<char>| is_pointer(#[trigger] indexed_path("/zoomSteps/"@, k, suffix)),
        forall|k: int, suffix: Seq<char>| is_pointer(#[trigger] indexed_path("/data/"@, k, suffix)),
        forall|k: int, suffix: Seq<char>| is_pointer(#[trigger] indexed_path("/categories/"@, k, suffix)),
        forall|k: int, suffix: Seq<char>| is_pointer(#[trigger] indexed_path("/series/"@, k, suffix)),
        forall|k: int, j: int| is_pointer(#[trigger] ("/series/"@ + decimal(k) + "/values/"@ + decimal(j))),
{
    reveal_strlit("/zoomSteps/");
    reveal_strlit("/data/");
    reveal_strlit("/categories/");
    reveal_strlit("/series/");
    assert forall|k: int, suffix: Seq<char>| is_pointer(#[trigger] indexed_path("/zoomSteps/"@, k, suffix)) by {
        lemma_prefixed_pointer("/zoomSteps/"@, decimal(k) + suffix);
        assert(indexed_path("/zoomSteps/"@, k, suffix) =~= "/zoomSteps/"@ + (decimal(k) + suffix));
    }
    assert forall|k: int, suffix: Seq<char>| is_pointer(#[trigger] indexed_path("/data/"@, k, suffix)) by {
        lemma_prefixed_pointer("/data/"@, decimal(k) + suffix);
        assert(indexed_path("/data/"@, k, suffix) =~= "/data/"@ + (decimal(k) + suffix));
    }
    assert forall|k: int, suffix: Seq<char>| is_pointer(#[trigger] indexed_path("/categories/"@, k, suffix)) by {
        lemma_prefixed_pointer("/categories/"@, decimal(k) + suffix);
        assert(indexed_path("/categories/"@, k, suffix) =~= "/categories/"@ + (decimal(k) + suffix));
    }
    assert forall|k: int, suffix: Seq<char>| is_pointer(#[trigger] indexed_path("/series/"@, k, suffix)) by {
        lemma_prefixed_pointer("/series/"@, decimal(k) + suffix);
        assert(indexed_path("/series/"@, k, suffix) =~= "/series/"@ + (decimal(k) + suffix));
    }
    assert forall|k: int, j: int| is_pointer(#[trigger] ("/series/"@ + decimal(k) + "/values/"@ + decimal(j))) by {
        lemma_prefixed_pointer("/series/"@, decimal(k) + "/values/"@ + decimal(j));
        assert("/series/"@ + decimal(k) + "/values/"@ + decimal(j) =~= "/series/"@ + (decimal(k)
            + "/values/"@ + decimal(j)));
    }
}

proof fn lemma_zoom_steps_point(spec: &ChartSpec, k: int)
    ensures
        points_into_spec(spec.zoom_steps_issue_from(k)),
    decreases spec.zoom_steps@.len() - k,
{
    lemma_list_pointers();
    if 0 <= k < spec.zoom_steps@.len() {
        lemma_zoom_steps_point(spec, k + 1);
    }
}

proof fn lemma_points_point(spec: &ChartSpec, k: int)
    ensures
        points_into_spec(spec.points_issue_from(k)),
    decreases spec.data@.len() - k,
{
    lemma_list_pointers();
    if 0 <= k < spec.data@.len() {
        lemma_points_point(spec, k + 1);
    }
}

proof fn lemma_categories_point(spec: &ChartSpec, k: int)
    ensures
        points_into_spec(spec.categories_issue_from(k)),
    decreases spec.categories@.len() - k,
{
    lemma_list_pointers();
    if 0 <= k < spec.categories@.len() {
        lemma_categories_point(spec, k + 1);
    }
}

proof fn lemma_series_values_point(spec: &ChartSpec, t: int, k: int)
    ensures
        points_into_spec(spec.series_values_issue_from(t, k)),
    decreases spec.series@[t].values@.len() - k,
{
    lemma_list_pointers();
    if 0 <= k < spec.series@[t].values@.len() {
        lemma_series_values_point(spec, t, k + 1);
    }
}

proof fn lemma_series_point(spec: &ChartSpec, k: int)
    ensures
        points_into_spec(spec.series_issue_from(k)),
    decreases spec.series@.len() - k,
{
    lemma_list_pointers();
    if 0 <= k < spec.series@.len() {
        lemma_series_values_point(spec, k, 0);
        lemma_series_point(spec, k + 1);
    }
}

/// Every error of validation points at the offending part of the
/// specification with a JSON Pointer.
pub proof fn lemma_issues_point_into_spec(spec: &ChartSpec)
    ensures
        points_into_spec(spec.validation_issue()),
{
    reveal_strlit("/schemaVersion");
    reveal_strlit("/orientation");
    reveal_strlit("/title");
    reveal_strlit("/description");
    reveal_strlit("/source");
    reveal_strlit("/categoryAxis/title");
    reveal_strlit("/valueAxis/title");
    reveal_strlit("/width");
    reveal_strlit("/height");
    reveal_strlit("/zoomSteps");
    reveal_strlit("/data");
    reveal_strlit("/categories");
    reveal_strlit("/series");
    lemma_zoom_steps_point(spec, 0);
    lemma_points_point(spec, 0);
    lemma_categories_point(spec, 0);
    lemma_series_point(spec, 0);
}

/// Whether the code point `p` is in the `Char` production of XML 1.0:
/// #x9, #xA, #xD, [#x20-#xD7FF], [#xE000-#xFFFD] and [#x10000-#x10FFFF].
pub open spec fn in_xml_char_production(p: int) -> bool {
    ||| p == 0x9
    ||| p == 0xA
    ||| p == 0xD
    ||| 0x20 <= p <= 0xD7FF
    ||| 0xE000 <= p <= 0xFFFD
    ||| 0x10000 <= p <= 0x10FFFF
}

/// A character passes the XML check exactly when its code point is in the
/// `Char` production of XML 1.0.
pub proof fn lemma_xml_char_is_the_production(c: char)
    ensures
        is_xml_char(c) <==> in_xml_char_production(c as int),
{
}

/// A text is accepted exactly when it has a character other than white
/// space, at most `max_length` characters, and only code points of the XML
/// 1.0 `Char` production; so `€`, `–` or CJK text passes.
pub proof fn lemma_text_acceptance(value: Seq<char>, path: Seq<char>, max_length: int)
    ensures
        text_issue(value, path, max_length) is None <==> {
            &&& exists|i: int| 0 <= i < value.len() && !is_white_space(#[trigger] value[i])
            &&& value.len() <= max_length
            &&& forall|i: int| 0 <= i < value.len() ==> in_xml_char_production(#[trigger] value[i] as int)
        },
{
    if text_issue(value, path, max_length) is None {
        assert forall|i: int| 0 <= i < value.len() implies in_xml_char_production(#[trigger] value[i] as int) by {
            lemma_xml_char_is_the_production(value[i]);
        }
    }
    if forall|i: int| 0 <= i < value.len() ==> in_xml_char_production(#[trigger] value[i] as int) {
        assert forall|i: int| 0 <= i < value.len() implies is_xml_char(#[trigger] value[i]) by {
            lemma_xml_char_is_the_production(value[i]);
        }
    }
}

} // verus!
