//! The chart specification: what a chart shows and how.
//!
//! Values are held as IEEE 754 binary64 bit patterns (`f64::to_bits`), so
//! that the specification can be checked and compared exactly; `None`
//! marks a missing value.

use vstd::prelude::*;

use crate::digits::{decimal, push_decimal};
use crate::error::ChartError;

verus! {

/// Largest number of categories (or data points) in one chart.
pub const MAX_DATA_POINTS: usize = 100;

/// Largest number of series in one chart. Limited so that every series
/// keeps a color that stays distinguishable for common color-vision
/// deficiencies.
pub const MAX_SERIES: usize = 4;

/// The kind of chart.
#[derive(Debug, Clone, Copy, PartialEq, Eq, Structural)]
pub enum ChartType {
    Bar,
    Line,
}

/// The direction of the bars of a bar chart.
#[derive(Debug, Clone, Copy, PartialEq, Eq, Structural)]
pub enum Orientation {
    Vertical,
    Horizontal,
}

impl Default for Orientation {
    /// `Vertical`.
    fn default() -> (orientation: Self)
        ensures
            orientation == Orientation::Vertical,
    {
        Orientation::Vertical
    }
}

/// How values are written: as numbers, or as percentages of 1.
#[derive(Debug, Clone, Copy, PartialEq, Eq, Structural)]
pub enum ValueFormat {
    Number,
    Percent,
}

impl Default for ValueFormat {
    /// `Number`.
    fn default() -> (format: Self)
        ensures
            format == ValueFormat::Number,
    {
        ValueFormat::Number
    }
}

/// The axis along which the categories run.
#[derive(Debug, Clone, Default)]
pub struct CategoryAxisSpec {
    pub title: Option<String>,
}

/// The axis along which the values run.
#[derive(Debug, Clone, Default)]
pub struct ValueAxisSpec {
    pub title: Option<String>,
    pub format: ValueFormat,
}

/// One category of a single-series chart and its value.
#[derive(Debug, Clone)]
pub struct DataPoint {
    pub label: String,
    /// The value as binary64 bits; `None` when it is missing.
    pub value: Option<u64>,
}

/// One named series with one value per category; `None` marks a missing value.
#[derive(Debug, Clone)]
pub struct SeriesSpec {
    pub name: String,
    /// The values as binary64 bits.
    pub values: Vec<Option<u64>>,
}

/// A pre-computed zoom step: shows categories `from..=to` as its own chart variant.
#[derive(Debug, Clone)]
pub struct ZoomStep {
    pub label: String,
    pub from: usize,
    pub to: usize,
}

/// A chart specification, version 1.
#[derive(Debug, Clone)]
pub struct ChartSpec {
    pub schema_version: u8,
    pub chart_type: ChartType,
    pub orientation: Orientation,
    pub title: String,
    pub description: Option<String>,
    pub source: Option<String>,
    pub category_axis: CategoryAxisSpec,
    pub value_axis: ValueAxisSpec,
    pub width: u32,
    pub height: u32,
    pub show_values: bool,
    /// Single-series data. Use either `data` or `categories` with `series`.
    pub data: Vec<DataPoint>,
    pub categories: Vec<String>,
    pub series: Vec<SeriesSpec>,
    /// Optional zoom steps rendered as radio-selectable, pre-computed variants.
    pub zoom_steps: Vec<ZoomStep>,
}

/// Width in pixels when the specification gives none.
pub fn default_width() -> (width: u32)
    ensures
        width == 800,
{
    800
}

/// Height in pixels when the specification gives none.
pub fn default_height() -> (height: u32)
    ensures
        height == 450,
{
    450
}

/// Whether value labels are shown when the specification does not say.
pub fn default_show_values() -> (show: bool)
    ensures
        show,
{
    true
}

/// One series of a [`Dataset`].
#[derive(Debug, Clone)]
pub struct Series {
    /// `None` when the chart was given as a single `data` list.
    pub name: Option<String>,
    pub values: Vec<Option<u64>>,
}

/// Categories × series: the single shape that the description, the data
/// table and the layout work with.
#[derive(Debug, Clone)]
pub struct Dataset {
    pub categories: Vec<String>,
    pub series: Vec<Series>,
}

/// Copy of an optional text.
pub fn copy_text(text: &Option<String>) -> (copy: Option<String>)
    ensures
        copy == *text,
{
    match text {
        Some(text) => Some(text.clone()),
        None => None,
    }
}

impl ChartSpec {
    /// Whether the chart is given as categories with series rather than as
    /// a single `data` list.
    pub open spec fn uses_series(&self) -> bool {
        self.series@.len() != 0
    }

    /// Number of categories of the dataset.
    pub open spec fn category_count(&self) -> int {
        if self.uses_series() {
            self.categories@.len() as int
        } else {
            self.data@.len() as int
        }
    }

    /// Label of category `i` of the dataset.
    pub open spec fn category_label(&self, i: int) -> Seq<char> {
        if self.uses_series() {
            self.categories@[i]@
        } else {
            self.data@[i].label@
        }
    }

    /// Number of series of the dataset: one for a `data` list.
    pub open spec fn series_count(&self) -> int {
        if self.uses_series() {
            self.series@.len() as int
        } else {
            1
        }
    }

    /// Name of series `s` of the dataset; `None` for a `data` list.
    pub open spec fn series_name(&self, s: int) -> Option<Seq<char>> {
        if self.uses_series() {
            Some(self.series@[s].name@)
        } else {
            None
        }
    }

    /// Value of category `i` in series `s` of the dataset.
    pub open spec fn series_value(&self, s: int, i: int) -> Option<u64> {
        if self.uses_series() {
            self.series@[s].values@[i]
        } else {
            self.data@[i].value
        }
    }

    /// Number of values that series `s` of the dataset holds.
    pub open spec fn series_len(&self, s: int) -> int {
        if self.uses_series() {
            self.series@[s].values@.len() as int
        } else {
            self.data@.len() as int
        }
    }

    /// The specification as categories × series.
    pub fn dataset(&self) -> (dataset: Dataset)
        ensures
            dataset.matches(self),
    {
        if self.series.len() == 0 {
            let mut categories: Vec<String> = Vec::new();
            let mut values: Vec<Option<u64>> = Vec::new();
            let mut i: usize = 0;
            while i < self.data.len()
                invariant
                    self.series@.len() == 0,
                    i <= self.data@.len(),
                    categories@.len() == i,
                    values@.len() == i,
                    forall|j: int| 0 <= j < i ==> #[trigger] categories@[j]@ == self.data@[j].label@,
                    forall|j: int| 0 <= j < i ==> #[trigger] values@[j] == self.data@[j].value,
                decreases self.data@.len() - i,
            {
                categories.push(self.data[i].label.clone());
                values.push(self.data[i].value);
                i += 1;
            }
            let mut series: Vec<Series> = Vec::new();
            series.push(Series { name: None, values });
            Dataset { categories, series }
        } else {
            let mut categories: Vec<String> = Vec::new();
            let mut i: usize = 0;
            while i < self.categories.len()
                invariant
                    i <= self.categories@.len(),
                    categories@.len() == i,
                    forall|j: int| 0 <= j < i ==> #[trigger] categories@[j]@ == self.categories@[j]@,
                decreases self.categories@.len() - i,
            {
                categories.push(self.categories[i].clone());
                i += 1;
            }
            let mut series: Vec<Series> = Vec::new();
            let mut s: usize = 0;
            while s < self.series.len()
                invariant
                    self.series@.len() != 0,
                    s <= self.series@.len(),
                    series@.len() == s,
                    forall|k: int| 0 <= k < s ==> #[trigger] series@[k].name == Some(self.series@[k].name),
                    forall|k: int| 0 <= k < s ==> #[trigger] series@[k].values@ == self.series@[k].values@,
                decreases self.series@.len() - s,
            {
                let values = self.series[s].values.clone();
                series.push(Series { name: Some(self.series[s].name.clone()), values });
                s += 1;
            }
            let dataset = Dataset { categories, series };
            assert forall|k: int| 0 <= k < dataset.series@.len() implies
                #[trigger] dataset.series@[k].name_view() == self.series_name(k) by {
                assert(dataset.series@[k].name == Some(self.series@[k].name));
            }
            dataset
        }
    }

    /// A copy of this specification with categories and values cut to `from..=to`.
    pub fn sliced(&self, from: usize, to: usize) -> (spec: ChartSpec)
        requires
            from <= to,
            self.data@.len() == 0 ==> to < self.categories@.len(),
            self.data@.len() == 0 ==> forall|k: int|
                0 <= k < self.series@.len() ==> to < #[trigger] self.series@[k].values@.len(),
            self.data@.len() != 0 ==> to < self.data@.len(),
        ensures
            spec.schema_version == self.schema_version,
            spec.chart_type == self.chart_type,
            spec.orientation == self.orientation,
            spec.title == self.title,
            spec.description == self.description,
            spec.source == self.source,
            spec.category_axis.title == self.category_axis.title,
            spec.value_axis.title == self.value_axis.title,
            spec.value_axis.format == self.value_axis.format,
            spec.width == self.width,
            spec.height == self.height,
            spec.show_values == self.show_values,
            spec.zoom_steps@.len() == self.zoom_steps@.len(),
            forall|k: int| 0 <= k < self.zoom_steps@.len() ==> {
                &&& (#[trigger] spec.zoom_steps@[k]).label == self.zoom_steps@[k].label
                &&& spec.zoom_steps@[k].from == self.zoom_steps@[k].from
                &&& spec.zoom_steps@[k].to == self.zoom_steps@[k].to
            },
            self.data@.len() == 0 ==> {
                &&& spec.data@.len() == 0
                &&& spec.categories@.len() == to - from + 1
                &&& forall|j: int| 0 <= j <= to - from ==> #[trigger] spec.categories@[j] == self.categories@[from + j]
                &&& spec.series@.len() == self.series@.len()
                &&& forall|k: int| 0 <= k < self.series@.len() ==> {
                    &&& (#[trigger] spec.series@[k]).name == self.series@[k].name
                    &&& spec.series@[k].values@ == self.series@[k].values@.subrange(from as int, to + 1)
                }
            },
            self.data@.len() != 0 ==> {
                &&& spec.categories@.len() == self.categories@.len()
                &&& forall|j: int| 0 <= j < self.categories@.len() ==> #[trigger] spec.categories@[j] == self.categories@[j]
                &&& spec.series@.len() == self.series@.len()
                &&& forall|k: int| 0 <= k < self.series@.len() ==> {
                    &&& (#[trigger] spec.series@[k]).name == self.series@[k].name
                    &&& spec.series@[k].values@ == self.series@[k].values@
                }
                &&& spec.data@.len() == to - from + 1
                &&& forall|j: int| 0 <= j <= to - from ==> {
                    &&& (#[trigger] spec.data@[j]).label == self.data@[from + j].label
                    &&& spec.data@[j].value == self.data@[from + j].value
                }
            },
    {
        let sliced_data = self.data.len() != 0;
        let mut categories: Vec<String> = Vec::new();
        let mut j: usize = if sliced_data { 0 } else { from };
        let count = self.categories.len();
        let end: usize = if sliced_data { count } else { to + 1 };
        while j < end
            invariant
                end <= self.categories@.len(),
                (if sliced_data { 0 } else { from as int }) <= j <= end,
                sliced_data == (self.data@.len() != 0),
                categories@.len() == j - (if sliced_data { 0 } else { from as int }),
                forall|t: int| 0 <= t < categories@.len() ==> #[trigger] categories@[t] == self.categories@[t + (if sliced_data { 0 } else { from as int })],
            decreases end - j,
        {
            categories.push(self.categories[j].clone());
            j += 1;
        }
        let mut series: Vec<SeriesSpec> = Vec::new();
        let mut k: usize = 0;
        while k < self.series.len()
            invariant
                k <= self.series@.len(),
                series@.len() == k,
                sliced_data == (self.data@.len() != 0),
                from <= to,
                !sliced_data ==> forall|m: int|
                    0 <= m < self.series@.len() ==> to < #[trigger] self.series@[m].values@.len(),
                forall|m: int| 0 <= m < k ==> (#[trigger] series@[m]).name == self.series@[m].name,
                forall|m: int| 0 <= m < k ==> (#[trigger] series@[m]).values@ == if sliced_data {
                    self.series@[m].values@
                } else {
                    self.series@[m].values@.subrange(from as int, to + 1)
                },
            decreases self.series@.len() - k,
        {
            let source = &self.series[k];
            let mut values: Vec<Option<u64>> = Vec::new();
            let mut v: usize = if sliced_data { 0 } else { from };
            let count = source.values.len();
            let stop: usize = if sliced_data { count } else { to + 1 };
            while v < stop
                invariant
                    stop <= source.values@.len(),
                    (if sliced_data { 0 } else { from as int }) <= v <= stop,
                    values@.len() == v - (if sliced_data { 0 } else { from as int }),
                    forall|t: int| 0 <= t < values@.len() ==> #[trigger] values@[t] == source.values@[t + (if sliced_data { 0 } else { from as int })],
                decreases stop - v,
            {
                values.push(source.values[v]);
                v += 1;
            }
            assert(values@ =~= if sliced_data {
                source.values@
            } else {
                source.values@.subrange(from as int, to + 1)
            });
            series.push(SeriesSpec { name: source.name.clone(), values });
            k += 1;
        }
        let mut data: Vec<DataPoint> = Vec::new();
        let mut d: usize = if sliced_data { from } else { 0 };
        let last: usize = if sliced_data { to + 1 } else { 0 };
        while d < last
            invariant
                last <= self.data@.len(),
                (if sliced_data { from as int } else { 0 }) <= d,
                d <= last || (d == 0 && last == 0),
                data@.len() == d - (if sliced_data { from as int } else { 0 }),
                forall|t: int| 0 <= t < data@.len() ==> {
                    &&& (#[trigger] data@[t]).label == self.data@[t + (if sliced_data { from as int } else { 0 })].label
                    &&& data@[t].value == self.data@[t + (if sliced_data { from as int } else { 0 })].value
                },
            decreases last - d,
        {
            data.push(DataPoint { label: self.data[d].label.clone(), value: self.data[d].value });
            d += 1;
        }
        let mut zoom_steps: Vec<ZoomStep> = Vec::new();
        let mut z: usize = 0;
        while z < self.zoom_steps.len()
            invariant
                z <= self.zoom_steps@.len(),
                zoom_steps@.len() == z,
                forall|t: int| 0 <= t < z ==> {
                    &&& (#[trigger] zoom_steps@[t]).label == self.zoom_steps@[t].label
                    &&& zoom_steps@[t].from == self.zoom_steps@[t].from
                    &&& zoom_steps@[t].to == self.zoom_steps@[t].to
                },
            decreases self.zoom_steps@.len() - z,
        {
            let step = &self.zoom_steps[z];
            zoom_steps.push(ZoomStep { label: step.label.clone(), from: step.from, to: step.to });
            z += 1;
        }
        ChartSpec {
            schema_version: self.schema_version,
            chart_type: self.chart_type,
            orientation: self.orientation,
            title: self.title.clone(),
            description: copy_text(&self.description),
            source: copy_text(&self.source),
            category_axis: CategoryAxisSpec { title: copy_text(&self.category_axis.title) },
            value_axis: ValueAxisSpec {
                title: copy_text(&self.value_axis.title),
                format: self.value_axis.format,
            },
            width: self.width,
            height: self.height,
            show_values: self.show_values,
            data,
            categories,
            series,
            zoom_steps,
        }
    }
}

impl Series {
    /// The name as text.
    pub open spec fn name_view(&self) -> Option<Seq<char>> {
        match self.name {
            Some(name) => Some(name@),
            None => None,
        }
    }
}

impl Dataset {
    /// Whether this is the dataset of `spec`.
    pub open spec fn matches(&self, spec: &ChartSpec) -> bool {
        &&& self.categories@.len() == spec.category_count()
        &&& forall|i: int|
            0 <= i < self.categories@.len() ==> #[trigger] self.categories@[i]@ == spec.category_label(i)
        &&& self.series@.len() == spec.series_count()
        &&& forall|s: int|
            0 <= s < self.series@.len() ==> (#[trigger] self.series@[s]).name_view() == spec.series_name(s)
        &&& forall|s: int|
            0 <= s < self.series@.len() ==> (#[trigger] self.series@[s]).values@.len() == spec.series_len(s)
        &&& forall|s: int, i: int|
            0 <= s < self.series@.len() && 0 <= i < self.series@[s].values@.len()
                ==> #[trigger] self.series@[s].values@[i] == spec.series_value(s, i)
    }

    /// JSON Pointer to the label of category `index` in the specification.
    pub open spec fn category_path_spec(&self, index: int) -> Seq<char> {
        if self.series@[0].name is None {
            "/data/"@ + decimal(index) + "/label"@
        } else {
            "/categories/"@ + decimal(index)
        }
    }

    /// JSON Pointer to the label of category `index` in the specification.
    pub fn category_path(&self, index: usize) -> (path: String)
        requires
            self.series@.len() > 0,
        ensures
            path@ == self.category_path_spec(index as int),
    {
        let mut path = String::new();
        if self.series[0].name.is_none() {
            path.append("/data/");
            push_decimal(&mut path, index);
            path.append("/label");
        } else {
            path.append("/categories/");
            push_decimal(&mut path, index);
        }
        path
    }
}

/// One step of the path to the place in the JSON document where reading
/// the specification failed.
#[derive(Debug, Clone)]
pub enum Segment {
    /// An element of an array.
    Index { index: usize },
    /// A member of an object.
    Key { key: String },
    /// A variant of an enumeration.
    Variant { variant: String },
    /// A step that cannot be named.
    Unknown,
}

/// What kind of failure stopped reading a specification.
#[derive(Debug, Clone, Copy, PartialEq, Eq, Structural)]
pub enum ParseFailure {
    /// Reading the input failed.
    Io,
    /// The input is not JSON.
    Syntax,
    /// The JSON does not match the specification.
    Data,
    /// The input ended early.
    Eof,
}

/// A member name as a JSON Pointer reference token: `~` written as `~0`
/// and `/` as `~1`.
pub open spec fn pointer_token(key: Seq<char>) -> Seq<char>
    decreases key.len(),
{
    if key.len() == 0 {
        seq![]
    } else {
        pointer_token(key.drop_last()) + if key.last() == '~' {
            "~0"@
        } else if key.last() == '/' {
            "~1"@
        } else {
            seq![key.last()]
        }
    }
}

/// The JSON Pointer text of one step.
pub open spec fn segment_text(segment: Segment) -> Seq<char> {
    match segment {
        Segment::Index { index } => "/"@ + decimal(index as int),
        Segment::Key { key } => "/"@ + pointer_token(key@),
        Segment::Variant { variant } => "/"@ + variant@,
        Segment::Unknown => seq![],
    }
}

/// The JSON Pointer text of the first `n` steps.
pub open spec fn segments_text(path: Seq<Segment>, n: int) -> Seq<char>
    decreases n,
{
    if n <= 0 {
        seq![]
    } else {
        segments_text(path, n - 1) + segment_text(path[n - 1])
    }
}

/// The JSON Pointer of a path; `/` for the document root.
pub open spec fn pointer_spec(path: Seq<Segment>) -> Seq<char> {
    let text = segments_text(path, path.len() as int);
    if text.len() == 0 {
        "/"@
    } else {
        text
    }
}

fn push_pointer_token(out: &mut String, key: &str)
    ensures
        final(out)@ == old(out)@ + pointer_token(key@),
{
    let ghost start = out@;
    let length = key.unicode_len();
    let mut i: usize = 0;
    while i < length
        invariant
            length == key@.len(),
            i <= length,
            out@ == start + pointer_token(key@.take(i as int)),
        decreases length - i,
    {
        let c = key.get_char(i);
        assert(key@.take(i + 1).drop_last() =~= key@.take(i as int));
        let ghost before = out@;
        if c == '~' {
            out.append("~0");
        } else if c == '/' {
            out.append("~1");
        } else {
            let single = key.substring_char(i, i + 1);
            assert(single@ =~= seq![c]);
            out.append(single);
        }
        assert(out@ =~= start + pointer_token(key@.take(i + 1)));
        i += 1;
    }
    assert(key@.take(length as int) =~= key@);
}

/// Converts the path of a failed read into the JSON Pointer that
/// validation errors use, such as `/data/0/value`. The document root is `/`.
pub fn json_pointer(path: &Vec<Segment>) -> (pointer: String)
    ensures
        pointer@ == pointer_spec(path@),
{
    let mut pointer = String::new();
    let mut i: usize = 0;
    while i < path.len()
        invariant
            i <= path@.len(),
            pointer@ == segments_text(path@, i as int),
        decreases path@.len() - i,
    {
        let mut step = String::new();
        match &path[i] {
            Segment::Index { index } => {
                step.append("/");
                push_decimal(&mut step, *index);
            },
            Segment::Key { key } => {
                step.append("/");
                push_pointer_token(&mut step, key.as_str());
            },
            Segment::Variant { variant } => {
                step.append("/");
                step.append(variant.as_str());
            },
            Segment::Unknown => {},
        }
        assert(step@ =~= segment_text(path@[i as int]));
        pointer.append(step.as_str());
        i += 1;
    }
    if pointer.unicode_len() == 0 {
        "/".to_string()
    } else {
        pointer
    }
}

/// The error for a specification that could not be read: `invalid_json`
/// at `/` when the input is not JSON or ends early, `invalid_spec` at the
/// place of the mismatch when the JSON does not match the specification.
pub fn read_error(failure: ParseFailure, path: &Vec<Segment>, message: &str) -> (error: ChartError)
    ensures
        failure == ParseFailure::Syntax || failure == ParseFailure::Eof ==> error@ == (
            "invalid_json"@,
            "/"@,
            message@,
        ),
        failure == ParseFailure::Data || failure == ParseFailure::Io ==> error@ == (
            "invalid_spec"@,
            pointer_spec(path@),
            message@,
        ),
{
    match failure {
        ParseFailure::Syntax | ParseFailure::Eof => ChartError::new("invalid_json", "/", message),
        ParseFailure::Data | ParseFailure::Io => {
            let pointer = json_pointer(path);
            ChartError::new("invalid_spec", pointer.as_str(), message)
        },
    }
}

proof fn lemma_segments_text_start(path: Seq<Segment>, n: int)
    ensures
        segments_text(path, n).len() == 0 || segments_text(path, n)[0] == '/',
    decreases n,
{
    reveal_strlit("/");
    if n > 0 {
        lemma_segments_text_start(path, n - 1);
        let head = segments_text(path, n - 1);
        let step = segment_text(path[n - 1]);
        assert(step.len() == 0 || step[0] == '/');
        if head.len() == 0 {
            assert(segments_text(path, n) =~= step);
        } else {
            assert(segments_text(path, n)[0] == head[0]);
        }
    }
}

/// The path of a failed read is always a JSON Pointer: it starts with `/`.
pub proof fn lemma_pointer_starts_at_root(path: Seq<Segment>)
    ensures
        pointer_spec(path).len() > 0,
        pointer_spec(path)[0] == '/',
{
    reveal_strlit("/");
    lemma_segments_text_start(path, path.len() as int);
}

} // verus!
