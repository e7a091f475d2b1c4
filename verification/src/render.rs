//! Writes a laid-out chart as SVG, and the SVG with its data table as an
//! HTML figure.
//!
//! Coordinates reach this module as the text that goes into the SVG; the
//! layout writes every coordinate with at most three decimals.

use vstd::prelude::*;

use crate::digits::{decimal, push_decimal};
use crate::spec::{ChartSpec, Dataset};
use crate::TableMode;

verus! {

/// Styles of every chart.
pub const STYLE: &'static str = ".chartlet-root{max-width:100%;height:auto;font-family:Inter,ui-sans-serif,system-ui,sans-serif;color:#172033}.chartlet-title{font-size:22px;font-weight:650;fill:#172033}.chartlet-label,.chartlet-tick,.chartlet-value,.chartlet-value-inverse,.chartlet-axis-title{font-size:12px;fill:#344054}.chartlet-value,.chartlet-value-inverse{font-weight:600}.chartlet-value{fill:#172033}.chartlet-value-inverse{fill:#fff}.chartlet-axis-title{font-weight:600}.chartlet-grid{stroke:#d9dee8;stroke-width:1}.chartlet-zero{stroke:#667085;stroke-width:1.5}.chartlet-bar,.chartlet-point{fill:#2563eb}.chartlet-line{fill:none;stroke:#2563eb;stroke-width:3;stroke-linecap:round;stroke-linejoin:round}";

/// Styles of the legend and the series colors, only emitted for
/// multi-series charts. The palette stays distinguishable under simulated
/// protanopia, deuteranopia and tritanopia and keeps at least 4.5:1
/// contrast on white.
pub const SERIES_STYLE: &'static str = ".chartlet-legend{font-size:12px;fill:#344054}.chartlet-series-1{fill:#2563eb}.chartlet-series-2{fill:#c2410c}.chartlet-series-3{fill:#475569}.chartlet-series-4{fill:#111827}";

/// Where a text stands relative to its position.
#[derive(Debug, Clone, Copy, PartialEq, Eq, Structural)]
pub enum TextAnchor {
    Start,
    Middle,
    End,
}

/// The value of the `text-anchor` attribute.
pub open spec fn anchor_spec(anchor: TextAnchor) -> Seq<char> {
    match anchor {
        TextAnchor::Start => "start"@,
        TextAnchor::Middle => "middle"@,
        TextAnchor::End => "end"@,
    }
}

/// The value of the `text-anchor` attribute.
pub fn anchor(position: TextAnchor) -> (name: &'static str)
    ensures
        name@ == anchor_spec(position),
{
    match position {
        TextAnchor::Start => "start",
        TextAnchor::Middle => "middle",
        TextAnchor::End => "end",
    }
}

/// A point mark.
#[derive(Debug, Clone)]
pub struct Circle {
    pub cx: String,
    pub cy: String,
    pub radius: String,
    pub class: &'static str,
    /// The series (counted from 0) that the series filter shows or hides.
    pub series_index: Option<usize>,
    /// The native hover hint, written as the mark's `<title>`.
    pub tooltip: Option<String>,
}

/// A grid or zero line.
#[derive(Debug, Clone)]
pub struct Line {
    pub x1: String,
    pub y1: String,
    pub x2: String,
    pub y2: String,
    pub class: &'static str,
}

/// A bar or a legend swatch.
#[derive(Debug, Clone)]
pub struct Rect {
    pub x: String,
    pub y: String,
    pub width: String,
    pub height: String,
    pub class: &'static str,
    /// The series (counted from 0) that the series filter shows or hides.
    pub series_index: Option<usize>,
    /// The native hover hint, written as the mark's `<title>`.
    pub tooltip: Option<String>,
}

/// A connected run of points of a line chart.
#[derive(Debug, Clone)]
pub struct Polyline {
    pub points: Vec<(String, String)>,
    pub class: &'static str,
}

/// A title, label, tick or value.
#[derive(Debug, Clone)]
pub struct Text {
    pub x: String,
    pub y: String,
    pub class: &'static str,
    pub anchor: TextAnchor,
    pub content: String,
    /// The series (counted from 0) that the series filter shows or hides.
    pub series_index: Option<usize>,
}

/// One mark of a chart.
#[derive(Debug, Clone)]
pub enum Element {
    Circle(Circle),
    Line(Line),
    Polyline(Polyline),
    Rect(Rect),
    Text(Text),
}

/// A laid-out chart: its size in pixels and its marks in drawing order.
#[derive(Debug, Clone)]
pub struct Scene {
    pub width: u32,
    pub height: u32,
    pub elements: Vec<Element>,
}

/// A character as it appears in XML text and attribute values.
pub open spec fn markup_char(c: char) -> Seq<char> {
    if c == '&' {
        "&amp;"@
    } else if c == '<' {
        "&lt;"@
    } else if c == '>' {
        "&gt;"@
    } else if c == '"' {
        "&quot;"@
    } else if c == '\'' {
        "&#39;"@
    } else {
        seq![c]
    }
}

/// Text with `&`, `<`, `>`, `"` and `'` replaced by character references.
pub open spec fn markup(text: Seq<char>) -> Seq<char>
    decreases text.len(),
{
    if text.len() == 0 {
        seq![]
    } else {
        markup(text.drop_last()) + markup_char(text.last())
    }
}

/// Escapes text for XML text and attribute values.
pub fn escape(value: &str) -> (out: String)
    ensures
        out@ == markup(value@),
{
    let mut out = String::new();
    let length = value.unicode_len();
    let mut i: usize = 0;
    while i < length
        invariant
            length == value@.len(),
            i <= length,
            out@ == markup(value@.take(i as int)),
        decreases length - i,
    {
        let c = value.get_char(i);
        assert(value@.take(i + 1).drop_last() =~= value@.take(i as int));
        if c == '&' {
            out.append("&amp;");
        } else if c == '<' {
            out.append("&lt;");
        } else if c == '>' {
            out.append("&gt;");
        } else if c == '"' {
            out.append("&quot;");
        } else if c == '\'' {
            out.append("&#39;");
        } else {
            let single = value.substring_char(i, i + 1);
            assert(single@ =~= seq![c]);
            out.append(single);
        }
        i += 1;
    }
    assert(value@.take(length as int) =~= value@);
    out
}

/// The points of a polyline: `x,y` pairs separated by spaces.
pub open spec fn points_text(points: Seq<(String, String)>) -> Seq<char>
    decreases points.len(),
{
    if points.len() == 0 {
        seq![]
    } else if points.len() == 1 {
        points[0].0@ + ","@ + points[0].1@
    } else {
        points_text(points.drop_last()) + " "@ + points.last().0@ + ","@ + points.last().1@
    }
}

/// The attribute that ties a mark to a series for the series filter.
pub open spec fn series_attribute_text(series_index: Option<usize>) -> Seq<char> {
    match series_index {
        Some(index) => " data-series=\""@ + decimal(index as int) + "\""@,
        None => seq![],
    }
}

/// The end of a mark: self-closing, or its tooltip as a `<title>` child
/// followed by `closing`.
pub open spec fn mark_end_text(tooltip: Option<String>, closing: Seq<char>) -> Seq<char> {
    match tooltip {
        Some(tooltip) => "><title>"@ + markup(tooltip@) + "</title>"@ + closing,
        None => "/>"@,
    }
}

/// The SVG markup of one mark.
pub open spec fn element_text(element: Element) -> Seq<char> {
    match element {
        Element::Circle(circle) => "<circle cx=\""@ + circle.cx@ + "\" cy=\""@ + circle.cy@
            + "\" r=\""@ + circle.radius@ + "\" class=\""@ + circle.class@ + "\""@
            + series_attribute_text(circle.series_index) + mark_end_text(
            circle.tooltip,
            "</circle>"@,
        ),
        Element::Line(line) => "<line x1=\""@ + line.x1@ + "\" y1=\""@ + line.y1@ + "\" x2=\""@
            + line.x2@ + "\" y2=\""@ + line.y2@ + "\" class=\""@ + line.class@ + "\"/>"@,
        Element::Rect(rect) => "<rect x=\""@ + rect.x@ + "\" y=\""@ + rect.y@ + "\" width=\""@
            + rect.width@ + "\" height=\""@ + rect.height@ + "\" class=\""@ + rect.class@
            + "\""@ + series_attribute_text(rect.series_index) + mark_end_text(
            rect.tooltip,
            "</rect>"@,
        ),
        Element::Polyline(polyline) => "<polyline points=\""@ + points_text(polyline.points@)
            + "\" class=\""@ + polyline.class@ + "\"/>"@,
        Element::Text(text) => "<text x=\""@ + text.x@ + "\" y=\""@ + text.y@
            + "\" text-anchor=\""@ + anchor_spec(text.anchor) + "\" class=\""@ + text.class@
            + "\""@ + series_attribute_text(text.series_index) + ">"@ + markup(text.content@)
            + "</text>"@,
    }
}

/// The SVG markup of the first `n` marks.
pub open spec fn elements_text(elements: Seq<Element>, n: int) -> Seq<char>
    decreases n,
{
    if n <= 0 {
        seq![]
    } else {
        elements_text(elements, n - 1) + element_text(elements[n - 1])
    }
}

/// The opening `svg` tag, the accessible name and description, and the styles.
pub open spec fn svg_head(
    scene: Scene,
    title: Seq<char>,
    description: Seq<char>,
    id_prefix: Seq<char>,
    several_series: bool,
) -> Seq<char> {
    let title_id = id_prefix + "-title"@;
    let description_id = id_prefix + "-description"@;
    "<svg xmlns=\"http://www.w3.org/2000/svg\" width=\""@ + decimal(scene.width as int)
        + "\" height=\""@ + decimal(scene.height as int) + "\" viewBox=\"0 0 "@ + decimal(
        scene.width as int,
    ) + " "@ + decimal(scene.height as int) + "\" role=\"img\" aria-labelledby=\""@ + title_id
        + " "@ + description_id + "\" class=\"chartlet-root\">"@ + "<title id=\""@ + title_id
        + "\">"@ + markup(title) + "</title><desc id=\""@ + description_id + "\">"@ + markup(
        description,
    ) + "</desc><style>"@ + STYLE@ + (if several_series {
        SERIES_STYLE@
    } else {
        ""@
    }) + "</style>"@
}

/// The SVG document of a laid-out chart.
pub open spec fn svg_text(
    scene: Scene,
    title: Seq<char>,
    description: Seq<char>,
    id_prefix: Seq<char>,
    several_series: bool,
) -> Seq<char> {
    svg_head(scene, title, description, id_prefix, several_series) + elements_text(
        scene.elements@,
        scene.elements@.len() as int,
    ) + "</svg>"@
}

fn points_markup(points: &Vec<(String, String)>) -> (out: String)
    ensures
        out@ == points_text(points@),
{
    let mut out = String::new();
    let mut i: usize = 0;
    while i < points.len()
        invariant
            i <= points@.len(),
            out@ == points_text(points@.take(i as int)),
        decreases points@.len() - i,
    {
        assert(points@.take(i + 1).drop_last() =~= points@.take(i as int));
        if i > 0 {
            out.append(" ");
        }
        out.append(points[i].0.as_str());
        out.append(",");
        out.append(points[i].1.as_str());
        proof {
            if i == 0 {
                assert(out@ =~= points_text(points@.take(1)));
            }
        }
        i += 1;
    }
    assert(points@.take(points@.len() as int) =~= points@);
    out
}

fn series_attribute(series_index: Option<usize>) -> (out: String)
    ensures
        out@ == series_attribute_text(series_index),
{
    let mut out = String::new();
    if let Some(index) = series_index {
        out.append(" data-series=\"");
        push_decimal(&mut out, index);
        out.append("\"");
    }
    out
}

fn mark_end(tooltip: &Option<String>, closing: &str) -> (out: String)
    ensures
        out@ == mark_end_text(*tooltip, closing@),
{
    let mut out = String::new();
    match tooltip {
        Some(tooltip) => {
            let text = escape(tooltip.as_str());
            out.append("><title>");
            out.append(text.as_str());
            out.append("</title>");
            out.append(closing);
        },
        None => {
            out.append("/>");
        },
    }
    out
}

fn element_markup(element: &Element) -> (out: String)
    ensures
        out@ == element_text(*element),
{
    let mut out = String::new();
    match element {
        Element::Circle(circle) => {
            let series = series_attribute(circle.series_index);
            let end = mark_end(&circle.tooltip, "</circle>");
            out.append("<circle cx=\"");
            out.append(circle.cx.as_str());
            out.append("\" cy=\"");
            out.append(circle.cy.as_str());
            out.append("\" r=\"");
            out.append(circle.radius.as_str());
            out.append("\" class=\"");
            out.append(circle.class);
            out.append("\"");
            out.append(series.as_str());
            out.append(end.as_str());
        },
        Element::Line(line) => {
            out.append("<line x1=\"");
            out.append(line.x1.as_str());
            out.append("\" y1=\"");
            out.append(line.y1.as_str());
            out.append("\" x2=\"");
            out.append(line.x2.as_str());
            out.append("\" y2=\"");
            out.append(line.y2.as_str());
            out.append("\" class=\"");
            out.append(line.class);
            out.append("\"/>");
        },
        Element::Rect(rect) => {
            let series = series_attribute(rect.series_index);
            let end = mark_end(&rect.tooltip, "</rect>");
            out.append("<rect x=\"");
            out.append(rect.x.as_str());
            out.append("\" y=\"");
            out.append(rect.y.as_str());
            out.append("\" width=\"");
            out.append(rect.width.as_str());
            out.append("\" height=\"");
            out.append(rect.height.as_str());
            out.append("\" class=\"");
            out.append(rect.class);
            out.append("\"");
            out.append(series.as_str());
            out.append(end.as_str());
        },
        Element::Polyline(polyline) => {
            let points = points_markup(&polyline.points);
            out.append("<polyline points=\"");
            out.append(points.as_str());
            out.append("\" class=\"");
            out.append(polyline.class);
            out.append("\"/>");
        },
        Element::Text(text) => {
            let content = escape(text.content.as_str());
            let series = series_attribute(text.series_index);
            out.append("<text x=\"");
            out.append(text.x.as_str());
            out.append("\" y=\"");
            out.append(text.y.as_str());
            out.append("\" text-anchor=\"");
            out.append(anchor(text.anchor));
            out.append("\" class=\"");
            out.append(text.class);
            out.append("\"");
            out.append(series.as_str());
            out.append(">");
            out.append(content.as_str());
            out.append("</text>");
        },
    }
    out
}

/// Writes a laid-out chart as a standalone SVG document: `role="img"`,
/// named by the title and described by `description` through
/// `aria-labelledby`, with ids that start with `id_prefix`.
pub fn svg(scene: &Scene, spec: &ChartSpec, description: &str, id_prefix: &str) -> (out: String)
    ensures
        out@ == svg_text(*scene, spec.title@, description@, id_prefix@, spec.series@.len() > 1),
{
    let mut title_id = String::new();
    title_id.append(id_prefix);
    title_id.append("-title");
    let mut description_id = String::new();
    description_id.append(id_prefix);
    description_id.append("-description");
    let title = escape(spec.title.as_str());
    let escaped_description = escape(description);
    let mut out = String::new();
    out.append("<svg xmlns=\"http://www.w3.org/2000/svg\" width=\"");
    push_decimal(&mut out, scene.width as usize);
    out.append("\" height=\"");
    push_decimal(&mut out, scene.height as usize);
    out.append("\" viewBox=\"0 0 ");
    push_decimal(&mut out, scene.width as usize);
    out.append(" ");
    push_decimal(&mut out, scene.height as usize);
    out.append("\" role=\"img\" aria-labelledby=\"");
    out.append(title_id.as_str());
    out.append(" ");
    out.append(description_id.as_str());
    out.append("\" class=\"chartlet-root\">");
    out.append("<title id=\"");
    out.append(title_id.as_str());
    out.append("\">");
    out.append(title.as_str());
    out.append("</title><desc id=\"");
    out.append(description_id.as_str());
    out.append("\">");
    out.append(escaped_description.as_str());
    out.append("</desc><style>");
    out.append(STYLE);
    if spec.series.len() > 1 {
        out.append(SERIES_STYLE);
    } else {
        out.append("");
    }
    out.append("</style>");
    assert(out@ == svg_head(*scene, spec.title@, description@, id_prefix@, spec.series@.len() > 1));
    let ghost head = out@;
    let mut i: usize = 0;
    while i < scene.elements.len()
        invariant
            i <= scene.elements@.len(),
            out@ == head + elements_text(scene.elements@, i as int),
        decreases scene.elements@.len() - i,
    {
        let element = element_markup(&scene.elements[i]);
        out.append(element.as_str());
        i += 1;
    }
    out.append("</svg>");
    out
}

/// The header cell of series `s` of the data table.
pub open spec fn header_cell(spec: ChartSpec, s: int) -> Seq<char> {
    "<th scope=\"col\">"@ + markup(
        match spec.series_name(s) {
            Some(name) => name,
            None => "Value"@,
        },
    ) + "</th>"@
}

/// The header cells of the first `n` series.
pub open spec fn header_cells(spec: ChartSpec, n: int) -> Seq<char>
    decreases n,
{
    if n <= 0 {
        seq![]
    } else {
        header_cells(spec, n - 1) + header_cell(spec, n - 1)
    }
}

/// The cell of series `s` in row `i`: the value as written in
/// `value_texts[s][i]`, or `Missing`.
pub open spec fn value_cell(spec: ChartSpec, value_texts: Seq<Vec<String>>, s: int, i: int) -> Seq<
    char,
> {
    "<td>"@ + match spec.series_value(s, i) {
        Some(_) => markup(value_texts[s]@[i]@),
        None => "Missing"@,
    } + "</td>"@
}

/// The first `n` value cells of row `i`.
pub open spec fn value_cells(spec: ChartSpec, value_texts: Seq<Vec<String>>, i: int, n: int) -> Seq<
    char,
>
    decreases n,
{
    if n <= 0 {
        seq![]
    } else {
        value_cells(spec, value_texts, i, n - 1) + value_cell(spec, value_texts, n - 1, i)
    }
}

/// Row `i` of the data table: the category and one cell per series.
pub open spec fn table_row(spec: ChartSpec, value_texts: Seq<Vec<String>>, i: int) -> Seq<char> {
    "<tr><th scope=\"row\">"@ + markup(spec.category_label(i)) + "</th>"@ + value_cells(
        spec,
        value_texts,
        i,
        spec.series_count(),
    ) + "</tr>"@
}

/// The first `n` rows of the data table.
pub open spec fn table_rows(spec: ChartSpec, value_texts: Seq<Vec<String>>, n: int) -> Seq<char>
    decreases n,
{
    if n <= 0 {
        seq![]
    } else {
        table_rows(spec, value_texts, n - 1) + table_row(spec, value_texts, n - 1)
    }
}

/// The CSS rule that hides the marks of series `k` while its checkbox is cleared.
pub open spec fn filter_rule(k: int) -> Seq<char> {
    ".chartlet-figure:has(.chartlet-toggle-"@ + decimal(k) + ":not(:checked)) [data-series=\""@
        + decimal(k) + "\"]{display:none}"@
}

/// The rules of the first `n` series.
pub open spec fn filter_rules(n: int) -> Seq<char>
    decreases n,
{
    if n <= 0 {
        seq![]
    } else {
        filter_rules(n - 1) + filter_rule(n - 1)
    }
}

/// The checkbox of series `k`, checked at first, labelled with its name.
pub open spec fn filter_box(spec: ChartSpec, k: int) -> Seq<char> {
    "<label><input type=\"checkbox\" class=\"chartlet-toggle-"@ + decimal(k) + "\" checked> "@
        + markup(spec.series@[k].name@) + "</label>"@
}

/// The checkboxes of the first `n` series.
pub open spec fn filter_boxes(spec: ChartSpec, n: int) -> Seq<char>
    decreases n,
{
    if n <= 0 {
        seq![]
    } else {
        filter_boxes(spec, n - 1) + filter_box(spec, n - 1)
    }
}

/// The series filter of a chart with several series: one checkbox per
/// series that shows or hides its bars and value labels; nothing for a
/// single series.
pub open spec fn series_filter_text(spec: ChartSpec) -> Seq<char> {
    if spec.series@.len() > 1 {
        "<style>"@ + filter_rules(spec.series@.len() as int)
            + "</style><fieldset class=\"chartlet-filter\"><legend>Series</legend>"@
            + filter_boxes(spec, spec.series@.len() as int) + "</fieldset>"@
    } else {
        seq![]
    }
}

/// The CSS rule that hides every variant but that of zoom step `k` while
/// its radio button is selected.
pub open spec fn zoom_rule(k: int) -> Seq<char> {
    ".chartlet-figure:has(.chartlet-zoom-"@ + decimal(k)
        + ":checked) .chartlet-variant:not(.chartlet-variant-"@ + decimal(k) + "){display:none}"@
}

/// The rules of the first `n` zoom steps.
pub open spec fn zoom_rules(n: int) -> Seq<char>
    decreases n,
{
    if n <= 0 {
        seq![]
    } else {
        zoom_rules(n - 1) + zoom_rule(n - 1)
    }
}

/// The radio button of zoom step `k`, labelled with the step; the first
/// one is selected at first.
pub open spec fn zoom_radio(spec: ChartSpec, id_prefix: Seq<char>, k: int) -> Seq<char> {
    "<label><input type=\"radio\" name=\""@ + id_prefix + "-zoom\" class=\"chartlet-zoom-"@
        + decimal(k) + "\""@ + (if k == 0 {
        " checked"@
    } else {
        seq![]
    }) + "> "@ + markup(spec.zoom_steps@[k].label@) + "</label>"@
}

/// The radio buttons of the first `n` zoom steps.
pub open spec fn zoom_radios(spec: ChartSpec, id_prefix: Seq<char>, n: int) -> Seq<char>
    decreases n,
{
    if n <= 0 {
        seq![]
    } else {
        zoom_radios(spec, id_prefix, n - 1) + zoom_radio(spec, id_prefix, n - 1)
    }
}

/// The pre-rendered variant of zoom step `k`.
pub open spec fn zoom_variant(variants: Seq<String>, k: int) -> Seq<char> {
    "<div class=\"chartlet-variant chartlet-variant-"@ + decimal(k) + "\">"@ + variants[k]@
        + "</div>"@
}

/// The variants of the first `n` zoom steps.
pub open spec fn zoom_variants(variants: Seq<String>, n: int) -> Seq<char>
    decreases n,
{
    if n <= 0 {
        seq![]
    } else {
        zoom_variants(variants, n - 1) + zoom_variant(variants, n - 1)
    }
}

/// The chart of the figure: the SVG, or with zoom steps one radio button
/// and one pre-rendered SVG variant per step.
pub open spec fn chart_body_text(
    svg: Seq<char>,
    spec: ChartSpec,
    id_prefix: Seq<char>,
    variants: Seq<String>,
) -> Seq<char> {
    let n = spec.zoom_steps@.len() as int;
    if n == 0 {
        svg
    } else {
        "<style>"@ + zoom_rules(n) + "</style><fieldset class=\"chartlet-zoom\"><legend>Zoom</legend>"@
            + zoom_radios(spec, id_prefix, n) + "</fieldset>"@ + zoom_variants(variants, n)
    }
}

/// The source line below the chart, if the specification names one.
pub open spec fn source_text(spec: ChartSpec) -> Seq<char> {
    match spec.source {
        Some(source) => "<p class=\"chartlet-source\">Source: "@ + markup(source@) + "</p>"@,
        None => seq![],
    }
}

/// Everything of the HTML figure before the rows of the data table.
pub open spec fn html_head(
    svg: Seq<char>,
    spec: ChartSpec,
    table_mode: TableMode,
    id_prefix: Seq<char>,
    variants: Seq<String>,
) -> Seq<char> {
    "<figure class=\"chartlet-figure\"><figcaption>"@ + markup(spec.title@) + "</figcaption>"@
        + series_filter_text(spec) + chart_body_text(svg, spec, id_prefix, variants) + source_text(
        spec,
    ) + if table_mode == TableMode::Details {
        "<details class=\"chartlet-data\"><summary>Show chart data</summary>"@
    } else {
        "<div class=\"chartlet-data\">"@
    } + "<table><thead><tr><th scope=\"col\">Category</th>"@ + header_cells(
        spec,
        spec.series_count(),
    ) + "</tr></thead><tbody>"@
}

/// Everything of the HTML figure after the rows of the data table.
pub open spec fn html_tail(table_mode: TableMode) -> Seq<char> {
    "</tbody></table>"@ + if table_mode == TableMode::Details {
        "</details>"@
    } else {
        "</div>"@
    } + "</figure>"@
}

/// The HTML figure: caption, series filter, the chart (or its zoom
/// variants), source and a data table with every value.
pub open spec fn html_text(
    svg: Seq<char>,
    spec: ChartSpec,
    table_mode: TableMode,
    value_texts: Seq<Vec<String>>,
    id_prefix: Seq<char>,
    variants: Seq<String>,
) -> Seq<char> {
    html_head(svg, spec, table_mode, id_prefix, variants) + table_rows(
        spec,
        value_texts,
        spec.category_count(),
    ) + html_tail(table_mode)
}

/// Whether `value_texts[s][i]` can hold the written value of category `i`
/// in series `s`, for every series and category of `spec`.
pub open spec fn fits_table(spec: ChartSpec, value_texts: Seq<Vec<String>>) -> bool {
    &&& value_texts.len() == spec.series_count()
    &&& forall|s: int|
        0 <= s < spec.series_count() ==> (#[trigger] value_texts[s])@.len()
            == spec.category_count()
    &&& forall|s: int| 0 <= s < spec.series_count() ==> spec.category_count() <= #[trigger] spec.series_len(s)
}

fn header_markup(spec: &ChartSpec, dataset: &Dataset) -> (out: String)
    requires
        dataset.matches(spec),
    ensures
        out@ == header_cells(*spec, spec.series_count()),
{
    let mut out = String::new();
    let mut s: usize = 0;
    while s < dataset.series.len()
        invariant
            dataset.matches(spec),
            s <= dataset.series@.len(),
            out@ == header_cells(*spec, s as int),
        decreases dataset.series@.len() - s,
    {
        let name = match &dataset.series[s].name {
            Some(name) => escape(name.as_str()),
            None => escape("Value"),
        };
        assert(dataset.series@[s as int].name_view() == spec.series_name(s as int));
        out.append("<th scope=\"col\">");
        out.append(name.as_str());
        out.append("</th>");
        s += 1;
    }
    out
}

fn row_markup(spec: &ChartSpec, dataset: &Dataset, value_texts: &Vec<Vec<String>>, i: usize) -> (out:
    String)
    requires
        dataset.matches(spec),
        fits_table(*spec, value_texts@),
        i < spec.category_count(),
    ensures
        out@ == table_row(*spec, value_texts@, i as int),
{
    let category = escape(dataset.categories[i].as_str());
    let mut out = String::new();
    out.append("<tr><th scope=\"row\">");
    out.append(category.as_str());
    out.append("</th>");
    let ghost head = out@;
    let mut s: usize = 0;
    while s < dataset.series.len()
        invariant
            dataset.matches(spec),
            fits_table(*spec, value_texts@),
            i < spec.category_count(),
            s <= dataset.series@.len(),
            out@ == head + value_cells(*spec, value_texts@, i as int, s as int),
        decreases dataset.series@.len() - s,
    {
        assert(spec.category_count() <= spec.series_len(s as int));
        assert(dataset.series@[s as int].values@[i as int] == spec.series_value(s as int, i as int));
        let mut cell = String::new();
        cell.append("<td>");
        match dataset.series[s].values[i] {
            Some(_) => {
                let text = escape(value_texts[s][i].as_str());
                cell.append(text.as_str());
            },
            None => {
                cell.append("Missing");
            },
        }
        cell.append("</td>");
        out.append(cell.as_str());
        s += 1;
    }
    out.append("</tr>");
    out
}

fn series_filter(spec: &ChartSpec) -> (out: String)
    ensures
        out@ == series_filter_text(*spec),
{
    if spec.series.len() <= 1 {
        return String::new();
    }
    let mut rules = String::new();
    let mut boxes = String::new();
    let mut k: usize = 0;
    while k < spec.series.len()
        invariant
            k <= spec.series@.len(),
            rules@ == filter_rules(k as int),
            boxes@ == filter_boxes(*spec, k as int),
        decreases spec.series@.len() - k,
    {
        let mut rule = ".chartlet-figure:has(.chartlet-toggle-".to_string();
        push_decimal(&mut rule, k);
        rule.append(":not(:checked)) [data-series=\"");
        push_decimal(&mut rule, k);
        rule.append("\"]{display:none}");
        rules.append(rule.as_str());
        let name = escape(spec.series[k].name.as_str());
        let mut checkbox = "<label><input type=\"checkbox\" class=\"chartlet-toggle-".to_string();
        push_decimal(&mut checkbox, k);
        checkbox.append("\" checked> ");
        checkbox.append(name.as_str());
        checkbox.append("</label>");
        boxes.append(checkbox.as_str());
        k += 1;
    }
    let mut out = "<style>".to_string();
    out.append(rules.as_str());
    out.append("</style><fieldset class=\"chartlet-filter\"><legend>Series</legend>");
    out.append(boxes.as_str());
    out.append("</fieldset>");
    out
}

fn chart_body(svg: &str, spec: &ChartSpec, id_prefix: &str, variants: &Vec<String>) -> (out: String)
    requires
        variants@.len() == spec.zoom_steps@.len(),
    ensures
        out@ == chart_body_text(svg@, *spec, id_prefix@, variants@),
{
    if spec.zoom_steps.len() == 0 {
        return svg.to_string();
    }
    let mut rules = String::new();
    let mut radios = String::new();
    let mut panels = String::new();
    let mut k: usize = 0;
    while k < spec.zoom_steps.len()
        invariant
            variants@.len() == spec.zoom_steps@.len(),
            k <= spec.zoom_steps@.len(),
            rules@ == zoom_rules(k as int),
            radios@ == zoom_radios(*spec, id_prefix@, k as int),
            panels@ == zoom_variants(variants@, k as int),
        decreases spec.zoom_steps@.len() - k,
    {
        let mut rule = ".chartlet-figure:has(.chartlet-zoom-".to_string();
        push_decimal(&mut rule, k);
        rule.append(":checked) .chartlet-variant:not(.chartlet-variant-");
        push_decimal(&mut rule, k);
        rule.append("){display:none}");
        rules.append(rule.as_str());
        let label = escape(spec.zoom_steps[k].label.as_str());
        let mut radio = "<label><input type=\"radio\" name=\"".to_string();
        radio.append(id_prefix);
        radio.append("-zoom\" class=\"chartlet-zoom-");
        push_decimal(&mut radio, k);
        radio.append("\"");
        if k == 0 {
            radio.append(" checked");
        }
        radio.append("> ");
        radio.append(label.as_str());
        radio.append("</label>");
        assert(radio@ =~= zoom_radio(*spec, id_prefix@, k as int));
        radios.append(radio.as_str());
        let mut panel = "<div class=\"chartlet-variant chartlet-variant-".to_string();
        push_decimal(&mut panel, k);
        panel.append("\">");
        panel.append(variants[k].as_str());
        panel.append("</div>");
        panels.append(panel.as_str());
        k += 1;
    }
    let mut out = "<style>".to_string();
    out.append(rules.as_str());
    out.append("</style><fieldset class=\"chartlet-zoom\"><legend>Zoom</legend>");
    out.append(radios.as_str());
    out.append("</fieldset>");
    out.append(panels.as_str());
    out
}

/// Writes the HTML figure: the title as caption, a checkbox per series
/// when there are several, the SVG (or, with zoom steps, a radio button
/// and the pre-rendered `variants[k]` per step), the source, and a table
/// with every category and every value. `value_texts[s][i]` is the
/// written form of the value of category `i` in series `s`; missing values
/// appear as `Missing`. `id_prefix` keeps the radio buttons of two
/// figures on one page apart.
pub fn html(
    svg: &str,
    spec: &ChartSpec,
    table_mode: TableMode,
    value_texts: &Vec<Vec<String>>,
    id_prefix: &str,
    variants: &Vec<String>,
) -> (out: String)
    requires
        fits_table(*spec, value_texts@),
        variants@.len() == spec.zoom_steps@.len(),
    ensures
        out@ == html_text(svg@, *spec, table_mode, value_texts@, id_prefix@, variants@),
{
    let title = escape(spec.title.as_str());
    let filter = series_filter(spec);
    let body = chart_body(svg, spec, id_prefix, variants);
    let mut source = String::new();
    if let Some(text) = &spec.source {
        let escaped_source = escape(text.as_str());
        source.append("<p class=\"chartlet-source\">Source: ");
        source.append(escaped_source.as_str());
        source.append("</p>");
    }
    assert(source@ =~= source_text(*spec));
    let mut out = "<figure class=\"chartlet-figure\"><figcaption>".to_string();
    out.append(title.as_str());
    out.append("</figcaption>");
    out.append(filter.as_str());
    out.append(body.as_str());
    out.append(source.as_str());
    if table_mode == TableMode::Details {
        out.append("<details class=\"chartlet-data\"><summary>Show chart data</summary>");
    } else {
        out.append("<div class=\"chartlet-data\">");
    }
    let dataset = spec.dataset();
    out.append("<table><thead><tr><th scope=\"col\">Category</th>");
    let header = header_markup(spec, &dataset);
    out.append(header.as_str());
    out.append("</tr></thead><tbody>");
    let mut rows = String::new();
    let mut i: usize = 0;
    while i < dataset.categories.len()
        invariant
            dataset.matches(spec),
            fits_table(*spec, value_texts@),
            i <= dataset.categories@.len(),
            rows@ == table_rows(*spec, value_texts@, i as int),
        decreases dataset.categories@.len() - i,
    {
        let row = row_markup(spec, &dataset, value_texts, i);
        rows.append(row.as_str());
        i += 1;
    }
    out.append(rows.as_str());
    let mut tail = "</tbody></table>".to_string();
    if table_mode == TableMode::Details {
        tail.append("</details>");
    } else {
        tail.append("</div>");
    }
    tail.append("</figure>");
    out.append(tail.as_str());
    out
}

/// Characters that would end or open markup.
pub open spec fn is_markup_special(c: char) -> bool {
    c == '<' || c == '>' || c == '"' || c == '\''
}

/// Escaped text cannot open a tag or end an attribute value: it holds
/// none of `<`, `>`, `"` and `'`.
pub proof fn lemma_markup_is_inert(text: Seq<char>)
    ensures
        forall|i: int| 0 <= i < markup(text).len() ==> !is_markup_special(#[trigger] markup(text)[i]),
    decreases text.len(),
{
    if text.len() > 0 {
        lemma_markup_is_inert(text.drop_last());
        reveal_strlit("&amp;");
        reveal_strlit("&lt;");
        reveal_strlit("&gt;");
        reveal_strlit("&quot;");
        reveal_strlit("&#39;");
        let head = markup(text.drop_last());
        let tail = markup_char(text.last());
        assert(forall|j: int| 0 <= j < tail.len() ==> !is_markup_special(#[trigger] tail[j]));
        assert forall|i: int| 0 <= i < markup(text).len() implies !is_markup_special(
            #[trigger] markup(text)[i],
        ) by {
            if i < head.len() {
                assert(markup(text)[i] == head[i]);
            } else {
                assert(markup(text)[i] == tail[i - head.len()]);
            }
        }
    }
}

/// Whether `small` occurs in `big`.
pub open spec fn occurs_in(small: Seq<char>, big: Seq<char>) -> bool {
    exists|k: int| 0 <= k && k + small.len() <= big.len() && #[trigger] big.subrange(k, k + small.len()) == small
}

pub proof fn lemma_occurs_in_concat(small: Seq<char>, a: Seq<char>, b: Seq<char>)
    ensures
        occurs_in(small, a) ==> occurs_in(small, a + b),
        occurs_in(small, b) ==> occurs_in(small, a + b),
{
    if occurs_in(small, a) {
        let k = choose|k: int| 0 <= k && k + small.len() <= a.len() && #[trigger] a.subrange(k, k + small.len()) == small;
        assert((a + b).subrange(k, k + small.len()) =~= a.subrange(k, k + small.len()));
    }
    if occurs_in(small, b) {
        let k = choose|k: int| 0 <= k && k + small.len() <= b.len() && #[trigger] b.subrange(k, k + small.len()) == small;
        assert((a + b).subrange(a.len() + k, a.len() + k + small.len()) =~= b.subrange(k, k + small.len()));
    }
}

pub proof fn lemma_occurs_in_itself(text: Seq<char>)
    ensures
        occurs_in(text, text),
{
    let k: int = 0;
    assert(text.subrange(k, k + text.len()) =~= text);
}

proof fn lemma_cell_in_cells(spec: ChartSpec, value_texts: Seq<Vec<String>>, i: int, s: int, n: int)
    requires
        0 <= s < n,
    ensures
        occurs_in(value_cell(spec, value_texts, s, i), value_cells(spec, value_texts, i, n)),
    decreases n,
{
    let cell = value_cell(spec, value_texts, s, i);
    if s == n - 1 {
        lemma_occurs_in_itself(cell);
        lemma_occurs_in_concat(cell, value_cells(spec, value_texts, i, n - 1), cell);
    } else {
        lemma_cell_in_cells(spec, value_texts, i, s, n - 1);
        lemma_occurs_in_concat(
            cell,
            value_cells(spec, value_texts, i, n - 1),
            value_cell(spec, value_texts, n - 1, i),
        );
    }
}

proof fn lemma_row_in_rows(spec: ChartSpec, value_texts: Seq<Vec<String>>, i: int, n: int)
    requires
        0 <= i < n,
    ensures
        occurs_in(table_row(spec, value_texts, i), table_rows(spec, value_texts, n)),
    decreases n,
{
    let row = table_row(spec, value_texts, i);
    if i == n - 1 {
        lemma_occurs_in_itself(row);
        lemma_occurs_in_concat(row, table_rows(spec, value_texts, n - 1), row);
    } else {
        lemma_row_in_rows(spec, value_texts, i, n - 1);
        lemma_occurs_in_concat(
            row,
            table_rows(spec, value_texts, n - 1),
            table_row(spec, value_texts, n - 1),
        );
    }
}

/// The HTML figure holds every category with every value: for each
/// category a table row, and in that row a cell for each series with the
/// written value, or `Missing`.
pub proof fn lemma_table_holds_every_value(
    svg: Seq<char>,
    spec: ChartSpec,
    table_mode: TableMode,
    value_texts: Seq<Vec<String>>,
    id_prefix: Seq<char>,
    variants: Seq<String>,
)
    ensures
        forall|i: int|
            0 <= i < spec.category_count() ==> occurs_in(
                #[trigger] table_row(spec, value_texts, i),
                html_text(svg, spec, table_mode, value_texts, id_prefix, variants),
            ),
        forall|i: int, s: int|
            0 <= i < spec.category_count() && 0 <= s < spec.series_count() ==> occurs_in(
                #[trigger] value_cell(spec, value_texts, s, i),
                table_row(spec, value_texts, i),
            ),
{
    let rows = table_rows(spec, value_texts, spec.category_count());
    let head = html_head(svg, spec, table_mode, id_prefix, variants);
    let tail = html_tail(table_mode);
    assert forall|i: int| 0 <= i < spec.category_count() implies occurs_in(
        #[trigger] table_row(spec, value_texts, i),
        html_text(svg, spec, table_mode, value_texts, id_prefix, variants),
    ) by {
        let row = table_row(spec, value_texts, i);
        lemma_row_in_rows(spec, value_texts, i, spec.category_count());
        lemma_occurs_in_concat(row, head, rows);
        lemma_occurs_in_concat(row, head + rows, tail);
    }
    assert forall|i: int, s: int|
        0 <= i < spec.category_count() && 0 <= s < spec.series_count() implies occurs_in(
        #[trigger] value_cell(spec, value_texts, s, i),
        table_row(spec, value_texts, i),
    ) by {
        let cell = value_cell(spec, value_texts, s, i);
        let cells = value_cells(spec, value_texts, i, spec.series_count());
        let opening = "<tr><th scope=\"row\">"@ + markup(spec.category_label(i)) + "</th>"@;
        lemma_cell_in_cells(spec, value_texts, i, s, spec.series_count());
        assert(table_row(spec, value_texts, i) =~= opening + cells + "</tr>"@);
        lemma_occurs_in_concat(cell, opening, cells);
        lemma_occurs_in_concat(cell, opening + cells, "</tr>"@);
    }
}

proof fn lemma_in_filter(spec: ChartSpec, k: int, n: int)
    requires
        0 <= k < n,
    ensures
        occurs_in(filter_rule(k), filter_rules(n)),
        occurs_in(filter_box(spec, k), filter_boxes(spec, n)),
    decreases n,
{
    if k == n - 1 {
        lemma_occurs_in_itself(filter_rule(k));
        lemma_occurs_in_itself(filter_box(spec, k));
    } else {
        lemma_in_filter(spec, k, n - 1);
    }
    lemma_occurs_in_concat(filter_rule(k), filter_rules(n - 1), filter_rule(n - 1));
    lemma_occurs_in_concat(filter_box(spec, k), filter_boxes(spec, n - 1), filter_box(spec, n - 1));
}

proof fn lemma_in_zoom(spec: ChartSpec, id_prefix: Seq<char>, variants: Seq<String>, k: int, n: int)
    requires
        0 <= k < n,
    ensures
        occurs_in(zoom_rule(k), zoom_rules(n)),
        occurs_in(zoom_radio(spec, id_prefix, k), zoom_radios(spec, id_prefix, n)),
        occurs_in(zoom_variant(variants, k), zoom_variants(variants, n)),
    decreases n,
{
    if k == n - 1 {
        lemma_occurs_in_itself(zoom_rule(k));
        lemma_occurs_in_itself(zoom_radio(spec, id_prefix, k));
        lemma_occurs_in_itself(zoom_variant(variants, k));
    } else {
        lemma_in_zoom(spec, id_prefix, variants, k, n - 1);
    }
    lemma_occurs_in_concat(zoom_rule(k), zoom_rules(n - 1), zoom_rule(n - 1));
    lemma_occurs_in_concat(
        zoom_radio(spec, id_prefix, k),
        zoom_radios(spec, id_prefix, n - 1),
        zoom_radio(spec, id_prefix, n - 1),
    );
    lemma_occurs_in_concat(
        zoom_variant(variants, k),
        zoom_variants(variants, n - 1),
        zoom_variant(variants, n - 1),
    );
}

/// A part of the series filter occurs in the figure.
proof fn lemma_filter_in_html(
    part: Seq<char>,
    svg: Seq<char>,
    spec: ChartSpec,
    table_mode: TableMode,
    value_texts: Seq<Vec<String>>,
    id_prefix: Seq<char>,
    variants: Seq<String>,
)
    requires
        occurs_in(part, series_filter_text(spec)),
    ensures
        occurs_in(part, html_text(svg, spec, table_mode, value_texts, id_prefix, variants)),
{
    let a = "<figure class=\"chartlet-figure\"><figcaption>"@ + markup(spec.title@) + "</figcaption>"@;
    let f = series_filter_text(spec);
    let b = chart_body_text(svg, spec, id_prefix, variants);
    let o = if table_mode == TableMode::Details {
        "<details class=\"chartlet-data\"><summary>Show chart data</summary>"@
    } else {
        "<div class=\"chartlet-data\">"@
    };
    let c = "<table><thead><tr><th scope=\"col\">Category</th>"@;
    let h = header_cells(spec, spec.series_count());
    let d = "</tr></thead><tbody>"@;
    lemma_occurs_in_concat(part, a, f);
    lemma_occurs_in_concat(part, a + f, b);
    lemma_occurs_in_concat(part, a + f + b, source_text(spec));
    lemma_occurs_in_concat(part, a + f + b + source_text(spec), o);
    lemma_occurs_in_concat(part, a + f + b + source_text(spec) + o, c);
    lemma_occurs_in_concat(part, a + f + b + source_text(spec) + o + c, h);
    lemma_occurs_in_concat(part, a + f + b + source_text(spec) + o + c + h, d);
    let head = html_head(svg, spec, table_mode, id_prefix, variants);
    let rows = table_rows(spec, value_texts, spec.category_count());
    lemma_occurs_in_concat(part, head, rows);
    lemma_occurs_in_concat(part, head + rows, html_tail(table_mode));
}

/// A part of the chart body occurs in the figure.
proof fn lemma_body_in_html(
    part: Seq<char>,
    svg: Seq<char>,
    spec: ChartSpec,
    table_mode: TableMode,
    value_texts: Seq<Vec<String>>,
    id_prefix: Seq<char>,
    variants: Seq<String>,
)
    requires
        occurs_in(part, chart_body_text(svg, spec, id_prefix, variants)),
    ensures
        occurs_in(part, html_text(svg, spec, table_mode, value_texts, id_prefix, variants)),
{
    let a = "<figure class=\"chartlet-figure\"><figcaption>"@ + markup(spec.title@) + "</figcaption>"@;
    let f = series_filter_text(spec);
    let b = chart_body_text(svg, spec, id_prefix, variants);
    let o = if table_mode == TableMode::Details {
        "<details class=\"chartlet-data\"><summary>Show chart data</summary>"@
    } else {
        "<div class=\"chartlet-data\">"@
    };
    let c = "<table><thead><tr><th scope=\"col\">Category</th>"@;
    let h = header_cells(spec, spec.series_count());
    let d = "</tr></thead><tbody>"@;
    lemma_occurs_in_concat(part, a + f, b);
    lemma_occurs_in_concat(part, a + f + b, source_text(spec));
    lemma_occurs_in_concat(part, a + f + b + source_text(spec), o);
    lemma_occurs_in_concat(part, a + f + b + source_text(spec) + o, c);
    lemma_occurs_in_concat(part, a + f + b + source_text(spec) + o + c, h);
    lemma_occurs_in_concat(part, a + f + b + source_text(spec) + o + c + h, d);
    let head = html_head(svg, spec, table_mode, id_prefix, variants);
    let rows = table_rows(spec, value_texts, spec.category_count());
    lemma_occurs_in_concat(part, head, rows);
    lemma_occurs_in_concat(part, head + rows, html_tail(table_mode));
}

/// A chart with several series has, in its figure, a checkbox and a
/// hiding rule per series.
pub proof fn lemma_figure_holds_series_filter(
    svg: Seq<char>,
    spec: ChartSpec,
    table_mode: TableMode,
    value_texts: Seq<Vec<String>>,
    id_prefix: Seq<char>,
    variants: Seq<String>,
    k: int,
)
    requires
        spec.series@.len() > 1,
        0 <= k < spec.series@.len(),
    ensures
        occurs_in(filter_box(spec, k), html_text(svg, spec, table_mode, value_texts, id_prefix, variants)),
        occurs_in(filter_rule(k), html_text(svg, spec, table_mode, value_texts, id_prefix, variants)),
{
    let n = spec.series@.len() as int;
    lemma_in_filter(spec, k, n);
    let style = "<style>"@;
    let middle = "</style><fieldset class=\"chartlet-filter\"><legend>Series</legend>"@;
    let rules = filter_rules(n);
    let boxes = filter_boxes(spec, n);
    let close = "</fieldset>"@;
    lemma_occurs_in_concat(filter_rule(k), style, rules);
    lemma_occurs_in_concat(filter_rule(k), style + rules, middle);
    lemma_occurs_in_concat(filter_rule(k), style + rules + middle, boxes);
    lemma_occurs_in_concat(filter_rule(k), style + rules + middle + boxes, close);
    lemma_occurs_in_concat(filter_box(spec, k), style + rules + middle, boxes);
    lemma_occurs_in_concat(filter_box(spec, k), style + rules + middle + boxes, close);
    lemma_filter_in_html(filter_rule(k), svg, spec, table_mode, value_texts, id_prefix, variants);
    lemma_filter_in_html(filter_box(spec, k), svg, spec, table_mode, value_texts, id_prefix, variants);
}

/// A chart with zoom steps has, in its figure, a radio button, a rule and
/// its pre-rendered variant per step.
pub proof fn lemma_figure_holds_zoom_steps(
    svg: Seq<char>,
    spec: ChartSpec,
    table_mode: TableMode,
    value_texts: Seq<Vec<String>>,
    id_prefix: Seq<char>,
    variants: Seq<String>,
    k: int,
)
    requires
        0 <= k < spec.zoom_steps@.len(),
    ensures
        occurs_in(zoom_radio(spec, id_prefix, k), html_text(svg, spec, table_mode, value_texts, id_prefix, variants)),
        occurs_in(zoom_rule(k), html_text(svg, spec, table_mode, value_texts, id_prefix, variants)),
        occurs_in(zoom_variant(variants, k), html_text(svg, spec, table_mode, value_texts, id_prefix, variants)),
{
    let n = spec.zoom_steps@.len() as int;
    lemma_in_zoom(spec, id_prefix, variants, k, n);
    let style = "<style>"@;
    let middle = "</style><fieldset class=\"chartlet-zoom\"><legend>Zoom</legend>"@;
    let rules = zoom_rules(n);
    let radios = zoom_radios(spec, id_prefix, n);
    let close = "</fieldset>"@;
    let panels = zoom_variants(variants, n);
    let rule = zoom_rule(k);
    let radio = zoom_radio(spec, id_prefix, k);
    let panel = zoom_variant(variants, k);
    lemma_occurs_in_concat(rule, style, rules);
    lemma_occurs_in_concat(rule, style + rules, middle);
    lemma_occurs_in_concat(rule, style + rules + middle, radios);
    lemma_occurs_in_concat(rule, style + rules + middle + radios, close);
    lemma_occurs_in_concat(rule, style + rules + middle + radios + close, panels);
    lemma_occurs_in_concat(radio, style + rules + middle, radios);
    lemma_occurs_in_concat(radio, style + rules + middle + radios, close);
    lemma_occurs_in_concat(radio, style + rules + middle + radios + close, panels);
    lemma_occurs_in_concat(panel, style + rules + middle + radios + close, panels);
    lemma_body_in_html(rule, svg, spec, table_mode, value_texts, id_prefix, variants);
    lemma_body_in_html(radio, svg, spec, table_mode, value_texts, id_prefix, variants);
    lemma_body_in_html(panel, svg, spec, table_mode, value_texts, id_prefix, variants);
}

/// A chart without zoom steps holds its SVG whole in its figure.
pub proof fn lemma_figure_holds_svg(
    svg: Seq<char>,
    spec: ChartSpec,
    table_mode: TableMode,
    value_texts: Seq<Vec<String>>,
    id_prefix: Seq<char>,
    variants: Seq<String>,
)
    requires
        spec.zoom_steps@.len() == 0,
    ensures
        occurs_in(svg, html_text(svg, spec, table_mode, value_texts, id_prefix, variants)),
{
    lemma_occurs_in_itself(svg);
    lemma_body_in_html(svg, svg, spec, table_mode, value_texts, id_prefix, variants);
}

} // verus!
