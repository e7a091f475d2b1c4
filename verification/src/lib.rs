//! Charts and QR codes as accessible, deterministic SVG.
//!
//! A chart specification is checked ([`spec::ChartSpec::validate`]),
//! described in words ([`describe`]), and written as SVG or as an HTML
//! figure with a complete data table ([`render`]). QR codes live in [`qr`].

pub mod cli;
pub mod describe;
pub mod digits;
pub mod error;
pub mod ids;
pub mod layout;
pub mod metrics;
pub mod qr;
pub mod render;
pub mod spec;
pub mod validate;

pub use error::{ChartError, ChartWarning};
pub use metrics::BuiltinMetrics;
pub use spec::{
    CategoryAxisSpec, ChartSpec, ChartType, DataPoint, Orientation, SeriesSpec, ValueAxisSpec,
    ValueFormat, ZoomStep,
};

use vstd::prelude::*;

use error::outcome;
use ids::{default_id_prefix, derived_id_prefix, id_prefix_issue, validate_id_prefix};
use render::{fits_table, html, html_text, svg, svg_text, Scene};
use validate::{dense_warnings, or_else, reports};

verus! {

/// What a chart is written as.
#[derive(Debug, Clone, Copy, PartialEq, Eq, Structural)]
pub enum RenderFormat {
    /// A standalone SVG document.
    Svg,
    /// A `<figure>` with caption, SVG, source and data table.
    Html,
}

/// How the data table of the HTML output is shown.
#[derive(Debug, Clone, Copy, PartialEq, Eq, Structural)]
pub enum TableMode {
    /// In a native `<details>` disclosure, initially closed.
    Details,
    /// Always visible.
    Visible,
}

impl Default for TableMode {
    /// `Details`.
    fn default() -> (mode: Self)
        ensures
            mode == TableMode::Details,
    {
        TableMode::Details
    }
}

/// Options of a rendering.
#[derive(Debug, Clone, Default)]
pub struct RenderOptions {
    /// Prefix of the accessibility ids; derived from the specification when `None`.
    pub id_prefix: Option<String>,
    pub table_mode: TableMode,
}

/// A rendered chart and the layout warnings that did not stop it.
#[derive(Debug, Clone)]
pub struct RenderOutput {
    pub content: String,
    pub warnings: Vec<ChartWarning>,
}

/// The description a chart carries: the specification's own, or the
/// generated one.
pub open spec fn chosen_description(spec: ChartSpec, generated: Seq<char>) -> Seq<char> {
    match spec.description {
        Some(description) => description@,
        None => generated,
    }
}

/// The written chart: the SVG document, or the HTML figure around it.
pub open spec fn content_text(
    spec: ChartSpec,
    scene: Scene,
    generated_description: Seq<char>,
    id_prefix: Seq<char>,
    format: RenderFormat,
    table_mode: TableMode,
    value_texts: Seq<Vec<String>>,
    variants: Seq<String>,
) -> Seq<char> {
    let svg = svg_text(
        scene,
        spec.title@,
        chosen_description(spec, generated_description),
        id_prefix,
        spec.series@.len() > 1,
    );
    match format {
        RenderFormat::Svg => svg,
        RenderFormat::Html => html_text(svg, spec, table_mode, value_texts, id_prefix, variants),
    }
}

/// The id prefix of a rendering: the given one, or the one derived from
/// the canonical JSON of the specification.
pub open spec fn chosen_id_prefix(options: RenderOptions, canonical: Seq<u8>) -> Seq<char> {
    match options.id_prefix {
        Some(prefix) => prefix@,
        None => derived_id_prefix(canonical),
    }
}

/// The issue that stops a rendering before anything is drawn.
pub open spec fn preparation_issue(spec: ChartSpec, options: RenderOptions) -> Option<
    (Seq<char>, Seq<char>, Seq<char>),
> {
    or_else(
        spec.validation_issue(),
        match options.id_prefix {
            Some(prefix) => id_prefix_issue(prefix@),
            None => None,
        },
    )
}

/// The checks of a rendering that come before the layout: the
/// specification, then the given id prefix. They do not depend on the
/// format, so a specification renders as SVG exactly when it renders as
/// HTML, and stops with the same error otherwise. Returns the warnings of
/// the specification and the id prefix, derived from `canonical` (the
/// specification's canonical JSON) when none is given.
///
/// # Errors
///
/// The first failed check.
pub fn prepare(spec: &ChartSpec, options: &RenderOptions, canonical: &[u8]) -> (result: Result<
    (Vec<ChartWarning>, String),
    ChartError,
>)
    ensures
        outcome(result) == preparation_issue(*spec, *options),
        result matches Ok((warnings, prefix)) ==> reports(warnings@, dense_warnings(spec))
            && prefix@ == chosen_id_prefix(*options, canonical@),
{
    let warnings = spec.validate()?;
    let prefix = match &options.id_prefix {
        Some(prefix) => {
            validate_id_prefix(prefix.as_str())?;
            prefix.clone()
        },
        None => default_id_prefix(canonical),
    };
    Ok((warnings, prefix))
}

/// Writes a laid-out chart in the requested format, with the
/// specification's own description or `generated_description`, and
/// passes the warnings on unchanged.
pub fn finish(
    spec: &ChartSpec,
    scene: &Scene,
    generated_description: &str,
    id_prefix: &str,
    format: RenderFormat,
    table_mode: TableMode,
    value_texts: &Vec<Vec<String>>,
    variants: &Vec<String>,
    warnings: Vec<ChartWarning>,
) -> (output: RenderOutput)
    requires
        fits_table(*spec, value_texts@),
        variants@.len() == spec.zoom_steps@.len(),
    ensures
        output.content@ == content_text(
            *spec,
            *scene,
            generated_description@,
            id_prefix@,
            format,
            table_mode,
            value_texts@,
            variants@,
        ),
        output.warnings@ == warnings@,
{
    let description = match &spec.description {
        Some(description) => description.as_str(),
        None => generated_description,
    };
    let document = svg(scene, spec, description, id_prefix);
    let content = match format {
        RenderFormat::Svg => document,
        RenderFormat::Html => html(document.as_str(), spec, table_mode, value_texts, id_prefix, variants),
    };
    RenderOutput { content, warnings }
}

/// Whether `text` starts with `prefix`.
pub open spec fn starts_with(text: Seq<char>, prefix: Seq<char>) -> bool {
    prefix.len() <= text.len() && text.subrange(0, prefix.len() as int) == prefix
}

/// Whether `text` ends with `suffix`.
pub open spec fn ends_with(text: Seq<char>, suffix: Seq<char>) -> bool {
    suffix.len() <= text.len() && text.subrange(text.len() - suffix.len(), text.len() as int)
        == suffix
}

proof fn lemma_starts_with_extends(text: Seq<char>, more: Seq<char>, prefix: Seq<char>)
    requires
        starts_with(text, prefix),
    ensures
        starts_with(text + more, prefix),
{
    assert((text + more).subrange(0, prefix.len() as int) =~= text.subrange(0, prefix.len() as int));
}

proof fn lemma_ends_with_extends(front: Seq<char>, text: Seq<char>, suffix: Seq<char>)
    requires
        ends_with(text, suffix),
    ensures
        ends_with(front + text, suffix),
{
    let whole = front + text;
    assert(whole.subrange(whole.len() - suffix.len(), whole.len() as int) =~= text.subrange(
        text.len() - suffix.len(),
        text.len() as int,
    ));
}

/// Without zoom steps, the HTML output is the SVG output inside a figure:
/// it starts with the figure and its caption, holds the SVG whole, and
/// ends with the figure.
pub proof fn lemma_html_wraps_svg(
    spec: ChartSpec,
    scene: Scene,
    generated_description: Seq<char>,
    id_prefix: Seq<char>,
    table_mode: TableMode,
    value_texts: Seq<Vec<String>>,
    variants: Seq<String>,
)
    requires
        spec.zoom_steps@.len() == 0,
    ensures
        ({
            let svg = content_text(spec, scene, generated_description, id_prefix, RenderFormat::Svg, table_mode, value_texts, variants);
            let html = content_text(spec, scene, generated_description, id_prefix, RenderFormat::Html, table_mode, value_texts, variants);
            &&& starts_with(html, "<figure class=\"chartlet-figure\"><figcaption>"@)
            &&& render::occurs_in(svg, html)
            &&& ends_with(html, "</figure>"@)
        }),
{
    let svg = content_text(spec, scene, generated_description, id_prefix, RenderFormat::Svg, table_mode, value_texts, variants);
    render::lemma_figure_holds_svg(svg, spec, table_mode, value_texts, id_prefix, variants);
    let a = "<figure class=\"chartlet-figure\"><figcaption>"@;
    assert(a.subrange(0, a.len() as int) =~= a);
    let m = render::markup(spec.title@);
    let f = render::series_filter_text(spec);
    let b = render::chart_body_text(svg, spec, id_prefix, variants);
    let src = render::source_text(spec);
    let o = if table_mode == TableMode::Details {
        "<details class=\"chartlet-data\"><summary>Show chart data</summary>"@
    } else {
        "<div class=\"chartlet-data\">"@
    };
    let c = "<table><thead><tr><th scope=\"col\">Category</th>"@;
    let h = render::header_cells(spec, spec.series_count());
    let d = "</tr></thead><tbody>"@;
    lemma_starts_with_extends(a, m, a);
    lemma_starts_with_extends(a + m, "</figcaption>"@, a);
    lemma_starts_with_extends(a + m + "</figcaption>"@, f, a);
    lemma_starts_with_extends(a + m + "</figcaption>"@ + f, b, a);
    lemma_starts_with_extends(a + m + "</figcaption>"@ + f + b, src, a);
    lemma_starts_with_extends(a + m + "</figcaption>"@ + f + b + src, o, a);
    lemma_starts_with_extends(a + m + "</figcaption>"@ + f + b + src + o, c, a);
    lemma_starts_with_extends(a + m + "</figcaption>"@ + f + b + src + o + c, h, a);
    lemma_starts_with_extends(a + m + "</figcaption>"@ + f + b + src + o + c + h, d, a);
    assert(a + m + "</figcaption>"@ == "<figure class=\"chartlet-figure\"><figcaption>"@ + render::markup(spec.title@) + "</figcaption>"@);
    let head = render::html_head(svg, spec, table_mode, id_prefix, variants);
    let rows = render::table_rows(spec, value_texts, spec.category_count());
    lemma_starts_with_extends(head, rows, a);
    lemma_starts_with_extends(head + rows, render::html_tail(table_mode), a);
    let close = "</figure>"@;
    assert(close.subrange(0, close.len() as int) =~= close);
    let before_close = "</tbody></table>"@ + if table_mode == TableMode::Details {
        "</details>"@
    } else {
        "</div>"@
    };
    lemma_ends_with_extends(before_close, close, close);
    lemma_ends_with_extends(head + rows, render::html_tail(table_mode), close);
}

} // verus!
