use chartlet::describe::automatic_description;
use chartlet::layout::{bar_class, tooltip_text};
use chartlet::render::{Element, Rect, Scene};
use chartlet::spec::{
    CategoryAxisSpec, ChartSpec, ChartType, DataPoint, Orientation, ValueAxisSpec, ValueFormat,
};
use chartlet::{finish, prepare, RenderFormat, RenderOptions, TableMode};

fn bits(value: f64) -> Option<u64> {
    Some(value.to_bits())
}

/// The single-series specification `SPEC`: a bar chart titled
/// "Profit & loss" with "North <East>" at 12 and "South" at -4.
fn spec() -> ChartSpec {
    ChartSpec {
        schema_version: 1,
        chart_type: ChartType::Bar,
        orientation: Orientation::Vertical,
        title: "Profit & loss".to_owned(),
        description: None,
        source: None,
        category_axis: CategoryAxisSpec { title: None },
        value_axis: ValueAxisSpec {
            title: None,
            format: ValueFormat::Number,
        },
        width: 800,
        height: 450,
        show_values: true,
        data: vec![
            DataPoint {
                label: "North <East>".to_owned(),
                value: bits(12.0),
            },
            DataPoint {
                label: "South".to_owned(),
                value: bits(-4.0),
            },
        ],
        categories: Vec::new(),
        series: Vec::new(),
        zoom_steps: Vec::new(),
    }
}

/// A scene with the first bar of a single-series chart.
fn scene(spec: &ChartSpec) -> Scene {
    Scene {
        width: spec.width,
        height: spec.height,
        elements: vec![Element::Rect(Rect {
            x: "100".to_owned(),
            y: "80".to_owned(),
            width: "40".to_owned(),
            height: "120".to_owned(),
            class: bar_class(1, 0),
            series_index: None,
            tooltip: Some(tooltip_text("North <East>", None, "12")),
        })],
    }
}

fn texts(values: &[&str]) -> Vec<Vec<String>> {
    vec![values.iter().map(|value| (*value).to_owned()).collect()]
}

fn render(spec: &ChartSpec, format: RenderFormat, table_mode: TableMode, values: &[&str]) -> String {
    let description = automatic_description(spec, values[0], values[1]);
    finish(
        spec,
        &scene(spec),
        &description,
        "chart",
        format,
        table_mode,
        &texts(values),
        &Vec::new(),
        Vec::new(),
    )
    .content
}

#[test]
fn equal_values_do_not_invent_extrema() {
    let mut tied = spec();
    tied.data[1].value = bits(12.0);
    let output = render(&tied, RenderFormat::Svg, TableMode::Details, &["12", "12"]);
    assert!(output.contains("Bar chart with 2 equal values: 12 each."));
}

#[test]
fn html_contains_complete_data_table() {
    let output = render(&spec(), RenderFormat::Html, TableMode::Details, &["12", "-4"]);
    assert!(output.contains("<figure"));
    assert!(output.contains("<details"));
    assert!(output.contains("<table>"));
    assert!(output.contains("<td>-4</td>"));
}

#[test]
fn visible_table_mode_omits_details_disclosure() {
    let output = render(&spec(), RenderFormat::Html, TableMode::Visible, &["12", "-4"]);
    assert!(output.contains("<div class=\"chartlet-data\">"));
    assert!(!output.contains("<details"));
}

#[test]
fn single_series_output_carries_no_series_styles() {
    let output = render(&spec(), RenderFormat::Svg, TableMode::Details, &["12", "-4"]);
    assert!(!output.contains("chartlet-series-"));
    assert!(output.contains("<title>North &lt;East&gt;: 12</title>"));
}

#[test]
fn html_output_wraps_the_svg_output() {
    let svg = render(&spec(), RenderFormat::Svg, TableMode::Details, &["12", "-4"]);
    let html = render(&spec(), RenderFormat::Html, TableMode::Details, &["12", "-4"]);
    assert!(html.starts_with("<figure class=\"chartlet-figure\"><figcaption>Profit &amp; loss</figcaption>"));
    assert!(html.contains(&svg));
    assert!(html.ends_with("</figure>"));
}

#[test]
fn a_given_description_replaces_the_generated_one() {
    let mut described = spec();
    described.description = Some("Twelve & minus four".to_owned());
    let output = render(&described, RenderFormat::Svg, TableMode::Details, &["12", "-4"]);
    assert!(output.contains("<desc id=\"chart-description\">Twelve &amp; minus four</desc>"));
}

#[test]
fn preparation_checks_the_spec_then_the_prefix() {
    let (warnings, prefix) = prepare(&spec(), &RenderOptions::default(), b"").unwrap();
    assert!(warnings.is_empty());
    assert_eq!(prefix, "chartlet-cbf29ce484222325");

    let options = RenderOptions {
        id_prefix: Some("first".to_owned()),
        table_mode: TableMode::Details,
    };
    assert_eq!(prepare(&spec(), &options, b"").unwrap().1, "first");

    let bad_prefix = RenderOptions {
        id_prefix: Some("1st".to_owned()),
        table_mode: TableMode::Details,
    };
    assert_eq!(prepare(&spec(), &bad_prefix, b"").unwrap_err().code, "invalid_id_prefix");
    let mut invalid = spec();
    invalid.width = 10;
    assert_eq!(prepare(&invalid, &bad_prefix, b"").unwrap_err().code, "invalid_dimension");
}
