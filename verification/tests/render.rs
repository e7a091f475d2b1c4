use chartlet::layout::{
    bar_class, draws_bar, line_runs, series_bar_class, tooltip_text, warn_if_labels_omitted,
    warn_text_truncated,
};
use chartlet::render::{
    anchor, escape, html, svg, Circle, Element, Line, Polyline, Rect, Scene, Text, TextAnchor,
    SERIES_STYLE, STYLE,
};
use chartlet::spec::{
    CategoryAxisSpec, ZoomStep, ChartSpec, ChartType, DataPoint, Orientation, SeriesSpec, ValueAxisSpec,
    ValueFormat,
};
use chartlet::{ChartWarning, TableMode};

fn bits(value: f64) -> Option<u64> {
    Some(value.to_bits())
}

fn profit_and_loss() -> ChartSpec {
    ChartSpec {
        schema_version: 1,
        chart_type: ChartType::Bar,
        orientation: Orientation::Vertical,
        title: "Profit & loss".to_owned(),
        description: None,
        source: None,
        category_axis: CategoryAxisSpec { title: None },
        value_axis: ValueAxisSpec {
            title: None,
            format: ValueFormat::Number,
        },
        width: 800,
        height: 450,
        show_values: true,
        data: vec![
            DataPoint {
                label: "North <East>".to_owned(),
                value: bits(12.0),
            },
            DataPoint {
                label: "South".to_owned(),
                value: bits(-4.0),
            },
        ],
        categories: Vec::new(),
        series: Vec::new(),
        zoom_steps: Vec::new(),
    }
}

fn texts(rows: Vec<Vec<&str>>) -> Vec<Vec<String>> {
    rows.into_iter()
        .map(|row| row.into_iter().map(str::to_owned).collect())
        .collect()
}

fn owned(text: &str) -> String {
    text.to_owned()
}

#[test]
fn escapes_all_xml_special_characters() {
    assert_eq!(escape("<&>\"'"), "&lt;&amp;&gt;&quot;&#39;");
}

#[test]
fn escaping_keeps_other_text() {
    assert_eq!(escape(""), "");
    assert_eq!(escape("Straße – 5 €"), "Straße – 5 €");
}

#[test]
fn svg_is_named_and_described_for_assistive_technology() {
    let scene = Scene {
        width: 320,
        height: 240,
        elements: vec![Element::Text(Text {
            x: owned("72"),
            y: owned("30"),
            class: "chartlet-title",
            anchor: TextAnchor::Start,
            content: owned("Profit & loss"),
            series_index: None,
        })],
    };
    let output = svg(&scene, &profit_and_loss(), "Two <values>", "p");
    let expected = format!(
        "<svg xmlns=\"http://www.w3.org/2000/svg\" width=\"320\" height=\"240\" viewBox=\"0 0 320 240\" role=\"img\" aria-labelledby=\"p-title p-description\" class=\"chartlet-root\"><title id=\"p-title\">Profit &amp; loss</title><desc id=\"p-description\">Two &lt;values&gt;</desc><style>{STYLE}</style><text x=\"72\" y=\"30\" text-anchor=\"start\" class=\"chartlet-title\">Profit &amp; loss</text></svg>"
    );
    assert_eq!(output, expected);
    assert!(!output.contains("chartlet-series-"));
}

#[test]
fn svg_writes_every_kind_of_mark() {
    let mut spec = profit_and_loss();
    spec.series = vec![
        SeriesSpec {
            name: owned("A"),
            values: Vec::new(),
        },
        SeriesSpec {
            name: owned("B"),
            values: Vec::new(),
        },
    ];
    let scene = Scene {
        width: 400,
        height: 300,
        elements: vec![
            Element::Circle(Circle {
                cx: owned("1"),
                cy: owned("2"),
                radius: owned("4"),
                class: "chartlet-point",
                series_index: None,
                tooltip: None,
            }),
            Element::Line(Line {
                x1: owned("0"),
                y1: owned("1.5"),
                x2: owned("10"),
                y2: owned("1.5"),
                class: "chartlet-grid",
            }),
            Element::Rect(Rect {
                x: owned("3"),
                y: owned("4"),
                width: owned("5"),
                height: owned("6.25"),
                class: "chartlet-bar chartlet-series-1",
                series_index: None,
                tooltip: None,
            }),
            Element::Polyline(Polyline {
                points: vec![(owned("1"), owned("2")), (owned("3"), owned("4"))],
                class: "chartlet-line",
            }),
        ],
    };
    let output = svg(&scene, &spec, "d", "x");
    assert!(output.contains(&format!("<style>{STYLE}{SERIES_STYLE}</style>")));
    assert!(output.ends_with(
        "<circle cx=\"1\" cy=\"2\" r=\"4\" class=\"chartlet-point\"/><line x1=\"0\" y1=\"1.5\" x2=\"10\" y2=\"1.5\" class=\"chartlet-grid\"/><rect x=\"3\" y=\"4\" width=\"5\" height=\"6.25\" class=\"chartlet-bar chartlet-series-1\"/><polyline points=\"1,2 3,4\" class=\"chartlet-line\"/></svg>"
    ));
}

#[test]
fn text_anchors_are_named() {
    assert_eq!(anchor(TextAnchor::Start), "start");
    assert_eq!(anchor(TextAnchor::Middle), "middle");
    assert_eq!(anchor(TextAnchor::End), "end");
}

#[test]
fn html_figure_holds_the_complete_data_table() {
    let mut spec = profit_and_loss();
    spec.source = Some(owned("Ledger & books"));
    let output = html("<svg/>", &spec, TableMode::Details, &texts(vec![vec!["12", "-4"]]), "p", &Vec::new());
    assert_eq!(
        output,
        "<figure class=\"chartlet-figure\"><figcaption>Profit &amp; loss</figcaption><svg/><p class=\"chartlet-source\">Source: Ledger &amp; books</p><details class=\"chartlet-data\"><summary>Show chart data</summary><table><thead><tr><th scope=\"col\">Category</th><th scope=\"col\">Value</th></tr></thead><tbody><tr><th scope=\"row\">North &lt;East&gt;</th><td>12</td></tr><tr><th scope=\"row\">South</th><td>-4</td></tr></tbody></table></details></figure>"
    );
}

#[test]
fn visible_table_mode_omits_the_disclosure() {
    let output = html("<svg/>", &profit_and_loss(), TableMode::Visible, &texts(vec![vec!["12", "-4"]]), "p", &Vec::new());
    assert!(output.contains("<div class=\"chartlet-data\"><table>"));
    assert!(output.ends_with("</table></div></figure>"));
    assert!(!output.contains("<details"));
}

#[test]
fn grouped_table_has_a_column_per_series_and_marks_gaps() {
    let mut spec = profit_and_loss();
    spec.data = Vec::new();
    spec.categories = vec![owned("Jan"), owned("Feb"), owned("Mar")];
    spec.series = vec![
        SeriesSpec {
            name: owned("Budget"),
            values: vec![bits(120.0), bits(150.0), bits(140.0)],
        },
        SeriesSpec {
            name: owned("Actual"),
            values: vec![bits(130.0), bits(145.0), None],
        },
    ];
    let output = html(
        "",
        &spec,
        TableMode::Details,
        &texts(vec![vec!["120", "150", "140"], vec!["130", "145", ""]]),
        "p",
        &Vec::new(),
    );
    assert!(output.contains("<th scope=\"col\">Budget</th><th scope=\"col\">Actual</th>"));
    assert!(output.contains("<th scope=\"row\">Mar</th><td>140</td><td>Missing</td>"));
}

#[test]
fn bar_classes_follow_the_series() {
    assert_eq!(bar_class(1, 0), "chartlet-bar");
    assert_eq!(bar_class(3, 2), "chartlet-bar chartlet-series-3");
    assert_eq!(series_bar_class(0), "chartlet-bar chartlet-series-1");
    assert_eq!(series_bar_class(3), "chartlet-bar chartlet-series-4");
}

#[test]
fn truncation_is_reported_once_per_path() {
    let mut warnings: Vec<ChartWarning> = Vec::new();
    warn_text_truncated("/title", &mut warnings);
    warn_text_truncated("/title", &mut warnings);
    warn_text_truncated("/data/0/label", &mut warnings);
    assert_eq!(warnings.len(), 2);
    assert_eq!(warnings[0].code, "text_truncated");
    assert_eq!(warnings[0].path, "/title");
    assert_eq!(warnings[1].path, "/data/0/label");
}

#[test]
fn omitted_labels_are_reported() {
    let mut warnings: Vec<ChartWarning> = Vec::new();
    warn_if_labels_omitted(false, &mut warnings);
    assert!(warnings.is_empty());
    warn_if_labels_omitted(true, &mut warnings);
    assert_eq!(warnings.len(), 1);
    assert_eq!(warnings[0].code, "value_labels_omitted");
    assert_eq!(warnings[0].path, "/showValues");
}

#[test]
fn tooltips_name_category_series_and_value() {
    assert_eq!(tooltip_text("Jan", None, "120"), "Jan: 120");
    assert_eq!(tooltip_text("Jan", Some("Budget"), "120"), "Jan – Budget: 120");
}

#[test]
fn bars_and_points_carry_their_tooltip_and_series() {
    let scene = Scene {
        width: 320,
        height: 240,
        elements: vec![
            Element::Rect(Rect {
                x: owned("1"),
                y: owned("2"),
                width: owned("3"),
                height: owned("4"),
                class: "chartlet-bar chartlet-series-2",
                series_index: Some(1),
                tooltip: Some(owned("Jan – <Actual>: 130")),
            }),
            Element::Circle(Circle {
                cx: owned("5"),
                cy: owned("6"),
                radius: owned("4"),
                class: "chartlet-point",
                series_index: None,
                tooltip: Some(owned("Feb: 7")),
            }),
            Element::Text(Text {
                x: owned("1"),
                y: owned("0"),
                class: "chartlet-value",
                anchor: TextAnchor::Middle,
                content: owned("130"),
                series_index: Some(1),
            }),
        ],
    };
    let output = svg(&scene, &profit_and_loss(), "d", "p");
    assert!(output.ends_with(
        "<rect x=\"1\" y=\"2\" width=\"3\" height=\"4\" class=\"chartlet-bar chartlet-series-2\" data-series=\"1\"><title>Jan – &lt;Actual&gt;: 130</title></rect><circle cx=\"5\" cy=\"6\" r=\"4\" class=\"chartlet-point\"><title>Feb: 7</title></circle><text x=\"1\" y=\"0\" text-anchor=\"middle\" class=\"chartlet-value\" data-series=\"1\">130</text></svg>"
    ));
}

#[test]
fn lines_break_at_gaps_and_skip_single_points() {
    let some = Some(1.0_f64.to_bits());
    assert_eq!(line_runs(&vec![]), vec![]);
    assert_eq!(line_runs(&vec![some, some, some]), vec![(0, 3)]);
    assert_eq!(line_runs(&vec![some, None, some, some, None, some]), vec![(2, 4)]);
    assert_eq!(line_runs(&vec![some, some, None, some, some]), vec![(0, 2), (3, 5)]);
    assert_eq!(line_runs(&vec![None, None]), vec![]);
}

fn grouped() -> ChartSpec {
    let mut spec = profit_and_loss();
    spec.data = Vec::new();
    spec.categories = vec![owned("Jan"), owned("Feb")];
    spec.series = vec![
        SeriesSpec {
            name: owned("Budget"),
            values: vec![bits(120.0), bits(150.0)],
        },
        SeriesSpec {
            name: owned("Actual"),
            values: vec![bits(130.0), None],
        },
    ];
    spec
}

#[test]
fn grouped_figures_get_a_checkbox_per_series() {
    let output = html(
        "<svg/>",
        &grouped(),
        TableMode::Details,
        &texts(vec![vec!["120", "150"], vec!["130", ""]]),
        "p",
        &Vec::new(),
    );
    assert!(output.contains(
        "<style>.chartlet-figure:has(.chartlet-toggle-0:not(:checked)) [data-series=\"0\"]{display:none}.chartlet-figure:has(.chartlet-toggle-1:not(:checked)) [data-series=\"1\"]{display:none}</style><fieldset class=\"chartlet-filter\"><legend>Series</legend><label><input type=\"checkbox\" class=\"chartlet-toggle-0\" checked> Budget</label><label><input type=\"checkbox\" class=\"chartlet-toggle-1\" checked> Actual</label></fieldset><svg/>"
    ));
    let single = html("<svg/>", &profit_and_loss(), TableMode::Details, &texts(vec![vec!["12", "-4"]]), "p", &Vec::new());
    assert!(!single.contains("chartlet-filter"));
}

#[test]
fn zoom_steps_switch_between_pre_rendered_variants() {
    let mut spec = profit_and_loss();
    spec.zoom_steps = vec![
        ZoomStep {
            label: owned("North"),
            from: 0,
            to: 0,
        },
        ZoomStep {
            label: owned("All"),
            from: 0,
            to: 1,
        },
    ];
    let output = html(
        "<svg id=\"main\"/>",
        &spec,
        TableMode::Details,
        &texts(vec![vec!["12", "-4"]]),
        "p",
        &vec![owned("<svg id=\"a\"/>"), owned("<svg id=\"b\"/>")],
    );
    assert!(!output.contains("main"));
    assert!(output.contains(
        "<fieldset class=\"chartlet-zoom\"><legend>Zoom</legend><label><input type=\"radio\" name=\"p-zoom\" class=\"chartlet-zoom-0\" checked> North</label><label><input type=\"radio\" name=\"p-zoom\" class=\"chartlet-zoom-1\"> All</label></fieldset><div class=\"chartlet-variant chartlet-variant-0\"><svg id=\"a\"/></div><div class=\"chartlet-variant chartlet-variant-1\"><svg id=\"b\"/></div>"
    ));
    assert!(output.contains(".chartlet-figure:has(.chartlet-zoom-1:checked) .chartlet-variant:not(.chartlet-variant-1){display:none}"));
}

#[test]
fn missing_and_zero_values_draw_no_bar() {
    assert!(draws_bar(bits(3.5)));
    assert!(draws_bar(bits(-0.25)));
    assert!(!draws_bar(None));
    assert!(!draws_bar(bits(0.0)));
    assert!(!draws_bar(bits(-0.0)));
}
