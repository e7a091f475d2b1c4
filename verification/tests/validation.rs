use chartlet::spec::{
    CategoryAxisSpec, ChartSpec, ChartType, DataPoint, Orientation, SeriesSpec, ValueAxisSpec,
    ValueFormat, ZoomStep,
};

fn bits(value: f64) -> Option<u64> {
    Some(value.to_bits())
}

fn bar_chart(points: &[(&str, Option<u64>)]) -> ChartSpec {
    ChartSpec {
        schema_version: 1,
        chart_type: ChartType::Bar,
        orientation: Orientation::Vertical,
        title: "Profit & loss".to_owned(),
        description: None,
        source: None,
        category_axis: CategoryAxisSpec { title: None },
        value_axis: ValueAxisSpec {
            title: None,
            format: ValueFormat::Number,
        },
        width: 800,
        height: 450,
        show_values: true,
        data: points
            .iter()
            .map(|(label, value)| DataPoint {
                label: (*label).to_owned(),
                value: *value,
            })
            .collect(),
        categories: Vec::new(),
        series: Vec::new(),
        zoom_steps: Vec::new(),
    }
}

fn profit_and_loss() -> ChartSpec {
    bar_chart(&[("North <East>", bits(12.0)), ("South", bits(-4.0))])
}

fn budget_and_actual() -> ChartSpec {
    let mut spec = bar_chart(&[]);
    spec.title = "Budget and actual".to_owned();
    spec.categories = vec!["Jan".to_owned(), "Feb".to_owned(), "Mar".to_owned()];
    spec.series = vec![
        SeriesSpec {
            name: "Budget".to_owned(),
            values: vec![bits(120.0), bits(150.0), bits(140.0)],
        },
        SeriesSpec {
            name: "Actual".to_owned(),
            values: vec![bits(130.0), bits(145.0), None],
        },
    ];
    spec
}

fn error_of(spec: &ChartSpec) -> (&'static str, String, String) {
    let error = spec.validate().unwrap_err();
    (error.code, error.path, error.message)
}

#[test]
fn valid_single_series_chart_has_no_warnings() {
    assert_eq!(profit_and_loss().validate().unwrap().len(), 0);
    assert_eq!(budget_and_actual().validate().unwrap().len(), 0);
}

#[test]
fn validation_rejects_duplicate_labels_with_path() {
    let spec = bar_chart(&[("North <East>", bits(12.0)), ("North <East>", bits(-4.0))]);
    let (code, path, message) = error_of(&spec);
    assert_eq!(code, "duplicate_label");
    assert_eq!(path, "/data/1/label");
    assert_eq!(message, "labels must be unique in a single-series chart");
}

#[test]
fn validation_rejects_values_outside_the_supported_scale_range() {
    let spec = bar_chart(&[("North <East>", bits(1e308)), ("South", bits(-4.0))]);
    let (code, path, _) = error_of(&spec);
    assert_eq!(code, "unsupported_numeric_range");
    assert_eq!(path, "/data/0/value");

    let tiny = bar_chart(&[("A", bits(-1e-101))]);
    assert_eq!(error_of(&tiny).0, "unsupported_numeric_range");
}

#[test]
fn validation_accepts_the_edges_of_the_scale_range() {
    for value in [1e100, -1e100, 1e-100, -1e-100, 0.0, -0.0] {
        assert!(bar_chart(&[("A", bits(value))]).validate().is_ok());
    }
}

#[test]
fn validation_rejects_non_finite_values() {
    for value in [f64::NAN, f64::INFINITY, f64::NEG_INFINITY] {
        let (code, path, message) = error_of(&bar_chart(&[("A", bits(value))]));
        assert_eq!(code, "non_finite_value");
        assert_eq!(path, "/data/0/value");
        assert_eq!(message, "value must be finite");
    }
}

#[test]
fn validation_rejects_blank_and_long_texts() {
    let mut spec = profit_and_loss();
    spec.title = " \t\u{a0}\u{3000}".to_owned();
    assert_eq!(error_of(&spec).0, "empty_text");

    spec.title = "x".repeat(201);
    let (code, path, message) = error_of(&spec);
    assert_eq!(code, "text_too_long");
    assert_eq!(path, "/title");
    assert_eq!(message, "value must not exceed 200 characters");

    spec.title = "é".repeat(200);
    assert!(spec.validate().is_ok());
}

#[test]
fn validation_rejects_mismatched_series_length() {
    let mut spec = budget_and_actual();
    spec.series[1].values = vec![bits(130.0), bits(145.0)];
    let (code, path, message) = error_of(&spec);
    assert_eq!(code, "series_length_mismatch");
    assert_eq!(path, "/series/1/values");
    assert_eq!(
        message,
        "expected 3 values, one per category; use null for a missing value"
    );
}

#[test]
fn validation_rejects_missing_bar_values() {
    let spec = bar_chart(&[("North <East>", None), ("South", bits(-4.0))]);
    let (code, path, message) = error_of(&spec);
    assert_eq!(code, "missing_bar_value");
    assert_eq!(path, "/data/0/value");
    assert_eq!(message, "bar charts require a numeric value for every category");
}

#[test]
fn validation_rejects_line_charts_without_values() {
    let mut spec = bar_chart(&[("A", None), ("B", None)]);
    spec.chart_type = ChartType::Line;
    let (code, path, _) = error_of(&spec);
    assert_eq!(code, "empty_series");
    assert_eq!(path, "/data");

    spec.data[1].value = bits(3.0);
    assert!(spec.validate().is_ok());
}

#[test]
fn validation_rejects_grouped_charts_without_values() {
    let mut spec = budget_and_actual();
    spec.series[0].values = vec![None, None, None];
    spec.series[1].values = vec![None, None, None];
    let (code, path, message) = error_of(&spec);
    assert_eq!(code, "empty_series");
    assert_eq!(path, "/series");
    assert_eq!(message, "provide at least one numeric value");
}

#[test]
fn validation_rejects_duplicate_categories_and_series() {
    let mut spec = budget_and_actual();
    spec.categories[2] = "Jan".to_owned();
    assert_eq!(
        error_of(&spec),
        (
            "duplicate_label",
            "/categories/2".to_owned(),
            "categories must be unique".to_owned()
        )
    );

    let mut spec = budget_and_actual();
    spec.series[1].name = "Budget".to_owned();
    assert_eq!(error_of(&spec).0, "duplicate_series");
    assert_eq!(error_of(&spec).1, "/series/1/name");
}

#[test]
fn validation_limits_the_number_of_series_and_points() {
    let mut spec = budget_and_actual();
    let extra = spec.series[0].clone();
    for name in ["C", "D", "E"] {
        let mut series = extra.clone();
        series.name = name.to_owned();
        spec.series.push(series);
    }
    assert_eq!(error_of(&spec).0, "too_many_series");

    let labels: Vec<String> = (0..101).map(|index| format!("L{index}")).collect();
    let points: Vec<(&str, Option<u64>)> = labels
        .iter()
        .map(|label| (label.as_str(), bits(1.0)))
        .collect();
    let (code, path, message) = error_of(&bar_chart(&points));
    assert_eq!(code, "too_many_data_points");
    assert_eq!(path, "/data");
    assert_eq!(message, "at most 100 data points are supported");
}

#[test]
fn dense_charts_get_a_warning() {
    let labels: Vec<String> = (0..17).map(|index| format!("L{index}")).collect();
    let points: Vec<(&str, Option<u64>)> = labels
        .iter()
        .map(|label| (label.as_str(), bits(1.0)))
        .collect();
    let warnings = bar_chart(&points).validate().unwrap();
    assert_eq!(warnings.len(), 1);
    assert_eq!(warnings[0].code, "dense_chart");
    assert_eq!(warnings[0].path, "/data");
    assert_eq!(bar_chart(&points[..16]).validate().unwrap().len(), 0);
}

#[test]
fn validation_checks_size_and_options_in_order() {
    let mut spec = profit_and_loss();
    spec.width = 319;
    spec.height = 100;
    assert_eq!(
        error_of(&spec),
        (
            "invalid_dimension",
            "/width".to_owned(),
            "width must be between 320 and 2400".to_owned()
        )
    );
    spec.width = 2400;
    assert_eq!(error_of(&spec).1, "/height");

    let mut spec = profit_and_loss();
    spec.title = String::new();
    spec.schema_version = 2;
    assert_eq!(error_of(&spec).0, "unsupported_schema_version");

    let mut spec = profit_and_loss();
    spec.chart_type = ChartType::Line;
    spec.orientation = Orientation::Horizontal;
    assert_eq!(error_of(&spec).1, "/orientation");
}

#[test]
fn zoom_steps_must_switch_between_views_of_existing_categories() {
    let step = |from: usize, to: usize| ZoomStep {
        label: "Step".to_owned(),
        from,
        to,
    };
    let mut spec = profit_and_loss();
    spec.zoom_steps = vec![step(0, 1)];
    assert_eq!(error_of(&spec).0, "not_enough_zoom_steps");

    spec.zoom_steps = vec![step(0, 1), step(1, 0)];
    assert_eq!(error_of(&spec).1, "/zoomSteps/1/from");

    spec.zoom_steps = vec![step(0, 1), step(0, 2)];
    assert_eq!(
        error_of(&spec),
        (
            "zoom_out_of_range",
            "/zoomSteps/1/to".to_owned(),
            "to must be less than the number of categories (2)".to_owned()
        )
    );

    spec.zoom_steps = vec![step(0, 1); 5];
    assert_eq!(error_of(&spec).0, "too_many_zoom_steps");

    spec.zoom_steps = vec![step(0, 0), step(0, 1)];
    assert!(spec.validate().is_ok());
}

#[test]
fn every_error_path_is_a_json_pointer() {
    let mut cases = vec![
        bar_chart(&[]),
        bar_chart(&[("A", None)]),
        bar_chart(&[("A", bits(f64::NAN))]),
        bar_chart(&[("A", bits(1.0)), ("A", bits(2.0))]),
    ];
    let mut spec = budget_and_actual();
    spec.series[0].values[1] = bits(f64::INFINITY);
    cases.push(spec);
    let mut spec = profit_and_loss();
    spec.title = String::new();
    cases.push(spec);
    for spec in cases {
        let (_, path, _) = error_of(&spec);
        assert!(path.starts_with('/'), "{path}");
    }
    let (_, path, _) = error_of(&{
        let mut spec = budget_and_actual();
        spec.series[0].values[1] = bits(f64::INFINITY);
        spec
    });
    assert_eq!(path, "/series/0/values/1");
}
