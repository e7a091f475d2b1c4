use chartlet::spec::{
    CategoryAxisSpec, ChartSpec, ChartType, DataPoint, Orientation, SeriesSpec, ValueAxisSpec,
    ValueFormat,
};

fn bits(value: f64) -> Option<u64> {
    Some(value.to_bits())
}

fn point(label: &str, value: Option<u64>) -> DataPoint {
    DataPoint {
        label: label.to_owned(),
        value,
    }
}

/// The single-series specification `SPEC`: a bar chart titled
/// "Profit & loss" with "North <East>" at 12 and "South" at -4.
fn spec() -> ChartSpec {
    ChartSpec {
        schema_version: 1,
        chart_type: ChartType::Bar,
        orientation: Orientation::Vertical,
        title: "Profit & loss".to_owned(),
        description: None,
        source: None,
        category_axis: CategoryAxisSpec { title: None },
        value_axis: ValueAxisSpec {
            title: None,
            format: ValueFormat::Number,
        },
        width: 800,
        height: 450,
        show_values: true,
        data: vec![point("North <East>", bits(12.0)), point("South", bits(-4.0))],
        categories: Vec::new(),
        series: Vec::new(),
        zoom_steps: Vec::new(),
    }
}

/// The grouped specification `GROUPED`: budget and actual for three months,
/// with the actual value of March missing.
fn grouped() -> ChartSpec {
    let mut spec = spec();
    spec.title = "Budget and actual".to_owned();
    spec.data = Vec::new();
    spec.categories = vec!["Jan".to_owned(), "Feb".to_owned(), "Mar".to_owned()];
    spec.series = vec![
        SeriesSpec {
            name: "Budget".to_owned(),
            values: vec![bits(120.0), bits(150.0), bits(140.0)],
        },
        SeriesSpec {
            name: "Actual".to_owned(),
            values: vec![bits(130.0), bits(145.0), None],
        },
    ];
    spec
}

#[test]
fn rejects_duplicate_labels_with_path() {
    let mut duplicate = spec();
    duplicate.data[1].label = "North <East>".to_owned();
    let error = duplicate.validate().unwrap_err();
    assert_eq!(error.code, "duplicate_label");
    assert_eq!(error.path, "/data/1/label");
}

#[test]
fn rejects_values_outside_the_supported_scale_range() {
    let mut extreme = spec();
    extreme.data[0].value = bits(1e308);
    let error = extreme.validate().unwrap_err();
    assert_eq!(error.code, "unsupported_numeric_range");
    assert_eq!(error.path, "/data/0/value");
}

#[test]
fn rejects_xml_control_characters() {
    let mut invalid = spec();
    invalid.title = "Bad\u{0}title".to_owned();
    let error = invalid.validate().unwrap_err();
    assert_eq!(error.code, "invalid_xml_character");
    assert_eq!(error.path, "/title");
}

#[test]
fn grouped_bars_reject_mismatched_series_length() {
    let mut short = grouped();
    short.series[1].values = vec![bits(130.0), bits(145.0)];
    let error = short.validate().unwrap_err();
    assert_eq!(error.code, "series_length_mismatch");
    assert_eq!(error.path, "/series/1/values");
}

#[test]
fn data_and_series_are_mutually_exclusive() {
    let mut both = grouped();
    both.data = vec![point("Jan", bits(1.0))];
    let error = both.validate().unwrap_err();
    assert_eq!(error.code, "conflicting_data_shape");
    assert_eq!(error.path, "/data");
}

#[test]
fn line_charts_do_not_accept_series_yet() {
    let mut line = grouped();
    line.chart_type = ChartType::Line;
    let error = line.validate().unwrap_err();
    assert_eq!(error.code, "option_not_supported");
    assert_eq!(error.path, "/series");
}

#[test]
fn bar_chart_rejects_missing_values() {
    let mut missing = spec();
    missing.data[0].value = None;
    let error = missing.validate().unwrap_err();
    assert_eq!(error.code, "missing_bar_value");
    assert_eq!(error.path, "/data/0/value");
}
