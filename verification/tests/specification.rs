use chartlet::error::ChartError;
use chartlet::metrics::character_width;
use chartlet::spec::{
    default_height, default_show_values, default_width, json_pointer, read_error,
    CategoryAxisSpec, ChartSpec, ChartType, DataPoint, Orientation, ParseFailure, Segment,
    SeriesSpec, ValueAxisSpec, ValueFormat, ZoomStep,
};
use chartlet::{BuiltinMetrics, RenderOptions, TableMode};

fn bits(value: f64) -> Option<u64> {
    Some(value.to_bits())
}

fn grouped() -> ChartSpec {
    ChartSpec {
        schema_version: 1,
        chart_type: ChartType::Bar,
        orientation: Orientation::default(),
        title: "Budget and actual".to_owned(),
        description: None,
        source: None,
        category_axis: CategoryAxisSpec::default(),
        value_axis: ValueAxisSpec::default(),
        width: default_width(),
        height: default_height(),
        show_values: default_show_values(),
        data: Vec::new(),
        categories: vec!["Jan".to_owned(), "Feb".to_owned(), "Mar".to_owned()],
        series: vec![
            SeriesSpec {
                name: "Budget".to_owned(),
                values: vec![bits(120.0), bits(150.0), bits(140.0)],
            },
            SeriesSpec {
                name: "Actual".to_owned(),
                values: vec![bits(130.0), bits(145.0), None],
            },
        ],
        zoom_steps: vec![ZoomStep {
            label: "All".to_owned(),
            from: 0,
            to: 2,
        }],
    }
}

#[test]
fn defaults_match_the_documented_ones() {
    assert_eq!(default_width(), 800);
    assert_eq!(default_height(), 450);
    assert!(default_show_values());
    assert_eq!(Orientation::default(), Orientation::Vertical);
    assert_eq!(ValueFormat::default(), ValueFormat::Number);
    assert_eq!(TableMode::default(), TableMode::Details);
    let options = RenderOptions::default();
    assert_eq!(options.id_prefix, None);
    assert_eq!(options.table_mode, TableMode::Details);
}

#[test]
fn dataset_of_a_data_list_has_one_unnamed_series() {
    let mut spec = grouped();
    spec.categories = Vec::new();
    spec.series = Vec::new();
    spec.data = vec![
        DataPoint {
            label: "A".to_owned(),
            value: bits(1.0),
        },
        DataPoint {
            label: "B".to_owned(),
            value: None,
        },
    ];
    let dataset = spec.dataset();
    assert_eq!(dataset.categories, vec!["A".to_owned(), "B".to_owned()]);
    assert_eq!(dataset.series.len(), 1);
    assert_eq!(dataset.series[0].name, None);
    assert_eq!(dataset.series[0].values, vec![bits(1.0), None]);
    assert_eq!(dataset.category_path(1), "/data/1/label");
}

#[test]
fn dataset_of_series_keeps_names_and_values() {
    let dataset = grouped().dataset();
    assert_eq!(dataset.categories.len(), 3);
    assert_eq!(dataset.series[1].name.as_deref(), Some("Actual"));
    assert_eq!(dataset.series[1].values[2], None);
    assert_eq!(dataset.category_path(2), "/categories/2");
}

#[test]
fn slicing_keeps_the_selected_categories() {
    let spec = grouped().sliced(1, 2);
    assert_eq!(spec.categories, vec!["Feb".to_owned(), "Mar".to_owned()]);
    assert_eq!(spec.series[0].values, vec![bits(150.0), bits(140.0)]);
    assert_eq!(spec.series[1].values, vec![bits(145.0), None]);
    assert_eq!(spec.title, "Budget and actual");
    assert_eq!(spec.zoom_steps.len(), 1);

    let mut points = grouped();
    points.categories = Vec::new();
    points.series = Vec::new();
    points.data = ["A", "B", "C"]
        .iter()
        .map(|label| DataPoint {
            label: (*label).to_owned(),
            value: bits(1.0),
        })
        .collect();
    let sliced = points.sliced(0, 0);
    assert_eq!(sliced.data.len(), 1);
    assert_eq!(sliced.data[0].label, "A");
}

#[test]
fn json_pointers_escape_member_names() {
    let path = vec![
        Segment::Key {
            key: "data".to_owned(),
        },
        Segment::Index { index: 12 },
        Segment::Unknown,
        Segment::Key {
            key: "a/b~c".to_owned(),
        },
        Segment::Variant {
            variant: "bar".to_owned(),
        },
    ];
    assert_eq!(json_pointer(&path), "/data/12/a~1b~0c/bar");
    assert_eq!(json_pointer(&Vec::new()), "/");
    assert_eq!(json_pointer(&vec![Segment::Unknown]), "/");
}

#[test]
fn read_errors_point_at_the_mismatch() {
    let path = vec![
        Segment::Key {
            key: "data".to_owned(),
        },
        Segment::Index { index: 0 },
        Segment::Key {
            key: "value".to_owned(),
        },
    ];
    let syntax = read_error(ParseFailure::Syntax, &path, "expected value at line 1 column 2");
    assert_eq!(
        syntax,
        ChartError::new("invalid_json", "/", "expected value at line 1 column 2")
    );
    assert_eq!(read_error(ParseFailure::Eof, &path, "eof").path, "/");
    let data = read_error(ParseFailure::Data, &path, "invalid type");
    assert_eq!(data.code, "invalid_spec");
    assert_eq!(data.path, "/data/0/value");
    assert_eq!(data.message, "invalid type");
}

#[test]
fn errors_read_as_one_line() {
    let error = ChartError::new("series_length_mismatch", "/series/0/values", "expected 2 values");
    assert_eq!(
        error.to_string(),
        "series_length_mismatch at /series/0/values: expected 2 values"
    );
}

#[test]
fn builtin_metrics_use_fixed_character_widths() {
    assert_eq!(BuiltinMetrics::VERSION, "builtin-latin-v1");
    assert_eq!(character_width('i'), 30);
    assert_eq!(character_width('W'), 90);
    assert_eq!(character_width(' '), 32);
    assert_eq!(character_width('Q'), 67);
    assert_eq!(character_width('7'), 56);
    assert_eq!(character_width('é'), 56);
    assert_eq!(BuiltinMetrics.width_hundredths("Wi 7"), 90 + 30 + 32 + 56);
}
