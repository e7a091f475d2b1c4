use chartlet::describe::{automatic_description, chart_type_name, extremes, join};
use chartlet::spec::{
    CategoryAxisSpec, ChartSpec, ChartType, DataPoint, Orientation, SeriesSpec, ValueAxisSpec,
    ValueFormat,
};

fn bits(value: f64) -> Option<u64> {
    Some(value.to_bits())
}

fn bar_chart(points: &[(&str, Option<u64>)]) -> ChartSpec {
    ChartSpec {
        schema_version: 1,
        chart_type: ChartType::Bar,
        orientation: Orientation::Vertical,
        title: "Profit & loss".to_owned(),
        description: None,
        source: None,
        category_axis: CategoryAxisSpec { title: None },
        value_axis: ValueAxisSpec {
            title: None,
            format: ValueFormat::Number,
        },
        width: 800,
        height: 450,
        show_values: true,
        data: points
            .iter()
            .map(|(label, value)| DataPoint {
                label: (*label).to_owned(),
                value: *value,
            })
            .collect(),
        categories: Vec::new(),
        series: Vec::new(),
        zoom_steps: Vec::new(),
    }
}

fn budget_and_actual() -> ChartSpec {
    let mut spec = bar_chart(&[]);
    spec.title = "Budget and actual".to_owned();
    spec.categories = vec!["Jan".to_owned(), "Feb".to_owned(), "Mar".to_owned()];
    spec.series = vec![
        SeriesSpec {
            name: "Budget".to_owned(),
            values: vec![bits(120.0), bits(150.0), bits(140.0)],
        },
        SeriesSpec {
            name: "Actual".to_owned(),
            values: vec![bits(130.0), bits(145.0), None],
        },
    ];
    spec
}

#[test]
fn extremes_follow_the_total_order_of_values() {
    let spec = bar_chart(&[("A", bits(12.0)), ("B", bits(-4.0)), ("C", bits(-0.0))]);
    let (highest, lowest) = extremes(&spec, &spec.dataset());
    assert_eq!(highest, 12.0_f64.to_bits());
    assert_eq!(lowest, (-4.0_f64).to_bits());

    let zeros = bar_chart(&[("A", bits(0.0)), ("B", bits(-0.0))]);
    let (highest, lowest) = extremes(&zeros, &zeros.dataset());
    assert_eq!(highest, 0.0_f64.to_bits());
    assert_eq!(lowest, (-0.0_f64).to_bits());
}

#[test]
fn single_series_description_names_highest_and_lowest() {
    let spec = bar_chart(&[("North <East>", bits(12.0)), ("South", bits(-4.0))]);
    assert_eq!(
        automatic_description(&spec, "12", "-4"),
        "Bar chart with 2 categories. Highest: 12 (North <East>). Lowest: -4 (South)."
    );
}

#[test]
fn equal_values_are_not_described_as_extremes() {
    let spec = bar_chart(&[("North <East>", bits(12.0)), ("South", bits(12.0))]);
    assert_eq!(
        automatic_description(&spec, "12", "12"),
        "Bar chart with 2 equal values: 12 each."
    );
}

#[test]
fn grouped_description_names_series_and_missing_values() {
    let spec = budget_and_actual();
    let (highest, lowest) = extremes(&spec, &spec.dataset());
    assert_eq!(highest, 150.0_f64.to_bits());
    assert_eq!(lowest, 120.0_f64.to_bits());
    assert_eq!(
        automatic_description(&spec, "150", "120"),
        "Bar chart with 3 categories and 2 series (Budget, Actual). Highest: 150 (Budget in Feb). Lowest: 120 (Budget in Jan). 1 value is missing."
    );
}

#[test]
fn grouped_description_counts_every_missing_value() {
    let mut spec = budget_and_actual();
    spec.series[0].values[0] = None;
    assert!(automatic_description(&spec, "150", "130").ends_with(" 2 values are missing."));
    spec.series[0].values[0] = bits(150.0);
    spec.series[1].values[2] = bits(150.0);
    let description = automatic_description(&spec, "150", "130");
    assert!(description.contains("Highest: 150 (Budget in Jan, Budget in Feb, Actual in Mar)."));
    assert!(!description.contains("missing"));
}

#[test]
fn grouped_equal_values_are_summarized() {
    let mut spec = budget_and_actual();
    spec.series[0].values = vec![bits(5.0), bits(5.0), bits(5.0)];
    spec.series[1].values = vec![bits(5.0), None, bits(5.0)];
    assert_eq!(
        automatic_description(&spec, "5", "5"),
        "Bar chart with 3 categories and 2 series (Budget, Actual). All values: 5. 1 value is missing."
    );
}

#[test]
fn line_charts_are_named_as_such() {
    assert_eq!(chart_type_name(ChartType::Line), "Line chart");
    assert_eq!(chart_type_name(ChartType::Bar), "Bar chart");
    let mut spec = bar_chart(&[("A", bits(1.0)), ("B", None), ("C", bits(3.0))]);
    spec.chart_type = ChartType::Line;
    assert_eq!(
        automatic_description(&spec, "3", "1"),
        "Line chart with 3 categories. Highest: 3 (C). Lowest: 1 (A)."
    );
}

#[test]
fn texts_are_joined_with_commas() {
    assert_eq!(join(&Vec::new()), "");
    assert_eq!(join(&vec!["a".to_owned()]), "a");
    assert_eq!(join(&vec!["a".to_owned(), "b".to_owned(), "c".to_owned()]), "a, b, c");
}
