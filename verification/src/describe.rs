//! The generated description of a chart: what kind of chart it is, how
//! many categories and series it has, its highest and lowest values and
//! where they occur, and how many values are missing.
//!
//! Values are ordered as `f64::total_cmp` orders them, which is an order on
//! their bit patterns; two values are equal in it exactly when their bits
//! are.

use vstd::prelude::*;

use crate::digits::{decimal, push_decimal};
use crate::spec::{ChartSpec, ChartType, Dataset};
use crate::spec::{MAX_DATA_POINTS, MAX_SERIES};
use crate::validate::{lemma_valid_limits, SIGN_BIT};

verus! {

/// The name of a kind of chart, as the description starts.
pub open spec fn chart_type_name_spec(chart_type: ChartType) -> Seq<char> {
    match chart_type {
        ChartType::Bar => "Bar chart"@,
        ChartType::Line => "Line chart"@,
    }
}

/// The name of a kind of chart, as the description starts.
pub fn chart_type_name(chart_type: ChartType) -> (name: &'static str)
    ensures
        name@ == chart_type_name_spec(chart_type),
{
    match chart_type {
        ChartType::Bar => "Bar chart",
        ChartType::Line => "Line chart",
    }
}

/// The position of a binary64 value in the total order of `f64::total_cmp`:
/// negative values by descending bits below the positive ones by ascending bits.
pub open spec fn total_key(bits: u64) -> int {
    if bits < SIGN_BIT {
        bits as int
    } else {
        SIGN_BIT - 1 - bits
    }
}

/// Whether `a` comes before `b` in the total order.
pub fn total_less(a: u64, b: u64) -> (less: bool)
    ensures
        less == (total_key(a) < total_key(b)),
{
    if a < SIGN_BIT && b < SIGN_BIT {
        a < b
    } else if a >= SIGN_BIT && b >= SIGN_BIT {
        a > b
    } else {
        a >= SIGN_BIT
    }
}

/// Two values are equal in the total order only when their bits are.
pub proof fn lemma_total_key_injective(a: u64, b: u64)
    ensures
        total_key(a) == total_key(b) ==> a == b,
{
}

/// Whether `bits` is one of the values of the chart.
pub open spec fn holds_value(spec: ChartSpec, bits: u64) -> bool {
    exists|s: int, i: int|
        0 <= s < spec.series_count() && 0 <= i < spec.series_len(s) && #[trigger] spec.series_value(
            s,
            i,
        ) == Some(bits)
}

/// Whether `bits` is a value of the chart that no value exceeds.
pub open spec fn is_highest(spec: ChartSpec, bits: u64) -> bool {
    &&& holds_value(spec, bits)
    &&& forall|s: int, i: int|
        0 <= s < spec.series_count() && 0 <= i < spec.series_len(s) && #[trigger] spec.series_value(
            s,
            i,
        ) is Some ==> total_key(spec.series_value(s, i)->0) <= total_key(bits)
}

/// Whether `bits` is a value of the chart below which there is none.
pub open spec fn is_lowest(spec: ChartSpec, bits: u64) -> bool {
    &&& holds_value(spec, bits)
    &&& forall|s: int, i: int|
        0 <= s < spec.series_count() && 0 <= i < spec.series_len(s) && #[trigger] spec.series_value(
            s,
            i,
        ) is Some ==> total_key(bits) <= total_key(spec.series_value(s, i)->0)
}

/// The highest value of the chart.
pub open spec fn highest(spec: ChartSpec) -> u64 {
    choose|bits: u64| is_highest(spec, bits)
}

/// The lowest value of the chart.
pub open spec fn lowest(spec: ChartSpec) -> u64 {
    choose|bits: u64| is_lowest(spec, bits)
}

/// Whether every series has a value or a gap for every category, and at
/// least one value is there: what a description needs.
pub open spec fn describable(spec: ChartSpec) -> bool {
    &&& forall|s: int|
        0 <= s < spec.series_count() ==> spec.category_count() <= #[trigger] spec.series_len(s)
    &&& exists|bits: u64| holds_value(spec, bits)
}

/// How the value of category `i` in series `s` is named: the category, and
/// the series too when there are several.
pub open spec fn value_label(spec: ChartSpec, s: int, i: int) -> Seq<char> {
    if spec.series_count() > 1 && spec.series_name(s) is Some {
        spec.series_name(s)->0 + " in "@ + spec.category_label(i)
    } else {
        spec.category_label(i)
    }
}

/// Labels of the first `n` series whose value of category `i` is `bits`.
pub open spec fn category_labels_at(spec: ChartSpec, bits: u64, i: int, n: int) -> Seq<Seq<char>>
    decreases n,
{
    if n <= 0 {
        seq![]
    } else {
        category_labels_at(spec, bits, i, n - 1) + if spec.series_value(n - 1, i) == Some(bits) {
            seq![value_label(spec, n - 1, i)]
        } else {
            seq![]
        }
    }
}

/// Labels of the values `bits` in the first `m` categories, category by
/// category and series by series.
pub open spec fn labels_at(spec: ChartSpec, bits: u64, m: int) -> Seq<Seq<char>>
    decreases m,
{
    if m <= 0 {
        seq![]
    } else {
        labels_at(spec, bits, m - 1) + category_labels_at(spec, bits, m - 1, spec.series_count())
    }
}

/// Texts joined with `, `.
pub open spec fn joined(parts: Seq<Seq<char>>) -> Seq<char>
    decreases parts.len(),
{
    if parts.len() == 0 {
        seq![]
    } else if parts.len() == 1 {
        parts[0]
    } else {
        joined(parts.drop_last()) + ", "@ + parts.last()
    }
}

/// The texts of strings.
pub open spec fn texts(parts: Seq<String>) -> Seq<Seq<char>> {
    parts.map_values(|part: String| part@)
}

/// Names of the first `n` series that have one.
pub open spec fn series_names(spec: ChartSpec, n: int) -> Seq<Seq<char>>
    decreases n,
{
    if n <= 0 {
        seq![]
    } else {
        series_names(spec, n - 1) + match spec.series_name(n - 1) {
            Some(name) => seq![name],
            None => seq![],
        }
    }
}

/// Missing values among the first `n` values of series `s`.
pub open spec fn missing_in(spec: ChartSpec, s: int, n: int) -> int
    decreases n,
{
    if n <= 0 {
        0
    } else {
        missing_in(spec, s, n - 1) + if spec.series_value(s, n - 1) is None {
            1int
        } else {
            0int
        }
    }
}

/// Missing values of the first `m` series.
pub open spec fn missing_upto(spec: ChartSpec, m: int) -> int
    decreases m,
{
    if m <= 0 {
        0
    } else {
        missing_upto(spec, m - 1) + missing_in(spec, m - 1, spec.series_len(m - 1))
    }
}

/// The closing sentence about missing values.
pub open spec fn missing_sentence(missing: int) -> Seq<char> {
    if missing == 0 {
        ""@
    } else if missing == 1 {
        " 1 value is missing."@
    } else {
        " "@ + decimal(missing) + " values are missing."@
    }
}

/// The generated description of a chart whose highest value is written
/// `highest_text` and whose lowest value is written `lowest_text`.
pub open spec fn description_text(spec: ChartSpec, highest_text: Seq<char>, lowest_text: Seq<char>) -> Seq<
    char,
> {
    let chart = chart_type_name_spec(spec.chart_type);
    let categories = decimal(spec.category_count());
    let grouped = spec.series_count() > 1;
    let high = highest(spec);
    let low = lowest(spec);
    if !grouped && high == low {
        chart + " with "@ + categories + " equal values: "@ + highest_text + " each."@
    } else {
        let opening = if grouped {
            chart + " with "@ + categories + " categories and "@ + decimal(spec.series_count())
                + " series ("@ + joined(series_names(spec, spec.series_count())) + ")."@
        } else {
            chart + " with "@ + categories + " categories."@
        };
        let extremes = if high == low {
            " All values: "@ + highest_text + "."@
        } else {
            " Highest: "@ + highest_text + " ("@ + joined(
                labels_at(spec, high, spec.category_count()),
            ) + "). Lowest: "@ + lowest_text + " ("@ + joined(
                labels_at(spec, low, spec.category_count()),
            ) + ")."@
        };
        let missing = if grouped {
            missing_sentence(missing_upto(spec, spec.series_count()))
        } else {
            ""@
        };
        opening + extremes + missing
    }
}

/// Joins texts with `, `.
pub fn join(parts: &Vec<String>) -> (out: String)
    ensures
        out@ == joined(texts(parts@)),
{
    let mut out = String::new();
    let mut i: usize = 0;
    while i < parts.len()
        invariant
            i <= parts@.len(),
            out@ == joined(texts(parts@).take(i as int)),
        decreases parts@.len() - i,
    {
        assert(texts(parts@).take(i + 1).drop_last() =~= texts(parts@).take(i as int));
        if i > 0 {
            out.append(", ");
        }
        out.append(parts[i].as_str());
        proof {
            if i == 0 {
                assert(out@ =~= joined(texts(parts@).take(1)));
            }
        }
        i += 1;
    }
    assert(texts(parts@).take(parts@.len() as int) =~= texts(parts@));
    out
}

/// The highest and the lowest value of a chart.
pub fn extremes(spec: &ChartSpec, dataset: &Dataset) -> (result: (u64, u64))
    requires
        dataset.matches(spec),
        describable(*spec),
    ensures
        result.0 == highest(*spec),
        result.1 == lowest(*spec),
{
    let mut found = false;
    let mut high: u64 = 0;
    let mut low: u64 = 0;
    let mut s: usize = 0;
    while s < dataset.series.len()
        invariant
            dataset.matches(spec),
            s <= dataset.series@.len(),
            found ==> holds_value(*spec, high) && holds_value(*spec, low),
            found == exists|t: int, i: int|
                0 <= t < s && 0 <= i < spec.series_len(t) && #[trigger] spec.series_value(t, i) is Some,
            forall|t: int, i: int|
                0 <= t < s && 0 <= i < spec.series_len(t) && #[trigger] spec.series_value(t, i) is Some
                    ==> total_key(spec.series_value(t, i)->0) <= total_key(high) && total_key(low)
                    <= total_key(spec.series_value(t, i)->0),
        decreases dataset.series@.len() - s,
    {
        let values = &dataset.series[s].values;
        let mut i: usize = 0;
        while i < values.len()
            invariant
                dataset.matches(spec),
                s < dataset.series@.len(),
                values == dataset.series@[s as int].values,
                i <= values@.len(),
                found ==> holds_value(*spec, high) && holds_value(*spec, low),
                found == ((exists|t: int, j: int|
                    0 <= t < s && 0 <= j < spec.series_len(t) && #[trigger] spec.series_value(t, j) is Some)
                    || (exists|j: int| 0 <= j < i && #[trigger] values@[j] is Some)),
                forall|t: int, j: int|
                    0 <= t < s && 0 <= j < spec.series_len(t) && #[trigger] spec.series_value(t, j) is Some
                        ==> total_key(spec.series_value(t, j)->0) <= total_key(high) && total_key(low)
                        <= total_key(spec.series_value(t, j)->0),
                forall|j: int|
                    0 <= j < i && #[trigger] values@[j] is Some ==> total_key(values@[j]->0)
                        <= total_key(high) && total_key(low) <= total_key(values@[j]->0),
            decreases values@.len() - i,
        {
            assert(values@[i as int] == spec.series_value(s as int, i as int));
            if let Some(bits) = values[i] {
                assert(spec.series_value(s as int, i as int) == Some(bits));
                if !found {
                    high = bits;
                    low = bits;
                    found = true;
                } else {
                    if !total_less(bits, high) {
                        high = bits;
                    }
                    if total_less(bits, low) {
                        low = bits;
                    }
                }
            }
            i += 1;
        }
        assert forall|t: int, j: int|
            0 <= t < s + 1 && 0 <= j < spec.series_len(t) && #[trigger] spec.series_value(t, j) is Some
                implies total_key(spec.series_value(t, j)->0) <= total_key(high) && total_key(low)
            <= total_key(spec.series_value(t, j)->0) by {
            if t == s {
                assert(values@[j] == spec.series_value(t, j));
            }
        }
        assert(found == exists|t: int, j: int|
            0 <= t < s + 1 && 0 <= j < spec.series_len(t) && #[trigger] spec.series_value(t, j) is Some) by {
            if exists|j: int| 0 <= j < values@.len() && #[trigger] values@[j] is Some {
                let j = choose|j: int| 0 <= j < values@.len() && #[trigger] values@[j] is Some;
                assert(spec.series_value(s as int, j) is Some);
            }
            if exists|t: int, j: int|
                0 <= t < s + 1 && 0 <= j < spec.series_len(t) && #[trigger] spec.series_value(t, j) is Some {
                let (t, j) = choose|t: int, j: int|
                    0 <= t < s + 1 && 0 <= j < spec.series_len(t) && #[trigger] spec.series_value(t, j) is Some;
                if t == s {
                    assert(values@[j] is Some);
                }
            }
        }
        s += 1;
    }
    proof {
        let bits = choose|bits: u64| holds_value(*spec, bits);
        let (t, j) = choose|t: int, j: int|
            0 <= t < spec.series_count() && 0 <= j < spec.series_len(t) && #[trigger] spec.series_value(t, j) == Some(bits);
        assert(spec.series_value(t, j) is Some);
        assert(found);
        assert(is_highest(*spec, high));
        assert(is_lowest(*spec, low));
        lemma_total_key_injective(high, highest(*spec));
        lemma_total_key_injective(low, lowest(*spec));
    }
    (high, low)
}

/// The labels of the values `bits`, category by category and series by
/// series, joined with `, `.
pub fn labels_at_value(spec: &ChartSpec, dataset: &Dataset, bits: u64) -> (out: String)
    requires
        dataset.matches(spec),
        forall|s: int|
            0 <= s < spec.series_count() ==> spec.category_count() <= #[trigger] spec.series_len(s),
    ensures
        out@ == joined(labels_at(*spec, bits, spec.category_count())),
{
    let grouped = dataset.series.len() > 1;
    let mut parts: Vec<String> = Vec::new();
    let mut i: usize = 0;
    while i < dataset.categories.len()
        invariant
            dataset.matches(spec),
            forall|s: int|
                0 <= s < spec.series_count() ==> spec.category_count() <= #[trigger] spec.series_len(s),
            grouped == (spec.series_count() > 1),
            i <= dataset.categories@.len(),
            texts(parts@) == labels_at(*spec, bits, i as int),
        decreases dataset.categories@.len() - i,
    {
        let ghost before = texts(parts@);
        let mut s: usize = 0;
        while s < dataset.series.len()
            invariant
                dataset.matches(spec),
                forall|t: int|
                    0 <= t < spec.series_count() ==> spec.category_count() <= #[trigger] spec.series_len(t),
                grouped == (spec.series_count() > 1),
                i < dataset.categories@.len(),
                s <= dataset.series@.len(),
                texts(parts@) == before + category_labels_at(*spec, bits, i as int, s as int),
            decreases dataset.series@.len() - s,
        {
            assert(spec.category_count() <= spec.series_len(s as int));
            assert(dataset.series@[s as int].values@[i as int] == spec.series_value(s as int, i as int));
            assert(dataset.series@[s as int].name_view() == spec.series_name(s as int));
            let ghost previous = texts(parts@);
            let matches = match dataset.series[s].values[i] {
                Some(value) => value == bits,
                None => false,
            };
            if matches {
                let label = match &dataset.series[s].name {
                    Some(name) => {
                        if grouped {
                            let mut label = String::new();
                            label.append(name.as_str());
                            label.append(" in ");
                            label.append(dataset.categories[i].as_str());
                            label
                        } else {
                            dataset.categories[i].clone()
                        }
                    },
                    None => dataset.categories[i].clone(),
                };
                assert(label@ == value_label(*spec, s as int, i as int));
                parts.push(label);
                assert(texts(parts@) =~= previous.push(label@));
            }
            assert(texts(parts@) =~= before + category_labels_at(*spec, bits, i as int, s + 1));
            s += 1;
        }
        i += 1;
    }
    join(&parts)
}

/// Names of the series that have one, joined with `, `.
fn series_names_text(spec: &ChartSpec, dataset: &Dataset) -> (out: String)
    requires
        dataset.matches(spec),
    ensures
        out@ == joined(series_names(*spec, spec.series_count())),
{
    let mut names: Vec<String> = Vec::new();
    let mut s: usize = 0;
    while s < dataset.series.len()
        invariant
            dataset.matches(spec),
            s <= dataset.series@.len(),
            texts(names@) == series_names(*spec, s as int),
        decreases dataset.series@.len() - s,
    {
        assert(dataset.series@[s as int].name_view() == spec.series_name(s as int));
        let ghost previous = texts(names@);
        if let Some(name) = &dataset.series[s].name {
            names.push(name.clone());
            assert(texts(names@) =~= previous.push(name@));
        }
        assert(texts(names@) =~= series_names(*spec, s + 1));
        s += 1;
    }
    join(&names)
}

/// Number of values, present or missing, in the first `m` series.
pub open spec fn value_count(spec: ChartSpec, m: int) -> int
    decreases m,
{
    if m <= 0 {
        0
    } else {
        value_count(spec, m - 1) + spec.series_len(m - 1)
    }
}

proof fn lemma_value_count_grows(spec: ChartSpec, m: int, n: int)
    requires
        0 <= m <= n,
    ensures
        value_count(spec, m) <= value_count(spec, n),
    decreases n - m,
{
    if m < n {
        lemma_value_count_grows(spec, m, n - 1);
    }
}

/// Number of missing values of a chart.
fn missing_count(spec: &ChartSpec, dataset: &Dataset) -> (count: usize)
    requires
        dataset.matches(spec),
        value_count(*spec, spec.series_count()) <= usize::MAX,
    ensures
        count == missing_upto(*spec, spec.series_count()),
{
    let mut count: usize = 0;
    let mut s: usize = 0;
    while s < dataset.series.len()
        invariant
            dataset.matches(spec),
            value_count(*spec, spec.series_count()) <= usize::MAX,
            s <= dataset.series@.len(),
            count == missing_upto(*spec, s as int),
            count <= value_count(*spec, s as int),
        decreases dataset.series@.len() - s,
    {
        let values = &dataset.series[s].values;
        let ghost before = count;
        assert(values@.len() == spec.series_len(s as int));
        proof {
            lemma_value_count_grows(*spec, s + 1, spec.series_count());
        }
        let mut i: usize = 0;
        while i < values.len()
            invariant
                dataset.matches(spec),
                s < dataset.series@.len(),
                values == dataset.series@[s as int].values,
                values@.len() == spec.series_len(s as int),
                i <= values@.len(),
                count == before + missing_in(*spec, s as int, i as int),
                before <= value_count(*spec, s as int),
                value_count(*spec, s + 1) <= usize::MAX,
                missing_in(*spec, s as int, i as int) <= i,
            decreases values@.len() - i,
        {
            assert(values@[i as int] == spec.series_value(s as int, i as int));
            if values[i].is_none() {
                count += 1;
            }
            i += 1;
        }
        s += 1;
    }
    count
}

/// The description that a chart gets when its specification has none.
/// `highest_text` and `lowest_text` are the highest and the lowest value
/// (see [`extremes`]) as the chart writes them.
pub fn automatic_description(spec: &ChartSpec, highest_text: &str, lowest_text: &str) -> (out: String)
    requires
        describable(*spec),
        value_count(*spec, spec.series_count()) <= usize::MAX,
    ensures
        out@ == description_text(*spec, highest_text@, lowest_text@),
{
    let dataset = spec.dataset();
    let (high, low) = extremes(spec, &dataset);
    let chart = chart_type_name(spec.chart_type);
    let categories = dataset.categories.len();
    let grouped = dataset.series.len() > 1;
    if !grouped && high == low {
        let mut out = chart.to_string();
        out.append(" with ");
        push_decimal(&mut out, categories);
        out.append(" equal values: ");
        out.append(highest_text);
        out.append(" each.");
        return out;
    }
    let mut opening = chart.to_string();
    opening.append(" with ");
    push_decimal(&mut opening, categories);
    if grouped {
        let names = series_names_text(spec, &dataset);
        opening.append(" categories and ");
        push_decimal(&mut opening, dataset.series.len());
        opening.append(" series (");
        opening.append(names.as_str());
        opening.append(").");
    } else {
        opening.append(" categories.");
    }
    let mut extremes_text = String::new();
    if high == low {
        extremes_text.append(" All values: ");
        extremes_text.append(highest_text);
        extremes_text.append(".");
    } else {
        let high_labels = labels_at_value(spec, &dataset, high);
        let low_labels = labels_at_value(spec, &dataset, low);
        extremes_text.append(" Highest: ");
        extremes_text.append(highest_text);
        extremes_text.append(" (");
        extremes_text.append(high_labels.as_str());
        extremes_text.append("). Lowest: ");
        extremes_text.append(lowest_text);
        extremes_text.append(" (");
        extremes_text.append(low_labels.as_str());
        extremes_text.append(").");
    }
    let mut missing_text = String::new();
    if grouped {
        let missing = missing_count(spec, &dataset);
        if missing == 1 {
            missing_text.append(" 1 value is missing.");
        } else if missing > 1 {
            missing_text.append(" ");
            push_decimal(&mut missing_text, missing);
            missing_text.append(" values are missing.");
        }
    }
    proof {
        reveal_strlit("");
    }
    assert(missing_text@ == if grouped {
        missing_sentence(missing_upto(*spec, spec.series_count()))
    } else {
        ""@
    });
    let mut out = opening;
    out.append(extremes_text.as_str());
    out.append(missing_text.as_str());
    out
}

proof fn lemma_value_count_bound(spec: ChartSpec, m: int)
    requires
        0 <= m,
        forall|s: int| 0 <= s < m ==> #[trigger] spec.series_len(s) <= MAX_DATA_POINTS,
    ensures
        value_count(spec, m) <= MAX_DATA_POINTS * m,
    decreases m,
{
    if m > 0 {
        lemma_value_count_bound(spec, m - 1);
    }
}

/// Every chart that passes validation can be described.
pub proof fn lemma_valid_charts_are_describable(spec: &ChartSpec)
    requires
        spec.validation_issue() is None,
    ensures
        describable(*spec),
        value_count(*spec, spec.series_count()) <= MAX_DATA_POINTS * MAX_SERIES,
{
    lemma_valid_limits(spec);
    let (s, i) = choose|s: int, i: int|
        0 <= s < spec.series_count() && 0 <= i < spec.category_count()
            && #[trigger] spec.series_value(s, i) is Some;
    assert(holds_value(*spec, spec.series_value(s, i)->0));
    lemma_value_count_bound(*spec, spec.series_count());
}

} // verus!
