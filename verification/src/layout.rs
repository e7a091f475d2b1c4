//! The parts of the layout that do not measure or place: the classes of
//! bars and the warnings about layout compromises.

use vstd::prelude::*;

use crate::cli::same_text;
use crate::digits::decimal;
use crate::error::ChartWarning;
use crate::spec::MAX_SERIES;
use crate::validate::{magnitude, SIGN_BIT};

verus! {

/// The class of the bars of series `index` in a multi-series chart.
pub open spec fn series_bar_class_spec(index: int) -> Seq<char> {
    "chartlet-bar chartlet-series-"@ + decimal(index + 1)
}

/// The class of the bars of series `index` (counted from 0) of a
/// multi-series chart; each series has its own color.
pub fn series_bar_class(index: usize) -> (class: &'static str)
    requires
        index < MAX_SERIES,
    ensures
        class@ == series_bar_class_spec(index as int),
{
    proof {
        reveal_strlit("chartlet-bar chartlet-series-1");
        reveal_strlit("chartlet-bar chartlet-series-2");
        reveal_strlit("chartlet-bar chartlet-series-3");
        reveal_strlit("chartlet-bar chartlet-series-4");
        reveal_strlit("chartlet-bar chartlet-series-");
        assert(decimal(1) =~= seq!['1']);
        assert(decimal(2) =~= seq!['2']);
        assert(decimal(3) =~= seq!['3']);
        assert(decimal(4) =~= seq!['4']);
    }
    match index {
        0 => "chartlet-bar chartlet-series-1",
        1 => "chartlet-bar chartlet-series-2",
        2 => "chartlet-bar chartlet-series-3",
        _ => "chartlet-bar chartlet-series-4",
    }
}

/// The class of the bars of series `index` in a chart with `series_count`
/// series: plain bars for a single series.
pub fn bar_class(series_count: usize, index: usize) -> (class: &'static str)
    requires
        series_count == 1 || index < MAX_SERIES,
    ensures
        series_count == 1 ==> class@ == "chartlet-bar"@,
        series_count > 1 ==> class@ == series_bar_class_spec(index as int),
{
    if series_count == 1 {
        "chartlet-bar"
    } else {
        series_bar_class(index)
    }
}

/// Whether `after` is `before` with `added` appended, when `add` holds,
/// and `before` unchanged otherwise.
pub open spec fn appended_if(
    before: Seq<ChartWarning>,
    after: Seq<ChartWarning>,
    add: bool,
    added: (Seq<char>, Seq<char>, Seq<char>),
) -> bool {
    &&& after.len() == before.len() + if add {
        1int
    } else {
        0int
    }
    &&& forall|i: int| 0 <= i < before.len() ==> #[trigger] after[i] == before[i]
    &&& add ==> after.last()@ == added
}

/// The warning that some value labels were left out.
pub open spec fn labels_omitted_issue() -> (Seq<char>, Seq<char>, Seq<char>) {
    (
        "value_labels_omitted"@,
        "/showValues"@,
        "some value labels do not fit next to their bars and were left out; every value remains in the HTML data alternative"@,
    )
}

/// Reports that value labels were left out, if they were.
pub fn warn_if_labels_omitted(omitted: bool, warnings: &mut Vec<ChartWarning>)
    ensures
        appended_if(old(warnings)@, final(warnings)@, omitted, labels_omitted_issue()),
{
    if omitted {
        warnings.push(
            ChartWarning::new(
                "value_labels_omitted",
                "/showValues",
                "some value labels do not fit next to their bars and were left out; every value remains in the HTML data alternative",
            ),
        );
    }
}

/// The warning that the text at `path` was shortened.
pub open spec fn truncated_issue(path: Seq<char>) -> (Seq<char>, Seq<char>, Seq<char>) {
    (
        "text_truncated"@,
        path,
        "text was shortened in the visual chart; the full value remains in the specification and HTML data alternative"@,
    )
}

/// Whether a truncation of the text at `path` has been reported.
pub open spec fn reports_truncation(warnings: Seq<ChartWarning>, path: Seq<char>) -> bool {
    exists|i: int|
        0 <= i < warnings.len() && (#[trigger] warnings[i]).code@ == "text_truncated"@
            && warnings[i].path@ == path
}

/// Reports that the text at `path` was shortened, once per path.
pub fn warn_text_truncated(path: &str, warnings: &mut Vec<ChartWarning>)
    ensures
        appended_if(
            old(warnings)@,
            final(warnings)@,
            !reports_truncation(old(warnings)@, path@),
            truncated_issue(path@),
        ),
        reports_truncation(final(warnings)@, path@),
{
    let mut reported = false;
    let mut i: usize = 0;
    while i < warnings.len()
        invariant
            i <= warnings@.len(),
            reported == exists|j: int|
                0 <= j < i && (#[trigger] warnings@[j]).code@ == "text_truncated"@
                    && warnings@[j].path@ == path@,
        decreases warnings@.len() - i,
    {
        if same_text(warnings[i].code, "text_truncated") && same_text(
            warnings[i].path.as_str(),
            path,
        ) {
            reported = true;
        }
        i += 1;
    }
    let ghost before = warnings@;
    if !reported {
        warnings.push(
            ChartWarning::new(
                "text_truncated",
                path,
                "text was shortened in the visual chart; the full value remains in the specification and HTML data alternative",
            ),
        );
        proof {
            reveal_strlit("text_truncated");
            assert(warnings@[before.len() as int]@ == truncated_issue(path@));
            assert(warnings@[before.len() as int].code@ == "text_truncated"@);
        }
    } else {
        proof {
            let j = choose|j: int|
                0 <= j < before.len() && (#[trigger] before[j]).code@ == "text_truncated"@
                    && before[j].path@ == path@;
            assert(warnings@[j] == before[j]);
        }
    }
}

/// The hover hint of a bar or point: `category: value`, or
/// `category – series: value` in a chart with several series.
pub open spec fn tooltip_spec(category: Seq<char>, series_name: Option<Seq<char>>, value_text: Seq<char>) -> Seq<char> {
    category + match series_name {
        Some(name) => " – "@ + name,
        None => seq![],
    } + ": "@ + value_text
}

/// The hover hint of a bar or point, from its category, its series when
/// the chart has several, and its value as the chart writes it.
pub fn tooltip_text(category: &str, series_name: Option<&str>, value_text: &str) -> (t: String)
    ensures
        t@ == tooltip_spec(
            category@,
            match series_name {
                Some(name) => Some(name@),
                None => None,
            },
            value_text@,
        ),
{
    let mut t = category.to_string();
    if let Some(name) = series_name {
        t.append(" – ");
        t.append(name);
    }
    t.append(": ");
    t.append(value_text);
    proof {
        assert(t@ =~= tooltip_spec(
            category@,
            match series_name {
                Some(name) => Some(name@),
                None => None,
            },
            value_text@,
        ));
    }
    t
}

/// A run `[start, end)` of a line, kept when it has at least two points.
pub open spec fn closed_run(start: int, end: int) -> Seq<(int, int)> {
    if end - start >= 2 {
        seq![(start, end)]
    } else {
        seq![]
    }
}

/// The runs of values from index `i` on, when the current run started at
/// `start`: a missing value ends a run, and a run of fewer than two points
/// draws no line.
pub open spec fn runs_from(values: Seq<Option<u64>>, i: int, start: int) -> Seq<(int, int)>
    decreases values.len() - i,
{
    if i < 0 || i >= values.len() {
        closed_run(start, values.len() as int)
    } else if values[i] is Some {
        runs_from(values, i + 1, start)
    } else {
        closed_run(start, i) + runs_from(values, i + 1, i + 1)
    }
}

/// The lines of a line chart: the runs `[start, end)` of consecutive
/// values with at least two points, in index order.
pub open spec fn line_runs_spec(values: Seq<Option<u64>>) -> Seq<(int, int)> {
    runs_from(values, 0, 0)
}

/// The runs as integers.
pub open spec fn runs_view(runs: Seq<(usize, usize)>) -> Seq<(int, int)> {
    runs.map_values(|run: (usize, usize)| (run.0 as int, run.1 as int))
}

/// Where a line chart draws lines: a missing value leaves a gap, and a
/// value between two gaps stays a single point.
pub fn line_runs(values: &Vec<Option<u64>>) -> (runs: Vec<(usize, usize)>)
    ensures
        runs_view(runs@) == line_runs_spec(values@),
{
    let mut runs: Vec<(usize, usize)> = Vec::new();
    let mut start: usize = 0;
    let mut i: usize = 0;
    while i < values.len()
        invariant
            i <= values@.len(),
            start <= i,
            runs_view(runs@) + runs_from(values@, i as int, start as int) == line_runs_spec(values@),
        decreases values@.len() - i,
    {
        if values[i].is_none() {
            let ghost before = runs_view(runs@);
            if i - start >= 2 {
                runs.push((start, i));
            }
            assert(runs_view(runs@) =~= before + closed_run(start as int, i as int));
            assert(runs_view(runs@) + runs_from(values@, i + 1, i + 1) =~= before + runs_from(
                values@,
                i as int,
                start as int,
            ));
            start = i + 1;
        }
        i += 1;
    }
    let ghost before = runs_view(runs@);
    if values.len() - start >= 2 {
        runs.push((start, values.len()));
    }
    assert(runs_view(runs@) =~= before + closed_run(start as int, values@.len() as int));
    runs
}

/// Every run is a maximal stretch of at least two present values: it
/// starts after a gap or at the first value, and ends at a gap or after
/// the last value.
pub proof fn lemma_line_runs_are_maximal(values: Seq<Option<u64>>, i: int, start: int)
    requires
        0 <= start <= i <= values.len(),
        start == 0 || values[start - 1] is None,
        forall|j: int| start <= j < i ==> #[trigger] values[j] is Some,
    ensures
        forall|k: int|
            0 <= k < runs_from(values, i, start).len() ==> {
                let run = #[trigger] runs_from(values, i, start)[k];
                &&& 0 <= run.0 && run.0 + 2 <= run.1 && run.1 <= values.len()
                &&& forall|j: int| run.0 <= j < run.1 ==> #[trigger] values[j] is Some
                &&& run.0 == 0 || values[run.0 - 1] is None
                &&& run.1 == values.len() || values[run.1] is None
            },
    decreases values.len() - i,
{
    if i < values.len() {
        if values[i] is Some {
            lemma_line_runs_are_maximal(values, i + 1, start);
        } else {
            lemma_line_runs_are_maximal(values, i + 1, i + 1);
            let head = closed_run(start, i);
            let tail = runs_from(values, i + 1, i + 1);
            assert forall|k: int| 0 <= k < runs_from(values, i, start).len() implies {
                let run = #[trigger] runs_from(values, i, start)[k];
                &&& 0 <= run.0 && run.0 + 2 <= run.1 && run.1 <= values.len()
                &&& forall|j: int| run.0 <= j < run.1 ==> #[trigger] values[j] is Some
                &&& run.0 == 0 || values[run.0 - 1] is None
                &&& run.1 == values.len() || values[run.1] is None
            } by {
                if k >= head.len() {
                    assert(runs_from(values, i, start)[k] == tail[k - head.len()]);
                }
            }
        }
    }
}

/// Whether a value gets a bar: a missing value leaves its bar out, and a
/// zero (of either sign) has no height to draw.
pub open spec fn draws_bar_spec(value: Option<u64>) -> bool {
    match value {
        Some(bits) => magnitude(bits) != 0,
        None => false,
    }
}

/// Whether a value gets a bar: a missing value leaves its bar out, and a
/// zero (of either sign) has no height to draw.
pub fn draws_bar(value: Option<u64>) -> (drawn: bool)
    ensures
        drawn == draws_bar_spec(value),
{
    match value {
        Some(bits) => bits % SIGN_BIT != 0,
        None => false,
    }
}

} // verus!
