//! From the lines of an export file to the charts of its days.

use vstd::prelude::*;

use crate::model::{FsLibreLine, Record};
use crate::normalize::{normalize, normalized_days};
use crate::parse::{file_records, parse_file};
use crate::plot::{composed, plot_wrapper, Chart, ChartView};

verus! {

/// The chart of a day that has at least one record: titled by the date of
/// the first record and bound for the file of that name.
pub open spec fn day_chart(day: Seq<Record>) -> ChartView {
    composed(day, day[0].timestamp.date_text() + ".png"@, day[0].timestamp.date_text())
}

/// The charts of a day: one, or none for a day without records.
pub open spec fn charts_of_day(day: Seq<Record>) -> Seq<ChartView> {
    if day.len() > 0 {
        seq![day_chart(day)]
    } else {
        Seq::empty()
    }
}

/// The charts of the days, in their order: one for each day that has a
/// record.
pub open spec fn day_charts(days: Seq<Seq<Record>>) -> Seq<ChartView>
    decreases days.len(),
{
    if days.len() == 0 {
        Seq::empty()
    } else {
        day_charts(days.drop_last()) + charts_of_day(days.last())
    }
}

/// Where every day has a record, there is one chart for each day.
pub proof fn lemma_day_charts_len(days: Seq<Seq<Record>>)
    requires
        forall|g: int| 0 <= g < days.len() ==> (#[trigger] days[g]).len() > 0,
    ensures
        day_charts(days).len() == days.len(),
        forall|g: int| 0 <= g < days.len() ==> (#[trigger] day_charts(days)[g]) == day_chart(days[g]),
    decreases days.len(),
{
    if days.len() > 0 {
        let front = days.drop_last();
        assert forall|g: int| 0 <= g < front.len() implies (#[trigger] front[g]).len() > 0 by {
            assert(front[g] == days[g]);
        }
        lemma_day_charts_len(front);
        assert forall|g: int| 0 <= g < days.len() implies (#[trigger] day_charts(days)[g])
            == day_chart(days[g]) by {
            if g < front.len() {
                assert(day_charts(days)[g] == day_charts(front)[g]);
                assert(front[g] == days[g]);
            }
        }
    }
}

/// Composes the charts of the days, in their order. A day without records
/// has none.
pub fn plot_days(days: &Vec<Vec<FsLibreLine>>) -> (all: Vec<Chart>)
    ensures
        all.deep_view() == day_charts(days.deep_view()),
{
    let ghost every = days.deep_view();
    let mut all: Vec<Chart> = Vec::new();
    let mut index: usize = 0;
    while index < days.len()
        invariant
            index <= days.len(),
            every == days.deep_view(),
            all.deep_view() == day_charts(every.take(index as int)),
        decreases days.len() - index,
    {
        let ghost before = all.deep_view();
        proof {
            let upto = every.take(index + 1);
            assert(upto.drop_last() =~= every.take(index as int));
            assert(upto.last() == days[index as int].deep_view());
        }
        match plot_wrapper(&days[index]) {
            Some(chart) => {
                assert(days[index as int].deep_view()[0] == days[index as int][0]@);
                all.push(chart);
                assert(all.deep_view() =~= before.push(day_chart(days[index as int].deep_view())));
                assert(all.deep_view() =~= before + charts_of_day(days[index as int].deep_view()));
            },
            None => {
                assert(all.deep_view() =~= before + charts_of_day(days[index as int].deep_view()));
            },
        }
        index = index + 1;
    }
    assert(every.take(index as int) =~= every);
    all
}

/// Everything from the lines of an export file to the charts of its days:
/// reads the lines, normalises the records and composes one chart for each
/// day.
pub fn charts(lines: &Vec<String>) -> (all: Vec<Chart>)
    ensures
        all.deep_view() == day_charts(normalized_days(file_records(lines.deep_view()))),
{
    let data = parse_file(lines);
    let days = normalize(data);
    plot_days(&days)
}

} // verus!
