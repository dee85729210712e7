//! The chart composer: what to draw for one day, and where.
//!
//! A [`Chart`] is a description in chart coordinates. The horizontal axis
//! counts minutes since midnight, from 0 to 1440 whatever the records span;
//! the vertical axis is glucose in mg/dL, from -100 to 350. Turning the
//! description into pixels is left to the caller.

use vstd::prelude::*;

use crate::model::{FsLibreLine, Record};
use crate::text::{decimal, decimal_text, signed_decimal, signed_decimal_text};
use crate::time::{Timestamp, MINUTES_PER_DAY};

verus! {

/// Width of the image in pixels.
pub const CHART_WIDTH: u32 = 800;

/// Height of the image in pixels.
pub const CHART_HEIGHT: u32 = 600;

/// Lower end of the vertical axis.
pub const Y_MIN: i64 = -100;

/// Upper end of the vertical axis.
pub const Y_MAX: i64 = 350;

/// Lower end of the target range; a reading is low unless it lies above.
pub const TARGET_RANGE_MIN: i64 = 60;

/// Upper end of the target range.
pub const TARGET_RANGE_MAX: i64 = 180;

/// Radius of a trace point in pixels.
pub const DOT_RADIUS: u32 = 5;

/// Edge of an icon in pixels.
pub const ICON_SIZE: u32 = 12;

/// Upper edge of the rule above the first legend row.
pub const LEGEND_Y: i64 = -10;

/// Thickness of the rule above the first legend row.
pub const LEGEND_LINE_HEIGHT: i64 = 2;

/// Height of a legend row.
pub const LEGEND_TEXT_HEIGHT: i64 = 20;

/// How far above its row the rule of the second and third row begins.
pub const LEGEND_TEXT_LINE_OFFSET: i64 = 6;

/// Legend row of fast insulin.
pub const LEGEND_Y_INSULIN_FAST: i64 = LEGEND_Y - LEGEND_LINE_HEIGHT - 3;

/// Legend row of food.
pub const LEGEND_Y_FOOD: i64 = LEGEND_Y_INSULIN_FAST - LEGEND_TEXT_HEIGHT;

/// Legend row of slow insulin.
pub const LEGEND_Y_INSULIN_SLOW: i64 = LEGEND_Y_FOOD - LEGEND_TEXT_HEIGHT;

/// Height at which fast-insulin icons are drawn.
pub const INFO_ICON_Y_FAST_INSULIN: i64 = 340;

/// Height at which food icons are drawn.
pub const INFO_ICON_Y_FOOD: i64 = INFO_ICON_Y_FAST_INSULIN - 12;

/// Height at which slow-insulin icons are drawn.
pub const INFO_ICON_Y_SLOW_INSULIN: i64 = INFO_ICON_Y_FOOD - 12;

/// Lower end of an event marker, one row below the legend.
pub const MARKER_LOW: i64 = LEGEND_Y_INSULIN_SLOW - LEGEND_TEXT_HEIGHT;

/// Upper end of an event marker, above the top of the chart.
pub const MARKER_HIGH: i64 = 400;

/// How many minutes in front of its event a marker is drawn.
pub const MARKER_OFFSET: u32 = 5;

/// A colour of the chart.
#[derive(Clone, Copy, Debug, PartialEq, Eq, Structural)]
pub enum Paint {
    /// Shading of the range below the target.
    LowRange,
    /// Shading of the target range.
    TargetRange,
    Black,
    Red,
}

/// One of the three event pictures.
#[derive(Clone, Copy, Debug, PartialEq, Eq, Structural)]
pub enum Icon {
    FastInsulin,
    Food,
    SlowInsulin,
}

/// A filled rectangle between two corners.
#[derive(Clone, Copy, Debug, PartialEq, Eq, Structural)]
pub struct Rect {
    pub left: u32,
    pub right: u32,
    pub low: i64,
    pub high: i64,
    pub paint: Paint,
}

/// A filled point of the glucose trace.
#[derive(Clone, Copy, Debug, PartialEq, Eq, Structural)]
pub struct Dot {
    pub x: u32,
    pub y: i64,
    pub paint: Paint,
}

/// An icon with its upper left corner at a position.
#[derive(Clone, Copy, Debug, PartialEq, Eq, Structural)]
pub struct IconAt {
    pub icon: Icon,
    pub x: u32,
    pub y: i64,
}

/// An amount written as a number at a position.
#[derive(Clone, Copy, Debug, PartialEq, Eq, Structural)]
pub struct Label {
    pub amount: u32,
    pub x: u32,
    pub y: i64,
}

/// One piece of the annotation of an event.
#[derive(Clone, Copy, Debug, PartialEq, Eq, Structural)]
pub enum Mark {
    Icon(IconAt),
    Label(Label),
    Line(Rect),
}

/// What to draw for one day, in drawing order: a white background with
/// axes, grid and the title; the `bands`; the `trace` as points, then one
/// black polyline through all of them in their order; the `rules` and the
/// `legend` icons; the `marks`. Later pieces lie on top.
#[derive(Clone, Debug, PartialEq, Eq)]
pub struct Chart {
    pub path: String,
    pub title: String,
    pub bands: Vec<Rect>,
    pub trace: Vec<Dot>,
    pub rules: Vec<Rect>,
    pub legend: Vec<IconAt>,
    pub marks: Vec<Mark>,
}

/// Mathematical model of a [`Chart`].
pub struct ChartView {
    pub path: Seq<char>,
    pub title: Seq<char>,
    pub bands: Seq<Rect>,
    pub trace: Seq<Dot>,
    pub rules: Seq<Rect>,
    pub legend: Seq<IconAt>,
    pub marks: Seq<Mark>,
}

impl View for Chart {
    type V = ChartView;

    open spec fn view(&self) -> ChartView {
        ChartView {
            path: self.path@,
            title: self.title@,
            bands: self.bands@,
            trace: self.trace@,
            rules: self.rules@,
            legend: self.legend@,
            marks: self.marks@,
        }
    }
}

impl DeepView for Chart {
    type V = ChartView;

    open spec fn deep_view(&self) -> ChartView {
        self@
    }
}

/// A rectangle over the whole width of the chart.
pub open spec fn full_width(low: i64, high: i64, paint: Paint) -> Rect {
    Rect { left: 0, right: MINUTES_PER_DAY, low, high, paint }
}

/// The two shaded ranges: below the target, then the target itself.
pub open spec fn range_bands() -> Seq<Rect> {
    seq![
        full_width(Y_MIN, TARGET_RANGE_MIN, Paint::LowRange),
        full_width(TARGET_RANGE_MIN, TARGET_RANGE_MAX, Paint::TargetRange),
    ]
}

/// The rule above each of the three legend rows.
pub open spec fn legend_rules() -> Seq<Rect> {
    seq![
        full_width((LEGEND_Y - LEGEND_LINE_HEIGHT) as i64, LEGEND_Y, Paint::Black),
        full_width(
            (LEGEND_Y_FOOD + LEGEND_TEXT_LINE_OFFSET - LEGEND_LINE_HEIGHT / 2) as i64,
            (LEGEND_Y_FOOD + LEGEND_TEXT_LINE_OFFSET) as i64,
            Paint::Black,
        ),
        full_width(
            (LEGEND_Y_INSULIN_SLOW + LEGEND_TEXT_LINE_OFFSET - LEGEND_LINE_HEIGHT / 2) as i64,
            (LEGEND_Y_INSULIN_SLOW + LEGEND_TEXT_LINE_OFFSET) as i64,
            Paint::Black,
        ),
    ]
}

/// The icon at the left end of each of the three legend rows.
pub open spec fn legend_icons() -> Seq<IconAt> {
    seq![
        IconAt { icon: Icon::FastInsulin, x: 0, y: LEGEND_Y_INSULIN_FAST },
        IconAt { icon: Icon::Food, x: 0, y: LEGEND_Y_FOOD },
        IconAt { icon: Icon::SlowInsulin, x: 0, y: LEGEND_Y_INSULIN_SLOW },
    ]
}

/// The colour of a reading: black above the lower end of the target range,
/// red at or below it. The upper end plays no part.
pub open spec fn reading_paint(reading: u32) -> Paint {
    if reading > TARGET_RANGE_MIN {
        Paint::Black
    } else {
        Paint::Red
    }
}

/// The trace point of a record: its reading at its time of day.
pub open spec fn dot_of(r: Record) -> Dot {
    Dot {
        x: r.timestamp.minute_of_day() as u32,
        y: r.glucose() as i64,
        paint: reading_paint(r.glucose()),
    }
}

/// The trace points of a record: one if it has a reading, else none.
pub open spec fn dots_of(r: Record) -> Seq<Dot> {
    if r.glucose() != 0 {
        seq![dot_of(r)]
    } else {
        Seq::empty()
    }
}

/// The glucose trace of a day: the points of its records, in their order.
pub open spec fn trace_of(day: Seq<Record>) -> Seq<Dot>
    decreases day.len(),
{
    if day.len() == 0 {
        Seq::empty()
    } else {
        trace_of(day.drop_last()) + dots_of(day.last())
    }
}

/// The icon and the number of one event of `amount` at the minute `x`:
/// nothing where the amount is absent.
pub open spec fn event_marks(icon: Icon, amount: u32, x: u32, icon_y: i64, row_y: i64) -> Seq<
    Mark,
> {
    if amount != 0 {
        seq![Mark::Icon(IconAt { icon, x, y: icon_y }), Mark::Label(Label { amount, x, y: row_y })]
    } else {
        Seq::empty()
    }
}

/// The vertical marker of a record with at least one event: from below the
/// legend to above the chart, a little in front of the record's minute.
pub open spec fn marker_of(r: Record) -> Seq<Mark> {
    if r.fast_insulin_amount() != 0 || r.food_amount() != 0 || r.slow_insulin_amount() != 0 {
        let x = r.timestamp.minute_of_day_before(MARKER_OFFSET as int) as u32;
        seq![
            Mark::Line(
                Rect { left: x, right: x, low: MARKER_LOW, high: MARKER_HIGH, paint: Paint::Black },
            ),
        ]
    } else {
        Seq::empty()
    }
}

/// The annotation of a record: fast insulin, food, slow insulin, marker.
pub open spec fn marks_of(r: Record) -> Seq<Mark> {
    let x = r.timestamp.minute_of_day() as u32;
    event_marks(
        Icon::FastInsulin,
        r.fast_insulin_amount(),
        x,
        INFO_ICON_Y_FAST_INSULIN,
        LEGEND_Y_INSULIN_FAST,
    ) + event_marks(Icon::Food, r.food_amount(), x, INFO_ICON_Y_FOOD, LEGEND_Y_FOOD) + event_marks(
        Icon::SlowInsulin,
        r.slow_insulin_amount(),
        x,
        INFO_ICON_Y_SLOW_INSULIN,
        LEGEND_Y_INSULIN_SLOW,
    ) + marker_of(r)
}

/// The annotations of a day: those of its records, in their order.
pub open spec fn annotations_of(day: Seq<Record>) -> Seq<Mark>
    decreases day.len(),
{
    if day.len() == 0 {
        Seq::empty()
    } else {
        annotations_of(day.drop_last()) + marks_of(day.last())
    }
}

/// The chart of a day.
pub open spec fn composed(day: Seq<Record>, path: Seq<char>, title: Seq<char>) -> ChartView {
    ChartView {
        path,
        title,
        bands: range_bands(),
        trace: trace_of(day),
        rules: legend_rules(),
        legend: legend_icons(),
        marks: annotations_of(day),
    }
}

/// A day without a single reading still has its chart, with both bands,
/// the title and the legend, and with an empty trace.
pub proof fn lemma_no_reading_no_trace(day: Seq<Record>, path: Seq<char>, title: Seq<char>)
    requires
        forall|i: int| 0 <= i < day.len() ==> (#[trigger] day[i]).glucose() == 0,
    ensures
        composed(day, path, title).trace.len() == 0,
        composed(day, path, title).bands == range_bands(),
        composed(day, path, title).bands.len() == 2,
        composed(day, path, title).title == title,
        composed(day, path, title).legend.len() == 3,
    decreases day.len(),
{
    if day.len() > 0 {
        let front = day.drop_last();
        assert forall|i: int| 0 <= i < front.len() implies (#[trigger] front[i]).glucose() == 0 by {
            assert(front[i] == day[i]);
        }
        lemma_no_reading_no_trace(front, path, title);
    }
}

/// The trace has one point for each record with a reading, and no more.
pub proof fn lemma_trace_len(day: Seq<Record>)
    ensures
        trace_of(day).len() == day.filter(|r: Record| r.glucose() != 0).len(),
        trace_of(day).len() <= day.len(),
    decreases day.len(),
{
    reveal(Seq::filter);
    if day.len() > 0 {
        lemma_trace_len(day.drop_last());
    }
}

/// Minutes from midnight to the timestamp.
pub fn to_duration(timestamp: &Timestamp) -> (minutes: u32)
    ensures
        minutes == timestamp@.minute_of_day(),
        minutes < MINUTES_PER_DAY,
{
    timestamp.minute_of_day()
}

/// Minutes from midnight to the place of the timestamp's marker, a little
/// in front of the timestamp. Just after midnight the marker wraps round
/// to the end of the day.
pub fn to_duration_offset(timestamp: &Timestamp) -> (minutes: u32)
    ensures
        minutes == timestamp@.minute_of_day_before(MARKER_OFFSET as int),
        minutes < MINUTES_PER_DAY,
{
    timestamp.minute_of_day_before(MARKER_OFFSET)
}

/// The left end of the horizontal axis.
pub fn zero_duration() -> (minutes: u32)
    ensures
        minutes == 0,
{
    0
}

/// The right end of the horizontal axis.
pub fn max_width_duration() -> (minutes: u32)
    ensures
        minutes == MINUTES_PER_DAY,
{
    MINUTES_PER_DAY
}

/// The colour of a reading.
pub fn paint_of(reading: u32) -> (paint: Paint)
    ensures
        paint == reading_paint(reading),
{
    if reading as i64 > TARGET_RANGE_MIN {
        Paint::Black
    } else {
        Paint::Red
    }
}

/// A rectangle over the whole width of the chart.
fn band(low: i64, high: i64, paint: Paint) -> (rect: Rect)
    ensures
        rect == full_width(low, high, paint),
{
    Rect { left: zero_duration(), right: max_width_duration(), low, high, paint }
}

/// Appends the icon and the number of one event, if there is an amount.
fn push_event(marks: &mut Vec<Mark>, icon: Icon, amount: u32, x: u32, icon_y: i64, row_y: i64)
    ensures
        final(marks)@ == old(marks)@ + event_marks(icon, amount, x, icon_y, row_y),
{
    if amount != 0 {
        marks.push(Mark::Icon(IconAt { icon, x, y: icon_y }));
        marks.push(Mark::Label(Label { amount, x, y: row_y }));
    }
    assert(marks@ =~= old(marks)@ + event_marks(icon, amount, x, icon_y, row_y));
}

/// Appends the annotation of one record.
fn push_marks(marks: &mut Vec<Mark>, line: &FsLibreLine)
    ensures
        final(marks)@ == old(marks)@ + marks_of(line@),
{
    let x: u32 = to_duration(&line.timestamp);
    let fast_insulin: u32 = line.fast_insulin_amount();
    let food: u32 = line.food_amount();
    let slow_insulin: u32 = line.slow_insulin_amount();
    push_event(
        marks,
        Icon::FastInsulin,
        fast_insulin,
        x,
        INFO_ICON_Y_FAST_INSULIN,
        LEGEND_Y_INSULIN_FAST,
    );
    push_event(marks, Icon::Food, food, x, INFO_ICON_Y_FOOD, LEGEND_Y_FOOD);
    push_event(
        marks,
        Icon::SlowInsulin,
        slow_insulin,
        x,
        INFO_ICON_Y_SLOW_INSULIN,
        LEGEND_Y_INSULIN_SLOW,
    );
    if fast_insulin != 0 || slow_insulin != 0 || food != 0 {
        let at: u32 = to_duration_offset(&line.timestamp);
        marks.push(
            Mark::Line(
                Rect { left: at, right: at, low: MARKER_LOW, high: MARKER_HIGH, paint: Paint::Black },
            ),
        );
    }
    assert(marks@ =~= old(marks)@ + marks_of(line@));
}

/// Composes the chart of one day. The records are taken in their order;
/// `path` and `title` are handed on as they are.
pub fn plot(data_of_day: &Vec<FsLibreLine>, path: &str, title: &str) -> (chart: Chart)
    ensures
        chart@ == composed(data_of_day.deep_view(), path@, title@),
        chart@.bands == range_bands(),
        (forall|i: int| 0 <= i < data_of_day.len() ==> (#[trigger] data_of_day[i])@.glucose() == 0)
            ==> chart@.trace.len() == 0,
{
    let ghost day = data_of_day.deep_view();
    let mut bands: Vec<Rect> = Vec::new();
    bands.push(band(Y_MIN, TARGET_RANGE_MIN, Paint::LowRange));
    bands.push(band(TARGET_RANGE_MIN, TARGET_RANGE_MAX, Paint::TargetRange));
    assert(bands@ =~= range_bands());

    let mut trace: Vec<Dot> = Vec::new();
    let mut index: usize = 0;
    while index < data_of_day.len()
        invariant
            index <= data_of_day.len(),
            day == data_of_day.deep_view(),
            trace@ == trace_of(day.take(index as int)),
        decreases data_of_day.len() - index,
    {
        let line = &data_of_day[index];
        proof {
            let upto = day.take(index + 1);
            assert(upto.drop_last() =~= day.take(index as int));
            assert(upto.last() == line@);
        }
        let reading: u32 = line.glucose();
        if reading != 0 {
            trace.push(
                Dot {
                    x: to_duration(&line.timestamp),
                    y: reading as i64,
                    paint: paint_of(reading),
                },
            );
        }
        assert(trace@ =~= trace_of(day.take(index as int)) + dots_of(line@));
        index = index + 1;
    }
    assert(day.take(index as int) =~= day);

    let mut rules: Vec<Rect> = Vec::new();
    rules.push(band(LEGEND_Y - LEGEND_LINE_HEIGHT, LEGEND_Y, Paint::Black));
    rules.push(
        band(
            LEGEND_Y_FOOD + LEGEND_TEXT_LINE_OFFSET - LEGEND_LINE_HEIGHT / 2,
            LEGEND_Y_FOOD + LEGEND_TEXT_LINE_OFFSET,
            Paint::Black,
        ),
    );
    rules.push(
        band(
            LEGEND_Y_INSULIN_SLOW + LEGEND_TEXT_LINE_OFFSET - LEGEND_LINE_HEIGHT / 2,
            LEGEND_Y_INSULIN_SLOW + LEGEND_TEXT_LINE_OFFSET,
            Paint::Black,
        ),
    );
    assert(rules@ =~= legend_rules());

    let mut legend: Vec<IconAt> = Vec::new();
    legend.push(IconAt { icon: Icon::FastInsulin, x: zero_duration(), y: LEGEND_Y_INSULIN_FAST });
    legend.push(IconAt { icon: Icon::Food, x: zero_duration(), y: LEGEND_Y_FOOD });
    legend.push(IconAt { icon: Icon::SlowInsulin, x: zero_duration(), y: LEGEND_Y_INSULIN_SLOW });
    assert(legend@ =~= legend_icons());

    let mut marks: Vec<Mark> = Vec::new();
    let mut index: usize = 0;
    while index < data_of_day.len()
        invariant
            index <= data_of_day.len(),
            day == data_of_day.deep_view(),
            marks@ == annotations_of(day.take(index as int)),
        decreases data_of_day.len() - index,
    {
        let line = &data_of_day[index];
        proof {
            let upto = day.take(index + 1);
            assert(upto.drop_last() =~= day.take(index as int));
            assert(upto.last() == line@);
        }
        push_marks(&mut marks, line);
        index = index + 1;
    }
    assert(day.take(index as int) =~= day);

    proof {
        if forall|i: int| 0 <= i < data_of_day.len() ==> (#[trigger] data_of_day[i])@.glucose() == 0 {
            assert forall|i: int| 0 <= i < day.len() implies (#[trigger] day[i]).glucose() == 0 by {
                assert(day[i] == data_of_day[i]@);
            }
            lemma_no_reading_no_trace(day, path@, title@);
        }
    }
    Chart {
        path: String::from_str(path),
        title: String::from_str(title),
        bands,
        trace,
        rules,
        legend,
        marks,
    }
}

/// The title of a day's chart: the date of its first record as
/// `YYYY-MM-DD`. A day without records has no title.
pub fn build_title(data_of_day: &Vec<FsLibreLine>) -> (title: Result<String, ()>)
    ensures
        match title {
            Ok(text) => data_of_day.len() > 0 && text@ == data_of_day[0]@.timestamp.date_text(),
            Err(_) => data_of_day.len() == 0,
        },
{
    if data_of_day.len() > 0 {
        Ok(data_of_day[0].timestamp.date_text())
    } else {
        Err(())
    }
}

/// The file of a chart: its title with `.png` behind it.
pub fn build_path(title: &str) -> (path: String)
    ensures
        path@ == title@ + ".png"@,
{
    let path = String::from_str(title);
    path.concat(".png")
}

/// The chart of one day, titled by its date and bound for the file of that
/// name. A day without records has no chart.
pub fn plot_wrapper(data_of_day: &Vec<FsLibreLine>) -> (chart: Option<Chart>)
    ensures
        match chart {
            Some(c) => data_of_day.len() > 0 && c@ == composed(
                data_of_day.deep_view(),
                data_of_day[0]@.timestamp.date_text() + ".png"@,
                data_of_day[0]@.timestamp.date_text(),
            ),
            None => data_of_day.len() == 0,
        },
{
    match build_title(data_of_day) {
        Ok(title) => {
            let path = build_path(title.as_str());
            Some(plot(data_of_day, path.as_str(), title.as_str()))
        },
        Err(_) => None,
    }
}

/// The directory of the icon files.
pub fn resources_dir() -> (dir: &'static str)
    ensures
        dir@ == "res"@,
{
    "res"
}

/// What stands between a directory and a file in a path.
pub fn delim() -> (mark: &'static str)
    ensures
        mark@ == "/"@,
{
    "/"
}

/// The path of the icon file `name`.
fn build_image_path(name: &str) -> (path: String)
    ensures
        path@ == "res"@ + "/"@ + name@,
{
    String::from_str(resources_dir()).concat(delim()).concat(name)
}

/// The file of the fast-insulin icon.
pub fn build_image_path_syringe() -> (path: String)
    ensures
        path@ == "res"@ + "/"@ + "syringe.png"@,
{
    build_image_path("syringe.png")
}

/// The file of the slow-insulin icon.
pub fn build_image_path_syringe_slow() -> (path: String)
    ensures
        path@ == "res"@ + "/"@ + "syringe_slow.png"@,
{
    build_image_path("syringe_slow.png")
}

/// The file of the food icon.
pub fn build_image_path_food() -> (path: String)
    ensures
        path@ == "res"@ + "/"@ + "apple.png"@,
{
    build_image_path("apple.png")
}

/// The file of an icon.
pub fn icon_path(icon: Icon) -> (path: String)
    ensures
        path@ == "res"@ + "/"@ + match icon {
            Icon::FastInsulin => "syringe.png"@,
            Icon::Food => "apple.png"@,
            Icon::SlowInsulin => "syringe_slow.png"@,
        },
{
    match icon {
        Icon::FastInsulin => build_image_path_syringe(),
        Icon::Food => build_image_path_food(),
        Icon::SlowInsulin => build_image_path_syringe_slow(),
    }
}

/// The label of the horizontal axis at `minutes` from midnight: the full
/// hours, then `:00`.
pub fn x_label(minutes: u32) -> (text: String)
    ensures
        text@ == decimal((minutes / 60) as nat) + ":00"@,
{
    decimal_text(minutes / 60).concat(":00")
}

/// The label of the vertical axis at `level`: the number as it is.
pub fn y_label(level: i32) -> (text: String)
    ensures
        text@ == signed_decimal(level as int),
{
    signed_decimal_text(level)
}

impl Label {
    /// What the label says: its amount in decimal.
    pub fn text(&self) -> (text: String)
        ensures
            text@ == decimal(self.amount as nat),
    {
        decimal_text(self.amount)
    }
}

} // verus!
