use fslibre::model::pick;
use fslibre::pipeline::plot_days;
use fslibre::plot::{
    build_image_path_food, build_image_path_syringe, build_image_path_syringe_slow, delim,
    icon_path, max_width_duration, paint_of, resources_dir, to_duration, to_duration_offset,
    x_label, y_label, zero_duration, Dot, Icon, IconAt, Label, Mark, Paint, Rect,
    INFO_ICON_Y_FAST_INSULIN, INFO_ICON_Y_FOOD, INFO_ICON_Y_SLOW_INSULIN, LEGEND_Y_FOOD,
    LEGEND_Y_INSULIN_FAST, LEGEND_Y_INSULIN_SLOW, MARKER_HIGH, MARKER_LOW, MARKER_OFFSET,
    TARGET_RANGE_MAX, TARGET_RANGE_MIN, Y_MAX, Y_MIN,
};
use fslibre::{build_path, build_title, charts, plot, plot_wrapper, FsLibreLine, Timestamp};

fn stamp(year: i32, month: u32, day: u32, hour: u32, minute: u32) -> Timestamp {
    Timestamp::new(year, month, day, hour, minute).unwrap()
}

fn at(hour: u32, minute: u32) -> FsLibreLine {
    let mut line = FsLibreLine::new();
    line.timestamp = stamp(2024, 1, 5, hour, minute);
    line
}

fn marker(x: u32) -> Mark {
    Mark::Line(Rect { left: x, right: x, low: -75, high: 400, paint: Paint::Black })
}

#[test]
fn day_without_readings_has_bands_and_title_but_no_trace() {
    let mut meal = at(12, 0);
    meal.food = 2;
    let day = vec![at(8, 0), meal, at(20, 0)];
    let chart = plot(&day, "2024-01-05.png", "2024-01-05");
    assert!(chart.trace.is_empty());
    assert_eq!(chart.title, "2024-01-05");
    assert_eq!(chart.path, "2024-01-05.png");
    assert_eq!(chart.bands.len(), 2);
    assert_eq!(chart.rules.len(), 3);
    assert_eq!(chart.legend.len(), 3);
    assert_eq!(chart.marks.len(), 3);
}

#[test]
fn empty_day_still_has_the_fixed_parts() {
    let chart = plot(&Vec::new(), "p", "t");
    assert_eq!(
        chart.bands,
        vec![
            Rect { left: 0, right: 1440, low: -100, high: 60, paint: Paint::LowRange },
            Rect { left: 0, right: 1440, low: 60, high: 180, paint: Paint::TargetRange },
        ]
    );
    assert_eq!(
        chart.rules,
        vec![
            Rect { left: 0, right: 1440, low: -12, high: -10, paint: Paint::Black },
            Rect { left: 0, right: 1440, low: -30, high: -29, paint: Paint::Black },
            Rect { left: 0, right: 1440, low: -50, high: -49, paint: Paint::Black },
        ]
    );
    assert_eq!(
        chart.legend,
        vec![
            IconAt { icon: Icon::FastInsulin, x: 0, y: -15 },
            IconAt { icon: Icon::Food, x: 0, y: -35 },
            IconAt { icon: Icon::SlowInsulin, x: 0, y: -55 },
        ]
    );
    assert!(chart.trace.is_empty());
    assert!(chart.marks.is_empty());
    assert_eq!(chart.path, "p");
    assert_eq!(chart.title, "t");
}

#[test]
fn trace_has_a_point_for_each_reading() {
    let mut scanned = at(8, 0);
    scanned.gluco_scanned = 110;
    scanned.gluco_hist = 95;
    let mut historic = at(8, 15);
    historic.gluco_hist = 60;
    let nothing = at(8, 30);
    let mut low = at(23, 59);
    low.gluco_scanned = 41;
    let mut high = at(0, 0);
    high.gluco_hist = 61;
    let chart = plot(&vec![scanned, historic, nothing, low, high], "p", "t");
    assert_eq!(
        chart.trace,
        vec![
            Dot { x: 480, y: 110, paint: Paint::Black },
            Dot { x: 495, y: 60, paint: Paint::Red },
            Dot { x: 1439, y: 41, paint: Paint::Red },
            Dot { x: 0, y: 61, paint: Paint::Black },
        ]
    );
    assert!(chart.marks.is_empty());
}

#[test]
fn readings_are_red_up_to_the_lower_end_of_the_target_range() {
    assert_eq!(paint_of(1), Paint::Red);
    assert_eq!(paint_of(59), Paint::Red);
    assert_eq!(paint_of(60), Paint::Red);
    assert_eq!(paint_of(61), Paint::Black);
    assert_eq!(paint_of(180), Paint::Black);
    assert_eq!(paint_of(181), Paint::Black);
    assert_eq!(paint_of(400), Paint::Black);
    assert_eq!(paint_of(u32::MAX), Paint::Black);
}

#[test]
fn large_readings_keep_their_value() {
    let mut line = at(1, 0);
    line.gluco_hist = u32::MAX;
    let chart = plot(&vec![line], "p", "t");
    assert_eq!(chart.trace, vec![Dot { x: 60, y: 4294967295, paint: Paint::Black }]);
}

#[test]
fn amounts_take_the_first_encoding_that_is_present() {
    assert_eq!(pick(0, 9), 9);
    assert_eq!(pick(4, 9), 4);
    assert_eq!(pick(0, 0), 0);
    let mut line = FsLibreLine::new();
    assert_eq!(line.glucose(), 0);
    assert_eq!(line.fast_insulin_amount(), 0);
    assert_eq!(line.slow_insulin_amount(), 0);
    assert_eq!(line.food_amount(), 0);
    line.fast_insulin_non_numeric = 3;
    assert_eq!(line.fast_insulin_amount(), 3);
    line.fast_insulin = 2;
    assert_eq!(line.fast_insulin_amount(), 2);
    line.fast_insulin_units = 1;
    assert_eq!(line.fast_insulin_amount(), 1);
    line.carbohydrate = 40;
    assert_eq!(line.slow_insulin_amount(), 40);
    line.slow_insulin_non_numeric = 30;
    assert_eq!(line.slow_insulin_amount(), 30);
    line.slow_insulin = 20;
    assert_eq!(line.slow_insulin_amount(), 20);
    line.slow_insulin_units = 10;
    assert_eq!(line.slow_insulin_amount(), 10);
    line.food_non_numeric = 6;
    assert_eq!(line.food_amount(), 6);
    line.food = 5;
    assert_eq!(line.food_amount(), 5);
    line.gluco_hist = 90;
    assert_eq!(line.glucose(), 90);
    line.gluco_scanned = 100;
    assert_eq!(line.glucose(), 100);
}

#[test]
fn events_are_annotated_with_icon_number_and_marker() {
    let mut line = at(8, 0);
    line.fast_insulin_units = 6;
    line.food = 1;
    line.slow_insulin = 14;
    let chart = plot(&vec![line], "p", "t");
    assert_eq!(
        chart.marks,
        vec![
            Mark::Icon(IconAt { icon: Icon::FastInsulin, x: 480, y: 340 }),
            Mark::Label(Label { amount: 6, x: 480, y: -15 }),
            Mark::Icon(IconAt { icon: Icon::Food, x: 480, y: 328 }),
            Mark::Label(Label { amount: 1, x: 480, y: -35 }),
            Mark::Icon(IconAt { icon: Icon::SlowInsulin, x: 480, y: 316 }),
            Mark::Label(Label { amount: 14, x: 480, y: -55 }),
            marker(475),
        ]
    );
}

#[test]
fn one_event_has_one_marker() {
    let mut dose = at(12, 30);
    dose.fast_insulin = 4;
    let mut meal = at(13, 0);
    meal.food_non_numeric = 1;
    let quiet = at(14, 0);
    let chart = plot(&vec![dose, meal, quiet], "p", "t");
    assert_eq!(
        chart.marks,
        vec![
            Mark::Icon(IconAt { icon: Icon::FastInsulin, x: 750, y: 340 }),
            Mark::Label(Label { amount: 4, x: 750, y: -15 }),
            marker(745),
            Mark::Icon(IconAt { icon: Icon::Food, x: 780, y: 328 }),
            Mark::Label(Label { amount: 1, x: 780, y: -35 }),
            marker(775),
        ]
    );
}

#[test]
fn carbohydrate_shows_in_the_slow_insulin_row() {
    let mut line = at(18, 0);
    line.carbohydrate = 45;
    let chart = plot(&vec![line], "p", "t");
    assert_eq!(
        chart.marks,
        vec![
            Mark::Icon(IconAt { icon: Icon::SlowInsulin, x: 1080, y: 316 }),
            Mark::Label(Label { amount: 45, x: 1080, y: -55 }),
            marker(1075),
        ]
    );
}

#[test]
fn marker_just_after_midnight_wraps_to_the_end_of_the_day() {
    let mut line = at(0, 2);
    line.food = 3;
    let chart = plot(&vec![line], "p", "t");
    assert_eq!(
        chart.marks,
        vec![
            Mark::Icon(IconAt { icon: Icon::Food, x: 2, y: 328 }),
            Mark::Label(Label { amount: 3, x: 2, y: -35 }),
            marker(1437),
        ]
    );
}

#[test]
fn durations_count_minutes_of_the_day() {
    assert_eq!(zero_duration(), 0);
    assert_eq!(max_width_duration(), 1440);
    assert_eq!(to_duration(&stamp(2024, 1, 5, 8, 30)), 510);
    assert_eq!(to_duration(&stamp(1999, 12, 31, 23, 59)), 1439);
    assert_eq!(to_duration_offset(&stamp(2024, 1, 5, 8, 30)), 505);
    assert_eq!(to_duration_offset(&stamp(2024, 1, 5, 0, 0)), 1435);
}

#[test]
fn title_is_the_date_of_the_first_record() {
    let day = vec![at(8, 0), at(9, 0)];
    assert_eq!(build_title(&day), Ok(String::from("2024-01-05")));
    assert_eq!(build_title(&Vec::new()), Err(()));
    let mut other = FsLibreLine::new();
    other.timestamp = stamp(987, 6, 5, 4, 3);
    assert_eq!(build_title(&vec![other, at(8, 0)]), Ok(String::from("0987-06-05")));
}

#[test]
fn path_is_the_title_with_the_extension() {
    assert_eq!(build_path("2024-01-05"), "2024-01-05.png");
    assert_eq!(build_path(""), ".png");
    assert_eq!(build_path("a.png"), "a.png.png");
}

#[test]
fn day_chart_is_named_by_its_date() {
    let mut line = at(8, 0);
    line.gluco_hist = 100;
    let chart = plot_wrapper(&vec![line.clone()]).unwrap();
    assert_eq!(chart.title, "2024-01-05");
    assert_eq!(chart.path, "2024-01-05.png");
    assert_eq!(chart, plot(&vec![line], "2024-01-05.png", "2024-01-05"));
    assert_eq!(plot_wrapper(&Vec::new()), None);
}

#[test]
fn icons_lie_in_the_resource_directory() {
    assert_eq!(resources_dir(), "res");
    assert_eq!(delim(), "/");
    assert_eq!(build_image_path_syringe(), "res/syringe.png");
    assert_eq!(build_image_path_syringe_slow(), "res/syringe_slow.png");
    assert_eq!(build_image_path_food(), "res/apple.png");
    assert_eq!(icon_path(Icon::FastInsulin), "res/syringe.png");
    assert_eq!(icon_path(Icon::SlowInsulin), "res/syringe_slow.png");
    assert_eq!(icon_path(Icon::Food), "res/apple.png");
}

#[test]
fn days_without_records_have_no_chart() {
    let mut line = at(8, 0);
    line.gluco_hist = 100;
    let all = plot_days(&vec![Vec::new(), vec![line.clone()], Vec::new()]);
    assert_eq!(all, vec![plot_wrapper(&vec![line]).unwrap()]);
    assert!(plot_days(&Vec::new()).is_empty());
}

#[test]
fn lines_become_one_chart_for_each_day() {
    let lines = vec![
        String::from("FreeStyle export"),
        String::from("ID\tTime\tType"),
        String::from("3\t2024.01.06 00:02\t1\t\t88\t"),
        String::from("1\t2024.01.05 23:58\t0\t140\t"),
        String::from("junk"),
        String::from("2\t2024.01.05 00:01\t4\t\t\t\t\t7\t"),
        String::from("4\t2024.01.05 23:58\t5\t\t\t\t\t\t\t\t30\t"),
    ];
    let all = charts(&lines);
    assert_eq!(all.len(), 2);
    assert_eq!(all[0].title, "2024-01-05");
    assert_eq!(all[0].path, "2024-01-05.png");
    assert_eq!(all[0].trace, vec![Dot { x: 1438, y: 140, paint: Paint::Black }]);
    assert_eq!(
        all[0].marks,
        vec![
            Mark::Icon(IconAt { icon: Icon::FastInsulin, x: 1, y: 340 }),
            Mark::Label(Label { amount: 7, x: 1, y: -15 }),
            marker(1436),
            Mark::Icon(IconAt { icon: Icon::SlowInsulin, x: 1438, y: 316 }),
            Mark::Label(Label { amount: 30, x: 1438, y: -55 }),
            marker(1433),
        ]
    );
    assert_eq!(all[1].title, "2024-01-06");
    assert_eq!(all[1].trace, vec![Dot { x: 2, y: 88, paint: Paint::Black }]);
    assert!(all[1].marks.is_empty());
    assert!(charts(&Vec::new()).is_empty());
}

#[test]
fn axis_labels_are_hours_and_levels() {
    assert_eq!(x_label(0), "0:00");
    assert_eq!(x_label(59), "0:00");
    assert_eq!(x_label(60), "1:00");
    assert_eq!(x_label(720), "12:00");
    assert_eq!(x_label(1439), "23:00");
    assert_eq!(x_label(1440), "24:00");
    assert_eq!(y_label(-100), "-100");
    assert_eq!(y_label(0), "0");
    assert_eq!(y_label(350), "350");
    assert_eq!(Label { amount: 14, x: 0, y: 0 }.text(), "14");
    assert_eq!(Label { amount: 4294967295, x: 0, y: 0 }.text(), "4294967295");
}

#[test]
fn geometry_hangs_together() {
    assert_eq!((Y_MIN, Y_MAX), (-100, 350));
    assert_eq!((TARGET_RANGE_MIN, TARGET_RANGE_MAX), (60, 180));
    assert_eq!((LEGEND_Y_INSULIN_FAST, LEGEND_Y_FOOD, LEGEND_Y_INSULIN_SLOW), (-15, -35, -55));
    assert_eq!((INFO_ICON_Y_FAST_INSULIN, INFO_ICON_Y_FOOD, INFO_ICON_Y_SLOW_INSULIN), (340, 328, 316));
    assert_eq!((MARKER_LOW, MARKER_HIGH, MARKER_OFFSET), (-75, 400, 5));
}
