use fslibre::normalize::merge_lines;
use fslibre::{normalize, sort_by_timestamp, split_days, unify_timestamps, FsLibreLine, Timestamp};

fn stamp(year: i32, month: u32, day: u32, hour: u32, minute: u32) -> Timestamp {
    Timestamp::new(year, month, day, hour, minute).unwrap()
}

fn at(id: &str, timestamp: Timestamp) -> FsLibreLine {
    let mut line = FsLibreLine::new();
    line.id = String::from(id);
    line.timestamp = timestamp;
    line
}

fn ids(data: &Vec<FsLibreLine>) -> Vec<String> {
    data.iter().map(|line| line.id.clone()).collect()
}

#[test]
fn sorting_orders_by_time() {
    let mut data = vec![
        at("a", stamp(2024, 1, 5, 23, 58)),
        at("b", stamp(2024, 1, 6, 0, 2)),
        at("c", stamp(2024, 1, 5, 0, 1)),
        at("d", stamp(2023, 12, 31, 12, 0)),
    ];
    sort_by_timestamp(&mut data);
    assert_eq!(ids(&data), ["d", "c", "a", "b"]);
}

#[test]
fn sorting_keeps_records_of_one_minute_in_their_order() {
    let t = stamp(2024, 1, 5, 8, 0);
    let u = stamp(2024, 1, 5, 7, 0);
    let mut data =
        vec![at("1", t), at("2", u), at("3", t), at("4", u), at("5", t), at("6", u), at("7", t)];
    sort_by_timestamp(&mut data);
    assert_eq!(ids(&data), ["2", "4", "6", "1", "3", "5", "7"]);
}

#[test]
fn sorting_is_what_the_standard_library_sorts() {
    let mut data: Vec<FsLibreLine> = Vec::new();
    let mut seed: u32 = 12345;
    for n in 0..200 {
        seed = seed.wrapping_mul(1103515245).wrapping_add(12345);
        let day = 1 + (seed >> 16) % 3;
        let hour = (seed >> 8) % 4;
        let minute = seed % 3;
        data.push(at(&n.to_string(), stamp(2024, 1, day, hour, minute)));
    }
    let mut expected = data.clone();
    expected.sort_by_key(|line| {
        (line.timestamp.year(), line.timestamp.month(), line.timestamp.day(),
            line.timestamp.hour(), line.timestamp.minute())
    });
    sort_by_timestamp(&mut data);
    assert_eq!(data, expected);
}

#[test]
fn sorting_leaves_sorted_and_small_inputs_alone() {
    let mut none: Vec<FsLibreLine> = Vec::new();
    sort_by_timestamp(&mut none);
    assert!(none.is_empty());
    let mut one = vec![at("x", stamp(2024, 1, 5, 8, 0))];
    sort_by_timestamp(&mut one);
    assert_eq!(ids(&one), ["x"]);
    let mut sorted = vec![
        at("a", stamp(2024, 1, 5, 8, 0)),
        at("b", stamp(2024, 1, 5, 8, 0)),
        at("c", stamp(2024, 1, 5, 9, 0)),
    ];
    let before = sorted.clone();
    sort_by_timestamp(&mut sorted);
    assert_eq!(sorted, before);
}

#[test]
fn merge_takes_the_last_value_that_is_present() {
    let t = stamp(2024, 1, 5, 8, 0);
    let mut first = at("1", t);
    first.food = 5;
    let mut second = at("2", t);
    second.food = 7;
    let third = at("3", t);
    let unified = unify_timestamps(&vec![first, second, third]);
    assert_eq!(unified.len(), 1);
    assert_eq!(unified[0].timestamp, t);
    assert_eq!(unified[0].food, 7);
}

#[test]
fn merge_of_three_records_with_one_value_each() {
    let t = stamp(2024, 1, 5, 8, 0);
    let mut first = at("", t);
    first.fast_insulin = 5;
    let mut second = at("", t);
    second.food = 7;
    let third = at("", t);
    let unified = unify_timestamps(&vec![first, second, third]);
    assert_eq!(unified.len(), 1);
    assert_eq!(unified[0].food, 7);
    assert_eq!(unified[0].fast_insulin, 5);
    assert_eq!(unified[0].carbohydrate, 0);
}

#[test]
fn merge_folds_every_field() {
    let t = stamp(2024, 1, 5, 8, 0);
    let mut first = at("first", t);
    first.line_type = 1;
    first.gluco_hist = 101;
    first.gluco_scanned = 102;
    first.fast_insulin = 1;
    first.fast_insulin_non_numeric = 2;
    first.fast_insulin_units = 3;
    first.food = 4;
    first.food_non_numeric = 5;
    first.carbohydrate = 6;
    first.slow_insulin = 7;
    first.slow_insulin_non_numeric = 8;
    first.slow_insulin_units = 9;
    let mut second = at("", t);
    second.line_type = 4;
    second.gluco_scanned = 202;
    second.fast_insulin_units = 33;
    second.carbohydrate = 66;
    second.slow_insulin_units = 99;
    let merged = merge_lines(&first, &second);
    let mut expected = first.clone();
    expected.line_type = 4;
    expected.gluco_scanned = 202;
    expected.fast_insulin_units = 33;
    expected.carbohydrate = 66;
    expected.slow_insulin_units = 99;
    assert_eq!(merged, expected);
    assert_eq!(unify_timestamps(&vec![first.clone(), second.clone()]), vec![expected]);

    let back = merge_lines(&second, &first);
    assert_eq!(back, first);
    let mut named = second.clone();
    named.id = String::from("second");
    assert_eq!(merge_lines(&first, &named).id, "second");
}

#[test]
fn merge_keeps_a_reading_and_an_event_of_one_minute() {
    let t = stamp(2024, 1, 5, 8, 0);
    let mut reading = at("10", t);
    reading.gluco_scanned = 110;
    let mut event = at("11", t);
    event.line_type = 4;
    event.fast_insulin_units = 6;
    let unified = unify_timestamps(&vec![reading, event]);
    assert_eq!(unified.len(), 1);
    assert_eq!(unified[0].gluco_scanned, 110);
    assert_eq!(unified[0].fast_insulin_units, 6);
    assert_eq!(unified[0].line_type, 4);
    assert_eq!(unified[0].id, "11");
}

#[test]
fn merge_looks_at_neighbours_only() {
    let t = stamp(2024, 1, 5, 8, 0);
    let u = stamp(2024, 1, 5, 9, 0);
    let mut a = at("a", t);
    a.food = 1;
    let mut b = at("b", u);
    b.food = 2;
    let mut c = at("c", t);
    c.carbohydrate = 3;
    let data = vec![a, b, c];
    let unified = unify_timestamps(&data);
    assert_eq!(unified, data);
    assert!(unify_timestamps(&Vec::new()).is_empty());
}

#[test]
fn first_record_passes_even_at_the_epoch() {
    let mut only = at("e", Timestamp::epoch());
    only.gluco_hist = 90;
    let unified = unify_timestamps(&vec![only.clone()]);
    assert_eq!(unified, vec![only]);
}

#[test]
fn days_split_where_the_date_changes() {
    let mut data = vec![
        at("a", stamp(2024, 1, 5, 23, 58)),
        at("b", stamp(2024, 1, 6, 0, 2)),
        at("c", stamp(2024, 1, 5, 0, 1)),
    ];
    sort_by_timestamp(&mut data);
    let days = split_days(&data);
    assert_eq!(days.len(), 2);
    assert_eq!(ids(&days[0]), ["c", "a"]);
    assert_eq!(ids(&days[1]), ["b"]);
}

#[test]
fn unsorted_days_split_at_every_change() {
    let data = vec![
        at("a", stamp(2024, 1, 5, 23, 58)),
        at("b", stamp(2024, 1, 6, 0, 2)),
        at("c", stamp(2024, 1, 5, 0, 1)),
    ];
    let days = split_days(&data);
    assert_eq!(days.len(), 3);
    assert_eq!(ids(&days[0]), ["a"]);
    assert_eq!(ids(&days[1]), ["b"]);
    assert_eq!(ids(&days[2]), ["c"]);
}

#[test]
fn days_are_told_apart_by_the_day_of_the_month() {
    let data = vec![
        at("a", stamp(2024, 1, 5, 10, 0)),
        at("b", stamp(2024, 2, 5, 10, 0)),
        at("c", stamp(2024, 2, 6, 10, 0)),
        at("d", stamp(2025, 3, 6, 10, 0)),
    ];
    let days = split_days(&data);
    assert_eq!(days.len(), 2);
    assert_eq!(ids(&days[0]), ["a", "b"]);
    assert_eq!(ids(&days[1]), ["c", "d"]);
}

#[test]
fn days_of_nothing_are_none() {
    assert!(split_days(&Vec::new()).is_empty());
    assert!(normalize(Vec::new()).is_empty());
    let one = split_days(&vec![at("x", stamp(2024, 1, 5, 10, 0))]);
    assert_eq!(one.len(), 1);
    assert_eq!(ids(&one[0]), ["x"]);
}

#[test]
fn normalizing_sorts_merges_and_splits() {
    let mut reading = at("1", stamp(2024, 1, 6, 7, 0));
    reading.gluco_hist = 95;
    let mut dose = at("2", stamp(2024, 1, 5, 22, 0));
    dose.slow_insulin_units = 14;
    let mut meal = at("3", stamp(2024, 1, 6, 7, 0));
    meal.food = 1;
    meal.carbohydrate = 45;
    let mut scan = at("4", stamp(2024, 1, 5, 8, 0));
    scan.gluco_scanned = 130;
    let days = normalize(vec![reading, dose, meal, scan]);
    assert_eq!(days.len(), 2);
    assert_eq!(ids(&days[0]), ["4", "2"]);
    assert_eq!(ids(&days[1]), ["3"]);
    assert_eq!(days[1][0].gluco_hist, 95);
    assert_eq!(days[1][0].carbohydrate, 45);
    assert_eq!(days[1][0].food, 1);
}

#[test]
fn normalizing_again_changes_nothing() {
    let t = stamp(2024, 1, 5, 8, 0);
    let mut a = at("a", t);
    a.food = 5;
    let mut b = at("b", stamp(2024, 1, 4, 8, 0));
    b.gluco_hist = 80;
    let mut c = at("c", t);
    c.carbohydrate = 7;
    let d = at("d", stamp(2024, 1, 5, 9, 0));
    let mut once = vec![a, b, c, d];
    sort_by_timestamp(&mut once);
    let once = unify_timestamps(&once);
    assert_eq!(once.len(), 3);
    let mut twice = once.clone();
    sort_by_timestamp(&mut twice);
    assert_eq!(twice, once);
    let twice = unify_timestamps(&twice);
    assert_eq!(twice, once);

    let days = normalize(once.clone());
    let flat: Vec<FsLibreLine> = days.iter().flatten().cloned().collect();
    assert_eq!(flat, once);
    assert_eq!(normalize(flat), days);
}
