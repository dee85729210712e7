use fslibre::export::push_line;
use fslibre::{debug_print_file, parse_line, FsLibreLine, Timestamp};

fn sample() -> FsLibreLine {
    let mut line = FsLibreLine::new();
    line.id = String::from("42");
    line.timestamp = Timestamp::new(2024, 1, 5, 8, 0).unwrap();
    line.gluco_scanned = 110;
    line.carbohydrate = 45;
    line
}

#[test]
fn line_is_written_field_by_field() {
    let mut text = String::from(">");
    push_line(&mut text, &sample());
    assert_eq!(text, ">42\t2024.01.05 08:00\t0\t\t110\t\t\t\t\t\t45\t\t\t\t\n");
}

#[test]
fn blank_record_is_written_with_its_mandatory_fields() {
    assert_eq!(
        debug_print_file(&vec![FsLibreLine::new()]),
        "\t1970.01.01 00:00\t0\t\t\t\t\t\t\t\t\t\t\t\t\n"
    );
    assert_eq!(debug_print_file(&Vec::new()), "");
}

#[test]
fn file_is_the_lines_one_behind_the_other() {
    let mut full = FsLibreLine::new();
    full.id = String::from("7");
    full.timestamp = Timestamp::new(2023, 12, 31, 23, 59).unwrap();
    full.line_type = 6;
    full.gluco_hist = 1;
    full.gluco_scanned = 2;
    full.fast_insulin = 3;
    full.fast_insulin_non_numeric = 4;
    full.fast_insulin_units = 5;
    full.food = 6;
    full.food_non_numeric = 7;
    full.carbohydrate = 8;
    full.slow_insulin = 9;
    full.slow_insulin_non_numeric = 10;
    full.slow_insulin_units = 11;
    let text = debug_print_file(&vec![sample(), full]);
    assert_eq!(
        text,
        "42\t2024.01.05 08:00\t0\t\t110\t\t\t\t\t\t45\t\t\t\t\n\
         7\t2023.12.31 23:59\t6\t1\t2\t3\t4\t5\t6\t7\t8\t9\t10\t11\t\n"
    );
}

#[test]
fn written_lines_are_read_back() {
    let mut records = vec![sample(), FsLibreLine::new()];
    let mut other = sample();
    other.id = String::from("long id");
    other.line_type = 4294967295;
    other.slow_insulin_units = 1;
    other.fast_insulin = 1000;
    records.push(other);
    let text = debug_print_file(&records);
    let mut read: Vec<FsLibreLine> = Vec::new();
    for (n, line) in text.lines().enumerate() {
        let out = parse_line(line, n + 1);
        assert_eq!(out.error, None);
        read.push(out.record);
    }
    assert_eq!(read, records);
}
