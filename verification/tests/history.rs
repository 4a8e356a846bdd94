use zmk_battery_center::history::{
    format_history_line, history_entry, parse_history, parse_history_line, safe_filename,
    sanitize_char, BatteryHistoryRecord,
};
use zmk_battery_center::text::{format_i32, parse_i32};

fn record(timestamp: &str, user_description: &str, battery_level: i32) -> BatteryHistoryRecord {
    BatteryHistoryRecord {
        timestamp: timestamp.to_string(),
        user_description: user_description.to_string(),
        battery_level,
    }
}

#[test]
fn filename_keeps_letters_numbers_hyphens_and_underscores() {
    assert_eq!(safe_filename("Corne-v3_left", "AB12"), "Corne-v3_left_AB12.csv");
}

#[test]
fn filename_replaces_everything_else() {
    assert_eq!(safe_filename("My Keyboard!", "DeviceId(AA:BB:CC)"), "My_Keyboard__DeviceId_AA_BB_CC_.csv");
    assert_eq!(safe_filename("a/b\\c.d", "x y"), "a_b_c_d_x_y.csv");
}

#[test]
fn filename_keeps_letters_of_other_scripts() {
    assert_eq!(safe_filename("キーボード", "é٣"), "キーボード_é٣.csv");
}

#[test]
fn filename_of_empty_names() {
    assert_eq!(safe_filename("", ""), "_.csv");
}

#[test]
fn sanitize_char_goes_by_the_flag() {
    assert_eq!(sanitize_char('a', true), 'a');
    assert_eq!(sanitize_char('a', false), '_');
    assert_eq!(sanitize_char('-', false), '-');
    assert_eq!(sanitize_char('_', false), '_');
    assert_eq!(sanitize_char(' ', false), '_');
    assert_eq!(sanitize_char(':', true), ':');
}

#[test]
fn numbers_are_written_in_decimal() {
    assert_eq!(format_i32(0), "0");
    assert_eq!(format_i32(7), "7");
    assert_eq!(format_i32(100), "100");
    assert_eq!(format_i32(-1), "-1");
    assert_eq!(format_i32(2147483647), "2147483647");
    assert_eq!(format_i32(-2147483648), "-2147483648");
}

#[test]
fn numbers_are_read_in_decimal() {
    assert_eq!(parse_i32("0"), Some(0));
    assert_eq!(parse_i32("85"), Some(85));
    assert_eq!(parse_i32("+85"), Some(85));
    assert_eq!(parse_i32("-85"), Some(-85));
    assert_eq!(parse_i32("-0"), Some(0));
    assert_eq!(parse_i32("007"), Some(7));
    assert_eq!(parse_i32("2147483647"), Some(2147483647));
    assert_eq!(parse_i32("-2147483648"), Some(-2147483648));
}

#[test]
fn what_is_no_number_is_not_read() {
    assert_eq!(parse_i32(""), None);
    assert_eq!(parse_i32("+"), None);
    assert_eq!(parse_i32("-"), None);
    assert_eq!(parse_i32(" 5"), None);
    assert_eq!(parse_i32("5 "), None);
    assert_eq!(parse_i32("5-"), None);
    assert_eq!(parse_i32("--5"), None);
    assert_eq!(parse_i32("1.5"), None);
    assert_eq!(parse_i32("٣"), None);
    assert_eq!(parse_i32("2147483648"), None);
    assert_eq!(parse_i32("-2147483649"), None);
    assert_eq!(parse_i32("99999999999999999999999"), None);
}

#[test]
fn reading_agrees_with_the_standard_library() {
    let samples = [
        "", "0", "-0", "+0", "12", "-12", "+12", "1a", "a1", "2147483647", "2147483648",
        "-2147483648", "-2147483649", "000000000000123", "+-1", "-+1", "1,2", "４２",
    ];
    for sample in samples {
        assert_eq!(parse_i32(sample), sample.parse::<i32>().ok());
    }
    for number in [0, 1, -1, 9, 10, -10, 99, 12345, i32::MAX, i32::MIN] {
        assert_eq!(format_i32(number), number.to_string());
        assert_eq!(parse_i32(&format_i32(number)), Some(number));
    }
}

#[test]
fn line_is_split_at_its_first_two_commas() {
    assert_eq!(
        parse_history_line("2024-05-01T10:00:00Z,Left,85"),
        Some(record("2024-05-01T10:00:00Z", "Left", 85))
    );
    assert_eq!(parse_history_line(",,"), Some(record("", "", -1)));
    assert_eq!(parse_history_line("t,d,1,2"), Some(record("t", "d", -1)));
}

#[test]
fn unreadable_level_is_minus_one() {
    assert_eq!(parse_history_line("t,Left,"), Some(record("t", "Left", -1)));
    assert_eq!(parse_history_line("t,Left,high"), Some(record("t", "Left", -1)));
    assert_eq!(parse_history_line("t,Left, 85"), Some(record("t", "Left", -1)));
}

#[test]
fn line_with_fewer_than_three_fields_gives_nothing() {
    assert_eq!(parse_history_line(""), None);
    assert_eq!(parse_history_line("only"), None);
    assert_eq!(parse_history_line("two,fields"), None);
}

#[test]
fn history_passes_over_header_and_short_lines() {
    let lines: Vec<String> = vec![
        "timestamp,user_description,battery_level".to_string(),
        "t1,Left,90".to_string(),
        "broken".to_string(),
        "t2,Right,-3".to_string(),
        "t3,,x".to_string(),
    ];
    assert_eq!(
        parse_history(&lines),
        vec![record("t1", "Left", 90), record("t2", "Right", -3), record("t3", "", -1)]
    );
}

#[test]
fn first_line_is_passed_over_whatever_it_holds() {
    let lines: Vec<String> = vec!["t0,Left,1".to_string(), "t1,Left,2".to_string()];
    assert_eq!(parse_history(&lines), vec![record("t1", "Left", 2)]);
    assert_eq!(parse_history(&vec!["t0,Left,1".to_string()]), vec![]);
    assert_eq!(parse_history(&vec![]), vec![]);
}

#[test]
fn line_is_written_with_commas() {
    assert_eq!(format_history_line("t1", "Left", 90), "t1,Left,90");
    assert_eq!(format_history_line("", "", -5), ",,-5");
}

#[test]
fn entry_carries_the_header_for_a_new_file() {
    assert_eq!(
        history_entry(true, "t1", "Left", 90),
        "timestamp,user_description,battery_level\nt1,Left,90\n"
    );
    assert_eq!(history_entry(false, "t1", "Left", 90), "t1,Left,90\n");
}

#[test]
fn written_line_is_read_back() {
    let line = format_history_line("2024-05-01 10:00", "Right half", -2147483648);
    assert_eq!(parse_history_line(&line), Some(record("2024-05-01 10:00", "Right half", -2147483648)));
}
