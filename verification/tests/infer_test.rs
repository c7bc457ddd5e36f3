use sheetloader::cells::Cell;
use sheetloader::dates::is_date_string;
use sheetloader::infer::{detect_column_type, DataType};

fn ints(n: usize) -> Vec<Cell> {
    (0..n).map(|i| Cell::Int(i as i64)).collect()
}

fn texts(n: usize) -> Vec<Cell> {
    (0..n).map(|i| Cell::Text(format!("t{}", i))).collect()
}

#[test]
fn exactly_eighty_percent_numeric_is_numeric() {
    let mut values = ints(80);
    values.extend(texts(20));
    assert_eq!(detect_column_type(&values), DataType::Numeric);
}

#[test]
fn seventy_nine_percent_numeric_is_not_numeric() {
    let mut values = ints(79);
    values.extend(texts(21));
    assert_eq!(detect_column_type(&values), DataType::Text);
}

#[test]
fn empties_are_left_out_of_the_denominator() {
    // 8 numeric out of 10 non-empty values: exactly 80%.
    let mut values = ints(8);
    values.extend(texts(2));
    values.push(Cell::Empty);
    values.push(Cell::Empty);
    assert_eq!(detect_column_type(&values), DataType::Numeric);
}

#[test]
fn all_empty_is_the_empty_type() {
    let values = vec![Cell::Empty, Cell::Empty];
    assert_eq!(detect_column_type(&values), DataType::Empty);
    let none: Vec<Cell> = Vec::new();
    assert_eq!(detect_column_type(&none), DataType::Empty);
}

#[test]
fn booleans_classify_as_boolean() {
    let values = vec![Cell::Bool(true), Cell::Bool(false), Cell::Bool(true), Cell::Bool(true)];
    assert_eq!(detect_column_type(&values), DataType::Boolean);
}

#[test]
fn date_strings_and_datetimes_classify_as_date() {
    let values = vec![
        Cell::DateTime { seconds: 86400, text: "1".to_string() },
        Cell::Text("2024-01-15".to_string()),
        Cell::Text("15/01/2024".to_string()),
        Cell::Text("2024/01/15".to_string()),
        Cell::Text("15-01-2024".to_string()),
    ];
    assert_eq!(detect_column_type(&values), DataType::Date);
}

#[test]
fn only_the_first_hundred_values_are_sampled() {
    // 100 text values first, then 400 integers: the sample sees only text.
    let mut values = texts(100);
    values.extend(ints(400));
    assert_eq!(detect_column_type(&values), DataType::Text);
}

#[test]
fn date_patterns_match_with_and_without_time() {
    assert!(is_date_string("2024-01-15"));
    assert!(is_date_string("15/01/2024"));
    assert!(is_date_string("2024/01/15"));
    assert!(is_date_string("15-01-2024"));
    assert!(is_date_string("2024-01-15 23:59:59"));
    assert!(is_date_string("15/01/2024 00:00:00"));
}

#[test]
fn non_dates_do_not_match() {
    assert!(!is_date_string("2024-13-15")); // month out of range
    assert!(!is_date_string("2024-00-15"));
    assert!(!is_date_string("2024-01-32")); // day out of range
    assert!(!is_date_string("2024-01-15 24:00:00")); // hour out of range
    assert!(!is_date_string("not a date"));
    assert!(!is_date_string("2024-1-15"));
    assert!(!is_date_string(""));
    assert!(!is_date_string("2024-01-15T00:00:00"));
}
