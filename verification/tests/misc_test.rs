use sheetloader::agent::{sanitize_values, AgentResponse};
use sheetloader::cells::{cell_text, Cell};
use sheetloader::config::{default_max_file_size, AppState, Config};
use sheetloader::dates::parse_date_epoch;
use sheetloader::error::AppError;
use sheetloader::db::SqlParam;
use sheetloader::loader::{generate_create_table_sql, generate_insert_sql, prepare_row_params};
use sheetloader::frame::{ColumnData, Frame, FrameColumn};
use sheetloader::text::{i64_to_string, str_lt, u64_to_string};

#[test]
fn integers_render_in_decimal() {
    assert_eq!(u64_to_string(0), "0");
    assert_eq!(u64_to_string(90210), "90210");
    assert_eq!(i64_to_string(-42), "-42");
    assert_eq!(i64_to_string(i64::MIN), "-9223372036854775808");
    assert_eq!(i64_to_string(i64::MAX), "9223372036854775807");
}

#[test]
fn string_order_is_lexicographic() {
    assert!(str_lt("apple", "banana"));
    assert!(!str_lt("banana", "apple"));
    assert!(!str_lt("same", "same"));
    assert!(str_lt("ab", "abc"));
    assert!(str_lt("100", "99"));
}

#[test]
fn cells_render_canonically() {
    assert_eq!(cell_text(&Cell::Empty), "");
    assert_eq!(cell_text(&Cell::Int(-7)), "-7");
    assert_eq!(cell_text(&Cell::Float("2.25".to_string())), "2.25");
    assert_eq!(cell_text(&Cell::Bool(true)), "true");
    assert_eq!(cell_text(&Cell::Bool(false)), "false");
    assert_eq!(cell_text(&Cell::Text("hi".to_string())), "hi");
    assert_eq!(cell_text(&Cell::DateTime { seconds: 5, text: "x".to_string() }), "x");
}

#[test]
fn date_strings_parse_to_epoch_seconds() {
    assert_eq!(parse_date_epoch("1970-01-01"), Some(0));
    assert_eq!(parse_date_epoch("1970-01-01 00:00:01"), Some(1));
    assert_eq!(parse_date_epoch("2024-01-15"), Some(1705276800));
    assert_eq!(parse_date_epoch("15/01/2024 12:00:00"), Some(1705276800 + 12 * 3600));
    assert_eq!(parse_date_epoch("1969-12-31"), Some(-86400));
    assert_eq!(parse_date_epoch("nope"), None);
}

#[test]
fn sanitizing_strips_the_two_control_characters() {
    let response = AgentResponse {
        comment: "a\u{0}b\u{1f}c".to_string(),
        queries: vec!["SELECT\u{0} 1".to_string(), "plain".to_string()],
    };
    let clean = sanitize_values(response);
    assert_eq!(clean.comment, "abc");
    assert_eq!(clean.queries, vec!["SELECT 1".to_string(), "plain".to_string()]);
}

#[test]
fn error_messages_carry_their_prefix() {
    assert_eq!(
        AppError::InvalidInput("bad".to_string()).message(),
        "Invalid input: bad"
    );
    assert_eq!(
        AppError::DatabaseError("down".to_string()).message(),
        "Database error: down"
    );
    assert_eq!(
        AppError::FileProcessingError("nope".to_string()).message(),
        "File processing error: nope"
    );
}

#[test]
fn errors_separate_client_from_service_conditions() {
    assert_eq!(AppError::InvalidInput(String::new()).status_code(), 400);
    assert_eq!(AppError::ParseError(String::new()).status_code(), 400);
    assert_eq!(AppError::HttpError(String::new()).status_code(), 400);
    assert_eq!(AppError::LlmError(String::new()).status_code(), 503);
    assert_eq!(AppError::DatabaseError(String::new()).status_code(), 500);
    assert_eq!(AppError::FileProcessingError(String::new()).status_code(), 500);
}

#[test]
fn the_default_file_size_limit_is_ten_megabytes() {
    assert_eq!(default_max_file_size(), 10 * 1024 * 1024);
    let state = AppState::new(Config {
        max_file_size: default_max_file_size(),
        openai_key: "k".to_string(),
    });
    assert_eq!(state.config.max_file_size, 10485760);
}

fn two_col_frame() -> Frame {
    Frame {
        columns: vec![
            FrameColumn {
                name: "a".to_string(),
                data: ColumnData::Numeric(vec![Some("1.5".to_string()), None]),
            },
            FrameColumn {
                name: "b".to_string(),
                data: ColumnData::Date(vec![None, Some(99)]),
            },
        ],
    }
}

#[test]
fn sql_statements_derive_from_the_frame() {
    let f = two_col_frame();
    assert_eq!(
        generate_create_table_sql("t", &f),
        "CREATE TABLE IF NOT EXISTS t (a REAL, b INTEGER)"
    );
    assert_eq!(generate_insert_sql("t", &f), "INSERT INTO t (a, b) VALUES (?, ?)");
}

#[test]
fn row_parameters_follow_the_column_kinds() {
    let f = two_col_frame();
    let p0 = prepare_row_params(&f, 0);
    assert!(matches!(&p0[0], SqlParam::Text(s) if s == "1.5"));
    assert!(matches!(&p0[1], SqlParam::Null));
    let p1 = prepare_row_params(&f, 1);
    assert!(matches!(&p1[0], SqlParam::Null));
    assert!(matches!(&p1[1], SqlParam::Int(99)));
}
