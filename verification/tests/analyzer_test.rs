use sheetloader::analyzer::{ExcelAnalyzer, SheetAnalysis};
use sheetloader::cells::{Cell, SheetGrid};
use sheetloader::error::AppError;

fn text(s: &str) -> Cell {
    Cell::Text(s.to_string())
}

#[test]
fn analyze_column_reports_counts_and_duplicate_flag() {
    let analyzer = ExcelAnalyzer;
    let values = vec![
        text("x"),
        Cell::Empty,
        text("x"),
        text("y"),
    ];
    let info = analyzer.analyze_column(&values, "c");
    assert_eq!(info.name, "c");
    assert_eq!(info.null_count, 1);
    assert_eq!(info.unique_count, 2);
    // has_duplicates == (unique_count < total - null_count)
    assert_eq!(info.has_duplicates, info.unique_count < values.len() - info.null_count);
    assert!(info.has_duplicates);
    assert_eq!(info.min_value, Some("x".to_string()));
    assert_eq!(info.max_value, Some("y".to_string()));
}

#[test]
fn sample_values_cap_at_three_and_render_nulls_as_empty() {
    let analyzer = ExcelAnalyzer;
    let mut values = vec![Cell::Empty, Cell::Int(7)];
    for i in 0..50 {
        values.push(Cell::Int(i));
    }
    let info = analyzer.analyze_column(&values, "c");
    assert_eq!(info.sample_values.len(), 3);
    assert_eq!(info.sample_values, vec!["".to_string(), "7".to_string(), "0".to_string()]);
}

fn workbook_one_sheet(rows: Vec<Vec<Cell>>) -> Vec<SheetGrid> {
    vec![SheetGrid { name: "data".to_string(), rows }]
}

#[test]
fn empty_workbook_fails() {
    let analyzer = ExcelAnalyzer;
    let sheets: Vec<SheetGrid> = Vec::new();
    match analyzer.analyze_workbook(&sheets) {
        Err(AppError::FileProcessingError(msg)) => {
            assert_eq!(msg, "No sheets found in workbook");
        }
        _ => panic!("expected a failure on an empty workbook"),
    }
}

fn analysis() -> SheetAnalysis {
    let analyzer = ExcelAnalyzer;
    let rows = vec![
        vec![text("id"), text("when"), text("who"), text("flag")],
        vec![Cell::Int(1), text("2024-01-15"), text("alice"), Cell::Bool(true)],
        vec![Cell::Int(2), text("2024-02-20"), text("bob"), Cell::Bool(false)],
        vec![Cell::Int(3), text("2024-03-25"), text("carol"), Cell::Bool(true)],
    ];
    analyzer.analyze_workbook(&workbook_one_sheet(rows)).unwrap()
}

#[test]
fn columns_are_classified_into_the_three_lists() {
    let a = analysis();
    assert_eq!(a.sheet_names, vec!["data"]);
    assert_eq!(a.row_count, 4);
    assert_eq!(a.column_count, 4);
    assert_eq!(a.numeric_columns, vec!["id"]);
    assert_eq!(a.date_columns, vec!["when"]);
    assert_eq!(a.text_columns, vec!["who"]);
    // Boolean columns are classified but put in no list.
    let flag = a.column_info.iter().find(|c| c.name == "flag").unwrap();
    assert_eq!(flag.data_type, "boolean");
}

#[test]
fn sample_data_caps_at_five_rows_including_the_header() {
    let analyzer = ExcelAnalyzer;
    let mut rows = vec![vec![text("h")]];
    for i in 0..20 {
        rows.push(vec![Cell::Int(i)]);
    }
    let a = analyzer.analyze_workbook(&workbook_one_sheet(rows)).unwrap();
    assert_eq!(a.sample_data.len(), 5);
    assert_eq!(a.sample_data[0], vec!["h".to_string()]);
    assert_eq!(a.sample_data[1], vec!["0".to_string()]);
    assert_eq!(a.row_count, 21);
}

#[test]
fn data_types_render_as_their_report_names() {
    let a = analysis();
    let id = a.column_info.iter().find(|c| c.name == "id").unwrap();
    assert_eq!(id.data_type, "numeric");
    let when = a.column_info.iter().find(|c| c.name == "when").unwrap();
    assert_eq!(when.data_type, "date");
    let who = a.column_info.iter().find(|c| c.name == "who").unwrap();
    assert_eq!(who.data_type, "string");
}
