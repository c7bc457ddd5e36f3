use sheetloader::cells::{Cell, SheetGrid};
use sheetloader::error::AppError;
use sheetloader::frame::{clean_dataframe, create_dataframe, detect_date_columns,
    normalize_date_columns, ColumnData, Frame, FrameColumn};
use sheetloader::headers::normalize_headers;
use sheetloader::loader::DbLoader;
use sheetloader::processor::ExcelProcessor;

fn text(s: &str) -> Cell {
    Cell::Text(s.to_string())
}

fn build(rows: Vec<Vec<Cell>>) -> Frame {
    let texts: Vec<String> = rows[0].iter().map(|c| match c {
        Cell::Text(s) => s.clone(),
        _ => String::new(),
    }).collect();
    let headers = normalize_headers(&texts);
    create_dataframe(&rows, &headers).unwrap()
}

#[test]
fn empty_input_is_rejected() {
    let rows: Vec<Vec<Cell>> = Vec::new();
    let headers = vec!["a".to_string()];
    match create_dataframe(&rows, &headers) {
        Err(AppError::InvalidInput(msg)) => assert_eq!(msg, "Empty data or headers"),
        _ => panic!("expected InvalidInput"),
    }
    let rows = vec![vec![text("a")]];
    let no_headers: Vec<String> = Vec::new();
    assert!(create_dataframe(&rows, &no_headers).is_err());
}

#[test]
fn numeric_columns_coerce_ints_and_floats_and_null_the_rest() {
    let rows = vec![
        vec![text("n")],
        vec![Cell::Int(5)],
        vec![Cell::Float("2.5".to_string())],
        vec![Cell::Int(-3)],
        vec![Cell::Int(9)],
        vec![text("oops")],
    ];
    let f = build(rows);
    match &f.columns[0].data {
        ColumnData::Numeric(v) => {
            assert_eq!(v, &vec![
                Some("5".to_string()),
                Some("2.5".to_string()),
                Some("-3".to_string()),
                Some("9".to_string()),
                None,
            ]);
        }
        _ => panic!("expected a numeric column"),
    }
}

#[test]
fn date_columns_keep_epoch_seconds_of_native_datetimes() {
    let rows = vec![
        vec![text("d")],
        vec![Cell::DateTime { seconds: 86400, text: "1".to_string() }],
        vec![Cell::DateTime { seconds: 172800, text: "2".to_string() }],
        vec![Cell::DateTime { seconds: 259200, text: "3".to_string() }],
        vec![Cell::DateTime { seconds: 345600, text: "4".to_string() }],
        vec![text("not a date")],
    ];
    let f = build(rows);
    match &f.columns[0].data {
        ColumnData::Date(v) => {
            assert_eq!(v, &vec![Some(86400), Some(172800), Some(259200), Some(345600), None]);
        }
        _ => panic!("expected a date column"),
    }
}

#[test]
fn other_columns_render_every_cell_as_text() {
    let rows = vec![
        vec![text("t")],
        vec![text("x")],
        vec![Cell::Int(7)],
        vec![Cell::Bool(true)],
        vec![Cell::Empty],
    ];
    let f = build(rows);
    match &f.columns[0].data {
        ColumnData::Text(v) => {
            assert_eq!(v, &vec![
                "x".to_string(),
                "7".to_string(),
                "true".to_string(),
                "".to_string(),
            ]);
        }
        _ => panic!("expected a text column"),
    }
}

#[test]
fn short_rows_pad_with_empty_cells() {
    let rows = vec![
        vec![text("a"), text("b")],
        vec![text("only one")],
    ];
    let f = build(rows);
    match &f.columns[1].data {
        ColumnData::Text(v) => assert_eq!(v, &vec!["".to_string()]),
        _ => panic!("expected a text column"),
    }
}

#[test]
fn cleaning_drops_fully_empty_rows_and_fully_null_columns() {
    let f = Frame {
        columns: vec![
            FrameColumn {
                name: "kept".to_string(),
                data: ColumnData::Numeric(vec![Some("1".to_string()), None, Some("2".to_string())]),
            },
            FrameColumn {
                name: "gone".to_string(),
                data: ColumnData::Date(vec![None, None, None]),
            },
        ],
    };
    let cleaned = clean_dataframe(&f).unwrap();
    assert_eq!(cleaned.columns.len(), 1);
    assert_eq!(cleaned.columns[0].name, "kept");
    match &cleaned.columns[0].data {
        ColumnData::Numeric(v) => {
            // the middle row was fully empty and left
            assert_eq!(v, &vec![Some("1".to_string()), Some("2".to_string())]);
        }
        _ => panic!("expected a numeric column"),
    }
}

#[test]
fn a_sheet_of_one_empty_row_and_one_empty_column_cleans_to_nothing() {
    // Header row and one data row, one column, everything empty.
    let rows = vec![vec![Cell::Empty], vec![Cell::Empty]];
    let headers = normalize_headers(&vec!["".to_string()]);
    let f = create_dataframe(&rows, &headers).unwrap();
    assert!(clean_dataframe(&f).is_none());

    // The processor reports the whole file as holding no usable data.
    let loader = DbLoader::new().unwrap();
    let mut processor = ExcelProcessor::new(loader);
    let sheets = vec![SheetGrid { name: "empty".to_string(), rows }];
    match processor.process_file(&sheets, 0) {
        Err(AppError::FileProcessingError(msg)) => {
            assert_eq!(msg, "No valid data found in Excel file");
        }
        _ => panic!("expected the empty sheet to fail the run"),
    }
}

#[test]
fn a_mixed_workbook_loads_only_its_usable_sheets() {
    let loader = DbLoader::new().unwrap();
    let mut processor = ExcelProcessor::new(loader);
    let empty_sheet = SheetGrid { name: "blank".to_string(), rows: vec![vec![Cell::Empty]] };
    let good_sheet = SheetGrid {
        name: "good".to_string(),
        rows: vec![
            vec![text("v")],
            vec![Cell::Int(1)],
            vec![Cell::Int(2)],
        ],
    };
    let sheets = vec![empty_sheet, good_sheet];
    let loaded = processor.process_file(&sheets, 7).unwrap();
    assert_eq!(loaded, 1);
    assert!(processor.loader().has_data());
}

#[test]
fn date_like_text_columns_are_recast_after_cleaning() {
    let f = Frame {
        columns: vec![FrameColumn {
            name: "joined".to_string(),
            data: ColumnData::Text(vec![
                "2024-01-15".to_string(),
                "2024-01-15 06:30:15".to_string(),
                "15/01/2024".to_string(),
                "2024/01/16".to_string(),
                "garbage".to_string(),
            ]),
        }],
    };
    let datey = detect_date_columns(&f);
    assert_eq!(datey, vec!["joined"]);
    let g = normalize_date_columns(&f, &datey);
    match &g.columns[0].data {
        ColumnData::Date(v) => {
            assert_eq!(v, &vec![
                Some(1705276800),
                Some(1705276800 + 6 * 3600 + 30 * 60 + 15),
                Some(1705276800),
                Some(1705363200),
                None,
            ]);
        }
        _ => panic!("expected the column recast to dates"),
    }
}

#[test]
fn a_mostly_non_date_text_column_is_not_recast() {
    let f = Frame {
        columns: vec![FrameColumn {
            name: "t".to_string(),
            data: ColumnData::Text(vec![
                "2024-01-15".to_string(),
                "a".to_string(),
                "b".to_string(),
                "c".to_string(),
                "d".to_string(),
            ]),
        }],
    };
    assert!(detect_date_columns(&f).is_empty());
}
