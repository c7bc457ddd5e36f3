use sheetloader::agent::AgentResponse;
use sheetloader::frame::{ColumnData, Frame, FrameColumn};
use sheetloader::loader::{DbLoader, JsonVal};

fn sample_frame() -> Frame {
    Frame {
        columns: vec![
            FrameColumn {
                name: "id".to_string(),
                data: ColumnData::Numeric(vec![
                    Some("1".to_string()),
                    Some("2".to_string()),
                    Some("3".to_string()),
                ]),
            },
            FrameColumn {
                name: "name".to_string(),
                data: ColumnData::Text(vec![
                    "alice".to_string(),
                    "bob".to_string(),
                    "carol".to_string(),
                ]),
            },
            FrameColumn {
                name: "joined".to_string(),
                data: ColumnData::Date(vec![Some(1705276800), Some(1705363200), None]),
            },
        ],
    }
}

fn run(loader: &DbLoader, sql: &str) -> sheetloader::loader::QueryOutput {
    let response = AgentResponse { comment: "q".to_string(), queries: vec![sql.to_string()] };
    let mut result = loader.execute_queries(response).unwrap();
    result.data.remove(0)
}

#[test]
fn a_fresh_loader_has_no_data() {
    let loader = DbLoader::new().unwrap();
    assert!(!loader.has_data());
    assert_eq!(
        loader.get_schema_with_samples().unwrap(),
        "No data has been loaded into the database yet"
    );
}

#[test]
fn three_records_round_trip_through_the_store() {
    let mut loader = DbLoader::new().unwrap();
    loader.load_dataframe(&sample_frame(), "t", 0).unwrap();
    assert!(loader.has_data());
    let out = run(&loader, "SELECT * FROM t");
    assert_eq!(out.columns, vec!["id", "name", "joined"]);
    assert_eq!(out.rows.len(), 3);
    match &out.rows[0][0] {
        JsonVal::Float { text, .. } => assert_eq!(text, "1"),
        other => panic!("expected the id to come back as a real value, got {:?}", fmt(other)),
    }
    match &out.rows[0][1] {
        JsonVal::Text(s) => assert_eq!(s, "alice"),
        other => panic!("unexpected value {:?}", fmt(other)),
    }
    match &out.rows[0][2] {
        JsonVal::Int(i) => assert_eq!(*i, 1705276800),
        other => panic!("unexpected value {:?}", fmt(other)),
    }
    match &out.rows[2][2] {
        JsonVal::Null => {}
        other => panic!("unexpected value {:?}", fmt(other)),
    }
}

fn fmt(v: &JsonVal) -> String {
    match v {
        JsonVal::Null => "null".to_string(),
        JsonVal::Int(i) => format!("int {}", i),
        JsonVal::Float { text, .. } => format!("float {}", text),
        JsonVal::Text(s) => format!("text {}", s),
    }
}

#[test]
fn a_failed_replacement_leaves_the_previous_table_intact() {
    let mut loader = DbLoader::new().unwrap();
    loader.load_dataframe(&sample_frame(), "t", 0).unwrap();
    // Two columns under the same name make the schema creation fail inside
    // the transaction, after the old table was dropped in it.
    let broken = Frame {
        columns: vec![
            FrameColumn {
                name: "id".to_string(),
                data: ColumnData::Text(vec!["x".to_string()]),
            },
            FrameColumn {
                name: "id".to_string(),
                data: ColumnData::Text(vec!["y".to_string()]),
            },
        ],
    };
    assert!(loader.load_dataframe(&broken, "t", 1).is_err());
    let out = run(&loader, "SELECT COUNT(*) AS n FROM t");
    match &out.rows[0][0] {
        JsonVal::Int(n) => assert_eq!(*n, 3),
        other => panic!("unexpected value {:?}", fmt(other)),
    }
}

#[test]
fn a_successful_replacement_fully_replaces() {
    let mut loader = DbLoader::new().unwrap();
    loader.load_dataframe(&sample_frame(), "t", 0).unwrap();
    let small = Frame {
        columns: vec![FrameColumn {
            name: "only".to_string(),
            data: ColumnData::Text(vec!["v".to_string()]),
        }],
    };
    loader.load_dataframe(&small, "t", 1).unwrap();
    let out = run(&loader, "SELECT * FROM t");
    assert_eq!(out.columns, vec!["only"]);
    assert_eq!(out.rows.len(), 1);
}

#[test]
fn many_rows_survive_batched_insertion() {
    let n = 1000usize;
    let frame = Frame {
        columns: vec![FrameColumn {
            name: "v".to_string(),
            data: ColumnData::Date((0..n).map(|i| Some(i as i64)).collect()),
        }],
    };
    let mut loader = DbLoader::new().unwrap();
    loader.load_dataframe(&frame, "big", 0).unwrap();
    let out = run(&loader, "SELECT COUNT(*) AS n, MIN(v) AS lo, MAX(v) AS hi FROM big");
    match (&out.rows[0][0], &out.rows[0][1], &out.rows[0][2]) {
        (JsonVal::Int(c), JsonVal::Int(lo), JsonVal::Int(hi)) => {
            assert_eq!(*c, 1000);
            assert_eq!(*lo, 0);
            assert_eq!(*hi, 999);
        }
        _ => panic!("unexpected aggregate shapes"),
    }
}

#[test]
fn schema_text_lists_tables_columns_and_samples() {
    let mut loader = DbLoader::new().unwrap();
    loader.load_dataframe(&sample_frame(), "t", 0).unwrap();
    let schema = loader.get_schema_with_samples().unwrap();
    let expected = "\nTable: t\nColumns:\n  id REAL\n  name TEXT\n  joined INTEGER\n\nSample Data:\n  1, 'alice', 1705276800\n  2, 'bob', 1705363200\n  3, 'carol', NULL\n\n";
    assert_eq!(schema, expected);
}

#[test]
fn blobs_and_non_finite_reals_are_coerced() {
    let loader = DbLoader::new().unwrap();
    let out = run(&loader, "SELECT x'0102' AS b, 1e308 * 10 AS inf, NULL AS missing");
    match &out.rows[0][0] {
        JsonVal::Text(s) => assert_eq!(s, "BLOB"),
        other => panic!("unexpected value {:?}", fmt(other)),
    }
    match &out.rows[0][1] {
        JsonVal::Null => {}
        other => panic!("expected the overflowing real to read as null, got {:?}", fmt(other)),
    }
    match &out.rows[0][2] {
        JsonVal::Null => {}
        other => panic!("unexpected value {:?}", fmt(other)),
    }
}

#[test]
fn empty_query_lists_yield_an_empty_result() {
    let loader = DbLoader::new().unwrap();
    let response = AgentResponse { comment: "nothing to do".to_string(), queries: vec![] };
    let result = loader.execute_queries(response).unwrap();
    assert_eq!(result.comment, "nothing to do");
    assert!(result.data.is_empty());
}

#[test]
fn a_bad_query_reports_a_database_error() {
    let loader = DbLoader::new().unwrap();
    let response = AgentResponse {
        comment: "broken".to_string(),
        queries: vec!["SELECT FROM".to_string()],
    };
    assert!(loader.execute_queries(response).is_err());
}
