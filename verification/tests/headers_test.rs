use sheetloader::headers::{clean_column_name, clean_table_name, normalize_headers};

#[test]
fn lowercases_and_replaces_special_characters() {
    let mut seen: Vec<String> = Vec::new();
    let name = clean_column_name("Hello World!", &mut seen);
    assert_eq!(name, "hello_world_");
}

#[test]
fn prefixes_column_names_that_start_without_a_letter() {
    let mut seen: Vec<String> = Vec::new();
    assert_eq!(clean_column_name("2024 sales", &mut seen), "col_2024_sales");
    assert_eq!(clean_column_name("", &mut seen), "col_");
    assert_eq!(clean_column_name("_x", &mut seen), "col__x");
}

#[test]
fn deduplicates_with_numeric_suffixes_in_order() {
    let mut seen: Vec<String> = Vec::new();
    assert_eq!(clean_column_name("Amount", &mut seen), "amount");
    assert_eq!(clean_column_name("amount", &mut seen), "amount_1");
    assert_eq!(clean_column_name("AMOUNT", &mut seen), "amount_2");
    assert_eq!(seen, vec!["amount", "amount_1", "amount_2"]);
}

#[test]
fn table_names_get_their_own_prefix_and_no_dedup() {
    assert_eq!(clean_table_name("Sheet 1"), "sheet_1");
    assert_eq!(clean_table_name("2024"), "tbl_2024");
    assert_eq!(clean_table_name(""), "tbl_");
}

#[test]
fn normalized_headers_are_unique_and_identifier_valid() {
    let raw: Vec<String> = vec![
        "Name".to_string(),
        "name".to_string(),
        "NAME!".to_string(),
        "".to_string(),
        "123".to_string(),
        "123".to_string(),
    ];
    let cleaned = normalize_headers(&raw);
    assert_eq!(cleaned.len(), raw.len());
    for (i, a) in cleaned.iter().enumerate() {
        assert!(!a.is_empty());
        let first = a.chars().next().unwrap();
        assert!(first.is_ascii_lowercase());
        assert!(a.chars().all(|c| c.is_ascii_lowercase() || c.is_ascii_digit() || c == '_'));
        for b in cleaned.iter().skip(i + 1) {
            assert_ne!(a, b);
        }
    }
    assert_eq!(cleaned, vec!["name", "name_1", "name_", "col_", "col_123", "col_123_1"]);
}
