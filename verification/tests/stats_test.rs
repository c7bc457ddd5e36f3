use sheetloader::cells::Cell;
use sheetloader::stats::{compute_column_stats, merge_min_max, update_min_max};

#[test]
fn update_tracks_running_min_and_max() {
    let mut mm: (Option<String>, Option<String>) = (None, None);
    update_min_max(&mut mm, "banana");
    assert_eq!(mm, (Some("banana".to_string()), Some("banana".to_string())));
    update_min_max(&mut mm, "apple");
    assert_eq!(mm, (Some("apple".to_string()), Some("banana".to_string())));
    update_min_max(&mut mm, "cherry");
    assert_eq!(mm, (Some("apple".to_string()), Some("cherry".to_string())));
}

#[test]
fn merge_treats_absent_bounds_as_identity() {
    let r = merge_min_max((None, None), (Some("x".to_string()), Some("x".to_string())));
    assert_eq!(r, (Some("x".to_string()), Some("x".to_string())));
    let r = merge_min_max((Some("a".to_string()), Some("z".to_string())), (None, None));
    assert_eq!(r, (Some("a".to_string()), Some("z".to_string())));
    let r = merge_min_max(
        (Some("b".to_string()), Some("m".to_string())),
        (Some("a".to_string()), Some("z".to_string())),
    );
    assert_eq!(r, (Some("a".to_string()), Some("z".to_string())));
}

#[test]
fn min_and_max_compare_lexicographically_not_numerically() {
    // "100" sorts before "99" as text: a documented quirk, kept on purpose.
    let mut mm: (Option<String>, Option<String>) = (None, None);
    update_min_max(&mut mm, "99");
    update_min_max(&mut mm, "100");
    assert_eq!(mm, (Some("100".to_string()), Some("99".to_string())));
}

fn sample_cells() -> Vec<Cell> {
    vec![
        Cell::Text("pear".to_string()),
        Cell::Empty,
        Cell::Text("apple".to_string()),
        Cell::Text("pear".to_string()),
        Cell::Int(42),
        Cell::Empty,
    ]
}

#[test]
fn one_pass_statistics_are_exact() {
    let stats = compute_column_stats(&sample_cells());
    assert_eq!(stats.null_count, 2);
    assert_eq!(stats.distinct.len(), 3); // "pear", "apple", "42"
    assert_eq!(stats.min_value, Some("42".to_string()));
    assert_eq!(stats.max_value, Some("pear".to_string()));
}

#[test]
fn chunked_statistics_merge_to_the_whole() {
    let cells = sample_cells();
    let whole = compute_column_stats(&cells);
    let first: Vec<Cell> = cells[..3].to_vec();
    let second: Vec<Cell> = cells[3..].to_vec();
    let a = compute_column_stats(&first);
    let b = compute_column_stats(&second);
    assert_eq!(a.null_count + b.null_count, whole.null_count);
    let merged = merge_min_max(
        (a.min_value.clone(), a.max_value.clone()),
        (b.min_value.clone(), b.max_value.clone()),
    );
    assert_eq!(merged, (whole.min_value.clone(), whole.max_value.clone()));
    // The distinct sets union: "pear" occurs in both chunks.
    let mut union: Vec<String> = a.distinct.clone();
    for v in &b.distinct {
        if !union.contains(v) {
            union.push(v.clone());
        }
    }
    union.sort();
    let mut whole_distinct = whole.distinct.clone();
    whole_distinct.sort();
    assert_eq!(union, whole_distinct);
}
