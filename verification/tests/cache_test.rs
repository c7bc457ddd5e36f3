use sheetloader::frame::{ColumnData, Frame, FrameColumn};
use sheetloader::loader::TableCache;

fn frame(tag: &str) -> Frame {
    Frame {
        columns: vec![FrameColumn {
            name: "v".to_string(),
            data: ColumnData::Text(vec![tag.to_string()]),
        }],
    }
}

fn tag_of(f: &Frame) -> String {
    match &f.columns[0].data {
        ColumnData::Text(v) => v[0].clone(),
        _ => panic!("unexpected column shape"),
    }
}

#[test]
fn entries_expire_after_their_time_to_live() {
    let mut cache = TableCache::new();
    cache.insert("t", frame("a"), 1000);
    assert!(cache.get("t", 1000).is_some());
    assert!(cache.get("t", 1000 + 3599).is_some());
    assert!(cache.get("t", 1000 + 3600).is_none());
    assert!(cache.get("t", 999).is_none());
    assert!(cache.get("missing", 1000).is_none());
}

#[test]
fn inserting_under_the_same_name_replaces() {
    let mut cache = TableCache::new();
    cache.insert("t", frame("old"), 0);
    cache.insert("t", frame("new"), 10);
    assert_eq!(cache.len(), 1);
    let f = cache.get("t", 10).unwrap();
    assert_eq!(tag_of(f), "new");
}

#[test]
fn the_oldest_entry_leaves_when_capacity_is_exceeded() {
    let mut cache = TableCache::new();
    for i in 0..101u32 {
        cache.insert(&format!("t{}", i), frame(&format!("f{}", i)), i as u64);
    }
    assert_eq!(cache.len(), 100);
    assert!(cache.get("t0", 101).is_none());
    assert!(cache.get("t1", 101).is_some());
    assert!(cache.get("t100", 101).is_some());
}
