use iori::cache::{ExistingLocalCache, MemoryCache};
use iori::{IoriError, SegmentFormat, SegmentInfo};

fn seg(sequence: u64) -> SegmentInfo {
    SegmentInfo {
        sequence,
        media_sequence: 0,
        rendition: 0,
        duration_ms: 0,
        format: SegmentFormat::Mpeg2TS,
    }
}

#[test]
fn write_then_read_returns_bytes() {
    let mut cache = MemoryCache::new();
    assert!(cache.write(&seg(1), vec![10u8, 20, 30]));
    let bytes = cache.open_reader(&seg(1)).unwrap();
    assert_eq!(bytes, &vec![10u8, 20, 30]);
}

#[test]
fn open_reader_idempotent() {
    let mut cache = MemoryCache::new();
    assert!(cache.write(&seg(7), vec![1u8, 2, 3, 4]));
    let first = cache.open_reader(&seg(7)).unwrap().clone();
    let second = cache.open_reader(&seg(7)).unwrap().clone();
    assert_eq!(first, second);
    assert_eq!(first, vec![1u8, 2, 3, 4]);
}

#[test]
fn second_writer_rejected() {
    let mut cache = MemoryCache::new();
    assert!(cache.write(&seg(1), vec![1u8]));
    assert!(!cache.write(&seg(1), vec![2u8]));
    assert_eq!(cache.open_reader(&seg(1)).unwrap(), &vec![1u8]);
}

#[test]
fn read_unwritten_not_found() {
    let cache = MemoryCache::new();
    assert!(matches!(cache.open_reader(&seg(0)), Err(IoriError::NotFound)));
}

#[test]
fn invalidate_unwritten_then_read_not_found() {
    let mut cache = MemoryCache::new();
    assert!(cache.invalidate(&seg(5)).is_ok());
    assert!(matches!(cache.open_reader(&seg(5)), Err(IoriError::NotFound)));
}

#[test]
fn invalidate_written_then_read_not_found() {
    let mut cache = MemoryCache::new();
    assert!(cache.write(&seg(2), vec![9u8]));
    assert!(cache.invalidate(&seg(2)).is_ok());
    assert!(matches!(cache.open_reader(&seg(2)), Err(IoriError::NotFound)));
}

#[test]
fn clear_removes_every_entry() {
    let mut cache = MemoryCache::new();
    assert!(cache.write(&seg(1), vec![1u8]));
    assert!(cache.write(&seg(2), vec![2u8]));
    assert!(cache.clear().is_ok());
    assert!(matches!(cache.open_reader(&seg(1)), Err(IoriError::NotFound)));
    assert!(matches!(cache.open_reader(&seg(2)), Err(IoriError::NotFound)));
}

#[test]
fn memory_cache_has_no_path() {
    let cache = MemoryCache::new();
    assert!(cache.segment_path(&seg(0)).is_none());
}

#[test]
fn local_cache_round_trip() {
    let mut cache = ExistingLocalCache::new();
    cache.add_file(&seg(0), String::from("a.ts"));
    cache.add_file(&seg(1), String::from("b.ts"));
    assert_eq!(cache.reader_location(&seg(0)).unwrap(), "a.ts");
    assert_eq!(cache.segment_path(&seg(1)).unwrap(), "b.ts");
    assert!(matches!(
        cache.reader_location(&seg(2)),
        Err(IoriError::NotFound)
    ));
}

#[test]
fn local_cache_is_read_only() {
    let cache = ExistingLocalCache::new();
    assert!(cache.open_writer(&seg(0)).is_none());
}

#[test]
fn local_cache_add_file_replaces() {
    let mut cache = ExistingLocalCache::new();
    cache.add_file(&seg(3), String::from("old.ts"));
    cache.add_file(&seg(3), String::from("new.ts"));
    assert_eq!(cache.reader_location(&seg(3)).unwrap(), "new.ts");
}

#[test]
fn local_cache_invalidate_and_clear() {
    let mut cache = ExistingLocalCache::new();
    cache.add_file(&seg(0), String::from("a.ts"));
    cache.add_file(&seg(1), String::from("b.ts"));
    assert!(cache.invalidate(&seg(0)).is_ok());
    assert!(cache.segment_path(&seg(0)).is_none());
    assert!(cache.clear().is_ok());
    assert!(cache.segment_path(&seg(1)).is_none());
}
