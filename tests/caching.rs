use frm::cache::{frame_from_disk, CachedFile, FrameCache, Lookup};
use frm::error::ErrorKind;
use frm::frame::Frame;

fn loaded(t: usize, b: u8) -> Frame {
    let mut f = Frame::new(".", t).unwrap();
    f.set_data(vec![b]);
    f
}

#[test]
fn cache_needs_capacity_and_directory() {
    assert!(matches!(
        FrameCache::new("src.mp4".to_string(), ".".to_string(), 0),
        Err(ErrorKind::ArgumentError)
    ));
    match FrameCache::new("src.mp4".to_string(), "/no/such/cache".to_string(), 2) {
        Err(ErrorKind::Unhandled(m)) => assert_eq!(
            m,
            "Path to cache root \"/no/such/cache\" either does not exist or is not a directory"
        ),
        _ => panic!("expected a cache root failure"),
    }
    let c = FrameCache::new("src.mp4".to_string(), ".".to_string(), 2).unwrap();
    assert_eq!(c.len(), 0);
    assert_eq!(c.file(), "src.mp4");
    assert_eq!(c.cached_path(7), "./7.png");
}

#[test]
fn lru_evicts_least_recently_used() {
    let mut c = FrameCache::new(".".to_string(), ".".to_string(), 2).unwrap();
    c.insert(10, loaded(10, 1));
    c.insert(20, loaded(20, 2));
    c.insert(30, loaded(30, 3));
    assert_eq!(c.len(), 2);
    assert!(!c.contains(10));
    assert!(c.contains(20));
    assert!(c.contains(30));
    assert_eq!(c.lookup(10), None);
}

#[test]
fn lookup_refreshes_recency() {
    let mut c = FrameCache::new(".".to_string(), ".".to_string(), 2).unwrap();
    c.insert(10, loaded(10, 1));
    c.insert(20, loaded(20, 2));
    assert_eq!(c.lookup(10), Some(vec![1u8]));
    c.insert(30, loaded(30, 3));
    assert!(c.contains(10));
    assert!(!c.contains(20));
    assert_eq!(c.lookup(10), Some(vec![1u8]));
}

#[test]
fn evicted_key_is_a_miss() {
    let mut c = FrameCache::new(".".to_string(), ".".to_string(), 1).unwrap();
    c.insert(10, loaded(10, 1));
    c.insert(20, loaded(20, 2));
    let on_disk = c.frame_from_file(10, CachedFile::Missing).unwrap();
    match c.request(10, on_disk) {
        Lookup::Miss(f) => assert_eq!(f.timecode(), 10),
        _ => panic!("evicted key must be extracted again"),
    }
}

#[test]
fn request_prefers_disk_then_memory() {
    let mut c = FrameCache::new(".".to_string(), ".".to_string(), 4).unwrap();
    let disk = c.frame_from_file(5, CachedFile::Found(vec![8u8, 9])).unwrap();
    match c.request(5, disk) {
        Lookup::Hit(b) => assert_eq!(b, vec![8u8, 9]),
        _ => panic!("disk hit missed"),
    }
    let empty = c.frame_from_file(5, CachedFile::Missing).unwrap();
    match c.request(5, empty) {
        Lookup::Hit(b) => assert_eq!(b, vec![8u8, 9]),
        _ => panic!("memory hit missed"),
    }
}

#[test]
fn repeated_requests_give_identical_bytes() {
    let mut c = FrameCache::new(".".to_string(), ".".to_string(), 4).unwrap();
    c.insert(7, loaded(7, 42));
    let a = c.lookup(7);
    let b = c.lookup(7);
    assert_eq!(a, Some(vec![42u8]));
    assert_eq!(a, b);
}

#[test]
fn extracted_frame_is_stored() {
    let mut c = FrameCache::new(".".to_string(), ".".to_string(), 4).unwrap();
    assert_eq!(c.store_extracted(3, loaded(3, 5)), Ok(vec![5u8]));
    assert_eq!(c.lookup(3), Some(vec![5u8]));
    let empty = Frame::new(".", 4).unwrap();
    assert!(c.store_extracted(4, empty).is_err());
    assert!(!c.contains(4));
}

#[test]
fn frame_from_file_outcomes() {
    let c = FrameCache::new("/no/such/source.mp4".to_string(), ".".to_string(), 4).unwrap();
    assert_eq!(
        c.frame_from_file(5, CachedFile::Missing).unwrap_err(),
        ErrorKind::Io("entity not found".to_string())
    );
    let c = FrameCache::new(".".to_string(), ".".to_string(), 4).unwrap();
    assert_eq!(
        c.frame_from_file(5, CachedFile::Failed("denied".to_string())).unwrap_err(),
        ErrorKind::Io("denied".to_string())
    );
    let f = c.frame_from_file(0, CachedFile::Found(vec![1u8])).unwrap();
    assert_eq!(f.timecode(), 1);
    assert!(f.has_data());
}

#[test]
fn ingest_inserts_each_frame_by_timecode() {
    let mut c = FrameCache::new(".".to_string(), ".".to_string(), 2).unwrap();
    c.ingest(vec![loaded(1000, 1), loaded(2000, 2), loaded(4000, 3)]);
    assert_eq!(c.len(), 2);
    assert!(!c.contains(1000));
    assert_eq!(c.lookup(2000), Some(vec![2u8]));
    assert_eq!(c.lookup(4000), Some(vec![3u8]));
}

#[test]
fn concurrent_misses_extract_once() {
    let mut c = FrameCache::new(".".to_string(), ".".to_string(), 4).unwrap();
    let first = c.frame_from_file(9, CachedFile::Missing).unwrap();
    let second = c.frame_from_file(9, CachedFile::Missing).unwrap();
    let mut to_extract = match c.request(9, first) {
        Lookup::Miss(f) => f,
        _ => panic!("first request must extract"),
    };
    assert!(c.is_pending(9));
    assert!(matches!(c.request(9, second), Lookup::Wait));
    to_extract.set_data(vec![3u8, 1]);
    assert_eq!(c.store_extracted(9, to_extract), Ok(vec![3u8, 1]));
    assert!(!c.is_pending(9));
    let again = c.frame_from_file(9, CachedFile::Missing).unwrap();
    match c.request(9, again) {
        Lookup::Hit(b) => assert_eq!(b, vec![3u8, 1]),
        _ => panic!("waiting request must find the extracted frame"),
    }
}

#[test]
fn failed_extraction_clears_pending() {
    let mut c = FrameCache::new(".".to_string(), ".".to_string(), 4).unwrap();
    let f = c.frame_from_file(9, CachedFile::Missing).unwrap();
    assert!(matches!(c.request(9, f), Lookup::Miss(_)));
    c.finish(9);
    assert!(!c.is_pending(9));
    let f = c.frame_from_file(9, CachedFile::Missing).unwrap();
    assert!(matches!(c.request(9, f), Lookup::Miss(_)));
}

#[test]
fn frame_from_disk_for_every_outcome() {
    let f = frame_from_disk("src.mp4", 0, true, CachedFile::Missing).unwrap();
    assert_eq!(f.timecode(), 1);
    assert!(!f.has_data());
    let f = frame_from_disk("src.mp4", 2000, true, CachedFile::Found(vec![5u8, 6])).unwrap();
    assert_eq!(f.timecode(), 2000);
    assert_eq!(f.payload(), Some(vec![5u8, 6]));
    assert_eq!(
        frame_from_disk("src.mp4", 7, true, CachedFile::Failed("denied".to_string())).unwrap_err(),
        ErrorKind::Io("denied".to_string())
    );
    assert_eq!(
        frame_from_disk("src.mp4", 7, false, CachedFile::Found(vec![1u8])).unwrap_err(),
        ErrorKind::Io("entity not found".to_string())
    );
}

#[test]
fn batch_ingest_is_all_or_nothing() {
    let mut c = FrameCache::new(".".to_string(), ".".to_string(), 4).unwrap();
    c.insert(1, loaded(1, 9));
    let loads = vec![
        Ok(loaded(1000, 1)),
        Err(ErrorKind::Io("denied".to_string())),
        Ok(loaded(4000, 3)),
    ];
    assert_eq!(c.ingest_all(loads), Err(ErrorKind::Io("denied".to_string())));
    assert_eq!(c.len(), 1);
    assert!(!c.contains(1000));
    let loads = vec![Ok(loaded(0, 1)), Ok(loaded(2000, 2)), Ok(loaded(4000, 3))];
    assert_eq!(c.ingest_all(loads), Ok(()));
    assert_eq!(c.len(), 3);
    assert_eq!(c.lookup(1), Some(vec![1u8]));
    assert_eq!(c.lookup(2000), Some(vec![2u8]));
    assert_eq!(c.lookup(4000), Some(vec![3u8]));
}
