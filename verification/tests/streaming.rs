use harmony::cache::{StreamCache, StreamError};

fn artifact(len: usize) -> Vec<u8> {
    let mut data = Vec::with_capacity(len);
    for i in 0..len {
        data.push((i % 256) as u8);
    }
    data
}

#[test]
fn scenario_thousand_byte_artifact() {
    let mut cache = StreamCache::new(300);
    let data = artifact(1000);
    let size = cache.insert_entry("abc123", data.clone(), 0);
    assert_eq!(size, 1000);
    assert_eq!(cache.open_entry("abc123", 0), Some(1000));

    let tail = cache.read_range("abc123", Some(500), None, 1).unwrap();
    assert_eq!(tail.len(), 500);
    assert_eq!(&tail[..], &data[500..1000]);

    let window = cache.read_range("abc123", Some(500), Some(100), 2).unwrap();
    assert_eq!(window.len(), 100);
    assert_eq!(&window[..], &data[500..600]);

    let last = cache.read_range("abc123", Some(999), Some(10), 3).unwrap();
    assert_eq!(last.len(), 1);
    assert_eq!(last[0], data[999]);

    let past_end = cache.read_range("abc123", Some(1000), None, 4);
    assert!(matches!(past_end, Err(StreamError::BadRequest)));
}

#[test]
fn scenario_missing_artifact() {
    let mut cache = StreamCache::new(300);
    // The identifier is not resident; the caller must fetch the backing
    // file, and the backing file for "missing" does not exist.
    assert_eq!(cache.open_entry("missing", 0), None);
    let read = cache.read_range("missing", None, None, 0);
    assert!(matches!(read, Err(StreamError::NotFound)));
}

#[test]
fn scenario_expiry_after_idle_seconds() {
    // Time-to-live of one tick; open, wait three ticks with no access.
    let mut cache = StreamCache::new(1);
    cache.insert_entry("song", artifact(16), 0);
    cache.sweep(3);
    let read = cache.read_range("song", None, None, 3);
    assert!(matches!(read, Err(StreamError::NotFound)));
}

#[test]
fn read_of_never_opened_identifier_fails() {
    let mut cache = StreamCache::new(60);
    cache.insert_entry("present", artifact(8), 0);
    let read = cache.read_range("absent", None, None, 1);
    assert!(matches!(read, Err(StreamError::NotFound)));
}

#[test]
fn full_read_returns_whole_buffer() {
    let mut cache = StreamCache::new(60);
    let data = artifact(300);
    cache.insert_entry("id", data.clone(), 0);
    let all = cache.read_range("id", None, None, 1).unwrap();
    assert_eq!(all, data);
    // An omitted start reads from the beginning.
    let explicit = cache.read_range("id", Some(0), None, 2).unwrap();
    assert_eq!(explicit, data);
}

#[test]
fn overlong_length_is_truncated_not_an_error() {
    let mut cache = StreamCache::new(60);
    cache.insert_entry("id2", artifact(100), 0);
    let read = cache.read_range("id2", Some(40), Some(5000), 1).unwrap();
    assert_eq!(read.len(), 60);
}

#[test]
fn open_twice_is_idempotent() {
    let mut cache = StreamCache::new(60);
    cache.insert_entry("twice", artifact(250), 0);
    let first = cache.open_entry("twice", 1);
    let second = cache.open_entry("twice", 2);
    assert_eq!(first, Some(250));
    assert_eq!(second, Some(250));
    // The bytes are untouched by the repeated opens.
    let all = cache.read_range("twice", None, None, 3).unwrap();
    assert_eq!(all, artifact(250));
}

#[test]
fn accessed_entry_survives_sweep_regardless_of_age() {
    let mut cache = StreamCache::new(5);
    cache.insert_entry("hot", artifact(4), 0);
    // Refresh just before each sweep; the entry outlives many lifetimes.
    for round in 1..10u64 {
        let t = round * 4;
        assert!(cache.read_range("hot", None, None, t).is_ok());
        cache.sweep(t + 3);
        assert_eq!(cache.open_entry("hot", t + 3), Some(4));
    }
}

#[test]
fn sweep_keeps_unexpired_and_drops_expired() {
    let mut cache = StreamCache::new(10);
    cache.insert_entry("old", artifact(1), 0); // expires at 10
    cache.insert_entry("new", artifact(2), 5); // expires at 15
    cache.sweep(10);
    let old = cache.read_range("old", None, None, 10);
    assert!(matches!(old, Err(StreamError::NotFound)));
    assert_eq!(cache.open_entry("new", 10), Some(2));
}

#[test]
fn bad_request_still_refreshes_expiry() {
    let mut cache = StreamCache::new(10);
    cache.insert_entry("r", artifact(3), 0); // expires at 10
    // An out-of-range read at tick 9 still bumps the expiry to 19.
    let read = cache.read_range("r", Some(3), None, 9);
    assert!(matches!(read, Err(StreamError::BadRequest)));
    cache.sweep(15);
    assert_eq!(cache.open_entry("r", 15), Some(3));
}

#[test]
fn reopening_after_eviction_reloads() {
    let mut cache = StreamCache::new(2);
    cache.insert_entry("gone", artifact(7), 0);
    cache.sweep(5);
    assert_eq!(cache.open_entry("gone", 5), None);
    // The caller reloads from the backing store and inserts anew.
    let size = cache.insert_entry("gone", artifact(9), 5);
    assert_eq!(size, 9);
    assert_eq!(cache.open_entry("gone", 6), Some(9));
}
