use photo::session_cache::{
    metadata_matches_fingerprint, BaseImageSource, SessionFullImageCache, SourceFileFingerprint, SourceObservation,
};

fn fp(size: u64, signature: u64) -> SourceFileFingerprint {
    SourceFileFingerprint { file_size: size, modified_secs: 100, modified_nanos: 5, content_signature: signature }
}

fn same(size: u64, signature: u64) -> SourceObservation {
    SourceObservation::Fingerprinted(fp(size, signature))
}

#[test]
fn session_cache_evicts_the_least_recently_used_past_the_entry_cap() {
    let mut cache: SessionFullImageCache<&str> = SessionFullImageCache::new(2, 64);
    cache.insert("first.arw", fp(5, 1), "one", BaseImageSource::Original, (2, 1), 8);
    cache.insert("second.arw", fp(6, 2), "two", BaseImageSource::Original, (2, 1), 8);
    cache.insert("third.arw", fp(5, 3), "three", BaseImageSource::Original, (2, 1), 8);
    assert!(cache.get("first.arw", BaseImageSource::Original, same(5, 1)).is_none());
    assert_eq!(cache.get("second.arw", BaseImageSource::Original, same(6, 2)), Some((2, 1)));
    assert_eq!(cache.get("third.arw", BaseImageSource::Original, same(5, 3)), Some((2, 1)));
}

#[test]
fn session_cache_use_refreshes_recency() {
    let mut cache: SessionFullImageCache<u8> = SessionFullImageCache::new(4, 16);
    cache.insert("first", fp(5, 1), 1, BaseImageSource::Original, (2, 1), 8);
    cache.insert("second", fp(6, 2), 2, BaseImageSource::Original, (2, 1), 8);
    assert!(cache.get("first", BaseImageSource::Original, same(5, 1)).is_some());
    cache.insert("third", fp(5, 3), 3, BaseImageSource::Original, (2, 1), 8);
    assert!(cache.get("first", BaseImageSource::Original, same(5, 1)).is_some());
    assert!(cache.get("second", BaseImageSource::Original, same(6, 2)).is_none());
    assert!(cache.get("third", BaseImageSource::Original, same(5, 3)).is_some());
    assert_eq!(cache.cached_image("third"), Some(&3));
}

#[test]
fn session_cache_keeps_two_recent_entries_over_budget() {
    let mut cache: SessionFullImageCache<u8> = SessionFullImageCache::new(4, 8);
    cache.insert("first", fp(5, 1), 1, BaseImageSource::Original, (2, 1), 8);
    cache.insert("second", fp(6, 2), 2, BaseImageSource::Original, (2, 1), 8);
    assert!(cache.get("first", BaseImageSource::Original, same(5, 1)).is_some());
    assert!(cache.get("second", BaseImageSource::Original, same(6, 2)).is_some());
    assert_eq!(cache.total_bytes(), 16);
    cache.insert("third", fp(7, 3), 3, BaseImageSource::Original, (2, 1), 8);
    assert_eq!(cache.len(), 2);
}

#[test]
fn session_cache_drops_entries_of_another_source_or_a_changed_file() {
    let mut cache: SessionFullImageCache<u8> = SessionFullImageCache::new(2, 64);
    cache.insert("frame.png", fp(24, 9), 1, BaseImageSource::Original, (3, 2), 80);
    assert!(cache.get("frame.png", BaseImageSource::PersistedLocalEdit, same(24, 9)).is_none());
    assert!(!cache.contains_path("frame.png"));

    cache.insert("frame.png", fp(24, 9), 1, BaseImageSource::Original, (3, 2), 8);
    assert!(cache.get("frame.png", BaseImageSource::Original, same(24, 10)).is_none());
    assert!(!cache.contains_path("frame.png"));

    cache.insert("frame.png", fp(24, 9), 1, BaseImageSource::Original, (3, 2), 8);
    assert!(cache.get("frame.png", BaseImageSource::Original, SourceObservation::Unavailable).is_none());
    assert!(cache.contains_path("frame.png"));
    assert!(cache.get("frame.png", BaseImageSource::Original, SourceObservation::Unfingerprinted).is_none());
    assert!(!cache.contains_path("frame.png"));
}

#[test]
fn session_cache_replacing_an_entry_keeps_one_copy() {
    let mut cache: SessionFullImageCache<u8> = SessionFullImageCache::with_default_limits();
    cache.insert("a", fp(1, 1), 1, BaseImageSource::Original, (1, 1), 4);
    cache.insert("a", fp(1, 2), 2, BaseImageSource::PersistedLocalEdit, (1, 1), 12);
    assert_eq!(cache.len(), 1);
    assert_eq!(cache.total_bytes(), 12);
    assert!(cache.entry_matches_base_source("a", BaseImageSource::PersistedLocalEdit));
    assert_eq!(cache.cached_image("a"), Some(&2));
    cache.remove("a");
    assert_eq!(cache.len(), 0);
    assert_eq!(cache.total_bytes(), 0);
}

#[test]
fn session_full_image_cache_hit_restores_cached_source_dimensions() {
    let mut cache: SessionFullImageCache<&str> = SessionFullImageCache::new(2, 64);
    cache.insert("frame.png", fp(24, 9), "five by four", BaseImageSource::Original, (3, 2), 80);
    assert_eq!(cache.get("frame.png", BaseImageSource::Original, same(24, 9)), Some((3, 2)));
    assert_eq!(cache.cached_image("frame.png"), Some(&"five by four"));
}

#[test]
fn session_full_image_cache_invalidates_hits_when_base_source_changes() {
    let mut cache: SessionFullImageCache<&str> = SessionFullImageCache::new(2, 64);
    cache.insert("frame.png", fp(24, 9), "five by four", BaseImageSource::Original, (3, 2), 80);
    assert!(cache.get("frame.png", BaseImageSource::PersistedLocalEdit, same(24, 9)).is_none());
    assert!(!cache.contains_path("frame.png"));
}

#[test]
fn metadata_checks_size_and_time_only_when_readable() {
    let f = fp(24, 9);
    assert!(metadata_matches_fingerprint(None, f));
    assert!(metadata_matches_fingerprint(Some((24, 100, 5)), f));
    assert!(!metadata_matches_fingerprint(Some((25, 100, 5)), f));
    assert!(!metadata_matches_fingerprint(Some((24, 101, 5)), f));
    assert!(!metadata_matches_fingerprint(Some((24, 100, 6)), f));
}
