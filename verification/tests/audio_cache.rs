use aura::cache::{
    active_cache_dir, cache_file_name, cache_key_for, cache_stats, cached_file_plan,
    category_for, effective_config, eviction_count, extension_from_url, hex16_string, join,
    lookup_key, lookup_path, record_entry, temp_file_name, try_read, CacheCategory, CacheConfig,
    CacheIndex, FileState, DEFAULT_MAX_BYTES,
};

#[test]
fn a_stable_id_keys_every_signed_url_alike() {
    let a = cache_key_for(Some("qq:42"), "https://x/a.mp3?sig=1");
    let b = cache_key_for(Some(" qq:42 "), "https://x/a.mp3?sig=2");
    assert_eq!(a, b);
    assert_eq!(a.len(), 16);
    assert!(a.chars().all(|c| c.is_ascii_digit() || ('a'..='f').contains(&c)));
    assert_ne!(cache_key_for(None, "https://x/a.mp3?sig=1"), cache_key_for(None, "https://x/a.mp3?sig=2"));
    assert_eq!(cache_key_for(Some("  "), "u"), cache_key_for(None, "u"));
    assert_ne!(cache_key_for(Some("u"), "u"), cache_key_for(None, "u"));
}

#[test]
fn hex_keys_are_zero_padded() {
    assert_eq!(hex16_string(0), "0000000000000000");
    assert_eq!(hex16_string(0xabc), "0000000000000abc");
    assert_eq!(hex16_string(u64::MAX), "ffffffffffffffff");
}

#[test]
fn stored_files_keep_short_extensions() {
    assert_eq!(extension_from_url("https://x/a/b.flac?x=1"), "flac");
    assert_eq!(extension_from_url("https://x/a/b"), "audio");
    assert_eq!(extension_from_url("https://x/a/b.toolongext"), "audio");
    assert_eq!(extension_from_url("https://x/a.b/c"), "audio");
    assert_eq!(cache_file_name("k", "https://x/a.m4a"), "k.m4a");
    assert_eq!(temp_file_name("k", "https://x/a.m4a", 7), "k.m4a.7.part");
}

#[test]
fn a_zero_limit_means_the_default_limit() {
    let c = effective_config(CacheConfig { enabled: true, directory: None, max_bytes: 0 });
    assert_eq!(c.max_bytes, DEFAULT_MAX_BYTES);
    let d = effective_config(CacheConfig { enabled: false, directory: None, max_bytes: 5 });
    assert_eq!(d.max_bytes, 5);
    assert!(!d.enabled);
}

#[test]
fn the_cache_lives_in_the_chosen_or_default_folder() {
    let mut c = CacheConfig::default();
    assert_eq!(active_cache_dir(&c, "/home/me"), "/home/me/Listen1/Cache");
    c.directory = Some("  ".to_string());
    assert_eq!(active_cache_dir(&c, "/home/me"), "/home/me/Listen1/Cache");
    c.directory = Some("/data/cache".to_string());
    assert_eq!(active_cache_dir(&c, "/home/me"), "/data/cache");
    assert_eq!(join("/a", "/b"), "/b");
    assert_eq!(join("", "b"), "b");
}

#[test]
fn categories_follow_plays_age_and_score() {
    assert_eq!(category_for(8, 1209600, false), CacheCategory::Hot);
    assert_eq!(category_for(8, 1209601, false), CacheCategory::Warm);
    assert_eq!(category_for(7, 0, false), CacheCategory::Warm);
    assert_eq!(category_for(1, 3888000, false), CacheCategory::Cold);
    assert_eq!(category_for(1, 0, true), CacheCategory::Cold);
    assert_eq!(category_for(9, 0, true), CacheCategory::Hot);
    assert_eq!(CacheCategory::Warm.as_str(), "warm");
}

#[test]
fn eviction_takes_the_fewest_lowest_scored_entries() {
    assert_eq!(eviction_count(&[10, 10, 10], 30), 0);
    assert_eq!(eviction_count(&[10, 10, 10], 25), 1);
    assert_eq!(eviction_count(&[5, 30, 10], 12), 2);
    assert_eq!(eviction_count(&[5, 5], 0), 2);
    assert_eq!(eviction_count(&[], 0), 0);
}

#[test]
fn recorded_entries_are_read_back_and_counted() {
    let mut index = CacheIndex::new();
    let key = cache_key_for(Some("qq:1"), "https://x/a.mp3");
    record_entry(&mut index, key.clone(), "https://x/a.mp3", format!("{key}.mp3"), "audio/mpeg", 100, 1000, false);
    record_entry(&mut index, key.clone(), "https://x/a.mp3", format!("{key}.mp3"), "audio/mpeg", 120, 2000, false);
    let entry = index.get(&key).unwrap();
    assert_eq!((entry.hits, entry.created_at, entry.last_access_at, entry.size), (2, 1000, 2000, 120));
    assert_eq!(index.len(), 1);

    let read = try_read(&CacheConfig::default(), &mut index, "https://x/other-sig", Some("bytes=10-19"), Some("qq:1"), FileState::Present { len: 120 }, 3000, false);
    let hit = read.response.unwrap();
    assert!(read.changed);
    assert_eq!((hit.status, hit.start, hit.len), (206, 10, 10));
    assert_eq!(hit.headers[5], ("X-Listen1-Cache".to_string(), "hit".to_string()));
    assert_eq!(index.get(&key).unwrap().hits, 3);

    let stats = cache_stats(&CacheConfig::default(), "/c".to_string(), &index);
    assert_eq!((stats.entry_count, stats.total_bytes, stats.warm_count, stats.hot_count), (1, 120, 1, 0));

    let gone = try_read(&CacheConfig::default(), &mut index, "u", None, Some("qq:1"), FileState::Missing, 4000, false);
    assert!(gone.response.is_none() && gone.changed);
    assert_eq!(index.len(), 0);
}

#[test]
fn nothing_is_read_while_the_cache_is_off_or_the_file_is_empty() {
    let mut index = CacheIndex::new();
    let key = cache_key_for(None, "u");
    record_entry(&mut index, key.clone(), "u", "f".to_string(), "audio/mpeg", 1, 0, false);
    let off = CacheConfig { enabled: false, directory: None, max_bytes: 1 };
    let r = try_read(&off, &mut index, "u", None, None, FileState::Present { len: 5 }, 1, false);
    assert!(r.response.is_none() && !r.changed);
    let empty = try_read(&CacheConfig::default(), &mut index, "u", None, None, FileState::Present { len: 0 }, 1, false);
    assert!(empty.response.is_none() && !empty.changed);
    let unreadable = try_read(&CacheConfig::default(), &mut index, "u", None, None, FileState::Unreadable, 1, false);
    assert!(unreadable.response.is_none() && !unreadable.changed);
    assert_eq!(index.get(&key).unwrap().hits, 1);
    assert!(cached_file_plan("audio/mpeg", 0, None).is_none());
}

#[test]
fn offline_lookup_needs_an_id_and_a_non_empty_file() {
    assert_eq!(lookup_key("  ", true), None);
    assert_eq!(lookup_key("qq:1", false), None);
    assert_eq!(lookup_key(" qq:1 ", true), Some(cache_key_for(Some("qq:1"), "")));
    let mut index = CacheIndex::new();
    record_entry(&mut index, "k".to_string(), "u", "k.mp3".to_string(), "audio/mpeg", 0, 0, false);
    assert_eq!(lookup_path("/c", index.get("k").unwrap()), None);
    record_entry(&mut index, "k".to_string(), "u", "k.mp3".to_string(), "audio/mpeg", 9, 0, false);
    assert_eq!(lookup_path("/c", index.get("k").unwrap()), Some("/c/k.mp3".to_string()));
}

#[test]
fn ids_are_keyed_by_their_trimmed_text() {
    assert_eq!(cache_key_for(Some("  qq:1 \n"), "https://x/a"), cache_key_for(Some("qq:1"), "https://y/b"));
}
