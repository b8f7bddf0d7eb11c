use clawdb::cache::{CacheConfig, CacheEntry, MultiLevelCache, VectorCache};

#[test]
fn test_cache_basic() {
    let mut cache: VectorCache<Vec<f32>> = VectorCache::new(CacheConfig::default());

    cache.put(1, vec![1.0f32, 2.0, 3.0]);

    let data = cache.get(1);
    assert!(data.is_some());
    assert_eq!(data.unwrap(), vec![1.0, 2.0, 3.0]);
}

#[test]
fn test_cache_miss() {
    let mut cache: VectorCache<Vec<f32>> = VectorCache::new(CacheConfig::default());

    let data = cache.get(999);
    assert!(data.is_none());
}

#[test]
fn test_cache_eviction() {
    let config = CacheConfig {
        max_size: 2,
        ttl: None,
    };
    let mut cache: VectorCache<Vec<f32>> = VectorCache::new(config);

    cache.put(1, vec![1.0f32]);
    cache.put(2, vec![2.0f32]);
    cache.put(3, vec![3.0f32]);

    assert!(cache.get(1).is_none() || cache.get(2).is_none() || cache.get(3).is_some());
    assert_eq!(cache.len(), 2);
}

#[test]
fn test_multi_level_cache() {
    let mut cache = MultiLevelCache::<Vec<f32>>::new(10, 100);

    cache.put(1, vec![1.0, 2.0, 3.0]);

    let data = cache.get(1);
    assert!(data.is_some());

    let l1_size = cache.level1_cache().len();
    let l2_size = cache.level2_cache().len();
    assert_eq!(l1_size, 1);
    assert_eq!(l2_size, 1);
}

#[test]
fn cache_entry_new_and_touch() {
    let mut e = CacheEntry::new(7u32, 100);
    assert_eq!(e.data, 7);
    assert_eq!(e.last_access, 100);
    assert_eq!(e.access_count, 1);
    e.touch(250);
    assert_eq!(e.last_access, 250);
    assert_eq!(e.access_count, 2);
    e.access_count = u64::MAX;
    e.touch(300);
    assert_eq!(e.access_count, u64::MAX);
}

#[test]
fn cache_get_at_respects_ttl() {
    // A one-hour TTL, checked at explicit times on the cache's clock.
    let mut cache: VectorCache<u32> = VectorCache::new(CacheConfig::default());
    cache.put_at(5, 50, 1_000);
    assert_eq!(cache.get_at(5, 1_000 + 3_600_000_000_000), Some(50));
    // The hit touched the entry; an hour and a nanosecond later it is gone.
    let t = 1_000 + 3_600_000_000_000;
    assert_eq!(cache.get_at(5, t + 3_600_000_000_001), None);
    assert_eq!(cache.len(), 0);
}

#[test]
fn cache_put_at_evicts_least_recently_used() {
    let mut cache: VectorCache<u32> = VectorCache::new(CacheConfig { max_size: 2, ttl: None });
    cache.put_at(1, 10, 1);
    cache.put_at(2, 20, 2);
    // Touch 1 so that 2 becomes the least recently used.
    assert_eq!(cache.get_at(1, 3), Some(10));
    cache.put_at(3, 30, 4);
    assert_eq!(cache.len(), 2);
    assert_eq!(cache.get_at(2, 5), None);
    assert_eq!(cache.get_at(1, 6), Some(10));
    assert_eq!(cache.get_at(3, 7), Some(30));
}

#[test]
fn cache_put_at_keeps_entries_used_at_the_same_time() {
    // Nothing was used before time 5, so nothing can be evicted at time 5.
    let mut cache: VectorCache<u32> = VectorCache::new(CacheConfig { max_size: 1, ttl: None });
    cache.put_at(1, 10, 5);
    cache.put_at(2, 20, 5);
    assert_eq!(cache.len(), 2);
}

#[test]
fn cache_remove_clear_and_counts() {
    let mut cache: VectorCache<u32> = VectorCache::new(CacheConfig { max_size: 10, ttl: None });
    assert!(cache.is_empty());
    cache.put_at(1, 10, 1);
    cache.put_at(2, 20, 2);
    assert_eq!(cache.get_at(1, 3), Some(10));
    let mut counts = cache.access_counts();
    counts.sort();
    assert_eq!(counts, vec![1, 2]);
    assert_eq!(cache.remove(1), Some(10));
    assert_eq!(cache.remove(1), None);
    assert_eq!(cache.get_at(1, 4), None);
    cache.clear();
    assert_eq!(cache.len(), 0);
    assert!(cache.is_empty());
}

#[test]
fn cache_get_or_insert_computes_once() {
    let mut cache: VectorCache<u32> = VectorCache::new(CacheConfig::default());
    assert_eq!(cache.get_or_insert(4, || 40), 40);
    assert_eq!(cache.get_or_insert(4, || 99), 40);
    assert_eq!(cache.len(), 1);
}

#[test]
fn multi_level_promotes_from_second_level() {
    let mut cache = MultiLevelCache::<u32>::new(1, 10);
    cache.put_at(1, 10, 1);
    cache.put_at(2, 20, 2);
    // The first level holds one entry: 1 was evicted from it by 2.
    assert_eq!(cache.level1_cache().len(), 1);
    assert_eq!(cache.level2_cache().len(), 2);
    assert_eq!(cache.get_at(1, 3), Some(10));
    // The hit in the second level was copied into the first.
    assert_eq!(cache.level1_cache().len(), 1);
    assert_eq!(cache.get_at(1, 4), Some(10));
    assert_eq!(cache.get_or_insert(3, || 30), 30);
    assert_eq!(cache.get_or_insert(3, || 31), 30);
    cache.clear();
    assert_eq!(cache.level1_cache().len(), 0);
    assert_eq!(cache.level2_cache().len(), 0);
    assert_eq!(cache.get_at(1, 5), None);
}

#[test]
fn multi_level_first_level_expires_first() {
    let mut cache = MultiLevelCache::<u32>::new(10, 10);
    cache.put_at(1, 10, 0);
    // Six minutes later the first level (five minutes) has expired but the
    // second (one hour) still answers, and the value is promoted again.
    let t = 360_000_000_000;
    assert_eq!(cache.get_at(1, t), Some(10));
    assert_eq!(cache.level1_cache().len(), 1);
}

#[test]
fn cache_configs_carry_their_ttl() {
    let config = CacheConfig::default();
    assert_eq!(config.max_size, 10_000);
    assert_eq!(config.ttl, Some(3_600_000_000_000));
    // A short TTL: an entry one nanosecond past it has expired.
    let mut cache: VectorCache<u32> = VectorCache::new(CacheConfig { max_size: 4, ttl: Some(10) });
    cache.put_at(1, 11, 100);
    assert_eq!(cache.get_at(1, 110), Some(11));
    assert_eq!(cache.get_at(1, 121), None);
}

#[test]
fn multi_level_ttls_are_five_minutes_and_an_hour() {
    let mut cache = MultiLevelCache::<u32>::new(4, 8);
    cache.put_at(3, 30, 0);
    // After six minutes the first level has expired and the second answers.
    let six_minutes: u64 = 360_000_000_000;
    assert_eq!(cache.get_at(3, six_minutes), Some(30));
    // Two hours after that, both levels have expired.
    assert_eq!(cache.get_at(3, six_minutes + 7_200_000_000_000), None);
}

#[test]
fn zero_size_cache_keeps_the_last_entry() {
    let mut cache: VectorCache<u32> = VectorCache::new(CacheConfig { max_size: 0, ttl: None });
    cache.put_at(1, 10, 5);
    cache.put_at(2, 20, 6);
    assert_eq!(cache.len(), 1);
    assert_eq!(cache.get_at(2, 7), Some(20));
}

#[test]
fn get_or_insert_at_decides_by_the_given_time() {
    let mut cache: VectorCache<u32> = VectorCache::new(CacheConfig { max_size: 4, ttl: Some(10) });
    assert_eq!(cache.get_or_insert_at(1, || 5, 0, 0), 5);
    // Live at time 10: the stored value answers and `f` is not used.
    assert_eq!(cache.get_or_insert_at(1, || 6, 10, 10), 5);
    // Expired at time 21: `f` computes a new value, stored at time 30.
    assert_eq!(cache.get_or_insert_at(1, || 7, 21, 30), 7);
    assert_eq!(cache.get_at(1, 40), Some(7));
    assert_eq!(cache.len(), 1);
}

#[test]
fn multi_get_or_insert_at_fills_both_levels() {
    let mut cache = MultiLevelCache::<u32>::new(4, 8);
    assert_eq!(cache.get_or_insert_at(2, || 20, 0, 0), 20);
    assert_eq!(cache.level1_cache().len(), 1);
    assert_eq!(cache.level2_cache().len(), 1);
    assert_eq!(cache.get_or_insert_at(2, || 99, 1, 1), 20);
    // Past the first level's five minutes the second level answers.
    assert_eq!(cache.get_or_insert_at(2, || 99, 360_000_000_000, 360_000_000_000), 20);
}
