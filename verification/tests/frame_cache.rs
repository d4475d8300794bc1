use maelstrom::frame_cache::{FrameCache, FrameKey, FrameValue};

fn key(source_tick: i64) -> FrameKey {
    FrameKey {
        project_epoch: 7,
        media_id: 11,
        source_tick,
        width: 4,
        height: 4,
    }
}

fn value(source_tick: i64, bytes: usize) -> FrameValue {
    FrameValue::new(source_tick, 4, 4, vec![source_tick as u8; bytes].into())
}

#[test]
fn exact_key_hit_and_miss() {
    let mut cache = FrameCache::new(128);
    let frame_key = key(10);
    assert!(cache.insert(frame_key, value(10, 16)));
    assert_eq!(cache.get(&frame_key).unwrap().source_tick, 10);
    assert!(cache.get(&key(11)).is_none());
}

#[test]
fn get_refreshes_lru_recency_before_eviction() {
    let mut cache = FrameCache::new(20);
    assert!(cache.insert(key(1), value(1, 10)));
    assert!(cache.insert(key(2), value(2, 10)));
    assert!(cache.get(&key(1)).is_some());
    assert!(cache.insert(key(3), value(3, 10)));
    assert!(cache.get(&key(1)).is_some());
    assert!(cache.get(&key(2)).is_none());
    assert!(cache.get(&key(3)).is_some());
}

#[test]
fn replacement_updates_byte_accounting() {
    let mut cache = FrameCache::new(64);
    assert!(cache.insert(key(1), value(1, 12)));
    assert_eq!(cache.used_bytes(), 12);
    assert!(cache.insert(key(1), value(1, 20)));
    assert_eq!(cache.len(), 1);
    assert_eq!(cache.used_bytes(), 20);
}

#[test]
fn sustained_sixty_second_scrub_never_exceeds_hard_cap() {
    let mut cache = FrameCache::new(2_048);
    for tick in 0..(60 * 60) {
        assert!(cache.insert(key(tick), value(tick, 128)));
        assert!(cache.used_bytes() <= cache.capacity_bytes());
    }
    assert_eq!(cache.used_bytes(), 2_048);
    assert_eq!(cache.len(), 16);
    assert!(cache.get(&key(0)).is_none());
    assert!(cache.get(&key(3_599)).is_some());
}

#[test]
fn oversize_value_is_rejected_without_displacing_existing_frame() {
    let mut cache = FrameCache::new(10);
    assert!(cache.insert(key(1), value(1, 10)));
    assert!(!cache.insert(key(2), value(2, 11)));
    assert_eq!(cache.len(), 1);
    assert_eq!(cache.used_bytes(), 10);
    assert!(cache.get(&key(1)).is_some());
}

#[test]
fn clear_releases_all_accounted_bytes() {
    let mut cache = FrameCache::new(64);
    assert!(cache.insert(key(1), value(1, 16)));
    assert!(cache.insert(key(2), value(2, 16)));
    cache.clear();
    assert!(cache.is_empty());
    assert_eq!(cache.used_bytes(), 0);
}

#[test]
fn remove_updates_byte_accounting() {
    let mut cache = FrameCache::new(64);
    assert!(cache.insert(key(1), value(1, 16)));
    assert_eq!(cache.remove(&key(1)).unwrap().byte_len(), 16);
    assert!(cache.is_empty());
    assert_eq!(cache.used_bytes(), 0);
    assert!(cache.remove(&key(1)).is_none());
}

#[test]
fn eviction_takes_the_oldest_frames_and_counts_them() {
    let mut cache = FrameCache::new(40);
    for tick in 0..4 {
        assert!(cache.insert(key(tick), value(tick, 10)));
    }
    assert_eq!(cache.eviction_count(), 0);
    assert!(cache.insert(key(9), value(9, 25)));
    assert_eq!(cache.eviction_count(), 3);
    assert_eq!(cache.len(), 2);
    assert!(cache.get(&key(2)).is_none());
    assert_eq!(cache.get(&key(3)).unwrap().source_tick, 3);
    assert_eq!(cache.get(&key(9)).unwrap().byte_len(), 25);
    cache.clear();
    assert_eq!(cache.eviction_count(), 3);
}

#[test]
fn replacing_a_frame_is_no_eviction() {
    let mut cache = FrameCache::new(20);
    assert!(cache.insert(key(1), value(1, 20)));
    assert!(cache.insert(key(1), value(2, 20)));
    assert_eq!(cache.eviction_count(), 0);
    assert_eq!(cache.get(&key(1)).unwrap().source_tick, 2);
}

#[test]
fn a_miss_leaves_the_order_alone() {
    let mut cache = FrameCache::new(20);
    assert!(cache.insert(key(1), value(1, 10)));
    assert!(cache.insert(key(2), value(2, 10)));
    assert!(cache.get(&key(5)).is_none());
    assert!(cache.insert(key(3), value(3, 10)));
    assert!(cache.get(&key(1)).is_none());
    assert!(cache.get(&key(2)).is_some());
}

#[test]
fn empty_frames_fit_an_empty_cache() {
    let mut cache = FrameCache::new(0);
    assert!(cache.insert(key(1), value(1, 0)));
    assert!(!cache.insert(key(2), value(2, 1)));
    assert_eq!(cache.len(), 1);
}
