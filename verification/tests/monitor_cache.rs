use maelstrom::decode::monitor_cache::{
    DecodedRgba, MonitorFrameCache, MonitorFrameCachePool, MAX_CACHE_STREAM_STATES,
    SPARSE_CACHE_INTERVAL_TICKS,
};
use maelstrom::decode::request::{frame_cache_key, AccelerationPreference, DecodeRequest};
use maelstrom::decode::scrub_index::MAX_SCRUB_CACHE_INDEX_ENTRIES;
use maelstrom::frame_cache::{FrameKey, FrameValue};
use maelstrom::source_path::{PathPart, SourcePath};
use std::path::{Component, Path};

fn source_path(text: &str) -> SourcePath {
    let parts = Path::new(text)
        .components()
        .map(|component| match component {
            Component::Prefix(prefix) => {
                PathPart::Prefix(prefix.as_os_str().to_str().unwrap().to_owned())
            }
            Component::RootDir => PathPart::RootDir,
            Component::CurDir => PathPart::CurDir,
            Component::ParentDir => PathPart::ParentDir,
            Component::Normal(name) => PathPart::Normal(name.to_str().unwrap().to_owned()),
        })
        .collect();
    SourcePath { parts }
}

fn request(path: &str, request_id: u64) -> DecodeRequest {
    DecodeRequest {
        project_epoch: 8,
        cache_epoch: 3,
        request_id,
        media_id: 3,
        path: source_path(path),
        source_tick: 0,
        width: 40,
        height: 30,
        is_scrubbing: false,
        prewarm_scrub_workers: false,
        high_quality_scaling: true,
        progressive_scrub_frames: false,
        source_frame_duration_tick: None,
        acceleration: AccelerationPreference::Software,
    }
}

fn traversal(request: &DecodeRequest, source_tick: i64) -> DecodedRgba {
    DecodedRgba {
        request_id: request.request_id,
        target_tick: source_tick,
        source_tick,
        width: request.width,
        height: request.height,
        rgba: vec![0; 16].into(),
    }
}

#[test]
fn frame_cache_diagnostics_track_current_peak_and_clear() {
    let mut cache = MonitorFrameCache::new(32);
    let key = FrameKey {
        project_epoch: 1,
        media_id: 2,
        source_tick: 0,
        width: 2,
        height: 2,
    };

    assert!(cache.insert(key, FrameValue::new(0, 2, 2, vec![0; 16].into())));
    assert!(cache.insert(
        FrameKey {
            source_tick: SPARSE_CACHE_INTERVAL_TICKS,
            ..key
        },
        FrameValue::new(SPARSE_CACHE_INTERVAL_TICKS, 2, 2, vec![1; 16].into()),
    ));
    assert!(cache.insert(
        FrameKey {
            source_tick: SPARSE_CACHE_INTERVAL_TICKS * 2,
            ..key
        },
        FrameValue::new(SPARSE_CACHE_INTERVAL_TICKS * 2, 2, 2, vec![2; 16].into()),
    ));
    let snapshot = cache.diagnostics();
    assert_eq!(snapshot.capacity_bytes, 32);
    assert_eq!(snapshot.current_bytes, 32);
    assert_eq!(snapshot.peak_bytes, 32);
    assert_eq!(snapshot.eviction_count, 1);
    assert!(snapshot.current_bytes <= snapshot.capacity_bytes);

    cache.clear();
    let snapshot = cache.diagnostics();
    assert_eq!(snapshot.current_bytes, 0);
    assert_eq!(snapshot.peak_bytes, 32);
    assert_eq!(snapshot.eviction_count, 1);
}

#[test]
fn frame_cache_pool_diagnostics_publish_cumulative_budget_evictions() {
    let mut pool = MonitorFrameCachePool::new(32);
    let key = FrameKey {
        project_epoch: 1,
        media_id: 2,
        source_tick: 0,
        width: 2,
        height: 2,
    };
    for source_tick in [
        0,
        SPARSE_CACHE_INTERVAL_TICKS,
        SPARSE_CACHE_INTERVAL_TICKS * 2,
    ] {
        let frame_key = FrameKey { source_tick, ..key };
        assert!(pool.cache.insert(
            frame_key,
            FrameValue::new(source_tick, 2, 2, vec![source_tick as u8; 16].into()),
        ));
    }

    let snapshot = pool.diagnostics();
    assert_eq!(snapshot.capacity_bytes, 32);
    assert_eq!(snapshot.current_bytes, 32);
    assert_eq!(snapshot.peak_bytes, 32);
    assert_eq!(snapshot.eviction_count, 1);

    pool.cache.clear();
    let snapshot = pool.diagnostics();
    assert_eq!(snapshot.current_bytes, 0);
    assert_eq!(snapshot.peak_bytes, 32);
    assert_eq!(snapshot.eviction_count, 1);
}

#[test]
fn continuous_scrub_retains_sparse_anchors_plus_exact_latest() {
    let mut cache = MonitorFrameCache::new(1024 * 1024);
    for index in 0..20_i64 {
        let frame_key = FrameKey {
            project_epoch: 1,
            media_id: 2,
            source_tick: index * 50_000,
            width: 2,
            height: 2,
        };
        assert!(cache.insert(
            frame_key,
            FrameValue::new(frame_key.source_tick, 2, 2, vec![0; 16].into()),
        ));
    }

    assert_eq!(cache.frame_count(), 5);
    assert!(cache
        .get(&FrameKey {
            project_epoch: 1,
            media_id: 2,
            source_tick: 950_000,
            width: 2,
            height: 2,
        })
        .is_some());
}

#[test]
fn scrub_cache_returns_only_nearby_frames_at_or_after_target() {
    let mut cache = MonitorFrameCache::new(1024 * 1024);
    let mut desired = request("scrub-source.mp4", 1);
    desired.is_scrubbing = true;
    desired.source_tick = 950_000;
    cache.prepare_request(&desired);
    cache.insert_scrub_traversal(
        &desired,
        &DecodedRgba {
            request_id: desired.request_id,
            target_tick: 1_000_000,
            source_tick: 1_000_000,
            width: desired.width,
            height: desired.height,
            rgba: vec![0; 40 * 30 * 4].into(),
        },
    );

    assert!(
        cache.get_scrub_at_or_after(&desired).is_none(),
        "unknown timing must not substitute a future frame from an invented CFR window"
    );
    desired.source_tick = 1_000_000;
    assert_eq!(
        cache
            .get_scrub_at_or_after(&desired)
            .expect("an exact unknown-timing cache match remains reusable")
            .source_tick,
        1_000_000
    );
    desired.source_frame_duration_tick = Some(33_334);
    desired.source_tick = 950_000;
    assert!(
        cache.get_scrub_at_or_after(&desired).is_none(),
        "known-rate cache lookup must not jump more than one source frame"
    );
    desired.source_tick = 966_666;
    assert_eq!(
        cache
            .get_scrub_at_or_after(&desired)
            .expect("next source frame remains eligible")
            .source_tick,
        1_000_000
    );
    desired.source_frame_duration_tick = Some(8_334);
    desired.source_tick = 991_666;
    assert_eq!(
        cache
            .get_scrub_at_or_after(&desired)
            .expect("known high-rate cache lookup stays within one source frame")
            .source_tick,
        1_000_000
    );
    desired.source_tick = 991_665;
    assert!(cache.get_scrub_at_or_after(&desired).is_none());
    desired.source_tick = 1_000_001;
    assert!(cache.get_scrub_at_or_after(&desired).is_none());
}

#[test]
fn project_or_source_change_releases_frames_and_sparse_bookkeeping() {
    let mut cache = MonitorFrameCache::new(1024 * 1024);
    let original = request("source-a.mp4", 1);
    cache.prepare_request(&original);
    let original_key = frame_cache_key(&original, 0);
    assert!(cache.insert(
        original_key,
        FrameValue::new(0, 40, 30, vec![0; 40 * 30 * 4].into()),
    ));
    assert_ne!(cache.frame_count(), 0);

    let mut relinked = original.clone();
    relinked.path = source_path("source-b.mp4");
    cache.prepare_request(&relinked);
    assert_eq!(cache.frame_count(), 0);
    assert_eq!(cache.stream_count(), 0);
    assert_eq!(cache.anchor_count(), 0);
    assert!(cache.accepts_request(&relinked));
    assert!(!cache.accepts_request(&original));

    assert!(cache.insert(
        frame_cache_key(&relinked, 0),
        FrameValue::new(0, 40, 30, vec![0; 40 * 30 * 4].into()),
    ));
    let mut next_project = relinked.clone();
    next_project.cache_epoch += 1;
    cache.prepare_request(&next_project);
    assert_eq!(cache.frame_count(), 0);
    assert_eq!(cache.stream_count(), 0);
    assert_eq!(cache.project_epoch(), Some(next_project.cache_epoch));
}

#[test]
fn failed_or_uncached_sources_cannot_grow_stream_registry_without_bound() {
    let mut cache = MonitorFrameCache::new(0);
    for media_id in 0..=MAX_CACHE_STREAM_STATES as u32 {
        let mut desired = request(&format!("missing-{media_id}.mp4"), 1);
        desired.media_id = media_id;
        let _ = cache.prepare_request(&desired);
        assert!(cache.source_count() <= MAX_CACHE_STREAM_STATES);
    }
}

#[test]
fn shared_frame_cache_pool_does_not_alias_source_or_scaler_policy() {
    let mut pool = MonitorFrameCachePool::new(8 * 1024);
    let original = request("shared-cache-source-a.mp4", 1);
    let key = frame_cache_key(&original, original.source_tick);
    let cache = &mut pool.cache;
    cache.prepare_request(&original);
    assert!(cache.insert_if_current(
        &original,
        key,
        FrameValue::new(0, 40, 30, vec![9; 40 * 30 * 4].into()),
    ));

    let mut distinct_source = original.clone();
    distinct_source.media_id = 4;
    distinct_source.path = source_path("shared-cache-source-b.mp4");
    cache.prepare_request(&distinct_source);
    assert!(cache.get(&frame_cache_key(&distinct_source, 0)).is_none());

    cache.prepare_request(&original);
    assert!(cache.insert_if_current(
        &original,
        key,
        FrameValue::new(0, 40, 30, vec![8; 40 * 30 * 4].into()),
    ));
    let mut relinked_source = original.clone();
    relinked_source.path = source_path("shared-cache-source-relinked.mp4");
    assert!(cache.prepare_request(&relinked_source));
    assert!(cache.get(&key).is_none());

    cache.prepare_request(&original);
    assert!(cache.insert_if_current(
        &original,
        key,
        FrameValue::new(0, 40, 30, vec![7; 40 * 30 * 4].into()),
    ));
    let mut distinct_output = original.clone();
    distinct_output.width = 80;
    assert!(cache
        .get(&frame_cache_key(
            &distinct_output,
            distinct_output.source_tick
        ))
        .is_none());

    let mut distinct_epoch = original.clone();
    distinct_epoch.cache_epoch += 1;
    assert!(cache.prepare_request(&distinct_epoch));
    assert!(cache
        .get(&frame_cache_key(
            &distinct_epoch,
            distinct_epoch.source_tick
        ))
        .is_none());

    let mut distinct_policy = original.clone();
    distinct_policy.high_quality_scaling = false;
    assert!(cache.prepare_request(&distinct_policy));
    assert!(cache.get(&frame_cache_key(&distinct_policy, 0)).is_none());
}

#[test]
fn scaler_policy_change_invalidates_cached_monitor_pixels() {
    let original = request("scaler-policy.mp4", 1);
    let mut cache = MonitorFrameCache::new(8 * 1024);
    cache.prepare_request(&original);
    let key = frame_cache_key(&original, 0);
    assert!(cache.insert_if_current(
        &original,
        key,
        FrameValue::new(0, 40, 30, vec![0; 40 * 30 * 4].into()),
    ));
    assert!(cache.get(&key).is_some());

    let mut changed = original.clone();
    changed.high_quality_scaling = false;
    assert!(cache.prepare_request(&changed));
    assert!(cache.get(&key).is_none());
    assert!(!cache.insert_if_current(
        &original,
        key,
        FrameValue::new(0, 40, 30, vec![1; 40 * 30 * 4].into()),
    ));
    assert!(cache.get(&key).is_none());
    assert!(cache.insert_if_current(
        &changed,
        key,
        FrameValue::new(0, 40, 30, vec![2; 40 * 30 * 4].into()),
    ));
}

#[test]
fn a_repeated_request_keeps_every_frame() {
    let mut cache = MonitorFrameCache::new(1024);
    let desired = request("steady.mp4", 1);
    assert!(cache.prepare_request(&desired));
    assert!(cache.insert(frame_cache_key(&desired, 0), FrameValue::new(0, 2, 2, vec![0; 16].into())));
    assert!(!cache.prepare_request(&desired));
    assert_eq!(cache.frame_count(), 1);
    assert_eq!(cache.source_count(), 1);
}

#[test]
fn a_traversal_keeps_one_frame_per_bucket() {
    let mut cache = MonitorFrameCache::new(1024);
    let mut desired = request("bucket.mp4", 1);
    desired.is_scrubbing = true;
    cache.prepare_request(&desired);
    for tick in [100_000, 120_000, 149_999, 150_000] {
        cache.insert_scrub_traversal(&desired, &traversal(&desired, tick));
    }
    assert_eq!(cache.scrub_index_len(), 2);
    assert_eq!(cache.frame_count(), 2);
    desired.source_frame_duration_tick = Some(20_000);
    cache.insert_scrub_traversal(&desired, &traversal(&desired, 120_000));
    assert_eq!(cache.scrub_index_len(), 3);
}

#[test]
fn a_traversal_outside_a_scrub_or_after_a_relink_is_not_kept() {
    let mut cache = MonitorFrameCache::new(1024);
    let mut desired = request("gone.mp4", 1);
    cache.prepare_request(&desired);
    cache.insert_scrub_traversal(&desired, &traversal(&desired, 0));
    assert_eq!(cache.frame_count(), 0);
    desired.is_scrubbing = true;
    let mut relinked = desired.clone();
    relinked.path = source_path("elsewhere.mp4");
    cache.insert_scrub_traversal(&relinked, &traversal(&relinked, 0));
    assert_eq!(cache.frame_count(), 0);
}

#[test]
fn the_scrub_index_forgets_its_oldest_frames() {
    let mut cache = MonitorFrameCache::new(1024 * 1024);
    let mut desired = request("long.mp4", 1);
    desired.is_scrubbing = true;
    cache.prepare_request(&desired);
    for index in 0..=MAX_SCRUB_CACHE_INDEX_ENTRIES as i64 {
        cache.insert_scrub_traversal(&desired, &traversal(&desired, index * 50_000));
    }
    assert_eq!(cache.scrub_index_len(), MAX_SCRUB_CACHE_INDEX_ENTRIES);
    desired.source_tick = 0;
    assert!(cache.get_scrub_at_or_after(&desired).is_none());
    desired.source_tick = 50_000;
    assert!(cache.get_scrub_at_or_after(&desired).is_some());
}

#[test]
fn a_stale_index_entry_is_dropped_when_it_is_seen() {
    let mut cache = MonitorFrameCache::new(16);
    let mut desired = request("stale.mp4", 1);
    desired.is_scrubbing = true;
    cache.prepare_request(&desired);
    cache.insert_scrub_traversal(&desired, &traversal(&desired, 0));
    cache.insert_scrub_traversal(&desired, &traversal(&desired, 50_000));
    assert_eq!(cache.scrub_index_len(), 2);
    assert!(cache.get_scrub_at_or_after(&desired).is_none());
    assert_eq!(cache.scrub_index_len(), 1);
    desired.source_tick = 50_000;
    assert!(cache.get_scrub_at_or_after(&desired).is_some());
}

#[test]
fn a_target_that_is_indexed_for_scrubbing_is_not_displaced() {
    let mut cache = MonitorFrameCache::new(1024);
    let mut desired = request("indexed.mp4", 1);
    desired.is_scrubbing = true;
    cache.prepare_request(&desired);
    let frame = |tick: i64| FrameValue::new(tick, 2, 2, vec![0; 16].into());
    assert!(cache.insert(frame_cache_key(&desired, 0), frame(0)));
    cache.insert_scrub_traversal(&desired, &traversal(&desired, 60_000));
    assert!(cache.insert(frame_cache_key(&desired, 60_000), frame(60_000)));
    assert!(cache.insert(frame_cache_key(&desired, 70_000), frame(70_000)));
    assert!(cache.get(&frame_cache_key(&desired, 60_000)).is_some());
    assert!(cache.insert(frame_cache_key(&desired, 80_000), frame(80_000)));
    assert!(cache.get(&frame_cache_key(&desired, 70_000)).is_none());
    assert!(cache.get(&frame_cache_key(&desired, 0)).is_some());
}

#[test]
fn buckets_before_the_start_are_rounded_towards_the_past() {
    let mut cache = MonitorFrameCache::new(1024);
    let key = |source_tick: i64| FrameKey {
        project_epoch: 1,
        media_id: 1,
        source_tick,
        width: 2,
        height: 2,
    };
    let frame = || FrameValue::new(0, 2, 2, vec![0; 16].into());
    assert!(cache.insert(key(-1), frame()));
    assert!(cache.insert(key(0), frame()));
    assert!(cache.insert(key(-250_000), frame()));
    assert!(cache.insert(key(-250_001), frame()));
    assert_eq!(cache.frame_count(), 4);
}

#[test]
fn another_spelling_of_a_path_keeps_the_cache() {
    let mut cache = MonitorFrameCache::new(1_024);
    cache.prepare_request(&request("media/clip.mp4", 1));
    assert!(cache.accepts_request(&request("media//clip.mp4", 2)));
    assert!(!cache.prepare_request(&request("media//clip.mp4", 2)));
    assert!(cache.prepare_request(&request("media/clip2.mp4", 3)));
}
