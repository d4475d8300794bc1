use maelstrom::decode::coordinator::{LeaseOutcome, MonitorSourceCoordinator};
use maelstrom::decode::decoder::{
    control_outcome, request_outcome, retry_outcome, LaneSend, MonitorDecoder,
};
use maelstrom::decode::diagnostics::{
    DecoderResourceDiagnostics, MonitorFrameCachePoolDiagnostics, MONITOR_WORKER_COUNT,
};
use maelstrom::decode::endpoint::{CoordinatorEndpoint, SendStep};
use maelstrom::decode::event_slot::EventSlot;
use maelstrom::decode::lane::{settle, LaneScheduler, LaneStep};
use maelstrom::decode::monitor_cache::{DecodedRgba, MonitorFrameCache, MonitorFrameCachePool};
use maelstrom::decode::request::{
    frame_cache_key, latest_same_generation, same_decode_generation, software_fallback_request,
    AccelerationPreference, DecodeBackend, DecodeError, DecodeEvent, DecodeRequest, DecoderClosed,
    MonitorCommand,
};
use maelstrom::decode::run::{
    retain_active_monitor_session, DecodeRun, MonitorSession, OpenOutcome, RunStep, Sessions,
};
use maelstrom::decode::scrub::{
    scrub_progress_due, scrub_progress_moves_toward_target, SCRUB_PROGRESS_INTERVAL,
};
use maelstrom::decode::session_pool::{
    admit_session, MonitorSessionLane, MonitorSessionPool, MonitorSessionPoolDiagnostics,
    SessionAdmission,
};
use maelstrom::decode::source_actor::{
    MonitorSourceKey, SourceLaneActor, MAX_SOURCE_ACTOR_CLIENTS,
};
use maelstrom::decode::stage_timing::{
    snapshot_is_settled, stage_timings, MonitorDecoderStageTimings, MonitorStageTiming,
};
use maelstrom::decode::traversal::{
    command_invalidates, FrameStep, PacketStep, SessionClock, Traversal, FORWARD_REUSE_TICKS,
};
use maelstrom::frame_cache::FrameValue;
use maelstrom::source_path::{PathPart, SourcePath};
use std::path::{Component, Path};
use std::collections::HashMap;
use std::sync::Arc;

fn source_path(text: &str) -> SourcePath {
    let parts = Path::new(text)
        .components()
        .map(|component| match component {
            Component::Prefix(prefix) => {
                PathPart::Prefix(prefix.as_os_str().to_str().unwrap().to_owned())
            }
            Component::RootDir => PathPart::RootDir,
            Component::CurDir => PathPart::CurDir,
            Component::ParentDir => PathPart::ParentDir,
            Component::Normal(name) => PathPart::Normal(name.to_str().unwrap().to_owned()),
        })
        .collect();
    SourcePath { parts }
}

fn request(path: &str, request_id: u64) -> DecodeRequest {
    DecodeRequest {
        project_epoch: 8,
        cache_epoch: 3,
        request_id,
        media_id: 3,
        path: source_path(path),
        source_tick: 0,
        width: 40,
        height: 30,
        is_scrubbing: false,
        prewarm_scrub_workers: false,
        high_quality_scaling: true,
        progressive_scrub_frames: false,
        source_frame_duration_tick: None,
        acceleration: AccelerationPreference::Software,
    }
}

fn error_for(request: &DecodeRequest) -> DecodeEvent {
    DecodeEvent::Error(DecodeError {
        project_epoch: request.project_epoch,
        request_id: request.request_id,
        media_id: request.media_id,
        source_tick: request.source_tick,
        message: "failed".to_owned(),
    })
}

const NOW: u64 = 5_000_000_000;

#[test]
fn an_event_is_copied_with_its_message() {
    let event = error_for(&request("copied.mp4", 1));
    assert_eq!(event.clone(), event);
}

#[test]
fn scrub_progress_pacer_allows_the_first_frame() {
    assert!(scrub_progress_due(None, NOW, SCRUB_PROGRESS_INTERVAL));
}

#[test]
fn scrub_progress_pacer_suppresses_a_burst_regardless_of_source_timestamp() {
    for source_tick in [0, 41_667, 5_000_000, 90_000_000] {
        assert!(scrub_progress_moves_toward_target(None, 0, source_tick));
        assert!(!scrub_progress_due(Some(NOW), NOW, SCRUB_PROGRESS_INTERVAL));
    }
}

#[test]
fn scrub_progress_pacer_allows_a_frame_at_the_interval() {
    assert!(scrub_progress_due(
        Some(NOW),
        NOW + SCRUB_PROGRESS_INTERVAL,
        SCRUB_PROGRESS_INTERVAL
    ));
}

#[test]
fn scrub_progress_pacer_does_not_decimate_media_frame_rates() {
    for source_ticks in [
        &[0, 41_667, 83_333][..],                  // 24 fps
        &[0, 33_333, 66_667, 100_000][..],         // 30 fps
        &[0, 16_667, 33_333, 50_000, 66_667][..],  // 60 fps
        &[0, 10_000, 56_000, 58_000, 121_000][..], // VFR
    ] {
        let mut last_source_tick: Option<i64> = None;
        let mut last_published = None;
        for (index, &source_tick) in source_ticks.iter().enumerate() {
            assert!(last_source_tick.is_none_or(|last| source_tick >= last));
            let published_at = NOW + SCRUB_PROGRESS_INTERVAL * index as u64;
            assert!(scrub_progress_due(
                last_published,
                published_at,
                SCRUB_PROGRESS_INTERVAL
            ));
            last_source_tick = Some(source_tick);
            last_published = Some(published_at);
        }
    }
}

#[test]
fn forward_scrub_progress_never_replays_an_older_keyframe() {
    assert!(!scrub_progress_moves_toward_target(
        Some(5_000_000),
        6_000_000,
        400_000
    ));
    assert!(scrub_progress_moves_toward_target(
        Some(5_000_000),
        6_000_000,
        5_400_000
    ));
}

#[test]
fn reverse_or_random_scrub_progress_hides_below_target_preroll() {
    assert!(!scrub_progress_moves_toward_target(
        Some(6_000_000),
        5_000_000,
        400_000
    ));
    assert!(scrub_progress_moves_toward_target(
        Some(6_000_000),
        5_000_000,
        5_400_000
    ));
    assert!(!scrub_progress_moves_toward_target(
        None, 5_000_000, 400_000
    ));
}

#[test]
fn scrub_progress_direction_remains_independent_of_wall_clock_pacing() {
    assert!(!scrub_progress_moves_toward_target(
        Some(100_000),
        200_000,
        99_999
    ));
    assert!(scrub_progress_due(
        Some(NOW),
        NOW + SCRUB_PROGRESS_INTERVAL,
        SCRUB_PROGRESS_INTERVAL
    ));
}

#[test]
fn a_clock_that_goes_back_counts_as_no_time() {
    assert!(!scrub_progress_due(Some(NOW), NOW - 1, 1));
    assert!(scrub_progress_due(Some(NOW), NOW - 1, 0));
}

#[test]
fn shared_monitor_session_pool_enforces_lane_caps_and_raii_release() {
    let mut pool = MonitorSessionPool::new(1, 2);
    let foreground = pool
        .try_acquire(MonitorSessionLane::Foreground)
        .expect("foreground permit");
    let background_one = pool
        .try_acquire(MonitorSessionLane::Background)
        .expect("first background permit");
    let background_two = pool
        .try_acquire(MonitorSessionLane::Background)
        .expect("second background permit");
    assert!(pool.try_acquire(MonitorSessionLane::Foreground).is_none());
    assert!(pool.try_acquire(MonitorSessionLane::Background).is_none());
    assert_eq!(
        pool.diagnostics(),
        MonitorSessionPoolDiagnostics {
            active_sticky_sessions: 3,
            peak_sticky_sessions: 3,
            session_cap: 3,
            active_foreground_sessions: 1,
            foreground_session_cap: 1,
            active_background_sessions: 2,
            background_session_cap: 2,
        }
    );
    pool.release(background_one);
    assert_eq!(pool.diagnostics().active_background_sessions, 1);
    pool.release(foreground);
    pool.release(background_two);
    let snapshot = pool.diagnostics();
    assert_eq!(snapshot.active_sticky_sessions, 0);
    assert_eq!(snapshot.peak_sticky_sessions, 3);
}

#[test]
fn foreground_exhaustion_is_an_error_only_without_a_coordinator() {
    let mut pool = MonitorSessionPool::new(0, 0);
    assert!(matches!(
        admit_session(&mut pool, 1, false),
        SessionAdmission::Deferred
    ));
    assert!(matches!(
        admit_session(&mut pool, 0, true),
        SessionAdmission::Deferred
    ));
    let SessionAdmission::Refused(message) = admit_session(&mut pool, 0, false) else {
        panic!("an independent foreground lane must not defer")
    };
    assert_eq!(
        message,
        "monitor foreground session pool is exhausted; a foreground permit was not released"
    );
    let mut open = MonitorSessionPool::new(1, 0);
    let SessionAdmission::Granted(permit) = admit_session(&mut open, 0, false) else {
        panic!("a free permit is granted")
    };
    assert_eq!(permit.lane(), MonitorSessionLane::Foreground);
}

#[test]
fn decoder_stage_timing_snapshot_merges_with_saturation_and_zero_means() {
    let mut first = MonitorStageTiming::default();
    first.record(2_000_000);
    first.record(3_000_000);
    let first_snapshot = first;
    assert_eq!(first_snapshot.samples, 2);
    assert_eq!(first_snapshot.total_nanos, 5_000_000);
    assert_eq!(first_snapshot.max_nanos, 3_000_000);
    assert!(first_snapshot.total_nanos >= first_snapshot.max_nanos);
    let mut merged = MonitorStageTiming::default();
    merged.merge(first_snapshot);
    merged.merge(MonitorStageTiming {
        samples: 1,
        total_nanos: 5_000_000,
        max_nanos: 5_000_000,
    });
    assert_eq!(merged.samples, 3);
    assert_eq!(merged.total_nanos, 10_000_000);
    assert_eq!(merged.max_nanos, 5_000_000);

    let mut saturated = MonitorStageTiming {
        samples: u64::MAX,
        total_nanos: u64::MAX,
        max_nanos: 1,
    };
    saturated.merge(MonitorStageTiming {
        samples: 1,
        total_nanos: 1,
        max_nanos: 2,
    });
    assert_eq!(saturated.samples, u64::MAX);
    assert_eq!(saturated.total_nanos, u64::MAX);
    assert_eq!(saturated.max_nanos, 2);
}

#[test]
fn an_overlong_span_counts_as_the_longest() {
    let mut timing = MonitorStageTiming::default();
    timing.record(u128::MAX);
    assert_eq!(timing.total_nanos, u64::MAX);
    assert_eq!(timing.max_nanos, u64::MAX);
    assert_eq!(timing.samples, 1);
}

#[test]
fn lanes_are_merged_stage_by_stage() {
    let mut first = MonitorDecoderStageTimings::default();
    first.scaler.record(5);
    let mut second = MonitorDecoderStageTimings::default();
    second.scaler.record(7);
    second.demux_packet.record(1);
    let merged = stage_timings(&vec![first, second]);
    assert_eq!(
        merged.scaler,
        MonitorStageTiming {
            samples: 2,
            total_nanos: 12,
            max_nanos: 7
        }
    );
    assert_eq!(merged.demux_packet.samples, 1);
    assert_eq!(merged.worker_request, MonitorStageTiming::default());
}

#[test]
fn a_snapshot_is_settled_on_an_even_unchanged_number() {
    assert!(snapshot_is_settled(4, 4));
    assert!(!snapshot_is_settled(5, 5));
    assert!(!snapshot_is_settled(4, 6));
}

#[test]
fn worker_session_diagnostics_aggregate_with_fixed_cap() {
    let mut diagnostics = DecoderResourceDiagnostics::new();
    diagnostics.publish_worker_session(0, true);
    diagnostics.publish_worker_session(2, true);
    let snapshot = diagnostics.snapshot(MonitorFrameCachePoolDiagnostics::default());
    assert_eq!(snapshot.active_sticky_sessions, 2);
    assert_eq!(snapshot.peak_sticky_sessions, 2);
    assert_eq!(snapshot.session_cap, MONITOR_WORKER_COUNT);

    diagnostics.publish_worker_session(0, false);
    diagnostics.publish_worker_session(2, false);
    let snapshot = diagnostics.snapshot(MonitorFrameCachePoolDiagnostics::default());
    assert_eq!(snapshot.active_sticky_sessions, 0);
    assert_eq!(snapshot.peak_sticky_sessions, 2);
    assert!(snapshot.peak_sticky_sessions <= snapshot.session_cap);
}

#[test]
fn hardware_runtime_failure_reopens_the_same_request_in_software() {
    let mut desired = request("runtime-fallback.mp4", 77);
    desired.project_epoch = 9;
    desired.cache_epoch = 11;
    desired.media_id = 42;
    desired.source_tick = 3_250_000;
    desired.acceleration = AccelerationPreference::PreferHardware;

    for backend in [
        DecodeBackend::VideoToolbox,
        DecodeBackend::D3D11VA,
        DecodeBackend::DXVA2,
        DecodeBackend::Nvidia,
        DecodeBackend::IntelQuickSync,
    ] {
        let fallback = software_fallback_request(&desired, backend)
            .expect("hardware runtime errors require a software retry");
        assert_eq!(fallback.acceleration, AccelerationPreference::Software);
        let mut expected = desired.clone();
        expected.acceleration = AccelerationPreference::Software;
        assert_eq!(fallback, expected);
    }
    assert!(software_fallback_request(&desired, DecodeBackend::Software).is_none());

    desired.acceleration = AccelerationPreference::Software;
    assert!(software_fallback_request(&desired, DecodeBackend::D3D11VA).is_none());
}

#[test]
fn exact_cached_target_returns_without_opening_media() {
    let desired = request("this-file-must-not-be-opened.mp4", 91);
    let mut cache = MonitorFrameCache::new(8 * 1024);
    cache.prepare_request(&desired);
    let rgba: Arc<[u8]> = vec![17; 40 * 30 * 4].into();
    assert!(cache.insert(
        frame_cache_key(&desired, desired.source_tick),
        FrameValue::new(desired.source_tick, 40, 30, Arc::clone(&rgba)),
    ));
    let mut sessions: Sessions<()> = HashMap::new();

    let (_, step) = DecodeRun::start(&mut sessions, &mut cache, &desired, false);
    let RunStep::Done {
        event: Some(DecodeEvent::Frame(frame)),
        deferred: false,
    } = step
    else {
        panic!("cache hit returns a frame")
    };
    assert_eq!(frame.request_id, 91);
    assert_eq!(frame.rgba, rgba);
    assert!(sessions.is_empty());
}

#[test]
fn shared_frame_cache_pool_reuses_pixels_without_rewriting_event_identity() {
    let mut pool = MonitorFrameCachePool::new(8 * 1024);
    let first = MonitorDecoder::new();
    let second = MonitorDecoder::new();
    let first_request = request("shared-cache-must-not-open.mp4", 101);
    let mut second_request = first_request.clone();
    second_request.request_id = 202;
    second_request.project_epoch = 99;
    pool.cache.prepare_request(&first_request);
    assert!(pool.cache.insert_if_current(
        &first_request,
        frame_cache_key(&first_request, first_request.source_tick),
        FrameValue::new(0, 40, 30, vec![7; 40 * 30 * 4].into()),
    ));

    let mut serve = |request: &DecodeRequest| {
        let mut sessions: Sessions<()> = HashMap::new();
        match DecodeRun::start(&mut sessions, &mut pool.cache, request, false).1 {
            RunStep::Done {
                event: Some(DecodeEvent::Frame(frame)),
                deferred: false,
            } => frame,
            _ => panic!("shared-cache response was not a frame"),
        }
    };
    let first_frame = serve(&first_request);
    let second_frame = serve(&second_request);
    assert_eq!(first_frame.request_id, first_request.request_id);
    assert_eq!(first_frame.project_epoch, first_request.project_epoch);
    assert_eq!(second_frame.request_id, second_request.request_id);
    assert_eq!(second_frame.project_epoch, second_request.project_epoch);
    assert!(Arc::ptr_eq(&first_frame.rgba, &second_frame.rgba));
    let cache = pool.diagnostics();
    assert_eq!(cache.capacity_bytes, 8 * 1024);
    assert_eq!(cache.current_bytes, 40 * 30 * 4);
    assert_eq!(
        first.diagnostics(cache).frame_cache_capacity_bytes,
        cache.capacity_bytes
    );
    assert_eq!(
        second.diagnostics(cache).frame_cache_capacity_bytes,
        cache.capacity_bytes
    );
}

#[test]
fn unavailable_background_session_defers_without_publishing_decode_error() {
    let desired = request("must-not-open-while-background-is-full.mp4", 92);
    let mut sessions: Sessions<()> = HashMap::new();
    let mut cache = MonitorFrameCache::new(0);
    let mut session_pool = MonitorSessionPool::new(1, 0);

    let (run, step) = DecodeRun::start(&mut sessions, &mut cache, &desired, false);
    let RunStep::Open(to_open) = step else {
        panic!("nothing is cached and nothing is open")
    };
    assert_eq!(to_open, desired);
    let SessionAdmission::Deferred = admit_session(&mut session_pool, 1, false) else {
        panic!("a full background pool defers")
    };
    let step = run.opened(&mut sessions, &desired, OpenOutcome::Deferred);
    let RunStep::Done { event, deferred } = step else {
        panic!("a deferred open ends the run")
    };

    assert!(event.is_none());
    assert!(deferred);
    assert!(sessions.is_empty());
    assert_eq!(session_pool.diagnostics().active_sticky_sessions, 0);
}

#[test]
fn active_monitor_session_retention_keeps_same_source_and_evicts_others() {
    let mut sessions = HashMap::from([(11_u32, "first"), (22_u32, "second")]);

    retain_active_monitor_session(&mut sessions, 22);
    assert_eq!(sessions, HashMap::from([(22_u32, "second")]));

    // Repeated requests for the active source preserve its sticky decoder context.
    retain_active_monitor_session(&mut sessions, 22);
    assert_eq!(sessions, HashMap::from([(22_u32, "second")]));

    // A different request cannot inherit or accumulate inactive sessions; per worker cap is 1.
    retain_active_monitor_session(&mut sessions, 33);
    assert!(sessions.is_empty());
    assert!(sessions.len() <= MONITOR_WORKER_COUNT);
}

#[test]
fn same_generation_replacements_preserve_valid_decode_progress() {
    let current = request("clip.mp4", 1);
    let mut near_forward = current.clone();
    near_forward.source_tick = FORWARD_REUSE_TICKS;
    assert!(same_decode_generation(&current, &near_forward));

    let mut backward = current.clone();
    backward.source_tick = -1;
    assert!(same_decode_generation(&current, &backward));

    let mut distant = current.clone();
    distant.source_tick = FORWARD_REUSE_TICKS + 1;
    assert!(same_decode_generation(&current, &distant));

    let mut scrub = current.clone();
    scrub.is_scrubbing = true;
    assert!(
        !same_decode_generation(&current, &scrub),
        "scrub/release transitions must not coalesce under the old mode"
    );

    let mut lower_quality_scaler = current.clone();
    lower_quality_scaler.high_quality_scaling = false;
    assert!(
        !same_decode_generation(&current, &lower_quality_scaler),
        "a scaler-policy change must rebuild the sticky decoder generation"
    );

    let mut progressive_scrub = scrub.clone();
    progressive_scrub.progressive_scrub_frames = true;
    assert!(
        !same_decode_generation(&scrub, &progressive_scrub),
        "full-quality and progressive scrub policies cannot share traversal work"
    );

    let mut probed_rate = current.clone();
    probed_rate.source_frame_duration_tick = Some(33_334);
    assert!(!same_decode_generation(&current, &probed_rate));

    let mut other_media = near_forward;
    other_media.media_id += 1;
    assert!(!same_decode_generation(&current, &other_media));
}

fn open_session(path: &str, backend: DecodeBackend) -> MonitorSession<u8> {
    MonitorSession {
        path: source_path(path),
        backend,
        contexts: 1,
    }
}

#[test]
fn a_failed_hardware_decode_is_retried_once_in_software() {
    let mut desired = request("clip.mp4", 5);
    desired.acceleration = AccelerationPreference::Auto;
    let mut cache = MonitorFrameCache::new(1024);
    let mut sessions: Sessions<u8> = HashMap::new();
    let (mut run, _) = DecodeRun::start(&mut sessions, &mut cache, &desired, false);
    let step = run.opened(
        &mut sessions,
        &desired,
        OpenOutcome::Opened(open_session("clip.mp4", DecodeBackend::Nvidia)),
    );
    assert!(matches!(step, RunStep::Decode));
    let step = run.decoded(&mut sessions, &mut cache, &desired, Err("driver".to_owned()));
    let RunStep::Open(retry) = step else {
        panic!("hardware failures are retried")
    };
    assert_eq!(retry.acceleration, AccelerationPreference::Software);
    assert!(sessions.is_empty());
    let step = run.opened(
        &mut sessions,
        &desired,
        OpenOutcome::Opened(open_session("clip.mp4", DecodeBackend::Software)),
    );
    assert!(matches!(step, RunStep::Decode));
    let step = run.decoded(&mut sessions, &mut cache, &desired, Err("codec".to_owned()));
    let RunStep::Done {
        event: Some(DecodeEvent::Error(error)),
        deferred: false,
    } = step
    else {
        panic!("software failures are reported")
    };
    assert_eq!(
        error.message,
        "hardware decoder failed (driver); software fallback failed (codec)"
    );
    assert_eq!(error.request_id, 5);
    assert_eq!(sessions.len(), 1);
}

#[test]
fn a_software_session_that_does_not_open_names_both_failures() {
    let mut desired = request("clip.mp4", 5);
    desired.acceleration = AccelerationPreference::PreferHardware;
    let mut cache = MonitorFrameCache::new(1024);
    let mut sessions: Sessions<u8> = HashMap::from([(
        3,
        open_session("clip.mp4", DecodeBackend::IntelQuickSync),
    )]);
    let (mut run, step) = DecodeRun::start(&mut sessions, &mut cache, &desired, true);
    assert!(matches!(step, RunStep::Decode));
    let _ = run.decoded(&mut sessions, &mut cache, &desired, Err("device lost".to_owned()));
    let step = run.opened(
        &mut sessions,
        &desired,
        OpenOutcome::Failed("no codec".to_owned()),
    );
    let RunStep::Done {
        event: Some(DecodeEvent::Error(error)),
        ..
    } = step
    else {
        panic!("an open failure is reported")
    };
    assert_eq!(
        error.message,
        "hardware decoder failed (device lost); software fallback could not open (no codec)"
    );
}

#[test]
fn a_first_open_failure_is_reported_as_it_is() {
    let desired = request("clip.mp4", 6);
    let mut cache = MonitorFrameCache::new(1024);
    let mut sessions: Sessions<u8> = HashMap::new();
    let (run, _) = DecodeRun::start(&mut sessions, &mut cache, &desired, false);
    let step = run.opened(
        &mut sessions,
        &desired,
        OpenOutcome::Failed("monitor media has no video stream".to_owned()),
    );
    let RunStep::Done {
        event: Some(DecodeEvent::Error(error)),
        deferred: false,
    } = step
    else {
        panic!("an open failure is reported")
    };
    assert_eq!(error.message, "monitor media has no video stream");
}

#[test]
fn a_decoded_frame_answers_the_same_request_from_the_cache() {
    let mut desired = request("clip.mp4", 7);
    desired.source_tick = 33_333;
    let mut cache = MonitorFrameCache::new(1024);
    let mut sessions: Sessions<u8> = HashMap::from([(3, open_session("clip.mp4", DecodeBackend::DXVA2))]);
    let (mut run, step) = DecodeRun::start(&mut sessions, &mut cache, &desired, true);
    assert!(matches!(step, RunStep::Decode));
    let frame = DecodedRgba {
        request_id: 7,
        target_tick: 33_333,
        source_tick: 33_367,
        width: 2,
        height: 2,
        rgba: vec![4; 16].into(),
    };
    let step = run.decoded(&mut sessions, &mut cache, &desired, Ok(Some(frame)));
    let RunStep::Done {
        event: Some(DecodeEvent::Frame(frame)),
        deferred: false,
    } = step
    else {
        panic!("a decoded frame is reported")
    };
    assert_eq!(frame.backend, Some(DecodeBackend::DXVA2));
    assert_eq!(frame.source_tick, 33_367);
    let mut again = desired.clone();
    again.request_id = 8;
    let (_, step) = DecodeRun::start(&mut sessions, &mut cache, &again, true);
    let RunStep::Done {
        event: Some(DecodeEvent::Frame(cached)),
        ..
    } = step
    else {
        panic!("the frame is cached")
    };
    assert_eq!(cached.request_id, 8);
    assert_eq!(cached.source_tick, 33_367);
    assert_eq!(cached.backend, Some(DecodeBackend::DXVA2));
}

#[test]
fn a_relinked_source_needs_another_session() {
    let mut cache = MonitorFrameCache::new(1024);
    let mut sessions: Sessions<u8> = HashMap::from([
        (3, open_session("old.mp4", DecodeBackend::Software)),
        (9, open_session("other.mp4", DecodeBackend::Software)),
    ]);
    let desired = request("new.mp4", 1);
    let (_, step) = DecodeRun::start(&mut sessions, &mut cache, &desired, true);
    assert!(matches!(step, RunStep::Open(_)));
    assert!(sessions.is_empty());
}

#[test]
fn a_traversal_continues_only_towards_a_near_forward_target() {
    let mut clock = SessionClock::new();
    let mut desired = request("clip.mp4", 1);
    let (_, seek) = Traversal::begin(&clock, &desired, &None);
    assert!(seek);
    clock.last_source_tick = Some(1_000_000);
    desired.source_tick = 1_000_001;
    assert!(!Traversal::begin(&clock, &desired, &None).1);
    desired.source_tick = 1_000_000 + FORWARD_REUSE_TICKS;
    assert!(!Traversal::begin(&clock, &desired, &None).1);
    desired.source_tick += 1;
    assert!(Traversal::begin(&clock, &desired, &None).1);
    desired.source_tick = 1_000_000;
    let (traversal, seek) = Traversal::begin(&clock, &desired, &None);
    assert!(seek && !traversal.dense_reverse_cache);
    desired.source_tick = 999_999;
    let (traversal, seek) = Traversal::begin(&clock, &desired, &None);
    assert!(seek && traversal.dense_reverse_cache);
    clock.seeked();
    assert_eq!(clock.last_source_tick, None);
}

#[test]
fn a_queued_request_is_coalesced_before_the_seek() {
    let clock = SessionClock::new();
    let desired = request("clip.mp4", 1);
    let mut newer = desired.clone();
    newer.request_id = 2;
    newer.source_tick = -5;
    let waiting = Some(MonitorCommand::Request(newer));
    let (traversal, _) = Traversal::begin(&clock, &desired, &waiting);
    assert_eq!(traversal.completed_request_id, 2);
    assert_eq!(traversal.target, 0);
}

#[test]
fn packets_retarget_forward_and_are_abandoned_by_other_commands() {
    let mut clock = SessionClock {
        last_source_tick: Some(0),
        last_visible_tick: None,
    };
    let mut desired = request("clip.mp4", 1);
    desired.source_tick = 500_000;
    let (mut traversal, _) = Traversal::begin(&clock, &desired, &None);
    let mut later = desired.clone();
    later.request_id = 2;
    later.source_tick = 700_000;
    let step = traversal.packet(
        &mut clock,
        &desired,
        &Some(MonitorCommand::Request(later)),
        true,
    );
    assert_eq!(step, PacketStep::Send);
    assert_eq!((traversal.target, traversal.completed_request_id), (700_000, 2));
    let mut earlier = desired.clone();
    earlier.request_id = 3;
    earlier.source_tick = 100_000;
    let waiting = Some(MonitorCommand::Request(earlier));
    assert_eq!(
        traversal.packet(&mut clock, &desired, &waiting, false),
        PacketStep::Skip
    );
    assert_eq!((traversal.target, traversal.completed_request_id), (700_000, 2));
    assert_eq!(traversal.progress_target, 100_000);
    assert_eq!(
        traversal.packet(&mut clock, &desired, &Some(MonitorCommand::Cancel), true),
        PacketStep::Abandon
    );
    assert_eq!(clock.last_source_tick, None);
}

#[test]
fn frames_are_dropped_traversed_shown_and_finished() {
    let mut clock = SessionClock::new();
    let mut desired = request("clip.mp4", 9);
    desired.is_scrubbing = true;
    desired.progressive_scrub_frames = true;
    desired.source_tick = 100_000;
    clock.last_visible_tick = Some(20_000);
    let (mut traversal, _) = Traversal::begin(&clock, &desired, &None);
    // Before the visible frame: hidden preroll.
    assert_eq!(
        traversal.frame(&mut clock, &desired, &None, Some(10_000), NOW),
        FrameStep::Drop
    );
    let step = traversal.frame(&mut clock, &desired, &None, Some(40_000), NOW);
    let FrameStep::Traverse {
        stamp,
        publish: true,
        ..
    } = step
    else {
        panic!("progress is shown")
    };
    assert_eq!(
        (stamp.request_id, stamp.target_tick, stamp.source_tick),
        (9, 100_000, 40_000)
    );
    traversal.packed(&mut clock, step);
    assert_eq!(clock.last_visible_tick, Some(40_000));
    assert_eq!(clock.last_source_tick, None);
    // Too soon after the last one.
    assert_eq!(
        traversal.frame(&mut clock, &desired, &None, Some(60_000), NOW + 1),
        FrameStep::Drop
    );
    let step = traversal.frame(&mut clock, &desired, &None, Some(100_000), NOW + 2);
    let FrameStep::Finish { stamp } = step else {
        panic!("the target is reached")
    };
    assert_eq!(stamp.source_tick, 100_000);
    traversal.packed(&mut clock, step);
    assert_eq!(clock.last_source_tick, Some(100_000));
    assert_eq!(clock.last_visible_tick, Some(100_000));
}

#[test]
fn a_reverse_scrub_keeps_what_it_passes() {
    let mut clock = SessionClock {
        last_source_tick: Some(900_000),
        last_visible_tick: Some(900_000),
    };
    let mut desired = request("clip.mp4", 4);
    desired.is_scrubbing = true;
    desired.source_tick = 500_000;
    let (mut traversal, seek) = Traversal::begin(&clock, &desired, &None);
    assert!(seek);
    clock.seeked();
    assert!(matches!(
        traversal.frame(&mut clock, &desired, &None, Some(400_000), NOW),
        FrameStep::Traverse { publish: false, .. }
    ));
    // A reverse target that is still ahead of the frame takes over within the group of pictures.
    let mut newer = desired.clone();
    newer.request_id = 5;
    newer.source_tick = 450_000;
    let step = traversal.frame(
        &mut clock,
        &desired,
        &Some(MonitorCommand::Request(newer)),
        Some(450_000),
        NOW,
    );
    let FrameStep::Finish { stamp } = step else {
        panic!("the newer target is reached")
    };
    assert_eq!((stamp.request_id, stamp.target_tick), (5, 450_000));
}

#[test]
fn a_frame_without_a_timestamp_counts_as_the_target() {
    let mut clock = SessionClock::new();
    let mut desired = request("clip.mp4", 4);
    desired.source_tick = 77;
    let (mut traversal, _) = Traversal::begin(&clock, &desired, &None);
    let FrameStep::Finish { stamp } = traversal.frame(&mut clock, &desired, &None, None, NOW)
    else {
        panic!("an untimed frame finishes")
    };
    assert_eq!(stamp.source_tick, 77);
    assert_eq!(
        traversal.ended(&mut clock),
        "monitor decoder reached end of video before target"
    );
}

#[test]
fn only_a_request_of_the_same_generation_leaves_work_valid() {
    let current = request("clip.mp4", 1);
    let mut newer = current.clone();
    newer.source_tick = 5;
    assert!(!command_invalidates(&None, &current));
    let same = Some(MonitorCommand::Request(newer.clone()));
    assert!(!command_invalidates(&same, &current));
    assert_eq!(latest_same_generation(&same, &current), Some(newer.clone()));
    newer.width += 1;
    let other = Some(MonitorCommand::Request(newer));
    assert!(command_invalidates(&other, &current));
    assert_eq!(latest_same_generation(&other, &current), None);
    for command in [
        MonitorCommand::Cancel,
        MonitorCommand::Release,
        MonitorCommand::Shutdown,
    ] {
        assert!(command_invalidates(&Some(command), &current));
    }
}

#[test]
fn events_of_older_requests_are_dropped() {
    let mut slot = EventSlot::new();
    assert!(slot.publish(error_for(&request("a", 5))));
    assert!(!slot.publish(error_for(&request("a", 4))));
    assert!(slot.publish(error_for(&request("a", 5))));
    let Some(DecodeEvent::Error(error)) = slot.take() else {
        panic!("the newest result waits")
    };
    assert_eq!(error.request_id, 5);
    assert!(slot.take().is_none());
    assert!(!slot.publish(error_for(&request("a", 3))));
    assert!(slot.take().is_none());
}

#[test]
fn the_latest_request_wins_over_a_finished_one() {
    let served = request("clip.mp4", 1);
    let mut newer = served.clone();
    newer.request_id = 2;
    let settlement = settle(
        served.clone(),
        Some(error_for(&served)),
        false,
        Some(MonitorCommand::Request(newer.clone())),
    );
    assert!(settlement.publish.is_some());
    assert_eq!(settlement.next, Some(newer.clone()));
    // The result answers the newest request already.
    let settlement = settle(
        served.clone(),
        Some(error_for(&newer)),
        false,
        Some(MonitorCommand::Request(newer.clone())),
    );
    assert!(settlement.publish.is_some());
    assert!(settlement.next.is_none());
    // Output of an overtaken generation is dropped.
    newer.is_scrubbing = true;
    let settlement = settle(
        served.clone(),
        Some(error_for(&served)),
        false,
        Some(MonitorCommand::Request(newer.clone())),
    );
    assert!(settlement.publish.is_none());
    assert_eq!(settlement.next, Some(newer));
    let settlement = settle(served.clone(), None, true, None);
    assert!(settlement.wait);
    assert_eq!(settlement.next, Some(served.clone()));
    let settlement = settle(
        served.clone(),
        Some(error_for(&served)),
        false,
        Some(MonitorCommand::Shutdown),
    );
    assert!(settlement.stop && settlement.release_sessions && settlement.publish.is_none());
    let settlement = settle(served.clone(), Some(error_for(&served)), false, None);
    assert!(settlement.publish.is_some() && settlement.next.is_none());
}

#[test]
fn a_lane_takes_its_commands_in_order() {
    let mut lane = LaneScheduler::new(3);
    assert!(!lane.observe_reset(3));
    assert!(lane.observe_reset(4));
    assert!(!lane.observe_reset(4));
    assert!(matches!(LaneScheduler::receive(true, None), LaneStep::Stop));
    assert!(matches!(LaneScheduler::receive(false, None), LaneStep::Idle));
    assert!(matches!(
        LaneScheduler::receive(false, Some(MonitorCommand::Release)),
        LaneStep::ReleaseSessions
    ));
    let wanted = request("clip.mp4", 1);
    let LaneStep::Decode(taken) =
        LaneScheduler::receive(false, Some(MonitorCommand::Request(wanted.clone())))
    else {
        panic!("a request is decoded")
    };
    assert_eq!(taken, wanted);
    let settlement = lane.finish(taken, None, true, None);
    assert!(settlement.wait && settlement.next.is_none());
    assert_eq!(lane.take_pending(), Some(wanted));
    assert_eq!(lane.take_pending(), None);
}

fn actor() -> SourceLaneActor {
    SourceLaneActor::new(
        1,
        MonitorSourceKey::from_request(&request("a", 1)),
        MonitorSessionLane::Foreground,
    )
}

#[test]
fn dead_client_queue_entries_are_pruned_before_the_bounded_queue_saturates() {
    let mut shared = actor();
    for id in 0..(MAX_SOURCE_ACTOR_CLIENTS * 2) as u64 {
        shared.attach_client(id);
        assert!(shared.enqueue_client(id).is_ok());
        shared.detach_client(id);
    }
    shared.prune_dead_clients();
    assert!(shared.queued() < MAX_SOURCE_ACTOR_CLIENTS);
}

#[test]
fn a_full_queue_of_live_clients_defers() {
    let mut shared = actor();
    for id in 0..MAX_SOURCE_ACTOR_CLIENTS as u64 {
        shared.attach_client(id);
        assert!(shared.enqueue_client(id).is_ok());
        assert!(shared.enqueue_client(id).is_ok());
    }
    assert_eq!(shared.queued(), MAX_SOURCE_ACTOR_CLIENTS);
    shared.attach_client(1_000);
    assert_eq!(
        shared.enqueue_client(1_000),
        Err(DecoderClosed::SourceCapacityDeferred)
    );
    assert_eq!(shared.next_client(), Some(0));
    assert!(shared.enqueue_client(1_000).is_ok());
    assert!(!shared.detach_client(1));
    assert_eq!(shared.next_client(), None);
    assert_eq!(shared.next_client(), Some(2));
}

#[test]
fn source_coordinator_caps_groups_and_releases_weak_actor_entries() {
    let mut coordinator = MonitorSourceCoordinator::new(1);
    let first = request("first-source.mp4", 1);
    let first_key = MonitorSourceKey::from_request(&first);
    let LeaseOutcome::Start { client, .. } =
        coordinator.lease(&first_key, MonitorSessionLane::Foreground)
    else {
        panic!("first source actor")
    };
    assert_eq!(coordinator.diagnostics().live_source_groups, 1);
    let mut second = first.clone();
    second.path = source_path("second-source.mp4");
    let second_key = MonitorSourceKey::from_request(&second);
    assert_eq!(
        coordinator.lease(&second_key, MonitorSessionLane::Foreground),
        LeaseOutcome::Capacity
    );
    assert!(coordinator
        .end_lease(&first_key, MonitorSessionLane::Foreground, client)
        .is_some());
    assert_eq!(coordinator.diagnostics().live_source_groups, 0);
    assert!(matches!(
        coordinator.lease(&second_key, MonitorSessionLane::Foreground),
        LeaseOutcome::Start { .. }
    ));
}

#[test]
fn a_retiring_actor_keeps_its_place_until_it_is_joined() {
    let mut coordinator = MonitorSourceCoordinator::new(1);
    let key = MonitorSourceKey::from_request(&request("a.mp4", 1));
    let LeaseOutcome::Start { .. } = coordinator.lease(&key, MonitorSessionLane::Foreground) else {
        panic!("foreground actor")
    };
    let LeaseOutcome::Start { client, .. } = coordinator.lease(&key, MonitorSessionLane::Background)
    else {
        panic!("background actor")
    };
    assert!(coordinator
        .end_lease(&key, MonitorSessionLane::Background, client)
        .is_some());
    let seen = coordinator.diagnostics();
    assert_eq!((seen.live_lane_actors, seen.retiring_lane_actors), (1, 1));
    assert_eq!(seen.lane_actor_cap, 2);
    assert_eq!(
        coordinator.lease(&key, MonitorSessionLane::Background),
        LeaseOutcome::Capacity
    );
    coordinator.joined();
    assert!(matches!(
        coordinator.lease(&key, MonitorSessionLane::Background),
        LeaseOutcome::Start { .. }
    ));
}

#[test]
fn a_second_client_shares_the_actor_of_its_source() {
    let mut coordinator = MonitorSourceCoordinator::new(1);
    let key = MonitorSourceKey::from_request(&request("a.mp4", 1));
    let LeaseOutcome::Start { actor, client } =
        coordinator.lease(&key, MonitorSessionLane::Foreground)
    else {
        panic!("first client starts the actor")
    };
    let LeaseOutcome::Existing {
        actor: shared,
        client: second,
    } = coordinator.lease(&key, MonitorSessionLane::Foreground)
    else {
        panic!("second client shares the actor")
    };
    assert_eq!(actor, shared);
    assert_ne!(client, second);
    assert_eq!(
        coordinator.end_lease(&key, MonitorSessionLane::Foreground, client),
        None
    );
    assert_eq!(
        coordinator.enqueue(&key, MonitorSessionLane::Foreground, second),
        Ok(actor)
    );
    assert_eq!(
        coordinator.next_client(&key, MonitorSessionLane::Foreground),
        Some(second)
    );
    assert_eq!(
        coordinator.end_lease(&key, MonitorSessionLane::Foreground, second),
        Some(actor)
    );
    assert_eq!(
        coordinator.enqueue(&key, MonitorSessionLane::Foreground, second),
        Err(DecoderClosed::Closed)
    );
}

/// Runs a command through an endpoint whose actors all start and wake.
fn deliver(
    decoder: &mut MonitorDecoder,
    coordinator: &mut MonitorSourceCoordinator,
    send: LaneSend,
) -> Result<(), DecoderClosed> {
    let index = send.index;
    let speculative = send.speculative;
    let cancelling = matches!(send.command, MonitorCommand::Cancel);
    let (step, _) = decoder.send(coordinator, send);
    let step = match step {
        SendStep::Start {
            client, request, ..
        } => decoder
            .endpoint_mut(index)
            .started(coordinator, index, client, request, speculative),
        step => step,
    };
    let step = match step {
        SendStep::Wake { .. } => {
            decoder
                .endpoint_mut(index)
                .woken(coordinator, cancelling, true)
                .0
        }
        step => step,
    };
    match step {
        SendStep::Done { result, .. } => result,
        _ => panic!("the command was not delivered"),
    }
}

fn deliver_all(
    decoder: &mut MonitorDecoder,
    coordinator: &mut MonitorSourceCoordinator,
    sends: Vec<LaneSend>,
) -> Vec<Result<(), DecoderClosed>> {
    sends
        .into_iter()
        .map(|send| deliver(decoder, coordinator, send))
        .collect()
}

#[test]
fn prewarm_preserves_source_capacity_deferred_outcome() {
    let mut coordinator = MonitorSourceCoordinator::new(0);
    let mut decoder = MonitorDecoder::new_with_source_coordinator();
    let mut request = request("deferred-prewarm.mp4", 1171);
    request.prewarm_scrub_workers = true;
    let sends = decoder.request(request);
    assert_eq!(sends.len(), MONITOR_WORKER_COUNT);
    let results = deliver_all(&mut decoder, &mut coordinator, sends);
    assert_eq!(
        request_outcome(&results),
        Err(DecoderClosed::SourceCapacityDeferred)
    );
}

#[test]
fn cancel_clears_a_deferred_source_request_before_retry() {
    let mut coordinator = MonitorSourceCoordinator::new(1);
    let mut first = MonitorDecoder::new_with_source_coordinator();
    let mut second = MonitorDecoder::new_with_source_coordinator();
    let sends = first.request(request("first.mp4", 1151));
    assert_eq!(
        request_outcome(&deliver_all(&mut first, &mut coordinator, sends)),
        Ok(())
    );
    let mut deferred = request("second.mp4", 1152);
    deferred.media_id = 4;
    let sends = second.request(deferred);
    assert_eq!(
        request_outcome(&deliver_all(&mut second, &mut coordinator, sends)),
        Err(DecoderClosed::SourceCapacityDeferred)
    );
    assert_eq!(second.retry_deferred_requests().len(), 1);
    let sends = second.cancel_pending();
    assert_eq!(
        control_outcome(&deliver_all(&mut second, &mut coordinator, sends)),
        Ok(())
    );
    let sends = first.release_live_sessions();
    assert_eq!(
        control_outcome(&deliver_all(&mut first, &mut coordinator, sends)),
        Ok(())
    );
    assert!(second.retry_deferred_requests().is_empty());
    assert!(second.try_recv().unwrap().is_none());
}

#[test]
fn deferred_live_sessions_yield_capacity_and_retry_the_latest_request() {
    let mut coordinator = MonitorSourceCoordinator::new(1);
    let mut first = MonitorDecoder::new_with_source_coordinator();
    let mut second = MonitorDecoder::new_with_source_coordinator();
    let mut first_request = request("first.mp4", 1161);
    let sends = first.request(first_request.clone());
    deliver_all(&mut first, &mut coordinator, sends);
    first_request.request_id = 1162;
    first_request.source_tick = 100_000;
    let sends = first.request(first_request.clone());
    deliver_all(&mut first, &mut coordinator, sends);

    let yielded = first.defer_live_sessions(&mut coordinator);
    assert!(yielded.yielded);
    assert_eq!(yielded.retired.len(), 1);
    assert!(yielded.sends.is_empty());
    coordinator.joined();
    assert_eq!(coordinator.diagnostics().live_source_groups, 0);

    let mut second_request = request("second.mp4", 1163);
    second_request.media_id = 4;
    let sends = second.request(second_request);
    assert_eq!(
        request_outcome(&deliver_all(&mut second, &mut coordinator, sends)),
        Ok(())
    );
    let seen = coordinator.diagnostics();
    assert!(seen.live_source_groups <= seen.source_group_cap);
    assert!(seen.live_lane_actors + seen.retiring_lane_actors <= seen.lane_actor_cap);
    let retries = first.retry_deferred_requests();
    assert_eq!(
        retry_outcome(&deliver_all(&mut first, &mut coordinator, retries)),
        Err(DecoderClosed::SourceCapacityDeferred)
    );

    assert!(second.defer_live_sessions(&mut coordinator).yielded);
    let sends = second.cancel_pending();
    deliver_all(&mut second, &mut coordinator, sends);
    coordinator.joined();
    let retries = first.retry_deferred_requests();
    assert_eq!(retries.len(), 1);
    let MonitorCommand::Request(retried) = &retries[0].command else {
        panic!("a retry is a request")
    };
    assert_eq!(*retried, first_request);
    assert_eq!(
        retry_outcome(&deliver_all(&mut first, &mut coordinator, retries)),
        Ok(())
    );
    assert!(first.retry_deferred_requests().is_empty());
}

#[test]
fn speculative_release_reclaims_background_before_foreground() {
    let mut coordinator = MonitorSourceCoordinator::new(1);
    let mut decoder = MonitorDecoder::new_with_source_coordinator();
    let mut prewarm = request("clip.mp4", 1);
    prewarm.prewarm_scrub_workers = true;
    let sends = decoder.request(prewarm);
    assert_eq!(
        request_outcome(&deliver_all(&mut decoder, &mut coordinator, sends)),
        Ok(())
    );
    assert_eq!(coordinator.diagnostics().live_lane_actors, 2);
    let (released, retired) = decoder.release_speculative_sessions(&mut coordinator);
    assert!(released);
    assert_eq!(retired.len(), 1);
    assert!(decoder.endpoint(0).holds_lease());
    for index in 1..MONITOR_WORKER_COUNT {
        assert!(!decoder.endpoint(index).holds_lease());
    }
    let (released, retired) = decoder.release_speculative_sessions(&mut coordinator);
    assert!(!released && retired.is_empty());
}

#[test]
fn speculative_release_preserves_visible_reverse_scrub_lane() {
    let mut coordinator = MonitorSourceCoordinator::new(1);
    let mut decoder = MonitorDecoder::new_with_source_coordinator();
    let mut forward = request("clip.mp4", 1200);
    forward.is_scrubbing = true;
    forward.source_tick = 200_000;
    let sends = decoder.request(forward.clone());
    assert_eq!(sends[0].index, 0);
    deliver_all(&mut decoder, &mut coordinator, sends);
    let mut reverse = forward;
    reverse.request_id = 1203;
    reverse.source_tick = 0;
    let sends = decoder.request(reverse);
    assert_eq!(sends[0].index, 3);
    assert!(!sends[0].speculative);
    deliver_all(&mut decoder, &mut coordinator, sends);
    let (released, _) = decoder.release_speculative_sessions(&mut coordinator);
    assert!(!released);
    assert!(decoder.endpoint(3).holds_lease());
}

#[test]
fn an_actor_that_does_not_start_is_reported_and_forgotten() {
    let mut coordinator = MonitorSourceCoordinator::new(1);
    let mut endpoint = CoordinatorEndpoint::new();
    let wanted = request("clip.mp4", 4);
    let (step, retired) = endpoint.send(
        &mut coordinator,
        0,
        MonitorCommand::Request(wanted.clone()),
        false,
    );
    assert!(retired.is_none());
    let SendStep::Start { request, .. } = step else {
        panic!("the first lease starts an actor")
    };
    let DecodeEvent::Error(error) =
        endpoint.start_failed(&mut coordinator, 0, &request, "no threads".to_owned())
    else {
        panic!("a failed start is an error")
    };
    assert_eq!(error.request_id, 4);
    assert_eq!(error.message, "no threads");
    assert_eq!(coordinator.diagnostics().live_lane_actors, 0);
    assert_eq!(coordinator.diagnostics().retiring_lane_actors, 0);
    assert!(!endpoint.holds_lease());
}

#[test]
fn a_dead_actor_closes_the_lane() {
    let mut coordinator = MonitorSourceCoordinator::new(1);
    let mut endpoint = CoordinatorEndpoint::new();
    let (step, _) = endpoint.send(
        &mut coordinator,
        0,
        MonitorCommand::Request(request("clip.mp4", 4)),
        false,
    );
    let SendStep::Start {
        client, request, ..
    } = step
    else {
        panic!("the first lease starts an actor")
    };
    let SendStep::Wake { actor } =
        endpoint.started(&mut coordinator, 0, client, request, false)
    else {
        panic!("a started actor is woken")
    };
    let (step, retired) = endpoint.woken(&mut coordinator, false, false);
    assert_eq!(retired, Some(actor));
    let SendStep::Done {
        result: Err(DecoderClosed::Closed),
        session_ended: true,
    } = step
    else {
        panic!("a dead actor closes the lane")
    };
    assert!(!endpoint.holds_lease());
}

#[test]
fn an_actor_serves_its_client_and_requeues_what_is_left() {
    let mut coordinator = MonitorSourceCoordinator::new(1);
    let mut decoder = MonitorDecoder::new_with_source_coordinator();
    let wanted = request("clip.mp4", 4);
    let sends = decoder.request(wanted.clone());
    deliver_all(&mut decoder, &mut coordinator, sends);
    let key = MonitorSourceKey::from_request(&wanted);
    let client = coordinator
        .next_client(&key, MonitorSessionLane::Foreground)
        .expect("a client waits");
    let endpoint = decoder.endpoint_mut(0);
    assert_eq!(endpoint.take_request(client), Some(wanted.clone()));
    assert!(endpoint.waiting_command(client).is_none());
    assert!(matches!(
        endpoint.waiting_command(client + 1),
        Some(MonitorCommand::Release)
    ));
    let settlement = endpoint.settle_client(client, wanted.clone(), None, true);
    assert!(settlement.requeue && settlement.wait && settlement.publish.is_none());
    assert_eq!(endpoint.take_request(client), Some(wanted.clone()));
    let settlement = endpoint.settle_client(client, wanted.clone(), Some(error_for(&wanted)), false);
    assert!(!settlement.requeue && settlement.publish.is_some());
    let settlement = endpoint.settle_client(client + 1, wanted.clone(), Some(error_for(&wanted)), false);
    assert!(settlement.publish.is_none());
}

#[test]
fn a_lane_without_a_coordinator_keeps_its_latest_command() {
    let mut decoder = MonitorDecoder::new();
    decoder.post(1, MonitorCommand::Request(request("a.mp4", 1)));
    decoder.post(1, MonitorCommand::Release);
    assert!(matches!(
        decoder.waiting_command(1),
        Some(MonitorCommand::Release)
    ));
    assert!(decoder.waiting_command(0).is_none());
    assert!(matches!(
        decoder.take_command(1),
        Some(MonitorCommand::Release)
    ));
    assert!(decoder.take_command(1).is_none());
    let mut none = MonitorSourceCoordinator::new(0);
    let deferred = decoder.defer_live_sessions(&mut none);
    assert!(!deferred.yielded);
    assert_eq!(deferred.sends.len(), MONITOR_WORKER_COUNT);
    assert!(decoder.retry_deferred_requests().is_empty());
}

#[test]
fn resets_are_counted_and_released() {
    let mut decoder = MonitorDecoder::default();
    let sends = decoder.reset_live_cache();
    assert_eq!(decoder.cache_reset_generation(), 1);
    assert_eq!(sends.len(), MONITOR_WORKER_COUNT);
    assert!(sends
        .iter()
        .enumerate()
        .all(|(index, send)| send.index == index
            && matches!(send.command, MonitorCommand::Release)));
}

#[test]
fn outcomes_of_lanes_are_combined() {
    let closed = Err(DecoderClosed::Closed);
    let deferred = Err(DecoderClosed::SourceCapacityDeferred);
    assert_eq!(request_outcome(&vec![Ok(()), deferred, closed, deferred]), closed);
    assert_eq!(request_outcome(&vec![Ok(()), deferred]), deferred);
    assert_eq!(request_outcome(&vec![]), Ok(()));
    assert_eq!(control_outcome(&vec![Ok(()), deferred]), closed);
    assert_eq!(control_outcome(&vec![Ok(()), Ok(())]), Ok(()));
    assert_eq!(retry_outcome(&vec![closed, deferred, Ok(())]), deferred);
    assert_eq!(retry_outcome(&vec![Ok(())]), Ok(()));
}

#[test]
fn refusals_have_their_texts() {
    assert_eq!(
        DecoderClosed::Closed.message(),
        "monitor decoder scheduler has stopped"
    );
    assert_eq!(
        DecoderClosed::SourceCapacityDeferred.message(),
        "monitor source capacity is temporarily deferred"
    );
}

#[test]
fn a_published_event_is_received_once() {
    let mut decoder = MonitorDecoder::new();
    assert!(decoder.publish(error_for(&request("a.mp4", 3))));
    assert!(!decoder.publish(error_for(&request("a.mp4", 2))));
    assert!(decoder.try_recv().unwrap().is_some());
    assert!(decoder.try_recv().unwrap().is_none());
    decoder.publish_worker_session(2, true);
    let seen = decoder.diagnostics(MonitorFrameCachePoolDiagnostics::default());
    assert_eq!(seen.active_sticky_sessions, 1);
}

#[test]
fn requests_name_one_source_however_their_path_is_spelled() {
    let plain = request("media/clip.mp4", 1);
    let doubled = request("media//./clip.mp4", 2);
    assert!(same_decode_generation(&plain, &doubled));
    assert!(MonitorSourceKey::from_request(&plain)
        .same_source(&MonitorSourceKey::from_request(&doubled)));
    assert!(!same_decode_generation(
        &plain,
        &request("media/other.mp4", 3)
    ));
}
