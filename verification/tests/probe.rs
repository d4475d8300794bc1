use maelstrom::decode::request::DecodeBackend;
use maelstrom::probe::configuration::{Configuration, ReportFacts, SourceFacts};
use maelstrom::probe::distribution::distribution;
use maelstrom::probe::input::{BackendInputObservation, InputEventKind};
use maelstrom::probe::session::{
    frame_matches, source_tick_reaches_target, AcceptedLayer, InjectStep, LayerTarget,
    PresentationEvidence, Probe, ProbeFailure, MEASURED_SAMPLES, TOTAL_SAMPLES, WARMUP_SAMPLES,
};
use std::collections::HashSet;

const SECOND: u64 = 1_000_000_000;

fn target(slot: usize, request_id: u64, tick: i64) -> LayerTarget {
    LayerTarget {
        slot,
        media_id: slot as u32 + 1,
        clip_id: slot as u32 + 1,
        generation: 3,
        request_id,
        requested_source_tick: tick,
        output_width: 1920,
        output_height: 1080,
    }
}

fn layer(slot: usize, request_id: u64, tick: i64, upload_serial: u64) -> AcceptedLayer {
    AcceptedLayer {
        slot,
        media_id: slot as u32 + 1,
        clip_id: slot as u32 + 1,
        generation: 3,
        request_id,
        source_tick: tick,
        output_width: 1920,
        output_height: 1080,
        backend: None,
        upload_serial,
        input_to_upload_nanos: 0,
    }
}

fn evidence(painted_upload_serials: [Option<u64>; 4], paint_serial: u64) -> PresentationEvidence {
    PresentationEvidence {
        upload_serials: [0; 4],
        painted_upload_serials,
        paint_serial,
    }
}

fn armed(source_count: usize) -> Probe {
    let mut probe = Probe::new(source_count, 0);
    probe.arm(true, &vec![Some((1920, 1080)); source_count], 7);
    assert_eq!(probe.failure(), None);
    assert_eq!(probe.inject_input(true, false), InjectStep::Press);
    probe
}

#[test]
fn phase1_ui_backend_motion_during_wait_preserves_failed_sample_evidence() {
    let mut probe = armed(1);
    let target_tick = 500_000;
    let InjectStep::Move { index: 0, .. } = probe.inject_input(true, true) else {
        panic!("the first motion is injected")
    };
    probe.begin_sample(target_tick, 10);
    probe.ui_complete(target_tick, 7, true, 20);
    probe.check_editor_state(7, true, target_tick);
    probe.targets(vec![target(0, 1, target_tick)]);
    probe.decoded(layer(0, 1, target_tick, 1), 30);
    probe.presented(500_000, &evidence([None; 4], 0), 40);
    assert!(probe.failure().is_none());
    assert!(probe.observes_input(true));
    assert_eq!(probe.inject_input(true, true), InjectStep::Nothing);
    probe.check_editor_state(7, true, target_tick + 1);
    assert!(probe
        .failure()
        .unwrap()
        .message()
        .contains("ruler target changed"));
    // Even an eligible paint arriving on the failure frame must not consume the failed
    // sample or erase the evidence needed to explain the unscripted movement.
    probe.presented(500_000, &evidence([Some(1), None, None, None], 1), 50);
    assert_eq!(probe.sample_count(), 0);
    let pending = probe.pending().expect("the failed sample stays");
    assert_eq!(pending.sample.playhead_tick, target_tick);
    let summary = probe.summary();
    assert!(!summary.complete && !summary.budgets_passed);
    let mut observation = BackendInputObservation::capture(
        &vec![InputEventKind::PointerMoved],
        true,
        target_tick,
        true,
        45,
        Some(pending.sample.index),
    );
    observation.observe_outcome(target_tick + 1, true, false);
    assert_eq!(observation.pointer_moves, 1);
    assert_eq!(observation.playhead_before, target_tick);
    assert_eq!(observation.playhead_after, Some(target_tick + 1));
    assert!(!observation.injected_motion);
    assert_eq!(observation.pending_sample_index, Some(0));
}

#[test]
fn phase1_ui_backend_input_summary_is_bounded_and_omits_private_payloads() {
    let observation = BackendInputObservation::capture(
        &vec![InputEventKind::Other; 10_000],
        false,
        0,
        false,
        0,
        Some(0),
    );
    assert_eq!(observation.event_count, 10_000);
    assert_eq!(observation.other_events, 10_000);
    assert_eq!(observation.last_pointer_event, None);
}

#[test]
fn every_kind_of_input_is_counted() {
    let observation = BackendInputObservation::capture(
        &vec![
            InputEventKind::PointerMoved,
            InputEventKind::PointerButton,
            InputEventKind::MouseMoved,
            InputEventKind::WindowFocused,
            InputEventKind::MouseMoved,
        ],
        true,
        0,
        true,
        3,
        None,
    );
    assert_eq!(observation.pointer_moves, 1);
    assert_eq!(observation.pointer_buttons, 1);
    assert_eq!(observation.relative_mouse_moves, 2);
    assert_eq!(observation.focus_events, 1);
    assert_eq!(observation.other_events, 0);
    assert_eq!(observation.last_pointer_event, Some(1));
}

fn configuration(count: usize) -> (Configuration, ReportFacts, Vec<SourceFacts>) {
    let paths: Vec<String> = (0..count)
        .map(|index| format!("/work/source-{index}.mp4"))
        .collect();
    let facts = paths
        .iter()
        .map(|path| SourceFacts {
            is_absolute: true,
            is_file: true,
            canonical: Ok(path.clone()),
        })
        .collect();
    (
        Configuration {
            schema_version: 1,
            run_id: "headless-regression".to_owned(),
            source_paths: paths,
            report_path: "/work/report.json".to_owned(),
            adapter_class: "DiscreteGpu".to_owned(),
        },
        ReportFacts {
            is_absolute: true,
            has_json_extension: true,
            exists: false,
        },
        facts,
    )
}

#[test]
fn phase1_ui_configuration_rejects_reused_reports_and_aliased_sources() {
    let (mut config, report, mut facts) = configuration(4);
    assert!(config.validate(&report, &facts).is_ok());
    facts[3].canonical = facts[0].canonical.clone();
    assert!(config.validate(&report, &facts).is_err());
    config.source_paths.truncate(1);
    facts.truncate(1);
    let reused = ReportFacts {
        exists: true,
        ..report
    };
    assert!(config.validate(&reused, &facts).is_err());
}

#[test]
fn each_configuration_fault_is_named() {
    let fault = |change: fn(&mut Configuration, &mut ReportFacts, &mut Vec<SourceFacts>)| {
        let (mut config, mut report, mut facts) = configuration(4);
        change(&mut config, &mut report, &mut facts);
        config.validate(&report, &facts).unwrap_err()
    };
    assert_eq!(
        fault(|config, _, _| config.schema_version = 2),
        "schema 1 requires one or four sources"
    );
    assert_eq!(
        fault(|config, _, facts| {
            config.source_paths.truncate(2);
            facts.truncate(2);
        }),
        "schema 1 requires one or four sources"
    );
    for run_id in ["", "with space", "\u{e9}", &"x".repeat(81)] {
        let (mut config, report, facts) = configuration(1);
        config.run_id = run_id.to_owned();
        assert_eq!(
            config.validate(&report, &facts).unwrap_err(),
            "invalid run identity"
        );
    }
    assert_eq!(
        fault(|config, _, _| config.adapter_class = "Cpu".to_owned()),
        "an explicit integrated/discrete adapter class is required"
    );
    assert_eq!(
        fault(|_, report, _| report.has_json_extension = false),
        "report must be an absolute JSON path"
    );
    assert_eq!(
        fault(|_, _, facts| facts[2].is_file = false),
        "all sources must be existing absolute file paths"
    );
    assert_eq!(
        fault(|_, _, facts| facts[1].canonical = Err("access denied".to_owned())),
        "access denied"
    );
    assert_eq!(
        fault(|_, _, facts| {
            facts[0].canonical = Ok("/Work/\u{c4}.MP4".to_owned());
            facts[3].canonical = Ok("/work/\u{e4}.mp4".to_owned());
        }),
        "source files must be independent paths"
    );
    assert_eq!(
        fault(|_, report, _| report.exists = true),
        "report already exists; use a fresh run directory"
    );
}

#[test]
fn phase1_ui_real_ruler_input_waits_for_each_exact_painted_upload() {
    let mut probe = armed(4);
    let mut now = 1_000;
    for index in 0..TOTAL_SAMPLES {
        let step = probe.inject_input(true, true);
        assert_eq!(
            step,
            InjectStep::Move {
                index,
                position: 1 + index * 37 % 149
            }
        );
        let requested_tick = index as i64 * 1_000;
        probe.begin_sample(requested_tick, now);
        probe.ui_complete(requested_tick, 7, true, now + 100);
        assert!(probe.failure().is_none(), "{:?}", probe.failure());
        assert!(probe.wants_targets());
        probe.targets(
            (0..4)
                .map(|slot| target(slot, index as u64 + 1, requested_tick))
                .collect(),
        );
        assert!(!probe.wants_targets());
        let serial = |slot: usize| (index * 4 + slot + 1) as u64;
        for slot in 0..4 {
            probe.decoded(
                layer(slot, index as u64 + 1, requested_tick, serial(slot)),
                now + 200,
            );
        }
        let mut painted: [Option<u64>; 4] = std::array::from_fn(|slot| Some(serial(slot)));
        // A previous/omitted fourth layer must not complete a multi-source sample.
        painted[3] = Some(0);
        probe.presented(500_000, &evidence(painted, index as u64 + 1), now + 300);
        assert_eq!(probe.sample_count(), index);
        painted[3] = Some(serial(3));
        probe.presented(500_000, &evidence(painted, index as u64 + 1), now + 400);
        assert_eq!(probe.sample_count(), index + 1);
        now += 1_000;
    }
    assert_eq!(probe.inject_input(true, true), InjectStep::Release);
    assert!(probe.is_over());
    let summary = probe.summary();
    assert!(summary.complete && summary.budgets_passed);
    assert_eq!(summary.input_to_ui_cpu.samples, MEASURED_SAMPLES);
    assert_eq!(summary.input_to_ui_cpu.p95_nanos, 100);
    assert_eq!(summary.full_cpu_frame.max_nanos, 500_000);
    assert_eq!(summary.matching_layers_to_surface.p50_nanos, 400);
    for index in 0..TOTAL_SAMPLES {
        let sample = probe.sample(index);
        assert_eq!(sample.playhead_tick, sample.expected_playhead_tick);
        assert_eq!(sample.warmup, index < WARMUP_SAMPLES);
        assert_eq!(sample.layers.len(), 4);
        assert_eq!(sample.layers[2].input_to_upload_nanos, 200);
        assert_eq!(sample.input_to_surface_submission_nanos, 300);
    }
    probe.mark_reported();
    assert!(probe.is_reported());
    assert_eq!(probe.inject_input(true, true), InjectStep::Nothing);
}

#[test]
fn phase1_ui_timeout_preserves_failure_and_joins_writer() {
    let mut probe = Probe::new(1, 0);
    probe.presented(0, &evidence([None; 4], 0), 151 * SECOND);
    assert_eq!(probe.failure(), Some(ProbeFailure::RunTimedOut));
    assert!(probe.is_over());
    let summary = probe.summary();
    assert!(!summary.complete && !summary.budgets_passed);
    assert!(probe.failure().unwrap().message().contains("150 seconds"));
}

#[test]
fn phase1_ui_failed_report_preserves_pending_mismatch_without_completing_sample() {
    let mut probe = armed(1);
    let _ = probe.inject_input(true, true);
    probe.begin_sample(5_000, 0);
    probe.ui_complete(5_000, 7, true, 1);
    probe.targets(vec![LayerTarget {
        slot: 0,
        media_id: 1,
        clip_id: 2,
        generation: 3,
        request_id: 4,
        requested_source_tick: 5_000,
        output_width: 1920,
        output_height: 1080,
    }]);
    probe.decoded(
        AcceptedLayer {
            slot: 0,
            media_id: 99,
            clip_id: 2,
            generation: 3,
            request_id: 4,
            source_tick: 5_000,
            output_width: 1920,
            output_height: 1080,
            backend: None,
            upload_serial: 42,
            input_to_upload_nanos: 0,
        },
        2,
    );
    probe.presented(500_000, &evidence([Some(42), None, None, None], 19), 6 * SECOND);
    assert!(probe
        .failure()
        .unwrap()
        .message()
        .contains("sample 0 timed out"));
    assert_eq!(probe.sample_count(), 0);
    assert_eq!(probe.summary().input_to_ui_cpu.samples, 0);
    let pending = probe.pending().unwrap();
    assert_eq!(pending.sample.targets[0].media_id, 1);
    assert_eq!(pending.last_observed[0].unwrap().media_id, 99);
    assert!(pending.accepted[0].is_none());
}

#[test]
fn phase1_ui_layer_evidence_requires_exact_identity_and_full_output() {
    let target = LayerTarget {
        slot: 0,
        media_id: 1,
        clip_id: 1,
        generation: 7,
        request_id: 9,
        requested_source_tick: 1_000_000,
        output_width: 1920,
        output_height: 1080,
    };
    let mut frame = AcceptedLayer {
        slot: 0,
        media_id: 1,
        clip_id: 1,
        generation: 7,
        request_id: 9,
        source_tick: 1_000_000,
        output_width: 1920,
        output_height: 1080,
        backend: None,
        upload_serial: 12,
        input_to_upload_nanos: 1_000_000,
    };
    assert!(frame_matches(&target, &frame));
    frame.generation = 6;
    assert!(!frame_matches(&target, &frame));
    frame.generation = 7;
    frame.request_id = 8;
    assert!(!frame_matches(&target, &frame));
    frame.request_id = 9;
    frame.media_id = 2;
    assert!(!frame_matches(&target, &frame));
    frame.media_id = 1;
    frame.clip_id = 2;
    assert!(!frame_matches(&target, &frame));
    frame.clip_id = 1;
    (frame.output_width, frame.output_height) = (640, 360);
    assert!(!frame_matches(&target, &frame));
    (frame.output_width, frame.output_height) = (1920, 1080);
    // The decoder rounds PTS while source-frame requests round upward.
    frame.source_tick = 999_999;
    assert!(frame_matches(&target, &frame));
    frame.source_tick = 999_998;
    assert!(!frame_matches(&target, &frame));
    frame.source_tick = 1_033_335;
    assert!(!frame_matches(&target, &frame));
    frame.source_tick = 1_033_334;
    assert!(frame_matches(&target, &frame));
    frame.upload_serial = 0;
    assert!(!frame_matches(&target, &frame));
}

#[test]
fn phase1_ui_percentiles_use_nearest_rank() {
    let d = distribution(&(1..=40).collect());
    assert_eq!(
        (d.samples, d.p50_nanos, d.p95_nanos, d.max_nanos),
        (40, 20, 38, 40)
    );
    let ticks: HashSet<_> = (0..TOTAL_SAMPLES)
        .map(|index| 1 + index * 37 % 149)
        .collect();
    assert_eq!(ticks.len(), TOTAL_SAMPLES);
}

#[test]
fn percentiles_do_not_depend_on_the_order() {
    let d = distribution(&vec![9, 1, 5, 5, 2]);
    assert_eq!((d.p50_nanos, d.p95_nanos, d.max_nanos), (5, 9, 9));
    let d = distribution(&Vec::new());
    assert_eq!((d.samples, d.p50_nanos, d.max_nanos), (0, 0, 0));
    let d = distribution(&vec![7]);
    assert_eq!((d.p50_nanos, d.p95_nanos, d.max_nanos), (7, 7, 7));
}

#[test]
fn one_tick_before_the_target_reaches_it() {
    assert!(source_tick_reaches_target(999_999, 1_000_000));
    assert!(!source_tick_reaches_target(999_998, 1_000_000));
    assert!(source_tick_reaches_target(i64::MIN, i64::MIN));
}

#[test]
fn unverified_sources_fail_the_measurement() {
    let mut probe = Probe::new(1, 0);
    probe.arm(false, &vec![], 1);
    assert_eq!(probe.failure(), None);
    assert_eq!(probe.inject_input(true, true), InjectStep::Nothing);
    probe.arm(true, &vec![Some((1280, 720))], 1);
    assert_eq!(probe.failure(), Some(ProbeFailure::SourcesNotVerified));
}

#[test]
fn a_gesture_that_is_not_acquired_fails() {
    let mut probe = armed(1);
    assert_eq!(probe.inject_input(false, true), InjectStep::Nothing);
    assert_eq!(probe.failure(), None);
    assert_eq!(probe.inject_input(true, false), InjectStep::Nothing);
    assert_eq!(probe.failure(), Some(ProbeFailure::GestureNotAcquired));
}

#[test]
fn foreign_changes_fail_the_measurement() {
    let mut probe = armed(1);
    probe.check_editor_state(8, true, 0);
    assert_eq!(probe.failure(), Some(ProbeFailure::TimelineChanged));
    let mut probe = armed(1);
    let _ = probe.inject_input(true, true);
    probe.begin_sample(10, 0);
    probe.ui_complete(11, 7, true, 1);
    assert_eq!(probe.failure(), Some(ProbeFailure::UnexpectedPlayhead));
    let mut probe = armed(1);
    let _ = probe.inject_input(true, true);
    probe.begin_sample(10, 0);
    probe.targets(vec![LayerTarget {
        output_width: 640,
        ..target(0, 1, 10)
    }]);
    assert_eq!(probe.failure(), Some(ProbeFailure::UnexpectedTargets));
}

#[test]
fn a_layer_remembers_its_backend() {
    let mut probe = armed(1);
    let _ = probe.inject_input(true, true);
    probe.begin_sample(10, 0);
    probe.decoded(
        AcceptedLayer {
            backend: Some(DecodeBackend::Nvidia),
            ..layer(2, 1, 10, 5)
        },
        4,
    );
    let pending = probe.pending().unwrap();
    assert_eq!(
        pending.last_observed[2].unwrap().backend,
        Some(DecodeBackend::Nvidia)
    );
    assert_eq!(pending.last_observed[2].unwrap().input_to_upload_nanos, 4);
}
