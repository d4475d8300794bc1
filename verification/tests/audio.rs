use maelstrom::audio::clock::{
    advance_device_clock, lane_capacity_samples, playback_source_tick, sample_duration_ticks,
    stale_frames_to_skip,
};
use maelstrom::audio::counters::{
    AudioCallbackCpuTiming, AudioRuntimeDiagnostics, CallbackTally, MissedCallbacks,
};
use maelstrom::audio::engine::AudioEngine;
use maelstrom::audio::lock::{
    lock_step, settle_attempt, try_lock_callback, LockAttempt, LockStep,
    CALLBACK_LOCK_TRY_ATTEMPTS,
};
use maelstrom::audio::meter::AudioMeter;
use maelstrom::audio::mixer::{Lane, LaneFrame, Mixer, MAX_DECODED_AUDIO_FRAME_SAMPLES};
use maelstrom::audio::scheduler::{AudioWorker, DecodeJob, LaneWork, RoundEnd, SchedulerState};
use maelstrom::audio::session::{
    check_frame_size, may_decode, output_start_tick, preroll_samples, session_action, AudioSession,
    PacketDrain, PacketEnd, SessionAction, FORWARD_REUSE_TICKS,
};
use maelstrom::audio::target::{
    clip_fades, same_effects, transition_stage, AudioProcessorSpec, AudioTarget,
    AudioTransitionEnvelope, AudioTransitionRole, FadeProgress, LaneKey, Level, TransitionStage,
};
use maelstrom::source_path::{PathPart, SourcePath};
use std::path::{Component, Path};
use std::sync::Mutex;

fn level(value: f32) -> Level {
    Level {
        bits: value.to_bits(),
    }
}

fn number(level: Level) -> f32 {
    f32::from_bits(level.bits)
}

fn levels(values: &[f32]) -> Vec<Level> {
    values.iter().copied().map(level).collect()
}

fn source_path(text: &str) -> SourcePath {
    let parts = Path::new(text)
        .components()
        .map(|component| match component {
            Component::Prefix(prefix) => {
                PathPart::Prefix(prefix.as_os_str().to_str().unwrap().to_owned())
            }
            Component::RootDir => PathPart::RootDir,
            Component::CurDir => PathPart::CurDir,
            Component::ParentDir => PathPart::ParentDir,
            Component::Normal(name) => PathPart::Normal(name.to_str().unwrap().to_owned()),
        })
        .collect();
    SourcePath { parts }
}

fn target(track_id: u32, clip_id: u32, path: &str) -> AudioTarget {
    AudioTarget {
        track_id,
        clip_id,
        path: source_path(path),
        source_tick: 0,
        clip_tick: 0,
        gain_db: level(0.0),
        gain_left_db: level(0.0),
        gain_right_db: level(0.0),
        pan: level(0.0),
        effects: Vec::new(),
        fade_in_ticks: 0,
        fade_in_curve: level(0.0),
        fade_out_ticks: 0,
        fade_out_curve: level(0.0),
        clip_duration_ticks: 10_000_000,
        transition: None,
    }
}

fn key(track_id: u32, clip_id: u32) -> LaneKey {
    LaneKey { track_id, clip_id }
}

fn bare_lane(track_id: u32, clip_id: u32, samples: &[f32]) -> Lane {
    let mut lane = Lane::new(key(track_id, clip_id));
    for sample in samples {
        lane.push_sample(level(*sample));
    }
    lane
}

fn clip_lane(target: &AudioTarget, samples: &[f32]) -> Lane {
    let mut lane = Lane::joining(target, 0);
    for sample in samples {
        lane.push_sample(level(*sample));
    }
    lane
}

fn mixer_of(lanes: Vec<Lane>) -> Mixer {
    let mut mixer = Mixer::new();
    for lane in lanes {
        mixer.put_lane(lane);
    }
    mixer
}

fn queued(mixer: &Mixer, key: LaneKey) -> Vec<f32> {
    let lane = mixer.lane(key).expect("active lane");
    (0..lane.queued()).map(|i| number(lane.sample(i))).collect()
}

fn shaped(progress: FadeProgress) -> f32 {
    (progress.elapsed as f32 / progress.duration as f32).clamp(0.0, 1.0)
}

/// The level that a lane's clip gives to its frame, with straight fades and equal power.
fn envelope(mixer: &Mixer, frame: &LaneFrame) -> f32 {
    let Some(tick) = frame.clip_tick else {
        return 1.0;
    };
    let target = mixer
        .lane(frame.key)
        .and_then(|lane| lane.target())
        .expect("a clip tick comes from a clip");
    let fades = clip_fades(tick, target);
    let fade = fades.fade_in.map_or(1.0, shaped).min(fades.fade_out.map_or(1.0, shaped));
    let transition = match transition_stage(tick, target.transition) {
        TransitionStage::Full => 1.0,
        TransitionStage::Silent => 0.0,
        TransitionStage::Crossing {
            role,
            elapsed,
            duration,
        } => {
            let angle = std::f64::consts::FRAC_PI_2 * (elapsed as f64 / duration as f64);
            match role {
                AudioTransitionRole::Outgoing => angle.cos() as f32,
                AudioTransitionRole::Incoming => angle.sin() as f32,
            }
        }
    };
    fade * transition
}

fn mix(mixer: &mut Mixer, playing: bool, device_frame: u64, sample_rate: u32) -> (f32, f32, bool) {
    let mut frames = Vec::new();
    mixer.pop_stereo_frame(playing, device_frame, sample_rate, &mut frames);
    let mut left = 0.0;
    let mut right = 0.0;
    for frame in &frames {
        let level = envelope(mixer, frame);
        left += number(frame.left) * level;
        right += number(frame.right) * level;
    }
    (
        f32::clamp(left, -1.0, 1.0),
        f32::clamp(right, -1.0, 1.0),
        !frames.is_empty(),
    )
}

#[test]
fn live_effect_changes_rebuild_processor_state_without_resetting_pcm() {
    let mut clip = target(1, 1, "");
    clip.effects = vec![AudioProcessorSpec::LowPass { hz: 1_000 }];
    let mut mixer = mixer_of(vec![clip_lane(&clip, &[1.0, 1.0, 0.0, 0.0])]);
    let _ = mix(&mut mixer, true, 0, 48_000);
    clip.effects = vec![AudioProcessorSpec::StereoWidth { width: level(0.0) }];
    assert!(mixer.update_mix_settings(&vec![clip]));
    let lane = mixer.lane(key(1, 1)).expect("retained lane");
    assert_eq!(lane.queued(), 2);
    assert_eq!(
        lane.target().unwrap().effects,
        vec![AudioProcessorSpec::StereoWidth { width: level(0.0) }]
    );
    let (left, right, audible) = mix(&mut mixer, true, 0, 48_000);
    assert!(audible);
    assert!(left.abs() < 0.000_01 && right.abs() < 0.000_01);
}

#[test]
fn fade_envelope_reaches_full_level_and_silence_at_edges() {
    let mut clip = target(1, 1, "");
    clip.fade_in_ticks = 1_000_000;
    clip.fade_out_ticks = 1_000_000;
    clip.clip_duration_ticks = 4_000_000;
    let at = |tick: i64| {
        let fades = clip_fades(tick, &clip);
        shaped(fades.fade_in.unwrap()).min(shaped(fades.fade_out.unwrap()))
    };
    assert_eq!(at(0), 0.0);
    assert_eq!(at(1_000_000), 1.0);
    assert_eq!(at(3_000_000), 1.0);
    assert_eq!(at(4_000_000), 0.0);
}

#[test]
fn equal_power_transition_has_exact_endpoints_and_constant_energy() {
    let outgoing = AudioTransitionEnvelope {
        role: AudioTransitionRole::Outgoing,
        start_clip_tick: 500_000,
        duration_ticks: 1_000_000,
    };
    let incoming = AudioTransitionEnvelope {
        role: AudioTransitionRole::Incoming,
        ..outgoing
    };
    assert_eq!(transition_stage(500_000, Some(outgoing)), TransitionStage::Full);
    assert_eq!(transition_stage(1_500_000, Some(outgoing)), TransitionStage::Silent);
    assert_eq!(transition_stage(500_000, Some(incoming)), TransitionStage::Silent);
    assert_eq!(transition_stage(1_500_000, Some(incoming)), TransitionStage::Full);
    assert_eq!(
        transition_stage(625_000, Some(incoming)),
        TransitionStage::Crossing {
            role: AudioTransitionRole::Incoming,
            elapsed: 125_000,
            duration: 1_000_000
        }
    );
    assert_eq!(
        transition_stage(
            500_000,
            Some(AudioTransitionEnvelope {
                duration_ticks: 0,
                ..outgoing
            })
        ),
        TransitionStage::Full
    );
    assert_eq!(transition_stage(7, None), TransitionStage::Full);
}

#[test]
fn transition_gain_multiplies_ordinary_clip_fades_per_device_sample() {
    let mut clip = target(1, 1, "");
    clip.fade_in_ticks = 1_000_000;
    clip.clip_duration_ticks = 2_000_000;
    clip.transition = Some(AudioTransitionEnvelope {
        role: AudioTransitionRole::Outgoing,
        start_clip_tick: 0,
        duration_ticks: 1_000_000,
    });
    let mut mixer = mixer_of(vec![clip_lane(&clip, &[1.0, 1.0])]);
    let (left, right, audible) = mix(&mut mixer, true, 24_000, 48_000);
    let expected = 0.5 * std::f32::consts::FRAC_1_SQRT_2;
    assert!((left - expected).abs() < 0.000_001);
    assert!((right - expected).abs() < 0.000_001);
    assert!(audible);
}

#[test]
fn transition_envelope_advances_with_each_device_frame() {
    let mut clip = target(1, 1, "");
    clip.clip_duration_ticks = 2_000_000;
    clip.transition = Some(AudioTransitionEnvelope {
        role: AudioTransitionRole::Incoming,
        start_clip_tick: 0,
        duration_ticks: 1_000_000,
    });
    let mut mixer = mixer_of(vec![clip_lane(&clip, &[1.0, 1.0, 1.0, 1.0])]);
    assert_eq!(mix(&mut mixer, true, 0, 1), (0.0, 0.0, true));
    let clock = advance_device_clock(0, true, 1);
    assert_eq!(mix(&mut mixer, true, clock, 1), (1.0, 1.0, true));
}

#[test]
fn reconcile_lanes_preserves_transport_and_starts_new_lane_at_current_clock() {
    let mut retained = target(1, 10, "retained.wav");
    retained.source_tick = 2_000_000;
    retained.clip_tick = 2_000_000;
    let mut joining = target(1, 11, "joining.wav");
    joining.source_tick = 7_000_000;
    joining.clip_tick = 5_000_000;
    joining.transition = Some(AudioTransitionEnvelope {
        role: AudioTransitionRole::Incoming,
        start_clip_tick: 5_000_000,
        duration_ticks: 1_000_000,
    });
    let retained_key = retained.lane_key();
    let joining_key = joining.lane_key();
    let mut mixer = Mixer::new();
    for _ in 0..44 {
        mixer.clear();
    }
    mixer.put_lane(Lane::joining(&retained, 0));
    let mut decoded = vec![level(0.0); 16];
    decoded.extend(levels(&[0.25, -0.25]));
    mixer
        .enqueue_decoded_frame(retained_key, &decoded, 0, 48_000)
        .unwrap();
    for _ in 0..8 {
        let _ = mix(&mut mixer, true, 0, 48_000);
    }
    let mut device_frames = 48_000;

    let (generation, resumed) = mixer
        .reconcile_targets(&vec![retained.clone(), joining.clone()], device_frames)
        .expect("same-media lane expansion is safe");
    assert_eq!(resumed, vec![retained_key]);
    assert_eq!(generation, 45);
    assert_eq!(mixer.current_generation(), 45);
    let retained_lane = mixer.lane(retained_key).unwrap();
    assert_eq!(retained_lane.decoded_frames(), 9);
    assert_eq!(queued(&mixer, retained_key), vec![0.25, -0.25]);

    let joining_lane = mixer.lane(joining_key).unwrap();
    assert_eq!(joining_lane.device_frame_origin(), 48_000);
    assert_eq!(joining_lane.target().unwrap().source_tick, 7_000_000);
    mixer
        .enqueue_decoded_frame(
            joining_key,
            &levels(&[1.0, 1.0, 1.0, 1.0]),
            device_frames,
            48_000,
        )
        .unwrap();
    assert_eq!(mixer.lane(joining_key).unwrap().queued(), 4);
    mixer.put_lane(Lane::joining(&retained, 0));
    assert_eq!(mix(&mut mixer, true, device_frames, 48_000), (0.0, 0.0, true));
    device_frames = advance_device_clock(device_frames, true, 24_000);
    let (left, right, audible) = mix(&mut mixer, true, device_frames, 48_000);
    assert!((left - std::f32::consts::FRAC_1_SQRT_2).abs() < 0.000_001);
    assert!((right - std::f32::consts::FRAC_1_SQRT_2).abs() < 0.000_001);
    assert!(audible);

    let (generation, resumed) = mixer
        .reconcile_targets(&vec![retained], device_frames)
        .expect("same-media lane contraction is safe");
    assert_eq!(resumed, vec![retained_key]);
    assert_eq!(mixer.lane_count(), 1);
    assert_eq!(generation, 46);
    assert_eq!(mixer.current_generation(), 46);
    assert_eq!(device_frames, 72_000);
}

#[test]
fn lanes_that_cannot_be_reconciled_stay_as_they_are() {
    let clip = target(1, 1, "a.wav");
    let mut mixer = mixer_of(vec![clip_lane(&clip, &[0.5, 0.5])]);
    assert!(mixer.reconcile_targets(&vec![], 0).is_none());
    assert!(mixer
        .reconcile_targets(&vec![clip.clone(), clip.clone()], 0)
        .is_none());
    assert!(mixer
        .reconcile_targets(&vec![target(1, 1, "b.wav")], 0)
        .is_none());
    assert_eq!(mixer.current_generation(), 0);
    assert_eq!(queued(&mixer, key(1, 1)), vec![0.5, 0.5]);
    mixer.put_lane(bare_lane(2, 2, &[]));
    assert!(mixer.reconcile_targets(&vec![target(2, 2, "")], 0).is_none());
}

#[test]
fn same_track_overlap_uses_independent_lane_keys_and_mixes() {
    let first = target(7, 100, "");
    let second = target(7, 101, "");
    let mut mixer = mixer_of(vec![
        clip_lane(&first, &[1.0, 1.0]),
        clip_lane(&second, &[1.0, 1.0]),
    ]);
    assert_eq!(mixer.lane_count(), 2);
    assert_eq!(mix(&mut mixer, true, 0, 48_000), (1.0, 1.0, true));
}

#[test]
fn live_mix_gain_updates_queued_pcm_without_a_decode_restart() {
    let clip = target(1, 1, "clip.mp4");
    let mut mixer = mixer_of(vec![clip_lane(&clip, &[1.0, -1.0, 1.0, -1.0])]);
    assert_eq!(mix(&mut mixer, true, 0, 48_000), (1.0, -1.0, true));
    let mut quieter = clip;
    quieter.gain_db = level(-6.020_6);
    assert!(mixer.update_mix_settings(&vec![quieter]));
    assert_eq!(queued(&mixer, key(1, 1)), vec![1.0, -1.0]);
    assert_eq!(
        mixer.lane(key(1, 1)).unwrap().target().unwrap().gain_db,
        level(-6.020_6)
    );
    assert_eq!(mixer.current_generation(), 0);
}

#[test]
fn live_mix_pan_and_channel_trim_update_queued_pcm() {
    let clip = target(1, 1, "clip.mp4");
    let mut mixer = mixer_of(vec![clip_lane(&clip, &[1.0, 1.0, 1.0, 1.0])]);
    let mut panned = clip;
    panned.pan = level(1.0);
    panned.gain_left_db = level(-6.020_6);
    assert!(mixer.update_mix_settings(&vec![panned]));
    let lane = mixer.lane(key(1, 1)).unwrap();
    assert_eq!(lane.target().unwrap().pan, level(1.0));
    assert_eq!(lane.target().unwrap().gain_left_db, level(-6.020_6));
    assert_eq!(lane.queued(), 4);
}

#[test]
fn live_mix_fade_updates_queued_pcm_without_a_decode_restart() {
    let clip = target(1, 1, "clip.mp4");
    let mut mixer = mixer_of(vec![clip_lane(&clip, &[1.0, -1.0, 1.0, -1.0])]);
    assert_eq!(mix(&mut mixer, true, 24_000, 48_000), (1.0, -1.0, true));
    let mut fading = clip;
    fading.fade_in_ticks = 1_000_000;
    assert!(mixer.update_mix_settings(&vec![fading]));
    let mixed = mix(&mut mixer, true, 24_000, 48_000);
    assert!((mixed.0 - 0.5).abs() < 0.000_1);
    assert!((mixed.1 + 0.5).abs() < 0.000_1);
}

#[test]
fn mix_settings_of_other_lanes_are_refused() {
    let clip = target(1, 1, "clip.mp4");
    let mut mixer = mixer_of(vec![clip_lane(&clip, &[1.0, 1.0])]);
    assert!(!mixer.update_mix_settings(&vec![]));
    assert!(!mixer.update_mix_settings(&vec![target(1, 2, "clip.mp4")]));
    assert!(!mixer.update_mix_settings(&vec![clip.clone(), target(1, 2, "clip.mp4")]));
    assert_eq!(queued(&mixer, key(1, 1)), vec![1.0, 1.0]);
}

#[test]
fn effects_compare_as_numbers() {
    let eq = |db: f32| {
        vec![AudioProcessorSpec::Eq {
            hz: 1_000,
            db: level(db),
        }]
    };
    assert!(same_effects(&eq(0.0), &eq(-0.0)));
    assert!(same_effects(&eq(3.5), &eq(3.5)));
    assert!(!same_effects(&eq(3.5), &eq(-3.5)));
    assert!(!same_effects(&eq(f32::NAN), &eq(f32::NAN)));
    assert!(same_effects(&eq(f32::INFINITY), &eq(f32::INFINITY)));
    assert!(!same_effects(&eq(1.0), &vec![]));
    assert!(!same_effects(
        &vec![AudioProcessorSpec::LowPass { hz: 5 }],
        &vec![AudioProcessorSpec::HighPass { hz: 5 }]
    ));
}

#[test]
fn pending_audio_seek_is_a_single_latest_target_slot() {
    let mut scheduler = SchedulerState::new();
    for generation in 1..=100 {
        let mut clip = target(1, 1, "clip.mp4");
        clip.source_tick = generation as i64 * 10_000;
        clip.clip_tick = clip.source_tick;
        scheduler.submit(generation, vec![clip]);
    }
    let pending = scheduler.take_job().expect("latest target remains pending");
    assert_eq!(pending.generation, 100);
    assert_eq!(pending.targets.len(), 1);
    assert_eq!(pending.targets[0].source_tick, 1_000_000);
    assert!(pending.resume_lanes.is_empty());
    assert!(!scheduler.has_pending());
}

#[test]
fn reconcile_decode_job_marks_only_retained_lanes_for_resume() {
    let retained = target(1, 10, "clip.mp4");
    let joining = target(1, 11, "clip.mp4");
    let mut scheduler = SchedulerState::new();
    scheduler.submit_reconcile(
        8,
        vec![retained.clone(), joining],
        vec![retained.lane_key()],
    );
    let pending = scheduler.take_job().expect("reconcile job queued");
    assert_eq!(pending.generation, 8);
    assert_eq!(pending.resume_lanes, vec![retained.lane_key()]);
}

#[test]
fn a_worker_that_ends_takes_no_job() {
    let mut scheduler = SchedulerState::new();
    scheduler.submit(1, vec![target(1, 1, "a")]);
    scheduler.shut_down();
    assert!(scheduler.is_shutting_down());
    assert!(scheduler.take_job().is_none());
}

#[test]
fn sticky_audio_policy_continues_only_nearby_forward_targets() {
    let at = |path: &str, source_tick: i64| {
        let mut clip = target(1, 1, path);
        clip.source_tick = source_tick;
        clip
    };
    let path = source_path("clip.mp4");
    let first = at("clip.mp4", 0);
    assert_eq!(
        session_action(None, None, None, &first, 48_000),
        SessionAction::Open
    );
    assert_eq!(
        session_action(
            Some(&path),
            Some(48_000),
            Some(0),
            &at("clip.mp4", 250_000),
            48_000
        ),
        SessionAction::Continue
    );
    assert_eq!(
        session_action(Some(&path), Some(48_000), Some(250_000), &first, 48_000),
        SessionAction::SeekAndFlush
    );
    assert_eq!(
        session_action(
            Some(&path),
            Some(48_000),
            Some(0),
            &at("clip.mp4", FORWARD_REUSE_TICKS + 1),
            48_000
        ),
        SessionAction::SeekAndFlush
    );
    assert_eq!(
        session_action(
            Some(&path),
            Some(48_000),
            Some(0),
            &at("other.mp4", 250_000),
            48_000
        ),
        SessionAction::Open
    );
    assert_eq!(
        session_action(
            Some(&path),
            Some(48_000),
            Some(0),
            &at("clip.mp4", 250_000),
            44_100
        ),
        SessionAction::Open
    );
}

#[test]
fn live_meter_sanitizes_non_finite_and_out_of_range_samples() {
    let mut meter = AudioMeter::new();
    meter.store(level(f32::NAN), level(-4.0));
    assert_eq!(meter.load(), (level(0.0), level(1.0)));
    meter.clear();
    assert_eq!(meter.load(), (level(0.0), level(0.0)));
}

#[test]
fn the_meter_shows_magnitudes() {
    let mut meter = AudioMeter::new();
    for (sample, shown) in [
        (0.25_f32, 0.25_f32),
        (-0.25, 0.25),
        (1.0, 1.0),
        (1.000_1, 1.0),
        (-0.0, 0.0),
        (f32::INFINITY, 0.0),
        (f32::NEG_INFINITY, 0.0),
        (f32::MIN_POSITIVE, f32::MIN_POSITIVE),
    ] {
        meter.store(level(sample), level(0.0));
        assert_eq!(meter.load().0, level(shown));
    }
}

#[test]
fn runtime_diagnostics_batch_playing_underruns_and_ignore_paused_callbacks() {
    let mut diagnostics = AudioRuntimeDiagnostics::default();
    diagnostics.record_callback_lock_failure();
    diagnostics.record_underrun_frames(false, 480);
    diagnostics.record_underrun_frames(true, 480);
    diagnostics.record_underrun_frames(true, 0);
    diagnostics.record_late_discard(12);

    assert_eq!(
        diagnostics,
        AudioRuntimeDiagnostics {
            output_callback_cpu_timing: AudioCallbackCpuTiming::default(),
            callback_lock_failures: 1,
            underrun_device_frames: 480,
            late_decoded_frames_discarded: 12,
        }
    );
}

#[test]
fn output_callback_cpu_timing_is_empty_by_default() {
    assert_eq!(
        AudioRuntimeDiagnostics::default().output_callback_cpu_timing,
        AudioCallbackCpuTiming::default()
    );
}

#[test]
fn output_callback_cpu_timing_records_total_and_max_with_saturation() {
    let mut diagnostics = AudioRuntimeDiagnostics::default();
    diagnostics.record_output_callback_cpu_nanos(7);
    diagnostics.record_output_callback_cpu_nanos(11);

    assert_eq!(
        diagnostics.output_callback_cpu_timing,
        AudioCallbackCpuTiming {
            samples: 2,
            total_nanos: 18,
            max_nanos: 11,
        }
    );

    diagnostics.output_callback_cpu_timing.total_nanos = u64::MAX - 2;
    diagnostics.output_callback_cpu_timing.samples = u64::MAX;
    diagnostics.record_output_callback_cpu_nanos(3);

    assert_eq!(
        diagnostics.output_callback_cpu_timing,
        AudioCallbackCpuTiming {
            samples: u64::MAX,
            total_nanos: u64::MAX,
            max_nanos: 11,
        }
    );
}

#[test]
fn partial_lane_underrun_counts_only_silent_device_frames() {
    let mut mixer = mixer_of(vec![bare_lane(1, 1, &[0.25, -0.25])]);
    let mut diagnostics = AudioRuntimeDiagnostics::default();
    let mut silent_frames = 0;
    for _ in 0..3 {
        let (_, _, audible) = mix(&mut mixer, true, 0, 48_000);
        silent_frames += usize::from(!audible);
    }
    diagnostics.record_underrun_frames(true, silent_frames);

    assert_eq!(
        diagnostics.underrun_device_frames, 2,
        "one ready frame must not turn a partially ready callback into a full underrun"
    );
}

#[test]
fn device_clock_tracks_native_callback_and_marks_underrun_silence() {
    let mut mixer = mixer_of(vec![bare_lane(1, 1, &[0.25, -0.25, 0.5, -0.5])]);
    let mut clock = 0;
    assert_eq!(playback_source_tick(2_000_000, 0, 48_000), None);
    assert_eq!(mix(&mut mixer, false, clock, 48_000), (0.0, 0.0, false));
    assert_eq!(clock, 0);
    assert_eq!(mix(&mut mixer, true, clock, 48_000), (0.25, -0.25, true));
    clock = advance_device_clock(clock, true, 1);
    assert_eq!(playback_source_tick(2_000_000, 1, 48_000), Some(2_000_020));
    assert_eq!(mix(&mut mixer, true, clock, 48_000), (0.5, -0.5, true));
    clock = advance_device_clock(clock, true, 1);
    assert_eq!(playback_source_tick(2_000_000, 2, 48_000), Some(2_000_041));
    assert_eq!(mix(&mut mixer, true, clock, 48_000), (0.0, 0.0, false));
    clock = advance_device_clock(clock, true, 1);
    assert_eq!(
        clock, 3,
        "device silence still advances the shared A/V clock"
    );
    assert_eq!(playback_source_tick(2_000_000, 3, 48_000), Some(2_000_062));
    assert_eq!(stale_frames_to_skip(4_800, 0), 4_800);
    assert_eq!(stale_frames_to_skip(4_800, 4_800), 0);
    assert_eq!(stale_frames_to_skip(4_800, 5_000), 0);
}

#[test]
fn device_clock_advances_even_when_the_pcm_queue_lock_is_contended() {
    let shared = Mutex::new(Mixer::new());
    let _held_by_decoder = shared.lock().unwrap();
    assert!(try_lock_callback(&shared).is_none());
    let clock = advance_device_clock(0, true, 480);
    assert_eq!(clock, 480);
    assert_eq!(
        playback_source_tick(1_000_000, 480, 48_000),
        Some(1_010_000)
    );
}

#[test]
fn callback_lock_retry_acquires_an_uncontended_mutex_immediately() {
    let mutex = Mutex::new(7_u8);

    let guard = try_lock_callback(&mutex).expect("uncontended callback lock");

    assert_eq!(*guard, 7);
}

#[test]
fn callback_lock_retry_exhausts_while_mutex_is_held() {
    let mutex = Mutex::new(());
    let _held = mutex.lock().expect("hold mutex for retry exhaustion");

    assert!(try_lock_callback(&mutex).is_none());
}

#[test]
fn the_last_attempt_gives_up() {
    assert_eq!(lock_step(0, true, false), LockStep::Held);
    assert_eq!(lock_step(0, false, true), LockStep::Retry);
    assert_eq!(lock_step(0, false, false), LockStep::GiveUp);
    assert_eq!(
        lock_step(CALLBACK_LOCK_TRY_ATTEMPTS - 1, false, true),
        LockStep::GiveUp
    );
}

#[test]
fn active_lanes_mix_and_clamp_on_one_device_clock() {
    let mut mixer = mixer_of(vec![
        bare_lane(1, 1, &[0.75, -0.5]),
        bare_lane(2, 2, &[0.75, -0.75]),
    ]);
    assert_eq!(mix(&mut mixer, true, 0, 48_000), (1.0, -1.0, true));
    assert_eq!(advance_device_clock(0, true, 1), 1);
}

#[test]
fn missing_lane_is_silence_without_stalling_ready_lane() {
    let mut mixer = mixer_of(vec![bare_lane(1, 1, &[0.25, -0.25]), bare_lane(2, 2, &[])]);
    assert_eq!(mix(&mut mixer, true, 0, 48_000), (0.25, -0.25, true));
    assert_eq!(mix(&mut mixer, true, 0, 48_000), (0.0, 0.0, false));
    assert_eq!(advance_device_clock(0, true, 2), 2);
}

#[test]
fn late_lane_discards_only_elapsed_frames_and_keeps_its_decode_cursor_aligned() {
    let mut mixer = mixer_of(vec![bare_lane(1, 1, &[])]);
    let enqueued = mixer
        .enqueue_decoded_frame(
            key(1, 1),
            &levels(&[0.1, -0.1, 0.2, -0.2, 0.3, -0.3, 0.4, -0.4]),
            2,
            48_000,
        )
        .unwrap();
    assert_eq!(queued(&mixer, key(1, 1)), vec![0.3, -0.3, 0.4, -0.4]);
    assert_eq!(mixer.lane(key(1, 1)).unwrap().decoded_frames(), 4);
    assert_eq!(enqueued.late_frames, 2);
    assert!(!enqueued.reached_capacity);
}

#[test]
fn total_pcm_budget_is_split_between_active_lanes() {
    assert_eq!(lane_capacity_samples(48_000, 1), 96_000);
    assert_eq!(lane_capacity_samples(48_000, 4), 24_000);
    assert_eq!(lane_capacity_samples(48_000, 7) % 2, 0);
    assert!(lane_capacity_samples(1, 100) >= 2);
}

#[test]
fn decoded_lane_cannot_grow_beyond_mix_budget_plus_one_bounded_frame() {
    let mut mixer = mixer_of(vec![bare_lane(1, 1, &[0.0, 0.0])]);
    let oversized = vec![level(0.0); MAX_DECODED_AUDIO_FRAME_SAMPLES + 2];
    assert_eq!(
        mixer
            .enqueue_decoded_frame(key(1, 1), &oversized, 0, 1)
            .unwrap_err(),
        "decoded audio packet exceeds the bounded lane allowance"
    );
    assert_eq!(mixer.lane(key(1, 1)).unwrap().queued(), 2);
    assert!(mixer
        .enqueue_decoded_frame(key(1, 1), &oversized[2..], 0, 1)
        .unwrap()
        .reached_capacity);
}

#[test]
fn durations_and_positions_are_exact() {
    assert_eq!(sample_duration_ticks(48_000, 48_000), 1_000_000);
    assert_eq!(sample_duration_ticks(1, 3), 333_333);
    assert_eq!(sample_duration_ticks(5, 0), 5_000_000);
    assert_eq!(playback_source_tick(i64::MAX, 1, 1), Some(i64::MAX));
    assert_eq!(advance_device_clock(u64::MAX, true, 2), 1);
    assert_eq!(advance_device_clock(5, false, 2), 5);
}

#[test]
fn preroll_before_the_target_is_skipped() {
    assert_eq!(preroll_samples(1_000_000, 1_000_000, 48_000, 100), 0);
    assert_eq!(preroll_samples(1_000_000, 999_000, 48_000, 1_000), 96);
    assert_eq!(preroll_samples(1_000_000, 999_000, 48_000, 40), 40);
    assert_eq!(preroll_samples(0, 5, 48_000, 40), 0);
    assert_eq!(preroll_samples(i64::MAX, i64::MIN, u32::MAX, 7), 7);
}

#[test]
fn resampler_delay_moves_the_output_back() {
    assert_eq!(output_start_tick(1_000_000, None, 48_000), 1_000_000);
    assert_eq!(output_start_tick(1_000_000, Some(48), 48_000), 999_000);
    assert_eq!(output_start_tick(1_000_000, Some(-48), 48_000), 1_000_000);
}

#[test]
fn oversized_decoder_frames_are_named() {
    assert!(check_frame_size(MAX_DECODED_AUDIO_FRAME_SAMPLES).is_ok());
    assert_eq!(
        check_frame_size(MAX_DECODED_AUDIO_FRAME_SAMPLES + 1).unwrap_err(),
        "decoded audio frame has 262145 samples; maximum is 262144"
    );
}

#[test]
fn a_packet_is_drained_even_when_it_is_cancelled() {
    let clip = target(1, 1, "clip.mp4");
    let mixer = mixer_of(vec![clip_lane(&clip, &[])]);
    let mut session = AudioSession::new(&clip, 48_000, ());
    let mut drain = PacketDrain::new();
    assert_eq!(
        drain.frame(&mut session, &mixer, 0, Some(100), 0, 48, 48_000),
        Some(100)
    );
    assert_eq!(session.decoder_cursor_tick, Some(1_100));
    assert_eq!(drain.frame(&mut session, &mixer, 9, None, 500, 48, 48_000), None);
    assert_eq!(session.decoder_cursor_tick, Some(1_500));
    assert_eq!(drain.frame(&mut session, &mixer, 0, Some(0), 0, 48, 48_000), None);
    assert_eq!(drain.end(), PacketEnd::Cancelled);
}

#[test]
fn a_full_lane_ends_its_packet() {
    let clip = target(1, 1, "clip.mp4");
    let mut mixer = mixer_of(vec![clip_lane(&clip, &[])]);
    assert!(may_decode(&mixer, 0, key(1, 1), 2));
    assert!(!may_decode(&mixer, 1, key(1, 1), 2));
    assert!(!may_decode(&mixer, 0, key(1, 2), 2));
    let mut drain = PacketDrain::new();
    assert_eq!(drain.end(), PacketEnd::Continue);
    let late = drain
        .queue(
            &mut mixer,
            0,
            key(1, 1),
            &clip,
            0,
            &levels(&[0.5; 4]),
            0,
            2,
        )
        .unwrap();
    assert_eq!(late, 0);
    assert_eq!(drain.end(), PacketEnd::Full);
    assert!(!may_decode(&mixer, 0, key(1, 1), 2));
    mixer.clear();
    assert_eq!(
        drain.queue(&mut mixer, 0, key(1, 1), &clip, 0, &[], 0, 2),
        Ok(0)
    );
    assert_eq!(drain.end(), PacketEnd::Cancelled);
}

#[test]
fn a_session_seeks_unless_it_resumes() {
    let mut clip = target(1, 1, "clip.mp4");
    let mut session = AudioSession::new(&clip, 48_000, ());
    assert_eq!(session.prepare(&clip, false), SessionAction::SeekAndFlush);
    assert_eq!(session.prepare(&clip, true), SessionAction::Continue);
    session.decoder_cursor_tick = Some(10);
    session.eof = true;
    clip.source_tick = 20;
    assert_eq!(session.prepare(&clip, false), SessionAction::Continue);
    session.seeked();
    assert_eq!(session.decoder_cursor_tick, None);
    assert!(!session.eof);
    assert!(session.needs_open(&clip, 44_100));
    assert!(session.needs_open(&target(1, 1, "other.mp4"), 48_000));
    assert!(!session.needs_open(&clip, 48_000));
}

#[test]
fn the_worker_goes_round_its_lanes() {
    let first = target(1, 1, "a.wav");
    let second = target(1, 2, "b.wav");
    let job = DecodeJob {
        generation: 4,
        targets: vec![first.clone(), second.clone()],
        resume_lanes: vec![first.lane_key()],
    };
    let mut worker = AudioWorker::new();
    worker.opened(first.lane_key(), AudioSession::new(&first, 48_000, 1));
    worker.opened(key(9, 9), AudioSession::new(&target(9, 9, "c.wav"), 48_000, 3));
    worker.begin(&job);
    assert!(worker.take_session(key(9, 9)).is_none());
    assert_eq!(
        worker.lane_work(&first, 48_000),
        LaneWork::Decode { resume: true }
    );
    assert_eq!(worker.lane_work(&first, 44_100), LaneWork::Open);
    assert_eq!(worker.lane_work(&second, 48_000), LaneWork::Open);
    worker.opened(second.lane_key(), AudioSession::new(&second, 48_000, 2));
    assert_eq!(
        worker.lane_work(&second, 48_000),
        LaneWork::Decode { resume: false }
    );
    let session = worker.take_session(second.lane_key()).expect("open session");
    worker.decoded(second.lane_key(), session);
    assert_eq!(
        worker.lane_work(&second, 48_000),
        LaneWork::Decode { resume: true }
    );
    assert_eq!(worker.round_end(&job, 4, false), RoundEnd::Pause);
    assert_eq!(worker.round_end(&job, 5, false), RoundEnd::NextJob);
    assert_eq!(worker.round_end(&job, 4, true), RoundEnd::NextJob);
    let mut session = worker.take_session(second.lane_key()).expect("open session");
    session.ended();
    worker.decoded(second.lane_key(), session);
    assert_eq!(worker.lane_work(&second, 48_000), LaneWork::Skip);
    assert!(worker.failed(first.lane_key(), 4, 4));
    assert!(!worker.failed(first.lane_key(), 4, 5));
    assert_eq!(worker.lane_work(&first, 48_000), LaneWork::Skip);
    assert_eq!(worker.round_end(&job, 4, false), RoundEnd::AwaitJob);
}

#[test]
fn the_transport_starts_pauses_and_reconciles() {
    let mut engine = AudioEngine::new(48_000);
    assert!(!engine.reconcile_playing_targets(vec![target(1, 1, "a.wav")]));
    let mut first = target(1, 1, "a.wav");
    first.source_tick = 2_000_000;
    engine.seek_and_play(first.clone());
    assert!(engine.is_playing() && engine.job_waits());
    assert_eq!(engine.playback_source_tick(), None);
    engine.advance(48_000);
    assert_eq!(engine.playback_source_tick(), Some(3_000_000));
    let job = engine.take_job().expect("decode job");
    assert_eq!(job.generation, engine.mixer().current_generation());
    let mut drain = PacketDrain::new();
    engine
        .queue_decoded(
            &mut drain,
            job.generation,
            key(1, 1),
            &first,
            2_000_000,
            &levels(&vec![0.5; 96_004]),
        )
        .unwrap();
    assert_eq!(
        engine.runtime_diagnostics().late_decoded_frames_discarded,
        48_000
    );
    let mut frames = Vec::new();
    engine.pop_stereo_frame(&mut frames);
    assert_eq!(frames.len(), 1);
    assert_eq!(frames[0].left, level(0.5));
    assert_eq!(frames[0].clip_tick, Some(1_000_000));
    assert!(engine.reconcile_playing_targets(vec![first.clone(), target(2, 2, "b.wav")]));
    let job = engine.take_job().expect("reconcile job");
    assert_eq!(job.resume_lanes, vec![key(1, 1)]);
    assert_eq!(engine.device_frames(), 48_000);
    assert!(engine.update_mix_settings(&vec![first, target(2, 2, "b.wav")]));
    let mut tally = CallbackTally::new();
    for _ in 0..3 {
        tally.frame_written(0, level(0.0), level(0.0));
    }
    tally.frame_written(1, level(0.5), level(-2.0));
    tally.frame_written(2, level(-0.25), level(f32::NAN));
    engine.callback_written(&tally);
    assert_eq!(engine.meter_levels(), (level(0.5), level(1.0)));
    assert_eq!(engine.runtime_diagnostics().underrun_device_frames, 3);
    engine.callbacks_locked_out(&MissedCallbacks {
        count: 1,
        frames: 480,
        total_nanos: 5,
        max_nanos: 5,
    });
    assert_eq!(engine.device_frames(), 48_480);
    assert_eq!(engine.meter_levels(), (level(0.0), level(0.0)));
    assert_eq!(engine.runtime_diagnostics().callback_lock_failures, 1);
    engine.callback_timed(9);
    assert_eq!(
        engine.runtime_diagnostics().output_callback_cpu_timing.max_nanos,
        9
    );
    engine.pause();
    assert_eq!(engine.mixer().lane_count(), 0);
    assert_eq!(engine.playback_source_tick(), None);
    engine.callbacks_locked_out(&MissedCallbacks {
        count: 1,
        frames: 480,
        total_nanos: 5,
        max_nanos: 5,
    });
    assert_eq!(engine.device_frames(), 0);
    engine.seek_and_play_all(Vec::new());
    assert!(!engine.is_playing() && !engine.job_waits());
    engine.report_error("lost".to_owned());
    assert_eq!(engine.take_error().as_deref(), Some("lost"));
    assert_eq!(engine.take_error(), None);
    engine.shut_down();
    assert!(engine.is_shutting_down() && engine.take_job().is_none());
}

#[test]
fn the_last_target_of_a_key_wins_a_fresh_start() {
    let mut engine = AudioEngine::new(48_000);
    let mut later = target(1, 1, "later.wav");
    later.clip_tick = 7;
    engine.seek_and_play_all(vec![target(1, 1, "first.wav"), target(2, 2, "b.wav"), later]);
    assert_eq!(engine.mixer().lane_count(), 2);
    assert_eq!(
        engine.mixer().lane(key(1, 1)).unwrap().target().unwrap().path,
        source_path("later.wav")
    );
}

#[test]
fn a_settled_attempt_hands_on_the_guard_it_acquired() {
    let mutex = Mutex::new(7);
    let held = LockAttempt::Acquired(mutex.lock().unwrap());
    let (step, guard) = settle_attempt(3, held);
    assert_eq!(step, LockStep::Held);
    assert_eq!(*guard.expect("acquired guard"), 7);
    let (step, guard) = settle_attempt::<i32>(3, LockAttempt::WouldBlock);
    assert_eq!(step, LockStep::Retry);
    assert!(guard.is_none());
    let last = CALLBACK_LOCK_TRY_ATTEMPTS - 1;
    let (step, guard) = settle_attempt::<i32>(last, LockAttempt::WouldBlock);
    assert_eq!(step, LockStep::GiveUp);
    assert!(guard.is_none());
    let (step, guard) = settle_attempt::<i32>(0, LockAttempt::Poisoned);
    assert_eq!(step, LockStep::GiveUp);
    assert!(guard.is_none());
}

#[test]
fn a_failed_open_leaves_the_session_of_another_file() {
    let mut worker: AudioWorker<u8> = AudioWorker::new();
    let lane = target(1, 1, "a.wav");
    worker.opened(lane.lane_key(), AudioSession::new(&lane, 48_000, 9));
    let session = worker.take_session(lane.lane_key()).expect("open session");
    worker.decoded(lane.lane_key(), session);
    let relinked = target(1, 1, "b.wav");
    assert_eq!(worker.lane_work(&relinked, 48_000), LaneWork::Open);
    assert!(worker.open_failed(relinked.lane_key(), 2, 2));
    assert!(!worker.open_failed(relinked.lane_key(), 2, 3));
    assert_eq!(worker.lane_work(&relinked, 48_000), LaneWork::Skip);
    let kept = worker.take_session(lane.lane_key()).expect("session stays");
    assert_eq!((kept.path, kept.contexts), (source_path("a.wav"), 9));
}

#[test]
fn mix_settings_have_to_name_each_lane_once() {
    let mut engine = AudioEngine::new(48_000);
    let first = target(1, 1, "a.wav");
    let second = target(2, 2, "b.wav");
    engine.seek_and_play_all(vec![first.clone(), second.clone()]);
    let mut louder = first.clone();
    louder.gain_db = level(6.0);
    assert!(!engine.update_mix_settings(&vec![louder.clone(), louder.clone()]));
    let gain = |engine: &AudioEngine, lane| {
        engine.mixer().lane(lane).unwrap().target().unwrap().gain_db
    };
    assert_eq!(gain(&engine, key(1, 1)), first.gain_db);
    assert!(!engine.update_mix_settings(&vec![louder.clone()]));
    assert!(engine.update_mix_settings(&vec![second.clone(), louder]));
    assert_eq!(gain(&engine, key(1, 1)), level(6.0));
    assert_eq!(gain(&engine, key(2, 2)), second.gain_db);
}

#[test]
fn levels_compare_as_numbers() {
    assert_eq!(level(0.0), level(-0.0));
    assert_ne!(level(f32::NAN), level(f32::NAN));
    assert_ne!(level(1.0), level(-1.0));
    let wide = |width| AudioProcessorSpec::StereoWidth { width: level(width) };
    assert_eq!(wide(0.0), wide(-0.0));
    assert_ne!(wide(f32::NAN), wide(f32::NAN));
    assert_ne!(
        wide(1.0),
        AudioProcessorSpec::Eq {
            hz: 1,
            db: level(1.0)
        }
    );
}

#[test]
fn paths_are_compared_component_by_component() {
    let doubled = source_path("media//clip.wav");
    let plain = target(1, 1, "media/./clip.wav");
    assert_eq!(doubled, plain.path);
    assert_ne!(source_path("/media/clip.wav"), plain.path);
    assert_ne!(source_path("media/../clip.wav"), plain.path);
    assert_eq!(
        session_action(Some(&doubled), Some(48_000), None, &plain, 48_000),
        SessionAction::SeekAndFlush
    );
    let session = AudioSession::new(&target(1, 1, "media//clip.wav"), 48_000, ());
    assert!(!session.needs_open(&plain, 48_000));
    let mut engine = AudioEngine::new(48_000);
    engine.seek_and_play(target(1, 1, "media//clip.wav"));
    assert!(engine.reconcile_playing_targets(vec![plain]));
}

#[test]
fn missed_callbacks_add_up() {
    let missed = |count, frames, total_nanos, max_nanos| MissedCallbacks {
        count,
        frames,
        total_nanos,
        max_nanos,
    };
    let mut together = AudioRuntimeDiagnostics::default();
    together.record_missed(&missed(2, 700, 30, 20));
    let mut one_by_one = AudioRuntimeDiagnostics::default();
    for (frames, nanos) in [(300, 10), (400, 20)] {
        one_by_one.record_callback_lock_failure();
        one_by_one.record_underrun_frames(true, frames);
        one_by_one.record_output_callback_cpu_nanos(nanos);
    }
    assert_eq!(together, one_by_one);
    assert_eq!(together.output_callback_cpu_timing.max_nanos, 20);
    let mut engine = AudioEngine::new(48_000);
    let before = engine.runtime_diagnostics();
    engine.callbacks_locked_out(&missed(0, 0, 0, 9));
    assert_eq!(engine.runtime_diagnostics(), before);
    engine.callbacks_locked_out(&missed(1, 0, 4, 4));
    assert_eq!(engine.runtime_diagnostics().callback_lock_failures, 1);
    assert_eq!(engine.device_frames(), 0);
}
