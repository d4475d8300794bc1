//! The audio transport: what plays, and what the device has consumed of it.
//!
//! Lanes hold a bounded, throw-away PCM queue. This is a transport buffer, not a timeline/media
//! cache: every seek replaces it.
use crate::audio::clock::{advance_device_clock, playback_source_tick, source_tick_at};
use crate::audio::counters::{AudioRuntimeDiagnostics, CallbackTally, MissedCallbacks};
use crate::audio::meter::{shown, AudioMeter};
use crate::audio::mixer::{
    all_mixed, all_popped, fresh_lanes, fronts, has_lane, next_generation, reconcilable, reconciled,
    retained_keys, same_lanes, LaneFrame, LaneModel, Mixer,
};
use crate::audio::scheduler::{DecodeJob, JobModel, SchedulerState};
use crate::audio::session::PacketDrain;
use crate::audio::target::{target_models, AudioTarget, LaneKey, Level, TargetModel};
use vstd::prelude::*;

verus! {

/// The mathematical value of an [`AudioEngine`].
#[verifier::ext_equal]
pub struct EngineModel {
    pub lanes: Seq<LaneModel>,
    pub generation: u64,
    /// Frames that the device has consumed since the transport started.
    pub device_frames: u64,
    /// Where the transport started in its source.
    pub source_tick: i64,
    pub playing: bool,
    pub error: Option<Seq<char>>,
    pub meter: AudioMeter,
    pub diagnostics: AudioRuntimeDiagnostics,
    /// The job that waits for the decode worker.
    pub job: Option<JobModel>,
    pub shutting_down: bool,
    pub sample_rate: u32,
}

/// A meter at rest.
pub open spec fn silent_meter() -> AudioMeter {
    AudioMeter { left: Level { bits: 0 }, right: Level { bits: 0 } }
}

impl EngineModel {
    /// The transport at rest: no lane, no job, and the clock at its start. Work in flight is
    /// overtaken.
    pub open spec fn paused(self) -> EngineModel {
        EngineModel {
            lanes: Seq::empty(),
            generation: next_generation(self.generation),
            device_frames: 0,
            playing: false,
            meter: silent_meter(),
            job: None,
            ..self
        }
    }

    /// The transport once every lane of `targets` starts on the same device clock.
    pub open spec fn started(self, targets: Seq<TargetModel>) -> EngineModel {
        if targets.len() == 0 {
            self.paused()
        } else {
            EngineModel {
                lanes: fresh_lanes(targets, targets.len() as int),
                generation: next_generation(self.generation),
                device_frames: 0,
                source_tick: targets[0].source_tick,
                playing: true,
                meter: silent_meter(),
                job: Some(
                    JobModel {
                        generation: next_generation(self.generation),
                        targets,
                        resume_lanes: Seq::empty(),
                    },
                ),
                ..self
            }
        }
    }

    /// The transport with its lanes reconciled while they play.
    pub open spec fn reconciled_with(self, targets: Seq<TargetModel>) -> EngineModel {
        EngineModel {
            lanes: reconciled(self.lanes, targets, self.device_frames),
            generation: next_generation(self.generation),
            job: Some(
                JobModel {
                    generation: next_generation(self.generation),
                    targets,
                    resume_lanes: retained_keys(self.lanes, targets, targets.len() as int),
                },
            ),
            ..self
        }
    }

    /// The device clock after `frames` more frames.
    pub open spec fn advanced(self, frames: int) -> EngineModel {
        EngineModel {
            device_frames: if self.playing {
                crate::audio::counters::wrapped(self.device_frames + frames)
            } else {
                self.device_frames
            },
            ..self
        }
    }
}

/// Owns the state of a native output stream: lanes, clock, meter, diagnostics and the job of the
/// decode worker.
#[derive(Debug)]
pub struct AudioEngine {
    mixer: Mixer,
    device_frames: u64,
    source_tick: i64,
    playing: bool,
    error: Option<String>,
    meter: AudioMeter,
    diagnostics: AudioRuntimeDiagnostics,
    scheduler: SchedulerState,
    sample_rate: u32,
}

impl View for AudioEngine {
    type V = EngineModel;

    closed spec fn view(&self) -> EngineModel {
        EngineModel {
            lanes: self.mixer.lanes(),
            generation: self.mixer.generation(),
            device_frames: self.device_frames,
            source_tick: self.source_tick,
            playing: self.playing,
            error: match self.error {
                Some(error) => Some(error@),
                None => None,
            },
            meter: self.meter,
            diagnostics: self.diagnostics,
            job: self.scheduler.pending(),
            shutting_down: self.scheduler.shutting_down(),
            sample_rate: self.sample_rate,
        }
    }
}

impl AudioEngine {
    /// No two lanes have one key.
    pub closed spec fn wf(&self) -> bool {
        self.mixer.wf()
    }

    /// The transport of a device with this sample rate, at rest.
    pub fn new(sample_rate: u32) -> (engine: Self)
        ensures
            engine.wf(),
            engine@ == (EngineModel {
                lanes: Seq::empty(),
                generation: 0,
                device_frames: 0,
                source_tick: 0,
                playing: false,
                error: None,
                meter: silent_meter(),
                diagnostics: AudioRuntimeDiagnostics::none(),
                job: None,
                shutting_down: false,
                sample_rate,
            }),
    {
        AudioEngine {
            mixer: Mixer::new(),
            device_frames: 0,
            source_tick: 0,
            playing: false,
            error: None,
            meter: AudioMeter::new(),
            diagnostics: AudioRuntimeDiagnostics::default(),
            scheduler: SchedulerState::new(),
            sample_rate,
        }
    }

    pub fn pause(&mut self)
        requires
            old(self).wf(),
        ensures
            final(self).wf(),
            final(self)@ == old(self)@.paused(),
    {
        self.playing = false;
        self.mixer.clear();
        self.device_frames = 0;
        self.meter.clear();
        self.scheduler.clear();
    }

    pub fn seek_and_play(&mut self, target: AudioTarget)
        requires
            old(self).wf(),
        ensures
            final(self).wf(),
            final(self)@ == old(self)@.started(seq![target@]),
    {
        let ghost model = target@;
        let mut targets: Vec<AudioTarget> = Vec::new();
        targets.push(target);
        assert(target_models(targets@) =~= seq![model]);
        self.seek_and_play_all(targets);
    }

    /// Starts every currently audible timeline lane on the same device clock.
    pub fn seek_and_play_all(&mut self, targets: Vec<AudioTarget>)
        requires
            old(self).wf(),
        ensures
            final(self).wf(),
            final(self)@ == old(self)@.started(target_models(targets@)),
    {
        if targets.len() == 0 {
            self.pause();
            return;
        }
        let ghost models = target_models(targets@);
        assert(models[0] == targets@[0]@);
        self.source_tick = targets[0].source_tick;
        self.device_frames = 0;
        let generation: u64 = self.mixer.replace_targets(&targets);
        self.meter.clear();
        self.scheduler.submit(generation, targets);
        self.playing = true;
        assert(self@ =~= old(self)@.started(models));
    }

    /// Updates gain and fades on the live mixer without discarding decoded PCM or restarting
    /// the decoder. Returns false when the requested lanes are not the active transport.
    pub fn update_mix_settings(&mut self, targets: &Vec<AudioTarget>) -> (applied: bool)
        requires
            old(self).wf(),
        ensures
            final(self).wf(),
            applied == same_lanes(old(self)@.lanes, target_models(targets@)),
            final(self)@ == (if applied {
                EngineModel {
                    lanes: all_mixed(
                        old(self)@.lanes,
                        target_models(targets@),
                        targets@.len() as int,
                    ),
                    ..old(self)@
                }
            } else {
                old(self)@
            }),
    {
        self.mixer.update_mix_settings(targets)
    }

    /// Adds and removes the currently audible timeline lanes without interrupting playback.
    ///
    /// Retained lanes keep their PCM queues, device-frame origin, and sticky decoder session.
    /// New lanes start at their supplied source and clip tick at the current device frame. A
    /// false result means the request would require replacing retained media or is otherwise not
    /// safe to reconcile; callers should use `seek_and_play_all` for that case.
    pub fn reconcile_playing_targets(&mut self, targets: Vec<AudioTarget>) -> (reconciled: bool)
        requires
            old(self).wf(),
        ensures
            final(self).wf(),
            reconciled == (old(self)@.playing && reconcilable(
                old(self)@.lanes,
                target_models(targets@),
            )),
            final(self)@ == (if reconciled {
                old(self)@.reconciled_with(target_models(targets@))
            } else {
                old(self)@
            }),
    {
        if !self.playing {
            return false;
        }
        let ghost models = target_models(targets@);
        match self.mixer.reconcile_targets(&targets, self.device_frames) {
            None => false,
            Some((generation, resume_lanes)) => {
                self.scheduler.submit_reconcile(generation, targets, resume_lanes);
                assert(self@ =~= old(self)@.reconciled_with(models));
                true
            },
        }
    }

    pub fn take_error(&mut self) -> (error: Option<String>)
        requires
            old(self).wf(),
        ensures
            final(self).wf(),
            final(self)@ == (EngineModel { error: None, ..old(self)@ }),
            match error {
                Some(error) => old(self)@.error == Some(error@),
                None => old(self)@.error is None,
            },
    {
        self.error.take()
    }

    /// Notes a failure; the last one stands until it is taken.
    pub fn report_error(&mut self, error: String)
        requires
            old(self).wf(),
        ensures
            final(self).wf(),
            final(self)@ == (EngineModel { error: Some(error@), ..old(self)@ }),
    {
        self.error = Some(error);
    }

    /// Peak levels from the samples actually consumed by the output callback.
    pub fn meter_levels(&self) -> (levels: (Level, Level))
        ensures
            levels == (self@.meter.left, self@.meter.right),
    {
        self.meter.load()
    }

    /// Returns cumulative callback and decode-worker diagnostics.
    pub fn runtime_diagnostics(&self) -> (seen: AudioRuntimeDiagnostics)
        ensures
            seen == self@.diagnostics,
    {
        self.diagnostics
    }

    /// Source-media position of samples actually consumed by the native device callback.
    /// Queue underruns advance as device silence; late decoded PCM is discarded to this clock.
    pub fn playback_source_tick(&self) -> (tick: Option<i64>)
        ensures
            tick == (if self@.playing {
                source_tick_at(self@.source_tick, self@.device_frames, self@.sample_rate)
            } else {
                None
            }),
    {
        if !self.playing {
            return None;
        }
        playback_source_tick(self.source_tick, self.device_frames, self.sample_rate)
    }

    pub fn is_playing(&self) -> (playing: bool)
        ensures
            playing == self@.playing,
    {
        self.playing
    }

    pub fn sample_rate(&self) -> (rate: u32)
        ensures
            rate == self@.sample_rate,
    {
        self.sample_rate
    }

    /// Where the transport started in its source.
    pub fn source_tick(&self) -> (tick: i64)
        ensures
            tick == self@.source_tick,
    {
        self.source_tick
    }

    pub fn device_frames(&self) -> (frames: u64)
        ensures
            frames == self@.device_frames,
    {
        self.device_frames
    }

    /// The lanes of the mix.
    pub fn mixer(&self) -> (mixer: &Mixer)
        requires
            self.wf(),
        ensures
            mixer.wf(),
            mixer.lanes() == self@.lanes,
            mixer.generation() == self@.generation,
    {
        &self.mixer
    }

    /// Takes one stereo frame from every lane that has one, for the next device frame. `frames`
    /// is overwritten; nothing in it means that the device frame is silent.
    pub fn pop_stereo_frame(&mut self, frames: &mut Vec<LaneFrame>)
        requires
            old(self).wf(),
        ensures
            final(self).wf(),
            !old(self)@.playing ==> final(frames)@.len() == 0 && final(self)@ == old(self)@,
            old(self)@.playing ==> {
                &&& final(frames)@ == fronts(
                    old(self)@.lanes,
                    old(self)@.lanes.len() as int,
                    old(self)@.device_frames,
                    old(self)@.sample_rate,
                )
                &&& final(self)@ == (EngineModel {
                    lanes: all_popped(old(self)@.lanes),
                    ..old(self)@
                })
            },
    {
        self.mixer.pop_stereo_frame(self.playing, self.device_frames, self.sample_rate, frames);
    }

    /// Advances the clock by device frames that were just written. It advances frame by frame so
    /// that fades and transition envelopes observe a distinct timeline tick for every device
    /// sample.
    pub fn advance(&mut self, frames: usize)
        requires
            old(self).wf(),
        ensures
            final(self).wf(),
            final(self)@ == old(self)@.advanced(frames as int),
    {
        self.device_frames = advance_device_clock(self.device_frames, self.playing, frames);
    }

    /// Accounts for a callback that was written: how many of its frames were silent, and its
    /// peaks.
    pub fn callback_written(&mut self, tally: &CallbackTally)
        requires
            old(self).wf(),
        ensures
            final(self).wf(),
            final(self)@ == (EngineModel {
                diagnostics: old(self)@.diagnostics.with_underrun(
                    old(self)@.playing,
                    tally.underrun_frames as int,
                ),
                meter: AudioMeter {
                    left: shown(tally.peak_left),
                    right: shown(tally.peak_right),
                },
                ..old(self)@
            }),
    {
        self.diagnostics.record_underrun_frames(self.playing, tally.underrun_frames);
        self.meter.store(tally.peak_left, tally.peak_right);
    }

    /// Accounts for callbacks that could not get at the mix: they were silent from end to end, and
    /// the clock went on.
    pub fn callbacks_locked_out(&mut self, missed: &MissedCallbacks)
        requires
            old(self).wf(),
        ensures
            final(self).wf(),
            final(self)@ == (if missed.count == 0 {
                old(self)@
            } else {
                EngineModel {
                    diagnostics: old(self)@.diagnostics.with_missed(*missed),
                    meter: silent_meter(),
                    ..old(self)@.advanced(missed.frames as int)
                }
            }),
    {
        if missed.count == 0 {
            return;
        }
        self.diagnostics.record_missed(missed);
        if self.playing {
            self.device_frames = self.device_frames.wrapping_add(missed.frames);
        }
        self.meter.clear();
    }

    /// Accounts for the time that a callback took.
    pub fn callback_timed(&mut self, nanos: u64)
        requires
            old(self).wf(),
        ensures
            final(self).wf(),
            final(self)@ == (EngineModel {
                diagnostics: old(self)@.diagnostics.with_callback(nanos),
                ..old(self)@
            }),
    {
        self.diagnostics.record_output_callback_cpu_nanos(nanos);
    }

    /// Queues the resampled samples of a decoded frame; see [`PacketDrain::queue`]. What came too
    /// late is counted.
    pub fn queue_decoded(
        &mut self,
        drain: &mut PacketDrain,
        generation: u64,
        key: LaneKey,
        target: &AudioTarget,
        start_tick: i64,
        resampled: &[Level],
    ) -> (queued: Result<(), String>)
        requires
            old(self).wf(),
            old(self)@.generation == generation ==> has_lane(old(self)@.lanes, key),
        ensures
            final(self).wf(),
            ({
                let before = old(self)@;
                let at = crate::audio::mixer::lane_index(before.lanes, key);
                let heard = resampled@.skip(
                    crate::audio::session::preroll(
                        target@.source_tick as int,
                        start_tick as int,
                        before.sample_rate,
                        resampled@.len() as int,
                    ),
                );
                let next = before.lanes[at].enqueued(heard, before.device_frames);
                let capacity = crate::audio::clock::lane_capacity(
                    before.sample_rate,
                    before.lanes.len() as int,
                );
                if before.generation != generation {
                    &&& queued is Ok
                    &&& final(self)@ == before
                    &&& *final(drain) == (PacketDrain { cancelled: true, ..*old(drain) })
                } else if next.samples.len() > crate::arith::smaller(
                    capacity + crate::audio::mixer::MAX_DECODED_AUDIO_FRAME_SAMPLES,
                    usize::MAX as int,
                ) {
                    &&& queued matches Err(message) && message@
                        == "decoded audio packet exceeds the bounded lane allowance"@
                    &&& final(self)@ == before
                    &&& *final(drain) == *old(drain)
                } else {
                    &&& queued is Ok
                    &&& final(self)@ == (EngineModel {
                        lanes: before.lanes.update(at, next),
                        diagnostics: before.diagnostics.with_late_discard(
                            before.lanes[at].late_samples(
                                heard.len() as int,
                                before.device_frames,
                            ) / 2,
                        ),
                        ..before
                    })
                    &&& *final(drain) == (PacketDrain {
                        reached_capacity: old(drain).reached_capacity || next.samples.len()
                            >= capacity,
                        ..*old(drain)
                    })
                }
            }),
    {
        let queued = drain.queue(
            &mut self.mixer,
            generation,
            key,
            target,
            start_tick,
            resampled,
            self.device_frames,
            self.sample_rate,
        );
        match queued {
            Ok(late_frames) => {
                self.diagnostics.record_late_discard(late_frames);
                Ok(())
            },
            Err(message) => Err(message),
        }
    }

    /// Takes the job that waits for the decode worker, unless the worker is to end.
    pub fn take_job(&mut self) -> (job: Option<DecodeJob>)
        requires
            old(self).wf(),
        ensures
            final(self).wf(),
            old(self)@.shutting_down ==> job is None && final(self)@ == old(self)@,
            !old(self)@.shutting_down ==> {
                &&& match job {
                    Some(job) => old(self)@.job == Some(job@),
                    None => old(self)@.job is None,
                }
                &&& final(self)@ == (EngineModel { job: None, ..old(self)@ })
            },
    {
        self.scheduler.take_job()
    }

    pub fn job_waits(&self) -> (waits: bool)
        ensures
            waits == (self@.job is Some),
    {
        self.scheduler.has_pending()
    }

    /// Puts the transport to rest and tells the decode worker to end.
    pub fn shut_down(&mut self)
        requires
            old(self).wf(),
        ensures
            final(self).wf(),
            final(self)@ == (EngineModel { shutting_down: true, ..old(self)@.paused() }),
    {
        self.pause();
        self.scheduler.shut_down();
    }

    pub fn is_shutting_down(&self) -> (ending: bool)
        ensures
            ending == self@.shutting_down,
    {
        self.scheduler.is_shutting_down()
    }
}

/// A reconciliation interrupts nothing: the clock, the position and the state of the transport
/// stay as they are.
pub proof fn law_reconcile_does_not_restart_the_transport(
    engine: EngineModel,
    targets: Seq<TargetModel>,
)
    ensures
        ({
            let after = engine.reconciled_with(targets);
            &&& after.device_frames == engine.device_frames
            &&& after.source_tick == engine.source_tick
            &&& after.playing == engine.playing
            &&& after.meter == engine.meter
            &&& after.diagnostics == engine.diagnostics
        }),
{
}

/// Whatever replaces the lanes overtakes the decode work that was in flight for them.
pub proof fn law_new_transport_overtakes_decode_work(
    engine: EngineModel,
    targets: Seq<TargetModel>,
)
    ensures
        engine.paused().generation != engine.generation,
        engine.started(targets).generation != engine.generation,
        engine.reconciled_with(targets).generation != engine.generation,
        engine.started(targets).job matches Some(job) ==> job.generation == engine.started(
            targets,
        ).generation,
        engine.reconciled_with(targets).job matches Some(job) ==> job.generation
            == engine.reconciled_with(targets).generation,
{
}

/// While nothing plays, the device clock stands still and no underrun is counted.
pub proof fn law_paused_transport_stands_still(engine: EngineModel, frames: int)
    requires
        !engine.playing,
    ensures
        engine.advanced(frames) == engine,
        engine.diagnostics.with_underrun(engine.playing, frames) == engine.diagnostics,
{
}

/// A paused transport plays nothing, holds nothing, waits for nothing and stands at its start; its
/// account, its error and its device stay.
pub proof fn law_pause_clears_the_transport(engine: EngineModel)
    ensures
        ({
            let after = engine.paused();
            &&& !after.playing
            &&& after.lanes.len() == 0
            &&& after.job is None
            &&& after.device_frames == 0
            &&& after.meter.left.bits == 0
            &&& after.meter.right.bits == 0
            &&& after.error == engine.error
            &&& after.diagnostics == engine.diagnostics
            &&& after.sample_rate == engine.sample_rate
            &&& after.shutting_down == engine.shutting_down
            &&& after.source_tick == engine.source_tick
        }),
{
}

/// A started transport plays from its first target's position, on a clock at its start, with an empty
/// lane for each target and a job to decode all of them afresh. Without a target it pauses.
pub proof fn law_start_plays_every_target(engine: EngineModel, targets: Seq<TargetModel>, i: int)
    requires
        targets.len() > 0,
        forall|a: int, b: int|
            0 <= a < b < targets.len() ==> (#[trigger] targets[a]).key() != (
            #[trigger] targets[b]).key(),
    ensures
        ({
            let after = engine.started(targets);
            &&& after.playing
            &&& after.device_frames == 0
            &&& after.source_tick == targets[0].source_tick
            &&& after.meter.left.bits == 0
            &&& after.meter.right.bits == 0
            &&& after.lanes.len() == targets.len()
            &&& 0 <= i < targets.len() ==> {
                &&& after.lanes[i].key == targets[i].key()
                &&& after.lanes[i].target == Some(targets[i])
                &&& after.lanes[i].samples.len() == 0
                &&& after.lanes[i].device_frame_origin == 0
                &&& after.lanes[i].decoded_frames == 0
            }
            &&& after.job matches Some(job) && job.targets == targets && job.resume_lanes.len() == 0
                && job.generation == after.generation
            &&& after.error == engine.error
            &&& after.diagnostics == engine.diagnostics
            &&& after.sample_rate == engine.sample_rate
            &&& after.shutting_down == engine.shutting_down
        }),
        engine.started(Seq::empty()) == engine.paused(),
{
    crate::audio::mixer::law_fresh_lanes_follow_their_targets(targets, targets.len() as int);
}

/// A reconciliation hands the decode worker every target, and tells it to go on with exactly the lanes
/// that were playing already; the clock, the position and the account are as they were.
pub proof fn law_reconcile_resumes_what_was_playing(
    engine: EngineModel,
    targets: Seq<TargetModel>,
    w: int,
)
    ensures
        ({
            let after = engine.reconciled_with(targets);
            &&& after.job matches Some(job) && job.targets == targets && job.generation
                == after.generation && (0 <= w < targets.len() ==> (job.resume_lanes.contains(
                targets[w].key(),
            ) <==> exists|i: int|
                0 <= i < engine.lanes.len() && (#[trigger] engine.lanes[i]).key
                    == targets[w].key()))
            &&& after.device_frames == engine.device_frames
            &&& after.source_tick == engine.source_tick
            &&& after.playing == engine.playing
            &&& after.error == engine.error
            &&& after.sample_rate == engine.sample_rate
            &&& after.shutting_down == engine.shutting_down
        }),
{
    if 0 <= w < targets.len() {
        crate::audio::mixer::law_retained_keys_are_those_playing(
            engine.lanes,
            targets,
            targets.len() as int,
            w,
        );
    }
}

/// The device clock counts the frames that were written while something plays, and touches nothing
/// else.
pub proof fn law_clock_counts_written_frames(engine: EngineModel, frames: u64)
    ensures
        engine.playing && engine.device_frames + frames <= u64::MAX ==> engine.advanced(
            frames as int,
        ).device_frames == engine.device_frames + frames,
        !engine.playing ==> engine.advanced(frames as int).device_frames == engine.device_frames,
        engine.advanced(frames as int).lanes == engine.lanes,
        engine.advanced(frames as int).source_tick == engine.source_tick,
        engine.advanced(frames as int).playing == engine.playing,
        engine.advanced(frames as int).diagnostics == engine.diagnostics,
        engine.advanced(frames as int).meter == engine.meter,
        engine.advanced(frames as int).generation == engine.generation,
        engine.advanced(frames as int).job == engine.job,
{
}

/// A change of settings on the live mix is taken over exactly where each lane is named once and nothing
/// else is; then every lane has its settings and keeps its samples and its place, and otherwise nothing
/// changes. The clock and the position never do.
pub proof fn law_live_settings_reach_every_lane(
    engine: &mut AudioEngine,
    targets: &Vec<AudioTarget>,
    applied: bool,
    i: int,
) -> (j: int)
    requires
        call_ensures(AudioEngine::update_mix_settings, (engine, targets), applied),
        crate::audio::mixer::unique_lanes(old(engine)@.lanes),
        0 <= i < old(engine)@.lanes.len(),
    ensures
        !applied ==> final(engine)@ == old(engine)@,
        applied ==> {
            let before = old(engine)@.lanes[i];
            let after = final(engine)@.lanes[i];
            &&& targets@.len() == old(engine)@.lanes.len()
            &&& final(engine)@.lanes.len() == old(engine)@.lanes.len()
            &&& 0 <= j < targets@.len()
            &&& targets@[j].track_id == before.key.track_id
            &&& targets@[j].clip_id == before.key.clip_id
            &&& after.samples == before.samples
            &&& after.device_frame_origin == before.device_frame_origin
            &&& after.decoded_frames == before.decoded_frames
            &&& after.key == before.key
            &&& before.target is Some ==> (after.target matches Some(live) && live.gain_db
                == targets@[j].gain_db && live.gain_left_db == targets@[j].gain_left_db
                && live.gain_right_db == targets@[j].gain_right_db && live.pan == targets@[j].pan
                && live.fade_in_ticks == targets@[j].fade_in_ticks && live.fade_in_curve
                == targets@[j].fade_in_curve && live.fade_out_ticks == targets@[j].fade_out_ticks
                && live.fade_out_curve == targets@[j].fade_out_curve && live.clip_duration_ticks
                == targets@[j].clip_duration_ticks && live.transition == targets@[j].transition)
        },
        final(engine)@.device_frames == old(engine)@.device_frames,
        final(engine)@.source_tick == old(engine)@.source_tick,
        final(engine)@.playing == old(engine)@.playing,
        final(engine)@.generation == old(engine)@.generation,
        final(engine)@.job == old(engine)@.job,
{
    let models = target_models(targets@);
    if applied {
        let j = crate::audio::mixer::law_mix_settings_reach_every_lane(
            old(engine)@.lanes,
            models,
            i,
        );
        crate::audio::mixer::law_mix_settings_keep_pcm(
            old(engine)@.lanes,
            models,
            models.len() as int,
            i,
        );
        assert(models[j] == targets@[j]@);
        crate::audio::mixer::law_lane_takes_settings_over(old(engine)@.lanes[i], models[j]);
        j
    } else {
        0
    }
}

/// Settings that name each lane once are taken over.
pub proof fn law_settings_for_every_lane_are_accepted(
    engine: &mut AudioEngine,
    targets: &Vec<AudioTarget>,
    applied: bool,
)
    requires
        call_ensures(AudioEngine::update_mix_settings, (engine, targets), applied),
        targets@.len() == old(engine)@.lanes.len(),
        forall|a: int, b: int|
            0 <= a < b < targets@.len() ==> (#[trigger] targets@[a])@.key() != (
            #[trigger] targets@[b])@.key(),
        forall|a: int|
            0 <= a < targets@.len() ==> exists|k: int|
                0 <= k < old(engine)@.lanes.len() && (#[trigger] old(engine)@.lanes[k]).key == (
                #[trigger] targets@[a])@.key(),
    ensures
        applied,
{
    let models = target_models(targets@);
    let lanes = old(engine)@.lanes;
    assert forall|a: int, b: int| 0 <= a < b < models.len() implies (#[trigger] models[a]).key() != (
    #[trigger] models[b]).key() by {
        assert(models[a] == targets@[a]@ && models[b] == targets@[b]@);
    }
    assert forall|a: int| 0 <= a < models.len() implies crate::audio::mixer::has_lane(
        lanes,
        (#[trigger] models[a]).key(),
    ) by {
        assert(models[a] == targets@[a]@);
        let k = choose|k: int|
            0 <= k < lanes.len() && (#[trigger] lanes[k]).key == targets@[a]@.key();
        assert(lanes[k].key == models[a].key());
    }
}

/// A reconciliation happens exactly while something plays and the lanes can be reconciled; then every
/// target that was given plays, as the decode worker is told, and otherwise nothing changes.
pub proof fn law_live_reconciliation_plays_the_targets(
    engine: &mut AudioEngine,
    targets: Vec<AudioTarget>,
    reconciled: bool,
    w: int,
)
    requires
        call_ensures(AudioEngine::reconcile_playing_targets, (engine, targets), reconciled),
        crate::audio::mixer::unique_lanes(old(engine)@.lanes),
        0 <= w < targets@.len(),
    ensures
        !reconciled ==> final(engine)@ == old(engine)@,
        !old(engine)@.playing ==> !reconciled,
        reconciled ==> {
            &&& exists|k: int|
                0 <= k < final(engine)@.lanes.len() && (#[trigger] final(engine)@.lanes[k]).key
                    == targets@[w]@.key()
            &&& final(engine)@.job matches Some(job) && job.generation == final(engine)@.generation && job.targets.len() == targets@.len() && job.targets[w] == targets@[w]@
            &&& final(engine)@.generation != old(engine)@.generation
        },
        final(engine)@.device_frames == old(engine)@.device_frames,
        final(engine)@.source_tick == old(engine)@.source_tick,
        final(engine)@.playing == old(engine)@.playing,
{
    let models = target_models(targets@);
    assert(models[w] == targets@[w]@);
    if reconciled {
        let lanes = old(engine)@.lanes;
        let key = models[w].key();
        assert(crate::audio::mixer::is_wanted(models, models.len() as int, key));
        crate::audio::mixer::law_reconcile_plays_what_is_wanted(
            lanes,
            models,
            old(engine)@.device_frames,
            key,
        );
        let after = final(engine)@.lanes;
        let k = crate::audio::mixer::lane_index(after, key);
        assert(0 <= k < after.len() && after[k].key == key);
    }
}

/// Starting plays the target from where it is, at once and alone.
pub proof fn law_play_starts_at_the_target(engine: &mut AudioEngine, target: AudioTarget)
    requires
        call_ensures(AudioEngine::seek_and_play, (engine, target), ()),
    ensures
        final(engine)@.playing,
        final(engine)@.source_tick == target.source_tick,
        final(engine)@.device_frames == 0,
        final(engine)@.lanes.len() == 1,
        final(engine)@.lanes[0].target == Some(target@),
        final(engine)@.lanes[0].samples.len() == 0,
        final(engine)@.job matches Some(job) && job.targets == seq![target@] && job.resume_lanes.len()
            == 0 && job.generation == final(engine)@.generation,
        final(engine)@.generation != old(engine)@.generation,
{
    law_start_plays_every_target(old(engine)@, seq![target@], 0);
}

/// Pausing stops everything at once and overtakes the decode work.
pub proof fn law_pause_stops_at_once(engine: &mut AudioEngine)
    requires
        call_ensures(AudioEngine::pause, (engine,), ()),
    ensures
        !final(engine)@.playing,
        final(engine)@.lanes.len() == 0,
        final(engine)@.job is None,
        final(engine)@.device_frames == 0,
        final(engine)@.generation != old(engine)@.generation,
        final(engine)@.diagnostics == old(engine)@.diagnostics,
        final(engine)@.error == old(engine)@.error,
{
}

/// A device frame takes one stereo frame from each lane that has one, while something plays, and leaves
/// the clock for [`AudioEngine::advance`].
pub proof fn law_device_frames_drain_every_lane(
    engine: &mut AudioEngine,
    frames: &mut Vec<LaneFrame>,
    i: int,
)
    requires
        call_ensures(AudioEngine::pop_stereo_frame, (engine, frames), ()),
        0 <= i < old(engine)@.lanes.len(),
    ensures
        !old(engine)@.playing ==> final(frames)@.len() == 0 && final(engine)@ == old(engine)@,
        old(engine)@.playing ==> {
            let before = old(engine)@.lanes[i];
            let after = final(engine)@.lanes[i];
            &&& before.samples.len() >= 2 ==> after.samples == before.samples.skip(2) && exists|k: int|
                0 <= k < final(frames)@.len() && (#[trigger] final(frames)@[k]).key == before.key
                    && final(frames)@[k].left == before.samples[0] && final(frames)@[k].right
                    == before.samples[1]
            &&& before.samples.len() < 2 ==> after.samples == before.samples
            &&& final(engine)@.device_frames == old(engine)@.device_frames
            &&& final(engine)@.lanes.len() == old(engine)@.lanes.len()
            &&& final(engine)@.diagnostics == old(engine)@.diagnostics
        },
{
    let lanes = old(engine)@.lanes;
    if old(engine)@.playing && lanes[i].samples.len() >= 2 {
        let k = crate::audio::mixer::law_ready_lanes_are_heard(
            lanes,
            lanes.len() as int,
            old(engine)@.device_frames,
            old(engine)@.sample_rate,
            i,
        );
        assert(final(frames)@[k].key == lanes[i].key);
    }
}

/// Decoded audio of overtaken work is dropped and marks its packet; any other goes to the end of its lane,
/// from the target on and without what comes too late, which is counted, or is refused where the lane
/// would hold more than its share and one decoder frame.
pub proof fn law_decoded_audio_is_queued_refused_or_dropped(
    engine: &mut AudioEngine,
    drain: &mut PacketDrain,
    generation: u64,
    key: LaneKey,
    target: &AudioTarget,
    start_tick: i64,
    resampled: &[Level],
    queued: Result<(), String>,
    at: int,
)
    requires
        call_ensures(
            AudioEngine::queue_decoded,
            (engine, drain, generation, key, target, start_tick, resampled),
            queued,
        ),
        crate::audio::mixer::unique_lanes(old(engine)@.lanes),
        0 <= at < old(engine)@.lanes.len(),
        old(engine)@.lanes[at].key == key,
    ensures
        old(engine)@.generation != generation ==> {
            &&& queued is Ok
            &&& final(engine)@ == old(engine)@
            &&& final(drain).cancelled
            &&& final(drain).reached_capacity == old(drain).reached_capacity
        },
        old(engine)@.generation == generation ==> {
            let before = old(engine)@.lanes[at];
            let heard = resampled@.skip(
                crate::audio::session::preroll(
                    target.source_tick as int,
                    start_tick as int,
                    old(engine)@.sample_rate,
                    resampled@.len() as int,
                ),
            );
            let after = before.enqueued(heard, old(engine)@.device_frames);
            &&& final(drain).cancelled == old(drain).cancelled
            &&& queued is Err ==> final(engine)@ == old(engine)@
            &&& queued is Ok ==> {
                &&& final(engine)@.lanes == old(engine)@.lanes.update(at, after)
                &&& final(engine)@.device_frames == old(engine)@.device_frames
                &&& final(engine)@.generation == generation
                &&& final(drain).reached_capacity <==> old(drain).reached_capacity
                    || after.samples.len() >= crate::audio::clock::lane_capacity(
                    old(engine)@.sample_rate,
                    old(engine)@.lanes.len() as int,
                )
            }
        },
{
    crate::audio::mixer::lemma_lane_index(old(engine)@.lanes, at);
}

/// A written callback is accounted for: its silent frames while something plays, and its peaks.
pub proof fn law_written_callbacks_are_accounted_for(engine: &mut AudioEngine, tally: &CallbackTally)
    requires
        call_ensures(AudioEngine::callback_written, (engine, tally), ()),
        tally.peak_left.bits <= 0x3F80_0000,
        tally.peak_right.bits <= 0x3F80_0000,
        old(engine)@.diagnostics.underrun_device_frames + tally.underrun_frames <= u64::MAX,
    ensures
        final(engine)@.meter.left.bits == tally.peak_left.bits,
        final(engine)@.meter.right.bits == tally.peak_right.bits,
        old(engine)@.playing ==> final(engine)@.diagnostics.underrun_device_frames == old(engine)@.diagnostics.underrun_device_frames + tally.underrun_frames,
        !old(engine)@.playing ==> final(engine)@.diagnostics == old(engine)@.diagnostics,
        final(engine)@.lanes == old(engine)@.lanes,
        final(engine)@.device_frames == old(engine)@.device_frames,
{
}

/// The position is known exactly while something plays and a frame was consumed.
pub proof fn law_position_is_known_while_playing(engine: &AudioEngine, tick: Option<i64>)
    requires
        call_ensures(AudioEngine::playback_source_tick, (engine,), tick),
    ensures
        tick is Some <==> engine@.playing && engine@.device_frames > 0,
        tick matches Some(tick) ==> tick >= engine@.source_tick,
{
    crate::audio::clock::law_position_is_start_plus_elapsed(
        engine@.source_tick,
        engine@.device_frames,
        engine@.sample_rate,
    );
    crate::audio::clock::law_frames_take_their_time(engine@.device_frames, engine@.sample_rate);
}

/// A lane that plays on through a live reconciliation keeps its samples and its place in time and takes its
/// new settings over; one that joins starts empty at the device's clock; one that is not asked for is gone.
pub proof fn law_live_reconciliation_keeps_playing_lanes(
    engine: &mut AudioEngine,
    targets: Vec<AudioTarget>,
    reconciled: bool,
    w: int,
    at: int,
) -> (k: int)
    requires
        call_ensures(AudioEngine::reconcile_playing_targets, (engine, targets), reconciled),
        crate::audio::mixer::unique_lanes(old(engine)@.lanes),
        reconciled,
        0 <= w < targets@.len(),
    ensures
        0 <= k < final(engine)@.lanes.len(),
        final(engine)@.lanes[k].key == targets@[w]@.key(),
        0 <= at < old(engine)@.lanes.len() && old(engine)@.lanes[at].key == targets@[w]@.key() ==> {
            let before = old(engine)@.lanes[at];
            let after = final(engine)@.lanes[k];
            &&& after.samples == before.samples
            &&& after.device_frame_origin == before.device_frame_origin
            &&& after.decoded_frames == before.decoded_frames
            &&& before.target matches Some(active) && active.path == targets@[w].path@ && (
            after.target matches Some(live) && live.gain_db == targets@[w].gain_db
                && live.fade_out_ticks == targets@[w].fade_out_ticks && live.fade_in_ticks
                == targets@[w].fade_in_ticks && live.pan == targets@[w].pan && live.transition
                == targets@[w].transition && live.source_tick == active.source_tick
                && live.clip_tick == active.clip_tick && live.path == active.path)
        },
        (forall|i: int| 0 <= i < old(engine)@.lanes.len() ==> (#[trigger] old(engine)@.lanes[i]).key
            != targets@[w]@.key()) ==> {
            let after = final(engine)@.lanes[k];
            &&& after.samples.len() == 0
            &&& after.device_frame_origin == old(engine)@.device_frames
            &&& after.decoded_frames == 0
            &&& after.target == Some(targets@[w]@)
        },
{
    let models = target_models(targets@);
    let lanes = old(engine)@.lanes;
    let frame = old(engine)@.device_frames;
    let key = models[w].key();
    assert(models[w] == targets@[w]@);
    crate::audio::mixer::law_reconciled_lanes_have_their_settings(lanes, models, frame, w, at);
    let after = crate::audio::mixer::reconciled(lanes, models, frame);
    let k = crate::audio::mixer::lane_index(after, key);
    assert(0 <= k < after.len() && after[k].key == key);
    if 0 <= at < lanes.len() && lanes[at].key == key {
        crate::audio::mixer::law_reconciling_never_changes_a_file(lanes, models, w, at);
        crate::audio::mixer::law_lane_takes_settings_over(lanes[at], models[w]);
    }
    if forall|i: int| 0 <= i < lanes.len() ==> (#[trigger] lanes[i]).key != key {
        assert(crate::audio::mixer::is_wanted(models, models.len() as int, key));
        crate::audio::mixer::law_reconcile_joins_at_the_device_clock(lanes, models, frame, key);
    }
    k
}

/// Locked-out callbacks are counted, silence the meter, and move the clock on while something plays.
pub proof fn law_locked_out_callbacks_are_accounted_for(
    engine: &mut AudioEngine,
    missed: &MissedCallbacks,
)
    requires
        call_ensures(AudioEngine::callbacks_locked_out, (engine, missed), ()),
        old(engine)@.device_frames + missed.frames <= u64::MAX,
        old(engine)@.diagnostics.callback_lock_failures + missed.count <= u64::MAX,
        old(engine)@.diagnostics.underrun_device_frames + missed.frames <= u64::MAX,
    ensures
        missed.count == 0 ==> final(engine)@ == old(engine)@,
        missed.count > 0 ==> {
            &&& final(engine)@.meter.left.bits == 0
            &&& final(engine)@.meter.right.bits == 0
            &&& final(engine)@.diagnostics.callback_lock_failures == old(engine)@.diagnostics.callback_lock_failures + missed.count
            &&& final(engine)@.diagnostics.underrun_device_frames == old(engine)@.diagnostics.underrun_device_frames + missed.frames
            &&& old(engine)@.playing ==> final(engine)@.device_frames == old(engine)@.device_frames + missed.frames
            &&& !old(engine)@.playing ==> final(engine)@.device_frames == old(engine)@.device_frames
        },
        final(engine)@.lanes == old(engine)@.lanes,
        final(engine)@.playing == old(engine)@.playing,
{
}

/// An error is reported once, and the worker ends once it is told to.
pub proof fn law_errors_are_taken_once(
    engine: &mut AudioEngine,
    error: Option<String>,
    ending: &mut AudioEngine,
)
    requires
        call_ensures(AudioEngine::take_error, (engine,), error),
        call_ensures(AudioEngine::shut_down, (ending,), ()),
    ensures
        final(engine)@.error is None,
        old(engine)@.error is Some <==> error is Some,
        error matches Some(text) ==> old(engine)@.error == Some(text@),
        final(engine)@.lanes == old(engine)@.lanes,
        final(ending)@.shutting_down,
        !final(ending)@.playing,
        final(ending)@.job is None,
{
}

/// The decode worker gets the newest job once, and none once it is to end.
pub proof fn law_jobs_are_taken_once(engine: &mut AudioEngine, job: Option<DecodeJob>)
    requires
        call_ensures(AudioEngine::take_job, (engine,), job),
    ensures
        old(engine)@.shutting_down ==> job is None && final(engine)@ == old(engine)@,
        !old(engine)@.shutting_down ==> final(engine)@.job is None && (job is Some <==> old(engine)@.job is Some) && (job matches Some(taken) ==> old(engine)@.job == Some(taken@)),
        final(engine)@.lanes == old(engine)@.lanes,
        final(engine)@.playing == old(engine)@.playing,
{
}

} // verus!
