//! The measurement itself: a scripted scrub gesture, the layers that each step of it asks for,
//! and the evidence that exactly those were shown. Times are readings of one monotonic clock in
//! nanoseconds.
use crate::arith::{nearest_i64, nearest_u64, saturating_sub_ticks};
use crate::decode::request::DecodeBackend;
use crate::probe::distribution::{distribution, percentile, Distribution};
use crate::text::{decimal, decimal_text};
use vstd::prelude::*;

verus! {

pub const WARMUP_SAMPLES: usize = 8;

pub const MEASURED_SAMPLES: usize = 40;

pub const TOTAL_SAMPLES: usize = 48;

/// The most layers that a monitor shows at once.
pub const MONITOR_LAYER_COUNT: usize = 4;

/// How long the whole measurement may take.
pub const RUN_LIMIT_NANOS: u64 = 150_000_000_000;

/// How long one sample may take.
pub const SAMPLE_LIMIT_NANOS: u64 = 5_000_000_000;

/// How far after its target a shown frame may lie.
pub const FRAME_TOLERANCE_TICKS: i64 = 33_334;

/// The UI budget of the slowest twentieth of the samples, in nanoseconds.
pub const UI_BUDGET_NANOS: u64 = 1_000_000;

/// The frame budget that the slowest twentieth of the samples stays under, in nanoseconds.
pub const FRAME_BUDGET_NANOS: u64 = 8_000_000;

/// A layer that a sample asks for.
#[derive(Clone, Copy, Debug, PartialEq, Eq, Structural)]
pub struct LayerTarget {
    pub slot: usize,
    pub media_id: u32,
    pub clip_id: u32,
    pub generation: u64,
    pub request_id: u64,
    pub requested_source_tick: i64,
    pub output_width: u32,
    pub output_height: u32,
}

/// A layer that was decoded and uploaded.
#[derive(Clone, Copy, Debug, PartialEq, Eq, Structural)]
pub struct AcceptedLayer {
    pub slot: usize,
    pub media_id: u32,
    pub clip_id: u32,
    pub generation: u64,
    pub request_id: u64,
    pub source_tick: i64,
    pub output_width: u32,
    pub output_height: u32,
    pub backend: Option<DecodeBackend>,
    pub upload_serial: u64,
    pub input_to_upload_nanos: u64,
}

/// What the renderer says of its last paint.
#[derive(Clone, Copy, Debug)]
pub struct PresentationEvidence {
    pub upload_serials: [u64; 4],
    pub painted_upload_serials: [Option<u64>; 4],
    pub paint_serial: u64,
}

/// Whether a frame is at its target. The decoder rounds timestamps to the nearest tick while
/// requests round upward, so one tick before the target still reaches it.
pub open spec fn reaches_target(source_tick: int, target_tick: int) -> bool {
    nearest_i64(target_tick - 1) <= source_tick
}

pub fn source_tick_reaches_target(source_tick: i64, target_tick: i64) -> (reached: bool)
    ensures
        reached == reaches_target(source_tick as int, target_tick as int),
{
    source_tick >= saturating_sub_ticks(target_tick, 1)
}

/// Whether a frame is exactly the one that a target asks for, at full output size and uploaded.
pub open spec fn is_match(target: LayerTarget, frame: AcceptedLayer) -> bool {
    &&& target.slot == frame.slot
    &&& target.media_id == frame.media_id
    &&& target.clip_id == frame.clip_id
    &&& target.generation == frame.generation
    &&& target.request_id == frame.request_id
    &&& target.output_width == 1920 && target.output_height == 1080
    &&& frame.output_width == target.output_width && frame.output_height == target.output_height
    &&& reaches_target(frame.source_tick as int, target.requested_source_tick as int)
    &&& nearest_i64(frame.source_tick - target.requested_source_tick) <= FRAME_TOLERANCE_TICKS
    &&& frame.upload_serial != 0
}

pub fn frame_matches(target: &LayerTarget, frame: &AcceptedLayer) -> (matches: bool)
    ensures
        matches == is_match(*target, *frame),
{
    target.slot == frame.slot && target.media_id == frame.media_id && target.clip_id
        == frame.clip_id && target.generation == frame.generation && target.request_id
        == frame.request_id && target.output_width == 1920 && target.output_height == 1080
        && frame.output_width == target.output_width && frame.output_height == target.output_height
        && source_tick_reaches_target(frame.source_tick, target.requested_source_tick)
        && saturating_sub_ticks(frame.source_tick, target.requested_source_tick)
        <= FRAME_TOLERANCE_TICKS && frame.upload_serial != 0
}

/// Why a measurement failed.
#[derive(Clone, Copy, Debug, PartialEq, Eq, Structural)]
pub enum ProbeFailure {
    SourcesNotVerified,
    GestureNotAcquired,
    TimelineChanged,
    TargetChanged,
    UnexpectedPlayhead,
    UnexpectedTargets,
    RunTimedOut,
    SampleTimedOut { index: usize },
}

impl ProbeFailure {
    /// What is reported of a failure.
    pub open spec fn text(self) -> Seq<char> {
        match self {
            ProbeFailure::SourcesNotVerified =>
                "source analysis did not verify all Full-1080p inputs"@,
            ProbeFailure::GestureNotAcquired =>
                "ruler press did not acquire the real scrub gesture"@,
            ProbeFailure::TimelineChanged =>
                "timeline changed during the fixed qualification workload"@,
            ProbeFailure::TargetChanged =>
                "ruler target changed while waiting for its matching layers"@,
            ProbeFailure::UnexpectedPlayhead =>
                "injected ruler motion did not produce its expected playhead"@,
            ProbeFailure::UnexpectedTargets =>
                "active source count or Full-1080p request dimensions differ"@,
            ProbeFailure::RunTimedOut => "windowed probe exceeded 150 seconds"@,
            ProbeFailure::SampleTimedOut { index } => "sample "@ + decimal(index as nat)
                + " timed out waiting for exact native layer identities"@,
        }
    }

    pub fn message(self) -> (message: String)
        ensures
            message@ == self.text(),
    {
        match self {
            ProbeFailure::SourcesNotVerified => String::from_str(
                "source analysis did not verify all Full-1080p inputs",
            ),
            ProbeFailure::GestureNotAcquired => String::from_str(
                "ruler press did not acquire the real scrub gesture",
            ),
            ProbeFailure::TimelineChanged => String::from_str(
                "timeline changed during the fixed qualification workload",
            ),
            ProbeFailure::TargetChanged => String::from_str(
                "ruler target changed while waiting for its matching layers",
            ),
            ProbeFailure::UnexpectedPlayhead => String::from_str(
                "injected ruler motion did not produce its expected playhead",
            ),
            ProbeFailure::UnexpectedTargets => String::from_str(
                "active source count or Full-1080p request dimensions differ",
            ),
            ProbeFailure::RunTimedOut => String::from_str("windowed probe exceeded 150 seconds"),
            ProbeFailure::SampleTimedOut { index } => {
                let mut message = String::from_str("sample ");
                message.append(decimal_text(index as u64).as_str());
                message.append(" timed out waiting for exact native layer identities");
                message
            },
        }
    }
}

/// One step of the gesture and what was measured of it.
#[derive(Debug)]
pub struct Sample {
    pub index: usize,
    pub warmup: bool,
    pub playhead_tick: i64,
    pub expected_playhead_tick: i64,
    pub sequence_generation: u64,
    pub input_to_ui_cpu_nanos: u64,
    pub full_cpu_frame_nanos: u64,
    pub input_to_surface_submission_nanos: u64,
    pub matching_layers_to_surface_nanos: u64,
    pub paint_serial: u64,
    pub paint_serial_before_input: u64,
    pub targets: Vec<LayerTarget>,
    pub layers: Vec<AcceptedLayer>,
}

/// The mathematical value of a [`Sample`].
#[verifier::ext_equal]
pub struct SampleModel {
    pub index: nat,
    pub warmup: bool,
    pub playhead_tick: i64,
    pub expected_playhead_tick: i64,
    pub sequence_generation: u64,
    pub input_to_ui_cpu_nanos: u64,
    pub full_cpu_frame_nanos: u64,
    pub input_to_surface_submission_nanos: u64,
    pub matching_layers_to_surface_nanos: u64,
    pub paint_serial: u64,
    pub paint_serial_before_input: u64,
    pub targets: Seq<LayerTarget>,
    pub layers: Seq<AcceptedLayer>,
}

impl View for Sample {
    type V = SampleModel;

    open spec fn view(&self) -> SampleModel {
        SampleModel {
            index: self.index as nat,
            warmup: self.warmup,
            playhead_tick: self.playhead_tick,
            expected_playhead_tick: self.expected_playhead_tick,
            sequence_generation: self.sequence_generation,
            input_to_ui_cpu_nanos: self.input_to_ui_cpu_nanos,
            full_cpu_frame_nanos: self.full_cpu_frame_nanos,
            input_to_surface_submission_nanos: self.input_to_surface_submission_nanos,
            matching_layers_to_surface_nanos: self.matching_layers_to_surface_nanos,
            paint_serial: self.paint_serial,
            paint_serial_before_input: self.paint_serial_before_input,
            targets: self.targets@,
            layers: self.layers@,
        }
    }
}

/// A step of the gesture that waits for its layers.
#[derive(Debug)]
pub struct Pending {
    pub started: u64,
    pub sample: Sample,
    pub first_surface_recorded: bool,
    pub accepted: [Option<AcceptedLayer>; 4],
    pub last_observed: [Option<AcceptedLayer>; 4],
}

/// The mathematical value of a [`Pending`].
#[verifier::ext_equal]
pub struct PendingModel {
    pub started: u64,
    pub sample: SampleModel,
    pub first_surface_recorded: bool,
    pub accepted: Seq<Option<AcceptedLayer>>,
    pub last_observed: Seq<Option<AcceptedLayer>>,
}

impl View for Pending {
    type V = PendingModel;

    open spec fn view(&self) -> PendingModel {
        PendingModel {
            started: self.started,
            sample: self.sample@,
            first_surface_recorded: self.first_surface_recorded,
            accepted: self.accepted@,
            last_observed: self.last_observed@,
        }
    }
}

/// Nothing in any slot.
pub open spec fn no_layers() -> Seq<Option<AcceptedLayer>> {
    seq![None, None, None, None]
}

/// The layers of the first `count` slots, in their order.
pub open spec fn filled_slots(slots: Seq<Option<AcceptedLayer>>, count: int) -> Seq<AcceptedLayer>
    decreases count,
{
    if count <= 0 {
        Seq::empty()
    } else {
        match slots[count - 1] {
            Some(layer) => filled_slots(slots, count - 1).push(layer),
            None => filled_slots(slots, count - 1),
        }
    }
}

/// Whether one of the targets asks for exactly this frame.
pub open spec fn is_wanted(targets: Seq<LayerTarget>, frame: AcceptedLayer) -> bool {
    exists|i: int| 0 <= i < targets.len() && is_match(#[trigger] targets[i], frame)
}

/// Whether a target is painted: its slot holds exactly its frame, and the paint shows that upload.
pub open spec fn is_painted(
    target: LayerTarget,
    accepted: Seq<Option<AcceptedLayer>>,
    painted: Seq<Option<u64>>,
) -> bool {
    accepted[target.slot as int] matches Some(layer) && is_match(target, layer)
        && painted[target.slot as int] == Some(layer.upload_serial)
}

impl PendingModel {
    /// Whether every target of the sample is painted, by a paint that came after the input.
    pub open spec fn is_complete(
        self,
        source_count: nat,
        painted: Seq<Option<u64>>,
        paint_serial: u64,
    ) -> bool {
        &&& self.sample.targets.len() == source_count
        &&& paint_serial > self.sample.paint_serial_before_input
        &&& forall|i: int|
            0 <= i < self.sample.targets.len() ==> is_painted(
                #[trigger] self.sample.targets[i],
                self.accepted,
                painted,
            )
    }

    /// The sample once every target was painted.
    pub open spec fn completed(self, paint_serial: u64, now: u64) -> SampleModel {
        SampleModel {
            matching_layers_to_surface_nanos: nearest_u64(now - self.started) as u64,
            paint_serial,
            layers: filled_slots(self.accepted, MONITOR_LAYER_COUNT as int),
            ..self.sample
        }
    }

    /// Every target has its slot, and every slot is there.
    pub open spec fn valid(self) -> bool {
        &&& self.accepted.len() == MONITOR_LAYER_COUNT
        &&& self.last_observed.len() == MONITOR_LAYER_COUNT
        &&& self.sample.layers.len() == 0
        &&& forall|i: int|
            0 <= i < self.sample.targets.len() ==> (#[trigger] self.sample.targets[i]).slot
                < MONITOR_LAYER_COUNT
    }
}

/// What is injected into a batch of input.
#[derive(Clone, Copy, Debug, PartialEq, Eq, Structural)]
pub enum InjectStep {
    Nothing,
    /// The press that acquires the scrub gesture.
    Press,
    /// The release that ends it.
    Release,
    /// A motion to the given hundred-and-fiftieth of the ruler; [`Probe::begin_sample`] follows.
    Move { index: usize, position: usize },
}

/// Where the step with this index moves to: large forward and backward seeks in turn.
pub open spec fn scrub_position(index: int) -> int {
    1 + (index * 37) % 149
}

/// What a measurement comes to.
#[derive(Clone, Copy, Debug, PartialEq, Eq, Structural)]
pub struct ProbeSummary {
    pub complete: bool,
    pub budgets_passed: bool,
    pub input_to_ui_cpu: Distribution,
    pub full_cpu_frame: Distribution,
    pub matching_layers_to_surface: Distribution,
}

/// The mathematical value of a [`Probe`].
#[verifier::ext_equal]
pub struct ProbeModel {
    pub source_count: nat,
    pub started: u64,
    pub armed: bool,
    pub pressed: bool,
    pub released: bool,
    pub pending: Option<PendingModel>,
    pub samples: Seq<SampleModel>,
    pub failure: Option<ProbeFailure>,
    pub report_sent: bool,
    pub last_paint_serial: u64,
    pub timeline_generation: Option<u64>,
}

impl ProbeModel {
    /// Whether the gesture goes on.
    pub open spec fn active(self) -> bool {
        self.armed && !self.report_sent && self.failure is None
    }

    /// What is injected next.
    pub open spec fn inject_step(self, has_geometry: bool, scrubbing: bool) -> InjectStep {
        if !self.active() || !has_geometry {
            InjectStep::Nothing
        } else if !self.pressed {
            InjectStep::Press
        } else if self.samples.len() == TOTAL_SAMPLES && !self.released {
            InjectStep::Release
        } else if self.pending is Some || self.released || !scrubbing {
            InjectStep::Nothing
        } else {
            InjectStep::Move {
                index: self.samples.len() as usize,
                position: scrub_position(self.samples.len() as int) as usize,
            }
        }
    }

    /// The measurement once that was injected. A press that did not acquire the gesture fails it.
    pub open spec fn injected(self, has_geometry: bool, scrubbing: bool) -> ProbeModel {
        match self.inject_step(has_geometry, scrubbing) {
            InjectStep::Press => ProbeModel { pressed: true, ..self },
            InjectStep::Release => ProbeModel { released: true, ..self },
            InjectStep::Move { index, position } => self,
            InjectStep::Nothing => if self.active() && has_geometry && self.pressed
                && self.pending is None && !self.released && !scrubbing {
                ProbeModel { failure: Some(ProbeFailure::GestureNotAcquired), ..self }
            } else {
                self
            },
        }
    }

    /// Whether the measurement has come to its end.
    pub open spec fn is_over(self) -> bool {
        self.failure is Some || (self.samples.len() == TOTAL_SAMPLES && self.released)
    }

    /// What holds throughout: samples are counted in order, and there are never too many.
    pub open spec fn valid(self) -> bool {
        &&& self.samples.len() + (if self.pending is Some {
            1int
        } else {
            0
        }) <= TOTAL_SAMPLES
        &&& self.pending matches Some(pending) ==> pending.valid() && pending.sample.index
            == self.samples.len()
        &&& forall|i: int|
            0 <= i < self.samples.len() ==> (#[trigger] self.samples[i]).index == i
                && self.samples[i].warmup == (i < WARMUP_SAMPLES)
        &&& self.pending matches Some(pending) ==> pending.sample.warmup == (
        pending.sample.index < WARMUP_SAMPLES)
    }

    /// The sample that begins now.
    pub open spec fn next_sample(self, expected_playhead_tick: i64) -> SampleModel {
        SampleModel {
            index: self.samples.len(),
            warmup: self.samples.len() < WARMUP_SAMPLES,
            playhead_tick: 0,
            expected_playhead_tick,
            sequence_generation: 0,
            input_to_ui_cpu_nanos: 0,
            full_cpu_frame_nanos: 0,
            input_to_surface_submission_nanos: 0,
            matching_layers_to_surface_nanos: 0,
            paint_serial: 0,
            paint_serial_before_input: self.last_paint_serial,
            targets: Seq::empty(),
            layers: Seq::empty(),
        }
    }

    /// The pending sample once a surface was submitted: the first one is timed.
    pub open spec fn surfaced(pending: PendingModel, frame_cpu_nanos: u64, now: u64) -> PendingModel {
        if pending.first_surface_recorded {
            pending
        } else {
            PendingModel {
                sample: SampleModel {
                    full_cpu_frame_nanos: frame_cpu_nanos,
                    input_to_surface_submission_nanos: nearest_u64(now - pending.started) as u64,
                    ..pending.sample
                },
                first_surface_recorded: true,
                ..pending
            }
        }
    }

    /// The measurement once a paint was presented.
    pub open spec fn presented(
        self,
        frame_cpu_nanos: u64,
        painted: Seq<Option<u64>>,
        paint_serial: u64,
        now: u64,
    ) -> ProbeModel {
        let seen = ProbeModel { last_paint_serial: paint_serial, ..self };
        if self.report_sent || self.failure is Some {
            seen
        } else if nearest_u64(now - self.started) > RUN_LIMIT_NANOS {
            ProbeModel { failure: Some(ProbeFailure::RunTimedOut), ..seen }
        } else {
            match self.pending {
                None => seen,
                Some(before) => {
                    let pending = ProbeModel::surfaced(before, frame_cpu_nanos, now);
                    if nearest_u64(now - pending.started) > SAMPLE_LIMIT_NANOS {
                        ProbeModel {
                            pending: Some(pending),
                            failure: Some(
                                ProbeFailure::SampleTimedOut {
                                    index: pending.sample.index as usize,
                                },
                            ),
                            ..seen
                        }
                    } else if pending.is_complete(self.source_count, painted, paint_serial) {
                        ProbeModel {
                            pending: None,
                            samples: self.samples.push(pending.completed(paint_serial, now)),
                            ..seen
                        }
                    } else {
                        ProbeModel { pending: Some(pending), ..seen }
                    }
                },
            }
        }
    }

    /// The measured values of the samples that are not warm-up, among the first `count`.
    pub open spec fn measured(samples: Seq<SampleModel>, which: Measure, count: int) -> Seq<u64>
        decreases count,
    {
        if count <= 0 {
            Seq::empty()
        } else if samples[count - 1].warmup {
            ProbeModel::measured(samples, which, count - 1)
        } else {
            ProbeModel::measured(samples, which, count - 1).push(which.of(samples[count - 1]))
        }
    }
}

/// Which duration of a sample is meant.
#[derive(Clone, Copy, Debug, PartialEq, Eq, Structural)]
pub enum Measure {
    InputToUi,
    FullFrame,
    LayersToSurface,
}

impl Measure {
    /// That duration of a sample.
    pub open spec fn of(self, sample: SampleModel) -> u64 {
        match self {
            Measure::InputToUi => sample.input_to_ui_cpu_nanos,
            Measure::FullFrame => sample.full_cpu_frame_nanos,
            Measure::LayersToSurface => sample.matching_layers_to_surface_nanos,
        }
    }
}

/// A measurement in progress.
#[derive(Debug)]
pub struct Probe {
    source_count: usize,
    started: u64,
    armed: bool,
    pressed: bool,
    released: bool,
    pending: Option<Pending>,
    samples: Vec<Sample>,
    failure: Option<ProbeFailure>,
    report_sent: bool,
    last_paint_serial: u64,
    timeline_generation: Option<u64>,
}

closed spec fn sample_models(samples: Seq<Sample>) -> Seq<SampleModel> {
    Seq::new(samples.len(), |i: int| samples[i]@)
}

impl View for Probe {
    type V = ProbeModel;

    closed spec fn view(&self) -> ProbeModel {
        ProbeModel {
            source_count: self.source_count as nat,
            started: self.started,
            armed: self.armed,
            pressed: self.pressed,
            released: self.released,
            pending: match self.pending {
                Some(pending) => Some(pending@),
                None => None,
            },
            samples: sample_models(self.samples@),
            failure: self.failure,
            report_sent: self.report_sent,
            last_paint_serial: self.last_paint_serial,
            timeline_generation: self.timeline_generation,
        }
    }
}

impl Probe {
    /// A measurement of this many sources that begins now.
    pub fn new(source_count: usize, now: u64) -> (probe: Self)
        ensures
            probe@.valid(),
            probe@ == (ProbeModel {
                source_count: source_count as nat,
                started: now,
                armed: false,
                pressed: false,
                released: false,
                pending: None,
                samples: Seq::empty(),
                failure: None,
                report_sent: false,
                last_paint_serial: 0,
                timeline_generation: None,
            }),
    {
        let probe = Probe {
            source_count,
            started: now,
            armed: false,
            pressed: false,
            released: false,
            pending: None,
            samples: Vec::new(),
            failure: None,
            report_sent: false,
            last_paint_serial: 0,
            timeline_generation: None,
        };
        assert(probe@.samples =~= Seq::empty());
        probe
    }

    /// Arms the measurement once every resource is ready, if analysis has verified the size of
    /// every source.
    pub fn arm(
        &mut self,
        resources_ready: bool,
        source_sizes: &Vec<Option<(u32, u32)>>,
        timeline_generation: u64,
    )
        requires
            old(self)@.valid(),
        ensures
            final(self)@.valid(),
            final(self)@ == (if old(self)@.armed || !resources_ready {
                old(self)@
            } else if all_full_size(source_sizes@) && source_sizes@.len()
                == old(self)@.source_count {
                ProbeModel {
                    armed: true,
                    timeline_generation: Some(timeline_generation),
                    ..old(self)@
                }
            } else {
                ProbeModel { failure: Some(ProbeFailure::SourcesNotVerified), ..old(self)@ }
            }),
    {
        if self.armed || !resources_ready {
            return;
        }
        if source_sizes.len() == self.source_count && every_full_size(source_sizes) {
            self.armed = true;
            self.timeline_generation = Some(timeline_generation);
        } else {
            self.failure = Some(ProbeFailure::SourcesNotVerified);
        }
    }

    /// Whether a batch of backend input is to be observed: only during the gesture.
    pub fn observes_input(&self, has_events: bool) -> (observes: bool)
        ensures
            observes == (self@.active() && self@.pressed && !self@.released && has_events),
    {
        self.armed && !self.report_sent && self.failure.is_none() && self.pressed && !self.released
            && has_events
    }

    /// Decides what is injected before the UI runs. `has_geometry` tells that the ruler is laid
    /// out, `scrubbing` that the editor follows the gesture.
    pub fn inject_input(&mut self, has_geometry: bool, scrubbing: bool) -> (step: InjectStep)
        requires
            old(self)@.valid(),
        ensures
            final(self)@.valid(),
            step == old(self)@.inject_step(has_geometry, scrubbing),
            final(self)@ == old(self)@.injected(has_geometry, scrubbing),
    {
        if !self.armed || self.report_sent || self.failure.is_some() || !has_geometry {
            return InjectStep::Nothing;
        }
        if !self.pressed {
            self.pressed = true;
            return InjectStep::Press;
        }
        if self.samples.len() == TOTAL_SAMPLES && !self.released {
            self.released = true;
            return InjectStep::Release;
        }
        if self.pending.is_some() || self.released {
            return InjectStep::Nothing;
        }
        if !scrubbing {
            self.failure = Some(ProbeFailure::GestureNotAcquired);
            return InjectStep::Nothing;
        }
        let index: usize = self.samples.len();
        InjectStep::Move { index, position: 1 + index * 37 % 149 }
    }

    /// Begins the sample of a motion that was injected.
    pub fn begin_sample(&mut self, expected_playhead_tick: i64, now: u64)
        requires
            old(self)@.valid(),
            old(self)@.pending is None,
            old(self)@.samples.len() < TOTAL_SAMPLES,
        ensures
            final(self)@.valid(),
            final(self)@ == (ProbeModel {
                pending: Some(
                    PendingModel {
                        started: now,
                        sample: old(self)@.next_sample(expected_playhead_tick),
                        first_surface_recorded: false,
                        accepted: no_layers(),
                        last_observed: no_layers(),
                    },
                ),
                ..old(self)@
            }),
    {
        let index: usize = self.samples.len();
        let pending = Pending {
            started: now,
            sample: Sample {
                index,
                warmup: index < WARMUP_SAMPLES,
                playhead_tick: 0,
                expected_playhead_tick,
                sequence_generation: 0,
                input_to_ui_cpu_nanos: 0,
                full_cpu_frame_nanos: 0,
                input_to_surface_submission_nanos: 0,
                matching_layers_to_surface_nanos: 0,
                paint_serial: 0,
                paint_serial_before_input: self.last_paint_serial,
                targets: Vec::new(),
                layers: Vec::new(),
            },
            first_surface_recorded: false,
            accepted: [None, None, None, None],
            last_observed: [None, None, None, None],
        };
        assert(pending@.accepted =~= no_layers());
        assert(pending@.last_observed =~= no_layers());
        assert(pending@.sample =~= self@.next_sample(expected_playhead_tick));
        self.pending = Some(pending);
    }

    /// Takes what the UI made of an injected motion.
    pub fn ui_complete(
        &mut self,
        playhead: i64,
        timeline_generation: u64,
        scrubbing: bool,
        now: u64,
    )
        requires
            old(self)@.valid(),
        ensures
            final(self)@.valid(),
            final(self)@ == (match old(self)@.pending {
                None => old(self)@,
                Some(pending) => ProbeModel {
                    pending: Some(
                        PendingModel {
                            sample: SampleModel {
                                input_to_ui_cpu_nanos: nearest_u64(now - pending.started) as u64,
                                playhead_tick: playhead,
                                sequence_generation: timeline_generation,
                                ..pending.sample
                            },
                            ..pending
                        },
                    ),
                    failure: if !scrubbing || playhead != pending.sample.expected_playhead_tick {
                        Some(ProbeFailure::UnexpectedPlayhead)
                    } else {
                        old(self)@.failure
                    },
                    ..old(self)@
                },
            }),
    {
        match self.pending.take() {
            None => {},
            Some(pending) => {
                let mut pending = pending;
                pending.sample.input_to_ui_cpu_nanos = now.saturating_sub(pending.started);
                pending.sample.playhead_tick = playhead;
                pending.sample.sequence_generation = timeline_generation;
                if !scrubbing || playhead != pending.sample.expected_playhead_tick {
                    self.failure = Some(ProbeFailure::UnexpectedPlayhead);
                }
                self.pending = Some(pending);
            },
        }
    }

    /// Checks that nothing but the measurement moves the editor.
    pub fn check_editor_state(&mut self, timeline_generation: u64, scrubbing: bool, playhead: i64)
        requires
            old(self)@.valid(),
        ensures
            final(self)@.valid(),
            final(self)@ == (if old(self)@.failure is Some {
                old(self)@
            } else if old(self)@.timeline_generation matches Some(generation) && generation
                != timeline_generation {
                ProbeModel { failure: Some(ProbeFailure::TimelineChanged), ..old(self)@ }
            } else if old(self)@.pending matches Some(pending) && pending.first_surface_recorded
                && (!scrubbing || playhead != pending.sample.playhead_tick) {
                ProbeModel { failure: Some(ProbeFailure::TargetChanged), ..old(self)@ }
            } else {
                old(self)@
            }),
    {
        if self.failure.is_some() {
            return;
        }
        let timeline_changed = match self.timeline_generation {
            Some(generation) => generation != timeline_generation,
            None => false,
        };
        if timeline_changed {
            self.failure = Some(ProbeFailure::TimelineChanged);
            return;
        }
        let target_changed = match &self.pending {
            Some(pending) => pending.first_surface_recorded && (!scrubbing || playhead
                != pending.sample.playhead_tick),
            None => false,
        };
        if target_changed {
            self.failure = Some(ProbeFailure::TargetChanged);
        }
    }

    /// Whether the targets of the pending sample are still to be captured.
    pub fn wants_targets(&self) -> (wants: bool)
        ensures
            wants == (self@.pending matches Some(pending) && pending.sample.targets.len() == 0),
    {
        match &self.pending {
            Some(pending) => pending.sample.targets.len() == 0,
            None => false,
        }
    }

    /// Takes the layers that the pending sample asks for; the first that come stand.
    pub fn targets(&mut self, targets: Vec<LayerTarget>)
        requires
            old(self)@.valid(),
            forall|i: int|
                0 <= i < targets@.len() ==> (#[trigger] targets@[i]).slot < MONITOR_LAYER_COUNT,
        ensures
            final(self)@.valid(),
            final(self)@ == (match old(self)@.pending {
                Some(pending) if pending.sample.targets.len() == 0 => ProbeModel {
                    pending: Some(
                        PendingModel {
                            sample: SampleModel { targets: targets@, ..pending.sample },
                            ..pending
                        },
                    ),
                    failure: if targets@.len() != old(self)@.source_count || !all_full_targets(
                        targets@,
                    ) {
                        Some(ProbeFailure::UnexpectedTargets)
                    } else {
                        old(self)@.failure
                    },
                    ..old(self)@
                },
                _ => old(self)@,
            }),
    {
        match self.pending.take() {
            None => {},
            Some(pending) => {
                let mut pending = pending;
                if pending.sample.targets.len() == 0 {
                    if targets.len() != self.source_count || !every_full_target(&targets) {
                        self.failure = Some(ProbeFailure::UnexpectedTargets);
                    }
                    pending.sample.targets = targets;
                }
                self.pending = Some(pending);
            },
        }
    }

    /// Takes a layer that was decoded and uploaded. It is remembered as the last one of its slot,
    /// and accepted where it is exactly what a target asks for.
    pub fn decoded(&mut self, layer: AcceptedLayer, now: u64)
        requires
            old(self)@.valid(),
        ensures
            final(self)@.valid(),
            final(self)@ == (match old(self)@.pending {
                None => old(self)@,
                Some(pending) => {
                    let frame = AcceptedLayer {
                        input_to_upload_nanos: nearest_u64(now - pending.started) as u64,
                        ..layer
                    };
                    ProbeModel {
                        pending: Some(
                            PendingModel {
                                last_observed: if frame.slot < MONITOR_LAYER_COUNT {
                                    pending.last_observed.update(frame.slot as int, Some(frame))
                                } else {
                                    pending.last_observed
                                },
                                accepted: if is_wanted(pending.sample.targets, frame) {
                                    pending.accepted.update(frame.slot as int, Some(frame))
                                } else {
                                    pending.accepted
                                },
                                ..pending
                            },
                        ),
                        ..old(self)@
                    }
                },
            }),
    {
        match self.pending.take() {
            None => {},
            Some(pending) => {
                let mut pending = pending;
                let ghost before = pending@;
                let frame = AcceptedLayer {
                    input_to_upload_nanos: now.saturating_sub(pending.started),
                    ..layer
                };
                let slot: usize = frame.slot;
                if slot < MONITOR_LAYER_COUNT {
                    pending.last_observed[slot] = Some(frame);
                }
                if any_wants(&pending.sample.targets, &frame) {
                    proof {
                        let i = choose|i: int|
                            0 <= i < before.sample.targets.len() && is_match(
                                #[trigger] before.sample.targets[i],
                                frame,
                            );
                        assert(before.sample.targets[i].slot < MONITOR_LAYER_COUNT);
                    }
                    pending.accepted[slot] = Some(frame);
                }
                self.pending = Some(pending);
            },
        }
    }

    /// Takes the evidence of a paint: a sample is complete once all its targets are painted, and
    /// never on the evidence of an earlier paint or another upload.
    pub fn presented(&mut self, frame_cpu_nanos: u64, evidence: &PresentationEvidence, now: u64)
        requires
            old(self)@.valid(),
        ensures
            final(self)@.valid(),
            final(self)@ == old(self)@.presented(
                frame_cpu_nanos,
                evidence.painted_upload_serials@,
                evidence.paint_serial,
                now,
            ),
    {
        self.last_paint_serial = evidence.paint_serial;
        if self.report_sent || self.failure.is_some() {
            return;
        }
        if now.saturating_sub(self.started) > RUN_LIMIT_NANOS {
            self.failure = Some(ProbeFailure::RunTimedOut);
            return;
        }
        match self.pending.take() {
            None => {},
            Some(pending) => {
                let mut pending = pending;
                let elapsed: u64 = now.saturating_sub(pending.started);
                let ghost before = pending@;
                if !pending.first_surface_recorded {
                    pending.sample.full_cpu_frame_nanos = frame_cpu_nanos;
                    pending.sample.input_to_surface_submission_nanos = elapsed;
                    pending.first_surface_recorded = true;
                }
                assert(pending@ =~= ProbeModel::surfaced(before, frame_cpu_nanos, now));
                if elapsed > SAMPLE_LIMIT_NANOS {
                    self.failure =
                    Some(ProbeFailure::SampleTimedOut { index: pending.sample.index });
                    self.pending = Some(pending);
                    return;
                }
                let complete = pending.sample.targets.len() == self.source_count
                    && evidence.paint_serial > pending.sample.paint_serial_before_input
                    && every_painted(&pending, evidence);
                if !complete {
                    self.pending = Some(pending);
                    return;
                }
                let ghost done = pending@;
                let ghost samples = self@.samples;
                pending.sample.matching_layers_to_surface_nanos = elapsed;
                pending.sample.paint_serial = evidence.paint_serial;
                let mut slot: usize = 0;
                assert(pending.sample.layers@ =~= filled_slots(done.accepted, 0));
                while slot < MONITOR_LAYER_COUNT
                    invariant
                        slot <= MONITOR_LAYER_COUNT,
                        done.accepted == pending.accepted@,
                        pending.sample.layers@ == filled_slots(done.accepted, slot as int),
                        pending.sample@ == (SampleModel {
                            matching_layers_to_surface_nanos: elapsed,
                            paint_serial: evidence.paint_serial,
                            layers: pending.sample.layers@,
                            ..done.sample
                        }),
                    decreases MONITOR_LAYER_COUNT - slot,
                {
                    if let Some(layer) = pending.accepted[slot] {
                        pending.sample.layers.push(layer);
                    }
                    slot += 1;
                }
                let sample = pending.sample;
                assert(sample@ =~= done.completed(evidence.paint_serial, now));
                let ghost model = sample@;
                self.samples.push(sample);
                assert(self@.samples =~= samples.push(model));
            },
        }
    }

    /// Whether the measurement has come to its end and is to be reported.
    pub fn is_over(&self) -> (over: bool)
        ensures
            over == self@.is_over(),
    {
        self.failure.is_some() || (self.samples.len() == TOTAL_SAMPLES && self.released)
    }

    /// What the measurement comes to.
    pub fn summary(&self) -> (summary: ProbeSummary)
        ensures
            ({
                let samples = self@.samples;
                let count = samples.len() as int;
                let input = ProbeModel::measured(samples, Measure::InputToUi, count);
                let frame = ProbeModel::measured(samples, Measure::FullFrame, count);
                let ready = ProbeModel::measured(samples, Measure::LayersToSurface, count);
                let complete = self@.failure is None && samples.len() == TOTAL_SAMPLES
                    && self@.released;
                &&& summary.complete == complete
                &&& summary.budgets_passed == (complete && percentile(input, 95)
                    <= UI_BUDGET_NANOS && percentile(frame, 95) < FRAME_BUDGET_NANOS)
                &&& summary.input_to_ui_cpu == distribution_of(input)
                &&& summary.full_cpu_frame == distribution_of(frame)
                &&& summary.matching_layers_to_surface == distribution_of(ready)
            }),
    {
        let input = distribution(&self.measure(Measure::InputToUi));
        let frame = distribution(&self.measure(Measure::FullFrame));
        let ready = distribution(&self.measure(Measure::LayersToSurface));
        let complete = self.failure.is_none() && self.samples.len() == TOTAL_SAMPLES
            && self.released;
        ProbeSummary {
            complete,
            budgets_passed: complete && input.p95_nanos <= UI_BUDGET_NANOS && frame.p95_nanos
                < FRAME_BUDGET_NANOS,
            input_to_ui_cpu: input,
            full_cpu_frame: frame,
            matching_layers_to_surface: ready,
        }
    }

    fn measure(&self, which: Measure) -> (values: Vec<u64>)
        ensures
            values@ == ProbeModel::measured(self@.samples, which, self@.samples.len() as int),
    {
        let mut values: Vec<u64> = Vec::new();
        let mut i: usize = 0;
        assert(values@ =~= ProbeModel::measured(self@.samples, which, 0));
        while i < self.samples.len()
            invariant
                i <= self.samples@.len(),
                self@.samples.len() == self.samples@.len(),
                values@ == ProbeModel::measured(self@.samples, which, i as int),
            decreases self.samples@.len() - i,
        {
            assert(self@.samples[i as int] == self.samples@[i as int]@);
            if !self.samples[i].warmup {
                let value: u64 = match which {
                    Measure::InputToUi => self.samples[i].input_to_ui_cpu_nanos,
                    Measure::FullFrame => self.samples[i].full_cpu_frame_nanos,
                    Measure::LayersToSurface => self.samples[i].matching_layers_to_surface_nanos,
                };
                values.push(value);
            }
            i += 1;
        }
        values
    }

    /// Notes that the report was sent; nothing is injected or measured any more.
    pub fn mark_reported(&mut self)
        requires
            old(self)@.valid(),
        ensures
            final(self)@.valid(),
            final(self)@ == (ProbeModel { report_sent: true, ..old(self)@ }),
    {
        self.report_sent = true;
    }

    pub fn is_reported(&self) -> (reported: bool)
        ensures
            reported == self@.report_sent,
    {
        self.report_sent
    }

    pub fn failure(&self) -> (failure: Option<ProbeFailure>)
        ensures
            failure == self@.failure,
    {
        self.failure
    }

    pub fn pending(&self) -> (pending: Option<&Pending>)
        ensures
            match pending {
                Some(pending) => self@.pending == Some(pending@),
                None => self@.pending is None,
            },
    {
        match &self.pending {
            Some(pending) => Some(pending),
            None => None,
        }
    }

    pub fn sample_count(&self) -> (count: usize)
        ensures
            count == self@.samples.len(),
    {
        self.samples.len()
    }

    pub fn sample(&self, index: usize) -> (sample: &Sample)
        requires
            index < self@.samples.len(),
        ensures
            sample@ == self@.samples[index as int],
    {
        &self.samples[index]
    }
}

/// The distribution of durations, as a value.
pub open spec fn distribution_of(values: Seq<u64>) -> Distribution {
    Distribution {
        samples: values.len() as usize,
        p50_nanos: percentile(values, 50),
        p95_nanos: percentile(values, 95),
        max_nanos: percentile(values, 100),
    }
}

/// Whether every source is of full size.
pub open spec fn all_full_size(sizes: Seq<Option<(u32, u32)>>) -> bool {
    forall|i: int| 0 <= i < sizes.len() ==> (#[trigger] sizes[i]) == Some((1920u32, 1080u32))
}

fn every_full_size(sizes: &Vec<Option<(u32, u32)>>) -> (all: bool)
    ensures
        all == all_full_size(sizes@),
{
    let mut i: usize = 0;
    while i < sizes.len()
        invariant
            i <= sizes@.len(),
            forall|j: int| 0 <= j < i ==> (#[trigger] sizes@[j]) == Some((1920u32, 1080u32)),
        decreases sizes@.len() - i,
    {
        let full = match sizes[i] {
            Some((width, height)) => width == 1920 && height == 1080,
            None => false,
        };
        if !full {
            assert(sizes@[i as int] != Some((1920u32, 1080u32)));
            return false;
        }
        i += 1;
    }
    true
}

/// Whether every target asks for the full output size.
pub open spec fn all_full_targets(targets: Seq<LayerTarget>) -> bool {
    forall|i: int|
        0 <= i < targets.len() ==> (#[trigger] targets[i]).output_width == 1920
            && targets[i].output_height == 1080
}

fn every_full_target(targets: &Vec<LayerTarget>) -> (all: bool)
    ensures
        all == all_full_targets(targets@),
{
    let mut i: usize = 0;
    while i < targets.len()
        invariant
            i <= targets@.len(),
            forall|j: int|
                0 <= j < i ==> (#[trigger] targets@[j]).output_width == 1920
                    && targets@[j].output_height == 1080,
        decreases targets@.len() - i,
    {
        if targets[i].output_width != 1920 || targets[i].output_height != 1080 {
            assert(!(targets@[i as int].output_width == 1920 && targets@[i as int].output_height
                == 1080));
            return false;
        }
        i += 1;
    }
    true
}

fn any_wants(targets: &Vec<LayerTarget>, frame: &AcceptedLayer) -> (wanted: bool)
    ensures
        wanted == is_wanted(targets@, *frame),
{
    let mut i: usize = 0;
    while i < targets.len()
        invariant
            i <= targets@.len(),
            forall|j: int| 0 <= j < i ==> !is_match(#[trigger] targets@[j], *frame),
        decreases targets@.len() - i,
    {
        if frame_matches(&targets[i], frame) {
            assert(is_match(targets@[i as int], *frame));
            return true;
        }
        i += 1;
    }
    false
}

fn every_painted(pending: &Pending, evidence: &PresentationEvidence) -> (all: bool)
    requires
        pending@.valid(),
    ensures
        all == forall|i: int|
            0 <= i < pending@.sample.targets.len() ==> is_painted(
                #[trigger] pending@.sample.targets[i],
                pending@.accepted,
                evidence.painted_upload_serials@,
            ),
{
    let mut i: usize = 0;
    while i < pending.sample.targets.len()
        invariant
            pending@.valid(),
            i <= pending.sample.targets@.len(),
            forall|j: int|
                0 <= j < i ==> is_painted(
                    #[trigger] pending@.sample.targets[j],
                    pending@.accepted,
                    evidence.painted_upload_serials@,
                ),
        decreases pending.sample.targets@.len() - i,
    {
        let target = pending.sample.targets[i];
        assert(target == pending@.sample.targets[i as int]);
        let slot: usize = target.slot;
        let painted = match pending.accepted[slot] {
            Some(layer) => frame_matches(&target, &layer)
                && evidence.painted_upload_serials[slot] == Some(layer.upload_serial),
            None => false,
        };
        if !painted {
            assert(!is_painted(
                pending@.sample.targets[i as int],
                pending@.accepted,
                evidence.painted_upload_serials@,
            ));
            return false;
        }
        i += 1;
    }
    true
}

/// Every step of the gesture moves to another place of the ruler.
pub proof fn law_scrub_positions_differ(first: int, second: int)
    requires
        0 <= first < second < TOTAL_SAMPLES,
    ensures
        scrub_position(first) != scrub_position(second),
        1 <= scrub_position(first) <= 149,
{
    let (a, b) = (first * 37, second * 37);
    vstd::arithmetic::div_mod::lemma_fundamental_div_mod(a, 149);
    vstd::arithmetic::div_mod::lemma_fundamental_div_mod(b, 149);
    if a % 149 == b % 149 {
        let steps = second - first;
        let turns = b / 149 - a / 149;
        assert(37 * steps == 149 * turns);
        assert(37 * (steps - 4 * turns) == turns);
        assert(0 < turns < 37);
        assert(false);
    }
}

/// A failure is final: neither a paint nor input completes or begins a sample afterwards, and the
/// evidence that explains it stays.
pub proof fn law_failure_is_final(
    probe: ProbeModel,
    frame_cpu_nanos: u64,
    painted: Seq<Option<u64>>,
    paint_serial: u64,
    now: u64,
    has_geometry: bool,
    scrubbing: bool,
)
    requires
        probe.failure is Some,
    ensures
        ({
            let after = probe.presented(frame_cpu_nanos, painted, paint_serial, now);
            &&& after.failure == probe.failure
            &&& after.samples == probe.samples
            &&& after.pending == probe.pending
        }),
        probe.inject_step(has_geometry, scrubbing) == InjectStep::Nothing,
        probe.injected(has_geometry, scrubbing) == probe,
{
}

/// A sample completes only on a paint after its input that shows, for every source, exactly the
/// upload of the frame it asked for.
pub proof fn law_samples_complete_on_exact_evidence(
    probe: ProbeModel,
    frame_cpu_nanos: u64,
    painted: Seq<Option<u64>>,
    paint_serial: u64,
    now: u64,
    i: int,
)
    requires
        probe.presented(frame_cpu_nanos, painted, paint_serial, now).samples.len()
            > probe.samples.len(),
        probe.pending matches Some(pending) && 0 <= i < pending.sample.targets.len(),
    ensures
        probe.pending matches Some(pending) && {
            &&& pending.sample.targets.len() == probe.source_count
            &&& paint_serial > pending.sample.paint_serial_before_input
            &&& is_painted(pending.sample.targets[i], pending.accepted, painted)
        },
        probe.failure is None,
{
    let pending = ProbeModel::surfaced(probe.pending->0, frame_cpu_nanos, now);
    assert(pending.sample.targets == probe.pending->0.sample.targets);
    assert(pending.is_complete(probe.source_count, painted, paint_serial));
    assert(is_painted(pending.sample.targets[i], pending.accepted, painted));
}

/// A frame is the one a target asks for exactly where slot, medium, clip, generation and request agree,
/// both are of full size, it was uploaded, and it lies no more than a tick before its target and no more
/// than 33,334 after it.
pub proof fn law_match_is_exact(target: LayerTarget, frame: AcceptedLayer)
    requires
        -0x4000_0000_0000_0000 <= target.requested_source_tick <= 0x3FFF_FFFF_FFFF_FFFF,
        -0x4000_0000_0000_0000 <= frame.source_tick <= 0x3FFF_FFFF_FFFF_FFFF,
    ensures
        is_match(target, frame) <==> {
            &&& frame.slot == target.slot
            &&& frame.media_id == target.media_id
            &&& frame.clip_id == target.clip_id
            &&& frame.generation == target.generation
            &&& frame.request_id == target.request_id
            &&& target.output_width == 1_920
            &&& target.output_height == 1_080
            &&& frame.output_width == 1_920
            &&& frame.output_height == 1_080
            &&& -1 <= frame.source_tick - target.requested_source_tick <= 33_334
            &&& frame.upload_serial != 0
        },
{
}

/// A target is painted exactly where its slot holds its frame and the paint shows that upload there.
pub proof fn law_painted_is_exact(
    target: LayerTarget,
    accepted: Seq<Option<AcceptedLayer>>,
    painted: Seq<Option<u64>>,
)
    ensures
        is_painted(target, accepted, painted) <==> (accepted[target.slot as int] is Some && is_match(
            target,
            accepted[target.slot as int]->0,
        ) && painted[target.slot as int] == Some(accepted[target.slot as int]->0.upload_serial)),
{
}

/// Where a step moves to: steps of 37 places, round and round over 149 of them.
pub proof fn law_scrub_steps_by_thirty_seven(index: int)
    requires
        0 <= index,
    ensures
        1 <= scrub_position(index) <= 149,
        exists|rounds: int|
            #![trigger 149 * rounds]
            37 * index == 149 * rounds + (scrub_position(index) - 1),
{
    vstd::arithmetic::div_mod::lemma_fundamental_div_mod(index * 37, 149);
    let rounds = (index * 37) / 149;
    assert(37 * index == 149 * rounds + (scrub_position(index) - 1));
}

/// The gesture: nothing before the probe is armed, after it failed or has reported, or without a ruler;
/// else one press first, a motion for each sample while none is pending and the editor follows, and one
/// release once all forty-eight are there.
pub proof fn law_gesture_goes_step_by_step(probe: ProbeModel, has_geometry: bool, scrubbing: bool)
    requires
        probe.valid(),
    ensures
        ({
            let step = probe.inject_step(has_geometry, scrubbing);
            let after = probe.injected(has_geometry, scrubbing);
            let on = probe.armed && !probe.report_sent && probe.failure is None && has_geometry;
            let done = probe.samples.len() == 48;
            &&& !on ==> step is Nothing && after == probe
            &&& on && !probe.pressed ==> step is Press && after.pressed && after.released
                == probe.released && after.failure is None && after.samples == probe.samples
                && after.pending == probe.pending
            &&& on && probe.pressed && done && !probe.released ==> step is Release && after.released
                && after.pressed && after.failure is None && after.samples == probe.samples
            &&& on && probe.pressed && !(done && !probe.released) && (probe.pending is Some
                || probe.released) ==> step is Nothing && after == probe
            &&& on && probe.pressed && !done && probe.pending is None && !probe.released
                && !scrubbing ==> step is Nothing && after.failure == Some(
                ProbeFailure::GestureNotAcquired,
            ) && after.samples == probe.samples && after.pending is None
            &&& on && probe.pressed && !done && probe.pending is None && !probe.released && scrubbing
                ==> (step matches InjectStep::Move { index, position } && index
                == probe.samples.len() && position == scrub_position(probe.samples.len() as int))
                && after == probe
        }),
{
}

/// A sample begins with its place in the series, as warm-up among the first eight, with nothing measured
/// yet and no target.
pub proof fn law_samples_begin_blank(probe: ProbeModel, expected_playhead_tick: i64)
    ensures
        ({
            let sample = probe.next_sample(expected_playhead_tick);
            &&& sample.index == probe.samples.len()
            &&& sample.warmup <==> probe.samples.len() < 8
            &&& sample.expected_playhead_tick == expected_playhead_tick
            &&& sample.paint_serial_before_input == probe.last_paint_serial
            &&& sample.targets.len() == 0
            &&& sample.layers.len() == 0
            &&& sample.input_to_ui_cpu_nanos == 0
            &&& sample.full_cpu_frame_nanos == 0
            &&& sample.input_to_surface_submission_nanos == 0
            &&& sample.matching_layers_to_surface_nanos == 0
            &&& sample.paint_serial == 0
            &&& sample.playhead_tick == 0
            &&& sample.sequence_generation == 0
        }),
{
}

/// The first surface after an input is timed, and no later one.
pub proof fn law_first_surface_is_timed(pending: PendingModel, frame_cpu_nanos: u64, now: u64)
    requires
        pending.started <= now,
    ensures
        ({
            let after = ProbeModel::surfaced(pending, frame_cpu_nanos, now);
            &&& after.first_surface_recorded
            &&& pending.first_surface_recorded ==> after == pending
            &&& !pending.first_surface_recorded ==> after.sample.full_cpu_frame_nanos
                == frame_cpu_nanos && after.sample.input_to_surface_submission_nanos == now
                - pending.started
            &&& after.sample.targets == pending.sample.targets
            &&& after.sample.index == pending.sample.index
            &&& after.sample.warmup == pending.sample.warmup
            &&& after.sample.playhead_tick == pending.sample.playhead_tick
            &&& after.sample.input_to_ui_cpu_nanos == pending.sample.input_to_ui_cpu_nanos
            &&& after.sample.paint_serial_before_input == pending.sample.paint_serial_before_input
            &&& after.accepted == pending.accepted
            &&& after.last_observed == pending.last_observed
            &&& after.started == pending.started
        }),
{
}

/// A paint: a run that takes more than 150 seconds fails, a sample that takes more than five fails, and
/// otherwise the sample completes exactly where every target is painted by a paint after its input. What
/// completes is timed by this paint and holds the accepted layers.
pub proof fn law_paints_complete_or_fail_samples(
    probe: ProbeModel,
    frame_cpu_nanos: u64,
    painted: Seq<Option<u64>>,
    paint_serial: u64,
    now: u64,
)
    requires
        probe.valid(),
        !probe.report_sent,
        probe.failure is None,
        probe.started <= now,
        probe.pending matches Some(pending) ==> pending.started <= now,
    ensures
        ({
            let after = probe.presented(frame_cpu_nanos, painted, paint_serial, now);
            &&& after.last_paint_serial == paint_serial
            &&& now - probe.started > 150_000_000_000 ==> after.failure == Some(
                ProbeFailure::RunTimedOut,
            ) && after.samples == probe.samples && after.pending == probe.pending
            &&& now - probe.started <= 150_000_000_000 && probe.pending is None ==> after.failure
                is None && after.samples == probe.samples && after.pending is None
            &&& (now - probe.started <= 150_000_000_000 && probe.pending is Some) ==> {
                let pending = probe.pending->0;
                let sample = pending.sample;
                let all = sample.targets.len() == probe.source_count && paint_serial
                    > sample.paint_serial_before_input && forall|i: int|
                    0 <= i < sample.targets.len() ==> is_painted(
                        #[trigger] sample.targets[i],
                        pending.accepted,
                        painted,
                    );
                &&& now - pending.started > 5_000_000_000 ==> after.failure == Some(
                    ProbeFailure::SampleTimedOut { index: sample.index as usize },
                ) && after.samples == probe.samples && after.pending is Some
                &&& now - pending.started <= 5_000_000_000 && all ==> {
                    &&& after.failure is None
                    &&& after.pending is None
                    &&& after.samples.len() == probe.samples.len() + 1
                    &&& after.samples.drop_last() == probe.samples
                    &&& after.samples.last().matching_layers_to_surface_nanos == now
                        - pending.started
                    &&& after.samples.last().paint_serial == paint_serial
                    &&& after.samples.last().index == sample.index
                    &&& after.samples.last().targets == sample.targets
                    &&& after.samples.last().input_to_ui_cpu_nanos == sample.input_to_ui_cpu_nanos
                }
                &&& now - pending.started <= 5_000_000_000 && !all ==> after.failure is None
                    && after.samples == probe.samples && after.pending is Some
            }
        }),
{
    if let Some(before) = probe.pending {
        let pending = ProbeModel::surfaced(before, frame_cpu_nanos, now);
        assert(pending.sample.targets == before.sample.targets);
        assert(pending.accepted == before.accepted);
        if pending.is_complete(probe.source_count, painted, paint_serial) {
            assert(forall|i: int|
                0 <= i < before.sample.targets.len() ==> is_painted(
                    #[trigger] before.sample.targets[i],
                    before.accepted,
                    painted,
                ));
        }
        let after = probe.presented(frame_cpu_nanos, painted, paint_serial, now);
        if after.samples.len() > probe.samples.len() {
            assert(after.samples.drop_last() =~= probe.samples);
        }
    }
}

/// A completed sample holds each accepted layer once, in the order of the slots.
pub proof fn law_completed_samples_hold_their_layers(
    slots: Seq<Option<AcceptedLayer>>,
    count: int,
    slot: int,
    k: int,
)
    requires
        0 <= count <= slots.len(),
    ensures
        0 <= slot < count && slots[slot] is Some ==> filled_slots(slots, count).contains(
            slots[slot]->0,
        ),
        0 <= k < filled_slots(slots, count).len() ==> exists|s: int|
            k <= s < count && (#[trigger] slots[s]) == Some(filled_slots(slots, count)[k]),
        filled_slots(slots, count).len() <= count,
    decreases count,
{
    if count > 0 {
        let before = filled_slots(slots, count - 1);
        let after = filled_slots(slots, count);
        law_completed_samples_hold_their_layers(slots, count - 1, slot, k);
        if 0 <= slot < count && slots[slot] is Some {
            if slot < count - 1 {
                let i = choose|i: int| 0 <= i < before.len() && before[i] == slots[slot]->0;
                assert(after[i] == slots[slot]->0);
            } else {
                assert(after[before.len() as int] == slots[slot]->0);
            }
        }
        if 0 <= k < after.len() {
            if k < before.len() {
                let s = choose|s: int| k <= s < count - 1 && (#[trigger] slots[s]) == Some(before[k]);
                assert(slots[s] == Some(after[k]));
            } else {
                assert(slots[count - 1] == Some(after[k]));
            }
        }
    }
}

/// A frame is wanted exactly where one of the targets asks for it; a run is over exactly where it failed
/// or all forty-eight samples are there and the gesture was released.
pub proof fn law_run_ends_with_all_samples(probe: ProbeModel)
    ensures
        probe.is_over() <==> probe.failure is Some || (probe.samples.len() == 48 && probe.released),
        probe.active() <==> probe.armed && !probe.report_sent && probe.failure is None,
{
}

/// Only samples after the warm-up are measured, each by the duration that is asked for.
pub proof fn law_warm_up_is_not_measured(
    samples: Seq<SampleModel>,
    which: Measure,
    count: int,
)
    requires
        0 <= count < samples.len(),
    ensures
        ProbeModel::measured(samples, which, 0).len() == 0,
        samples[count].warmup ==> ProbeModel::measured(samples, which, count + 1)
            == ProbeModel::measured(samples, which, count),
        !samples[count].warmup ==> ProbeModel::measured(samples, which, count + 1)
            == ProbeModel::measured(samples, which, count).push(
            match which {
                Measure::InputToUi => samples[count].input_to_ui_cpu_nanos,
                Measure::FullFrame => samples[count].full_cpu_frame_nanos,
                Measure::LayersToSurface => samples[count].matching_layers_to_surface_nanos,
            },
        ),
{
}

/// The model of a sample holds each of its fields.
pub proof fn law_sample_model_is_faithful(sample: Sample)
    ensures
        sample@.index == sample.index,
        sample@.warmup == sample.warmup,
        sample@.playhead_tick == sample.playhead_tick,
        sample@.expected_playhead_tick == sample.expected_playhead_tick,
        sample@.sequence_generation == sample.sequence_generation,
        sample@.input_to_ui_cpu_nanos == sample.input_to_ui_cpu_nanos,
        sample@.full_cpu_frame_nanos == sample.full_cpu_frame_nanos,
        sample@.input_to_surface_submission_nanos == sample.input_to_surface_submission_nanos,
        sample@.matching_layers_to_surface_nanos == sample.matching_layers_to_surface_nanos,
        sample@.paint_serial == sample.paint_serial,
        sample@.paint_serial_before_input == sample.paint_serial_before_input,
        sample@.targets == sample.targets@,
        sample@.layers == sample.layers@,
{
}

/// Sources and targets are of full size exactly where each of them is.
pub proof fn law_full_size_is_for_all(
    sizes: Seq<Option<(u32, u32)>>,
    targets: Seq<LayerTarget>,
    i: int,
)
    ensures
        all_full_size(sizes) && 0 <= i < sizes.len() ==> sizes[i] == Some((1_920u32, 1_080u32)),
        (forall|j: int| 0 <= j < sizes.len() ==> (#[trigger] sizes[j]) == Some(
            (1_920u32, 1_080u32),
        )) ==> all_full_size(sizes),
        all_full_targets(targets) && 0 <= i < targets.len() ==> targets[i].output_width == 1_920
            && targets[i].output_height == 1_080,
        (forall|j: int|
            0 <= j < targets.len() ==> (#[trigger] targets[j]).output_width == 1_920
                && targets[j].output_height == 1_080) ==> all_full_targets(targets),
{
}

/// A probe is armed once, and only when everything is ready and each source is there in full size; else it
/// fails. Nothing happens before everything is ready.
pub proof fn law_probe_is_armed_for_full_size_sources(
    probe: &mut Probe,
    resources_ready: bool,
    sizes: &Vec<Option<(u32, u32)>>,
    timeline_generation: u64,
)
    requires
        call_ensures(Probe::arm, (probe, resources_ready, sizes, timeline_generation), ()),
    ensures
        ({
            let verified = sizes@.len() == old(probe)@.source_count && forall|i: int|
                0 <= i < sizes@.len() ==> (#[trigger] sizes@[i]) == Some((1_920u32, 1_080u32));
            &&& old(probe)@.armed || !resources_ready ==> final(probe)@ == old(probe)@
            &&& !old(probe)@.armed && resources_ready && verified ==> final(probe)@.armed && final(probe)@.timeline_generation == Some(timeline_generation) && final(probe)@.failure == old(probe)@.failure
            &&& !old(probe)@.armed && resources_ready && !verified ==> !final(probe)@.armed && final(probe)@.failure == Some(ProbeFailure::SourcesNotVerified)
            &&& final(probe)@.samples == old(probe)@.samples
            &&& final(probe)@.pending == old(probe)@.pending
        }),
{
    law_full_size_is_for_all(sizes@, Seq::empty(), 0);
}

/// Input is measured to the end of the UI's work, and fails the run exactly where the editor does not
/// follow to the expected place.
pub proof fn law_ui_work_is_measured_and_checked(
    probe: &mut Probe,
    playhead: i64,
    timeline_generation: u64,
    scrubbing: bool,
    now: u64,
)
    requires
        call_ensures(Probe::ui_complete, (probe, playhead, timeline_generation, scrubbing, now), ()),
        old(probe)@.pending matches Some(pending) ==> pending.started <= now,
    ensures
        old(probe)@.pending is None ==> final(probe)@ == old(probe)@,
        old(probe)@.pending matches Some(pending) ==> {
            &&& final(probe)@.pending matches Some(after) && after.sample.input_to_ui_cpu_nanos == now
                - pending.started && after.sample.playhead_tick == playhead
                && after.sample.sequence_generation == timeline_generation && after.sample.targets
                == pending.sample.targets && after.accepted == pending.accepted && after.started
                == pending.started
            &&& !scrubbing || playhead != pending.sample.expected_playhead_tick ==> final(probe)@.failure == Some(ProbeFailure::UnexpectedPlayhead)
            &&& scrubbing && playhead == pending.sample.expected_playhead_tick ==> final(probe)@.failure == old(probe)@.failure
        },
{
}

/// Nothing but the measurement may move the editor: another timeline fails the run, and so does another
/// place once a surface was recorded for the sample. The first failure stands.
pub proof fn law_foreign_changes_fail_the_run(
    probe: &mut Probe,
    timeline_generation: u64,
    scrubbing: bool,
    playhead: i64,
)
    requires
        call_ensures(Probe::check_editor_state, (probe, timeline_generation, scrubbing, playhead), ()),
    ensures
        old(probe)@.failure is Some ==> final(probe)@ == old(probe)@,
        old(probe)@.failure is None ==> {
            let moved = old(probe)@.timeline_generation matches Some(generation) && generation
                != timeline_generation;
            let left = old(probe)@.pending matches Some(pending) && pending.first_surface_recorded
                && (!scrubbing || playhead != pending.sample.playhead_tick);
            &&& moved ==> final(probe)@.failure == Some(ProbeFailure::TimelineChanged)
            &&& !moved && left ==> final(probe)@.failure == Some(ProbeFailure::TargetChanged)
            &&& !moved && !left ==> final(probe)@ == old(probe)@
        },
        final(probe)@.pending == old(probe)@.pending,
        final(probe)@.samples == old(probe)@.samples,
{
}

/// The first targets that come stand, and fail the run exactly where they are not one for each source, in
/// full size.
pub proof fn law_first_targets_stand(probe: &mut Probe, targets: Vec<LayerTarget>)
    requires
        call_ensures(Probe::targets, (probe, targets), ()),
    ensures
        ({
            let fit = targets@.len() == old(probe)@.source_count && forall|i: int|
                0 <= i < targets@.len() ==> (#[trigger] targets@[i]).output_width == 1_920
                    && targets@[i].output_height == 1_080;
            &&& old(probe)@.pending is None ==> final(probe)@ == old(probe)@
            &&& old(probe)@.pending matches Some(pending) ==> {
                &&& pending.sample.targets.len() > 0 ==> final(probe)@ == old(probe)@
                &&& pending.sample.targets.len() == 0 ==> (final(probe)@.pending matches Some(after)
                    && after.sample.targets == targets@ && after.accepted == pending.accepted
                    && after.sample.index == pending.sample.index) && (fit ==> final(probe)@.failure == old(probe)@.failure) && (!fit ==> final(probe)@.failure == Some(
                    ProbeFailure::UnexpectedTargets,
                ))
            }
        }),
{
    law_full_size_is_for_all(Seq::empty(), targets@, 0);
}

/// A decoded layer is remembered in its slot, and accepted there exactly where a target asks for it.
pub proof fn law_decoded_layers_are_accepted_for_their_target(
    probe: &mut Probe,
    layer: AcceptedLayer,
    now: u64,
    slot: int,
)
    requires
        call_ensures(Probe::decoded, (probe, layer, now), ()),
        old(probe)@.pending matches Some(pending) && pending.started <= now && pending.valid(),
        layer.slot < 4,
        0 <= slot < 4,
    ensures
        ({
            let before = old(probe)@.pending->0;
            let frame = AcceptedLayer {
                input_to_upload_nanos: (now - before.started) as u64,
                ..layer
            };
            let wanted = exists|i: int|
                0 <= i < before.sample.targets.len() && is_match(
                    #[trigger] before.sample.targets[i],
                    frame,
                );
            &&& final(probe)@.pending matches Some(after) && after.last_observed[layer.slot as int]
                == Some(frame) && (wanted ==> after.accepted[layer.slot as int] == Some(frame)) && (
            !wanted ==> after.accepted == before.accepted) && (slot != layer.slot
                ==> after.accepted[slot] == before.accepted[slot] && after.last_observed[slot]
                == before.last_observed[slot])
            &&& final(probe)@.failure == old(probe)@.failure
            &&& final(probe)@.samples == old(probe)@.samples
        }),
{
}

/// A run passes its budgets exactly where it is complete, and of its measured samples the ninety-fifth
/// percentile of the UI's work is a millisecond at most, and that of the frame under eight.
pub proof fn law_budgets_are_judged_on_complete_runs(probe: &Probe, summary: ProbeSummary)
    requires
        call_ensures(Probe::summary, (probe,), summary),
    ensures
        summary.complete <==> probe@.failure is None && probe@.samples.len() == 48 && probe@.released,
        summary.budgets_passed <==> summary.complete && summary.input_to_ui_cpu.p95_nanos
            <= 1_000_000 && summary.full_cpu_frame.p95_nanos < 8_000_000,
{
}

/// A pending sample begins with no layers in any slot, at the moment of its input.
pub proof fn law_pending_samples_begin_empty(
    probe: &mut Probe,
    expected_playhead_tick: i64,
    now: u64,
    slot: int,
)
    requires
        call_ensures(Probe::begin_sample, (probe, expected_playhead_tick, now), ()),
        0 <= slot < 4,
    ensures
        final(probe)@.pending matches Some(pending) && pending.started == now
            && !pending.first_surface_recorded && pending.accepted[slot] is None
            && pending.last_observed[slot] is None && pending.sample.index == old(probe)@.samples.len() && pending.sample.expected_playhead_tick == expected_playhead_tick
            && pending.sample.targets.len() == 0,
        final(probe)@.samples == old(probe)@.samples,
        final(probe)@.failure == old(probe)@.failure,
{
}

/// What is said of a failure names it.
pub proof fn law_failures_are_named(index: usize)
    ensures
        ProbeFailure::SourcesNotVerified.text()
            == "source analysis did not verify all Full-1080p inputs"@,
        ProbeFailure::GestureNotAcquired.text()
            == "ruler press did not acquire the real scrub gesture"@,
        ProbeFailure::TimelineChanged.text()
            == "timeline changed during the fixed qualification workload"@,
        ProbeFailure::TargetChanged.text()
            == "ruler target changed while waiting for its matching layers"@,
        ProbeFailure::UnexpectedPlayhead.text()
            == "injected ruler motion did not produce its expected playhead"@,
        ProbeFailure::UnexpectedTargets.text()
            == "active source count or Full-1080p request dimensions differ"@,
        ProbeFailure::RunTimedOut.text() == "windowed probe exceeded 150 seconds"@,
        (ProbeFailure::SampleTimedOut { index }).text() == "sample "@ + decimal(index as nat)
            + " timed out waiting for exact native layer identities"@,
{
}

} // verus!
