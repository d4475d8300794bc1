//! What a timeline asks of the audio transport.
use crate::arith::{nearest_i64, saturating_sub_ticks};
use crate::source_path::{PathModel, SourcePath};
use crate::table::TableKey;
use vstd::prelude::*;

verus! {

/// A single-precision number by its IEEE 754 bit pattern.
#[derive(Clone, Copy, Debug)]
pub struct Level {
    pub bits: u32,
}

impl PartialEq for Level {
    fn eq(&self, other: &Level) -> (same: bool) {
        self.same_level(*other)
    }
}

impl vstd::std_specs::cmp::PartialEqSpecImpl for Level {
    open spec fn obeys_eq_spec() -> bool {
        true
    }

    open spec fn eq_spec(&self, other: &Level) -> bool {
        self.equals(*other)
    }
}

/// The pattern of a magnitude: everything but the sign.
pub open spec fn magnitude(bits: u32) -> u32 {
    (bits % 0x8000_0000) as u32
}

/// Whether a pattern is that of a finite number.
pub open spec fn is_finite_number(bits: u32) -> bool {
    magnitude(bits) < 0x7F80_0000
}

/// Whether a pattern is that of no number.
pub open spec fn is_nan(bits: u32) -> bool {
    magnitude(bits) > 0x7F80_0000
}

impl Level {
    /// Whether two levels compare equal as numbers: both zeros are the same number, and what is
    /// no number differs from everything.
    pub open spec fn equals(self, other: Level) -> bool {
        &&& !is_nan(self.bits) && !is_nan(other.bits)
        &&& self.bits == other.bits || (magnitude(self.bits) == 0 && magnitude(other.bits) == 0)
    }

    pub fn is_finite(self) -> (finite: bool)
        ensures
            finite == is_finite_number(self.bits),
    {
        self.bits % 0x8000_0000 < 0x7F80_0000
    }

    pub fn same_level(self, other: Level) -> (same: bool)
        ensures
            same == self.equals(other),
    {
        let left: u32 = self.bits % 0x8000_0000;
        let right: u32 = other.bits % 0x8000_0000;
        left <= 0x7F80_0000 && right <= 0x7F80_0000 && (self.bits == other.bits || (left == 0
            && right == 0))
    }
}

/// The side of an equal-power audio transition that a clip supplies.
#[derive(Clone, Copy, Debug, PartialEq, Eq, Structural)]
pub enum AudioTransitionRole {
    Outgoing,
    Incoming,
}

/// A sample-accurate equal-power envelope applied after ordinary clip fades.
#[derive(Clone, Copy, Debug, PartialEq, Eq, Structural)]
pub struct AudioTransitionEnvelope {
    pub role: AudioTransitionRole,
    pub start_clip_tick: i64,
    pub duration_ticks: i64,
}

/// A native real-time processor supported by the audio preview engine.
///
/// The timeline intentionally carries a broader effect catalog. Unsupported entries are
/// omitted by the app bridge rather than silently approximated during playback.
#[derive(Clone, Copy, Debug)]
pub enum AudioProcessorSpec {
    HighPass { hz: u32 },
    LowPass { hz: u32 },
    Eq { hz: u32, db: Level },
    StereoWidth { width: Level },
}

impl PartialEq for AudioProcessorSpec {
    fn eq(&self, other: &AudioProcessorSpec) -> (same: bool) {
        self.same_processor(other)
    }
}

impl vstd::std_specs::cmp::PartialEqSpecImpl for AudioProcessorSpec {
    open spec fn obeys_eq_spec() -> bool {
        true
    }

    open spec fn eq_spec(&self, other: &AudioProcessorSpec) -> bool {
        self.equals(*other)
    }
}

impl AudioProcessorSpec {
    /// Whether two processors are set up alike.
    pub open spec fn equals(self, other: AudioProcessorSpec) -> bool {
        match (self, other) {
            (
                AudioProcessorSpec::HighPass { hz: left },
                AudioProcessorSpec::HighPass { hz: right },
            ) => left == right,
            (AudioProcessorSpec::LowPass { hz: left }, AudioProcessorSpec::LowPass { hz: right }) =>
                left == right,
            (
                AudioProcessorSpec::Eq { hz: left, db: left_db },
                AudioProcessorSpec::Eq { hz: right, db: right_db },
            ) => left == right && left_db.equals(right_db),
            (
                AudioProcessorSpec::StereoWidth { width: left },
                AudioProcessorSpec::StereoWidth { width: right },
            ) => left.equals(right),
            _ => false,
        }
    }

    pub fn same_processor(&self, other: &AudioProcessorSpec) -> (same: bool)
        ensures
            same == self.equals(*other),
    {
        match (*self, *other) {
            (
                AudioProcessorSpec::HighPass { hz: left },
                AudioProcessorSpec::HighPass { hz: right },
            ) => left == right,
            (AudioProcessorSpec::LowPass { hz: left }, AudioProcessorSpec::LowPass { hz: right }) =>
                left == right,
            (
                AudioProcessorSpec::Eq { hz: left, db: left_db },
                AudioProcessorSpec::Eq { hz: right, db: right_db },
            ) => left == right && left_db.same_level(right_db),
            (
                AudioProcessorSpec::StereoWidth { width: left },
                AudioProcessorSpec::StereoWidth { width: right },
            ) => left.same_level(right),
            _ => false,
        }
    }
}

/// Whether two chains of processors are set up alike.
pub open spec fn equal_effects(
    left: Seq<AudioProcessorSpec>,
    right: Seq<AudioProcessorSpec>,
) -> bool {
    left.len() == right.len() && forall|i: int|
        0 <= i < left.len() ==> (#[trigger] left[i]).equals(right[i])
}

pub fn same_effects(left: &Vec<AudioProcessorSpec>, right: &Vec<AudioProcessorSpec>) -> (same: bool)
    ensures
        same == equal_effects(left@, right@),
{
    if left.len() != right.len() {
        return false;
    }
    let mut i: usize = 0;
    while i < left.len()
        invariant
            i <= left@.len(),
            left@.len() == right@.len(),
            forall|j: int| 0 <= j < i ==> (#[trigger] left@[j]).equals(right@[j]),
        decreases left@.len() - i,
    {
        if !left[i].same_processor(&right[i]) {
            assert(!left@[i as int].equals(right@[i as int]));
            return false;
        }
        i += 1;
    }
    true
}

/// Timeline lane identity; enables independent decoder/session reuse.
#[derive(Clone, Copy, Debug, Eq, Hash, PartialEq, Structural)]
pub struct LaneKey {
    pub track_id: u32,
    pub clip_id: u32,
}

impl TableKey for LaneKey {
    fn same_key(&self, other: &Self) -> (same: bool) {
        *self == *other
    }
}

/// One audible clip. Levels and curves are single-precision numbers by their bit patterns.
#[derive(Debug, PartialEq)]
pub struct AudioTarget {
    pub track_id: u32,
    pub clip_id: u32,
    pub path: SourcePath,
    pub source_tick: i64,
    pub clip_tick: i64,
    pub gain_db: Level,
    pub gain_left_db: Level,
    pub gain_right_db: Level,
    pub pan: Level,
    /// Ordered clip-then-track processors for this lane.
    pub effects: Vec<AudioProcessorSpec>,
    pub fade_in_ticks: i64,
    pub fade_in_curve: Level,
    pub fade_out_ticks: i64,
    pub fade_out_curve: Level,
    pub clip_duration_ticks: i64,
    pub transition: Option<AudioTransitionEnvelope>,
}

/// The mathematical value of an [`AudioTarget`].
#[verifier::ext_equal]
pub struct TargetModel {
    pub track_id: u32,
    pub clip_id: u32,
    pub path: PathModel,
    pub source_tick: i64,
    pub clip_tick: i64,
    pub gain_db: Level,
    pub gain_left_db: Level,
    pub gain_right_db: Level,
    pub pan: Level,
    pub effects: Seq<AudioProcessorSpec>,
    pub fade_in_ticks: i64,
    pub fade_in_curve: Level,
    pub fade_out_ticks: i64,
    pub fade_out_curve: Level,
    pub clip_duration_ticks: i64,
    pub transition: Option<AudioTransitionEnvelope>,
}

impl TargetModel {
    /// The lane that the target belongs to.
    pub open spec fn key(self) -> LaneKey {
        LaneKey { track_id: self.track_id, clip_id: self.clip_id }
    }

    /// The target with the mix settings of `other`. A chain of processors that is set up alike
    /// stays as it is.
    pub open spec fn mixed_like(self, other: TargetModel) -> TargetModel {
        TargetModel {
            gain_db: other.gain_db,
            gain_left_db: other.gain_left_db,
            gain_right_db: other.gain_right_db,
            pan: other.pan,
            effects: if equal_effects(self.effects, other.effects) {
                self.effects
            } else {
                other.effects
            },
            fade_in_ticks: other.fade_in_ticks,
            fade_in_curve: other.fade_in_curve,
            fade_out_ticks: other.fade_out_ticks,
            fade_out_curve: other.fade_out_curve,
            clip_duration_ticks: other.clip_duration_ticks,
            transition: other.transition,
            ..self
        }
    }
}

impl View for AudioTarget {
    type V = TargetModel;

    open spec fn view(&self) -> TargetModel {
        TargetModel {
            track_id: self.track_id,
            clip_id: self.clip_id,
            path: self.path@,
            source_tick: self.source_tick,
            clip_tick: self.clip_tick,
            gain_db: self.gain_db,
            gain_left_db: self.gain_left_db,
            gain_right_db: self.gain_right_db,
            pan: self.pan,
            effects: self.effects@,
            fade_in_ticks: self.fade_in_ticks,
            fade_in_curve: self.fade_in_curve,
            fade_out_ticks: self.fade_out_ticks,
            fade_out_curve: self.fade_out_curve,
            clip_duration_ticks: self.clip_duration_ticks,
            transition: self.transition,
        }
    }
}

/// The models of a list of targets.
pub open spec fn target_models(targets: Seq<AudioTarget>) -> Seq<TargetModel> {
    Seq::new(targets.len(), |i: int| targets[i]@)
}

fn copy_effects(effects: &Vec<AudioProcessorSpec>) -> (copy: Vec<AudioProcessorSpec>)
    ensures
        copy@ == effects@,
{
    let copy = effects.clone();
    assert(copy@ =~= effects@);
    copy
}

impl Clone for AudioTarget {
    fn clone(&self) -> (copy: Self)
        ensures
            copy@ == self@,
    {
        AudioTarget {
            track_id: self.track_id,
            clip_id: self.clip_id,
            path: self.path.clone(),
            source_tick: self.source_tick,
            clip_tick: self.clip_tick,
            gain_db: self.gain_db,
            gain_left_db: self.gain_left_db,
            gain_right_db: self.gain_right_db,
            pan: self.pan,
            effects: copy_effects(&self.effects),
            fade_in_ticks: self.fade_in_ticks,
            fade_in_curve: self.fade_in_curve,
            fade_out_ticks: self.fade_out_ticks,
            fade_out_curve: self.fade_out_curve,
            clip_duration_ticks: self.clip_duration_ticks,
            transition: self.transition,
        }
    }
}

impl AudioTarget {
    pub fn lane_key(&self) -> (key: LaneKey)
        ensures
            key == self@.key(),
    {
        LaneKey { track_id: self.track_id, clip_id: self.clip_id }
    }

    /// Takes the mix settings of `other` over.
    pub fn apply_mix_settings(&mut self, other: &AudioTarget)
        ensures
            final(self)@ == old(self)@.mixed_like(other@),
    {
        if !same_effects(&self.effects, &other.effects) {
            self.effects = copy_effects(&other.effects);
        }
        self.gain_db = other.gain_db;
        self.gain_left_db = other.gain_left_db;
        self.gain_right_db = other.gain_right_db;
        self.pan = other.pan;
        self.fade_in_ticks = other.fade_in_ticks;
        self.fade_in_curve = other.fade_in_curve;
        self.fade_out_ticks = other.fade_out_ticks;
        self.fade_out_curve = other.fade_out_curve;
        self.clip_duration_ticks = other.clip_duration_ticks;
        self.transition = other.transition;
    }
}

/// How far a fade has come: its level is a curve over `elapsed / duration`.
#[derive(Clone, Copy, Debug, PartialEq, Eq, Structural)]
pub struct FadeProgress {
    pub elapsed: i64,
    pub duration: i64,
}

/// How far the fades of a clip have come at a tick of it; there is none where the clip has no
/// such fade.
#[derive(Clone, Copy, Debug, PartialEq, Eq, Structural)]
pub struct ClipFades {
    pub fade_in: Option<FadeProgress>,
    pub fade_out: Option<FadeProgress>,
}

/// The fades of `target` at `clip_tick`: one goes by the time since its start, the other by the
/// time left to its end.
pub fn clip_fades(clip_tick: i64, target: &AudioTarget) -> (fades: ClipFades)
    ensures
        fades.fade_in == (if target@.fade_in_ticks > 0 {
            Some(FadeProgress { elapsed: clip_tick, duration: target@.fade_in_ticks })
        } else {
            None
        }),
        fades.fade_out == (if target@.fade_out_ticks > 0 {
            Some(
                FadeProgress {
                    elapsed: nearest_i64(target@.clip_duration_ticks - clip_tick) as i64,
                    duration: target@.fade_out_ticks,
                },
            )
        } else {
            None
        }),
{
    let fade_in = if target.fade_in_ticks > 0 {
        Some(FadeProgress { elapsed: clip_tick, duration: target.fade_in_ticks })
    } else {
        None
    };
    let remaining: i64 = saturating_sub_ticks(target.clip_duration_ticks, clip_tick);
    let fade_out = if target.fade_out_ticks > 0 {
        Some(FadeProgress { elapsed: remaining, duration: target.fade_out_ticks })
    } else {
        None
    };
    ClipFades { fade_in, fade_out }
}

/// How a transition bears on a clip.
#[derive(Clone, Copy, Debug, PartialEq, Eq, Structural)]
pub enum TransitionStage {
    /// The clip is heard in full.
    Full,
    /// The clip is silent.
    Silent,
    /// The clip stands on its equal-power curve at `elapsed / duration`, strictly between the
    /// ends.
    Crossing { role: AudioTransitionRole, elapsed: i64, duration: i64 },
}

/// The stage of a transition at a tick of the clip.
pub open spec fn transition_stage_at(
    clip_tick: int,
    transition: Option<AudioTransitionEnvelope>,
) -> TransitionStage {
    match transition {
        None => TransitionStage::Full,
        Some(envelope) => {
            let elapsed = nearest_i64(clip_tick - envelope.start_clip_tick);
            if envelope.duration_ticks <= 0 {
                TransitionStage::Full
            } else if elapsed <= 0 {
                match envelope.role {
                    AudioTransitionRole::Outgoing => TransitionStage::Full,
                    AudioTransitionRole::Incoming => TransitionStage::Silent,
                }
            } else if elapsed >= envelope.duration_ticks {
                match envelope.role {
                    AudioTransitionRole::Outgoing => TransitionStage::Silent,
                    AudioTransitionRole::Incoming => TransitionStage::Full,
                }
            } else {
                TransitionStage::Crossing {
                    role: envelope.role,
                    elapsed: elapsed as i64,
                    duration: envelope.duration_ticks,
                }
            }
        },
    }
}

pub fn transition_stage(clip_tick: i64, transition: Option<AudioTransitionEnvelope>) -> (stage:
    TransitionStage)
    ensures
        stage == transition_stage_at(clip_tick as int, transition),
{
    match transition {
        None => TransitionStage::Full,
        Some(envelope) => {
            if envelope.duration_ticks <= 0 {
                return TransitionStage::Full;
            }
            let elapsed: i64 = saturating_sub_ticks(clip_tick, envelope.start_clip_tick);
            if elapsed <= 0 {
                match envelope.role {
                    AudioTransitionRole::Outgoing => TransitionStage::Full,
                    AudioTransitionRole::Incoming => TransitionStage::Silent,
                }
            } else if elapsed >= envelope.duration_ticks {
                match envelope.role {
                    AudioTransitionRole::Outgoing => TransitionStage::Silent,
                    AudioTransitionRole::Incoming => TransitionStage::Full,
                }
            } else {
                TransitionStage::Crossing {
                    role: envelope.role,
                    elapsed,
                    duration: envelope.duration_ticks,
                }
            }
        },
    }
}

/// The two sides of a transition complement each other: where one is heard in full the other one
/// is silent, and they cross at the same moment.
pub proof fn law_transition_sides_complement(
    clip_tick: i64,
    start_clip_tick: i64,
    duration_ticks: i64,
)
    requires
        duration_ticks > 0,
    ensures
        ({
            let outgoing = transition_stage_at(
                clip_tick as int,
                Some(
                    AudioTransitionEnvelope {
                        role: AudioTransitionRole::Outgoing,
                        start_clip_tick,
                        duration_ticks,
                    },
                ),
            );
            let incoming = transition_stage_at(
                clip_tick as int,
                Some(
                    AudioTransitionEnvelope {
                        role: AudioTransitionRole::Incoming,
                        start_clip_tick,
                        duration_ticks,
                    },
                ),
            );
            &&& outgoing is Full <==> incoming is Silent
            &&& outgoing is Silent <==> incoming is Full
            &&& outgoing matches TransitionStage::Crossing { role: _, elapsed, duration }
                ==> incoming == TransitionStage::Crossing {
                role: AudioTransitionRole::Incoming,
                elapsed,
                duration,
            }
        }),
{
}

/// Taking mix settings over twice is the same as once, and keeps what the target plays.
pub proof fn law_mix_settings_keep_the_source(target: TargetModel, settings: TargetModel)
    ensures
        target.mixed_like(settings).key() == target.key(),
        target.mixed_like(settings).path == target.path,
        target.mixed_like(settings).source_tick == target.source_tick,
        target.mixed_like(settings).clip_tick == target.clip_tick,
        target.mixed_like(settings).mixed_like(settings) == target.mixed_like(settings),
{
}

/// Mix settings that are taken over are taken over in every field: levels, pan, fades, the clip's
/// length and the transition are those that were asked for, and the processors compare equal to
/// them or are them. What the target plays stays.
pub proof fn law_mix_settings_are_taken_over(target: TargetModel, settings: TargetModel)
    ensures
        ({
            let mixed = target.mixed_like(settings);
            &&& mixed.gain_db == settings.gain_db
            &&& mixed.gain_left_db == settings.gain_left_db
            &&& mixed.gain_right_db == settings.gain_right_db
            &&& mixed.pan == settings.pan
            &&& mixed.fade_in_ticks == settings.fade_in_ticks
            &&& mixed.fade_in_curve == settings.fade_in_curve
            &&& mixed.fade_out_ticks == settings.fade_out_ticks
            &&& mixed.fade_out_curve == settings.fade_out_curve
            &&& mixed.clip_duration_ticks == settings.clip_duration_ticks
            &&& mixed.transition == settings.transition
            &&& mixed.effects.len() == settings.effects.len()
            &&& mixed.effects == settings.effects || (mixed.effects == target.effects && forall|
                i: int,
            |
                0 <= i < settings.effects.len() ==> (#[trigger] mixed.effects[i]).equals(
                    settings.effects[i],
                ))
            &&& mixed.track_id == target.track_id
            &&& mixed.clip_id == target.clip_id
            &&& mixed.path == target.path
            &&& mixed.source_tick == target.source_tick
            &&& mixed.clip_tick == target.clip_tick
        }),
{
}

/// Processors that are set up alike keep their state: their chain stays the very one it was.
pub proof fn law_equal_processors_are_kept(target: TargetModel, settings: TargetModel)
    ensures
        (target.effects.len() == settings.effects.len() && forall|i: int|
            0 <= i < settings.effects.len() ==> (#[trigger] target.effects[i]).equals(
                settings.effects[i],
            )) ==> target.mixed_like(settings).effects == target.effects,
        (target.effects.len() != settings.effects.len()) ==> target.mixed_like(settings).effects
            == settings.effects,
        (exists|i: int|
            0 <= i < settings.effects.len() && 0 <= i < target.effects.len() && !(
            #[trigger] target.effects[i]).equals(settings.effects[i])) ==> target.mixed_like(
            settings,
        ).effects == settings.effects,
{
}

/// Two processors are set up alike exactly where they are of one kind and their settings compare
/// equal as numbers.
pub proof fn law_processors_compare_by_kind_and_settings(
    left_hz: u32,
    right_hz: u32,
    left: Level,
    right: Level,
)
    ensures
        (AudioProcessorSpec::HighPass { hz: left_hz }).equals(
            AudioProcessorSpec::HighPass { hz: right_hz },
        ) <==> left_hz == right_hz,
        (AudioProcessorSpec::LowPass { hz: left_hz }).equals(
            AudioProcessorSpec::LowPass { hz: right_hz },
        ) <==> left_hz == right_hz,
        (AudioProcessorSpec::Eq { hz: left_hz, db: left }).equals(
            AudioProcessorSpec::Eq { hz: right_hz, db: right },
        ) <==> left_hz == right_hz && left.equals(right),
        (AudioProcessorSpec::StereoWidth { width: left }).equals(
            AudioProcessorSpec::StereoWidth { width: right },
        ) <==> left.equals(right),
        !(AudioProcessorSpec::HighPass { hz: left_hz }).equals(
            AudioProcessorSpec::LowPass { hz: right_hz },
        ),
        !(AudioProcessorSpec::LowPass { hz: left_hz }).equals(
            AudioProcessorSpec::HighPass { hz: right_hz },
        ),
        !(AudioProcessorSpec::Eq { hz: left_hz, db: left }).equals(
            AudioProcessorSpec::StereoWidth { width: right },
        ),
        !(AudioProcessorSpec::StereoWidth { width: left }).equals(
            AudioProcessorSpec::Eq { hz: right_hz, db: right },
        ),
{
}

/// Patterns stand for numbers as IEEE 754 says: all ones in the exponent make an infinity or, with
/// anything in the fraction, no number; the two zeros are equal, and otherwise a number equals only
/// its own pattern.
pub proof fn law_patterns_are_numbers(left: Level, right: Level)
    ensures
        is_finite_number(left.bits) <==> (left.bits / 0x80_0000) % 0x100 != 0xFF,
        is_nan(left.bits) <==> (left.bits / 0x80_0000) % 0x100 == 0xFF && left.bits % 0x80_0000
            != 0,
        left.equals(right) <==> right.equals(left),
        left.equals(left) <==> !is_nan(left.bits),
        is_nan(left.bits) ==> !left.equals(right),
        left.bits % 0x8000_0000 == 0 && right.bits % 0x8000_0000 == 0 ==> left.equals(right),
        left.bits != right.bits && (left.bits % 0x8000_0000 != 0 || right.bits % 0x8000_0000 != 0)
            ==> !left.equals(right),
        magnitude(left.bits) < 0x8000_0000,
        left.bits < 0x8000_0000 ==> magnitude(left.bits) == left.bits,
        left.bits >= 0x8000_0000 ==> magnitude(left.bits) == left.bits - 0x8000_0000,
{
}

/// A transition: nothing before it starts or after it has ended but the clip in full or silence, as
/// its side says, and on the way the time since its start over its length. A tick further on is a
/// tick further on the curve.
pub proof fn law_transition_follows_the_clock(
    clip_tick: i64,
    role: AudioTransitionRole,
    start: i64,
    duration: i64,
)
    requires
        -0x4000_0000_0000_0000 <= clip_tick <= 0x4000_0000_0000_0000 - 1,
        -0x4000_0000_0000_0000 <= start <= 0x4000_0000_0000_0000 - 1,
    ensures
        ({
            let envelope = AudioTransitionEnvelope {
                role,
                start_clip_tick: start,
                duration_ticks: duration,
            };
            let stage = transition_stage_at(clip_tick as int, Some(envelope));
            let outgoing = role == AudioTransitionRole::Outgoing;
            &&& duration <= 0 ==> stage is Full
            &&& duration > 0 && clip_tick <= start ==> if outgoing {
                stage is Full
            } else {
                stage is Silent
            }
            &&& duration > 0 && clip_tick - start >= duration ==> if outgoing {
                stage is Silent
            } else {
                stage is Full
            }
            &&& duration > 0 && 0 < clip_tick - start < duration ==> stage
                == (TransitionStage::Crossing {
                role,
                elapsed: (clip_tick - start) as i64,
                duration,
            })
        }),
        transition_stage_at(clip_tick as int, None) is Full,
{
}

/// The model of a target holds each of its fields.
pub proof fn law_target_model_is_faithful(target: AudioTarget)
    ensures
        target@.track_id == target.track_id,
        target@.clip_id == target.clip_id,
        target@.path == target.path@,
        target@.source_tick == target.source_tick,
        target@.clip_tick == target.clip_tick,
        target@.gain_db == target.gain_db,
        target@.gain_left_db == target.gain_left_db,
        target@.gain_right_db == target.gain_right_db,
        target@.pan == target.pan,
        target@.effects == target.effects@,
        target@.fade_in_ticks == target.fade_in_ticks,
        target@.fade_in_curve == target.fade_in_curve,
        target@.fade_out_ticks == target.fade_out_ticks,
        target@.fade_out_curve == target.fade_out_curve,
        target@.clip_duration_ticks == target.clip_duration_ticks,
        target@.transition == target.transition,
        target@.key().track_id == target.track_id,
        target@.key().clip_id == target.clip_id,
{
}

/// Mix settings that are applied to a target are the ones that were given, in each field; what it plays
/// stays.
pub proof fn law_applied_settings_are_those_given(target: &mut AudioTarget, other: &AudioTarget)
    requires
        call_ensures(AudioTarget::apply_mix_settings, (target, other), ()),
    ensures
        final(target)@.gain_db == other.gain_db,
        final(target)@.gain_left_db == other.gain_left_db,
        final(target)@.gain_right_db == other.gain_right_db,
        final(target)@.pan == other.pan,
        final(target)@.fade_in_ticks == other.fade_in_ticks,
        final(target)@.fade_in_curve == other.fade_in_curve,
        final(target)@.fade_out_ticks == other.fade_out_ticks,
        final(target)@.fade_out_curve == other.fade_out_curve,
        final(target)@.clip_duration_ticks == other.clip_duration_ticks,
        final(target)@.transition == other.transition,
        final(target)@.effects == other.effects@ || final(target)@.effects == old(target)@.effects,
        final(target)@.effects.len() == other.effects@.len(),
        forall|i: int|
            0 <= i < other.effects@.len() ==> final(target)@.effects == other.effects@ || (
            #[trigger] final(target)@.effects[i]).equals(other.effects@[i]),
        final(target)@.path == old(target)@.path,
        final(target)@.track_id == old(target)@.track_id,
        final(target)@.clip_id == old(target)@.clip_id,
        final(target)@.source_tick == old(target)@.source_tick,
        final(target)@.clip_tick == old(target)@.clip_tick,
{
    law_mix_settings_are_taken_over(old(target)@, other@);
}

/// A clip that fades is as far into its fade as the tick is from its own end of the clip.
pub proof fn law_clip_fades_bear_on_their_ends(
    clip_tick: i64,
    target: &AudioTarget,
    fades: ClipFades,
)
    requires
        call_ensures(clip_fades, (clip_tick, target), fades),
        0 <= clip_tick <= target.clip_duration_ticks,
    ensures
        fades.fade_in is Some <==> target.fade_in_ticks > 0,
        fades.fade_in matches Some(progress) ==> progress.elapsed == clip_tick && progress.duration
            == target.fade_in_ticks,
        fades.fade_out is Some <==> target.fade_out_ticks > 0,
        fades.fade_out matches Some(progress) ==> progress.elapsed == target.clip_duration_ticks
            - clip_tick && progress.duration == target.fade_out_ticks,
{
}

} // verus!
