//! The lanes of a mix: their decoded samples and what they play.
use crate::arith::{nearest_i64, nearest_u64, saturating_add_ticks, smaller};
use crate::audio::clock::{
    elapsed_ticks, frames_behind, frames_to_ticks, lane_capacity, lane_capacity_samples,
    stale_frames_to_skip, whole_frames,
};
use crate::audio::target::{target_models, AudioTarget, LaneKey, Level, TargetModel};
use std::collections::VecDeque;
use vstd::prelude::*;

verus! {

/// Hard per-decoder-frame guard; normal AAC/PCM frames are orders of magnitude smaller.
pub const MAX_DECODED_AUDIO_FRAME_SAMPLES: usize = 262_144;

/// The mathematical value of a [`Lane`].
#[verifier::ext_equal]
pub struct LaneModel {
    pub key: LaneKey,
    /// The queued samples, left and right in turn.
    pub samples: Seq<Level>,
    /// Global device frame at which this lane joined the current transport.
    pub device_frame_origin: u64,
    pub decoded_frames: i64,
    pub target: Option<TargetModel>,
}

/// One stereo frame that a lane gave to the mix.
#[derive(Clone, Copy, Debug, PartialEq)]
pub struct LaneFrame {
    pub key: LaneKey,
    pub left: Level,
    pub right: Level,
    /// The tick of the lane's clip, which fades go by; a lane without a clip has none.
    pub clip_tick: Option<i64>,
}

impl LaneModel {
    /// A lane for `target` that joins at `device_frame`.
    pub open spec fn joining(target: TargetModel, device_frame: u64) -> LaneModel {
        LaneModel {
            key: target.key(),
            samples: Seq::empty(),
            device_frame_origin: device_frame,
            decoded_frames: 0,
            target: Some(target),
        }
    }

    /// Whether a whole stereo frame is queued.
    pub open spec fn ready(self) -> bool {
        self.samples.len() >= 2
    }

    /// The frames that the device has consumed since the lane joined.
    pub open spec fn consumed(self, device_frame: u64) -> int {
        nearest_u64(device_frame - self.device_frame_origin)
    }

    /// The tick of the lane's clip at a device frame.
    pub open spec fn clip_tick_at(self, device_frame: u64, sample_rate: u32) -> Option<i64> {
        match self.target {
            Some(target) => Some(
                nearest_i64(
                    target.clip_tick + frames_to_ticks(self.consumed(device_frame), sample_rate),
                ) as i64,
            ),
            None => None,
        }
    }

    /// The stereo frame that the lane gives to the mix.
    pub open spec fn front(self, device_frame: u64, sample_rate: u32) -> LaneFrame {
        LaneFrame {
            key: self.key,
            left: self.samples[0],
            right: self.samples[1],
            clip_tick: self.clip_tick_at(device_frame, sample_rate),
        }
    }

    /// The lane once it gave its frame to the mix.
    pub open spec fn popped(self) -> LaneModel {
        if self.ready() {
            LaneModel { samples: self.samples.skip(2), ..self }
        } else {
            self
        }
    }

    /// The lane with the mix settings of `target`; its samples and its place stay.
    pub open spec fn mixed_like(self, target: TargetModel) -> LaneModel {
        LaneModel {
            target: match self.target {
                Some(active) => Some(active.mixed_like(target)),
                None => None,
            },
            ..self
        }
    }

    /// How many of `count` decoded samples come too late: whole frames that the device has
    /// passed already.
    pub open spec fn late_samples(self, count: int, device_frame: u64) -> int {
        whole_frames(
            smaller(
                smaller(
                    2 * frames_behind(self.consumed(device_frame), self.decoded_frames as int),
                    usize::MAX as int,
                ),
                count,
            ),
        )
    }

    /// The lane once decoded samples were queued.
    pub open spec fn enqueued(self, samples: Seq<Level>, device_frame: u64) -> LaneModel {
        LaneModel {
            samples: self.samples + samples.skip(
                self.late_samples(samples.len() as int, device_frame),
            ),
            decoded_frames: nearest_i64(self.decoded_frames + samples.len() as int / 2) as i64,
            ..self
        }
    }
}

/// One lane of the mix.
#[derive(Debug)]
pub struct Lane {
    key: LaneKey,
    samples: VecDeque<Level>,
    /// Global device frame at which this lane joined the current transport.
    /// Decoding, fade timing, and stale PCM dropping are all relative to this origin.
    device_frame_origin: u64,
    decoded_frames: i64,
    target: Option<AudioTarget>,
}

impl View for Lane {
    type V = LaneModel;

    closed spec fn view(&self) -> LaneModel {
        LaneModel {
            key: self.key,
            samples: self.samples@,
            device_frame_origin: self.device_frame_origin,
            decoded_frames: self.decoded_frames,
            target: match self.target {
                Some(target) => Some(target@),
                None => None,
            },
        }
    }
}

impl Lane {
    /// A lane without a clip.
    pub fn new(key: LaneKey) -> (lane: Self)
        ensures
            lane@ == (LaneModel {
                key,
                samples: Seq::empty(),
                device_frame_origin: 0,
                decoded_frames: 0,
                target: None,
            }),
    {
        Lane {
            key,
            samples: VecDeque::new(),
            device_frame_origin: 0,
            decoded_frames: 0,
            target: None,
        }
    }

    /// A lane that joins the transport at `device_frame`.
    pub fn joining(target: &AudioTarget, device_frame: u64) -> (lane: Self)
        ensures
            lane@ == LaneModel::joining(target@, device_frame),
    {
        Lane {
            key: target.lane_key(),
            samples: VecDeque::new(),
            device_frame_origin: device_frame,
            decoded_frames: 0,
            target: Some(target.clone()),
        }
    }

    pub fn key(&self) -> (key: LaneKey)
        ensures
            key == self@.key,
    {
        self.key
    }

    /// How many samples are queued.
    pub fn queued(&self) -> (count: usize)
        ensures
            count == self@.samples.len(),
    {
        self.samples.len()
    }

    pub fn device_frame_origin(&self) -> (frame: u64)
        ensures
            frame == self@.device_frame_origin,
    {
        self.device_frame_origin
    }

    pub fn decoded_frames(&self) -> (frames: i64)
        ensures
            frames == self@.decoded_frames,
    {
        self.decoded_frames
    }

    pub fn target(&self) -> (target: Option<&AudioTarget>)
        ensures
            match target {
                Some(target) => self@.target == Some(target@),
                None => self@.target is None,
            },
    {
        match &self.target {
            Some(target) => Some(target),
            None => None,
        }
    }

    /// The queued sample at `index`.
    pub fn sample(&self, index: usize) -> (sample: Level)
        requires
            index < self@.samples.len(),
        ensures
            sample == self@.samples[index as int],
    {
        self.samples[index]
    }

    /// Queues a sample at the back.
    pub fn push_sample(&mut self, sample: Level)
        ensures
            final(self)@ == (LaneModel { samples: old(self)@.samples.push(sample), ..old(self)@ }),
    {
        self.samples.push_back(sample);
    }

    /// Gives the front frame to the mix, if a whole one is queued.
    pub fn pop_frame(&mut self, device_frame: u64, sample_rate: u32) -> (frame: Option<LaneFrame>)
        ensures
            final(self)@ == old(self)@.popped(),
            frame == (if old(self)@.ready() {
                Some(old(self)@.front(device_frame, sample_rate))
            } else {
                None
            }),
    {
        if self.samples.len() < 2 {
            return None;
        }
        let ghost before = self.samples@;
        let clip_tick = match &self.target {
            Some(target) => {
                let lane_frames: u64 = device_frame.saturating_sub(self.device_frame_origin);
                Some(
                    saturating_add_ticks(
                        target.clip_tick,
                        elapsed_ticks(lane_frames, sample_rate),
                    ),
                )
            },
            None => None,
        };
        match (self.samples.pop_front(), self.samples.pop_front()) {
            (Some(left), Some(right)) => {
                assert(self.samples@ =~= before.skip(2));
                Some(LaneFrame { key: self.key, left, right, clip_tick })
            },
            _ => None,
        }
    }

    fn apply_target_mix_settings(&mut self, settings: &AudioTarget)
        ensures
            final(self)@ == old(self)@.mixed_like(settings@),
    {
        match self.target.take() {
            Some(target) => {
                let mut active = target;
                active.apply_mix_settings(settings);
                self.target = Some(active);
            },
            None => {},
        }
    }

    /// Queues decoded samples, without the first `late` of them.
    fn enqueue(&mut self, samples: &[Level], late: usize)
        requires
            late <= samples@.len(),
        ensures
            final(self)@ == (LaneModel {
                samples: old(self)@.samples + samples@.skip(late as int),
                decoded_frames: nearest_i64(
                    old(self)@.decoded_frames + samples@.len() as int / 2,
                ) as i64,
                ..old(self)@
            }),
    {
        let ghost before = self.samples@;
        let mut i: usize = late;
        assert(self.samples@ =~= before + samples@.subrange(late as int, late as int));
        while i < samples.len()
            invariant
                late <= i <= samples@.len(),
                self.samples@ == before + samples@.subrange(late as int, i as int),
                self@ == (LaneModel { samples: self.samples@, ..old(self)@ }),
            decreases samples@.len() - i,
        {
            self.samples.push_back(samples[i]);
            i += 1;
            assert(self.samples@ =~= before + samples@.subrange(late as int, i as int));
        }
        assert(samples@.subrange(late as int, i as int) =~= samples@.skip(late as int));
        let frames: usize = samples.len() / 2;
        let added: i64 = if frames as u64 > i64::MAX as u64 {
            i64::MAX
        } else {
            frames as i64
        };
        assert(samples@.len() <= usize::MAX);
        self.decoded_frames = saturating_add_ticks(self.decoded_frames, added);
    }
}

/// Whether a lane with this key is there.
pub open spec fn has_lane(lanes: Seq<LaneModel>, key: LaneKey) -> bool {
    exists|i: int| 0 <= i < lanes.len() && (#[trigger] lanes[i]).key == key
}

/// Where the lane with this key stands.
pub open spec fn lane_index(lanes: Seq<LaneModel>, key: LaneKey) -> int {
    choose|i: int| 0 <= i < lanes.len() && (#[trigger] lanes[i]).key == key
}

/// No key stands twice.
pub open spec fn unique_lanes(lanes: Seq<LaneModel>) -> bool {
    forall|i: int, j: int|
        0 <= i < j < lanes.len() ==> (#[trigger] lanes[i]).key != (#[trigger] lanes[j]).key
}

/// Whether a target with this key is among the first `count`.
pub open spec fn is_wanted(targets: Seq<TargetModel>, count: int, key: LaneKey) -> bool {
    exists|i: int| 0 <= i < count && (#[trigger] targets[i]).key() == key
}

/// The frames that the first `count` lanes give to the mix.
pub open spec fn fronts(
    lanes: Seq<LaneModel>,
    count: int,
    device_frame: u64,
    sample_rate: u32,
) -> Seq<LaneFrame>
    decreases count,
{
    if count <= 0 {
        Seq::empty()
    } else if lanes[count - 1].ready() {
        fronts(lanes, count - 1, device_frame, sample_rate).push(
            lanes[count - 1].front(device_frame, sample_rate),
        )
    } else {
        fronts(lanes, count - 1, device_frame, sample_rate)
    }
}

/// Every lane once it gave its frame to the mix.
pub open spec fn all_popped(lanes: Seq<LaneModel>) -> Seq<LaneModel> {
    Seq::new(lanes.len(), |i: int| lanes[i].popped())
}

/// The lanes with the mix settings of `target` on its own lane.
pub open spec fn mixed(lanes: Seq<LaneModel>, target: TargetModel) -> Seq<LaneModel> {
    let i = lane_index(lanes, target.key());
    lanes.update(i, lanes[i].mixed_like(target))
}

/// The lanes with the mix settings of the first `count` targets.
pub open spec fn all_mixed(lanes: Seq<LaneModel>, targets: Seq<TargetModel>, count: int) -> Seq<
    LaneModel,
>
    decreases count,
{
    if count <= 0 {
        lanes
    } else {
        mixed(all_mixed(lanes, targets, count - 1), targets[count - 1])
    }
}

/// The lanes that stay, among the first `count`: those that some target wants.
pub open spec fn wanted_lanes(lanes: Seq<LaneModel>, count: int, targets: Seq<TargetModel>) -> Seq<
    LaneModel,
>
    decreases count,
{
    if count <= 0 {
        Seq::empty()
    } else if is_wanted(targets, targets.len() as int, lanes[count - 1].key) {
        wanted_lanes(lanes, count - 1, targets).push(lanes[count - 1])
    } else {
        wanted_lanes(lanes, count - 1, targets)
    }
}

/// The lanes with the first `count` targets brought in: a lane that is there takes the mix
/// settings over, and a new one joins at `device_frame`.
pub open spec fn brought_in(
    lanes: Seq<LaneModel>,
    targets: Seq<TargetModel>,
    count: int,
    device_frame: u64,
) -> Seq<LaneModel>
    decreases count,
{
    if count <= 0 {
        lanes
    } else {
        let before = brought_in(lanes, targets, count - 1, device_frame);
        let target = targets[count - 1];
        if has_lane(before, target.key()) {
            mixed(before, target)
        } else {
            before.push(LaneModel::joining(target, device_frame))
        }
    }
}

/// The keys of the first `count` targets whose lane is there already.
pub open spec fn retained_keys(lanes: Seq<LaneModel>, targets: Seq<TargetModel>, count: int) -> Seq<
    LaneKey,
>
    decreases count,
{
    if count <= 0 {
        Seq::empty()
    } else if has_lane(lanes, targets[count - 1].key()) {
        retained_keys(lanes, targets, count - 1).push(targets[count - 1].key())
    } else {
        retained_keys(lanes, targets, count - 1)
    }
}

/// New lanes for the first `count` targets, from the start of the transport. The last target
/// wins where several have one key.
pub open spec fn fresh_lanes(targets: Seq<TargetModel>, count: int) -> Seq<LaneModel>
    decreases count,
{
    if count <= 0 {
        Seq::empty()
    } else {
        let before = fresh_lanes(targets, count - 1);
        let lane = LaneModel::joining(targets[count - 1], 0);
        if has_lane(before, lane.key) {
            before.update(lane_index(before, lane.key), lane)
        } else {
            before.push(lane)
        }
    }
}

/// Whether mix settings for `targets` can be taken over as they are: the targets are as many as
/// the lanes, no two have one key, and each has its lane.
pub open spec fn same_lanes(lanes: Seq<LaneModel>, targets: Seq<TargetModel>) -> bool {
    &&& targets.len() == lanes.len()
    &&& forall|i: int, j: int|
        0 <= i < j < targets.len() ==> (#[trigger] targets[i]).key() != (
        #[trigger] targets[j]).key()
    &&& forall|i: int| 0 <= i < targets.len() ==> has_lane(lanes, (#[trigger] targets[i]).key())
}

/// Whether the lanes can be reconciled with `targets` while they play: there are some, no two
/// have one key, and no lane would change the file that it plays.
pub open spec fn reconcilable(lanes: Seq<LaneModel>, targets: Seq<TargetModel>) -> bool {
    &&& targets.len() > 0
    &&& forall|i: int, j: int|
        0 <= i < j < targets.len() ==> (#[trigger] targets[i]).key() != (
        #[trigger] targets[j]).key()
    &&& forall|i: int|
        0 <= i < targets.len() && has_lane(lanes, (#[trigger] targets[i]).key()) ==> (
        lanes[lane_index(lanes, targets[i].key())].target matches Some(active) && active.path
            == targets[i].path)
}

/// A counter that starts afresh beyond its largest value.
pub open spec fn next_generation(generation: u64) -> u64 {
    if generation == u64::MAX {
        0
    } else {
        (generation + 1) as u64
    }
}

/// What became of decoded samples.
#[derive(Clone, Copy, Debug, PartialEq, Eq, Structural)]
pub struct Enqueued {
    /// Whether the lane holds its share of the mix now.
    pub reached_capacity: bool,
    /// How many stereo frames came too late and were dropped.
    pub late_frames: usize,
}

/// The lanes of a mix.
#[derive(Debug)]
pub struct Mixer {
    lanes: Vec<Lane>,
    generation: u64,
}

closed spec fn lane_models(lanes: Seq<Lane>) -> Seq<LaneModel> {
    Seq::new(lanes.len(), |i: int| lanes[i]@)
}

impl Mixer {
    /// The lanes in the order in which they joined.
    pub closed spec fn lanes(&self) -> Seq<LaneModel> {
        lane_models(self.lanes@)
    }

    /// Changes whenever work in flight is overtaken.
    pub closed spec fn generation(&self) -> u64 {
        self.generation
    }

    /// No key stands twice.
    pub open spec fn wf(&self) -> bool {
        unique_lanes(self.lanes())
    }

    pub fn new() -> (mixer: Self)
        ensures
            mixer.wf(),
            mixer.lanes() == Seq::<LaneModel>::empty(),
            mixer.generation() == 0,
    {
        let mixer = Mixer { lanes: Vec::new(), generation: 0 };
        assert(mixer.lanes() =~= Seq::empty());
        mixer
    }

    pub fn current_generation(&self) -> (generation: u64)
        ensures
            generation == self.generation(),
    {
        self.generation
    }

    pub fn lane_count(&self) -> (count: usize)
        ensures
            count == self.lanes().len(),
    {
        self.lanes.len()
    }

    #[verifier::loop_isolation(false)]
    fn find(&self, key: LaneKey) -> (found: Option<usize>)
        requires
            self.wf(),
        ensures
            found is Some == has_lane(self.lanes(), key),
            found matches Some(i) ==> i < self.lanes@.len() && i == lane_index(self.lanes(), key)
                && self.lanes()[i as int].key == key,
    {
        let mut i: usize = 0;
        while i < self.lanes.len()
            invariant
                i <= self.lanes@.len(),
                forall|j: int| 0 <= j < i ==> (#[trigger] self.lanes()[j]).key != key,
            decreases self.lanes@.len() - i,
        {
            let candidate = self.lanes[i].key();
            assert(self.lanes()[i as int].key == candidate);
            if candidate == key {
                proof {
                    lemma_lane_index(self.lanes(), i as int);
                }
                return Some(i);
            }
            i += 1;
        }
        None
    }

    /// The lane with this key.
    pub fn lane(&self, key: LaneKey) -> (lane: Option<&Lane>)
        requires
            self.wf(),
        ensures
            match lane {
                Some(lane) => has_lane(self.lanes(), key) && lane@ == self.lanes()[lane_index(
                    self.lanes(),
                    key,
                )],
                None => !has_lane(self.lanes(), key),
            },
    {
        match self.find(key) {
            Some(i) => Some(&self.lanes[i]),
            None => None,
        }
    }

    /// The lane at a place in the mix.
    pub fn lane_at(&self, index: usize) -> (lane: &Lane)
        requires
            index < self.lanes().len(),
        ensures
            lane@ == self.lanes()[index as int],
    {
        &self.lanes[index]
    }

    /// Adds a lane as it is; one with the same key makes way.
    pub fn put_lane(&mut self, lane: Lane)
        requires
            old(self).wf(),
        ensures
            final(self).wf(),
            final(self).generation() == old(self).generation(),
            final(self).lanes() == (if has_lane(old(self).lanes(), lane@.key) {
                old(self).lanes().update(lane_index(old(self).lanes(), lane@.key), lane@)
            } else {
                old(self).lanes().push(lane@)
            }),
    {
        let ghost before = self.lanes();
        let ghost model = lane@;
        match self.find(lane.key()) {
            Some(i) => {
                self.lanes[i] = lane;
                assert(self.lanes() =~= before.update(i as int, model));
                proof {
                    lemma_update_keeps_unique(before, i as int, model);
                }
            },
            None => {
                self.lanes.push(lane);
                assert(self.lanes() =~= before.push(model));
                proof {
                    lemma_push_keeps_unique(before, model);
                }
            },
        }
    }

    /// Takes one stereo frame from every lane that has one. `frames` is overwritten. Nothing is
    /// taken while nothing plays.
    pub fn pop_stereo_frame(
        &mut self,
        playing: bool,
        device_frame: u64,
        sample_rate: u32,
        frames: &mut Vec<LaneFrame>,
    )
        requires
            old(self).wf(),
        ensures
            final(self).wf(),
            final(self).generation() == old(self).generation(),
            !playing ==> final(frames)@.len() == 0 && final(self).lanes() == old(self).lanes(),
            playing ==> {
                &&& final(frames)@ == fronts(
                    old(self).lanes(),
                    old(self).lanes().len() as int,
                    device_frame,
                    sample_rate,
                )
                &&& final(self).lanes() == all_popped(old(self).lanes())
            },
    {
        frames.clear();
        if !playing {
            return;
        }
        let ghost before = self.lanes();
        let mut i: usize = 0;
        while i < self.lanes.len()
            invariant
                i <= self.lanes@.len(),
                self.lanes().len() == before.len(),
                self.lanes().len() == self.lanes@.len(),
                self.generation() == old(self).generation(),
                frames@ == fronts(before, i as int, device_frame, sample_rate),
                forall|j: int|
                    0 <= j < i ==> (#[trigger] self.lanes()[j]) == before[j].popped(),
                forall|j: int| i <= j < before.len() ==> (#[trigger] self.lanes()[j]) == before[j],
            decreases self.lanes@.len() - i,
        {
            let ghost now = self.lanes();
            assert(now[i as int] == before[i as int]);
            let frame = self.lanes[i].pop_frame(device_frame, sample_rate);
            assert(self.lanes() =~= now.update(i as int, self.lanes@[i as int]@));
            if let Some(frame) = frame {
                frames.push(frame);
            }
            i += 1;
        }
        assert(self.lanes() =~= all_popped(before));
        assert(unique_lanes(self.lanes())) by {
            assert forall|a: int, b: int| 0 <= a < b < self.lanes().len() implies (
            #[trigger] self.lanes()[a]).key != (#[trigger] self.lanes()[b]).key by {
                assert(before[a].key != before[b].key);
            }
        }
    }

    fn apply_target(&mut self, index: usize, target: &AudioTarget)
        requires
            old(self).wf(),
            index < old(self).lanes().len(),
            index == lane_index(old(self).lanes(), target@.key()),
        ensures
            final(self).wf(),
            final(self).generation() == old(self).generation(),
            final(self).lanes() == mixed(old(self).lanes(), target@),
    {
        let ghost before = self.lanes();
        self.lanes[index].apply_target_mix_settings(target);
        assert(self.lanes() =~= mixed(before, target@));
        proof {
            lemma_update_keeps_unique(before, index as int, self.lanes()[index as int]);
        }
    }

    /// Takes gain and fades over on the live mix without discarding decoded PCM. Returns false
    /// when the requested lanes are not the active ones; nothing changes then.
    pub fn update_mix_settings(&mut self, targets: &Vec<AudioTarget>) -> (applied: bool)
        requires
            old(self).wf(),
        ensures
            final(self).wf(),
            final(self).generation() == old(self).generation(),
            applied == same_lanes(old(self).lanes(), target_models(targets@)),
            final(self).lanes() == (if applied {
                all_mixed(old(self).lanes(), target_models(targets@), targets@.len() as int)
            } else {
                old(self).lanes()
            }),
    {
        let ghost models = target_models(targets@);
        if targets.len() != self.lanes.len() || !distinct_keys(targets) {
            return false;
        }
        let mut i: usize = 0;
        while i < targets.len()
            invariant
                self.wf(),
                i <= targets@.len(),
                models == target_models(targets@),
                forall|j: int| 0 <= j < i ==> has_lane(self.lanes(), (#[trigger] models[j]).key()),
            decreases targets@.len() - i,
        {
            assert(models[i as int] == targets@[i as int]@);
            if self.find(targets[i].lane_key()).is_none() {
                assert(!has_lane(self.lanes(), models[i as int].key()));
                return false;
            }
            i += 1;
        }
        let ghost before = self.lanes();
        i = 0;
        while i < targets.len()
            invariant
                self.wf(),
                i <= targets@.len(),
                models == target_models(targets@),
                before == old(self).lanes(),
                self.generation() == old(self).generation(),
                self.lanes() == all_mixed(before, models, i as int),
                forall|j: int|
                    0 <= j < targets@.len() ==> has_lane(before, (#[trigger] models[j]).key()),
                forall|key: LaneKey| #[trigger]
                    has_lane(self.lanes(), key) == has_lane(before, key),
            decreases targets@.len() - i,
        {
            assert(models[i as int] == targets@[i as int]@);
            assert(has_lane(before, models[i as int].key()));
            let ghost now = self.lanes();
            match self.find(targets[i].lane_key()) {
                Some(index) => {
                    self.apply_target(index, &targets[i]);
                    proof {
                        lemma_mixed_keeps_lanes(now, models[i as int]);
                    }
                },
                None => {
                    assert(false);
                },
            }
            i += 1;
        }
        true
    }

    /// Reconciles a changing set of concurrently audible timeline lanes without restarting the
    /// transport. Retained lanes preserve both decoded PCM and their original timeline origin.
    /// Returns the new generation and the retained lanes; nothing changes where the lanes cannot
    /// be reconciled, and the caller must perform a real seek instead.
    pub fn reconcile_targets(&mut self, targets: &Vec<AudioTarget>, device_frame: u64) -> (outcome:
        Option<(u64, Vec<LaneKey>)>)
        requires
            old(self).wf(),
        ensures
            final(self).wf(),
            outcome is Some == reconcilable(old(self).lanes(), target_models(targets@)),
            outcome is None ==> final(self).lanes() == old(self).lanes() && final(self).generation() == old(self).generation(),
            outcome matches Some((generation, retained)) ==> {
                let models = target_models(targets@);
                &&& generation == next_generation(old(self).generation())
                &&& final(self).generation() == generation
                &&& retained@ == retained_keys(
                    old(self).lanes(),
                    models,
                    models.len() as int,
                )
                &&& final(self).lanes() == reconciled(old(self).lanes(), models, device_frame)
            },
    {
        let ghost models = target_models(targets@);
        let ghost before = self.lanes();
        if !self.can_reconcile(targets) {
            return None;
        }
        let mut retained: Vec<LaneKey> = Vec::new();
        let mut i: usize = 0;
        while i < targets.len()
            invariant
                self.wf(),
                self.lanes() == before,
                i <= targets@.len(),
                models == target_models(targets@),
                retained@ == retained_keys(before, models, i as int),
            decreases targets@.len() - i,
        {
            assert(models[i as int] == targets@[i as int]@);
            let key = targets[i].lane_key();
            if self.find(key).is_some() {
                retained.push(key);
            }
            i += 1;
        }
        self.retain_wanted(targets);
        let ghost wanted = self.lanes();
        i = 0;
        while i < targets.len()
            invariant
                self.wf(),
                self.generation() == old(self).generation(),
                i <= targets@.len(),
                models == target_models(targets@),
                self.lanes() == brought_in(wanted, models, i as int, device_frame),
            decreases targets@.len() - i,
        {
            assert(models[i as int] == targets@[i as int]@);
            let ghost now = self.lanes();
            match self.find(targets[i].lane_key()) {
                Some(index) => self.apply_target(index, &targets[i]),
                None => {
                    let lane = Lane::joining(&targets[i], device_frame);
                    let ghost model = lane@;
                    self.lanes.push(lane);
                    assert(self.lanes() =~= now.push(model));
                    proof {
                        lemma_push_keeps_unique(now, model);
                    }
                },
            }
            i += 1;
        }
        self.generation = self.generation.wrapping_add(1);
        assert(self.lanes() == brought_in(wanted, models, i as int, device_frame));
        Some((self.generation, retained))
    }

    fn can_reconcile(&self, targets: &Vec<AudioTarget>) -> (can: bool)
        requires
            self.wf(),
        ensures
            can == reconcilable(self.lanes(), target_models(targets@)),
    {
        let ghost models = target_models(targets@);
        if targets.len() == 0 {
            return false;
        }
        let mut i: usize = 0;
        while i < targets.len()
            invariant
                self.wf(),
                i <= targets@.len(),
                models == target_models(targets@),
                forall|a: int, b: int|
                    0 <= a < b < i ==> (#[trigger] models[a]).key() != (#[trigger] models[b]).key(),
                forall|a: int|
                    0 <= a < i && has_lane(self.lanes(), (#[trigger] models[a]).key()) ==> (
                    self.lanes()[lane_index(
                        self.lanes(),
                        models[a].key(),
                    )].target matches Some(active) && active.path == models[a].path),
            decreases targets@.len() - i,
        {
            let key = targets[i].lane_key();
            assert(models[i as int] == targets@[i as int]@);
            let mut j: usize = 0;
            while j < i
                invariant
                    i < targets@.len(),
                    j <= i,
                    models == target_models(targets@),
                    key == models[i as int].key(),
                    forall|b: int| 0 <= b < j ==> (#[trigger] models[b]).key() != key,
                decreases i - j,
            {
                assert(models[j as int] == targets@[j as int]@);
                if targets[j].lane_key() == key {
                    assert(models[j as int].key() == models[i as int].key());
                    assert(!reconcilable(self.lanes(), models));
                    return false;
                }
                j += 1;
            }
            if let Some(lane) = self.lane(key) {
                let same_file = match lane.target() {
                    Some(active) => active.path == targets[i].path,
                    None => false,
                };
                if !same_file {
                    assert(has_lane(self.lanes(), models[i as int].key()));
                    return false;
                }
            }
            i += 1;
        }
        true
    }

    /// Drops every lane that no target wants.
    fn retain_wanted(&mut self, targets: &Vec<AudioTarget>)
        requires
            old(self).wf(),
        ensures
            final(self).wf(),
            final(self).generation() == old(self).generation(),
            final(self).lanes() == wanted_lanes(
                old(self).lanes(),
                old(self).lanes().len() as int,
                target_models(targets@),
            ),
    {
        let ghost models = target_models(targets@);
        let ghost before = self.lanes();
        let ghost mut seen: int = 0;
        let mut i: usize = 0;
        assert(before.skip(0) =~= before);
        assert(Seq::<LaneModel>::empty() + before =~= before);
        while i < self.lanes.len()
            invariant
                models == target_models(targets@),
                0 <= seen <= before.len(),
                i <= self.lanes@.len(),
                i == wanted_lanes(before, seen, models).len(),
                self.lanes() == wanted_lanes(before, seen, models) + before.skip(seen),
                self.lanes().len() == self.lanes@.len(),
                self.generation() == old(self).generation(),
            decreases self.lanes@.len() - i,
        {
            let ghost now = self.lanes();
            let ghost kept = wanted_lanes(before, seen, models);
            let key = self.lanes[i].key();
            assert(now[i as int] == before[seen]);
            assert(key == before[seen].key);
            if wants_key(targets, key) {
                assert(kept + before.skip(seen) =~= kept.push(before[seen]) + before.skip(
                    seen + 1,
                ));
                i += 1;
            } else {
                self.lanes.remove(i);
                assert(self.lanes() =~= now.remove(i as int));
                assert(now.remove(i as int) =~= kept + before.skip(seen + 1));
            }
            proof {
                seen = seen + 1;
            }
        }
        proof {
            lemma_wanted_lanes(before, before.len() as int, models);
        }
        assert(seen == before.len());
        assert(self.lanes() =~= wanted_lanes(before, before.len() as int, models));
    }

    /// Replaces every lane by those of `targets`, from the start of the transport.
    pub fn replace_targets(&mut self, targets: &Vec<AudioTarget>) -> (generation: u64)
        requires
            old(self).wf(),
        ensures
            final(self).wf(),
            generation == next_generation(old(self).generation()),
            final(self).generation() == generation,
            final(self).lanes() == fresh_lanes(
                target_models(targets@),
                targets@.len() as int,
            ),
    {
        let ghost models = target_models(targets@);
        self.lanes = Vec::new();
        self.generation = self.generation.wrapping_add(1);
        assert(self.lanes() =~= Seq::empty());
        let mut i: usize = 0;
        while i < targets.len()
            invariant
                self.wf(),
                i <= targets@.len(),
                models == target_models(targets@),
                self.generation() == next_generation(old(self).generation()),
                self.lanes() == fresh_lanes(models, i as int),
            decreases targets@.len() - i,
        {
            assert(models[i as int] == targets@[i as int]@);
            self.put_lane(Lane::joining(&targets[i], 0));
            i += 1;
        }
        self.generation
    }

    /// Drops every lane, and overtakes work in flight.
    pub fn clear(&mut self)
        ensures
            final(self).wf(),
            final(self).lanes() == Seq::<LaneModel>::empty(),
            final(self).generation() == next_generation(old(self).generation()),
    {
        self.generation = self.generation.wrapping_add(1);
        self.lanes = Vec::new();
        assert(self.lanes() =~= Seq::empty());
    }

    /// Whether a lane may take more samples: it is there, and holds less than its share.
    pub fn lane_accepts(&self, key: LaneKey, sample_rate: u32) -> (accepts: bool)
        requires
            self.wf(),
        ensures
            accepts == (has_lane(self.lanes(), key) && self.lanes()[lane_index(
                self.lanes(),
                key,
            )].samples.len() < lane_capacity(sample_rate, self.lanes().len() as int)),
    {
        let capacity: usize = lane_capacity_samples(sample_rate, self.lanes.len());
        match self.lane(key) {
            Some(lane) => lane.queued() < capacity,
            None => false,
        }
    }

    /// Queues decoded samples for a lane, without those that come too late. More than the lane's
    /// share and one decoder frame is refused, and nothing changes then.
    pub fn enqueue_decoded_frame(
        &mut self,
        key: LaneKey,
        floats: &[Level],
        device_frame: u64,
        sample_rate: u32,
    ) -> (queued: Result<Enqueued, String>)
        requires
            old(self).wf(),
            has_lane(old(self).lanes(), key),
        ensures
            final(self).wf(),
            final(self).generation() == old(self).generation(),
            ({
                let lanes = old(self).lanes();
                let at = lane_index(lanes, key);
                let next = lanes[at].enqueued(floats@, device_frame);
                let capacity = lane_capacity(sample_rate, lanes.len() as int);
                if next.samples.len() > smaller(
                    capacity + MAX_DECODED_AUDIO_FRAME_SAMPLES,
                    usize::MAX as int,
                ) {
                    &&& queued matches Err(message) && message@
                        == "decoded audio packet exceeds the bounded lane allowance"@
                    &&& final(self).lanes() == lanes
                } else {
                    &&& queued == Ok::<Enqueued, String>(
                        Enqueued {
                            reached_capacity: next.samples.len() >= capacity,
                            late_frames: (lanes[at].late_samples(
                                floats@.len() as int,
                                device_frame,
                            ) / 2) as usize,
                        },
                    )
                    &&& final(self).lanes() == lanes.update(at, next)
                }
            }),
    {
        let ghost before = self.lanes();
        let lane_count: usize = self.lanes.len();
        match self.find(key) {
            None => {
                assert(false);
                Err(String::new())
            },
            Some(index) => {
                let consumed_frames: u64 = device_frame.saturating_sub(
                    self.lanes[index].device_frame_origin(),
                );
                let stale_frames: usize = stale_frames_to_skip(
                    consumed_frames,
                    self.lanes[index].decoded_frames(),
                );
                let doubled: usize = match stale_frames.checked_mul(2) {
                    Some(doubled) => doubled,
                    None => usize::MAX,
                };
                let bounded: usize = if doubled < floats.len() {
                    doubled
                } else {
                    floats.len()
                };
                let stale_samples: usize = bounded - bounded % 2;
                assert(stale_samples == before[index as int].late_samples(
                    floats@.len() as int,
                    device_frame,
                ));
                let capacity: usize = lane_capacity_samples(sample_rate, lane_count);
                let hard_capacity: usize = capacity.saturating_add(
                    MAX_DECODED_AUDIO_FRAME_SAMPLES,
                );
                let queued: usize = self.lanes[index].queued();
                let added: usize = floats.len() - stale_samples;
                if queued > hard_capacity || added > hard_capacity - queued {
                    return Err(
                        String::from_str(
                            "decoded audio packet exceeds the bounded lane allowance",
                        ),
                    );
                }
                self.lanes[index].enqueue(floats, stale_samples);
                assert(self.lanes() =~= before.update(
                    index as int,
                    before[index as int].enqueued(floats@, device_frame),
                ));
                proof {
                    lemma_update_keeps_unique(
                        before,
                        index as int,
                        before[index as int].enqueued(floats@, device_frame),
                    );
                }
                Ok(
                    Enqueued {
                        reached_capacity: queued + added >= capacity,
                        late_frames: stale_samples / 2,
                    },
                )
            },
        }
    }
}

/// Whether no two targets have one key.
fn distinct_keys(targets: &Vec<AudioTarget>) -> (distinct: bool)
    ensures
        distinct == (forall|i: int, j: int|
            0 <= i < j < targets@.len() ==> (#[trigger] target_models(targets@)[i]).key() != (
            #[trigger] target_models(targets@)[j]).key()),
{
    let ghost models = target_models(targets@);
    let mut i: usize = 0;
    while i < targets.len()
        invariant
            i <= targets@.len(),
            models == target_models(targets@),
            forall|a: int, b: int|
                0 <= a < b < i ==> (#[trigger] models[a]).key() != (#[trigger] models[b]).key(),
        decreases targets@.len() - i,
    {
        let key = targets[i].lane_key();
        assert(models[i as int] == targets@[i as int]@);
        let mut j: usize = 0;
        while j < i
            invariant
                i < targets@.len(),
                j <= i,
                models == target_models(targets@),
                key == models[i as int].key(),
                forall|b: int| 0 <= b < j ==> (#[trigger] models[b]).key() != key,
            decreases i - j,
        {
            assert(models[j as int] == targets@[j as int]@);
            if targets[j].lane_key() == key {
                assert(models[j as int].key() == models[i as int].key());
                return false;
            }
            j += 1;
        }
        i += 1;
    }
    true
}

fn wants_key(targets: &Vec<AudioTarget>, key: LaneKey) -> (wanted: bool)
    ensures
        wanted == is_wanted(target_models(targets@), targets@.len() as int, key),
{
    let ghost models = target_models(targets@);
    let mut i: usize = 0;
    while i < targets.len()
        invariant
            i <= targets@.len(),
            models == target_models(targets@),
            forall|j: int| 0 <= j < i ==> (#[trigger] models[j]).key() != key,
        decreases targets@.len() - i,
    {
        assert(models[i as int] == targets@[i as int]@);
        if targets[i].lane_key() == key {
            assert(models[i as int].key() == key);
            return true;
        }
        i += 1;
    }
    false
}

/// With unique keys, the lane that stands at a place is the one found by its key.
pub proof fn lemma_lane_index(lanes: Seq<LaneModel>, i: int)
    requires
        unique_lanes(lanes),
        0 <= i < lanes.len(),
    ensures
        has_lane(lanes, lanes[i].key),
        lane_index(lanes, lanes[i].key) == i,
{
    let key = lanes[i].key;
    assert(lanes[i].key == key);
    let at = lane_index(lanes, key);
    assert(0 <= at < lanes.len() && lanes[at].key == key);
    if at < i {
        assert(lanes[at].key != lanes[i].key);
    } else if i < at {
        assert(lanes[i].key != lanes[at].key);
    }
}

proof fn lemma_update_keeps_unique(lanes: Seq<LaneModel>, i: int, lane: LaneModel)
    requires
        unique_lanes(lanes),
        0 <= i < lanes.len(),
        lane.key == lanes[i].key,
    ensures
        unique_lanes(lanes.update(i, lane)),
        forall|key: LaneKey| #[trigger] has_lane(lanes.update(i, lane), key) == has_lane(lanes, key),
{
    let next = lanes.update(i, lane);
    assert forall|a: int, b: int| 0 <= a < b < next.len() implies (#[trigger] next[a]).key != (
    #[trigger] next[b]).key by {
        assert(lanes[a].key != lanes[b].key);
    }
    assert forall|key: LaneKey| #[trigger] has_lane(next, key) == has_lane(lanes, key) by {
        if has_lane(lanes, key) {
            let j = choose|j: int| 0 <= j < lanes.len() && (#[trigger] lanes[j]).key == key;
            assert(next[j].key == key);
        }
        if has_lane(next, key) {
            let j = choose|j: int| 0 <= j < next.len() && (#[trigger] next[j]).key == key;
            assert(lanes[j].key == key);
        }
    }
}

proof fn lemma_push_keeps_unique(lanes: Seq<LaneModel>, lane: LaneModel)
    requires
        unique_lanes(lanes),
        !has_lane(lanes, lane.key),
    ensures
        unique_lanes(lanes.push(lane)),
{
    let next = lanes.push(lane);
    assert forall|a: int, b: int| 0 <= a < b < next.len() implies (#[trigger] next[a]).key != (
    #[trigger] next[b]).key by {
        assert(next[a] == lanes[a]);
        if b < lanes.len() {
            assert(lanes[a].key != lanes[b].key);
        } else {
            assert(lanes[a].key != lane.key);
        }
    }
}

proof fn lemma_mixed_keeps_lanes(lanes: Seq<LaneModel>, target: TargetModel)
    requires
        unique_lanes(lanes),
        has_lane(lanes, target.key()),
    ensures
        unique_lanes(mixed(lanes, target)),
        forall|key: LaneKey| #[trigger] has_lane(mixed(lanes, target), key) == has_lane(lanes, key),
{
    let i = lane_index(lanes, target.key());
    assert(0 <= i < lanes.len() && lanes[i].key == target.key());
    lemma_update_keeps_unique(lanes, i, lanes[i].mixed_like(target));
}

proof fn lemma_wanted_lanes(lanes: Seq<LaneModel>, count: int, targets: Seq<TargetModel>)
    requires
        unique_lanes(lanes),
        0 <= count <= lanes.len(),
    ensures
        unique_lanes(wanted_lanes(lanes, count, targets)),
        wanted_lanes(lanes, count, targets).len() <= count,
        forall|i: int|
            0 <= i < wanted_lanes(lanes, count, targets).len() ==> exists|j: int|
                0 <= j < count && lanes[j] == #[trigger] wanted_lanes(lanes, count, targets)[i],
        forall|j: int|
            0 <= j < count && is_wanted(targets, targets.len() as int, (#[trigger] lanes[j]).key)
                ==> exists|i: int|
                0 <= i < wanted_lanes(lanes, count, targets).len() && #[trigger] wanted_lanes(
                    lanes,
                    count,
                    targets,
                )[i] == lanes[j],
    decreases count,
{
    if count > 0 {
        lemma_wanted_lanes(lanes, count - 1, targets);
        let before = wanted_lanes(lanes, count - 1, targets);
        let after = wanted_lanes(lanes, count, targets);
        let last = lanes[count - 1];
        if is_wanted(targets, targets.len() as int, last.key) {
            assert(after == before.push(last));
            assert(!has_lane(before, last.key)) by {
                if has_lane(before, last.key) {
                    let i = lane_index(before, last.key);
                    assert(before[i].key == last.key);
                    let j = choose|j: int| 0 <= j < count - 1 && lanes[j] == before[i];
                    assert(lanes[j].key != lanes[count - 1].key);
                }
            }
            lemma_push_keeps_unique(before, last);
            assert forall|i: int| 0 <= i < after.len() implies exists|j: int|
                0 <= j < count && lanes[j] == #[trigger] after[i] by {
                if i < before.len() {
                    assert(after[i] == before[i]);
                    let j = choose|j: int| 0 <= j < count - 1 && lanes[j] == before[i];
                    assert(lanes[j] == after[i]);
                } else {
                    assert(lanes[count - 1] == after[i]);
                }
            }
            assert forall|j: int|
                0 <= j < count && is_wanted(
                    targets,
                    targets.len() as int,
                    (#[trigger] lanes[j]).key,
                ) implies exists|i: int|
                0 <= i < after.len() && #[trigger] after[i] == lanes[j] by {
                if j < count - 1 {
                    let i = choose|i: int|
                        0 <= i < before.len() && #[trigger] before[i] == lanes[j];
                    assert(after[i] == lanes[j]);
                } else {
                    assert(after[before.len() as int] == lanes[j]);
                }
            }
        } else {
            assert forall|i: int| 0 <= i < after.len() implies exists|j: int|
                0 <= j < count && lanes[j] == #[trigger] after[i] by {
                let j = choose|j: int| 0 <= j < count - 1 && lanes[j] == before[i];
                assert(lanes[j] == after[i]);
            }
        }
    }
}

/// The samples of a lane and its place in time: what playback must not lose.
pub open spec fn same_pcm(left: LaneModel, right: LaneModel) -> bool {
    &&& left.key == right.key
    &&& left.samples == right.samples
    &&& left.device_frame_origin == right.device_frame_origin
    &&& left.decoded_frames == right.decoded_frames
}

proof fn lemma_brought_in(
    lanes: Seq<LaneModel>,
    targets: Seq<TargetModel>,
    count: int,
    device_frame: u64,
)
    requires
        unique_lanes(lanes),
        0 <= count <= targets.len(),
    ensures
        ({
            let after = brought_in(lanes, targets, count, device_frame);
            &&& unique_lanes(after)
            &&& after.len() >= lanes.len()
            &&& forall|i: int| 0 <= i < lanes.len() ==> same_pcm(lanes[i], #[trigger] after[i])
            &&& forall|i: int|
                lanes.len() <= i < after.len() ==> {
                    &&& (#[trigger] after[i]).samples == Seq::<Level>::empty()
                    &&& after[i].device_frame_origin == device_frame
                    &&& after[i].decoded_frames == 0
                    &&& is_wanted(targets, count, after[i].key)
                }
            &&& forall|i: int| 0 <= i < count ==> has_lane(after, (#[trigger] targets[i]).key())
        }),
    decreases count,
{
    if count > 0 {
        lemma_brought_in(lanes, targets, count - 1, device_frame);
        let before = brought_in(lanes, targets, count - 1, device_frame);
        let after = brought_in(lanes, targets, count, device_frame);
        let target = targets[count - 1];
        if has_lane(before, target.key()) {
            lemma_mixed_keeps_lanes(before, target);
            assert(after == mixed(before, target));
            let at = lane_index(before, target.key());
            assert(0 <= at < before.len() && before[at].key == target.key());
            assert forall|i: int| lanes.len() <= i < after.len() implies {
                &&& (#[trigger] after[i]).samples == Seq::<Level>::empty()
                &&& after[i].device_frame_origin == device_frame
                &&& after[i].decoded_frames == 0
                &&& is_wanted(targets, count, after[i].key)
            } by {
                assert(is_wanted(targets, count - 1, before[i].key));
                let w = choose|w: int|
                    0 <= w < count - 1 && (#[trigger] targets[w]).key() == before[i].key;
                assert(targets[w].key() == after[i].key);
            }
            assert forall|i: int| 0 <= i < lanes.len() implies same_pcm(
                lanes[i],
                #[trigger] after[i],
            ) by {
                assert(same_pcm(lanes[i], before[i]));
            }
        } else {
            lemma_push_keeps_unique(before, LaneModel::joining(target, device_frame));
            assert(after == before.push(LaneModel::joining(target, device_frame)));
            assert forall|i: int| lanes.len() <= i < after.len() implies {
                &&& (#[trigger] after[i]).samples == Seq::<Level>::empty()
                &&& after[i].device_frame_origin == device_frame
                &&& after[i].decoded_frames == 0
                &&& is_wanted(targets, count, after[i].key)
            } by {
                if i < before.len() {
                    assert(after[i] == before[i]);
                    assert(is_wanted(targets, count - 1, before[i].key));
                    let w = choose|w: int|
                        0 <= w < count - 1 && (#[trigger] targets[w]).key() == before[i].key;
                    assert(targets[w].key() == after[i].key);
                } else {
                    assert(targets[count - 1].key() == after[i].key);
                }
            }
            assert forall|i: int| 0 <= i < lanes.len() implies same_pcm(
                lanes[i],
                #[trigger] after[i],
            ) by {
                assert(same_pcm(lanes[i], before[i]));
                assert(after[i] == before[i]);
            }
            assert(after[before.len() as int].key == target.key());
        }
        assert forall|i: int| 0 <= i < count implies has_lane(
            after,
            (#[trigger] targets[i]).key(),
        ) by {
            if i < count - 1 {
                assert(has_lane(before, targets[i].key()));
                if !has_lane(before, target.key()) {
                    let j = lane_index(before, targets[i].key());
                    assert(before[j].key == targets[i].key());
                    assert(after[j].key == targets[i].key());
                }
            } else if has_lane(before, target.key()) {
                assert(has_lane(after, target.key()));
            }
        }
    }
}

/// The lanes after a reconciliation.
pub open spec fn reconciled(
    lanes: Seq<LaneModel>,
    targets: Seq<TargetModel>,
    device_frame: u64,
) -> Seq<LaneModel> {
    brought_in(
        wanted_lanes(lanes, lanes.len() as int, targets),
        targets,
        targets.len() as int,
        device_frame,
    )
}

/// A lane that plays on through a reconciliation loses neither decoded PCM nor its place in time.
pub proof fn law_reconcile_keeps_retained_lanes(
    lanes: Seq<LaneModel>,
    targets: Seq<TargetModel>,
    device_frame: u64,
    key: LaneKey,
)
    requires
        unique_lanes(lanes),
        has_lane(lanes, key),
        is_wanted(targets, targets.len() as int, key),
    ensures
        ({
            let after = reconciled(lanes, targets, device_frame);
            &&& unique_lanes(after)
            &&& has_lane(after, key)
            &&& same_pcm(lanes[lane_index(lanes, key)], after[lane_index(after, key)])
        }),
{
    let wanted = wanted_lanes(lanes, lanes.len() as int, targets);
    let after = reconciled(lanes, targets, device_frame);
    lemma_wanted_lanes(lanes, lanes.len() as int, targets);
    lemma_brought_in(wanted, targets, targets.len() as int, device_frame);
    let at = lane_index(lanes, key);
    assert(0 <= at < lanes.len() && lanes[at].key == key);
    let i = choose|i: int| 0 <= i < wanted.len() && #[trigger] wanted[i] == lanes[at];
    assert(same_pcm(wanted[i], after[i]));
    lemma_lane_index(after, i);
}

/// A lane that joins starts at the current device frame, with nothing queued.
pub proof fn law_reconcile_joins_at_the_device_clock(
    lanes: Seq<LaneModel>,
    targets: Seq<TargetModel>,
    device_frame: u64,
    key: LaneKey,
)
    requires
        unique_lanes(lanes),
        !has_lane(lanes, key),
        is_wanted(targets, targets.len() as int, key),
    ensures
        ({
            let after = reconciled(lanes, targets, device_frame);
            let lane = after[lane_index(after, key)];
            &&& has_lane(after, key)
            &&& lane.samples == Seq::<Level>::empty()
            &&& lane.device_frame_origin == device_frame
            &&& lane.decoded_frames == 0
        }),
{
    let wanted = wanted_lanes(lanes, lanes.len() as int, targets);
    let after = reconciled(lanes, targets, device_frame);
    lemma_wanted_lanes(lanes, lanes.len() as int, targets);
    lemma_brought_in(wanted, targets, targets.len() as int, device_frame);
    let w = choose|w: int| 0 <= w < targets.len() && (#[trigger] targets[w]).key() == key;
    assert(has_lane(after, targets[w].key()));
    let at = lane_index(after, key);
    assert(0 <= at < after.len() && after[at].key == key);
    if at < wanted.len() {
        assert(same_pcm(wanted[at], after[at]));
        let j = choose|j: int| 0 <= j < lanes.len() && lanes[j] == #[trigger] wanted[at];
        assert(lanes[j].key == key);
    }
}

/// After a reconciliation exactly the wanted lanes play.
pub proof fn law_reconcile_plays_what_is_wanted(
    lanes: Seq<LaneModel>,
    targets: Seq<TargetModel>,
    device_frame: u64,
    key: LaneKey,
)
    requires
        unique_lanes(lanes),
    ensures
        has_lane(reconciled(lanes, targets, device_frame), key) <==> is_wanted(
            targets,
            targets.len() as int,
            key,
        ),
{
    let wanted = wanted_lanes(lanes, lanes.len() as int, targets);
    let after = reconciled(lanes, targets, device_frame);
    lemma_wanted_lanes(lanes, lanes.len() as int, targets);
    lemma_brought_in(wanted, targets, targets.len() as int, device_frame);
    if is_wanted(targets, targets.len() as int, key) {
        let w = choose|w: int| 0 <= w < targets.len() && (#[trigger] targets[w]).key() == key;
        assert(has_lane(after, targets[w].key()));
    }
    if has_lane(after, key) {
        let at = lane_index(after, key);
        assert(0 <= at < after.len() && after[at].key == key);
        if at < wanted.len() {
            assert(same_pcm(wanted[at], after[at]));
            lemma_wanted_is_wanted(lanes, lanes.len() as int, targets, at);
        } else {
            assert(is_wanted(targets, targets.len() as int, after[at].key));
        }
    }
}

proof fn lemma_wanted_is_wanted(
    lanes: Seq<LaneModel>,
    count: int,
    targets: Seq<TargetModel>,
    i: int,
)
    requires
        0 <= count <= lanes.len(),
        0 <= i < wanted_lanes(lanes, count, targets).len(),
    ensures
        is_wanted(targets, targets.len() as int, wanted_lanes(lanes, count, targets)[i].key),
    decreases count,
{
    let before = wanted_lanes(lanes, count - 1, targets);
    if i < before.len() {
        lemma_wanted_is_wanted(lanes, count - 1, targets, i);
    }
}

/// New mix settings leave the decoded PCM of every lane and its place in time alone.
pub proof fn law_mix_settings_keep_pcm(
    lanes: Seq<LaneModel>,
    targets: Seq<TargetModel>,
    count: int,
    i: int,
)
    requires
        unique_lanes(lanes),
        same_lanes(lanes, targets),
        0 <= count <= targets.len(),
        0 <= i < lanes.len(),
    ensures
        all_mixed(lanes, targets, count).len() == lanes.len(),
        unique_lanes(all_mixed(lanes, targets, count)),
        same_pcm(lanes[i], all_mixed(lanes, targets, count)[i]),
        forall|key: LaneKey| #[trigger]
            has_lane(all_mixed(lanes, targets, count), key) == has_lane(lanes, key),
    decreases count,
{
    if count > 0 {
        law_mix_settings_keep_pcm(lanes, targets, count - 1, i);
        let before = all_mixed(lanes, targets, count - 1);
        assert(has_lane(lanes, targets[count - 1].key()));
        assert(has_lane(before, targets[count - 1].key()));
        lemma_mixed_keeps_lanes(before, targets[count - 1]);
    }
}

proof fn lemma_one_target_per_lane(lanes: Seq<LaneModel>, targets: Seq<TargetModel>, i: int) -> (j:
    int)
    requires
        unique_lanes(lanes),
        same_lanes(lanes, targets),
        0 <= i < lanes.len(),
    ensures
        0 <= j < targets.len(),
        targets[j].key() == lanes[i].key,
{
    let lane_keys = Seq::new(lanes.len(), |k: int| lanes[k].key);
    let target_keys = Seq::new(targets.len(), |k: int| targets[k].key());
    assert(lane_keys.no_duplicates()) by {
        assert forall|a: int, b: int|
            0 <= a < lane_keys.len() && 0 <= b < lane_keys.len() && a != b implies lane_keys[a]
            != lane_keys[b] by {
            if a < b {
                assert(lanes[a].key != lanes[b].key);
            } else {
                assert(lanes[b].key != lanes[a].key);
            }
        }
    }
    assert(target_keys.no_duplicates()) by {
        assert forall|a: int, b: int|
            0 <= a < target_keys.len() && 0 <= b < target_keys.len() && a
                != b implies target_keys[a] != target_keys[b] by {
            if a < b {
                assert(targets[a].key() != targets[b].key());
            } else {
                assert(targets[b].key() != targets[a].key());
            }
        }
    }
    lane_keys.unique_seq_to_set();
    target_keys.unique_seq_to_set();
    assert forall|key: LaneKey| target_keys.to_set().contains(key) implies lane_keys.to_set().contains(
        key,
    ) by {
        let k = choose|k: int| 0 <= k < target_keys.len() && target_keys[k] == key;
        assert(has_lane(lanes, targets[k].key()));
        let l = lane_index(lanes, key);
        assert(lane_keys[l] == key);
    }
    vstd::set_lib::lemma_subset_equality(target_keys.to_set(), lane_keys.to_set());
    assert(lane_keys[i] == lanes[i].key);
    assert(target_keys.to_set().contains(lanes[i].key));
    choose|j: int| 0 <= j < target_keys.len() && target_keys[j] == lanes[i].key
}

proof fn lemma_mixed_once(
    lanes: Seq<LaneModel>,
    targets: Seq<TargetModel>,
    count: int,
    i: int,
    j: int,
)
    requires
        unique_lanes(lanes),
        same_lanes(lanes, targets),
        0 <= count <= targets.len(),
        0 <= i < lanes.len(),
        0 <= j < targets.len(),
        targets[j].key() == lanes[i].key,
    ensures
        all_mixed(lanes, targets, count)[i] == (if j < count {
            lanes[i].mixed_like(targets[j])
        } else {
            lanes[i]
        }),
    decreases count,
{
    if count > 0 {
        lemma_mixed_once(lanes, targets, count - 1, i, j);
        law_mix_settings_keep_pcm(lanes, targets, count - 1, i);
        let before = all_mixed(lanes, targets, count - 1);
        let target = targets[count - 1];
        assert(has_lane(lanes, target.key()));
        assert(has_lane(before, target.key()));
        let at = lane_index(before, target.key());
        assert(before[i].key == lanes[i].key);
        if count - 1 == j {
            lemma_lane_index(before, i);
        } else if at == i {
            if j < count - 1 {
                assert(targets[j].key() != targets[count - 1].key());
            } else {
                assert(targets[count - 1].key() != targets[j].key());
            }
        }
    }
}

/// Mix settings that are taken over reach every lane: each has exactly one target, and takes the
/// settings of that one.
pub proof fn law_mix_settings_reach_every_lane(
    lanes: Seq<LaneModel>,
    targets: Seq<TargetModel>,
    i: int,
) -> (j: int)
    requires
        unique_lanes(lanes),
        same_lanes(lanes, targets),
        0 <= i < lanes.len(),
    ensures
        0 <= j < targets.len(),
        targets[j].key() == lanes[i].key,
        forall|other: int|
            0 <= other < targets.len() && (#[trigger] targets[other]).key() == lanes[i].key
                ==> other == j,
        all_mixed(lanes, targets, targets.len() as int)[i] == lanes[i].mixed_like(targets[j]),
{
    let j = lemma_one_target_per_lane(lanes, targets, i);
    lemma_mixed_once(lanes, targets, targets.len() as int, i, j);
    assert forall|other: int|
        0 <= other < targets.len() && (#[trigger] targets[other]).key() == lanes[i].key implies other
        == j by {
        if other < j {
            assert(targets[other].key() != targets[j].key());
        } else if j < other {
            assert(targets[j].key() != targets[other].key());
        }
    }
    j
}

/// Stereo frames are never split: a lane that holds whole frames still does after whole frames
/// were queued and after one was taken.
pub proof fn law_stereo_frames_stay_whole(lane: LaneModel, samples: Seq<Level>, device_frame: u64)
    requires
        lane.samples.len() % 2 == 0,
        samples.len() % 2 == 0,
    ensures
        lane.enqueued(samples, device_frame).samples.len() % 2 == 0,
        lane.popped().samples.len() % 2 == 0,
{
    let late = lane.late_samples(samples.len() as int, device_frame);
    assert(0 <= late <= samples.len());
    assert(late % 2 == 0);
}

/// What is queued comes out in order: taking a frame after queueing takes the frame that was in
/// front before.
pub proof fn law_samples_come_out_in_order(
    lane: LaneModel,
    samples: Seq<Level>,
    device_frame: u64,
    sample_rate: u32,
)
    requires
        lane.ready(),
    ensures
        lane.enqueued(samples, device_frame).front(device_frame, sample_rate) == lane.front(
            device_frame,
            sample_rate,
        ),
        lane.enqueued(samples, device_frame).popped().samples == lane.popped().samples
            + samples.skip(lane.late_samples(samples.len() as int, device_frame)),
{
    let late = lane.late_samples(samples.len() as int, device_frame);
    assert(lane.enqueued(samples, device_frame).popped().samples =~= lane.popped().samples
        + samples.skip(late));
}

/// Decoded audio is never played late: either nothing is queued, or what is queued begins where
/// the device stands or after it.
pub proof fn law_late_audio_is_dropped(lane: LaneModel, samples: Seq<Level>, device_frame: u64)
    requires
        samples.len() % 2 == 0,
        samples.len() <= usize::MAX,
        lane.decoded_frames >= 0,
        lane.consumed(device_frame) <= i64::MAX,
    ensures
        ({
            let late = lane.late_samples(samples.len() as int, device_frame);
            late == samples.len() || lane.decoded_frames + late / 2 >= lane.consumed(device_frame)
        }),
{
}

/// A new lane plays its target from the device frame at which it joins, with nothing queued.
pub proof fn law_new_lane_is_empty(target: TargetModel, device_frame: u64)
    ensures
        ({
            let lane = LaneModel::joining(target, device_frame);
            &&& lane.key.track_id == target.track_id
            &&& lane.key.clip_id == target.clip_id
            &&& lane.target == Some(target)
            &&& lane.samples.len() == 0
            &&& lane.decoded_frames == 0
            &&& lane.device_frame_origin == device_frame
        }),
{
}

/// A lane gives its two oldest samples to the mix, left before right, and keeps the others in their
/// order; one that holds fewer gives nothing and keeps them. Its clip is as far on as the device frames
/// since it joined.
pub proof fn law_lane_gives_its_oldest_frame(
    lane: LaneModel,
    device_frame: u64,
    sample_rate: u32,
    i: int,
)
    requires
        lane.device_frame_origin <= device_frame,
    ensures
        lane.ready() <==> lane.samples.len() >= 2,
        lane.samples.len() >= 2 ==> {
            let frame = lane.front(device_frame, sample_rate);
            &&& frame.key == lane.key
            &&& frame.left == lane.samples[0]
            &&& frame.right == lane.samples[1]
            &&& frame.clip_tick is Some <==> lane.target is Some
            &&& lane.target matches Some(target) ==> frame.clip_tick == Some(
                nearest_i64(
                    target.clip_tick + frames_to_ticks(
                        device_frame - lane.device_frame_origin,
                        sample_rate,
                    ),
                ) as i64,
            )
            &&& lane.popped().samples.len() == lane.samples.len() - 2
            &&& 0 <= i < lane.samples.len() - 2 ==> lane.popped().samples[i] == lane.samples[i + 2]
        },
        lane.samples.len() < 2 ==> lane.popped() == lane,
        lane.popped().key == lane.key,
        lane.popped().target == lane.target,
        lane.popped().device_frame_origin == lane.device_frame_origin,
        lane.popped().decoded_frames == lane.decoded_frames,
{
}

/// Decoded samples go to the end of the queue in their order, without those that the device has passed:
/// two for each frame that the lane is behind. They count as decoded either way.
pub proof fn law_decoded_samples_are_queued(
    lane: LaneModel,
    samples: Seq<Level>,
    device_frame: u64,
    i: int,
)
    requires
        lane.device_frame_origin <= device_frame <= i64::MAX,
        0 <= lane.decoded_frames,
        lane.decoded_frames + samples.len() <= i64::MAX,
        samples.len() <= usize::MAX,
        samples.len() % 2 == 0,
        2 * (device_frame - lane.device_frame_origin) <= usize::MAX,
    ensures
        ({
            let after = lane.enqueued(samples, device_frame);
            let behind = device_frame - lane.device_frame_origin - lane.decoded_frames;
            let late = if behind <= 0 {
                0
            } else if 2 * behind >= samples.len() {
                samples.len() as int
            } else {
                2 * behind
            };
            &&& lane.late_samples(samples.len() as int, device_frame) == late
            &&& after.samples.len() == lane.samples.len() + samples.len() - late
            &&& 0 <= i < lane.samples.len() ==> after.samples[i] == lane.samples[i]
            &&& 0 <= i < samples.len() - late ==> after.samples[lane.samples.len() + i]
                == samples[late + i]
            &&& after.decoded_frames == lane.decoded_frames + samples.len() / 2
            &&& after.key == lane.key
            &&& after.target == lane.target
            &&& after.device_frame_origin == lane.device_frame_origin
        }),
{
}

/// A lane takes new mix settings over on what it plays, and keeps its samples and its place in time.
pub proof fn law_lane_takes_settings_over(lane: LaneModel, settings: TargetModel)
    ensures
        ({
            let after = lane.mixed_like(settings);
            &&& lane.target is None ==> after.target is None
            &&& lane.target matches Some(active) ==> (after.target matches Some(mixed)
                && mixed.gain_db == settings.gain_db && mixed.pan == settings.pan
                && mixed.gain_left_db == settings.gain_left_db && mixed.gain_right_db
                == settings.gain_right_db && mixed.fade_in_ticks == settings.fade_in_ticks
                && mixed.fade_in_curve == settings.fade_in_curve && mixed.fade_out_ticks
                == settings.fade_out_ticks && mixed.fade_out_curve == settings.fade_out_curve
                && mixed.clip_duration_ticks == settings.clip_duration_ticks && mixed.transition
                == settings.transition && mixed.path == active.path && mixed.source_tick
                == active.source_tick && mixed.clip_tick == active.clip_tick)
            &&& after.samples == lane.samples
            &&& after.decoded_frames == lane.decoded_frames
            &&& after.device_frame_origin == lane.device_frame_origin
            &&& after.key == lane.key
        }),
{
}

/// Every lane that holds a frame is heard, in the order of the lanes.
pub proof fn law_ready_lanes_are_heard(
    lanes: Seq<LaneModel>,
    count: int,
    device_frame: u64,
    sample_rate: u32,
    i: int,
) -> (k: int)
    requires
        0 <= i < count <= lanes.len(),
        lanes[i].samples.len() >= 2,
    ensures
        0 <= k < fronts(lanes, count, device_frame, sample_rate).len(),
        k <= i,
        fronts(lanes, count, device_frame, sample_rate)[k].key == lanes[i].key,
        fronts(lanes, count, device_frame, sample_rate)[k].left == lanes[i].samples[0],
        fronts(lanes, count, device_frame, sample_rate)[k].right == lanes[i].samples[1],
        fronts(lanes, count, device_frame, sample_rate)[k].clip_tick == lanes[i].clip_tick_at(
            device_frame,
            sample_rate,
        ),
    decreases count,
{
    if i == count - 1 {
        lemma_fronts_len(lanes, count - 1, device_frame, sample_rate);
        fronts(lanes, count - 1, device_frame, sample_rate).len() as int
    } else {
        law_ready_lanes_are_heard(lanes, count - 1, device_frame, sample_rate, i)
    }
}

proof fn lemma_fronts_len(
    lanes: Seq<LaneModel>,
    count: int,
    device_frame: u64,
    sample_rate: u32,
)
    requires
        0 <= count <= lanes.len(),
    ensures
        fronts(lanes, count, device_frame, sample_rate).len() <= count,
    decreases count,
{
    if count > 0 {
        lemma_fronts_len(lanes, count - 1, device_frame, sample_rate);
    }
}

/// Nothing else is heard: each frame of the mix comes from a lane that holds one.
pub proof fn law_only_ready_lanes_are_heard(
    lanes: Seq<LaneModel>,
    count: int,
    device_frame: u64,
    sample_rate: u32,
    k: int,
) -> (i: int)
    requires
        0 <= count <= lanes.len(),
        0 <= k < fronts(lanes, count, device_frame, sample_rate).len(),
    ensures
        k <= i < count,
        lanes[i].samples.len() >= 2,
        fronts(lanes, count, device_frame, sample_rate)[k].key == lanes[i].key,
        fronts(lanes, count, device_frame, sample_rate)[k].left == lanes[i].samples[0],
        fronts(lanes, count, device_frame, sample_rate)[k].right == lanes[i].samples[1],
    decreases count,
{
    let before = fronts(lanes, count - 1, device_frame, sample_rate);
    lemma_fronts_len(lanes, count - 1, device_frame, sample_rate);
    if k < before.len() {
        law_only_ready_lanes_are_heard(lanes, count - 1, device_frame, sample_rate, k)
    } else {
        count - 1
    }
}

/// Every lane gives its frame at the same time.
pub proof fn law_all_lanes_advance_together(lanes: Seq<LaneModel>, i: int)
    requires
        0 <= i < lanes.len(),
    ensures
        all_popped(lanes).len() == lanes.len(),
        lanes[i].samples.len() >= 2 ==> all_popped(lanes)[i].samples == lanes[i].samples.skip(2),
        lanes[i].samples.len() < 2 ==> all_popped(lanes)[i].samples == lanes[i].samples,
        all_popped(lanes)[i].key == lanes[i].key,
        all_popped(lanes)[i].target == lanes[i].target,
{
}

/// Lanes that start afresh stand in the order of their targets, one for each, where no two share a key.
pub proof fn law_fresh_lanes_follow_their_targets(targets: Seq<TargetModel>, count: int)
    requires
        0 <= count <= targets.len(),
        forall|a: int, b: int|
            0 <= a < b < targets.len() ==> (#[trigger] targets[a]).key() != (
            #[trigger] targets[b]).key(),
    ensures
        fresh_lanes(targets, count).len() == count,
        forall|i: int|
            0 <= i < count ==> (#[trigger] fresh_lanes(targets, count)[i]) == (LaneModel {
                key: targets[i].key(),
                samples: Seq::empty(),
                device_frame_origin: 0,
                decoded_frames: 0,
                target: Some(targets[i]),
            }),
    decreases count,
{
    if count > 0 {
        law_fresh_lanes_follow_their_targets(targets, count - 1);
        let before = fresh_lanes(targets, count - 1);
        let key = targets[count - 1].key();
        if has_lane(before, key) {
            let at = lane_index(before, key);
            assert(0 <= at < before.len() && before[at].key == key);
            assert(before[at].key == targets[at].key());
            assert(targets[at].key() != targets[count - 1].key());
        }
        let after = fresh_lanes(targets, count);
        assert forall|i: int| 0 <= i < count implies (#[trigger] after[i]) == (LaneModel {
            key: targets[i].key(),
            samples: Seq::empty(),
            device_frame_origin: 0,
            decoded_frames: 0,
            target: Some(targets[i]),
        }) by {
            if i < count - 1 {
                assert(after[i] == before[i]);
            }
        }
    }
}

/// A key of a lane that starts afresh is that of a target, and the last target with it is played.
pub proof fn law_last_target_of_a_lane_is_played(targets: Seq<TargetModel>, count: int, w: int)
    requires
        0 <= w < count <= targets.len(),
        forall|later: int|
            w < later < count ==> (#[trigger] targets[later]).key() != targets[w].key(),
    ensures
        unique_lanes(fresh_lanes(targets, count)),
        has_lane(fresh_lanes(targets, count), targets[w].key()),
        fresh_lanes(targets, count)[lane_index(
            fresh_lanes(targets, count),
            targets[w].key(),
        )].target == Some(targets[w]),
    decreases count,
{
    let before = fresh_lanes(targets, count - 1);
    let after = fresh_lanes(targets, count);
    let lane = LaneModel::joining(targets[count - 1], 0);
    lemma_fresh_lanes_unique(targets, count - 1);
    lemma_fresh_lanes_unique(targets, count);
    if w == count - 1 {
        let at = if has_lane(before, lane.key) {
            lane_index(before, lane.key)
        } else {
            before.len() as int
        };
        assert(after[at] == lane);
        lemma_lane_index(after, at);
    } else {
        law_last_target_of_a_lane_is_played(targets, count - 1, w);
        let at = lane_index(before, targets[w].key());
        assert(0 <= at < before.len() && before[at].key == targets[w].key());
        assert(targets[count - 1].key() != targets[w].key());
        if has_lane(before, lane.key) {
            let other = lane_index(before, lane.key);
            assert(before[other].key == lane.key);
        }
        assert(after[at] == before[at]);
        lemma_lane_index(after, at);
    }
}

proof fn lemma_fresh_lanes_unique(targets: Seq<TargetModel>, count: int)
    requires
        0 <= count <= targets.len(),
    ensures
        unique_lanes(fresh_lanes(targets, count)),
    decreases count,
{
    if count > 0 {
        lemma_fresh_lanes_unique(targets, count - 1);
        let before = fresh_lanes(targets, count - 1);
        let lane = LaneModel::joining(targets[count - 1], 0);
        if has_lane(before, lane.key) {
            let at = lane_index(before, lane.key);
            assert(0 <= at < before.len() && before[at].key == lane.key);
            lemma_update_keeps_unique(before, at, lane);
        } else {
            lemma_push_keeps_unique(before, lane);
        }
    }
}

/// The lanes that go on through a reconciliation are exactly the wanted ones that were playing.
pub proof fn law_retained_keys_are_those_playing(
    lanes: Seq<LaneModel>,
    targets: Seq<TargetModel>,
    count: int,
    w: int,
)
    requires
        0 <= w < count <= targets.len(),
    ensures
        retained_keys(lanes, targets, count).contains(targets[w].key()) <==> exists|i: int|
            0 <= i < lanes.len() && (#[trigger] lanes[i]).key == targets[w].key(),
    decreases count,
{
    let before = retained_keys(lanes, targets, count - 1);
    let after = retained_keys(lanes, targets, count);
    let key = targets[w].key();
    if w < count - 1 {
        law_retained_keys_are_those_playing(lanes, targets, count - 1, w);
        if before.contains(key) {
            let k = choose|k: int| 0 <= k < before.len() && before[k] == key;
            assert(after[k] == key);
        }
        if after.contains(key) {
            let k = choose|k: int| 0 <= k < after.len() && after[k] == key;
            if k < before.len() {
                assert(before[k] == key);
            }
        }
    } else {
        if has_lane(lanes, key) {
            assert(after[before.len() as int] == key);
        } else {
            lemma_retained_have_lanes(lanes, targets, count, key);
        }
    }
}

proof fn lemma_retained_have_lanes(
    lanes: Seq<LaneModel>,
    targets: Seq<TargetModel>,
    count: int,
    key: LaneKey,
)
    requires
        0 <= count <= targets.len(),
        !has_lane(lanes, key),
    ensures
        !retained_keys(lanes, targets, count).contains(key),
    decreases count,
{
    if count > 0 {
        lemma_retained_have_lanes(lanes, targets, count - 1, key);
        let before = retained_keys(lanes, targets, count - 1);
        let after = retained_keys(lanes, targets, count);
        if after.contains(key) {
            let k = choose|k: int| 0 <= k < after.len() && after[k] == key;
            if k < before.len() {
                assert(before[k] == key);
            }
        }
    }
}

proof fn lemma_brought_in_target(
    lanes: Seq<LaneModel>,
    targets: Seq<TargetModel>,
    count: int,
    device_frame: u64,
    w: int,
)
    requires
        unique_lanes(lanes),
        0 <= count <= targets.len(),
        0 <= w < targets.len(),
        forall|a: int, b: int|
            0 <= a < b < targets.len() ==> (#[trigger] targets[a]).key() != (
            #[trigger] targets[b]).key(),
    ensures
        ({
            let after = brought_in(lanes, targets, count, device_frame);
            let key = targets[w].key();
            &&& w >= count ==> has_lane(after, key) == has_lane(lanes, key)
            &&& w < count ==> has_lane(after, key)
            &&& has_lane(lanes, key) && w >= count ==> after[lane_index(after, key)].target
                == lanes[lane_index(lanes, key)].target
            &&& has_lane(lanes, key) && w < count ==> after[lane_index(after, key)].target
                == lanes[lane_index(lanes, key)].mixed_like(targets[w]).target
            &&& !has_lane(lanes, key) && w < count ==> after[lane_index(after, key)].target == Some(
                targets[w],
            )
        }),
    decreases count,
{
    if count > 0 {
        lemma_brought_in_target(lanes, targets, count - 1, device_frame, w);
        lemma_brought_in(lanes, targets, count - 1, device_frame);
        lemma_brought_in(lanes, targets, count, device_frame);
        let before = brought_in(lanes, targets, count - 1, device_frame);
        let after = brought_in(lanes, targets, count, device_frame);
        let target = targets[count - 1];
        let key = targets[w].key();
        if w == count - 1 {
            if has_lane(before, key) {
                let at = lane_index(before, key);
                assert(0 <= at < before.len() && before[at].key == key);
                assert(after[at].key == key);
                lemma_lane_index(after, at);
            } else {
                assert(after[before.len() as int].key == key);
                lemma_lane_index(after, before.len() as int);
            }
        } else {
            if w < count - 1 {
                assert(targets[w].key() != targets[count - 1].key());
            } else {
                assert(targets[count - 1].key() != targets[w].key());
            }
            if has_lane(before, key) {
                let at = lane_index(before, key);
                assert(0 <= at < before.len() && before[at].key == key);
                if has_lane(before, target.key()) {
                    let other = lane_index(before, target.key());
                    assert(0 <= other < before.len() && before[other].key == target.key());
                }
                assert(after[at] == before[at]);
                lemma_lane_index(after, at);
            } else if has_lane(after, key) {
                let at = lane_index(after, key);
                assert(0 <= at < after.len() && after[at].key == key);
                if has_lane(before, target.key()) {
                    let other = lane_index(before, target.key());
                    assert(0 <= other < before.len() && before[other].key == target.key());
                    assert(before[at].key == key);
                } else if at < before.len() {
                    assert(before[at].key == key);
                }
                assert(false);
            }
        }
    }
}

/// After a reconciliation each wanted lane plays what was asked for: one that plays on has taken the
/// settings over and keeps its file and position, and one that joins plays its target.
pub proof fn law_reconciled_lanes_have_their_settings(
    lanes: Seq<LaneModel>,
    targets: Seq<TargetModel>,
    device_frame: u64,
    w: int,
    at: int,
)
    requires
        unique_lanes(lanes),
        0 <= w < targets.len(),
        forall|a: int, b: int|
            0 <= a < b < targets.len() ==> (#[trigger] targets[a]).key() != (
            #[trigger] targets[b]).key(),
    ensures
        ({
            let after = reconciled(lanes, targets, device_frame);
            let lane = after[lane_index(after, targets[w].key())];
            &&& has_lane(after, targets[w].key())
            &&& 0 <= at < lanes.len() && lanes[at].key == targets[w].key() ==> lane.target
                == lanes[at].mixed_like(targets[w]).target && lane.samples == lanes[at].samples
                && lane.device_frame_origin == lanes[at].device_frame_origin && lane.decoded_frames
                == lanes[at].decoded_frames
            &&& (forall|i: int| 0 <= i < lanes.len() ==> (#[trigger] lanes[i]).key
                != targets[w].key()) ==> lane.target == Some(targets[w])
        }),
{
    let wanted = wanted_lanes(lanes, lanes.len() as int, targets);
    let key = targets[w].key();
    lemma_wanted_lanes(lanes, lanes.len() as int, targets);
    lemma_brought_in_target(wanted, targets, targets.len() as int, device_frame, w);
    assert(is_wanted(targets, targets.len() as int, key));
    if 0 <= at < lanes.len() && lanes[at].key == key {
        assert(is_wanted(targets, targets.len() as int, lanes[at].key));
        let i = choose|i: int| 0 <= i < wanted.len() && #[trigger] wanted[i] == lanes[at];
        lemma_lane_index(wanted, i);
        lemma_lane_index(lanes, at);
        assert(has_lane(lanes, key));
        law_reconcile_keeps_retained_lanes(lanes, targets, device_frame, key);
    }
    if has_lane(wanted, key) {
        let i = lane_index(wanted, key);
        assert(0 <= i < wanted.len() && wanted[i].key == key);
        let j = choose|j: int| 0 <= j < lanes.len() && lanes[j] == #[trigger] wanted[i];
        assert(lanes[j].key == key);
    }
}

/// Lanes can be reconciled exactly where there is a target, no two share a key, and no lane that plays
/// on would change its file.
pub proof fn law_reconciling_never_changes_a_file(
    lanes: Seq<LaneModel>,
    targets: Seq<TargetModel>,
    w: int,
    at: int,
)
    requires
        unique_lanes(lanes),
        reconcilable(lanes, targets),
        0 <= w < targets.len(),
        0 <= at < lanes.len(),
        lanes[at].key == targets[w].key(),
    ensures
        lanes[at].target matches Some(active) && active.path == targets[w].path,
{
    lemma_lane_index(lanes, at);
    assert(has_lane(lanes, targets[w].key()));
}

/// Lanes that all play what is asked of them can always be reconciled.
pub proof fn law_unchanged_files_can_be_reconciled(
    lanes: Seq<LaneModel>,
    targets: Seq<TargetModel>,
)
    requires
        unique_lanes(lanes),
        targets.len() > 0,
        forall|a: int, b: int|
            0 <= a < b < targets.len() ==> (#[trigger] targets[a]).key() != (
            #[trigger] targets[b]).key(),
        forall|w: int, at: int|
            0 <= w < targets.len() && 0 <= at < lanes.len() && (#[trigger] lanes[at]).key == (
            #[trigger] targets[w]).key() ==> (lanes[at].target matches Some(active) && active.path
                == targets[w].path),
    ensures
        reconcilable(lanes, targets),
{
    assert forall|i: int|
        0 <= i < targets.len() && has_lane(lanes, (#[trigger] targets[i]).key()) implies (
    lanes[lane_index(lanes, targets[i].key())].target matches Some(active) && active.path
        == targets[i].path) by {
        let at = lane_index(lanes, targets[i].key());
        assert(0 <= at < lanes.len() && lanes[at].key == targets[i].key());
    }
}

/// A new generation is another one, and they follow each other.
pub proof fn law_generations_follow_each_other(generation: u64)
    ensures
        generation < u64::MAX ==> next_generation(generation) == generation + 1,
        next_generation(generation) != generation,
{
}

/// Mix settings are taken over exactly where there is one target for each lane: as many as the lanes, with
/// distinct keys, each the key of a lane. Otherwise nothing changes.
pub proof fn law_settings_need_one_target_per_lane(
    mixer: &mut Mixer,
    targets: &Vec<AudioTarget>,
    applied: bool,
    i: int,
    j: int,
)
    requires
        call_ensures(Mixer::update_mix_settings, (mixer, targets), applied),
    ensures
        applied ==> targets@.len() == old(mixer).lanes().len(),
        applied && 0 <= i < j < targets@.len() ==> targets@[i]@.key() != targets@[j]@.key(),
        applied && 0 <= i < targets@.len() ==> exists|k: int|
            0 <= k < old(mixer).lanes().len() && (#[trigger] old(mixer).lanes()[k]).key
                == targets@[i]@.key(),
        !applied ==> final(mixer).lanes() == old(mixer).lanes(),
        targets@.len() == old(mixer).lanes().len() && (forall|a: int, b: int|
            0 <= a < b < targets@.len() ==> (#[trigger] targets@[a])@.key() != (
            #[trigger] targets@[b])@.key()) && (forall|a: int|
            0 <= a < targets@.len() ==> exists|k: int|
                0 <= k < old(mixer).lanes().len() && (#[trigger] old(mixer).lanes()[k]).key == (
                #[trigger] targets@[a])@.key()) ==> applied,
        final(mixer).generation() == old(mixer).generation(),
{
    let models = target_models(targets@);
    assert(models.len() == targets@.len());
    assert(forall|a: int| 0 <= a < models.len() ==> #[trigger] models[a] == targets@[a]@);
    if applied {
        if 0 <= i < models.len() {
            assert(has_lane(old(mixer).lanes(), models[i].key()));
        }
        if 0 <= i < j < models.len() {
            assert(models[i].key() != models[j].key());
        }
    }
}

} // verus!
