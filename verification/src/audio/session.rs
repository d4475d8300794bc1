//! Sticky audio decoders: when they seek, and what of their output is queued.
use crate::arith::{larger, max_i64, nearest_i64, saturating_add_ticks, saturating_sub_ticks, smaller};
use crate::audio::clock::{lane_capacity, sample_duration_ticks, samples_to_ticks};
use crate::audio::mixer::{
    has_lane, lane_index, Enqueued, Mixer, MAX_DECODED_AUDIO_FRAME_SAMPLES,
};
use crate::audio::target::{AudioTarget, LaneKey, Level, TargetModel};
use crate::source_path::{PathModel, SourcePath};
use crate::text::{decimal, decimal_text};
use vstd::prelude::*;
use vstd::slice::slice_subrange;

verus! {

/// How far ahead of the decoder a target may lie to be reached without a seek.
pub const FORWARD_REUSE_TICKS: i64 = 1_500_000;

/// How a session comes to play a target.
#[derive(Clone, Copy, Debug, PartialEq, Eq, Structural)]
pub enum SessionAction {
    /// Another file or sample rate needs another session.
    Open,
    /// Decoding goes on from where it stands.
    Continue,
    /// The demuxer has to be moved, and everything buffered is dropped.
    SeekAndFlush,
}

/// How a session that stands at `decoder_cursor_tick` comes to play `target`.
pub open spec fn action_for(
    active_path: Option<PathModel>,
    active_sample_rate: Option<u32>,
    decoder_cursor_tick: Option<i64>,
    target: TargetModel,
    sample_rate: u32,
) -> SessionAction {
    if active_path != Some(target.path) || active_sample_rate != Some(sample_rate) {
        SessionAction::Open
    } else if decoder_cursor_tick matches Some(last) && last < target.source_tick && nearest_i64(
        target.source_tick - last,
    ) <= FORWARD_REUSE_TICKS {
        SessionAction::Continue
    } else {
        SessionAction::SeekAndFlush
    }
}

/// The model of an optional path.
pub open spec fn path_model(path: Option<&SourcePath>) -> Option<PathModel> {
    match path {
        Some(path) => Some(path@),
        None => None,
    }
}

pub fn session_action(
    active_path: Option<&SourcePath>,
    active_sample_rate: Option<u32>,
    decoder_cursor_tick: Option<i64>,
    target: &AudioTarget,
    sample_rate: u32,
) -> (action: SessionAction)
    ensures
        action == action_for(
            path_model(active_path),
            active_sample_rate,
            decoder_cursor_tick,
            target@,
            sample_rate,
        ),
{
    let same_path = match active_path {
        Some(path) => *path == target.path,
        None => false,
    };
    if !same_path || active_sample_rate != Some(sample_rate) {
        return SessionAction::Open;
    }
    let goes_on = match decoder_cursor_tick {
        Some(last) => target.source_tick > last && saturating_sub_ticks(target.source_tick, last)
            <= FORWARD_REUSE_TICKS,
        None => false,
    };
    if goes_on {
        SessionAction::Continue
    } else {
        SessionAction::SeekAndFlush
    }
}

/// An open decoder: what it reads, where it stands, and its native contexts.
#[derive(Debug)]
pub struct AudioSession<T> {
    pub path: SourcePath,
    pub sample_rate: u32,
    /// The end of the last decoded frame.
    pub decoder_cursor_tick: Option<i64>,
    pub eof: bool,
    pub contexts: T,
}

impl<T> AudioSession<T> {
    /// A session that has decoded nothing.
    pub fn new(target: &AudioTarget, sample_rate: u32, contexts: T) -> (session: Self)
        ensures
            session.path@ == target@.path,
            session.sample_rate == sample_rate,
            session.decoder_cursor_tick is None,
            !session.eof,
            session.contexts == contexts,
    {
        AudioSession {
            path: target.path.clone(),
            sample_rate,
            decoder_cursor_tick: None,
            eof: false,
            contexts,
        }
    }

    /// Whether the session cannot play `target` at all.
    pub fn needs_open(&self, target: &AudioTarget, sample_rate: u32) -> (needed: bool)
        ensures
            needed == (self.path@ != target@.path || self.sample_rate != sample_rate),
    {
        self.path != target.path || self.sample_rate != sample_rate
    }

    /// How the session comes to play `target`. A lane that resumes goes on as it is.
    pub fn prepare(&self, target: &AudioTarget, resume: bool) -> (action: SessionAction)
        ensures
            action == (if resume {
                SessionAction::Continue
            } else {
                action_for(
                    Some(self.path@),
                    Some(self.sample_rate),
                    self.decoder_cursor_tick,
                    target@,
                    self.sample_rate,
                )
            }),
    {
        if resume {
            SessionAction::Continue
        } else {
            session_action(
                Some(&self.path),
                Some(self.sample_rate),
                self.decoder_cursor_tick,
                target,
                self.sample_rate,
            )
        }
    }

    /// Notes that the demuxer was moved and everything buffered dropped.
    pub fn seeked(&mut self)
        ensures
            final(self).decoder_cursor_tick is None,
            !final(self).eof,
            final(self).path == old(self).path,
            final(self).sample_rate == old(self).sample_rate,
            final(self).contexts == old(self).contexts,
    {
        self.decoder_cursor_tick = None;
        self.eof = false;
    }

    /// Notes that the source has no more packets.
    pub fn ended(&mut self)
        ensures
            final(self).eof,
            final(self).decoder_cursor_tick == old(self).decoder_cursor_tick,
            final(self).path == old(self).path,
            final(self).sample_rate == old(self).sample_rate,
            final(self).contexts == old(self).contexts,
    {
        self.eof = true;
    }
}

/// Whether work of this generation is overtaken.
pub fn is_cancelled(mixer: &Mixer, generation: u64) -> (cancelled: bool)
    ensures
        cancelled == (mixer.generation() != generation),
{
    mixer.current_generation() != generation
}

/// Whether decoding for a lane starts at all: its work is current, and it is there with room.
pub fn may_decode(mixer: &Mixer, generation: u64, key: LaneKey, sample_rate: u32) -> (may: bool)
    requires
        mixer.wf(),
    ensures
        may == (mixer.generation() == generation && has_lane(mixer.lanes(), key)
            && mixer.lanes()[lane_index(mixer.lanes(), key)].samples.len() < lane_capacity(
            sample_rate,
            mixer.lanes().len() as int,
        )),
{
    !is_cancelled(mixer, generation) && mixer.lane_accepts(key, sample_rate)
}

/// Where the resampler's output begins, given how many input samples it holds back.
pub open spec fn output_start(decoded_start_tick: int, delay: Option<i64>, rate: u32) -> int {
    nearest_i64(
        decoded_start_tick - (match delay {
            Some(input) => samples_to_ticks(larger(input as int, 0), rate),
            None => 0,
        }),
    )
}

pub fn output_start_tick(decoded_start_tick: i64, delay: Option<i64>, rate: u32) -> (tick: i64)
    ensures
        tick == output_start(decoded_start_tick as int, delay, rate),
{
    let held_back: i64 = match delay {
        Some(input) => delayed_ticks(input, rate),
        None => 0,
    };
    saturating_sub_ticks(decoded_start_tick, held_back)
}

fn delayed_ticks(input: i64, rate: u32) -> (ticks: i64)
    ensures
        ticks == samples_to_ticks(larger(input as int, 0), rate),
        ticks >= 0,
{
    let samples: i64 = max_i64(input, 0);
    let divisor: i64 = if rate == 0 {
        1
    } else {
        rate as i64
    };
    let micros: i64 = match samples.checked_mul(1_000_000) {
        Some(micros) => micros,
        None => i64::MAX,
    };
    micros / divisor
}

/// How many of `count` samples lie before the target: a demuxer seeks to a packet at or before
/// the requested time, and audible output begins at the timeline cursor, not earlier.
pub open spec fn preroll(target_tick: int, start_tick: int, sample_rate: u32, count: int) -> int {
    smaller(
        smaller(
            2 * smaller(
                nearest_i64(larger(nearest_i64(target_tick - start_tick), 0) * sample_rate)
                    / 1_000_000,
                usize::MAX as int,
            ),
            usize::MAX as int,
        ),
        count,
    )
}

pub fn preroll_samples(target_tick: i64, start_tick: i64, sample_rate: u32, count: usize) -> (skip:
    usize)
    ensures
        skip == preroll(target_tick as int, start_tick as int, sample_rate, count as int),
        skip <= count,
{
    let ahead: i64 = max_i64(saturating_sub_ticks(target_tick, start_tick), 0);
    let scaled: i64 = match ahead.checked_mul(sample_rate as i64) {
        Some(scaled) => scaled,
        None => i64::MAX,
    };
    assert(0 <= ahead * sample_rate) by (nonlinear_arith)
        requires
            0 <= ahead,
            0 <= sample_rate,
    ;
    assert(scaled == nearest_i64(ahead * sample_rate));
    let skip_frames: i64 = scaled / 1_000_000;
    let frames: usize = if skip_frames as u64 > usize::MAX as u64 {
        usize::MAX
    } else {
        skip_frames as usize
    };
    let samples: usize = match frames.checked_mul(2) {
        Some(samples) => samples,
        None => usize::MAX,
    };
    if samples < count {
        samples
    } else {
        count
    }
}

/// Refuses a decoded frame that is larger than any decoder frame should be.
pub fn check_frame_size(valid_samples: usize) -> (checked: Result<(), String>)
    ensures
        checked is Ok == (valid_samples <= MAX_DECODED_AUDIO_FRAME_SAMPLES),
        checked matches Err(message) ==> message@ == "decoded audio frame has "@ + decimal(
            valid_samples as nat,
        ) + " samples; maximum is "@ + decimal(MAX_DECODED_AUDIO_FRAME_SAMPLES as nat),
{
    if valid_samples > MAX_DECODED_AUDIO_FRAME_SAMPLES {
        let mut message = String::from_str("decoded audio frame has ");
        message.append(decimal_text(valid_samples as u64).as_str());
        message.append(" samples; maximum is ");
        message.append(decimal_text(MAX_DECODED_AUDIO_FRAME_SAMPLES as u64).as_str());
        return Err(message);
    }
    Ok(())
}

/// What follows a packet.
#[derive(Clone, Copy, Debug, PartialEq, Eq, Structural)]
pub enum PacketEnd {
    /// The work is overtaken. Drained frames were deliberately not resampled: delayed conversion
    /// state is dropped so that a later request begins exactly where the decoder stands.
    Cancelled,
    /// The lane holds its share. Decoding stops only at a packet boundary so that
    /// decoder-buffered PCM is never discarded.
    Full,
    /// The next packet follows.
    Continue,
}

/// What is known while the frames of one packet are drained.
#[derive(Clone, Copy, Debug, PartialEq, Eq, Structural)]
pub struct PacketDrain {
    pub cancelled: bool,
    pub reached_capacity: bool,
}

/// Where a decoded frame begins and ends: one without a timestamp begins at the target.
pub open spec fn frame_span(timestamp: Option<i64>, target_tick: i64, samples: int, rate: u32) -> (
    i64,
    i64,
) {
    let start = match timestamp {
        Some(tick) => tick,
        None => target_tick,
    };
    (start, nearest_i64(start + samples_to_ticks(samples, rate)) as i64)
}

impl PacketDrain {
    pub fn new() -> (drain: Self)
        ensures
            drain == (PacketDrain { cancelled: false, reached_capacity: false }),
    {
        PacketDrain { cancelled: false, reached_capacity: false }
    }

    /// Takes one decoded frame. The decoder's cursor moves to the end of it in any case: every
    /// frame of an accepted packet is drained, because a later continuation would otherwise skip
    /// decoder-buffered PCM. Returns where the frame begins, if it is to be resampled.
    pub fn frame<T>(
        &mut self,
        session: &mut AudioSession<T>,
        mixer: &Mixer,
        generation: u64,
        timestamp: Option<i64>,
        target_tick: i64,
        samples: usize,
        rate: u32,
    ) -> (start: Option<i64>)
        ensures
            ({
                let (begin, end) = frame_span(timestamp, target_tick, samples as int, rate);
                let cancelled = old(self).cancelled || mixer.generation() != generation;
                &&& final(session).decoder_cursor_tick == Some(end)
                &&& final(self).cancelled == cancelled
                &&& final(self).reached_capacity == old(self).reached_capacity
                &&& start == (if cancelled {
                    None
                } else {
                    Some(begin)
                })
            }),
            final(session).path == old(session).path,
            final(session).sample_rate == old(session).sample_rate,
            final(session).eof == old(session).eof,
            final(session).contexts == old(session).contexts,
    {
        let begin: i64 = match timestamp {
            Some(tick) => tick,
            None => target_tick,
        };
        let duration: i64 = sample_duration_ticks(samples, rate);
        session.decoder_cursor_tick = Some(saturating_add_ticks(begin, duration));
        if self.cancelled || is_cancelled(mixer, generation) {
            self.cancelled = true;
            return None;
        }
        Some(begin)
    }

    /// Queues the resampled samples of a frame that begins at `start_tick`, from the target on.
    /// Returns how many stereo frames came too late.
    pub fn queue(
        &mut self,
        mixer: &mut Mixer,
        generation: u64,
        key: LaneKey,
        target: &AudioTarget,
        start_tick: i64,
        resampled: &[Level],
        device_frame: u64,
        sample_rate: u32,
    ) -> (late_frames: Result<usize, String>)
        requires
            old(mixer).wf(),
            old(mixer).generation() == generation ==> has_lane(old(mixer).lanes(), key),
        ensures
            final(mixer).wf(),
            final(mixer).generation() == old(mixer).generation(),
            old(mixer).generation() != generation ==> {
                &&& *final(self) == (PacketDrain { cancelled: true, ..*old(self) })
                &&& final(mixer).lanes() == old(mixer).lanes()
                &&& late_frames == Ok::<usize, String>(0)
            },
            old(mixer).generation() == generation ==> ({
                let lanes = old(mixer).lanes();
                let at = lane_index(lanes, key);
                let skip = preroll(
                    target@.source_tick as int,
                    start_tick as int,
                    sample_rate,
                    resampled@.len() as int,
                );
                let heard = resampled@.skip(skip);
                let next = lanes[at].enqueued(heard, device_frame);
                let capacity = lane_capacity(sample_rate, lanes.len() as int);
                if next.samples.len() > smaller(
                    capacity + MAX_DECODED_AUDIO_FRAME_SAMPLES,
                    usize::MAX as int,
                ) {
                    &&& late_frames matches Err(message) && message@
                        == "decoded audio packet exceeds the bounded lane allowance"@
                    &&& final(mixer).lanes() == lanes
                    &&& *final(self) == *old(self)
                } else {
                    &&& late_frames == Ok::<usize, String>(
                        (lanes[at].late_samples(heard.len() as int, device_frame) / 2) as usize,
                    )
                    &&& final(mixer).lanes() == lanes.update(at, next)
                    &&& *final(self) == (PacketDrain {
                        reached_capacity: old(self).reached_capacity || next.samples.len()
                            >= capacity,
                        ..*old(self)
                    })
                }
            }),
    {
        if is_cancelled(mixer, generation) {
            self.cancelled = true;
            return Ok(0);
        }
        let skip: usize = preroll_samples(
            target.source_tick,
            start_tick,
            sample_rate,
            resampled.len(),
        );
        let heard = slice_subrange(resampled, skip, resampled.len());
        assert(heard@ =~= resampled@.skip(skip as int));
        match mixer.enqueue_decoded_frame(key, heard, device_frame, sample_rate) {
            Ok(Enqueued { reached_capacity, late_frames }) => {
                if reached_capacity {
                    self.reached_capacity = true;
                }
                Ok(late_frames)
            },
            Err(message) => Err(message),
        }
    }

    /// Decides what follows the packet once its frames are drained.
    pub fn end(&self) -> (end: PacketEnd)
        ensures
            end == (if self.cancelled {
                PacketEnd::Cancelled
            } else if self.reached_capacity {
                PacketEnd::Full
            } else {
                PacketEnd::Continue
            }),
    {
        if self.cancelled {
            PacketEnd::Cancelled
        } else if self.reached_capacity {
            PacketEnd::Full
        } else {
            PacketEnd::Continue
        }
    }
}

/// A session goes on without a seek only towards a nearby target ahead of it.
pub proof fn law_continue_only_goes_forward(
    active_path: Option<PathModel>,
    active_sample_rate: Option<u32>,
    decoder_cursor_tick: Option<i64>,
    target: TargetModel,
    sample_rate: u32,
)
    requires
        action_for(active_path, active_sample_rate, decoder_cursor_tick, target, sample_rate)
            == SessionAction::Continue,
    ensures
        decoder_cursor_tick matches Some(last) && last < target.source_tick <= last
            + FORWARD_REUSE_TICKS,
        active_path == Some(target.path),
{
}

/// Preroll is dropped in whole stereo frames, unless all there is is dropped, and never where
/// output begins at the target or after it.
pub proof fn law_preroll_is_whole_frames(
    target_tick: int,
    start_tick: int,
    sample_rate: u32,
    count: int,
)
    requires
        0 <= count <= usize::MAX,
    ensures
        ({
            let skip = preroll(target_tick, start_tick, sample_rate, count);
            &&& 0 <= skip <= count
            &&& skip == count || skip % 2 == 0
            &&& start_tick >= target_tick ==> skip == 0
        }),
{
    let ahead = larger(nearest_i64(target_tick - start_tick), 0);
    assert(0 <= ahead * sample_rate) by (nonlinear_arith)
        requires
            0 <= ahead,
            0 <= sample_rate,
    ;
    if start_tick >= target_tick {
        assert(ahead == 0);
        assert(ahead * sample_rate == 0) by (nonlinear_arith)
            requires
                ahead == 0,
        ;
    }
}

/// A session is opened anew exactly where another file or rate is asked for; it goes on without a seek
/// exactly where its target lies ahead of what was decoded, by less than the limit; in every other
/// case it seeks.
pub proof fn law_session_action_is_exact(
    active_path: PathModel,
    active_sample_rate: u32,
    decoder_cursor_tick: i64,
    target: TargetModel,
    sample_rate: u32,
)
    ensures
        ({
            let action = action_for(
                Some(active_path),
                Some(active_sample_rate),
                Some(decoder_cursor_tick),
                target,
                sample_rate,
            );
            let fits = active_path == target.path && active_sample_rate == sample_rate;
            let ahead = target.source_tick - decoder_cursor_tick;
            &&& action is Open <==> !fits
            &&& action is Continue <==> fits && 0 < ahead <= FORWARD_REUSE_TICKS
            &&& action is SeekAndFlush <==> fits && !(0 < ahead <= FORWARD_REUSE_TICKS)
        }),
        action_for(None, Some(active_sample_rate), None, target, sample_rate) is Open,
        action_for(Some(target.path), Some(sample_rate), None, target, sample_rate)
            is SeekAndFlush,
{
}

/// Audible output begins at the target: what is dropped is the time between the output's start and
/// the target, in whole stereo frames at the device's rate, as far as there is any.
pub proof fn law_preroll_reaches_up_to_the_target(
    target_tick: i64,
    start_tick: i64,
    sample_rate: u32,
    count: int,
)
    requires
        0 <= count <= 0x7FFF_FFFF,
        0 <= target_tick - start_tick,
        (target_tick - start_tick) * sample_rate <= 0x3FFF_FFFF_FFFF,
    ensures
        ({
            let skip = preroll(target_tick as int, start_tick as int, sample_rate, count);
            let ahead = (target_tick - start_tick) * sample_rate;
            &&& skip < count ==> skip % 2 == 0 && (skip / 2) * 1_000_000 <= ahead < (skip / 2 + 1)
                * 1_000_000
            &&& skip == count ==> count * 500_000 <= ahead + 500_000
        }),
{
    let ahead = (target_tick - start_tick) * sample_rate;
    let frames = ahead / 1_000_000;
    if sample_rate > 0 {
        assert(target_tick - start_tick <= ahead) by (nonlinear_arith)
            requires
                ahead == (target_tick - start_tick) * sample_rate,
                sample_rate >= 1,
                target_tick - start_tick >= 0,
        ;
    } else {
        assert(ahead == 0) by (nonlinear_arith)
            requires
                ahead == (target_tick - start_tick) * sample_rate,
                sample_rate == 0,
        ;
        let clipped = larger(nearest_i64(target_tick - start_tick), 0);
        assert(clipped * sample_rate == 0) by (nonlinear_arith)
            requires
                sample_rate == 0,
        ;
    }
    assert(frames * 1_000_000 <= ahead < (frames + 1) * 1_000_000);
    assert(frames <= 0x7FFF_FFFF);
    let skip = preroll(target_tick as int, start_tick as int, sample_rate, count);
    assert(skip == smaller(2 * frames, count));
}

/// A decoded frame begins at its timestamp, or at the target where it has none, and ends as much later
/// as its samples take; output begins earlier by what the resampler holds back.
pub proof fn law_frames_span_their_samples(
    timestamp: i64,
    target_tick: i64,
    samples: int,
    rate: u32,
    delay: i64,
)
    requires
        0 <= samples <= 0x7FFF_FFFF,
        0 <= timestamp <= 0x3FFF_FFFF_FFFF_FFFF,
        0 <= target_tick <= 0x3FFF_FFFF_FFFF_FFFF,
    ensures
        frame_span(Some(timestamp), target_tick, samples, rate).0 == timestamp,
        frame_span(None, target_tick, samples, rate).0 == target_tick,
        frame_span(Some(timestamp), target_tick, samples, rate).1 == timestamp + samples_to_ticks(
            samples,
            rate,
        ),
        frame_span(None, target_tick, samples, rate).1 == target_tick + samples_to_ticks(
            samples,
            rate,
        ),
        output_start(timestamp as int, None, rate) == timestamp,
        delay <= 0 ==> output_start(timestamp as int, Some(delay), rate) == timestamp,
        0 <= delay <= 0x7FFF_FFFF ==> output_start(timestamp as int, Some(delay), rate) == timestamp
            - samples_to_ticks(delay as int, rate),
{
    crate::audio::clock::law_samples_take_their_time(samples, rate);
    crate::audio::clock::law_samples_take_their_time(0, rate);
    let ticks = samples_to_ticks(samples, rate);
    let divisor = if rate == 0 { 1 } else { rate as int };
    assert(ticks <= samples * 1_000_000) by (nonlinear_arith)
        requires
            ticks * divisor <= samples * 1_000_000,
            divisor >= 1,
            ticks >= 0,
    ;
    let none = samples_to_ticks(0, rate);
    assert(none == 0) by (nonlinear_arith)
        requires
            none * divisor <= 0,
            divisor >= 1,
            none >= 0,
    ;
    if 0 <= delay <= 0x7FFF_FFFF {
        crate::audio::clock::law_samples_take_their_time(delay as int, rate);
        let held = samples_to_ticks(delay as int, rate);
        assert(held <= delay * 1_000_000) by (nonlinear_arith)
            requires
                held * divisor <= delay * 1_000_000,
                divisor >= 1,
                held >= 0,
        ;
    }
}

/// A decoded frame moves the decoder's cursor to its end in any case, and is resampled exactly where its
/// work is not overtaken; what was overtaken stays so for the packet.
pub proof fn law_every_frame_moves_the_cursor<T>(
    drain: &mut PacketDrain,
    session: &mut AudioSession<T>,
    mixer: &Mixer,
    generation: u64,
    timestamp: Option<i64>,
    target_tick: i64,
    samples: usize,
    rate: u32,
    start: Option<i64>,
)
    requires
        call_ensures(
            PacketDrain::frame::<T>,
            (drain, session, mixer, generation, timestamp, target_tick, samples, rate),
            start,
        ),
    ensures
        ({
            let begin = match timestamp {
                Some(tick) => tick,
                None => target_tick,
            };
            let cancelled = old(drain).cancelled || mixer.generation() != generation;
            &&& final(session).decoder_cursor_tick == Some(
                nearest_i64(begin + samples_to_ticks(samples as int, rate)) as i64,
            )
            &&& final(drain).cancelled <==> cancelled
            &&& final(drain).reached_capacity == old(drain).reached_capacity
            &&& cancelled ==> start is None
            &&& !cancelled ==> start == Some(begin)
            &&& final(session).path == old(session).path
            &&& final(session).eof == old(session).eof
        }),
{
}

/// A packet ends the decoding where its work was overtaken, else where its lane is full, and else goes on.
pub proof fn law_packets_end_at_their_boundary(drain: &PacketDrain, end: PacketEnd)
    requires
        call_ensures(PacketDrain::end, (drain,), end),
    ensures
        end is Cancelled <==> drain.cancelled,
        end is Full <==> !drain.cancelled && drain.reached_capacity,
        end is Continue <==> !drain.cancelled && !drain.reached_capacity,
{
}

/// Decoding starts exactly where its work is current, and its lane is there with less than its share.
pub proof fn law_decoding_starts_with_room(
    mixer: &Mixer,
    generation: u64,
    key: LaneKey,
    sample_rate: u32,
    may: bool,
    at: int,
)
    requires
        call_ensures(may_decode, (mixer, generation, key, sample_rate), may),
        mixer.wf(),
    ensures
        mixer.generation() != generation ==> !may,
        (forall|i: int| 0 <= i < mixer.lanes().len() ==> (#[trigger] mixer.lanes()[i]).key != key)
            ==> !may,
        0 <= at < mixer.lanes().len() && mixer.lanes()[at].key == key && mixer.generation()
            == generation ==> (may <==> mixer.lanes()[at].samples.len() < lane_capacity(
            sample_rate,
            mixer.lanes().len() as int,
        )),
{
    if 0 <= at < mixer.lanes().len() && mixer.lanes()[at].key == key {
        crate::audio::mixer::lemma_lane_index(mixer.lanes(), at);
    }
}

/// A resumed session goes on as it is; any other goes on, seeks or is opened as its target asks.
pub proof fn law_resumed_sessions_go_on<T>(
    session: &AudioSession<T>,
    target: &AudioTarget,
    resume: bool,
    action: SessionAction,
)
    requires
        call_ensures(AudioSession::<T>::prepare, (session, target, resume), action),
        session.path@ == target.path@,
    ensures
        resume ==> action is Continue,
        !resume && session.decoder_cursor_tick is None ==> action is SeekAndFlush,
        !resume ==> (session.decoder_cursor_tick matches Some(last) ==> (action is Continue <==> 0
            < target.source_tick - last <= FORWARD_REUSE_TICKS)),
        !(action is Open),
{
}

/// A session goes on for a second and a half at most, and a decoder frame holds 262,144 samples at most.
pub proof fn law_session_limits(
    active_path: PathModel,
    last: i64,
    target: TargetModel,
    sample_rate: u32,
    valid_samples: usize,
    checked: Result<(), String>,
)
    requires
        call_ensures(check_frame_size, (valid_samples,), checked),
        active_path == target.path,
    ensures
        action_for(Some(active_path), Some(sample_rate), Some(last), target, sample_rate) is Continue
            <==> 0 < target.source_tick - last <= 1_500_000,
        checked is Ok <==> valid_samples <= 262_144,
{
}

/// Where a session is opened for a target it plays that target's file at the device's rate, from nowhere
/// yet.
pub proof fn law_opened_session_is_for_its_target<T>(
    target: &AudioTarget,
    sample_rate: u32,
    contexts: T,
    session: AudioSession<T>,
)
    requires
        call_ensures(AudioSession::<T>::new, (target, sample_rate, contexts), session),
    ensures
        session.path@ == target.path@,
        session.sample_rate == sample_rate,
        session.decoder_cursor_tick is None,
        !session.eof,
        session.contexts == contexts,
{
}

/// A seek forgets where the decoder stood and that its source had ended; the end of a source is noted without
/// moving it.
pub proof fn law_seeks_and_ends_are_noted<T>(
    seeking: &mut AudioSession<T>,
    ending: &mut AudioSession<T>,
)
    requires
        call_ensures(AudioSession::<T>::seeked, (seeking,), ()),
        call_ensures(AudioSession::<T>::ended, (ending,), ()),
    ensures
        final(seeking).decoder_cursor_tick is None,
        !final(seeking).eof,
        final(seeking).path == old(seeking).path,
        final(ending).eof,
        final(ending).decoder_cursor_tick == old(ending).decoder_cursor_tick,
        final(ending).path == old(ending).path,
{
}

} // verus!
