//! One traversal of a sticky session towards a monitor target.
//!
//! The demuxer and the decoder are driven from outside. This is what is decided between their
//! calls: where to seek, which target counts, which frames are packed and shown, and when the
//! traversal is over.
use crate::arith::{max_i64, nearest_i64, saturating_sub_ticks};
use crate::decode::request::{
    command_model, latest_same_generation, newer_of, same_decode_generation, same_generation,
    CommandModel, DecodeRequest, MonitorCommand, RequestModel,
};
use crate::decode::scrub::{
    moves_toward_target, progress_due, scrub_progress_due, scrub_progress_moves_toward_target,
    SCRUB_PROGRESS_INTERVAL,
};
use vstd::prelude::*;

verus! {

/// How far ahead of the last decoded frame a target may lie to be reached without a seek.
pub const FORWARD_REUSE_TICKS: i64 = 5_000_000;

/// Where a sticky session stands in its source.
#[derive(Clone, Copy, Debug, PartialEq, Eq, Structural)]
pub struct SessionClock {
    /// The last frame that the session decoded, where decoding can go on from it.
    pub last_source_tick: Option<i64>,
    /// The last frame that the monitor was shown.
    pub last_visible_tick: Option<i64>,
}

impl SessionClock {
    /// The clock of a session that has decoded nothing.
    pub fn new() -> (clock: Self)
        ensures
            clock == (SessionClock { last_source_tick: None, last_visible_tick: None }),
    {
        SessionClock { last_source_tick: None, last_visible_tick: None }
    }

    /// Notes that the demuxer was moved and the decoder flushed.
    pub fn seeked(&mut self)
        ensures
            *final(self) == (SessionClock { last_source_tick: None, ..*old(self) }),
    {
        self.last_source_tick = None;
    }
}

/// What a packed frame says of itself.
#[derive(Clone, Copy, Debug, PartialEq, Eq, Structural)]
pub struct FrameStamp {
    pub request_id: u64,
    pub target_tick: i64,
    pub source_tick: i64,
}

/// What becomes of a demuxed packet.
#[derive(Clone, Copy, Debug, PartialEq, Eq, Structural)]
pub enum PacketStep {
    /// The traversal is over without a result.
    Abandon,
    /// The packet belongs to another stream.
    Skip,
    /// The packet goes to the decoder.
    Send,
}

/// What becomes of a decoded frame.
#[derive(Clone, Copy, Debug, PartialEq, Eq, Structural)]
pub enum FrameStep {
    /// The traversal is over without a result.
    Abandon,
    /// The frame is preroll that nobody wants.
    Drop,
    /// The frame is packed and offered to the cache; it is shown as well where `publish` is set.
    Traverse { stamp: FrameStamp, publish: bool, now: u64 },
    /// The frame is packed and answers the request.
    Finish { stamp: FrameStamp },
}

/// Whether what waits in the command slot ends the work on `request`: anything but a request
/// of the same decode generation.
pub open spec fn invalidates(waiting: Option<CommandModel>, request: RequestModel) -> bool {
    match waiting {
        Some(CommandModel::Request(newer)) => !same_generation(request, newer),
        Some(_) => true,
        None => false,
    }
}

pub fn command_invalidates(commands: &Option<MonitorCommand>, request: &DecodeRequest) -> (ended:
    bool)
    ensures
        ended == invalidates(command_model(*commands), request@),
{
    match commands {
        Some(MonitorCommand::Request(newer)) => !same_decode_generation(request, newer),
        Some(_) => true,
        None => false,
    }
}

/// The target of a request: time before the start of the source counts as its start.
pub open spec fn target_of(request: RequestModel) -> i64 {
    if request.source_tick < 0 {
        0
    } else {
        request.source_tick
    }
}

/// Whether decoding can go on from `last` to reach `target`: it lies ahead, and not too far.
pub open spec fn can_continue(last: Option<i64>, target: int) -> bool {
    match last {
        Some(last) => last < target && nearest_i64(target - last) <= FORWARD_REUSE_TICKS,
        None => false,
    }
}

/// The state of one traversal.
#[derive(Clone, Copy, Debug, PartialEq, Eq, Structural)]
pub struct Traversal {
    /// The tick that a frame has to reach.
    pub target: i64,
    /// The newest target that was asked for, which progressive frames go by.
    pub progress_target: i64,
    /// The request that the result will answer.
    pub completed_request_id: u64,
    /// Whether the traversal goes back over decoded ground, whose frames are worth keeping.
    pub dense_reverse_cache: bool,
    pub last_tick: Option<i64>,
    /// When a progressive frame was last published, in nanoseconds.
    pub last_progress_published: Option<u64>,
}

impl Traversal {
    /// The state at the start: a request that was queued before the seek takes over.
    pub open spec fn started(
        clock: SessionClock,
        request: RequestModel,
        newer: Option<RequestModel>,
    ) -> Traversal {
        let first = match newer {
            Some(newer) => newer,
            None => request,
        };
        let target = target_of(first);
        Traversal {
            target,
            progress_target: target,
            completed_request_id: first.request_id,
            dense_reverse_cache: clock.last_source_tick matches Some(last) && target < last,
            last_tick: if can_continue(clock.last_source_tick, target as int) {
                clock.last_source_tick
            } else {
                None
            },
            last_progress_published: None,
        }
    }

    /// The state once `newer` was noticed by one who can still reach every target from
    /// `reached` on.
    pub open spec fn retargeted(self, newer: Option<RequestModel>, reached: int) -> Traversal {
        match newer {
            Some(newer) => if target_of(newer) >= reached {
                Traversal {
                    target: target_of(newer),
                    progress_target: target_of(newer),
                    completed_request_id: newer.request_id,
                    ..self
                }
            } else {
                Traversal { progress_target: target_of(newer), ..self }
            },
            None => self,
        }
    }

    /// What a frame packed now says of itself.
    pub open spec fn stamp(self, source_tick: i64) -> FrameStamp {
        FrameStamp {
            request_id: self.completed_request_id,
            target_tick: self.target,
            source_tick,
        }
    }

    /// Whether preroll at `source_tick` is shown.
    pub open spec fn shows_progress(
        self,
        clock: SessionClock,
        request: RequestModel,
        source_tick: int,
        now: int,
    ) -> bool {
        &&& request.progressive_scrub_frames
        &&& moves_toward_target(clock.last_visible_tick, self.progress_target as int, source_tick)
        &&& progress_due(self.last_progress_published, now, SCRUB_PROGRESS_INTERVAL as int)
    }

    /// What becomes of a frame at `source_tick`.
    pub open spec fn frame_step(
        self,
        clock: SessionClock,
        request: RequestModel,
        source_tick: i64,
        now: u64,
    ) -> FrameStep {
        let publish = self.shows_progress(clock, request, source_tick as int, now as int);
        if source_tick >= self.target {
            FrameStep::Finish { stamp: self.stamp(source_tick) }
        } else if publish || (request.is_scrubbing && self.dense_reverse_cache) {
            FrameStep::Traverse { stamp: self.stamp(source_tick), publish, now }
        } else {
            FrameStep::Drop
        }
    }

    /// Begins a traversal. The second result says whether the demuxer has to seek to the
    /// target first; once it did, and the decoder was flushed, [`SessionClock::seeked`] notes
    /// it.
    ///
    /// A request that was already queued is coalesced before the seek begins. Once packets are
    /// traversed, reverse arrivals are left for the scheduler's next seek, so a continuous
    /// reverse drag still receives progressive frames instead of starvation.
    pub fn begin(
        clock: &SessionClock,
        request: &DecodeRequest,
        waiting: &Option<MonitorCommand>,
    ) -> (started: (Traversal, bool))
        ensures
            started.0 == Traversal::started(
                *clock,
                request@,
                newer_of(command_model(*waiting), request@),
            ),
            started.1 == !can_continue(clock.last_source_tick, started.0.target as int),
    {
        let mut target: i64 = max_i64(request.source_tick, 0);
        let mut completed_request_id: u64 = request.request_id;
        if let Some(newer) = latest_same_generation(waiting, request) {
            target = max_i64(newer.source_tick, 0);
            completed_request_id = newer.request_id;
        }
        let (dense_reverse_cache, goes_on) = match clock.last_source_tick {
            Some(last) => (
                target < last,
                target > last && saturating_sub_ticks(target, last) <= FORWARD_REUSE_TICKS,
            ),
            None => (false, false),
        };
        let traversal = Traversal {
            target,
            progress_target: target,
            completed_request_id,
            dense_reverse_cache,
            last_tick: if goes_on {
                clock.last_source_tick
            } else {
                None
            },
            last_progress_published: None,
        };
        (traversal, !goes_on)
    }

    /// Notices a newer request that can still be reached from `reached` on.
    fn retarget(&mut self, request: &DecodeRequest, waiting: &Option<MonitorCommand>, reached: i64)
        ensures
            *final(self) == old(self).retargeted(
                newer_of(command_model(*waiting), request@),
                reached as int,
            ),
    {
        if let Some(newer) = latest_same_generation(waiting, request) {
            let newer_target: i64 = max_i64(newer.source_tick, 0);
            self.progress_target = newer_target;
            if newer_target >= reached {
                self.target = newer_target;
                self.completed_request_id = newer.request_id;
            }
        }
    }

    /// Decides over one demuxed packet.
    ///
    /// Scrub input can move several times before a long GOP yields a frame. The traversal is
    /// retargeted between packets when the open preroll can reach the newer point. A reverse
    /// target needs a new backward seek; abandoning every preroll in flight for it would starve
    /// the monitor during continuous reverse motion. One accurate progressive frame is finished
    /// instead, and the scheduler seeks to its retained newest request.
    pub fn packet(
        &mut self,
        clock: &mut SessionClock,
        request: &DecodeRequest,
        waiting: &Option<MonitorCommand>,
        is_video_packet: bool,
    ) -> (step: PacketStep)
        ensures
            step == (if invalidates(command_model(*waiting), request@) {
                PacketStep::Abandon
            } else if is_video_packet {
                PacketStep::Send
            } else {
                PacketStep::Skip
            }),
            *final(clock) == (if step is Abandon {
                SessionClock { last_source_tick: None, ..*old(clock) }
            } else {
                *old(clock)
            }),
            *final(self) == (if step is Abandon {
                *old(self)
            } else {
                old(self).retargeted(
                    newer_of(command_model(*waiting), request@),
                    old(self).target as int,
                )
            }),
    {
        if command_invalidates(waiting, request) {
            clock.last_source_tick = None;
            return PacketStep::Abandon;
        }
        let reached: i64 = self.target;
        self.retarget(request, waiting, reached);
        if is_video_packet {
            PacketStep::Send
        } else {
            PacketStep::Skip
        }
    }

    /// Decides over one decoded frame. A frame without a timestamp counts as the target.
    ///
    /// The open preroll can satisfy either a later target or an earlier target that is still
    /// ahead of the frame just decoded. This lets a reverse drag coalesce within the current
    /// GOP instead of finishing obsolete work or restarting on every pointer event.
    pub fn frame(
        &mut self,
        clock: &mut SessionClock,
        request: &DecodeRequest,
        waiting: &Option<MonitorCommand>,
        timestamp: Option<i64>,
        now: u64,
    ) -> (step: FrameStep)
        ensures
            ({
                let source_tick = match timestamp {
                    Some(tick) => tick,
                    None => old(self).target,
                };
                let next = old(self).retargeted(
                    newer_of(command_model(*waiting), request@),
                    source_tick as int,
                );
                if invalidates(command_model(*waiting), request@) {
                    &&& step == FrameStep::Abandon
                    &&& *final(self) == *old(self)
                    &&& *final(clock) == (SessionClock { last_source_tick: None, ..*old(clock) })
                } else {
                    &&& step == next.frame_step(*old(clock), request@, source_tick, now)
                    &&& *final(self) == next
                    &&& *final(clock) == *old(clock)
                }
            }),
    {
        if command_invalidates(waiting, request) {
            clock.last_source_tick = None;
            return FrameStep::Abandon;
        }
        let source_tick: i64 = match timestamp {
            Some(tick) => tick,
            None => self.target,
        };
        self.retarget(request, waiting, source_tick);
        let stamp = FrameStamp {
            request_id: self.completed_request_id,
            target_tick: self.target,
            source_tick,
        };
        if source_tick >= self.target {
            return FrameStep::Finish { stamp };
        }
        let publish = request.progressive_scrub_frames && scrub_progress_moves_toward_target(
            clock.last_visible_tick,
            self.progress_target,
            source_tick,
        ) && scrub_progress_due(self.last_progress_published, now, SCRUB_PROGRESS_INTERVAL);
        if publish || (request.is_scrubbing && self.dense_reverse_cache) {
            FrameStep::Traverse { stamp, publish, now }
        } else {
            FrameStep::Drop
        }
    }

    /// The clock once the frame of `step` was packed.
    pub open spec fn clock_after(step: FrameStep, clock: SessionClock) -> SessionClock {
        match step {
            FrameStep::Traverse { stamp, publish: true, now } => SessionClock {
                last_visible_tick: Some(stamp.source_tick),
                ..clock
            },
            FrameStep::Finish { stamp } => SessionClock {
                last_visible_tick: Some(stamp.source_tick),
                last_source_tick: Some(stamp.source_tick),
            },
            _ => clock,
        }
    }

    /// The traversal once the frame of `step` was packed.
    pub open spec fn after(self, step: FrameStep) -> Traversal {
        match step {
            FrameStep::Traverse { stamp, publish: true, now } => Traversal {
                last_tick: Some(stamp.source_tick),
                last_progress_published: Some(now),
                ..self
            },
            FrameStep::Finish { stamp } => Traversal {
                last_tick: Some(stamp.source_tick),
                ..self
            },
            _ => self,
        }
    }

    /// Notes that the frame of `step` was packed. A frame that could not be packed ends the
    /// traversal and leaves no trace.
    pub fn packed(&mut self, clock: &mut SessionClock, step: FrameStep)
        ensures
            *final(self) == old(self).after(step),
            *final(clock) == Traversal::clock_after(step, *old(clock)),
    {
        match step {
            FrameStep::Traverse { stamp, publish, now } => {
                if publish {
                    self.last_tick = Some(stamp.source_tick);
                    self.last_progress_published = Some(now);
                    clock.last_visible_tick = Some(stamp.source_tick);
                }
            },
            FrameStep::Finish { stamp } => {
                self.last_tick = Some(stamp.source_tick);
                clock.last_visible_tick = Some(stamp.source_tick);
                clock.last_source_tick = Some(stamp.source_tick);
            },
            _ => {},
        }
    }

    /// Ends a traversal whose source ran out of frames.
    pub fn ended(&self, clock: &mut SessionClock) -> (message: &'static str)
        ensures
            message@ == "monitor decoder reached end of video before target"@,
            *final(clock) == (SessionClock { last_source_tick: self.last_tick, ..*old(clock) }),
    {
        clock.last_source_tick = self.last_tick;
        "monitor decoder reached end of video before target"
    }
}

/// Whether a traversal's target and the request it answers belong together.
pub open spec fn answers(traversal: Traversal, request: RequestModel) -> bool {
    traversal.target == target_of(request) && traversal.completed_request_id == request.request_id
}

/// The result of a traversal answers the request whose target it reached: target and identity
/// always come from one and the same request.
pub proof fn law_target_and_identity_stay_together(
    clock: SessionClock,
    request: RequestModel,
    traversal: Traversal,
    current: RequestModel,
    newer: Option<RequestModel>,
    reached: int,
)
    requires
        answers(traversal, current),
    ensures
        answers(
            Traversal::started(clock, request, newer),
            match newer {
                Some(newer) => newer,
                None => request,
            },
        ),
        answers(traversal.retargeted(newer, reached), current) || (newer is Some && answers(
            traversal.retargeted(newer, reached),
            newer->0,
        )),
{
}

/// Between packets a target only moves forward, so preroll in flight is never wasted.
pub proof fn law_packets_never_move_the_target_back(
    traversal: Traversal,
    newer: Option<RequestModel>,
)
    ensures
        traversal.retargeted(newer, traversal.target as int).target >= traversal.target,
{
}

/// A traversal finishes with the first frame at or after its target and with no other, and the
/// frame that it finishes with has reached the target that it is stamped with.
pub proof fn law_finish_reaches_the_target(
    traversal: Traversal,
    clock: SessionClock,
    request: RequestModel,
    source_tick: i64,
    now: u64,
)
    ensures
        traversal.frame_step(clock, request, source_tick, now) is Finish <==> source_tick
            >= traversal.target,
        traversal.frame_step(clock, request, source_tick, now) matches FrameStep::Finish {
            stamp,
        } ==> stamp.source_tick >= stamp.target_tick && stamp.source_tick == source_tick,
        traversal.frame_step(clock, request, source_tick, now) matches FrameStep::Traverse {
            stamp,
            publish,
            now: _,
        } ==> stamp.source_tick < stamp.target_tick,
{
}

/// Two progressive frames of one traversal are at least the publication interval apart.
pub proof fn law_progress_is_paced(
    traversal: Traversal,
    clock: SessionClock,
    request: RequestModel,
    published_at: u64,
    source_tick: i64,
    now: u64,
)
    requires
        traversal.last_progress_published == Some(published_at),
        traversal.frame_step(clock, request, source_tick, now) matches FrameStep::Traverse {
            stamp: _,
            publish: true,
            now: _,
        },
    ensures
        now >= published_at + SCRUB_PROGRESS_INTERVAL,
        request.progressive_scrub_frames,
{
}

/// What is decoded next is never asked to go back: a traversal that goes on without a seek
/// starts behind its target.
pub proof fn law_continued_traversal_lies_behind_its_target(
    clock: SessionClock,
    request: RequestModel,
    newer: Option<RequestModel>,
)
    ensures
        ({
            let started = Traversal::started(clock, request, newer);
            can_continue(clock.last_source_tick, started.target as int) ==> {
                &&& clock.last_source_tick matches Some(last) && last < started.target
                    <= last + FORWARD_REUSE_TICKS
                &&& !started.dense_reverse_cache
                &&& started.last_tick == clock.last_source_tick
            }
        }),
{
}

/// Work in flight ends with anything that waits but a request that the same traversal can serve:
/// another project, medium, file, size or acceleration ends it, and another target does not.
pub proof fn law_other_work_ends_a_traversal(
    request: RequestModel,
    newer: RequestModel,
    request_id: u64,
    cache_epoch: u64,
    source_tick: i64,
)
    ensures
        !invalidates(None, request),
        invalidates(Some(CommandModel::Cancel), request),
        invalidates(Some(CommandModel::Release), request),
        invalidates(Some(CommandModel::Shutdown), request),
        newer.project_epoch != request.project_epoch || newer.media_id != request.media_id
            || newer.path != request.path || newer.width != request.width || newer.height
            != request.height || newer.acceleration != request.acceleration
            || newer.high_quality_scaling != request.high_quality_scaling || newer.is_scrubbing
            != request.is_scrubbing || newer.progressive_scrub_frames
            != request.progressive_scrub_frames || newer.source_frame_duration_tick
            != request.source_frame_duration_tick || newer.prewarm_scrub_workers
            != request.prewarm_scrub_workers ==> invalidates(
            Some(CommandModel::Request(newer)),
            request,
        ),
        !invalidates(
            Some(
                CommandModel::Request(
                    RequestModel { request_id, cache_epoch, source_tick, ..request },
                ),
            ),
            request,
        ),
{
    crate::decode::request::law_generation_fixes_what_is_decoded(request, newer);
    crate::decode::request::law_generation_ignores_identity_and_target(
        request,
        request_id,
        cache_epoch,
        source_tick,
    );
}

/// A target lies at its request's time, or at the start of the source where that is later.
pub proof fn law_target_is_the_requested_time(request: RequestModel)
    ensures
        request.source_tick >= 0 ==> target_of(request) == request.source_tick,
        request.source_tick <= 0 ==> target_of(request) == 0,
{
}

/// Decoding goes on without a seek exactly towards a target that lies ahead, by five seconds at
/// most.
pub proof fn law_nearby_forward_targets_need_no_seek(last: i64, target: i64)
    ensures
        can_continue(Some(last), target as int) <==> 0 < target - last <= 5_000_000,
        !can_continue(None, target as int),
{
}

/// A traversal starts for the newest request, from where decoding can go on.
pub proof fn law_traversal_starts_for_the_newest(
    clock: SessionClock,
    request: RequestModel,
    newer: RequestModel,
)
    ensures
        ({
            let started = Traversal::started(clock, request, Some(newer));
            &&& started.completed_request_id == newer.request_id
            &&& newer.source_tick >= 0 ==> started.target == newer.source_tick
            &&& newer.source_tick < 0 ==> started.target == 0
            &&& started.progress_target == started.target
        }),
        ({
            let started = Traversal::started(clock, request, None);
            &&& started.completed_request_id == request.request_id
            &&& request.source_tick >= 0 ==> started.target == request.source_tick
            &&& request.source_tick < 0 ==> started.target == 0
            &&& started.progress_target == started.target
            &&& started.last_progress_published is None
            &&& started.dense_reverse_cache <==> (clock.last_source_tick matches Some(last) && last
                > started.target)
            &&& started.last_tick is Some ==> started.last_tick == clock.last_source_tick
            &&& started.last_tick is Some <==> (clock.last_source_tick matches Some(last) && 0
                < started.target - last <= 5_000_000)
        }),
{
}

/// A newer request always becomes what progress goes by. It becomes the target, and the one that
/// the result answers, exactly where it can still be reached; otherwise both stay. Nothing else
/// changes, and without a newer request nothing does.
pub proof fn law_retargeting_follows_what_can_be_reached(
    traversal: Traversal,
    newer: RequestModel,
    reached: int,
)
    ensures
        traversal.retargeted(None, reached) == traversal,
        ({
            let next = traversal.retargeted(Some(newer), reached);
            let asked = if newer.source_tick < 0 {
                0
            } else {
                newer.source_tick
            };
            &&& next.progress_target == asked
            &&& asked >= reached ==> next.target == asked && next.completed_request_id
                == newer.request_id
            &&& asked < reached ==> next.target == traversal.target && next.completed_request_id
                == traversal.completed_request_id
            &&& next.dense_reverse_cache == traversal.dense_reverse_cache
            &&& next.last_tick == traversal.last_tick
            &&& next.last_progress_published == traversal.last_progress_published
        }),
{
}

/// What becomes of a frame before the target: it is shown where the request wants progress, it
/// moves the monitor towards the newest target and enough time has passed; it is kept where it is
/// shown, or where a scrub goes back over decoded ground; otherwise it is dropped. Its stamp names
/// the request that the traversal answers, its target and the frame's own time.
pub proof fn law_preroll_is_shown_kept_or_dropped(
    traversal: Traversal,
    clock: SessionClock,
    request: RequestModel,
    source_tick: i64,
    now: u64,
)
    ensures
        ({
            let step = traversal.frame_step(clock, request, source_tick, now);
            let moves = match clock.last_visible_tick {
                Some(visible) => if traversal.progress_target >= visible {
                    source_tick >= visible
                } else {
                    traversal.progress_target <= source_tick && source_tick <= visible
                },
                None => source_tick >= traversal.progress_target,
            };
            let due = match traversal.last_progress_published {
                Some(last) => now - last >= 8_000_000,
                None => true,
            };
            let shown = request.progressive_scrub_frames && moves && due;
            let kept = shown || (request.is_scrubbing && traversal.dense_reverse_cache);
            &&& source_tick < traversal.target ==> {
                &&& step is Drop <==> !kept
                &&& step is Traverse <==> kept
                &&& step matches FrameStep::Traverse { stamp, publish, now: at } ==> publish == shown
                    && at == now && stamp.request_id == traversal.completed_request_id
                    && stamp.target_tick == traversal.target && stamp.source_tick == source_tick
            }
            &&& source_tick >= traversal.target ==> (step matches FrameStep::Finish { stamp }
                && stamp.request_id == traversal.completed_request_id && stamp.target_tick
                == traversal.target && stamp.source_tick == source_tick)
        }),
{
}

/// What was shown is what the monitor is at: a shown frame moves the visible time and starts the
/// wait for the next one, a finished one moves the decoder's time as well, and a frame that is only
/// kept, or dropped, leaves both clocks alone.
pub proof fn law_clocks_follow_what_was_shown(
    traversal: Traversal,
    clock: SessionClock,
    stamp: FrameStamp,
    now: u64,
)
    ensures
        ({
            let shown = FrameStep::Traverse { stamp, publish: true, now };
            let kept = FrameStep::Traverse { stamp, publish: false, now };
            let finished = FrameStep::Finish { stamp };
            &&& Traversal::clock_after(shown, clock).last_visible_tick == Some(stamp.source_tick)
            &&& Traversal::clock_after(shown, clock).last_source_tick == clock.last_source_tick
            &&& traversal.after(shown).last_progress_published == Some(now)
            &&& traversal.after(shown).last_tick == Some(stamp.source_tick)
            &&& traversal.after(shown).target == traversal.target
            &&& traversal.after(shown).progress_target == traversal.progress_target
            &&& traversal.after(shown).completed_request_id == traversal.completed_request_id
            &&& traversal.after(shown).dense_reverse_cache == traversal.dense_reverse_cache
            &&& Traversal::clock_after(kept, clock) == clock
            &&& traversal.after(kept) == traversal
            &&& Traversal::clock_after(FrameStep::Drop, clock) == clock
            &&& traversal.after(FrameStep::Drop) == traversal
            &&& Traversal::clock_after(finished, clock).last_visible_tick == Some(
                stamp.source_tick,
            )
            &&& Traversal::clock_after(finished, clock).last_source_tick == Some(stamp.source_tick)
            &&& traversal.after(finished).last_tick == Some(stamp.source_tick)
        }),
{
}

/// A traversal begins with a seek unless its target lies ahead of what was decoded last, by five seconds
/// at most; it aims at the newest request that it can serve.
pub proof fn law_traversal_seeks_unless_it_can_go_on(
    clock: &SessionClock,
    request: &DecodeRequest,
    waiting: &Option<MonitorCommand>,
    started: (Traversal, bool),
)
    requires
        call_ensures(Traversal::begin, (clock, request, waiting), started),
    ensures
        started.1 <==> !(clock.last_source_tick matches Some(last) && 0 < started.0.target - last
            <= 5_000_000),
        waiting is None ==> started.0.completed_request_id == request.request_id && (
        request.source_tick >= 0 ==> started.0.target == request.source_tick) && (
        request.source_tick < 0 ==> started.0.target == 0),
        started.0.progress_target == started.0.target,
        started.0.last_progress_published is None,
        waiting matches Some(MonitorCommand::Request(newer)) && started.0.completed_request_id
            != request.request_id ==> started.0.completed_request_id == waiting->0->Request_0.request_id
            && waiting->0->Request_0.project_epoch == request.project_epoch
            && waiting->0->Request_0.media_id == request.media_id,
{
    if let Some(MonitorCommand::Request(newer)) = waiting {
        crate::decode::request::law_generation_fixes_what_is_decoded(request@, newer@);
    }
}

/// A packet ends a traversal exactly where other work waits, and the session then has to seek anew; else
/// it goes to the decoder exactly where it is the video's, and a newer target is taken over exactly
/// where it lies no further back.
pub proof fn law_packets_end_or_carry_on(
    traversal: &mut Traversal,
    clock: &mut SessionClock,
    request: &DecodeRequest,
    waiting: &Option<MonitorCommand>,
    is_video_packet: bool,
    step: PacketStep,
)
    requires
        call_ensures(
            Traversal::packet,
            (traversal, clock, request, waiting, is_video_packet),
            step,
        ),
    ensures
        waiting is None ==> *final(traversal) == *old(traversal) && *final(clock) == *old(clock) && (
        step is Send <==> is_video_packet) && (step is Skip <==> !is_video_packet),
        waiting matches Some(MonitorCommand::Cancel) ==> step is Abandon,
        waiting matches Some(MonitorCommand::Release) ==> step is Abandon,
        waiting matches Some(MonitorCommand::Shutdown) ==> step is Abandon,
        waiting matches Some(MonitorCommand::Request(newer)) ==> {
            &&& newer.project_epoch != request.project_epoch || newer.media_id != request.media_id
                || newer.path@ != request.path@ || newer.width != request.width || newer.height
                != request.height || newer.acceleration != request.acceleration ==> step is Abandon
            &&& !(step is Abandon) ==> {
                let asked = if newer.source_tick < 0 {
                    0
                } else {
                    newer.source_tick
                };
                &&& final(traversal).progress_target == asked
                &&& asked >= old(traversal).target ==> final(traversal).target == asked && final(traversal).completed_request_id == newer.request_id
                &&& asked < old(traversal).target ==> final(traversal).target == old(traversal).target && final(traversal).completed_request_id == old(traversal).completed_request_id
            }
        },
        step is Abandon ==> final(clock).last_source_tick is None && final(clock).last_visible_tick == old(clock).last_visible_tick,
        !(step is Abandon) ==> *final(clock) == *old(clock),
{
    if let Some(MonitorCommand::Request(newer)) = waiting {
        crate::decode::request::law_generation_fixes_what_is_decoded(request@, newer@);
    }
}

/// A decoded frame finishes a traversal exactly where it reaches the target, which a newer request moves
/// exactly where the frame does not lie past it; a frame without a time counts as the target.
pub proof fn law_frames_finish_at_the_target(
    traversal: &mut Traversal,
    clock: &mut SessionClock,
    request: &DecodeRequest,
    waiting: &Option<MonitorCommand>,
    timestamp: Option<i64>,
    now: u64,
    step: FrameStep,
)
    requires
        call_ensures(
            Traversal::frame,
            (traversal, clock, request, waiting, timestamp, now),
            step,
        ),
    ensures
        ({
            let tick = match timestamp {
                Some(tick) => tick,
                None => old(traversal).target,
            };
            &&& waiting is None ==> {
                &&& *final(traversal) == *old(traversal)
                &&& *final(clock) == *old(clock)
                &&& step is Finish <==> tick >= old(traversal).target
                &&& step matches FrameStep::Finish { stamp } ==> stamp.request_id == old(traversal).completed_request_id && stamp.target_tick == old(traversal).target
                    && stamp.source_tick == tick
            }
            &&& waiting matches Some(MonitorCommand::Request(newer)) ==> {
                let asked = if newer.source_tick < 0 {
                    0
                } else {
                    newer.source_tick
                };
                &&& newer.project_epoch != request.project_epoch || newer.media_id
                    != request.media_id || newer.path@ != request.path@ || newer.acceleration
                    != request.acceleration ==> step is Abandon
                &&& !(step is Abandon) && asked >= tick ==> final(traversal).target == asked
                    && final(traversal).completed_request_id == newer.request_id
                &&& !(step is Abandon) && asked < tick ==> final(traversal).target == old(traversal).target
                &&& !(step is Abandon) ==> (step is Finish <==> tick >= final(traversal).target)
                &&& step matches FrameStep::Finish { stamp } ==> stamp.request_id == final(traversal).completed_request_id && stamp.target_tick == final(traversal).target
                    && stamp.source_tick == tick
            }
            &&& (waiting matches Some(MonitorCommand::Cancel)) || (waiting matches Some(
                MonitorCommand::Release,
            )) || (waiting matches Some(MonitorCommand::Shutdown)) ==> step is Abandon
            &&& step is Abandon ==> final(clock).last_source_tick is None
        }),
{
    if let Some(MonitorCommand::Request(newer)) = waiting {
        crate::decode::request::law_generation_fixes_what_is_decoded(request@, newer@);
    }
}

/// Other work ends a traversal, and a newer target of the same work does not.
pub proof fn law_only_other_work_invalidates(
    waiting: &Option<MonitorCommand>,
    request: &DecodeRequest,
    ended: bool,
)
    requires
        call_ensures(command_invalidates, (waiting, request), ended),
    ensures
        waiting is None ==> !ended,
        waiting matches Some(MonitorCommand::Cancel) ==> ended,
        waiting matches Some(MonitorCommand::Release) ==> ended,
        waiting matches Some(MonitorCommand::Shutdown) ==> ended,
        waiting matches Some(MonitorCommand::Request(newer)) ==> (!ended <==> {
            &&& newer.project_epoch == request.project_epoch
            &&& newer.media_id == request.media_id
            &&& newer.path@ == request.path@
            &&& newer.width == request.width
            &&& newer.height == request.height
            &&& newer.is_scrubbing == request.is_scrubbing
            &&& newer.prewarm_scrub_workers == request.prewarm_scrub_workers
            &&& newer.high_quality_scaling == request.high_quality_scaling
            &&& newer.progressive_scrub_frames == request.progressive_scrub_frames
            &&& newer.source_frame_duration_tick == request.source_frame_duration_tick
            &&& newer.acceleration == request.acceleration
        }),
{
    if let Some(MonitorCommand::Request(newer)) = waiting {
        crate::decode::request::law_generation_fixes_what_is_decoded(request@, newer@);
    }
}

/// A source that ran out of frames leaves the session where it last showed one.
pub proof fn law_end_of_source_keeps_the_place(
    traversal: &Traversal,
    clock: &mut SessionClock,
    message: &'static str,
)
    requires
        call_ensures(Traversal::ended, (traversal, clock), message),
    ensures
        message@ == "monitor decoder reached end of video before target"@,
        final(clock).last_source_tick == traversal.last_tick,
        final(clock).last_visible_tick == old(clock).last_visible_tick,
{
}

} // verus!
