//! The latest-wins monitor decoder as its owner sees it.
//!
//! A bounded pool of lanes decodes independently. The primary lane preserves sequential
//! playback, while reverse scrubs can use the other lanes and their shared bounded frame cache.
//! Each lane and the event slot retain only their latest work.
use crate::decode::coordinator::{CoordinatorModel, MonitorSourceCoordinator};
use crate::decode::diagnostics::{
    count_set, DecoderResourceDiagnostics, MonitorDecoderDiagnostics,
    MonitorFrameCachePoolDiagnostics, MONITOR_WORKER_COUNT,
};
use crate::decode::endpoint::{sent, CoordinatorEndpoint, EndpointModel, SendStep};
use crate::decode::event_slot::EventSlot;
use crate::decode::request::{
    command_model, spec_event_request_id, CommandModel, DecodeEvent, DecodeRequest, DecoderClosed,
    MonitorCommand, RequestModel,
};
use vstd::prelude::*;

verus! {

/// A command on its way to a lane.
#[derive(Debug)]
pub struct LaneSend {
    pub index: usize,
    pub command: MonitorCommand,
    /// True only for paused prewarm work.
    pub speculative: bool,
}

/// The mathematical value of a [`LaneSend`].
pub struct SendModel {
    pub index: int,
    pub command: CommandModel,
    pub speculative: bool,
}

impl View for LaneSend {
    type V = SendModel;

    open spec fn view(&self) -> SendModel {
        SendModel {
            index: self.index as int,
            command: self.command@,
            speculative: self.speculative,
        }
    }
}

/// The models of a list of sends.
pub open spec fn send_models(sends: Seq<LaneSend>) -> Seq<SendModel> {
    Seq::new(sends.len(), |i: int| sends[i]@)
}

/// The same command for every lane.
pub open spec fn to_every_lane(command: CommandModel) -> Seq<SendModel> {
    Seq::new(
        MONITOR_WORKER_COUNT as nat,
        |i: int| SendModel { index: i, command, speculative: false },
    )
}

/// Whether a scrub goes back in the medium that was scrubbed last.
pub open spec fn goes_back(last_scrub_target: Option<(u32, i64)>, request: RequestModel) -> bool {
    last_scrub_target matches Some((media_id, source_tick)) && media_id == request.media_id
        && request.source_tick < source_tick
}

/// The lane that a request for one lane goes to: reverse random access fans out, everything
/// else stays on the sequential lane.
pub open spec fn lane_for(last_scrub_target: Option<(u32, i64)>, request: RequestModel) -> int {
    if request.is_scrubbing && goes_back(last_scrub_target, request) {
        request.request_id as int % MONITOR_WORKER_COUNT as int
    } else {
        0
    }
}

/// Where a request goes.
pub open spec fn routed(last_scrub_target: Option<(u32, i64)>, request: RequestModel) -> Seq<
    SendModel,
> {
    if !request.is_scrubbing && request.prewarm_scrub_workers {
        Seq::new(
            MONITOR_WORKER_COUNT as nat,
            |i: int|
                SendModel {
                    index: i,
                    command: CommandModel::Request(
                        RequestModel { prewarm_scrub_workers: false, ..request },
                    ),
                    speculative: i != 0,
                },
        )
    } else {
        seq![
            SendModel {
                index: lane_for(last_scrub_target, request),
                command: CommandModel::Request(request),
                speculative: false,
            },
        ]
    }
}

/// The retries that the lanes ask for, among the first `count` of them.
pub open spec fn retries(endpoints: Seq<EndpointModel>, count: int) -> Seq<SendModel>
    decreases count,
{
    if count <= 0 {
        Seq::empty()
    } else {
        match endpoints[count - 1].deferred {
            Some((request, speculative)) => retries(endpoints, count - 1).push(
                SendModel {
                    index: count - 1,
                    command: CommandModel::Request(request),
                    speculative,
                },
            ),
            None => retries(endpoints, count - 1),
        }
    }
}

/// Whether the lane at `i` ends its lease when leases are reclaimed: every lane when all of
/// them are, and only a background lane with speculative work when that alone is.
pub open spec fn reclaims(endpoints: Seq<EndpointModel>, i: int, speculative_only: bool) -> bool {
    endpoints[i].active matches Some(lease) && (!speculative_only || (i > 0 && lease.speculative))
}

/// The coordinator once the first `count` lanes were reclaimed.
pub open spec fn reclaimed(
    coordinator: CoordinatorModel,
    endpoints: Seq<EndpointModel>,
    count: int,
    speculative_only: bool,
) -> CoordinatorModel
    decreases count,
{
    if count <= 0 {
        coordinator
    } else {
        let before = reclaimed(coordinator, endpoints, count - 1, speculative_only);
        if reclaims(endpoints, count - 1, speculative_only) {
            endpoints[count - 1].given_back(before)
        } else {
            before
        }
    }
}

/// The actors that retire while the first `count` lanes are reclaimed.
pub open spec fn retired_by_reclaim(
    coordinator: CoordinatorModel,
    endpoints: Seq<EndpointModel>,
    count: int,
    speculative_only: bool,
) -> Seq<u64>
    decreases count,
{
    if count <= 0 {
        Seq::empty()
    } else {
        let earlier = retired_by_reclaim(coordinator, endpoints, count - 1, speculative_only);
        let before = reclaimed(coordinator, endpoints, count - 1, speculative_only);
        if reclaims(endpoints, count - 1, speculative_only) && endpoints[count - 1].retires(
            before,
        ) is Some {
            earlier.push(endpoints[count - 1].retires(before)->0)
        } else {
            earlier
        }
    }
}

/// The outcome of a request from those of its lanes: a closed lane outweighs a deferred one.
pub open spec fn combined_outcome(results: Seq<Result<(), DecoderClosed>>) -> Result<
    (),
    DecoderClosed,
> {
    if results.contains(Err(DecoderClosed::Closed)) {
        Err(DecoderClosed::Closed)
    } else if results.contains(Err(DecoderClosed::SourceCapacityDeferred)) {
        Err(DecoderClosed::SourceCapacityDeferred)
    } else {
        Ok(())
    }
}

pub fn request_outcome(results: &Vec<Result<(), DecoderClosed>>) -> (outcome: Result<
    (),
    DecoderClosed,
>)
    ensures
        outcome == combined_outcome(results@),
{
    let mut outcome: Result<(), DecoderClosed> = Ok(());
    let mut i: usize = 0;
    assert(results@.take(0) =~= Seq::empty());
    while i < results.len()
        invariant
            i <= results@.len(),
            outcome == combined_outcome(results@.take(i as int)),
        decreases results@.len() - i,
    {
        proof {
            lemma_contains_push(results@, i as int, Err(DecoderClosed::Closed));
            lemma_contains_push(results@, i as int, Err(DecoderClosed::SourceCapacityDeferred));
        }
        match results[i] {
            Err(DecoderClosed::Closed) => {
                outcome = Err(DecoderClosed::Closed);
            },
            Err(DecoderClosed::SourceCapacityDeferred) => {
                let closed = match outcome {
                    Err(DecoderClosed::Closed) => true,
                    _ => false,
                };
                if !closed {
                    outcome = Err(DecoderClosed::SourceCapacityDeferred);
                }
            },
            Ok(()) => {},
        }
        i += 1;
    }
    assert(results@.take(i as int) =~= results@);
    outcome
}

/// Whether a lane refused.
pub open spec fn any_refused(results: Seq<Result<(), DecoderClosed>>) -> bool {
    exists|i: int| 0 <= i < results.len() && (#[trigger] results[i]) is Err
}

/// The outcome of a control command from those of its lanes: any refusal counts as closed.
pub fn control_outcome(results: &Vec<Result<(), DecoderClosed>>) -> (outcome: Result<
    (),
    DecoderClosed,
>)
    ensures
        outcome == (if any_refused(results@) {
            Err(DecoderClosed::Closed)
        } else {
            Ok(())
        }),
{
    let mut i: usize = 0;
    while i < results.len()
        invariant
            i <= results@.len(),
            forall|j: int| 0 <= j < i ==> (#[trigger] results@[j]) is Ok,
        decreases results@.len() - i,
    {
        if results[i].is_err() {
            assert(results@[i as int] is Err);
            return Err(DecoderClosed::Closed);
        }
        i += 1;
    }
    Ok(())
}

/// The last refusal.
pub open spec fn last_refusal(results: Seq<Result<(), DecoderClosed>>) -> Result<(), DecoderClosed>
    decreases results.len(),
{
    if results.len() == 0 {
        Ok(())
    } else if results.last() is Err {
        results.last()
    } else {
        last_refusal(results.drop_last())
    }
}

/// The outcome of a retry from those of its lanes: the last refusal stands.
pub fn retry_outcome(results: &Vec<Result<(), DecoderClosed>>) -> (outcome: Result<
    (),
    DecoderClosed,
>)
    ensures
        outcome == last_refusal(results@),
{
    let mut outcome: Result<(), DecoderClosed> = Ok(());
    let mut i: usize = 0;
    while i < results.len()
        invariant
            i <= results@.len(),
            outcome == last_refusal(results@.take(i as int)),
        decreases results@.len() - i,
    {
        assert(results@.take(i + 1).drop_last() =~= results@.take(i as int));
        match results[i] {
            Err(error) => {
                outcome = Err(error);
            },
            Ok(()) => {},
        }
        i += 1;
    }
    assert(results@.take(i as int) =~= results@);
    outcome
}

proof fn lemma_contains_push(
    results: Seq<Result<(), DecoderClosed>>,
    i: int,
    value: Result<(), DecoderClosed>,
)
    requires
        0 <= i < results.len(),
    ensures
        results.take(i + 1).contains(value) == (results.take(i).contains(value) || results[i]
            == value),
{
    let longer = results.take(i + 1);
    let shorter = results.take(i);
    if shorter.contains(value) {
        let j = choose|j: int| 0 <= j < shorter.len() && shorter[j] == value;
        assert(longer[j] == value);
    }
    if results[i] == value {
        assert(longer[i] == value);
    }
    if longer.contains(value) {
        let j = choose|j: int| 0 <= j < longer.len() && longer[j] == value;
        if j < i {
            assert(shorter[j] == value);
        }
    }
}

/// What became of the live sessions that were to be yielded.
#[derive(Debug)]
pub struct DeferredSessions {
    /// Whether a lease was yielded.
    pub yielded: bool,
    /// The actors that retire.
    pub retired: Vec<u64>,
    /// The commands for lanes that schedule themselves.
    pub sends: Vec<LaneSend>,
}

/// The decoder's own state.
#[derive(Debug)]
pub struct MonitorDecoder {
    commands: Vec<Option<MonitorCommand>>,
    endpoints: Vec<CoordinatorEndpoint>,
    coordinated: bool,
    last_scrub_target: Option<(u32, i64)>,
    cache_reset_generation: u64,
    events: EventSlot,
    resource_diagnostics: DecoderResourceDiagnostics,
}

impl MonitorDecoder {
    /// What waits for each lane that schedules itself.
    pub closed spec fn commands(&self) -> Seq<Option<CommandModel>> {
        Seq::new(self.commands@.len(), |i: int| command_model(self.commands@[i]))
    }

    /// The lanes that draw on a source coordinator.
    pub closed spec fn endpoints(&self) -> Seq<EndpointModel> {
        Seq::new(self.endpoints@.len(), |i: int| self.endpoints@[i]@)
    }

    /// Whether the lanes draw on a source coordinator.
    pub closed spec fn is_coordinated(&self) -> bool {
        self.coordinated
    }

    /// The medium and the tick that was scrubbed to last.
    pub closed spec fn last_scrub_target(&self) -> Option<(u32, i64)> {
        self.last_scrub_target
    }

    /// How often the cache was reset.
    pub closed spec fn cache_resets(&self) -> u64 {
        self.cache_reset_generation
    }

    /// The result that waits.
    pub closed spec fn waiting_event(&self) -> Option<DecodeEvent> {
        self.events.waiting()
    }

    /// The newest request that was ever answered.
    pub closed spec fn newest_answered(&self) -> u64 {
        self.events.newest()
    }

    /// Lane by lane, whether it holds a session.
    pub closed spec fn active_sessions(&self) -> Seq<bool> {
        self.resource_diagnostics.active()
    }

    /// The most sessions ever held at once.
    pub closed spec fn peak_sessions(&self) -> nat {
        self.resource_diagnostics.peak()
    }

    /// Every lane has its slot.
    pub closed spec fn wf(&self) -> bool {
        &&& self.commands@.len() == MONITOR_WORKER_COUNT
        &&& self.endpoints@.len() == MONITOR_WORKER_COUNT
        &&& self.events.wf()
        &&& self.resource_diagnostics.wf()
    }

    /// Everything but the scrub target is as it was in `other`.
    pub open spec fn same_but_scrub_target(&self, other: &Self) -> bool {
        &&& self.same_but_lanes(other)
        &&& self.commands() == other.commands()
        &&& self.endpoints() == other.endpoints()
        &&& self.active_sessions() == other.active_sessions()
        &&& self.peak_sessions() == other.peak_sessions()
    }

    /// Everything but the scrub target, the lanes and their sessions is as it was in `other`.
    pub open spec fn same_but_lanes(&self, other: &Self) -> bool {
        &&& self.is_coordinated() == other.is_coordinated()
        &&& self.cache_resets() == other.cache_resets()
        &&& self.waiting_event() == other.waiting_event()
        &&& self.newest_answered() == other.newest_answered()
    }

    /// Creates a decoder whose lanes schedule themselves.
    pub fn new() -> (decoder: Self)
        ensures
            decoder.wf(),
            !decoder.is_coordinated(),
            decoder.starts_empty(),
    {
        MonitorDecoder::with_lanes(false)
    }

    /// Creates a decoder that routes its lanes through a shared, bounded source coordinator.
    pub fn new_with_source_coordinator() -> (decoder: Self)
        ensures
            decoder.wf(),
            decoder.is_coordinated(),
            decoder.starts_empty(),
    {
        MonitorDecoder::with_lanes(true)
    }

    /// Nothing waits, nothing was answered and no lane holds a lease.
    pub open spec fn starts_empty(&self) -> bool {
        &&& self.commands() == Seq::new(
            MONITOR_WORKER_COUNT as nat,
            |i: int| None::<CommandModel>,
        )
        &&& self.endpoints() == Seq::new(
            MONITOR_WORKER_COUNT as nat,
            |i: int| EndpointModel { active: None, deferred: None },
        )
        &&& self.last_scrub_target() is None
        &&& self.cache_resets() == 0
        &&& self.waiting_event() is None
        &&& self.newest_answered() == 0
        &&& self.active_sessions() == seq![false, false, false, false]
        &&& self.peak_sessions() == 0
    }

    fn with_lanes(coordinated: bool) -> (decoder: Self)
        ensures
            decoder.wf(),
            decoder.is_coordinated() == coordinated,
            decoder.starts_empty(),
    {
        let mut commands: Vec<Option<MonitorCommand>> = Vec::new();
        let mut endpoints: Vec<CoordinatorEndpoint> = Vec::new();
        let mut i: usize = 0;
        while i < MONITOR_WORKER_COUNT
            invariant
                i <= MONITOR_WORKER_COUNT,
                commands@.len() == i,
                endpoints@.len() == i,
                forall|j: int| 0 <= j < i ==> (#[trigger] commands@[j]) is None,
                forall|j: int|
                    0 <= j < i ==> (#[trigger] endpoints@[j])@ == (EndpointModel {
                        active: None,
                        deferred: None,
                    }),
            decreases MONITOR_WORKER_COUNT - i,
        {
            commands.push(None);
            endpoints.push(CoordinatorEndpoint::new());
            i += 1;
        }
        let decoder = MonitorDecoder {
            commands,
            endpoints,
            coordinated,
            last_scrub_target: None,
            cache_reset_generation: 0,
            events: EventSlot::new(),
            resource_diagnostics: DecoderResourceDiagnostics::new(),
        };
        assert(decoder.commands() =~= Seq::new(
            MONITOR_WORKER_COUNT as nat,
            |i: int| None::<CommandModel>,
        ));
        assert(decoder.endpoints() =~= Seq::new(
            MONITOR_WORKER_COUNT as nat,
            |i: int| EndpointModel { active: None, deferred: None },
        ));
        decoder
    }

    /// Decides which lanes a target goes to. Older queued targets of those lanes are discarded.
    ///
    /// Ordinary playback stays on lane zero so its sticky session can decode sequentially.
    /// Forward scrubbing shares that fast sequential lane. Reverse random access fans out across
    /// a bounded lane pool so one slow GOP seek cannot block every newer pointer target.
    /// [`request_outcome`] is the outcome.
    pub fn request(&mut self, request: DecodeRequest) -> (sends: Vec<LaneSend>)
        requires
            old(self).wf(),
        ensures
            final(self).wf(),
            final(self).same_but_scrub_target(old(self)),
            send_models(sends@) == routed(old(self).last_scrub_target(), request@),
            final(self).last_scrub_target() == (if request@.is_scrubbing {
                Some((request@.media_id, request@.source_tick))
            } else {
                None
            }),
    {
        let mut sends: Vec<LaneSend> = Vec::new();
        if !request.is_scrubbing {
            self.last_scrub_target = None;
            if request.prewarm_scrub_workers {
                let ghost lane_model = RequestModel { prewarm_scrub_workers: false, ..request@ };
                let mut index: usize = 0;
                while index < MONITOR_WORKER_COUNT
                    invariant
                        index <= MONITOR_WORKER_COUNT,
                        sends@.len() == index,
                        lane_model == (RequestModel { prewarm_scrub_workers: false, ..request@ }),
                        forall|j: int|
                            0 <= j < index ==> (#[trigger] sends@[j])@ == (SendModel {
                                index: j,
                                command: CommandModel::Request(lane_model),
                                speculative: j != 0,
                            }),
                    decreases MONITOR_WORKER_COUNT - index,
                {
                    let mut lane_request = request.clone();
                    lane_request.prewarm_scrub_workers = false;
                    sends.push(
                        LaneSend {
                            index,
                            command: MonitorCommand::Request(lane_request),
                            speculative: index != 0,
                        },
                    );
                    index += 1;
                }
                assert(send_models(sends@) =~= routed(old(self).last_scrub_target(), request@));
                return sends;
            }
            let ghost model = request@;
            sends.push(
                LaneSend { index: 0, command: MonitorCommand::Request(request), speculative: false },
            );
            assert(send_models(sends@) =~= routed(old(self).last_scrub_target(), model));
            return sends;
        }
        let reverse = match self.last_scrub_target {
            Some((media_id, source_tick)) => media_id == request.media_id && request.source_tick
                < source_tick,
            None => false,
        };
        self.last_scrub_target = Some((request.media_id, request.source_tick));
        let index: usize = if reverse {
            (request.request_id % MONITOR_WORKER_COUNT as u64) as usize
        } else {
            0
        };
        let ghost model = request@;
        sends.push(
            LaneSend { index, command: MonitorCommand::Request(request), speculative: false },
        );
        assert(send_models(sends@) =~= routed(old(self).last_scrub_target(), model));
        sends
    }

    fn every_lane(cancel: bool) -> (sends: Vec<LaneSend>)
        ensures
            send_models(sends@) == to_every_lane(
                if cancel {
                    CommandModel::Cancel
                } else {
                    CommandModel::Release
                },
            ),
    {
        let ghost command = if cancel {
            CommandModel::Cancel
        } else {
            CommandModel::Release
        };
        let mut sends: Vec<LaneSend> = Vec::new();
        let mut index: usize = 0;
        while index < MONITOR_WORKER_COUNT
            invariant
                index <= MONITOR_WORKER_COUNT,
                sends@.len() == index,
                command == (if cancel {
                    CommandModel::Cancel
                } else {
                    CommandModel::Release
                }),
                forall|j: int|
                    0 <= j < index ==> (#[trigger] sends@[j])@ == (SendModel {
                        index: j,
                        command,
                        speculative: false,
                    }),
            decreases MONITOR_WORKER_COUNT - index,
        {
            let command = if cancel {
                MonitorCommand::Cancel
            } else {
                MonitorCommand::Release
            };
            sends.push(LaneSend { index, command, speculative: false });
            index += 1;
        }
        assert(send_models(sends@) =~= to_every_lane(command));
        sends
    }

    /// Clears queued work while retaining open media contexts for reuse. [`control_outcome`] is
    /// the outcome.
    pub fn cancel_pending(&mut self) -> (sends: Vec<LaneSend>)
        requires
            old(self).wf(),
        ensures
            final(self).wf(),
            final(self).same_but_scrub_target(old(self)),
            final(self).last_scrub_target() is None,
            send_models(sends@) == to_every_lane(CommandModel::Cancel),
    {
        self.last_scrub_target = None;
        MonitorDecoder::every_lane(true)
    }

    /// Alias for [`Self::cancel_pending`].
    pub fn cancel(&mut self) -> (sends: Vec<LaneSend>)
        requires
            old(self).wf(),
        ensures
            final(self).wf(),
            final(self).same_but_scrub_target(old(self)),
            final(self).last_scrub_target() is None,
            send_models(sends@) == to_every_lane(CommandModel::Cancel),
    {
        self.cancel_pending()
    }

    /// Releases sticky decoder/source-actor sessions without clearing decoded-frame cache data.
    /// [`control_outcome`] is the outcome.
    pub fn release_live_sessions(&mut self) -> (sends: Vec<LaneSend>)
        requires
            old(self).wf(),
        ensures
            final(self).wf(),
            final(self).same_but_scrub_target(old(self)),
            final(self).last_scrub_target() is None,
            send_models(sends@) == to_every_lane(CommandModel::Release),
    {
        self.last_scrub_target = None;
        MonitorDecoder::every_lane(false)
    }

    /// Cancels active work and releases sticky decoder sessions and, once every lane has taken
    /// the command, cached frames. [`control_outcome`] is the outcome.
    pub fn reset_live_cache(&mut self) -> (sends: Vec<LaneSend>)
        requires
            old(self).wf(),
        ensures
            final(self).wf(),
            final(self).cache_resets() == crate::decode::coordinator::successor(
                old(self).cache_resets(),
            ),
            final(self).is_coordinated() == old(self).is_coordinated(),
            final(self).waiting_event() == old(self).waiting_event(),
            final(self).newest_answered() == old(self).newest_answered(),
            final(self).commands() == old(self).commands(),
            final(self).endpoints() == old(self).endpoints(),
            final(self).active_sessions() == old(self).active_sessions(),
            final(self).peak_sessions() == old(self).peak_sessions(),
            final(self).last_scrub_target() is None,
            send_models(sends@) == to_every_lane(CommandModel::Release),
    {
        self.cache_reset_generation = self.cache_reset_generation.wrapping_add(1);
        self.release_live_sessions()
    }

    pub fn cache_reset_generation(&self) -> (generation: u64)
        ensures
            generation == self.cache_resets(),
    {
        self.cache_reset_generation
    }

    /// The newest requests that were put off by the bounded source coordinator. Send them after
    /// another monitor freed a source group; a repeated capacity result keeps each latest request
    /// retained for a later retry. [`retry_outcome`] is the outcome.
    pub fn retry_deferred_requests(&self) -> (sends: Vec<LaneSend>)
        requires
            self.wf(),
        ensures
            send_models(sends@) == (if self.is_coordinated() {
                retries(self.endpoints(), MONITOR_WORKER_COUNT as int)
            } else {
                Seq::empty()
            }),
    {
        let mut sends: Vec<LaneSend> = Vec::new();
        assert(send_models(sends@) =~= Seq::empty());
        if !self.coordinated {
            return sends;
        }
        let mut index: usize = 0;
        while index < self.endpoints.len()
            invariant
                self.wf(),
                index <= self.endpoints@.len(),
                send_models(sends@) == retries(self.endpoints(), index as int),
            decreases self.endpoints@.len() - index,
        {
            let ghost before = sends@;
            assert(self.endpoints()[index as int] == self.endpoints@[index as int]@);
            if let Some((request, speculative)) = self.endpoints[index].deferred() {
                let ghost model = request@;
                sends.push(
                    LaneSend { index, command: MonitorCommand::Request(request), speculative },
                );
                assert(send_models(sends@) =~= send_models(before).push(
                    SendModel {
                        index: index as int,
                        command: CommandModel::Request(model),
                        speculative,
                    },
                ));
            }
            index += 1;
        }
        sends
    }

    /// Puts a command into the slot of a lane that schedules itself; the lane is woken next.
    pub fn post(&mut self, index: usize, command: MonitorCommand)
        requires
            old(self).wf(),
            index < MONITOR_WORKER_COUNT,
        ensures
            final(self).wf(),
            final(self).same_but_lanes(old(self)),
            final(self).last_scrub_target() == old(self).last_scrub_target(),
            final(self).endpoints() == old(self).endpoints(),
            final(self).active_sessions() == old(self).active_sessions(),
            final(self).peak_sessions() == old(self).peak_sessions(),
            final(self).commands() == old(self).commands().update(index as int, Some(command@)),
    {
        let ghost before = self.commands();
        let ghost model = command@;
        self.commands[index] = Some(command);
        assert(self.commands() =~= before.update(index as int, Some(model)));
    }

    /// Takes what waits for a lane that schedules itself.
    pub fn take_command(&mut self, index: usize) -> (command: Option<MonitorCommand>)
        requires
            old(self).wf(),
            index < MONITOR_WORKER_COUNT,
        ensures
            final(self).wf(),
            final(self).same_but_lanes(old(self)),
            final(self).last_scrub_target() == old(self).last_scrub_target(),
            final(self).endpoints() == old(self).endpoints(),
            final(self).active_sessions() == old(self).active_sessions(),
            final(self).peak_sessions() == old(self).peak_sessions(),
            command_model(command) == old(self).commands()[index as int],
            final(self).commands() == old(self).commands().update(index as int, None),
    {
        let ghost before = self.commands();
        let mut taken: Option<MonitorCommand> = None;
        core::mem::swap(&mut taken, &mut self.commands[index]);
        assert(self.commands() =~= before.update(index as int, None));
        taken
    }

    /// What waits for a lane that schedules itself.
    pub fn waiting_command(&self, index: usize) -> (command: &Option<MonitorCommand>)
        requires
            self.wf(),
            index < MONITOR_WORKER_COUNT,
        ensures
            command_model(*command) == self.commands()[index as int],
    {
        &self.commands[index]
    }

    /// Takes a command for a lane that draws on a source coordinator; see
    /// [`CoordinatorEndpoint::send`]. A lane whose session ends with it is noted.
    pub fn send(&mut self, coordinator: &mut MonitorSourceCoordinator, send: LaneSend) -> (outcome:
        (SendStep, Option<u64>))
        requires
            old(self).wf(),
            old(coordinator)@.valid(),
            send.index < MONITOR_WORKER_COUNT,
        ensures
            final(self).wf(),
            final(coordinator)@.valid(),
            final(self).same_but_lanes(old(self)),
            final(self).last_scrub_target() == old(self).last_scrub_target(),
            final(self).commands() == old(self).commands(),
            ({
                let (next, after, step, retired) = sent(
                    old(self).endpoints()[send.index as int],
                    old(coordinator)@,
                    send.index as int,
                    send.command@,
                    send.speculative,
                );
                let ended = step matches crate::decode::endpoint::StepModel::Done {
                    result: _,
                    session_ended: true,
                };
                &&& final(self).endpoints() == old(self).endpoints().update(
                    send.index as int,
                    next,
                )
                &&& final(coordinator)@ == after
                &&& outcome.0@ == step
                &&& outcome.1 == retired
                &&& final(self).active_sessions() == (if ended {
                    old(self).active_sessions().update(send.index as int, false)
                } else {
                    old(self).active_sessions()
                })
                &&& final(self).peak_sessions() == old(self).peak_sessions()
            }),
    {
        let ghost before = self.endpoints();
        let index: usize = send.index;
        let outcome = self.endpoints[index].send(
            coordinator,
            index,
            send.command,
            send.speculative,
        );
        assert(self.endpoints() =~= before.update(index as int, self.endpoints@[index as int]@));
        let ended = match &outcome.0 {
            SendStep::Done { result: _, session_ended } => *session_ended,
            _ => false,
        };
        if ended {
            self.end_session(index);
        }
        outcome
    }

    fn end_session(&mut self, index: usize)
        requires
            old(self).wf(),
            index < MONITOR_WORKER_COUNT,
        ensures
            final(self).wf(),
            final(self).same_but_lanes(old(self)),
            final(self).last_scrub_target() == old(self).last_scrub_target(),
            final(self).commands() == old(self).commands(),
            final(self).endpoints() == old(self).endpoints(),
            final(self).active_sessions() == old(self).active_sessions().update(
                index as int,
                false,
            ),
            final(self).peak_sessions() == old(self).peak_sessions(),
    {
        proof {
            lemma_count_falls(self.active_sessions(), index as int);
        }
        self.resource_diagnostics.publish_worker_session(index, false);
    }

    /// Notes whether a lane holds a session.
    pub fn publish_worker_session(&mut self, index: usize, active: bool)
        requires
            old(self).wf(),
            index < MONITOR_WORKER_COUNT,
        ensures
            final(self).wf(),
            final(self).same_but_lanes(old(self)),
            final(self).last_scrub_target() == old(self).last_scrub_target(),
            final(self).commands() == old(self).commands(),
            final(self).endpoints() == old(self).endpoints(),
            final(self).active_sessions() == old(self).active_sessions().update(
                index as int,
                active,
            ),
            final(self).peak_sessions() == crate::arith::larger(
                old(self).peak_sessions() as int,
                count_set(final(self).active_sessions()) as int,
            ),
    {
        self.resource_diagnostics.publish_worker_session(index, active);
    }

    /// The lane that draws on a source coordinator.
    pub fn endpoint(&self, index: usize) -> (endpoint: &CoordinatorEndpoint)
        requires
            self.wf(),
            index < MONITOR_WORKER_COUNT,
        ensures
            endpoint@ == self.endpoints()[index as int],
    {
        &self.endpoints[index]
    }

    /// The lane that draws on a source coordinator, to be changed.
    pub fn endpoint_mut(&mut self, index: usize) -> (endpoint: &mut CoordinatorEndpoint)
        requires
            old(self).wf(),
            index < MONITOR_WORKER_COUNT,
        ensures
            endpoint@ == old(self).endpoints()[index as int],
            final(self).wf(),
            final(self).same_but_lanes(old(self)),
            final(self).last_scrub_target() == old(self).last_scrub_target(),
            final(self).commands() == old(self).commands(),
            final(self).active_sessions() == old(self).active_sessions(),
            final(self).peak_sessions() == old(self).peak_sessions(),
            final(self).endpoints() =~= old(self).endpoints().update(
                index as int,
                final(endpoint)@,
            ),
    {
        &mut self.endpoints[index]
    }

    /// Yields live source-actor leases while retaining each lane's exact latest request for an
    /// explicit later [`Self::retry_deferred_requests`]. Explicit [`Self::release_live_sessions`]
    /// creates no retry work.
    ///
    /// Lanes that schedule themselves share no source-group capacity to yield: their sessions
    /// are released instead, and [`control_outcome`] is the outcome of that.
    pub fn defer_live_sessions(&mut self, coordinator: &mut MonitorSourceCoordinator) -> (outcome:
        DeferredSessions)
        requires
            old(self).wf(),
            old(coordinator)@.valid(),
        ensures
            final(self).wf(),
            final(coordinator)@.valid(),
            final(self).same_but_lanes(old(self)),
            final(self).commands() == old(self).commands(),
            final(self).last_scrub_target() is None,
            !old(self).is_coordinated() ==> {
                &&& !outcome.yielded
                &&& outcome.retired@.len() == 0
                &&& send_models(outcome.sends@) == to_every_lane(CommandModel::Release)
                &&& final(self).same_but_scrub_target(old(self))
                &&& final(coordinator)@ == old(coordinator)@
            },
            old(self).is_coordinated() ==> ({
                let lanes = old(self).endpoints();
                let count = MONITOR_WORKER_COUNT as int;
                &&& outcome.sends@.len() == 0
                &&& outcome.yielded == exists|i: int|
                    0 <= i < count && #[trigger] reclaims(lanes, i, false)
                &&& outcome.retired@ == retired_by_reclaim(old(coordinator)@, lanes, count, false)
                &&& final(coordinator)@ == reclaimed(old(coordinator)@, lanes, count, false)
                &&& final(self).endpoints() == Seq::new(
                    MONITOR_WORKER_COUNT as nat,
                    |i: int|
                        EndpointModel {
                            active: None,
                            deferred: match lanes[i].active {
                                Some(lease) => Some((lease.request, lease.speculative)),
                                None => lanes[i].deferred,
                            },
                        },
                )
                &&& final(self).active_sessions() == Seq::new(
                    MONITOR_WORKER_COUNT as nat,
                    |i: int| false,
                )
                &&& final(self).peak_sessions() == old(self).peak_sessions()
            }),
    {
        if !self.coordinated {
            return DeferredSessions {
                yielded: false,
                retired: Vec::new(),
                sends: self.release_live_sessions(),
            };
        }
        let ghost lanes = self.endpoints();
        self.last_scrub_target = None;
        let mut deferred: bool = false;
        let mut retired: Vec<u64> = Vec::new();
        let mut index: usize = 0;
        while index < MONITOR_WORKER_COUNT
            invariant
                index <= MONITOR_WORKER_COUNT,
                self.wf(),
                coordinator@.valid(),
                self.same_but_lanes(old(self)),
                self.commands() == old(self).commands(),
                self.last_scrub_target() is None,
                lanes == old(self).endpoints(),
                lanes.len() == MONITOR_WORKER_COUNT,
                self.endpoints().len() == MONITOR_WORKER_COUNT,
                deferred == exists|i: int| 0 <= i < index && #[trigger] reclaims(lanes, i, false),
                retired@ == retired_by_reclaim(old(coordinator)@, lanes, index as int, false),
                coordinator@ == reclaimed(old(coordinator)@, lanes, index as int, false),
                forall|i: int|
                    0 <= i < index ==> (#[trigger] self.endpoints()[i]) == (EndpointModel {
                        active: None,
                        deferred: match lanes[i].active {
                            Some(lease) => Some((lease.request, lease.speculative)),
                            None => lanes[i].deferred,
                        },
                    }),
                forall|i: int|
                    index <= i < MONITOR_WORKER_COUNT ==> (#[trigger] self.endpoints()[i])
                        == lanes[i],
                forall|i: int| 0 <= i < index ==> !(#[trigger] self.active_sessions()[i]),
                self.active_sessions().len() == MONITOR_WORKER_COUNT,
                self.peak_sessions() == old(self).peak_sessions(),
            decreases MONITOR_WORKER_COUNT - index,
        {
            let ghost before = self.endpoints();
            assert(before[index as int] == lanes[index as int]);
            let outcome = self.endpoints[index].defer_lease(coordinator);
            assert(self.endpoints() =~= before.update(
                index as int,
                self.endpoints@[index as int]@,
            ));
            assert(outcome.0 == reclaims(lanes, index as int, false));
            if outcome.0 {
                deferred = true;
            }
            if let Some(actor) = outcome.1 {
                retired.push(actor);
            }
            self.end_session(index);
            index += 1;
        }
        assert(self.endpoints() =~= Seq::new(
            MONITOR_WORKER_COUNT as nat,
            |i: int|
                EndpointModel {
                    active: None,
                    deferred: match lanes[i].active {
                        Some(lease) => Some((lease.request, lease.speculative)),
                        None => lanes[i].deferred,
                    },
                },
        ));
        assert(self.active_sessions() =~= Seq::new(MONITOR_WORKER_COUNT as nat, |i: int| false));
        DeferredSessions { yielded: deferred, retired, sends: Vec::new() }
    }

    /// Releases every speculative background lane and discards its deferred retry without
    /// disturbing the foreground lane. Callers use this as the first reclamation step before
    /// yielding any visible source. Returns whether a lease ended, and the actors that retire.
    pub fn release_speculative_sessions(&mut self, coordinator: &mut MonitorSourceCoordinator) -> (
    outcome: (bool, Vec<u64>))
        requires
            old(self).wf(),
            old(coordinator)@.valid(),
        ensures
            final(self).wf(),
            final(coordinator)@.valid(),
            final(self).same_but_lanes(old(self)),
            final(self).commands() == old(self).commands(),
            final(self).last_scrub_target() == old(self).last_scrub_target(),
            final(self).peak_sessions() == old(self).peak_sessions(),
            !old(self).is_coordinated() ==> {
                &&& !outcome.0
                &&& outcome.1@.len() == 0
                &&& final(self).endpoints() == old(self).endpoints()
                &&& final(self).active_sessions() == old(self).active_sessions()
                &&& final(coordinator)@ == old(coordinator)@
            },
            old(self).is_coordinated() ==> {
                let lanes = old(self).endpoints();
                let count = MONITOR_WORKER_COUNT as int;
                &&& outcome.0 == exists|i: int| 0 <= i < count && #[trigger] reclaims(lanes, i, true)
                &&& outcome.1@ == retired_by_reclaim(old(coordinator)@, lanes, count, true)
                &&& final(coordinator)@ == reclaimed(old(coordinator)@, lanes, count, true)
                &&& final(self).endpoints() == Seq::new(
                    MONITOR_WORKER_COUNT as nat,
                    |i: int| without_speculation(lanes, i),
                )
                &&& final(self).active_sessions() == Seq::new(
                    MONITOR_WORKER_COUNT as nat,
                    |i: int| old(self).active_sessions()[i] && !reclaims(lanes, i, true),
                )
            },
    {
        let ghost lanes = self.endpoints();
        let mut released: bool = false;
        let mut retired: Vec<u64> = Vec::new();
        if !self.coordinated {
            return (released, retired);
        }
        let mut index: usize = 1;
        proof {
            reveal_with_fuel(reclaimed, 2);
            reveal_with_fuel(retired_by_reclaim, 2);
        }
        assert(without_speculation(lanes, 0) == lanes[0]);
        while index < MONITOR_WORKER_COUNT
            invariant
                1 <= index <= MONITOR_WORKER_COUNT,
                self.wf(),
                coordinator@.valid(),
                self.same_but_lanes(old(self)),
                self.commands() == old(self).commands(),
                self.last_scrub_target() == old(self).last_scrub_target(),
                lanes == old(self).endpoints(),
                lanes.len() == MONITOR_WORKER_COUNT,
                self.endpoints().len() == MONITOR_WORKER_COUNT,
                released == exists|i: int| 0 <= i < index && #[trigger] reclaims(lanes, i, true),
                retired@ == retired_by_reclaim(old(coordinator)@, lanes, index as int, true),
                coordinator@ == reclaimed(old(coordinator)@, lanes, index as int, true),
                forall|i: int|
                    0 <= i < index ==> (#[trigger] self.endpoints()[i]) == without_speculation(
                        lanes,
                        i,
                    ),
                forall|i: int|
                    index <= i < MONITOR_WORKER_COUNT ==> (#[trigger] self.endpoints()[i])
                        == lanes[i],
                self.active_sessions().len() == MONITOR_WORKER_COUNT,
                forall|i: int|
                    0 <= i < index ==> (#[trigger] self.active_sessions()[i]) == (old(self).active_sessions()[i] && !reclaims(lanes, i, true)),
                forall|i: int|
                    index <= i < MONITOR_WORKER_COUNT ==> (#[trigger] self.active_sessions()[i])
                        == old(self).active_sessions()[i],
                self.peak_sessions() == old(self).peak_sessions(),
            decreases MONITOR_WORKER_COUNT - index,
        {
            let ghost before = self.endpoints();
            assert(before[index as int] == lanes[index as int]);
            let outcome = self.endpoints[index].release_speculative(coordinator);
            assert(self.endpoints() =~= before.update(
                index as int,
                self.endpoints@[index as int]@,
            ));
            assert(outcome.0 == reclaims(lanes, index as int, true));
            assert(self.endpoints@[index as int]@ =~= without_speculation(lanes, index as int));
            if let Some(actor) = outcome.1 {
                retired.push(actor);
            }
            if outcome.0 {
                released = true;
                self.end_session(index);
            }
            index += 1;
        }
        assert(self.endpoints() =~= Seq::new(
            MONITOR_WORKER_COUNT as nat,
            |i: int| without_speculation(lanes, i),
        ));
        assert(self.active_sessions() =~= Seq::new(
            MONITOR_WORKER_COUNT as nat,
            |i: int| old(self).active_sessions()[i] && !reclaims(lanes, i, true),
        ));
        (released, retired)
    }

    /// Offers a result; returns whether the owner has to be woken.
    pub fn publish(&mut self, event: DecodeEvent) -> (changed: bool)
        requires
            old(self).wf(),
        ensures
            final(self).wf(),
            changed == (spec_event_request_id(event) >= old(self).newest_answered()),
            final(self).waiting_event() == (if changed {
                Some(event)
            } else {
                old(self).waiting_event()
            }),
            final(self).newest_answered() == (if changed {
                spec_event_request_id(event)
            } else {
                old(self).newest_answered()
            }),
            final(self).is_coordinated() == old(self).is_coordinated(),
            final(self).cache_resets() == old(self).cache_resets(),
            final(self).last_scrub_target() == old(self).last_scrub_target(),
            final(self).commands() == old(self).commands(),
            final(self).endpoints() == old(self).endpoints(),
            final(self).active_sessions() == old(self).active_sessions(),
            final(self).peak_sessions() == old(self).peak_sessions(),
    {
        self.events.publish(event)
    }

    /// Returns the newest completed result without blocking.
    pub fn try_recv(&mut self) -> (received: Result<Option<DecodeEvent>, DecoderClosed>)
        requires
            old(self).wf(),
        ensures
            final(self).wf(),
            received == Ok::<Option<DecodeEvent>, DecoderClosed>(old(self).waiting_event()),
            received matches Ok(Some(event)) ==> spec_event_request_id(event) == old(self).newest_answered(),
            final(self).waiting_event() is None,
            final(self).newest_answered() == old(self).newest_answered(),
            final(self).is_coordinated() == old(self).is_coordinated(),
            final(self).cache_resets() == old(self).cache_resets(),
            final(self).last_scrub_target() == old(self).last_scrub_target(),
            final(self).commands() == old(self).commands(),
            final(self).endpoints() == old(self).endpoints(),
            final(self).active_sessions() == old(self).active_sessions(),
            final(self).peak_sessions() == old(self).peak_sessions(),
    {
        Ok(self.events.take())
    }

    /// Returns a copyable snapshot of bounded cache and sticky-session resource use.
    pub fn diagnostics(&self, cache: MonitorFrameCachePoolDiagnostics) -> (seen:
        MonitorDecoderDiagnostics)
        requires
            self.wf(),
        ensures
            seen == (MonitorDecoderDiagnostics {
                frame_cache_capacity_bytes: cache.capacity_bytes,
                current_frame_cache_bytes: cache.current_bytes,
                peak_frame_cache_bytes: cache.peak_bytes,
                active_sticky_sessions: count_set(self.active_sessions()) as usize,
                peak_sticky_sessions: self.peak_sessions() as usize,
                session_cap: MONITOR_WORKER_COUNT,
            }),
            seen.active_sticky_sessions <= seen.peak_sticky_sessions <= seen.session_cap,
    {
        self.resource_diagnostics.snapshot(cache)
    }
}

impl Default for MonitorDecoder {
    fn default() -> (decoder: Self)
        ensures
            decoder.wf(),
            !decoder.is_coordinated(),
            decoder.starts_empty(),
    {
        MonitorDecoder::new()
    }
}

/// A lane without its speculative work; the foreground lane has none.
pub open spec fn without_speculation(endpoints: Seq<EndpointModel>, i: int) -> EndpointModel {
    if i == 0 {
        endpoints[0]
    } else {
        EndpointModel {
            active: if reclaims(endpoints, i, true) {
                None
            } else {
                endpoints[i].active
            },
            deferred: match endpoints[i].deferred {
                Some((request, speculative)) if speculative => None,
                other => other,
            },
        }
    }
}

proof fn lemma_count_falls(active: Seq<bool>, index: int)
    requires
        0 <= index < active.len(),
    ensures
        count_set(active.update(index, false)) <= count_set(active),
    decreases active.len(),
{
    let changed = active.update(index, false);
    if index == active.len() - 1 {
        assert(changed.drop_last() =~= active.drop_last());
    } else {
        assert(changed.drop_last() =~= active.drop_last().update(index, false));
        lemma_count_falls(active.drop_last(), index);
    }
}

/// Every request goes to lanes that exist, and only prewarm work goes to more than one.
pub proof fn law_requests_go_to_existing_lanes(
    last_scrub_target: Option<(u32, i64)>,
    request: RequestModel,
)
    ensures
        forall|i: int|
            0 <= i < routed(last_scrub_target, request).len() ==> 0 <= (#[trigger] routed(
                last_scrub_target,
                request,
            )[i]).index < MONITOR_WORKER_COUNT,
        request.is_scrubbing || !request.prewarm_scrub_workers ==> routed(
            last_scrub_target,
            request,
        ).len() == 1,
{
}

/// Playback and forward scrubbing stay on the sequential lane.
pub proof fn law_forward_requests_stay_sequential(
    last_scrub_target: Option<(u32, i64)>,
    request: RequestModel,
)
    requires
        !request.is_scrubbing || !goes_back(last_scrub_target, request),
        request.is_scrubbing || !request.prewarm_scrub_workers,
    ensures
        routed(last_scrub_target, request)[0].index == 0,
        !routed(last_scrub_target, request)[0].speculative,
{
}

/// Reverse scrubs with consecutive identities use all lanes in turn.
pub proof fn law_reverse_requests_fan_out(
    last_scrub_target: Option<(u32, i64)>,
    first: RequestModel,
    second: RequestModel,
)
    requires
        first.is_scrubbing && goes_back(last_scrub_target, first),
        second.is_scrubbing && goes_back(last_scrub_target, second),
        first.request_id < second.request_id < first.request_id + MONITOR_WORKER_COUNT,
    ensures
        lane_for(last_scrub_target, first) != lane_for(last_scrub_target, second),
{
}

/// The foreground lane never loses its lease or its retry to the reclamation of speculative
/// work.
pub proof fn law_speculative_reclaim_spares_the_foreground(endpoints: Seq<EndpointModel>)
    ensures
        without_speculation(endpoints, 0) == endpoints[0],
        !reclaims(endpoints, 0, true),
{
}

/// Where a request goes: playback to the first lane; a paused prewarm to all four, of which only the
/// first is not speculative, and without asking for a prewarm again; a scrub to the first lane,
/// unless it goes back in the medium scrubbed last, when its identity picks one of the four. What a
/// lane gets is the request itself.
pub proof fn law_requests_are_routed_by_what_they_ask(
    last_scrub_target: Option<(u32, i64)>,
    request: RequestModel,
    lane: int,
)
    ensures
        ({
            let sends = routed(last_scrub_target, request);
            let prewarm = !request.is_scrubbing && request.prewarm_scrub_workers;
            let back = request.is_scrubbing && (last_scrub_target matches Some(last) && last.0
                == request.media_id && request.source_tick < last.1);
            &&& !prewarm ==> {
                &&& sends.len() == 1
                &&& sends[0].command == CommandModel::Request(request)
                &&& !sends[0].speculative
                &&& back ==> sends[0].index == request.request_id % 4
                &&& !back ==> sends[0].index == 0
            }
            &&& prewarm ==> {
                &&& sends.len() == 4
                &&& 0 <= lane < 4 ==> {
                    &&& sends[lane].index == lane
                    &&& sends[lane].speculative <==> lane != 0
                    &&& sends[lane].command matches CommandModel::Request(sent) && {
                        &&& !sent.prewarm_scrub_workers
                        &&& sent.project_epoch == request.project_epoch
                        &&& sent.cache_epoch == request.cache_epoch
                        &&& sent.request_id == request.request_id
                        &&& sent.media_id == request.media_id
                        &&& sent.path == request.path
                        &&& sent.source_tick == request.source_tick
                        &&& sent.width == request.width
                        &&& sent.height == request.height
                        &&& sent.is_scrubbing == request.is_scrubbing
                        &&& sent.high_quality_scaling == request.high_quality_scaling
                        &&& sent.progressive_scrub_frames == request.progressive_scrub_frames
                        &&& sent.source_frame_duration_tick == request.source_frame_duration_tick
                        &&& sent.acceleration == request.acceleration
                    }
                }
            }
        }),
{
}

/// A control command reaches each of the four lanes once, as it is.
pub proof fn law_controls_reach_every_lane(command: CommandModel, lane: int)
    ensures
        to_every_lane(command).len() == 4,
        0 <= lane < 4 ==> to_every_lane(command)[lane].index == lane && to_every_lane(
            command,
        )[lane].command == command && !to_every_lane(command)[lane].speculative,
{
}

/// A request fails exactly where a lane refused it, as closed where one is closed; the last refusal
/// stands for a retry.
pub proof fn law_outcomes_follow_the_lanes(results: Seq<Result<(), DecoderClosed>>, i: int)
    ensures
        combined_outcome(results) is Ok <==> forall|j: int|
            0 <= j < results.len() ==> (#[trigger] results[j]) is Ok,
        combined_outcome(results) == Err::<(), DecoderClosed>(DecoderClosed::Closed)
            <==> exists|j: int|
            0 <= j < results.len() && (#[trigger] results[j]) == Err::<(), DecoderClosed>(
                DecoderClosed::Closed,
            ),
        any_refused(results) <==> !(forall|j: int|
            0 <= j < results.len() ==> (#[trigger] results[j]) is Ok),
        (0 <= i < results.len() && results[i] is Err && forall|j: int|
            i < j < results.len() ==> (#[trigger] results[j]) is Ok) ==> last_refusal(results)
            == results[i],
        (forall|j: int| 0 <= j < results.len() ==> (#[trigger] results[j]) is Ok) ==> last_refusal(
            results,
        ) is Ok,
{
    let closed = Err::<(), DecoderClosed>(DecoderClosed::Closed);
    let deferred = Err::<(), DecoderClosed>(DecoderClosed::SourceCapacityDeferred);
    if combined_outcome(results) is Ok {
        assert forall|j: int| 0 <= j < results.len() implies (#[trigger] results[j]) is Ok by {
            assert(results.contains(results[j]));
            match results[j] {
                Err(DecoderClosed::Closed) => {
                    assert(results[j] == closed);
                },
                Err(DecoderClosed::SourceCapacityDeferred) => {
                    assert(results[j] == deferred);
                },
                Ok(()) => {},
            }
        }
    }
    if results.contains(closed) {
        let j = choose|j: int| 0 <= j < results.len() && results[j] == closed;
        assert(results[j] is Err);
    }
    if results.contains(deferred) {
        let j = choose|j: int| 0 <= j < results.len() && results[j] == deferred;
        assert(results[j] is Err);
    }
    if exists|j: int| 0 <= j < results.len() && (#[trigger] results[j]) == closed {
        let j = choose|j: int| 0 <= j < results.len() && (#[trigger] results[j]) == closed;
        assert(results.contains(closed));
    }
    lemma_last_refusal(results, i);
    lemma_no_refusal(results);
}

proof fn lemma_last_refusal(results: Seq<Result<(), DecoderClosed>>, i: int)
    ensures
        (0 <= i < results.len() && results[i] is Err && forall|j: int|
            i < j < results.len() ==> (#[trigger] results[j]) is Ok) ==> last_refusal(results)
            == results[i],
    decreases results.len(),
{
    if 0 <= i < results.len() - 1 {
        let rest = results.drop_last();
        lemma_last_refusal(rest, i);
        if forall|j: int| i < j < results.len() ==> (#[trigger] results[j]) is Ok {
            assert(results[results.len() - 1] is Ok);
            assert forall|j: int| i < j < rest.len() implies (#[trigger] rest[j]) is Ok by {
                assert(rest[j] == results[j]);
            }
        }
    }
}

proof fn lemma_no_refusal(results: Seq<Result<(), DecoderClosed>>)
    ensures
        (forall|j: int| 0 <= j < results.len() ==> (#[trigger] results[j]) is Ok) ==> last_refusal(
            results,
        ) is Ok,
    decreases results.len(),
{
    if results.len() > 0 {
        let rest = results.drop_last();
        lemma_no_refusal(rest);
        if forall|j: int| 0 <= j < results.len() ==> (#[trigger] results[j]) is Ok {
            assert(results[results.len() - 1] is Ok);
            assert forall|j: int| 0 <= j < rest.len() implies (#[trigger] rest[j]) is Ok by {
                assert(rest[j] == results[j]);
            }
        }
    }
}

/// A retry sends each lane exactly the request that was put off for it, and no lane anything else.
pub proof fn law_retries_are_what_was_put_off(
    endpoints: Seq<EndpointModel>,
    count: int,
    lane: int,
    k: int,
)
    requires
        0 <= count <= endpoints.len(),
    ensures
        0 <= lane < count && endpoints[lane].deferred is Some ==> exists|at: int|
            0 <= at < retries(endpoints, count).len() && (#[trigger] retries(
                endpoints,
                count,
            )[at]).index == lane,
        0 <= k < retries(endpoints, count).len() ==> {
            let send = retries(endpoints, count)[k];
            &&& 0 <= send.index < count
            &&& endpoints[send.index].deferred matches Some(deferred) && send.command
                == CommandModel::Request(deferred.0) && send.speculative == deferred.1
        },
        retries(endpoints, count).len() <= count,
    decreases count,
{
    if count > 0 {
        let before = retries(endpoints, count - 1);
        let after = retries(endpoints, count);
        law_retries_are_what_was_put_off(endpoints, count - 1, lane, k);
        if 0 <= lane < count && endpoints[lane].deferred is Some {
            if lane < count - 1 {
                let at = choose|at: int|
                    0 <= at < before.len() && (#[trigger] before[at]).index == lane;
                assert(after[at].index == lane);
            } else {
                assert(after[before.len() as int].index == lane);
            }
        }
    }
}

/// Reclaiming ends every lease, or only those of speculative work in the background: a lane that
/// keeps its lease leaves the coordinator alone, and one that does not gives it back.
pub proof fn law_reclaiming_ends_the_right_leases(
    coordinator: CoordinatorModel,
    endpoints: Seq<EndpointModel>,
    lane: int,
    speculative_only: bool,
)
    requires
        0 <= lane < endpoints.len(),
    ensures
        reclaims(endpoints, lane, false) <==> endpoints[lane].active is Some,
        reclaims(endpoints, lane, true) <==> lane > 0 && (endpoints[lane].active matches Some(
            lease,
        ) && lease.speculative),
        reclaimed(coordinator, endpoints, 0, speculative_only) == coordinator,
        retired_by_reclaim(coordinator, endpoints, 0, speculative_only).len() == 0,
        ({
            let before = reclaimed(coordinator, endpoints, lane, speculative_only);
            let after = reclaimed(coordinator, endpoints, lane + 1, speculative_only);
            let retired = retired_by_reclaim(coordinator, endpoints, lane, speculative_only);
            let now = retired_by_reclaim(coordinator, endpoints, lane + 1, speculative_only);
            &&& endpoints[lane].active is None ==> after == before && now == retired
            &&& endpoints[lane].active matches Some(lease) ==> {
                if !speculative_only || (lane > 0 && lease.speculative) {
                    &&& after == before.lease_ended(lease.key, lease.lane, lease.client)
                    &&& now == (match before.retires(lease.key, lease.lane, lease.client) {
                        Some(actor) => retired.push(actor),
                        None => retired,
                    })
                } else {
                    after == before && now == retired
                }
            }
        }),
{
}

/// What is left of a lane once speculative work was given up: in the background neither a
/// speculative lease nor a speculative retry, and everything else as it was.
pub proof fn law_speculation_alone_is_given_up(endpoints: Seq<EndpointModel>, lane: int)
    requires
        0 < lane < endpoints.len(),
    ensures
        ({
            let after = without_speculation(endpoints, lane);
            &&& endpoints[lane].active matches Some(lease) ==> after.active == (if lease.speculative {
                None
            } else {
                Some(lease)
            })
            &&& endpoints[lane].active is None ==> after.active is None
            &&& endpoints[lane].deferred matches Some(deferred) ==> after.deferred == (
            if deferred.1 {
                None
            } else {
                Some(deferred)
            })
            &&& endpoints[lane].deferred is None ==> after.deferred is None
        }),
{
}

/// A request to the decoder is remembered as the scrub target exactly where it scrubs, is sent to the
/// lanes it asks for, and changes nothing else.
pub proof fn law_decoder_sends_requests_to_their_lanes(
    decoder: &mut MonitorDecoder,
    request: DecodeRequest,
    sends: Vec<LaneSend>,
)
    requires
        call_ensures(MonitorDecoder::request, (decoder, request), sends),
    ensures
        final(decoder).last_scrub_target() == (if request.is_scrubbing {
            Some((request.media_id, request.source_tick))
        } else {
            None
        }),
        final(decoder).commands() == old(decoder).commands(),
        final(decoder).endpoints() == old(decoder).endpoints(),
        final(decoder).waiting_event() == old(decoder).waiting_event(),
        request.is_scrubbing || !request.prewarm_scrub_workers ==> sends@.len() == 1
            && sends@[0].command@ == CommandModel::Request(request@) && !sends@[0].speculative,
        !request.is_scrubbing && request.prewarm_scrub_workers ==> sends@.len() == 4,
        request.is_scrubbing ==> sends@[0].index == (if (old(decoder).last_scrub_target() matches Some(last) && last.0 == request.media_id
            && request.source_tick < last.1) {
            request.request_id as int % 4
        } else {
            0
        }),
        !request.is_scrubbing ==> sends@[0].index == 0 && !sends@[0].speculative,
{
    law_requests_are_routed_by_what_they_ask(old(decoder).last_scrub_target(), request@, 0);
    let models = send_models(sends@);
    assert(models.len() == sends@.len());
    assert(models[0] == sends@[0]@);
}

/// Cancelling and releasing reach all four lanes and forget the scrub target; a reset counts one reset
/// more and releases as well.
pub proof fn law_decoder_controls_reach_all_lanes(
    decoder: &mut MonitorDecoder,
    released: &mut MonitorDecoder,
    reset: &mut MonitorDecoder,
    cancels: Vec<LaneSend>,
    releases: Vec<LaneSend>,
    resets: Vec<LaneSend>,
    lane: int,
)
    requires
        call_ensures(MonitorDecoder::cancel_pending, (decoder,), cancels),
        call_ensures(MonitorDecoder::release_live_sessions, (released,), releases),
        call_ensures(MonitorDecoder::reset_live_cache, (reset,), resets),
        0 <= lane < 4,
    ensures
        cancels@.len() == 4 && releases@.len() == 4 && resets@.len() == 4,
        cancels@[lane].index == lane && cancels@[lane].command is Cancel,
        releases@[lane].index == lane && releases@[lane].command is Release,
        resets@[lane].index == lane && resets@[lane].command is Release,
        final(decoder).last_scrub_target() is None,
        final(released).last_scrub_target() is None,
        final(reset).last_scrub_target() is None,
        final(decoder).cache_resets() == old(decoder).cache_resets(),
        final(released).cache_resets() == old(released).cache_resets(),
        final(reset).cache_resets() != old(reset).cache_resets(),
        final(decoder).endpoints() == old(decoder).endpoints(),
        final(released).endpoints() == old(released).endpoints(),
{
    assert(send_models(cancels@).len() == cancels@.len());
    assert(send_models(releases@).len() == releases@.len());
    assert(send_models(resets@).len() == resets@.len());
    assert(send_models(cancels@)[lane] == cancels@[lane]@);
    assert(send_models(releases@)[lane] == releases@[lane]@);
    assert(send_models(resets@)[lane] == resets@[lane]@);
    law_controls_reach_every_lane(CommandModel::Cancel, lane);
    law_controls_reach_every_lane(CommandModel::Release, lane);
}

/// Results reach the owner newest first and once.
pub proof fn law_decoder_publishes_newest_first(
    decoder: &mut MonitorDecoder,
    event: DecodeEvent,
    changed: bool,
)
    requires
        call_ensures(MonitorDecoder::publish, (decoder, event), changed),
    ensures
        ({
            let id = match event {
                DecodeEvent::Frame(frame) => frame.request_id,
                DecodeEvent::Error(error) => error.request_id,
            };
            &&& changed <==> id >= old(decoder).newest_answered()
            &&& changed ==> final(decoder).waiting_event() == Some(event) && final(decoder).newest_answered() == id
            &&& !changed ==> final(decoder).waiting_event() == old(decoder).waiting_event()
                && final(decoder).newest_answered() == old(decoder).newest_answered()
        }),
{
}

/// Yielding every lease retains each lane's latest request for a retry, and no lane holds a session.
pub proof fn law_yielding_retains_every_request(
    decoder: &mut MonitorDecoder,
    coordinator: &mut MonitorSourceCoordinator,
    outcome: DeferredSessions,
    lane: int,
)
    requires
        call_ensures(MonitorDecoder::defer_live_sessions, (decoder, coordinator), outcome),
        old(decoder).is_coordinated(),
        0 <= lane < 4,
    ensures
        outcome.sends@.len() == 0,
        final(decoder).endpoints()[lane].active is None,
        old(decoder).endpoints()[lane].active matches Some(lease) ==> final(decoder).endpoints()[lane].deferred == Some((lease.request, lease.speculative)),
        old(decoder).endpoints()[lane].active is None ==> final(decoder).endpoints()[lane].deferred
            == old(decoder).endpoints()[lane].deferred,
        !final(decoder).active_sessions()[lane],
        old(decoder).endpoints()[lane].active is Some ==> outcome.yielded,
        final(decoder).last_scrub_target() is None,
{
    assert(reclaims(old(decoder).endpoints(), lane, false) == old(decoder).endpoints()[lane].active is Some);
}

/// A lane that schedules itself takes the latest command that was posted to it, once; the other lanes are
/// untouched.
pub proof fn law_latest_command_is_taken(
    posting: &mut MonitorDecoder,
    index: usize,
    command: MonitorCommand,
    taking: &mut MonitorDecoder,
    taken: Option<MonitorCommand>,
    other: int,
)
    requires
        call_ensures(MonitorDecoder::post, (posting, index, command), ()),
        call_ensures(MonitorDecoder::take_command, (taking, index), taken),
        *final(posting) == *old(taking),
        0 <= index < old(posting).commands().len(),
    ensures
        command_model(taken) == Some(command@),
        final(taking).commands()[index as int] is None,
        0 <= other < old(posting).commands().len() && other != index ==> final(taking).commands()[other] == old(posting).commands()[other],
{
}

/// A retry offers each put-off request to its own lane, and nothing where the lanes schedule themselves.
pub proof fn law_decoder_retries_what_was_put_off(
    decoder: &MonitorDecoder,
    sends: Vec<LaneSend>,
    k: int,
)
    requires
        call_ensures(MonitorDecoder::retry_deferred_requests, (decoder,), sends),
        decoder.endpoints().len() == 4,
    ensures
        !decoder.is_coordinated() ==> sends@.len() == 0,
        decoder.is_coordinated() && 0 <= k < sends@.len() ==> {
            let lane = sends@[k].index as int;
            &&& 0 <= lane < 4
            &&& decoder.endpoints()[lane].deferred matches Some(deferred) && sends@[k].command@
                == CommandModel::Request(deferred.0) && sends@[k].speculative == deferred.1
        },
{
    let models = send_models(sends@);
    assert(models.len() == sends@.len());
    if 0 <= k < sends@.len() {
        assert(models[k] == sends@[k]@);
    }
    law_retries_are_what_was_put_off(decoder.endpoints(), 4, 0, k);
}

/// Reclaiming speculative work leaves the foreground lane, and every lease and retry that is not
/// speculative, as they were.
pub proof fn law_reclaiming_leaves_visible_work(
    decoder: &mut MonitorDecoder,
    coordinator: &mut MonitorSourceCoordinator,
    outcome: (bool, Vec<u64>),
    lane: int,
)
    requires
        call_ensures(MonitorDecoder::release_speculative_sessions, (decoder, coordinator), outcome),
        old(decoder).wf(),
        old(decoder).is_coordinated(),
        0 <= lane < 4,
    ensures
        final(decoder).endpoints()[0] == old(decoder).endpoints()[0],
        final(decoder).active_sessions()[0] == old(decoder).active_sessions()[0],
        old(decoder).endpoints()[lane].active matches Some(lease) ==> (!lease.speculative ==> final(decoder).endpoints()[lane].active == Some(lease)),
        lane > 0 ==> (old(decoder).endpoints()[lane].active matches Some(lease) ==> (
        lease.speculative ==> final(decoder).endpoints()[lane].active is None && !final(decoder).active_sessions()[lane] && outcome.0)),
        lane > 0 ==> (old(decoder).endpoints()[lane].deferred matches Some(deferred) ==> final(decoder).endpoints()[lane].deferred == (if deferred.1 {
            None
        } else {
            Some(deferred)
        })),
        final(decoder).last_scrub_target() == old(decoder).last_scrub_target(),
{
    assert(final(decoder).endpoints()[0] == without_speculation(old(decoder).endpoints(), 0));
    assert(final(decoder).endpoints()[lane] == without_speculation(old(decoder).endpoints(), lane));
    assert(!reclaims(old(decoder).endpoints(), 0, true));
}

/// A request that a lane's lease cannot serve and capacity cannot take on is put off and offered again.
pub proof fn law_put_off_requests_are_offered_again(
    sending: &mut MonitorDecoder,
    coordinator: &mut MonitorSourceCoordinator,
    send: LaneSend,
    outcome: (SendStep, Option<u64>),
    request: RequestModel,
)
    requires
        call_ensures(MonitorDecoder::send, (sending, coordinator, send), outcome),
        send.command@ == CommandModel::Request(request),
        send.index < old(sending).endpoints().len(),
        outcome.0 matches SendStep::Done {
            result: Err(DecoderClosed::SourceCapacityDeferred),
            session_ended: _,
        },
    ensures
        final(sending).endpoints()[send.index as int].deferred == Some((request, send.speculative)),
{
    crate::decode::endpoint::law_refused_request_is_retained(
        old(sending).endpoints()[send.index as int],
        old(coordinator)@,
        send.index as int,
        request,
        send.speculative,
    );
}

/// A request, a cancellation and a release say what to send and touch the scrub target alone: no lease, no
/// command, no session and no result changes before the lanes act. A control forgets the scrub target.
pub proof fn law_commands_touch_the_scrub_target_alone(
    requesting: &mut MonitorDecoder,
    request: DecodeRequest,
    cancelling: &mut MonitorDecoder,
    releasing: &mut MonitorDecoder,
    requested: Vec<LaneSend>,
    cancelled: Vec<LaneSend>,
    released: Vec<LaneSend>,
)
    requires
        call_ensures(MonitorDecoder::request, (requesting, request), requested),
        call_ensures(MonitorDecoder::cancel_pending, (cancelling,), cancelled),
        call_ensures(MonitorDecoder::release_live_sessions, (releasing,), released),
    ensures
        final(requesting).is_coordinated() == old(requesting).is_coordinated(),
        final(requesting).cache_resets() == old(requesting).cache_resets(),
        final(requesting).waiting_event() == old(requesting).waiting_event(),
        final(requesting).newest_answered() == old(requesting).newest_answered(),
        final(requesting).commands() == old(requesting).commands(),
        final(requesting).endpoints() == old(requesting).endpoints(),
        final(requesting).active_sessions() == old(requesting).active_sessions(),
        final(requesting).peak_sessions() == old(requesting).peak_sessions(),
        final(cancelling).is_coordinated() == old(cancelling).is_coordinated(),
        final(cancelling).cache_resets() == old(cancelling).cache_resets(),
        final(cancelling).waiting_event() == old(cancelling).waiting_event(),
        final(cancelling).newest_answered() == old(cancelling).newest_answered(),
        final(cancelling).commands() == old(cancelling).commands(),
        final(cancelling).endpoints() == old(cancelling).endpoints(),
        final(cancelling).active_sessions() == old(cancelling).active_sessions(),
        final(cancelling).peak_sessions() == old(cancelling).peak_sessions(),
        final(releasing).is_coordinated() == old(releasing).is_coordinated(),
        final(releasing).cache_resets() == old(releasing).cache_resets(),
        final(releasing).waiting_event() == old(releasing).waiting_event(),
        final(releasing).newest_answered() == old(releasing).newest_answered(),
        final(releasing).commands() == old(releasing).commands(),
        final(releasing).endpoints() == old(releasing).endpoints(),
        final(releasing).active_sessions() == old(releasing).active_sessions(),
        final(releasing).peak_sessions() == old(releasing).peak_sessions(),
        final(cancelling).last_scrub_target() is None,
        final(releasing).last_scrub_target() is None,
{
}

/// A new decoder has nothing waiting, nothing answered and no lane with a lease, a session or a command.
pub proof fn law_decoders_start_empty(plain: MonitorDecoder, shared: MonitorDecoder, lane: int)
    requires
        call_ensures(MonitorDecoder::new, (), plain),
        call_ensures(MonitorDecoder::new_with_source_coordinator, (), shared),
        0 <= lane < 4,
    ensures
        !plain.is_coordinated(),
        shared.is_coordinated(),
        forall|decoder: MonitorDecoder|
            decoder == plain || decoder == shared ==> {
                &&& (#[trigger] decoder.commands()).len() == 4
                &&& decoder.commands()[lane] is None
                &&& decoder.endpoints().len() == 4
                &&& decoder.endpoints()[lane].active is None
                &&& decoder.endpoints()[lane].deferred is None
                &&& !decoder.active_sessions()[lane]
                &&& decoder.peak_sessions() == 0
                &&& decoder.last_scrub_target() is None
                &&& decoder.cache_resets() == 0
                &&& decoder.waiting_event() is None
                &&& decoder.newest_answered() == 0
            },
{
}

/// A lane that opens or closes its session marks itself alone, and the peak rises to what is held.
pub proof fn law_worker_sessions_are_marked(
    decoder: &mut MonitorDecoder,
    index: usize,
    active: bool,
    other: int,
)
    requires
        call_ensures(MonitorDecoder::publish_worker_session, (decoder, index, active), ()),
        old(decoder).wf(),
        old(decoder).active_sessions().len() == 4,
        index < 4,
        0 <= other < 4,
    ensures
        final(decoder).active_sessions()[other] == (if other == index {
            active
        } else {
            old(decoder).active_sessions()[other]
        }),
        final(decoder).peak_sessions() >= old(decoder).peak_sessions(),
        final(decoder).peak_sessions() >= count_set(final(decoder).active_sessions()),
        final(decoder).peak_sessions() == old(decoder).peak_sessions()
            || final(decoder).peak_sessions() == count_set(final(decoder).active_sessions()),
        final(decoder).endpoints() == old(decoder).endpoints(),
        final(decoder).commands() == old(decoder).commands(),
        final(decoder).waiting_event() == old(decoder).waiting_event(),
        final(decoder).newest_answered() == old(decoder).newest_answered(),
        final(decoder).cache_resets() == old(decoder).cache_resets(),
        final(decoder).is_coordinated() == old(decoder).is_coordinated(),
{
}

} // verus!
