//! How a monitor lane takes its commands, and what it does with a result that newer commands
//! may have overtaken.
use crate::decode::request::{
    command_model, event_request_id, request_model, same_decode_generation, same_generation,
    spec_event_request_id, CommandModel, DecodeEvent, DecodeRequest, MonitorCommand, RequestModel,
};
use vstd::prelude::*;

verus! {

/// How long a lane waits for a wake-up before it looks at its command slot, in nanoseconds.
pub const POLL_INTERVAL: u64 = 8_000_000;

/// What a lane does with what it found when it woke.
#[derive(Debug)]
pub enum LaneStep {
    /// Serve this request.
    Decode(DecodeRequest),
    /// Wait again.
    Idle,
    /// Release every session, then wait again.
    ReleaseSessions,
    /// Release every session and end.
    Stop,
}

/// What a lane does once a request was served.
#[derive(Debug)]
pub struct Settlement {
    /// The result to publish.
    pub publish: Option<DecodeEvent>,
    /// The request to serve next.
    pub next: Option<DecodeRequest>,
    /// Whether to wait before that, so that a saturated lane does not spin on the permit pool.
    pub wait: bool,
    /// Whether to release every session.
    pub release_sessions: bool,
    /// Whether to end.
    pub stop: bool,
}

/// Whether `event` answers the request with this identity.
pub open spec fn completes(event: Option<DecodeEvent>, request_id: u64) -> bool {
    event matches Some(event) && spec_event_request_id(event) == request_id
}

/// The result that is still wanted after `command` arrived during the service of `request`: a
/// target that arrives during decode wins, and old output is not published unless both belong
/// to one generation.
pub open spec fn still_wanted(
    request: RequestModel,
    event: Option<DecodeEvent>,
    deferred: bool,
    command: Option<CommandModel>,
) -> Option<DecodeEvent> {
    match command {
        Some(CommandModel::Request(newer)) if same_generation(request, newer) => event,
        Some(_) => None,
        None if deferred => None,
        None => event,
    }
}

/// The request that is left to serve after `command` arrived during the service of `request`.
pub open spec fn left_to_serve(
    request: RequestModel,
    event: Option<DecodeEvent>,
    deferred: bool,
    command: Option<CommandModel>,
) -> Option<RequestModel> {
    match command {
        Some(CommandModel::Request(newer)) => if same_generation(request, newer) && completes(
            event,
            newer.request_id,
        ) {
            None
        } else {
            Some(newer)
        },
        Some(_) => None,
        None if deferred => Some(request),
        None => None,
    }
}

/// Decides over the result of `request`, given what arrived in the command slot meanwhile.
/// `deferred` tells that capacity was short and nothing was decoded.
pub fn settle(
    request: DecodeRequest,
    event: Option<DecodeEvent>,
    deferred: bool,
    command: Option<MonitorCommand>,
) -> (settlement: Settlement)
    ensures
        settlement.publish == still_wanted(request@, event, deferred, command_model(command)),
        request_model(settlement.next) == left_to_serve(
            request@,
            event,
            deferred,
            command_model(command),
        ),
        settlement.wait == (command is None && deferred),
        settlement.release_sessions == (command is Some && (command->0 is Release
            || command->0 is Shutdown)),
        settlement.stop == (command is Some && command->0 is Shutdown),
{
    match command {
        Some(MonitorCommand::Request(newer)) => {
            let completed_newest = match &event {
                Some(event) => event_request_id(event) == newer.request_id,
                None => false,
            };
            let same = same_decode_generation(&request, &newer);
            Settlement {
                publish: if same {
                    event
                } else {
                    None
                },
                next: if same && completed_newest {
                    None
                } else {
                    Some(newer)
                },
                wait: false,
                release_sessions: false,
                stop: false,
            }
        },
        Some(MonitorCommand::Cancel) => Settlement {
            publish: None,
            next: None,
            wait: false,
            release_sessions: false,
            stop: false,
        },
        Some(MonitorCommand::Release) => Settlement {
            publish: None,
            next: None,
            wait: false,
            release_sessions: true,
            stop: false,
        },
        Some(MonitorCommand::Shutdown) => Settlement {
            publish: None,
            next: None,
            wait: false,
            release_sessions: true,
            stop: true,
        },
        None => if deferred {
            Settlement {
                publish: None,
                next: Some(request),
                wait: true,
                release_sessions: false,
                stop: false,
            }
        } else {
            Settlement { publish: event, next: None, wait: false, release_sessions: false, stop: false }
        },
    }
}

/// What an independent lane keeps between two requests.
#[derive(Debug)]
pub struct LaneScheduler {
    observed_cache_reset: u64,
    pending: Option<DecodeRequest>,
}

impl LaneScheduler {
    /// The last reset of the cache that the lane has carried out.
    pub closed spec fn observed_reset(&self) -> u64 {
        self.observed_cache_reset
    }

    /// The request that the lane turns to without waiting.
    pub closed spec fn pending(&self) -> Option<RequestModel> {
        request_model(self.pending)
    }

    pub fn new(cache_reset_generation: u64) -> (lane: Self)
        ensures
            lane.observed_reset() == cache_reset_generation,
            lane.pending() is None,
    {
        LaneScheduler { observed_cache_reset: cache_reset_generation, pending: None }
    }

    /// Whether a reset was asked for that the lane has not carried out: it releases every
    /// session and clears the cache.
    pub fn observe_reset(&mut self, requested_cache_reset: u64) -> (reset: bool)
        ensures
            reset == (requested_cache_reset != old(self).observed_reset()),
            final(self).observed_reset() == requested_cache_reset,
            final(self).pending() == old(self).pending(),
    {
        let reset = requested_cache_reset != self.observed_cache_reset;
        self.observed_cache_reset = requested_cache_reset;
        reset
    }

    /// Takes the request that is left from before.
    pub fn take_pending(&mut self) -> (request: Option<DecodeRequest>)
        ensures
            request_model(request) == old(self).pending(),
            final(self).pending() is None,
            final(self).observed_reset() == old(self).observed_reset(),
    {
        self.pending.take()
    }

    /// Decides over what the lane found in its command slot when it woke. `disconnected` tells
    /// that nobody can wake it any more.
    pub fn receive(disconnected: bool, command: Option<MonitorCommand>) -> (step: LaneStep)
        ensures
            disconnected ==> step is Stop,
            !disconnected ==> match command {
                Some(MonitorCommand::Request(request)) => step == LaneStep::Decode(request),
                Some(MonitorCommand::Cancel) => step is Idle,
                Some(MonitorCommand::Release) => step is ReleaseSessions,
                Some(MonitorCommand::Shutdown) => step is Stop,
                None => step is Idle,
            },
    {
        if disconnected {
            return LaneStep::Stop;
        }
        match command {
            Some(MonitorCommand::Request(request)) => LaneStep::Decode(request),
            Some(MonitorCommand::Cancel) => LaneStep::Idle,
            Some(MonitorCommand::Release) => LaneStep::ReleaseSessions,
            Some(MonitorCommand::Shutdown) => LaneStep::Stop,
            None => LaneStep::Idle,
        }
    }

    /// Decides over the result of `request`, and keeps what is left to serve.
    pub fn finish(
        &mut self,
        request: DecodeRequest,
        event: Option<DecodeEvent>,
        deferred: bool,
        command: Option<MonitorCommand>,
    ) -> (settlement: Settlement)
        ensures
            settlement.publish == still_wanted(request@, event, deferred, command_model(command)),
            settlement.next is None,
            final(self).pending() == left_to_serve(
                request@,
                event,
                deferred,
                command_model(command),
            ),
            final(self).observed_reset() == old(self).observed_reset(),
            settlement.wait == (command is None && deferred),
            settlement.release_sessions == (command is Some && (command->0 is Release
                || command->0 is Shutdown)),
            settlement.stop == (command is Some && command->0 is Shutdown),
    {
        let mut settlement = settle(request, event, deferred, command);
        self.pending = settlement.next.take();
        settlement
    }
}

/// The latest request wins: whatever was decoded meanwhile, the newest request is either served
/// next or answered by the very result that is published.
pub proof fn law_newest_request_is_never_lost(
    request: RequestModel,
    event: Option<DecodeEvent>,
    deferred: bool,
    newer: RequestModel,
)
    ensures
        ({
            let command = Some(CommandModel::Request(newer));
            ||| left_to_serve(request, event, deferred, command) == Some(newer)
            ||| left_to_serve(request, event, deferred, command) is None && completes(
                still_wanted(request, event, deferred, command),
                newer.request_id,
            )
        }),
{
}

/// Output of an overtaken generation is never published, and a cancelled request leaves neither
/// a result nor work.
pub proof fn law_overtaken_output_is_dropped(
    request: RequestModel,
    event: Option<DecodeEvent>,
    deferred: bool,
    newer: RequestModel,
)
    ensures
        !same_generation(request, newer) ==> still_wanted(
            request,
            event,
            deferred,
            Some(CommandModel::Request(newer)),
        ) is None,
        still_wanted(request, event, deferred, Some(CommandModel::Cancel)) is None,
        left_to_serve(request, event, deferred, Some(CommandModel::Cancel)) is None,
{
}

/// A request that capacity put off is kept until it is served or overtaken.
pub proof fn law_deferred_request_is_retried(request: RequestModel, event: Option<DecodeEvent>)
    ensures
        left_to_serve(request, event, true, None) == Some(request),
        still_wanted(request, event, true, None) is None,
{
}

/// A result is published exactly where nothing overtook it: no command came and it was not put off,
/// or the command is a request that the same traversal serves. Then it is published unchanged.
pub proof fn law_results_are_published_unless_overtaken(
    request: RequestModel,
    event: Option<DecodeEvent>,
    deferred: bool,
    newer: RequestModel,
)
    ensures
        still_wanted(request, event, false, None) == event,
        still_wanted(request, event, true, None) is None,
        still_wanted(request, event, deferred, Some(CommandModel::Release)) is None,
        still_wanted(request, event, deferred, Some(CommandModel::Shutdown)) is None,
        still_wanted(request, event, deferred, Some(CommandModel::Cancel)) is None,
        ({
            let published = still_wanted(
                request,
                event,
                deferred,
                Some(CommandModel::Request(newer)),
            );
            &&& published is Some ==> published == event && newer.project_epoch
                == request.project_epoch && newer.media_id == request.media_id && newer.path
                == request.path && newer.width == request.width && newer.height == request.height
                && newer.acceleration == request.acceleration
            &&& newer == (RequestModel {
                request_id: newer.request_id,
                cache_epoch: newer.cache_epoch,
                source_tick: newer.source_tick,
                ..request
            }) ==> published == event
        }),
{
    crate::decode::request::law_generation_fixes_what_is_decoded(request, newer);
}

/// Nothing is served twice and nothing is forgotten: after a served request only a newer one is
/// left, unless the result itself carries the newer one's identity and what it decoded is what
/// that one asked for.
pub proof fn law_only_newer_work_is_left(
    request: RequestModel,
    event: Option<DecodeEvent>,
    deferred: bool,
    newer: RequestModel,
)
    ensures
        left_to_serve(request, event, false, None) is None,
        left_to_serve(request, event, deferred, Some(CommandModel::Release)) is None,
        left_to_serve(request, event, deferred, Some(CommandModel::Shutdown)) is None,
        left_to_serve(request, event, deferred, Some(CommandModel::Cancel)) is None,
        ({
            let left = left_to_serve(request, event, deferred, Some(CommandModel::Request(newer)));
            let answered = match event {
                Some(DecodeEvent::Frame(frame)) => frame.request_id == newer.request_id,
                Some(DecodeEvent::Error(error)) => error.request_id == newer.request_id,
                None => false,
            };
            &&& left is None ==> answered && newer.project_epoch == request.project_epoch
                && newer.media_id == request.media_id && newer.path == request.path
                && newer.acceleration == request.acceleration
            &&& left is Some ==> left == Some(newer)
            &&& !answered ==> left == Some(newer)
            &&& answered && newer == (RequestModel {
                request_id: newer.request_id,
                cache_epoch: newer.cache_epoch,
                source_tick: newer.source_tick,
                ..request
            }) ==> left is None
        }),
{
    crate::decode::request::law_generation_fixes_what_is_decoded(request, newer);
}

/// What becomes of a served request: see which command came meanwhile. None: the result is published, or
/// where capacity was short the request waits to be served again. One that ends the work: nothing is
/// published or left. A newer request: it is left unless the result answers it, and the result is
/// published only where both are for the same project, medium, file, size and acceleration.
pub proof fn law_settlement_follows_the_command(
    request: DecodeRequest,
    event: Option<DecodeEvent>,
    deferred: bool,
    command: Option<MonitorCommand>,
    settlement: Settlement,
)
    requires
        call_ensures(settle, (request, event, deferred, command), settlement),
    ensures
        command is None ==> {
            &&& settlement.publish == (if deferred {
                None
            } else {
                event
            })
            &&& settlement.next is Some <==> deferred
            &&& settlement.next matches Some(next) ==> next@ == request@
            &&& settlement.wait <==> deferred
            &&& !settlement.release_sessions && !settlement.stop
        },
        command matches Some(MonitorCommand::Cancel) ==> settlement.publish is None
            && settlement.next is None && !settlement.wait && !settlement.release_sessions
            && !settlement.stop,
        command matches Some(MonitorCommand::Release) ==> settlement.publish is None
            && settlement.next is None && !settlement.wait && settlement.release_sessions
            && !settlement.stop,
        command matches Some(MonitorCommand::Shutdown) ==> settlement.publish is None
            && settlement.next is None && !settlement.wait && settlement.release_sessions
            && settlement.stop,
        command matches Some(MonitorCommand::Request(newer)) ==> {
            let answered = match event {
                Some(DecodeEvent::Frame(frame)) => frame.request_id == newer.request_id,
                Some(DecodeEvent::Error(error)) => error.request_id == newer.request_id,
                None => false,
            };
            let alike = newer.project_epoch == request.project_epoch && newer.media_id
                == request.media_id && newer.path@ == request.path@ && newer.width == request.width
                && newer.height == request.height && newer.is_scrubbing == request.is_scrubbing
                && newer.prewarm_scrub_workers == request.prewarm_scrub_workers
                && newer.high_quality_scaling == request.high_quality_scaling
                && newer.progressive_scrub_frames == request.progressive_scrub_frames
                && newer.source_frame_duration_tick == request.source_frame_duration_tick
                && newer.acceleration == request.acceleration;
            &&& alike ==> settlement.publish == event
            &&& !alike ==> settlement.publish is None
            &&& settlement.next is None <==> alike && answered
            &&& settlement.next matches Some(next) ==> next@ == newer@
            &&& !settlement.wait && !settlement.release_sessions && !settlement.stop
        },
{
    if let Some(MonitorCommand::Request(newer)) = command {
        crate::decode::request::law_generation_fixes_what_is_decoded(request@, newer@);
    }
}

/// What a woken lane does is what its slot says, unless nobody can wake it any more.
pub proof fn law_woken_lane_follows_its_slot(
    disconnected: bool,
    command: Option<MonitorCommand>,
    step: LaneStep,
)
    requires
        call_ensures(LaneScheduler::receive, (disconnected, command), step),
    ensures
        step is Stop <==> disconnected || (command matches Some(MonitorCommand::Shutdown)),
        !disconnected ==> (step is ReleaseSessions <==> (command matches Some(
            MonitorCommand::Release,
        ))),
        !disconnected ==> (step is Idle <==> command is None || (command matches Some(
            MonitorCommand::Cancel,
        ))),
        !disconnected ==> (command matches Some(MonitorCommand::Request(request)) ==> step
            == LaneStep::Decode(request)),
{
}

/// A lane keeps what is left to serve and turns to it first; a reset is carried out once.
pub proof fn law_left_work_is_turned_to_first(
    finishing: &mut LaneScheduler,
    request: DecodeRequest,
    event: Option<DecodeEvent>,
    deferred: bool,
    newer: DecodeRequest,
    settlement: Settlement,
    turning: &mut LaneScheduler,
    next: Option<DecodeRequest>,
)
    requires
        call_ensures(
            LaneScheduler::finish,
            (finishing, request, event, deferred, Some(MonitorCommand::Request(newer))),
            settlement,
        ),
        call_ensures(LaneScheduler::take_pending, (turning,), next),
        *final(finishing) == *old(turning),
        newer.project_epoch != request.project_epoch || newer.media_id != request.media_id
            || newer.path@ != request.path@ || event is None,
    ensures
        next matches Some(turned) && turned@ == newer@,
        event is Some ==> settlement.publish is None,
        final(turning).pending() is None,
{
    crate::decode::request::law_generation_fixes_what_is_decoded(request@, newer@);
}

/// A reset is carried out exactly once for each that is asked for.
pub proof fn law_resets_are_carried_out_once(
    first: &mut LaneScheduler,
    second: &mut LaneScheduler,
    requested: u64,
    reset: bool,
    again: bool,
)
    requires
        call_ensures(LaneScheduler::observe_reset, (first, requested), reset),
        call_ensures(LaneScheduler::observe_reset, (second, requested), again),
        *final(first) == *old(second),
    ensures
        reset <==> requested != old(first).observed_reset(),
        !again,
        final(second).pending() == old(first).pending(),
{
}

} // verus!
