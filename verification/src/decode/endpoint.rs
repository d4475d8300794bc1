//! One monitor lane that draws on the shared source coordinator.
//!
//! The lane holds at most one lease. A command for it may end the lease, move it to another
//! source, or put the request off until capacity is free. Starting an actor's thread and waking
//! it is done outside; each step says which of the two is due.
use crate::decode::coordinator::{CoordinatorModel, LeaseOutcome, MonitorSourceCoordinator};
use crate::decode::lane::{left_to_serve, settle, still_wanted};
use crate::decode::request::{
    command_model, CommandModel, DecodeEvent, DecodeRequest, DecoderClosed, MonitorCommand,
    RequestModel,
};
use crate::decode::run::{error_event, reports_error};
use crate::decode::session_pool::{lane_of_worker, worker_lane, MonitorSessionLane};
use crate::decode::source_actor::{source_of, MonitorSourceKey, SourceKeyModel};
use vstd::prelude::*;

verus! {

/// A request that waits for capacity.
#[derive(Debug)]
pub struct DeferredDecodeRequest {
    pub request: DecodeRequest,
    pub speculative: bool,
}

/// The lease of one actor. Its command slot belongs to this lease alone, so a retiring actor
/// cannot steal a newer source's request.
#[derive(Debug)]
pub struct CoordinatorLease {
    pub key: MonitorSourceKey,
    pub lane: MonitorSessionLane,
    pub client: u64,
    pub commands: Option<MonitorCommand>,
    /// Retains the exact latest command even after the actor has consumed its command slot.
    pub request: DecodeRequest,
    /// True only for paused prewarm work. Reverse scrub lanes are visible work and stay protected.
    pub speculative: bool,
}

/// The mathematical value of a [`CoordinatorLease`].
pub struct LeaseModel {
    pub key: SourceKeyModel,
    pub lane: MonitorSessionLane,
    pub client: u64,
    pub commands: Option<CommandModel>,
    pub request: RequestModel,
    pub speculative: bool,
}

/// The mathematical value of a [`CoordinatorEndpoint`].
#[verifier::ext_equal]
pub struct EndpointModel {
    pub active: Option<LeaseModel>,
    /// The request that waits for capacity, and whether it is speculative.
    pub deferred: Option<(RequestModel, bool)>,
}

impl View for CoordinatorLease {
    type V = LeaseModel;

    open spec fn view(&self) -> LeaseModel {
        LeaseModel {
            key: self.key@,
            lane: self.lane,
            client: self.client,
            commands: command_model(self.commands),
            request: self.request@,
            speculative: self.speculative,
        }
    }
}

/// What is due after a step of an endpoint.
#[derive(Debug)]
pub enum SendStep {
    /// Nothing: the command was taken or refused. Where `session_ended` is set, the lane holds
    /// no session any more.
    Done { result: Result<(), DecoderClosed>, session_ended: bool },
    /// Start the thread of this actor, then report with [`CoordinatorEndpoint::started`] or
    /// [`CoordinatorEndpoint::start_failed`].
    Start { actor: u64, client: u64, request: DecodeRequest },
    /// Wake this actor, then report with [`CoordinatorEndpoint::woken`].
    Wake { actor: u64 },
}

/// The mathematical value of a [`SendStep`].
pub enum StepModel {
    Done { result: Result<(), DecoderClosed>, session_ended: bool },
    Start { actor: u64, client: u64, request: RequestModel },
    Wake { actor: u64 },
}

impl View for SendStep {
    type V = StepModel;

    open spec fn view(&self) -> StepModel {
        match self {
            SendStep::Done { result, session_ended } => StepModel::Done {
                result: *result,
                session_ended: *session_ended,
            },
            SendStep::Start { actor, client, request } => StepModel::Start {
                actor: *actor,
                client: *client,
                request: request@,
            },
            SendStep::Wake { actor } => StepModel::Wake { actor: *actor },
        }
    }
}

impl EndpointModel {
    /// The actor that retires when the lease of this lane ends.
    pub open spec fn retires(self, coordinator: CoordinatorModel) -> Option<u64> {
        match self.active {
            Some(lease) => coordinator.retires(lease.key, lease.lane, lease.client),
            None => None,
        }
    }

    /// The coordinator once the lease of this lane has ended.
    pub open spec fn given_back(self, coordinator: CoordinatorModel) -> CoordinatorModel {
        match self.active {
            Some(lease) => coordinator.lease_ended(lease.key, lease.lane, lease.client),
            None => coordinator,
        }
    }

    /// Whether the lane holds a lease for what `request` reads.
    pub open spec fn holds(self, key: SourceKeyModel, lane: MonitorSessionLane) -> bool {
        self.active matches Some(lease) && lease.key == key && lease.lane == lane
    }

    /// Whether `client` still acts for this lane.
    pub open spec fn bound_to(self, client: u64) -> bool {
        self.active matches Some(lease) && lease.client == client
    }
}

/// The lane once it holds a lease for `request`, and what is due then.
pub open spec fn installed(
    coordinator: CoordinatorModel,
    client: u64,
    lane: MonitorSessionLane,
    request: RequestModel,
    speculative: bool,
) -> (EndpointModel, StepModel) {
    let key = source_of(request);
    let lease = LeaseModel {
        key,
        lane,
        client,
        commands: Some(CommandModel::Request(request)),
        request,
        speculative,
    };
    if !coordinator.has_actor(key, lane) {
        (
            EndpointModel { active: None, deferred: None },
            StepModel::Done { result: Err(DecoderClosed::Closed), session_ended: true },
        )
    } else if coordinator.admits(key, lane, client) {
        (
            EndpointModel { active: Some(lease), deferred: None },
            StepModel::Wake { actor: coordinator.actors[coordinator.actor_at(key, lane)].id },
        )
    } else {
        (
            EndpointModel { active: Some(lease), deferred: Some((request, speculative)) },
            StepModel::Done {
                result: Err(DecoderClosed::SourceCapacityDeferred),
                session_ended: false,
            },
        )
    }
}

/// What becomes of a command for a lane: the lane, the coordinator, what is due, and which
/// actor retires.
pub open spec fn sent(
    endpoint: EndpointModel,
    coordinator: CoordinatorModel,
    worker_index: int,
    command: CommandModel,
    speculative: bool,
) -> (EndpointModel, CoordinatorModel, StepModel, Option<u64>) {
    let lane = lane_of_worker(worker_index);
    match command {
        CommandModel::Release | CommandModel::Shutdown => (
            EndpointModel { active: None, ..endpoint },
            endpoint.given_back(coordinator),
            StepModel::Done { result: Ok(()), session_ended: true },
            endpoint.retires(coordinator),
        ),
        CommandModel::Cancel => match endpoint.active {
            None => (
                EndpointModel { deferred: None, ..endpoint },
                coordinator,
                StepModel::Done { result: Ok(()), session_ended: false },
                None,
            ),
            Some(lease) => (
                EndpointModel {
                    active: Some(LeaseModel { commands: Some(CommandModel::Cancel), ..lease }),
                    deferred: None,
                },
                coordinator.enqueued(lease.key, lease.lane, lease.client),
                if !coordinator.has_actor(lease.key, lease.lane) {
                    StepModel::Done { result: Err(DecoderClosed::Closed), session_ended: false }
                } else if coordinator.admits(lease.key, lease.lane, lease.client) {
                    StepModel::Wake {
                        actor: coordinator.actors[coordinator.actor_at(lease.key, lease.lane)].id,
                    }
                } else {
                    StepModel::Done {
                        result: Err(DecoderClosed::SourceCapacityDeferred),
                        session_ended: false,
                    }
                },
                None,
            ),
        },
        CommandModel::Request(request) => {
            let key = source_of(request);
            if endpoint.holds(key, lane) {
                let client = endpoint.active->0.client;
                let (next, step) = installed(coordinator, client, lane, request, speculative);
                (next, coordinator.enqueued(key, lane, client), step, None)
            } else {
                let free = endpoint.given_back(coordinator);
                let retired = endpoint.retires(coordinator);
                match free.lease_outcome(key, lane) {
                    LeaseOutcome::Capacity => (
                        EndpointModel { active: None, deferred: Some((request, speculative)) },
                        free,
                        StepModel::Done {
                            result: Err(DecoderClosed::SourceCapacityDeferred),
                            session_ended: true,
                        },
                        retired,
                    ),
                    LeaseOutcome::Existing { actor, client } => {
                        let leased = free.leased(key, lane);
                        let (next, step) = installed(leased, client, lane, request, speculative);
                        (next, leased.enqueued(key, lane, client), step, retired)
                    },
                    LeaseOutcome::Start { actor, client } => (
                        EndpointModel { active: None, ..endpoint },
                        free.leased(key, lane),
                        StepModel::Start { actor, client, request },
                        retired,
                    ),
                }
            }
        },
    }
}

/// What an actor does with the result of a client that it has served.
#[derive(Debug)]
pub struct ClientSettlement {
    /// The result to publish.
    pub publish: Option<DecodeEvent>,
    /// Whether the client has to be queued again.
    pub requeue: bool,
    /// Whether to wait before that.
    pub wait: bool,
}

/// One monitor lane that draws on the shared source coordinator.
#[derive(Debug)]
pub struct CoordinatorEndpoint {
    active: Option<CoordinatorLease>,
    deferred_request: Option<DeferredDecodeRequest>,
}

impl View for CoordinatorEndpoint {
    type V = EndpointModel;

    closed spec fn view(&self) -> EndpointModel {
        EndpointModel {
            active: match self.active {
                Some(lease) => Some(lease@),
                None => None,
            },
            deferred: match self.deferred_request {
                Some(deferred) => Some((deferred.request@, deferred.speculative)),
                None => None,
            },
        }
    }
}

impl CoordinatorEndpoint {
    pub fn new() -> (endpoint: Self)
        ensures
            endpoint@ == (EndpointModel { active: None, deferred: None }),
    {
        CoordinatorEndpoint { active: None, deferred_request: None }
    }

    /// Ends the lease of this lane, if it holds one.
    fn give_back(&mut self, coordinator: &mut MonitorSourceCoordinator) -> (retired: Option<u64>)
        requires
            old(coordinator)@.valid(),
        ensures
            final(coordinator)@.valid(),
            final(self)@ == (EndpointModel { active: None, ..old(self)@ }),
            final(coordinator)@ == old(self)@.given_back(old(coordinator)@),
            retired == old(self)@.retires(old(coordinator)@),
    {
        match self.active.take() {
            Some(lease) => coordinator.end_lease(&lease.key, lease.lane, lease.client),
            None => None,
        }
    }

    /// Puts `request` into the command slot of a lease and queues its client.
    fn install(
        &mut self,
        coordinator: &mut MonitorSourceCoordinator,
        client: u64,
        lane: MonitorSessionLane,
        request: DecodeRequest,
        speculative: bool,
    ) -> (step: SendStep)
        requires
            old(coordinator)@.valid(),
        ensures
            final(coordinator)@.valid(),
            (final(self)@, step@) == installed(
                old(coordinator)@,
                client,
                lane,
                request@,
                speculative,
            ),
            final(coordinator)@ == old(coordinator)@.enqueued(source_of(request@), lane, client),
    {
        let key = MonitorSourceKey::from_request(&request);
        match coordinator.enqueue(&key, lane, client) {
            Ok(actor) => {
                let retained = request.clone();
                self.deferred_request = None;
                self.active = Some(
                    CoordinatorLease {
                        key,
                        lane,
                        client,
                        commands: Some(MonitorCommand::Request(request)),
                        request: retained,
                        speculative,
                    },
                );
                SendStep::Wake { actor }
            },
            Err(DecoderClosed::SourceCapacityDeferred) => {
                let retained = request.clone();
                self.deferred_request =
                Some(DeferredDecodeRequest { request: request.clone(), speculative });
                self.active = Some(
                    CoordinatorLease {
                        key,
                        lane,
                        client,
                        commands: Some(MonitorCommand::Request(request)),
                        request: retained,
                        speculative,
                    },
                );
                SendStep::Done {
                    result: Err(DecoderClosed::SourceCapacityDeferred),
                    session_ended: false,
                }
            },
            Err(DecoderClosed::Closed) => {
                self.deferred_request = None;
                self.active = None;
                SendStep::Done { result: Err(DecoderClosed::Closed), session_ended: true }
            },
        }
    }

    /// Takes a command for the lane. The second result is an actor that retires: it is told to
    /// shut down before anything else.
    pub fn send(
        &mut self,
        coordinator: &mut MonitorSourceCoordinator,
        worker_index: usize,
        command: MonitorCommand,
        speculative: bool,
    ) -> (outcome: (SendStep, Option<u64>))
        requires
            old(coordinator)@.valid(),
        ensures
            final(coordinator)@.valid(),
            (final(self)@, final(coordinator)@, outcome.0@, outcome.1) == sent(
                old(self)@,
                old(coordinator)@,
                worker_index as int,
                command@,
                speculative,
            ),
    {
        match command {
            MonitorCommand::Release | MonitorCommand::Shutdown => {
                let retired = self.give_back(coordinator);
                (SendStep::Done { result: Ok(()), session_ended: true }, retired)
            },
            MonitorCommand::Cancel => {
                self.deferred_request = None;
                match self.active.take() {
                    None => (SendStep::Done { result: Ok(()), session_ended: false }, None),
                    Some(lease) => {
                        let queued = coordinator.enqueue(&lease.key, lease.lane, lease.client);
                        self.active = Some(
                            CoordinatorLease { commands: Some(MonitorCommand::Cancel), ..lease },
                        );
                        let step = match queued {
                            Ok(actor) => SendStep::Wake { actor },
                            Err(error) => SendStep::Done {
                                result: Err(error),
                                session_ended: false,
                            },
                        };
                        (step, None)
                    },
                }
            },
            MonitorCommand::Request(request) => {
                let lane = worker_lane(worker_index);
                let key = MonitorSourceKey::from_request(&request);
                let held = match &self.active {
                    Some(lease) => if lease.lane == lane && lease.key.same_source(&key) {
                        Some(lease.client)
                    } else {
                        None
                    },
                    None => None,
                };
                if let Some(client) = held {
                    return (self.install(coordinator, client, lane, request, speculative), None);
                }
                let retired = self.give_back(coordinator);
                match coordinator.lease(&key, lane) {
                    LeaseOutcome::Capacity => {
                        self.deferred_request =
                        Some(DeferredDecodeRequest { request, speculative });
                        (
                            SendStep::Done {
                                result: Err(DecoderClosed::SourceCapacityDeferred),
                                session_ended: true,
                            },
                            retired,
                        )
                    },
                    LeaseOutcome::Existing { actor, client } => {
                        (self.install(coordinator, client, lane, request, speculative), retired)
                    },
                    LeaseOutcome::Start { actor, client } => {
                        (SendStep::Start { actor, client, request }, retired)
                    },
                }
            },
        }
    }

    /// Goes on once the actor for `request` runs.
    pub fn started(
        &mut self,
        coordinator: &mut MonitorSourceCoordinator,
        worker_index: usize,
        client: u64,
        request: DecodeRequest,
        speculative: bool,
    ) -> (step: SendStep)
        requires
            old(coordinator)@.valid(),
        ensures
            final(coordinator)@.valid(),
            (final(self)@, step@) == installed(
                old(coordinator)@,
                client,
                lane_of_worker(worker_index as int),
                request@,
                speculative,
            ),
            final(coordinator)@ == old(coordinator)@.enqueued(
                source_of(request@),
                lane_of_worker(worker_index as int),
                client,
            ),
    {
        self.install(coordinator, client, worker_lane(worker_index), request, speculative)
    }

    /// Goes on once the actor for `request` could not be started: the lane holds no session, and
    /// the event is published. The command itself counts as taken.
    pub fn start_failed(
        &mut self,
        coordinator: &mut MonitorSourceCoordinator,
        worker_index: usize,
        request: &DecodeRequest,
        message: String,
    ) -> (event: DecodeEvent)
        requires
            old(coordinator)@.valid(),
        ensures
            final(coordinator)@.valid(),
            final(coordinator)@ == old(coordinator)@.start_failed(
                source_of(request@),
                lane_of_worker(worker_index as int),
            ),
            final(self)@ == (EndpointModel { deferred: None, ..old(self)@ }),
            reports_error(Some(event), request@, message@),
    {
        let key = MonitorSourceKey::from_request(request);
        coordinator.start_failed(&key, worker_lane(worker_index));
        self.deferred_request = None;
        error_event(request, message)
    }

    /// Goes on once the actor was woken, or turned out to have ended. A lane that was to serve a
    /// request gives its lease of a dead actor back; one that was to cancel keeps it.
    pub fn woken(
        &mut self,
        coordinator: &mut MonitorSourceCoordinator,
        cancelling: bool,
        connected: bool,
    ) -> (outcome: (SendStep, Option<u64>))
        requires
            old(coordinator)@.valid(),
        ensures
            final(coordinator)@.valid(),
            connected ==> outcome.0@ == (StepModel::Done { result: Ok(()), session_ended: false }),
            !connected ==> outcome.0@ == (StepModel::Done {
                result: Err(DecoderClosed::Closed),
                session_ended: !cancelling,
            }),
            connected || cancelling ==> final(self)@ == old(self)@ && final(coordinator)@ == old(coordinator)@ && outcome.1 is None,
            !connected && !cancelling ==> final(self)@ == (EndpointModel {
                active: None,
                ..old(self)@
            }) && final(coordinator)@ == old(self)@.given_back(old(coordinator)@) && outcome.1
                == old(self)@.retires(old(coordinator)@),
    {
        if connected {
            return (SendStep::Done { result: Ok(()), session_ended: false }, None);
        }
        let retired = if cancelling {
            None
        } else {
            self.give_back(coordinator)
        };
        (
            SendStep::Done { result: Err(DecoderClosed::Closed), session_ended: !cancelling },
            retired,
        )
    }

    /// Yields the lease while retaining the exact latest request for a later retry. Returns
    /// whether there was one, and the actor that retires.
    pub fn defer_lease(&mut self, coordinator: &mut MonitorSourceCoordinator) -> (outcome: (
        bool,
        Option<u64>,
    ))
        requires
            old(coordinator)@.valid(),
        ensures
            final(coordinator)@.valid(),
            outcome.0 == (old(self)@.active is Some),
            outcome.1 == old(self)@.retires(old(coordinator)@),
            final(coordinator)@ == old(self)@.given_back(old(coordinator)@),
            final(self)@ == (EndpointModel {
                active: None,
                deferred: match old(self)@.active {
                    Some(lease) => Some((lease.request, lease.speculative)),
                    None => old(self)@.deferred,
                },
            }),
    {
        match self.active.take() {
            Some(lease) => {
                let retired = coordinator.end_lease(&lease.key, lease.lane, lease.client);
                self.deferred_request =
                Some(
                    DeferredDecodeRequest {
                        request: lease.request,
                        speculative: lease.speculative,
                    },
                );
                (true, retired)
            },
            None => (false, None),
        }
    }

    /// Gives up speculative work: the lease if it is speculative, and what was put off if that
    /// is. Returns whether a lease ended, and the actor that retires.
    pub fn release_speculative(&mut self, coordinator: &mut MonitorSourceCoordinator) -> (outcome: (
        bool,
        Option<u64>,
    ))
        requires
            old(coordinator)@.valid(),
        ensures
            final(coordinator)@.valid(),
            final(self)@.deferred == (match old(self)@.deferred {
                Some((request, speculative)) if speculative => None,
                other => other,
            }),
            ({
                let released = old(self)@.active matches Some(lease) && lease.speculative;
                &&& outcome.0 == released
                &&& final(self)@.active == (if released {
                    None
                } else {
                    old(self)@.active
                })
                &&& outcome.1 == (if released {
                    old(self)@.retires(old(coordinator)@)
                } else {
                    None
                })
                &&& final(coordinator)@ == (if released {
                    old(self)@.given_back(old(coordinator)@)
                } else {
                    old(coordinator)@
                })
            }),
    {
        let drop_deferred = match &self.deferred_request {
            Some(deferred) => deferred.speculative,
            None => false,
        };
        if drop_deferred {
            self.deferred_request = None;
        }
        let speculative = match &self.active {
            Some(lease) => lease.speculative,
            None => false,
        };
        if speculative {
            let retired = self.give_back(coordinator);
            (true, retired)
        } else {
            (false, None)
        }
    }

    /// The request that waits for capacity, which stays where it is.
    pub fn deferred(&self) -> (deferred: Option<(DecodeRequest, bool)>)
        ensures
            match deferred {
                Some((request, speculative)) => self@.deferred == Some((request@, speculative)),
                None => self@.deferred is None,
            },
    {
        match &self.deferred_request {
            Some(deferred) => Some((deferred.request.clone(), deferred.speculative)),
            None => None,
        }
    }

    pub fn holds_lease(&self) -> (held: bool)
        ensures
            held == (self@.active is Some),
    {
        self.active.is_some()
    }

    /// The client that acts for this lane.
    pub fn leased_client(&self) -> (client: Option<u64>)
        ensures
            client == (match self@.active {
                Some(lease) => Some(lease.client),
                None => None,
            }),
    {
        match &self.active {
            Some(lease) => Some(lease.client),
            None => None,
        }
    }

    /// Whether `client` still acts for this lane.
    pub fn client_is_bound(&self, client: u64) -> (bound: bool)
        ensures
            bound == self@.bound_to(client),
    {
        match &self.active {
            Some(lease) => lease.client == client,
            None => false,
        }
    }

    /// Takes the request that waits for `client`. Whatever else waited in the slot is gone.
    pub fn take_request(&mut self, client: u64) -> (request: Option<DecodeRequest>)
        ensures
            ({
                let slot = if old(self)@.bound_to(client) {
                    old(self)@.active->0.commands
                } else {
                    None
                };
                &&& match slot {
                    Some(CommandModel::Request(waiting)) => request matches Some(request)
                        && request@ == waiting,
                    _ => request is None,
                }
                &&& final(self)@ == (if old(self)@.bound_to(client) {
                    EndpointModel {
                        active: Some(LeaseModel { commands: None, ..old(self)@.active->0 }),
                        ..old(self)@
                    }
                } else {
                    old(self)@
                })
            }),
    {
        if !self.client_is_bound(client) {
            return None;
        }
        match self.active.take() {
            None => None,
            Some(lease) => {
                let waiting = lease.commands;
                self.active = Some(CoordinatorLease { commands: None, ..lease });
                match waiting {
                    Some(MonitorCommand::Request(request)) => Some(request),
                    _ => None,
                }
            },
        }
    }

    /// What waits for `client` while it is served; a lease that ended reads as a release.
    pub fn waiting_command(&self, client: u64) -> (waiting: Option<MonitorCommand>)
        ensures
            command_model(waiting) == (if self@.bound_to(client) {
                self@.active->0.commands
            } else {
                Some(CommandModel::Release)
            }),
    {
        match &self.active {
            Some(lease) => if lease.client == client {
                match &lease.commands {
                    Some(MonitorCommand::Request(request)) => Some(
                        MonitorCommand::Request(request.clone()),
                    ),
                    Some(MonitorCommand::Cancel) => Some(MonitorCommand::Cancel),
                    Some(MonitorCommand::Release) => Some(MonitorCommand::Release),
                    Some(MonitorCommand::Shutdown) => Some(MonitorCommand::Shutdown),
                    None => None,
                }
            } else {
                Some(MonitorCommand::Release)
            },
            None => Some(MonitorCommand::Release),
        }
    }

    /// Decides over the result of `client`'s request. What is left to serve goes back into the
    /// command slot. A client whose lease has ended gets nothing.
    pub fn settle_client(
        &mut self,
        client: u64,
        request: DecodeRequest,
        event: Option<DecodeEvent>,
        deferred: bool,
    ) -> (settlement: ClientSettlement)
        ensures
            !old(self)@.bound_to(client) ==> {
                &&& settlement == (ClientSettlement { publish: None, requeue: false, wait: false })
                &&& final(self)@ == old(self)@
            },
            old(self)@.bound_to(client) ==> {
                let lease = old(self)@.active->0;
                let next = left_to_serve(request@, event, deferred, lease.commands);
                &&& settlement.publish == still_wanted(request@, event, deferred, lease.commands)
                &&& settlement.requeue == (next is Some)
                &&& settlement.wait == (lease.commands is None && deferred)
                &&& final(self)@ == (EndpointModel {
                    active: Some(
                        LeaseModel {
                            commands: match next {
                                Some(next) => Some(CommandModel::Request(next)),
                                None => None,
                            },
                            ..lease
                        },
                    ),
                    ..old(self)@
                })
            },
    {
        if !self.client_is_bound(client) {
            return ClientSettlement { publish: None, requeue: false, wait: false };
        }
        match self.active.take() {
            None => ClientSettlement { publish: None, requeue: false, wait: false },
            Some(lease) => {
                let settlement = settle(request, event, deferred, lease.commands);
                let requeue: bool = settlement.next.is_some();
                let commands = match settlement.next {
                    Some(next) => Some(MonitorCommand::Request(next)),
                    None => None,
                };
                self.active = Some(
                    CoordinatorLease {
                        key: lease.key,
                        lane: lease.lane,
                        client: lease.client,
                        commands,
                        request: lease.request,
                        speculative: lease.speculative,
                    },
                );
                ClientSettlement { publish: settlement.publish, requeue, wait: settlement.wait }
            },
        }
    }
}

/// A request is never dropped for want of capacity: it is put off, and stays put off until it
/// is served, overtaken or cancelled.
pub proof fn law_refused_request_is_retained(
    endpoint: EndpointModel,
    coordinator: CoordinatorModel,
    worker_index: int,
    request: RequestModel,
    speculative: bool,
)
    ensures
        ({
            let (next, _, step, _) = sent(
                endpoint,
                coordinator,
                worker_index,
                CommandModel::Request(request),
                speculative,
            );
            step matches StepModel::Done {
                result: Err(DecoderClosed::SourceCapacityDeferred),
                session_ended: _,
            } ==> next.deferred == Some((request, speculative))
        }),
{
}

/// A release leaves no retry behind that was not there before, and a cancel leaves none at all.
pub proof fn law_release_creates_no_retry(
    endpoint: EndpointModel,
    coordinator: CoordinatorModel,
    worker_index: int,
    speculative: bool,
)
    ensures
        sent(endpoint, coordinator, worker_index, CommandModel::Release, speculative).0.deferred
            == endpoint.deferred,
        sent(endpoint, coordinator, worker_index, CommandModel::Release, speculative).0.active
            is None,
        sent(endpoint, coordinator, worker_index, CommandModel::Cancel, speculative).0.deferred
            is None,
        sent(endpoint, coordinator, worker_index, CommandModel::Cancel, speculative).0.active
            is Some == endpoint.active is Some,
{
}

/// A newer request for the same source keeps the lease, and with it the open session; the
/// command slot and the retained request hold the newer one alone.
pub proof fn law_same_source_keeps_its_lease(
    endpoint: EndpointModel,
    coordinator: CoordinatorModel,
    worker_index: int,
    request: RequestModel,
    speculative: bool,
)
    requires
        endpoint.holds(source_of(request), lane_of_worker(worker_index)),
        coordinator.has_actor(source_of(request), lane_of_worker(worker_index)),
    ensures
        ({
            let (next, _, _, retired) = sent(
                endpoint,
                coordinator,
                worker_index,
                CommandModel::Request(request),
                speculative,
            );
            &&& retired is None
            &&& next.bound_to(endpoint.active->0.client)
            &&& next.active->0.commands == Some(CommandModel::Request(request))
            &&& next.active->0.request == request
        }),
{
}

/// A command that ends a lane's work ends its lease and leaves what was put off; the lane then holds
/// no session. The lease ends at the coordinator with it, and nothing happens there without one.
pub proof fn law_release_ends_the_lease(
    endpoint: EndpointModel,
    coordinator: CoordinatorModel,
    worker_index: int,
    speculative: bool,
    shutdown: bool,
)
    ensures
        ({
            let command = if shutdown {
                CommandModel::Shutdown
            } else {
                CommandModel::Release
            };
            let (next, after, step, retired) = sent(
                endpoint,
                coordinator,
                worker_index,
                command,
                speculative,
            );
            &&& next.active is None
            &&& next.deferred == endpoint.deferred
            &&& step == (StepModel::Done { result: Ok(()), session_ended: true })
            &&& endpoint.active is None ==> after == coordinator && retired is None
            &&& endpoint.active matches Some(lease) ==> after == coordinator.lease_ended(
                lease.key,
                lease.lane,
                lease.client,
            ) && retired == coordinator.retires(lease.key, lease.lane, lease.client)
        }),
{
}

/// A cancel clears what was put off, keeps the lease with what it last asked for, and puts itself
/// where a request waited; the actor is woken for it where it still runs and has room.
pub proof fn law_cancel_keeps_the_lease(
    endpoint: EndpointModel,
    coordinator: CoordinatorModel,
    worker_index: int,
    speculative: bool,
)
    ensures
        ({
            let (next, after, step, retired) = sent(
                endpoint,
                coordinator,
                worker_index,
                CommandModel::Cancel,
                speculative,
            );
            &&& next.deferred is None
            &&& retired is None
            &&& endpoint.active is None ==> next.active is None && after == coordinator && step == (
            StepModel::Done { result: Ok(()), session_ended: false })
            &&& endpoint.active matches Some(lease) ==> {
                &&& next.active matches Some(kept) && kept.key == lease.key && kept.lane
                    == lease.lane && kept.client == lease.client && kept.request == lease.request
                    && kept.speculative == lease.speculative && kept.commands == Some(
                    CommandModel::Cancel,
                )
                &&& after == coordinator.enqueued(lease.key, lease.lane, lease.client)
                &&& !coordinator.has_actor(lease.key, lease.lane) ==> step == (StepModel::Done {
                    result: Err(DecoderClosed::Closed),
                    session_ended: false,
                })
                &&& coordinator.has_actor(lease.key, lease.lane) && !coordinator.admits(
                    lease.key,
                    lease.lane,
                    lease.client,
                ) ==> step == (StepModel::Done {
                    result: Err(DecoderClosed::SourceCapacityDeferred),
                    session_ended: false,
                })
                &&& coordinator.has_actor(lease.key, lease.lane) && coordinator.admits(
                    lease.key,
                    lease.lane,
                    lease.client,
                ) ==> step is Wake
            }
        }),
{
}

/// A request for another source gives the old lease back before anything is asked of the
/// coordinator; where that has no room, the request is put off with its role, and the lane holds no
/// session. Where an actor has to be started, the request goes with it, and the lane waits for it
/// without a lease.
pub proof fn law_other_source_gives_its_lease_back(
    endpoint: EndpointModel,
    coordinator: CoordinatorModel,
    worker_index: int,
    request: RequestModel,
    speculative: bool,
)
    requires
        endpoint.active matches Some(lease) ==> lease.key.media_id != request.media_id
            || lease.key.path != request.path || lease.key.acceleration != request.acceleration || (
        lease.lane == MonitorSessionLane::Foreground) != (worker_index == 0),
    ensures
        ({
            let (next, after, step, retired) = sent(
                endpoint,
                coordinator,
                worker_index,
                CommandModel::Request(request),
                speculative,
            );
            let key = SourceKeyModel {
                media_id: request.media_id,
                path: request.path,
                acceleration: request.acceleration,
            };
            let lane = if worker_index == 0 {
                MonitorSessionLane::Foreground
            } else {
                MonitorSessionLane::Background
            };
            let free = match endpoint.active {
                Some(lease) => coordinator.lease_ended(lease.key, lease.lane, lease.client),
                None => coordinator,
            };
            &&& retired == (match endpoint.active {
                Some(lease) => coordinator.retires(lease.key, lease.lane, lease.client),
                None => None,
            })
            &&& free.lease_outcome(key, lane) is Capacity ==> {
                &&& next.active is None
                &&& next.deferred == Some((request, speculative))
                &&& after == free
                &&& step == (StepModel::Done {
                    result: Err(DecoderClosed::SourceCapacityDeferred),
                    session_ended: true,
                })
            }
            &&& free.lease_outcome(key, lane) matches LeaseOutcome::Start { actor, client } ==> {
                &&& next.active is None
                &&& next.deferred == endpoint.deferred
                &&& after == free.leased(key, lane)
                &&& step == (StepModel::Start { actor, client, request })
            }
            &&& free.lease_outcome(key, lane) matches LeaseOutcome::Existing {
                actor,
                client,
            } ==> {
                &&& after == free.leased(key, lane).enqueued(key, lane, client)
                &&& step is Wake ==> next.deferred is None && (next.active matches Some(lease)
                    && lease.client == client && lease.key == key && lease.lane == lane
                    && lease.request == request && lease.speculative == speculative
                    && lease.commands == Some(CommandModel::Request(request)))
            }
        }),
{
}

/// A lane that takes a request on holds it in its slot and retains it, with its role, under the
/// client of its lease; nothing stays put off unless the actor's queue is full, when the request
/// does. An actor that is gone leaves the lane without a lease.
pub proof fn law_installed_request_is_held(
    coordinator: CoordinatorModel,
    client: u64,
    lane: MonitorSessionLane,
    request: RequestModel,
    speculative: bool,
)
    ensures
        ({
            let (next, step) = installed(coordinator, client, lane, request, speculative);
            let key = source_of(request);
            let runs = coordinator.has_actor(key, lane);
            let room = coordinator.admits(key, lane, client);
            &&& runs ==> (next.active matches Some(lease) && lease.key == key && lease.lane == lane
                && lease.client == client && lease.request == request && lease.speculative
                == speculative && lease.commands == Some(CommandModel::Request(request)))
            &&& runs && room ==> next.deferred is None && step == (StepModel::Wake {
                actor: coordinator.actors[coordinator.actor_at(key, lane)].id,
            })
            &&& runs && !room ==> next.deferred == Some((request, speculative)) && step == (
            StepModel::Done {
                result: Err(DecoderClosed::SourceCapacityDeferred),
                session_ended: false,
            })
            &&& !runs ==> next.active is None && next.deferred is None && step == (StepModel::Done {
                result: Err(DecoderClosed::Closed),
                session_ended: true,
            })
        }),
{
}

/// A client acts for a lane exactly while the lane's lease is its own.
pub proof fn law_clients_are_bound_by_their_lease(endpoint: EndpointModel, client: u64)
    ensures
        endpoint.active is None ==> !endpoint.bound_to(client),
        endpoint.active matches Some(lease) ==> (endpoint.bound_to(client) <==> lease.client
            == client),
{
}

/// A lane whose actor was woken goes on; one whose actor had ended gives its lease back, unless it was only
/// to cancel.
pub proof fn law_dead_actors_cost_the_lease(
    endpoint: &mut CoordinatorEndpoint,
    coordinator: &mut MonitorSourceCoordinator,
    cancelling: bool,
    connected: bool,
    outcome: (SendStep, Option<u64>),
)
    requires
        call_ensures(
            CoordinatorEndpoint::woken,
            (endpoint, coordinator, cancelling, connected),
            outcome,
        ),
    ensures
        connected || cancelling ==> final(endpoint)@ == old(endpoint)@ && final(coordinator)@ == old(coordinator)@ && outcome.1 is None,
        !connected && !cancelling ==> final(endpoint)@.active is None && final(endpoint)@.deferred
            == old(endpoint)@.deferred,
        outcome.0@ matches StepModel::Done { result, session_ended } && (result is Ok <==> connected)
            && (session_ended <==> !connected && !cancelling) && (result matches Err(error) ==> error
            == DecoderClosed::Closed),
{
}

/// Yielding a lease retains its latest request and role for a retry, and ends the lease.
pub proof fn law_yielded_leases_are_retried(
    endpoint: &mut CoordinatorEndpoint,
    coordinator: &mut MonitorSourceCoordinator,
    outcome: (bool, Option<u64>),
)
    requires
        call_ensures(CoordinatorEndpoint::defer_lease, (endpoint, coordinator), outcome),
    ensures
        outcome.0 <==> old(endpoint)@.active is Some,
        final(endpoint)@.active is None,
        old(endpoint)@.active matches Some(lease) ==> final(endpoint)@.deferred == Some(
            (lease.request, lease.speculative),
        ) && final(coordinator)@ == old(coordinator)@.lease_ended(
            lease.key,
            lease.lane,
            lease.client,
        ),
        old(endpoint)@.active is None ==> final(endpoint)@.deferred == old(endpoint)@.deferred
            && final(coordinator)@ == old(coordinator)@,
{
}

/// Speculative work alone is given up: a lease or a retry that is not speculative stays.
pub proof fn law_only_speculation_is_released(
    endpoint: &mut CoordinatorEndpoint,
    coordinator: &mut MonitorSourceCoordinator,
    outcome: (bool, Option<u64>),
)
    requires
        call_ensures(CoordinatorEndpoint::release_speculative, (endpoint, coordinator), outcome),
    ensures
        outcome.0 <==> (old(endpoint)@.active matches Some(lease) && lease.speculative),
        old(endpoint)@.active matches Some(lease) ==> final(endpoint)@.active == (
        if lease.speculative {
            None
        } else {
            Some(lease)
        }),
        old(endpoint)@.active is None ==> final(endpoint)@.active is None,
        old(endpoint)@.deferred matches Some(deferred) ==> final(endpoint)@.deferred == (
        if deferred.1 {
            None
        } else {
            Some(deferred)
        }),
        old(endpoint)@.deferred is None ==> final(endpoint)@.deferred is None,
        !outcome.0 ==> final(coordinator)@ == old(coordinator)@,
{
}

/// A client takes the request that waits in its own lease, once, and never one of another lease.
pub proof fn law_requests_are_taken_by_their_client(
    endpoint: &mut CoordinatorEndpoint,
    client: u64,
    request: Option<DecodeRequest>,
)
    requires
        call_ensures(CoordinatorEndpoint::take_request, (endpoint, client), request),
    ensures
        !(old(endpoint)@.active matches Some(lease) && lease.client == client) ==> request is None
            && final(endpoint)@ == old(endpoint)@,
        old(endpoint)@.active matches Some(lease) ==> (lease.client == client ==> {
            &&& final(endpoint)@.active matches Some(after) && after.commands is None
                && after.request == lease.request && after.client == client && after.key == lease.key
                && after.speculative == lease.speculative
            &&& final(endpoint)@.deferred == old(endpoint)@.deferred
            &&& lease.commands matches Some(CommandModel::Request(waiting)) ==> (
            request matches Some(taken) && taken@ == waiting)
            &&& !(lease.commands matches Some(CommandModel::Request(_))) ==> request is None
        }),
{
}

/// What a client sees is what waits in its own lease; a lease that ended reads as a release.
pub proof fn law_ended_lease_reads_as_a_release(
    endpoint: &CoordinatorEndpoint,
    client: u64,
    waiting: Option<MonitorCommand>,
)
    requires
        call_ensures(CoordinatorEndpoint::waiting_command, (endpoint, client), waiting),
    ensures
        !(endpoint@.active matches Some(lease) && lease.client == client) ==> waiting == Some(
            MonitorCommand::Release,
        ),
        endpoint@.active matches Some(lease) ==> (lease.client == client ==> command_model(waiting)
            == lease.commands),
{
}

/// The result of a client whose lease has ended is dropped, and leaves nothing behind. Any other is
/// settled against what waits in the lease, and what is left to serve waits there again.
pub proof fn law_results_of_ended_leases_are_dropped(
    endpoint: &mut CoordinatorEndpoint,
    client: u64,
    request: DecodeRequest,
    event: Option<DecodeEvent>,
    deferred: bool,
    settlement: ClientSettlement,
)
    requires
        call_ensures(
            CoordinatorEndpoint::settle_client,
            (endpoint, client, request, event, deferred),
            settlement,
        ),
    ensures
        !(old(endpoint)@.active matches Some(lease) && lease.client == client) ==> settlement.publish
            is None && !settlement.requeue && !settlement.wait && final(endpoint)@ == old(endpoint)@,
        old(endpoint)@.active matches Some(lease) ==> (lease.client == client ==> {
            &&& lease.commands is None && !deferred ==> settlement.publish == event
                && !settlement.requeue && !settlement.wait
            &&& lease.commands is None && deferred ==> settlement.publish is None
                && settlement.requeue && settlement.wait
            &&& lease.commands == Some(CommandModel::Cancel) ==> settlement.publish is None
                && !settlement.requeue
            &&& lease.commands matches Some(CommandModel::Request(newer)) ==> {
                &&& newer.project_epoch != request.project_epoch || newer.media_id
                    != request.media_id || newer.path != request.path@ ==> settlement.publish is None
                    && settlement.requeue
                &&& settlement.requeue ==> (final(endpoint)@.active matches Some(after)
                    && after.commands == Some(CommandModel::Request(newer)))
            }
            &&& final(endpoint)@.active matches Some(after) && after.client == client
                && after.request == lease.request && after.key == lease.key
            &&& final(endpoint)@.deferred == old(endpoint)@.deferred
        }),
{
    if let Some(lease) = old(endpoint)@.active {
        if let Some(CommandModel::Request(newer)) = lease.commands {
            crate::decode::request::law_generation_fixes_what_is_decoded(request@, newer);
        }
    }
}

} // verus!
