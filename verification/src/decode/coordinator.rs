//! Bounded ownership of sticky monitor source sessions.
//!
//! A lane actor owns its session on one thread. Monitors hold leases; the actor is started
//! with the first lease of its source and lane and retires when the last one ends.
use crate::arith::smaller;
use crate::decode::request::DecoderClosed;
use crate::decode::session_pool::MonitorSessionLane;
use crate::decode::source_actor::{
    lemma_without_id, without_id, ActorModel, MonitorSourceKey, SourceKeyModel, SourceLaneActor,
};
use vstd::prelude::*;

verus! {

/// Exact runtime ownership counts for a shared source-actor coordinator.
#[derive(Clone, Copy, Debug, PartialEq, Eq, Structural)]
pub struct MonitorSourceCoordinatorDiagnostics {
    pub live_source_groups: usize,
    pub source_group_cap: usize,
    pub live_lane_actors: usize,
    pub lane_actor_cap: usize,
    /// Actors signalled for asynchronous join; this is included in the bounded total budget.
    pub retiring_lane_actors: usize,
}

impl Default for MonitorSourceCoordinatorDiagnostics {
    fn default() -> (empty: Self)
        ensures
            empty == (MonitorSourceCoordinatorDiagnostics {
                live_source_groups: 0,
                source_group_cap: 0,
                live_lane_actors: 0,
                lane_actor_cap: 0,
                retiring_lane_actors: 0,
            }),
    {
        MonitorSourceCoordinatorDiagnostics {
            live_source_groups: 0,
            source_group_cap: 0,
            live_lane_actors: 0,
            lane_actor_cap: 0,
            retiring_lane_actors: 0,
        }
    }
}

/// How a request for a lease is answered.
#[derive(Clone, Copy, Debug, PartialEq, Eq, Structural)]
pub enum LeaseOutcome {
    /// An actor that runs already takes the client on.
    Existing { actor: u64, client: u64 },
    /// An actor has to be started for the client.
    Start { actor: u64, client: u64 },
    /// The bounds leave no room for another actor.
    Capacity,
}

/// The mathematical value of a [`MonitorSourceCoordinator`].
#[verifier::ext_equal]
pub struct CoordinatorModel {
    pub source_group_cap: nat,
    pub actors: Seq<ActorModel>,
    pub retiring: nat,
    pub next_actor: u64,
    pub next_client: u64,
}

/// The sources that the actors decode.
pub open spec fn keys_of(actors: Seq<ActorModel>) -> Seq<SourceKeyModel> {
    Seq::new(actors.len(), |i: int| actors[i].key)
}

/// Whether the actor at `i` decodes `key` on `lane`.
pub open spec fn serves_at(
    actors: Seq<ActorModel>,
    i: int,
    key: SourceKeyModel,
    lane: MonitorSessionLane,
) -> bool {
    0 <= i < actors.len() && actors[i].key == key && actors[i].lane == lane
}

impl CoordinatorModel {
    /// The most actors that run or retire at once: two for each source group.
    pub open spec fn lane_actor_cap(self) -> int {
        smaller(2 * (self.source_group_cap as int), usize::MAX as int)
    }

    /// The source groups that are live.
    pub open spec fn groups(self) -> Set<SourceKeyModel> {
        keys_of(self.actors).to_set()
    }

    /// Whether an actor decodes `key` on `lane`.
    pub open spec fn has_actor(self, key: SourceKeyModel, lane: MonitorSessionLane) -> bool {
        exists|i: int| serves_at(self.actors, i, key, lane)
    }

    /// Where that actor stands.
    pub open spec fn actor_at(self, key: SourceKeyModel, lane: MonitorSessionLane) -> int {
        choose|i: int| serves_at(self.actors, i, key, lane)
    }

    /// There is one actor per source and lane, each holds a lease, and both bounds are kept.
    pub open spec fn valid(self) -> bool {
        &&& forall|i: int, j: int|
            0 <= i < j < self.actors.len() ==> !((#[trigger] self.actors[i]).key == (
            #[trigger] self.actors[j]).key && self.actors[i].lane == self.actors[j].lane)
        &&& forall|i: int|
            0 <= i < self.actors.len() ==> (#[trigger] self.actors[i]).valid()
                && self.actors[i].clients.len() > 0
        &&& self.groups().len() <= self.source_group_cap
        &&& self.actors.len() + self.retiring <= self.lane_actor_cap()
        &&& self.source_group_cap <= usize::MAX
    }

    /// How a lease of `key` on `lane` is answered.
    pub open spec fn lease_outcome(
        self,
        key: SourceKeyModel,
        lane: MonitorSessionLane,
    ) -> LeaseOutcome {
        if !self.groups().contains(key) && self.groups().len() >= self.source_group_cap {
            LeaseOutcome::Capacity
        } else if self.has_actor(key, lane) {
            LeaseOutcome::Existing {
                actor: self.actors[self.actor_at(key, lane)].id,
                client: self.next_client,
            }
        } else if self.actors.len() + self.retiring >= self.lane_actor_cap() {
            LeaseOutcome::Capacity
        } else {
            LeaseOutcome::Start { actor: self.next_actor, client: self.next_client }
        }
    }

    /// The coordinator after a lease of `key` on `lane` was asked for.
    pub open spec fn leased(self, key: SourceKeyModel, lane: MonitorSessionLane) -> CoordinatorModel {
        match self.lease_outcome(key, lane) {
            LeaseOutcome::Capacity => self,
            LeaseOutcome::Existing { actor, client } => {
                let i = self.actor_at(key, lane);
                CoordinatorModel {
                    actors: self.actors.update(
                        i,
                        ActorModel {
                            clients: self.actors[i].clients.push(client),
                            ..self.actors[i]
                        },
                    ),
                    next_client: successor(self.next_client),
                    ..self
                }
            },
            LeaseOutcome::Start { actor, client } => CoordinatorModel {
                actors: self.actors.push(
                    ActorModel {
                        id: actor,
                        key,
                        lane,
                        clients: Seq::empty().push(client),
                        pending: Seq::empty(),
                    },
                ),
                next_client: successor(self.next_client),
                next_actor: successor(self.next_actor),
                ..self
            },
        }
    }

    /// The actor that retires when `client` ends its lease.
    pub open spec fn retires(
        self,
        key: SourceKeyModel,
        lane: MonitorSessionLane,
        client: u64,
    ) -> Option<u64> {
        if self.has_actor(key, lane) && without_id(
            self.actors[self.actor_at(key, lane)].clients,
            client,
        ).len() == 0 {
            Some(self.actors[self.actor_at(key, lane)].id)
        } else {
            None
        }
    }

    /// The coordinator after `client` ended its lease.
    pub open spec fn lease_ended(
        self,
        key: SourceKeyModel,
        lane: MonitorSessionLane,
        client: u64,
    ) -> CoordinatorModel {
        let i = self.actor_at(key, lane);
        if !self.has_actor(key, lane) {
            self
        } else if self.retires(key, lane, client) is Some {
            CoordinatorModel {
                actors: self.actors.remove(i),
                retiring: self.retiring + 1,
                ..self
            }
        } else {
            CoordinatorModel {
                actors: self.actors.update(
                    i,
                    ActorModel {
                        clients: without_id(self.actors[i].clients, client),
                        ..self.actors[i]
                    },
                ),
                ..self
            }
        }
    }

    /// The coordinator after an actor could not be started.
    pub open spec fn start_failed(
        self,
        key: SourceKeyModel,
        lane: MonitorSessionLane,
    ) -> CoordinatorModel {
        if self.has_actor(key, lane) {
            CoordinatorModel { actors: self.actors.remove(self.actor_at(key, lane)), ..self }
        } else {
            self
        }
    }

    /// Whether `client` gets a place in the queue of the actor.
    pub open spec fn admits(
        self,
        key: SourceKeyModel,
        lane: MonitorSessionLane,
        client: u64,
    ) -> bool {
        self.has_actor(key, lane) && self.actors[self.actor_at(key, lane)].admits(client)
    }

    /// The coordinator after `client` asked for the attention of the actor.
    pub open spec fn enqueued(
        self,
        key: SourceKeyModel,
        lane: MonitorSessionLane,
        client: u64,
    ) -> CoordinatorModel {
        if self.has_actor(key, lane) {
            let i = self.actor_at(key, lane);
            CoordinatorModel {
                actors: self.actors.update(i, self.actors[i].enqueued(client)),
                ..self
            }
        } else {
            self
        }
    }
}

/// The next identity.
pub open spec fn successor(id: u64) -> u64 {
    if id == u64::MAX {
        0
    } else {
        (id + 1) as u64
    }
}

/// Bounded, thread-confined ownership of sticky monitor source sessions.
#[derive(Debug)]
pub struct MonitorSourceCoordinator {
    source_group_cap: usize,
    actors: Vec<SourceLaneActor>,
    retiring: usize,
    next_actor: u64,
    next_client: u64,
}

closed spec fn actor_models(actors: Seq<SourceLaneActor>) -> Seq<ActorModel> {
    Seq::new(actors.len(), |i: int| actors[i]@)
}

impl View for MonitorSourceCoordinator {
    type V = CoordinatorModel;

    closed spec fn view(&self) -> CoordinatorModel {
        CoordinatorModel {
            source_group_cap: self.source_group_cap as nat,
            actors: actor_models(self.actors@),
            retiring: self.retiring as nat,
            next_actor: self.next_actor,
            next_client: self.next_client,
        }
    }
}

impl MonitorSourceCoordinator {
    /// Creates one source-actor registry. Zero is a valid hard cap: requests defer rather than
    /// starting an unbounded number of decoder threads or sessions.
    pub fn new(max_active_source_groups: usize) -> (coordinator: Self)
        ensures
            coordinator@.valid(),
            coordinator@ == (CoordinatorModel {
                source_group_cap: max_active_source_groups as nat,
                actors: Seq::empty(),
                retiring: 0,
                next_actor: 1,
                next_client: 1,
            }),
    {
        let coordinator = MonitorSourceCoordinator {
            source_group_cap: max_active_source_groups,
            actors: Vec::new(),
            retiring: 0,
            next_actor: 1,
            next_client: 1,
        };
        assert(coordinator@.actors =~= Seq::empty());
        assert(coordinator@.groups() =~= Set::empty());
        coordinator
    }

    fn actor_cap(&self) -> (cap: usize)
        ensures
            cap == self@.lane_actor_cap(),
    {
        match self.source_group_cap.checked_mul(2) {
            Some(cap) => cap,
            None => usize::MAX,
        }
    }

    /// How many source groups are live.
    fn group_count(&self) -> (count: usize)
        ensures
            count == self@.groups().len(),
            count <= self@.actors.len(),
    {
        let ghost keys = keys_of(self@.actors);
        let mut count: usize = 0;
        let mut i: usize = 0;
        assert(keys.take(0) =~= Seq::empty());
        while i < self.actors.len()
            invariant
                i <= self.actors@.len(),
                keys == keys_of(self@.actors),
                keys.len() == self.actors@.len(),
                count <= i,
                count == distinct(keys.take(i as int)),
            decreases self.actors@.len() - i,
        {
            let ghost seen = keys.take(i as int);
            let mut known: bool = false;
            let mut j: usize = 0;
            while j < i && !known
                invariant
                    i < self.actors@.len(),
                    j <= i,
                    keys == keys_of(self@.actors),
                    seen == keys.take(i as int),
                    known ==> seen.contains(keys[i as int]),
                    !known ==> forall|k: int| 0 <= k < j ==> keys[k] != keys[i as int],
                decreases i - j, if known { 0int } else { 1 },
            {
                if self.actors[j].same_group(&self.actors[i]) {
                    assert(seen[j as int] == keys[i as int]);
                    known = true;
                } else {
                    j += 1;
                }
            }
            assert(keys.take(i + 1).drop_last() =~= seen);
            assert(keys.take(i + 1).last() == keys[i as int]);
            if !known {
                assert(!seen.contains(keys[i as int]));
                count += 1;
            }
            i += 1;
        }
        assert(keys.take(i as int) =~= keys);
        proof {
            lemma_distinct(keys);
        }
        count
    }

    pub fn diagnostics(&self) -> (seen: MonitorSourceCoordinatorDiagnostics)
        requires
            self@.valid(),
        ensures
            seen.live_source_groups == self@.groups().len(),
            seen.source_group_cap == self@.source_group_cap,
            seen.live_lane_actors == self@.actors.len(),
            seen.lane_actor_cap == self@.lane_actor_cap(),
            seen.retiring_lane_actors == self@.retiring,
            seen.live_source_groups <= seen.source_group_cap,
            seen.live_lane_actors + seen.retiring_lane_actors <= seen.lane_actor_cap,
    {
        MonitorSourceCoordinatorDiagnostics {
            live_source_groups: self.group_count(),
            source_group_cap: self.source_group_cap,
            live_lane_actors: self.actors.len(),
            lane_actor_cap: self.actor_cap(),
            retiring_lane_actors: self.retiring,
        }
    }

    #[verifier::loop_isolation(false)]
    fn find(&self, key: &MonitorSourceKey, lane: MonitorSessionLane) -> (found: Option<usize>)
        requires
            self@.valid(),
        ensures
            found is Some == self@.has_actor(key@, lane),
            found matches Some(i) ==> i < self.actors@.len() && i == self@.actor_at(key@, lane)
                && serves_at(self@.actors, i as int, key@, lane),
    {
        let mut i: usize = 0;
        while i < self.actors.len()
            invariant
                i <= self.actors@.len(),
                forall|j: int| 0 <= j < i ==> !serves_at(self@.actors, j, key@, lane),
            decreases self.actors@.len() - i,
        {
            if self.actors[i].serves(key, lane) {
                proof {
                    assert(serves_at(self@.actors, i as int, key@, lane));
                    let at = self@.actor_at(key@, lane);
                    assert(serves_at(self@.actors, at, key@, lane));
                    let (p, q) = if at < i { (at, i as int) } else { (i as int, at) };
                    if p != q {
                        assert(!(self@.actors[p].key == self@.actors[q].key && self@.actors[p].lane
                            == self@.actors[q].lane));
                    }
                }
                return Some(i);
            }
            i += 1;
        }
        None
    }

    #[verifier::loop_isolation(false)]
    fn knows_source(&self, key: &MonitorSourceKey) -> (known: bool)
        ensures
            known == self@.groups().contains(key@),
    {
        let ghost keys = keys_of(self@.actors);
        let mut i: usize = 0;
        while i < self.actors.len()
            invariant
                i <= self.actors@.len(),
                forall|j: int| 0 <= j < i ==> keys[j] != key@,
            decreases self.actors@.len() - i,
        {
            if self.actors[i].serves_source(key) {
                assert(keys[i as int] == key@);
                return true;
            }
            i += 1;
        }
        false
    }

    /// Asks for a lease of the actor that decodes `key` on `lane`. An actor that has to be
    /// started counts from now on; [`Self::start_failed`] takes it back.
    pub fn lease(&mut self, key: &MonitorSourceKey, lane: MonitorSessionLane) -> (outcome:
        LeaseOutcome)
        requires
            old(self)@.valid(),
        ensures
            final(self)@.valid(),
            outcome == old(self)@.lease_outcome(key@, lane),
            final(self)@ == old(self)@.leased(key@, lane),
    {
        let ghost before = self@;
        if !self.knows_source(key) && self.group_count() >= self.source_group_cap {
            return LeaseOutcome::Capacity;
        }
        if let Some(i) = self.find(key, lane) {
            let client: u64 = self.next_client;
            let actor: u64 = self.actors[i].id();
            self.actors[i].attach_client(client);
            self.next_client = client.wrapping_add(1);
            proof {
                assert(self@.actors =~= before.leased(key@, lane).actors);
                lemma_update_keeps_groups(before, self@.actors, i as int);
            }
            return LeaseOutcome::Existing { actor, client };
        }
        if self.actor_cap() - self.actors.len() <= self.retiring {
            return LeaseOutcome::Capacity;
        }
        let client: u64 = self.next_client;
        let actor: u64 = self.next_actor;
        let mut started = SourceLaneActor::new(actor, key.clone(), lane);
        started.attach_client(client);
        self.actors.push(started);
        self.next_client = client.wrapping_add(1);
        self.next_actor = actor.wrapping_add(1);
        proof {
            assert(self@.actors =~= before.leased(key@, lane).actors);
            lemma_push_group(before, self@.actors.last());
            assert forall|i: int, j: int| 0 <= i < j < self@.actors.len() implies !((
            #[trigger] self@.actors[i]).key == (#[trigger] self@.actors[j]).key
                && self@.actors[i].lane == self@.actors[j].lane) by {
                if j == before.actors.len() {
                    assert(!serves_at(before.actors, i, key@, lane));
                }
            }
        }
        LeaseOutcome::Start { actor, client }
    }

    /// Ends the lease of `client`. Returns the actor that retires with it: it is told to shut
    /// down, and [`Self::joined`] is owed once its thread has ended.
    pub fn end_lease(&mut self, key: &MonitorSourceKey, lane: MonitorSessionLane, client: u64) -> (
    retired: Option<u64>)
        requires
            old(self)@.valid(),
        ensures
            final(self)@.valid(),
            retired == old(self)@.retires(key@, lane, client),
            final(self)@ == old(self)@.lease_ended(key@, lane, client),
    {
        let ghost before = self@;
        match self.find(key, lane) {
            None => None,
            Some(i) => {
                let idle: bool = self.actors[i].detach_client(client);
                if idle {
                    let actor = self.actors.remove(i);
                    self.retiring = self.retiring + 1;
                    proof {
                        assert(self@.actors =~= before.actors.remove(i as int));
                        lemma_remove_group(before, i as int);
                    }
                    Some(actor.id())
                } else {
                    proof {
                        assert(self@.actors =~= before.lease_ended(key@, lane, client).actors);
                        lemma_update_keeps_groups(before, self@.actors, i as int);
                    }
                    None
                }
            },
        }
    }

    /// Takes back an actor that could not be started.
    pub fn start_failed(&mut self, key: &MonitorSourceKey, lane: MonitorSessionLane)
        requires
            old(self)@.valid(),
        ensures
            final(self)@.valid(),
            final(self)@ == old(self)@.start_failed(key@, lane),
    {
        let ghost before = self@;
        if let Some(i) = self.find(key, lane) {
            self.actors.remove(i);
            proof {
                assert(self@.actors =~= before.actors.remove(i as int));
                lemma_remove_group(before, i as int);
            }
        }
    }

    /// Notes that the thread of a retired actor has ended.
    pub fn joined(&mut self)
        requires
            old(self)@.valid(),
            old(self)@.retiring > 0,
        ensures
            final(self)@.valid(),
            final(self)@ == (CoordinatorModel {
                retiring: (old(self)@.retiring - 1) as nat,
                ..old(self)@
            }),
    {
        self.retiring = self.retiring - 1;
    }

    /// Asks for the attention of an actor on behalf of `client`. Returns the actor to wake.
    pub fn enqueue(&mut self, key: &MonitorSourceKey, lane: MonitorSessionLane, client: u64) -> (
    queued: Result<u64, DecoderClosed>)
        requires
            old(self)@.valid(),
        ensures
            final(self)@.valid(),
            final(self)@ == old(self)@.enqueued(key@, lane, client),
            queued == (if !old(self)@.has_actor(key@, lane) {
                Err(DecoderClosed::Closed)
            } else if old(self)@.admits(key@, lane, client) {
                Ok(old(self)@.actors[old(self)@.actor_at(key@, lane)].id)
            } else {
                Err(DecoderClosed::SourceCapacityDeferred)
            }),
    {
        let ghost before = self@;
        match self.find(key, lane) {
            None => Err(DecoderClosed::Closed),
            Some(i) => {
                let actor: u64 = self.actors[i].id();
                let queued = self.actors[i].enqueue_client(client);
                proof {
                    assert(self@.actors =~= before.enqueued(key@, lane, client).actors);
                    lemma_update_keeps_groups(before, self@.actors, i as int);
                }
                match queued {
                    Ok(()) => Ok(actor),
                    Err(error) => Err(error),
                }
            },
        }
    }

    /// Takes the client that has waited longest for an actor, if it still holds a lease.
    pub fn next_client(&mut self, key: &MonitorSourceKey, lane: MonitorSessionLane) -> (client:
        Option<u64>)
        requires
            old(self)@.valid(),
        ensures
            final(self)@.valid(),
            ({
                let i = old(self)@.actor_at(key@, lane);
                let actor = old(self)@.actors[i];
                if old(self)@.has_actor(key@, lane) && actor.pending.len() > 0 {
                    &&& client == (if actor.clients.contains(actor.pending[0]) {
                        Some(actor.pending[0])
                    } else {
                        None
                    })
                    &&& final(self)@ == (CoordinatorModel {
                        actors: old(self)@.actors.update(
                            i,
                            ActorModel { pending: actor.pending.drop_first(), ..actor },
                        ),
                        ..old(self)@
                    })
                } else {
                    client is None && final(self)@ == old(self)@
                }
            }),
    {
        let ghost before = self@;
        match self.find(key, lane) {
            None => None,
            Some(i) => {
                let client = self.actors[i].next_client();
                proof {
                    lemma_update_keeps_groups(before, self@.actors, i as int);
                    let actor = before.actors[i as int];
                    if actor.pending.len() == 0 {
                        assert(self@.actors =~= before.actors);
                    } else {
                        assert(self@.actors =~= before.actors.update(
                            i as int,
                            ActorModel { pending: actor.pending.drop_first(), ..actor },
                        ));
                    }
                }
                client
            },
        }
    }
}

/// How many different keys stand in `keys`.
spec fn distinct(keys: Seq<SourceKeyModel>) -> nat
    decreases keys.len(),
{
    if keys.len() == 0 {
        0
    } else if keys.drop_last().contains(keys.last()) {
        distinct(keys.drop_last())
    } else {
        distinct(keys.drop_last()) + 1
    }
}

proof fn lemma_distinct(keys: Seq<SourceKeyModel>)
    ensures
        keys.to_set().finite(),
        distinct(keys) == keys.to_set().len(),
    decreases keys.len(),
{
    if keys.len() == 0 {
        assert(keys.to_set() =~= Set::empty());
    } else {
        let rest = keys.drop_last();
        lemma_distinct(rest);
        assert forall|k: SourceKeyModel| keys.to_set().contains(k) <==> rest.to_set().insert(
            keys.last(),
        ).contains(k) by {
            if keys.contains(k) {
                let i = choose|i: int| 0 <= i < keys.len() && keys[i] == k;
                if i < rest.len() {
                    assert(rest[i] == k);
                }
            }
            if rest.contains(k) {
                let i = choose|i: int| 0 <= i < rest.len() && rest[i] == k;
                assert(keys[i] == k);
            }
            assert(keys[keys.len() - 1] == keys.last());
        }
        assert(keys.to_set() =~= rest.to_set().insert(keys.last()));
    }
}

proof fn lemma_update_keeps_groups(before: CoordinatorModel, actors: Seq<ActorModel>, i: int)
    requires
        0 <= i < before.actors.len(),
        actors.len() == before.actors.len(),
        forall|j: int|
            0 <= j < actors.len() ==> (#[trigger] actors[j]).key == before.actors[j].key,
    ensures
        keys_of(actors) == keys_of(before.actors),
{
    assert(keys_of(actors) =~= keys_of(before.actors));
}

proof fn lemma_push_group(before: CoordinatorModel, actor: ActorModel)
    ensures
        keys_of(before.actors.push(actor)).to_set() == before.groups().insert(actor.key),
        before.groups().finite(),
{
    let keys = keys_of(before.actors);
    lemma_distinct(keys);
    let pushed = keys_of(before.actors.push(actor));
    assert(pushed =~= keys.push(actor.key));
    assert forall|k: SourceKeyModel| pushed.to_set().contains(k) <==> keys.to_set().insert(
        actor.key,
    ).contains(k) by {
        if pushed.contains(k) {
            let i = choose|i: int| 0 <= i < pushed.len() && pushed[i] == k;
            if i < keys.len() {
                assert(keys[i] == k);
            }
        }
        if keys.contains(k) {
            let i = choose|i: int| 0 <= i < keys.len() && keys[i] == k;
            assert(pushed[i] == k);
        }
        assert(pushed[keys.len() as int] == actor.key);
    }
    assert(pushed.to_set() =~= keys.to_set().insert(actor.key));
}

proof fn lemma_remove_group(before: CoordinatorModel, at: int)
    requires
        0 <= at < before.actors.len(),
    ensures
        keys_of(before.actors.remove(at)).to_set().len() <= before.groups().len(),
{
    let keys = keys_of(before.actors);
    let rest = keys_of(before.actors.remove(at));
    lemma_distinct(keys);
    lemma_distinct(rest);
    assert forall|k: SourceKeyModel| rest.to_set().contains(k) implies keys.to_set().contains(k) by {
        let i = choose|i: int| 0 <= i < rest.len() && rest[i] == k;
        let p = if i < at { i } else { i + 1 };
        assert(keys[p] == k);
    }
    vstd::set_lib::lemma_len_subset(rest.to_set(), keys.to_set());
}

/// The lease of one client ends alone: no other client loses its actor or its lease.
pub proof fn law_other_leases_are_untouched(
    coordinator: CoordinatorModel,
    key: SourceKeyModel,
    lane: MonitorSessionLane,
    client: u64,
    other_key: SourceKeyModel,
    other_lane: MonitorSessionLane,
    other: u64,
)
    requires
        coordinator.valid(),
        other != client,
        coordinator.has_actor(other_key, other_lane),
        coordinator.actors[coordinator.actor_at(other_key, other_lane)].clients.contains(other),
    ensures
        ({
            let after = coordinator.lease_ended(key, lane, client);
            exists|i: int|
                #[trigger] serves_at(after.actors, i, other_key, other_lane)
                    && after.actors[i].clients.contains(other)
        }),
{
    let after = coordinator.lease_ended(key, lane, client);
    let o = coordinator.actor_at(other_key, other_lane);
    assert(serves_at(coordinator.actors, o, other_key, other_lane));
    if coordinator.has_actor(key, lane) {
        let i = coordinator.actor_at(key, lane);
        assert(serves_at(coordinator.actors, i, key, lane));
        lemma_without_id(coordinator.actors[i].clients, client);
        if o == i {
            assert(without_id(coordinator.actors[i].clients, client).contains(other));
            assert(serves_at(after.actors, i, other_key, other_lane));
        } else if coordinator.retires(key, lane, client) is Some {
            let p = if o < i { o } else { o - 1 };
            assert(after.actors[p] == coordinator.actors[o]);
            assert(serves_at(after.actors, p, other_key, other_lane));
        } else {
            assert(after.actors[o] == coordinator.actors[o]);
            assert(serves_at(after.actors, o, other_key, other_lane));
        }
    } else {
        assert(serves_at(after.actors, o, other_key, other_lane));
    }
}

/// Lane churn cannot grow the number of threads: an actor that retires keeps its place in the
/// budget until it was joined.
pub proof fn law_retirement_frees_no_capacity(
    coordinator: CoordinatorModel,
    key: SourceKeyModel,
    lane: MonitorSessionLane,
    client: u64,
)
    requires
        coordinator.valid(),
    ensures
        ({
            let after = coordinator.lease_ended(key, lane, client);
            after.actors.len() + after.retiring == coordinator.actors.len() + coordinator.retiring
        }),
{
    if coordinator.has_actor(key, lane) {
        assert(serves_at(coordinator.actors, coordinator.actor_at(key, lane), key, lane));
    }
}

/// A coordinator without any budget starts nothing.
pub proof fn law_zero_budget_defers_every_lease(
    coordinator: CoordinatorModel,
    key: SourceKeyModel,
    lane: MonitorSessionLane,
)
    requires
        coordinator.valid(),
        coordinator.source_group_cap == 0,
    ensures
        coordinator.lease_outcome(key, lane) == LeaseOutcome::Capacity,
{
    assert(coordinator.actors.len() == 0);
    assert(coordinator.groups() =~= Set::empty());
}

proof fn lemma_actor_at(coordinator: CoordinatorModel, at: int)
    requires
        coordinator.valid(),
        0 <= at < coordinator.actors.len(),
    ensures
        coordinator.has_actor(coordinator.actors[at].key, coordinator.actors[at].lane),
        coordinator.actor_at(coordinator.actors[at].key, coordinator.actors[at].lane) == at,
{
    let key = coordinator.actors[at].key;
    let lane = coordinator.actors[at].lane;
    assert(serves_at(coordinator.actors, at, key, lane));
    let found = coordinator.actor_at(key, lane);
    assert(serves_at(coordinator.actors, found, key, lane));
    if found < at {
        assert(!(coordinator.actors[found].key == coordinator.actors[at].key
            && coordinator.actors[found].lane == coordinator.actors[at].lane));
    } else if at < found {
        assert(!(coordinator.actors[at].key == coordinator.actors[found].key
            && coordinator.actors[at].lane == coordinator.actors[found].lane));
    }
}

/// A source that an actor already decodes on the lane gets a lease of that very actor, whatever the
/// bounds are: the client joins it, and nothing else changes.
pub proof fn law_running_actor_takes_the_lease(coordinator: CoordinatorModel, at: int)
    requires
        coordinator.valid(),
        0 <= at < coordinator.actors.len(),
    ensures
        ({
            let actor = coordinator.actors[at];
            let after = coordinator.leased(actor.key, actor.lane);
            &&& coordinator.lease_outcome(actor.key, actor.lane) == (LeaseOutcome::Existing {
                actor: actor.id,
                client: coordinator.next_client,
            })
            &&& after.actors.len() == coordinator.actors.len()
            &&& after.actors[at].clients == actor.clients.push(coordinator.next_client)
            &&& after.actors[at].id == actor.id
            &&& after.actors[at].key == actor.key
            &&& after.actors[at].lane == actor.lane
            &&& after.actors[at].pending == actor.pending
            &&& forall|i: int|
                0 <= i < coordinator.actors.len() && i != at ==> (#[trigger] after.actors[i])
                    == coordinator.actors[i]
            &&& after.retiring == coordinator.retiring
            &&& after.source_group_cap == coordinator.source_group_cap
            &&& after.next_actor == coordinator.next_actor
        }),
{
    lemma_actor_at(coordinator, at);
    assert(keys_of(coordinator.actors)[at] == coordinator.actors[at].key);
    assert(coordinator.groups().contains(coordinator.actors[at].key));
}

/// Without a running actor one is started exactly where its source is known or another source group
/// fits, and fewer actors run and retire than two for each group; it starts with that client alone
/// and nobody waiting. Otherwise the lease is put off, and nothing changes.
pub proof fn law_new_actor_needs_room(
    coordinator: CoordinatorModel,
    key: SourceKeyModel,
    lane: MonitorSessionLane,
)
    requires
        coordinator.valid(),
        2 * coordinator.source_group_cap <= usize::MAX,
        forall|i: int|
            0 <= i < coordinator.actors.len() ==> !((#[trigger] coordinator.actors[i]).key == key
                && coordinator.actors[i].lane == lane),
    ensures
        ({
            let known = exists|i: int|
                0 <= i < coordinator.actors.len() && (#[trigger] coordinator.actors[i]).key == key;
            let room = (known || coordinator.groups().len() < coordinator.source_group_cap)
                && coordinator.actors.len() + coordinator.retiring < 2
                * coordinator.source_group_cap;
            let after = coordinator.leased(key, lane);
            &&& room ==> coordinator.lease_outcome(key, lane) == (LeaseOutcome::Start {
                actor: coordinator.next_actor,
                client: coordinator.next_client,
            }) && after.actors.len() == coordinator.actors.len() + 1 && after.actors.drop_last()
                == coordinator.actors && after.actors.last().key == key && after.actors.last().lane
                == lane && after.actors.last().id == coordinator.next_actor
                && after.actors.last().clients == seq![coordinator.next_client]
                && after.actors.last().pending.len() == 0 && after.retiring == coordinator.retiring
            &&& !room ==> coordinator.lease_outcome(key, lane) == LeaseOutcome::Capacity && after
                == coordinator
        }),
{
    assert(!coordinator.has_actor(key, lane)) by {
        if coordinator.has_actor(key, lane) {
            let i = coordinator.actor_at(key, lane);
            assert(serves_at(coordinator.actors, i, key, lane));
        }
    }
    let keys = keys_of(coordinator.actors);
    if coordinator.groups().contains(key) {
        let i = choose|i: int| 0 <= i < keys.len() && keys[i] == key;
        assert(coordinator.actors[i].key == key);
    }
    if exists|i: int|
        0 <= i < coordinator.actors.len() && (#[trigger] coordinator.actors[i]).key == key {
        let i = choose|i: int|
            0 <= i < coordinator.actors.len() && (#[trigger] coordinator.actors[i]).key == key;
        assert(keys[i] == key);
        assert(coordinator.groups().contains(key));
    }
    let after = coordinator.leased(key, lane);
    if after.actors.len() > coordinator.actors.len() {
        assert(after.actors.drop_last() =~= coordinator.actors);
        assert(Seq::<u64>::empty().push(coordinator.next_client) =~= seq![coordinator.next_client]);
    }
}

/// The end of a lease: an actor whose last client it was retires and counts until it has joined;
/// any other keeps its remaining clients. Other actors are as they were, and so is everything where
/// no actor is concerned.
pub proof fn law_last_client_retires_its_actor(
    coordinator: CoordinatorModel,
    at: int,
    client: u64,
)
    requires
        coordinator.valid(),
        0 <= at < coordinator.actors.len(),
    ensures
        ({
            let actor = coordinator.actors[at];
            let after = coordinator.lease_ended(actor.key, actor.lane, client);
            let alone = forall|i: int|
                0 <= i < actor.clients.len() ==> (#[trigger] actor.clients[i]) == client;
            &&& alone ==> {
                &&& coordinator.retires(actor.key, actor.lane, client) == Some(actor.id)
                &&& after.actors == coordinator.actors.remove(at)
                &&& after.retiring == coordinator.retiring + 1
            }
            &&& !alone ==> {
                &&& coordinator.retires(actor.key, actor.lane, client) is None
                &&& after.retiring == coordinator.retiring
                &&& after.actors.len() == coordinator.actors.len()
                &&& after.actors[at].id == actor.id
                &&& after.actors[at].pending == actor.pending
                &&& forall|other: u64| #[trigger]
                    after.actors[at].clients.contains(other) <==> actor.clients.contains(other)
                        && other != client
                &&& forall|i: int|
                    0 <= i < coordinator.actors.len() && i != at ==> (#[trigger] after.actors[i])
                        == coordinator.actors[i]
            }
            &&& after.source_group_cap == coordinator.source_group_cap
            &&& after.next_actor == coordinator.next_actor
            &&& after.next_client == coordinator.next_client
        }),
{
    lemma_actor_at(coordinator, at);
    let actor = coordinator.actors[at];
    crate::decode::source_actor::law_ended_leases_leave_the_others(actor.clients, client, client);
    assert forall|other: u64| #[trigger]
        without_id(actor.clients, client).contains(other) <==> actor.clients.contains(other) && other
            != client by {
        crate::decode::source_actor::law_ended_leases_leave_the_others(
            actor.clients,
            client,
            other,
        );
    }
}

/// What concerns no running actor changes nothing.
pub proof fn law_unknown_actors_change_nothing(
    coordinator: CoordinatorModel,
    key: SourceKeyModel,
    lane: MonitorSessionLane,
    client: u64,
)
    requires
        forall|i: int|
            0 <= i < coordinator.actors.len() ==> !((#[trigger] coordinator.actors[i]).key == key
                && coordinator.actors[i].lane == lane),
    ensures
        coordinator.lease_ended(key, lane, client) == coordinator,
        coordinator.retires(key, lane, client) is None,
        coordinator.start_failed(key, lane) == coordinator,
        coordinator.enqueued(key, lane, client) == coordinator,
        !coordinator.admits(key, lane, client),
{
    assert(!coordinator.has_actor(key, lane)) by {
        if coordinator.has_actor(key, lane) {
            let i = coordinator.actor_at(key, lane);
            assert(serves_at(coordinator.actors, i, key, lane));
        }
    }
}

/// An actor that could not be started is gone, and the others stay; a client that asks for attention
/// is queued with its own actor and with no other.
pub proof fn law_steps_concern_one_actor(coordinator: CoordinatorModel, at: int, client: u64)
    requires
        coordinator.valid(),
        0 <= at < coordinator.actors.len(),
    ensures
        ({
            let actor = coordinator.actors[at];
            let failed = coordinator.start_failed(actor.key, actor.lane);
            let queued = coordinator.enqueued(actor.key, actor.lane, client);
            &&& failed.actors == coordinator.actors.remove(at)
            &&& failed.retiring == coordinator.retiring
            &&& queued.actors == coordinator.actors.update(at, actor.enqueued(client))
            &&& queued.retiring == coordinator.retiring
            &&& coordinator.admits(actor.key, actor.lane, client) == actor.admits(client)
        }),
{
    lemma_actor_at(coordinator, at);
}

/// Identities are given out one after the other.
pub proof fn law_identities_follow_each_other(id: u64)
    ensures
        id < u64::MAX ==> successor(id) == id + 1,
        successor(id) != id,
{
}

/// An actor serves whoever has waited longest, and passes over one whose lease has ended; the others wait
/// on in their order, and no other actor is touched.
pub proof fn law_clients_are_served_in_turn(
    coordinator: &mut MonitorSourceCoordinator,
    key: &MonitorSourceKey,
    lane: MonitorSessionLane,
    client: Option<u64>,
    at: int,
)
    requires
        call_ensures(MonitorSourceCoordinator::next_client, (coordinator, key, lane), client),
        old(coordinator)@.valid(),
        0 <= at < old(coordinator)@.actors.len(),
        old(coordinator)@.actors[at].key == key@,
        old(coordinator)@.actors[at].lane == lane,
    ensures
        ({
            let actor = old(coordinator)@.actors[at];
            let after = final(coordinator)@;
            &&& actor.pending.len() == 0 ==> client is None && after == old(coordinator)@
            &&& actor.pending.len() > 0 ==> {
                &&& client is Some <==> actor.clients.contains(actor.pending[0])
                &&& client is Some ==> client == Some(actor.pending[0])
                &&& after.actors.len() == old(coordinator)@.actors.len()
                &&& after.actors[at].pending == actor.pending.drop_first()
                &&& after.actors[at].clients == actor.clients
                &&& forall|i: int|
                    0 <= i < after.actors.len() && i != at ==> (#[trigger] after.actors[i]) == old(coordinator)@.actors[i]
                &&& after.retiring == old(coordinator)@.retiring
            }
        }),
{
    lemma_actor_at(old(coordinator)@, at);
}

/// An actor that has joined frees its place, and what is reported is what is there.
pub proof fn law_joined_actors_free_their_place(coordinator: &mut MonitorSourceCoordinator)
    requires
        call_ensures(MonitorSourceCoordinator::joined, (coordinator,), ()),
        old(coordinator)@.retiring > 0,
    ensures
        final(coordinator)@.retiring == old(coordinator)@.retiring - 1,
        final(coordinator)@.actors == old(coordinator)@.actors,
        final(coordinator)@.source_group_cap == old(coordinator)@.source_group_cap,
        final(coordinator)@.next_actor == old(coordinator)@.next_actor,
        final(coordinator)@.next_client == old(coordinator)@.next_client,
{
}

/// What a coordinator reports is what it holds.
pub proof fn law_coordinator_reports_what_it_holds(
    coordinator: &MonitorSourceCoordinator,
    seen: MonitorSourceCoordinatorDiagnostics,
)
    requires
        call_ensures(MonitorSourceCoordinator::diagnostics, (coordinator,), seen),
        2 * coordinator@.source_group_cap <= usize::MAX,
    ensures
        seen.live_lane_actors == coordinator@.actors.len(),
        seen.retiring_lane_actors == coordinator@.retiring,
        seen.source_group_cap == coordinator@.source_group_cap,
        seen.lane_actor_cap == 2 * coordinator@.source_group_cap,
        seen.live_source_groups <= seen.live_lane_actors,
{
    keys_of(coordinator@.actors).lemma_cardinality_of_set();
}

} // verus!
