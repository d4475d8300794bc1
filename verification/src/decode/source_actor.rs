//! Source/lane actors: who they serve, and who waits for their attention.
use crate::decode::request::{AccelerationPreference, DecodeRequest, DecoderClosed, RequestModel};
use crate::decode::session_pool::MonitorSessionLane;
use crate::source_path::{PathModel, SourcePath};
use std::collections::VecDeque;
use vstd::prelude::*;

verus! {

/// The most clients that wait for one actor.
pub const MAX_SOURCE_ACTOR_CLIENTS: usize = 64;

/// What an actor decodes: one file, under one medium, with one acceleration policy.
#[derive(Debug)]
pub struct MonitorSourceKey {
    pub media_id: u32,
    pub path: SourcePath,
    pub acceleration: AccelerationPreference,
}

/// The mathematical value of a [`MonitorSourceKey`].
pub struct SourceKeyModel {
    pub media_id: u32,
    pub path: PathModel,
    pub acceleration: AccelerationPreference,
}

impl View for MonitorSourceKey {
    type V = SourceKeyModel;

    open spec fn view(&self) -> SourceKeyModel {
        SourceKeyModel {
            media_id: self.media_id,
            path: self.path@,
            acceleration: self.acceleration,
        }
    }
}

impl Clone for MonitorSourceKey {
    fn clone(&self) -> (copy: Self)
        ensures
            copy@ == self@,
    {
        MonitorSourceKey {
            media_id: self.media_id,
            path: self.path.clone(),
            acceleration: self.acceleration,
        }
    }
}

/// The source that a request reads.
pub open spec fn source_of(request: RequestModel) -> SourceKeyModel {
    SourceKeyModel {
        media_id: request.media_id,
        path: request.path,
        acceleration: request.acceleration,
    }
}

impl MonitorSourceKey {
    pub fn from_request(request: &DecodeRequest) -> (key: Self)
        ensures
            key@ == source_of(request@),
    {
        MonitorSourceKey {
            media_id: request.media_id,
            path: request.path.clone(),
            acceleration: request.acceleration,
        }
    }

    pub fn same_source(&self, other: &MonitorSourceKey) -> (same: bool)
        ensures
            same == (self@ == other@),
    {
        self.media_id == other.media_id && self.path == other.path && self.acceleration
            == other.acceleration
    }
}

/// `ids` without every one that is not in `alive`.
pub open spec fn only_alive(ids: Seq<u64>, alive: Seq<u64>) -> Seq<u64>
    decreases ids.len(),
{
    if ids.len() == 0 {
        Seq::empty()
    } else if alive.contains(ids.last()) {
        only_alive(ids.drop_last(), alive).push(ids.last())
    } else {
        only_alive(ids.drop_last(), alive)
    }
}

/// `ids` without `gone`.
pub open spec fn without_id(ids: Seq<u64>, gone: u64) -> Seq<u64>
    decreases ids.len(),
{
    if ids.len() == 0 {
        Seq::empty()
    } else if ids.last() == gone {
        without_id(ids.drop_last(), gone)
    } else {
        without_id(ids.drop_last(), gone).push(ids.last())
    }
}

/// The mathematical value of a [`SourceLaneActor`].
#[verifier::ext_equal]
pub struct ActorModel {
    pub id: u64,
    pub key: SourceKeyModel,
    pub lane: MonitorSessionLane,
    /// The clients that hold a lease of the actor.
    pub clients: Seq<u64>,
    /// The clients that wait for the actor, first come first.
    pub pending: Seq<u64>,
}

impl ActorModel {
    /// The actor once clients without a lease were dropped from its queue.
    pub open spec fn pruned(self) -> ActorModel {
        ActorModel { pending: only_alive(self.pending, self.clients), ..self }
    }

    /// Whether the queue has a place for `client`, or it already waits there.
    pub open spec fn admits(self, client: u64) -> bool {
        self.pruned().pending.contains(client) || self.pruned().pending.len()
            < MAX_SOURCE_ACTOR_CLIENTS
    }

    /// The actor once `client` asked for its attention.
    pub open spec fn enqueued(self, client: u64) -> ActorModel {
        if !self.admits(client) || self.pruned().pending.contains(client) {
            self.pruned()
        } else {
            ActorModel { pending: self.pruned().pending.push(client), ..self }
        }
    }

    /// The queue keeps to its bound, and nobody waits twice.
    pub open spec fn valid(self) -> bool {
        self.pending.len() <= MAX_SOURCE_ACTOR_CLIENTS && self.pending.no_duplicates()
    }
}

/// One actor that decodes a source on one lane.
#[derive(Debug)]
pub struct SourceLaneActor {
    id: u64,
    key: MonitorSourceKey,
    lane: MonitorSessionLane,
    clients: Vec<u64>,
    pending: VecDeque<u64>,
}

impl View for SourceLaneActor {
    type V = ActorModel;

    closed spec fn view(&self) -> ActorModel {
        ActorModel {
            id: self.id,
            key: self.key@,
            lane: self.lane,
            clients: self.clients@,
            pending: self.pending@,
        }
    }
}

fn contains_id(ids: &Vec<u64>, id: u64) -> (found: bool)
    ensures
        found == ids@.contains(id),
{
    let mut i: usize = 0;
    while i < ids.len()
        invariant
            i <= ids@.len(),
            forall|j: int| 0 <= j < i ==> ids@[j] != id,
        decreases ids@.len() - i,
    {
        if ids[i] == id {
            assert(ids@[i as int] == id);
            return true;
        }
        i += 1;
    }
    false
}

impl SourceLaneActor {
    pub fn new(id: u64, key: MonitorSourceKey, lane: MonitorSessionLane) -> (actor: Self)
        ensures
            actor@ == (ActorModel {
                id,
                key: key@,
                lane,
                clients: Seq::empty(),
                pending: Seq::empty(),
            }),
            actor@.valid(),
    {
        let actor = SourceLaneActor { id, key, lane, clients: Vec::new(), pending: VecDeque::new() };
        assert(actor@.clients =~= Seq::empty());
        assert(actor@.pending =~= Seq::empty());
        actor
    }

    pub fn id(&self) -> (id: u64)
        ensures
            id == self@.id,
    {
        self.id
    }

    /// Whether this actor decodes `key` on `lane`.
    pub fn serves(&self, key: &MonitorSourceKey, lane: MonitorSessionLane) -> (serves: bool)
        ensures
            serves == (self@.key == key@ && self@.lane == lane),
    {
        self.lane == lane && self.key.same_source(key)
    }

    /// Whether two actors decode the same source.
    pub fn same_group(&self, other: &SourceLaneActor) -> (same: bool)
        ensures
            same == (self@.key == other@.key),
    {
        self.key.same_source(&other.key)
    }

    pub fn serves_source(&self, key: &MonitorSourceKey) -> (serves: bool)
        ensures
            serves == (self@.key == key@),
    {
        self.key.same_source(key)
    }

    /// Gives `client` a lease of the actor.
    pub fn attach_client(&mut self, client: u64)
        ensures
            final(self)@ == (ActorModel { clients: old(self)@.clients.push(client), ..old(self)@ }),
    {
        self.clients.push(client);
    }

    /// Ends the lease of `client`. Returns whether nobody holds one any more.
    pub fn detach_client(&mut self, client: u64) -> (idle: bool)
        ensures
            final(self)@ == (ActorModel {
                clients: without_id(old(self)@.clients, client),
                ..old(self)@
            }),
            idle == (final(self)@.clients.len() == 0),
    {
        let mut kept: Vec<u64> = Vec::new();
        let mut i: usize = 0;
        assert(kept@ =~= without_id(self.clients@.take(0), client));
        while i < self.clients.len()
            invariant
                i <= self.clients@.len(),
                kept@ == without_id(self.clients@.take(i as int), client),
            decreases self.clients@.len() - i,
        {
            assert(self.clients@.take(i + 1).drop_last() =~= self.clients@.take(i as int));
            if self.clients[i] != client {
                kept.push(self.clients[i]);
            }
            i += 1;
        }
        assert(self.clients@.take(i as int) =~= self.clients@);
        self.clients = kept;
        self.clients.len() == 0
    }

    /// How many clients wait.
    pub fn queued(&self) -> (count: usize)
        ensures
            count == self@.pending.len(),
    {
        self.pending.len()
    }

    /// Whether `client` waits.
    fn awaits(&self, client: u64) -> (waits: bool)
        ensures
            waits == self@.pending.contains(client),
    {
        let mut i: usize = 0;
        while i < self.pending.len()
            invariant
                i <= self.pending@.len(),
                forall|j: int| 0 <= j < i ==> self.pending@[j] != client,
            decreases self.pending@.len() - i,
        {
            if self.pending[i] == client {
                assert(self.pending@[i as int] == client);
                return true;
            }
            i += 1;
        }
        false
    }

    /// Drops the clients from the queue whose lease has ended.
    pub fn prune_dead_clients(&mut self)
        ensures
            final(self)@ == old(self)@.pruned(),
            old(self)@.valid() ==> final(self)@.valid(),
    {
        let mut kept: VecDeque<u64> = VecDeque::new();
        let mut i: usize = 0;
        assert(kept@ =~= only_alive(self.pending@.take(0), self.clients@));
        while i < self.pending.len()
            invariant
                i <= self.pending@.len(),
                kept@ == only_alive(self.pending@.take(i as int), self.clients@),
            decreases self.pending@.len() - i,
        {
            assert(self.pending@.take(i + 1).drop_last() =~= self.pending@.take(i as int));
            if contains_id(&self.clients, self.pending[i]) {
                kept.push_back(self.pending[i]);
            }
            i += 1;
        }
        assert(self.pending@.take(i as int) =~= self.pending@);
        proof {
            lemma_only_alive(self.pending@, self.clients@);
        }
        self.pending = kept;
    }

    /// Asks for the actor's attention on behalf of `client`, unless too many wait already.
    pub fn enqueue_client(&mut self, client: u64) -> (queued: Result<(), DecoderClosed>)
        requires
            old(self)@.valid(),
        ensures
            final(self)@.valid(),
            final(self)@ == old(self)@.enqueued(client),
            queued == (if old(self)@.admits(client) {
                Ok(())
            } else {
                Err(DecoderClosed::SourceCapacityDeferred)
            }),
    {
        self.prune_dead_clients();
        if !self.awaits(client) {
            if self.pending.len() >= MAX_SOURCE_ACTOR_CLIENTS {
                return Err(DecoderClosed::SourceCapacityDeferred);
            }
            self.pending.push_back(client);
        }
        Ok(())
    }

    /// Takes the client that has waited longest, if it still holds a lease.
    pub fn next_client(&mut self) -> (client: Option<u64>)
        requires
            old(self)@.valid(),
        ensures
            final(self)@.valid(),
            final(self)@ == (ActorModel {
                pending: if old(self)@.pending.len() == 0 {
                    old(self)@.pending
                } else {
                    old(self)@.pending.drop_first()
                },
                ..old(self)@
            }),
            client == (if old(self)@.pending.len() > 0 && old(self)@.clients.contains(
                old(self)@.pending[0],
            ) {
                Some(old(self)@.pending[0])
            } else {
                None
            }),
    {
        let ghost before = self.pending@;
        let client: u64 = match self.pending.pop_front() {
            Some(client) => client,
            None => {
                return None;
            },
        };
        assert(self.pending@ =~= before.drop_first());
        assert(self.pending@.no_duplicates()) by {
            assert forall|i: int, j: int|
                0 <= i < self.pending@.len() && 0 <= j < self.pending@.len() && i
                    != j implies self.pending@[i] != self.pending@[j] by {
                assert(before[i + 1] != before[j + 1]);
            }
        }
        if contains_id(&self.clients, client) {
            Some(client)
        } else {
            None
        }
    }
}

/// Dropping clients keeps the others in order, each at most as often as before.
pub proof fn lemma_only_alive(ids: Seq<u64>, alive: Seq<u64>)
    ensures
        only_alive(ids, alive).len() <= ids.len(),
        ids.no_duplicates() ==> only_alive(ids, alive).no_duplicates(),
        forall|id: u64| #[trigger]
            only_alive(ids, alive).contains(id) <==> ids.contains(id) && alive.contains(id),
    decreases ids.len(),
{
    if ids.len() > 0 {
        let rest = ids.drop_last();
        let last = ids.last();
        lemma_only_alive(rest, alive);
        let kept = only_alive(rest, alive);
        assert(ids.contains(last));
        assert forall|id: u64| #[trigger] only_alive(ids, alive).contains(id) <==> ids.contains(id)
            && alive.contains(id) by {
            if ids.contains(id) {
                let i = choose|i: int| 0 <= i < ids.len() && ids[i] == id;
                if i < rest.len() {
                    assert(rest[i] == id);
                }
            }
            if rest.contains(id) {
                let i = choose|i: int| 0 <= i < rest.len() && rest[i] == id;
                assert(ids[i] == id);
            }
            if alive.contains(last) {
                let pushed = kept.push(last);
                if kept.contains(id) {
                    let i = choose|i: int| 0 <= i < kept.len() && kept[i] == id;
                    assert(pushed[i] == id);
                }
                assert(pushed[kept.len() as int] == last);
                if pushed.contains(id) {
                    let i = choose|i: int| 0 <= i < pushed.len() && pushed[i] == id;
                    if i < kept.len() {
                        assert(kept[i] == id);
                    }
                }
            }
        }
        if ids.no_duplicates() {
            assert(rest.no_duplicates()) by {
                assert forall|i: int, j: int|
                    0 <= i < rest.len() && 0 <= j < rest.len() && i != j implies rest[i]
                    != rest[j] by {
                    assert(ids[i] != ids[j]);
                }
            }
            if alive.contains(last) && kept.contains(last) {
                assert(rest.contains(last));
                let i = choose|i: int| 0 <= i < rest.len() && rest[i] == last;
                assert(ids[i] != ids[ids.len() - 1]);
            }
        }
    }
}

/// Ending a lease takes that client out and leaves the others.
pub proof fn lemma_without_id(ids: Seq<u64>, gone: u64)
    ensures
        without_id(ids, gone).len() <= ids.len(),
        forall|id: u64| #[trigger]
            without_id(ids, gone).contains(id) <==> ids.contains(id) && id != gone,
    decreases ids.len(),
{
    if ids.len() > 0 {
        let rest = ids.drop_last();
        let last = ids.last();
        lemma_without_id(rest, gone);
        let kept = without_id(rest, gone);
        assert forall|id: u64| #[trigger] without_id(ids, gone).contains(id) <==> ids.contains(id)
            && id != gone by {
            assert(ids[ids.len() - 1] == last);
            if ids.contains(id) {
                let i = choose|i: int| 0 <= i < ids.len() && ids[i] == id;
                if i < rest.len() {
                    assert(rest[i] == id);
                }
            }
            if rest.contains(id) {
                let i = choose|i: int| 0 <= i < rest.len() && rest[i] == id;
                assert(ids[i] == id);
            }
            if last != gone {
                let pushed = kept.push(last);
                if kept.contains(id) {
                    let i = choose|i: int| 0 <= i < kept.len() && kept[i] == id;
                    assert(pushed[i] == id);
                }
                assert(pushed[kept.len() as int] == last);
                if pushed.contains(id) {
                    let i = choose|i: int| 0 <= i < pushed.len() && pushed[i] == id;
                    if i < kept.len() {
                        assert(kept[i] == id);
                    }
                }
            }
        }
    }
}

/// A client whose lease has ended never keeps one that holds a lease from waiting: only those
/// with a lease count against the bound of the queue.
pub proof fn law_dead_clients_do_not_fill_the_queue(actor: ActorModel, client: u64)
    requires
        actor.valid(),
        actor.clients.no_duplicates(),
        actor.clients.len() <= MAX_SOURCE_ACTOR_CLIENTS,
        actor.clients.contains(client),
    ensures
        actor.admits(client),
        actor.enqueued(client).pending.contains(client),
        forall|id: u64| #[trigger]
            actor.enqueued(client).pending.contains(id) ==> actor.clients.contains(id),
{
    lemma_only_alive(actor.pending, actor.clients);
    let live = actor.pruned().pending;
    if !live.contains(client) {
        let pushed = live.push(client);
        assert(pushed.no_duplicates()) by {
            assert forall|i: int, j: int|
                0 <= i < pushed.len() && 0 <= j < pushed.len() && i != j implies pushed[i]
                != pushed[j] by {
                if i < live.len() {
                    assert(live.contains(live[i]));
                }
                if j < live.len() {
                    assert(live.contains(live[j]));
                }
            }
        }
        assert(pushed[live.len() as int] == client);
        assert forall|id: u64| #[trigger] pushed.contains(id) implies actor.clients.contains(id) by {
            let i = choose|i: int| 0 <= i < pushed.len() && pushed[i] == id;
            if i < live.len() {
                assert(live.contains(id));
            }
        }
        pushed.unique_seq_to_set();
        actor.clients.unique_seq_to_set();
        assert(pushed.to_set().subset_of(actor.clients.to_set()));
        vstd::set_lib::lemma_len_subset(pushed.to_set(), actor.clients.to_set());
    }
}

/// An actor is told apart by the file, the medium and the acceleration that its requests ask for.
pub proof fn law_actors_are_told_apart_by_source(a: RequestModel, b: RequestModel)
    ensures
        source_of(a) == source_of(b) <==> a.media_id == b.media_id && a.path == b.path
            && a.acceleration == b.acceleration,
{
}

/// A client joins the end of the queue once, clients whose lease has ended leave it, and the others
/// keep their order. It is refused exactly where it does not wait yet and 64 others do.
pub proof fn law_clients_queue_in_order(actor: ActorModel, client: u64, i: int, j: int)
    requires
        actor.valid(),
    ensures
        ({
            let kept = actor.pruned().pending;
            let after = actor.enqueued(client).pending;
            &&& actor.admits(client) <==> kept.contains(client) || kept.len() < 64
            &&& actor.admits(client) && kept.contains(client) ==> after == kept
            &&& actor.admits(client) && !kept.contains(client) ==> after == kept.push(client)
            &&& !actor.admits(client) ==> after == kept
            &&& actor.enqueued(client).clients == actor.clients
            &&& actor.enqueued(client).id == actor.id
            &&& actor.enqueued(client).key == actor.key
            &&& actor.enqueued(client).lane == actor.lane
            &&& actor.pruned().clients == actor.clients
            &&& forall|id: u64| #[trigger] kept.contains(id) <==> actor.pending.contains(id)
                && actor.clients.contains(id)
        }),
        0 <= i < j < actor.pending.len() && actor.clients.contains(actor.pending[i])
            && actor.clients.contains(actor.pending[j]) ==> exists|k: int, l: int|
            0 <= k < l < actor.pruned().pending.len() && #[trigger] actor.pruned().pending[k]
                == actor.pending[i] && #[trigger] actor.pruned().pending[l] == actor.pending[j],
{
    lemma_only_alive(actor.pending, actor.clients);
    if 0 <= i < j < actor.pending.len() && actor.clients.contains(actor.pending[i])
        && actor.clients.contains(actor.pending[j]) {
        let places = lemma_alive_keep_their_order(actor.pending, actor.clients, i, j);
        assert(actor.pruned().pending[places.0] == actor.pending[i]);
        assert(actor.pruned().pending[places.1] == actor.pending[j]);
    }
}

proof fn lemma_alive_keeps(ids: Seq<u64>, alive: Seq<u64>, i: int) -> (place: int)
    requires
        0 <= i < ids.len(),
        alive.contains(ids[i]),
    ensures
        0 <= place < only_alive(ids, alive).len(),
        only_alive(ids, alive)[place] == ids[i],
    decreases ids.len(),
{
    if i == ids.len() - 1 {
        only_alive(ids, alive).len() - 1
    } else {
        assert(ids.drop_last()[i] == ids[i]);
        lemma_alive_keeps(ids.drop_last(), alive, i)
    }
}

proof fn lemma_alive_keep_their_order(ids: Seq<u64>, alive: Seq<u64>, i: int, j: int) -> (places: (
    int,
    int,
))
    requires
        0 <= i < j < ids.len(),
        alive.contains(ids[i]),
        alive.contains(ids[j]),
    ensures
        0 <= places.0 < places.1 < only_alive(ids, alive).len(),
        only_alive(ids, alive)[places.0] == ids[i],
        only_alive(ids, alive)[places.1] == ids[j],
    decreases ids.len(),
{
    let rest = ids.drop_last();
    if j == ids.len() - 1 {
        assert(rest[i] == ids[i]);
        (lemma_alive_keeps(rest, alive, i), only_alive(ids, alive).len() - 1)
    } else {
        assert(rest[i] == ids[i] && rest[j] == ids[j]);
        lemma_alive_keep_their_order(rest, alive, i, j)
    }
}

/// Ending a lease takes every mention of that client out and none of another.
pub proof fn law_ended_leases_leave_the_others(ids: Seq<u64>, gone: u64, other: u64)
    ensures
        without_id(ids, gone).contains(other) <==> ids.contains(other) && other != gone,
        without_id(ids, gone).len() == 0 <==> forall|i: int|
            0 <= i < ids.len() ==> (#[trigger] ids[i]) == gone,
{
    lemma_without_id(ids, gone);
    let rest = without_id(ids, gone);
    if rest.len() == 0 {
        assert forall|i: int| 0 <= i < ids.len() implies (#[trigger] ids[i]) == gone by {
            assert(ids.contains(ids[i]));
            if ids[i] != gone {
                assert(rest.contains(ids[i]));
            }
        }
    } else {
        assert(rest.contains(rest[0]));
        let k = choose|k: int| 0 <= k < ids.len() && ids[k] == rest[0];
        assert(ids[k] != gone);
    }
}

/// Two sources are the same exactly where medium, path and acceleration are.
pub proof fn law_same_source_is_same_file(
    left: &MonitorSourceKey,
    right: &MonitorSourceKey,
    same: bool,
)
    requires
        call_ensures(MonitorSourceKey::same_source, (left, right), same),
    ensures
        same <==> left.media_id == right.media_id && left.path@ == right.path@ && left.acceleration
            == right.acceleration,
{
}

/// A source is named by what its request reads.
pub proof fn law_source_is_what_its_request_reads(request: &DecodeRequest, key: MonitorSourceKey)
    requires
        call_ensures(MonitorSourceKey::from_request, (request,), key),
    ensures
        key.media_id == request.media_id,
        key.path@ == request.path@,
        key.acceleration == request.acceleration,
{
    assert(key@.media_id == key.media_id);
    assert(key@.path == key.path@);
}

} // verus!
