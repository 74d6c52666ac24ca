//! The receiving side of the peers of a node: a queue for each peer, and
//! pools that gather the requests of their clients into fair batches.

use crate::communication::channel::BoundedQueue;
use crate::communication::intmap_spec::{
    entries, intmap_get, intmap_insert, intmap_new, intmap_remove, no_entries, IndexMap,
};
use crate::node_id::NodeId;
use vstd::prelude::*;

verus! {

/// The most messages that wait for the tasks of a node.
pub const NODE_CHAN_BOUND: usize = 50000;

/// The most requests of one client that wait to be batched.
pub const CLIENT_QUEUE_BOUND: usize = 32;

/// The most messages of one replica that wait to be processed.
pub const REPLICA_QUEUE_BOUND: usize = 1024;

/// The first pause of a pool that found too few requests, in microseconds.
pub const BACKOFF_BASE_MICROS: u64 = 100;

/// Calls `fastrand::usize` with the range from zero to `n`, which must not
/// be empty. What comes back depends on chance: it lies in the range.
#[verifier::external_body]
fn random_below(n: usize) -> (r: usize)
    requires
        n > 0,
    ensures
        r < n,
{
    fastrand::usize(0..n)
}

/// The queue of the messages of one peer.
pub struct ConnectedPeer<T> {
    client_id: NodeId,
    queue: BoundedQueue<T>,
    disconnected: bool,
}

impl<T> ConnectedPeer<T> {
    /// The id of the peer, in contracts.
    pub closed spec fn spec_id(&self) -> NodeId {
        self.client_id
    }

    /// The messages that wait, oldest first, in contracts.
    pub closed spec fn waiting(&self) -> Seq<T> {
        self.queue@
    }

    /// Whether the peer is disconnected, in contracts.
    pub closed spec fn spec_dc(&self) -> bool {
        self.disconnected
    }

    /// The most messages that wait, in contracts.
    pub closed spec fn spec_bound(&self) -> usize {
        self.queue.spec_bound()
    }

    /// No more messages wait than the queue holds.
    pub closed spec fn wf(&self) -> bool {
        self.queue.wf()
    }

    /// The queue of a peer that just connected: it is empty and holds up to
    /// `per_client_bound` messages.
    pub fn new(client_id: NodeId, per_client_bound: usize) -> (p: ConnectedPeer<T>)
        ensures
            p.wf(),
            p.spec_id() == client_id,
            p.waiting().len() == 0,
            !p.spec_dc(),
            p.spec_bound() == per_client_bound,
    {
        ConnectedPeer { client_id, queue: BoundedQueue::new(per_client_bound), disconnected: false }
    }

    /// The id of the peer.
    pub fn client_id(&self) -> (id: &NodeId)
        ensures
            *id == self.spec_id(),
    {
        &self.client_id
    }

    /// Whether the peer is disconnected.
    pub fn is_dc(&self) -> (r: bool)
        ensures
            r == self.spec_dc(),
    {
        self.disconnected
    }

    /// Marks the peer as disconnected: it takes no more messages.
    pub fn disconnect(&mut self)
        ensures
            final(self).spec_dc(),
            final(self).spec_id() == old(self).spec_id(),
            final(self).waiting() == old(self).waiting(),
            final(self).spec_bound() == old(self).spec_bound(),
            final(self).wf() == old(self).wf(),
    {
        self.disconnected = true;
    }

    /// The number of messages that wait.
    pub fn len(&self) -> (n: usize)
        ensures
            n == self.waiting().len(),
    {
        self.queue.len()
    }

    /// Moves up to `rq_bound` of the oldest messages to the end of
    /// `dump_vec`, oldest first, and says how many were moved.
    pub fn dump_n_requests(&mut self, rq_bound: usize, dump_vec: &mut Vec<T>) -> (moved: usize)
        requires
            old(self).wf(),
        ensures
            final(self).wf(),
            final(self).spec_id() == old(self).spec_id(),
            final(self).spec_dc() == old(self).spec_dc(),
            final(self).spec_bound() == old(self).spec_bound(),
            moved == min(rq_bound as int, old(self).waiting().len() as int),
            final(dump_vec)@ == old(dump_vec)@ + old(self).waiting().take(moved as int),
            final(self).waiting() == old(self).waiting().skip(moved as int),
    {
        self.queue.dump_n(rq_bound, dump_vec)
    }

    /// Queues a message of the peer. The message comes back where the peer
    /// is disconnected or its queue is full: the receiving pipeline has to
    /// wait, and the peer with it.
    pub fn push_request(&mut self, msg: T) -> (r: Result<(), T>)
        requires
            old(self).wf(),
        ensures
            final(self).wf(),
            final(self).spec_id() == old(self).spec_id(),
            final(self).spec_dc() == old(self).spec_dc(),
            final(self).spec_bound() == old(self).spec_bound(),
            r is Ok <==> (!old(self).spec_dc() && old(self).waiting().len() < old(self).spec_bound()),
            r is Ok ==> final(self).waiting() == old(self).waiting().push(msg),
            r matches Err(back) ==> back == msg && final(self).waiting() == old(self).waiting(),
    {
        if self.disconnected {
            return Err(msg);
        }
        self.queue.try_push(msg)
    }
}

/// The smaller of two numbers.
pub open spec fn min(a: int, b: int) -> int {
    if a <= b {
        a
    } else {
        b
    }
}

/// The share of the client that a walk over `k` clients visits at its step
/// `i`, in a batch of `b` requests: the batch size divided by the number of
/// clients, and one more for the first clients of the walk, as many as the
/// division leaves over. The shares of a walk make up the batch.
pub open spec fn share_at(b: nat, k: nat, i: nat) -> nat
    recommends
        k > 0,
{
    if i < k {
        (b / k + (if i < b % k {
            1nat
        } else {
            0nat
        })) as nat
    } else {
        0
    }
}

/// The shares of the first `v` clients of a walk, together.
pub open spec fn shares_upto(b: nat, k: nat, v: nat) -> nat
    decreases v,
{
    if v == 0 {
        0
    } else {
        shares_upto(b, k, (v - 1) as nat) + share_at(b, k, (v - 1) as nat)
    }
}

/// The requests that wait in the first `v` of the queues, together.
pub open spec fn supply_upto(supplies: Seq<nat>, v: nat) -> nat
    decreases v,
{
    if v == 0 {
        0
    } else {
        supply_upto(supplies, (v - 1) as nat) + supplies[v - 1]
    }
}

/// How many requests the first `v` clients of a walk give to a batch of `b`
/// requests with room for `room` when the walk visits them first. A client
/// gives what it has, up to its allowance and to the room that is left; its
/// allowance is its share and what the clients before it left of theirs.
pub open spec fn first_total(supplies: Seq<nat>, b: nat, room: nat, v: nat) -> nat
    decreases v,
{
    if v == 0 {
        0
    } else {
        let i = (v - 1) as nat;
        let before = first_total(supplies, b, room, i);
        let allowance = shares_upto(b, supplies.len(), v) - before;
        (before + min(min(supplies[i as int] as int, allowance), room - before)) as nat
    }
}

/// How many requests the client at step `i` of a walk gives when the walk
/// visits it first.
pub open spec fn first_taken(supplies: Seq<nat>, b: nat, room: nat, i: nat) -> nat {
    let before = first_total(supplies, b, room, i);
    let allowance = shares_upto(b, supplies.len(), i + 1) - before;
    min(min(supplies[i as int] as int, allowance), room - before) as nat
}

/// How many requests the first `v` clients of a walk give when the walk
/// comes round to them again: what the first round left of the room goes
/// to the clients that have more, in the order of the walk.
pub open spec fn second_total(supplies: Seq<nat>, b: nat, room: nat, v: nat) -> nat
    decreases v,
{
    if v == 0 {
        0
    } else {
        let i = (v - 1) as nat;
        let before = second_total(supplies, b, room, i);
        let left = room - first_total(supplies, b, room, supplies.len()) - before;
        (before + min(supplies[i as int] - first_taken(supplies, b, room, i), left)) as nat
    }
}

/// How many requests the client at step `i` of a walk gives when the walk
/// comes round to it again.
pub open spec fn second_taken(supplies: Seq<nat>, b: nat, room: nat, i: nat) -> nat {
    let left = room - first_total(supplies, b, room, supplies.len()) - second_total(supplies, b, room, i);
    min(supplies[i as int] - first_taken(supplies, b, room, i), left) as nat
}

/// How many requests the client at step `i` of a walk gives to the batch.
pub open spec fn taken_at(supplies: Seq<nat>, b: nat, room: nat, i: nat) -> nat {
    first_taken(supplies, b, room, i) + second_taken(supplies, b, room, i)
}

/// The place in the pool of the client that a walk from `start` visits at
/// its step `i`, where the pool has `k` clients.
pub open spec fn walk_index(start: nat, i: int, k: nat) -> int
    recommends
        k > 0,
{
    (start % k + i) % (k as int)
}

/// The requests that the first `v` clients of a walk give when the walk
/// visits them first: of each its oldest, in the order of the walk. The
/// queues are in the order of the walk.
pub open spec fn first_gathered<T>(queues: Seq<Seq<T>>, b: nat, room: nat, v: nat) -> Seq<T>
    decreases v,
{
    if v == 0 {
        Seq::empty()
    } else {
        let i = (v - 1) as nat;
        first_gathered(queues, b, room, i) + queues[i as int].take(
            first_taken(lengths(queues), b, room, i) as int,
        )
    }
}

/// The requests that the first `v` clients of a walk give when the walk
/// comes round to them again: of each the oldest that it kept.
pub open spec fn second_gathered<T>(queues: Seq<Seq<T>>, b: nat, room: nat, v: nat) -> Seq<T>
    decreases v,
{
    if v == 0 {
        Seq::empty()
    } else {
        let i = (v - 1) as nat;
        let once = first_taken(lengths(queues), b, room, i) as int;
        second_gathered(queues, b, room, i) + queues[i as int].subrange(
            once,
            once + second_taken(lengths(queues), b, room, i),
        )
    }
}

/// The requests that a walk over the queues gathers, which are in the
/// order of the walk.
pub open spec fn gathered<T>(queues: Seq<Seq<T>>, b: nat, room: nat) -> Seq<T> {
    first_gathered(queues, b, room, queues.len()) + second_gathered(queues, b, room, queues.len())
}

/// The lengths of the queues.
pub open spec fn lengths<T>(queues: Seq<Seq<T>>) -> Seq<nat> {
    Seq::new(queues.len(), |i: int| queues[i].len())
}

/// The shares of the first `v` of `k` clients are `v` times the batch size
/// divided by `k`, and one more for each of them that is among the first
/// that the division leaves over; the shares of all make up the batch.
pub proof fn lemma_shares(b: nat, k: nat, v: nat)
    requires
        k > 0,
    ensures
        v <= k ==> shares_upto(b, k, v) == v * (b / k) + min(v as int, (b % k) as int),
        shares_upto(b, k, v) <= b,
        v >= k ==> shares_upto(b, k, v) == b,
    decreases v,
{
    let q = b / k;
    let r = b % k;
    assert(b == k * q + r) by (nonlinear_arith)
        requires
            q == b / k,
            r == b % k,
            k > 0,
    ;
    if v > 0 {
        lemma_shares(b, k, (v - 1) as nat);
        if v <= k {
            assert(v * q == (v - 1) * q + q) by (nonlinear_arith);
            assert(v * q <= k * q) by (nonlinear_arith)
                requires
                    v <= k,
                    q >= 0,
            ;
        }
    }
}

/// The first round of a walk gives no client more than its allowance, and
/// the batch no more than it has room for.
pub proof fn lemma_first_round(supplies: Seq<nat>, b: nat, room: nat, v: nat)
    requires
        supplies.len() > 0,
    ensures
        first_total(supplies, b, room, v) <= shares_upto(b, supplies.len(), v),
        first_total(supplies, b, room, v) <= room,
        first_total(supplies, b, room, v) <= b,
        v <= supplies.len() ==> first_total(supplies, b, room, v) <= supply_upto(supplies, v),
    decreases v,
{
    lemma_shares(b, supplies.len(), v);
    if v > 0 {
        lemma_first_round(supplies, b, room, (v - 1) as nat);
    }
}

/// The second round of a walk gives the batch no more than the first round
/// left room for, and takes from no client more than it kept. Where room
/// is left after it, every client that it came to gave all that it had.
pub proof fn lemma_second_round(supplies: Seq<nat>, b: nat, room: nat, v: nat)
    requires
        supplies.len() > 0,
        v <= supplies.len(),
    ensures
        first_total(supplies, b, room, supplies.len()) + second_total(supplies, b, room, v) <= room,
        first_total(supplies, b, room, v) + second_total(supplies, b, room, v) <= supply_upto(supplies, v),
        first_total(supplies, b, room, supplies.len()) + second_total(supplies, b, room, v) < room
            ==> first_total(supplies, b, room, v) + second_total(supplies, b, room, v) == supply_upto(
            supplies,
            v,
        ),
    decreases v,
{
    lemma_first_round(supplies, b, room, supplies.len());
    lemma_first_round(supplies, b, room, v);
    if v > 0 {
        let i = (v - 1) as nat;
        lemma_second_round(supplies, b, room, i);
        lemma_first_round(supplies, b, room, i);
    }
}

/// A walk fills the batch where enough requests wait: the batch gets what
/// there is room for, or everything that waits where that is less.
pub proof fn lemma_walk_fills(supplies: Seq<nat>, b: nat, room: nat)
    requires
        supplies.len() > 0,
    ensures
        first_total(supplies, b, room, supplies.len()) + second_total(supplies, b, room, supplies.len())
            == min(room as int, supply_upto(supplies, supplies.len()) as int),
{
    lemma_second_round(supplies, b, room, supplies.len());
}

/// No client is passed over: a client gives at least the batch size divided
/// by the number of clients, or all that it has, or all the room that is
/// left when the walk comes to it; into an empty batch of a pool with no
/// more clients than a batch has requests, room is left for every client.
pub proof fn lemma_fair_share(supplies: Seq<nat>, b: nat, room: nat, i: nat)
    requires
        i < supplies.len(),
    ensures
        first_taken(supplies, b, room, i) >= min(
            min(supplies[i as int] as int, (b / supplies.len()) as int),
            room - first_total(supplies, b, room, i),
        ),
        room == b ==> taken_at(supplies, b, room, i) >= min(
            supplies[i as int] as int,
            (b / supplies.len()) as int,
        ),
{
    let k = supplies.len();
    lemma_first_round(supplies, b, room, i);
    lemma_shares(b, k, i);
    lemma_shares(b, k, i + 1);
    lemma_shares(b, k, k);
    lemma_shares_grow(b, k, i + 1, k);
}

/// The shares of more clients are no less.
pub proof fn lemma_shares_grow(b: nat, k: nat, v: nat, w: nat)
    requires
        v <= w,
    ensures
        shares_upto(b, k, v) <= shares_upto(b, k, w),
    decreases w,
{
    if v < w {
        lemma_shares_grow(b, k, v, (w - 1) as nat);
    }
}

/// Fairness of one walk: where every client of the pool has at least the
/// batch size divided by the number of clients, rounded up, waiting, a walk
/// into an empty batch takes from each client its share and no more, and
/// so no two clients differ in what they give by more than one.
pub proof fn lemma_fair_pass(supplies: Seq<nat>, b: nat, i: nat, j: nat)
    requires
        i < supplies.len(),
        j < supplies.len(),
        forall|c: int| 0 <= c < supplies.len() ==> supplies[c] >= b / supplies.len() + 1,
    ensures
        taken_at(supplies, b, b, i) == share_at(b, supplies.len(), i),
        taken_at(supplies, b, b, j) == share_at(b, supplies.len(), j),
        taken_at(supplies, b, b, i) - taken_at(supplies, b, b, j) <= 1,
{
    lemma_shares_taken(supplies, b, i);
    lemma_shares_taken(supplies, b, i + 1);
    lemma_shares_taken(supplies, b, j);
    lemma_shares_taken(supplies, b, j + 1);
    lemma_shares_taken(supplies, b, supplies.len());
    lemma_shares(b, supplies.len(), supplies.len());
    lemma_second_round(supplies, b, b, i);
    lemma_second_round(supplies, b, b, j);
}

/// Where every client has at least a full share waiting, the first round
/// of a walk into an empty batch takes from the clients their shares.
pub proof fn lemma_shares_taken(supplies: Seq<nat>, b: nat, v: nat)
    requires
        v <= supplies.len(),
        forall|c: int| 0 <= c < supplies.len() ==> supplies[c] >= b / supplies.len() + 1,
    ensures
        first_total(supplies, b, b, v) == shares_upto(b, supplies.len(), v),
    decreases v,
{
    if v > 0 {
        let k = supplies.len();
        lemma_shares_taken(supplies, b, (v - 1) as nat);
        lemma_shares(b, k, k);
        lemma_shares_grow(b, k, v, k);
    }
}

/// The first place at which a client with the given id stands among
/// `clients`, or their number where none does.
pub open spec fn first_with_id<T>(clients: Seq<ConnectedPeer<T>>, id: NodeId) -> int
    decreases clients.len(),
{
    if clients.len() == 0 {
        0
    } else if clients[0].spec_id() == id {
        0
    } else {
        1 + first_with_id(clients.drop_first(), id)
    }
}

/// The place `at` is the first with the id, if the client there has the id
/// and no client before it has.
pub proof fn lemma_first_with_id<T>(clients: Seq<ConnectedPeer<T>>, id: NodeId, at: int)
    requires
        0 <= at < clients.len(),
        clients[at].spec_id() == id,
        forall|j: int| 0 <= j < at ==> clients[j].spec_id() != id,
    ensures
        first_with_id(clients, id) == at,
    decreases clients.len(),
{
    if at > 0 {
        let rest = clients.drop_first();
        assert(rest[at - 1] == clients[at]);
        assert forall|j: int| 0 <= j < at - 1 implies rest[j].spec_id() != id by {
            assert(rest[j] == clients[j + 1]);
        }
        lemma_first_with_id(rest, id, at - 1);
    }
}

/// The first place with the id is a place among `clients` or their
/// number; a client with the id stands there, if it is a place, and none
/// stands before it.
pub proof fn lemma_first_with_id_bounds<T>(clients: Seq<ConnectedPeer<T>>, id: NodeId)
    ensures
        0 <= first_with_id(clients, id) <= clients.len(),
        first_with_id(clients, id) < clients.len() ==> clients[first_with_id(clients, id)].spec_id()
            == id,
        forall|j: int| 0 <= j < first_with_id(clients, id) ==> (#[trigger] clients[j]).spec_id() != id,
    decreases clients.len(),
{
    if clients.len() > 0 && clients[0].spec_id() != id {
        let rest = clients.drop_first();
        lemma_first_with_id_bounds(rest, id);
        let f = first_with_id(clients, id);
        assert forall|j: int| 0 <= j < f implies (#[trigger] clients[j]).spec_id() != id by {
            if j > 0 {
                assert(clients[j] == rest[j - 1]);
            }
        }
        if f < clients.len() {
            assert(clients[f] == rest[f - 1]);
        }
    }
}

/// Clients with the same ids, place for place, have the same first place
/// with an id.
pub proof fn lemma_first_with_same_ids<T>(a: Seq<ConnectedPeer<T>>, b: Seq<ConnectedPeer<T>>, id: NodeId)
    requires
        a.len() == b.len(),
        forall|j: int| 0 <= j < a.len() ==> (#[trigger] a[j]).spec_id() == b[j].spec_id(),
    ensures
        first_with_id(a, id) == first_with_id(b, id),
{
    lemma_first_with_id_bounds(a, id);
    lemma_first_with_id_bounds(b, id);
    let f = first_with_id(a, id);
    let g = first_with_id(b, id);
    if f < g {
        assert(a[f].spec_id() == b[f].spec_id());
    }
    if g < f {
        assert(a[g].spec_id() == b[g].spec_id());
    }
}

/// A pool of clients whose requests are gathered into batches together.
pub struct ConnectedPeersPool<T> {
    connected_clients: Vec<ConnectedPeer<T>>,
    batch_size: usize,
    capacity: usize,
    finish_execution: bool,
}

/// The queues of the clients, in the order of the pool.
pub open spec fn queues_of<T>(clients: Seq<ConnectedPeer<T>>) -> Seq<Seq<T>> {
    Seq::new(clients.len(), |i: int| clients[i].waiting())
}

/// The queues of the clients, in the order of a walk from `start`.
pub open spec fn queues_in_walk<T>(clients: Seq<ConnectedPeer<T>>, start: nat) -> Seq<Seq<T>> {
    Seq::new(clients.len(), |i: int| clients[walk_index(start, i, clients.len())].waiting())
}

/// The clients that are connected, in their order.
pub open spec fn live<T>(clients: Seq<ConnectedPeer<T>>) -> Seq<ConnectedPeer<T>> {
    clients.filter(|c: ConnectedPeer<T>| !c.spec_dc())
}

/// The ids of the clients that are disconnected, in their order.
pub open spec fn gone<T>(clients: Seq<ConnectedPeer<T>>) -> Seq<NodeId> {
    clients.filter(|c: ConnectedPeer<T>| c.spec_dc()).map_values(|c: ConnectedPeer<T>| c.spec_id())
}

/// What a walk from `start` over the clients `before` of a pool does, where
/// a batch has `b` requests and `batch_before` were gathered already: each
/// client gives its oldest requests to the batch, as many as `taken_at`
/// says, in the order of the walk and round after round, and keeps the
/// others; nothing else changes.
pub open spec fn walked<T>(
    before: Seq<ConnectedPeer<T>>,
    start: nat,
    b: nat,
    batch_before: Seq<T>,
    after: Seq<ConnectedPeer<T>>,
    batch_after: Seq<T>,
) -> bool {
    let k = before.len();
    let room = (b - batch_before.len()) as nat;
    let queues = queues_in_walk(before, start);
    &&& after.len() == k
    &&& batch_after == batch_before + gathered(queues, b, room)
    &&& forall|i: int|
        0 <= i < k ==> (#[trigger] after[walk_index(start, i, k)]).waiting() == queues[i].skip(
            taken_at(lengths(queues), b, room, i as nat) as int,
        )
    &&& forall|j: int|
        0 <= j < k ==> (#[trigger] after[j]).spec_id() == before[j].spec_id() && after[j].spec_dc()
            == before[j].spec_dc()
}

/// How many requests wait in the queues of the clients, together.
pub open spec fn supply_of<T>(clients: Seq<ConnectedPeer<T>>) -> nat {
    supply_upto(lengths(queues_of(clients)), clients.len())
}

/// What gathering a batch does to the clients `before` of a pool, where a
/// batch has `b` requests and `batch_before` were gathered already: the
/// clients that are disconnected leave, and one walk is made over the
/// others, from some place among them. The batch is full after it, or
/// holds every request that waited with a client that stays.
pub open spec fn collected<T>(
    before: Seq<ConnectedPeer<T>>,
    b: nat,
    batch_before: Seq<T>,
    after: Seq<ConnectedPeer<T>>,
    batch_after: Seq<T>,
) -> bool {
    let alive = live(before);
    &&& batch_after.len() == min(b as int, (batch_before.len() + supply_of(alive)) as int)
    &&& if alive.len() == 0 {
        after.len() == 0 && batch_after == batch_before
    } else {
        exists|start: nat|
            start < alive.len() && #[trigger] walked(alive, start, b, batch_before, after, batch_after)
    }
}

impl<T> ConnectedPeersPool<T> {
    /// The clients of the pool, in contracts.
    pub closed spec fn clients(&self) -> Seq<ConnectedPeer<T>> {
        self.connected_clients@
    }

    /// The size of a batch, in contracts.
    pub closed spec fn spec_batch_size(&self) -> usize {
        self.batch_size
    }

    /// The most clients that the pool takes, in contracts.
    pub closed spec fn spec_capacity(&self) -> usize {
        self.capacity
    }

    /// Whether the pool was told to stop, in contracts.
    pub closed spec fn stopped(&self) -> bool {
        self.finish_execution
    }

    /// The pool has no more clients than it takes, which are no more than a
    /// batch has requests, and their queues are well formed.
    pub open spec fn wf(&self) -> bool {
        &&& self.clients().len() <= self.spec_capacity()
        &&& self.spec_capacity() <= self.spec_batch_size()
        &&& forall|i: int| 0 <= i < self.clients().len() ==> (#[trigger] self.clients()[i]).wf()
    }

    /// An empty pool that gathers batches of `client_count` requests from up
    /// to as many clients.
    pub fn new(client_count: usize) -> (p: ConnectedPeersPool<T>)
        ensures
            p.wf(),
            p.clients().len() == 0,
            p.spec_batch_size() == client_count,
            p.spec_capacity() == client_count,
            !p.stopped(),
    {
        ConnectedPeersPool {
            connected_clients: Vec::new(),
            batch_size: client_count,
            capacity: client_count,
            finish_execution: false,
        }
    }

    /// An empty pool that gathers batches of `batch_size` requests from up
    /// to `clients_per_pool` clients, and from no more clients than a batch
    /// has requests.
    pub fn with_capacity(batch_size: usize, clients_per_pool: usize) -> (p: ConnectedPeersPool<T>)
        ensures
            p.wf(),
            p.clients().len() == 0,
            p.spec_batch_size() == batch_size,
            p.spec_capacity() == (if clients_per_pool <= batch_size {
                clients_per_pool
            } else {
                batch_size
            }),
            !p.stopped(),
    {
        let capacity = if clients_per_pool <= batch_size {
            clients_per_pool
        } else {
            batch_size
        };
        ConnectedPeersPool {
            connected_clients: Vec::new(),
            batch_size,
            capacity,
            finish_execution: false,
        }
    }

    /// The number of clients in the pool.
    pub fn len(&self) -> (n: usize)
        ensures
            n == self.clients().len(),
    {
        self.connected_clients.len()
    }

    /// The size of a batch.
    pub fn batch_size(&self) -> (n: usize)
        ensures
            n == self.spec_batch_size(),
    {
        self.batch_size
    }

    /// Adds a client to the pool, or hands it back where the pool is full.
    pub fn attempt_to_add(&mut self, client: ConnectedPeer<T>) -> (r: Result<(), ConnectedPeer<T>>)
        requires
            old(self).wf(),
            client.wf(),
        ensures
            final(self).wf(),
            final(self).spec_batch_size() == old(self).spec_batch_size(),
            final(self).spec_capacity() == old(self).spec_capacity(),
            final(self).stopped() == old(self).stopped(),
            r is Ok <==> old(self).clients().len() < old(self).spec_capacity(),
            r is Ok ==> final(self).clients() == old(self).clients().push(client),
            r matches Err(back) ==> back == client && final(self).clients() == old(self).clients(),
    {
        if self.connected_clients.len() < self.capacity {
            self.connected_clients.push(client);
            return Ok(());
        }
        Err(client)
    }

    /// The place of the client with the given id in the pool: the first at
    /// which a client with that id stands.
    pub fn position(&self, client_id: &NodeId) -> (r: Option<usize>)
        ensures
            r is Some ==> r->0 < self.clients().len() && self.clients()[r->0 as int].spec_id()
                == *client_id,
            r is Some ==> forall|j: int| 0 <= j < r->0 ==> self.clients()[j].spec_id() != *client_id,
            r is Some ==> r->0 == first_with_id(self.clients(), *client_id),
            r is None ==> forall|j: int|
                0 <= j < self.clients().len() ==> self.clients()[j].spec_id() != *client_id,
    {
        let mut i: usize = 0;
        while i < self.connected_clients.len()
            invariant
                i <= self.connected_clients.len(),
                forall|j: int| 0 <= j < i ==> self.clients()[j].spec_id() != *client_id,
            decreases self.connected_clients.len() - i,
        {
            if self.connected_clients[i].client_id().0 == client_id.0 {
                proof {
                    lemma_first_with_id(self.clients(), *client_id, i as int);
                }
                return Some(i);
            }
            i += 1;
        }
        None
    }

    /// Removes the client with the given id from the pool: the last client
    /// takes its place. What comes back says whether the pool is empty now;
    /// there is an error where the pool has no such client.
    pub fn attempt_to_remove(&mut self, client_id: &NodeId) -> (r: Result<bool, ()>)
        requires
            old(self).wf(),
        ensures
            final(self).wf(),
            final(self).spec_batch_size() == old(self).spec_batch_size(),
            final(self).spec_capacity() == old(self).spec_capacity(),
            final(self).stopped() == old(self).stopped(),
            r is Ok <==> exists|j: int|
                0 <= j < old(self).clients().len() && (#[trigger] old(self).clients()[j]).spec_id()
                    == *client_id,
            r is Err ==> *final(self) == *old(self),
            r is Ok ==> {
                let at = first_with_id(old(self).clients(), *client_id);
                &&& final(self).clients() == old(self).clients().update(
                    at,
                    old(self).clients().last(),
                ).drop_last()
                &&& r->Ok_0 == (final(self).clients().len() == 0)
            },
    {
        match self.position(client_id) {
            None => Err(()),
            Some(position) => {
                let _ = self.connected_clients.swap_remove(position);
                Ok(self.connected_clients.is_empty())
            },
        }
    }

    /// Tells the pool to stop.
    pub fn shutdown(&mut self)
        ensures
            final(self).stopped(),
            final(self).clients() == old(self).clients(),
            final(self).spec_batch_size() == old(self).spec_batch_size(),
            final(self).spec_capacity() == old(self).spec_capacity(),
    {
        self.finish_execution = true;
    }

    /// Whether the pool was told to stop.
    pub fn is_shutdown(&self) -> (r: bool)
        ensures
            r == self.stopped(),
    {
        self.finish_execution
    }

    /// The client at place `i`.
    pub fn client(&self, i: usize) -> (c: &ConnectedPeer<T>)
        requires
            i < self.clients().len(),
        ensures
            *c == self.clients()[i as int],
    {
        &self.connected_clients[i]
    }

    /// Queues a message of the client at place `i`: see
    /// `ConnectedPeer::push_request`.
    pub fn push_request(&mut self, i: usize, msg: T) -> (r: Result<(), T>)
        requires
            old(self).wf(),
            i < old(self).clients().len(),
        ensures
            final(self).wf(),
            final(self).spec_batch_size() == old(self).spec_batch_size(),
            final(self).spec_capacity() == old(self).spec_capacity(),
            final(self).stopped() == old(self).stopped(),
            final(self).clients().len() == old(self).clients().len(),
            forall|j: int|
                0 <= j < old(self).clients().len() && j != i ==> final(self).clients()[j] == old(
                    self,
                ).clients()[j],
            final(self).clients()[i as int].spec_id() == old(self).clients()[i as int].spec_id(),
            final(self).clients()[i as int].spec_dc() == old(self).clients()[i as int].spec_dc(),
            final(self).clients()[i as int].spec_bound() == old(self).clients()[i as int].spec_bound(),
            r is Ok <==> (!old(self).clients()[i as int].spec_dc() && old(
                self,
            ).clients()[i as int].waiting().len() < old(self).clients()[i as int].spec_bound()),
            r is Ok ==> final(self).clients()[i as int].waiting() == old(
                self,
            ).clients()[i as int].waiting().push(msg),
            r is Err ==> final(self).clients()[i as int].waiting() == old(
                self,
            ).clients()[i as int].waiting(),
            r matches Err(back) ==> back == msg,
    {
        self.connected_clients[i].push_request(msg)
    }

    /// Marks the client at place `i` as disconnected.
    pub fn disconnect(&mut self, i: usize)
        requires
            old(self).wf(),
            i < old(self).clients().len(),
        ensures
            final(self).wf(),
            final(self).spec_batch_size() == old(self).spec_batch_size(),
            final(self).spec_capacity() == old(self).spec_capacity(),
            final(self).stopped() == old(self).stopped(),
            final(self).clients().len() == old(self).clients().len(),
            forall|j: int|
                0 <= j < old(self).clients().len() && j != i ==> final(self).clients()[j] == old(
                    self,
                ).clients()[j],
            final(self).clients()[i as int].spec_dc(),
            final(self).clients()[i as int].spec_id() == old(self).clients()[i as int].spec_id(),
            final(self).clients()[i as int].waiting() == old(self).clients()[i as int].waiting(),
            final(self).clients()[i as int].spec_bound() == old(self).clients()[i as int].spec_bound(),
    {
        self.connected_clients[i].disconnect();
    }

    /// Drops the clients that are disconnected, and says who they were.
    pub fn remove_disconnected(&mut self) -> (dced: Vec<NodeId>)
        requires
            old(self).wf(),
        ensures
            final(self).wf(),
            final(self).spec_batch_size() == old(self).spec_batch_size(),
            final(self).spec_capacity() == old(self).spec_capacity(),
            final(self).stopped() == old(self).stopped(),
            final(self).clients() == live(old(self).clients()),
            dced@ == gone(old(self).clients()),
            forall|i: int| 0 <= i < final(self).clients().len() ==> !(#[trigger] final(self).clients()[i]).spec_dc(),
    {
        let ghost keep = |c: ConnectedPeer<T>| !c.spec_dc();
        let ghost drop = |c: ConnectedPeer<T>| c.spec_dc();
        let ghost id_of = |c: ConnectedPeer<T>| c.spec_id();
        let mut kept: Vec<ConnectedPeer<T>> = Vec::new();
        let mut dced: Vec<NodeId> = Vec::new();
        let mut all: Vec<ConnectedPeer<T>> = Vec::new();
        std::mem::swap(&mut all, &mut self.connected_clients);
        let ghost clients = all@;
        let n = all.len();
        let mut rest: Vec<ConnectedPeer<T>> = Vec::with_capacity(n);
        while all.len() > 0
            invariant
                all@.len() + rest@.len() == n,
                n == clients.len(),
                forall|i: int| 0 <= i < all@.len() ==> all@[i] == clients[i],
                forall|i: int| 0 <= i < rest@.len() ==> rest@[i] == clients[n - 1 - i],
            decreases all@.len(),
        {
            match all.pop() {
                Some(c) => {
                    rest.push(c);
                },
                None => {},
            }
        }
        let mut k: usize = 0;
        while rest.len() > 0
            invariant
                k + rest@.len() == n,
                n == clients.len(),
                keep == (|c: ConnectedPeer<T>| !c.spec_dc()),
                drop == (|c: ConnectedPeer<T>| c.spec_dc()),
                id_of == (|c: ConnectedPeer<T>| c.spec_id()),
                forall|i: int| 0 <= i < rest@.len() ==> rest@[i] == clients[n - 1 - i],
                kept@ == clients.take(k as int).filter(keep),
                dced@ == clients.take(k as int).filter(drop).map_values(id_of),
                kept@.len() <= k,
                forall|i: int| 0 <= i < kept@.len() ==> !(#[trigger] kept@[i]).spec_dc() && kept@[i].wf(),
                forall|i: int| 0 <= i < clients.len() ==> (#[trigger] clients[i]).wf(),
            decreases rest@.len(),
        {
            match rest.pop() {
                Some(c) => {
                    proof {
                        assert(c == clients[k as int]);
                        let t = clients.take(k + 1);
                        assert(t.drop_last() == clients.take(k as int));
                        reveal(Seq::filter);
                    }
                    if c.is_dc() {
                        dced.push(*c.client_id());
                        assert(dced@ =~= clients.take(k + 1).filter(drop).map_values(id_of));
                    } else {
                        kept.push(c);
                        assert(dced@ =~= clients.take(k + 1).filter(drop).map_values(id_of));
                    }
                    k += 1;
                },
                None => {},
            }
        }
        assert(clients.take(k as int) == clients);
        self.connected_clients = kept;
        dced
    }

    /// One walk over the clients of the pool, which are all connected: from
    /// the client at place `start_point`, counted modulo the number of
    /// clients, each client in turn gives its oldest requests to `batch`, up
    /// to its allowance and to the room left in the batch; then the walk
    /// goes round once more and takes what there is room for. The batch is
    /// full after it where enough requests waited.
    #[verifier::rlimit(60)]
    pub fn collect_pass(&mut self, start_point: usize, batch: &mut Vec<T>)
        requires
            old(self).wf(),
            old(self).clients().len() > 0,
            old(batch)@.len() <= old(self).spec_batch_size(),
        ensures
            final(self).wf(),
            final(self).spec_batch_size() == old(self).spec_batch_size(),
            final(self).spec_capacity() == old(self).spec_capacity(),
            final(self).stopped() == old(self).stopped(),
            final(self).clients().len() == old(self).clients().len(),
            final(batch)@.len() <= old(self).spec_batch_size(),
            walked(
                old(self).clients(),
                start_point as nat,
                old(self).spec_batch_size() as nat,
                old(batch)@,
                final(self).clients(),
                final(batch)@,
            ),
            final(batch)@.len() == min(
                old(self).spec_batch_size() as int,
                (old(batch)@.len() + supply_of(old(self).clients())) as int,
            ),
    {
        let k = self.connected_clients.len();
        let b = self.batch_size;
        let each: usize = b / k;
        let over: usize = b % k;
        let first = start_point % k;
        let ghost room0 = (b - old(batch)@.len()) as nat;
        let ghost queues = queues_in_walk(old(self).clients(), start_point as nat);
        let ghost supplies = lengths(queues);
        assert(over > 0 ==> each < b) by (nonlinear_arith)
            requires
                each == b / k,
                over == b % k,
                0 < k <= b,
        ;
        let mut allowance: usize = if 0 < over {
            each + 1
        } else {
            each
        };
        proof {
            lemma_shares(b as nat, k as nat, 1);
            assert(shares_upto(b as nat, k as nat, 0) == 0);
            assert(shares_upto(b as nat, k as nat, 1) == share_at(b as nat, k as nat, 0));
            assert(first_gathered(queues, b as nat, room0, 0) =~= Seq::<T>::empty());
            assert(batch@ =~= old(batch)@ + first_gathered(queues, b as nat, room0, 0));
        }
        let mut index: usize = 0;
        while index < k
            invariant
                index <= k,
                k == old(self).clients().len(),
                k == self.clients().len(),
                0 < k <= b,
                b == self.batch_size,
                b == old(self).batch_size,
                each == b / k,
                over == b % k,
                self.capacity == old(self).capacity,
                self.finish_execution == old(self).finish_execution,
                first == start_point % k,
                queues == queues_in_walk(old(self).clients(), start_point as nat),
                queues.len() == k,
                supplies == lengths(queues),
                room0 == (b - old(batch)@.len()) as nat,
                batch@.len() == old(batch)@.len() + first_total(supplies, b as nat, room0, index as nat),
                batch@.len() <= b,
                allowance + first_total(supplies, b as nat, room0, index as nat) == shares_upto(
                    b as nat,
                    k as nat,
                    (index + 1) as nat,
                ),
                batch@ == old(batch)@ + first_gathered(queues, b as nat, room0, index as nat),
                forall|j: int| 0 <= j < k ==> (#[trigger] self.clients()[j]).wf(),
                forall|j: int|
                    0 <= j < k ==> (#[trigger] self.clients()[j]).spec_id() == old(
                        self,
                    ).clients()[j].spec_id() && self.clients()[j].spec_dc() == old(
                        self,
                    ).clients()[j].spec_dc(),
                forall|i: int|
                    0 <= i < index ==> (#[trigger] self.clients()[walk_index(start_point as nat, i, k as nat)]).waiting() == queues[i].skip(
                        first_taken(supplies, b as nat, room0, i as nat) as int,
                    ),
                forall|i: int|
                    index <= i < k ==> (#[trigger] self.clients()[walk_index(start_point as nat, i, k as nat)]).waiting() == queues[i],
            decreases k - index,
        {
            let at = self.place_in_walk(first, index);
            assert(at == walk_index(start_point as nat, index as int, k as nat));
            let room = b - batch.len();
            let quota = if allowance <= room {
                allowance
            } else {
                room
            };
            let ghost before = self.clients();
            let ghost gathered_before = batch@;
            assert(before[at as int].waiting() == queues[index as int]);
            let taken = self.connected_clients[at].dump_n_requests(quota, batch);
            proof {
                assert(supplies[index as int] == queues[index as int].len());
                assert(taken == first_taken(supplies, b as nat, room0, index as nat));
                assert(first_total(supplies, b as nat, room0, (index + 1) as nat) == first_total(
                    supplies,
                    b as nat,
                    room0,
                    index as nat,
                ) + taken);
                assert(batch@ =~= old(batch)@ + first_gathered(queues, b as nat, room0, (index + 1) as nat));
                assert forall|i: int| 0 <= i < k && i != index implies #[trigger] walk_index(
                    start_point as nat,
                    i,
                    k as nat,
                ) != at by {
                    lemma_walk_injective(start_point as nat, i as nat, index as nat, k as nat);
                }
                lemma_shares(b as nat, k as nat, (index + 2) as nat);
            }
            let next: usize = if index + 1 < k {
                if index + 1 < over {
                    each + 1
                } else {
                    each
                }
            } else {
                0
            };
            assert(next == share_at(b as nat, k as nat, (index + 1) as nat));
            allowance = allowance - taken + next;
            index += 1;
        }
        let ghost once = first_total(supplies, b as nat, room0, k as nat);
        proof {
            assert(second_gathered(queues, b as nat, room0, 0) =~= Seq::<T>::empty());
            assert(batch@ =~= old(batch)@ + first_gathered(queues, b as nat, room0, k as nat)
                + second_gathered(queues, b as nat, room0, 0));
        }
        let mut index: usize = 0;
        while index < k
            invariant
                index <= k,
                k == old(self).clients().len(),
                k == self.clients().len(),
                0 < k <= b,
                b == self.batch_size,
                b == old(self).batch_size,
                self.capacity == old(self).capacity,
                self.finish_execution == old(self).finish_execution,
                first == start_point % k,
                queues == queues_in_walk(old(self).clients(), start_point as nat),
                queues.len() == k,
                supplies == lengths(queues),
                room0 == (b - old(batch)@.len()) as nat,
                once == first_total(supplies, b as nat, room0, k as nat),
                batch@.len() == old(batch)@.len() + once + second_total(
                    supplies,
                    b as nat,
                    room0,
                    index as nat,
                ),
                batch@.len() <= b,
                batch@ == old(batch)@ + first_gathered(queues, b as nat, room0, k as nat)
                    + second_gathered(queues, b as nat, room0, index as nat),
                forall|j: int| 0 <= j < k ==> (#[trigger] self.clients()[j]).wf(),
                forall|j: int|
                    0 <= j < k ==> (#[trigger] self.clients()[j]).spec_id() == old(
                        self,
                    ).clients()[j].spec_id() && self.clients()[j].spec_dc() == old(
                        self,
                    ).clients()[j].spec_dc(),
                forall|i: int|
                    0 <= i < index ==> (#[trigger] self.clients()[walk_index(start_point as nat, i, k as nat)]).waiting() == queues[i].skip(
                        taken_at(supplies, b as nat, room0, i as nat) as int,
                    ),
                forall|i: int|
                    index <= i < k ==> (#[trigger] self.clients()[walk_index(start_point as nat, i, k as nat)]).waiting() == queues[i].skip(
                        first_taken(supplies, b as nat, room0, i as nat) as int,
                    ),
            decreases k - index,
        {
            let at = self.place_in_walk(first, index);
            assert(at == walk_index(start_point as nat, index as int, k as nat));
            let room = b - batch.len();
            let ghost before = self.clients();
            let ghost kept = first_taken(supplies, b as nat, room0, index as nat) as int;
            proof {
                lemma_first_round(supplies, b as nat, room0, index as nat);
                assert(supplies[index as int] == queues[index as int].len());
                assert(before[at as int].waiting() == queues[index as int].skip(kept));
            }
            let ghost gathered_before = batch@;
            let taken = self.connected_clients[at].dump_n_requests(room, batch);
            proof {
                assert(taken == min(room as int, (supplies[index as int] - kept) as int));
                assert(room == room0 - once - second_total(supplies, b as nat, room0, index as nat));
                assert(taken == second_taken(supplies, b as nat, room0, index as nat));
                assert(batch@ == gathered_before + queues[index as int].skip(kept).take(taken as int));
                assert(second_total(supplies, b as nat, room0, (index + 1) as nat) == second_total(
                    supplies,
                    b as nat,
                    room0,
                    index as nat,
                ) + taken);
                assert(queues[index as int].skip(kept).take(taken as int) =~= queues[index as int].subrange(
                    kept,
                    kept + taken,
                ));
                assert(queues[index as int].skip(kept).skip(taken as int) =~= queues[index as int].skip(
                    kept + taken,
                ));
                assert(batch@ =~= old(batch)@ + first_gathered(queues, b as nat, room0, k as nat)
                    + second_gathered(queues, b as nat, room0, (index + 1) as nat));
                assert forall|i: int| 0 <= i < k && i != index implies #[trigger] walk_index(
                    start_point as nat,
                    i,
                    k as nat,
                ) != at by {
                    lemma_walk_injective(start_point as nat, i as nat, index as nat, k as nat);
                }
            }
            index += 1;
        }
        proof {
            lemma_walk_fills(supplies, b as nat, room0);
            lemma_walk_supply(old(self).clients(), start_point as nat);
            assert(batch@ =~= old(batch)@ + gathered(queues, b as nat, room0));
        }
    }

    /// The place in the pool of the client that a walk visits at its step
    /// `index`, where the walk began at place `first`.
    fn place_in_walk(&self, first: usize, index: usize) -> (at: usize)
        requires
            first < self.clients().len(),
            index < self.clients().len(),
        ensures
            at < self.clients().len(),
            at == (first + index) % (self.clients().len() as int),
    {
        let k = self.connected_clients.len();
        let at = if index < k - first {
            first + index
        } else {
            index - (k - first)
        };
        assert(at == (first + index) % (k as int)) by (nonlinear_arith)
            requires
                first < k,
                index < k,
                at == (if index < k - first {
                    first + index
                } else {
                    index - (k - first)
                }),
        ;
        at
    }

    /// Gathers requests into `batch`: the clients that are disconnected are
    /// dropped from the pool, then one walk is made over the other clients,
    /// from a place that chance picks. What comes back are the ids of the
    /// clients that were dropped.
    pub fn collect_requests(&mut self, batch: &mut Vec<T>) -> (dced: Vec<NodeId>)
        requires
            old(self).wf(),
            old(batch)@.len() <= old(self).spec_batch_size(),
        ensures
            final(self).wf(),
            final(self).spec_batch_size() == old(self).spec_batch_size(),
            final(self).spec_capacity() == old(self).spec_capacity(),
            final(self).stopped() == old(self).stopped(),
            dced@ == gone(old(self).clients()),
            final(self).clients().len() == live(old(self).clients()).len(),
            final(batch)@.len() <= old(self).spec_batch_size(),
            final(batch)@.len() >= old(batch)@.len(),
            final(batch)@.take(old(batch)@.len() as int) == old(batch)@,
            collected(
                old(self).clients(),
                old(self).spec_batch_size() as nat,
                old(batch)@,
                final(self).clients(),
                final(batch)@,
            ),
    {
        let dced = self.remove_disconnected();
        if self.connected_clients.len() == 0 {
            assert(batch@.take(batch@.len() as int) == batch@);
            return dced;
        }
        let start_point = random_below(self.connected_clients.len());
        let ghost before = self.clients();
        self.collect_pass(start_point, batch);
        assert(batch@.take(old(batch)@.len() as int) =~= old(batch)@);
        assert(walked(
            before,
            start_point as nat,
            old(self).spec_batch_size() as nat,
            old(batch)@,
            self.clients(),
            batch@,
        ));
        dced
    }
}

/// A walk finds as many requests waiting as the pool holds, wherever it
/// starts.
pub proof fn lemma_walk_supply<T>(clients: Seq<ConnectedPeer<T>>, start: nat)
    requires
        clients.len() > 0,
    ensures
        supply_upto(lengths(queues_in_walk(clients, start)), clients.len()) == supply_upto(
            lengths(queues_of(clients)),
            clients.len(),
        ),
{
    let k = clients.len();
    let first = start % k;
    let a = lengths(queues_of(clients));
    let w = lengths(queues_in_walk(clients, start));
    assert(first < k) by (nonlinear_arith)
        requires
            first == start % k,
            k > 0,
    ;
    assert forall|i: int| 0 <= i < k implies #[trigger] w[i] == a[if i < k - first {
        first + i
    } else {
        i - (k - first)
    }] by {
        let at = if i < k - first {
            first + i
        } else {
            i - (k - first)
        };
        assert(walk_index(start, i, k) == at) by (nonlinear_arith)
            requires
                first == start % k,
                first < k,
                0 <= i < k,
                at == (if i < k - first {
                    first + i
                } else {
                    i - (k - first)
                }),
                walk_index(start, i, k) == (first + i) % (k as int),
        ;
    }
    lemma_supply_turned(a, w, first, k);
}

/// The sum of a sequence of numbers from `from` up to `to`.
pub open spec fn supply_between(supplies: Seq<nat>, from: nat, to: nat) -> nat
    decreases to,
{
    if to <= from {
        0
    } else {
        supply_between(supplies, from, (to - 1) as nat) + supplies[to - 1]
    }
}

/// Numbers add up to the same when the first of them are put last.
pub proof fn lemma_supply_turned(a: Seq<nat>, w: Seq<nat>, first: nat, k: nat)
    requires
        a.len() == k,
        w.len() == k,
        first < k,
        forall|i: int|
            0 <= i < k ==> #[trigger] w[i] == a[if i < k - first {
                first + i
            } else {
                i - (k - first)
            }],
    ensures
        supply_upto(w, k) == supply_upto(a, k),
{
    lemma_turned_head(a, w, first, k, (k - first) as nat);
    lemma_turned_tail(a, w, first, k, k);
    lemma_supply_split(a, first, k);
}

/// The first numbers of the turned sequence are those from `first` on.
pub proof fn lemma_turned_head(a: Seq<nat>, w: Seq<nat>, first: nat, k: nat, v: nat)
    requires
        a.len() == k,
        w.len() == k,
        first < k,
        v <= k - first,
        forall|i: int|
            0 <= i < k ==> #[trigger] w[i] == a[if i < k - first {
                first + i
            } else {
                i - (k - first)
            }],
    ensures
        supply_upto(w, v) == supply_between(a, first, first + v),
    decreases v,
{
    if v > 0 {
        lemma_turned_head(a, w, first, k, (v - 1) as nat);
        assert(w[v - 1] == a[first + v - 1]);
    }
}

/// The last numbers of the turned sequence are those before `first`.
pub proof fn lemma_turned_tail(a: Seq<nat>, w: Seq<nat>, first: nat, k: nat, v: nat)
    requires
        a.len() == k,
        w.len() == k,
        first < k,
        k - first <= v <= k,
        forall|i: int|
            0 <= i < k ==> #[trigger] w[i] == a[if i < k - first {
                first + i
            } else {
                i - (k - first)
            }],
    ensures
        supply_upto(w, v) == supply_upto(w, (k - first) as nat) + supply_upto(a, (v - (k - first)) as nat),
    decreases v,
{
    if v > k - first {
        lemma_turned_tail(a, w, first, k, (v - 1) as nat);
        assert(w[v - 1] == a[v - 1 - (k - first)]);
    }
}

/// A sum is the sum of its first part and of the rest.
pub proof fn lemma_supply_split(a: Seq<nat>, first: nat, to: nat)
    requires
        first <= to,
    ensures
        supply_upto(a, to) == supply_upto(a, first) + supply_between(a, first, to),
    decreases to,
{
    if to > first {
        lemma_supply_split(a, first, (to - 1) as nat);
    }
}

/// A walk visits every client once: two steps of a walk over `k` clients
/// come to different clients.
pub proof fn lemma_walk_injective(start: nat, i: nat, j: nat, k: nat)
    requires
        i < k,
        j < k,
        i != j,
    ensures
        walk_index(start, i as int, k) != walk_index(start, j as int, k),
{
    let s = start % k;
    assert(s < k);
    if s + i < k {
        assert((s + i) % k == s + i) by (nonlinear_arith)
            requires
                0 <= s + i < k,
        ;
    } else {
        assert((s + i) % k == s + i - k) by (nonlinear_arith)
            requires
                k <= s + i < 2 * k,
        ;
    }
    if s + j < k {
        assert((s + j) % k == s + j) by (nonlinear_arith)
            requires
                0 <= s + j < k,
        ;
    } else {
        assert((s + j) % k == s + j - k) by (nonlinear_arith)
            requires
                k <= s + j < 2 * k,
        ;
    }
}

/// A group of pools: the clients of a node, or its replicas.
pub struct ConnectedPeersGroup<T> {
    client_pools: Vec<ConnectedPeersPool<T>>,
    client_connections_cache: IndexMap,
    connected_clients: usize,
    per_client_cache: usize,
    batch_size: usize,
    pool_size: usize,
}

/// Where a peer is found in a group: the place of its pool, and its place in
/// the pool.
pub type PeerLocation = (usize, usize);

/// One more than `n`, or the largest number where that is `n`.
pub open spec fn one_more(n: usize) -> usize {
    if n < usize::MAX {
        (n + 1) as usize
    } else {
        n
    }
}

/// `n` less `by`, or zero where that would be below zero.
pub open spec fn less(n: usize, by: usize) -> usize {
    if n >= by {
        (n - by) as usize
    } else {
        0
    }
}

/// Whether a client with the given id stands in the pool.
pub open spec fn pool_has<T>(pool: ConnectedPeersPool<T>, id: NodeId) -> bool {
    first_with_id(pool.clients(), id) < pool.clients().len()
}

/// The place of the first pool in which a client with the given id stands,
/// or the number of the pools where it stands in none.
pub open spec fn first_pool_with<T>(pools: Seq<ConnectedPeersPool<T>>, id: NodeId) -> int
    decreases pools.len(),
{
    if pools.len() == 0 {
        0
    } else if pool_has(pools[0], id) {
        0
    } else {
        1 + first_pool_with(pools.drop_first(), id)
    }
}

/// The first pool with the id is a place among `pools` or their number; the
/// pool there has the id, if it is a place, and none before it has.
pub proof fn lemma_first_pool_bounds<T>(pools: Seq<ConnectedPeersPool<T>>, id: NodeId)
    ensures
        0 <= first_pool_with(pools, id) <= pools.len(),
        first_pool_with(pools, id) < pools.len() ==> pool_has(pools[first_pool_with(pools, id)], id),
        forall|j: int| 0 <= j < first_pool_with(pools, id) ==> !pool_has(#[trigger] pools[j], id),
    decreases pools.len(),
{
    if pools.len() > 0 && !pool_has(pools[0], id) {
        let rest = pools.drop_first();
        lemma_first_pool_bounds(rest, id);
        let f = first_pool_with(pools, id);
        assert forall|j: int| 0 <= j < f implies !pool_has(#[trigger] pools[j], id) by {
            if j > 0 {
                assert(pools[j] == rest[j - 1]);
            }
        }
        if f < pools.len() {
            assert(pools[f] == rest[f - 1]);
        }
    }
}

/// Pools that have the id in the same places have the same first pool
/// with the id.
pub proof fn lemma_first_pool_same<T>(
    a: Seq<ConnectedPeersPool<T>>,
    b: Seq<ConnectedPeersPool<T>>,
    id: NodeId,
)
    requires
        a.len() == b.len(),
        forall|j: int| 0 <= j < a.len() ==> pool_has(#[trigger] a[j], id) == pool_has(b[j], id),
    ensures
        first_pool_with(a, id) == first_pool_with(b, id),
{
    lemma_first_pool_bounds(a, id);
    lemma_first_pool_bounds(b, id);
    let f = first_pool_with(a, id);
    let g = first_pool_with(b, id);
    if f < g {
        assert(pool_has(a[f], id) == pool_has(b[f], id));
    }
    if g < f {
        assert(pool_has(a[g], id) == pool_has(b[g], id));
    }
}

/// What closing the queues at the places `at` does to a group: the peers
/// there are disconnected, as are those that were so before; every queue
/// keeps its peer, its messages and its bound, and every pool its clients;
/// the group knows the peers that it knew.
pub open spec fn group_closed<T>(
    pre: ConnectedPeersGroup<T>,
    post: ConnectedPeersGroup<T>,
    at: Set<PeerLocation>,
) -> bool {
    &&& post.spec_batch_size() == pre.spec_batch_size()
    &&& post.spec_pool_size() == pre.spec_pool_size()
    &&& post.spec_per_client() == pre.spec_per_client()
    &&& post.spec_connected() == pre.spec_connected()
    &&& post.cache() == pre.cache()
    &&& post.pools().len() == pre.pools().len()
    &&& forall|p: int|
        0 <= p < pre.pools().len() ==> {
            &&& (#[trigger] post.pools()[p]).clients().len() == pre.pools()[p].clients().len()
            &&& post.pools()[p].spec_batch_size() == pre.pools()[p].spec_batch_size()
            &&& post.pools()[p].spec_capacity() == pre.pools()[p].spec_capacity()
            &&& post.pools()[p].stopped() == pre.pools()[p].stopped()
        }
    &&& forall|p: int, c: int|
        0 <= p < pre.pools().len() && 0 <= c < pre.pools()[p].clients().len() ==> {
            &&& (#[trigger] post.pools()[p].clients()[c]).spec_id() == pre.pools()[p].clients()[c].spec_id()
            &&& post.pools()[p].clients()[c].waiting() == pre.pools()[p].clients()[c].waiting()
            &&& post.pools()[p].clients()[c].spec_bound() == pre.pools()[p].clients()[c].spec_bound()
            &&& post.pools()[p].clients()[c].spec_dc() == (pre.pools()[p].clients()[c].spec_dc()
                || at.contains((p as usize, c as usize)))
        }
}

/// A group whose queues were closed finds every peer where it found it
/// before.
pub proof fn lemma_closed_keeps_place_of<T>(
    pre: ConnectedPeersGroup<T>,
    post: ConnectedPeersGroup<T>,
    at: Set<PeerLocation>,
    id: NodeId,
)
    requires
        group_closed(pre, post, at),
    ensures
        post.place_of(id) == pre.place_of(id),
{
    assert forall|p: int| 0 <= p < pre.pools().len() implies first_with_id(
        (#[trigger] post.pools()[p]).clients(),
        id,
    ) == first_with_id(pre.pools()[p].clients(), id) by {
        let a = pre.pools()[p].clients();
        let b = post.pools()[p].clients();
        assert forall|c: int| 0 <= c < a.len() implies (#[trigger] a[c]).spec_id() == b[c].spec_id() by {
            assert(post.pools()[p].clients()[c].spec_id() == pre.pools()[p].clients()[c].spec_id());
        }
        lemma_first_with_same_ids(a, b, id);
    }
    assert forall|p: int| 0 <= p < pre.pools().len() implies pool_has(#[trigger] pre.pools()[p], id)
        == pool_has(post.pools()[p], id) by {
        assert(first_with_id(post.pools()[p].clients(), id) == first_with_id(
            pre.pools()[p].clients(),
            id,
        ));
    }
    lemma_first_pool_same(pre.pools(), post.pools(), id);
    lemma_first_pool_bounds(pre.pools(), id);
    let first = first_pool_with(pre.pools(), id);
    if first < pre.pools().len() {
        assert(first_with_id(post.pools()[first].clients(), id) == first_with_id(
            pre.pools()[first].clients(),
            id,
        ));
    }
    if pre.cache().dom().contains(id.0 as u64) {
        let hint = pre.cache()[id.0 as u64];
        if hint < pre.pools().len() {
            assert(pool_has(pre.pools()[hint as int], id) == pool_has(post.pools()[hint as int], id));
            assert(first_with_id(post.pools()[hint as int].clients(), id) == first_with_id(
                pre.pools()[hint as int].clients(),
                id,
            ));
        }
    }
}

/// Closing queues at some places and then at others closes them at all of
/// these places.
pub proof fn lemma_closed_twice<T>(
    pre: ConnectedPeersGroup<T>,
    mid: ConnectedPeersGroup<T>,
    post: ConnectedPeersGroup<T>,
    first: Set<PeerLocation>,
    then: Set<PeerLocation>,
    both: Set<PeerLocation>,
)
    requires
        group_closed(pre, mid, first),
        group_closed(mid, post, then),
        forall|at: PeerLocation| both.contains(at) == (first.contains(at) || then.contains(at)),
    ensures
        group_closed(pre, post, both),
{
    assert forall|p: int| 0 <= p < pre.pools().len() implies {
        &&& (#[trigger] post.pools()[p]).clients().len() == pre.pools()[p].clients().len()
        &&& post.pools()[p].spec_batch_size() == pre.pools()[p].spec_batch_size()
        &&& post.pools()[p].spec_capacity() == pre.pools()[p].spec_capacity()
        &&& post.pools()[p].stopped() == pre.pools()[p].stopped()
    } by {
        assert(mid.pools()[p].clients().len() == pre.pools()[p].clients().len());
    }
    assert forall|p: int, c: int|
        0 <= p < pre.pools().len() && 0 <= c < pre.pools()[p].clients().len() implies {
        &&& (#[trigger] post.pools()[p].clients()[c]).spec_id() == pre.pools()[p].clients()[c].spec_id()
        &&& post.pools()[p].clients()[c].waiting() == pre.pools()[p].clients()[c].waiting()
        &&& post.pools()[p].clients()[c].spec_bound() == pre.pools()[p].clients()[c].spec_bound()
        &&& post.pools()[p].clients()[c].spec_dc() == (pre.pools()[p].clients()[c].spec_dc()
            || both.contains((p as usize, c as usize)))
    } by {
        assert(mid.pools()[p].clients().len() == pre.pools()[p].clients().len());
        assert(mid.pools()[p].clients()[c].spec_id() == pre.pools()[p].clients()[c].spec_id());
    }
}

/// Whether the queue of a peer takes another message: the peer is
/// connected and its queue is not full.
pub open spec fn takes<T>(peer: ConnectedPeer<T>) -> bool {
    !peer.spec_dc() && peer.waiting().len() < peer.spec_bound()
}

/// What queueing a message of the peer at `at` does to a group: the message
/// joins the end of the queue of the peer, where that queue takes it;
/// nothing else changes.
pub open spec fn group_pushed<T>(
    pre: ConnectedPeersGroup<T>,
    at: PeerLocation,
    msg: T,
    post: ConnectedPeersGroup<T>,
) -> bool {
    let pool = pre.pools()[at.0 as int];
    let before = pool.clients()[at.1 as int];
    let after = post.pools()[at.0 as int].clients()[at.1 as int];
    &&& post.spec_batch_size() == pre.spec_batch_size()
    &&& post.spec_pool_size() == pre.spec_pool_size()
    &&& post.spec_per_client() == pre.spec_per_client()
    &&& post.spec_connected() == pre.spec_connected()
    &&& post.cache() == pre.cache()
    &&& post.pools().len() == pre.pools().len()
    &&& forall|i: int| 0 <= i < pre.pools().len() && i != at.0 ==> post.pools()[i] == pre.pools()[i]
    &&& post.pools()[at.0 as int].spec_batch_size() == pool.spec_batch_size()
    &&& post.pools()[at.0 as int].spec_capacity() == pool.spec_capacity()
    &&& post.pools()[at.0 as int].stopped() == pool.stopped()
    &&& post.pools()[at.0 as int].clients().len() == pool.clients().len()
    &&& forall|c: int|
        0 <= c < pool.clients().len() && c != at.1 ==> post.pools()[at.0 as int].clients()[c]
            == pool.clients()[c]
    &&& after.spec_id() == before.spec_id()
    &&& after.spec_dc() == before.spec_dc()
    &&& after.spec_bound() == before.spec_bound()
    &&& after.waiting() == (if takes(before) {
        before.waiting().push(msg)
    } else {
        before.waiting()
    })
}

/// What the arrival of a peer does to a group: the peer gets an empty
/// queue at the end of the first pool that has room, or in a new pool at
/// the end of the pools where none has; the group knows the peer under
/// that pool and counts it in; nothing else changes. `at` is where the
/// peer stands, and `new_pool` whether its pool is new.
pub open spec fn joined<T>(
    pre: ConnectedPeersGroup<T>,
    id: NodeId,
    post: ConnectedPeersGroup<T>,
    at: PeerLocation,
    new_pool: bool,
) -> bool {
    &&& post.spec_batch_size() == pre.spec_batch_size()
    &&& post.spec_pool_size() == pre.spec_pool_size()
    &&& post.spec_per_client() == pre.spec_per_client()
    &&& post.cache() == pre.cache().insert(id.0 as u64, at.0 as u64)
    &&& post.spec_connected() == one_more(pre.spec_connected())
    &&& post.holds(at, id)
    &&& ({
        let added = post.pools()[at.0 as int].clients()[at.1 as int];
        &&& added.waiting().len() == 0
        &&& !added.spec_dc()
        &&& added.spec_bound() == pre.spec_per_client()
    })
    &&& new_pool <==> forall|i: int|
        0 <= i < pre.pools().len() ==> (#[trigger] pre.pools()[i]).clients().len() >= pre.spec_pool_size()
    &&& new_pool ==> {
        &&& at == (pre.pools().len() as usize, 0usize)
        &&& post.pools().len() == pre.pools().len() + 1
        &&& post.pools().take(pre.pools().len() as int) == pre.pools()
        &&& post.pools()[at.0 as int].clients().len() == 1
        &&& !post.pools()[at.0 as int].stopped()
    }
    &&& !new_pool ==> {
        &&& post.pools().len() == pre.pools().len()
        &&& at.0 < pre.pools().len()
        &&& at.1 == pre.pools()[at.0 as int].clients().len()
        &&& post.pools()[at.0 as int].clients().drop_last() == pre.pools()[at.0 as int].clients()
        &&& post.pools()[at.0 as int].stopped() == pre.pools()[at.0 as int].stopped()
        &&& forall|i: int|
            0 <= i < at.0 ==> (#[trigger] pre.pools()[i]).clients().len() >= pre.spec_pool_size()
        &&& forall|i: int|
            0 <= i < pre.pools().len() && i != at.0 ==> post.pools()[i] == pre.pools()[i]
    }
}

/// What the leaving of the peer with the given id does to a group: the
/// group forgets the peer; the first pool that holds it lets it go from the
/// first place where it stands, the last client of the pool taking that
/// place; a pool that is empty after that leaves the group, the last pool
/// taking its place. A peer that no pool holds is counted out.
pub open spec fn group_left<T>(
    pre: ConnectedPeersGroup<T>,
    id: NodeId,
    post: ConnectedPeersGroup<T>,
) -> bool {
    let pools = pre.pools();
    let p = first_pool_with(pools, id);
    &&& post.spec_batch_size() == pre.spec_batch_size()
    &&& post.spec_pool_size() == pre.spec_pool_size()
    &&& post.spec_per_client() == pre.spec_per_client()
    &&& post.cache() == pre.cache().remove(id.0 as u64)
    &&& if p < pools.len() {
        let clients = pools[p].clients();
        let rest = clients.update(first_with_id(clients, id), clients.last()).drop_last();
        &&& post.spec_connected() == pre.spec_connected()
        &&& if rest.len() == 0 {
            post.pools() == pools.update(p, pools.last()).drop_last()
        } else {
            &&& post.pools().len() == pools.len()
            &&& forall|i: int| 0 <= i < pools.len() && i != p ==> post.pools()[i] == pools[i]
            &&& post.pools()[p].clients() == rest
            &&& post.pools()[p].spec_batch_size() == pools[p].spec_batch_size()
            &&& post.pools()[p].spec_capacity() == pools[p].spec_capacity()
            &&& post.pools()[p].stopped() == pools[p].stopped()
        }
    } else {
        post.pools() == pools && post.spec_connected() == less(pre.spec_connected(), 1)
    }
}

/// The keys under which a group knows the peers with the given ids.
pub open spec fn keys_of(ids: Seq<NodeId>) -> Set<u64> {
    ids.map_values(|c: NodeId| c.0 as u64).to_set()
}

/// What gathering a batch from the pool at place `pool` does to a group:
/// the pool gathers as `collected` says; the clients that it dropped are
/// forgotten and counted out; the other pools stay as they are.
pub open spec fn group_collected<T>(
    pre: ConnectedPeersGroup<T>,
    pool: int,
    batch_before: Seq<T>,
    post: ConnectedPeersGroup<T>,
    batch_after: Seq<T>,
) -> bool {
    let dropped = gone(pre.pools()[pool].clients());
    &&& post.spec_batch_size() == pre.spec_batch_size()
    &&& post.spec_pool_size() == pre.spec_pool_size()
    &&& post.spec_per_client() == pre.spec_per_client()
    &&& post.pools().len() == pre.pools().len()
    &&& forall|i: int| 0 <= i < pre.pools().len() && i != pool ==> post.pools()[i] == pre.pools()[i]
    &&& post.pools()[pool].stopped() == pre.pools()[pool].stopped()
    &&& collected(
        pre.pools()[pool].clients(),
        pre.spec_batch_size() as nat,
        batch_before,
        post.pools()[pool].clients(),
        batch_after,
    )
    &&& post.spec_connected() == less(pre.spec_connected(), dropped.len() as usize)
    &&& post.cache() == pre.cache().remove_keys(keys_of(dropped))
}

impl<T> ConnectedPeersGroup<T> {
    /// The pools of the group, in contracts.
    pub closed spec fn pools(&self) -> Seq<ConnectedPeersPool<T>> {
        self.client_pools@
    }

    /// The peers that the group knows, each with the place of the pool that
    /// it joined, in contracts.
    pub closed spec fn cache(&self) -> Map<u64, u64> {
        entries(self.client_connections_cache)
    }

    /// The number of peers that connected and were not counted out, in
    /// contracts.
    pub closed spec fn spec_connected(&self) -> usize {
        self.connected_clients
    }

    /// The most messages of one peer that wait, in contracts.
    pub closed spec fn spec_per_client(&self) -> usize {
        self.per_client_cache
    }

    /// The size of a batch, in contracts.
    pub closed spec fn spec_batch_size(&self) -> usize {
        self.batch_size
    }

    /// The most clients in a pool, in contracts.
    pub closed spec fn spec_pool_size(&self) -> usize {
        self.pool_size
    }

    /// Every pool is well formed, gathers batches of the size of the group
    /// and takes as many clients as the group says, which is at least one
    /// and no more than a batch has requests.
    pub open spec fn wf(&self) -> bool {
        &&& 0 < self.spec_pool_size() <= self.spec_batch_size()
        &&& forall|i: int|
            0 <= i < self.pools().len() ==> (#[trigger] self.pools()[i]).wf() && self.pools()[i].spec_batch_size()
                == self.spec_batch_size() && self.pools()[i].spec_capacity() == self.spec_pool_size()
    }

    /// Whether the peer with the given id stands at `at`.
    pub open spec fn holds(&self, at: PeerLocation, id: NodeId) -> bool {
        &&& at.0 < self.pools().len()
        &&& at.1 < self.pools()[at.0 as int].clients().len()
        &&& self.pools()[at.0 as int].clients()[at.1 as int].spec_id() == id
    }

    /// Where the peer with the given id stands, if the group knows the peer
    /// and a pool holds it: in the pool that the group has it under, if it
    /// is there, else in the first pool that holds it; in that pool, at the
    /// first place with its id.
    pub open spec fn place_of(&self, id: NodeId) -> Option<PeerLocation> {
        let pools = self.pools();
        if !self.cache().dom().contains(id.0 as u64) {
            None
        } else {
            let hint = self.cache()[id.0 as u64];
            let first = first_pool_with(pools, id);
            if hint < pools.len() && pool_has(pools[hint as int], id) {
                Some((hint as usize, first_with_id(pools[hint as int].clients(), id) as usize))
            } else if first < pools.len() {
                Some((first as usize, first_with_id(pools[first].clients(), id) as usize))
            } else {
                None
            }
        }
    }

    /// Whether some pool holds the peer with the given id.
    pub open spec fn has(&self, id: NodeId) -> bool {
        exists|p: int, c: int|
            0 <= p < self.pools().len() && 0 <= c < self.pools()[p].clients().len() && (
            #[trigger] self.pools()[p].clients()[c]).spec_id() == id
    }

    /// A group without pools, whose pools will take `batch_size` peers each
    /// and whose peers will have up to `per_client_bound` messages waiting.
    pub fn new(per_client_bound: usize, batch_size: usize) -> (g: ConnectedPeersGroup<T>)
        requires
            batch_size > 0,
        ensures
            g.wf(),
            g.pools().len() == 0,
            g.cache() == no_entries(),
            g.spec_connected() == 0,
            g.spec_per_client() == per_client_bound,
            g.spec_batch_size() == batch_size,
            g.spec_pool_size() == batch_size,
    {
        ConnectedPeersGroup::with_pool_size(per_client_bound, batch_size, batch_size)
    }

    /// A group without pools, whose pools will gather batches of
    /// `batch_size` requests from up to `clients_per_pool` peers each: at
    /// least one, and no more than a batch has requests.
    pub fn with_pool_size(per_client_bound: usize, batch_size: usize, clients_per_pool: usize) -> (g:
        ConnectedPeersGroup<T>)
        requires
            batch_size > 0,
        ensures
            g.wf(),
            g.pools().len() == 0,
            g.cache() == no_entries(),
            g.spec_connected() == 0,
            g.spec_per_client() == per_client_bound,
            g.spec_batch_size() == batch_size,
            g.spec_pool_size() == (if clients_per_pool == 0 {
                1
            } else if clients_per_pool <= batch_size {
                clients_per_pool
            } else {
                batch_size
            }),
    {
        let pool_size = if clients_per_pool == 0 {
            1
        } else if clients_per_pool <= batch_size {
            clients_per_pool
        } else {
            batch_size
        };
        ConnectedPeersGroup {
            client_pools: Vec::new(),
            client_connections_cache: intmap_new(),
            connected_clients: 0,
            per_client_cache: per_client_bound,
            batch_size,
            pool_size,
        }
    }

    /// The number of peers that connected and were not counted out.
    pub fn connected_clients(&self) -> (n: usize)
        ensures
            n == self.spec_connected(),
    {
        self.connected_clients
    }

    /// The number of pools.
    pub fn pool_count(&self) -> (n: usize)
        ensures
            n == self.pools().len(),
    {
        self.client_pools.len()
    }

    /// The pool at place `i`.
    pub fn pool(&self, i: usize) -> (p: &ConnectedPeersPool<T>)
        requires
            i < self.pools().len(),
        ensures
            *p == self.pools()[i as int],
    {
        &self.client_pools[i]
    }

    /// A peer connected: it gets an empty queue in the first pool that has
    /// room, or in a new pool where none has. What comes back is where the
    /// peer stands, and whether the pool is new: a new pool needs a task
    /// that gathers its batches.
    pub fn init_client(&mut self, peer_id: NodeId) -> (r: (PeerLocation, bool))
        requires
            old(self).wf(),
        ensures
            final(self).wf(),
            final(self).spec_batch_size() == old(self).spec_batch_size(),
            final(self).spec_pool_size() == old(self).spec_pool_size(),
            final(self).spec_per_client() == old(self).spec_per_client(),
            final(self).cache() == old(self).cache().insert(peer_id.0 as u64, r.0.0 as u64),
            final(self).holds(r.0, peer_id),
            joined(*old(self), peer_id, *final(self), r.0, r.1),
    {
        let mut i: usize = 0;
        while i < self.client_pools.len() && self.client_pools[i].len() >= self.pool_size
            invariant
                i <= self.client_pools.len(),
                *self == *old(self),
                forall|j: int|
                    0 <= j < i ==> (#[trigger] self.pools()[j]).clients().len() >= self.spec_pool_size(),
            decreases self.client_pools.len() - i,
        {
            i += 1;
        }
        let connected_client = ConnectedPeer::new(peer_id, self.per_client_cache);
        intmap_insert(&mut self.client_connections_cache, peer_id.0 as u64, i as u64);
        if self.connected_clients < usize::MAX {
            self.connected_clients += 1;
        }
        if i < self.client_pools.len() {
            let at = self.client_pools[i].len();
            let ghost before = self.client_pools@;
            assert(old(self).pools()[i as int].wf());
            let r = self.client_pools[i].attempt_to_add(connected_client);
            assert(r is Ok);
            assert(self.pools()[i as int].clients().drop_last() == before[i as int].clients());
            ((i, at), false)
        } else {
            let mut pool = ConnectedPeersPool::with_capacity(self.batch_size, self.pool_size);
            let r = pool.attempt_to_add(connected_client);
            assert(r is Ok);
            self.client_pools.push(pool);
            assert(self.pools().take(old(self).pools().len() as int) == old(self).pools());
            ((i, 0), true)
        }
    }

    /// Where the peer with the given id stands, if the group knows the peer
    /// and a pool holds it: in the pool that it joined, if it is still
    /// there, else in the first pool that holds it.
    #[verifier::loop_isolation(false)]
    pub fn get_client_conn(&self, client_id: NodeId) -> (r: Option<PeerLocation>)
        ensures
            r == self.place_of(client_id),
            r is Some <==> (self.cache().dom().contains(client_id.0 as u64) && self.has(client_id)),
            r is Some ==> self.holds(r->0, client_id),
    {
        let hint = match intmap_get(&self.client_connections_cache, client_id.0 as u64) {
            None => {
                return None;
            },
            Some(h) => h,
        };
        proof {
            lemma_first_pool_bounds(self.pools(), client_id);
        }
        if hint < self.client_pools.len() as u64 {
            let p = hint as usize;
            match self.client_pools[p].position(&client_id) {
                Some(c) => {
                    assert(self.pools()[p as int].clients()[c as int].spec_id() == client_id);
                    return Some((p, c));
                },
                None => {
                    proof {
                        lemma_first_with_id_bounds(self.pools()[p as int].clients(), client_id);
                    }
                },
            }
        }
        let mut p: usize = 0;
        while p < self.client_pools.len()
            invariant
                p <= self.client_pools.len(),
                forall|a: int, c: int|
                    0 <= a < p && 0 <= c < self.pools()[a].clients().len() ==> (
                    #[trigger] self.pools()[a].clients()[c]).spec_id() != client_id,
                forall|a: int| 0 <= a < p ==> !pool_has(#[trigger] self.pools()[a], client_id),
            decreases self.client_pools.len() - p,
        {
            match self.client_pools[p].position(&client_id) {
                Some(c) => {
                    assert(self.pools()[p as int].clients()[c as int].spec_id() == client_id);
                    assert(pool_has(self.pools()[p as int], client_id));
                    return Some((p, c));
                },
                None => {
                    proof {
                        lemma_first_with_id_bounds(self.pools()[p as int].clients(), client_id);
                    }
                },
            }
            p += 1;
        }
        None
    }

    /// The size of a batch.
    pub fn batch_size(&self) -> (n: usize)
        ensures
            n == self.spec_batch_size(),
    {
        self.batch_size
    }

    /// Queues a message of the peer at `at`: see
    /// `ConnectedPeer::push_request`.
    pub fn push_request(&mut self, at: PeerLocation, msg: T) -> (r: Result<(), T>)
        requires
            old(self).wf(),
            at.0 < old(self).pools().len(),
            at.1 < old(self).pools()[at.0 as int].clients().len(),
        ensures
            final(self).wf(),
            final(self).spec_batch_size() == old(self).spec_batch_size(),
            final(self).spec_pool_size() == old(self).spec_pool_size(),
            final(self).spec_per_client() == old(self).spec_per_client(),
            final(self).spec_connected() == old(self).spec_connected(),
            final(self).cache() == old(self).cache(),
            final(self).pools().len() == old(self).pools().len(),
            ({
                let before = old(self).pools()[at.0 as int].clients()[at.1 as int];
                let after = final(self).pools()[at.0 as int].clients()[at.1 as int];
                &&& r is Ok <==> (!before.spec_dc() && before.waiting().len() < before.spec_bound())
                &&& r is Ok ==> after.waiting() == before.waiting().push(msg)
                &&& r is Err ==> after.waiting() == before.waiting()
                &&& after.spec_id() == before.spec_id()
            }),
            r matches Err(back) ==> back == msg,
            forall|i: int|
                0 <= i < old(self).pools().len() && i != at.0 ==> final(self).pools()[i] == old(
                    self,
                ).pools()[i],
            r is Ok <==> takes(old(self).pools()[at.0 as int].clients()[at.1 as int]),
            group_pushed(*old(self), at, msg, *final(self)),
    {
        self.client_pools[at.0].push_request(at.1, msg)
    }

    /// Marks the peer at `at` as disconnected: it takes no more messages,
    /// and its pool lets it go with the next batch.
    pub fn disconnect(&mut self, at: PeerLocation)
        requires
            old(self).wf(),
            at.0 < old(self).pools().len(),
            at.1 < old(self).pools()[at.0 as int].clients().len(),
        ensures
            final(self).wf(),
            final(self).spec_batch_size() == old(self).spec_batch_size(),
            final(self).spec_pool_size() == old(self).spec_pool_size(),
            final(self).spec_per_client() == old(self).spec_per_client(),
            final(self).spec_connected() == old(self).spec_connected(),
            final(self).cache() == old(self).cache(),
            final(self).pools().len() == old(self).pools().len(),
            final(self).pools()[at.0 as int].clients()[at.1 as int].spec_dc(),
            forall|p: int, c: int|
                0 <= p < old(self).pools().len() && 0 <= c < old(self).pools()[p].clients().len() ==> {
                    &&& final(self).pools()[p].clients().len() == old(self).pools()[p].clients().len()
                    &&& (#[trigger] final(self).pools()[p].clients()[c]).spec_id() == old(
                        self,
                    ).pools()[p].clients()[c].spec_id()
                    &&& final(self).pools()[p].clients()[c].waiting() == old(
                        self,
                    ).pools()[p].clients()[c].waiting()
                },
            group_closed(*old(self), *final(self), set![at]),
    {
        self.client_pools[at.0].disconnect(at.1);
        proof {
            let places = set![at];
            assert forall|p: int, c: int|
                0 <= p < old(self).pools().len() && 0 <= c < old(self).pools()[p].clients().len() implies {
                &&& (#[trigger] self.pools()[p].clients()[c]).spec_id() == old(
                    self,
                ).pools()[p].clients()[c].spec_id()
                &&& self.pools()[p].clients()[c].waiting() == old(self).pools()[p].clients()[c].waiting()
                &&& self.pools()[p].clients()[c].spec_bound() == old(
                    self,
                ).pools()[p].clients()[c].spec_bound()
                &&& self.pools()[p].clients()[c].spec_dc() == (old(self).pools()[p].clients()[c].spec_dc()
                    || places.contains((p as usize, c as usize)))
            } by {
                if p == at.0 && c == at.1 {
                    assert(places.contains((p as usize, c as usize)));
                } else {
                    assert(p <= old(self).client_pools.len());
                    assert(c <= old(self).client_pools@[p].connected_clients.len());
                    assert((p as usize, c as usize) != at);
                    assert(self.pools()[p].clients()[c] == old(self).pools()[p].clients()[c]);
                }
            }
        }
    }

    /// Forgets the peers with the given ids, and counts them out.
    pub fn del_cached_clients(&mut self, clients: Vec<NodeId>)
        ensures
            final(self).pools() == old(self).pools(),
            final(self).spec_batch_size() == old(self).spec_batch_size(),
            final(self).spec_pool_size() == old(self).spec_pool_size(),
            final(self).spec_per_client() == old(self).spec_per_client(),
            final(self).spec_connected() == less(old(self).spec_connected(), clients@.len() as usize),
            final(self).cache() == old(self).cache().remove_keys(keys_of(clients@)),
    {
        let ghost ids = clients@.map_values(|c: NodeId| c.0 as u64);
        let mut i: usize = 0;
        while i < clients.len()
            invariant
                i <= clients.len(),
                ids == clients@.map_values(|c: NodeId| c.0 as u64),
                self.pools() == old(self).pools(),
                self.batch_size == old(self).batch_size,
                self.pool_size == old(self).pool_size,
                self.per_client_cache == old(self).per_client_cache,
                self.connected_clients == old(self).connected_clients,
                self.cache() == old(self).cache().remove_keys(ids.take(i as int).to_set()),
            decreases clients.len() - i,
        {
            intmap_remove(&mut self.client_connections_cache, clients[i].0 as u64);
            proof {
                let a = ids.take(i as int).to_set();
                let b = ids.take(i + 1).to_set();
                assert(ids.take(i + 1) == ids.take(i as int).push(ids[i as int]));
                ids.take(i as int).lemma_push_to_set_commute(ids[i as int]);
                assert(b =~= a.insert(ids[i as int]));
                assert(self.cache() =~= old(self).cache().remove_keys(b));
            }
            i += 1;
        }
        assert(ids.take(i as int) == ids);
        self.connected_clients = if self.connected_clients >= clients.len() {
            self.connected_clients - clients.len()
        } else {
            0
        };
    }

    /// A peer went away: the group forgets it, and the first pool that
    /// holds it lets it go; a pool that is empty after that is told to stop
    /// and leaves the group, the last pool taking its place. What comes
    /// back says whether a pool held the peer. A peer that no pool held is
    /// counted out.
    pub fn del_client(&mut self, client_id: &NodeId) -> (removed: bool)
        requires
            old(self).wf(),
        ensures
            final(self).wf(),
            final(self).spec_batch_size() == old(self).spec_batch_size(),
            final(self).spec_pool_size() == old(self).spec_pool_size(),
            final(self).spec_per_client() == old(self).spec_per_client(),
            final(self).cache() == old(self).cache().remove(client_id.0 as u64),
            removed == old(self).has(*client_id),
            removed ==> final(self).spec_connected() == old(self).spec_connected(),
            !removed ==> final(self).spec_connected() == less(old(self).spec_connected(), 1)
                && final(self).pools() == old(self).pools(),
            final(self).pools().len() <= old(self).pools().len(),
            group_left(*old(self), *client_id, *final(self)),
    {
        intmap_remove(&mut self.client_connections_cache, client_id.0 as u64);
        let mut i: usize = 0;
        while i < self.client_pools.len()
            invariant
                i <= self.client_pools.len(),
                self.wf(),
                self.pools() == old(self).pools(),
                self.batch_size == old(self).batch_size,
                self.pool_size == old(self).pool_size,
                self.per_client_cache == old(self).per_client_cache,
                self.connected_clients == old(self).connected_clients,
                self.cache() == old(self).cache().remove(client_id.0 as u64),
                forall|a: int, c: int|
                    0 <= a < i && 0 <= c < self.pools()[a].clients().len() ==> (
                    #[trigger] self.pools()[a].clients()[c]).spec_id() != *client_id,
                forall|a: int| 0 <= a < i ==> !pool_has(#[trigger] self.pools()[a], *client_id),
            decreases self.client_pools.len() - i,
        {
            let ghost before = self.client_pools@;
            proof {
                lemma_first_with_id_bounds(before[i as int].clients(), *client_id);
                lemma_first_pool_bounds(before, *client_id);
            }
            let r = self.client_pools[i].attempt_to_remove(client_id);
            match r {
                Ok(empty) => {
                    proof {
                        let c = choose|c: int|
                            0 <= c < before[i as int].clients().len() && (
                            #[trigger] before[i as int].clients()[c]).spec_id() == *client_id;
                        assert(old(self).pools()[i as int].clients()[c].spec_id() == *client_id);
                        assert(pool_has(before[i as int], *client_id));
                        assert(first_pool_with(before, *client_id) == i);
                    }
                    let ghost mid = self.client_pools@;
                    if empty {
                        let mut pool = self.client_pools.swap_remove(i);
                        pool.shutdown();
                        assert(self.client_pools@ =~= before.update(i as int, before.last()).drop_last());
                    }
                    return true;
                },
                Err(_) => {
                    assert(self.client_pools@ =~= before);
                    assert(!pool_has(before[i as int], *client_id));
                },
            }
            i += 1;
        }
        proof {
            lemma_first_pool_bounds(self.pools(), *client_id);
        }
        self.connected_clients = if self.connected_clients >= 1 {
            self.connected_clients - 1
        } else {
            0
        };
        false
    }

    /// Gathers a batch from the pool at place `pool`: see
    /// `ConnectedPeersPool::collect_requests`. The clients that the pool
    /// dropped are forgotten and counted out.
    pub fn collect_requests(&mut self, pool: usize, batch: &mut Vec<T>)
        requires
            old(self).wf(),
            pool < old(self).pools().len(),
            old(batch)@.len() <= old(self).spec_batch_size(),
        ensures
            final(self).wf(),
            final(self).spec_batch_size() == old(self).spec_batch_size(),
            final(self).spec_pool_size() == old(self).spec_pool_size(),
            final(self).spec_per_client() == old(self).spec_per_client(),
            final(self).pools().len() == old(self).pools().len(),
            final(batch)@.len() <= old(self).spec_batch_size(),
            final(batch)@.len() >= old(batch)@.len(),
            final(batch)@.take(old(batch)@.len() as int) == old(batch)@,
            final(self).pools()[pool as int].clients().len() == live(
                old(self).pools()[pool as int].clients(),
            ).len(),
            forall|i: int|
                0 <= i < old(self).pools().len() && i != pool ==> final(self).pools()[i] == old(
                    self,
                ).pools()[i],
            group_collected(*old(self), pool as int, old(batch)@, *final(self), final(batch)@),
    {
        let dced = self.client_pools[pool].collect_requests(batch);
        if dced.len() > 0 {
            self.del_cached_clients(dced);
        } else {
            assert(keys_of(dced@) =~= Set::<u64>::empty());
            assert(self.cache() =~= old(self).cache().remove_keys(keys_of(dced@)));
        }
    }
}

/// A peer of a node, by the group that holds it.
#[derive(Copy, Clone, Debug)]
pub enum PeerRef {
    /// A replica, or the node itself, at this place of the group of
    /// replicas.
    Replica(PeerLocation),
    /// A client, at this place of the group of clients.
    Client(PeerLocation),
}

/// The receiving side of all peers of a node: the group of the replicas,
/// which also holds the queue for the messages that the node sends to
/// itself, and, on a replica, the group of the clients.
pub struct NodePeers<T> {
    first_cli: NodeId,
    own_id: NodeId,
    replica_handling: ConnectedPeersGroup<T>,
    client_handling: Option<ConnectedPeersGroup<T>>,
}

/// Whether the queue of `peer` is found and takes another message.
pub open spec fn peer_takes<T>(pre: NodePeers<T>, peer: NodeId) -> bool {
    match pre.place(peer) {
        None => false,
        Some(PeerRef::Replica(at)) => takes(pre.replicas().pools()[at.0 as int].clients()[at.1 as int]),
        Some(PeerRef::Client(at)) => pre.clients() matches Some(g) && takes(
            g.pools()[at.0 as int].clients()[at.1 as int],
        ),
    }
}

/// What queueing a message of `peer` does to the peers of a node: the
/// group that holds the queue of the peer changes as `group_pushed` says;
/// nothing changes where the queue is not found.
pub open spec fn peer_pushed<T>(pre: NodePeers<T>, peer: NodeId, msg: T, post: NodePeers<T>) -> bool {
    &&& post.spec_own_id() == pre.spec_own_id()
    &&& post.spec_first_cli() == pre.spec_first_cli()
    &&& match pre.place(peer) {
        None => post.replicas() == pre.replicas() && post.clients() == pre.clients(),
        Some(PeerRef::Replica(at)) => post.clients() == pre.clients() && group_pushed(
            pre.replicas(),
            at,
            msg,
            post.replicas(),
        ),
        Some(PeerRef::Client(at)) => {
            &&& post.replicas() == pre.replicas()
            &&& pre.clients() is Some
            &&& post.clients() is Some
            &&& group_pushed(pre.clients()->0, at, msg, post.clients()->0)
        },
    }
}

/// What the arrival of `peer` does to the peers of a node: a replica joins
/// the group of the replicas, a client that of the clients, as `joined`
/// says, and `r` is where it stands and whether its pool is new; where a
/// client arrives at a client, nothing changes and `r` is nothing.
pub open spec fn peer_joined<T>(
    pre: NodePeers<T>,
    peer: NodeId,
    post: NodePeers<T>,
    r: Option<(PeerRef, bool)>,
) -> bool {
    &&& post.spec_own_id() == pre.spec_own_id()
    &&& post.spec_first_cli() == pre.spec_first_cli()
    &&& if peer.0 < pre.spec_first_cli().0 {
        &&& post.clients() == pre.clients()
        &&& r matches Some((PeerRef::Replica(at), new_pool)) && joined(
            pre.replicas(),
            peer,
            post.replicas(),
            at,
            new_pool,
        )
    } else {
        &&& post.replicas() == pre.replicas()
        &&& match pre.clients() {
            Some(g) => r matches Some((PeerRef::Client(at), new_pool)) && post.clients() matches Some(h)
                && joined(g, peer, h, at, new_pool),
            None => r is None && post.clients() is None,
        }
    }
}

/// The places in the group of the replicas at which the queues of the
/// given peers are found.
pub open spec fn replica_places<T>(pre: NodePeers<T>, peers: Seq<NodeId>) -> Set<PeerLocation> {
    Set::new(
        |at: PeerLocation|
            exists|i: int|
                0 <= i < peers.len() && #[trigger] pre.place(peers[i]) == Some(PeerRef::Replica(at)),
    )
}

/// The places in the group of the clients at which the queues of the given
/// peers are found.
pub open spec fn client_places<T>(pre: NodePeers<T>, peers: Seq<NodeId>) -> Set<PeerLocation> {
    Set::new(
        |at: PeerLocation|
            exists|i: int|
                0 <= i < peers.len() && #[trigger] pre.place(peers[i]) == Some(PeerRef::Client(at)),
    )
}

/// What closing the queues of the given peers does to the peers of a node:
/// the queue of each of them that can be found is closed, as `group_closed`
/// says, and nothing else changes.
pub open spec fn peers_closed<T>(pre: NodePeers<T>, peers: Seq<NodeId>, post: NodePeers<T>) -> bool {
    &&& post.spec_own_id() == pre.spec_own_id()
    &&& post.spec_first_cli() == pre.spec_first_cli()
    &&& group_closed(pre.replicas(), post.replicas(), replica_places(pre, peers))
    &&& match pre.clients() {
        Some(g) => post.clients() matches Some(h) && group_closed(g, h, client_places(pre, peers)),
        None => post.clients() is None,
    }
}

/// Peers whose queues were closed are found where they were found before.
pub proof fn lemma_closed_keeps_place<T>(
    pre: NodePeers<T>,
    peers: Seq<NodeId>,
    post: NodePeers<T>,
    peer: NodeId,
)
    requires
        peers_closed(pre, peers, post),
    ensures
        post.place(peer) == pre.place(peer),
{
    lemma_closed_keeps_place_of(pre.replicas(), post.replicas(), replica_places(pre, peers), peer);
    if pre.clients() is Some {
        lemma_closed_keeps_place_of(
            pre.clients()->0,
            post.clients()->0,
            client_places(pre, peers),
            peer,
        );
    }
}

/// Closing the queues of no peers changes nothing.
pub proof fn lemma_closed_none<T>(pre: NodePeers<T>)
    ensures
        peers_closed(pre, Seq::<NodeId>::empty(), pre),
{
    let none = Seq::<NodeId>::empty();
    assert(replica_places(pre, none) =~= Set::<PeerLocation>::empty());
    assert(client_places(pre, none) =~= Set::<PeerLocation>::empty());
}

/// Closing the queues of some peers and then that of another closes the
/// queues of all of them.
pub proof fn lemma_closed_one_more<T>(
    pre: NodePeers<T>,
    done: Seq<NodeId>,
    mid: NodePeers<T>,
    peer: NodeId,
    post: NodePeers<T>,
)
    requires
        peers_closed(pre, done, mid),
        peers_closed(mid, seq![peer], post),
    ensures
        peers_closed(pre, done.push(peer), post),
{
    lemma_closed_keeps_place(pre, done, mid, peer);
    let all = done.push(peer);
    let one = seq![peer];
    assert(one[0] == peer);
    assert(all[done.len() as int] == peer);
    assert forall|at: PeerLocation|
        replica_places(pre, all).contains(at) == (replica_places(pre, done).contains(at)
            || replica_places(mid, one).contains(at)) by {
        if replica_places(pre, done).contains(at) {
            let i = choose|i: int|
                0 <= i < done.len() && #[trigger] pre.place(done[i]) == Some(PeerRef::Replica(at));
            assert(all[i] == done[i]);
        }
        if replica_places(mid, one).contains(at) {
            let i = choose|i: int|
                0 <= i < one.len() && #[trigger] mid.place(one[i]) == Some(PeerRef::Replica(at));
            assert(one[i] == peer);
            assert(pre.place(all[done.len() as int]) == Some(PeerRef::Replica(at)));
        }
        if replica_places(pre, all).contains(at) {
            let i = choose|i: int|
                0 <= i < all.len() && #[trigger] pre.place(all[i]) == Some(PeerRef::Replica(at));
            if i < done.len() {
                assert(all[i] == done[i]);
                assert(pre.place(done[i]) == Some(PeerRef::Replica(at)));
            } else {
                assert(mid.place(one[0]) == Some(PeerRef::Replica(at)));
            }
        }
    }
    assert forall|at: PeerLocation|
        client_places(pre, all).contains(at) == (client_places(pre, done).contains(at)
            || client_places(mid, one).contains(at)) by {
        if client_places(pre, done).contains(at) {
            let i = choose|i: int|
                0 <= i < done.len() && #[trigger] pre.place(done[i]) == Some(PeerRef::Client(at));
            assert(all[i] == done[i]);
        }
        if client_places(mid, one).contains(at) {
            let i = choose|i: int|
                0 <= i < one.len() && #[trigger] mid.place(one[i]) == Some(PeerRef::Client(at));
            assert(one[i] == peer);
            assert(pre.place(all[done.len() as int]) == Some(PeerRef::Client(at)));
        }
        if client_places(pre, all).contains(at) {
            let i = choose|i: int|
                0 <= i < all.len() && #[trigger] pre.place(all[i]) == Some(PeerRef::Client(at));
            if i < done.len() {
                assert(all[i] == done[i]);
                assert(pre.place(done[i]) == Some(PeerRef::Client(at)));
            } else {
                assert(mid.place(one[0]) == Some(PeerRef::Client(at)));
            }
        }
    }
    lemma_closed_twice(
        pre.replicas(),
        mid.replicas(),
        post.replicas(),
        replica_places(pre, done),
        replica_places(mid, one),
        replica_places(pre, all),
    );
    if pre.clients() is Some {
        lemma_closed_twice(
            pre.clients()->0,
            mid.clients()->0,
            post.clients()->0,
            client_places(pre, done),
            client_places(mid, one),
            client_places(pre, all),
        );
    }
}

/// Whether `group` gathers from the pool at place `pool` into a batch that
/// holds `batch`: the group has that pool, and the batch is no longer than
/// a batch may be.
pub open spec fn gathers_from<T>(group: ConnectedPeersGroup<T>, pool: usize, batch: Seq<T>) -> bool {
    pool < group.pools().len() && batch.len() <= group.spec_batch_size()
}

/// What gathering the requests of the clients of a pool does to the peers
/// of a node: the group of the clients gathers as `group_collected` says,
/// where there is one that gathers from that pool; else nothing changes.
/// The group of the replicas stays as it is.
pub open spec fn clients_collected<T>(
    pre: NodePeers<T>,
    pool: usize,
    batch_before: Seq<T>,
    post: NodePeers<T>,
    batch_after: Seq<T>,
) -> bool {
    &&& post.spec_own_id() == pre.spec_own_id()
    &&& post.spec_first_cli() == pre.spec_first_cli()
    &&& post.replicas() == pre.replicas()
    &&& match pre.clients() {
        Some(g) if gathers_from(g, pool, batch_before) => post.clients() matches Some(h)
            && group_collected(g, pool as int, batch_before, h, batch_after),
        _ => post.clients() == pre.clients() && batch_after == batch_before,
    }
}

/// What gathering the messages of the replicas of a pool does to the peers
/// of a node: the group of the replicas gathers as `group_collected` says,
/// where it gathers from that pool; else nothing changes. The group of the
/// clients stays as it is.
pub open spec fn replicas_collected<T>(
    pre: NodePeers<T>,
    pool: usize,
    batch_before: Seq<T>,
    post: NodePeers<T>,
    batch_after: Seq<T>,
) -> bool {
    &&& post.spec_own_id() == pre.spec_own_id()
    &&& post.spec_first_cli() == pre.spec_first_cli()
    &&& post.clients() == pre.clients()
    &&& if gathers_from(pre.replicas(), pool, batch_before) {
        group_collected(pre.replicas(), pool as int, batch_before, post.replicas(), batch_after)
    } else {
        post.replicas() == pre.replicas() && batch_after == batch_before
    }
}

impl<T> NodePeers<T> {
    /// The first client id, in contracts.
    pub closed spec fn spec_first_cli(&self) -> NodeId {
        self.first_cli
    }

    /// The id of the node, in contracts.
    pub closed spec fn spec_own_id(&self) -> NodeId {
        self.own_id
    }

    /// The group of the replicas, in contracts.
    pub closed spec fn replicas(&self) -> ConnectedPeersGroup<T> {
        self.replica_handling
    }

    /// The group of the clients, which a replica has, in contracts.
    pub closed spec fn clients(&self) -> Option<ConnectedPeersGroup<T>> {
        self.client_handling
    }

    /// The groups are well formed; a replica has a group of clients and a
    /// client has none.
    pub open spec fn wf(&self) -> bool {
        &&& self.replicas().wf()
        &&& self.clients() is Some <==> self.spec_own_id().0 < self.spec_first_cli().0
        &&& self.clients() matches Some(g) ==> g.wf()
    }

    /// Where the queue of `peer` is, if it can be found: that of the node
    /// itself and of a replica in the group of the replicas, that of a
    /// client in the group of the clients.
    pub open spec fn place(&self, peer: NodeId) -> Option<PeerRef> {
        if peer == self.spec_own_id() || peer.0 < self.spec_first_cli().0 {
            match self.replicas().place_of(peer) {
                Some(at) => Some(PeerRef::Replica(at)),
                None => None,
            }
        } else {
            match self.clients() {
                Some(g) => match g.place_of(peer) {
                    Some(at) => Some(PeerRef::Client(at)),
                    None => None,
                },
                None => None,
            }
        }
    }

    /// Whether the queue of `peer` can be found: the peer connected, and a
    /// pool of its group holds it.
    pub open spec fn connected(&self, peer: NodeId) -> bool {
        if peer == self.spec_own_id() || peer.0 < self.spec_first_cli().0 {
            self.replicas().cache().dom().contains(peer.0 as u64) && self.replicas().has(peer)
        } else {
            self.clients() matches Some(g) && g.cache().dom().contains(peer.0 as u64) && g.has(peer)
        }
    }

    /// The receiving side of the node `id`. The requests of clients are
    /// gathered in batches of `batch_size`, which must not be zero, by pools
    /// of up to `clients_per_pool` clients; the messages of replicas are not
    /// limited by either.
    pub fn new(id: NodeId, first_cli: NodeId, batch_size: usize, clients_per_pool: usize) -> (p:
        NodePeers<T>)
        requires
            batch_size > 0,
        ensures
            p.wf(),
            p.spec_own_id() == id,
            p.spec_first_cli() == first_cli,
            p.replicas().spec_batch_size() == NODE_CHAN_BOUND,
            p.replicas().spec_per_client() == REPLICA_QUEUE_BOUND,
            p.replicas().holds((0, 0), id),
            p.replicas().spec_connected() == 1,
            p.clients() matches Some(g) ==> g.pools().len() == 0 && g.spec_batch_size() == batch_size
                && g.spec_per_client() == CLIENT_QUEUE_BOUND && g.spec_connected() == 0,
    {
        let client_handling = if id.0 < first_cli.0 {
            Some(ConnectedPeersGroup::with_pool_size(CLIENT_QUEUE_BOUND, batch_size, clients_per_pool))
        } else {
            None
        };
        let mut replica_handling = ConnectedPeersGroup::new(REPLICA_QUEUE_BOUND, NODE_CHAN_BOUND);
        let _ = replica_handling.init_client(id);
        NodePeers { first_cli, own_id: id, replica_handling, client_handling }
    }

    /// A peer connected: a replica joins the group of the replicas, a
    /// client that of the clients. What comes back is where the peer
    /// stands and whether its pool is new; there is nothing where a client
    /// connects to a client.
    pub fn init_peer_conn(&mut self, peer: NodeId) -> (r: Option<(PeerRef, bool)>)
        requires
            old(self).wf(),
        ensures
            final(self).wf(),
            final(self).spec_own_id() == old(self).spec_own_id(),
            final(self).spec_first_cli() == old(self).spec_first_cli(),
            r is None <==> (peer.0 >= old(self).spec_first_cli().0 && old(self).clients() is None),
            r is None ==> final(self).replicas() == old(self).replicas() && final(self).clients()
                == old(self).clients(),
            r matches Some((PeerRef::Replica(at), _)) ==> peer.0 < old(self).spec_first_cli().0
                && final(self).replicas().holds(at, peer),
            r matches Some((PeerRef::Client(at), _)) ==> peer.0 >= old(self).spec_first_cli().0
                && final(self).clients() is Some && final(self).clients()->0.holds(at, peer),
            peer_joined(*old(self), peer, *final(self), r),
            r is Some && peer != old(self).spec_own_id() ==> final(self).connected(peer),
    {
        if peer.0 >= self.first_cli.0 {
            match &mut self.client_handling {
                Some(group) => {
                    let (at, new_pool) = group.init_client(peer);
                    Some((PeerRef::Client(at), new_pool))
                },
                None => None,
            }
        } else {
            let (at, new_pool) = self.replica_handling.init_client(peer);
            Some((PeerRef::Replica(at), new_pool))
        }
    }

    /// Where the queue of a peer is: that of the node itself and of a
    /// replica in the group of the replicas, that of a client in the group
    /// of the clients. There is none for a peer that is not connected.
    pub fn resolve_peer_conn(&self, peer: NodeId) -> (r: Option<PeerRef>)
        requires
            self.wf(),
        ensures
            r matches Some(PeerRef::Replica(at)) ==> (peer == self.spec_own_id() || peer.0
                < self.spec_first_cli().0) && self.replicas().holds(at, peer),
            r matches Some(PeerRef::Client(at)) ==> peer != self.spec_own_id() && peer.0
                >= self.spec_first_cli().0 && self.clients() is Some && self.clients()->0.holds(
                at,
                peer,
            ),
            r is Some <==> self.connected(peer),
            r == self.place(peer),
    {
        if peer.0 == self.own_id.0 || peer.0 < self.first_cli.0 {
            match self.replica_handling.get_client_conn(peer) {
                Some(at) => Some(PeerRef::Replica(at)),
                None => None,
            }
        } else {
            match &self.client_handling {
                Some(group) => match group.get_client_conn(peer) {
                    Some(at) => Some(PeerRef::Client(at)),
                    None => None,
                },
                None => None,
            }
        }
    }

    /// Queues a message that arrived from `peer`. The message comes back
    /// where the peer has no queue, where it is disconnected, and where its
    /// queue is full.
    pub fn push_request(&mut self, peer: NodeId, msg: T) -> (r: Result<(), T>)
        requires
            old(self).wf(),
        ensures
            final(self).wf(),
            final(self).spec_own_id() == old(self).spec_own_id(),
            final(self).spec_first_cli() == old(self).spec_first_cli(),
            r is Ok ==> old(self).connected(peer),
            !old(self).connected(peer) ==> r is Err && final(self).replicas() == old(self).replicas()
                && final(self).clients() == old(self).clients(),
            r matches Err(back) ==> back == msg,
            r is Ok <==> peer_takes(*old(self), peer),
            peer_pushed(*old(self), peer, msg, *final(self)),
    {
        match self.resolve_peer_conn(peer) {
            Some(PeerRef::Replica(at)) => self.replica_handling.push_request(at, msg),
            Some(PeerRef::Client(at)) => {
                match &mut self.client_handling {
                    Some(group) => group.push_request(at, msg),
                    None => Err(msg),
                }
            },
            None => Err(msg),
        }
    }

    /// The number of pools of clients, which is zero on a client.
    pub fn client_pool_count(&self) -> (n: usize)
        ensures
            n == (match self.clients() {
                Some(g) => g.pools().len(),
                None => 0,
            }),
    {
        match &self.client_handling {
            Some(group) => group.pool_count(),
            None => 0,
        }
    }

    /// The number of pools of replicas.
    pub fn replica_pool_count(&self) -> (n: usize)
        ensures
            n == self.replicas().pools().len(),
    {
        self.replica_handling.pool_count()
    }

    /// Gathers the requests of the clients of a pool into `batch`: see
    /// `ConnectedPeersGroup::collect_requests`. Nothing is gathered on a
    /// client, from a pool that there is not, and into a batch that is
    /// longer than a batch may be.
    pub fn collect_client_requests(&mut self, pool: usize, batch: &mut Vec<T>)
        requires
            old(self).wf(),
        ensures
            final(self).wf(),
            final(self).spec_own_id() == old(self).spec_own_id(),
            final(self).spec_first_cli() == old(self).spec_first_cli(),
            final(self).replicas() == old(self).replicas(),
            final(batch)@.len() >= old(batch)@.len(),
            final(batch)@.take(old(batch)@.len() as int) == old(batch)@,
            ({
                let gathers = old(self).clients() matches Some(g) && pool < g.pools().len()
                    && old(batch)@.len() <= g.spec_batch_size();
                &&& !gathers ==> final(batch)@ == old(batch)@ && final(self).clients() == old(
                    self,
                ).clients()
                &&& gathers ==> final(batch)@.len() <= old(self).clients()->0.spec_batch_size()
            }),
            clients_collected(*old(self), pool, old(batch)@, *final(self), final(batch)@),
    {
        match &mut self.client_handling {
            Some(group) => {
                if pool < group.pool_count() && batch.len() <= group.batch_size() {
                    group.collect_requests(pool, batch);
                } else {
                    assert(batch@.take(batch@.len() as int) == batch@);
                }
            },
            None => {
                assert(batch@.take(batch@.len() as int) == batch@);
            },
        }
    }

    /// Gathers the messages of the replicas of a pool, and those that the
    /// node sent to itself, into `batch`, as `collect_client_requests` does
    /// for clients.
    pub fn collect_replica_messages(&mut self, pool: usize, batch: &mut Vec<T>)
        requires
            old(self).wf(),
        ensures
            final(self).wf(),
            final(self).spec_own_id() == old(self).spec_own_id(),
            final(self).spec_first_cli() == old(self).spec_first_cli(),
            final(self).clients() == old(self).clients(),
            final(batch)@.len() >= old(batch)@.len(),
            final(batch)@.take(old(batch)@.len() as int) == old(batch)@,
            ({
                let gathers = pool < old(self).replicas().pools().len() && old(batch)@.len() <= old(
                    self,
                ).replicas().spec_batch_size();
                &&& !gathers ==> final(batch)@ == old(batch)@ && final(self).replicas() == old(
                    self,
                ).replicas()
                &&& gathers ==> final(batch)@.len() <= old(self).replicas().spec_batch_size()
            }),
            replicas_collected(*old(self), pool, old(batch)@, *final(self), final(batch)@),
    {
        if pool < self.replica_handling.pool_count() && batch.len()
            <= self.replica_handling.batch_size() {
            self.replica_handling.collect_requests(pool, batch);
        } else {
            assert(batch@.take(batch@.len() as int) == batch@);
        }
    }

    /// Closes the queue of `peer`, if it can be found: the peer takes no
    /// more messages. What comes back is where the queue stands.
    pub fn disconnect(&mut self, peer: NodeId) -> (r: Option<PeerRef>)
        requires
            old(self).wf(),
        ensures
            final(self).wf(),
            final(self).spec_own_id() == old(self).spec_own_id(),
            final(self).spec_first_cli() == old(self).spec_first_cli(),
            r is Some <==> old(self).connected(peer),
            r is None ==> final(self).replicas() == old(self).replicas() && final(self).clients()
                == old(self).clients(),
            r matches Some(PeerRef::Replica(at)) ==> {
                &&& final(self).clients() == old(self).clients()
                &&& old(self).replicas().holds(at, peer)
                &&& final(self).replicas().holds(at, peer)
                &&& final(self).replicas().pools()[at.0 as int].clients()[at.1 as int].spec_dc()
                &&& final(self).replicas().cache() == old(self).replicas().cache()
            },
            r matches Some(PeerRef::Client(at)) ==> {
                &&& final(self).replicas() == old(self).replicas()
                &&& final(self).clients() is Some
                &&& old(self).clients()->0.holds(at, peer)
                &&& final(self).clients()->0.holds(at, peer)
                &&& final(self).clients()->0.pools()[at.0 as int].clients()[at.1 as int].spec_dc()
                &&& final(self).clients()->0.cache() == old(self).clients()->0.cache()
            },
            r == old(self).place(peer),
            peers_closed(*old(self), seq![peer], *final(self)),
    {
        let at = self.resolve_peer_conn(peer);
        let ghost one = seq![peer];
        proof {
            assert(one[0] == peer);
            assert(old(self).place(one[0]) == at);
        }
        match at {
            Some(PeerRef::Replica(at)) => {
                self.replica_handling.disconnect(at);
                proof {
                    assert(replica_places(*old(self), one) =~= set![at]);
                    assert(client_places(*old(self), one) =~= Set::<PeerLocation>::empty());
                }
            },
            Some(PeerRef::Client(at)) => {
                match &mut self.client_handling {
                    Some(group) => {
                        group.disconnect(at);
                    },
                    None => {},
                }
                proof {
                    assert(client_places(*old(self), one) =~= set![at]);
                    assert(replica_places(*old(self), one) =~= Set::<PeerLocation>::empty());
                }
            },
            None => {
                proof {
                    assert(client_places(*old(self), one) =~= Set::<PeerLocation>::empty());
                    assert(replica_places(*old(self), one) =~= Set::<PeerLocation>::empty());
                }
            },
        }
        at
    }

    /// Whether `peer` will take no more messages: its queue is not found, or
    /// it is closed.
    pub fn is_closed(&self, peer: NodeId) -> (r: bool)
        requires
            self.wf(),
        ensures
            r == (match self.place(peer) {
                None => true,
                Some(PeerRef::Replica(at)) => self.replicas().pools()[at.0 as int].clients()[at.1 as int].spec_dc(),
                Some(PeerRef::Client(at)) => self.clients() matches Some(g) ==> g.pools()[at.0 as int].clients()[at.1 as int].spec_dc(),
            }),
    {
        match self.resolve_peer_conn(peer) {
            None => true,
            Some(PeerRef::Replica(at)) => self.replica_handling.pool(at.0).client(at.1).is_dc(),
            Some(PeerRef::Client(at)) => match &self.client_handling {
                Some(group) => group.pool(at.0).client(at.1).is_dc(),
                None => true,
            },
        }
    }

    /// Where the queue for the messages that the node sends to itself is:
    /// in the group of the replicas.
    pub fn peer_loopback(&self) -> (r: Option<PeerLocation>)
        requires
            self.wf(),
        ensures
            r is Some <==> (self.replicas().cache().dom().contains(self.spec_own_id().0 as u64)
                && self.replicas().has(self.spec_own_id())),
            r is Some ==> self.replicas().holds(r->0, self.spec_own_id()),
    {
        self.replica_handling.get_client_conn(self.own_id)
    }

    /// The number of clients that are connected, on a replica.
    pub fn client_count(&self) -> (r: Option<usize>)
        ensures
            r == (match self.clients() {
                Some(g) => Some(g.spec_connected()),
                None => None,
            }),
    {
        match &self.client_handling {
            None => None,
            Some(client) => Some(client.connected_clients()),
        }
    }

    /// The number of replicas that are connected, the node itself among
    /// them.
    pub fn replica_count(&self) -> (n: usize)
        ensures
            n == self.replicas().spec_connected(),
    {
        self.replica_handling.connected_clients()
    }

    /// The group of the replicas.
    pub fn replica_group(&mut self) -> (g: &mut ConnectedPeersGroup<T>)
        ensures
            *g == old(self).replicas(),
            final(self).replicas() == *final(g),
            final(self).clients() == old(self).clients(),
            final(self).spec_own_id() == old(self).spec_own_id(),
            final(self).spec_first_cli() == old(self).spec_first_cli(),
    {
        &mut self.replica_handling
    }
}

/// When a pool hands over a batch, and how long it pauses when it does not.
#[derive(Copy, Clone, Debug, PartialEq, Eq, Structural)]
pub struct BatchPolicy {
    /// Whether a pool waits for a batch to fill before it hands it over.
    pub fill_batch: bool,
    /// The size of a full batch.
    pub batch_size: usize,
    /// The longest time, in microseconds, that requests wait for a batch to
    /// fill.
    pub batch_timeout_micros: u64,
    /// The longest pause of a pool that found too few requests, in
    /// microseconds.
    pub batch_sleep_micros: u64,
}

/// What a pool does after a walk over its clients.
#[derive(Copy, Clone, Debug, PartialEq, Eq, Structural)]
pub enum BatchDecision {
    /// It hands the batch over.
    Deliver,
    /// It pauses for so many microseconds, and walks again.
    Sleep(u64),
}

/// The pause after `snoozes` pauses in a row: a hundred microseconds,
/// doubled with each pause, up to `cap`.
pub open spec fn backoff(snoozes: nat, cap: u64) -> u64
    decreases snoozes,
{
    if snoozes == 0 {
        if BACKOFF_BASE_MICROS <= cap {
            BACKOFF_BASE_MICROS
        } else {
            cap
        }
    } else {
        let before = backoff((snoozes - 1) as nat, cap);
        if 2 * before <= cap {
            (2 * before) as u64
        } else {
            cap
        }
    }
}

/// What a pool does with a batch of `batch_len` requests whose first
/// request has waited `waited_micros`, after `snoozes` pauses in a row: a
/// full batch is handed over at once; one that is not empty is handed over
/// when its time is up, or at once where the pool does not wait for batches
/// to fill; otherwise the pool pauses.
pub open spec fn decide(policy: BatchPolicy, batch_len: usize, waited_micros: u64, snoozes: nat) -> BatchDecision {
    if batch_len >= policy.batch_size && batch_len > 0 {
        BatchDecision::Deliver
    } else if batch_len > 0 && (!policy.fill_batch || waited_micros >= policy.batch_timeout_micros) {
        BatchDecision::Deliver
    } else {
        BatchDecision::Sleep(backoff(snoozes, policy.batch_sleep_micros))
    }
}

impl BatchPolicy {
    /// The pause after `snoozes` pauses in a row.
    pub fn backoff_micros(&self, snoozes: u32) -> (pause: u64)
        ensures
            pause == backoff(snoozes as nat, self.batch_sleep_micros),
            pause <= self.batch_sleep_micros,
    {
        let cap = self.batch_sleep_micros;
        let mut pause: u64 = if BACKOFF_BASE_MICROS <= cap {
            BACKOFF_BASE_MICROS
        } else {
            cap
        };
        let mut i: u32 = 0;
        while i < snoozes
            invariant
                i <= snoozes,
                cap == self.batch_sleep_micros,
                pause == backoff(i as nat, cap),
                pause <= cap,
            decreases snoozes - i,
        {
            pause = if pause <= cap / 2 {
                2 * pause
            } else {
                cap
            };
            i += 1;
        }
        pause
    }

    /// What a pool does after a walk over its clients: see `decide`.
    pub fn after_pass(&self, batch_len: usize, waited_micros: u64, snoozes: u32) -> (d: BatchDecision)
        ensures
            d == decide(*self, batch_len, waited_micros, snoozes as nat),
    {
        if batch_len >= self.batch_size && batch_len > 0 {
            BatchDecision::Deliver
        } else if batch_len > 0 && (!self.fill_batch || waited_micros >= self.batch_timeout_micros) {
            BatchDecision::Deliver
        } else {
            BatchDecision::Sleep(self.backoff_micros(snoozes))
        }
    }
}

} // verus!
