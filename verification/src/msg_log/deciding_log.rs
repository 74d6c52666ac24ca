//! The log of the consensus decision in progress.

use crate::communication::message::{ConsensusMessage, StoredMessage};
use crate::crypto::hash::{chain_digests, hash_chain, Digest};
use crate::error::{Error, ErrorKind};
use crate::node_id::NodeId;
use crate::view::{in_hash_space, is_request_in_hash_space, ViewInfo};
use vstd::prelude::*;

verus! {

/// A proposal as it was received.
pub type StoredConsensusMessage = StoredMessage<ConsensusMessage>;

/// Figures about a batch, kept for those who measure the system.
#[derive(Copy, Clone, Debug, PartialEq, Eq, Structural)]
pub struct BatchMeta {
    /// The number of requests in the batch.
    pub batch_size: usize,
    /// The number of proposals received for it.
    pub pre_prepares_received: usize,
    /// The number of consensus messages that must be durable before it runs.
    pub messages_registered: usize,
}

impl BatchMeta {
    /// The figures of a batch of which nothing is known yet.
    pub fn new() -> (m: BatchMeta)
        ensures
            m == (BatchMeta { batch_size: 0, pre_prepares_received: 0, messages_registered: 0 }),
    {
        BatchMeta { batch_size: 0, pre_prepares_received: 0, messages_registered: 0 }
    }
}

/// What the log of the decision in progress holds.
pub struct DecidingLogModel {
    /// The leaders of the round, the primary first.
    pub leader_set: Seq<NodeId>,
    /// The slice of the space of digests of each leader.
    pub slices: Seq<(u64, u64)>,
    /// The digest of the whole batch, once every leader has proposed.
    pub current_digest: Option<Digest>,
    /// The digest of the proposal of each leader, where it has arrived.
    pub ordering: Seq<Option<Digest>>,
    /// The proposal of each leader, where it has arrived.
    pub messages: Seq<Option<StoredConsensusMessage>>,
    /// The digests of the requests that each leader proposed.
    pub requests: Seq<Seq<Digest>>,
    /// The digests of the requests of the batch, in the order of arrival of
    /// the proposals.
    pub current_requests: Seq<Digest>,
    /// The number of requests received so far.
    pub batch_size: usize,
    /// The digests of the wire messages that must be durable before the
    /// batch may be executed.
    pub to_persist: Seq<Digest>,
    /// The number of proposals received so far.
    pub received_count: usize,
    /// The figures about the batch.
    pub meta: BatchMeta,
}

/// The figures of a batch of which nothing is known yet.
pub open spec fn no_figures() -> BatchMeta {
    BatchMeta { batch_size: 0, pre_prepares_received: 0, messages_registered: 0 }
}

/// One more than `n`, or `n` where it is the largest number.
pub open spec fn capped_next(n: usize) -> usize {
    if n < usize::MAX {
        (n + 1) as usize
    } else {
        n
    }
}

/// The lists of request digests of the leaders.
pub open spec fn requests_of(v: Seq<Vec<Digest>>) -> Seq<Seq<Digest>> {
    Seq::new(v.len(), |i: int| v[i]@)
}

/// The lists of `parts`, one after another.
pub open spec fn flatten(parts: Seq<Seq<Digest>>) -> Seq<Digest>
    decreases parts.len(),
{
    if parts.len() == 0 {
        Seq::empty()
    } else {
        flatten(parts.drop_last()) + parts.last()
    }
}

/// Whether every leader has proposed.
pub open spec fn all_received(ordering: Seq<Option<Digest>>) -> bool {
    forall|i: int| 0 <= i < ordering.len() ==> (#[trigger] ordering[i]) is Some
}

/// The digests of the proposals, in the order of the leaders.
pub open spec fn received(ordering: Seq<Option<Digest>>) -> Seq<Digest> {
    Seq::new(ordering.len(), |i: int| ordering[i]->0)
}

/// The place of `leader` among `leaders`: the first at which it stands.
pub open spec fn index_of(leaders: Seq<NodeId>, leader: NodeId) -> Option<int> {
    if leaders.contains(leader) {
        Some(leaders.index_of_first(leader)->0)
    } else {
        None
    }
}

/// The sum of two sizes, or the largest size where the sum is beyond it.
pub open spec fn capped_sum(a: usize, b: usize) -> usize {
    if a + b <= usize::MAX {
        (a + b) as usize
    } else {
        usize::MAX
    }
}

impl DecidingLogModel {
    /// The lists of the model agree in length; every proposal that was
    /// recorded has the digest that is the hash chain of its requests, which
    /// lie in the slice of its leader; and the digest of the batch, where it
    /// is known, is the hash chain of the digests of the proposals.
    pub open spec fn wf(self) -> bool {
        let m = self.leader_set.len();
        &&& self.slices.len() == m
        &&& self.ordering.len() == m
        &&& self.messages.len() == m
        &&& self.requests.len() == m
        &&& forall|i: int|
            0 <= i < m ==> ((#[trigger] self.ordering[i]) is Some <==> self.messages[i] is Some)
        &&& forall|i: int|
            0 <= i < m && (#[trigger] self.ordering[i]) is Some ==> {
                &&& self.ordering[i]->0@ == hash_chain(self.requests[i])
                &&& self.messages[i]->0.header.from == self.leader_set[i].0
                &&& self.to_persist.contains(self.messages[i]->0.header.digest)
                &&& forall|k: int|
                    0 <= k < self.requests[i].len() ==> in_hash_space(
                        (#[trigger] self.requests[i][k])@,
                        self.slices[i],
                    )
            }
        &&& self.current_digest matches Some(d) ==> {
            &&& m > 0
            &&& all_received(self.ordering)
            &&& d@ == hash_chain(received(self.ordering))
        }
    }

    /// Whether the proposal of `from` with the given digest and requests is
    /// taken: `from` leads the round and has not proposed yet, the requests
    /// lie in its slice, and the digest is the hash chain of the requests.
    pub open spec fn accepts(self, from: NodeId, digest: Digest, requests: Seq<Digest>) -> bool {
        &&& index_of(self.leader_set, from) matches Some(i)
        &&& self.ordering[i] is None
        &&& forall|k: int| 0 <= k < requests.len() ==> in_hash_space((#[trigger] requests[k])@, self.slices[i])
        &&& digest@ == hash_chain(requests)
    }

    /// The model after the digest of a wire message was registered.
    pub open spec fn registered(self, digest: Digest) -> DecidingLogModel {
        DecidingLogModel {
            to_persist: self.to_persist.push(digest),
            meta: BatchMeta {
                messages_registered: (self.to_persist.len() + 1) as usize,
                ..self.meta
            },
            ..self
        }
    }

    /// The model after the proposal `batch` of the leader at place `i` was
    /// recorded, short of the digest of the whole batch.
    pub open spec fn recorded(
        self,
        i: int,
        batch: StoredConsensusMessage,
        digest: Digest,
        requests: Seq<Digest>,
    ) -> DecidingLogModel {
        DecidingLogModel {
            ordering: self.ordering.update(i, Some(digest)),
            messages: self.messages.update(i, Some(batch)),
            requests: self.requests.update(i, requests),
            current_requests: self.current_requests + requests,
            batch_size: capped_sum(self.batch_size, requests.len() as usize),
            to_persist: self.to_persist.push(batch.header.digest),
            received_count: capped_next(self.received_count),
            meta: BatchMeta {
                batch_size: capped_sum(self.batch_size, requests.len() as usize),
                pre_prepares_received: capped_next(self.received_count),
                messages_registered: (self.to_persist.len() + 1) as usize,
            },
            ..self
        }
    }
}

/// The log of the decision in progress: the proposals of the leaders, the
/// digests of their requests, the digest of the whole batch, and the
/// messages that must be durable before the batch may be executed.
pub struct DecidingLog {
    leader_set: Vec<NodeId>,
    slices: Vec<(u64, u64)>,
    current_digest: Option<Digest>,
    current_received_pre_prepares: usize,
    pre_prepare_ordering: Vec<Option<Digest>>,
    pre_prepare_messages: Vec<Option<StoredConsensusMessage>>,
    pre_prepare_requests: Vec<Vec<Digest>>,
    current_requests: Vec<Digest>,
    current_batch_size: usize,
    current_messages_to_persist: Vec<Digest>,
    batch_meta: BatchMeta,
}

/// A batch that was decided and is ready for the executor, with what a
/// strict persistency mode needs to know of it.
pub struct CompletedBatch {
    /// The digest of the batch.
    pub batch_digest: Digest,
    /// The digests of the proposals, in the order of the leaders.
    pub pre_prepare_ordering: Vec<Digest>,
    /// The proposals, in the order of the leaders.
    pub pre_prepare_messages: Vec<StoredConsensusMessage>,
    /// The digests of the requests that each leader proposed.
    pub requests_by_leader: Vec<Vec<Digest>>,
    /// The digests of all the requests in the batch, leader after leader.
    pub request_digests: Vec<Digest>,
    /// The digests of the messages that must be durable before the batch is
    /// executed.
    pub messages_to_persist: Vec<Digest>,
    /// Figures about the batch.
    pub batch_meta: BatchMeta,
}

/// The parts of a completed batch, in the order of its fields short of the
/// requests by leader.
pub type CompletedBatchInto = (
    Digest,
    Vec<Digest>,
    Vec<StoredConsensusMessage>,
    Vec<Digest>,
    Vec<Digest>,
    BatchMeta,
);

impl CompletedBatch {
    /// The digest of the batch is the hash chain of the digests of its
    /// proposals, each of which is the hash chain of the digests of the
    /// requests of its leader; the requests of the batch are those of the
    /// leaders, one leader after another; and the digest of the wire message
    /// of every proposal is among the messages to persist.
    pub open spec fn wf(&self) -> bool {
        let m = self.pre_prepare_ordering@.len();
        &&& m > 0
        &&& self.pre_prepare_messages@.len() == m
        &&& self.requests_by_leader@.len() == m
        &&& self.batch_digest@ == hash_chain(self.pre_prepare_ordering@)
        &&& forall|i: int|
            0 <= i < m ==> (#[trigger] self.pre_prepare_ordering@[i])@ == hash_chain(
                self.requests_by_leader@[i]@,
            )
        &&& forall|i: int|
            0 <= i < m ==> self.messages_to_persist@.contains(
                (#[trigger] self.pre_prepare_messages@[i]).header.digest,
            )
        &&& self.request_digests@ == flatten(requests_of(self.requests_by_leader@))
    }

    /// The parts of the batch.
    pub fn into(self) -> (r: CompletedBatchInto)
        ensures
            r.0 == self.batch_digest,
            r.1 == self.pre_prepare_ordering,
            r.2 == self.pre_prepare_messages,
            r.3 == self.request_digests,
            r.4 == self.messages_to_persist,
            r.5 == self.batch_meta,
    {
        (
            self.batch_digest,
            self.pre_prepare_ordering,
            self.pre_prepare_messages,
            self.request_digests,
            self.messages_to_persist,
            self.batch_meta,
        )
    }
}

impl View for DecidingLog {
    type V = DecidingLogModel;

    closed spec fn view(&self) -> DecidingLogModel {
        DecidingLogModel {
            leader_set: self.leader_set@,
            slices: self.slices@,
            current_digest: self.current_digest,
            ordering: self.pre_prepare_ordering@,
            messages: self.pre_prepare_messages@,
            requests: requests_of(self.pre_prepare_requests@),
            current_requests: self.current_requests@,
            batch_size: self.current_batch_size,
            to_persist: self.current_messages_to_persist@,
            received_count: self.current_received_pre_prepares,
            meta: self.batch_meta,
        }
    }
}

/// What a log holds at the start of a round under a view with the given
/// leaders and slices: nothing of the round yet, and the messages that were
/// registered before.
pub open spec fn new_round(
    pre: DecidingLogModel,
    leaders: Seq<NodeId>,
    slices: Seq<(u64, u64)>,
) -> DecidingLogModel {
    DecidingLogModel {
        leader_set: leaders,
        slices,
        current_digest: None,
        ordering: Seq::new(leaders.len(), |i: int| None::<Digest>),
        messages: Seq::new(leaders.len(), |i: int| None::<StoredConsensusMessage>),
        requests: Seq::new(leaders.len(), |i: int| Seq::<Digest>::empty()),
        current_requests: Seq::empty(),
        batch_size: 0,
        to_persist: pre.to_persist,
        received_count: 0,
        meta: no_figures(),
    }
}

/// What a log holds before the first round and after a reset.
pub open spec fn empty_log() -> DecidingLogModel {
    DecidingLogModel {
        leader_set: Seq::empty(),
        slices: Seq::empty(),
        current_digest: None,
        ordering: Seq::empty(),
        messages: Seq::empty(),
        requests: Seq::empty(),
        current_requests: Seq::empty(),
        batch_size: 0,
        to_persist: Seq::empty(),
        received_count: 0,
        meta: no_figures(),
    }
}

impl DecidingLog {
    /// A log that holds nothing.
    pub fn new() -> (log: DecidingLog)
        ensures
            log@ == empty_log(),
            log@.wf(),
    {
        let log = DecidingLog {
            leader_set: Vec::new(),
            slices: Vec::new(),
            current_digest: None,
            current_received_pre_prepares: 0,
            pre_prepare_ordering: Vec::new(),
            pre_prepare_messages: Vec::new(),
            pre_prepare_requests: Vec::new(),
            current_requests: Vec::new(),
            current_batch_size: 0,
            current_messages_to_persist: Vec::new(),
            batch_meta: BatchMeta::new(),
        };
        assert(requests_of(log.pre_prepare_requests@) =~= Seq::empty());
        log
    }

    /// The figures about the batch in progress.
    pub fn batch_meta(&self) -> (m: &BatchMeta)
        ensures
            *m == self@.meta,
    {
        &self.batch_meta
    }

    /// Starts a round under `view`: the log expects one proposal of each
    /// leader of the view, and holds none yet. The messages registered so
    /// far stay.
    pub fn processing_new_round(&mut self, view: &ViewInfo)
        requires
            view.wf(),
        ensures
            final(self)@.wf(),
            final(self)@ == new_round(old(self)@, view.spec_leader_set(), view.spec_slices()),
    {
        let leaders = view.leader_set();
        let slices = view.hash_space_division();
        let m = leaders.len();
        let mut leader_set: Vec<NodeId> = Vec::with_capacity(m);
        let mut own_slices: Vec<(u64, u64)> = Vec::with_capacity(m);
        let mut ordering: Vec<Option<Digest>> = Vec::with_capacity(m);
        let mut messages: Vec<Option<StoredConsensusMessage>> = Vec::with_capacity(m);
        let mut requests: Vec<Vec<Digest>> = Vec::with_capacity(m);
        let mut i: usize = 0;
        while i < m
            invariant
                i <= m,
                m == leaders@.len(),
                m == slices@.len(),
                leader_set@ == leaders@.take(i as int),
                own_slices@ == slices@.take(i as int),
                ordering@ == Seq::new(i as nat, |j: int| None::<Digest>),
                messages@ == Seq::new(i as nat, |j: int| None::<StoredConsensusMessage>),
                requests@.len() == i,
                forall|j: int| 0 <= j < i ==> (#[trigger] requests@[j])@ == Seq::<Digest>::empty(),
            decreases m - i,
        {
            leader_set.push(leaders[i]);
            own_slices.push(slices[i]);
            ordering.push(None);
            messages.push(None);
            requests.push(Vec::new());
            i += 1;
        }
        assert(leaders@.take(m as int) == leaders@);
        assert(slices@.take(m as int) == slices@);
        self.leader_set = leader_set;
        self.slices = own_slices;
        self.pre_prepare_ordering = ordering;
        self.pre_prepare_messages = messages;
        self.pre_prepare_requests = requests;
        self.current_requests = Vec::new();
        self.current_digest = None;
        self.current_received_pre_prepares = 0;
        self.current_batch_size = 0;
        self.batch_meta = BatchMeta::new();
        assert(self@.requests =~= Seq::new(leaders@.len(), |i: int| Seq::<Digest>::empty()));
    }

    /// Records the proposal `request_batch` of a leader, with the digest of
    /// its batch and the digests of its requests.
    ///
    /// The proposal is refused, with an error of kind `MsgLogDecidingLog`
    /// and the log unchanged, unless its sender leads the round and has not
    /// proposed yet, every request lies in the slice of the sender, and the
    /// digest is the hash chain of the requests. Otherwise the proposal is
    /// recorded, the digest of its wire message joins the messages to
    /// persist, and once every leader has proposed the digest of the whole
    /// batch is computed and returned.
    #[verifier::loop_isolation(false)]
    pub fn processing_batch_request(
        &mut self,
        request_batch: StoredConsensusMessage,
        digest: Digest,
        batch_rq_digests: Vec<Digest>,
    ) -> (r: Result<Option<Digest>, Error>)
        requires
            old(self)@.wf(),
        ensures
            final(self)@.wf(),
            r is Ok <==> old(self)@.accepts(NodeId(request_batch.header.from), digest, batch_rq_digests@),
            r is Err ==> final(self)@ == old(self)@ && r->Err_0.kind() == ErrorKind::MsgLogDecidingLog,
            r is Ok ==> {
                let i = index_of(old(self)@.leader_set, NodeId(request_batch.header.from))->0;
                let rec = old(self)@.recorded(i, request_batch, digest, batch_rq_digests@);
                &&& final(self)@ == (DecidingLogModel { current_digest: r->Ok_0, ..rec })
                &&& r->Ok_0 is Some <==> all_received(rec.ordering)
                &&& r->Ok_0 is Some ==> r->Ok_0->0@ == hash_chain(received(rec.ordering))
            },
    {
        let sending_leader = request_batch.header().from();
        let leader_index = match self.get_index_for_leader(sending_leader) {
            Some(i) => i,
            None => {
                return Err(
                    Error::simple_with_msg(
                        ErrorKind::MsgLogDecidingLog,
                        "The sender of this batch does not lead the round.",
                    ),
                );
            },
        };
        let slice = self.slices[leader_index];
        let mut k: usize = 0;
        while k < batch_rq_digests.len()
            invariant
                k <= batch_rq_digests.len(),
                forall|j: int| 0 <= j < k ==> in_hash_space((#[trigger] batch_rq_digests@[j])@, slice),
            decreases batch_rq_digests.len() - k,
        {
            if !is_request_in_hash_space(&batch_rq_digests[k], &slice) {
                return Err(
                    Error::simple_with_msg(
                        ErrorKind::MsgLogDecidingLog,
                        "This batch contains requests that are not in the hash space of the leader.",
                    ),
                );
            }
            k += 1;
        }
        if self.pre_prepare_ordering[leader_index].is_some() {
            return Err(
                Error::simple_with_msg(
                    ErrorKind::MsgLogDecidingLog,
                    "We have already received a message from that leader.",
                ),
            );
        }
        let expected = chain_digests(&batch_rq_digests);
        if !(expected == digest) {
            return Err(
                Error::simple_with_msg(
                    ErrorKind::MsgLogDecidingLog,
                    "The digest of this batch is not that of its requests.",
                ),
            );
        }
        let ghost pre = self@;
        let ghost rec = pre.recorded(leader_index as int, request_batch, digest, batch_rq_digests@);
        let wire_digest = *request_batch.header().digest();
        self.pre_prepare_ordering[leader_index] = Some(digest);
        self.pre_prepare_messages[leader_index] = Some(request_batch);
        if self.current_received_pre_prepares < usize::MAX {
            self.current_received_pre_prepares += 1;
        }
        let added = batch_rq_digests.len();
        self.current_batch_size = if added <= usize::MAX - self.current_batch_size {
            self.current_batch_size + added
        } else {
            usize::MAX
        };
        let mut j: usize = 0;
        while j < added
            invariant
                j <= added,
                added == batch_rq_digests@.len(),
                self.current_requests@ == pre.current_requests + batch_rq_digests@.take(j as int),
                self.leader_set == old(self).leader_set,
                self.slices == old(self).slices,
                self.pre_prepare_ordering@ == rec.ordering,
                self.pre_prepare_messages@ == rec.messages,
                self.pre_prepare_requests == old(self).pre_prepare_requests,
                self.current_batch_size == rec.batch_size,
                self.current_messages_to_persist == old(self).current_messages_to_persist,
                self.current_received_pre_prepares == rec.received_count,
                self.batch_meta == old(self).batch_meta,
            decreases added - j,
        {
            self.current_requests.push(batch_rq_digests[j]);
            assert(batch_rq_digests@.take(j + 1) == batch_rq_digests@.take(j as int).push(
                batch_rq_digests@[j as int],
            ));
            j += 1;
        }
        assert(batch_rq_digests@.take(added as int) == batch_rq_digests@);
        self.pre_prepare_requests[leader_index] = batch_rq_digests;
        assert(requests_of(self.pre_prepare_requests@) =~= rec.requests);
        self.register_consensus_message(wire_digest);
        self.batch_meta.batch_size = self.current_batch_size;
        self.batch_meta.pre_prepares_received = self.current_received_pre_prepares;
        self.current_digest = self.calculate_instance_digest();
        proof {
            let post = self@;
            assert(post == (DecidingLogModel { current_digest: self.current_digest, ..rec }));
            assert forall|i: int| 0 <= i < post.leader_set.len() && (#[trigger] post.ordering[i]) is Some implies {
                &&& post.ordering[i]->0@ == hash_chain(post.requests[i])
                &&& post.messages[i]->0.header.from == post.leader_set[i].0
                &&& post.to_persist.contains(post.messages[i]->0.header.digest)
                &&& forall|k: int|
                    0 <= k < post.requests[i].len() ==> in_hash_space(
                        (#[trigger] post.requests[i][k])@,
                        post.slices[i],
                    )
            } by {
                if i == leader_index as int {
                    assert(post.to_persist.last() == wire_digest);
                    assert(post.ordering[i]->0@ == hash_chain(post.requests[i]));
                    assert(post.messages[i]->0.header.from == post.leader_set[i].0);
                    assert(post.to_persist.contains(post.messages[i]->0.header.digest));
                } else {
                    assert(pre.ordering[i] is Some);
                    let d = pre.messages[i]->0.header.digest;
                    let w = choose|w: int| 0 <= w < pre.to_persist.len() && pre.to_persist[w] == d;
                    assert(post.to_persist[w] == d);
                }
            }
        }
        Ok(self.current_digest)
    }

    /// The place of `leader` among the leaders of the round.
    pub fn get_index_for_leader(&self, leader: NodeId) -> (r: Option<usize>)
        ensures
            r is Some <==> index_of(self@.leader_set, leader) is Some,
            r is Some ==> r->0 as int == index_of(self@.leader_set, leader)->0 && r->0
                < self@.leader_set.len() && self@.leader_set[r->0 as int] == leader,
    {
        let mut i: usize = 0;
        while i < self.leader_set.len()
            invariant
                i <= self.leader_set.len(),
                forall|j: int| 0 <= j < i ==> self.leader_set@[j] != leader,
            decreases self.leader_set.len() - i,
        {
            if self.leader_set[i].0 == leader.0 {
                proof {
                    let s = self.leader_set@;
                    assert(s.contains(leader));
                    let f = s.index_of_first(leader);
                    s.index_of_first_ensures(leader);
                }
                return Some(i);
            }
            i += 1;
        }
        None
    }

    /// The digest of the whole batch: the hash chain of the digests of the
    /// proposals in the order of the leaders. There is none before every
    /// leader has proposed, nor in a round without leaders.
    pub fn calculate_instance_digest(&self) -> (r: Option<Digest>)
        ensures
            r is Some <==> (all_received(self@.ordering) && self@.ordering.len() > 0),
            r is Some ==> r->0@ == hash_chain(received(self@.ordering)),
    {
        let m = self.pre_prepare_ordering.len();
        if m == 0 {
            return None;
        }
        let mut digests: Vec<Digest> = Vec::with_capacity(m);
        let mut i: usize = 0;
        while i < m
            invariant
                i <= m,
                m == self.pre_prepare_ordering@.len(),
                digests@.len() == i,
                forall|j: int| 0 <= j < i ==> (#[trigger] self.pre_prepare_ordering@[j]) is Some,
                forall|j: int| 0 <= j < i ==> digests@[j] == (#[trigger] self.pre_prepare_ordering@[j])->0,
            decreases m - i,
        {
            match self.pre_prepare_ordering[i] {
                Some(d) => {
                    digests.push(d);
                },
                None => {
                    return None;
                },
            }
            i += 1;
        }
        assert(digests@ =~= received(self@.ordering));
        Some(chain_digests(&digests))
    }

    /// Registers the digest of a wire message that must be durable before
    /// the batch in progress may be executed, and counts it in the figures
    /// about the batch.
    pub fn register_consensus_message(&mut self, message_digest: Digest)
        ensures
            final(self)@ == old(self)@.registered(message_digest),
            old(self)@.wf() ==> final(self)@.wf(),
    {
        self.current_messages_to_persist.push(message_digest);
        self.batch_meta.messages_registered = self.current_messages_to_persist.len();
        proof {
            let pre = old(self)@;
            let post = self@;
            if pre.wf() {
                assert forall|i: int|
                    0 <= i < post.leader_set.len() && (#[trigger] post.ordering[i]) is Some implies post.to_persist.contains(
                    post.messages[i]->0.header.digest,
                ) by {
                    let d = pre.messages[i]->0.header.digest;
                    let w = choose|w: int| 0 <= w < pre.to_persist.len() && pre.to_persist[w] == d;
                    assert(post.to_persist[w] == d);
                }
            }
        }
    }

    /// Ends the round. Where the digest of the whole batch is known, the
    /// batch comes back with its proposals, its requests, the messages to
    /// persist and the figures about it, and the log holds nothing;
    /// otherwise there is no batch and the log stays as it was.
    pub fn finish_processing_batch(&mut self) -> (r: Option<CompletedBatch>)
        requires
            old(self)@.wf(),
        ensures
            final(self)@.wf(),
            r is Some <==> old(self)@.current_digest is Some,
            r is None ==> final(self)@ == old(self)@,
            r is Some ==> {
                let b = r->0;
                &&& final(self)@ == empty_log()
                &&& b.wf()
                &&& b.batch_digest == old(self)@.current_digest->0
                &&& b.pre_prepare_ordering@ == received(old(self)@.ordering)
                &&& requests_of(b.requests_by_leader@) == old(self)@.requests
                &&& b.messages_to_persist@ == old(self)@.to_persist
                &&& b.batch_meta == old(self)@.meta
                &&& forall|i: int|
                    0 <= i < b.pre_prepare_messages@.len() ==> Some(
                        #[trigger] b.pre_prepare_messages@[i],
                    ) == old(self)@.messages[i]
            },
    {
        let current_digest = match self.current_digest {
            Some(d) => d,
            None => {
                return None;
            },
        };
        let ghost pre = self@;
        let m = self.pre_prepare_ordering.len();
        let mut pre_prepare_ordering: Vec<Digest> = Vec::with_capacity(m);
        let mut request_digests: Vec<Digest> = Vec::new();
        let mut k: usize = 0;
        while k < m
            invariant
                k <= m,
                m == pre.leader_set.len(),
                pre.wf(),
                all_received(pre.ordering),
                self@ == pre,
                pre_prepare_ordering@.len() == k,
                forall|j: int| 0 <= j < k ==> pre_prepare_ordering@[j] == (#[trigger] pre.ordering[j])->0,
                request_digests@ == flatten(pre.requests.take(k as int)),
            decreases m - k,
        {
            match self.pre_prepare_ordering[k] {
                Some(d) => {
                    pre_prepare_ordering.push(d);
                },
                None => {
                    assert(pre.ordering[k as int] is Some);
                },
            }
            let part = &self.pre_prepare_requests[k];
            assert(part@ == pre.requests[k as int]);
            let ghost before = request_digests@;
            let mut x: usize = 0;
            while x < part.len()
                invariant
                    x <= part.len(),
                    request_digests@ == before + part@.take(x as int),
                decreases part.len() - x,
            {
                request_digests.push(part[x]);
                assert(part@.take(x + 1) == part@.take(x as int).push(part@[x as int]));
                x += 1;
            }
            assert(part@.take(part@.len() as int) == part@);
            assert(pre.requests.take(k + 1).drop_last() == pre.requests.take(k as int));
            k += 1;
        }
        assert(pre.requests.take(m as int) == pre.requests);
        assert(pre_prepare_ordering@ =~= received(pre.ordering));
        let mut requests_by_leader: Vec<Vec<Digest>> = Vec::new();
        std::mem::swap(&mut requests_by_leader, &mut self.pre_prepare_requests);
        let mut messages_to_persist: Vec<Digest> = Vec::new();
        std::mem::swap(&mut messages_to_persist, &mut self.current_messages_to_persist);
        let batch_meta = self.batch_meta;
        let mut pre_prepare_messages: Vec<StoredConsensusMessage> = Vec::with_capacity(m);
        let mut i: usize = 0;
        while i < m
            invariant
                i <= m,
                m == pre.leader_set.len(),
                pre.wf(),
                all_received(pre.ordering),
                self.pre_prepare_messages@.len() == m,
                forall|j: int| i <= j < m ==> self.pre_prepare_messages@[j] == pre.messages[j],
                pre_prepare_messages@.len() == i,
                forall|j: int|
                    0 <= j < i ==> Some(#[trigger] pre_prepare_messages@[j]) == pre.messages[j],
            decreases m - i,
        {
            assert(pre.ordering[i as int] is Some);
            let taken = self.pre_prepare_messages[i].take();
            match taken {
                Some(msg) => {
                    pre_prepare_messages.push(msg);
                },
                None => {},
            }
            i += 1;
        }
        self.reset();
        let batch = CompletedBatch {
            batch_digest: current_digest,
            pre_prepare_ordering,
            pre_prepare_messages,
            requests_by_leader,
            request_digests,
            messages_to_persist,
            batch_meta,
        };
        proof {
            assert forall|i: int| 0 <= i < m implies (#[trigger] batch.pre_prepare_ordering@[i])@
                == hash_chain(batch.requests_by_leader@[i]@) by {
                assert(pre.ordering[i] is Some);
                assert(requests_of(batch.requests_by_leader@)[i] == pre.requests[i]);
            }
            assert forall|i: int| 0 <= i < m implies batch.messages_to_persist@.contains(
                (#[trigger] batch.pre_prepare_messages@[i]).header.digest,
            ) by {
                assert(pre.ordering[i] is Some);
                assert(Some(batch.pre_prepare_messages@[i]) == pre.messages[i]);
            }
        }
        Some(batch)
    }

    /// Forgets the round in progress and everything recorded for it.
    pub fn reset(&mut self)
        ensures
            final(self)@ == empty_log(),
            final(self)@.wf(),
    {
        self.leader_set.clear();
        self.slices.clear();
        self.pre_prepare_messages.clear();
        self.pre_prepare_ordering.clear();
        self.pre_prepare_requests.clear();
        self.current_requests.clear();
        self.current_digest = None;
        self.current_received_pre_prepares = 0;
        self.current_batch_size = 0;
        self.current_messages_to_persist.clear();
        self.batch_meta = BatchMeta::new();
        assert(requests_of(self.pre_prepare_requests@) =~= Seq::empty());
    }

    /// Whether a round is in progress.
    pub fn is_currently_processing(&self) -> (r: bool)
        ensures
            r == (self@.ordering.len() > 0),
    {
        !self.pre_prepare_ordering.is_empty()
    }

    /// The proposal of the leader at place `leader_index`, where it has
    /// arrived.
    pub fn pre_prepare_message(&self, leader_index: usize) -> (r: Option<&StoredConsensusMessage>)
        ensures
            leader_index >= self@.messages.len() ==> r is None,
            leader_index < self@.messages.len() ==> (match self@.messages[leader_index as int] {
                Some(m) => r is Some && *r->0 == m,
                None => r is None,
            }),
    {
        if leader_index >= self.pre_prepare_messages.len() {
            return None;
        }
        match &self.pre_prepare_messages[leader_index] {
            Some(m) => Some(m),
            None => None,
        }
    }

    /// The digest of the batch in progress, once every leader has proposed.
    pub fn current_digest(&self) -> (r: Option<Digest>)
        ensures
            r == self@.current_digest,
    {
        self.current_digest
    }

    /// The digests of the requests of the batch in progress, in the order of
    /// arrival of the proposals.
    pub fn current_requests(&self) -> (r: &Vec<Digest>)
        ensures
            r@ == self@.current_requests,
    {
        &self.current_requests
    }

    /// The number of requests of the batch in progress, if a round is in
    /// progress.
    pub fn current_batch_size(&self) -> (r: Option<usize>)
        ensures
            r == (if self@.ordering.len() > 0 {
                Some(self@.batch_size)
            } else {
                None
            }),
    {
        if self.is_currently_processing() {
            Some(self.current_batch_size)
        } else {
            None
        }
    }

    /// The digests of the messages that must be durable before the batch in
    /// progress may be executed.
    pub fn current_messages(&self) -> (r: &Vec<Digest>)
        ensures
            r@ == self@.to_persist,
    {
        &self.current_messages_to_persist
    }
}

} // verus!
