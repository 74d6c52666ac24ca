//! The consensus state machine and the queue of messages to be ordered.

pub mod safety;
pub mod tbo_queue;

use crate::communication::message::{
    ConsensusMessage, ConsensusMessageKind, ConsensusPhaseKind, Header, StoredMessage,
};
use crate::consensus::tbo_queue::{front, popped, queued_model, advanced, TBOQueue, TboModel};
use crate::crypto::hash::{chain_digests, clone_digests, hash_chain, Digest};
use crate::msg_log::deciding_log::{
    all_received, empty_log, flatten, index_of, new_round, received, CompletedBatch, DecidingLog,
    DecidingLogModel,
};
use crate::node_id::{contains_node, NodeId};
use crate::ordering::{seq_next, SeqNo};
use crate::view::ViewInfo;
use vstd::prelude::*;

verus! {

/// The phase of the consensus instance in progress.
#[derive(Copy, Clone, Debug, PartialEq, Eq, Structural)]
pub enum ProtoPhase {
    /// The instance has not begun.
    Init,
    /// The replica waits for the proposals of the leaders.
    PrePreparing,
    /// The replica collects the votes of the prepare phase; the number is
    /// that of the votes counted.
    Preparing(usize),
    /// The replica collects the votes of the commit phase; the number is
    /// that of the votes counted.
    Committing(usize),
    /// The instance is decided, and the next has not begun.
    Decided,
}

/// What the consensus has to offer to the loop that drives it.
pub enum PollStatus {
    /// Nothing: the replica should wait for the next message.
    Recv,
    /// Nothing yet: the replica should propose, if it leads and has requests
    /// to order, and then wait for the next message.
    TryProposeAndRecv,
    /// A message that was queued and can now be processed.
    NextMessage(Header, ConsensusMessage),
}

/// What became of a consensus message.
#[derive(Copy, Clone, Debug)]
pub enum ConsensusStatus {
    /// The sender had voted in this phase before: the vote was not counted.
    VotedTwice(NodeId),
    /// The instance is not decided yet.
    Deciding,
    /// The instance is decided on the batch with this digest.
    Decided(Digest),
}

/// What a consensus holds.
pub struct ConsensusModel {
    /// The id of the replica.
    pub node_id: NodeId,
    /// The view in force.
    pub view: ViewInfo,
    /// The phase of the instance in progress.
    pub phase: ProtoPhase,
    /// The messages that wait for their turn.
    pub tbo: TboModel,
    /// The digest of the batch under decision, once every leader proposed.
    pub current: Digest,
    /// The log of the instance in progress.
    pub log: DecidingLogModel,
    /// The replicas whose vote of the prepare phase was counted.
    pub prepare_voters: Seq<NodeId>,
    /// The replicas whose vote of the commit phase was counted.
    pub commit_voters: Seq<NodeId>,
    /// The instance and the batch that this replica voted to commit, if it
    /// did so for the instance in progress: in a later view the replica
    /// takes no other batch for that instance.
    pub committed: Option<(SeqNo, Digest)>,
}

/// How far a phase is on the way of an instance.
pub open spec fn rank(phase: ProtoPhase) -> int {
    match phase {
        ProtoPhase::Init => 0,
        ProtoPhase::PrePreparing => 1,
        ProtoPhase::Preparing(_) => 2,
        ProtoPhase::Committing(_) => 3,
        ProtoPhase::Decided => 4,
    }
}

/// Where a replica stands: in which view, at which instance, how far.
pub struct Position {
    /// The number of the view.
    pub view: int,
    /// The number of the instance.
    pub seq: int,
    /// The rank of the phase.
    pub rank: int,
}

impl Position {
    /// Whether this position comes before `other`, or is `other`: by view,
    /// then by instance, then by rank.
    pub open spec fn le(self, other: Position) -> bool {
        self.view < other.view || (self.view == other.view && (self.seq < other.seq || (self.seq
            == other.seq && self.rank <= other.rank)))
    }
}

impl ConsensusModel {
    /// Where the replica stands.
    pub open spec fn position(self) -> Position {
        Position {
            view: self.view.spec_seq().value(),
            seq: self.tbo.curr_seq.value(),
            rank: rank(self.phase),
        }
    }

    /// The number of replicas.
    pub open spec fn n(self) -> nat {
        self.view.spec_params().spec_n()
    }

    /// The size of a quorum.
    pub open spec fn quorum(self) -> nat {
        self.view.spec_params().spec_quorum()
    }

    /// The view and the log are well formed; no replica is counted twice in
    /// a phase, and only replicas are counted; the number in the phase is
    /// that of the votes counted and short of a quorum; a decided instance
    /// has a quorum of commit votes; and from the prepare phase on the batch
    /// under decision is that of the log.
    pub open spec fn wf(self) -> bool {
        &&& self.view.wf()
        &&& self.log.wf()
        &&& self.prepare_voters.no_duplicates()
        &&& self.commit_voters.no_duplicates()
        &&& forall|i: int| 0 <= i < self.prepare_voters.len() ==> (#[trigger] self.prepare_voters[i]).0 < self.n()
        &&& forall|i: int| 0 <= i < self.commit_voters.len() ==> (#[trigger] self.commit_voters[i]).0 < self.n()
        &&& self.committed matches Some((s, d)) ==> s == self.tbo.curr_seq && (rank(self.phase) >= 2
            ==> self.current@ == d@)
        &&& rank(self.phase) >= 3 ==> self.committed is Some
        &&& match self.phase {
            ProtoPhase::Init => true,
            ProtoPhase::PrePreparing => {
                &&& self.log.leader_set == self.view.spec_leader_set()
                &&& self.log.slices == self.view.spec_slices()
                &&& self.log.current_digest is None
            },
            ProtoPhase::Preparing(k) => {
                &&& k == self.prepare_voters.len()
                &&& k < self.quorum()
                &&& self.commit_voters.len() == 0
                &&& self.log.current_digest == Some(self.current)
            },
            ProtoPhase::Committing(k) => {
                &&& k == self.commit_voters.len()
                &&& k < self.quorum()
                &&& self.log.current_digest == Some(self.current)
            },
            ProtoPhase::Decided => self.commit_voters.len() == self.quorum(),
        }
    }

    /// The model with `e` queued among the messages that wait.
    pub open spec fn with_queued(self, header: Header, message: ConsensusMessage) -> ConsensusModel {
        ConsensusModel { tbo: queued_model(self.tbo, (header, message)), ..self }
    }

    /// The model at the beginning of the next instance: the messages left
    /// for the current one are dropped, and so is what the log holds of it.
    pub open spec fn next_instance(self) -> ConsensusModel {
        ConsensusModel {
            phase: ProtoPhase::Init,
            tbo: TboModel {
                curr_seq: SeqNo(seq_next(self.tbo.curr_seq.value()) as i32),
                get_queue: self.tbo.get_queue,
                pre_prepares: advanced(self.tbo.pre_prepares),
                prepares: advanced(self.tbo.prepares),
                commits: advanced(self.tbo.commits),
            },
            log: empty_log(),
            prepare_voters: Seq::empty(),
            commit_voters: Seq::empty(),
            committed: None,
            ..self
        }
    }

    /// The model after the decided instance was handed out and the next
    /// instance began, with the queue signalled.
    pub open spec fn after_decision(self) -> ConsensusModel {
        self.next_instance().signalled()
    }

    /// The model after the later view `view` was installed: the instance in
    /// progress begins again under it, and the queue is signalled.
    pub open spec fn restarted_under(self, view: ViewInfo) -> ConsensusModel {
        ConsensusModel {
            view,
            phase: ProtoPhase::Init,
            tbo: TboModel { get_queue: true, ..self.tbo },
            log: empty_log(),
            prepare_voters: Seq::empty(),
            commit_voters: Seq::empty(),
            ..self
        }
    }

    /// The model at the beginning of the instance `seq`, with nothing
    /// queued.
    pub open spec fn moved_to(self, seq: SeqNo) -> ConsensusModel {
        ConsensusModel {
            phase: ProtoPhase::Init,
            tbo: TboModel {
                curr_seq: seq,
                get_queue: false,
                pre_prepares: Seq::empty(),
                prepares: Seq::empty(),
                commits: Seq::empty(),
            },
            log: empty_log(),
            prepare_voters: Seq::empty(),
            commit_voters: Seq::empty(),
            committed: None,
            ..self
        }
    }

    /// Whether the replica may take the batch with the given digest for the
    /// instance in progress: it may, unless it voted to commit another batch
    /// for the instance in an earlier view.
    pub open spec fn may_take(self, digest: Seq<u8>) -> bool {
        self.committed matches Some((_, d)) ==> d@ == digest
    }

    /// The model after the replica began to wait for proposals.
    pub open spec fn begun(self) -> ConsensusModel {
        ConsensusModel {
            phase: ProtoPhase::PrePreparing,
            log: new_round(self.log, self.view.spec_leader_set(), self.view.spec_slices()),
            ..self
        }
    }

    /// The model with the queue signalled.
    pub open spec fn signalled(self) -> ConsensusModel {
        ConsensusModel { tbo: TboModel { get_queue: true, ..self.tbo }, ..self }
    }

    /// The vote that this replica casts in a phase for the batch under
    /// decision.
    pub open spec fn vote(self, kind: ConsensusMessageKind) -> ConsensusMessage {
        ConsensusMessage { seq: self.tbo.curr_seq, view: self.view.spec_seq(), kind }
    }
}

/// How a consensus message changes the state of a replica, what becomes of
/// the message, and what the replica broadcasts to all replicas.
///
/// A message of another view is dropped, whether that view is over or yet
/// to come: the queue keeps messages by instance alone, so that it holds
/// them for later instances of the view in force and for no later view; a
/// replica takes up a later view through the synchronizer only. Before the
/// instance begins and after it is decided, every message is queued. While the replica waits for
/// proposals, a proposal for the current instance is recorded if the log
/// takes it and dropped if not; with the last proposal the replica enters
/// the prepare phase and, unless it is the primary, broadcasts its vote. A
/// replica that voted to commit a batch for the instance in an earlier view
/// takes no other batch for it: it forgets the proposals and waits on.
/// In the prepare and the commit phase a vote of that phase for the current
/// instance and the batch under decision is counted, once for each replica;
/// a vote for another batch or of a sender that is no replica is dropped; a
/// second vote of a replica is reported and not counted; a prepare vote that
/// arrives while the requests of the batch are missing is queued again. The
/// vote that completes a quorum ends the phase: the replica broadcasts its
/// commit vote, or the instance is decided. Any other message is queued.
pub open spec fn step_process(
    pre: ConsensusModel,
    post: ConsensusModel,
    header: Header,
    message: ConsensusMessage,
    requests_available: bool,
    status: ConsensusStatus,
    out: Option<ConsensusMessage>,
) -> bool {
    let from = NodeId(header.from);
    let current_instance = message.seq == pre.tbo.curr_seq;
    if message.view != pre.view.spec_seq() {
        post == pre && status is Deciding && out is None
    } else {
        match pre.phase {
            ProtoPhase::Init | ProtoPhase::Decided => {
                post == pre.with_queued(header, message) && status is Deciding && out is None
            },
            ProtoPhase::PrePreparing => match message.kind {
                ConsensusMessageKind::PrePrepare { digest, requests } if current_instance => {
                    if pre.log.accepts(from, digest, requests@) {
                        let i = index_of(pre.log.leader_set, from)->0;
                        let rec = pre.log.recorded(
                            i,
                            StoredMessage { header, message },
                            digest,
                            requests@,
                        );
                        if all_received(rec.ordering) && !pre.may_take(
                            hash_chain(received(rec.ordering)),
                        ) {
                            &&& post == (ConsensusModel {
                                log: new_round(
                                    empty_log(),
                                    pre.view.spec_leader_set(),
                                    pre.view.spec_slices(),
                                ),
                                ..pre
                            })
                            &&& status is Deciding
                            &&& out is None
                        } else if all_received(rec.ordering) {
                            &&& post == (ConsensusModel {
                                phase: ProtoPhase::Preparing(0),
                                current: post.current,
                                log: DecidingLogModel { current_digest: Some(post.current), ..rec },
                                prepare_voters: Seq::empty(),
                                commit_voters: Seq::empty(),
                                ..pre
                            })
                            &&& post.current@ == hash_chain(received(rec.ordering))
                            &&& status is Deciding
                            &&& out == (if pre.node_id != pre.view.spec_leader() {
                                Some(pre.vote(ConsensusMessageKind::Prepare(post.current)))
                            } else {
                                None
                            })
                        } else {
                            &&& post == (ConsensusModel {
                                log: DecidingLogModel { current_digest: None, ..rec },
                                ..pre
                            })
                            &&& status is Deciding
                            &&& out is None
                        }
                    } else {
                        post == pre && status is Deciding && out is None
                    }
                },
                _ => post == pre.with_queued(header, message) && status is Deciding && out is None,
            },
            ProtoPhase::Preparing(k) => match message.kind {
                ConsensusMessageKind::Prepare(d) if current_instance => {
                    if d@ != pre.current@ || from.0 >= pre.n() {
                        post == pre && status is Deciding && out is None
                    } else if pre.prepare_voters.contains(from) {
                        post == pre && status == ConsensusStatus::VotedTwice(from) && out is None
                    } else if !requests_available && pre.node_id != pre.view.spec_leader() {
                        post == pre.with_queued(header, message) && status is Deciding && out is None
                    } else {
                        let counted = ConsensusModel {
                            prepare_voters: pre.prepare_voters.push(from),
                            log: pre.log.registered(header.digest),
                            ..pre
                        };
                        &&& status is Deciding
                        &&& if k + 1 == pre.quorum() {
                            &&& post == (ConsensusModel {
                                phase: ProtoPhase::Committing(0),
                                committed: Some((pre.tbo.curr_seq, pre.current)),
                                ..counted
                            })
                            &&& out == Some(pre.vote(ConsensusMessageKind::Commit(pre.current)))
                        } else {
                            &&& post == (ConsensusModel {
                                phase: ProtoPhase::Preparing((k + 1) as usize),
                                ..counted
                            })
                            &&& out is None
                        }
                    }
                },
                _ => post == pre.with_queued(header, message) && status is Deciding && out is None,
            },
            ProtoPhase::Committing(k) => match message.kind {
                ConsensusMessageKind::Commit(d) if current_instance => {
                    if d@ != pre.current@ || from.0 >= pre.n() {
                        post == pre && status is Deciding && out is None
                    } else if pre.commit_voters.contains(from) {
                        post == pre && status == ConsensusStatus::VotedTwice(from) && out is None
                    } else {
                        let counted = ConsensusModel {
                            commit_voters: pre.commit_voters.push(from),
                            log: pre.log.registered(header.digest),
                            ..pre
                        };
                        &&& out is None
                        &&& if k + 1 == pre.quorum() {
                            &&& post == (ConsensusModel { phase: ProtoPhase::Decided, ..counted })
                            &&& status == ConsensusStatus::Decided(pre.current)
                        } else {
                            &&& post == (ConsensusModel {
                                phase: ProtoPhase::Committing((k + 1) as usize),
                                ..counted
                            })
                            &&& status is Deciding
                        }
                    }
                },
                _ => post == pre.with_queued(header, message) && status is Deciding && out is None,
            },
        }
    }
}

/// How polling changes the state of a replica, and what it offers.
///
/// Before the instance begins, a signalled queue offers its oldest proposal
/// for the instance, and with it the replica starts to wait for proposals;
/// without a signal the replica is told to propose. While the replica waits
/// for proposals the queue offers proposals, in the prepare phase prepare
/// votes, unless the requests of the batch are missing, and in the commit
/// phase commit votes. A queue that has nothing to offer loses its signal.
pub open spec fn step_poll(
    pre: ConsensusModel,
    post: ConsensusModel,
    requests_available: bool,
    r: PollStatus,
) -> bool {
    match pre.phase {
        ProtoPhase::Init => {
            if pre.tbo.get_queue {
                match front(pre.tbo.pre_prepares) {
                    Some(e) => {
                        &&& post == (ConsensusModel {
                            phase: ProtoPhase::PrePreparing,
                            tbo: TboModel { pre_prepares: popped(pre.tbo.pre_prepares), ..pre.tbo },
                            log: new_round(
                                pre.log,
                                pre.view.spec_leader_set(),
                                pre.view.spec_slices(),
                            ),
                            ..pre
                        })
                        &&& r == PollStatus::NextMessage(e.0, e.1)
                    },
                    None => {
                        &&& post == (ConsensusModel {
                            tbo: TboModel { get_queue: false, ..pre.tbo },
                            ..pre
                        })
                        &&& r is Recv
                    },
                }
            } else {
                post == pre && r is TryProposeAndRecv
            }
        },
        ProtoPhase::PrePreparing => {
            if pre.tbo.get_queue {
                match front(pre.tbo.pre_prepares) {
                    Some(e) => {
                        &&& post == (ConsensusModel {
                            tbo: TboModel { pre_prepares: popped(pre.tbo.pre_prepares), ..pre.tbo },
                            ..pre
                        })
                        &&& r == PollStatus::NextMessage(e.0, e.1)
                    },
                    None => {
                        &&& post == (ConsensusModel {
                            tbo: TboModel { get_queue: false, ..pre.tbo },
                            ..pre
                        })
                        &&& r is Recv
                    },
                }
            } else {
                post == pre && r is Recv
            }
        },
        ProtoPhase::Preparing(_) => {
            if !requests_available {
                &&& post == (ConsensusModel { tbo: TboModel { get_queue: false, ..pre.tbo }, ..pre })
                &&& r is Recv
            } else if pre.tbo.get_queue {
                match front(pre.tbo.prepares) {
                    Some(e) => {
                        &&& post == (ConsensusModel {
                            tbo: TboModel { prepares: popped(pre.tbo.prepares), ..pre.tbo },
                            ..pre
                        })
                        &&& r == PollStatus::NextMessage(e.0, e.1)
                    },
                    None => {
                        &&& post == (ConsensusModel {
                            tbo: TboModel { get_queue: false, ..pre.tbo },
                            ..pre
                        })
                        &&& r is Recv
                    },
                }
            } else {
                post == pre && r is Recv
            }
        },
        ProtoPhase::Committing(_) => {
            if pre.tbo.get_queue {
                match front(pre.tbo.commits) {
                    Some(e) => {
                        &&& post == (ConsensusModel {
                            tbo: TboModel { commits: popped(pre.tbo.commits), ..pre.tbo },
                            ..pre
                        })
                        &&& r == PollStatus::NextMessage(e.0, e.1)
                    },
                    None => {
                        &&& post == (ConsensusModel {
                            tbo: TboModel { get_queue: false, ..pre.tbo },
                            ..pre
                        })
                        &&& r is Recv
                    },
                }
            } else {
                post == pre && r is Recv
            }
        },
        ProtoPhase::Decided => post == pre && r is Recv,
    }
}

/// The state of the consensus instance in progress, and the messages that
/// wait for later instances.
pub struct Consensus {
    node_id: NodeId,
    view: ViewInfo,
    phase: ProtoPhase,
    tbo: TBOQueue,
    current: Digest,
    log: DecidingLog,
    prepare_voters: Vec<NodeId>,
    commit_voters: Vec<NodeId>,
    committed: Option<(SeqNo, Digest)>,
}

impl View for Consensus {
    type V = ConsensusModel;

    closed spec fn view(&self) -> ConsensusModel {
        ConsensusModel {
            node_id: self.node_id,
            view: self.view,
            phase: self.phase,
            tbo: self.tbo@,
            current: self.current,
            log: self.log@,
            prepare_voters: self.prepare_voters@,
            commit_voters: self.commit_voters@,
            committed: self.committed,
        }
    }
}

impl Consensus {
    /// The consensus of replica `node_id` under `view`, about to begin the
    /// instance `initial_seq_no`.
    pub fn new(node_id: NodeId, view: ViewInfo, initial_seq_no: SeqNo) -> (c: Consensus)
        requires
            view.wf(),
        ensures
            c@.wf(),
            c@.node_id == node_id,
            c@.view == view,
            c@.phase == ProtoPhase::Init,
            c@.tbo == (TboModel {
                curr_seq: initial_seq_no,
                get_queue: false,
                pre_prepares: Seq::empty(),
                prepares: Seq::empty(),
                commits: Seq::empty(),
            }),
            c@.log == empty_log(),
            c@.prepare_voters == Seq::<NodeId>::empty(),
            c@.commit_voters == Seq::<NodeId>::empty(),
            c@.committed is None,
    {
        Consensus {
            node_id,
            view,
            phase: ProtoPhase::Init,
            tbo: TBOQueue::new(initial_seq_no),
            current: Digest::zero(),
            log: DecidingLog::new(),
            prepare_voters: Vec::new(),
            commit_voters: Vec::new(),
            committed: None,
        }
    }

    /// The current protocol phase.
    pub fn phase(&self) -> (p: ProtoPhase)
        ensures
            p == self@.phase,
    {
        self.phase
    }

    /// The consensus instance in progress.
    pub fn sequence_number(&self) -> (s: SeqNo)
        ensures
            s == self@.tbo.curr_seq,
    {
        self.tbo.sequence_number()
    }

    /// The view in force.
    pub fn view_info(&self) -> (v: &ViewInfo)
        ensures
            *v == self@.view,
    {
        &self.view
    }

    /// The digest of the batch under decision. It is meaningful from the
    /// prepare phase on.
    pub fn current_digest(&self) -> (d: Digest)
        ensures
            d == self@.current,
    {
        self.current
    }

    /// The instance and the batch that this replica voted to commit, if it
    /// did so for the instance in progress.
    pub fn committed(&self) -> (c: Option<(SeqNo, Digest)>)
        ensures
            c == self@.committed,
    {
        self.committed
    }

    /// The log of the instance in progress.
    pub fn deciding_log(&self) -> (l: &DecidingLog)
        ensures
            l@ == self@.log,
    {
        &self.log
    }

    /// The messages that wait for their turn.
    pub fn tbo_queue(&self) -> (q: &TBOQueue)
        ensures
            q@ == self@.tbo,
    {
        &self.tbo
    }

    /// Tells the queue that it may hold messages that can now be processed.
    pub fn signal(&mut self)
        ensures
            final(self)@ == (ConsensusModel {
                tbo: TboModel { get_queue: true, ..old(self)@.tbo },
                ..old(self)@
            }),
    {
        self.tbo.signal();
    }

    /// Queues a consensus message for later, or drops it where its instance
    /// is over or lies beyond the high water mark.
    pub fn queue(&mut self, header: Header, message: ConsensusMessage)
        ensures
            final(self)@ == old(self)@.with_queued(header, message),
    {
        self.tbo.queue(header, message);
    }

    /// Begins the instance without a proposal at hand: from `Init` the
    /// replica starts to wait for proposals. In any other phase nothing
    /// changes.
    pub fn advance_init_phase(&mut self)
        requires
            old(self)@.wf(),
        ensures
            final(self)@.wf(),
            final(self)@ == (if old(self)@.phase == ProtoPhase::Init {
                old(self)@.begun()
            } else {
                old(self)@
            }),
    {
        match self.phase {
            ProtoPhase::Init => {
                self.log.processing_new_round(&self.view);
                self.phase = ProtoPhase::PrePreparing;
            },
            _ => {},
        }
    }

    /// Proposes the batch of the requests with the given digests.
    ///
    /// A leader of the view in phase `Init` starts to wait for proposals, and
    /// its own proposal to broadcast to all replicas comes back: it carries
    /// the hash chain of the digests as the digest of the batch. On a
    /// replica that leads nothing, and in any other phase, nothing happens.
    pub fn propose(&mut self, requests: Vec<Digest>) -> (out: Option<ConsensusMessage>)
        requires
            old(self)@.wf(),
        ensures
            final(self)@.wf(),
            final(self)@ == (if out is Some {
                old(self)@.begun()
            } else {
                old(self)@
            }),
            out is Some <==> (old(self)@.phase == ProtoPhase::Init
                && old(self)@.view.spec_leader_set().contains(old(self)@.node_id)),
            out is Some ==> {
                let m = out->0;
                &&& m.seq == old(self)@.tbo.curr_seq
                &&& m.view == old(self)@.view.spec_seq()
                &&& m.kind matches ConsensusMessageKind::PrePrepare { digest, requests: rqs }
                &&& rqs@ == requests@
                &&& digest@ == hash_chain(requests@)
            },
    {
        match self.phase {
            ProtoPhase::Init => {},
            _ => {
                return None;
            },
        }
        if self.view.leader_index(self.node_id).is_none() {
            return None;
        }
        self.advance_init_phase();
        let digest = chain_digests(&requests);
        Some(
            ConsensusMessage::new(
                self.tbo.sequence_number(),
                self.view.sequence_number(),
                ConsensusMessageKind::PrePrepare { digest, requests },
            ),
        )
    }

    /// Checks whether a queued message can be processed. `requests_available`
    /// says whether the requests of the batch under decision have arrived.
    pub fn poll(&mut self, requests_available: bool) -> (r: PollStatus)
        requires
            old(self)@.wf(),
        ensures
            final(self)@.wf(),
            step_poll(old(self)@, final(self)@, requests_available, r),
    {
        match self.phase {
            ProtoPhase::Init => {
                if self.tbo.is_signalled() {
                    match self.tbo.pop_pre_prepare() {
                        Some((header, message)) => {
                            self.log.processing_new_round(&self.view);
                            self.phase = ProtoPhase::PrePreparing;
                            PollStatus::NextMessage(header, message)
                        },
                        None => PollStatus::Recv,
                    }
                } else {
                    PollStatus::TryProposeAndRecv
                }
            },
            ProtoPhase::PrePreparing => {
                if self.tbo.is_signalled() {
                    match self.tbo.pop_pre_prepare() {
                        Some((header, message)) => PollStatus::NextMessage(header, message),
                        None => PollStatus::Recv,
                    }
                } else {
                    PollStatus::Recv
                }
            },
            ProtoPhase::Preparing(_) => {
                if !requests_available {
                    self.tbo.unsignal();
                    PollStatus::Recv
                } else if self.tbo.is_signalled() {
                    match self.tbo.pop_prepare() {
                        Some((header, message)) => PollStatus::NextMessage(header, message),
                        None => PollStatus::Recv,
                    }
                } else {
                    PollStatus::Recv
                }
            },
            ProtoPhase::Committing(_) => {
                if self.tbo.is_signalled() {
                    match self.tbo.pop_commit() {
                        Some((header, message)) => PollStatus::NextMessage(header, message),
                        None => PollStatus::Recv,
                    }
                } else {
                    PollStatus::Recv
                }
            },
            ProtoPhase::Decided => PollStatus::Recv,
        }
    }

    /// Starts the next consensus instance: the messages left for the current
    /// one are dropped, and so is what the log holds of it.
    pub fn next_instance(&mut self)
        requires
            old(self)@.wf(),
        ensures
            final(self)@.wf(),
            final(self)@ == old(self)@.next_instance(),
    {
        self.tbo.next_instance_queue();
        self.phase = ProtoPhase::Init;
        self.log.reset();
        self.prepare_voters.clear();
        self.commit_voters.clear();
        self.committed = None;
    }

    /// Installs a later view: the instance in progress begins again under
    /// it, and the queue is signalled. A view that is not later than the one
    /// in force is refused, and nothing changes.
    pub fn install_view(&mut self, view: ViewInfo) -> (installed: bool)
        requires
            old(self)@.wf(),
            view.wf(),
        ensures
            final(self)@.wf(),
            installed == (view.spec_seq().value() > old(self)@.view.spec_seq().value()),
            final(self)@ == (if installed {
                old(self)@.restarted_under(view)
            } else {
                old(self)@
            }),
    {
        if view.sequence_number().0 <= self.view.sequence_number().0 {
            return false;
        }
        self.view = view;
        self.phase = ProtoPhase::Init;
        self.log.reset();
        self.prepare_voters.clear();
        self.commit_voters.clear();
        self.tbo.signal();
        true
    }

    /// Moves to the instance `seq`, as after a state transfer: what was
    /// queued and what the log holds is dropped.
    pub fn install_sequence_number(&mut self, seq: SeqNo)
        requires
            old(self)@.wf(),
        ensures
            final(self)@.wf(),
            final(self)@ == old(self)@.moved_to(seq),
    {
        self.tbo = TBOQueue::new(seq);
        self.phase = ProtoPhase::Init;
        self.log.reset();
        self.prepare_voters.clear();
        self.commit_voters.clear();
        self.committed = None;
    }

    /// Hands out the batch of the decided instance, once: its proposals,
    /// its requests and the messages to persist. Before the instance is
    /// decided, and after the batch was handed out, there is none.
    pub fn finalize_batch(&mut self) -> (r: Option<CompletedBatch>)
        requires
            old(self)@.wf(),
        ensures
            final(self)@.wf(),
            r is Some <==> (old(self)@.phase == ProtoPhase::Decided && old(self)@.log.current_digest
                is Some),
            r is None ==> final(self)@ == old(self)@,
            r is Some ==> {
                let b = r->0;
                &&& final(self)@ == (ConsensusModel { log: empty_log(), ..old(self)@ })
                &&& b.wf()
                &&& b.batch_digest == old(self)@.log.current_digest->0
                &&& b.pre_prepare_ordering@ == received(old(self)@.log.ordering)
                &&& b.messages_to_persist@ == old(self)@.log.to_persist
                &&& b.request_digests@ == flatten(old(self)@.log.requests)
            },
    {
        match self.phase {
            ProtoPhase::Decided => self.log.finish_processing_batch(),
            _ => None,
        }
    }

    /// Processes a consensus message that arrived under `header`.
    /// `requests_available` says whether the requests of the batch under
    /// decision have arrived. What comes back is what became of the message
    /// and, where the replica votes, the vote to broadcast to all replicas.
    pub fn process_message(
        &mut self,
        header: Header,
        message: ConsensusMessage,
        requests_available: bool,
    ) -> (r: (ConsensusStatus, Option<ConsensusMessage>))
        requires
            old(self)@.wf(),
        ensures
            final(self)@.wf(),
            step_process(old(self)@, final(self)@, header, message, requests_available, r.0, r.1),
    {
        if message.view() != self.view.sequence_number() {
            return (ConsensusStatus::Deciding, None);
        }
        let kind = message.phase_kind();
        let current_instance = message.sequence_number() == self.tbo.sequence_number();
        let from = header.from();
        let n = self.view.params().n();
        let quorum = self.view.params().quorum();
        let is_primary = self.node_id == self.view.leader();
        match self.phase {
            ProtoPhase::Init | ProtoPhase::Decided => {
                self.tbo.queue(header, message);
                (ConsensusStatus::Deciding, None)
            },
            ProtoPhase::PrePreparing => {
                if kind != ConsensusPhaseKind::PrePrepare || !current_instance {
                    self.tbo.queue(header, message);
                    return (ConsensusStatus::Deciding, None);
                }
                let digest = message.batch_digest();
                let requests = match &message.kind {
                    ConsensusMessageKind::PrePrepare { requests, .. } => clone_digests(requests),
                    _ => Vec::new(),
                };
                let stored = StoredMessage::new(header, message);
                match self.log.processing_batch_request(stored, digest, requests) {
                    Ok(Some(d)) => {
                        let refused = match self.committed {
                            Some((_, locked)) => !(locked == d),
                            None => false,
                        };
                        if refused {
                            self.log.reset();
                            self.log.processing_new_round(&self.view);
                            return (ConsensusStatus::Deciding, None);
                        }
                        self.current = d;
                        self.phase = ProtoPhase::Preparing(0);
                        self.prepare_voters.clear();
                        self.commit_voters.clear();
                        let out = if !is_primary {
                            Some(
                                ConsensusMessage::new(
                                    self.tbo.sequence_number(),
                                    self.view.sequence_number(),
                                    ConsensusMessageKind::Prepare(d),
                                ),
                            )
                        } else {
                            None
                        };
                        (ConsensusStatus::Deciding, out)
                    },
                    _ => (ConsensusStatus::Deciding, None),
                }
            },
            ProtoPhase::Preparing(k) => {
                if kind != ConsensusPhaseKind::Prepare || !current_instance {
                    self.tbo.queue(header, message);
                    return (ConsensusStatus::Deciding, None);
                }
                if !(message.batch_digest() == self.current) || from.0 as usize >= n {
                    return (ConsensusStatus::Deciding, None);
                }
                if contains_node(&self.prepare_voters, from) {
                    return (ConsensusStatus::VotedTwice(from), None);
                }
                if !requests_available && !is_primary {
                    self.tbo.queue(header, message);
                    return (ConsensusStatus::Deciding, None);
                }
                self.prepare_voters.push(from);
                self.log.register_consensus_message(header.digest);
                if k + 1 == quorum {
                    self.phase = ProtoPhase::Committing(0);
                    self.committed = Some((self.tbo.sequence_number(), self.current));
                    let out = ConsensusMessage::new(
                        self.tbo.sequence_number(),
                        self.view.sequence_number(),
                        ConsensusMessageKind::Commit(self.current),
                    );
                    (ConsensusStatus::Deciding, Some(out))
                } else {
                    self.phase = ProtoPhase::Preparing(k + 1);
                    (ConsensusStatus::Deciding, None)
                }
            },
            ProtoPhase::Committing(k) => {
                if kind != ConsensusPhaseKind::Commit || !current_instance {
                    self.tbo.queue(header, message);
                    return (ConsensusStatus::Deciding, None);
                }
                if !(message.batch_digest() == self.current) || from.0 as usize >= n {
                    return (ConsensusStatus::Deciding, None);
                }
                if contains_node(&self.commit_voters, from) {
                    return (ConsensusStatus::VotedTwice(from), None);
                }
                self.commit_voters.push(from);
                self.log.register_consensus_message(header.digest);
                if k + 1 == quorum {
                    self.phase = ProtoPhase::Decided;
                    (ConsensusStatus::Decided(self.current), None)
                } else {
                    self.phase = ProtoPhase::Committing(k + 1);
                    (ConsensusStatus::Deciding, None)
                }
            },
        }
    }
}

} // verus!
