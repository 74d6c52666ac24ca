//! The driver of the ordering protocol: it runs the consensus while all is
//! well and the synchronizer while the view changes, and hands decisions to
//! the executor in the order in which they were made.

use crate::communication::message::{
    ConsensusMessage, ConsensusMessageKind, Header, StoredMessage,
};
use crate::consensus::tbo_queue::TboModel;
use crate::consensus::{
    step_poll, step_process, Consensus, ConsensusModel, ConsensusStatus, PollStatus, ProtoPhase,
};
use crate::crypto::hash::{hash_chain, Digest};
use crate::error::Error;
use crate::msg_log::decided_log::{no_decision, DecidedLog, DecidedLogModel};
use crate::msg_log::deciding_log::{empty_log, flatten};
use crate::msg_log::pending_decision::{has_all, PendingRequestLog};
use crate::msg_log::persistent::{is_durable, settled, BarrierModel, Decision, DurabilityBarrier};
use crate::node_id::NodeId;
use crate::ordering::{seq_next, SeqNo};
use crate::sync::{
    doubled, step_sync, timed_out, CollectData, SyncAction, SyncPhase, Synchronizer, SynchronizerModel,
    SynchronizerPollStatus, SynchronizerStatus, ViewChangeMessage, ViewChangeMessageKind,
};
use crate::timeouts::ClientRqInfo;
use crate::view::{same_view, ViewInfo};
use vstd::prelude::*;

verus! {

/// Which of its two protocols the driver runs.
#[derive(Copy, Clone, Debug, PartialEq, Eq, Structural)]
pub enum ConsensusPhase {
    /// The consensus: requests are ordered.
    NormalPhase,
    /// The synchronizer: the view changes.
    SyncPhase,
}

/// What became of a view change message, as far as the driver cares.
#[derive(Copy, Clone, Debug, PartialEq, Eq, Structural)]
pub enum SyncPhaseRes {
    /// Nothing changed: consensus runs.
    SyncProtocolNotNeeded,
    /// A view change is under way.
    RunSyncProtocol,
    /// The view was installed.
    SyncProtocolFinished,
    /// The replica is behind and needs a state transfer.
    RunCSTProtocol,
}

/// A message of the ordering protocol.
#[derive(Clone, Debug)]
pub enum PBFTMessage {
    /// A message of the consensus.
    Consensus(ConsensusMessage),
    /// A message of the view change.
    ViewChange(ViewChangeMessage),
}

/// What the driver asks of the loop around it.
pub enum OrderProtocolPoll {
    /// To wait for the next message of a replica.
    ReceiveFromReplicas,
    /// To hand this message, which was queued, back for processing.
    Exec(StoredMessage<PBFTMessage>),
    /// To poll again.
    RePoll,
    /// To run a state transfer.
    RunCst,
}

/// How the processing of a message or a timeout ended.
#[derive(Copy, Clone, Debug, PartialEq, Eq, Structural)]
pub enum OrderProtocolExecResult {
    /// All is well.
    Success,
    /// The replica is behind and needs a state transfer.
    RunCst,
}

/// What the driver asks the communication layer to do.
#[derive(Debug)]
pub enum ProtocolAction {
    /// To send a message to every replica.
    Broadcast(PBFTMessage),
    /// To send a message to one replica.
    Send(NodeId, PBFTMessage),
    /// To forward the requests with these digests to a replica.
    Forward(NodeId, Vec<Digest>),
}

/// What a step of the driver comes to.
pub struct StepOutput {
    /// How the step ended.
    pub result: OrderProtocolExecResult,
    /// What to send.
    pub actions: Vec<ProtocolAction>,
    /// The instance that was decided in this step, if one was.
    pub decided: Option<SeqNo>,
    /// The decisions that may now be executed, oldest first.
    pub executable: Vec<Decision>,
}

/// What the driver is started with.
pub struct PBFTConfig {
    /// The id of the replica.
    pub node_id: NodeId,
    /// The view to start in.
    pub view: ViewInfo,
    /// The time to wait for the first view change, in milliseconds.
    pub timeout_dur: u64,
}

/// The lock that keeps the proposer from proposing.
#[derive(Copy, Clone, Debug, PartialEq, Eq, Structural)]
pub struct ConsensusGuard {
    locked: bool,
}

impl ConsensusGuard {
    /// Whether the proposer is kept from proposing, in contracts.
    pub closed spec fn locked(&self) -> bool {
        self.locked
    }

    /// A guard that lets the proposer propose.
    pub fn new() -> (g: ConsensusGuard)
        ensures
            !g.locked(),
    {
        ConsensusGuard { locked: false }
    }

    /// Keeps the proposer from proposing.
    pub fn lock_consensus(&mut self)
        ensures
            final(self).locked(),
    {
        self.locked = true;
    }

    /// Lets the proposer propose again.
    pub fn unlock_consensus(&mut self)
        ensures
            !final(self).locked(),
    {
        self.locked = false;
    }

    /// Whether the proposer is kept from proposing.
    pub fn is_locked(&self) -> (r: bool)
        ensures
            r == self.locked(),
    {
        self.locked
    }
}

/// An ordering protocol of the PBFT family.
pub struct PBFTOrderProtocol {
    phase: ConsensusPhase,
    consensus: Consensus,
    synchronizer: Synchronizer,
    consensus_guard: ConsensusGuard,
    pending_request_log: PendingRequestLog,
    decided_log: DecidedLog,
    barrier: DurabilityBarrier,
}

/// What happens to the instance counter in a step of the driver: a step
/// that decides, decides the instance in progress and moves on to the next;
/// any other step stays.
pub open spec fn decision_step(pre_seq: SeqNo, post_seq: SeqNo, decided: Option<SeqNo>) -> bool {
    match decided {
        Some(h) => h == pre_seq && post_seq.value() == seq_next(h.value()),
        None => post_seq == pre_seq,
    }
}

impl PBFTOrderProtocol {
    /// The phase of the driver, in contracts.
    pub closed spec fn spec_phase(&self) -> ConsensusPhase {
        self.phase
    }

    /// The consensus, in contracts.
    pub closed spec fn spec_consensus(&self) -> Consensus {
        self.consensus
    }

    /// The synchronizer, in contracts.
    pub closed spec fn spec_synchronizer(&self) -> Synchronizer {
        self.synchronizer
    }

    /// The guard of the proposer, in contracts.
    pub closed spec fn spec_guard(&self) -> ConsensusGuard {
        self.consensus_guard
    }

    /// The barrier before the executor, in contracts.
    pub closed spec fn spec_barrier(&self) -> DurabilityBarrier {
        self.barrier
    }

    /// The requests that wait, in contracts.
    pub closed spec fn spec_pending(&self) -> PendingRequestLog {
        self.pending_request_log
    }

    /// The log of decisions, in contracts.
    pub closed spec fn spec_decided_log(&self) -> DecidedLog {
        self.decided_log
    }

    /// The instance in progress, in contracts.
    pub open spec fn spec_seq(&self) -> SeqNo {
        self.spec_consensus()@.tbo.curr_seq
    }

    /// The consensus and the synchronizer are well formed and run under the
    /// same view, and no decision that may pass the barrier waits there.
    pub open spec fn wf(&self) -> bool {
        &&& self.spec_consensus()@.wf()
        &&& self.spec_synchronizer()@.wf()
        &&& same_view(self.spec_consensus()@.view, self.spec_synchronizer()@.view)
        &&& settled(self.spec_barrier()@)
    }

    /// Starts the protocol of a replica at the first instance: in the
    /// normal phase under the view of the configuration, with the proposer
    /// free, and with nothing queued, logged, decided or waiting.
    pub fn initialize(config: PBFTConfig) -> (p: PBFTOrderProtocol)
        requires
            config.view.wf(),
        ensures
            p.wf(),
            p.spec_phase() == ConsensusPhase::NormalPhase,
            !p.spec_guard().locked(),
            p.spec_seq().value() == 0,
            p.spec_consensus()@.node_id == config.node_id,
            p.spec_consensus()@.phase == ProtoPhase::Init,
            same_view(p.spec_consensus()@.view, config.view),
            p.spec_barrier()@.waiting.len() == 0,
            p.spec_consensus()@.view == config.view,
            p.spec_consensus()@.tbo == (TboModel {
                curr_seq: SeqNo(0),
                get_queue: false,
                pre_prepares: Seq::empty(),
                prepares: Seq::empty(),
                commits: Seq::empty(),
            }),
            p.spec_consensus()@.log == empty_log(),
            p.spec_consensus()@.prepare_voters == Seq::<NodeId>::empty(),
            p.spec_consensus()@.commit_voters == Seq::<NodeId>::empty(),
            p.spec_consensus()@.committed is None,
            same_view(p.spec_synchronizer()@.view, config.view),
            p.spec_synchronizer()@ == (SynchronizerModel {
                node_id: config.node_id,
                view: p.spec_synchronizer()@.view,
                phase: SyncPhase::Normal,
                target: config.view.spec_seq().value() + 1,
                stops: Seq::empty(),
                collects: Seq::empty(),
                timeout: config.timeout_dur,
                base_timeout: config.timeout_dur,
                timed_out_once: Seq::empty(),
                pending: Seq::empty(),
                state_installed: false,
            }),
            p.spec_pending()@ == Seq::<Digest>::empty(),
            p.spec_pending().decided() == Seq::<Digest>::empty(),
            p.spec_decided_log()@ == (DecidedLogModel {
                decided: Seq::empty(),
                last: None,
                checkpoint: None,
            }),
            p.spec_barrier()@ == (BarrierModel { acked: Seq::empty(), waiting: Seq::empty() }),
    {
        let PBFTConfig { node_id, view, timeout_dur } = config;
        let sync_view = view.duplicate();
        let synchronizer = Synchronizer::new(node_id, sync_view, timeout_dur);
        let consensus = Consensus::new(node_id, view, SeqNo::zero());
        PBFTOrderProtocol {
            phase: ConsensusPhase::NormalPhase,
            consensus,
            synchronizer,
            consensus_guard: ConsensusGuard::new(),
            pending_request_log: PendingRequestLog::new(),
            decided_log: DecidedLog::new(),
            barrier: DurabilityBarrier::new(),
        }
    }

    /// The instance in progress.
    pub fn sequence_number(&self) -> (s: SeqNo)
        ensures
            s == self.spec_seq(),
    {
        self.consensus.sequence_number()
    }

    /// The view in force.
    pub fn view(&self) -> (v: &ViewInfo)
        ensures
            *v == self.spec_synchronizer()@.view,
    {
        self.synchronizer.view_info()
    }

    /// The phase of the driver.
    pub fn phase(&self) -> (p: ConsensusPhase)
        ensures
            p == self.spec_phase(),
    {
        self.phase
    }

    /// Whether the proposer is kept from proposing.
    pub fn is_proposer_locked(&self) -> (r: bool)
        ensures
            r == self.spec_guard().locked(),
    {
        self.consensus_guard.is_locked()
    }

    /// Lets the proposer propose again.
    pub fn unlock_proposer(&mut self)
        ensures
            !final(self).spec_guard().locked(),
            final(self).spec_phase() == old(self).spec_phase(),
            final(self).spec_consensus() == old(self).spec_consensus(),
            final(self).spec_synchronizer() == old(self).spec_synchronizer(),
            final(self).spec_barrier() == old(self).spec_barrier(),
    {
        self.consensus_guard.unlock_consensus();
    }

    /// A client request arrived, or was forwarded by a replica. A request
    /// that waits already, and one that was decided since the last
    /// checkpoint, is dropped; what comes back says whether it was taken.
    pub fn request_received(&mut self, digest: Digest) -> (added: bool)
        ensures
            added == (!old(self).spec_pending()@.contains(digest) && !old(
                self,
            ).spec_pending().decided().contains(digest)),
            final(self).spec_pending()@ == (if added {
                old(self).spec_pending()@.push(digest)
            } else {
                old(self).spec_pending()@
            }),
            final(self).spec_phase() == old(self).spec_phase(),
            final(self).spec_consensus() == old(self).spec_consensus(),
            final(self).spec_synchronizer() == old(self).spec_synchronizer(),
            final(self).spec_guard() == old(self).spec_guard(),
            final(self).spec_barrier() == old(self).spec_barrier(),
    {
        self.pending_request_log.insert(digest)
    }

    /// Proposes the batch of the requests with the given digests, as
    /// `Consensus::propose` does, unless the proposer is locked or the driver
    /// is in the sync phase: then nothing happens, as on a replica that
    /// leads nothing.
    pub fn propose(&mut self, requests: Vec<Digest>) -> (out: Option<ProtocolAction>)
        requires
            old(self).wf(),
        ensures
            final(self).wf(),
            final(self).spec_phase() == old(self).spec_phase(),
            final(self).spec_guard() == old(self).spec_guard(),
            final(self).spec_synchronizer() == old(self).spec_synchronizer(),
            final(self).spec_pending() == old(self).spec_pending(),
            final(self).spec_decided_log() == old(self).spec_decided_log(),
            final(self).spec_barrier() == old(self).spec_barrier(),
            ({
                let c = old(self).spec_consensus()@;
                let begins = !old(self).spec_guard().locked() && old(self).spec_phase()
                    == ConsensusPhase::NormalPhase && c.phase == ProtoPhase::Init
                    && c.view.spec_leader_set().contains(c.node_id);
                &&& final(self).spec_consensus()@ == (if begins {
                    c.begun()
                } else {
                    c
                })
                &&& out is Some <==> begins
                &&& out is Some ==> {
                    &&& out->0 matches ProtocolAction::Broadcast(PBFTMessage::Consensus(m))
                    &&& m.seq == c.tbo.curr_seq
                    &&& m.view == c.view.spec_seq()
                    &&& m.kind matches ConsensusMessageKind::PrePrepare { digest, requests: proposed }
                    &&& proposed@ == requests@
                    &&& digest@ == hash_chain(requests@)
                }
            }),
    {
        if self.consensus_guard.is_locked() || self.phase != ConsensusPhase::NormalPhase {
            return None;
        }
        match self.consensus.propose(requests) {
            Some(m) => Some(ProtocolAction::Broadcast(PBFTMessage::Consensus(m))),
            None => None,
        }
    }

    /// Queues a message that arrived while the replica was busy with
    /// something else.
    pub fn handle_off_ctx_message(&mut self, message: StoredMessage<PBFTMessage>)
        requires
            old(self).wf(),
        ensures
            final(self).wf(),
            final(self).spec_phase() == old(self).spec_phase(),
            final(self).spec_seq() == old(self).spec_seq(),
            final(self).spec_guard() == old(self).spec_guard(),
            final(self).spec_barrier() == old(self).spec_barrier(),
            match message.message {
                PBFTMessage::Consensus(m) => {
                    &&& final(self).spec_consensus()@ == old(self).spec_consensus()@.with_queued(
                        message.header,
                        m,
                    )
                    &&& final(self).spec_synchronizer() == old(self).spec_synchronizer()
                },
                PBFTMessage::ViewChange(m) => {
                    &&& final(self).spec_consensus() == old(self).spec_consensus()
                    &&& final(self).spec_synchronizer()@.pending
                        == old(self).spec_synchronizer()@.pending.push((message.header, m))
                },
            },
    {
        let (header, message) = message.into_inner();
        match message {
            PBFTMessage::Consensus(m) => {
                self.consensus.queue(header, m);
            },
            PBFTMessage::ViewChange(m) => {
                self.synchronizer.queue(header, m);
            },
        }
    }

    /// Changes the phase of the driver. Whenever the phase changes the
    /// proposer is locked: while the view changes nothing is proposed, and a
    /// new view begins with a pause.
    pub fn switch_phase(&mut self, new_phase: ConsensusPhase)
        ensures
            final(self).spec_phase() == new_phase,
            final(self).spec_guard().locked() == (old(self).spec_guard().locked() || new_phase
                != old(self).spec_phase()),
            final(self).spec_consensus() == old(self).spec_consensus(),
            final(self).spec_synchronizer() == old(self).spec_synchronizer(),
            final(self).spec_barrier() == old(self).spec_barrier(),
            final(self).spec_pending() == old(self).spec_pending(),
            final(self).spec_decided_log() == old(self).spec_decided_log(),
    {
        let old_phase = self.phase;
        self.phase = new_phase;
        if self.phase != old_phase {
            self.consensus_guard.lock_consensus();
        }
    }

    /// Asks what to do next: in the normal phase the consensus is asked,
    /// after the view change messages that wait; in the sync phase the
    /// synchronizer. Before an instance begins the replica is told to wait
    /// for messages: a leader that has requests to order calls `propose`
    /// first.
    pub fn poll(&mut self) -> (r: OrderProtocolPoll)
        requires
            old(self).wf(),
        ensures
            final(self).wf(),
            final(self).spec_seq() == old(self).spec_seq(),
            final(self).spec_barrier() == old(self).spec_barrier(),
            step_poll_protocol(*old(self), *final(self), r),
    {
        match self.phase {
            ConsensusPhase::NormalPhase => self.poll_normal_phase(),
            ConsensusPhase::SyncPhase => self.poll_sync_phase(),
        }
    }

    /// Hands the view in force at the synchronizer to the consensus.
    fn install_view(&mut self)
        requires
            old(self).spec_consensus()@.wf(),
            old(self).spec_synchronizer()@.wf(),
            old(self).spec_synchronizer()@.view.spec_seq().value() > old(
                self,
            ).spec_consensus()@.view.spec_seq().value(),
            settled(old(self).spec_barrier()@),
        ensures
            final(self).wf(),
            final(self).spec_seq() == old(self).spec_seq(),
            final(self).spec_synchronizer() == old(self).spec_synchronizer(),
            final(self).spec_barrier() == old(self).spec_barrier(),
            final(self).spec_phase() == old(self).spec_phase(),
            final(self).spec_guard() == old(self).spec_guard(),
            final(self).spec_pending() == old(self).spec_pending(),
            final(self).spec_decided_log() == old(self).spec_decided_log(),
            view_installed(old(self).spec_consensus()@, final(self).spec_consensus()@),
            same_view(final(self).spec_consensus()@.view, old(self).spec_synchronizer()@.view),
    {
        let view = self.synchronizer.view_info().duplicate();
        self.consensus.install_view(view);
    }

    fn poll_sync_phase(&mut self) -> (r: OrderProtocolPoll)
        requires
            old(self).wf(),
        ensures
            final(self).wf(),
            final(self).spec_seq() == old(self).spec_seq(),
            final(self).spec_barrier() == old(self).spec_barrier(),
            step_poll_sync(*old(self), *final(self), r),
    {
        match self.synchronizer.poll() {
            SynchronizerPollStatus::Recv => OrderProtocolPoll::ReceiveFromReplicas,
            SynchronizerPollStatus::NextMessage(h, m) => OrderProtocolPoll::Exec(
                StoredMessage::new(h, PBFTMessage::ViewChange(m)),
            ),
            SynchronizerPollStatus::ResumeViewChange => {
                if self.synchronizer.resume_view_change() {
                    self.install_view();
                    self.switch_phase(ConsensusPhase::NormalPhase);
                }
                OrderProtocolPoll::RePoll
            },
        }
    }

    fn poll_normal_phase(&mut self) -> (r: OrderProtocolPoll)
        requires
            old(self).wf(),
            old(self).spec_phase() == ConsensusPhase::NormalPhase,
        ensures
            final(self).wf(),
            final(self).spec_seq() == old(self).spec_seq(),
            final(self).spec_barrier() == old(self).spec_barrier(),
            step_poll_protocol(*old(self), *final(self), r),
    {
        if self.synchronizer.can_process_stops() {
            let sync_protocol = self.poll_sync_phase();
            match sync_protocol {
                OrderProtocolPoll::Exec(message) => {
                    return OrderProtocolPoll::Exec(message);
                },
                OrderProtocolPoll::RePoll => {
                    return OrderProtocolPoll::RePoll;
                },
                _ => {},
            }
        }
        let available = self.pending_request_log.has_requests(
            self.consensus.deciding_log().current_requests(),
        );
        match self.consensus.poll(available) {
            PollStatus::Recv => OrderProtocolPoll::ReceiveFromReplicas,
            PollStatus::NextMessage(h, m) => OrderProtocolPoll::Exec(
                StoredMessage::new(h, PBFTMessage::Consensus(m)),
            ),
            PollStatus::TryProposeAndRecv => OrderProtocolPoll::ReceiveFromReplicas,
        }
    }

    /// Processes a message of the ordering protocol.
    ///
    /// A step that decides, decides the instance in progress and moves on
    /// to the next: decisions are made for one instance after another. The
    /// decided batch waits at the barrier until every message it rests on is
    /// durable; the decisions that come back as executable passed the barrier.
    pub fn process_message(&mut self, message: StoredMessage<PBFTMessage>) -> (out: StepOutput)
        requires
            old(self).wf(),
        ensures
            final(self).wf(),
            decision_step(old(self).spec_seq(), final(self).spec_seq(), out.decided),
            out.decided is Some ==> old(self).spec_phase() == ConsensusPhase::NormalPhase,
            released(old(self).spec_barrier()@, final(self).spec_barrier()@, out.executable@, out.decided),
            out.result == OrderProtocolExecResult::RunCst ==> final(self).spec_phase()
                == ConsensusPhase::SyncPhase,
            step_message(*old(self), *final(self), old(self).spec_phase(), message, out),
    {
        match self.phase {
            ConsensusPhase::NormalPhase => self.update_normal_phase(message),
            ConsensusPhase::SyncPhase => self.update_sync_phase(message),
        }
    }

    fn update_sync_phase(&mut self, message: StoredMessage<PBFTMessage>) -> (out: StepOutput)
        requires
            old(self).wf(),
        ensures
            final(self).wf(),
            final(self).spec_seq() == old(self).spec_seq(),
            final(self).spec_barrier() == old(self).spec_barrier(),
            out.decided is None,
            out.executable@.len() == 0,
            out.result == OrderProtocolExecResult::RunCst ==> final(self).spec_phase()
                == ConsensusPhase::SyncPhase,
            step_message(*old(self), *final(self), ConsensusPhase::SyncPhase, message, out),
    {
        let (header, protocol) = message.into_inner();
        match protocol {
            PBFTMessage::ViewChange(view_change) => {
                let (res, actions) = self.adv_sync(header, view_change);
                let result = match res {
                    SyncPhaseRes::RunCSTProtocol => OrderProtocolExecResult::RunCst,
                    _ => OrderProtocolExecResult::Success,
                };
                let out = StepOutput { result, actions, decided: None, executable: Vec::new() };
                assert(step_view_change(*old(self), *self, header, view_change, res, out.actions@));
                out
            },
            PBFTMessage::Consensus(m) => {
                self.consensus.queue(header, m);
                StepOutput {
                    result: OrderProtocolExecResult::Success,
                    actions: Vec::new(),
                    decided: None,
                    executable: Vec::new(),
                }
            },
        }
    }

    fn update_normal_phase(&mut self, message: StoredMessage<PBFTMessage>) -> (out: StepOutput)
        requires
            old(self).wf(),
        ensures
            final(self).wf(),
            decision_step(old(self).spec_seq(), final(self).spec_seq(), out.decided),
            released(old(self).spec_barrier()@, final(self).spec_barrier()@, out.executable@, out.decided),
            out.result == OrderProtocolExecResult::RunCst ==> final(self).spec_phase()
                == ConsensusPhase::SyncPhase,
            step_message(*old(self), *final(self), ConsensusPhase::NormalPhase, message, out),
    {
        let (header, protocol) = message.into_inner();
        match protocol {
            PBFTMessage::Consensus(m) => self.adv_consensus(header, m),
            PBFTMessage::ViewChange(view_change) => {
                let (res, actions) = self.adv_sync(header, view_change);
                let result = match res {
                    SyncPhaseRes::RunCSTProtocol => OrderProtocolExecResult::RunCst,
                    _ => OrderProtocolExecResult::Success,
                };
                let out = StepOutput { result, actions, decided: None, executable: Vec::new() };
                assert(step_view_change(*old(self), *self, header, view_change, res, out.actions@));
                out
            },
        }
    }

    /// Lets through the barrier what may pass: the decisions that come back
    /// are the oldest that waited, in order, up to the first that rests on
    /// a message that was not acknowledged.
    fn release(&mut self) -> (executable: Vec<Decision>)
        ensures
            settled(final(self).spec_barrier()@),
            final(self).spec_phase() == old(self).spec_phase(),
            final(self).spec_consensus() == old(self).spec_consensus(),
            final(self).spec_synchronizer() == old(self).spec_synchronizer(),
            final(self).spec_guard() == old(self).spec_guard(),
            final(self).spec_pending() == old(self).spec_pending(),
            final(self).spec_decided_log() == old(self).spec_decided_log(),
            final(self).spec_barrier()@.acked == old(self).spec_barrier()@.acked,
            executable@ + final(self).spec_barrier()@.waiting == old(self).spec_barrier()@.waiting,
            forall|i: int|
                0 <= i < executable@.len() ==> is_durable(
                    old(self).spec_barrier()@.acked,
                    #[trigger] executable@[i],
                ),
    {
        let mut executable: Vec<Decision> = Vec::new();
        loop
            invariant
                self.phase == old(self).phase,
                self.consensus == old(self).consensus,
                self.synchronizer == old(self).synchronizer,
                self.consensus_guard == old(self).consensus_guard,
                self.pending_request_log == old(self).pending_request_log,
                self.decided_log == old(self).decided_log,
                self.barrier@.acked == old(self).barrier@.acked,
                executable@ + self.barrier@.waiting == old(self).barrier@.waiting,
                forall|i: int|
                    0 <= i < executable@.len() ==> is_durable(
                        old(self).barrier@.acked,
                        #[trigger] executable@[i],
                    ),
            ensures
                settled(self.barrier@),
            decreases self.barrier@.waiting.len(),
        {
            let ghost before = self.barrier@.waiting;
            let ghost done = executable@;
            match self.barrier.next_executable() {
                Some(d) => {
                    executable.push(d);
                    assert(executable@ + self.barrier@.waiting =~= done + before);
                },
                None => {
                    break ;
                },
            }
        }
        executable
    }

    /// The log acknowledged the message with this digest as durable. What
    /// comes back are the decisions that may now be executed, oldest first:
    /// every message that they rest on was acknowledged.
    pub fn message_persisted(&mut self, digest: Digest) -> (executable: Vec<Decision>)
        ensures
            final(self).spec_pending() == old(self).spec_pending(),
            final(self).spec_decided_log() == old(self).spec_decided_log(),
            settled(final(self).spec_barrier()@),
            final(self).spec_phase() == old(self).spec_phase(),
            final(self).spec_consensus() == old(self).spec_consensus(),
            final(self).spec_synchronizer() == old(self).spec_synchronizer(),
            final(self).spec_guard() == old(self).spec_guard(),
            final(self).spec_barrier()@.acked == old(self).spec_barrier()@.acked.push(digest),
            executable@ + final(self).spec_barrier()@.waiting == old(self).spec_barrier()@.waiting,
            forall|i: int|
                0 <= i < executable@.len() ==> is_durable(
                    final(self).spec_barrier()@.acked,
                    #[trigger] executable@[i],
                ),
    {
        self.barrier.acknowledge(digest);
        self.release()
    }

    /// Advances the consensus with a message.
    fn adv_consensus(&mut self, header: Header, message: ConsensusMessage) -> (out: StepOutput)
        requires
            old(self).wf(),
        ensures
            final(self).wf(),
            final(self).spec_phase() == old(self).spec_phase(),
            final(self).spec_guard() == old(self).spec_guard(),
            decision_step(old(self).spec_seq(), final(self).spec_seq(), out.decided),
            released(old(self).spec_barrier()@, final(self).spec_barrier()@, out.executable@, out.decided),
            out.result == OrderProtocolExecResult::Success,
            step_consensus(*old(self), *final(self), header, message, out),
    {
        let seq = self.consensus.sequence_number();
        let available = self.pending_request_log.has_requests(
            self.consensus.deciding_log().current_requests(),
        );
        let (status, vote) = self.consensus.process_message(header, message, available);
        let ghost mid = self.consensus@;
        let mut actions: Vec<ProtocolAction> = Vec::new();
        match vote {
            Some(m) => {
                actions.push(ProtocolAction::Broadcast(PBFTMessage::Consensus(m)));
            },
            None => {},
        }
        assert(actions@ =~= votes_of(vote));
        let mut decided: Option<SeqNo> = None;
        match status {
            ConsensusStatus::Deciding => {},
            ConsensusStatus::VotedTwice(_) => {},
            ConsensusStatus::Decided(batch_digest) => {
                match self.consensus.finalize_batch() {
                    Some(batch) => {
                        let info = self.decided_log.finalize_batch(seq, batch_digest);
                        self.pending_request_log.delete_decided(&batch.request_digests);
                        self.synchronizer.requests_decided(&batch.request_digests);
                        self.barrier.decided(Decision { seq, info, batch });
                        decided = Some(seq);
                    },
                    None => {
                        assert(false);
                    },
                }
                self.consensus.next_instance();
            },
        }
        self.consensus.signal();
        let ghost held = self.barrier@;
        let executable = self.release();
        let out = StepOutput { result: OrderProtocolExecResult::Success, actions, decided, executable };
        proof {
            if decided is Some {
                assert(held.waiting == old(self).barrier@.waiting.push(held.waiting.last()));
            }
            let pre = *old(self);
            assert(step_process(
                pre.spec_consensus()@,
                mid,
                header,
                message,
                has_all(pre.spec_pending()@, pre.spec_consensus()@.log.current_requests),
                status,
                vote,
            ));
        }
        out
    }

    /// Advances the synchronizer with a message.
    fn adv_sync(&mut self, header: Header, message: ViewChangeMessage) -> (r: (
        SyncPhaseRes,
        Vec<ProtocolAction>,
    ))
        requires
            old(self).wf(),
        ensures
            final(self).wf(),
            final(self).spec_seq() == old(self).spec_seq(),
            final(self).spec_barrier() == old(self).spec_barrier(),
            r.0 == SyncPhaseRes::RunCSTProtocol ==> final(self).spec_phase()
                == ConsensusPhase::SyncPhase,
            r.0 == SyncPhaseRes::RunSyncProtocol ==> final(self).spec_phase()
                == ConsensusPhase::SyncPhase,
            r.0 == SyncPhaseRes::SyncProtocolFinished ==> final(self).spec_phase()
                == ConsensusPhase::NormalPhase,
            r.0 == SyncPhaseRes::SyncProtocolNotNeeded ==> final(self).spec_phase() == old(
                self,
            ).spec_phase(),
            step_view_change(*old(self), *final(self), header, message, r.0, r.1@),
    {
        let last = self.decided_log.last_decision();
        let (status, action) = self.synchronizer.process_message(header, message, last);
        let mut actions: Vec<ProtocolAction> = Vec::new();
        match action {
            Some(SyncAction::Broadcast(m)) => {
                actions.push(ProtocolAction::Broadcast(PBFTMessage::ViewChange(m)));
            },
            Some(SyncAction::Send(to, m)) => {
                actions.push(ProtocolAction::Send(to, PBFTMessage::ViewChange(m)));
            },
            None => {},
        }
        assert(actions@ =~= sync_actions(action));
        let ghost mid = self.synchronizer@;
        assert(step_sync(old(self).spec_synchronizer()@, mid, header, message, last, status, action));
        let res = match status {
            SynchronizerStatus::Nil => SyncPhaseRes::SyncProtocolNotNeeded,
            SynchronizerStatus::Running => {
                self.switch_phase(ConsensusPhase::SyncPhase);
                SyncPhaseRes::RunSyncProtocol
            },
            SynchronizerStatus::NewView => {
                self.install_view();
                self.switch_phase(ConsensusPhase::NormalPhase);
                SyncPhaseRes::SyncProtocolFinished
            },
            SynchronizerStatus::RunCst => {
                self.switch_phase(ConsensusPhase::SyncPhase);
                SyncPhaseRes::RunCSTProtocol
            },
            SynchronizerStatus::RequestsTimedOut { .. } => SyncPhaseRes::SyncProtocolNotNeeded,
        };
        (res, actions)
    }

    /// Requests timed out. Those that timed out for the first time are
    /// forwarded to the primary, if they still wait; for those that timed
    /// out again the replica asks for the next view, and the driver enters
    /// the sync phase.
    pub fn handle_timeout(&mut self, timeout: Vec<ClientRqInfo>) -> (out: StepOutput)
        requires
            old(self).wf(),
        ensures
            final(self).wf(),
            final(self).spec_seq() == old(self).spec_seq(),
            final(self).spec_barrier() == old(self).spec_barrier(),
            final(self).spec_consensus() == old(self).spec_consensus(),
            final(self).spec_pending() == old(self).spec_pending(),
            final(self).spec_decided_log() == old(self).spec_decided_log(),
            out.result == OrderProtocolExecResult::Success,
            out.decided is None,
            out.executable@.len() == 0,
            step_timeout(*old(self), *final(self), digests_of(timeout@), out.actions@),
    {
        let mut digests: Vec<Digest> = Vec::with_capacity(timeout.len());
        let mut i: usize = 0;
        while i < timeout.len()
            invariant
                i <= timeout.len(),
                digests@ == digests_of(timeout@.take(i as int)),
            decreases timeout.len() - i,
        {
            digests.push(timeout[i].digest);
            assert(digests@ =~= digests_of(timeout@.take(i + 1)));
            i += 1;
        }
        assert(timeout@.take(i as int) == timeout@);
        let status = self.synchronizer.client_requests_timed_out(&digests);
        let mut actions: Vec<ProtocolAction> = Vec::new();
        match status {
            SynchronizerStatus::RequestsTimedOut { forwarded, stopped } => {
                if forwarded.len() > 0 {
                    let requests = self.pending_request_log.clone_pending_requests(&forwarded);
                    if requests.len() > 0 {
                        let leader = self.synchronizer.view_info().leader();
                        actions.push(ProtocolAction::Forward(leader, requests));
                    }
                }
                if stopped.len() > 0 {
                    let stopped = self.pending_request_log.clone_pending_requests(&stopped);
                    match self.synchronizer.begin_view_change(stopped) {
                        Some(m) => {
                            actions.push(ProtocolAction::Broadcast(PBFTMessage::ViewChange(m)));
                        },
                        None => {},
                    }
                    self.switch_phase(ConsensusPhase::SyncPhase);
                }
            },
            _ => {},
        }
        StepOutput {
            result: OrderProtocolExecResult::Success,
            actions,
            decided: None,
            executable: Vec::new(),
        }
    }

    /// The view change under way took too long: see
    /// `Synchronizer::view_change_timed_out`.
    pub fn handle_view_change_timeout(&mut self) -> (out: Option<ProtocolAction>)
        requires
            old(self).wf(),
        ensures
            final(self).wf(),
            final(self).spec_seq() == old(self).spec_seq(),
            final(self).spec_barrier() == old(self).spec_barrier(),
            final(self).spec_phase() == old(self).spec_phase(),
            final(self).spec_guard() == old(self).spec_guard(),
            final(self).spec_consensus() == old(self).spec_consensus(),
            final(self).spec_pending() == old(self).spec_pending(),
            final(self).spec_decided_log() == old(self).spec_decided_log(),
            ({
                let s = old(self).spec_synchronizer()@;
                let asks = (s.phase == SyncPhase::ViewChanging || s.phase == SyncPhase::SyncData)
                    && s.target < i32::MAX;
                &&& out is Some <==> asks
                &&& final(self).spec_synchronizer()@ == (if asks {
                    SynchronizerModel {
                        phase: SyncPhase::ViewChanging,
                        target: s.target + 1,
                        stops: Seq::empty(),
                        collects: Seq::empty(),
                        timeout: doubled(s.timeout),
                        ..s
                    }
                } else {
                    s
                })
                &&& out matches Some(a) ==> {
                    &&& a matches ProtocolAction::Broadcast(PBFTMessage::ViewChange(m))
                    &&& m.view.value() == s.target + 1
                    &&& m.kind matches ViewChangeMessageKind::Stop(requests)
                    &&& requests@.len() == 0
                }
            }),
    {
        match self.synchronizer.view_change_timed_out() {
            Some(m) => Some(ProtocolAction::Broadcast(PBFTMessage::ViewChange(m))),
            None => None,
        }
    }

    /// Moves to the instance `seq_no`, as after a state transfer: what was
    /// queued for the consensus and what its log holds is dropped.
    pub fn install_seq_no(&mut self, seq_no: SeqNo) -> (r: Result<(), Error>)
        requires
            old(self).wf(),
        ensures
            final(self).wf(),
            r is Ok,
            final(self).spec_seq() == seq_no,
            final(self).spec_consensus()@ == old(self).spec_consensus()@.moved_to(seq_no),
            final(self).spec_phase() == old(self).spec_phase(),
            final(self).spec_guard() == old(self).spec_guard(),
            final(self).spec_synchronizer() == old(self).spec_synchronizer(),
            final(self).spec_pending() == old(self).spec_pending(),
            final(self).spec_decided_log() == old(self).spec_decided_log(),
            final(self).spec_barrier() == old(self).spec_barrier(),
    {
        self.consensus.install_sequence_number(seq_no);
        Ok(())
    }

    /// Takes over the outcome of a state transfer: the replica continues
    /// after the decision `last`, and a view change that waited for the
    /// state can be resumed.
    pub fn install_state(&mut self, last: CollectData) -> (r: Result<(), Error>)
        requires
            old(self).wf(),
        ensures
            final(self).wf(),
            r is Ok,
            final(self).spec_seq().value() == seq_next(last.last_seq.value()),
            final(self).spec_consensus()@.phase == ProtoPhase::Init,
            final(self).spec_phase() == old(self).spec_phase(),
            final(self).spec_guard() == old(self).spec_guard(),
            final(self).spec_barrier() == old(self).spec_barrier(),
            final(self).spec_pending() == old(self).spec_pending(),
            final(self).spec_synchronizer()@ == (SynchronizerModel {
                state_installed: true,
                ..old(self).spec_synchronizer()@
            }),
            final(self).spec_decided_log()@ == (DecidedLogModel {
                decided: Seq::empty(),
                last: Some(last),
                checkpoint: Some(last.last_seq),
            }),
            final(self).spec_consensus()@ == old(self).spec_consensus()@.moved_to(
                SeqNo(seq_next(last.last_seq.value()) as i32),
            ),
    {
        self.decided_log.install(last.last_seq, Some(last));
        self.consensus.install_sequence_number(last.last_seq.next());
        self.synchronizer.signal_state_installed();
        Ok(())
    }

    /// What a state transfer to another replica starts from: the view in
    /// force and the decisions made since the last checkpoint.
    pub fn snapshot_log(&self) -> (r: (ViewInfo, Vec<CollectData>))
        ensures
            same_view(r.0, self.spec_synchronizer()@.view),
            r.1@ == self.spec_decided_log()@.decided,
    {
        let view = self.synchronizer.view_info().duplicate();
        let decided = self.decided_log.decisions();
        let mut out: Vec<CollectData> = Vec::with_capacity(decided.len());
        let mut i: usize = 0;
        while i < decided.len()
            invariant
                i <= decided.len(),
                out@ == decided@.take(i as int),
            decreases decided.len() - i,
        {
            out.push(decided[i]);
            assert(decided@.take(i + 1) == decided@.take(i as int).push(decided@[i as int]));
            i += 1;
        }
        assert(decided@.take(i as int) == decided@);
        (view, out)
    }

    /// The checkpoint of instance `seq_no` is complete: the decisions up to
    /// it are dropped from the log.
    pub fn finalize_checkpoint(&mut self, seq_no: SeqNo) -> (r: Result<(), Error>)
        ensures
            r is Ok,
            final(self).spec_decided_log()@.checkpoint == Some(seq_no),
            final(self).spec_decided_log()@.decided == old(self).spec_decided_log()@.decided.filter(
                |d: CollectData| d.last_seq.value() > seq_no.value(),
            ),
            final(self).spec_decided_log()@.last == old(self).spec_decided_log()@.last,
            final(self).spec_phase() == old(self).spec_phase(),
            final(self).spec_guard() == old(self).spec_guard(),
            final(self).spec_consensus() == old(self).spec_consensus(),
            final(self).spec_synchronizer() == old(self).spec_synchronizer(),
            final(self).spec_barrier() == old(self).spec_barrier(),
            final(self).spec_pending()@ == old(self).spec_pending()@,
            final(self).spec_pending().decided() == Seq::<Digest>::empty(),
    {
        self.decided_log.finalize_checkpoint(seq_no);
        self.pending_request_log.forget_decided();
        Ok(())
    }
}

/// The digests of the requests that timers watch.
pub open spec fn digests_of(timers: Seq<ClientRqInfo>) -> Seq<Digest> {
    Seq::new(timers.len(), |i: int| timers[i].digest)
}

/// What the timeouts of the requests with the given digests do to a
/// replica, and what the replica sends.
///
/// The synchronizer takes note of the timeouts. Of the requests that timed
/// out for the first time, those that still wait at the replica are
/// forwarded to the primary, in one message. Where requests timed out
/// again, the driver enters the sync phase, and where consensus ran the
/// replica asks for the next view with a STOP that names those of the
/// requests that still wait.
pub open spec fn step_timeout(
    pre: PBFTOrderProtocol,
    post: PBFTOrderProtocol,
    digests: Seq<Digest>,
    actions: Seq<ProtocolAction>,
) -> bool {
    let s = pre.spec_synchronizer()@;
    let (once, forwarded, stopped) = timed_out(s.timed_out_once, digests);
    let waits = |d: Digest| pre.spec_pending()@.contains(d);
    let forwards = forwarded.filter(waits).len() > 0;
    let stops = stopped.len() > 0;
    let asks = stops && s.phase == SyncPhase::Normal && s.target <= i32::MAX;
    &&& post.spec_synchronizer()@ == (SynchronizerModel {
        timed_out_once: once,
        phase: if asks {
            SyncPhase::ViewChanging
        } else {
            s.phase
        },
        ..s
    })
    &&& if stops {
        switched(pre, post, ConsensusPhase::SyncPhase)
    } else {
        post.spec_phase() == pre.spec_phase() && post.spec_guard() == pre.spec_guard()
    }
    &&& actions.len() == (if forwards { 1int } else { 0int }) + (if asks { 1int } else { 0int })
    &&& forwards ==> {
        &&& actions[0] matches ProtocolAction::Forward(to, requests)
        &&& to == s.view.spec_leader()
        &&& requests@ == forwarded.filter(waits)
    }
    &&& asks ==> {
        &&& actions.last() matches ProtocolAction::Broadcast(PBFTMessage::ViewChange(m))
        &&& m.view.value() == s.target
        &&& m.kind matches ViewChangeMessageKind::Stop(requests)
        &&& requests@ == stopped.filter(waits)
    }
}

/// What polling the synchronizer does to a replica, and what the driver
/// asks for. A view change that waited for a state transfer that is over
/// is resumed: the view is installed, the driver returns to the normal
/// phase and asks to be polled again. Otherwise the oldest view change
/// message that waits is handed out for processing, and without one the
/// driver asks for the next message.
pub open spec fn step_poll_sync(pre: PBFTOrderProtocol, post: PBFTOrderProtocol, r: OrderProtocolPoll) -> bool {
    let s = pre.spec_synchronizer()@;
    &&& post.spec_pending() == pre.spec_pending()
    &&& post.spec_decided_log() == pre.spec_decided_log()
    &&& post.spec_barrier() == pre.spec_barrier()
    &&& if s.phase == SyncPhase::AwaitingState && s.state_installed {
        &&& r is RePoll
        &&& if s.target <= i32::MAX {
            &&& s.installed(post.spec_synchronizer()@)
            &&& view_installed(pre.spec_consensus()@, post.spec_consensus()@)
            &&& same_view(post.spec_consensus()@.view, post.spec_synchronizer()@.view)
            &&& switched(pre, post, ConsensusPhase::NormalPhase)
        } else {
            &&& post.spec_synchronizer()@ == s
            &&& post.spec_consensus() == pre.spec_consensus()
            &&& post.spec_phase() == pre.spec_phase()
            &&& post.spec_guard() == pre.spec_guard()
        }
    } else {
        &&& post.spec_consensus() == pre.spec_consensus()
        &&& post.spec_phase() == pre.spec_phase()
        &&& post.spec_guard() == pre.spec_guard()
        &&& if s.pending.len() > 0 {
            &&& r matches OrderProtocolPoll::Exec(m)
            &&& m.header == s.pending[0].0
            &&& m.message == PBFTMessage::ViewChange(s.pending[0].1)
            &&& post.spec_synchronizer()@ == (SynchronizerModel {
                pending: s.pending.drop_first(),
                ..s
            })
        } else {
            &&& r is ReceiveFromReplicas
            &&& post.spec_synchronizer()@ == s
        }
    }
}

/// What the driver asks for after the consensus was polled.
pub open spec fn poll_answer(status: PollStatus, r: OrderProtocolPoll) -> bool {
    match status {
        PollStatus::NextMessage(h, m) => r matches OrderProtocolPoll::Exec(e) && e.header == h
            && e.message == PBFTMessage::Consensus(m),
        _ => r is ReceiveFromReplicas,
    }
}

/// What polling does to a replica, and what the driver asks for. In the
/// sync phase the synchronizer is polled. In the normal phase the
/// synchronizer is polled where view change messages wait, and else the
/// consensus, knowing whether the requests of the batch under decision wait
/// at the replica.
pub open spec fn step_poll_protocol(
    pre: PBFTOrderProtocol,
    post: PBFTOrderProtocol,
    r: OrderProtocolPoll,
) -> bool {
    if pre.spec_phase() == ConsensusPhase::SyncPhase || pre.spec_synchronizer()@.pending.len() > 0 {
        step_poll_sync(pre, post, r)
    } else {
        let available = has_all(pre.spec_pending()@, pre.spec_consensus()@.log.current_requests);
        &&& post.spec_synchronizer() == pre.spec_synchronizer()
        &&& post.spec_phase() == pre.spec_phase()
        &&& post.spec_guard() == pre.spec_guard()
        &&& post.spec_pending() == pre.spec_pending()
        &&& post.spec_decided_log() == pre.spec_decided_log()
        &&& post.spec_barrier() == pre.spec_barrier()
        &&& exists|status: PollStatus| #[trigger]
            step_poll(pre.spec_consensus()@, post.spec_consensus()@, available, status)
                && poll_answer(status, r)
    }
}

/// What the replica sends after a step of the synchronizer.
pub open spec fn sync_actions(action: Option<SyncAction>) -> Seq<ProtocolAction> {
    match action {
        Some(SyncAction::Broadcast(m)) => seq![ProtocolAction::Broadcast(PBFTMessage::ViewChange(m))],
        Some(SyncAction::Send(to, m)) => seq![ProtocolAction::Send(to, PBFTMessage::ViewChange(m))],
        None => Seq::empty(),
    }
}

/// Whether `d` is the last decision that the log knows, or stands for none
/// where the log knows none.
pub open spec fn is_last_decision(log: DecidedLogModel, d: CollectData) -> bool {
    match log.last {
        Some(l) => d == l,
        None => no_decision(d),
    }
}

/// Whether the consensus `post` is the consensus `pre` after a later view
/// was installed: the instance in progress begins again, and the queue is
/// signalled.
pub open spec fn view_installed(pre: ConsensusModel, post: ConsensusModel) -> bool {
    &&& post.view.spec_seq().value() > pre.view.spec_seq().value()
    &&& post == pre.restarted_under(post.view)
}

/// Whether the driver switched to `phase`: the proposer is locked if the
/// phase changed.
pub open spec fn switched(pre: PBFTOrderProtocol, post: PBFTOrderProtocol, phase: ConsensusPhase) -> bool {
    &&& post.spec_phase() == phase
    &&& post.spec_guard().locked() == (pre.spec_guard().locked() || phase != pre.spec_phase())
}

/// What a view change message does to a replica.
///
/// The synchronizer processes the message, knowing the last decision of the
/// replica, and what it asks to send is sent. While no view change runs
/// nothing else happens. A view change that runs, or that waits for a state
/// transfer, puts the driver into the sync phase; a view that is installed
/// is handed to the consensus, and the driver returns to the normal phase.
pub open spec fn step_view_change(
    pre: PBFTOrderProtocol,
    post: PBFTOrderProtocol,
    header: Header,
    message: ViewChangeMessage,
    res: SyncPhaseRes,
    actions: Seq<ProtocolAction>,
) -> bool {
    exists|last: CollectData, status: SynchronizerStatus, action: Option<SyncAction>|
        {
            &&& is_last_decision(pre.spec_decided_log()@, last)
            &&& #[trigger] step_sync(
                pre.spec_synchronizer()@,
                post.spec_synchronizer()@,
                header,
                message,
                last,
                status,
                action,
            )
            &&& actions == sync_actions(action)
            &&& post.spec_pending() == pre.spec_pending()
            &&& post.spec_decided_log() == pre.spec_decided_log()
            &&& post.spec_barrier() == pre.spec_barrier()
            &&& match status {
                SynchronizerStatus::Running => {
                    &&& res == SyncPhaseRes::RunSyncProtocol
                    &&& switched(pre, post, ConsensusPhase::SyncPhase)
                    &&& post.spec_consensus() == pre.spec_consensus()
                },
                SynchronizerStatus::RunCst => {
                    &&& res == SyncPhaseRes::RunCSTProtocol
                    &&& switched(pre, post, ConsensusPhase::SyncPhase)
                    &&& post.spec_consensus() == pre.spec_consensus()
                },
                SynchronizerStatus::NewView => {
                    &&& res == SyncPhaseRes::SyncProtocolFinished
                    &&& switched(pre, post, ConsensusPhase::NormalPhase)
                    &&& view_installed(pre.spec_consensus()@, post.spec_consensus()@)
                    &&& same_view(post.spec_consensus()@.view, post.spec_synchronizer()@.view)
                },
                _ => {
                    &&& res == SyncPhaseRes::SyncProtocolNotNeeded
                    &&& post.spec_phase() == pre.spec_phase()
                    &&& post.spec_guard() == pre.spec_guard()
                    &&& post.spec_consensus() == pre.spec_consensus()
                },
            }
        }
}

/// What a message of the ordering protocol does to a replica whose driver
/// is in `phase`. In the normal phase a consensus message advances the
/// consensus; in the sync phase it is queued for later. A view change
/// message advances the synchronizer in either phase, and the step asks for
/// a state transfer where the synchronizer does.
pub open spec fn step_message(
    pre: PBFTOrderProtocol,
    post: PBFTOrderProtocol,
    phase: ConsensusPhase,
    message: StoredMessage<PBFTMessage>,
    out: StepOutput,
) -> bool {
    match message.message {
        PBFTMessage::Consensus(m) => {
            if phase == ConsensusPhase::NormalPhase {
                &&& step_consensus(pre, post, message.header, m, out)
                &&& post.spec_phase() == pre.spec_phase()
                &&& post.spec_guard() == pre.spec_guard()
                &&& out.result == OrderProtocolExecResult::Success
            } else {
                &&& post.spec_consensus()@ == pre.spec_consensus()@.with_queued(message.header, m)
                &&& post.spec_synchronizer() == pre.spec_synchronizer()
                &&& post.spec_phase() == pre.spec_phase()
                &&& post.spec_guard() == pre.spec_guard()
                &&& post.spec_pending() == pre.spec_pending()
                &&& post.spec_decided_log() == pre.spec_decided_log()
                &&& post.spec_barrier() == pre.spec_barrier()
                &&& out.result == OrderProtocolExecResult::Success
                &&& out.actions@.len() == 0
                &&& out.decided is None
                &&& out.executable@.len() == 0
            }
        },
        PBFTMessage::ViewChange(m) => {
            exists|res: SyncPhaseRes|
                {
                    &&& #[trigger] step_view_change(pre, post, message.header, m, res, out.actions@)
                    &&& out.result == (if res == SyncPhaseRes::RunCSTProtocol {
                        OrderProtocolExecResult::RunCst
                    } else {
                        OrderProtocolExecResult::Success
                    })
                    &&& out.decided is None
                    &&& out.executable@.len() == 0
                }
        },
    }
}

/// The votes to broadcast after a step of the consensus.
pub open spec fn votes_of(vote: Option<ConsensusMessage>) -> Seq<ProtocolAction> {
    match vote {
        Some(m) => seq![ProtocolAction::Broadcast(PBFTMessage::Consensus(m))],
        None => Seq::empty(),
    }
}

/// What a consensus message does to a replica in the normal phase.
///
/// The consensus processes the message, knowing whether the requests of the
/// batch under decision wait at the replica, and its vote is broadcast. Where
/// that decides the instance, the decision is recorded, the requests of the
/// batch no longer wait and no longer time out, and the consensus begins the
/// next instance. The queue of the consensus is signalled in any case.
pub open spec fn step_consensus(
    pre: PBFTOrderProtocol,
    post: PBFTOrderProtocol,
    header: Header,
    message: ConsensusMessage,
    out: StepOutput,
) -> bool {
    let available = has_all(pre.spec_pending()@, pre.spec_consensus()@.log.current_requests);
    exists|mid: ConsensusModel, status: ConsensusStatus, vote: Option<ConsensusMessage>|
        {
            &&& #[trigger] step_process(
                pre.spec_consensus()@,
                mid,
                header,
                message,
                available,
                status,
                vote,
            )
            &&& out.actions@ == votes_of(vote)
            &&& match status {
                ConsensusStatus::Decided(d) => {
                    let requests = flatten(mid.log.requests);
                    let decision = CollectData { last_seq: pre.spec_seq(), last_digest: d };
                    &&& out.decided == Some(pre.spec_seq())
                    &&& post.spec_consensus()@ == mid.after_decision()
                    &&& post.spec_pending()@ == pre.spec_pending()@.filter(
                        |r: Digest| !requests.contains(r),
                    )
                    &&& post.spec_pending().decided() == pre.spec_pending().decided() + requests
                    &&& post.spec_decided_log()@ == (DecidedLogModel {
                        decided: pre.spec_decided_log()@.decided.push(decision),
                        last: Some(decision),
                        ..pre.spec_decided_log()@
                    })
                    &&& post.spec_synchronizer()@ == (SynchronizerModel {
                        timed_out_once: pre.spec_synchronizer()@.timed_out_once.filter(
                            |r: Digest| !requests.contains(r),
                        ),
                        ..pre.spec_synchronizer()@
                    })
                },
                _ => {
                    &&& out.decided is None
                    &&& post.spec_consensus()@ == mid.signalled()
                    &&& post.spec_pending() == pre.spec_pending()
                    &&& post.spec_decided_log() == pre.spec_decided_log()
                    &&& post.spec_synchronizer() == pre.spec_synchronizer()
                },
            }
        }
}

/// What a step does at the barrier before the executor: the decision of the
/// step, if there is one, joins those that wait; the decisions that come
/// back as executable are the oldest of them, in order, and every message
/// that they rest on was acknowledged as durable before the step; none
/// that may pass is kept waiting.
pub open spec fn released(
    pre: BarrierModel,
    post: BarrierModel,
    executable: Seq<Decision>,
    decided: Option<SeqNo>,
) -> bool {
    &&& post.acked == pre.acked
    &&& settled(post)
    &&& forall|i: int| 0 <= i < executable.len() ==> is_durable(pre.acked, #[trigger] executable[i])
    &&& match decided {
        None => executable + post.waiting == pre.waiting,
        Some(h) => exists|d: Decision|
            d.seq == h && d.batch.wf() && #[trigger] pre.waiting.push(d) == executable + post.waiting,
    }
}

/// Decisions are made for one instance after another, without gaps.
///
/// A run is given by the instance in progress before and after each step of
/// the driver and by the instance that each step decided, if it did. Of
/// two steps that decide with no deciding step between them, the second
/// decides the instance after that of the first; this holds as long as the
/// instance counter does not wrap and no sequence number is installed.
pub proof fn lemma_decisions_in_order(
    seqs: Seq<SeqNo>,
    decided: Seq<Option<SeqNo>>,
    i: int,
    j: int,
)
    requires
        seqs.len() == decided.len() + 1,
        forall|k: int| 0 <= k < decided.len() ==> decision_step(seqs[k], seqs[k + 1], #[trigger] decided[k]),
        0 <= i < j < decided.len(),
        decided[i] is Some,
        decided[j] is Some,
        forall|k: int| i < k < j ==> (#[trigger] decided[k]) is None,
        decided[i]->0.value() < i32::MAX,
    ensures
        decided[j]->0.value() == decided[i]->0.value() + 1,
{
    assert(decision_step(seqs[i], seqs[i + 1], decided[i]));
    lemma_quiet_steps(seqs, decided, i + 1, j);
    assert(decision_step(seqs[j], seqs[j + 1], decided[j]));
}

/// Steps that decide nothing leave the instance in progress where it is.
pub proof fn lemma_quiet_steps(seqs: Seq<SeqNo>, decided: Seq<Option<SeqNo>>, a: int, b: int)
    requires
        seqs.len() == decided.len() + 1,
        forall|k: int| 0 <= k < decided.len() ==> decision_step(seqs[k], seqs[k + 1], #[trigger] decided[k]),
        0 <= a <= b <= decided.len(),
        forall|k: int| a <= k < b ==> (#[trigger] decided[k]) is None,
    ensures
        seqs[b] == seqs[a],
    decreases b - a,
{
    if a < b {
        lemma_quiet_steps(seqs, decided, a, b - 1);
        assert(decision_step(seqs[b - 1], seqs[b], decided[b - 1]));
    }
}

} // verus!
