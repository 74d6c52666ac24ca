//! The synchronizer: the view change state machine.
//!
//! A replica that suspects the primary broadcasts STOP for the next view.
//! With a quorum of STOP the replicas send STOP-DATA, their last decision,
//! to the primary of that view, which with a quorum of those broadcasts
//! SYNC: the decision from which the new view continues. A replica that
//! checked SYNC installs the view, after a state transfer where it is
//! behind.

use crate::communication::message::Header;
use crate::crypto::hash::{contains_digest, Digest};
use crate::node_id::{contains_node, NodeId};
use crate::ordering::SeqNo;
use crate::view::{lemma_params_equal, ViewInfo};
use std::collections::VecDeque;
use vstd::prelude::*;

verus! {

/// The longest time, in milliseconds, that a replica waits for a view
/// change before it tries the view after.
pub const MAX_VIEW_CHANGE_TIMEOUT: u64 = 3_600_000;

/// The last decision of a replica.
#[derive(Copy, Clone, Debug)]
pub struct CollectData {
    /// The instance decided last.
    pub last_seq: SeqNo,
    /// The digest of the batch decided in it.
    pub last_digest: Digest,
}

/// What the primary of the new view collected, and the decision it chose to
/// continue from.
#[derive(Clone, Debug)]
pub struct LeaderCollects {
    /// The chosen decision: the latest of those collected.
    pub chosen: CollectData,
    /// The last decisions collected, each with the replica that sent it.
    pub collects: Vec<(NodeId, CollectData)>,
}

/// What a view change message says.
#[derive(Clone, Debug)]
pub enum ViewChangeMessageKind {
    /// The sender asks for the view: here are the requests it waits for.
    Stop(Vec<Digest>),
    /// The sender reports its last decision to the primary of the view.
    StopData(CollectData),
    /// The primary of the view announces where the view continues from.
    Sync(LeaderCollects),
}

/// A message of the view change protocol.
#[derive(Clone, Debug)]
pub struct ViewChangeMessage {
    /// The view that the message is about: the one to install.
    pub view: SeqNo,
    /// What it says.
    pub kind: ViewChangeMessageKind,
}

impl ViewChangeMessage {
    /// A message about the view `view`.
    pub fn new(view: SeqNo, kind: ViewChangeMessageKind) -> (m: ViewChangeMessage)
        ensures
            m.view == view,
            m.kind == kind,
    {
        ViewChangeMessage { view, kind }
    }

    /// The view that the message is about.
    pub fn sequence_number(&self) -> (v: SeqNo)
        ensures
            v == self.view,
    {
        self.view
    }

    /// What the message says.
    pub fn kind(&self) -> (k: &ViewChangeMessageKind)
        ensures
            *k == self.kind,
    {
        &self.kind
    }
}

/// The phase of the synchronizer.
#[derive(Copy, Clone, Debug, PartialEq, Eq, Structural)]
pub enum SyncPhase {
    /// Consensus runs.
    Normal,
    /// The replica asked for the next view and collects STOP.
    ViewChanging,
    /// The replica reported its last decision and waits for SYNC.
    SyncData,
    /// The replica checked SYNC and is behind: it waits for a state
    /// transfer before it installs the view.
    AwaitingState,
}

/// What became of a view change message or of a timeout.
#[derive(Debug)]
pub enum SynchronizerStatus {
    /// Nothing to report: consensus runs.
    Nil,
    /// A view change is under way.
    Running,
    /// The view was installed.
    NewView,
    /// The replica is behind the decision that the view continues from, and
    /// needs a state transfer.
    RunCst,
    /// Requests timed out: those to forward to the primary, having timed out
    /// for the first time, and those to ask a view change for, having timed
    /// out again.
    RequestsTimedOut { forwarded: Vec<Digest>, stopped: Vec<Digest> },
}

/// What the synchronizer has to offer to the loop that drives it.
pub enum SynchronizerPollStatus {
    /// Nothing: the replica should wait for the next message.
    Recv,
    /// A message that was queued.
    NextMessage(Header, ViewChangeMessage),
    /// The state transfer is over: the view change can be resumed.
    ResumeViewChange,
}

/// What the replica sends in the course of a view change.
#[derive(Debug)]
pub enum SyncAction {
    /// A message for every replica.
    Broadcast(ViewChangeMessage),
    /// A message for one replica: the primary of the view to install.
    Send(NodeId, ViewChangeMessage),
}

/// What a synchronizer holds.
pub struct SynchronizerModel {
    /// The id of the replica.
    pub node_id: NodeId,
    /// The view in force.
    pub view: ViewInfo,
    /// The phase.
    pub phase: SyncPhase,
    /// The number of the view to install next.
    pub target: int,
    /// The replicas whose STOP for the target was counted.
    pub stops: Seq<NodeId>,
    /// The last decisions collected for the target, with their senders.
    pub collects: Seq<(NodeId, CollectData)>,
    /// The time to wait for the view change under way, in milliseconds.
    pub timeout: u64,
    /// The time to wait for the first view change after a view was
    /// installed.
    pub base_timeout: u64,
    /// The requests that timed out once.
    pub timed_out_once: Seq<Digest>,
    /// The view change messages that wait.
    pub pending: Seq<(Header, ViewChangeMessage)>,
    /// Whether a state transfer ended while the replica waited for it.
    pub state_installed: bool,
}

/// The replicas that sent what was collected.
pub open spec fn senders(collects: Seq<(NodeId, CollectData)>) -> Seq<NodeId> {
    Seq::new(collects.len(), |i: int| collects[i].0)
}

/// Whether `chosen` is the latest of the decisions collected.
pub open spec fn is_latest(chosen: CollectData, collects: Seq<(NodeId, CollectData)>) -> bool {
    &&& exists|i: int|
        0 <= i < collects.len() && (#[trigger] collects[i]).1.last_seq == chosen.last_seq
            && collects[i].1.last_digest@ == chosen.last_digest@
    &&& forall|i: int|
        0 <= i < collects.len() ==> (#[trigger] collects[i]).1.last_seq.value()
            <= chosen.last_seq.value()
}

/// Twice `t`, up to the longest time to wait.
pub open spec fn doubled(t: u64) -> u64 {
    if 2 * t <= MAX_VIEW_CHANGE_TIMEOUT {
        (2 * t) as u64
    } else {
        MAX_VIEW_CHANGE_TIMEOUT
    }
}

/// What becomes of the requests that timed out once, and which requests are
/// to be forwarded and which stopped, when the requests `input` time out one
/// after another: a request that timed out before is stopped, another is
/// forwarded and remembered.
pub open spec fn timed_out(once: Seq<Digest>, input: Seq<Digest>) -> (Seq<Digest>, Seq<Digest>, Seq<
    Digest,
>)
    decreases input.len(),
{
    if input.len() == 0 {
        (once, Seq::empty(), Seq::empty())
    } else {
        let (o, f, s) = timed_out(once, input.drop_last());
        let d = input.last();
        if o.contains(d) {
            (o, f, s.push(d))
        } else {
            (o.push(d), f.push(d), s)
        }
    }
}

impl SynchronizerModel {
    /// The number of replicas.
    pub open spec fn n(self) -> nat {
        self.view.spec_params().spec_n()
    }

    /// The number of tolerated failures.
    pub open spec fn f(self) -> nat {
        self.view.spec_params().spec_f()
    }

    /// The size of a quorum.
    pub open spec fn quorum(self) -> nat {
        self.view.spec_params().spec_quorum()
    }

    /// The primary of the view to install.
    pub open spec fn target_leader(self) -> NodeId {
        NodeId((self.target % (self.n() as int)) as u32)
    }

    /// The view is well formed and the view to install is later; no replica
    /// is counted twice and only replicas are counted.
    pub open spec fn wf(self) -> bool {
        &&& self.view.wf()
        &&& self.view.spec_seq().value() < self.target <= i32::MAX + 1
        &&& self.stops.no_duplicates()
        &&& forall|i: int| 0 <= i < self.stops.len() ==> (#[trigger] self.stops[i]).0 < self.n()
        &&& senders(self.collects).no_duplicates()
        &&& forall|i: int| 0 <= i < self.collects.len() ==> (#[trigger] self.collects[i]).0.0 < self.n()
        &&& self.phase == SyncPhase::Normal ==> self.target == self.view.spec_seq().value() + 1
    }

    /// Whether `v` is the view to install: it has the target as its number
    /// and the size and the number of leaders of the view in force.
    pub open spec fn is_target_view(self, v: ViewInfo) -> bool {
        &&& v.wf()
        &&& v.spec_seq().value() == self.target
        &&& v.spec_params() == self.view.spec_params()
        &&& v.spec_leader_set().len() == self.view.spec_leader_set().len()
    }

    /// Whether `post` is this model after the view to install was
    /// installed: consensus runs under it, nothing is counted for the view
    /// after it yet, and the time to wait is the base again.
    pub open spec fn installed(self, post: SynchronizerModel) -> bool {
        &&& self.is_target_view(post.view)
        &&& post == (SynchronizerModel {
            view: post.view,
            phase: SyncPhase::Normal,
            target: self.target + 1,
            stops: Seq::empty(),
            collects: Seq::empty(),
            timeout: self.base_timeout,
            state_installed: false,
            ..self
        })
    }

    /// Whether a SYNC message from `from` about `view` can be trusted: it is
    /// about the view to install and comes from its primary, it holds the
    /// last decisions of a quorum of different replicas, and it continues
    /// from the latest of them.
    pub open spec fn sync_valid(self, from: NodeId, view: SeqNo, lc: LeaderCollects) -> bool {
        &&& view.value() == self.target
        &&& self.target <= i32::MAX
        &&& from == self.target_leader()
        &&& lc.collects@.len() >= self.quorum()
        &&& senders(lc.collects@).no_duplicates()
        &&& forall|i: int| 0 <= i < lc.collects@.len() ==> (#[trigger] lc.collects@[i]).0.0 < self.n()
        &&& is_latest(lc.chosen, lc.collects@)
    }
}

/// The synchronizer of a replica.
pub struct Synchronizer {
    node_id: NodeId,
    view: ViewInfo,
    phase: SyncPhase,
    target: i64,
    stops: Vec<NodeId>,
    collects: Vec<(NodeId, CollectData)>,
    timeout: u64,
    base_timeout: u64,
    timed_out_once: Vec<Digest>,
    pending: VecDeque<(Header, ViewChangeMessage)>,
    state_installed: bool,
}

impl View for Synchronizer {
    type V = SynchronizerModel;

    closed spec fn view(&self) -> SynchronizerModel {
        SynchronizerModel {
            node_id: self.node_id,
            view: self.view,
            phase: self.phase,
            target: self.target as int,
            stops: self.stops@,
            collects: self.collects@,
            timeout: self.timeout,
            base_timeout: self.base_timeout,
            timed_out_once: self.timed_out_once@,
            pending: self.pending@,
            state_installed: self.state_installed,
        }
    }
}

/// Whether the decisions collected come from different replicas of a system
/// of `n` replicas.
fn senders_valid(collects: &Vec<(NodeId, CollectData)>, n: usize) -> (r: bool)
    ensures
        r == (senders(collects@).no_duplicates() && forall|i: int|
            0 <= i < collects@.len() ==> (#[trigger] collects@[i]).0.0 < n),
{
    let mut i: usize = 0;
    while i < collects.len()
        invariant
            i <= collects.len(),
            forall|a: int, b: int| 0 <= a < i && 0 <= b < i && a != b ==> collects@[a].0 != collects@[b].0,
            forall|a: int| 0 <= a < i ==> (#[trigger] collects@[a]).0.0 < n,
        decreases collects.len() - i,
    {
        if collects[i].0.0 as usize >= n {
            return false;
        }
        let mut j: usize = 0;
        while j < i
            invariant
                j <= i,
                i < collects.len(),
                forall|b: int| 0 <= b < j ==> collects@[b].0 != collects@[i as int].0,
            decreases i - j,
        {
            if collects[j].0 == collects[i].0 {
                assert(senders(collects@)[j as int] == senders(collects@)[i as int]);
                return false;
            }
            j += 1;
        }
        i += 1;
    }
    assert forall|a: int, b: int|
        0 <= a < senders(collects@).len() && 0 <= b < senders(collects@).len() && a != b implies senders(
        collects@,
    )[a] != senders(collects@)[b] by {}
    true
}

/// Whether `chosen` is the latest of the decisions collected.
fn check_latest(chosen: &CollectData, collects: &Vec<(NodeId, CollectData)>) -> (r: bool)
    ensures
        r == is_latest(*chosen, collects@),
{
    let mut found = false;
    let mut i: usize = 0;
    while i < collects.len()
        invariant
            i <= collects.len(),
            found == exists|k: int|
                0 <= k < i && (#[trigger] collects@[k]).1.last_seq == chosen.last_seq
                    && collects@[k].1.last_digest@ == chosen.last_digest@,
            forall|k: int|
                0 <= k < i ==> (#[trigger] collects@[k]).1.last_seq.value() <= chosen.last_seq.value(),
        decreases collects.len() - i,
    {
        let c = collects[i].1;
        if c.last_seq.0 > chosen.last_seq.0 {
            return false;
        }
        if c.last_seq == chosen.last_seq && c.last_digest == chosen.last_digest {
            found = true;
        }
        i += 1;
    }
    found
}

/// The latest of the decisions collected, which are not none: the first of
/// those with the largest instance.
fn latest_of(collects: &Vec<(NodeId, CollectData)>) -> (chosen: CollectData)
    requires
        collects@.len() > 0,
    ensures
        is_latest(chosen, collects@),
{
    let mut best = collects[0].1;
    let mut i: usize = 1;
    while i < collects.len()
        invariant
            1 <= i <= collects.len(),
            exists|k: int| 0 <= k < i && (#[trigger] collects@[k]).1 == best,
            forall|k: int| 0 <= k < i ==> (#[trigger] collects@[k]).1.last_seq.value() <= best.last_seq.value(),
        decreases collects.len() - i,
    {
        if collects[i].1.last_seq.0 > best.last_seq.0 {
            best = collects[i].1;
        }
        i += 1;
    }
    best
}

/// A copy of the decisions collected.
fn clone_collects(collects: &Vec<(NodeId, CollectData)>) -> (r: Vec<(NodeId, CollectData)>)
    ensures
        r@ == collects@,
{
    let mut out: Vec<(NodeId, CollectData)> = Vec::with_capacity(collects.len());
    let mut i: usize = 0;
    while i < collects.len()
        invariant
            i <= collects.len(),
            out@ == collects@.take(i as int),
        decreases collects.len() - i,
    {
        out.push(collects[i]);
        assert(collects@.take(i + 1) == collects@.take(i as int).push(collects@[i as int]));
        i += 1;
    }
    assert(collects@.take(collects@.len() as int) == collects@);
    out
}

impl Synchronizer {
    /// The synchronizer of replica `node_id` under `view`, which waits
    /// `timeout` milliseconds for the first view change.
    pub fn new(node_id: NodeId, view: ViewInfo, timeout: u64) -> (s: Synchronizer)
        requires
            view.wf(),
        ensures
            s@.wf(),
            s@ == (SynchronizerModel {
                node_id,
                view,
                phase: SyncPhase::Normal,
                target: view.spec_seq().value() + 1,
                stops: Seq::empty(),
                collects: Seq::empty(),
                timeout,
                base_timeout: timeout,
                timed_out_once: Seq::empty(),
                pending: Seq::empty(),
                state_installed: false,
            }),
    {
        let target: i64 = view.sequence_number().0 as i64 + 1;
        let s = Synchronizer {
            node_id,
            view,
            phase: SyncPhase::Normal,
            target,
            stops: Vec::new(),
            collects: Vec::new(),
            timeout,
            base_timeout: timeout,
            timed_out_once: Vec::new(),
            pending: VecDeque::new(),
            state_installed: false,
        };
        assert(senders(s.collects@) =~= Seq::empty());
        s
    }

    /// The view in force.
    pub fn view_info(&self) -> (v: &ViewInfo)
        ensures
            *v == self@.view,
    {
        &self.view
    }

    /// The phase of the synchronizer.
    pub fn phase(&self) -> (p: SyncPhase)
        ensures
            p == self@.phase,
    {
        self.phase
    }

    /// The time to wait for the view change under way, in milliseconds.
    pub fn timeout(&self) -> (t: u64)
        ensures
            t == self@.timeout,
    {
        self.timeout
    }

    /// Queues a view change message that arrived out of context.
    pub fn queue(&mut self, header: Header, message: ViewChangeMessage)
        ensures
            final(self)@ == (SynchronizerModel {
                pending: old(self)@.pending.push((header, message)),
                ..old(self)@
            }),
    {
        self.pending.push_back((header, message));
    }

    /// Whether view change messages wait to be processed.
    pub fn can_process_stops(&self) -> (r: bool)
        ensures
            r == (self@.pending.len() > 0),
    {
        self.pending.len() > 0
    }

    /// Tells the synchronizer that the state transfer it waited for is over.
    pub fn signal_state_installed(&mut self)
        ensures
            final(self)@ == (SynchronizerModel { state_installed: true, ..old(self)@ }),
    {
        self.state_installed = true;
    }

    /// Offers the next thing to do: to resume the view change once the
    /// state transfer it waited for is over, else the oldest message that
    /// waits, else to wait for the next message.
    pub fn poll(&mut self) -> (r: SynchronizerPollStatus)
        ensures
            old(self)@.phase == SyncPhase::AwaitingState && old(self)@.state_installed ==> r
                is ResumeViewChange && final(self)@ == old(self)@,
            !(old(self)@.phase == SyncPhase::AwaitingState && old(self)@.state_installed) ==> {
                if old(self)@.pending.len() > 0 {
                    &&& r == SynchronizerPollStatus::NextMessage(
                        old(self)@.pending[0].0,
                        old(self)@.pending[0].1,
                    )
                    &&& final(self)@ == (SynchronizerModel {
                        pending: old(self)@.pending.drop_first(),
                        ..old(self)@
                    })
                } else {
                    r is Recv && final(self)@ == old(self)@
                }
            },
    {
        if self.phase == SyncPhase::AwaitingState && self.state_installed {
            return SynchronizerPollStatus::ResumeViewChange;
        }
        match self.pending.pop_front() {
            Some((h, m)) => {
                assert(self.pending@ =~= old(self).pending@.drop_first());
                SynchronizerPollStatus::NextMessage(h, m)
            },
            None => SynchronizerPollStatus::Recv,
        }
    }

    /// Takes note of requests that timed out. A request that times out for
    /// the first time is to be forwarded to the primary; one that had timed
    /// out before is to be stopped: a view change is due. Without requests
    /// there is nothing to report.
    pub fn client_requests_timed_out(&mut self, timed_out_rqs: &Vec<Digest>) -> (r:
        SynchronizerStatus)
        ensures
            final(self)@ == (SynchronizerModel {
                timed_out_once: timed_out(old(self)@.timed_out_once, timed_out_rqs@).0,
                ..old(self)@
            }),
            timed_out_rqs@.len() == 0 ==> r is Nil,
            timed_out_rqs@.len() > 0 ==> {
                &&& r matches SynchronizerStatus::RequestsTimedOut { forwarded, stopped }
                &&& forwarded@ == timed_out(old(self)@.timed_out_once, timed_out_rqs@).1
                &&& stopped@ == timed_out(old(self)@.timed_out_once, timed_out_rqs@).2
            },
    {
        if timed_out_rqs.len() == 0 {
            return SynchronizerStatus::Nil;
        }
        let mut forwarded: Vec<Digest> = Vec::new();
        let mut stopped: Vec<Digest> = Vec::new();
        let mut i: usize = 0;
        while i < timed_out_rqs.len()
            invariant
                i <= timed_out_rqs.len(),
                self@ == (SynchronizerModel {
                    timed_out_once: timed_out(
                        old(self)@.timed_out_once,
                        timed_out_rqs@.take(i as int),
                    ).0,
                    ..old(self)@
                }),
                forwarded@ == timed_out(old(self)@.timed_out_once, timed_out_rqs@.take(i as int)).1,
                stopped@ == timed_out(old(self)@.timed_out_once, timed_out_rqs@.take(i as int)).2,
            decreases timed_out_rqs.len() - i,
        {
            let d = timed_out_rqs[i];
            assert(timed_out_rqs@.take(i + 1).drop_last() == timed_out_rqs@.take(i as int));
            if contains_digest(&self.timed_out_once, &d) {
                stopped.push(d);
            } else {
                self.timed_out_once.push(d);
                forwarded.push(d);
            }
            i += 1;
        }
        assert(timed_out_rqs@.take(i as int) == timed_out_rqs@);
        SynchronizerStatus::RequestsTimedOut { forwarded, stopped }
    }

    /// Forgets the requests that were decided: they no longer time out.
    pub fn requests_decided(&mut self, decided: &Vec<Digest>)
        ensures
            final(self)@ == (SynchronizerModel {
                timed_out_once: old(self)@.timed_out_once.filter(|d: Digest| !decided@.contains(d)),
                ..old(self)@
            }),
    {
        let mut kept: Vec<Digest> = Vec::new();
        let mut i: usize = 0;
        let ghost keep = |d: Digest| !decided@.contains(d);
        while i < self.timed_out_once.len()
            invariant
                i <= self.timed_out_once.len(),
                *self == *old(self),
                keep == (|d: Digest| !decided@.contains(d)),
                kept@ == self.timed_out_once@.take(i as int).filter(keep),
            decreases self.timed_out_once.len() - i,
        {
            let d = self.timed_out_once[i];
            proof {
                let t = self.timed_out_once@.take(i + 1);
                assert(t.drop_last() == self.timed_out_once@.take(i as int));
                reveal(Seq::filter);
            }
            if !contains_digest(decided, &d) {
                kept.push(d);
            }
            i += 1;
        }
        assert(self.timed_out_once@.take(i as int) == self.timed_out_once@);
        self.timed_out_once = kept;
    }

    /// Asks for the next view, because the requests with the given digests
    /// were not ordered in time. In phase `Normal` the replica starts to
    /// collect STOP, and the STOP to broadcast comes back; in any other
    /// phase, and after the last view there can be, nothing happens.
    pub fn begin_view_change(&mut self, requests: Vec<Digest>) -> (out: Option<ViewChangeMessage>)
        requires
            old(self)@.wf(),
        ensures
            final(self)@.wf(),
            out is Some <==> (old(self)@.phase == SyncPhase::Normal && old(self)@.target <= i32::MAX),
            out is None ==> final(self)@ == old(self)@,
            out is Some ==> {
                &&& final(self)@ == (SynchronizerModel {
                    phase: SyncPhase::ViewChanging,
                    ..old(self)@
                })
                &&& out->0.view.value() == old(self)@.target
                &&& out->0.kind matches ViewChangeMessageKind::Stop(rqs)
                &&& rqs@ == requests@
            },
    {
        if self.phase != SyncPhase::Normal || self.target > 0x7fff_ffff {
            return None;
        }
        self.phase = SyncPhase::ViewChanging;
        Some(ViewChangeMessage::new(SeqNo(self.target as i32), ViewChangeMessageKind::Stop(requests)))
    }

    /// The view change under way took too long: the replica asks for the
    /// view after the one it asked for, and waits twice as long for it, up
    /// to the longest time to wait. The STOP to broadcast comes back. While
    /// no view change is under way, and after the last view there can be,
    /// nothing happens.
    pub fn view_change_timed_out(&mut self) -> (out: Option<ViewChangeMessage>)
        requires
            old(self)@.wf(),
        ensures
            final(self)@.wf(),
            out is Some <==> ((old(self)@.phase == SyncPhase::ViewChanging || old(self)@.phase
                == SyncPhase::SyncData) && old(self)@.target < i32::MAX),
            out is None ==> final(self)@ == old(self)@,
            out is Some ==> {
                &&& final(self)@ == (SynchronizerModel {
                    phase: SyncPhase::ViewChanging,
                    target: old(self)@.target + 1,
                    stops: Seq::empty(),
                    collects: Seq::empty(),
                    timeout: doubled(old(self)@.timeout),
                    ..old(self)@
                })
                &&& out->0.view.value() == old(self)@.target + 1
                &&& out->0.kind matches ViewChangeMessageKind::Stop(rqs)
                &&& rqs@.len() == 0
            },
    {
        let changing = self.phase == SyncPhase::ViewChanging || self.phase == SyncPhase::SyncData;
        if !changing || self.target >= 0x7fff_ffff {
            return None;
        }
        self.target = self.target + 1;
        self.phase = SyncPhase::ViewChanging;
        self.stops.clear();
        self.collects.clear();
        self.timeout = if self.timeout <= MAX_VIEW_CHANGE_TIMEOUT / 2 {
            2 * self.timeout
        } else {
            MAX_VIEW_CHANGE_TIMEOUT
        };
        assert(senders(self.collects@) =~= Seq::empty());
        Some(
            ViewChangeMessage::new(
                SeqNo(self.target as i32),
                ViewChangeMessageKind::Stop(Vec::new()),
            ),
        )
    }

    /// The primary of the view to install.
    pub fn target_leader(&self) -> (l: NodeId)
        requires
            self@.wf(),
        ensures
            l == self@.target_leader(),
    {
        let n = self.view.params().n() as i64;
        NodeId((self.target % n) as u32)
    }

    /// Installs the view to install.
    fn install_target(&mut self)
        requires
            old(self)@.wf(),
            old(self)@.target <= i32::MAX,
        ensures
            final(self)@.wf(),
            old(self)@.installed(final(self)@),
    {
        let r = ViewInfo::with_leaders(
            SeqNo(self.target as i32),
            self.view.params().n(),
            self.view.params().f(),
            self.view.leader_set().len(),
        );
        match r {
            Ok(v) => {
                proof {
                    lemma_params_equal(v.spec_params(), self.view.spec_params());
                }
                self.view = v;
                self.phase = SyncPhase::Normal;
                self.target = self.target + 1;
                self.stops.clear();
                self.collects.clear();
                self.timeout = self.base_timeout;
                self.state_installed = false;
                assert(senders(self.collects@) =~= Seq::empty());
            },
            Err(_) => {
                assert(false);
            },
        }
    }

    /// Resumes the view change after the state transfer that the replica
    /// waited for: the view is installed. In any other phase nothing
    /// happens.
    pub fn resume_view_change(&mut self) -> (resumed: bool)
        requires
            old(self)@.wf(),
        ensures
            final(self)@.wf(),
            resumed == (old(self)@.phase == SyncPhase::AwaitingState && old(self)@.target
                <= i32::MAX),
            resumed ==> old(self)@.installed(final(self)@),
            !resumed ==> final(self)@ == old(self)@,
    {
        if self.phase != SyncPhase::AwaitingState || self.target > 0x7fff_ffff {
            return false;
        }
        self.install_target();
        true
    }

    /// Processes a view change message that arrived under `header`.
    /// `last_decision` is the last decision of this replica. What comes back
    /// is what became of the message and what the replica sends in answer.
    pub fn process_message(
        &mut self,
        header: Header,
        message: ViewChangeMessage,
        last_decision: CollectData,
    ) -> (r: (SynchronizerStatus, Option<SyncAction>))
        requires
            old(self)@.wf(),
        ensures
            final(self)@.wf(),
            step_sync(old(self)@, final(self)@, header, message, last_decision, r.0, r.1),
    {
        let from = header.from();
        let n = self.view.params().n();
        let f = self.view.params().f();
        let quorum = self.view.params().quorum();
        let about_target = message.view.0 as i64 == self.target;
        let running = self.phase != SyncPhase::Normal;
        let leader = self.target_leader();
        match message.kind {
            ViewChangeMessageKind::Stop(_) => {
                let collecting = self.phase == SyncPhase::Normal || self.phase
                    == SyncPhase::ViewChanging;
                if !about_target || !collecting || from.0 as usize >= n || contains_node(
                    &self.stops,
                    from,
                ) {
                    return (status_of(running), None);
                }
                self.stops.push(from);
                if self.stops.len() == quorum {
                    self.phase = SyncPhase::SyncData;
                    let out = ViewChangeMessage::new(
                        message.view,
                        ViewChangeMessageKind::StopData(last_decision),
                    );
                    (SynchronizerStatus::Running, Some(SyncAction::Send(leader, out)))
                } else if !running && self.stops.len() == f + 1 {
                    self.phase = SyncPhase::ViewChanging;
                    let out = ViewChangeMessage::new(
                        message.view,
                        ViewChangeMessageKind::Stop(Vec::new()),
                    );
                    (SynchronizerStatus::Running, Some(SyncAction::Broadcast(out)))
                } else {
                    (status_of(running), None)
                }
            },
            ViewChangeMessageKind::StopData(data) => {
                let waiting = self.phase == SyncPhase::AwaitingState;
                if !about_target || waiting || self.node_id != leader || from.0 as usize >= n
                    || contains_sender(&self.collects, from) {
                    return (status_of(running), None);
                }
                self.collects.push((from, data));
                proof {
                    lemma_senders_push(old(self)@.collects, from, data);
                }
                if self.collects.len() == quorum {
                    let chosen = latest_of(&self.collects);
                    let collects = clone_collects(&self.collects);
                    let out = ViewChangeMessage::new(
                        message.view,
                        ViewChangeMessageKind::Sync(LeaderCollects { chosen, collects }),
                    );
                    (status_of(running), Some(SyncAction::Broadcast(out)))
                } else {
                    (status_of(running), None)
                }
            },
            ViewChangeMessageKind::Sync(lc) => {
                let waiting = self.phase == SyncPhase::AwaitingState;
                if waiting || !about_target || self.target > 0x7fff_ffff || from != leader
                    || lc.collects.len() < quorum || !senders_valid(&lc.collects, n)
                    || !check_latest(&lc.chosen, &lc.collects) {
                    return (status_of(running), None);
                }
                if last_decision.last_seq.0 < lc.chosen.last_seq.0 {
                    self.phase = SyncPhase::AwaitingState;
                    self.state_installed = false;
                    (SynchronizerStatus::RunCst, None)
                } else {
                    self.install_target();
                    (SynchronizerStatus::NewView, None)
                }
            },
        }
    }
}

/// Whether `from` is among the senders of the decisions collected.
fn contains_sender(collects: &Vec<(NodeId, CollectData)>, from: NodeId) -> (r: bool)
    ensures
        r == senders(collects@).contains(from),
{
    let mut i: usize = 0;
    while i < collects.len()
        invariant
            i <= collects.len(),
            forall|j: int| 0 <= j < i ==> senders(collects@)[j] != from,
        decreases collects.len() - i,
    {
        if collects[i].0 == from {
            assert(senders(collects@)[i as int] == from);
            return true;
        }
        i += 1;
    }
    false
}

/// The senders of the decisions collected stay different when one of a new
/// sender joins.
proof fn lemma_senders_push(collects: Seq<(NodeId, CollectData)>, from: NodeId, data: CollectData)
    requires
        senders(collects).no_duplicates(),
        !senders(collects).contains(from),
    ensures
        senders(collects.push((from, data))) == senders(collects).push(from),
        senders(collects.push((from, data))).no_duplicates(),
{
    assert(senders(collects.push((from, data))) =~= senders(collects).push(from));
    let s = senders(collects).push(from);
    assert forall|i: int, j: int| 0 <= i < s.len() && 0 <= j < s.len() && i != j implies s[i]
        != s[j] by {
        if i == collects.len() {
            assert(senders(collects).contains(s[j]));
        } else if j == collects.len() {
            assert(senders(collects).contains(s[i]));
        }
    }
}

/// What is reported of a message that changed nothing of note.
fn status_of(running: bool) -> (s: SynchronizerStatus)
    ensures
        running ==> s is Running,
        !running ==> s is Nil,
{
    if running {
        SynchronizerStatus::Running
    } else {
        SynchronizerStatus::Nil
    }
}

/// What is reported while the synchronizer is in `phase` and nothing of
/// note happened: that a view change is running, or nothing.
pub open spec fn quiet(phase: SyncPhase, status: SynchronizerStatus) -> bool {
    if phase == SyncPhase::Normal {
        status is Nil
    } else {
        status is Running
    }
}

/// How a view change message changes the state of a replica, what is
/// reported of it, and what the replica sends in answer.
///
/// STOP for the view to install is counted once for each replica, while
/// consensus runs or STOP is collected. With `f + 1` of them a replica that
/// had not asked for the view joins in and broadcasts its own STOP; with a
/// quorum the replica sends its last decision to the primary of the view
/// and waits for SYNC. STOP-DATA is collected by the primary of the view to
/// install, once for each replica; with a quorum it broadcasts SYNC, which
/// holds what it collected and continues from the latest decision. SYNC
/// that can be trusted ends the view change: a replica that is not behind
/// the decision installs the view, one that is behind asks for a state
/// transfer first. Any other message is dropped.
pub open spec fn step_sync(
    pre: SynchronizerModel,
    post: SynchronizerModel,
    header: Header,
    message: ViewChangeMessage,
    last_decision: CollectData,
    status: SynchronizerStatus,
    out: Option<SyncAction>,
) -> bool {
    let from = NodeId(header.from);
    let about_target = message.view.value() == pre.target;
    let dropped = post == pre && quiet(pre.phase, status) && out is None;
    match message.kind {
        ViewChangeMessageKind::Stop(_) => {
            let collecting = pre.phase == SyncPhase::Normal || pre.phase == SyncPhase::ViewChanging;
            if !about_target || !collecting || from.0 >= pre.n() || pre.stops.contains(from) {
                dropped
            } else {
                let stops = pre.stops.push(from);
                if stops.len() == pre.quorum() {
                    &&& post == (SynchronizerModel { stops, phase: SyncPhase::SyncData, ..pre })
                    &&& status is Running
                    &&& out matches Some(SyncAction::Send(to, m))
                    &&& to == pre.target_leader()
                    &&& m.view == message.view
                    &&& m.kind matches ViewChangeMessageKind::StopData(d)
                    &&& d == last_decision
                } else if pre.phase == SyncPhase::Normal && stops.len() == pre.f() + 1 {
                    &&& post == (SynchronizerModel { stops, phase: SyncPhase::ViewChanging, ..pre })
                    &&& status is Running
                    &&& out matches Some(SyncAction::Broadcast(m))
                    &&& m.view == message.view
                    &&& m.kind matches ViewChangeMessageKind::Stop(rqs)
                    &&& rqs@.len() == 0
                } else {
                    &&& post == (SynchronizerModel { stops, ..pre })
                    &&& quiet(pre.phase, status)
                    &&& out is None
                }
            }
        },
        ViewChangeMessageKind::StopData(data) => {
            if !about_target || pre.phase == SyncPhase::AwaitingState || pre.node_id
                != pre.target_leader() || from.0 >= pre.n() || senders(pre.collects).contains(from) {
                dropped
            } else {
                let collects = pre.collects.push((from, data));
                &&& post == (SynchronizerModel { collects, ..pre })
                &&& quiet(pre.phase, status)
                &&& if collects.len() == pre.quorum() {
                    &&& out matches Some(SyncAction::Broadcast(m))
                    &&& m.view == message.view
                    &&& m.kind matches ViewChangeMessageKind::Sync(lc)
                    &&& lc.collects@ == collects
                    &&& is_latest(lc.chosen, collects)
                } else {
                    out is None
                }
            }
        },
        ViewChangeMessageKind::Sync(lc) => {
            if pre.phase == SyncPhase::AwaitingState || !pre.sync_valid(from, message.view, lc) {
                dropped
            } else if last_decision.last_seq.value() < lc.chosen.last_seq.value() {
                &&& post == (SynchronizerModel {
                    phase: SyncPhase::AwaitingState,
                    state_installed: false,
                    ..pre
                })
                &&& status is RunCst
                &&& out is None
            } else {
                &&& pre.installed(post)
                &&& status is NewView
                &&& out is None
            }
        },
    }
}

} // verus!
