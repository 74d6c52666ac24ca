//! What the consensus state machine guarantees to the system around it.

use crate::communication::message::{ConsensusMessage, ConsensusMessageKind, ConsensusPhaseKind, Header};
use crate::consensus::{
    step_poll, step_process, ConsensusModel, ConsensusStatus, PollStatus, Position, ProtoPhase,
};
use crate::crypto::hash::{hash_chain, lemma_digest_ext};
use crate::msg_log::deciding_log::{all_received, received};
use crate::node_id::NodeId;
use crate::view::ViewInfo;
use vstd::prelude::*;
use vstd::set_lib::{
    lemma_len_intersect, lemma_len_subset, lemma_set_difference_len, lemma_set_intersect_union_lens,
};

verus! {

/// What one step of a replica may broadcast, given where the replica stood
/// before and after it: a message of the view and the instance in progress,
/// a proposal as the instance begins, a prepare vote as the replica enters
/// the prepare phase, a commit vote as it enters the commit phase.
pub open spec fn vote_step(pre: Position, post: Position, out: Option<ConsensusMessage>) -> bool {
    out matches Some(m) ==> {
        &&& m.view.value() == pre.view
        &&& m.seq.value() == pre.seq
        &&& post.view == pre.view
        &&& post.seq == pre.seq
        &&& match m.kind {
            ConsensusMessageKind::PrePrepare { .. } => pre.rank == 0 && post.rank == 1,
            ConsensusMessageKind::Prepare(_) => pre.rank == 1 && post.rank == 2,
            ConsensusMessageKind::Commit(_) => pre.rank == 2 && post.rank == 3,
        }
    }
}

/// Processing a message never takes a replica back, and what it broadcasts
/// is a vote that goes with the phase it enters.
pub proof fn lemma_process_is_vote_step(
    pre: ConsensusModel,
    post: ConsensusModel,
    header: Header,
    message: ConsensusMessage,
    requests_available: bool,
    status: ConsensusStatus,
    out: Option<ConsensusMessage>,
)
    requires
        pre.wf(),
        step_process(pre, post, header, message, requests_available, status, out),
    ensures
        pre.position().le(post.position()),
        vote_step(pre.position(), post.position(), out),
        out matches Some(m) ==> m.kind.phase_kind() != ConsensusPhaseKind::PrePrepare,
{
}

/// To begin an instance, with or without a proposal, never takes a replica
/// back; the proposal goes with the beginning of the instance.
pub proof fn lemma_propose_is_vote_step(pre: ConsensusModel, out: Option<ConsensusMessage>)
    requires
        pre.phase == ProtoPhase::Init,
        out matches Some(m) ==> m.seq == pre.tbo.curr_seq && m.view == pre.view.spec_seq() && m.kind
            is PrePrepare,
    ensures
        pre.position().le(pre.begun().position()),
        vote_step(pre.position(), pre.begun().position(), out),
{
}

/// The next instance is further on than the current one, unless the
/// instance counter wraps.
pub proof fn lemma_next_instance_is_monotone(pre: ConsensusModel)
    requires
        pre.tbo.curr_seq.value() < i32::MAX,
    ensures
        pre.position().le(pre.next_instance().position()),
        pre.position().le(pre.after_decision().position()),
{
}

/// A later view is further on than the view in force.
pub proof fn lemma_install_view_is_monotone(pre: ConsensusModel, view: ViewInfo)
    requires
        view.spec_seq().value() > pre.view.spec_seq().value(),
    ensures
        pre.position().le(pre.restarted_under(view).position()),
{
}

/// Polling never takes a replica back.
pub proof fn lemma_poll_is_monotone(
    pre: ConsensusModel,
    post: ConsensusModel,
    requests_available: bool,
    r: PollStatus,
)
    requires
        step_poll(pre, post, requests_available, r),
    ensures
        pre.position().le(post.position()),
{
}

/// An instance is decided only on the batch under decision, with a quorum
/// of commit votes of different replicas counted for it.
pub proof fn lemma_decided_has_quorum(
    pre: ConsensusModel,
    post: ConsensusModel,
    header: Header,
    message: ConsensusMessage,
    requests_available: bool,
    status: ConsensusStatus,
    out: Option<ConsensusMessage>,
)
    requires
        pre.wf(),
        step_process(pre, post, header, message, requests_available, status, out),
        status is Decided,
    ensures
        status->Decided_0 == pre.current,
        message.kind matches ConsensusMessageKind::Commit(d) && d@ == pre.current@,
        message.seq == pre.tbo.curr_seq,
        message.view == pre.view.spec_seq(),
        post.commit_voters == pre.commit_voters.push(NodeId(header.from)),
        post.commit_voters.len() == pre.quorum(),
        post.commit_voters.no_duplicates(),
        forall|i: int| 0 <= i < post.commit_voters.len() ==> (#[trigger] post.commit_voters[i]).0 < pre.n(),
{
    let from = NodeId(header.from);
    assert(!pre.commit_voters.contains(from));
    assert forall|i: int, j: int|
        0 <= i < post.commit_voters.len() && 0 <= j < post.commit_voters.len() && i != j implies post.commit_voters[i]
        != post.commit_voters[j] by {
        if i == pre.commit_voters.len() {
            assert(pre.commit_voters.contains(post.commit_voters[j]));
        } else if j == pre.commit_voters.len() {
            assert(pre.commit_voters.contains(post.commit_voters[i]));
        }
    }
}

/// Integrity: the digest of a decided batch is the hash chain of the digests
/// of its proposals, in the order of the leaders, and the digest of each
/// proposal is the hash chain of the digests of the requests in it.
pub proof fn lemma_decided_is_hash_chain(
    pre: ConsensusModel,
    post: ConsensusModel,
    header: Header,
    message: ConsensusMessage,
    requests_available: bool,
    status: ConsensusStatus,
    out: Option<ConsensusMessage>,
)
    requires
        pre.wf(),
        step_process(pre, post, header, message, requests_available, status, out),
        status is Decided,
    ensures
        all_received(pre.log.ordering),
        status->Decided_0@ == hash_chain(received(pre.log.ordering)),
        forall|i: int|
            0 <= i < pre.log.ordering.len() ==> (#[trigger] pre.log.ordering[i])->0@ == hash_chain(
                pre.log.requests[i],
            ),
        post.log.current_digest == Some(status->Decided_0),
        post.log.ordering == pre.log.ordering,
        post.log.requests == pre.log.requests,
{
}

/// A replica that voted to commit a batch for an instance keeps to it:
/// processing a message never changes the batch that it voted to commit,
/// and the instance is decided on no other batch.
pub proof fn lemma_committed_is_kept(
    pre: ConsensusModel,
    post: ConsensusModel,
    header: Header,
    message: ConsensusMessage,
    requests_available: bool,
    status: ConsensusStatus,
    out: Option<ConsensusMessage>,
)
    requires
        pre.wf(),
        step_process(pre, post, header, message, requests_available, status, out),
        pre.committed is Some,
    ensures
        post.committed == pre.committed,
        pre.committed matches Some((_, locked)) ==> {
            &&& status matches ConsensusStatus::Decided(d) ==> d@ == locked@
            &&& out matches Some(m) ==> m.kind.batch_digest()@ == locked@
        },
{
    match pre.committed {
        Some((_, locked)) => {
            lemma_digest_ext(locked, pre.current);
        },
        None => {},
    }
}

/// A later view does not free a replica of the batch that it voted to
/// commit for the instance in progress.
pub proof fn lemma_committed_outlives_the_view(pre: ConsensusModel, view: ViewInfo)
    ensures
        pre.restarted_under(view).committed == pre.committed,
        pre.begun().committed == pre.committed,
{
}

/// What a step that stays with the instance in progress does to the batch
/// that the replica voted to commit for it: the replica keeps to that
/// batch, and the commit vote that the step broadcasts, if it does, is for
/// that batch and that instance.
pub open spec fn lock_step(pre: ConsensusModel, post: ConsensusModel, out: Option<ConsensusMessage>) -> bool {
    &&& post.tbo.curr_seq == pre.tbo.curr_seq
    &&& pre.committed is Some ==> post.committed == pre.committed
    &&& is_commit_vote(out) ==> {
        &&& out->0.seq == pre.tbo.curr_seq
        &&& post.committed matches Some((s, d)) && s == out->0.seq && d@ == out->0.kind.batch_digest()@
    }
}

/// Whether a step broadcast a commit vote.
pub open spec fn is_commit_vote(out: Option<ConsensusMessage>) -> bool {
    out matches Some(m) && m.kind is Commit
}

/// Processing a message stays with the instance and keeps to the batch
/// that the replica voted to commit.
pub proof fn lemma_process_is_lock_step(
    pre: ConsensusModel,
    post: ConsensusModel,
    header: Header,
    message: ConsensusMessage,
    requests_available: bool,
    status: ConsensusStatus,
    out: Option<ConsensusMessage>,
)
    requires
        pre.wf(),
        step_process(pre, post, header, message, requests_available, status, out),
    ensures
        lock_step(pre, post, out),
{
    if pre.committed is Some {
        lemma_committed_is_kept(pre, post, header, message, requests_available, status, out);
    }
}

/// The installation of a later view, the beginning of the wait for
/// proposals and polling stay with the instance and keep to the batch that
/// the replica voted to commit; they broadcast no vote.
pub proof fn lemma_quiet_steps_are_lock_steps(
    pre: ConsensusModel,
    post: ConsensusModel,
    view: ViewInfo,
    requests_available: bool,
    r: PollStatus,
)
    ensures
        lock_step(pre, pre.restarted_under(view), None),
        lock_step(pre, pre.begun(), None),
        step_poll(pre, post, requests_available, r) ==> lock_step(pre, post, None),
{
}

/// A replica votes to commit one batch for an instance, in whatever views:
/// along a run of steps that stay with the instance, two commit votes that
/// the replica broadcasts are for the same batch.
pub proof fn lemma_one_commit_per_instance(
    trace: Seq<ConsensusModel>,
    outs: Seq<Option<ConsensusMessage>>,
    i: int,
    j: int,
)
    requires
        trace.len() == outs.len() + 1,
        forall|k: int| 0 <= k < outs.len() ==> lock_step(trace[k], trace[k + 1], #[trigger] outs[k]),
        0 <= i < j < outs.len(),
        is_commit_vote(outs[i]),
        is_commit_vote(outs[j]),
    ensures
        outs[i]->0.seq == outs[j]->0.seq,
        outs[i]->0.kind.batch_digest()@ == outs[j]->0.kind.batch_digest()@,
{
    assert(lock_step(trace[i], trace[i + 1], outs[i]));
    lemma_lock_is_kept(trace, outs, i + 1, j);
    assert(lock_step(trace[j], trace[j + 1], outs[j]));
}

/// Along a run of steps that stay with the instance, the batch that the
/// replica voted to commit stays the same.
pub proof fn lemma_lock_is_kept(
    trace: Seq<ConsensusModel>,
    outs: Seq<Option<ConsensusMessage>>,
    a: int,
    b: int,
)
    requires
        trace.len() == outs.len() + 1,
        forall|k: int| 0 <= k < outs.len() ==> lock_step(trace[k], trace[k + 1], #[trigger] outs[k]),
        0 <= a <= b < trace.len(),
        trace[a].committed is Some,
    ensures
        trace[b].committed == trace[a].committed,
        trace[b].tbo.curr_seq == trace[a].tbo.curr_seq,
    decreases b - a,
{
    if a < b {
        lemma_lock_is_kept(trace, outs, a, b - 1);
        assert(lock_step(trace[b - 1], trace[b], outs[b - 1]));
    }
}

/// Along a run in which a replica never goes back, its positions are in
/// order.
pub proof fn lemma_trace_monotone(trace: Seq<Position>, a: int, b: int)
    requires
        0 <= a <= b < trace.len(),
        forall|k: int| 0 <= k < trace.len() - 1 ==> (#[trigger] trace[k]).le(trace[k + 1]),
    ensures
        trace[a].le(trace[b]),
    decreases b - a,
{
    if a < b {
        lemma_trace_monotone(trace, a, b - 1);
        assert(trace[b - 1].le(trace[b]));
    }
}

/// A replica broadcasts at most one proposal, one prepare vote and one
/// commit vote for each view and instance.
///
/// A run is given by the positions of the replica before and after each of
/// its steps and by what each step broadcast. Where the replica never goes
/// back, which holds of every step but that which wraps the instance
/// counter and that which installs a sequence number, two steps that
/// broadcast a message of the same kind do so for different views or
/// different instances.
pub proof fn lemma_single_vote(
    trace: Seq<Position>,
    outs: Seq<Option<ConsensusMessage>>,
    i: int,
    j: int,
)
    requires
        trace.len() == outs.len() + 1,
        forall|k: int| 0 <= k < trace.len() - 1 ==> (#[trigger] trace[k]).le(trace[k + 1]),
        forall|k: int| 0 <= k < outs.len() ==> vote_step(trace[k], trace[k + 1], #[trigger] outs[k]),
        0 <= i < j < outs.len(),
        outs[i] is Some,
        outs[j] is Some,
        outs[i]->0.kind.phase_kind() == outs[j]->0.kind.phase_kind(),
    ensures
        outs[i]->0.view != outs[j]->0.view || outs[i]->0.seq != outs[j]->0.seq,
{
    lemma_trace_monotone(trace, i + 1, j);
    assert(vote_step(trace[i], trace[i + 1], outs[i]));
    assert(vote_step(trace[j], trace[j + 1], outs[j]));
}

/// The ids of the replicas of a system of `n` replicas.
pub open spec fn replica_ids(n: nat) -> Set<NodeId> {
    Set::new(|r: NodeId| r.0 < n)
}

/// A system of `n` replicas has `n` replica ids.
pub proof fn lemma_replica_ids(n: nat)
    requires
        n <= u32::MAX,
    ensures
        replica_ids(n).finite(),
        replica_ids(n).len() == n,
    decreases n,
{
    if n == 0 {
        assert(replica_ids(0) =~= Set::empty());
    } else {
        lemma_replica_ids((n - 1) as nat);
        assert(replica_ids(n) =~= replica_ids((n - 1) as nat).insert(NodeId((n - 1) as u32)));
    }
}

/// Two quorums share a replica that is not faulty.
///
/// In a system of `n = 3f + 1` replicas of which at most `f` are faulty,
/// any two lists of at least `2f + 1` different replicas have a replica in
/// common that is not faulty.
pub proof fn lemma_quorum_intersection(
    n: nat,
    f: nat,
    q1: Seq<NodeId>,
    q2: Seq<NodeId>,
    faulty: Set<NodeId>,
)
    requires
        n == 3 * f + 1,
        n <= u32::MAX,
        q1.no_duplicates(),
        q2.no_duplicates(),
        q1.len() >= 2 * f + 1,
        q2.len() >= 2 * f + 1,
        forall|i: int| 0 <= i < q1.len() ==> (#[trigger] q1[i]).0 < n,
        forall|i: int| 0 <= i < q2.len() ==> (#[trigger] q2[i]).0 < n,
        faulty.finite(),
        faulty.len() <= f,
    ensures
        exists|r: NodeId| q1.contains(r) && q2.contains(r) && !faulty.contains(r),
{
    let a = q1.to_set();
    let b = q2.to_set();
    let all = replica_ids(n);
    q1.unique_seq_to_set();
    q2.unique_seq_to_set();
    lemma_replica_ids(n);
    assert(a.subset_of(all));
    assert(b.subset_of(all));
    assert((a + b).subset_of(all));
    lemma_len_subset(a, all);
    lemma_len_subset(b, all);
    lemma_len_subset(a + b, all);
    lemma_set_intersect_union_lens(a, b);
    let common = a.intersect(b);
    lemma_len_intersect(a, b);
    assert(common.len() >= f + 1);
    assert(common.finite());
    lemma_set_difference_len(common, faulty);
    lemma_len_intersect(faulty, common);
    assert(common.intersect(faulty) =~= faulty.intersect(common));
    let honest = common.difference(faulty);
    assert(honest.len() >= 1);
    let r = honest.choose();
    assert(honest.contains(r));
    assert(q1.contains(r) && q2.contains(r) && !faulty.contains(r));
}

/// Agreement: two replicas that decide the same instance decide the same
/// batch, in whatever views they decide it.
///
/// Each decision rests on a quorum of commit votes of different replicas for
/// its batch. `commits` says for which batches each replica broadcast a
/// commit vote for that instance; a replica that is not faulty votes to
/// commit one batch only, in one view as `lemma_single_vote` says and
/// across views as `lemma_one_commit_per_instance` says. With `n = 3f + 1`
/// replicas, of which at most `f` are faulty, the two batches have the
/// same digest. With more replicas two quorums of `2f + 1` need not share
/// a replica that is not faulty, and nothing is said.
pub proof fn lemma_agreement(
    n: nat,
    f: nat,
    faulty: Set<NodeId>,
    commits: spec_fn(NodeId) -> Set<Seq<u8>>,
    voters1: Seq<NodeId>,
    decided1: Seq<u8>,
    voters2: Seq<NodeId>,
    decided2: Seq<u8>,
)
    requires
        n == 3 * f + 1,
        n <= u32::MAX,
        faulty.finite(),
        faulty.len() <= f,
        voters1.no_duplicates(),
        voters2.no_duplicates(),
        voters1.len() >= 2 * f + 1,
        voters2.len() >= 2 * f + 1,
        forall|i: int| 0 <= i < voters1.len() ==> (#[trigger] voters1[i]).0 < n,
        forall|i: int| 0 <= i < voters2.len() ==> (#[trigger] voters2[i]).0 < n,
        forall|i: int| 0 <= i < voters1.len() ==> commits(#[trigger] voters1[i]).contains(decided1),
        forall|i: int| 0 <= i < voters2.len() ==> commits(#[trigger] voters2[i]).contains(decided2),
        forall|r: NodeId, x: Seq<u8>, y: Seq<u8>|
            !faulty.contains(r) && #[trigger] commits(r).contains(x) && #[trigger] commits(r).contains(y)
                ==> x == y,
    ensures
        decided1 == decided2,
{
    lemma_quorum_intersection(n, f, voters1, voters2, faulty);
    let r = choose|r: NodeId| voters1.contains(r) && voters2.contains(r) && !faulty.contains(r);
    let i = choose|i: int| 0 <= i < voters1.len() && voters1[i] == r;
    let j = choose|j: int| 0 <= j < voters2.len() && voters2[j] == r;
    assert(commits(voters1[i]).contains(decided1));
    assert(commits(voters2[j]).contains(decided2));
}

} // verus!
