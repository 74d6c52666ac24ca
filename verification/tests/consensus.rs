use febft::communication::message::{
    ConsensusMessage, ConsensusMessageKind, ConsensusPhaseKind, Header,
};
use febft::consensus::tbo_queue::TBOQueue;
use febft::consensus::{Consensus, ConsensusStatus, PollStatus, ProtoPhase};
use febft::crypto::hash::{chain_digests, Digest};
use febft::crypto::signature::Signature;
use febft::node_id::NodeId;
use febft::ordering::SeqNo;
use febft::view::ViewInfo;

fn header(from: u32, tag: u8) -> Header {
    Header {
        version: 0,
        flags: 0,
        from,
        to: 0,
        nonce: tag as u64,
        length: 0,
        digest: Digest([tag; 32]),
        signature: Signature([0; 64]),
    }
}

fn pre_prepare(seq: i32, view: i32, requests: Vec<Digest>) -> ConsensusMessage {
    let digest = chain_digests(&requests);
    ConsensusMessage::new(SeqNo(seq), SeqNo(view), ConsensusMessageKind::PrePrepare { digest, requests })
}

fn prepare(seq: i32, view: i32, digest: Digest) -> ConsensusMessage {
    ConsensusMessage::new(SeqNo(seq), SeqNo(view), ConsensusMessageKind::Prepare(digest))
}

fn commit(seq: i32, view: i32, digest: Digest) -> ConsensusMessage {
    ConsensusMessage::new(SeqNo(seq), SeqNo(view), ConsensusMessageKind::Commit(digest))
}

fn replica(id: u32, seq: i32) -> Consensus {
    Consensus::new(NodeId(id), ViewInfo::new(SeqNo(0), 4, 1).unwrap(), SeqNo(seq))
}

fn is_deciding(s: &ConsensusStatus) -> bool {
    matches!(s, ConsensusStatus::Deciding)
}

/// Brings a replica that is not the primary into the prepare phase for the
/// batch of one request, and returns the digest of the batch.
fn into_preparing(c: &mut Consensus, seq: i32) -> Digest {
    let requests = vec![Digest([0x11; 32])];
    let inner = chain_digests(&requests);
    c.advance_init_phase();
    let (status, out) = c.process_message(header(0, 1), pre_prepare(seq, 0, requests), true);
    assert!(is_deciding(&status));
    let vote = out.unwrap();
    assert_eq!(vote.phase_kind(), ConsensusPhaseKind::Prepare);
    assert_eq!(c.phase(), ProtoPhase::Preparing(0));
    let batch = chain_digests(&vec![inner]);
    assert!(vote.batch_digest() == batch);
    assert!(c.current_digest() == batch);
    batch
}

#[test]
fn new_consensus_starts_in_init() {
    let c = replica(1, 5);
    assert_eq!(c.phase(), ProtoPhase::Init);
    assert_eq!(c.sequence_number(), SeqNo(5));
    assert_eq!(c.view_info().leader(), NodeId(0));
}

#[test]
fn stale_pre_prepare_is_dropped() {
    let mut c = replica(1, 5);
    let (status, out) = c.process_message(header(0, 1), pre_prepare(2, 0, vec![]), true);
    assert!(is_deciding(&status));
    assert!(out.is_none());
    assert_eq!(c.phase(), ProtoPhase::Init);
    for slot in 0..4 {
        assert_eq!(c.tbo_queue().waiting(ConsensusPhaseKind::PrePrepare, slot), 0);
    }
    c.signal();
    assert!(matches!(c.poll(true), PollStatus::Recv));
    assert_eq!(c.phase(), ProtoPhase::Init);
}

#[test]
fn future_pre_prepare_is_queued_for_its_instance() {
    let mut c = replica(1, 5);
    c.process_message(header(0, 1), pre_prepare(7, 0, vec![]), true);
    assert_eq!(c.tbo_queue().waiting(ConsensusPhaseKind::PrePrepare, 2), 1);
    assert_eq!(c.tbo_queue().waiting(ConsensusPhaseKind::PrePrepare, 0), 0);
    c.next_instance();
    assert_eq!(c.tbo_queue().waiting(ConsensusPhaseKind::PrePrepare, 1), 1);
    c.next_instance();
    assert_eq!(c.sequence_number(), SeqNo(7));
    c.signal();
    assert!(matches!(c.poll(true), PollStatus::NextMessage(_, _)));
    assert_eq!(c.phase(), ProtoPhase::PrePreparing);
}

#[test]
fn message_beyond_the_high_water_mark_is_dropped() {
    let mut q = TBOQueue::new(SeqNo(0));
    q.queue(header(0, 1), prepare(1501, 0, Digest([0; 32])));
    assert_eq!(q.waiting(ConsensusPhaseKind::Prepare, 1501), 0);
    q.queue(header(0, 1), prepare(1500, 0, Digest([0; 32])));
    assert_eq!(q.waiting(ConsensusPhaseKind::Prepare, 1500), 1);
}

#[test]
fn queueing_a_dropped_message_twice_changes_nothing() {
    let mut q = TBOQueue::new(SeqNo(5));
    q.queue(header(0, 1), prepare(6, 0, Digest([0; 32])));
    q.queue(header(1, 2), prepare(2, 0, Digest([0; 32])));
    q.queue(header(1, 2), prepare(2, 0, Digest([0; 32])));
    assert_eq!(q.waiting(ConsensusPhaseKind::Prepare, 0), 0);
    assert_eq!(q.waiting(ConsensusPhaseKind::Prepare, 1), 1);
    assert_eq!(q.waiting(ConsensusPhaseKind::Prepare, 2), 0);
    assert_eq!(q.sequence_number(), SeqNo(5));
}

#[test]
fn queueing_a_message_twice_is_queueing_it_once() {
    let mut q = TBOQueue::new(SeqNo(5));
    q.queue(header(1, 2), commit(5, 0, Digest([0; 32])));
    q.queue(header(1, 2), commit(5, 0, Digest([0; 32])));
    assert_eq!(q.waiting(ConsensusPhaseKind::Commit, 0), 1);
    q.queue(header(2, 2), commit(5, 0, Digest([0; 32])));
    q.queue(header(1, 2), commit(5, 0, Digest([1; 32])));
    q.queue(header(1, 2), commit(5, 0, Digest([0; 32])));
    q.queue(header(1, 2), commit(7, 0, Digest([0; 32])));
    q.queue(header(1, 2), commit(7, 0, Digest([0; 32])));
    assert_eq!(q.waiting(ConsensusPhaseKind::Commit, 0), 3);
    assert_eq!(q.waiting(ConsensusPhaseKind::Commit, 2), 1);
    let requests = vec![Digest([3; 32])];
    q.queue(header(0, 2), pre_prepare(5, 0, requests.clone()));
    q.queue(header(0, 2), pre_prepare(5, 0, requests));
    q.queue(header(0, 2), pre_prepare(5, 0, vec![Digest([4; 32])]));
    assert_eq!(q.waiting(ConsensusPhaseKind::PrePrepare, 0), 2);
    assert!(q.pop_commit().is_some());
    assert!(q.pop_commit().is_some());
    assert!(q.pop_commit().is_some());
    assert!(q.pop_commit().is_none());
}

#[test]
fn queue_pops_in_order_of_arrival_and_advances() {
    let mut q = TBOQueue::new(SeqNo(0));
    q.signal();
    assert!(q.is_signalled());
    q.queue(header(1, 1), prepare(0, 0, Digest([0; 32])));
    q.queue(header(2, 2), prepare(0, 0, Digest([0; 32])));
    q.queue(header(3, 3), prepare(1, 0, Digest([0; 32])));
    assert_eq!(q.pop_prepare().unwrap().0.from, 1);
    assert_eq!(q.pop_prepare().unwrap().0.from, 2);
    assert!(q.is_signalled());
    assert!(q.pop_prepare().is_none());
    assert!(!q.is_signalled());
    q.next_instance_queue();
    assert_eq!(q.sequence_number(), SeqNo(1));
    assert_eq!(q.pop_prepare().unwrap().0.from, 3);
}

#[test]
fn out_of_order_prepare_is_processed_after_the_pre_prepare() {
    let mut c = replica(2, 7);
    let requests = vec![Digest([0x11; 32])];
    let batch = chain_digests(&vec![chain_digests(&requests)]);
    let (status, out) = c.process_message(header(1, 1), prepare(7, 0, batch), true);
    assert!(is_deciding(&status) && out.is_none());
    assert_eq!(c.phase(), ProtoPhase::Init);
    assert_eq!(c.tbo_queue().waiting(ConsensusPhaseKind::Prepare, 0), 1);
    c.process_message(header(0, 2), pre_prepare(7, 0, requests), true);
    c.signal();
    let (h, m) = match c.poll(true) {
        PollStatus::NextMessage(h, m) => (h, m),
        _ => panic!("the proposal should come out"),
    };
    assert_eq!(c.phase(), ProtoPhase::PrePreparing);
    let (_, out) = c.process_message(h, m, true);
    assert_eq!(out.unwrap().phase_kind(), ConsensusPhaseKind::Prepare);
    assert_eq!(c.phase(), ProtoPhase::Preparing(0));
    c.signal();
    let (h, m) = match c.poll(true) {
        PollStatus::NextMessage(h, m) => (h, m),
        _ => panic!("the vote should come out"),
    };
    assert_eq!(h.from, 1);
    c.process_message(h, m, true);
    assert_eq!(c.phase(), ProtoPhase::Preparing(1));
}

#[test]
fn poll_tells_an_idle_replica_to_propose() {
    let mut c = replica(0, 0);
    assert!(matches!(c.poll(true), PollStatus::TryProposeAndRecv));
    assert_eq!(c.phase(), ProtoPhase::Init);
}

#[test]
fn only_a_leader_proposes_and_only_in_init() {
    let mut follower = replica(1, 0);
    assert!(follower.propose(vec![Digest([1; 32])]).is_none());
    assert_eq!(follower.phase(), ProtoPhase::Init);
    follower.advance_init_phase();
    assert_eq!(follower.phase(), ProtoPhase::PrePreparing);
    let mut leader = replica(0, 3);
    let requests = vec![Digest([1; 32]), Digest([2; 32])];
    let m = leader.propose(requests.clone()).unwrap();
    assert_eq!(m.sequence_number(), SeqNo(3));
    assert_eq!(m.view(), SeqNo(0));
    assert!(m.batch_digest() == chain_digests(&requests));
    assert!(matches!(m.kind(), ConsensusMessageKind::PrePrepare { requests: r, .. } if r.len() == 2));
    assert_eq!(leader.phase(), ProtoPhase::PrePreparing);
    assert!(leader.propose(requests).is_none());
}

#[test]
fn the_primary_does_not_vote_prepare() {
    let mut c = replica(0, 0);
    let m = c.propose(vec![Digest([1; 32])]).unwrap();
    let (status, out) = c.process_message(header(0, 1), m, true);
    assert!(is_deciding(&status));
    assert!(out.is_none());
    assert_eq!(c.phase(), ProtoPhase::Preparing(0));
}

#[test]
fn a_proposal_of_a_replica_that_does_not_lead_is_dropped() {
    let mut c = replica(1, 0);
    c.advance_init_phase();
    let (status, out) = c.process_message(header(2, 1), pre_prepare(0, 0, vec![]), true);
    assert!(is_deciding(&status) && out.is_none());
    assert_eq!(c.phase(), ProtoPhase::PrePreparing);
    assert!(c.deciding_log().current_messages().is_empty());
}

#[test]
fn a_proposal_with_a_wrong_digest_is_dropped() {
    let mut c = replica(1, 0);
    c.advance_init_phase();
    let m = ConsensusMessage::new(
        SeqNo(0),
        SeqNo(0),
        ConsensusMessageKind::PrePrepare { digest: Digest([9; 32]), requests: vec![Digest([1; 32])] },
    );
    let (_, out) = c.process_message(header(0, 1), m, true);
    assert!(out.is_none());
    assert_eq!(c.phase(), ProtoPhase::PrePreparing);
}

#[test]
fn a_message_of_another_view_is_dropped() {
    let mut c = replica(1, 0);
    c.advance_init_phase();
    let (_, out) = c.process_message(header(0, 1), pre_prepare(0, 1, vec![]), true);
    assert!(out.is_none());
    assert_eq!(c.phase(), ProtoPhase::PrePreparing);
    assert_eq!(c.tbo_queue().waiting(ConsensusPhaseKind::PrePrepare, 0), 0);
}

#[test]
fn the_wire_digest_of_the_proposal_must_be_persisted() {
    let mut c = replica(1, 0);
    into_preparing(&mut c, 0);
    assert_eq!(c.deciding_log().current_messages().len(), 1);
    assert!(c.deciding_log().current_messages()[0] == Digest([1; 32]));
}

#[test]
fn quorum_of_prepares_and_commits_decides() {
    let mut c = replica(1, 0);
    let batch = into_preparing(&mut c, 0);
    for (i, from) in [1u32, 2].iter().enumerate() {
        let (status, out) = c.process_message(header(*from, 10 + *from as u8), prepare(0, 0, batch), true);
        assert!(is_deciding(&status) && out.is_none());
        assert_eq!(c.phase(), ProtoPhase::Preparing(i + 1));
    }
    let (status, out) = c.process_message(header(3, 13), prepare(0, 0, batch), true);
    assert!(is_deciding(&status));
    let vote = out.unwrap();
    assert_eq!(vote.phase_kind(), ConsensusPhaseKind::Commit);
    assert!(vote.batch_digest() == batch);
    assert_eq!(c.phase(), ProtoPhase::Committing(0));
    c.process_message(header(0, 20), commit(0, 0, batch), true);
    c.process_message(header(1, 21), commit(0, 0, batch), true);
    assert_eq!(c.phase(), ProtoPhase::Committing(2));
    assert!(c.finalize_batch().is_none());
    let (status, out) = c.process_message(header(2, 22), commit(0, 0, batch), true);
    assert!(out.is_none());
    assert!(matches!(status, ConsensusStatus::Decided(d) if d == batch));
    assert_eq!(c.phase(), ProtoPhase::Decided);
    let done = c.finalize_batch().unwrap();
    assert!(done.batch_digest == batch);
    assert_eq!(done.request_digests.len(), 1);
    assert!(done.request_digests[0] == Digest([0x11; 32]));
    assert_eq!(done.messages_to_persist.len(), 7);
    assert!(done.messages_to_persist[0] == Digest([1; 32]));
    assert!(c.finalize_batch().is_none());
    c.next_instance();
    assert_eq!(c.phase(), ProtoPhase::Init);
    assert_eq!(c.sequence_number(), SeqNo(1));
}

#[test]
fn a_second_vote_of_a_replica_is_not_counted() {
    let mut c = replica(1, 0);
    let batch = into_preparing(&mut c, 0);
    c.process_message(header(2, 12), prepare(0, 0, batch), true);
    let (status, out) = c.process_message(header(2, 13), prepare(0, 0, batch), true);
    assert!(matches!(status, ConsensusStatus::VotedTwice(NodeId(2))));
    assert!(out.is_none());
    assert_eq!(c.phase(), ProtoPhase::Preparing(1));
}

#[test]
fn a_vote_for_another_batch_is_not_counted() {
    let mut c = replica(1, 0);
    into_preparing(&mut c, 0);
    let (status, out) = c.process_message(header(2, 12), prepare(0, 0, Digest([0xee; 32])), true);
    assert!(is_deciding(&status) && out.is_none());
    assert_eq!(c.phase(), ProtoPhase::Preparing(0));
}

#[test]
fn a_vote_of_a_client_is_not_counted() {
    let mut c = replica(1, 0);
    let batch = into_preparing(&mut c, 0);
    c.process_message(header(1000, 12), prepare(0, 0, batch), true);
    assert_eq!(c.phase(), ProtoPhase::Preparing(0));
}

#[test]
fn a_prepare_waits_while_the_requests_are_missing() {
    let mut c = replica(1, 0);
    let batch = into_preparing(&mut c, 0);
    let (status, out) = c.process_message(header(2, 12), prepare(0, 0, batch), false);
    assert!(is_deciding(&status) && out.is_none());
    assert_eq!(c.phase(), ProtoPhase::Preparing(0));
    assert_eq!(c.tbo_queue().waiting(ConsensusPhaseKind::Prepare, 0), 1);
    c.signal();
    assert!(matches!(c.poll(false), PollStatus::Recv));
    c.signal();
    assert!(matches!(c.poll(true), PollStatus::NextMessage(_, _)));
}

#[test]
fn an_equivocating_primary_gets_no_quorum() {
    let a = vec![Digest([0xa; 32])];
    let b = vec![Digest([0xb; 32])];
    let batch_a = chain_digests(&vec![chain_digests(&a)]);
    let batch_b = chain_digests(&vec![chain_digests(&b)]);
    let mut r1 = replica(1, 0);
    let mut r3 = replica(3, 0);
    r1.advance_init_phase();
    r3.advance_init_phase();
    let vote1 = r1.process_message(header(0, 1), pre_prepare(0, 0, a), true).1.unwrap();
    let vote3 = r3.process_message(header(0, 2), pre_prepare(0, 0, b), true).1.unwrap();
    assert!(vote1.batch_digest() == batch_a);
    assert!(vote3.batch_digest() == batch_b);
    r1.process_message(header(1, 11), prepare(0, 0, batch_a), true);
    r1.process_message(header(2, 12), prepare(0, 0, batch_a), true);
    let (_, out) = r1.process_message(header(3, 13), prepare(0, 0, batch_b), true);
    assert!(out.is_none());
    assert_eq!(r1.phase(), ProtoPhase::Preparing(2));
    r3.process_message(header(1, 11), prepare(0, 0, batch_a), true);
    r3.process_message(header(2, 12), prepare(0, 0, batch_a), true);
    r3.process_message(header(3, 13), prepare(0, 0, batch_b), true);
    assert_eq!(r3.phase(), ProtoPhase::Preparing(1));
}

#[test]
fn installing_a_later_view_restarts_the_instance() {
    let mut c = replica(1, 4);
    into_preparing(&mut c, 4);
    assert!(!c.install_view(ViewInfo::new(SeqNo(0), 4, 1).unwrap()));
    assert_eq!(c.phase(), ProtoPhase::Preparing(0));
    assert!(c.install_view(ViewInfo::new(SeqNo(1), 4, 1).unwrap()));
    assert_eq!(c.phase(), ProtoPhase::Init);
    assert_eq!(c.sequence_number(), SeqNo(4));
    assert_eq!(c.view_info().leader(), NodeId(1));
    assert!(c.tbo_queue().is_signalled());
}

#[test]
fn installing_a_sequence_number_drops_what_was_queued() {
    let mut c = replica(1, 0);
    c.process_message(header(0, 1), pre_prepare(1, 0, vec![]), true);
    c.install_sequence_number(SeqNo(40));
    assert_eq!(c.sequence_number(), SeqNo(40));
    assert_eq!(c.phase(), ProtoPhase::Init);
    assert_eq!(c.tbo_queue().waiting(ConsensusPhaseKind::PrePrepare, 1), 0);
}

#[test]
fn every_leader_has_to_propose_before_the_prepare_phase() {
    let view = ViewInfo::with_leaders(SeqNo(0), 4, 1, 2).unwrap();
    let mut c = Consensus::new(NodeId(2), view, SeqNo(0));
    c.advance_init_phase();
    let low = vec![Digest([0x01; 32])];
    let high = vec![Digest([0xf1; 32])];
    let (_, out) = c.process_message(header(0, 1), pre_prepare(0, 0, low.clone()), true);
    assert!(out.is_none());
    assert_eq!(c.phase(), ProtoPhase::PrePreparing);
    assert!(c.deciding_log().current_digest().is_none());
    let (_, out) = c.process_message(header(0, 2), pre_prepare(0, 0, low.clone()), true);
    assert!(out.is_none());
    let (_, out) = c.process_message(header(1, 3), pre_prepare(0, 0, low.clone()), true);
    assert!(out.is_none(), "a request outside the slice of the leader is refused");
    let (_, out) = c.process_message(header(1, 4), pre_prepare(0, 0, high.clone()), true);
    let vote = out.unwrap();
    let expected = chain_digests(&vec![chain_digests(&low), chain_digests(&high)]);
    assert!(vote.batch_digest() == expected);
    assert_eq!(c.phase(), ProtoPhase::Preparing(0));
}

#[test]
fn a_replica_keeps_to_the_batch_it_voted_to_commit() {
    let mut c = replica(2, 0);
    let batch = into_preparing(&mut c, 0);
    assert!(c.committed().is_none());
    for from in [1u32, 2, 3] {
        c.process_message(header(from, 10 + from as u8), prepare(0, 0, batch), true);
    }
    assert_eq!(c.phase(), ProtoPhase::Committing(0));
    assert!(matches!(c.committed(), Some((SeqNo(0), d)) if d == batch));
    assert!(c.install_view(ViewInfo::new(SeqNo(1), 4, 1).unwrap()));
    assert!(matches!(c.committed(), Some((SeqNo(0), d)) if d == batch));
    c.advance_init_phase();
    let other = vec![Digest([0x22; 32])];
    let (status, out) = c.process_message(header(1, 30), pre_prepare(0, 1, other), true);
    assert!(is_deciding(&status) && out.is_none());
    assert_eq!(c.phase(), ProtoPhase::PrePreparing);
    assert!(c.deciding_log().current_digest().is_none());
    assert!(c.deciding_log().current_messages().is_empty());
    let same = vec![Digest([0x11; 32])];
    let (_, out) = c.process_message(header(1, 31), pre_prepare(0, 1, same), true);
    assert!(out.unwrap().batch_digest() == batch);
    assert_eq!(c.phase(), ProtoPhase::Preparing(0));
    c.next_instance();
    assert!(c.committed().is_none());
}
