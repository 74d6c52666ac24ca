use febft::communication::message::{ConsensusMessage, ConsensusMessageKind, Header, StoredMessage};
use febft::crypto::hash::{chain_digests, Digest};
use febft::crypto::signature::Signature;
use febft::error::ErrorKind;
use febft::msg_log::decided_log::DecidedLog;
use febft::msg_log::deciding_log::{BatchMeta, CompletedBatch, DecidingLog};
use febft::msg_log::pending_decision::PendingRequestLog;
use febft::msg_log::persistent::{Decision, DurabilityBarrier, Info};
use febft::node_id::NodeId;
use febft::ordering::SeqNo;
use febft::view::ViewInfo;

fn stored(from: u32, tag: u8, requests: &Vec<Digest>) -> StoredMessage<ConsensusMessage> {
    let header = Header {
        version: 0,
        flags: 0,
        from,
        to: 0,
        nonce: 0,
        length: 0,
        digest: Digest([tag; 32]),
        signature: Signature([0; 64]),
    };
    let kind = ConsensusMessageKind::PrePrepare { digest: chain_digests(requests), requests: requests.clone() };
    StoredMessage::new(header, ConsensusMessage::new(SeqNo(0), SeqNo(0), kind))
}

fn two_leaders() -> DecidingLog {
    let mut log = DecidingLog::new();
    log.processing_new_round(&ViewInfo::with_leaders(SeqNo(0), 4, 1, 2).unwrap());
    log
}

#[test]
fn new_log_processes_nothing() {
    let log = DecidingLog::new();
    assert!(!log.is_currently_processing());
    assert!(log.current_digest().is_none());
    assert!(log.current_batch_size().is_none());
    assert!(log.current_requests().is_empty());
    assert!(log.current_messages().is_empty());
    assert!(log.pre_prepare_message(0).is_none());
    assert_eq!(*log.batch_meta(), BatchMeta::new());
}

#[test]
fn a_round_collects_the_proposal_of_every_leader() {
    let mut log = two_leaders();
    assert!(log.is_currently_processing());
    assert_eq!(log.current_batch_size(), Some(0));
    assert_eq!(log.get_index_for_leader(NodeId(1)), Some(1));
    assert_eq!(log.get_index_for_leader(NodeId(2)), None);
    let high = vec![Digest([0xf0; 32]), Digest([0xf1; 32])];
    let low = vec![Digest([0x01; 32])];
    let r = log.processing_batch_request(stored(1, 7, &high), chain_digests(&high), high.clone()).unwrap();
    assert!(r.is_none());
    assert!(log.calculate_instance_digest().is_none());
    assert_eq!(log.current_batch_size(), Some(2));
    assert!(log.pre_prepare_message(1).is_some());
    assert!(log.pre_prepare_message(0).is_none());
    let r = log.processing_batch_request(stored(0, 8, &low), chain_digests(&low), low.clone()).unwrap();
    let expected = chain_digests(&vec![chain_digests(&low), chain_digests(&high)]);
    assert!(r.unwrap() == expected);
    assert!(log.current_digest().unwrap() == expected);
    assert_eq!(log.current_batch_size(), Some(3));
    assert_eq!(log.current_requests().len(), 3);
    assert!(log.current_requests()[0] == Digest([0xf0; 32]));
    assert_eq!(log.current_messages(), &vec![Digest([7; 32]), Digest([8; 32])]);
    assert_eq!(log.batch_meta().batch_size, 3);
    assert_eq!(log.batch_meta().pre_prepares_received, 2);
}

#[test]
fn refused_proposals_leave_the_log_unchanged() {
    let low = vec![Digest([0x01; 32])];
    let high = vec![Digest([0xf0; 32])];
    let mut log = two_leaders();
    let e = log.processing_batch_request(stored(2, 1, &low), chain_digests(&low), low.clone()).unwrap_err();
    assert_eq!(e.get_kind(), ErrorKind::MsgLogDecidingLog);
    let e = log.processing_batch_request(stored(0, 1, &high), chain_digests(&high), high.clone()).unwrap_err();
    assert_eq!(e.get_kind(), ErrorKind::MsgLogDecidingLog);
    let e = log.processing_batch_request(stored(0, 1, &low), Digest([9; 32]), low.clone()).unwrap_err();
    assert_eq!(e.get_kind(), ErrorKind::MsgLogDecidingLog);
    assert!(log.current_messages().is_empty());
    assert_eq!(log.current_batch_size(), Some(0));
    log.processing_batch_request(stored(0, 1, &low), chain_digests(&low), low.clone()).unwrap();
    let e = log.processing_batch_request(stored(0, 2, &low), chain_digests(&low), low.clone()).unwrap_err();
    assert_eq!(e.get_kind(), ErrorKind::MsgLogDecidingLog);
    assert_eq!(log.current_messages().len(), 1);
}

#[test]
fn finishing_hands_out_the_batch_and_empties_the_log() {
    let mut log = two_leaders();
    assert!(log.finish_processing_batch().is_none());
    let low = vec![Digest([0x01; 32])];
    let high = vec![Digest([0xf0; 32])];
    log.processing_batch_request(stored(1, 7, &high), chain_digests(&high), high.clone()).unwrap();
    assert!(log.finish_processing_batch().is_none());
    assert!(log.is_currently_processing());
    log.processing_batch_request(stored(0, 8, &low), chain_digests(&low), low.clone()).unwrap();
    log.register_consensus_message(Digest([9; 32]));
    let batch = log.finish_processing_batch().unwrap();
    assert!(batch.batch_digest == chain_digests(&vec![chain_digests(&low), chain_digests(&high)]));
    assert_eq!(batch.pre_prepare_ordering.len(), 2);
    assert!(batch.pre_prepare_ordering[0] == chain_digests(&low));
    assert_eq!(batch.pre_prepare_messages[0].header().from, 0);
    assert_eq!(batch.pre_prepare_messages[1].header().from, 1);
    assert_eq!(batch.request_digests, vec![Digest([0x01; 32]), Digest([0xf0; 32])]);
    assert_eq!(batch.messages_to_persist, vec![Digest([7; 32]), Digest([8; 32]), Digest([9; 32])]);
    assert_eq!(batch.batch_meta.batch_size, 2);
    assert!(!log.is_currently_processing());
    assert!(log.current_messages().is_empty());
    let parts = batch.into();
    assert_eq!(parts.1.len(), 2);
    assert_eq!(parts.3.len(), 2);
}

#[test]
fn reset_forgets_the_round() {
    let mut log = two_leaders();
    log.register_consensus_message(Digest([9; 32]));
    log.reset();
    assert!(!log.is_currently_processing());
    assert!(log.current_messages().is_empty());
    assert!(log.get_index_for_leader(NodeId(0)).is_none());
}

fn batch(needed: Vec<Digest>) -> CompletedBatch {
    CompletedBatch {
        batch_digest: Digest([0; 32]),
        pre_prepare_ordering: vec![],
        pre_prepare_messages: vec![],
        requests_by_leader: vec![],
        request_digests: vec![],
        messages_to_persist: needed,
        batch_meta: BatchMeta::new(),
    }
}

#[test]
fn a_decision_waits_for_its_messages() {
    let mut barrier = DurabilityBarrier::new();
    assert!(barrier.next_executable().is_none());
    barrier.decided(Decision { seq: SeqNo(0), info: Info::Nil, batch: batch(vec![Digest([1; 32]), Digest([2; 32])]) });
    assert!(barrier.next_executable().is_none());
    barrier.acknowledge(Digest([2; 32]));
    assert!(barrier.next_executable().is_none());
    barrier.acknowledge(Digest([1; 32]));
    assert_eq!(barrier.waiting(), 1);
    assert_eq!(barrier.next_executable().unwrap().seq, SeqNo(0));
    assert_eq!(barrier.waiting(), 0);
    assert!(barrier.next_executable().is_none());
}

#[test]
fn a_decision_never_passes_an_older_one() {
    let mut barrier = DurabilityBarrier::new();
    barrier.decided(Decision { seq: SeqNo(0), info: Info::Nil, batch: batch(vec![Digest([1; 32])]) });
    barrier.decided(Decision { seq: SeqNo(1), info: Info::Nil, batch: batch(vec![Digest([2; 32])]) });
    barrier.decided(Decision { seq: SeqNo(2), info: Info::Nil, batch: batch(vec![]) });
    barrier.acknowledge(Digest([2; 32]));
    assert!(barrier.next_executable().is_none());
    barrier.acknowledge(Digest([1; 32]));
    assert_eq!(barrier.next_executable().unwrap().seq, SeqNo(0));
    assert_eq!(barrier.next_executable().unwrap().seq, SeqNo(1));
    assert_eq!(barrier.next_executable().unwrap().seq, SeqNo(2));
}

#[test]
fn a_checkpoint_begins_with_every_period() {
    let mut log = DecidedLog::new();
    assert_eq!(log.last_decision().last_seq, SeqNo(-1));
    assert_eq!(log.finalize_batch(SeqNo(0), Digest([0; 32])), Info::Nil);
    assert_eq!(log.finalize_batch(SeqNo(999), Digest([1; 32])), Info::Nil);
    assert_eq!(log.finalize_batch(SeqNo(1000), Digest([2; 32])), Info::BeginCheckpoint);
    assert_eq!(log.finalize_batch(SeqNo(1001), Digest([3; 32])), Info::Nil);
    assert_eq!(log.finalize_batch(SeqNo(2000), Digest([4; 32])), Info::BeginCheckpoint);
    assert_eq!(log.last_decision().last_seq, SeqNo(2000));
    assert_eq!(log.decisions().len(), 5);
    log.finalize_checkpoint(SeqNo(1000));
    let left: Vec<SeqNo> = log.decisions().iter().map(|d| d.last_seq).collect();
    assert_eq!(left, vec![SeqNo(1001), SeqNo(2000)]);
    log.install(SeqNo(3000), None);
    assert!(log.decisions().is_empty());
    assert_eq!(log.last_decision().last_seq, SeqNo(-1));
}

#[test]
fn pending_requests_are_kept_once_until_decided() {
    let mut log = PendingRequestLog::new();
    assert!(log.insert(Digest([1; 32])));
    assert!(!log.insert(Digest([1; 32])));
    assert!(log.insert(Digest([2; 32])));
    assert_eq!(log.len(), 2);
    assert!(log.has_request(&Digest([1; 32])));
    assert!(!log.has_request(&Digest([3; 32])));
    assert!(log.has_requests(&vec![Digest([2; 32]), Digest([1; 32])]));
    assert!(!log.has_requests(&vec![Digest([2; 32]), Digest([3; 32])]));
    assert!(log.has_requests(&vec![]));
    let pending = log.clone_pending_requests(&vec![Digest([3; 32]), Digest([2; 32])]);
    assert_eq!(pending, vec![Digest([2; 32])]);
    log.delete_decided(&vec![Digest([1; 32]), Digest([9; 32])]);
    assert_eq!(log.len(), 1);
    assert!(!log.has_request(&Digest([1; 32])));
}

#[test]
fn a_request_that_was_decided_is_not_taken_again() {
    let mut log = PendingRequestLog::new();
    log.insert(Digest([1; 32]));
    log.delete_decided(&vec![Digest([1; 32])]);
    assert!(log.was_decided(&Digest([1; 32])));
    assert!(!log.insert(Digest([1; 32])));
    assert_eq!(log.len(), 0);
    log.forget_decided();
    assert!(!log.was_decided(&Digest([1; 32])));
    assert!(log.insert(Digest([1; 32])));
}

#[test]
fn the_figures_about_a_batch_follow_the_round() {
    let mut log = two_leaders();
    assert_eq!(*log.batch_meta(), BatchMeta::new());
    log.register_consensus_message(Digest([9; 32]));
    assert_eq!(log.batch_meta().messages_registered, 1);
    let high = vec![Digest([0xf0; 32]), Digest([0xf1; 32])];
    let low = vec![Digest([0x01; 32])];
    log.processing_batch_request(stored(1, 7, &high), chain_digests(&high), high.clone()).unwrap();
    let figures = BatchMeta { batch_size: 2, pre_prepares_received: 1, messages_registered: 2 };
    assert_eq!(*log.batch_meta(), figures);
    assert!(log.finish_processing_batch().is_none());
    assert_eq!(*log.batch_meta(), figures);
    assert!(log.processing_batch_request(stored(1, 7, &high), chain_digests(&high), high.clone()).is_err());
    assert_eq!(*log.batch_meta(), figures);
    log.processing_batch_request(stored(0, 8, &low), chain_digests(&low), low.clone()).unwrap();
    let figures = BatchMeta { batch_size: 3, pre_prepares_received: 2, messages_registered: 3 };
    assert_eq!(*log.batch_meta(), figures);
    let batch = log.finish_processing_batch().unwrap();
    assert_eq!(batch.batch_meta, figures);
    assert_eq!(*log.batch_meta(), BatchMeta::new());
    log.register_consensus_message(Digest([9; 32]));
    log.reset();
    assert_eq!(*log.batch_meta(), BatchMeta::new());
}
