use bytes::BytesMut;
use febft::communication::cpu_workers::{deserialize_message as read_payload, serialize_digest, serialize_digest_message};
use febft::communication::message::{ConsensusMessage, ConsensusMessageKind, WireMessage};
use febft::communication::serialize::{
    deserialize_message, is_encodable, is_well_formed, serialize_message, ReplyMessage, RequestMessage,
    SystemMessage,
};
use febft::crypto::hash::Digest;
use febft::error::ErrorKind;
use febft::node_id::NodeId;
use febft::observer::{ObserveEventKind, ObserverMessage};
use febft::ordering::SeqNo;
use febft::sync::{CollectData, LeaderCollects, ViewChangeMessage, ViewChangeMessageKind};

fn bytes_of(m: &SystemMessage) -> Vec<u8> {
    let mut out = Vec::new();
    serialize_message(m, &mut out).unwrap();
    out
}

fn samples() -> Vec<SystemMessage> {
    let d = |t: u8| Digest([t; 32]);
    let c = |s: i32, t: u8| CollectData { last_seq: SeqNo(s), last_digest: d(t) };
    let mut all = vec![
        SystemMessage::Request(RequestMessage { session_id: SeqNo(1), operation_id: SeqNo(-2), operation: b"op".to_vec() }),
        SystemMessage::Request(RequestMessage { session_id: SeqNo(0), operation_id: SeqNo(0), operation: vec![] }),
        SystemMessage::Reply(ReplyMessage { session_id: SeqNo(3), operation_id: SeqNo(4), payload: vec![9; 300] }),
        SystemMessage::Consensus(ConsensusMessage::new(SeqNo(5), SeqNo(6), ConsensusMessageKind::PrePrepare { digest: d(1), requests: vec![d(2), d(3)] })),
        SystemMessage::Consensus(ConsensusMessage::new(SeqNo(5), SeqNo(6), ConsensusMessageKind::PrePrepare { digest: d(1), requests: vec![] })),
        SystemMessage::Consensus(ConsensusMessage::new(SeqNo(i32::MAX), SeqNo(0), ConsensusMessageKind::Prepare(d(4)))),
        SystemMessage::Consensus(ConsensusMessage::new(SeqNo(7), SeqNo(8), ConsensusMessageKind::Commit(d(5)))),
        SystemMessage::ViewChange(ViewChangeMessage::new(SeqNo(1), ViewChangeMessageKind::Stop(vec![d(6)]))),
        SystemMessage::ViewChange(ViewChangeMessage::new(SeqNo(1), ViewChangeMessageKind::StopData(c(-1, 0)))),
        SystemMessage::ViewChange(ViewChangeMessage::new(SeqNo(2), ViewChangeMessageKind::Sync(LeaderCollects {
            chosen: c(9, 9),
            collects: vec![(NodeId(0), c(9, 9)), (NodeId(2), c(8, 8)), (NodeId(3), c(9, 9))],
        }))),
        SystemMessage::ForwardedRequest(NodeId(1001), RequestMessage { session_id: SeqNo(1), operation_id: SeqNo(2), operation: b"fwd".to_vec() }),
        SystemMessage::StateTransfer(vec![1, 2, 3, 4, 5]),
        SystemMessage::StateTransfer(vec![]),
        SystemMessage::Observer(ObserverMessage::ObserverRegister),
        SystemMessage::Observer(ObserverMessage::ObserverUnregister),
        SystemMessage::Observer(ObserverMessage::ObserverRegisterResponse(true)),
        SystemMessage::Observer(ObserverMessage::ObserverRegisterResponse(false)),
    ];
    for e in [
        ObserveEventKind::CheckpointStart(SeqNo(1)),
        ObserveEventKind::CheckpointEnd(SeqNo(2)),
        ObserveEventKind::Consensus(SeqNo(3)),
        ObserveEventKind::NormalPhase(SeqNo(4), SeqNo(5)),
        ObserveEventKind::ViewChangePhase,
        ObserveEventKind::CollabStateTransfer,
        ObserveEventKind::Prepare(SeqNo(6)),
        ObserveEventKind::Commit(SeqNo(7)),
        ObserveEventKind::Ready(SeqNo(8)),
        ObserveEventKind::Executed(SeqNo(9)),
    ] {
        all.push(SystemMessage::Observer(ObserverMessage::ObservedValue(e)));
    }
    all
}

#[test]
fn a_request_is_written_field_by_field() {
    let m = SystemMessage::Request(RequestMessage {
        session_id: SeqNo(1),
        operation_id: SeqNo(-2),
        operation: b"op".to_vec(),
    });
    assert_eq!(bytes_of(&m), vec![0, 1, 0, 0, 0, 0xfe, 0xff, 0xff, 0xff, 2, 0, 0, 0, b'o', b'p']);
}

#[test]
fn a_prepare_is_written_field_by_field() {
    let m = SystemMessage::Consensus(ConsensusMessage::new(
        SeqNo(5),
        SeqNo(6),
        ConsensusMessageKind::Prepare(Digest([0xab; 32])),
    ));
    let mut expected = vec![2, 5, 0, 0, 0, 6, 0, 0, 0, 1];
    expected.extend_from_slice(&[0xab; 32]);
    assert_eq!(bytes_of(&m), expected);
}

#[test]
fn a_sync_is_written_field_by_field() {
    let c = CollectData { last_seq: SeqNo(9), last_digest: Digest([9; 32]) };
    let m = SystemMessage::ViewChange(ViewChangeMessage::new(
        SeqNo(2),
        ViewChangeMessageKind::Sync(LeaderCollects { chosen: c, collects: vec![(NodeId(3), c)] }),
    ));
    let mut expected = vec![3, 2, 0, 0, 0, 2, 9, 0, 0, 0];
    expected.extend_from_slice(&[9; 32]);
    expected.extend_from_slice(&[1, 0, 0, 0, 3, 0, 0, 0, 9, 0, 0, 0]);
    expected.extend_from_slice(&[9; 32]);
    assert_eq!(bytes_of(&m), expected);
}

#[test]
fn what_is_written_is_read_back() {
    for m in samples() {
        assert!(is_encodable(&m));
        let bytes = bytes_of(&m);
        assert!(is_well_formed(&bytes));
        let back = deserialize_message(&bytes).unwrap();
        assert_eq!(format!("{:?}", back), format!("{:?}", m));
        assert_eq!(bytes_of(&back), bytes);
    }
}

#[test]
fn serializing_appends_to_the_buffer() {
    let m = SystemMessage::Observer(ObserverMessage::ObserverRegister);
    let mut out = vec![7, 7];
    serialize_message(&m, &mut out).unwrap();
    assert_eq!(out, vec![7, 7, 6, 0]);
}

#[test]
fn truncated_and_extended_payloads_are_refused() {
    for m in samples() {
        let bytes = bytes_of(&m);
        for cut in 0..bytes.len() {
            let e = deserialize_message(&bytes[..cut]).err().unwrap();
            assert_eq!(e.get_kind(), ErrorKind::CommunicationSerialize);
        }
        let mut longer = bytes.clone();
        longer.push(0);
        assert!(deserialize_message(&longer).is_err());
        assert!(!is_well_formed(&longer));
    }
}

#[test]
fn unknown_tags_and_kinds_are_refused() {
    assert!(deserialize_message(&[]).is_err());
    assert!(deserialize_message(&[7]).is_err());
    assert!(deserialize_message(&[255, 0, 0]).is_err());
    assert!(deserialize_message(&[6, 4]).is_err());
    assert!(deserialize_message(&[6, 1, 2]).is_err());
    assert!(deserialize_message(&[6, 3, 10, 0, 0, 0, 0]).is_err());
    let mut prepare = vec![2, 5, 0, 0, 0, 6, 0, 0, 0, 3];
    prepare.extend_from_slice(&[0xab; 32]);
    assert!(deserialize_message(&prepare).is_err());
    let mut stop_data = vec![3, 1, 0, 0, 0, 3, 0, 0, 0, 0];
    stop_data.extend_from_slice(&[0; 32]);
    assert!(deserialize_message(&stop_data).is_err());
}

#[test]
fn a_list_must_have_as_many_items_as_it_announces() {
    let mut stop = vec![3, 1, 0, 0, 0, 0, 2, 0, 0, 0];
    stop.extend_from_slice(&[1; 32]);
    assert!(deserialize_message(&stop).is_err());
    stop.extend_from_slice(&[2; 32]);
    assert!(matches!(deserialize_message(&stop).unwrap(),
        SystemMessage::ViewChange(m) if matches!(&m.kind, ViewChangeMessageKind::Stop(r) if r.len() == 2)));
    assert!(deserialize_message(&[5, 3, 0, 0, 0, 1, 2]).is_err());
    assert!(deserialize_message(&[5, 2, 0, 0, 0, 1, 2]).is_ok());
}

#[test]
fn a_worker_writes_and_digests_a_message() {
    let m = SystemMessage::StateTransfer(vec![1, 2, 3]);
    let (bytes, digest) = serialize_digest_message(&m).ok().unwrap();
    assert_eq!(&bytes[..], &[5, 3, 0, 0, 0, 1, 2, 3]);
    assert!(digest == Digest::of(&[5, 3, 0, 0, 0, 1, 2, 3]));
    let mut buf = vec![0xff];
    let digest = serialize_digest(&m, &mut buf).unwrap();
    assert_eq!(buf, vec![0xff, 5, 3, 0, 0, 0, 1, 2, 3]);
    assert!(digest == Digest::of(&[5, 3, 0, 0, 0, 1, 2, 3]));
}

#[test]
fn a_worker_reads_as_many_bytes_as_the_header_announces() {
    let m = SystemMessage::StateTransfer(vec![1, 2, 3]);
    let payload = bytes_of(&m);
    let header = WireMessage::new(NodeId(1), NodeId(2), &payload, 0, None, None).header;
    let mut buf = BytesMut::from(&payload[..]);
    buf.extend_from_slice(&[9, 9, 9]);
    let (back, buf) = read_payload(header, buf).ok().unwrap();
    assert!(matches!(back, SystemMessage::StateTransfer(b) if b == vec![1, 2, 3]));
    assert_eq!(buf.len(), payload.len() + 3);
    let short = BytesMut::from(&payload[..payload.len() - 1]);
    assert_eq!(read_payload(header, short).err().unwrap().get_kind(), ErrorKind::CommunicationSerialize);
    let garbage = BytesMut::from(&[9u8; 8][..]);
    assert!(read_payload(header, garbage).is_err());
}
