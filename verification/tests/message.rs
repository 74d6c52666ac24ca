use febft::communication::message::{
    signed_bytes_of, ConsensusMessage, ConsensusMessageKind, ConsensusPhaseKind, Header,
    StoredMessage, WireMessage, CURRENT_VERSION, HEADER_LENGTH,
};
use febft::crypto::hash::Digest;
use febft::crypto::signature::{KeyPair, Signature};
use febft::error::ErrorKind;
use febft::node_id::NodeId;
use febft::ordering::SeqNo;

fn sample_header() -> Header {
    Header {
        version: 0x0102,
        flags: 0x0304,
        from: 0x0506_0708,
        to: 0x090a_0b0c,
        nonce: 0x0d0e_0f10_1112_1314,
        length: 0x1516_1718,
        digest: Digest([0xaa; 32]),
        signature: Signature([0xbb; 64]),
    }
}

fn same(a: &Header, b: &Header) -> bool {
    a.version == b.version && a.flags == b.flags && a.from == b.from && a.to == b.to
        && a.nonce == b.nonce && a.length == b.length && a.digest == b.digest
        && a.signature.0 == b.signature.0
}

#[test]
fn header_layout_is_little_endian_in_field_order() {
    let bytes = sample_header().serialize();
    assert_eq!(bytes.len(), 120);
    assert_eq!(HEADER_LENGTH, 120);
    assert_eq!(Header::LENGTH, 120);
    assert_eq!(&bytes[0..2], &[0x02, 0x01]);
    assert_eq!(&bytes[2..4], &[0x04, 0x03]);
    assert_eq!(&bytes[4..8], &[0x08, 0x07, 0x06, 0x05]);
    assert_eq!(&bytes[8..12], &[0x0c, 0x0b, 0x0a, 0x09]);
    assert_eq!(&bytes[12..20], &[0x14, 0x13, 0x12, 0x11, 0x10, 0x0f, 0x0e, 0x0d]);
    assert_eq!(&bytes[20..24], &[0x18, 0x17, 0x16, 0x15]);
    assert_eq!(&bytes[24..56], &[0xaa; 32]);
    assert_eq!(&bytes[56..120], &[0xbb; 64]);
}

#[test]
fn header_round_trip() {
    let h = sample_header();
    let back = Header::deserialize_from(&h.serialize()).unwrap();
    assert!(same(&h, &back));
}

#[test]
fn any_120_bytes_are_a_header() {
    let raw: Vec<u8> = (0..120u32).map(|i| (i * 7 + 3) as u8).collect();
    let h = Header::deserialize_from(&raw).unwrap();
    assert_eq!(h.serialize(), raw);
}

#[test]
fn header_reads_only_its_first_120_bytes() {
    let mut raw = sample_header().serialize();
    raw.extend_from_slice(&[1, 2, 3]);
    assert!(same(&Header::deserialize_from(&raw).unwrap(), &sample_header()));
}

#[test]
fn short_buffer_is_no_header() {
    let e = Header::deserialize_from(&[0u8; 119]).err().unwrap();
    assert_eq!(e.get_kind(), ErrorKind::CommunicationSerialize);
}

#[test]
fn serialize_into_overwrites_the_front_of_the_buffer() {
    let h = sample_header();
    let mut buf = vec![0xffu8; 123];
    h.serialize_into(&mut buf).unwrap();
    assert_eq!(&buf[..120], &h.serialize()[..]);
    assert_eq!(&buf[120..], &[0xff, 0xff, 0xff]);
    let mut short = vec![9u8; 10];
    let e = h.serialize_into(&mut short).unwrap_err();
    assert_eq!(e.get_kind(), ErrorKind::CommunicationSerialize);
    assert_eq!(short, vec![9u8; 10]);
}

#[test]
fn header_getters() {
    let h = sample_header();
    assert_eq!(h.from(), NodeId(0x0506_0708));
    assert_eq!(h.to(), NodeId(0x090a_0b0c));
    assert_eq!(h.payload_length(), 0x1516_1718);
    assert_eq!(h.nonce(), 0x0d0e_0f10_1112_1314);
    assert!(*h.digest() == Digest([0xaa; 32]));
    assert_eq!(h.signature().0, [0xbb; 64]);
}

#[test]
fn new_wire_message_fills_the_header() {
    let payload = b"payload";
    let wm = WireMessage::new(NodeId(1), NodeId(2), payload, 77, None, None);
    let h = wm.header();
    assert_eq!(h.version, CURRENT_VERSION);
    assert_eq!(h.flags, 0);
    assert_eq!(h.from, 1);
    assert_eq!(h.to, 2);
    assert_eq!(h.nonce, 77);
    assert_eq!(h.length, 7);
    assert!(h.digest == Digest::of(payload));
    assert!(h.signature.is_zero());
    assert_eq!(wm.payload(), payload);
    assert!(wm.is_valid(None));
}

#[test]
fn new_wire_message_keeps_a_given_digest() {
    let wm = WireMessage::new(NodeId(1), NodeId(2), b"x", 0, Some(Digest([5; 32])), None);
    assert!(wm.header().digest == Digest([5; 32]));
}

#[test]
fn signed_wire_message_verifies() {
    let key = KeyPair::from_bytes(&[9u8; 32]).unwrap();
    let other = KeyPair::from_bytes(&[8u8; 32]).unwrap();
    let payload = b"request";
    let wm = WireMessage::new(NodeId(1), NodeId(2), payload, 5, None, Some(&key));
    assert!(!wm.header().signature.is_zero());
    assert!(wm.is_valid(Some(&key.public_key())));
    assert!(!wm.is_valid(Some(&other.public_key())));
    let covered = signed_bytes_of(wm.header());
    assert_eq!(covered.len(), 56 + 64 + 32);
    assert_eq!(&covered[56..120], &[0u8; 64]);
    assert!(key.verify(&covered, &wm.header().signature).is_ok());
}

#[test]
fn tampered_payload_does_not_verify() {
    let key = KeyPair::from_bytes(&[9u8; 32]).unwrap();
    let wm = WireMessage::new(NodeId(1), NodeId(2), b"request", 5, None, Some(&key));
    let (header, _) = wm.into_inner();
    let forged = WireMessage { header, payload: b"reQuest" };
    assert!(forged.is_valid(None));
    assert!(!forged.is_valid(Some(&key.public_key())));
}

#[test]
fn unsigned_message_does_not_verify_with_a_key() {
    let key = KeyPair::from_bytes(&[9u8; 32]).unwrap();
    let wm = WireMessage::new(NodeId(1), NodeId(2), b"request", 5, None, None);
    assert!(!wm.is_valid(Some(&key.public_key())));
}

#[test]
fn from_parts_checks_version_and_length() {
    let wm = WireMessage::new(NodeId(1), NodeId(2), b"abc", 0, None, None);
    let (header, payload) = wm.into_inner();
    assert!(WireMessage::from_parts(header, payload).is_ok());
    let e = WireMessage::from_parts(header, b"ab").err().unwrap();
    assert_eq!(e.get_kind(), ErrorKind::CommunicationSerialize);
    let mut wrong = header;
    wrong.version = CURRENT_VERSION + 1;
    assert!(WireMessage::from_parts(wrong, payload).is_err());
}

#[test]
fn consensus_message_accessors() {
    let d = Digest([1; 32]);
    let m = ConsensusMessage::new(SeqNo(3), SeqNo(1), ConsensusMessageKind::Prepare(d));
    assert_eq!(m.sequence_number(), SeqNo(3));
    assert_eq!(m.view(), SeqNo(1));
    assert_eq!(m.phase_kind(), ConsensusPhaseKind::Prepare);
    assert!(m.batch_digest() == d);
    let p = ConsensusMessage::new(
        SeqNo(3),
        SeqNo(1),
        ConsensusMessageKind::PrePrepare { digest: d, requests: vec![Digest([2; 32])] },
    );
    assert_eq!(p.phase_kind(), ConsensusPhaseKind::PrePrepare);
    let c = ConsensusMessage::new(SeqNo(3), SeqNo(1), ConsensusMessageKind::Commit(d));
    assert_eq!(c.phase_kind(), ConsensusPhaseKind::Commit);
    assert!(matches!(c.kind(), ConsensusMessageKind::Commit(_)));
}

#[test]
fn stored_message_keeps_header_and_message() {
    let s = StoredMessage::new(sample_header(), 42u32);
    assert!(same(s.header(), &sample_header()));
    assert_eq!(*s.message(), 42);
    let (h, m) = s.into_inner();
    assert!(same(&h, &sample_header()));
    assert_eq!(m, 42);
}
