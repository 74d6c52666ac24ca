//! The payloads of the wire messages: how a system message is written as
//! bytes, and how it is read back.
//!
//! A payload begins with a tag. All integers are written in four bytes,
//! little endian; a digest is written as its 32 bytes; a list is written as
//! the number of its items, followed by the items.

use crate::communication::message::{extend, ConsensusMessage, ConsensusMessageKind};
use crate::crypto::hash::{array32_from, concat_digests, lemma_digest_ext, Digest};
use crate::error::{Error, ErrorKind};
use crate::node_id::NodeId;
use crate::observer::{ObserveEventKind, ObserverMessage};
use crate::ordering::SeqNo;
use crate::sync::{CollectData, LeaderCollects, ViewChangeMessage, ViewChangeMessageKind};
use vstd::bytes::{
    lemma_auto_spec_u32_to_from_le_bytes, spec_u32_from_le_bytes, spec_u32_to_le_bytes,
    u32_from_le_bytes, u32_to_le_bytes,
};
use vstd::prelude::*;

verus! {

/// A request of a client.
#[derive(Clone, Debug)]
pub struct RequestMessage {
    /// The session of the client.
    pub session_id: SeqNo,
    /// The number of the operation within the session.
    pub operation_id: SeqNo,
    /// The operation, as the application wrote it.
    pub operation: Vec<u8>,
}

/// The reply to a request of a client.
#[derive(Clone, Debug)]
pub struct ReplyMessage {
    /// The session of the client.
    pub session_id: SeqNo,
    /// The number of the operation within the session.
    pub operation_id: SeqNo,
    /// The reply, as the application wrote it.
    pub payload: Vec<u8>,
}

/// A message between the nodes of the system.
#[derive(Clone, Debug)]
pub enum SystemMessage {
    /// A request of a client.
    Request(RequestMessage),
    /// The reply to a request.
    Reply(ReplyMessage),
    /// A message of the consensus.
    Consensus(ConsensusMessage),
    /// A message of the view change.
    ViewChange(ViewChangeMessage),
    /// A request of the client with this id, forwarded by a replica.
    ForwardedRequest(NodeId, RequestMessage),
    /// A message of the state transfer, which the ordering protocol does not
    /// read.
    StateTransfer(Vec<u8>),
    /// A message to or from an observer.
    Observer(ObserverMessage),
}

/// The four bytes of a sequence number.
pub open spec fn enc_seq(s: SeqNo) -> Seq<u8> {
    spec_u32_to_le_bytes(s.0 as u32)
}

/// The bytes of a byte string: its length, then the string.
pub open spec fn enc_bytes(b: Seq<u8>) -> Seq<u8> {
    spec_u32_to_le_bytes(b.len() as u32) + b
}

/// The bytes of a list of digests: their number, then the digests.
pub open spec fn enc_digests(ds: Seq<Digest>) -> Seq<u8> {
    spec_u32_to_le_bytes(ds.len() as u32) + concat_digests(ds)
}

/// The 36 bytes of a decision: its instance, then its digest.
pub open spec fn enc_collect(c: CollectData) -> Seq<u8> {
    enc_seq(c.last_seq) + c.last_digest@
}

/// The bytes of the decisions collected, 40 for each: the sender, then the
/// decision.
pub open spec fn enc_collects(cs: Seq<(NodeId, CollectData)>) -> Seq<u8>
    decreases cs.len(),
{
    if cs.len() == 0 {
        Seq::empty()
    } else {
        enc_collects(cs.drop_last()) + spec_u32_to_le_bytes(cs.last().0.0) + enc_collect(cs.last().1)
    }
}

/// The bytes of a request or of a reply: session, operation number, and
/// the bytes of the application.
pub open spec fn enc_request(session: SeqNo, operation: SeqNo, body: Seq<u8>) -> Seq<u8> {
    enc_seq(session) + enc_seq(operation) + enc_bytes(body)
}

/// The bytes of a consensus message: instance, view, the kind, and what the
/// kind carries.
pub open spec fn enc_consensus(m: ConsensusMessage) -> Seq<u8> {
    enc_seq(m.seq) + enc_seq(m.view) + (match m.kind {
        ConsensusMessageKind::PrePrepare { digest, requests } => seq![0u8] + digest@ + enc_digests(
            requests@,
        ),
        ConsensusMessageKind::Prepare(d) => seq![1u8] + d@,
        ConsensusMessageKind::Commit(d) => seq![2u8] + d@,
    })
}

/// The bytes of a view change message: the view, the kind, and what the
/// kind carries.
pub open spec fn enc_view_change(m: ViewChangeMessage) -> Seq<u8> {
    enc_seq(m.view) + (match m.kind {
        ViewChangeMessageKind::Stop(requests) => seq![0u8] + enc_digests(requests@),
        ViewChangeMessageKind::StopData(c) => seq![1u8] + enc_collect(c),
        ViewChangeMessageKind::Sync(lc) => seq![2u8] + enc_collect(lc.chosen) + spec_u32_to_le_bytes(
            lc.collects@.len() as u32,
        ) + enc_collects(lc.collects@),
    })
}

/// The bytes of an event: its kind, and the sequence numbers it carries.
pub open spec fn enc_event(e: ObserveEventKind) -> Seq<u8> {
    match e {
        ObserveEventKind::CheckpointStart(s) => seq![0u8] + enc_seq(s),
        ObserveEventKind::CheckpointEnd(s) => seq![1u8] + enc_seq(s),
        ObserveEventKind::Consensus(s) => seq![2u8] + enc_seq(s),
        ObserveEventKind::NormalPhase(v, s) => seq![3u8] + enc_seq(v) + enc_seq(s),
        ObserveEventKind::ViewChangePhase => seq![4u8],
        ObserveEventKind::CollabStateTransfer => seq![5u8],
        ObserveEventKind::Prepare(s) => seq![6u8] + enc_seq(s),
        ObserveEventKind::Commit(s) => seq![7u8] + enc_seq(s),
        ObserveEventKind::Ready(s) => seq![8u8] + enc_seq(s),
        ObserveEventKind::Executed(s) => seq![9u8] + enc_seq(s),
    }
}

/// The bytes of an observer message.
pub open spec fn enc_observer(m: ObserverMessage) -> Seq<u8> {
    match m {
        ObserverMessage::ObserverRegister => seq![0u8],
        ObserverMessage::ObserverRegisterResponse(ok) => seq![1u8, if ok { 1u8 } else { 0u8 }],
        ObserverMessage::ObserverUnregister => seq![2u8],
        ObserverMessage::ObservedValue(e) => seq![3u8] + enc_event(e),
    }
}

/// The payload of a system message: its tag, then the bytes of the message.
pub open spec fn encode(m: SystemMessage) -> Seq<u8> {
    match m {
        SystemMessage::Request(r) => seq![0u8] + enc_request(
            r.session_id,
            r.operation_id,
            r.operation@,
        ),
        SystemMessage::Reply(r) => seq![1u8] + enc_request(r.session_id, r.operation_id, r.payload@),
        SystemMessage::Consensus(c) => seq![2u8] + enc_consensus(c),
        SystemMessage::ViewChange(v) => seq![3u8] + enc_view_change(v),
        SystemMessage::ForwardedRequest(from, r) => seq![4u8] + spec_u32_to_le_bytes(from.0)
            + enc_request(r.session_id, r.operation_id, r.operation@),
        SystemMessage::StateTransfer(b) => seq![5u8] + enc_bytes(b@),
        SystemMessage::Observer(o) => seq![6u8] + enc_observer(o),
    }
}

/// Whether a message can be written: the length of each of its lists fits
/// in 32 bits.
pub open spec fn encodable(m: SystemMessage) -> bool {
    match m {
        SystemMessage::Request(r) => r.operation@.len() <= u32::MAX,
        SystemMessage::Reply(r) => r.payload@.len() <= u32::MAX,
        SystemMessage::Consensus(c) => match c.kind {
            ConsensusMessageKind::PrePrepare { requests, .. } => requests@.len() <= u32::MAX,
            _ => true,
        },
        SystemMessage::ViewChange(v) => match v.kind {
            ViewChangeMessageKind::Stop(requests) => requests@.len() <= u32::MAX,
            ViewChangeMessageKind::StopData(_) => true,
            ViewChangeMessageKind::Sync(lc) => lc.collects@.len() <= u32::MAX,
        },
        SystemMessage::ForwardedRequest(_, r) => r.operation@.len() <= u32::MAX,
        SystemMessage::StateTransfer(b) => b@.len() <= u32::MAX,
        SystemMessage::Observer(_) => true,
    }
}

/// The number that the four bytes of `b` from `at` on stand for.
pub open spec fn u32_at(b: Seq<u8>, at: int) -> u32 {
    spec_u32_from_le_bytes(b.subrange(at, at + 4))
}

/// Whether `b` is an event: a known kind, followed by exactly the sequence
/// numbers that it carries.
pub open spec fn event_formed(b: Seq<u8>) -> bool {
    &&& b.len() >= 1
    &&& b[0] <= 9
    &&& b.len() == (if b[0] == 3 {
        9int
    } else if b[0] == 4 || b[0] == 5 {
        1int
    } else {
        5int
    })
}

/// The grammar of payloads: whether `b` is the payload of a system message.
/// It has a known tag; what follows has the length that the message of the
/// tag has, where its last part is a list, with exactly as many items as
/// the list announces.
pub open spec fn well_formed(b: Seq<u8>) -> bool {
    &&& b.len() >= 1
    &&& match b[0] {
        0u8 | 1u8 => b.len() >= 13 && b.len() - 13 == u32_at(b, 9),
        2u8 => b.len() >= 10 && (match b[9] {
            0u8 => b.len() >= 46 && b.len() - 46 == 32 * u32_at(b, 42),
            1u8 | 2u8 => b.len() == 42,
            _ => false,
        }),
        3u8 => b.len() >= 6 && (match b[5] {
            0u8 => b.len() >= 10 && b.len() - 10 == 32 * u32_at(b, 6),
            1u8 => b.len() == 42,
            2u8 => b.len() >= 46 && b.len() - 46 == 40 * u32_at(b, 42),
            _ => false,
        }),
        4u8 => b.len() >= 17 && b.len() - 17 == u32_at(b, 13),
        5u8 => b.len() >= 5 && b.len() - 5 == u32_at(b, 1),
        6u8 => b.len() >= 2 && (match b[1] {
            0u8 | 2u8 => b.len() == 2,
            1u8 => b.len() == 3 && b[2] <= 1,
            3u8 => event_formed(b.skip(2)),
            _ => false,
        }),
        _ => false,
    }
}

/// The list of digests has 32 bytes for each digest.
pub proof fn lemma_concat_len(ds: Seq<Digest>)
    ensures
        concat_digests(ds).len() == 32 * ds.len(),
    decreases ds.len(),
{
    if ds.len() > 0 {
        lemma_concat_len(ds.drop_last());
    }
}

/// The decisions collected have 40 bytes for each decision.
pub proof fn lemma_collects_len(cs: Seq<(NodeId, CollectData)>)
    ensures
        enc_collects(cs).len() == 40 * cs.len(),
    decreases cs.len(),
{
    lemma_auto_spec_u32_to_from_le_bytes();
    if cs.len() > 0 {
        lemma_collects_len(cs.drop_last());
    }
}

/// Every message that can be written is written as a payload of the
/// grammar: what `serialize_message` writes, `deserialize_message` reads.
pub proof fn lemma_encode_well_formed(m: SystemMessage)
    requires
        encodable(m),
    ensures
        well_formed(encode(m)),
{
    lemma_auto_spec_u32_to_from_le_bytes();
    let b = encode(m);
    match m {
        SystemMessage::Request(r) => {
            assert(b.subrange(9, 13) == spec_u32_to_le_bytes(r.operation@.len() as u32));
        },
        SystemMessage::Reply(r) => {
            assert(b.subrange(9, 13) == spec_u32_to_le_bytes(r.payload@.len() as u32));
        },
        SystemMessage::Consensus(c) => {
            match c.kind {
                ConsensusMessageKind::PrePrepare { digest, requests } => {
                    lemma_concat_len(requests@);
                    assert(b.subrange(42, 46) == spec_u32_to_le_bytes(requests@.len() as u32));
                },
                ConsensusMessageKind::Prepare(d) => {},
                ConsensusMessageKind::Commit(d) => {},
            }
        },
        SystemMessage::ViewChange(v) => {
            match v.kind {
                ViewChangeMessageKind::Stop(requests) => {
                    lemma_concat_len(requests@);
                    assert(b.subrange(6, 10) == spec_u32_to_le_bytes(requests@.len() as u32));
                },
                ViewChangeMessageKind::StopData(c) => {},
                ViewChangeMessageKind::Sync(lc) => {
                    lemma_collects_len(lc.collects@);
                    assert(b.subrange(42, 46) == spec_u32_to_le_bytes(lc.collects@.len() as u32));
                },
            }
        },
        SystemMessage::ForwardedRequest(from, r) => {
            assert(b.subrange(13, 17) == spec_u32_to_le_bytes(r.operation@.len() as u32));
        },
        SystemMessage::StateTransfer(s) => {
            assert(b.subrange(1, 5) == spec_u32_to_le_bytes(s@.len() as u32));
        },
        SystemMessage::Observer(o) => {
            match o {
                ObserverMessage::ObservedValue(e) => {
                    let tail = b.skip(2);
                    assert(tail == enc_event(e));
                },
                _ => {},
            }
        },
    }
}

/// Appends the four bytes of a number.
fn put_u32(out: &mut Vec<u8>, x: u32)
    ensures
        final(out)@ == old(out)@ + spec_u32_to_le_bytes(x),
{
    let bytes = u32_to_le_bytes(x);
    extend(out, bytes.as_slice());
}

/// Appends the four bytes of a sequence number.
fn put_seq(out: &mut Vec<u8>, s: SeqNo)
    ensures
        final(out)@ == old(out)@ + enc_seq(s),
{
    #[verifier::truncate]
    let bits: u32 = s.0 as u32;
    put_u32(out, bits);
}

/// Appends a byte string with its length.
fn put_bytes(out: &mut Vec<u8>, b: &Vec<u8>)
    requires
        b@.len() <= u32::MAX,
    ensures
        final(out)@ == old(out)@ + enc_bytes(b@),
{
    put_u32(out, b.len() as u32);
    extend(out, b.as_slice());
}

/// Appends a list of digests with their number.
fn put_digests(out: &mut Vec<u8>, ds: &Vec<Digest>)
    requires
        ds@.len() <= u32::MAX,
    ensures
        final(out)@ == old(out)@ + enc_digests(ds@),
{
    put_u32(out, ds.len() as u32);
    let ghost start = out@;
    let mut i: usize = 0;
    while i < ds.len()
        invariant
            i <= ds.len(),
            out@ == start + concat_digests(ds@.take(i as int)),
        decreases ds.len() - i,
    {
        ds[i].append_to(out);
        assert(ds@.take(i + 1).drop_last() == ds@.take(i as int));
        i += 1;
    }
    assert(ds@.take(i as int) == ds@);
}

/// Appends the 36 bytes of a decision.
fn put_collect(out: &mut Vec<u8>, c: &CollectData)
    ensures
        final(out)@ == old(out)@ + enc_collect(*c),
{
    put_seq(out, c.last_seq);
    c.last_digest.append_to(out);
}

/// Appends a request or a reply.
fn put_request(out: &mut Vec<u8>, session: SeqNo, operation: SeqNo, body: &Vec<u8>)
    requires
        body@.len() <= u32::MAX,
    ensures
        final(out)@ == old(out)@ + enc_request(session, operation, body@),
{
    put_seq(out, session);
    put_seq(out, operation);
    put_bytes(out, body);
}

/// Appends an event.
fn put_event(out: &mut Vec<u8>, e: ObserveEventKind)
    ensures
        final(out)@ == old(out)@ + enc_event(e),
{
    match e {
        ObserveEventKind::CheckpointStart(s) => {
            out.push(0);
            put_seq(out, s);
            assert(out@ =~= old(out)@ + (seq![0u8] + enc_seq(s)));
        },
        ObserveEventKind::CheckpointEnd(s) => {
            out.push(1);
            put_seq(out, s);
            assert(out@ =~= old(out)@ + (seq![1u8] + enc_seq(s)));
        },
        ObserveEventKind::Consensus(s) => {
            out.push(2);
            put_seq(out, s);
            assert(out@ =~= old(out)@ + (seq![2u8] + enc_seq(s)));
        },
        ObserveEventKind::NormalPhase(v, s) => {
            out.push(3);
            put_seq(out, v);
            put_seq(out, s);
            assert(out@ =~= old(out)@ + (seq![3u8] + enc_seq(v) + enc_seq(s)));
        },
        ObserveEventKind::ViewChangePhase => {
            out.push(4);
            assert(out@ =~= old(out)@ + seq![4u8]);
        },
        ObserveEventKind::CollabStateTransfer => {
            out.push(5);
            assert(out@ =~= old(out)@ + seq![5u8]);
        },
        ObserveEventKind::Prepare(s) => {
            out.push(6);
            put_seq(out, s);
            assert(out@ =~= old(out)@ + (seq![6u8] + enc_seq(s)));
        },
        ObserveEventKind::Commit(s) => {
            out.push(7);
            put_seq(out, s);
            assert(out@ =~= old(out)@ + (seq![7u8] + enc_seq(s)));
        },
        ObserveEventKind::Ready(s) => {
            out.push(8);
            put_seq(out, s);
            assert(out@ =~= old(out)@ + (seq![8u8] + enc_seq(s)));
        },
        ObserveEventKind::Executed(s) => {
            out.push(9);
            put_seq(out, s);
            assert(out@ =~= old(out)@ + (seq![9u8] + enc_seq(s)));
        },
    }
}

/// Whether the message can be written: see `encodable`.
pub fn is_encodable(m: &SystemMessage) -> (r: bool)
    ensures
        r == encodable(*m),
{
    match m {
        SystemMessage::Request(r) => r.operation.len() <= 0xffff_ffff,
        SystemMessage::Reply(r) => r.payload.len() <= 0xffff_ffff,
        SystemMessage::Consensus(c) => match &c.kind {
            ConsensusMessageKind::PrePrepare { requests, .. } => requests.len() <= 0xffff_ffff,
            _ => true,
        },
        SystemMessage::ViewChange(v) => match &v.kind {
            ViewChangeMessageKind::Stop(requests) => requests.len() <= 0xffff_ffff,
            ViewChangeMessageKind::StopData(_) => true,
            ViewChangeMessageKind::Sync(lc) => lc.collects.len() <= 0xffff_ffff,
        },
        SystemMessage::ForwardedRequest(_, r) => r.operation.len() <= 0xffff_ffff,
        SystemMessage::StateTransfer(b) => b.len() <= 0xffff_ffff,
        SystemMessage::Observer(_) => true,
    }
}

/// Appends the payload of a message to `out`. A message with a list too
/// long for its length to be written is refused, with an error of kind
/// `CommunicationSerialize`, and nothing is appended.
pub fn serialize_message(m: &SystemMessage, out: &mut Vec<u8>) -> (r: Result<(), Error>)
    ensures
        r is Ok <==> encodable(*m),
        r is Ok ==> final(out)@ == old(out)@ + encode(*m),
        r is Err ==> final(out)@ == old(out)@ && r->Err_0.kind() == ErrorKind::CommunicationSerialize,
{
    if !is_encodable(m) {
        return Err(Error::simple_with_msg(ErrorKind::CommunicationSerialize, "Message is too long"));
    }
    match m {
        SystemMessage::Request(r) => {
            out.push(0);
            put_request(out, r.session_id, r.operation_id, &r.operation);
            assert(out@ =~= old(out)@ + encode(*m));
        },
        SystemMessage::Reply(r) => {
            out.push(1);
            put_request(out, r.session_id, r.operation_id, &r.payload);
            assert(out@ =~= old(out)@ + encode(*m));
        },
        SystemMessage::Consensus(c) => {
            out.push(2);
            put_seq(out, c.seq);
            put_seq(out, c.view);
            match &c.kind {
                ConsensusMessageKind::PrePrepare { digest, requests } => {
                    out.push(0);
                    digest.append_to(out);
                    put_digests(out, requests);
                },
                ConsensusMessageKind::Prepare(d) => {
                    out.push(1);
                    d.append_to(out);
                },
                ConsensusMessageKind::Commit(d) => {
                    out.push(2);
                    d.append_to(out);
                },
            }
            assert(out@ =~= old(out)@ + encode(*m));
        },
        SystemMessage::ViewChange(v) => {
            out.push(3);
            put_seq(out, v.view);
            match &v.kind {
                ViewChangeMessageKind::Stop(requests) => {
                    out.push(0);
                    put_digests(out, requests);
                },
                ViewChangeMessageKind::StopData(c) => {
                    out.push(1);
                    put_collect(out, c);
                },
                ViewChangeMessageKind::Sync(lc) => {
                    out.push(2);
                    put_collect(out, &lc.chosen);
                    put_u32(out, lc.collects.len() as u32);
                    let ghost start = out@;
                    let mut i: usize = 0;
                    while i < lc.collects.len()
                        invariant
                            i <= lc.collects.len(),
                            out@ == start + enc_collects(lc.collects@.take(i as int)),
                        decreases lc.collects.len() - i,
                    {
                        put_u32(out, lc.collects[i].0.0);
                        put_collect(out, &lc.collects[i].1);
                        proof {
                            let t = lc.collects@.take(i + 1);
                            assert(t.drop_last() == lc.collects@.take(i as int));
                            assert(out@ =~= start + enc_collects(t));
                        }
                        i += 1;
                    }
                    assert(lc.collects@.take(i as int) == lc.collects@);
                },
            }
            assert(out@ =~= old(out)@ + encode(*m));
        },
        SystemMessage::ForwardedRequest(from, r) => {
            out.push(4);
            put_u32(out, from.0);
            put_request(out, r.session_id, r.operation_id, &r.operation);
            assert(out@ =~= old(out)@ + encode(*m));
        },
        SystemMessage::StateTransfer(b) => {
            out.push(5);
            put_bytes(out, b);
            assert(out@ =~= old(out)@ + encode(*m));
        },
        SystemMessage::Observer(o) => {
            out.push(6);
            match o {
                ObserverMessage::ObserverRegister => {
                    out.push(0);
                },
                ObserverMessage::ObserverRegisterResponse(ok) => {
                    out.push(1);
                    out.push(if *ok { 1 } else { 0 });
                },
                ObserverMessage::ObserverUnregister => {
                    out.push(2);
                },
                ObserverMessage::ObservedValue(e) => {
                    out.push(3);
                    put_event(out, *e);
                },
            }
            assert(out@ =~= old(out)@ + encode(*m));
        },
    }
    Ok(())
}

/// The number that the four bytes of `b` from `at` on stand for.
fn get_u32(b: &[u8], at: usize) -> (x: u32)
    requires
        at + 4 <= b@.len(),
    ensures
        x == u32_at(b@, at as int),
        spec_u32_to_le_bytes(x) == b@.subrange(at as int, at + 4),
{
    proof {
        lemma_auto_spec_u32_to_from_le_bytes();
    }
    let n = b.len();
    assert(at + 4 <= n);
    u32_from_le_bytes(&b[at..at + 4])
}

/// The sequence number that the four bytes of `b` from `at` on stand for.
fn get_seq(b: &[u8], at: usize) -> (s: SeqNo)
    requires
        at + 4 <= b@.len(),
    ensures
        enc_seq(s) == b@.subrange(at as int, at + 4),
{
    let x = get_u32(b, at);
    #[verifier::truncate]
    let v: i32 = x as i32;
    assert((v as u32) == x) by (bit_vector)
        requires
            v == x as i32,
    ;
    SeqNo(v)
}

/// The digest that the 32 bytes of `b` from `at` on are.
fn get_digest(b: &[u8], at: usize) -> (d: Digest)
    requires
        at + 32 <= b@.len(),
    ensures
        d@ == b@.subrange(at as int, at + 32),
{
    let n = b.len();
    assert(at + 32 <= n);
    let d = Digest(array32_from(&b[at..at + 32]));
    assert(b@.subrange(at as int, at + 32).take(32) == b@.subrange(at as int, at + 32));
    d
}

/// The `count` digests that the bytes of `b` from `at` on are.
fn get_digests(b: &[u8], at: usize, count: usize) -> (ds: Vec<Digest>)
    requires
        at + 32 * count == b@.len(),
    ensures
        ds@.len() == count,
        concat_digests(ds@) == b@.subrange(at as int, b@.len() as int),
{
    let mut ds: Vec<Digest> = Vec::new();
    let n = b.len();
    let mut i: usize = 0;
    while i < count
        invariant
            i <= count,
            n == b@.len(),
            at + 32 * count == b@.len(),
            ds@.len() == i,
            concat_digests(ds@) == b@.subrange(at as int, at + 32 * i),
        decreases count - i,
    {
        let d = get_digest(b, at + 32 * i);
        let ghost before = ds@;
        ds.push(d);
        proof {
            assert(ds@.drop_last() == before);
            assert(concat_digests(ds@) =~= b@.subrange(at as int, at + 32 * (i + 1)));
        }
        i += 1;
    }
    ds
}

/// The decision that the 36 bytes of `b` from `at` on are.
fn get_collect(b: &[u8], at: usize) -> (c: CollectData)
    requires
        at + 36 <= b@.len(),
    ensures
        enc_collect(c) == b@.subrange(at as int, at + 36),
{
    let n = b.len();
    assert(at + 36 <= n);
    let last_seq = get_seq(b, at);
    let last_digest = get_digest(b, at + 4);
    let c = CollectData { last_seq, last_digest };
    assert(enc_collect(c) =~= b@.subrange(at as int, at + 36));
    c
}

/// The request or reply that the bytes of `b` from `at` on are.
fn get_request(b: &[u8], at: usize) -> (r: (SeqNo, SeqNo, Vec<u8>))
    requires
        at + 12 <= b@.len(),
        b@.len() - (at + 12) == u32_at(b@, at + 8),
    ensures
        enc_request(r.0, r.1, r.2@) == b@.subrange(at as int, b@.len() as int),
        r.2@.len() <= u32::MAX,
{
    let n = b.len();
    assert(at + 12 <= n);
    let session = get_seq(b, at);
    let operation = get_seq(b, at + 4);
    let len = get_u32(b, at + 8);
    let mut body: Vec<u8> = Vec::new();
    extend(&mut body, &b[at + 12..b.len()]);
    assert(enc_request(session, operation, body@) =~= b@.subrange(at as int, b@.len() as int));
    (session, operation, body)
}

/// The event that the bytes of `b` from `at` on are.
fn get_event(b: &[u8], at: usize) -> (e: ObserveEventKind)
    requires
        at <= b@.len(),
        event_formed(b@.skip(at as int)),
    ensures
        enc_event(e) == b@.skip(at as int),
{
    let kind = b[at];
    let ghost tail = b@.skip(at as int);
    assert(tail[0] == kind);
    if kind == 4 {
        assert(enc_event(ObserveEventKind::ViewChangePhase) =~= tail);
        ObserveEventKind::ViewChangePhase
    } else if kind == 5 {
        assert(enc_event(ObserveEventKind::CollabStateTransfer) =~= tail);
        ObserveEventKind::CollabStateTransfer
    } else if kind == 3 {
        let v = get_seq(b, at + 1);
        let s = get_seq(b, at + 5);
        assert(enc_event(ObserveEventKind::NormalPhase(v, s)) =~= tail);
        ObserveEventKind::NormalPhase(v, s)
    } else {
        let s = get_seq(b, at + 1);
        let e = if kind == 0 {
            ObserveEventKind::CheckpointStart(s)
        } else if kind == 1 {
            ObserveEventKind::CheckpointEnd(s)
        } else if kind == 2 {
            ObserveEventKind::Consensus(s)
        } else if kind == 6 {
            ObserveEventKind::Prepare(s)
        } else if kind == 7 {
            ObserveEventKind::Commit(s)
        } else if kind == 8 {
            ObserveEventKind::Ready(s)
        } else {
            ObserveEventKind::Executed(s)
        };
        assert(enc_event(e) =~= tail);
        e
    }
}

/// Whether `b` is the payload of a system message: see `well_formed`.
pub fn is_well_formed(b: &[u8]) -> (r: bool)
    ensures
        r == well_formed(b@),
{
    let n = b.len();
    if n < 1 {
        return false;
    }
    let tag = b[0];
    if tag == 0 || tag == 1 {
        n >= 13 && (n - 13) as u64 == get_u32(b, 9) as u64
    } else if tag == 2 {
        if n < 10 {
            return false;
        }
        let kind = b[9];
        if kind == 0 {
            n >= 46 && (n - 46) as u64 == 32 * (get_u32(b, 42) as u64)
        } else if kind == 1 || kind == 2 {
            n == 42
        } else {
            false
        }
    } else if tag == 3 {
        if n < 6 {
            return false;
        }
        let kind = b[5];
        if kind == 0 {
            n >= 10 && (n - 10) as u64 == 32 * (get_u32(b, 6) as u64)
        } else if kind == 1 {
            n == 42
        } else if kind == 2 {
            n >= 46 && (n - 46) as u64 == 40 * (get_u32(b, 42) as u64)
        } else {
            false
        }
    } else if tag == 4 {
        n >= 17 && (n - 17) as u64 == get_u32(b, 13) as u64
    } else if tag == 5 {
        n >= 5 && (n - 5) as u64 == get_u32(b, 1) as u64
    } else if tag == 6 {
        if n < 2 {
            return false;
        }
        let kind = b[1];
        if kind == 0 || kind == 2 {
            n == 2
        } else if kind == 1 {
            n == 3 && b[2] <= 1
        } else if kind == 3 {
            if n < 3 {
                assert(b@.skip(2).len() == 0);
                return false;
            }
            let e = b[2];
            assert(b@.skip(2)[0] == e);
            assert(b@.skip(2).len() == n - 2);
            e <= 9 && n - 2 == (if e == 3 {
                9
            } else if e == 4 || e == 5 {
                1
            } else {
                5
            })
        } else {
            false
        }
    } else {
        false
    }
}

/// Reads the payload of a system message. This succeeds on the payloads of
/// the grammar and on no others, and what it reads is the message whose
/// payload the bytes are; other bytes are refused with an error of kind
/// `CommunicationSerialize`.
pub fn deserialize_message(b: &[u8]) -> (r: Result<SystemMessage, Error>)
    ensures
        r is Ok <==> well_formed(b@),
        r is Ok ==> encode(r->Ok_0) == b@ && encodable(r->Ok_0),
        r is Err ==> r->Err_0.kind() == ErrorKind::CommunicationSerialize,
{
    if !is_well_formed(b) {
        return Err(Error::simple_with_msg(ErrorKind::CommunicationSerialize, "Malformed payload"));
    }
    let n = b.len();
    let tag = b[0];
    let m = if tag == 0 {
        let (session_id, operation_id, operation) = get_request(b, 1);
        let m = SystemMessage::Request(RequestMessage { session_id, operation_id, operation });
        assert(encode(m) =~= b@);
        assert(encodable(m));
        m
    } else if tag == 1 {
        let (session_id, operation_id, payload) = get_request(b, 1);
        let m = SystemMessage::Reply(ReplyMessage { session_id, operation_id, payload });
        assert(encode(m) =~= b@);
        assert(encodable(m));
        m
    } else if tag == 2 {
        let seq = get_seq(b, 1);
        let view = get_seq(b, 5);
        let kind = b[9];
        let digest = get_digest(b, 10);
        let kind = if kind == 0 {
            let count = get_u32(b, 42) as usize;
            let requests = get_digests(b, 46, count);
            ConsensusMessageKind::PrePrepare { digest, requests }
        } else if kind == 1 {
            ConsensusMessageKind::Prepare(digest)
        } else {
            ConsensusMessageKind::Commit(digest)
        };
        let m = SystemMessage::Consensus(ConsensusMessage { seq, view, kind });
        assert(encode(m) =~= b@);
        assert(encodable(m));
        m
    } else if tag == 3 {
        let view = get_seq(b, 1);
        let kind = b[5];
        let kind = if kind == 0 {
            let count = get_u32(b, 6) as usize;
            ViewChangeMessageKind::Stop(get_digests(b, 10, count))
        } else if kind == 1 {
            ViewChangeMessageKind::StopData(get_collect(b, 6))
        } else {
            let chosen = get_collect(b, 6);
            let count = get_u32(b, 42) as usize;
            let mut collects: Vec<(NodeId, CollectData)> = Vec::new();
            let mut i: usize = 0;
            while i < count
                invariant
                    i <= count,
                    n == b@.len(),
                    46 + 40 * count == b@.len(),
                    collects@.len() == i,
                    enc_collects(collects@) == b@.subrange(46, 46 + 40 * i),
                decreases count - i,
            {
                let node = NodeId(get_u32(b, 46 + 40 * i));
                let c = get_collect(b, 46 + 40 * i + 4);
                let ghost before = collects@;
                collects.push((node, c));
                proof {
                    assert(collects@.drop_last() == before);
                    assert(enc_collects(collects@) =~= b@.subrange(46, 46 + 40 * (i + 1)));
                }
                i += 1;
            }
            ViewChangeMessageKind::Sync(LeaderCollects { chosen, collects })
        };
        let m = SystemMessage::ViewChange(ViewChangeMessage { view, kind });
        assert(encode(m) =~= b@);
        assert(encodable(m));
        m
    } else if tag == 4 {
        let from = NodeId(get_u32(b, 1));
        let (session_id, operation_id, operation) = get_request(b, 5);
        let m = SystemMessage::ForwardedRequest(
            from,
            RequestMessage { session_id, operation_id, operation },
        );
        assert(encode(m) =~= b@);
        assert(encodable(m));
        m
    } else if tag == 5 {
        let len = get_u32(b, 1);
        let mut body: Vec<u8> = Vec::new();
        extend(&mut body, &b[5..n]);
        let m = SystemMessage::StateTransfer(body);
        assert(encode(m) =~= b@);
        assert(encodable(m));
        m
    } else {
        let kind = b[1];
        let o = if kind == 0 {
            ObserverMessage::ObserverRegister
        } else if kind == 1 {
            ObserverMessage::ObserverRegisterResponse(b[2] == 1)
        } else if kind == 2 {
            ObserverMessage::ObserverUnregister
        } else {
            ObserverMessage::ObservedValue(get_event(b, 2))
        };
        let m = SystemMessage::Observer(o);
        assert(encode(m) =~= b@);
        assert(encodable(m));
        m
    };
    Ok(m)
}

/// Whether two messages say the same: they are of the same kind and carry
/// the same values, lists by what they hold.
pub open spec fn same_message(a: SystemMessage, b: SystemMessage) -> bool {
    match (a, b) {
        (SystemMessage::Request(x), SystemMessage::Request(y)) => x.session_id == y.session_id
            && x.operation_id == y.operation_id && x.operation@ == y.operation@,
        (SystemMessage::Reply(x), SystemMessage::Reply(y)) => x.session_id == y.session_id
            && x.operation_id == y.operation_id && x.payload@ == y.payload@,
        (SystemMessage::Consensus(x), SystemMessage::Consensus(y)) => x.seq == y.seq && x.view
            == y.view && (match (x.kind, y.kind) {
            (
                ConsensusMessageKind::PrePrepare { digest: d1, requests: r1 },
                ConsensusMessageKind::PrePrepare { digest: d2, requests: r2 },
            ) => d1 == d2 && r1@ == r2@,
            (ConsensusMessageKind::Prepare(d1), ConsensusMessageKind::Prepare(d2)) => d1 == d2,
            (ConsensusMessageKind::Commit(d1), ConsensusMessageKind::Commit(d2)) => d1 == d2,
            _ => false,
        }),
        (SystemMessage::ViewChange(x), SystemMessage::ViewChange(y)) => x.view == y.view && (match (
            x.kind,
            y.kind,
        ) {
            (ViewChangeMessageKind::Stop(r1), ViewChangeMessageKind::Stop(r2)) => r1@ == r2@,
            (ViewChangeMessageKind::StopData(c1), ViewChangeMessageKind::StopData(c2)) => c1 == c2,
            (ViewChangeMessageKind::Sync(l1), ViewChangeMessageKind::Sync(l2)) => l1.chosen
                == l2.chosen && l1.collects@ == l2.collects@,
            _ => false,
        }),
        (SystemMessage::ForwardedRequest(f1, x), SystemMessage::ForwardedRequest(f2, y)) => f1 == f2
            && x.session_id == y.session_id && x.operation_id == y.operation_id && x.operation@
            == y.operation@,
        (SystemMessage::StateTransfer(x), SystemMessage::StateTransfer(y)) => x@ == y@,
        (SystemMessage::Observer(x), SystemMessage::Observer(y)) => x == y,
        _ => false,
    }
}

/// Two numbers with the same four bytes are the same number.
pub proof fn lemma_u32_bytes_injective(x: u32, y: u32)
    requires
        spec_u32_to_le_bytes(x) == spec_u32_to_le_bytes(y),
    ensures
        x == y,
{
    lemma_auto_spec_u32_to_from_le_bytes();
    assert(spec_u32_to_le_bytes(x).len() == 4);
    assert(spec_u32_to_le_bytes(y).len() == 4);
    assert(spec_u32_from_le_bytes(spec_u32_to_le_bytes(x)) == x);
    assert(spec_u32_from_le_bytes(spec_u32_to_le_bytes(y)) == y);
}

/// Two sequence numbers with the same four bytes are the same.
pub proof fn lemma_seq_bytes_injective(s: SeqNo, t: SeqNo)
    requires
        enc_seq(s) == enc_seq(t),
    ensures
        s == t,
{
    lemma_u32_bytes_injective(s.0 as u32, t.0 as u32);
    let a = s.0;
    let b = t.0;
    assert(a == b) by (bit_vector)
        requires
            a as u32 == b as u32,
    ;
}

/// Two decisions with the same 36 bytes are the same decision.
pub proof fn lemma_collect_injective(a: CollectData, b: CollectData)
    requires
        enc_collect(a) == enc_collect(b),
    ensures
        a == b,
{
    lemma_auto_spec_u32_to_from_le_bytes();
    let ea = enc_collect(a);
    let eb = enc_collect(b);
    assert(ea.subrange(0, 4) == enc_seq(a.last_seq));
    assert(eb.subrange(0, 4) == enc_seq(b.last_seq));
    assert(ea.subrange(4, 36) == a.last_digest@);
    assert(eb.subrange(4, 36) == b.last_digest@);
    lemma_seq_bytes_injective(a.last_seq, b.last_seq);
    lemma_digest_ext(a.last_digest, b.last_digest);
}

/// Two lists of as many digests with the same bytes are the same list.
pub proof fn lemma_digests_injective(xs: Seq<Digest>, ys: Seq<Digest>)
    requires
        xs.len() == ys.len(),
        concat_digests(xs) == concat_digests(ys),
    ensures
        xs == ys,
    decreases xs.len(),
{
    if xs.len() > 0 {
        let cx = concat_digests(xs);
        let cy = concat_digests(ys);
        lemma_concat_len(xs.drop_last());
        lemma_concat_len(ys.drop_last());
        let n = 32 * (xs.len() - 1);
        assert(cx.subrange(0, n) == concat_digests(xs.drop_last()));
        assert(cy.subrange(0, n) == concat_digests(ys.drop_last()));
        assert(cx.subrange(n, n + 32) == xs.last()@);
        assert(cy.subrange(n, n + 32) == ys.last()@);
        lemma_digests_injective(xs.drop_last(), ys.drop_last());
        lemma_digest_ext(xs.last(), ys.last());
        assert(xs =~= xs.drop_last().push(xs.last()));
        assert(ys =~= ys.drop_last().push(ys.last()));
    } else {
        assert(xs =~= ys);
    }
}

/// Two lists of as many collected decisions with the same bytes are the
/// same list.
pub proof fn lemma_collects_injective(xs: Seq<(NodeId, CollectData)>, ys: Seq<(NodeId, CollectData)>)
    requires
        xs.len() == ys.len(),
        enc_collects(xs) == enc_collects(ys),
    ensures
        xs == ys,
    decreases xs.len(),
{
    lemma_auto_spec_u32_to_from_le_bytes();
    if xs.len() > 0 {
        let cx = enc_collects(xs);
        let cy = enc_collects(ys);
        lemma_collects_len(xs.drop_last());
        lemma_collects_len(ys.drop_last());
        let n = 40 * (xs.len() - 1);
        assert(cx.subrange(0, n) == enc_collects(xs.drop_last()));
        assert(cy.subrange(0, n) == enc_collects(ys.drop_last()));
        assert(cx.subrange(n, n + 4) == spec_u32_to_le_bytes(xs.last().0.0));
        assert(cy.subrange(n, n + 4) == spec_u32_to_le_bytes(ys.last().0.0));
        assert(cx.subrange(n + 4, n + 40) == enc_collect(xs.last().1));
        assert(cy.subrange(n + 4, n + 40) == enc_collect(ys.last().1));
        lemma_collects_injective(xs.drop_last(), ys.drop_last());
        lemma_u32_bytes_injective(xs.last().0.0, ys.last().0.0);
        lemma_collect_injective(xs.last().1, ys.last().1);
        assert(xs =~= xs.drop_last().push(xs.last()));
        assert(ys =~= ys.drop_last().push(ys.last()));
    } else {
        assert(xs =~= ys);
    }
}

/// Two requests with the same bytes are the same request.
pub proof fn lemma_request_injective(
    sx: SeqNo,
    o1: SeqNo,
    b1: Seq<u8>,
    sy: SeqNo,
    o2: SeqNo,
    b2: Seq<u8>,
)
    requires
        b1.len() <= u32::MAX,
        b2.len() <= u32::MAX,
        enc_request(sx, o1, b1) == enc_request(sy, o2, b2),
    ensures
        sx == sy,
        o1 == o2,
        b1 == b2,
{
    lemma_auto_spec_u32_to_from_le_bytes();
    let e1 = enc_request(sx, o1, b1);
    let e2 = enc_request(sy, o2, b2);
    assert(e1.subrange(0, 4) == enc_seq(sx));
    assert(e2.subrange(0, 4) == enc_seq(sy));
    assert(e1.subrange(4, 8) == enc_seq(o1));
    assert(e2.subrange(4, 8) == enc_seq(o2));
    assert(e1.subrange(8, 12) == spec_u32_to_le_bytes(b1.len() as u32));
    assert(e2.subrange(8, 12) == spec_u32_to_le_bytes(b2.len() as u32));
    lemma_seq_bytes_injective(sx, sy);
    lemma_seq_bytes_injective(o1, o2);
    assert(e1.subrange(12, e1.len() as int) == b1);
    assert(e2.subrange(12, e2.len() as int) == b2);
}

/// Two lists of digests with the same bytes, numbers included, are the same
/// list.
pub proof fn lemma_enc_digests_injective(xs: Seq<Digest>, ys: Seq<Digest>)
    requires
        xs.len() <= u32::MAX,
        ys.len() <= u32::MAX,
        enc_digests(xs) == enc_digests(ys),
    ensures
        xs == ys,
{
    lemma_auto_spec_u32_to_from_le_bytes();
    let e1 = enc_digests(xs);
    let e2 = enc_digests(ys);
    assert(e1.subrange(0, 4) == spec_u32_to_le_bytes(xs.len() as u32));
    assert(e2.subrange(0, 4) == spec_u32_to_le_bytes(ys.len() as u32));
    lemma_u32_bytes_injective(xs.len() as u32, ys.len() as u32);
    assert(e1.subrange(4, e1.len() as int) == concat_digests(xs));
    assert(e2.subrange(4, e2.len() as int) == concat_digests(ys));
    lemma_digests_injective(xs, ys);
}

/// Two events with the same bytes are the same event.
pub proof fn lemma_event_injective(a: ObserveEventKind, b: ObserveEventKind)
    requires
        enc_event(a) == enc_event(b),
    ensures
        a == b,
{
    lemma_auto_spec_u32_to_from_le_bytes();
    let ea = enc_event(a);
    let eb = enc_event(b);
    assert(ea[0] == eb[0]);
    match (a, b) {
        (ObserveEventKind::NormalPhase(v1, sx), ObserveEventKind::NormalPhase(v2, sy)) => {
            assert(ea.subrange(1, 5) == enc_seq(v1));
            assert(eb.subrange(1, 5) == enc_seq(v2));
            assert(ea.subrange(5, 9) == enc_seq(sx));
            assert(eb.subrange(5, 9) == enc_seq(sy));
            lemma_seq_bytes_injective(v1, v2);
            lemma_seq_bytes_injective(sx, sy);
        },
        (ObserveEventKind::CheckpointStart(sx), ObserveEventKind::CheckpointStart(sy)) => {
            assert(ea.subrange(1, 5) == enc_seq(sx));
            assert(eb.subrange(1, 5) == enc_seq(sy));
            lemma_seq_bytes_injective(sx, sy);
        },
        (ObserveEventKind::CheckpointEnd(sx), ObserveEventKind::CheckpointEnd(sy)) => {
            assert(ea.subrange(1, 5) == enc_seq(sx));
            assert(eb.subrange(1, 5) == enc_seq(sy));
            lemma_seq_bytes_injective(sx, sy);
        },
        (ObserveEventKind::Consensus(sx), ObserveEventKind::Consensus(sy)) => {
            assert(ea.subrange(1, 5) == enc_seq(sx));
            assert(eb.subrange(1, 5) == enc_seq(sy));
            lemma_seq_bytes_injective(sx, sy);
        },
        (ObserveEventKind::Prepare(sx), ObserveEventKind::Prepare(sy)) => {
            assert(ea.subrange(1, 5) == enc_seq(sx));
            assert(eb.subrange(1, 5) == enc_seq(sy));
            lemma_seq_bytes_injective(sx, sy);
        },
        (ObserveEventKind::Commit(sx), ObserveEventKind::Commit(sy)) => {
            assert(ea.subrange(1, 5) == enc_seq(sx));
            assert(eb.subrange(1, 5) == enc_seq(sy));
            lemma_seq_bytes_injective(sx, sy);
        },
        (ObserveEventKind::Ready(sx), ObserveEventKind::Ready(sy)) => {
            assert(ea.subrange(1, 5) == enc_seq(sx));
            assert(eb.subrange(1, 5) == enc_seq(sy));
            lemma_seq_bytes_injective(sx, sy);
        },
        (ObserveEventKind::Executed(sx), ObserveEventKind::Executed(sy)) => {
            assert(ea.subrange(1, 5) == enc_seq(sx));
            assert(eb.subrange(1, 5) == enc_seq(sy));
            lemma_seq_bytes_injective(sx, sy);
        },
        _ => {},
    }
}

/// Two messages with the same payload say the same: a payload is read back
/// as the message that was written.
pub proof fn lemma_encode_injective(a: SystemMessage, b: SystemMessage)
    requires
        encodable(a),
        encodable(b),
        encode(a) == encode(b),
    ensures
        same_message(a, b),
{
    lemma_auto_spec_u32_to_from_le_bytes();
    let ea = encode(a);
    let eb = encode(b);
    assert(ea[0] == eb[0]);
    match (a, b) {
        (SystemMessage::Request(x), SystemMessage::Request(y)) => {
            assert(ea.subrange(1, ea.len() as int) == enc_request(
                x.session_id,
                x.operation_id,
                x.operation@,
            ));
            assert(eb.subrange(1, eb.len() as int) == enc_request(
                y.session_id,
                y.operation_id,
                y.operation@,
            ));
            lemma_request_injective(
                x.session_id,
                x.operation_id,
                x.operation@,
                y.session_id,
                y.operation_id,
                y.operation@,
            );
        },
        (SystemMessage::Reply(x), SystemMessage::Reply(y)) => {
            assert(ea.subrange(1, ea.len() as int) == enc_request(
                x.session_id,
                x.operation_id,
                x.payload@,
            ));
            assert(eb.subrange(1, eb.len() as int) == enc_request(
                y.session_id,
                y.operation_id,
                y.payload@,
            ));
            lemma_request_injective(
                x.session_id,
                x.operation_id,
                x.payload@,
                y.session_id,
                y.operation_id,
                y.payload@,
            );
        },
        (SystemMessage::Consensus(x), SystemMessage::Consensus(y)) => {
            assert(ea.subrange(1, 5) == enc_seq(x.seq));
            assert(eb.subrange(1, 5) == enc_seq(y.seq));
            assert(ea.subrange(5, 9) == enc_seq(x.view));
            assert(eb.subrange(5, 9) == enc_seq(y.view));
            lemma_seq_bytes_injective(x.seq, y.seq);
            lemma_seq_bytes_injective(x.view, y.view);
            assert(ea[9] == eb[9]);
            assert(ea.subrange(10, 42) == x.kind.batch_digest()@);
            assert(eb.subrange(10, 42) == y.kind.batch_digest()@);
            lemma_digest_ext(x.kind.batch_digest(), y.kind.batch_digest());
            match (x.kind, y.kind) {
                (
                    ConsensusMessageKind::PrePrepare { digest: d1, requests: r1 },
                    ConsensusMessageKind::PrePrepare { digest: d2, requests: r2 },
                ) => {
                    assert(ea.subrange(42, ea.len() as int) == enc_digests(r1@));
                    assert(eb.subrange(42, eb.len() as int) == enc_digests(r2@));
                    lemma_enc_digests_injective(r1@, r2@);
                },
                _ => {},
            }
        },
        (SystemMessage::ViewChange(x), SystemMessage::ViewChange(y)) => {
            assert(ea.subrange(1, 5) == enc_seq(x.view));
            assert(eb.subrange(1, 5) == enc_seq(y.view));
            lemma_seq_bytes_injective(x.view, y.view);
            assert(ea[5] == eb[5]);
            match (x.kind, y.kind) {
                (ViewChangeMessageKind::Stop(r1), ViewChangeMessageKind::Stop(r2)) => {
                    assert(ea.subrange(6, ea.len() as int) == enc_digests(r1@));
                    assert(eb.subrange(6, eb.len() as int) == enc_digests(r2@));
                    lemma_enc_digests_injective(r1@, r2@);
                },
                (ViewChangeMessageKind::StopData(c1), ViewChangeMessageKind::StopData(c2)) => {
                    assert(ea.subrange(6, 42) == enc_collect(c1));
                    assert(eb.subrange(6, 42) == enc_collect(c2));
                    lemma_collect_injective(c1, c2);
                },
                (ViewChangeMessageKind::Sync(l1), ViewChangeMessageKind::Sync(l2)) => {
                    assert(ea.subrange(6, 42) == enc_collect(l1.chosen));
                    assert(eb.subrange(6, 42) == enc_collect(l2.chosen));
                    lemma_collect_injective(l1.chosen, l2.chosen);
                    assert(ea.subrange(42, 46) == spec_u32_to_le_bytes(l1.collects@.len() as u32));
                    assert(eb.subrange(42, 46) == spec_u32_to_le_bytes(l2.collects@.len() as u32));
                    lemma_u32_bytes_injective(l1.collects@.len() as u32, l2.collects@.len() as u32);
                    assert(ea.subrange(46, ea.len() as int) == enc_collects(l1.collects@));
                    assert(eb.subrange(46, eb.len() as int) == enc_collects(l2.collects@));
                    lemma_collects_injective(l1.collects@, l2.collects@);
                },
                _ => {},
            }
        },
        (SystemMessage::ForwardedRequest(f1, x), SystemMessage::ForwardedRequest(f2, y)) => {
            assert(ea.subrange(1, 5) == spec_u32_to_le_bytes(f1.0));
            assert(eb.subrange(1, 5) == spec_u32_to_le_bytes(f2.0));
            lemma_u32_bytes_injective(f1.0, f2.0);
            assert(ea.subrange(5, ea.len() as int) == enc_request(
                x.session_id,
                x.operation_id,
                x.operation@,
            ));
            assert(eb.subrange(5, eb.len() as int) == enc_request(
                y.session_id,
                y.operation_id,
                y.operation@,
            ));
            lemma_request_injective(
                x.session_id,
                x.operation_id,
                x.operation@,
                y.session_id,
                y.operation_id,
                y.operation@,
            );
        },
        (SystemMessage::StateTransfer(x), SystemMessage::StateTransfer(y)) => {
            assert(ea.subrange(5, ea.len() as int) == x@);
            assert(eb.subrange(5, eb.len() as int) == y@);
        },
        (SystemMessage::Observer(x), SystemMessage::Observer(y)) => {
            assert(ea.subrange(1, ea.len() as int) == enc_observer(x));
            assert(eb.subrange(1, eb.len() as int) == enc_observer(y));
            assert(enc_observer(x)[0] == enc_observer(y)[0]);
            match (x, y) {
                (ObserverMessage::ObservedValue(e1), ObserverMessage::ObservedValue(e2)) => {
                    assert(enc_observer(x).subrange(1, enc_observer(x).len() as int) == enc_event(
                        e1,
                    ));
                    assert(enc_observer(y).subrange(1, enc_observer(y).len() as int) == enc_event(
                        e2,
                    ));
                    lemma_event_injective(e1, e2);
                },
                (
                    ObserverMessage::ObserverRegisterResponse(o1),
                    ObserverMessage::ObserverRegisterResponse(o2),
                ) => {
                    assert(enc_observer(x)[1] == enc_observer(y)[1]);
                },
                _ => {},
            }
        },
        _ => {},
    }
}

} // verus!
