//! The wire format: a header of fixed length, followed by a payload.

use crate::crypto::hash::{array32_from, sha256, Digest};
use crate::crypto::signature::{ed25519_signature, ed25519_verifies, KeyPair, PublicKey, Signature};
use crate::error::{Error, ErrorKind};
use crate::node_id::NodeId;
use crate::ordering::SeqNo;
use vstd::bytes::{
    lemma_auto_spec_u16_to_from_le_bytes, lemma_auto_spec_u32_to_from_le_bytes,
    lemma_auto_spec_u64_to_from_le_bytes, spec_u16_to_le_bytes, spec_u32_to_le_bytes,
    spec_u64_to_le_bytes, u16_from_le_bytes, u16_to_le_bytes, u32_from_le_bytes, u32_to_le_bytes,
    u64_from_le_bytes, u64_to_le_bytes,
};
use vstd::prelude::*;

verus! {

/// The version of the wire format that this library writes and accepts.
pub const CURRENT_VERSION: u16 = 0;

/// The length of a header in bytes.
pub const HEADER_LENGTH: usize = 120;

/// The header of a wire message.
#[derive(Copy, Clone)]
pub struct Header {
    /// The version of the wire format.
    pub version: u16,
    /// Reserved bits.
    pub flags: u16,
    /// The id of the sender.
    pub from: u32,
    /// The id of the receiver.
    pub to: u32,
    /// A number that the sender picks for each message.
    pub nonce: u64,
    /// The length of the payload in bytes.
    pub length: u32,
    /// The digest of the payload.
    pub digest: Digest,
    /// The signature of the sender, or zeros where the message is unsigned.
    pub signature: Signature,
}

/// The bytes of a header before its signature: the fields in the order of
/// their declaration, the integers in little endian.
pub open spec fn header_prefix(h: Header) -> Seq<u8> {
    spec_u16_to_le_bytes(h.version) + spec_u16_to_le_bytes(h.flags) + spec_u32_to_le_bytes(h.from)
        + spec_u32_to_le_bytes(h.to) + spec_u64_to_le_bytes(h.nonce) + spec_u32_to_le_bytes(
        h.length,
    ) + h.digest@
}

/// The bytes of a header: the fields before the signature, then the
/// signature.
pub open spec fn header_bytes(h: Header) -> Seq<u8> {
    header_prefix(h) + h.signature@
}

/// The bytes that a signature covers: the header with its signature field
/// zeroed, followed by the digest of the payload.
pub open spec fn signed_bytes(h: Header) -> Seq<u8> {
    header_prefix(h) + Seq::new(64, |i: int| 0u8) + h.digest@
}

/// Appends `data` to `out`.
pub fn extend(out: &mut Vec<u8>, data: &[u8])
    ensures
        final(out)@ == old(out)@ + data@,
{
    let mut i: usize = 0;
    while i < data.len()
        invariant
            i <= data.len(),
            out@ == old(out)@ + data@.take(i as int),
        decreases data.len() - i,
    {
        out.push(data[i]);
        assert(data@.take(i + 1) == data@.take(i as int).push(data@[i as int]));
        i += 1;
    }
    assert(data@.take(data@.len() as int) == data@);
}

/// A header has 120 bytes.
pub proof fn lemma_header_length(h: Header)
    ensures
        header_bytes(h).len() == HEADER_LENGTH,
{
    lemma_auto_spec_u16_to_from_le_bytes();
    lemma_auto_spec_u32_to_from_le_bytes();
    lemma_auto_spec_u64_to_from_le_bytes();
}

/// Two headers with the same bytes are the same header.
pub proof fn lemma_header_injective(h1: Header, h2: Header)
    requires
        header_bytes(h1) == header_bytes(h2),
    ensures
        h1 == h2,
{
    lemma_auto_spec_u16_to_from_le_bytes();
    lemma_auto_spec_u32_to_from_le_bytes();
    lemma_auto_spec_u64_to_from_le_bytes();
    let b1 = header_bytes(h1);
    let b2 = header_bytes(h2);
    assert(b1.subrange(0, 2) == spec_u16_to_le_bytes(h1.version));
    assert(b2.subrange(0, 2) == spec_u16_to_le_bytes(h2.version));
    assert(b1.subrange(2, 4) == spec_u16_to_le_bytes(h1.flags));
    assert(b2.subrange(2, 4) == spec_u16_to_le_bytes(h2.flags));
    assert(b1.subrange(4, 8) == spec_u32_to_le_bytes(h1.from));
    assert(b2.subrange(4, 8) == spec_u32_to_le_bytes(h2.from));
    assert(b1.subrange(8, 12) == spec_u32_to_le_bytes(h1.to));
    assert(b2.subrange(8, 12) == spec_u32_to_le_bytes(h2.to));
    assert(b1.subrange(12, 20) == spec_u64_to_le_bytes(h1.nonce));
    assert(b2.subrange(12, 20) == spec_u64_to_le_bytes(h2.nonce));
    assert(b1.subrange(20, 24) == spec_u32_to_le_bytes(h1.length));
    assert(b2.subrange(20, 24) == spec_u32_to_le_bytes(h2.length));
    assert(b1.subrange(24, 56) == h1.digest@);
    assert(b2.subrange(24, 56) == h2.digest@);
    assert(b1.subrange(56, 120) == h1.signature@);
    assert(b2.subrange(56, 120) == h2.signature@);
    assert(h1.digest.0@ =~= h2.digest.0@);
    assert(h1.signature.0@ =~= h2.signature.0@);
    assert(h1.digest.0 == h2.digest.0);
    assert(h1.signature.0 == h2.signature.0);
}

impl Header {
    /// The length of a header in bytes.
    pub const LENGTH: usize = 120;

    /// The id of the sender.
    pub fn from(&self) -> (r: NodeId)
        ensures
            r == NodeId(self.from),
    {
        NodeId(self.from)
    }

    /// The id of the receiver.
    pub fn to(&self) -> (r: NodeId)
        ensures
            r == NodeId(self.to),
    {
        NodeId(self.to)
    }

    /// The length of the payload in bytes.
    pub fn payload_length(&self) -> (r: usize)
        ensures
            r == self.length,
    {
        self.length as usize
    }

    /// The digest of the payload.
    pub fn digest(&self) -> (r: &Digest)
        ensures
            *r == self.digest,
    {
        &self.digest
    }

    /// The signature of the sender.
    pub fn signature(&self) -> (r: &Signature)
        ensures
            *r == self.signature,
    {
        &self.signature
    }

    /// The number that the sender picked for the message.
    pub fn nonce(&self) -> (r: u64)
        ensures
            r == self.nonce,
    {
        self.nonce
    }

    /// The bytes of this header before its signature.
    fn prefix_bytes(&self) -> (out: Vec<u8>)
        ensures
            out@ == header_prefix(*self),
    {
        let mut out: Vec<u8> = Vec::with_capacity(HEADER_LENGTH);
        extend(&mut out, u16_to_le_bytes(self.version).as_slice());
        extend(&mut out, u16_to_le_bytes(self.flags).as_slice());
        extend(&mut out, u32_to_le_bytes(self.from).as_slice());
        extend(&mut out, u32_to_le_bytes(self.to).as_slice());
        extend(&mut out, u64_to_le_bytes(self.nonce).as_slice());
        extend(&mut out, u32_to_le_bytes(self.length).as_slice());
        extend(&mut out, self.digest.0.as_slice());
        out
    }

    /// The 120 bytes of this header.
    pub fn serialize(&self) -> (out: Vec<u8>)
        ensures
            out@ == header_bytes(*self),
            out@.len() == HEADER_LENGTH,
    {
        let mut out = self.prefix_bytes();
        extend(&mut out, self.signature.0.as_slice());
        proof {
            lemma_header_length(*self);
        }
        out
    }

    /// Writes the 120 bytes of this header over the first 120 bytes of
    /// `buf`. A shorter buffer is an error of kind `CommunicationSerialize`,
    /// and stays as it was.
    pub fn serialize_into(&self, buf: &mut Vec<u8>) -> (r: Result<(), Error>)
        ensures
            r is Ok <==> old(buf)@.len() >= HEADER_LENGTH,
            r is Ok ==> final(buf)@ == header_bytes(*self) + old(buf)@.skip(HEADER_LENGTH as int),
            r is Err ==> final(buf)@ == old(buf)@ && r->Err_0.kind()
                == ErrorKind::CommunicationSerialize,
    {
        if buf.len() < HEADER_LENGTH {
            return Err(
                Error::simple_with_msg(
                    ErrorKind::CommunicationSerialize,
                    "Buffer is too short to hold a header",
                ),
            );
        }
        let bytes = self.serialize();
        let mut i: usize = 0;
        while i < HEADER_LENGTH
            invariant
                i <= HEADER_LENGTH,
                bytes@.len() == HEADER_LENGTH,
                buf@.len() == old(buf)@.len(),
                buf@.len() >= HEADER_LENGTH,
                forall|j: int| 0 <= j < i ==> buf@[j] == bytes@[j],
                forall|j: int| i <= j < buf@.len() ==> buf@[j] == old(buf)@[j],
            decreases HEADER_LENGTH - i,
        {
            buf[i] = bytes[i];
            i += 1;
        }
        assert(buf@ =~= header_bytes(*self) + old(buf)@.skip(HEADER_LENGTH as int));
        Ok(())
    }

    /// Reads a header from the first 120 bytes of `buf`. Every string of 120
    /// bytes is a header; a shorter buffer is an error of kind
    /// `CommunicationSerialize`.
    pub fn deserialize_from(buf: &[u8]) -> (r: Result<Header, Error>)
        ensures
            r is Ok <==> buf@.len() >= HEADER_LENGTH,
            r is Ok ==> header_bytes(r->Ok_0) == buf@.take(HEADER_LENGTH as int),
            r is Err ==> r->Err_0.kind() == ErrorKind::CommunicationSerialize,
    {
        if buf.len() < HEADER_LENGTH {
            return Err(
                Error::simple_with_msg(
                    ErrorKind::CommunicationSerialize,
                    "Buffer is too short to hold a header",
                ),
            );
        }
        let version = u16_from_le_bytes(&buf[0..2]);
        let flags = u16_from_le_bytes(&buf[2..4]);
        let from = u32_from_le_bytes(&buf[4..8]);
        let to = u32_from_le_bytes(&buf[8..12]);
        let nonce = u64_from_le_bytes(&buf[12..20]);
        let length = u32_from_le_bytes(&buf[20..24]);
        let digest = Digest(array32_from(&buf[24..56]));
        let signature = Signature::from_bytes_unchecked(&buf[56..120]);
        let h = Header { version, flags, from, to, nonce, length, digest, signature };
        proof {
            lemma_auto_spec_u16_to_from_le_bytes();
            lemma_auto_spec_u32_to_from_le_bytes();
            lemma_auto_spec_u64_to_from_le_bytes();
            let b = buf@;
            assert(b.subrange(24, 56).take(32) == b.subrange(24, 56));
            assert(b.subrange(56, 120).take(64) == b.subrange(56, 120));
            assert(header_bytes(h) =~= b.subrange(0, 2) + b.subrange(2, 4) + b.subrange(4, 8)
                + b.subrange(8, 12) + b.subrange(12, 20) + b.subrange(20, 24) + b.subrange(24, 56)
                + b.subrange(56, 120));
            assert(header_bytes(h) =~= b.take(HEADER_LENGTH as int));
        }
        Ok(h)
    }
}

/// Reading the bytes that were written gives the header back.
pub proof fn lemma_header_roundtrip(h: Header, read: Header, buf: Seq<u8>)
    requires
        buf.len() >= HEADER_LENGTH,
        buf.take(HEADER_LENGTH as int) == header_bytes(h),
        header_bytes(read) == buf.take(HEADER_LENGTH as int),
    ensures
        read == h,
{
    lemma_header_injective(read, h);
}

/// Whether a header and a payload make a well formed wire message, and,
/// where a public key is given, one that its sender signed: the version is
/// the current one, the length in the header is that of the payload, and with
/// a key the digest in the header is that of the payload and the signature
/// is one of the bytes it covers.
pub open spec fn wire_valid(h: Header, payload: Seq<u8>, public_key: Option<PublicKey>) -> bool {
    &&& h.version == CURRENT_VERSION
    &&& h.length == payload.len()
    &&& public_key matches Some(pk) ==> {
        &&& h.digest@ == sha256(payload)
        &&& ed25519_verifies(pk@, signed_bytes(h), h.signature@)
    }
}

/// A message as it travels: a header and the payload it describes.
#[derive(Copy, Clone)]
pub struct WireMessage<'a> {
    /// The header.
    pub header: Header,
    /// The payload.
    pub payload: &'a [u8],
}

impl<'a> WireMessage<'a> {
    /// Makes the wire message that carries `payload` from `from` to `to`.
    /// The digest in the header is `digest`, or the digest of the payload
    /// where none is given; the signature is that of `sk` over the header,
    /// or zeros where no key is given.
    pub fn new(
        from: NodeId,
        to: NodeId,
        payload: &'a [u8],
        nonce: u64,
        digest: Option<Digest>,
        sk: Option<&KeyPair>,
    ) -> (wm: WireMessage<'a>)
        requires
            payload@.len() <= u32::MAX,
        ensures
            wm.payload@ == payload@,
            wm.header.version == CURRENT_VERSION,
            wm.header.flags == 0,
            wm.header.from == from.0,
            wm.header.to == to.0,
            wm.header.nonce == nonce,
            wm.header.length == payload@.len(),
            wm.header.digest@ == (match digest {
                Some(d) => d@,
                None => sha256(payload@),
            }),
            wm.header.signature@ == (match sk {
                Some(k) => ed25519_signature(k.seed(), signed_bytes(wm.header)),
                None => Seq::new(64, |i: int| 0u8),
            }),
    {
        let digest = match digest {
            Some(d) => d,
            None => Digest::of(payload),
        };
        let mut header = Header {
            version: CURRENT_VERSION,
            flags: 0,
            from: from.0,
            to: to.0,
            nonce,
            length: payload.len() as u32,
            digest,
            signature: Signature::zero(),
        };
        match sk {
            Some(k) => {
                let covered = signed_bytes_of(&header);
                match k.sign(covered.as_slice()) {
                    Ok(signature) => {
                        header.signature = signature;
                    },
                    Err(_) => {},
                }
            },
            None => {},
        }
        WireMessage { header, payload }
    }

    /// Puts a header and a payload together. This fails with an error of
    /// kind `CommunicationSerialize` unless the header has the current
    /// version and the length of the payload.
    pub fn from_parts(header: Header, payload: &'a [u8]) -> (r: Result<WireMessage<'a>, Error>)
        ensures
            r is Ok <==> wire_valid(header, payload@, None),
            r is Ok ==> r->Ok_0.header == header && r->Ok_0.payload@ == payload@,
            r is Err ==> r->Err_0.kind() == ErrorKind::CommunicationSerialize,
    {
        let wm = WireMessage { header, payload };
        if !wm.is_valid(None) {
            return Err(
                Error::simple_with_msg(ErrorKind::CommunicationSerialize, "Invalid wire message"),
            );
        }
        Ok(wm)
    }

    /// Checks the version and the length in the header and, where a public
    /// key is given, the digest and the signature.
    pub fn is_valid(&self, public_key: Option<&PublicKey>) -> (ok: bool)
        ensures
            ok == wire_valid(
                self.header,
                self.payload@,
                match public_key {
                    Some(pk) => Some(*pk),
                    None => None,
                },
            ),
    {
        if self.header.version != CURRENT_VERSION {
            return false;
        }
        if self.payload.len() > 0xffff_ffff || self.header.length != self.payload.len() as u32 {
            return false;
        }
        match public_key {
            None => true,
            Some(pk) => {
                let digest = Digest::of(self.payload);
                if !(digest == self.header.digest) {
                    return false;
                }
                let covered = signed_bytes_of(&self.header);
                pk.verify(covered.as_slice(), &self.header.signature).is_ok()
            },
        }
    }

    /// The header.
    pub fn header(&self) -> (h: &Header)
        ensures
            *h == self.header,
    {
        &self.header
    }

    /// The payload.
    pub fn payload(&self) -> (p: &'a [u8])
        ensures
            p@ == self.payload@,
    {
        self.payload
    }

    /// The header and the payload.
    pub fn into_inner(self) -> (r: (Header, &'a [u8]))
        ensures
            r.0 == self.header,
            r.1@ == self.payload@,
    {
        (self.header, self.payload)
    }
}

/// The bytes that the signature of `header` covers.
pub fn signed_bytes_of(header: &Header) -> (out: Vec<u8>)
    ensures
        out@ == signed_bytes(*header),
{
    let mut out = header.prefix_bytes();
    let zero = Signature::zero();
    extend(&mut out, zero.0.as_slice());
    extend(&mut out, header.digest.0.as_slice());
    out
}

/// What a consensus message says.
#[derive(Clone, Debug)]
pub enum ConsensusMessageKind {
    /// A leader proposes a batch: its digest and the digests of the requests
    /// in it, in order.
    PrePrepare { digest: Digest, requests: Vec<Digest> },
    /// A replica has seen the proposal of the batch with this digest.
    Prepare(Digest),
    /// A replica has seen a quorum prepare the batch with this digest.
    Commit(Digest),
}

/// The three kinds of consensus message, without what they carry.
#[derive(Copy, Clone, Debug, PartialEq, Eq, Structural)]
pub enum ConsensusPhaseKind {
    /// A proposal.
    PrePrepare,
    /// A vote of the prepare phase.
    Prepare,
    /// A vote of the commit phase.
    Commit,
}

/// A message of the ordering protocol.
#[derive(Clone, Debug)]
pub struct ConsensusMessage {
    /// The consensus instance that the message belongs to.
    pub seq: SeqNo,
    /// The view in which it was sent.
    pub view: SeqNo,
    /// What it says.
    pub kind: ConsensusMessageKind,
}

impl ConsensusMessageKind {
    /// The kind without what it carries.
    pub open spec fn phase_kind(&self) -> ConsensusPhaseKind {
        match self {
            ConsensusMessageKind::PrePrepare { .. } => ConsensusPhaseKind::PrePrepare,
            ConsensusMessageKind::Prepare(_) => ConsensusPhaseKind::Prepare,
            ConsensusMessageKind::Commit(_) => ConsensusPhaseKind::Commit,
        }
    }

    /// The digest of the batch that the message speaks of.
    pub open spec fn batch_digest(&self) -> Digest {
        match self {
            ConsensusMessageKind::PrePrepare { digest, .. } => *digest,
            ConsensusMessageKind::Prepare(d) => *d,
            ConsensusMessageKind::Commit(d) => *d,
        }
    }
}

impl ConsensusMessage {
    /// A message of instance `seq` in view `view`.
    pub fn new(seq: SeqNo, view: SeqNo, kind: ConsensusMessageKind) -> (m: ConsensusMessage)
        ensures
            m.seq == seq,
            m.view == view,
            m.kind == kind,
    {
        ConsensusMessage { seq, view, kind }
    }

    /// The consensus instance that the message belongs to.
    pub fn sequence_number(&self) -> (s: SeqNo)
        ensures
            s == self.seq,
    {
        self.seq
    }

    /// The view in which the message was sent.
    pub fn view(&self) -> (v: SeqNo)
        ensures
            v == self.view,
    {
        self.view
    }

    /// What the message says.
    pub fn kind(&self) -> (k: &ConsensusMessageKind)
        ensures
            *k == self.kind,
    {
        &self.kind
    }

    /// The kind of the message without what it carries.
    pub fn phase_kind(&self) -> (k: ConsensusPhaseKind)
        ensures
            k == self.kind.phase_kind(),
    {
        match &self.kind {
            ConsensusMessageKind::PrePrepare { .. } => ConsensusPhaseKind::PrePrepare,
            ConsensusMessageKind::Prepare(_) => ConsensusPhaseKind::Prepare,
            ConsensusMessageKind::Commit(_) => ConsensusPhaseKind::Commit,
        }
    }

    /// The digest of the batch that the message speaks of.
    pub fn batch_digest(&self) -> (d: Digest)
        ensures
            d == self.kind.batch_digest(),
    {
        match &self.kind {
            ConsensusMessageKind::PrePrepare { digest, .. } => *digest,
            ConsensusMessageKind::Prepare(d) => *d,
            ConsensusMessageKind::Commit(d) => *d,
        }
    }
}

/// A message together with the header it arrived under.
#[derive(Clone)]
pub struct StoredMessage<M> {
    /// The header.
    pub header: Header,
    /// The message.
    pub message: M,
}

impl<M> StoredMessage<M> {
    /// Puts a header and a message together.
    pub fn new(header: Header, message: M) -> (s: StoredMessage<M>)
        ensures
            s.header == header,
            s.message == message,
    {
        StoredMessage { header, message }
    }

    /// The header.
    pub fn header(&self) -> (h: &Header)
        ensures
            *h == self.header,
    {
        &self.header
    }

    /// The message.
    pub fn message(&self) -> (m: &M)
        ensures
            *m == self.message,
    {
        &self.message
    }

    /// The header and the message.
    pub fn into_inner(self) -> (r: (Header, M))
        ensures
            r.0 == self.header,
            r.1 == self.message,
    {
        (self.header, self.message)
    }
}

} // verus!
