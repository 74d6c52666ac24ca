//! The work that the pool of workers does for the pipelines: to write a
//! message as a payload and to digest it, and to read a payload back.

use crate::communication::message::Header;
use crate::communication::serialize::{
    deserialize_message as read_message, encodable, encode, serialize_message, well_formed,
    SystemMessage,
};
use crate::crypto::hash::{sha256, Digest};
use crate::error::{Error, ErrorKind};
use vstd::prelude::*;

verus! {

/// `bytes::Bytes`, a buffer of bytes that is not written to. What it holds
/// is known through `bytes_of` alone.
#[verifier::external_type_specification]
#[verifier::external_body]
pub struct ExBytes(bytes::Bytes);

/// `bytes::BytesMut`, a buffer of bytes. What it holds is known through
/// `bytes_mut_of` alone.
#[verifier::external_type_specification]
#[verifier::external_body]
pub struct ExBytesMut(bytes::BytesMut);

/// The bytes that a `Bytes` holds.
pub uninterp spec fn bytes_of(b: bytes::Bytes) -> Seq<u8>;

/// The bytes that a `BytesMut` holds.
pub uninterp spec fn bytes_mut_of(b: bytes::BytesMut) -> Seq<u8>;

/// Calls `Bytes::from` on a vector: the buffer holds the bytes of the
/// vector.
#[verifier::external_body]
fn bytes_from_vec(v: Vec<u8>) -> (b: bytes::Bytes)
    ensures
        bytes_of(b) == v@,
{
    bytes::Bytes::from(v)
}

/// Calls `Deref::deref` of `BytesMut` and copies the slice: the vector holds
/// the bytes of the buffer.
#[verifier::external_body]
fn bytes_mut_to_vec(b: &bytes::BytesMut) -> (v: Vec<u8>)
    ensures
        v@ == bytes_mut_of(*b),
{
    b.to_vec()
}

/// Writes the payload of a message and computes its digest. A message that
/// cannot be written is refused with an error of kind
/// `CommunicationSerialize`.
pub fn serialize_digest(message: &SystemMessage, buf: &mut Vec<u8>) -> (r: Result<Digest, Error>)
    ensures
        r is Ok <==> encodable(*message),
        r is Ok ==> final(buf)@ == old(buf)@ + encode(*message) && r->Ok_0@ == sha256(
            encode(*message),
        ),
        r is Err ==> final(buf)@ == old(buf)@ && r->Err_0.kind() == ErrorKind::CommunicationSerialize,
{
    let start = buf.len();
    match serialize_message(message, buf) {
        Err(e) => Err(e),
        Ok(()) => {
            let written = &buf.as_slice()[start..buf.len()];
            assert(written@ =~= encode(*message));
            Ok(Digest::of(written))
        },
    }
}

/// Writes the payload of a message into a buffer of its own and computes
/// its digest.
pub fn serialize_digest_message(message: &SystemMessage) -> (r: Result<(bytes::Bytes, Digest), Error>)
    ensures
        r is Ok <==> encodable(*message),
        r is Ok ==> bytes_of(r->Ok_0.0) == encode(*message) && r->Ok_0.1@ == sha256(
            encode(*message),
        ),
        r is Err ==> r->Err_0.kind() == ErrorKind::CommunicationSerialize,
{
    let mut buf: Vec<u8> = Vec::with_capacity(512);
    match serialize_digest(message, &mut buf) {
        Err(e) => Err(e),
        Ok(digest) => {
            assert(buf@ =~= encode(*message));
            Ok((bytes_from_vec(buf), digest))
        },
    }
}

/// Reads the message that the first bytes of `payload` are, as many as the
/// header announces, and hands the buffer back for the next message. This
/// fails with an error of kind `CommunicationSerialize` where the buffer
/// holds fewer bytes than the header announces, and where the bytes are no
/// payload.
pub fn deserialize_message(header: Header, payload: bytes::BytesMut) -> (r: Result<
    (SystemMessage, bytes::BytesMut),
    Error,
>)
    ensures
        r is Ok <==> (header.length <= bytes_mut_of(payload).len() && well_formed(
            bytes_mut_of(payload).take(header.length as int),
        )),
        r is Ok ==> encode(r->Ok_0.0) == bytes_mut_of(payload).take(header.length as int)
            && r->Ok_0.1 == payload,
        r is Err ==> r->Err_0.kind() == ErrorKind::CommunicationSerialize,
{
    let bytes = bytes_mut_to_vec(&payload);
    let len = header.payload_length();
    if len > bytes.len() {
        return Err(Error::simple_with_msg(ErrorKind::CommunicationSerialize, "Payload is too short"));
    }
    let part = &bytes.as_slice()[0..len];
    assert(part@ =~= bytes_mut_of(payload).take(header.length as int));
    match read_message(part) {
        Ok(m) => Ok((m, payload)),
        Err(e) => Err(e),
    }
}

} // verus!
