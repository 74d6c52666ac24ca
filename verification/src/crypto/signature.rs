//! Ed25519 signatures over messages.

use crate::error::{Error, ErrorKind};
use crate::crypto::hash::array32_from;
use vstd::prelude::*;

verus! {

/// The public key that belongs to the private key seed `seed`, as `ring`
/// derives it.
pub uninterp spec fn ed25519_public_key(seed: Seq<u8>) -> Seq<u8>;

/// The signature of `message` under the private key seed `seed`, as `ring`
/// computes it.
pub uninterp spec fn ed25519_signature(seed: Seq<u8>, message: Seq<u8>) -> Seq<u8>;

/// Whether `ring` accepts `signature` as one of `message` under `public_key`.
pub uninterp spec fn ed25519_verifies(public_key: Seq<u8>, message: Seq<u8>, signature: Seq<u8>) -> bool;

/// `ring::error::KeyRejected`, the reason why `ring` refused a key. Nothing
/// is known of its values.
#[verifier::external_type_specification]
#[verifier::external_body]
pub struct ExKeyRejected(ring::error::KeyRejected);

/// Calls `ring::signature::Ed25519KeyPair::from_seed_unchecked` and reads the
/// public key of the pair. The seed is accepted if and only if it has 32
/// bytes; the 32 bytes of the key are named, being a function of the seed.
#[verifier::external_body]
fn ring_public_key(seed: &[u8]) -> (r: Result<[u8; 32], ring::error::KeyRejected>)
    ensures
        r is Ok <==> seed@.len() == 32,
        r is Ok ==> r->Ok_0@ == ed25519_public_key(seed@),
{
    let pair = ring::signature::Ed25519KeyPair::from_seed_unchecked(seed)?;
    let mut out = [0u8; 32];
    out.copy_from_slice(ring::signature::KeyPair::public_key(&pair).as_ref());
    Ok(out)
}

/// Calls `ring::signature::Ed25519KeyPair::sign` with the pair of the given
/// seed. Ed25519 signatures are deterministic: the 64 bytes are named.
#[verifier::external_body]
fn ring_sign(seed: &[u8; 32], message: &[u8]) -> (out: [u8; 64])
    ensures
        out@ == ed25519_signature(seed@, message@),
{
    let pair = ring::signature::Ed25519KeyPair::from_seed_unchecked(seed).unwrap();
    let mut out = [0u8; 64];
    out.copy_from_slice(pair.sign(message).as_ref());
    out
}

/// Calls `ring::signature::UnparsedPublicKey::verify` with the algorithm
/// `ED25519`. Whether the signature is accepted is named: it depends on the
/// three byte strings alone.
#[verifier::external_body]
fn ring_verify(public_key: &[u8], message: &[u8], signature: &[u8]) -> (ok: bool)
    ensures
        ok == ed25519_verifies(public_key@, message@, signature@),
{
    ring::signature::UnparsedPublicKey::new(&ring::signature::ED25519, public_key)
        .verify(message, signature)
        .is_ok()
}

/// A signature: 64 bytes.
#[derive(Copy, Clone)]
pub struct Signature(pub [u8; 64]);

impl View for Signature {
    type V = Seq<u8>;

    open spec fn view(&self) -> Seq<u8> {
        self.0@
    }
}

impl Signature {
    /// The length of a signature in bytes.
    pub const LENGTH: usize = 64;

    /// The signature made of zeros, which marks a message as unsigned.
    pub fn zero() -> (s: Signature)
        ensures
            s@ == Seq::new(64, |i: int| 0u8),
    {
        let a: [u8; 64] = [0u8; 64];
        assert(a@ =~= Seq::new(64, |i: int| 0u8));
        Signature(a)
    }

    /// Reads a signature from the first 64 bytes of `raw_bytes`. Fewer bytes
    /// than that are an error of kind `CryptoSignatureRingEd25519`.
    pub fn from_bytes(raw_bytes: &[u8]) -> (r: Result<Signature, Error>)
        ensures
            r is Ok <==> raw_bytes@.len() >= 64,
            r is Ok ==> r->Ok_0@ == raw_bytes@.take(64),
            r is Err ==> r->Err_0.kind() == ErrorKind::CryptoSignatureRingEd25519,
    {
        if raw_bytes.len() < 64 {
            return Err(
                Error::simple_with_msg(
                    ErrorKind::CryptoSignatureRingEd25519,
                    "Signature has an invalid length",
                ),
            );
        }
        Ok(Signature::from_bytes_unchecked(raw_bytes))
    }

    /// Reads a signature from the first 64 bytes of `raw_bytes`.
    pub fn from_bytes_unchecked(raw_bytes: &[u8]) -> (s: Signature)
        requires
            raw_bytes@.len() >= 64,
        ensures
            s@ == raw_bytes@.take(64),
    {
        let mut inner: [u8; 64] = [0u8; 64];
        let mut i: usize = 0;
        while i < 64
            invariant
                i <= 64,
                raw_bytes@.len() >= 64,
                forall|j: int| 0 <= j < i ==> inner@[j] == raw_bytes@[j],
            decreases 64 - i,
        {
            inner[i] = raw_bytes[i];
            i += 1;
        }
        assert(inner@ =~= raw_bytes@.take(64));
        Signature(inner)
    }

    /// Whether every byte is zero: the mark of an unsigned message.
    pub fn is_zero(&self) -> (r: bool)
        ensures
            r == (self@ == Seq::new(64, |i: int| 0u8)),
    {
        let mut i: usize = 0;
        while i < 64
            invariant
                i <= 64,
                forall|j: int| 0 <= j < i ==> self.0@[j] == 0u8,
            decreases 64 - i,
        {
            if self.0[i] != 0 {
                assert(Seq::new(64, |k: int| 0u8)[i as int] == 0u8);
                return false;
            }
            i += 1;
        }
        assert(self.0@ =~= Seq::new(64, |k: int| 0u8));
        true
    }
}

/// A public key: 32 bytes.
#[derive(Copy, Clone, Debug)]
pub struct PublicKey(pub [u8; 32]);

impl View for PublicKey {
    type V = Seq<u8>;

    open spec fn view(&self) -> Seq<u8> {
        self.0@
    }
}

impl PublicKey {
    /// Reads a public key from `raw_bytes`, which must hold exactly 32 bytes.
    pub fn from_bytes(raw_bytes: &[u8]) -> (r: Result<PublicKey, Error>)
        ensures
            r is Ok <==> raw_bytes@.len() == 32,
            r is Ok ==> r->Ok_0@ == raw_bytes@,
            r is Err ==> r->Err_0.kind() == ErrorKind::CryptoSignatureRingEd25519,
    {
        if raw_bytes.len() != 32 {
            return Err(
                Error::simple_with_msg(
                    ErrorKind::CryptoSignatureRingEd25519,
                    "Public key has an invalid length",
                ),
            );
        }
        let key = PublicKey(array32_from(raw_bytes));
        assert(raw_bytes@.take(32) == raw_bytes@);
        Ok(key)
    }

    /// Checks `signature` against `message`: `Ok` if and only if the
    /// signature is one of the message under this key.
    pub fn verify(&self, message: &[u8], signature: &Signature) -> (r: Result<(), Error>)
        ensures
            r is Ok <==> ed25519_verifies(self@, message@, signature@),
            r is Err ==> r->Err_0.kind() == ErrorKind::CryptoSignatureRingEd25519,
    {
        if ring_verify(self.0.as_slice(), message, signature.0.as_slice()) {
            Ok(())
        } else {
            Err(Error::simple_with_msg(ErrorKind::CryptoSignatureRingEd25519, "Invalid signature"))
        }
    }
}

/// A private key seed with the public key that belongs to it.
#[derive(Clone)]
pub struct KeyPair {
    seed: [u8; 32],
    pk: PublicKey,
}

impl KeyPair {
    /// The private key seed.
    pub closed spec fn seed(&self) -> Seq<u8> {
        self.seed@
    }

    /// The public key.
    pub closed spec fn public(&self) -> PublicKey {
        self.pk
    }

    /// The public key is the one of the seed.
    pub closed spec fn wf(&self) -> bool {
        self.pk@ == ed25519_public_key(self.seed@)
    }

    /// Makes the key pair of a private key seed, which must hold exactly 32
    /// bytes.
    pub fn from_bytes(seed_bytes: &[u8]) -> (r: Result<KeyPair, Error>)
        ensures
            r is Ok <==> seed_bytes@.len() == 32,
            r is Ok ==> r->Ok_0.wf() && r->Ok_0.seed() == seed_bytes@,
            r is Err ==> r->Err_0.kind() == ErrorKind::CryptoSignatureRingEd25519,
    {
        match ring_public_key(seed_bytes) {
            Ok(pk) => {
                let seed = array32_from(seed_bytes);
                assert(seed_bytes@.take(32) == seed_bytes@);
                Ok(KeyPair { seed, pk: PublicKey(pk) })
            },
            Err(_) => Err(
                Error::simple_with_msg(
                    ErrorKind::CryptoSignatureRingEd25519,
                    "Invalid seed for ed25519 key",
                ),
            ),
        }
    }

    /// The public key of this pair.
    pub fn public_key(&self) -> (pk: PublicKey)
        ensures
            pk == self.public(),
    {
        self.pk
    }

    /// Signs `message`.
    pub fn sign(&self, message: &[u8]) -> (r: Result<Signature, Error>)
        ensures
            r is Ok,
            r->Ok_0@ == ed25519_signature(self.seed(), message@),
    {
        Ok(Signature(ring_sign(&self.seed, message)))
    }

    /// Checks `signature` against `message` with the public key of this
    /// pair.
    pub fn verify(&self, message: &[u8], signature: &Signature) -> (r: Result<(), Error>)
        ensures
            r is Ok <==> ed25519_verifies(self.public()@, message@, signature@),
            r is Err ==> r->Err_0.kind() == ErrorKind::CryptoSignatureRingEd25519,
    {
        self.pk.verify(message, signature)
    }
}

} // verus!
