//! SHA-256 digests of payloads and of batches.

use crate::error::{Error, ErrorKind};
use vstd::prelude::*;

verus! {

/// The SHA-256 digest of `data`, as `ring` computes it.
pub uninterp spec fn sha256(data: Seq<u8>) -> Seq<u8>;

/// Calls `ring::digest::digest` with the algorithm `SHA256`. The contract
/// names the 32 bytes that come back: the digest is a function of the data
/// alone.
#[verifier::external_body]
fn sha256_digest(data: &[u8]) -> (out: [u8; 32])
    ensures
        out@ == sha256(data@),
{
    let digest = ring::digest::digest(&ring::digest::SHA256, data);
    let mut out = [0u8; 32];
    out.copy_from_slice(digest.as_ref());
    out
}

/// A digest: 32 bytes.
#[derive(Copy, Clone, Debug)]
pub struct Digest(pub [u8; 32]);

impl View for Digest {
    type V = Seq<u8>;

    open spec fn view(&self) -> Seq<u8> {
        self.0@
    }
}

impl PartialEq for Digest {
    fn eq(&self, other: &Digest) -> (r: bool) {
        let mut i: usize = 0;
        while i < 32
            invariant
                i <= 32,
                forall|j: int| 0 <= j < i ==> self.0@[j] == other.0@[j],
            decreases 32 - i,
        {
            if self.0[i] != other.0[i] {
                return false;
            }
            i += 1;
        }
        assert(self.0@ =~= other.0@);
        true
    }
}

impl Eq for Digest {

}

impl vstd::std_specs::cmp::PartialEqSpecImpl for Digest {
    open spec fn obeys_eq_spec() -> bool {
        true
    }

    open spec fn eq_spec(&self, other: &Digest) -> bool {
        self.0@ == other.0@
    }
}

/// The first 32 bytes of `raw`, which holds at least that many, as an array.
pub fn array32_from(raw: &[u8]) -> (out: [u8; 32])
    requires
        raw@.len() >= 32,
    ensures
        out@ == raw@.take(32),
{
    let mut out: [u8; 32] = [0u8; 32];
    let mut i: usize = 0;
    while i < 32
        invariant
            i <= 32,
            raw@.len() >= 32,
            forall|j: int| 0 <= j < i ==> out@[j] == raw@[j],
        decreases 32 - i,
    {
        out[i] = raw[i];
        i += 1;
    }
    assert(out@ =~= raw@.take(32));
    out
}

impl Digest {
    /// The length of a digest in bytes.
    pub const LENGTH: usize = 32;

    /// The digest made of zeros: the digest of nothing yet.
    pub fn zero() -> (d: Digest)
        ensures
            d@ == Seq::new(32, |i: int| 0u8),
    {
        let a: [u8; 32] = [0u8; 32];
        assert(a@ =~= Seq::new(32, |i: int| 0u8));
        Digest(a)
    }

    /// Reads a digest from the first 32 bytes of `raw_bytes`. Fewer bytes
    /// than that are an error of kind `CryptoHash`.
    pub fn from_bytes(raw_bytes: &[u8]) -> (r: Result<Digest, Error>)
        ensures
            r is Ok <==> raw_bytes@.len() >= 32,
            r is Ok ==> r->Ok_0@ == raw_bytes@.take(32),
            r is Err ==> r->Err_0.kind() == ErrorKind::CryptoHash,
    {
        if raw_bytes.len() < 32 {
            return Err(Error::simple_with_msg(ErrorKind::CryptoHash, "Digest has an invalid length"));
        }
        Ok(Digest(array32_from(raw_bytes)))
    }

    /// The SHA-256 digest of `data`.
    pub fn of(data: &[u8]) -> (d: Digest)
        ensures
            d@ == sha256(data@),
    {
        Digest(sha256_digest(data))
    }

    /// The bytes of this digest.
    pub fn to_vec(&self) -> (v: Vec<u8>)
        ensures
            v@ == self@,
    {
        let mut v: Vec<u8> = Vec::with_capacity(32);
        let mut i: usize = 0;
        while i < 32
            invariant
                i <= 32,
                v@ == self.0@.take(i as int),
            decreases 32 - i,
        {
            v.push(self.0[i]);
            assert(self.0@.take(i + 1) == self.0@.take(i as int).push(self.0@[i as int]));
            i += 1;
        }
        assert(self.0@.take(32) == self.0@);
        v
    }

    /// Appends the bytes of this digest to `out`.
    pub fn append_to(&self, out: &mut Vec<u8>)
        ensures
            final(out)@ == old(out)@ + self@,
    {
        let mut i: usize = 0;
        while i < 32
            invariant
                i <= 32,
                out@ == old(out)@ + self.0@.take(i as int),
            decreases 32 - i,
        {
            out.push(self.0[i]);
            assert(self.0@.take(i + 1) == self.0@.take(i as int).push(self.0@[i as int]));
            i += 1;
        }
        assert(self.0@.take(32) == self.0@);
    }
}

/// The bytes of the digests of `digests`, one after another.
pub open spec fn concat_digests(digests: Seq<Digest>) -> Seq<u8>
    decreases digests.len(),
{
    if digests.len() == 0 {
        Seq::empty()
    } else {
        concat_digests(digests.drop_last()) + digests.last()@
    }
}

/// The hash chain of a list of digests: the digest of their bytes, one after
/// another.
pub open spec fn hash_chain(digests: Seq<Digest>) -> Seq<u8> {
    sha256(concat_digests(digests))
}

/// An incremental hash: the digest of everything that was fed to it.
pub struct Context {
    data: Vec<u8>,
}

impl Context {
    /// The bytes fed so far.
    pub closed spec fn fed(&self) -> Seq<u8> {
        self.data@
    }

    /// A context that was fed nothing.
    pub fn new() -> (c: Context)
        ensures
            c.fed() == Seq::<u8>::empty(),
    {
        Context { data: Vec::new() }
    }

    /// Feeds `data`.
    pub fn update(&mut self, data: &[u8])
        ensures
            final(self).fed() == old(self).fed() + data@,
    {
        let mut i: usize = 0;
        while i < data.len()
            invariant
                i <= data.len(),
                self.data@ == old(self).data@ + data@.take(i as int),
            decreases data.len() - i,
        {
            self.data.push(data[i]);
            assert(data@.take(i + 1) == data@.take(i as int).push(data@[i as int]));
            i += 1;
        }
        assert(data@.take(data@.len() as int) == data@);
    }

    /// Feeds the bytes of a digest.
    pub fn update_digest(&mut self, digest: &Digest)
        ensures
            final(self).fed() == old(self).fed() + digest@,
    {
        digest.append_to(&mut self.data);
    }

    /// The digest of what was fed.
    pub fn finish(self) -> (d: Digest)
        ensures
            d@ == sha256(self.fed()),
    {
        Digest::of(self.data.as_slice())
    }
}

/// The hash chain of `digests`.
pub fn chain_digests(digests: &Vec<Digest>) -> (d: Digest)
    ensures
        d@ == hash_chain(digests@),
{
    let mut ctx = Context::new();
    let mut i: usize = 0;
    while i < digests.len()
        invariant
            i <= digests.len(),
            ctx.fed() == concat_digests(digests@.take(i as int)),
        decreases digests.len() - i,
    {
        ctx.update_digest(&digests[i]);
        assert(digests@.take(i + 1).drop_last() == digests@.take(i as int));
        i += 1;
    }
    assert(digests@.take(i as int) == digests@);
    ctx.finish()
}

/// Two digests with the same bytes are the same digest.
pub proof fn lemma_digest_ext(a: Digest, b: Digest)
    ensures
        (a@ == b@) <==> (a == b),
{
    if a@ == b@ {
        assert(a.0@ =~= b.0@);
        assert(a.0 == b.0);
    }
}

/// Whether `d` is among `digests`.
pub fn contains_digest(digests: &Vec<Digest>, d: &Digest) -> (r: bool)
    ensures
        r == digests@.contains(*d),
{
    let mut i: usize = 0;
    while i < digests.len()
        invariant
            i <= digests.len(),
            forall|j: int| 0 <= j < i ==> digests@[j] != *d,
        decreases digests.len() - i,
    {
        if digests[i] == *d {
            proof {
                lemma_digest_ext(digests@[i as int], *d);
            }
            return true;
        }
        proof {
            lemma_digest_ext(digests@[i as int], *d);
        }
        i += 1;
    }
    false
}

/// A copy of a list of digests.
pub fn clone_digests(digests: &Vec<Digest>) -> (r: Vec<Digest>)
    ensures
        r@ == digests@,
{
    let mut out: Vec<Digest> = Vec::with_capacity(digests.len());
    let mut i: usize = 0;
    while i < digests.len()
        invariant
            i <= digests.len(),
            out@ == digests@.take(i as int),
        decreases digests.len() - i,
    {
        out.push(digests[i]);
        assert(digests@.take(i + 1) == digests@.take(i as int).push(digests@[i as int]));
        i += 1;
    }
    assert(digests@.take(digests@.len() as int) == digests@);
    out
}

} // verus!
