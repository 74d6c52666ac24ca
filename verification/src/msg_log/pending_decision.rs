//! The requests that arrived and were not ordered yet.

use crate::crypto::hash::{contains_digest, Digest};
use vstd::prelude::*;

verus! {

/// The digests of the requests that arrived, from clients or forwarded by
/// replicas, and were not decided yet, and of those that were decided since
/// the last checkpoint.
pub struct PendingRequestLog {
    requests: Vec<Digest>,
    decided: Vec<Digest>,
}

impl View for PendingRequestLog {
    type V = Seq<Digest>;

    closed spec fn view(&self) -> Seq<Digest> {
        self.requests@
    }
}

/// Whether every digest of `wanted` is among `have`.
pub open spec fn has_all(have: Seq<Digest>, wanted: Seq<Digest>) -> bool {
    forall|i: int| 0 <= i < wanted.len() ==> have.contains(#[trigger] wanted[i])
}

impl PendingRequestLog {
    /// The digests of the requests that were decided since the last
    /// checkpoint, in contracts.
    pub closed spec fn decided(&self) -> Seq<Digest> {
        self.decided@
    }

    /// A log without requests.
    pub fn new() -> (log: PendingRequestLog)
        ensures
            log@ == Seq::<Digest>::empty(),
            log.decided() == Seq::<Digest>::empty(),
    {
        PendingRequestLog { requests: Vec::new(), decided: Vec::new() }
    }

    /// Whether the request with this digest was decided since the last
    /// checkpoint.
    pub fn was_decided(&self, digest: &Digest) -> (r: bool)
        ensures
            r == self.decided().contains(*digest),
    {
        contains_digest(&self.decided, digest)
    }

    /// A checkpoint was completed: the log forgets which requests were
    /// decided before it.
    pub fn forget_decided(&mut self)
        ensures
            final(self)@ == old(self)@,
            final(self).decided() == Seq::<Digest>::empty(),
    {
        self.decided.clear();
    }

    /// The number of requests that wait.
    pub fn len(&self) -> (n: usize)
        ensures
            n == self@.len(),
    {
        self.requests.len()
    }

    /// Whether the request with this digest waits.
    pub fn has_request(&self, digest: &Digest) -> (r: bool)
        ensures
            r == self@.contains(*digest),
    {
        contains_digest(&self.requests, digest)
    }

    /// Whether all the requests with these digests wait.
    pub fn has_requests(&self, digests: &Vec<Digest>) -> (r: bool)
        ensures
            r == has_all(self@, digests@),
    {
        let mut i: usize = 0;
        while i < digests.len()
            invariant
                i <= digests.len(),
                forall|j: int| 0 <= j < i ==> self@.contains(#[trigger] digests@[j]),
            decreases digests.len() - i,
        {
            if !contains_digest(&self.requests, &digests[i]) {
                return false;
            }
            i += 1;
        }
        true
    }

    /// A request arrived, from a client or forwarded by a replica. One that
    /// waits already is not added again, and one that was decided is
    /// dropped; what comes back says whether it was added.
    pub fn insert(&mut self, digest: Digest) -> (added: bool)
        ensures
            added == (!old(self)@.contains(digest) && !old(self).decided().contains(digest)),
            final(self)@ == (if added {
                old(self)@.push(digest)
            } else {
                old(self)@
            }),
            final(self).decided() == old(self).decided(),
    {
        if contains_digest(&self.requests, &digest) || contains_digest(&self.decided, &digest) {
            false
        } else {
            self.requests.push(digest);
            true
        }
    }

    /// The requests with these digests were decided: they wait no longer,
    /// and are remembered as decided.
    pub fn delete_decided(&mut self, decided: &Vec<Digest>)
        ensures
            final(self)@ == old(self)@.filter(|d: Digest| !decided@.contains(d)),
            final(self).decided() == old(self).decided() + decided@,
    {
        let ghost keep = |d: Digest| !decided@.contains(d);
        let mut kept: Vec<Digest> = Vec::new();
        let mut i: usize = 0;
        while i < self.requests.len()
            invariant
                i <= self.requests.len(),
                *self == *old(self),
                keep == (|d: Digest| !decided@.contains(d)),
                kept@ == self.requests@.take(i as int).filter(keep),
            decreases self.requests.len() - i,
        {
            let d = self.requests[i];
            proof {
                let s = self.requests@.take(i + 1);
                assert(s.drop_last() == self.requests@.take(i as int));
                reveal(Seq::filter);
            }
            if !contains_digest(decided, &d) {
                kept.push(d);
            }
            i += 1;
        }
        assert(self.requests@.take(i as int) == self.requests@);
        self.requests = kept;
        let mut j: usize = 0;
        while j < decided.len()
            invariant
                j <= decided.len(),
                self.requests@ == kept@,
                self.decided@ == old(self).decided@ + decided@.take(j as int),
            decreases decided.len() - j,
        {
            self.decided.push(decided[j]);
            assert(decided@.take(j + 1) == decided@.take(j as int).push(decided@[j as int]));
            j += 1;
        }
        assert(decided@.take(j as int) == decided@);
    }

    /// Of the requests with these digests, those that wait: the others were
    /// decided or never arrived, and are not forwarded.
    pub fn clone_pending_requests(&self, digests: &Vec<Digest>) -> (r: Vec<Digest>)
        ensures
            r@ == digests@.filter(|d: Digest| self@.contains(d)),
    {
        let ghost keep = |d: Digest| self@.contains(d);
        let mut out: Vec<Digest> = Vec::new();
        let mut i: usize = 0;
        while i < digests.len()
            invariant
                i <= digests.len(),
                keep == (|d: Digest| self@.contains(d)),
                out@ == digests@.take(i as int).filter(keep),
            decreases digests.len() - i,
        {
            let d = digests[i];
            proof {
                let s = digests@.take(i + 1);
                assert(s.drop_last() == digests@.take(i as int));
                reveal(Seq::filter);
            }
            if contains_digest(&self.requests, &d) {
                out.push(d);
            }
            i += 1;
        }
        assert(digests@.take(i as int) == digests@);
        out
    }
}

} // verus!
