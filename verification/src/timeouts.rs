//! The timeout service: timers of client requests, kept by deadline.
//!
//! The service holds no clock. Whoever drives it says what time it is, in
//! milliseconds, when it arms a timer and when it asks which timers expired.

use crate::crypto::hash::Digest;
use crate::node_id::NodeId;
use crate::ordering::SeqNo;
use vstd::prelude::*;

verus! {

/// The request that a timer watches.
#[derive(Copy, Clone, Debug)]
pub struct ClientRqInfo {
    /// The digest of the request.
    pub digest: Digest,
    /// The client that sent it.
    pub sender: NodeId,
    /// The session of the client.
    pub session: SeqNo,
    /// The number of the operation within the session.
    pub operation_id: SeqNo,
}

/// What a timer is for.
#[derive(Copy, Clone, Debug, PartialEq, Eq, Structural)]
pub enum TimeoutKind {
    /// A client request should have been ordered.
    ClientRequest,
    /// A view change should have ended.
    ViewChange,
}

/// A timer.
#[derive(Copy, Clone, Debug)]
pub struct Timeout {
    /// The time at which the timer expires.
    pub deadline: u64,
    /// What the timer is for.
    pub kind: TimeoutKind,
    /// The request that it watches.
    pub info: ClientRqInfo,
}

/// Whether the timers are in the order of their deadlines.
pub open spec fn sorted(timers: Seq<Timeout>) -> bool {
    forall|i: int, j: int| 0 <= i <= j < timers.len() ==> timers[i].deadline <= timers[j].deadline
}

/// The number of timers at the front of `timers` whose deadline is not
/// after `now`.
pub open spec fn due(timers: Seq<Timeout>, now: u64) -> nat
    decreases timers.len(),
{
    if timers.len() == 0 || timers[0].deadline > now {
        0
    } else {
        1 + due(timers.drop_first(), now)
    }
}

/// The sum of a time and a duration, or the latest time where the sum is
/// beyond it.
pub open spec fn deadline_of(now: u64, dur: u64) -> u64 {
    if now + dur <= u64::MAX {
        (now + dur) as u64
    } else {
        u64::MAX
    }
}

/// Among sorted timers, those that are due are exactly those whose deadline
/// is not after `now`.
pub proof fn lemma_due(timers: Seq<Timeout>, now: u64)
    requires
        sorted(timers),
    ensures
        due(timers, now) <= timers.len(),
        forall|i: int| 0 <= i < due(timers, now) ==> (#[trigger] timers[i]).deadline <= now,
        forall|i: int| due(timers, now) <= i < timers.len() ==> (#[trigger] timers[i]).deadline > now,
    decreases timers.len(),
{
    if timers.len() == 0 || timers[0].deadline > now {
    } else {
        let rest = timers.drop_first();
        assert(sorted(rest)) by {
            assert forall|i: int, j: int| 0 <= i <= j < rest.len() implies rest[i].deadline
                <= rest[j].deadline by {
                assert(rest[i] == timers[i + 1]);
                assert(rest[j] == timers[j + 1]);
            }
        }
        lemma_due(rest, now);
        assert forall|i: int| 0 <= i < due(timers, now) implies (#[trigger] timers[i]).deadline
            <= now by {
            if i > 0 {
                assert(timers[i] == rest[i - 1]);
            }
        }
        assert forall|i: int| due(timers, now) <= i < timers.len() implies (#[trigger] timers[i]).deadline
            > now by {
            assert(timers[i] == rest[i - 1]);
        }
    }
}

/// The timers of a replica, in the order of their deadlines; timers with
/// the same deadline are in the order in which they were armed.
pub struct Timeouts {
    timers: Vec<Timeout>,
}

impl View for Timeouts {
    type V = Seq<Timeout>;

    closed spec fn view(&self) -> Seq<Timeout> {
        self.timers@
    }
}

impl Timeouts {
    /// A service without timers.
    pub fn new() -> (t: Timeouts)
        ensures
            t@ == Seq::<Timeout>::empty(),
            sorted(t@),
    {
        Timeouts { timers: Vec::new() }
    }

    /// The number of timers.
    pub fn len(&self) -> (n: usize)
        ensures
            n == self@.len(),
    {
        self.timers.len()
    }

    /// The earliest deadline, if there is a timer.
    pub fn next_deadline(&self) -> (r: Option<u64>)
        ensures
            r == (if self@.len() > 0 {
                Some(self@[0].deadline)
            } else {
                None
            }),
    {
        if self.timers.len() > 0 {
            Some(self.timers[0].deadline)
        } else {
            None
        }
    }

    /// Arms a timer for the request `info` that expires `dur` milliseconds
    /// after `now`. It takes its place after the timers that expire no later
    /// than it.
    pub fn arm(&mut self, kind: TimeoutKind, info: ClientRqInfo, now: u64, dur: u64)
        requires
            sorted(old(self)@),
        ensures
            sorted(final(self)@),
            final(self)@ == old(self)@.insert(
                due(old(self)@, deadline_of(now, dur)) as int,
                Timeout { deadline: deadline_of(now, dur), kind, info },
            ),
    {
        let deadline = if dur <= u64::MAX - now {
            now + dur
        } else {
            u64::MAX
        };
        let timer = Timeout { deadline, kind, info };
        proof {
            lemma_due(self@, deadline);
        }
        let mut pos: usize = 0;
        while pos < self.timers.len() && self.timers[pos].deadline <= deadline
            invariant
                pos <= self.timers.len(),
                *self == *old(self),
                pos <= due(self@, deadline) <= self@.len(),
                forall|i: int| 0 <= i < due(self@, deadline) ==> (#[trigger] self@[i]).deadline <= deadline,
                forall|i: int| due(self@, deadline) <= i < self@.len() ==> (#[trigger] self@[i]).deadline > deadline,
            decreases self.timers.len() - pos,
        {
            pos += 1;
        }
        assert(pos == due(self@, deadline));
        self.timers.insert(pos, timer);
    }

    /// Takes out the timers that expired by `now`, in the order of their
    /// deadlines: all of them at once, so that the replica decides once for
    /// all requests that expired together.
    pub fn tick(&mut self, now: u64) -> (expired: Vec<Timeout>)
        requires
            sorted(old(self)@),
        ensures
            sorted(final(self)@),
            expired@ == old(self)@.take(due(old(self)@, now) as int),
            final(self)@ == old(self)@.skip(due(old(self)@, now) as int),
            forall|i: int| 0 <= i < expired@.len() ==> (#[trigger] expired@[i]).deadline <= now,
            forall|i: int| 0 <= i < final(self)@.len() ==> (#[trigger] final(self)@[i]).deadline > now,
    {
        proof {
            lemma_due(self@, now);
        }
        let mut k: usize = 0;
        while k < self.timers.len() && self.timers[k].deadline <= now
            invariant
                k <= self.timers.len(),
                *self == *old(self),
                k <= due(self@, now) <= self@.len(),
                forall|i: int| 0 <= i < due(self@, now) ==> (#[trigger] self@[i]).deadline <= now,
                forall|i: int| due(self@, now) <= i < self@.len() ==> (#[trigger] self@[i]).deadline > now,
            decreases self.timers.len() - k,
        {
            k += 1;
        }
        assert(k == due(self@, now));
        let rest = self.timers.split_off(k);
        let mut expired = rest;
        std::mem::swap(&mut expired, &mut self.timers);
        assert(expired@ =~= old(self)@.take(k as int));
        assert(self.timers@ =~= old(self)@.skip(k as int));
        expired
    }

    /// Disarms the timers that watch the request with the digest of `info`.
    /// What comes back is their number.
    pub fn cancel(&mut self, info: &ClientRqInfo) -> (removed: usize)
        requires
            sorted(old(self)@),
        ensures
            sorted(final(self)@),
            final(self)@ == old(self)@.filter(|t: Timeout| t.info.digest@ != info.digest@),
            removed == old(self)@.len() - final(self)@.len(),
    {
        let ghost keep = |t: Timeout| t.info.digest@ != info.digest@;
        let mut kept: Vec<Timeout> = Vec::new();
        let mut i: usize = 0;
        while i < self.timers.len()
            invariant
                i <= self.timers.len(),
                *self == *old(self),
                sorted(self@),
                keep == (|t: Timeout| t.info.digest@ != info.digest@),
                kept@ == self.timers@.take(i as int).filter(keep),
                kept@.len() <= i,
                forall|a: int| 0 <= a < kept@.len() ==> exists|b: int| a <= b < i && self.timers@[b] == #[trigger] kept@[a],
                sorted(kept@),
            decreases self.timers.len() - i,
        {
            let t = self.timers[i];
            proof {
                let s = self.timers@.take(i + 1);
                assert(s.drop_last() == self.timers@.take(i as int));
                reveal(Seq::filter);
            }
            if !(t.info.digest == info.digest) {
                proof {
                    assert forall|a: int, b: int| 0 <= a <= b < kept@.len() + 1 implies kept@.push(t)[a].deadline
                        <= kept@.push(t)[b].deadline by {
                        if b == kept@.len() && a < b {
                            let w = choose|w: int| a <= w < i && self.timers@[w] == kept@[a];
                            assert(self.timers@[w].deadline <= self.timers@[i as int].deadline);
                        }
                    }
                }
                kept.push(t);
            }
            i += 1;
        }
        assert(self.timers@.take(i as int) == self.timers@);
        let removed = self.timers.len() - kept.len();
        self.timers = kept;
        removed
    }
}

} // verus!
