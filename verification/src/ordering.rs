//! Sequence numbers of consensus instances and of client sessions.

use vstd::prelude::*;

verus! {

/// The number of decisions between two checkpoints.
pub const PERIOD: u32 = 1000;

/// A difference between two sequence numbers beyond this bound, in either
/// direction, is taken for one that crossed the wrap of the counter.
pub const OVERFLOW_THRES: i32 = 10000;

/// The high water mark: a message this far ahead of the current instance,
/// one and a half checkpoint periods, is still kept; one further ahead is not.
pub const DROP_SEQNO_THRES: i32 = 1500;

/// A sequence number: a signed 32 bit counter that wraps from its largest
/// value to zero.
#[derive(Copy, Clone, Debug, PartialEq, Eq, Structural, PartialOrd, Ord, Hash)]
pub struct SeqNo(pub i32);

/// `x` brought into the range of `i32` by adding or taking away `2^32`.
pub open spec fn wrap_i32(x: int) -> int {
    if x > i32::MAX {
        x - 0x1_0000_0000
    } else if x < i32::MIN {
        x + 0x1_0000_0000
    } else {
        x
    }
}

/// The distance from `base` to `seq` as the queue of messages to be ordered
/// counts it, before the range check: the plain difference where it is small,
/// else the difference across the wrap of the counter.
pub open spec fn seq_distance(seq: int, base: int) -> int {
    let d = wrap_i32(seq - base);
    if d < -(OVERFLOW_THRES as int) || d > OVERFLOW_THRES as int {
        wrap_i32(wrap_i32(i32::MAX + d) + 1)
    } else {
        d
    }
}

/// The slot of `seq` in a queue whose first slot stands for `base`: the
/// distance between the two, where it lies between zero and the high water
/// mark.
pub open spec fn seq_index(seq: int, base: int) -> Option<nat> {
    let d = seq_distance(seq, base);
    if 0 <= d <= DROP_SEQNO_THRES as int {
        Some(d as nat)
    } else {
        None
    }
}

/// The sequence number after `seq`.
pub open spec fn seq_next(seq: int) -> int {
    if seq == i32::MAX {
        0
    } else {
        seq + 1
    }
}

impl SeqNo {
    /// The first sequence number.
    pub fn zero() -> (r: SeqNo)
        ensures
            r.value() == 0,
    {
        SeqNo(0)
    }

    /// The value of this sequence number.
    pub open spec fn value(self) -> int {
        self.0 as int
    }

    /// The following sequence number: one more, and zero after the largest.
    pub fn next(self) -> (r: SeqNo)
        ensures
            r.value() == seq_next(self.value()),
    {
        if self.0 == i32::MAX {
            SeqNo(0)
        } else {
            SeqNo(self.0 + 1)
        }
    }

    /// The slot of this sequence number in a queue whose first slot stands
    /// for `other`, or `None` where it is behind `other` or beyond the high
    /// water mark.
    pub fn index(self, other: SeqNo) -> (r: Option<usize>)
        ensures
            r is Some <==> seq_index(self.value(), other.value()) is Some,
            r is Some ==> r->0 as nat == seq_index(self.value(), other.value())->0,
    {
        let diff: i32 = self.0.wrapping_sub(other.0);
        let index: i32 = if diff < -OVERFLOW_THRES || diff > OVERFLOW_THRES {
            i32::MAX.wrapping_add(diff).wrapping_add(1)
        } else {
            diff
        };
        if index < 0 || index > DROP_SEQNO_THRES {
            None
        } else {
            Some(index as usize)
        }
    }

    /// The raw value of this sequence number.
    pub fn into_inner(self) -> (r: i32)
        ensures
            r == self.0,
    {
        self.0
    }
}

impl From<u32> for SeqNo {
    fn from(sequence_number: u32) -> (r: SeqNo) {
        #[verifier::truncate]
        let v: i32 = sequence_number as i32;
        SeqNo(v)
    }
}

impl vstd::std_specs::convert::FromSpecImpl<u32> for SeqNo {
    open spec fn obeys_from_spec() -> bool {
        true
    }

    open spec fn from_spec(sequence_number: u32) -> SeqNo {
        SeqNo(sequence_number as i32)
    }
}

impl From<SeqNo> for u32 {
    fn from(sequence_number: SeqNo) -> (r: u32) {
        #[verifier::truncate]
        let v: u32 = sequence_number.0 as u32;
        v
    }
}

impl vstd::std_specs::convert::FromSpecImpl<SeqNo> for u32 {
    open spec fn obeys_from_spec() -> bool {
        true
    }

    open spec fn from_spec(sequence_number: SeqNo) -> u32 {
        sequence_number.0 as u32
    }
}

/// The sequence number itself has slot zero.
pub proof fn lemma_index_of_self(seq: SeqNo)
    ensures
        seq_index(seq.value(), seq.value()) == Some(0nat),
{
}

/// Counting on from a sequence number that is not negative, the `k`-th
/// successor has slot `k` as long as `k` is within the high water mark, also
/// across the wrap of the counter; further successors, up to the overflow
/// threshold, have no slot.
pub proof fn lemma_index_of_successor(base: SeqNo, k: nat)
    requires
        base.value() >= 0,
        k <= OVERFLOW_THRES,
    ensures
        seq_index(seq_after(base.value(), k), base.value()) == (if k <= DROP_SEQNO_THRES {
            Some(k)
        } else {
            None
        }),
{
    lemma_seq_after(base.value(), k);
}

/// The sequence number reached from `seq` by `k` steps of `seq_next`.
pub open spec fn seq_after(seq: int, k: nat) -> int
    decreases k,
{
    if k == 0 {
        seq
    } else {
        seq_next(seq_after(seq, (k - 1) as nat))
    }
}

/// `k` steps from a sequence number that is not negative add `k` modulo `2^31`.
pub proof fn lemma_seq_after(seq: int, k: nat)
    requires
        0 <= seq <= i32::MAX,
    ensures
        seq_after(seq, k) == (seq + k) % 0x8000_0000,
    decreases k,
{
    if k > 0 {
        lemma_seq_after(seq, (k - 1) as nat);
    }
}

/// A sequence number behind the base of the queue, by up to the overflow
/// threshold, has no slot: the message is stale.
pub proof fn lemma_index_of_stale(seq: SeqNo, base: SeqNo)
    requires
        base.value() - OVERFLOW_THRES <= seq.value() < base.value(),
    ensures
        seq_index(seq.value(), base.value()) is None,
{
}

} // verus!
