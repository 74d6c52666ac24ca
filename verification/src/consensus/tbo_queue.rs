//! The queue of consensus messages that arrived before their turn.

use crate::communication::message::{
    ConsensusMessage, ConsensusMessageKind, ConsensusPhaseKind, Header,
};
use crate::crypto::hash::{lemma_digest_ext, Digest};
use crate::ordering::{seq_index, seq_next, SeqNo};
use std::collections::VecDeque;
use vstd::prelude::*;

verus! {

/// A queued message: the header it arrived under and the message.
pub type Entry = (Header, ConsensusMessage);

/// The slots of one phase: slot `i` holds, in the order of their arrival, the
/// messages of the instance `i` steps after the current one.
pub type Slots = Seq<Seq<Entry>>;

/// What a queue holds.
pub struct TboModel {
    /// The current consensus instance, which slot zero stands for.
    pub curr_seq: SeqNo,
    /// Whether the queue was signalled since it last ran empty.
    pub get_queue: bool,
    /// The proposals.
    pub pre_prepares: Slots,
    /// The votes of the prepare phase.
    pub prepares: Slots,
    /// The votes of the commit phase.
    pub commits: Slots,
}

/// The contents of the slots of a phase.
pub open spec fn slots_of(v: Seq<VecDeque<Entry>>) -> Slots {
    Seq::new(v.len(), |i: int| v[i]@)
}

/// `slots`, with empty slots added at the end until there are `n`.
pub open spec fn grown(slots: Slots, n: nat) -> Slots {
    if slots.len() >= n {
        slots
    } else {
        slots + Seq::new((n - slots.len()) as nat, |i: int| Seq::<Entry>::empty())
    }
}

/// Whether two queued messages are the same, byte for byte: they arrived
/// under the same header and say the same, lists taken by what they hold.
pub open spec fn same_entry(a: Entry, b: Entry) -> bool {
    &&& a.0 == b.0
    &&& a.1.seq == b.1.seq
    &&& a.1.view == b.1.view
    &&& match (a.1.kind, b.1.kind) {
        (
            ConsensusMessageKind::PrePrepare { digest: d1, requests: r1 },
            ConsensusMessageKind::PrePrepare { digest: d2, requests: r2 },
        ) => d1 == d2 && r1@ == r2@,
        (ConsensusMessageKind::Prepare(d1), ConsensusMessageKind::Prepare(d2)) => d1 == d2,
        (ConsensusMessageKind::Commit(d1), ConsensusMessageKind::Commit(d2)) => d1 == d2,
        _ => false,
    }
}

/// Whether a slot holds a message that is the same as `e`.
pub open spec fn holds(slot: Seq<Entry>, e: Entry) -> bool {
    exists|j: int| 0 <= j < slot.len() && same_entry(#[trigger] slot[j], e)
}

/// The slots after `e` was queued while slot zero stood for `base`: `e` is
/// added at the end of the slot of its instance, unless the slot holds the
/// same message already, and dropped where it has no slot.
pub open spec fn queued(slots: Slots, base: SeqNo, e: Entry) -> Slots {
    match seq_index(e.1.seq.value(), base.value()) {
        None => slots,
        Some(i) => {
            let g = grown(slots, i + 1);
            if holds(g[i as int], e) {
                g
            } else {
                g.update(i as int, g[i as int].push(e))
            }
        },
    }
}

/// Whether two headers are the same.
pub fn same_headers(a: &Header, b: &Header) -> (r: bool)
    ensures
        r == (*a == *b),
{
    if a.version != b.version || a.flags != b.flags || a.from != b.from || a.to != b.to || a.nonce
        != b.nonce || a.length != b.length {
        return false;
    }
    proof {
        lemma_digest_ext(a.digest, b.digest);
    }
    if !(a.digest == b.digest) {
        return false;
    }
    let mut i: usize = 0;
    while i < 64
        invariant
            i <= 64,
            forall|j: int| 0 <= j < i ==> a.signature.0@[j] == b.signature.0@[j],
        decreases 64 - i,
    {
        if a.signature.0[i] != b.signature.0[i] {
            return false;
        }
        i += 1;
    }
    assert(a.signature.0@ =~= b.signature.0@);
    assert(a.signature.0 == b.signature.0);
    true
}

/// Whether two lists hold the same digests in the same order.
pub fn same_digests(a: &Vec<Digest>, b: &Vec<Digest>) -> (r: bool)
    ensures
        r == (a@ == b@),
{
    if a.len() != b.len() {
        return false;
    }
    let mut i: usize = 0;
    while i < a.len()
        invariant
            i <= a.len(),
            a.len() == b.len(),
            forall|j: int| 0 <= j < i ==> a@[j] == b@[j],
        decreases a.len() - i,
    {
        proof {
            lemma_digest_ext(a@[i as int], b@[i as int]);
        }
        if !(a[i] == b[i]) {
            return false;
        }
        i += 1;
    }
    assert(a@ =~= b@);
    true
}

/// Whether two queued messages are the same, byte for byte.
pub fn same_entries(a: &Entry, b: &Entry) -> (r: bool)
    ensures
        r == same_entry(*a, *b),
{
    if !same_headers(&a.0, &b.0) || a.1.seq.0 != b.1.seq.0 || a.1.view.0 != b.1.view.0 {
        return false;
    }
    match (&a.1.kind, &b.1.kind) {
        (
            ConsensusMessageKind::PrePrepare { digest: d1, requests: r1 },
            ConsensusMessageKind::PrePrepare { digest: d2, requests: r2 },
        ) => {
            proof {
                lemma_digest_ext(*d1, *d2);
            }
            *d1 == *d2 && same_digests(r1, r2)
        },
        (ConsensusMessageKind::Prepare(d1), ConsensusMessageKind::Prepare(d2)) => {
            proof {
                lemma_digest_ext(*d1, *d2);
            }
            *d1 == *d2
        },
        (ConsensusMessageKind::Commit(d1), ConsensusMessageKind::Commit(d2)) => {
            proof {
                lemma_digest_ext(*d1, *d2);
            }
            *d1 == *d2
        },
        _ => false,
    }
}

/// The slots after the oldest message of the current instance was taken.
pub open spec fn popped(slots: Slots) -> Slots {
    if slots.len() == 0 || slots[0].len() == 0 {
        slots
    } else {
        slots.update(0, slots[0].drop_first())
    }
}

/// The oldest message of the current instance, if there is one.
pub open spec fn front(slots: Slots) -> Option<Entry> {
    if slots.len() == 0 || slots[0].len() == 0 {
        None
    } else {
        Some(slots[0][0])
    }
}

/// The slots after the current instance ended: slot zero leaves, the others
/// move up, and an empty slot joins at the end.
pub open spec fn advanced(slots: Slots) -> Slots {
    if slots.len() == 0 {
        slots
    } else {
        slots.drop_first().push(Seq::<Entry>::empty())
    }
}

/// A queue of messages to be ordered. Messages may arrive out of context,
/// a vote before the proposal it votes for: the queue keeps them by
/// instance and by phase until the consensus is ready for them.
pub struct TBOQueue {
    curr_seq: SeqNo,
    get_queue: bool,
    pre_prepares: Vec<VecDeque<Entry>>,
    prepares: Vec<VecDeque<Entry>>,
    commits: Vec<VecDeque<Entry>>,
}

impl View for TBOQueue {
    type V = TboModel;

    closed spec fn view(&self) -> TboModel {
        TboModel {
            curr_seq: self.curr_seq,
            get_queue: self.get_queue,
            pre_prepares: slots_of(self.pre_prepares@),
            prepares: slots_of(self.prepares@),
            commits: slots_of(self.commits@),
        }
    }
}

impl TBOQueue {
    fn new_impl(curr_seq: SeqNo) -> (q: TBOQueue)
        ensures
            q@ == (TboModel {
                curr_seq,
                get_queue: false,
                pre_prepares: Seq::empty(),
                prepares: Seq::empty(),
                commits: Seq::empty(),
            }),
    {
        let q = TBOQueue {
            curr_seq,
            get_queue: false,
            pre_prepares: Vec::new(),
            prepares: Vec::new(),
            commits: Vec::new(),
        };
        assert(slots_of(q.pre_prepares@) =~= Seq::empty());
        assert(slots_of(q.prepares@) =~= Seq::empty());
        assert(slots_of(q.commits@) =~= Seq::empty());
        q
    }

    /// Takes the oldest message of the current instance out of the slots
    /// of one phase.
    pub fn pop_message(tbo: &mut Vec<VecDeque<Entry>>) -> (r: Option<Entry>)
        ensures
            r == front(slots_of(old(tbo)@)),
            slots_of(final(tbo)@) == popped(slots_of(old(tbo)@)),
    {
        if tbo.is_empty() {
            None
        } else {
            let r = tbo[0].pop_front();
            assert(slots_of(tbo@) =~= popped(slots_of(old(tbo)@)));
            r
        }
    }

    /// Puts a message into the slot of its instance, among the slots of one
    /// phase, unless the slot holds the same message already, or drops it
    /// where it has no slot: where it belongs to an instance that is over,
    /// or to one beyond the high water mark.
    pub fn queue_message(
        curr_seq: SeqNo,
        tbo: &mut Vec<VecDeque<Entry>>,
        h: Header,
        m: ConsensusMessage,
    )
        ensures
            slots_of(final(tbo)@) == queued(slots_of(old(tbo)@), curr_seq, (h, m)),
    {
        let index = match m.sequence_number().index(curr_seq) {
            Some(i) => i,
            None => {
                return ;
            },
        };
        while tbo.len() <= index
            invariant
                old(tbo)@.len() <= tbo@.len(),
                tbo@.len() <= index + 1 || tbo@.len() == old(tbo)@.len(),
                forall|j: int| 0 <= j < old(tbo)@.len() ==> tbo@[j] == old(tbo)@[j],
                forall|j: int| old(tbo)@.len() <= j < tbo@.len() ==> tbo@[j]@ == Seq::<Entry>::empty(),
            decreases index + 1 - tbo@.len(),
        {
            tbo.push(VecDeque::new());
        }
        assert(slots_of(tbo@) =~= grown(slots_of(old(tbo)@), (index + 1) as nat));
        let ghost before = tbo@;
        let e = (h, m);
        let n = tbo[index].len();
        let mut j: usize = 0;
        while j < n
            invariant
                j <= n,
                index < tbo@.len(),
                n == tbo@[index as int]@.len(),
                tbo@ == before,
                e == (h, m),
                slots_of(before) == grown(slots_of(old(tbo)@), (index + 1) as nat),
                seq_index(e.1.seq.value(), curr_seq.value()) == Some(index as nat),
                forall|c: int| 0 <= c < j ==> !same_entry(#[trigger] tbo@[index as int]@[c], e),
            decreases n - j,
        {
            if same_entries(&tbo[index][j], &e) {
                assert(same_entry(slots_of(tbo@)[index as int][j as int], e));
                assert(holds(slots_of(tbo@)[index as int], e));
                return ;
            }
            j += 1;
        }
        assert(!holds(slots_of(tbo@)[index as int], e));
        let (h, m) = e;
        tbo[index].push_back((h, m));
        assert(slots_of(tbo@) =~= slots_of(before).update(
            index as int,
            slots_of(before)[index as int].push((h, m)),
        ));
    }

    /// Ends the current instance among the slots of one phase: what is left
    /// in slot zero is dropped and the other slots move up.
    pub fn advance_message_queue(tbo: &mut Vec<VecDeque<Entry>>)
        ensures
            slots_of(final(tbo)@) == advanced(slots_of(old(tbo)@)),
    {
        if tbo.len() > 0 {
            let mut slot = tbo.remove(0);
            slot.clear();
            tbo.push(slot);
            assert(slots_of(tbo@) =~= advanced(slots_of(old(tbo)@)));
        }
    }

    /// An empty queue whose current instance is `curr_seq`.
    pub fn new(curr_seq: SeqNo) -> (q: TBOQueue)
        ensures
            q@ == (TboModel {
                curr_seq,
                get_queue: false,
                pre_prepares: Seq::empty(),
                prepares: Seq::empty(),
                commits: Seq::empty(),
            }),
    {
        Self::new_impl(curr_seq)
    }

    /// Tells the queue that it may hold messages that can now be processed.
    pub fn signal(&mut self)
        ensures
            final(self)@ == (TboModel { get_queue: true, ..old(self)@ }),
    {
        self.get_queue = true;
    }

    /// Tells the queue that it has nothing to offer until it is signalled
    /// again.
    pub fn unsignal(&mut self)
        ensures
            final(self)@ == (TboModel { get_queue: false, ..old(self)@ }),
    {
        self.get_queue = false;
    }

    /// Whether the queue was signalled since it last ran empty.
    pub fn is_signalled(&self) -> (r: bool)
        ensures
            r == self@.get_queue,
    {
        self.get_queue
    }

    /// The consensus instance that the queue is tracking.
    pub fn sequence_number(&self) -> (s: SeqNo)
        ensures
            s == self@.curr_seq,
    {
        self.curr_seq
    }

    /// Moves on to the next consensus instance: the messages left for the
    /// current one are dropped.
    pub fn next_instance_queue(&mut self)
        ensures
            final(self)@ == (TboModel {
                curr_seq: SeqNo(seq_next(old(self)@.curr_seq.value()) as i32),
                get_queue: old(self)@.get_queue,
                pre_prepares: advanced(old(self)@.pre_prepares),
                prepares: advanced(old(self)@.prepares),
                commits: advanced(old(self)@.commits),
            }),
    {
        self.curr_seq = self.curr_seq.next();
        Self::advance_message_queue(&mut self.pre_prepares);
        Self::advance_message_queue(&mut self.prepares);
        Self::advance_message_queue(&mut self.commits);
    }

    /// Queues a consensus message among those of its phase, or drops it
    /// where its instance is over or lies beyond the high water mark.
    pub fn queue(&mut self, h: Header, m: ConsensusMessage)
        ensures
            final(self)@ == queued_model(old(self)@, (h, m)),
    {
        match m.kind() {
            ConsensusMessageKind::PrePrepare { .. } => self.queue_pre_prepare(h, m),
            ConsensusMessageKind::Prepare(_) => self.queue_prepare(h, m),
            ConsensusMessageKind::Commit(_) => self.queue_commit(h, m),
        }
    }

    /// Queues a message among the proposals.
    pub fn queue_pre_prepare(&mut self, h: Header, m: ConsensusMessage)
        ensures
            final(self)@ == (TboModel {
                pre_prepares: queued(old(self)@.pre_prepares, old(self)@.curr_seq, (h, m)),
                ..old(self)@
            }),
    {
        Self::queue_message(self.curr_seq, &mut self.pre_prepares, h, m)
    }

    /// Queues a message among the votes of the prepare phase.
    pub fn queue_prepare(&mut self, h: Header, m: ConsensusMessage)
        ensures
            final(self)@ == (TboModel {
                prepares: queued(old(self)@.prepares, old(self)@.curr_seq, (h, m)),
                ..old(self)@
            }),
    {
        Self::queue_message(self.curr_seq, &mut self.prepares, h, m)
    }

    /// Queues a message among the votes of the commit phase.
    pub fn queue_commit(&mut self, h: Header, m: ConsensusMessage)
        ensures
            final(self)@ == (TboModel {
                commits: queued(old(self)@.commits, old(self)@.curr_seq, (h, m)),
                ..old(self)@
            }),
    {
        Self::queue_message(self.curr_seq, &mut self.commits, h, m)
    }

    /// The number of messages of a phase that wait in the slot `slot`.
    pub fn waiting(&self, kind: ConsensusPhaseKind, slot: usize) -> (n: usize)
        ensures
            n == ({
                let slots = match kind {
                    ConsensusPhaseKind::PrePrepare => self@.pre_prepares,
                    ConsensusPhaseKind::Prepare => self@.prepares,
                    ConsensusPhaseKind::Commit => self@.commits,
                };
                if slot < slots.len() {
                    slots[slot as int].len()
                } else {
                    0
                }
            }),
    {
        let slots = match kind {
            ConsensusPhaseKind::PrePrepare => &self.pre_prepares,
            ConsensusPhaseKind::Prepare => &self.prepares,
            ConsensusPhaseKind::Commit => &self.commits,
        };
        if slot < slots.len() {
            slots[slot].len()
        } else {
            0
        }
    }

    /// Takes the oldest proposal of the current instance. Where there is
    /// none, the signal is cleared.
    pub fn pop_pre_prepare(&mut self) -> (r: Option<Entry>)
        ensures
            r == front(old(self)@.pre_prepares),
            final(self)@ == (TboModel {
                pre_prepares: popped(old(self)@.pre_prepares),
                get_queue: old(self)@.get_queue && r is Some,
                ..old(self)@
            }),
    {
        let r = Self::pop_message(&mut self.pre_prepares);
        if r.is_none() {
            self.get_queue = false;
        }
        r
    }

    /// Takes the oldest vote of the prepare phase of the current instance.
    /// Where there is none, the signal is cleared.
    pub fn pop_prepare(&mut self) -> (r: Option<Entry>)
        ensures
            r == front(old(self)@.prepares),
            final(self)@ == (TboModel {
                prepares: popped(old(self)@.prepares),
                get_queue: old(self)@.get_queue && r is Some,
                ..old(self)@
            }),
    {
        let r = Self::pop_message(&mut self.prepares);
        if r.is_none() {
            self.get_queue = false;
        }
        r
    }

    /// Takes the oldest vote of the commit phase of the current instance.
    /// Where there is none, the signal is cleared.
    pub fn pop_commit(&mut self) -> (r: Option<Entry>)
        ensures
            r == front(old(self)@.commits),
            final(self)@ == (TboModel {
                commits: popped(old(self)@.commits),
                get_queue: old(self)@.get_queue && r is Some,
                ..old(self)@
            }),
    {
        let r = Self::pop_message(&mut self.commits);
        if r.is_none() {
            self.get_queue = false;
        }
        r
    }
}

/// What the queue holds after `e` was queued: `e` joins the slots of its
/// phase.
pub open spec fn queued_model(q: TboModel, e: Entry) -> TboModel {
    match e.1.kind {
        ConsensusMessageKind::PrePrepare { .. } => TboModel {
            pre_prepares: queued(q.pre_prepares, q.curr_seq, e),
            ..q
        },
        ConsensusMessageKind::Prepare(_) => TboModel {
            prepares: queued(q.prepares, q.curr_seq, e),
            ..q
        },
        ConsensusMessageKind::Commit(_) => TboModel {
            commits: queued(q.commits, q.curr_seq, e),
            ..q
        },
    }
}

/// A message whose instance is over, or lies beyond the high water mark, is
/// dropped: queueing it leaves the queue as it was.
pub proof fn lemma_queue_dropped(q: TboModel, e: Entry)
    requires
        seq_index(e.1.seq.value(), q.curr_seq.value()) is None,
    ensures
        queued_model(q, e) == q,
{
}

/// Queueing a message twice is the same as queueing it once: the second
/// time its slot holds it already, and the queue stays as it is. This
/// holds of any two messages that are the same, byte for byte.
pub proof fn lemma_queue_is_idempotent(slots: Slots, base: SeqNo, e: Entry, again: Entry)
    requires
        same_entry(e, again),
    ensures
        queued(queued(slots, base, e), base, again) == queued(slots, base, e),
{
    match seq_index(e.1.seq.value(), base.value()) {
        None => {},
        Some(i) => {
            let g = grown(slots, i + 1);
            let once = queued(slots, base, e);
            assert(grown(once, i + 1) == once);
            if holds(g[i as int], e) {
                let j = choose|j: int| 0 <= j < g[i as int].len() && same_entry(#[trigger] g[i as int][j], e);
                assert(same_entry(once[i as int][j], again));
            } else {
                let last = once[i as int].len() - 1;
                assert(same_entry(once[i as int][last], again));
            }
        },
    }
}

/// Queueing a message twice leaves the whole queue as after queueing it
/// once.
pub proof fn lemma_queue_twice(q: TboModel, e: Entry, again: Entry)
    requires
        same_entry(e, again),
    ensures
        queued_model(queued_model(q, e), again) == queued_model(q, e),
{
    lemma_queue_is_idempotent(q.pre_prepares, q.curr_seq, e, again);
    lemma_queue_is_idempotent(q.prepares, q.curr_seq, e, again);
    lemma_queue_is_idempotent(q.commits, q.curr_seq, e, again);
}

/// A message queued for the current instance comes out again, after those
/// that were queued before it.
pub proof fn lemma_queue_then_pop(slots: Slots, base: SeqNo, e: Entry)
    requires
        seq_index(e.1.seq.value(), base.value()) == Some(0nat),
        front(slots) is None,
    ensures
        front(queued(slots, base, e)) == Some(e),
{
}

} // verus!
