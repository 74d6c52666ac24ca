//! Durable before executed: decided batches wait here until the log has
//! acknowledged every message that they rest on.

use crate::crypto::hash::{contains_digest, Digest};
use crate::msg_log::deciding_log::CompletedBatch;
use crate::ordering::SeqNo;
use std::collections::VecDeque;
use vstd::prelude::*;

verus! {

/// Whether a decided batch is executed alone or together with a checkpoint.
#[derive(Copy, Clone, Debug, PartialEq, Eq, Structural)]
pub enum Info {
    /// The batch is executed.
    Nil,
    /// The batch is executed and the state of the application is captured
    /// after it: a checkpoint begins.
    BeginCheckpoint,
}

/// A decided batch on its way to the executor.
pub struct Decision {
    /// The instance in which the batch was decided.
    pub seq: SeqNo,
    /// Whether a checkpoint begins with it.
    pub info: Info,
    /// The batch.
    pub batch: CompletedBatch,
}

/// What the barrier holds.
pub struct BarrierModel {
    /// The digests of the messages that the log acknowledged as durable.
    pub acked: Seq<Digest>,
    /// The decisions that wait, in the order in which they were made.
    pub waiting: Seq<Decision>,
}

/// Whether every message that the decision rests on was acknowledged.
pub open spec fn is_durable(acked: Seq<Digest>, d: Decision) -> bool {
    forall|i: int|
        0 <= i < d.batch.messages_to_persist@.len() ==> acked.contains(
            #[trigger] d.batch.messages_to_persist@[i],
        )
}

/// Whether nothing that waits may pass: no decision waits, or the oldest
/// one rests on a message that was not acknowledged.
pub open spec fn settled(b: BarrierModel) -> bool {
    b.waiting.len() > 0 ==> !is_durable(b.acked, b.waiting[0])
}

/// The barrier between the decisions and the executor.
pub struct DurabilityBarrier {
    acked: Vec<Digest>,
    waiting: VecDeque<Decision>,
}

impl View for DurabilityBarrier {
    type V = BarrierModel;

    closed spec fn view(&self) -> BarrierModel {
        BarrierModel { acked: self.acked@, waiting: self.waiting@ }
    }
}

impl DurabilityBarrier {
    /// A barrier at which nothing waits and nothing was acknowledged.
    pub fn new() -> (g: DurabilityBarrier)
        ensures
            g@ == (BarrierModel { acked: Seq::empty(), waiting: Seq::empty() }),
    {
        DurabilityBarrier { acked: Vec::new(), waiting: VecDeque::new() }
    }

    /// The number of decisions that wait.
    pub fn waiting(&self) -> (n: usize)
        ensures
            n == self@.waiting.len(),
    {
        self.waiting.len()
    }

    /// A decision was made: it waits behind those made before it.
    pub fn decided(&mut self, decision: Decision)
        ensures
            final(self)@ == (BarrierModel {
                waiting: old(self)@.waiting.push(decision),
                ..old(self)@
            }),
    {
        self.waiting.push_back(decision);
    }

    /// The log acknowledged the message with this digest as durable.
    pub fn acknowledge(&mut self, digest: Digest)
        ensures
            final(self)@ == (BarrierModel { acked: old(self)@.acked.push(digest), ..old(self)@ }),
    {
        self.acked.push(digest);
    }

    /// Lets the oldest decision through to the executor, if every message
    /// that it rests on was acknowledged as durable. A decision never
    /// passes one that was made before it.
    pub fn next_executable(&mut self) -> (r: Option<Decision>)
        ensures
            r is Some <==> (old(self)@.waiting.len() > 0 && is_durable(
                old(self)@.acked,
                old(self)@.waiting[0],
            )),
            r is Some ==> r->0 == old(self)@.waiting[0] && final(self)@ == (BarrierModel {
                waiting: old(self)@.waiting.drop_first(),
                ..old(self)@
            }),
            r is None ==> final(self)@ == old(self)@,
    {
        if self.waiting.len() == 0 {
            return None;
        }
        let durable = {
            let first = &self.waiting[0];
            let needed = &first.batch.messages_to_persist;
            let mut ok = true;
            let mut i: usize = 0;
            while i < needed.len() && ok
                invariant
                    i <= needed.len(),
                    ok ==> forall|j: int| 0 <= j < i ==> self.acked@.contains(#[trigger] needed@[j]),
                    !ok ==> exists|j: int| 0 <= j < needed.len() && !self.acked@.contains(#[trigger] needed@[j]),
                decreases needed.len() - i + (if ok { 1int } else { 0int }),
            {
                if !contains_digest(&self.acked, &needed[i]) {
                    ok = false;
                } else {
                    i += 1;
                }
            }
            ok
        };
        if !durable {
            return None;
        }
        let r = self.waiting.pop_front();
        assert(self.waiting@ =~= old(self).waiting@.drop_first());
        r
    }
}

} // verus!
