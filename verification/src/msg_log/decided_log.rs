//! The log of the decisions made since the last checkpoint.

use crate::crypto::hash::Digest;
use crate::msg_log::persistent::Info;
use crate::ordering::{SeqNo, PERIOD};
use crate::sync::CollectData;
use vstd::prelude::*;

verus! {

/// Whether a checkpoint begins with the decision of instance `seq`: with
/// every instance whose number is a multiple of the checkpoint period, but
/// the first.
pub open spec fn begins_checkpoint(seq: SeqNo) -> bool {
    seq.value() > 0 && seq.value() % (PERIOD as int) == 0
}

/// What the log of decisions holds.
pub struct DecidedLogModel {
    /// The decisions made since the last checkpoint, oldest first.
    pub decided: Seq<CollectData>,
    /// The last decision, if one was made.
    pub last: Option<CollectData>,
    /// The instance of the last checkpoint, if one was completed.
    pub checkpoint: Option<SeqNo>,
}

/// The log of the decisions made since the last checkpoint.
pub struct DecidedLog {
    decided: Vec<CollectData>,
    last: Option<CollectData>,
    checkpoint: Option<SeqNo>,
}

impl View for DecidedLog {
    type V = DecidedLogModel;

    closed spec fn view(&self) -> DecidedLogModel {
        DecidedLogModel { decided: self.decided@, last: self.last, checkpoint: self.checkpoint }
    }
}

/// The decision that stands for none: it is older than every decision.
pub open spec fn no_decision(d: CollectData) -> bool {
    d.last_seq.value() == -1 && d.last_digest@ == Seq::new(32, |i: int| 0u8)
}

impl DecidedLog {
    /// A log without decisions.
    pub fn new() -> (log: DecidedLog)
        ensures
            log@ == (DecidedLogModel { decided: Seq::empty(), last: None, checkpoint: None }),
    {
        DecidedLog { decided: Vec::new(), last: None, checkpoint: None }
    }

    /// Records the decision of instance `seq` on the batch with the given
    /// digest, and says whether a checkpoint begins with it.
    pub fn finalize_batch(&mut self, seq: SeqNo, digest: Digest) -> (info: Info)
        ensures
            final(self)@ == (DecidedLogModel {
                decided: old(self)@.decided.push(CollectData { last_seq: seq, last_digest: digest }),
                last: Some(CollectData { last_seq: seq, last_digest: digest }),
                ..old(self)@
            }),
            info == (if begins_checkpoint(seq) {
                Info::BeginCheckpoint
            } else {
                Info::Nil
            }),
    {
        let d = CollectData { last_seq: seq, last_digest: digest };
        self.decided.push(d);
        self.last = Some(d);
        if seq.0 > 0 && seq.0 % (PERIOD as i32) == 0 {
            Info::BeginCheckpoint
        } else {
            Info::Nil
        }
    }

    /// The checkpoint of instance `seq` is complete: the decisions up to it
    /// are no longer needed.
    pub fn finalize_checkpoint(&mut self, seq: SeqNo)
        ensures
            final(self)@ == (DecidedLogModel {
                decided: old(self)@.decided.filter(|d: CollectData| d.last_seq.value() > seq.value()),
                checkpoint: Some(seq),
                ..old(self)@
            }),
    {
        let ghost keep = |d: CollectData| d.last_seq.value() > seq.value();
        let mut kept: Vec<CollectData> = Vec::new();
        let mut i: usize = 0;
        while i < self.decided.len()
            invariant
                i <= self.decided.len(),
                *self == *old(self),
                keep == (|d: CollectData| d.last_seq.value() > seq.value()),
                kept@ == self.decided@.take(i as int).filter(keep),
            decreases self.decided.len() - i,
        {
            let d = self.decided[i];
            proof {
                let s = self.decided@.take(i + 1);
                assert(s.drop_last() == self.decided@.take(i as int));
                reveal(Seq::filter);
            }
            if d.last_seq.0 > seq.0 {
                kept.push(d);
            }
            i += 1;
        }
        assert(self.decided@.take(i as int) == self.decided@);
        self.decided = kept;
        self.checkpoint = Some(seq);
    }

    /// The last decision, or the decision that stands for none.
    pub fn last_decision(&self) -> (d: CollectData)
        ensures
            self@.last matches Some(l) ==> d == l,
            self@.last is None ==> no_decision(d),
    {
        match self.last {
            Some(d) => d,
            None => CollectData { last_seq: SeqNo(-1), last_digest: Digest::zero() },
        }
    }

    /// The decisions made since the last checkpoint, oldest first.
    pub fn decisions(&self) -> (d: &Vec<CollectData>)
        ensures
            d@ == self@.decided,
    {
        &self.decided
    }

    /// Forgets every decision and takes `seq` for the instance of the last
    /// checkpoint, as after a state transfer.
    pub fn install(&mut self, seq: SeqNo, last: Option<CollectData>)
        ensures
            final(self)@ == (DecidedLogModel { decided: Seq::empty(), last, checkpoint: Some(seq) }),
    {
        self.decided.clear();
        self.last = last;
        self.checkpoint = Some(seq);
    }
}

} // verus!
