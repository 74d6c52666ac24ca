use febft::communication::message::{ConsensusPhaseKind, Header, StoredMessage};
use febft::crypto::hash::{chain_digests, Digest};
use febft::crypto::signature::Signature;
use febft::msg_log::persistent::{Decision, Info};
use febft::node_id::NodeId;
use febft::order_protocol::{
    ConsensusPhase, OrderProtocolExecResult, OrderProtocolPoll, PBFTConfig, PBFTMessage,
    PBFTOrderProtocol, ProtocolAction,
};
use febft::ordering::SeqNo;
use febft::sync::{CollectData, ViewChangeMessageKind};
use febft::timeouts::ClientRqInfo;
use febft::view::ViewInfo;
use std::collections::VecDeque;

struct Cluster {
    replicas: Vec<PBFTOrderProtocol>,
    inboxes: Vec<VecDeque<StoredMessage<PBFTMessage>>>,
    executed: Vec<Vec<Decision>>,
    sent: Vec<Vec<(ConsensusPhaseKind, SeqNo, SeqNo)>>,
    silent: Vec<bool>,
    nonce: u64,
    auto_persist: bool,
}

impl Cluster {
    fn new(n: usize) -> Cluster {
        let replicas = (0..n)
            .map(|i| {
                PBFTOrderProtocol::initialize(PBFTConfig {
                    node_id: NodeId(i as u32),
                    view: ViewInfo::new(SeqNo(0), n, (n - 1) / 3).unwrap(),
                    timeout_dur: 1000,
                })
            })
            .collect();
        Cluster {
            replicas,
            inboxes: (0..n).map(|_| VecDeque::new()).collect(),
            executed: (0..n).map(|_| Vec::new()).collect(),
            sent: (0..n).map(|_| Vec::new()).collect(),
            silent: vec![false; n],
            nonce: 0,
            auto_persist: true,
        }
    }

    fn header(&mut self, from: usize, to: usize) -> Header {
        self.nonce += 1;
        let mut digest = [0u8; 32];
        digest[..8].copy_from_slice(&self.nonce.to_le_bytes());
        Header {
            version: 0,
            flags: 0,
            from: from as u32,
            to: to as u32,
            nonce: self.nonce,
            length: 0,
            digest: Digest(digest),
            signature: Signature([0; 64]),
        }
    }

    fn perform(&mut self, from: usize, actions: Vec<ProtocolAction>) {
        if self.silent[from] {
            return;
        }
        for action in actions {
            match action {
                ProtocolAction::Broadcast(m) => {
                    if let PBFTMessage::Consensus(c) = &m {
                        self.sent[from].push((c.phase_kind(), c.view(), c.sequence_number()));
                    }
                    for to in 0..self.replicas.len() {
                        let h = self.header(from, to);
                        self.inboxes[to].push_back(StoredMessage::new(h, m.clone()));
                    }
                },
                ProtocolAction::Send(to, m) => {
                    let h = self.header(from, to.0 as usize);
                    self.inboxes[to.0 as usize].push_back(StoredMessage::new(h, m));
                },
                ProtocolAction::Forward(_, _) => {},
            }
        }
    }

    fn deliver(&mut self, i: usize, decisions: Vec<Decision>) {
        self.executed[i].extend(decisions);
    }

    fn process(&mut self, i: usize, m: StoredMessage<PBFTMessage>) {
        let to_persist = m.header().digest;
        let out = self.replicas[i].process_message(m);
        assert_eq!(out.result, OrderProtocolExecResult::Success);
        self.deliver(i, out.executable);
        if self.auto_persist {
            let released = self.replicas[i].message_persisted(to_persist);
            self.deliver(i, released);
        }
        self.perform(i, out.actions);
    }

    /// Runs every replica until nobody has anything left to do.
    fn run(&mut self) {
        loop {
            let mut progress = false;
            for i in 0..self.replicas.len() {
                loop {
                    match self.replicas[i].poll() {
                        OrderProtocolPoll::Exec(m) => {
                            progress = true;
                            self.process(i, m);
                        },
                        OrderProtocolPoll::RePoll => {
                            progress = true;
                        },
                        _ => break,
                    }
                }
                if let Some(m) = self.inboxes[i].pop_front() {
                    progress = true;
                    self.process(i, m);
                }
            }
            if !progress {
                return;
            }
        }
    }

    fn propose(&mut self, leader: usize, requests: Vec<Digest>) {
        let action = self.replicas[leader].propose(requests).expect("the leader proposes");
        self.perform(leader, vec![action]);
    }
}

fn batch_of(requests: &Vec<Digest>) -> Digest {
    chain_digests(&vec![chain_digests(requests)])
}

#[test]
fn happy_path_with_four_replicas() {
    let mut cluster = Cluster::new(4);
    let x = Digest::of(b"x");
    for r in cluster.replicas.iter_mut() {
        assert!(r.request_received(x));
        assert!(!r.request_received(x));
    }
    cluster.propose(0, vec![x]);
    cluster.run();
    for i in 0..4 {
        assert_eq!(cluster.executed[i].len(), 1, "replica {} executes the batch once", i);
        let d = &cluster.executed[i][0];
        assert_eq!(d.seq, SeqNo(0));
        assert_eq!(d.info, Info::Nil);
        assert!(d.batch.batch_digest == batch_of(&vec![x]));
        assert_eq!(d.batch.request_digests.len(), 1);
        assert!(d.batch.request_digests[0] == x);
        assert_eq!(cluster.replicas[i].sequence_number(), SeqNo(1));
        assert_eq!(cluster.replicas[i].phase(), ConsensusPhase::NormalPhase);
    }
    assert_eq!(cluster.sent[0], vec![
        (ConsensusPhaseKind::PrePrepare, SeqNo(0), SeqNo(0)),
        (ConsensusPhaseKind::Commit, SeqNo(0), SeqNo(0)),
    ]);
    for i in 1..4 {
        assert_eq!(cluster.sent[i], vec![
            (ConsensusPhaseKind::Prepare, SeqNo(0), SeqNo(0)),
            (ConsensusPhaseKind::Commit, SeqNo(0), SeqNo(0)),
        ]);
    }
}

#[test]
fn decisions_come_in_order_without_gaps() {
    let mut cluster = Cluster::new(4);
    for round in 0..5u8 {
        let request = Digest([round + 1; 32]);
        for r in cluster.replicas.iter_mut() {
            r.request_received(request);
        }
        cluster.propose(0, vec![request]);
        cluster.run();
    }
    for i in 0..4 {
        let seqs: Vec<SeqNo> = cluster.executed[i].iter().map(|d| d.seq).collect();
        assert_eq!(seqs, vec![SeqNo(0), SeqNo(1), SeqNo(2), SeqNo(3), SeqNo(4)]);
        assert_eq!(cluster.replicas[i].sequence_number(), SeqNo(5));
    }
    for i in 0..4 {
        let votes = &cluster.sent[i];
        for a in 0..votes.len() {
            for b in a + 1..votes.len() {
                assert!(votes[a] != votes[b], "no vote is cast twice");
            }
        }
    }
}

#[test]
fn a_batch_is_executed_only_when_its_messages_are_durable() {
    let mut cluster = Cluster::new(4);
    cluster.auto_persist = false;
    let x = Digest::of(b"x");
    for r in cluster.replicas.iter_mut() {
        r.request_received(x);
    }
    cluster.propose(0, vec![x]);
    cluster.run();
    assert!(cluster.executed.iter().all(|e| e.is_empty()));
    assert_eq!(cluster.replicas[1].sequence_number(), SeqNo(1));
    let mut released = Vec::new();
    for nonce in 1..=cluster.nonce {
        let mut digest = [0u8; 32];
        digest[..8].copy_from_slice(&nonce.to_le_bytes());
        released.extend(cluster.replicas[1].message_persisted(Digest(digest)));
        if nonce < 2 {
            assert!(released.is_empty());
        }
    }
    assert_eq!(released.len(), 1);
    assert_eq!(released[0].seq, SeqNo(0));
    assert_eq!(released[0].batch.messages_to_persist.len(), 7);
}

#[test]
fn a_silent_primary_is_replaced() {
    let mut cluster = Cluster::new(4);
    cluster.silent[0] = true;
    let r = Digest::of(b"r");
    let info = ClientRqInfo { digest: r, sender: NodeId(1000), session: SeqNo(0), operation_id: SeqNo(0) };
    for i in 1..4 {
        cluster.replicas[i].request_received(r);
        let out = cluster.replicas[i].handle_timeout(vec![info]);
        assert_eq!(out.actions.len(), 1);
        assert!(matches!(&out.actions[0], ProtocolAction::Forward(NodeId(0), d) if d.len() == 1));
        assert_eq!(cluster.replicas[i].phase(), ConsensusPhase::NormalPhase);
    }
    for i in 1..4 {
        let out = cluster.replicas[i].handle_timeout(vec![info]);
        assert_eq!(out.actions.len(), 1);
        assert!(matches!(&out.actions[0], ProtocolAction::Broadcast(PBFTMessage::ViewChange(m))
            if m.view == SeqNo(1) && matches!(&m.kind, ViewChangeMessageKind::Stop(d) if d.len() == 1)));
        assert_eq!(cluster.replicas[i].phase(), ConsensusPhase::SyncPhase);
        assert!(cluster.replicas[i].is_proposer_locked());
        cluster.perform(i, out.actions);
    }
    cluster.run();
    for i in 1..4 {
        assert_eq!(cluster.replicas[i].view().sequence_number(), SeqNo(1));
        assert_eq!(cluster.replicas[i].view().leader(), NodeId(1));
        assert_eq!(cluster.replicas[i].phase(), ConsensusPhase::NormalPhase);
        assert_eq!(cluster.replicas[i].sequence_number(), SeqNo(0));
        assert!(cluster.replicas[i].is_proposer_locked());
    }
    assert!(cluster.replicas[1].propose(vec![r]).is_none(), "the new view begins with a pause");
    cluster.replicas[1].unlock_proposer();
    cluster.propose(1, vec![r]);
    cluster.run();
    assert_eq!(cluster.sent[1][0], (ConsensusPhaseKind::PrePrepare, SeqNo(1), SeqNo(0)));
    for i in 2..4 {
        assert_eq!(cluster.sent[i], vec![(ConsensusPhaseKind::Prepare, SeqNo(1), SeqNo(0))]);
    }
    assert!(cluster.executed.iter().all(|e| e.is_empty()), "three prepare votes are needed");
    // The old primary follows the new view once it is heard again.
    assert_eq!(cluster.replicas[0].view().sequence_number(), SeqNo(1));
    cluster.silent[0] = false;
    cluster.replicas[0].request_received(r);
    let late = febft::communication::message::ConsensusMessage::new(
        SeqNo(0),
        SeqNo(1),
        febft::communication::message::ConsensusMessageKind::Prepare(batch_of(&vec![r])),
    );
    cluster.perform(0, vec![ProtocolAction::Broadcast(PBFTMessage::Consensus(late))]);
    cluster.run();
    for i in 0..4 {
        assert_eq!(cluster.executed[i].len(), 1);
        assert!(cluster.executed[i][0].batch.batch_digest == batch_of(&vec![r]));
        assert_eq!(cluster.executed[i][0].seq, SeqNo(0));
    }
}

#[test]
fn switching_the_phase_locks_the_proposer() {
    let mut p = PBFTOrderProtocol::initialize(PBFTConfig {
        node_id: NodeId(0),
        view: ViewInfo::new(SeqNo(0), 4, 1).unwrap(),
        timeout_dur: 1000,
    });
    assert!(!p.is_proposer_locked());
    p.switch_phase(ConsensusPhase::NormalPhase);
    assert!(!p.is_proposer_locked());
    p.switch_phase(ConsensusPhase::SyncPhase);
    assert!(p.is_proposer_locked());
    assert_eq!(p.phase(), ConsensusPhase::SyncPhase);
    assert!(p.propose(vec![]).is_none());
    p.unlock_proposer();
    p.switch_phase(ConsensusPhase::NormalPhase);
    assert!(p.is_proposer_locked());
}

#[test]
fn a_timeout_without_requests_does_nothing() {
    let mut p = PBFTOrderProtocol::initialize(PBFTConfig {
        node_id: NodeId(2),
        view: ViewInfo::new(SeqNo(0), 4, 1).unwrap(),
        timeout_dur: 1000,
    });
    let out = p.handle_timeout(vec![]);
    assert!(out.actions.is_empty());
    assert!(out.decided.is_none());
    assert_eq!(p.phase(), ConsensusPhase::NormalPhase);
    assert!(p.handle_view_change_timeout().is_none());
}

#[test]
fn state_transfer_moves_the_replica_on() {
    let mut p = PBFTOrderProtocol::initialize(PBFTConfig {
        node_id: NodeId(2),
        view: ViewInfo::new(SeqNo(0), 4, 1).unwrap(),
        timeout_dur: 1000,
    });
    p.install_seq_no(SeqNo(12)).unwrap();
    assert_eq!(p.sequence_number(), SeqNo(12));
    p.install_state(CollectData { last_seq: SeqNo(20), last_digest: Digest([1; 32]) }).unwrap();
    assert_eq!(p.sequence_number(), SeqNo(21));
    let (view, decided) = p.snapshot_log();
    assert_eq!(view.sequence_number(), SeqNo(0));
    assert!(decided.is_empty());
    p.finalize_checkpoint(SeqNo(20)).unwrap();
}
