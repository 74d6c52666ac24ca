use febft::communication::message::Header;
use febft::crypto::hash::Digest;
use febft::crypto::signature::Signature;
use febft::node_id::NodeId;
use febft::ordering::SeqNo;
use febft::sync::{
    CollectData, LeaderCollects, SyncAction, SyncPhase, Synchronizer, SynchronizerPollStatus,
    SynchronizerStatus, ViewChangeMessage, ViewChangeMessageKind, MAX_VIEW_CHANGE_TIMEOUT,
};
use febft::view::ViewInfo;

fn header(from: u32) -> Header {
    Header {
        version: 0,
        flags: 0,
        from,
        to: 0,
        nonce: 0,
        length: 0,
        digest: Digest([from as u8; 32]),
        signature: Signature([0; 64]),
    }
}

fn synchronizer(id: u32) -> Synchronizer {
    Synchronizer::new(NodeId(id), ViewInfo::new(SeqNo(0), 4, 1).unwrap(), 1000)
}

fn stop(view: i32) -> ViewChangeMessage {
    ViewChangeMessage::new(SeqNo(view), ViewChangeMessageKind::Stop(vec![]))
}

fn decision(seq: i32, tag: u8) -> CollectData {
    CollectData { last_seq: SeqNo(seq), last_digest: Digest([tag; 32]) }
}

fn none() -> CollectData {
    decision(-1, 0)
}

#[test]
fn first_timeout_forwards_and_second_stops() {
    let mut s = synchronizer(1);
    let r = Digest([7; 32]);
    match s.client_requests_timed_out(&vec![r]) {
        SynchronizerStatus::RequestsTimedOut { forwarded, stopped } => {
            assert_eq!(forwarded.len(), 1);
            assert!(forwarded[0] == r);
            assert!(stopped.is_empty());
        },
        _ => panic!("a request timed out"),
    }
    match s.client_requests_timed_out(&vec![r, Digest([8; 32])]) {
        SynchronizerStatus::RequestsTimedOut { forwarded, stopped } => {
            assert_eq!(forwarded.len(), 1);
            assert!(forwarded[0] == Digest([8; 32]));
            assert_eq!(stopped.len(), 1);
            assert!(stopped[0] == r);
        },
        _ => panic!("requests timed out"),
    }
    assert!(matches!(s.client_requests_timed_out(&vec![]), SynchronizerStatus::Nil));
}

#[test]
fn decided_requests_no_longer_time_out() {
    let mut s = synchronizer(1);
    let r = Digest([7; 32]);
    s.client_requests_timed_out(&vec![r]);
    s.requests_decided(&vec![r]);
    match s.client_requests_timed_out(&vec![r]) {
        SynchronizerStatus::RequestsTimedOut { forwarded, stopped } => {
            assert_eq!(forwarded.len(), 1);
            assert!(stopped.is_empty());
        },
        _ => panic!("a request timed out"),
    }
}

#[test]
fn begin_view_change_broadcasts_stop_for_the_next_view() {
    let mut s = synchronizer(1);
    let m = s.begin_view_change(vec![Digest([7; 32])]).unwrap();
    assert_eq!(m.sequence_number(), SeqNo(1));
    assert!(matches!(m.kind(), ViewChangeMessageKind::Stop(r) if r.len() == 1));
    assert_eq!(s.phase(), SyncPhase::ViewChanging);
    assert!(s.begin_view_change(vec![]).is_none());
}

#[test]
fn a_replica_joins_with_f_plus_one_stops() {
    let mut s = synchronizer(3);
    let (status, out) = s.process_message(header(1), stop(1), none());
    assert!(matches!(status, SynchronizerStatus::Nil) && out.is_none());
    assert_eq!(s.phase(), SyncPhase::Normal);
    let (status, out) = s.process_message(header(2), stop(1), none());
    assert!(matches!(status, SynchronizerStatus::Running));
    assert!(matches!(out, Some(SyncAction::Broadcast(m)) if m.view == SeqNo(1)
        && matches!(m.kind, ViewChangeMessageKind::Stop(_))));
    assert_eq!(s.phase(), SyncPhase::ViewChanging);
}

#[test]
fn a_stop_is_counted_once_for_each_replica() {
    let mut s = synchronizer(3);
    s.process_message(header(1), stop(1), none());
    let (status, out) = s.process_message(header(1), stop(1), none());
    assert!(matches!(status, SynchronizerStatus::Nil) && out.is_none());
    assert_eq!(s.phase(), SyncPhase::Normal);
    let (_, out) = s.process_message(header(9), stop(1), none());
    assert!(out.is_none());
    let (_, out) = s.process_message(header(2), stop(2), none());
    assert!(out.is_none());
    assert_eq!(s.phase(), SyncPhase::Normal);
}

#[test]
fn quorum_of_stops_sends_stop_data_to_the_new_primary() {
    let mut s = synchronizer(2);
    s.begin_view_change(vec![]);
    s.process_message(header(1), stop(1), decision(4, 4));
    s.process_message(header(2), stop(1), decision(4, 4));
    let (status, out) = s.process_message(header(3), stop(1), decision(4, 4));
    assert!(matches!(status, SynchronizerStatus::Running));
    match out {
        Some(SyncAction::Send(to, m)) => {
            assert_eq!(to, NodeId(1));
            assert_eq!(m.view, SeqNo(1));
            assert!(matches!(m.kind, ViewChangeMessageKind::StopData(d)
                if d.last_seq == SeqNo(4) && d.last_digest == Digest([4; 32])));
        },
        _ => panic!("the last decision goes to the new primary"),
    }
    assert_eq!(s.phase(), SyncPhase::SyncData);
    assert_eq!(s.target_leader(), NodeId(1));
}

#[test]
fn the_new_primary_announces_the_latest_decision() {
    let mut s = synchronizer(1);
    s.begin_view_change(vec![]);
    let data = |d: CollectData| ViewChangeMessage::new(SeqNo(1), ViewChangeMessageKind::StopData(d));
    assert!(s.process_message(header(2), data(decision(3, 3)), none()).1.is_none());
    assert!(s.process_message(header(2), data(decision(9, 9)), none()).1.is_none());
    assert!(s.process_message(header(3), data(decision(5, 5)), none()).1.is_none());
    let (_, out) = s.process_message(header(1), data(decision(4, 4)), none());
    match out {
        Some(SyncAction::Broadcast(m)) => match m.kind {
            ViewChangeMessageKind::Sync(lc) => {
                assert_eq!(lc.chosen.last_seq, SeqNo(5));
                assert!(lc.chosen.last_digest == Digest([5; 32]));
                assert_eq!(lc.collects.len(), 3);
                assert_eq!(lc.collects[0].0, NodeId(2));
            },
            _ => panic!("the primary announces"),
        },
        _ => panic!("the primary announces"),
    }
}

#[test]
fn only_the_new_primary_collects() {
    let mut s = synchronizer(2);
    s.begin_view_change(vec![]);
    let m = ViewChangeMessage::new(SeqNo(1), ViewChangeMessageKind::StopData(decision(3, 3)));
    for from in [0, 1, 3] {
        assert!(s.process_message(header(from), m.clone(), none()).1.is_none());
    }
}

fn sync(view: i32, chosen: CollectData, collects: Vec<(u32, CollectData)>) -> ViewChangeMessage {
    let collects = collects.into_iter().map(|(n, d)| (NodeId(n), d)).collect();
    ViewChangeMessage::new(SeqNo(view), ViewChangeMessageKind::Sync(LeaderCollects { chosen, collects }))
}

#[test]
fn a_valid_sync_installs_the_view() {
    let mut s = synchronizer(2);
    s.begin_view_change(vec![]);
    assert!(s.view_change_timed_out().is_some());
    assert_eq!(s.timeout(), 2000);
    let m = sync(2, decision(5, 5), vec![(0, decision(5, 5)), (1, decision(4, 4)), (3, decision(5, 5))]);
    let (status, out) = s.process_message(header(2), m, decision(5, 5));
    assert!(matches!(status, SynchronizerStatus::NewView) && out.is_none());
    assert_eq!(s.phase(), SyncPhase::Normal);
    assert_eq!(s.view_info().sequence_number(), SeqNo(2));
    assert_eq!(s.view_info().leader(), NodeId(2));
    assert_eq!(s.timeout(), 1000);
}

#[test]
fn a_replica_that_is_behind_runs_a_state_transfer_first() {
    let mut s = synchronizer(2);
    s.begin_view_change(vec![]);
    let m = sync(1, decision(5, 5), vec![(0, decision(5, 5)), (1, decision(4, 4)), (3, decision(5, 5))]);
    let (status, _) = s.process_message(header(1), m, decision(3, 3));
    assert!(matches!(status, SynchronizerStatus::RunCst));
    assert_eq!(s.phase(), SyncPhase::AwaitingState);
    assert_eq!(s.view_info().sequence_number(), SeqNo(0));
    assert!(matches!(s.poll(), SynchronizerPollStatus::Recv));
    s.signal_state_installed();
    assert!(matches!(s.poll(), SynchronizerPollStatus::ResumeViewChange));
    assert!(s.resume_view_change());
    assert_eq!(s.phase(), SyncPhase::Normal);
    assert_eq!(s.view_info().sequence_number(), SeqNo(1));
    assert!(!s.resume_view_change());
}

#[test]
fn a_sync_that_cannot_be_trusted_is_dropped() {
    let good = vec![(0, decision(5, 5)), (1, decision(4, 4)), (3, decision(5, 5))];
    let cases = vec![
        (0u32, sync(1, decision(5, 5), good.clone())),
        (1, sync(2, decision(5, 5), good.clone())),
        (1, sync(1, decision(4, 4), good.clone())),
        (1, sync(1, decision(6, 6), good.clone())),
        (1, sync(1, decision(5, 5), vec![(0, decision(5, 5)), (1, decision(4, 4))])),
        (1, sync(1, decision(5, 5), vec![(0, decision(5, 5)), (0, decision(5, 5)), (3, decision(5, 5))])),
        (1, sync(1, decision(5, 5), vec![(0, decision(5, 5)), (1, decision(4, 4)), (7, decision(5, 5))])),
        (1, sync(1, decision(5, 6), good.clone())),
    ];
    for (from, m) in cases {
        let mut s = synchronizer(2);
        s.begin_view_change(vec![]);
        let (status, out) = s.process_message(header(from), m, decision(5, 5));
        assert!(matches!(status, SynchronizerStatus::Running) && out.is_none());
        assert_eq!(s.phase(), SyncPhase::ViewChanging);
        assert_eq!(s.view_info().sequence_number(), SeqNo(0));
    }
}

#[test]
fn the_view_change_timeout_doubles_up_to_its_cap() {
    let mut s = Synchronizer::new(NodeId(1), ViewInfo::new(SeqNo(0), 4, 1).unwrap(), 1_000_000);
    assert!(s.view_change_timed_out().is_none());
    s.begin_view_change(vec![]);
    let m = s.view_change_timed_out().unwrap();
    assert_eq!(m.sequence_number(), SeqNo(2));
    assert_eq!(s.timeout(), 2_000_000);
    s.view_change_timed_out().unwrap();
    assert_eq!(s.timeout(), MAX_VIEW_CHANGE_TIMEOUT);
    let m = s.view_change_timed_out().unwrap();
    assert_eq!(m.sequence_number(), SeqNo(4));
    assert_eq!(s.timeout(), 3_600_000);
    assert_eq!(s.target_leader(), NodeId(0));
}

#[test]
fn queued_view_change_messages_come_out_in_order() {
    let mut s = synchronizer(1);
    assert!(!s.can_process_stops());
    s.queue(header(2), stop(1));
    s.queue(header(3), stop(1));
    assert!(s.can_process_stops());
    assert!(matches!(s.poll(), SynchronizerPollStatus::NextMessage(h, _) if h.from == 2));
    assert!(matches!(s.poll(), SynchronizerPollStatus::NextMessage(h, _) if h.from == 3));
    assert!(matches!(s.poll(), SynchronizerPollStatus::Recv));
}
