use febft::error::{Error, ErrorKind};
use febft::executable::{
    ExecutionOutcome, ExecutionRequest, Executor, Service, Update, UpdateBatch, UpdateBatchReplies,
    UpdateReply,
};
use febft::msg_log::deciding_log::BatchMeta;
use febft::node_id::NodeId;
use febft::observer::{
    ConnState, MessageType, ObserveEventKind, ObserverAction, ObserverMessage, Observers,
};
use febft::ordering::SeqNo;
use febft::persistentdb::disabled::DisabledKV;

struct Counter {
    fails: bool,
}

impl Service for Counter {
    type State = i64;
    type Request = i64;
    type Reply = i64;

    fn initial_state(&mut self) -> Result<i64, Error> {
        if self.fails {
            Err(Error::simple(ErrorKind::Executable))
        } else {
            Ok(100)
        }
    }

    fn update(&mut self, state: &mut i64, request: i64) -> i64 {
        *state += request;
        *state
    }
}

fn batch(ops: &[i64]) -> UpdateBatch<i64> {
    let mut b = UpdateBatch::new_with_cap(ops.len());
    for (i, op) in ops.iter().enumerate() {
        b.add(NodeId(1000 + i as u32), SeqNo(1), SeqNo(i as i32), *op);
    }
    b
}

#[test]
fn update_batches_keep_their_requests_in_order() {
    let mut b: UpdateBatch<&str> = UpdateBatch::new();
    assert_eq!(b.len(), 0);
    b.add(NodeId(1), SeqNo(2), SeqNo(3), "a");
    b.add(NodeId(4), SeqNo(5), SeqNo(6), "b");
    assert_eq!(b.len(), 2);
    let inner: Vec<Update<&str>> = b.into_inner();
    assert_eq!(*inner[0].operation(), "a");
    let parts: Vec<(NodeId, SeqNo, SeqNo, &str)> = inner.into_iter().map(|u| u.into_inner()).collect();
    assert_eq!(parts, vec![(NodeId(1), SeqNo(2), SeqNo(3), "a"), (NodeId(4), SeqNo(5), SeqNo(6), "b")]);
}

#[test]
fn reply_batches_keep_their_replies_in_order() {
    let mut b: UpdateBatchReplies<u8> = UpdateBatchReplies::with_capacity(2);
    assert_eq!(b.len(), 0);
    b.add(NodeId(1), SeqNo(2), SeqNo(3), 7);
    b.add(NodeId(4), SeqNo(5), SeqNo(6), 8);
    assert_eq!(b.len(), 2);
    let inner: Vec<UpdateReply<u8>> = b.into_inner();
    assert_eq!(inner[1].to(), NodeId(4));
    let parts: Vec<(NodeId, SeqNo, SeqNo, u8)> = inner.into_iter().map(|u| u.into_inner()).collect();
    assert_eq!(parts, vec![(NodeId(1), SeqNo(2), SeqNo(3), 7), (NodeId(4), SeqNo(5), SeqNo(6), 8)]);
}

#[test]
fn a_batch_is_executed_in_order_and_answered_request_for_request() {
    let mut service = Counter { fails: false };
    let mut state = 0;
    let replies = service.update_batch(&mut state, batch(&[1, 10, 100]), BatchMeta::new());
    assert_eq!(state, 111);
    let parts: Vec<(NodeId, SeqNo, SeqNo, i64)> = replies.into_inner().into_iter().map(|r| r.into_inner()).collect();
    assert_eq!(parts, vec![
        (NodeId(1000), SeqNo(1), SeqNo(0), 1),
        (NodeId(1001), SeqNo(1), SeqNo(1), 11),
        (NodeId(1002), SeqNo(1), SeqNo(2), 111),
    ]);
}

#[test]
fn the_executor_runs_what_it_is_asked() {
    let mut executor = Executor::new(Counter { fails: false }).ok().unwrap();
    assert_eq!(*executor.state(), 100);
    match executor.execute(ExecutionRequest::Update(BatchMeta::new(), batch(&[1, 2]))) {
        ExecutionOutcome::Replies(r) => assert_eq!(r.len(), 2),
        _ => panic!("a batch is answered"),
    }
    assert_eq!(*executor.state(), 103);
    match executor.execute(ExecutionRequest::UpdateAndGetAppstate(BatchMeta::new(), batch(&[7]))) {
        ExecutionOutcome::RepliesAndAppstate(r) => {
            assert_eq!(r.into_inner().pop().unwrap().into_inner().3, 110);
        },
        _ => panic!("a checkpoint is asked for"),
    }
    assert!(matches!(
        executor.execute(ExecutionRequest::InstallState(5, vec![1, 2, 3])),
        ExecutionOutcome::Installed
    ));
    assert_eq!(*executor.state(), 11);
}

#[test]
fn an_application_without_initial_state_gives_no_executor() {
    let e = Executor::new(Counter { fails: true }).err().unwrap();
    assert_eq!(e.get_kind(), ErrorKind::Executable);
}

#[test]
fn observers_are_registered_once_and_greeted() {
    let mut o = Observers::new();
    let actions = o.handle(MessageType::Conn(ConnState::Connected(NodeId(1005))));
    assert_eq!(actions.len(), 1);
    assert!(matches!(actions[0], ObserverAction::Send(NodeId(1005), ObserverMessage::ObserverRegisterResponse(true))));
    o.handle(MessageType::Event(ObserveEventKind::NormalPhase(SeqNo(2), SeqNo(40))));
    o.handle(MessageType::Event(ObserveEventKind::Ready(SeqNo(40))));
    let actions = o.handle(MessageType::Conn(ConnState::Connected(NodeId(1005))));
    assert_eq!(actions.len(), 3);
    assert!(matches!(actions[0], ObserverAction::Send(_, ObserverMessage::ObserverRegisterResponse(false))));
    assert!(matches!(actions[1], ObserverAction::Send(NodeId(1005), ObserverMessage::ObservedValue(
        ObserveEventKind::NormalPhase(SeqNo(2), SeqNo(40))))));
    assert!(matches!(actions[2], ObserverAction::Send(NodeId(1005), ObserverMessage::ObservedValue(
        ObserveEventKind::Ready(SeqNo(40))))));
    assert_eq!(o.observers(), vec![NodeId(1005)]);
}

#[test]
fn events_are_broadcast_to_the_observers_in_the_order_of_their_ids() {
    let mut o = Observers::new();
    assert!(o.register_observer(NodeId(1009)));
    assert!(o.register_observer(NodeId(1001)));
    assert!(o.register_observer(NodeId(1005)));
    assert!(!o.register_observer(NodeId(1001)));
    let actions = o.handle(MessageType::Event(ObserveEventKind::ViewChangePhase));
    assert_eq!(actions.len(), 1);
    match &actions[0] {
        ObserverAction::Broadcast(targets, m) => {
            assert_eq!(targets, &vec![NodeId(1001), NodeId(1005), NodeId(1009)]);
            assert_eq!(*m, ObserverMessage::ObservedValue(ObserveEventKind::ViewChangePhase));
        },
        _ => panic!("an event is broadcast"),
    }
    assert!(o.handle(MessageType::Conn(ConnState::Disconnected(NodeId(1005)))).is_empty());
    assert!(!o.remove_observers(&NodeId(1005)));
    assert!(o.remove_observers(&NodeId(1001)));
    assert_eq!(o.observers(), vec![NodeId(1009)]);
}

#[test]
fn the_disabled_store_keeps_nothing() {
    let db = DisabledKV::new("/tmp/nowhere", vec!["a", "b"]).ok().unwrap();
    assert!(db.set("a", b"key", b"value").is_ok());
    assert!(db.set_all("a", vec![(b"k".to_vec(), b"v".to_vec())]).is_ok());
    assert_eq!(db.get("a", b"key").ok().unwrap(), None);
    assert_eq!(db.exists_key("a", b"key").ok().unwrap(), false);
    assert!(db.get_all(vec![("a", b"key".to_vec())]).ok().unwrap().is_empty());
    assert!(db.erase("a", b"key").is_ok());
    assert!(db.erase_keys("a", vec![b"key".to_vec()]).is_ok());
    assert!(db.erase_range("a", b"a", b"z").is_ok());
    assert!(db.compact_range("a", Some(&b"a"[..]), None).is_ok());
    assert!(db.iter_range("a", None, Some(&b"z"[..])).ok().unwrap().is_empty());
}

#[test]
fn an_executor_starts_with_the_state_that_the_application_gave() {
    let executor = Executor::started(Counter { fails: true }, Ok(7)).ok().unwrap();
    assert_eq!(*executor.state(), 7);
    let e = Executor::started(Counter { fails: false }, Err(Error::simple(ErrorKind::MsgLogDecidingLog)));
    assert_eq!(e.err().unwrap().get_kind(), ErrorKind::MsgLogDecidingLog);
}
