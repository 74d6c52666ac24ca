use febft::communication::channel::{
    new_bounded, new_bounded_mult, new_message_channel, recv_outcome, reply_message, send_outcome,
    take_into, Message, MessageChannelRx, Route, CONNECTION_QUEUE,
};
use febft::communication::connections::{PeerConnection, PeerConnections};
use febft::communication::message::{Header, StoredMessage, WireMessage, HEADER_LENGTH};
use febft::communication::pipeline::{
    after_write, CloseReason, RecvAction, RecvEvent, RecvPipeline, SendAction,
};
use febft::error::ErrorKind;
use febft::node_id::NodeId;

fn wire(to: u32, payload: &[u8]) -> (Header, Vec<u8>) {
    let wm = WireMessage::new(NodeId(7), NodeId(to), payload, 1, None, None);
    (wm.header, wm.header.serialize())
}

#[test]
fn the_pipeline_reads_a_header_and_then_its_payload() {
    let (mut p, first) = RecvPipeline::new(NodeId(0), 1 << 20);
    assert!(matches!(first, RecvAction::Read(n) if n == HEADER_LENGTH));
    let (_, bytes) = wire(0, b"hello");
    assert!(matches!(p.on_event(RecvEvent::Bytes(&bytes)), RecvAction::Read(5)));
    match p.on_event(RecvEvent::Bytes(b"hello")) {
        RecvAction::Deliver(h, payload) => {
            assert_eq!(h.from, 7);
            assert_eq!(payload, b"hello".to_vec());
        },
        _ => panic!("the message is delivered"),
    }
    assert!(matches!(p.on_event(RecvEvent::Bytes(&bytes)), RecvAction::Read(5)));
    assert!(!p.is_closed());
}

#[test]
fn a_message_without_payload_is_delivered_at_once() {
    let (mut p, _) = RecvPipeline::new(NodeId(0), 1 << 20);
    let (_, bytes) = wire(0, b"");
    assert!(matches!(p.on_event(RecvEvent::Bytes(&bytes)), RecvAction::Deliver(_, payload) if payload.is_empty()));
    assert!(!p.is_closed());
}

#[test]
fn a_header_for_another_node_closes_the_link() {
    let (mut p, _) = RecvPipeline::new(NodeId(0), 1 << 20);
    let (_, bytes) = wire(1, b"hello");
    assert!(matches!(p.on_event(RecvEvent::Bytes(&bytes)), RecvAction::Close));
    assert!(p.is_closed());
    let (_, good) = wire(0, b"hello");
    assert!(matches!(p.on_event(RecvEvent::Bytes(&good)), RecvAction::Close));
}

#[test]
fn an_oversized_payload_closes_the_link() {
    let (mut p, _) = RecvPipeline::new(NodeId(0), 4);
    let (_, bytes) = wire(0, b"hello");
    assert!(matches!(p.on_event(RecvEvent::Bytes(&bytes)), RecvAction::Close));
    let (mut p, _) = RecvPipeline::new(NodeId(0), 5);
    assert!(matches!(p.on_event(RecvEvent::Bytes(&bytes)), RecvAction::Read(5)));
}

#[test]
fn a_header_of_another_version_closes_the_link() {
    let (mut p, _) = RecvPipeline::new(NodeId(0), 1 << 20);
    let (mut h, _) = wire(0, b"hello");
    h.version = 3;
    assert!(matches!(p.on_event(RecvEvent::Bytes(&h.serialize())), RecvAction::Close));
}

#[test]
fn read_errors_and_short_reads_close_the_link() {
    let (mut p, _) = RecvPipeline::new(NodeId(0), 1 << 20);
    assert!(matches!(p.on_event(RecvEvent::ReadError), RecvAction::Close));
    assert!(p.is_closed());
    let (mut p, _) = RecvPipeline::new(NodeId(0), 1 << 20);
    assert!(matches!(p.on_event(RecvEvent::Bytes(&[0u8; 100])), RecvAction::Close));
    let (mut p, _) = RecvPipeline::new(NodeId(0), 1 << 20);
    let (_, bytes) = wire(0, b"hello");
    p.on_event(RecvEvent::Bytes(&bytes));
    assert!(matches!(p.on_event(RecvEvent::Bytes(b"hell")), RecvAction::Close));
    let (mut p, _) = RecvPipeline::new(NodeId(0), 1 << 20);
    assert!(matches!(p.close(), RecvAction::Close));
    assert!(p.is_closed());
}

#[test]
fn the_sending_pipeline_ends_with_the_first_failure() {
    assert_eq!(after_write(true, true), SendAction::Next);
    assert_eq!(after_write(true, false), SendAction::Close);
    assert_eq!(after_write(false, true), SendAction::Close);
}

#[test]
fn a_connection_has_one_bounded_queue() {
    let mut c = PeerConnections::new();
    assert!(!c.is_connected_to(&NodeId(3)));
    assert!(c.get_connection(&NodeId(3)).is_none());
    assert_eq!(c.send_message(&NodeId(3), vec![1]).unwrap_err().get_kind(), ErrorKind::CommunicationPeerNotFound);
    let h = c.handle_connection_established(NodeId(3));
    assert!(h.new_connection);
    assert_eq!((h.connection.node, h.connection.active_connections, h.connection.queue), (3, 1, 0));
    let h = c.handle_connection_established(NodeId(3));
    assert!(!h.new_connection);
    assert_eq!(h.connection.active_connections, 2);
    let h = c.handle_connection_established(NodeId(5));
    assert_eq!(h.connection.queue, 1);
    assert!(c.is_connected_to(&NodeId(3)));
    assert_eq!(c.get_connection(&NodeId(3)).unwrap().active_connections, 2);
    c.send_message(&NodeId(3), vec![1]).unwrap();
    c.send_message(&NodeId(3), vec![2]).unwrap();
    c.send_message(&NodeId(5), vec![9]).unwrap();
    assert_eq!(c.next_message(&NodeId(3)), Some(vec![1]));
    assert_eq!(c.next_message(&NodeId(3)), Some(vec![2]));
    assert_eq!(c.next_message(&NodeId(3)), None);
    assert_eq!(c.next_message(&NodeId(4)), None);
    assert_eq!(c.next_message(&NodeId(5)), Some(vec![9]));
}

#[test]
fn a_full_queue_makes_the_sender_wait() {
    let mut c = PeerConnections::new();
    c.handle_connection_established(NodeId(1));
    for i in 0..CONNECTION_QUEUE {
        c.send_message(&NodeId(1), vec![i as u8]).unwrap();
    }
    assert_eq!(c.send_message(&NodeId(1), vec![0]).unwrap_err().get_kind(), ErrorKind::CommunicationChannel);
    assert_eq!(c.next_message(&NodeId(1)), Some(vec![0]));
    assert!(c.send_message(&NodeId(1), vec![0]).is_ok());
}

#[test]
fn channels_deliver_in_order() {
    let (mut tx, mut rx) = new_bounded::<u32>(4);
    let mut other = tx.duplicate();
    tx.send(1).unwrap();
    other.send(2).unwrap();
    tx.send(3).unwrap();
    assert_eq!(rx.recv().unwrap(), 1);
    assert_eq!(rx.recv().unwrap(), 2);
    assert_eq!(rx.recv().unwrap(), 3);
    drop(tx);
    drop(other);
    assert_eq!(rx.recv().unwrap_err().get_kind(), ErrorKind::CommunicationChannel);
}

#[test]
fn sending_fails_when_the_receiver_is_gone() {
    let (mut tx, rx) = new_bounded::<u32>(4);
    drop(rx);
    assert_eq!(tx.send(1).unwrap_err().get_kind(), ErrorKind::CommunicationChannel);
}

#[test]
fn many_messages_are_received_at_once() {
    let (mut tx, mut rx) = new_bounded_mult::<u32>(8);
    for i in 0..5 {
        tx.send(i).unwrap();
    }
    let mut out = vec![99];
    assert_eq!(rx.try_recv_mult(&mut out, 3), 3);
    assert_eq!(out, vec![99, 0, 1, 2]);
    assert_eq!(rx.try_recv_mult(&mut out, 10), 2);
    assert_eq!(rx.try_recv_mult(&mut out, 10), 0);
    assert_eq!(out, vec![99, 0, 1, 2, 3, 4]);
}

#[test]
fn a_replica_has_one_queue_for_everything() {
    let (h, _) = wire(0, b"");
    let (mut tx, mut rx) = new_message_channel::<u8, u16>(false, 8);
    assert!(matches!(rx, MessageChannelRx::Server { .. }));
    assert_eq!(tx.send(Message::System(h, 1)).unwrap(), Route::Messages);
    assert_eq!(tx.duplicate().send(Message::Reply(h, 2)).unwrap(), Route::Messages);
    assert_eq!(tx.send(Message::Internal(3)).unwrap(), Route::Messages);
    assert!(matches!(rx.recv().unwrap(), Message::System(_, 1)));
    assert!(matches!(rx.recv().unwrap(), Message::Reply(_, 2)));
    assert!(matches!(rx.recv().unwrap(), Message::Internal(3)));
    assert!(rx.recv_reply().is_err());
    assert!(rx.recv_other().is_err());
}

#[test]
fn a_client_keeps_replies_apart_and_drops_other_messages_of_peers() {
    let (h, _) = wire(0, b"");
    let (mut tx, mut rx) = new_message_channel::<u8, u16>(true, 8);
    assert_eq!(tx.send(Message::System(h, 1)).unwrap(), Route::Dropped);
    assert_eq!(tx.send(Message::Reply(h, 2)).unwrap(), Route::Replies);
    assert_eq!(tx.send(Message::Internal(3)).unwrap(), Route::Other);
    assert!(matches!(rx.recv_reply().unwrap(), Message::Reply(_, 2)));
    assert!(matches!(rx.recv_other().unwrap(), Message::Internal(3)));
    assert_eq!(rx.recv().err().unwrap().get_kind(), ErrorKind::CommunicationChannel);
    drop(rx);
    assert!(tx.send(Message::Reply(h, 2)).is_err());
    assert_eq!(tx.send(Message::System(h, 1)).unwrap(), Route::Dropped);
}

#[test]
fn a_connection_counts_its_links() {
    let mut c = PeerConnection::new(NodeId(4), 2);
    assert_eq!((c.node, c.active_connections, c.queue), (4, 0, 2));
    c.insert_new_connection();
    c.insert_new_connection();
    assert_eq!(c.active_connections, 2);
    c.active_connections = u32::MAX;
    c.insert_new_connection();
    assert_eq!(c.active_connections, u32::MAX);
}

#[test]
fn a_closed_link_knows_why_it_was_closed() {
    use_reason(RecvEvent::ReadError, CloseReason::Io);
    let (_, wrong) = wire(9, b"x");
    use_reason(RecvEvent::Bytes(&wrong), CloseReason::Malformed);
    use_reason(RecvEvent::Bytes(&[0u8; 3]), CloseReason::Io);
    let (mut p, _) = RecvPipeline::new(NodeId(0), 16);
    assert_eq!(p.close_reason(), None);
    p.close();
    assert_eq!(p.close_reason(), Some(CloseReason::Malformed));
    p.on_event(RecvEvent::ReadError);
    assert_eq!(p.close_reason(), Some(CloseReason::Malformed));
}

fn use_reason(event: RecvEvent<'_>, reason: CloseReason) {
    let (mut p, _) = RecvPipeline::new(NodeId(0), 16);
    assert!(matches!(p.on_event(event), RecvAction::Close));
    assert_eq!(p.close_reason(), Some(reason));
}

#[test]
fn the_halves_of_a_channel_know_its_bound() {
    let (tx, rx) = new_bounded::<u32>(4);
    assert_eq!((tx.bound(), rx.bound(), tx.duplicate().bound()), (4, 4, 4));
    let (tx, rx) = new_bounded_mult::<u32>(7);
    assert_eq!((tx.bound(), rx.bound()), (7, 7));
}

#[test]
fn a_client_is_handed_its_replies_first() {
    let (h, _) = wire(0, b"");
    let (mut tx, mut rx) = new_message_channel::<u8, u16>(true, 8);
    assert!(rx.try_recv().is_none());
    tx.send(Message::Internal(3)).unwrap();
    tx.send(Message::Reply(h, 2)).unwrap();
    assert!(matches!(rx.try_recv(), Some(Message::Reply(_, 2))));
    assert!(matches!(rx.try_recv(), Some(Message::Internal(3))));
    assert!(rx.try_recv().is_none());
}

#[test]
fn what_a_channel_answers_is_handed_on() {
    assert!(send_outcome(true).is_ok());
    assert_eq!(send_outcome(false).err().unwrap().get_kind(), ErrorKind::CommunicationChannel);
    assert_eq!(recv_outcome(Some(5u8)).ok(), Some(5));
    assert_eq!(recv_outcome::<u8>(None).err().unwrap().get_kind(), ErrorKind::CommunicationChannel);
    let mut out = vec![1u8];
    assert!(take_into(&mut out, Some(2)));
    assert!(!take_into(&mut out, None));
    assert_eq!(out, vec![1, 2]);
    let (h, _) = wire(3, b"abc");
    match reply_message::<u8, u16>(StoredMessage::new(h, 9)) {
        Message::Reply(header, 9) => assert_eq!(header.length, 3),
        _ => panic!("a stored reply is handed out as a reply"),
    }
}

#[test]
fn every_queue_of_a_message_channel_has_the_bound() {
    match new_message_channel::<u8, u16>(true, 5) {
        (
            febft::communication::channel::MessageChannelTx::Client { other, replies },
            MessageChannelRx::Client { other: o, replies: r },
        ) => assert_eq!((other.bound(), replies.bound(), o.bound(), r.bound()), (5, 5, 5, 5)),
        _ => panic!("a client has two queues"),
    }
    match new_message_channel::<u8, u16>(false, 6) {
        (
            febft::communication::channel::MessageChannelTx::Server { messages },
            MessageChannelRx::Server { messages: m },
        ) => assert_eq!((messages.bound(), m.bound()), (6, 6)),
        _ => panic!("a replica has one queue"),
    }
}
