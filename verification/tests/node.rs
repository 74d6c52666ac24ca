use febft::communication::message::{Header, WireMessage};
use febft::communication::node::{
    accept_handshake, connect_step, connection_wins, found_all_replicas, handshake_header,
    uses_client_address, Accepted, BootstrapOutcome, ConnectAction, ConnectEvent, Established,
    HandshakeError, Link, Node, NodeConfig, NodeShared, PeerTx, SecureSocketSend, SendTo,
    SerializedSendTo, CONNECT_RETRIES,
};
use febft::crypto::hash::Digest;
use febft::crypto::signature::KeyPair;
use febft::error::ErrorKind;
use febft::node_id::NodeId;

fn config(id: u32) -> NodeConfig {
    NodeConfig {
        n: 4,
        f: 1,
        id: NodeId(id),
        first_cli: NodeId(1000),
        batch_size: 8,
        fill_batch: false,
        clients_per_pool: 8,
        batch_timeout_micros: 1000,
        batch_sleep_micros: 1000,
    }
}

fn node(id: u32) -> Node<u8> {
    Node::new(&config(id)).unwrap()
}

#[test]
fn a_configuration_needs_enough_replicas_and_a_valid_id() {
    assert!(config(0).validate().is_ok());
    assert!(config(3).validate().is_ok());
    assert!(config(1000).validate().is_ok());
    assert_eq!(config(4).validate().unwrap_err().get_kind(), ErrorKind::Communication);
    assert!(config(999).validate().is_err());
    let mut few = config(0);
    few.n = 3;
    assert_eq!(few.validate().unwrap_err().get_kind(), ErrorKind::Communication);
    let mut none = config(0);
    none.n = 0;
    none.f = 0;
    assert!(none.validate().is_err());
}

#[test]
fn a_replica_connects_to_the_replicas_before_it() {
    let plan = config(2).plan().unwrap();
    assert!(!plan.is_client);
    assert!(plan.listen_for_replicas);
    assert_eq!(plan.connect_to, vec![NodeId(0), NodeId(1)]);
    assert!(config(0).plan().unwrap().connect_to.is_empty());
}

#[test]
fn a_client_connects_to_every_replica() {
    let plan = config(1001).plan().unwrap();
    assert!(plan.is_client);
    assert!(!plan.listen_for_replicas);
    assert_eq!(plan.connect_to, vec![NodeId(0), NodeId(1), NodeId(2), NodeId(3)]);
    assert!(config(4).plan().is_err());
}

#[test]
fn exit_codes() {
    assert_eq!(BootstrapOutcome::CleanShutdown.exit_code(), 0);
    assert_eq!(BootstrapOutcome::InvalidConfiguration.exit_code(), 1);
    assert_eq!(BootstrapOutcome::BindOrConnectFailure.exit_code(), 2);
}

#[test]
fn the_handshake_header_announces_an_empty_unsigned_message() {
    let h = handshake_header(NodeId(2), NodeId(0), 99);
    assert_eq!((h.from, h.to, h.nonce, h.length), (2, 0, 99, 0));
    assert!(h.signature.is_zero());
    assert!(h.digest == Digest::of(b""));
}

#[test]
fn the_handshake_accepts_connections_meant_for_this_node() {
    let first = NodeId(1000);
    let h = handshake_header(NodeId(2), NodeId(0), 1);
    assert_eq!(accept_handshake(h, NodeId(0), first), Ok(Accepted { peer_id: NodeId(2), tls: true }));
    let h = handshake_header(NodeId(1001), NodeId(0), 1);
    assert_eq!(accept_handshake(h, NodeId(0), first), Ok(Accepted { peer_id: NodeId(1001), tls: false }));
    let h = handshake_header(NodeId(0), NodeId(1001), 1);
    assert_eq!(accept_handshake(h, NodeId(1001), first), Ok(Accepted { peer_id: NodeId(0), tls: false }));
}

#[test]
fn the_handshake_turns_misrouted_connections_away() {
    let first = NodeId(1000);
    let h = handshake_header(NodeId(2), NodeId(1), 1);
    assert_eq!(accept_handshake(h, NodeId(0), first), Err(HandshakeError::WrongDestination));
    let h = handshake_header(NodeId(1002), NodeId(1001), 1);
    assert_eq!(accept_handshake(h, NodeId(1001), first), Err(HandshakeError::ClientToClient));
    let mut h = handshake_header(NodeId(2), NodeId(0), 1);
    h.length = 5;
    assert_eq!(accept_handshake(h, NodeId(0), first), Err(HandshakeError::InvalidHeader));
    let mut h = handshake_header(NodeId(2), NodeId(0), 1);
    h.version = 9;
    assert_eq!(accept_handshake(h, NodeId(0), first), Err(HandshakeError::InvalidHeader));
}

#[test]
fn the_larger_pair_of_source_and_nonce_wins() {
    assert!(connection_wins((NodeId(2), 0), (NodeId(1), 99)));
    assert!(!connection_wins((NodeId(1), 99), (NodeId(2), 0)));
    assert!(connection_wins((NodeId(1), 5), (NodeId(1), 4)));
    assert!(!connection_wins((NodeId(1), 4), (NodeId(1), 4)));
}

#[test]
fn connecting_is_retried_every_second_up_to_180_times() {
    assert_eq!(CONNECT_RETRIES, 180);
    assert_eq!(connect_step(0, ConnectEvent::ConnectFailed), ConnectAction::RetryAfter(1));
    assert_eq!(connect_step(178, ConnectEvent::ConnectFailed), ConnectAction::RetryAfter(1));
    assert_eq!(connect_step(179, ConnectEvent::ConnectFailed), ConnectAction::GiveUp);
    assert_eq!(connect_step(0, ConnectEvent::WriteFailed), ConnectAction::GiveUp);
    assert_eq!(connect_step(0, ConnectEvent::TlsFailed), ConnectAction::GiveUp);
    assert_eq!(connect_step(7, ConnectEvent::Established), ConnectAction::Register);
}

#[test]
fn the_registry_keeps_the_latest_link_of_a_peer() {
    let mut tx = PeerTx::new(NodeId(1000));
    assert_eq!(tx.find_peer(3), None);
    tx.add_peer(3, SecureSocketSend::Sync(10));
    tx.add_peer(1001, SecureSocketSend::Async(11));
    assert_eq!(tx.find_peer(3), Some(SecureSocketSend::Sync(10)));
    assert_eq!(tx.find_peer(1001), Some(SecureSocketSend::Async(11)));
    tx.add_peer(3, SecureSocketSend::Sync(12));
    assert_eq!(tx.find_peer(3), Some(SecureSocketSend::Sync(12)));
    assert_eq!(tx.find_peer(4), None);
}

#[test]
fn a_node_needs_a_valid_configuration() {
    assert!(Node::<u8>::new(&config(4)).is_err());
    let mut zero = config(0);
    zero.batch_size = 0;
    assert_eq!(Node::<u8>::new(&zero).err().unwrap().get_kind(), ErrorKind::Communication);
    let n = node(1);
    assert_eq!(n.id(), NodeId(1));
    assert_eq!(n.first_client_id(), NodeId(1000));
    assert_eq!(n.batch_size(), 8);
    assert_eq!(n.node_handling().replica_count(), 1);
}

#[test]
fn a_message_to_the_node_itself_takes_the_loopback() {
    let n = node(1);
    assert_eq!(n.send(NodeId(1), true), Some(SendTo::Me { my_id: NodeId(1), signed: false }));
    assert_eq!(n.send_signed(NodeId(1)), Some(SendTo::Me { my_id: NodeId(1), signed: true }));
}

#[test]
fn a_message_needs_a_queue_and_a_link() {
    let mut n = node(1);
    assert_eq!(n.send(NodeId(2), true), None);
    n.handle_connected_tx(NodeId(2), SecureSocketSend::Sync(5));
    assert_eq!(n.send(NodeId(2), true), None);
    let setup = n.handle_connected_rx(NodeId(2)).unwrap();
    assert!(!setup.reverse_connect);
    let expected = SendTo::Peers {
        flush: false,
        my_id: NodeId(1),
        peer_id: NodeId(2),
        signed: false,
        sock: SecureSocketSend::Sync(5),
    };
    assert_eq!(n.send(NodeId(2), false), Some(expected));
    assert_eq!(n.send_signed(NodeId(2)).unwrap().is_signed(), true);
    assert_eq!(n.send_to(true, NodeId(3), false), None);
}

#[test]
fn a_replica_connects_back_to_a_client() {
    let mut replica = node(1);
    let setup = replica.handle_connected_rx(NodeId(1001)).unwrap();
    assert!(setup.reverse_connect);
    assert!(setup.new_pool);
    assert!(!replica.handle_connected_rx(NodeId(1002)).unwrap().new_pool);
    let mut client = node(1001);
    assert!(client.handle_connected_rx(NodeId(1002)).is_none());
    assert!(!client.handle_connected_rx(NodeId(0)).unwrap().reverse_connect);
}

#[test]
fn a_broadcast_reaches_the_peers_that_have_a_queue_and_a_link() {
    let mut n = node(0);
    for peer in [1u32, 2] {
        n.handle_connected_rx(NodeId(peer));
    }
    n.handle_connected_tx(NodeId(1), SecureSocketSend::Sync(11));
    n.handle_connected_tx(NodeId(3), SecureSocketSend::Sync(13));
    let targets = NodeId::replicas(4);
    let (mine, others, disconnect) = n.broadcast(&targets);
    assert_eq!(mine, Some(SendTo::Me { my_id: NodeId(0), signed: false }));
    let others = others.into_vec();
    assert_eq!(others, vec![SendTo::Peers {
        flush: true,
        my_id: NodeId(0),
        peer_id: NodeId(1),
        signed: false,
        sock: SecureSocketSend::Sync(11),
    }]);
    assert_eq!(disconnect, vec![NodeId(2)]);
    n.disconnect_peers(&disconnect);
    let (mine, others, _) = n.broadcast_signed(&vec![NodeId(1)]);
    assert!(mine.is_none());
    assert_eq!(others.len(), 1);
    assert!(others.into_vec()[0].is_signed());
}

#[test]
fn a_broadcast_to_many_peers_keeps_their_order() {
    let mut n = node(0);
    let targets: Vec<NodeId> = (1000..1040).map(NodeId).collect();
    for t in &targets {
        n.handle_connected_rx(*t);
        n.handle_connected_tx(*t, SecureSocketSend::Async(t.0 as u64));
    }
    let (mine, others, disconnect) = n.broadcast(&targets);
    assert!(mine.is_none() && disconnect.is_empty());
    let ids: Vec<NodeId> = others.into_vec().iter().map(|s| s.destination()).collect();
    assert_eq!(ids, targets);
}

#[test]
fn encoded_messages_go_where_their_headers_say() {
    let mut n = node(0);
    n.handle_connected_rx(NodeId(1));
    n.handle_connected_tx(NodeId(1), SecureSocketSend::Sync(11));
    let headers: Vec<Header> =
        [1u32, 0, 2].iter().map(|to| handshake_header(NodeId(0), NodeId(*to), 1)).collect();
    let (mine, others, disconnect) = n.broadcast_serialized(&headers);
    assert_eq!(mine, Some(SerializedSendTo::Me { id: NodeId(0) }));
    assert_eq!(others, vec![SerializedSendTo::Peers {
        id: NodeId(1),
        our_id: NodeId(0),
        sock: SecureSocketSend::Sync(11),
    }]);
    assert!(disconnect.is_empty());
    assert_eq!(others[0].socket_type(), Some(SecureSocketSend::Sync(11)));
    assert_eq!(mine.unwrap().socket_type(), None);
    let wm = WireMessage::new(NodeId(0), NodeId(1), b"abc", 1, None, None);
    assert!(others[0].value(wm.header, b"abc").is_ok());
    assert_eq!(
        others[0].value(wm.header, b"ab").err().unwrap().get_kind(),
        ErrorKind::CommunicationSerialize
    );
}

#[test]
fn a_target_makes_the_wire_message_for_its_peer() {
    let key = KeyPair::from_bytes(&[5u8; 32]).unwrap();
    let payload = b"payload";
    let digest = Digest::of(payload);
    let peer = SendTo::Peers {
        flush: true,
        my_id: NodeId(0),
        peer_id: NodeId(3),
        signed: true,
        sock: SecureSocketSend::Sync(1),
    };
    assert_eq!(peer.socket_type(), Some(SecureSocketSend::Sync(1)));
    assert_eq!(peer.destination(), NodeId(3));
    let wm = peer.value(payload, 42, digest, Some(&key));
    assert_eq!((wm.header.from, wm.header.to, wm.header.nonce), (0, 3, 42));
    assert!(wm.is_valid(Some(&key.public_key())));
    let unsigned = peer.value(payload, 42, digest, None);
    assert!(unsigned.header.signature.is_zero());
    let me = SendTo::Me { my_id: NodeId(0), signed: false };
    assert_eq!(me.socket_type(), None);
    let wm = me.value(payload, 1, digest, Some(&key));
    assert_eq!((wm.header.from, wm.header.to), (0, 0));
    assert!(wm.header.signature.is_zero());
}

#[test]
fn of_two_links_opened_at_once_the_larger_pair_stays() {
    let mut tx = PeerTx::new(NodeId(1000));
    assert_eq!(tx.establish(3, SecureSocketSend::Sync(1), NodeId(3), 50), Established::Installed);
    assert_eq!(tx.establish(3, SecureSocketSend::Sync(2), NodeId(1), 99), Established::Rejected);
    assert_eq!(tx.find_peer(3), Some(SecureSocketSend::Sync(1)));
    assert_eq!(tx.establish(3, SecureSocketSend::Sync(3), NodeId(3), 50), Established::Rejected);
    assert_eq!(
        tx.establish(3, SecureSocketSend::Sync(4), NodeId(3), 51),
        Established::Replaced(SecureSocketSend::Sync(1))
    );
    assert_eq!(
        tx.find_link(3),
        Some(Link { sock: SecureSocketSend::Sync(4), opener: NodeId(3), nonce: 51 })
    );
    let mut n = node(1);
    assert_eq!(n.handle_established(NodeId(2), SecureSocketSend::Sync(7), NodeId(1), 5), Established::Installed);
    assert_eq!(
        n.handle_established(NodeId(2), SecureSocketSend::Sync(8), NodeId(2), 0),
        Established::Replaced(SecureSocketSend::Sync(7))
    );
}

#[test]
fn the_keys_of_the_peers_are_found_by_id() {
    let mine = KeyPair::from_bytes(&[1u8; 32]).unwrap();
    let other = KeyPair::from_bytes(&[2u8; 32]).unwrap();
    let mut shared = NodeShared::new(mine.clone());
    assert!(shared.get_public_key(NodeId(2)).is_none());
    shared.add_public_key(NodeId(2), other.public_key());
    shared.add_public_key(NodeId(1), mine.public_key());
    assert_eq!(shared.get_public_key(NodeId(2)).unwrap().0, other.public_key().0);
    assert_eq!(shared.get_public_key(NodeId(1)).unwrap().0, mine.public_key().0);
    assert_eq!(shared.key_pair().public_key().0, mine.public_key().0);
    shared.add_public_key(NodeId(2), mine.public_key());
    assert_eq!(shared.get_public_key(NodeId(2)).unwrap().0, mine.public_key().0);
}

#[test]
fn a_node_queues_and_gathers_the_messages_of_its_peers() {
    let mut n = node(0);
    assert_eq!(n.push_request(NodeId(1001), 5), Err(5));
    n.handle_connected_rx(NodeId(1001));
    n.handle_connected_rx(NodeId(2));
    assert_eq!(n.push_request(NodeId(1001), 5), Ok(()));
    assert_eq!(n.push_request(NodeId(1001), 6), Ok(()));
    assert_eq!(n.push_request(NodeId(2), 7), Ok(()));
    assert_eq!(n.push_request(NodeId(0), 8), Ok(()));
    let mut batch = Vec::new();
    n.collect_client_requests(3, &mut batch);
    assert!(batch.is_empty());
    n.collect_client_requests(0, &mut batch);
    assert_eq!(batch, vec![5, 6]);
    let mut messages = Vec::new();
    n.collect_replica_messages(0, &mut messages);
    messages.sort();
    assert_eq!(messages, vec![7, 8]);
    n.disconnect_peers(&vec![NodeId(1001)]);
    assert_eq!(n.push_request(NodeId(1001), 9), Err(9));
    let mut client = node(1001);
    let mut batch = vec![1];
    client.collect_client_requests(0, &mut batch);
    assert_eq!(batch, vec![1]);
}

#[test]
fn a_node_knows_when_it_found_its_peers_and_which_address_to_dial() {
    assert!(!found_all_replicas(3, 4));
    assert!(found_all_replicas(4, 4));
    assert!(uses_client_address(NodeId(1000), NodeId(1000)));
    assert!(!uses_client_address(NodeId(3), NodeId(1000)));
}

#[test]
fn links_closed_as_malformed_are_counted() {
    let mut n = node(0);
    n.handle_connected_rx(NodeId(2));
    assert_eq!(n.malformed_count(), 0);
    n.handle_disconnected_rx(NodeId(2), febft::communication::pipeline::CloseReason::Io);
    assert_eq!(n.malformed_count(), 0);
    assert_eq!(n.push_request(NodeId(2), 1), Err(1));
    n.handle_disconnected_rx(NodeId(3), febft::communication::pipeline::CloseReason::Malformed);
    assert_eq!(n.malformed_count(), 1);
}

#[test]
fn closing_queues_closes_those_of_the_peers_that_are_named() {
    let mut n = node(0);
    for id in [1, 2, 1001, 1002] {
        n.handle_connected_rx(NodeId(id));
        assert_eq!(n.push_request(NodeId(id), id as u8), Ok(()));
    }
    n.disconnect_peers(&vec![NodeId(2), NodeId(3), NodeId(1002), NodeId(2)]);
    assert_eq!(n.push_request(NodeId(2), 0), Err(0));
    assert_eq!(n.push_request(NodeId(1002), 0), Err(0));
    assert_eq!(n.push_request(NodeId(1), 11), Ok(()));
    assert_eq!(n.push_request(NodeId(1001), 12), Ok(()));
    assert_eq!(n.push_request(NodeId(0), 13), Ok(()));
    let mut requests = Vec::new();
    n.collect_client_requests(0, &mut requests);
    assert_eq!(requests, vec![(1001 % 256) as u8, 12]);
    let mut messages = Vec::new();
    n.collect_replica_messages(0, &mut messages);
    messages.sort();
    assert_eq!(messages, vec![1, 11, 13]);
    assert_eq!(n.node_handling().client_count(), Some(1));
}

#[test]
fn a_message_is_queued_where_its_peer_has_room() {
    let mut n = node(0);
    assert_eq!(n.push_request(NodeId(1000), 1), Err(1));
    assert_eq!(
        n.handle_connected_rx(NodeId(1000)).map(|s| (s.reverse_connect, s.new_pool)),
        Some((true, true))
    );
    let mut queued = 0usize;
    while n.push_request(NodeId(1000), (queued % 200) as u8).is_ok() {
        queued += 1;
        assert!(queued < 1_000_000);
    }
    assert!(queued >= 8);
    assert_eq!(n.push_request(NodeId(1000), 9), Err(9));
    let mut requests = Vec::new();
    n.collect_client_requests(0, &mut requests);
    assert_eq!(requests, vec![0, 1, 2, 3, 4, 5, 6, 7]);
    for i in 0..8 {
        assert_eq!(n.push_request(NodeId(1000), 100 + i), Ok(()));
    }
    assert_eq!(n.push_request(NodeId(1000), 9), Err(9));
    assert_eq!(n.push_request(NodeId(0), 10), Ok(()));
    let mut messages = Vec::new();
    n.collect_replica_messages(0, &mut messages);
    assert_eq!(messages, vec![10]);
}

#[test]
fn the_first_client_of_a_pool_needs_a_task() {
    let mut n = node(0);
    let first = n.handle_connected_rx(NodeId(1000)).unwrap();
    assert!(first.reverse_connect && first.new_pool);
    for id in 1001..1008 {
        let next = n.handle_connected_rx(NodeId(id)).unwrap();
        assert!(next.reverse_connect && !next.new_pool);
    }
    let ninth = n.handle_connected_rx(NodeId(1008)).unwrap();
    assert!(ninth.new_pool);
    assert_eq!(n.node_handling().client_pool_count(), 2);
    assert_eq!(n.push_request(NodeId(1008), 1), Ok(()));
    let mut requests = Vec::new();
    n.collect_client_requests(0, &mut requests);
    assert!(requests.is_empty());
    n.collect_client_requests(1, &mut requests);
    assert_eq!(requests, vec![1]);
    let mut client = node(1001);
    assert!(client.handle_connected_rx(NodeId(1002)).is_none());
    let replica = client.handle_connected_rx(NodeId(2)).unwrap();
    assert!(!replica.reverse_connect);
}
