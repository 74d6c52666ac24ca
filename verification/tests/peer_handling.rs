use febft::communication::channel::BoundedQueue;
use febft::communication::peer_handling::{
    BatchDecision, BatchPolicy, ConnectedPeer, ConnectedPeersGroup, ConnectedPeersPool, NodePeers,
    PeerRef,
};
use febft::node_id::NodeId;

fn pool_with(batch_size: usize, supplies: &[usize]) -> ConnectedPeersPool<(u32, usize)> {
    let mut pool = ConnectedPeersPool::new(batch_size);
    for (i, supply) in supplies.iter().enumerate() {
        let mut peer = ConnectedPeer::new(NodeId(1000 + i as u32), 1000);
        for k in 0..*supply {
            peer.push_request((1000 + i as u32, k)).unwrap();
        }
        assert!(pool.attempt_to_add(peer).is_ok());
    }
    pool
}

fn served(batch: &Vec<(u32, usize)>, client: u32) -> usize {
    batch.iter().filter(|(c, _)| *c == client).count()
}

#[test]
fn bounded_queue_is_fifo_and_bounded() {
    let mut q = BoundedQueue::new(2);
    assert_eq!(q.bound(), 2);
    assert!(q.try_push(1).is_ok());
    assert!(!q.is_full());
    assert!(q.try_push(2).is_ok());
    assert!(q.is_full());
    assert_eq!(q.try_push(3), Err(3));
    assert_eq!(q.len(), 2);
    assert_eq!(q.pop(), Some(1));
    assert!(q.try_push(3).is_ok());
    let mut out = vec![0];
    assert_eq!(q.dump_n(5, &mut out), 2);
    assert_eq!(out, vec![0, 2, 3]);
    assert_eq!(q.pop(), None);
}

#[test]
fn a_peer_queue_takes_messages_until_full_or_disconnected() {
    let mut p = ConnectedPeer::new(NodeId(7), 2);
    assert_eq!(*p.client_id(), NodeId(7));
    assert!(p.push_request(1).is_ok());
    assert!(p.push_request(2).is_ok());
    assert_eq!(p.push_request(3), Err(3));
    let mut out = Vec::new();
    assert_eq!(p.dump_n_requests(1, &mut out), 1);
    assert_eq!(out, vec![1]);
    assert!(!p.is_dc());
    p.disconnect();
    assert!(p.is_dc());
    assert_eq!(p.push_request(4), Err(4));
    assert_eq!(p.len(), 1);
}

#[test]
fn a_pool_takes_as_many_clients_as_a_batch_has_requests() {
    let mut pool: ConnectedPeersPool<u8> = ConnectedPeersPool::new(2);
    assert!(pool.attempt_to_add(ConnectedPeer::new(NodeId(1), 4)).is_ok());
    assert!(pool.attempt_to_add(ConnectedPeer::new(NodeId(2), 4)).is_ok());
    let back = pool.attempt_to_add(ConnectedPeer::new(NodeId(3), 4)).err().unwrap();
    assert_eq!(*back.client_id(), NodeId(3));
    assert_eq!(pool.len(), 2);
    assert_eq!(pool.position(&NodeId(2)), Some(1));
    assert_eq!(pool.attempt_to_remove(&NodeId(9)), Err(()));
    assert_eq!(pool.attempt_to_remove(&NodeId(1)), Ok(false));
    assert_eq!(*pool.client(0).client_id(), NodeId(2));
    assert_eq!(pool.attempt_to_remove(&NodeId(2)), Ok(true));
    assert!(!pool.is_shutdown());
    pool.shutdown();
    assert!(pool.is_shutdown());
}

#[test]
fn a_walk_gives_each_client_its_share() {
    let mut pool = pool_with(8, &[10, 10, 10, 10]);
    let mut batch = Vec::new();
    pool.collect_pass(0, &mut batch);
    assert_eq!(batch.len(), 8);
    for c in 1000..1004 {
        assert_eq!(served(&batch, c), 2);
    }
    assert_eq!(batch[..4], [(1000, 0), (1000, 1), (1001, 0), (1001, 1)]);
    assert_eq!(pool.client(0).len(), 8);
}

#[test]
fn a_walk_starts_where_it_is_told() {
    let mut pool = pool_with(10, &[10, 10, 10]);
    let mut batch = Vec::new();
    pool.collect_pass(1, &mut batch);
    assert_eq!(batch.len(), 10);
    assert_eq!(served(&batch, 1001), 4);
    assert_eq!(served(&batch, 1002), 3);
    assert_eq!(served(&batch, 1000), 3);
    assert_eq!(batch[0], (1001, 0));
    let mut batch = Vec::new();
    pool.collect_pass(5, &mut batch);
    assert_eq!(batch[0], (1002, 3));
}

#[test]
fn what_a_client_leaves_is_carried_forward() {
    let mut pool = pool_with(10, &[1, 0, 100]);
    let mut batch = Vec::new();
    pool.collect_pass(0, &mut batch);
    assert_eq!(served(&batch, 1000), 1);
    assert_eq!(served(&batch, 1001), 0);
    assert_eq!(served(&batch, 1002), 9);
    assert_eq!(batch.len(), 10);
    let mut pool = pool_with(10, &[100, 0, 1]);
    let mut batch = Vec::new();
    pool.collect_pass(0, &mut batch);
    assert_eq!(served(&batch, 1002), 1);
    assert_eq!(served(&batch, 1000), 9);
    assert_eq!(batch.len(), 10);
    assert_eq!(batch[3], (1000, 3));
    assert_eq!(batch[4], (1002, 0));
    assert_eq!(batch[5], (1000, 4));
    assert_eq!(pool.client(0).len(), 91);
}

#[test]
fn no_client_with_requests_is_passed_over() {
    for start in 0..3 {
        let mut pool = pool_with(4, &[2, 5, 3]);
        let mut batch = Vec::new();
        pool.collect_pass(start, &mut batch);
        assert_eq!(batch.len(), 4);
        for c in 1000..1003 {
            assert!(served(&batch, c) >= 1, "client {} from start {}", c, start);
            assert!(served(&batch, c) <= 2);
        }
    }
}

#[test]
fn a_batch_is_filled_where_enough_requests_wait() {
    let mut pool = pool_with(4, &[10, 0]);
    let mut batch = Vec::new();
    pool.collect_pass(0, &mut batch);
    assert_eq!(batch, vec![(1000, 0), (1000, 1), (1000, 2), (1000, 3)]);
    let mut pool = pool_with(4, &[0, 10]);
    let mut batch = Vec::new();
    pool.collect_pass(0, &mut batch);
    assert_eq!(batch.len(), 4);
    let mut pool = pool_with(6, &[1, 0, 2]);
    let mut batch = vec![(7, 7)];
    pool.collect_pass(1, &mut batch);
    assert_eq!(batch, vec![(7, 7), (1002, 0), (1002, 1), (1000, 0)]);
    let mut pool = pool_with(6, &[4, 4, 4]);
    let mut batch = vec![(7, 7), (7, 8), (7, 9), (7, 10)];
    pool.collect_pass(2, &mut batch);
    assert_eq!(batch[4..], [(1002, 0), (1002, 1)]);
}

#[test]
fn a_client_that_floods_does_not_starve_the_others() {
    let b = 8;
    let k = 4;
    let mut pool = pool_with(b, &[10 * b, b, b, b]);
    let mut total = vec![0usize; k];
    for round in 0..k {
        let mut batch = Vec::new();
        pool.collect_pass(round, &mut batch);
        assert_eq!(batch.len(), b);
        for c in 0..k {
            total[c] += served(&batch, 1000 + c as u32);
        }
    }
    for c in 0..k {
        assert!(total[c] >= b / k);
        assert_eq!(total[c], 8);
    }
}

#[test]
fn disconnected_clients_leave_the_pool_with_the_next_batch() {
    let mut pool = pool_with(6, &[5, 5, 5]);
    pool.disconnect(1);
    let mut batch = Vec::new();
    let dced = pool.collect_requests(&mut batch);
    assert_eq!(dced, vec![NodeId(1001)]);
    assert_eq!(pool.len(), 2);
    assert_eq!(batch.len(), 6);
    assert_eq!(served(&batch, 1001), 0);
    assert_eq!(served(&batch, 1000), 3);
    pool.disconnect(0);
    pool.disconnect(1);
    let before = batch.clone();
    let dced = pool.collect_requests(&mut batch);
    assert_eq!(dced.len(), 2);
    assert_eq!(batch, before);
    assert_eq!(pool.len(), 0);
}

#[test]
fn a_random_start_serves_everyone_within_the_batch() {
    for _ in 0..20 {
        let mut pool = pool_with(9, &[20, 20, 20]);
        let mut batch = Vec::new();
        pool.collect_requests(&mut batch);
        assert_eq!(batch.len(), 9);
        for c in 1000..1003 {
            assert_eq!(served(&batch, c), 3);
        }
    }
}

#[test]
fn a_new_client_joins_the_first_pool_with_room() {
    let mut group: ConnectedPeersGroup<u8> = ConnectedPeersGroup::new(32, 2);
    assert_eq!(group.init_client(NodeId(1000)), ((0, 0), true));
    assert_eq!(group.init_client(NodeId(1001)), ((0, 1), false));
    assert_eq!(group.init_client(NodeId(1002)), ((1, 0), true));
    assert_eq!(group.pool_count(), 2);
    assert_eq!(group.connected_clients(), 3);
    assert_eq!(group.get_client_conn(NodeId(1001)), Some((0, 1)));
    assert_eq!(group.get_client_conn(NodeId(1002)), Some((1, 0)));
    assert_eq!(group.get_client_conn(NodeId(1003)), None);
    assert!(group.del_client(&NodeId(1000)));
    assert_eq!(group.get_client_conn(NodeId(1001)), Some((0, 0)));
    assert_eq!(group.init_client(NodeId(1003)), ((0, 1), false));
    assert!(group.del_client(&NodeId(1002)));
    assert_eq!(group.pool_count(), 1);
    assert_eq!(group.connected_clients(), 4);
    assert!(!group.del_client(&NodeId(1002)));
    assert_eq!(group.connected_clients(), 3);
    group.del_cached_clients(vec![NodeId(1001)]);
    assert_eq!(group.get_client_conn(NodeId(1001)), None);
    assert_eq!(group.connected_clients(), 2);
}

#[test]
fn a_group_gathers_batches_and_forgets_who_left() {
    let mut group: ConnectedPeersGroup<u8> = ConnectedPeersGroup::new(32, 4);
    group.init_client(NodeId(1000));
    group.init_client(NodeId(1001));
    group.disconnect((0, 0));
    let mut batch = Vec::new();
    group.collect_requests(0, &mut batch);
    assert!(batch.is_empty());
    assert_eq!(group.pool(0).len(), 1);
    assert_eq!(group.get_client_conn(NodeId(1000)), None);
    assert_eq!(group.connected_clients(), 1);
}

#[test]
fn node_peers_keep_replicas_and_clients_apart() {
    let mut peers: NodePeers<u8> = NodePeers::new(NodeId(0), NodeId(1000), 4, 4);
    assert_eq!(peers.replica_count(), 1);
    assert_eq!(peers.client_count(), Some(0));
    assert_eq!(peers.peer_loopback(), Some((0, 0)));
    assert!(matches!(peers.init_peer_conn(NodeId(2)), Some((PeerRef::Replica((0, 1)), false))));
    assert!(matches!(peers.init_peer_conn(NodeId(1005)), Some((PeerRef::Client((0, 0)), true))));
    assert_eq!(peers.replica_count(), 2);
    assert_eq!(peers.client_count(), Some(1));
    assert!(matches!(peers.resolve_peer_conn(NodeId(1005)), Some(PeerRef::Client((0, 0)))));
    assert!(matches!(peers.resolve_peer_conn(NodeId(2)), Some(PeerRef::Replica((0, 1)))));
    assert!(matches!(peers.resolve_peer_conn(NodeId(0)), Some(PeerRef::Replica((0, 0)))));
    assert!(peers.resolve_peer_conn(NodeId(3)).is_none());
    assert!(matches!(peers.disconnect(NodeId(2)), Some(PeerRef::Replica((0, 1)))));
    assert!(peers.disconnect(NodeId(77)).is_none());
    assert!(peers.resolve_peer_conn(NodeId(2)).is_some());
    let mut client: NodePeers<u8> = NodePeers::new(NodeId(1000), NodeId(1000), 4, 4);
    assert_eq!(client.client_count(), None);
    assert!(client.init_peer_conn(NodeId(1001)).is_none());
    assert!(client.init_peer_conn(NodeId(1)).is_some());
    assert!(matches!(client.resolve_peer_conn(NodeId(1000)), Some(PeerRef::Replica((0, 0)))));
}

#[test]
fn a_pool_pauses_longer_each_time_up_to_its_cap() {
    let policy = BatchPolicy { fill_batch: true, batch_size: 8, batch_timeout_micros: 5000, batch_sleep_micros: 1000 };
    assert_eq!(policy.backoff_micros(0), 100);
    assert_eq!(policy.backoff_micros(1), 200);
    assert_eq!(policy.backoff_micros(3), 800);
    assert_eq!(policy.backoff_micros(4), 1000);
    assert_eq!(policy.backoff_micros(40), 1000);
    let tight = BatchPolicy { fill_batch: true, batch_size: 8, batch_timeout_micros: 5000, batch_sleep_micros: 30 };
    assert_eq!(tight.backoff_micros(0), 30);
    assert_eq!(tight.backoff_micros(5), 30);
}

#[test]
fn a_batch_is_delivered_when_full_or_when_its_time_is_up() {
    let policy = BatchPolicy { fill_batch: true, batch_size: 8, batch_timeout_micros: 5000, batch_sleep_micros: 1000 };
    assert_eq!(policy.after_pass(8, 0, 0), BatchDecision::Deliver);
    assert_eq!(policy.after_pass(3, 4999, 2), BatchDecision::Sleep(400));
    assert_eq!(policy.after_pass(3, 5000, 2), BatchDecision::Deliver);
    assert_eq!(policy.after_pass(0, 9000, 0), BatchDecision::Sleep(100));
    let eager = BatchPolicy { fill_batch: false, ..policy };
    assert_eq!(eager.after_pass(3, 0, 2), BatchDecision::Deliver);
    assert_eq!(eager.after_pass(0, 9000, 1), BatchDecision::Sleep(200));
}

#[test]
fn a_pool_takes_no_more_clients_than_it_is_told() {
    let mut pool: ConnectedPeersPool<u8> = ConnectedPeersPool::with_capacity(8, 2);
    assert_eq!(pool.batch_size(), 8);
    assert!(pool.attempt_to_add(ConnectedPeer::new(NodeId(1), 4)).is_ok());
    assert!(pool.attempt_to_add(ConnectedPeer::new(NodeId(2), 4)).is_ok());
    assert!(pool.attempt_to_add(ConnectedPeer::new(NodeId(3), 4)).is_err());
    let mut wide: ConnectedPeersPool<u8> = ConnectedPeersPool::with_capacity(2, 50);
    assert!(wide.attempt_to_add(ConnectedPeer::new(NodeId(1), 4)).is_ok());
    assert!(wide.attempt_to_add(ConnectedPeer::new(NodeId(2), 4)).is_ok());
    assert!(wide.attempt_to_add(ConnectedPeer::new(NodeId(3), 4)).is_err());
    let mut group: ConnectedPeersGroup<u8> = ConnectedPeersGroup::with_pool_size(32, 8, 2);
    group.init_client(NodeId(1000));
    group.init_client(NodeId(1001));
    assert_eq!(group.init_client(NodeId(1002)), ((1, 0), true));
    assert_eq!(group.batch_size(), 8);
    let mut narrow: ConnectedPeersGroup<u8> = ConnectedPeersGroup::with_pool_size(32, 8, 0);
    narrow.init_client(NodeId(1000));
    assert_eq!(narrow.init_client(NodeId(1001)), ((1, 0), true));
    assert_eq!(group.push_request((0, 1), 9), Ok(()));
    let mut batch = Vec::new();
    group.collect_requests(0, &mut batch);
    assert_eq!(batch, vec![9]);
}

#[test]
fn a_flood_of_one_client_leaves_the_others_their_part() {
    let b = 8;
    let k = 4;
    let mut pool = pool_with(b, &[10 * b, b, b, b]);
    let mut total = vec![0usize; k];
    for _ in 0..k {
        let mut batch = Vec::new();
        pool.collect_requests(&mut batch);
        assert_eq!(batch.len(), b);
        for c in 0..k {
            let got = served(&batch, 1000 + c as u32);
            assert!(got >= b / k);
            total[c] += got;
        }
        let mut last = vec![None; k];
        for (client, index) in &batch {
            let c = (*client - 1000) as usize;
            assert!(last[c].map_or(true, |l| l < *index));
            last[c] = Some(*index);
        }
    }
    for c in 0..k {
        assert!(total[c] >= b / k);
    }
}

#[test]
fn a_closed_queue_takes_nothing_more() {
    let mut peers: NodePeers<u8> = NodePeers::new(NodeId(0), NodeId(1000), 8, 8);
    assert!(peers.is_closed(NodeId(1000)));
    peers.init_peer_conn(NodeId(1000));
    assert!(!peers.is_closed(NodeId(1000)));
    assert!(!peers.is_closed(NodeId(0)));
    peers.disconnect(NodeId(1000));
    assert!(peers.is_closed(NodeId(1000)));
    assert_eq!(peers.push_request(NodeId(1000), 1), Err(1));
}
