//! The connections of a node, by peer: each may rest on several links, and
//! has one bounded queue of messages that wait to be written.

use crate::communication::channel::{BoundedQueue, CONNECTION_QUEUE};
use crate::error::{Error, ErrorKind};
use crate::node_id::NodeId;
use vstd::prelude::*;

verus! {

/// The connection to one peer.
#[derive(Copy, Clone, Debug, PartialEq, Eq, Structural)]
pub struct PeerConnection {
    /// The peer.
    pub node: u32,
    /// The number of links that the connection rests on.
    pub active_connections: u32,
    /// The place of the queue of the connection among the queues.
    pub queue: u64,
}

impl PeerConnection {
    /// The connection to `node` before any link was established, with its
    /// queue at place `queue`.
    pub fn new(node: NodeId, queue: u64) -> (c: PeerConnection)
        ensures
            c == (PeerConnection { node: node.0, active_connections: 0, queue }),
    {
        PeerConnection { node: node.0, active_connections: 0, queue }
    }

    /// A link was established for the connection: it is counted, up to the
    /// largest number.
    pub fn insert_new_connection(&mut self)
        ensures
            *final(self) == (PeerConnection {
                active_connections: if old(self).active_connections < u32::MAX {
                    (old(self).active_connections + 1) as u32
                } else {
                    old(self).active_connections
                },
                ..*old(self)
            }),
    {
        if self.active_connections < u32::MAX {
            self.active_connections += 1;
        }
    }
}

/// `dashmap::DashMap`, a hash map. What a map holds is known through
/// `connections` alone.
#[verifier::external_type_specification]
#[verifier::external_body]
#[verifier::reject_recursive_types(K)]
#[verifier::reject_recursive_types(V)]
#[verifier::reject_recursive_types(S)]
pub struct ExDashMap<K, V, S>(dashmap::DashMap<K, V, S>);

/// The map of the connections, by the id of the peer.
pub type ConnectionMap = dashmap::DashMap<u32, PeerConnection>;

/// What a map of connections holds: the connection of each peer that was
/// inserted and not removed since. The map is not shared: nobody else
/// changes it.
pub uninterp spec fn connections(m: ConnectionMap) -> Map<u32, PeerConnection>;

/// The map without connections.
pub open spec fn no_connections() -> Map<u32, PeerConnection> {
    Map::empty()
}

/// The connection of `key` in `m`, if it has one.
pub open spec fn connection_of(m: Map<u32, PeerConnection>, key: u32) -> Option<PeerConnection> {
    if m.dom().contains(key) {
        Some(m[key])
    } else {
        None
    }
}

/// Calls `DashMap::new`: the new map holds nothing.
#[verifier::external_body]
fn dashmap_new() -> (m: ConnectionMap)
    ensures
        connections(m) == no_connections(),
{
    dashmap::DashMap::new()
}

/// Calls `DashMap::contains_key`: whether the peer has a connection.
#[verifier::external_body]
fn dashmap_contains(m: &ConnectionMap, key: u32) -> (r: bool)
    ensures
        r == connections(*m).dom().contains(key),
{
    m.contains_key(&key)
}

/// Calls `DashMap::get` and copies the value out: the connection of the
/// peer, if it has one.
#[verifier::external_body]
fn dashmap_get(m: &ConnectionMap, key: u32) -> (r: Option<PeerConnection>)
    ensures
        r == connection_of(connections(*m), key),
{
    m.get(&key).map(|c| *c)
}

/// Calls `DashMap::insert`: the peer has the new connection, the other
/// peers keep theirs, and the connection that the peer had comes back.
#[verifier::external_body]
fn dashmap_insert(m: &mut ConnectionMap, key: u32, value: PeerConnection) -> (prev: Option<
    PeerConnection,
>)
    ensures
        connections(*final(m)) == connections(*old(m)).insert(key, value),
        prev == connection_of(connections(*old(m)), key),
{
    m.insert(key, value)
}

/// The handlers that a new link needs.
#[derive(Copy, Clone, Debug, PartialEq, Eq, Structural)]
pub struct LinkHandlers {
    /// The connection that the link belongs to, as it is now.
    pub connection: PeerConnection,
    /// Whether the connection is new: its queue was just made.
    pub new_connection: bool,
}

/// All the connections that a node has established.
pub struct PeerConnections {
    connection_map: ConnectionMap,
    queues: Vec<BoundedQueue<Vec<u8>>>,
}

impl PeerConnections {
    /// The connections, by peer, in contracts.
    pub closed spec fn conns(&self) -> Map<u32, PeerConnection> {
        connections(self.connection_map)
    }

    /// The queues of the connections, in contracts.
    pub closed spec fn queues(&self) -> Seq<Seq<Vec<u8>>> {
        Seq::new(self.queues@.len(), |i: int| self.queues@[i]@)
    }

    /// Every connection has its queue, which holds no more than the bound of
    /// a connection.
    pub closed spec fn wf(&self) -> bool {
        &&& forall|k: u32| #[trigger]
            self.conns().dom().contains(k) ==> self.conns()[k].queue < self.queues@.len()
                && self.conns()[k].node == k
        &&& forall|i: int|
            0 <= i < self.queues@.len() ==> (#[trigger] self.queues@[i]).wf() && self.queues@[i].spec_bound()
                == CONNECTION_QUEUE
    }

    /// No connections.
    pub fn new() -> (c: PeerConnections)
        ensures
            c.wf(),
            c.conns() == no_connections(),
            c.queues().len() == 0,
    {
        PeerConnections { connection_map: dashmap_new(), queues: Vec::new() }
    }

    /// Whether the node has a connection to `node`.
    pub fn is_connected_to(&self, node: &NodeId) -> (r: bool)
        ensures
            r == self.conns().dom().contains(node.0),
    {
        dashmap_contains(&self.connection_map, node.0)
    }

    /// The connection to `node`, if there is one.
    pub fn get_connection(&self, node: &NodeId) -> (r: Option<PeerConnection>)
        ensures
            r == connection_of(self.conns(), node.0),
    {
        dashmap_get(&self.connection_map, node.0)
    }

    /// A link to `node` was established: it joins the connection to the
    /// peer, which is made with an empty queue where there was none. What
    /// comes back tells the handlers of the link which connection they
    /// serve. The count of links stops at the largest number.
    pub fn handle_connection_established(&mut self, node: NodeId) -> (r: LinkHandlers)
        requires
            old(self).wf(),
        ensures
            final(self).wf(),
            r.new_connection == !old(self).conns().dom().contains(node.0),
            final(self).conns() == old(self).conns().insert(node.0, r.connection),
            r.connection.node == node.0,
            r.new_connection ==> {
                &&& r.connection.active_connections == 1
                &&& r.connection.queue == old(self).queues().len()
                &&& final(self).queues() == old(self).queues().push(Seq::empty())
            },
            !r.new_connection ==> {
                let before = old(self).conns()[node.0];
                &&& r.connection.queue == before.queue
                &&& r.connection.active_connections == (if before.active_connections < u32::MAX {
                    (before.active_connections + 1) as u32
                } else {
                    before.active_connections
                })
                &&& final(self).queues() == old(self).queues()
            },
    {
        match dashmap_get(&self.connection_map, node.0) {
            Some(conn) => {
                assert(self.conns().dom().contains(node.0));
                let mut connection = conn;
                connection.insert_new_connection();
                dashmap_insert(&mut self.connection_map, node.0, connection);
                proof {
                    assert(self.queues() == old(self).queues());
                    assert forall|k: u32| #[trigger] self.conns().dom().contains(k) implies self.conns()[k].queue
                        < self.queues@.len() && self.conns()[k].node == k by {
                        if k != node.0 {
                            assert(old(self).conns().dom().contains(k));
                        }
                    }
                }
                LinkHandlers { connection, new_connection: false }
            },
            None => {
                let queue = self.queues.len() as u64;
                self.queues.push(BoundedQueue::new(CONNECTION_QUEUE));
                let mut connection = PeerConnection::new(node, queue);
                connection.insert_new_connection();
                dashmap_insert(&mut self.connection_map, node.0, connection);
                proof {
                    let last = self.queues@.len() - 1;
                    assert(self.queues@[last]@ =~= Seq::<Vec<u8>>::empty());
                    assert(self.queues() =~= old(self).queues().push(Seq::empty()));
                    assert forall|k: u32| #[trigger] self.conns().dom().contains(k) implies self.conns()[k].queue
                        < self.queues@.len() && self.conns()[k].node == k by {
                        if k != node.0 {
                            assert(old(self).conns().dom().contains(k));
                        }
                    }
                }
                LinkHandlers { connection, new_connection: true }
            },
        }
    }

    /// Queues an encoded message for `node`. This fails with an error of
    /// kind `CommunicationPeerNotFound` where there is no connection to the
    /// peer, and of kind `CommunicationChannel` where the queue of the
    /// connection is full: the sender has to wait.
    pub fn send_message(&mut self, node: &NodeId, msg: Vec<u8>) -> (r: Result<(), Error>)
        requires
            old(self).wf(),
        ensures
            final(self).wf(),
            final(self).conns() == old(self).conns(),
            final(self).queues().len() == old(self).queues().len(),
            match connection_of(old(self).conns(), node.0) {
                None => r is Err && r->Err_0.kind() == ErrorKind::CommunicationPeerNotFound
                    && final(self).queues() == old(self).queues(),
                Some(conn) => {
                    let q = conn.queue as int;
                    if old(self).queues()[q].len() < CONNECTION_QUEUE {
                        r is Ok && final(self).queues() == old(self).queues().update(
                            q,
                            old(self).queues()[q].push(msg),
                        )
                    } else {
                        r is Err && r->Err_0.kind() == ErrorKind::CommunicationChannel
                            && final(self).queues() == old(self).queues()
                    }
                },
            },
    {
        let conn = match dashmap_get(&self.connection_map, node.0) {
            None => {
                return Err(Error::simple(ErrorKind::CommunicationPeerNotFound));
            },
            Some(c) => c,
        };
        assert(self.conns().dom().contains(node.0));
        let n = self.queues.len();
        assert(conn.queue < n);
        let q = conn.queue as usize;
        match self.queues[q].try_push(msg) {
            Ok(()) => {
                assert(self.queues() =~= old(self).queues().update(
                    q as int,
                    old(self).queues()[q as int].push(msg),
                ));
                Ok(())
            },
            Err(_) => {
                assert(self.queues() =~= old(self).queues());
                Err(Error::simple(ErrorKind::CommunicationChannel))
            },
        }
    }

    /// Takes the oldest message that waits for `node`, for the sending
    /// pipeline to write.
    pub fn next_message(&mut self, node: &NodeId) -> (r: Option<Vec<u8>>)
        requires
            old(self).wf(),
        ensures
            final(self).wf(),
            final(self).conns() == old(self).conns(),
            match connection_of(old(self).conns(), node.0) {
                None => r is None && final(self).queues() == old(self).queues(),
                Some(conn) => {
                    let q = conn.queue as int;
                    if old(self).queues()[q].len() > 0 {
                        r == Some(old(self).queues()[q][0]) && final(self).queues() == old(
                            self,
                        ).queues().update(q, old(self).queues()[q].drop_first())
                    } else {
                        r is None && final(self).queues() == old(self).queues()
                    }
                },
            },
    {
        let conn = match dashmap_get(&self.connection_map, node.0) {
            None => {
                return None;
            },
            Some(c) => c,
        };
        assert(self.conns().dom().contains(node.0));
        let n = self.queues.len();
        assert(conn.queue < n);
        let q = conn.queue as usize;
        let r = self.queues[q].pop();
        proof {
            if r is Some {
                assert(self.queues() =~= old(self).queues().update(
                    q as int,
                    old(self).queues()[q as int].drop_first(),
                ));
            } else {
                assert(self.queues() =~= old(self).queues());
            }
        }
        r
    }
}

} // verus!
