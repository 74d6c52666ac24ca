//! A node of the system: who it is, whom it talks to, and how a message
//! finds its way to a peer.

use crate::communication::intmap_spec::{entries, intmap_get, intmap_insert, intmap_new, IndexMap};
use crate::communication::message::{
    signed_bytes, wire_valid, Header, WireMessage, CURRENT_VERSION,
};
use crate::communication::peer_handling::{
    clients_collected, lemma_closed_none, lemma_closed_one_more, peer_joined, peer_pushed,
    peer_takes, peers_closed, replicas_collected, NodePeers, PeerRef,
};
use crate::communication::pipeline::CloseReason;
use crate::crypto::hash::Digest;
use crate::crypto::signature::{ed25519_signature, KeyPair, PublicKey};
use crate::error::{Error, ErrorKind};
use crate::node_id::NodeId;
use vstd::prelude::*;

verus! {

/// The number of targets of a message that are kept without an allocation.
pub const NODE_VIEWSIZ: usize = 16;

/// The number of times that a node tries to connect to a peer.
pub const CONNECT_RETRIES: usize = 180;

/// The pause between two tries to connect, in seconds.
pub const CONNECT_RETRY_SECS: u64 = 1;

/// The sending half of the link to a peer: the number under which the
/// layer that owns the sockets keeps it, and the way in which it is driven.
#[derive(Copy, Clone, Debug, PartialEq, Eq, Structural)]
pub enum SecureSocketSend {
    /// The socket is driven by a cooperative task.
    Async(u64),
    /// The socket is driven by a thread of its own.
    Sync(u64),
}

/// What a node is started with, as far as the rules of the communication
/// layer go.
#[derive(Copy, Clone, Debug)]
pub struct NodeConfig {
    /// The number of replicas.
    pub n: usize,
    /// The number of replicas that may fail.
    pub f: usize,
    /// The id of this node.
    pub id: NodeId,
    /// The first id of a client.
    pub first_cli: NodeId,
    /// The size of a batch of client requests.
    pub batch_size: usize,
    /// Whether the leader waits for batches to fill.
    pub fill_batch: bool,
    /// The most clients in a pool.
    pub clients_per_pool: usize,
    /// The longest time that requests wait for a batch to fill, in
    /// microseconds.
    pub batch_timeout_micros: u64,
    /// The longest pause of a pool that found too few requests, in
    /// microseconds.
    pub batch_sleep_micros: u64,
}

/// What a node does when it starts.
pub struct BootstrapPlan {
    /// Whether the node is a client.
    pub is_client: bool,
    /// Whether the node listens for replicas, besides clients.
    pub listen_for_replicas: bool,
    /// The peers that the node connects to, in this order.
    pub connect_to: Vec<NodeId>,
}

/// Whether a configuration is valid: there are at least `3f + 1` replicas,
/// and the id of the node is that of a replica or that of a client.
pub open spec fn config_valid(cfg: NodeConfig) -> bool {
    &&& cfg.n >= 3 * cfg.f + 1
    &&& cfg.n <= u32::MAX
    &&& cfg.id.0 < cfg.n || cfg.id.0 >= cfg.first_cli.0
}

/// The peers that a node connects to when it starts: a replica connects to
/// the replicas with a smaller id, a client to every replica.
pub open spec fn connect_targets(cfg: NodeConfig) -> Seq<NodeId> {
    if cfg.id.0 >= cfg.first_cli.0 {
        Seq::new(cfg.n as nat, |i: int| NodeId(i as u32))
    } else {
        Seq::new(cfg.id.0 as nat, |i: int| NodeId(i as u32))
    }
}

/// The code with which the program of a node ends.
pub open spec fn exit_code_of(outcome: BootstrapOutcome) -> u8 {
    match outcome {
        BootstrapOutcome::CleanShutdown => 0,
        BootstrapOutcome::InvalidConfiguration => 1,
        BootstrapOutcome::BindOrConnectFailure => 2,
    }
}

/// How the program of a node ended.
#[derive(Copy, Clone, Debug, PartialEq, Eq, Structural)]
pub enum BootstrapOutcome {
    /// The node shut down in order.
    CleanShutdown,
    /// The configuration was invalid.
    InvalidConfiguration,
    /// The node could not bind its address or connect to its peers.
    BindOrConnectFailure,
}

impl BootstrapOutcome {
    /// The code with which the program ends.
    pub fn exit_code(&self) -> (c: u8)
        ensures
            c == exit_code_of(*self),
    {
        match self {
            BootstrapOutcome::CleanShutdown => 0,
            BootstrapOutcome::InvalidConfiguration => 1,
            BootstrapOutcome::BindOrConnectFailure => 2,
        }
    }
}

impl NodeConfig {
    /// Checks the configuration. It is refused, with an error of kind
    /// `Communication`, where there are fewer than `3f + 1` replicas or more
    /// than fit in 32 bits, and where the id of the node is neither that of
    /// a replica nor that of a client.
    pub fn validate(&self) -> (r: Result<(), Error>)
        ensures
            r is Ok <==> config_valid(*self),
            r is Err ==> r->Err_0.kind() == ErrorKind::Communication,
    {
        if self.n > 0xffff_ffff || self.f >= self.n || (self.n - 1) / 3 < self.f {
            return Err(Error::simple_with_msg(ErrorKind::Communication, "Invalid number of replicas"));
        }
        if self.id.0 as usize >= self.n && self.id.0 < self.first_cli.0 {
            return Err(Error::simple_with_msg(ErrorKind::Communication, "Invalid node ID"));
        }
        Ok(())
    }

    /// What the node does when it starts, if its configuration is valid.
    pub fn plan(&self) -> (r: Result<BootstrapPlan, Error>)
        ensures
            r is Ok <==> config_valid(*self),
            r is Err ==> r->Err_0.kind() == ErrorKind::Communication,
            r is Ok ==> {
                let p = r->Ok_0;
                &&& p.is_client == (self.id.0 >= self.first_cli.0)
                &&& p.listen_for_replicas == !p.is_client
                &&& p.connect_to@ == connect_targets(*self)
            },
    {
        match self.validate() {
            Err(e) => {
                return Err(e);
            },
            Ok(()) => {},
        }
        let is_client = self.id.0 >= self.first_cli.0;
        let upto: u32 = if is_client {
            self.n as u32
        } else {
            self.id.0
        };
        let connect_to = NodeId::replicas(upto);
        Ok(BootstrapPlan { is_client, listen_for_replicas: !is_client, connect_to })
    }
}

/// Why a connection is turned away at the handshake.
#[derive(Copy, Clone, Debug, PartialEq, Eq, Structural)]
pub enum HandshakeError {
    /// The header is not one of this version with an empty payload.
    InvalidHeader,
    /// A client tried to connect to a client.
    ClientToClient,
    /// The connection was meant for another node.
    WrongDestination,
}

/// A connection that passed the handshake.
#[derive(Copy, Clone, Debug, PartialEq, Eq, Structural)]
pub struct Accepted {
    /// The peer at the other end.
    pub peer_id: NodeId,
    /// Whether the link is secured: it is between two replicas.
    pub tls: bool,
}

/// Whether the link between two nodes is secured: it is, unless one of them
/// is a client.
pub open spec fn link_secured(a: NodeId, b: NodeId, first_cli: NodeId) -> bool {
    a.0 < first_cli.0 && b.0 < first_cli.0
}

/// What becomes of a connection whose first header is `header`, at the node
/// `my_id`.
pub open spec fn handshake(header: Header, my_id: NodeId, first_cli: NodeId) -> Result<
    Accepted,
    HandshakeError,
> {
    if !wire_valid(header, Seq::empty(), None) {
        Err(HandshakeError::InvalidHeader)
    } else if header.from >= first_cli.0 && my_id.0 >= first_cli.0 {
        Err(HandshakeError::ClientToClient)
    } else if header.to != my_id.0 {
        Err(HandshakeError::WrongDestination)
    } else {
        Ok(
            Accepted {
                peer_id: NodeId(header.from),
                tls: link_secured(NodeId(header.from), my_id, first_cli),
            },
        )
    }
}

/// Decides on a connection by the first header that arrived on it.
pub fn accept_handshake(header: Header, my_id: NodeId, first_cli: NodeId) -> (r: Result<
    Accepted,
    HandshakeError,
>)
    ensures
        r == handshake(header, my_id, first_cli),
{
    let empty: Vec<u8> = Vec::new();
    match WireMessage::from_parts(header, empty.as_slice()) {
        Err(_) => Err(HandshakeError::InvalidHeader),
        Ok(wm) => {
            let from = wm.header().from();
            if from.0 >= first_cli.0 && my_id.0 >= first_cli.0 {
                Err(HandshakeError::ClientToClient)
            } else if wm.header().to().0 != my_id.0 {
                Err(HandshakeError::WrongDestination)
            } else {
                Ok(Accepted { peer_id: from, tls: from.0 < first_cli.0 && my_id.0 < first_cli.0 })
            }
        },
    }
}

/// The header that opens a connection from `my_id` to `peer_id`: it
/// announces an empty payload and is not signed.
pub fn handshake_header(my_id: NodeId, peer_id: NodeId, nonce: u64) -> (h: Header)
    ensures
        h.version == CURRENT_VERSION,
        h.from == my_id.0,
        h.to == peer_id.0,
        h.nonce == nonce,
        h.length == 0,
        h.signature@ == Seq::new(64, |i: int| 0u8),
        wire_valid(h, Seq::empty(), None),
{
    let empty: Vec<u8> = Vec::new();
    let wm = WireMessage::new(my_id, peer_id, empty.as_slice(), nonce, None, None);
    wm.header
}

/// Whether, of two connections between the same two nodes that were opened
/// at once, the one that `a` opened with its nonce stays: the connection
/// with the larger pair of source and nonce does.
pub fn connection_wins(a: (NodeId, u64), b: (NodeId, u64)) -> (r: bool)
    ensures
        r == wins(a, b),
{
    a.0.0 > b.0.0 || (a.0.0 == b.0.0 && a.1 > b.1)
}

/// What happened to a try to connect.
#[derive(Copy, Clone, Debug, PartialEq, Eq, Structural)]
pub enum ConnectEvent {
    /// The peer could not be reached.
    ConnectFailed,
    /// The header could not be written or flushed.
    WriteFailed,
    /// The link could not be secured.
    TlsFailed,
    /// The link is up.
    Established,
}

/// What a node does after a try to connect.
#[derive(Copy, Clone, Debug, PartialEq, Eq, Structural)]
pub enum ConnectAction {
    /// It pauses for so many seconds and tries again.
    RetryAfter(u64),
    /// It gives the peer up.
    GiveUp,
    /// It registers the link.
    Register,
}

/// What a node does after its try number `attempt`, counted from zero: a
/// peer that cannot be reached is tried again after a pause, up to the
/// number of tries; a link that fails after it was reached is given up.
pub fn connect_step(attempt: usize, event: ConnectEvent) -> (a: ConnectAction)
    ensures
        a == (match event {
            ConnectEvent::Established => ConnectAction::Register,
            ConnectEvent::WriteFailed | ConnectEvent::TlsFailed => ConnectAction::GiveUp,
            ConnectEvent::ConnectFailed => if attempt + 1 < CONNECT_RETRIES {
                ConnectAction::RetryAfter(CONNECT_RETRY_SECS)
            } else {
                ConnectAction::GiveUp
            },
        }),
{
    match event {
        ConnectEvent::Established => ConnectAction::Register,
        ConnectEvent::WriteFailed => ConnectAction::GiveUp,
        ConnectEvent::TlsFailed => ConnectAction::GiveUp,
        ConnectEvent::ConnectFailed => {
            if attempt < CONNECT_RETRIES - 1 {
                ConnectAction::RetryAfter(CONNECT_RETRY_SECS)
            } else {
                ConnectAction::GiveUp
            }
        },
    }
}

/// Whether a node connects to the address that a peer keeps for clients:
/// a client does, and a replica connects to the address for replicas.
pub fn uses_client_address(my_id: NodeId, first_cli: NodeId) -> (r: bool)
    ensures
        r == (my_id.0 >= first_cli.0),
{
    my_id.0 >= first_cli.0
}

/// Whether a node that has `connected` replicas, itself among them, has
/// found every replica of a system of `n` replicas, and can start.
pub fn found_all_replicas(connected: usize, n: usize) -> (r: bool)
    ensures
        r == (connected >= n),
{
    connected >= n
}

/// The keys of a node: its own pair, and the public keys of its peers.
pub struct NodeShared {
    my_key: KeyPair,
    peer_index: IndexMap,
    peer_keys: Vec<PublicKey>,
}

impl NodeShared {
    /// The key pair of the node, in contracts.
    pub closed spec fn spec_key(&self) -> KeyPair {
        self.my_key
    }

    /// The public key of each peer that has one, in contracts.
    pub closed spec fn keys(&self) -> Map<u64, PublicKey> {
        Map::new(
            |k: u64| entries(self.peer_index).dom().contains(k),
            |k: u64| self.peer_keys@[entries(self.peer_index)[k] as int],
        )
    }

    /// Every peer that is registered has its key.
    pub closed spec fn wf(&self) -> bool {
        forall|k: u64| #[trigger]
            entries(self.peer_index).dom().contains(k) ==> entries(self.peer_index)[k]
                < self.peer_keys@.len()
    }

    /// The keys of a node that knows the key of no peer yet.
    pub fn new(my_key: KeyPair) -> (s: NodeShared)
        ensures
            s.wf(),
            s.spec_key() == my_key,
            s.keys() == Map::<u64, PublicKey>::empty(),
    {
        let s = NodeShared { my_key, peer_index: intmap_new(), peer_keys: Vec::new() };
        assert(s.keys() =~= Map::<u64, PublicKey>::empty());
        s
    }

    /// Registers the public key of a peer, in place of the one it had.
    pub fn add_public_key(&mut self, id: NodeId, key: PublicKey)
        requires
            old(self).wf(),
        ensures
            final(self).wf(),
            final(self).spec_key() == old(self).spec_key(),
            final(self).keys() == old(self).keys().insert(id.0 as u64, key),
    {
        let index = self.peer_keys.len() as u64;
        self.peer_keys.push(key);
        intmap_insert(&mut self.peer_index, id.0 as u64, index);
        assert(self.keys() =~= old(self).keys().insert(id.0 as u64, key));
    }

    /// The public key of the node with the given id, if it is known.
    pub fn get_public_key(&self, id: NodeId) -> (r: Option<&PublicKey>)
        requires
            self.wf(),
        ensures
            r is Some <==> self.keys().dom().contains(id.0 as u64),
            r is Some ==> *r->0 == self.keys()[id.0 as u64],
    {
        match intmap_get(&self.peer_index, id.0 as u64) {
            Some(index) => {
                let n = self.peer_keys.len();
                assert(entries(self.peer_index).dom().contains(id.0 as u64));
                assert(index < n);
                let at = index as usize;
                Some(&self.peer_keys[at])
            },
            None => None,
        }
    }

    /// The key pair of the node.
    pub fn key_pair(&self) -> (k: &KeyPair)
        ensures
            *k == self.spec_key(),
    {
        &self.my_key
    }

    /// A handle for those who sign with the key of the node.
    pub fn sign_detached(&self) -> (s: SignDetached<'_>)
        ensures
            s.spec_key() == self.spec_key(),
    {
        SignDetached { shared: self }
    }
}

/// A handle to the keys of a node, for those who only sign.
pub struct SignDetached<'a> {
    shared: &'a NodeShared,
}

impl<'a> SignDetached<'a> {
    /// The key pair of the node, in contracts.
    pub closed spec fn spec_key(&self) -> KeyPair {
        self.shared.spec_key()
    }

    /// The key pair of the node.
    pub fn key_pair(&self) -> (k: &KeyPair)
        ensures
            *k == self.spec_key(),
    {
        self.shared.key_pair()
    }
}

/// The sending half of a link, with the node that opened the link and the
/// nonce that it opened it with.
#[derive(Copy, Clone, Debug, PartialEq, Eq, Structural)]
pub struct Link {
    /// The sending half.
    pub sock: SecureSocketSend,
    /// The node that opened the link.
    pub opener: NodeId,
    /// The nonce of its handshake.
    pub nonce: u64,
}

/// What became of a link that was offered to the registry.
#[derive(Copy, Clone, Debug, PartialEq, Eq, Structural)]
pub enum Established {
    /// The peer had no link: the new one is in use.
    Installed,
    /// The new link is in use, and the link that the peer had is to be torn
    /// down.
    Replaced(SecureSocketSend),
    /// The link that the peer had stays in use, and the new one is to be
    /// torn down.
    Rejected,
}

/// Whether the pair of source and nonce `a` is larger than the pair `b`.
pub open spec fn wins(a: (NodeId, u64), b: (NodeId, u64)) -> bool {
    a.0.0 > b.0.0 || (a.0.0 == b.0.0 && a.1 > b.1)
}

/// The sending halves of the links of a node, by peer.
pub struct PeerTx {
    first_cli: NodeId,
    connected: IndexMap,
    links: Vec<Link>,
}

impl PeerTx {
    /// The link to each peer that has one, in contracts.
    pub closed spec fn links(&self) -> Map<u64, Link> {
        Map::new(
            |k: u64| entries(self.connected).dom().contains(k),
            |k: u64| self.links@[entries(self.connected)[k] as int],
        )
    }

    /// The sending half of the link to each peer that has one, in
    /// contracts.
    pub open spec fn peers(&self) -> Map<u64, SecureSocketSend> {
        self.links().map_values(|l: Link| l.sock)
    }

    /// Every peer that is registered has its link.
    pub closed spec fn wf(&self) -> bool {
        forall|k: u64| #[trigger]
            entries(self.connected).dom().contains(k) ==> entries(self.connected)[k]
                < self.links@.len()
    }

    /// The first client id, in contracts.
    pub closed spec fn spec_first_cli(&self) -> NodeId {
        self.first_cli
    }

    /// A registry without links.
    pub fn new(first_cli: NodeId) -> (t: PeerTx)
        ensures
            t.wf(),
            t.links() == Map::<u64, Link>::empty(),
            t.peers() == Map::<u64, SecureSocketSend>::empty(),
            t.spec_first_cli() == first_cli,
    {
        let t = PeerTx { first_cli, connected: intmap_new(), links: Vec::new() };
        assert(t.links() =~= Map::<u64, Link>::empty());
        assert(t.peers() =~= Map::<u64, SecureSocketSend>::empty());
        t
    }

    /// Puts a link in use for a peer, in place of the one that it had.
    fn install(&mut self, client_id: u64, link: Link)
        requires
            old(self).wf(),
        ensures
            final(self).wf(),
            final(self).links() == old(self).links().insert(client_id, link),
            final(self).peers() == old(self).peers().insert(client_id, link.sock),
            final(self).spec_first_cli() == old(self).spec_first_cli(),
    {
        let index = self.links.len() as u64;
        self.links.push(link);
        intmap_insert(&mut self.connected, client_id, index);
        assert(self.links() =~= old(self).links().insert(client_id, link));
        assert(self.peers() =~= old(self).peers().insert(client_id, link.sock));
    }

    /// Registers the sending half of the link to a peer. A link that the
    /// peer had before is replaced, whoever opened it.
    pub fn add_peer(&mut self, client_id: u64, socket: SecureSocketSend)
        requires
            old(self).wf(),
        ensures
            final(self).wf(),
            final(self).peers() == old(self).peers().insert(client_id, socket),
            final(self).links() == old(self).links().insert(
                client_id,
                Link { sock: socket, opener: NodeId(0), nonce: 0 },
            ),
            final(self).spec_first_cli() == old(self).spec_first_cli(),
    {
        self.install(client_id, Link { sock: socket, opener: NodeId(0), nonce: 0 });
    }

    /// Offers the registry a link to a peer that `opener` opened with the
    /// nonce `nonce`. Where the peer has a link already, both sides dialled
    /// at once: the link with the larger pair of source and nonce stays in
    /// use, and the other one is to be torn down.
    pub fn establish(&mut self, client_id: u64, socket: SecureSocketSend, opener: NodeId, nonce: u64) -> (r:
        Established)
        requires
            old(self).wf(),
        ensures
            final(self).wf(),
            final(self).spec_first_cli() == old(self).spec_first_cli(),
            r == (if !old(self).links().dom().contains(client_id) {
                Established::Installed
            } else {
                let cur = old(self).links()[client_id];
                if wins((opener, nonce), (cur.opener, cur.nonce)) {
                    Established::Replaced(cur.sock)
                } else {
                    Established::Rejected
                }
            }),
            final(self).links() == (if r is Rejected {
                old(self).links()
            } else {
                old(self).links().insert(client_id, Link { sock: socket, opener, nonce })
            }),
    {
        let link = Link { sock: socket, opener, nonce };
        match self.find_link(client_id) {
            None => {
                self.install(client_id, link);
                Established::Installed
            },
            Some(cur) => {
                if connection_wins((opener, nonce), (cur.opener, cur.nonce)) {
                    self.install(client_id, link);
                    Established::Replaced(cur.sock)
                } else {
                    Established::Rejected
                }
            },
        }
    }

    /// The link to a peer, if it has one.
    pub fn find_link(&self, client_id: u64) -> (r: Option<Link>)
        requires
            self.wf(),
        ensures
            r == (if self.links().dom().contains(client_id) {
                Some(self.links()[client_id])
            } else {
                None
            }),
    {
        match intmap_get(&self.connected, client_id) {
            Some(index) => {
                let n = self.links.len();
                assert(entries(self.connected).dom().contains(client_id));
                assert(index < n);
                let at = index as usize;
                Some(self.links[at])
            },
            None => None,
        }
    }

    /// The sending half of the link to a peer, if it has one.
    pub fn find_peer(&self, client_id: u64) -> (r: Option<SecureSocketSend>)
        requires
            self.wf(),
        ensures
            r == (if self.peers().dom().contains(client_id) {
                Some(self.peers()[client_id])
            } else {
                None
            }),
    {
        match self.find_link(client_id) {
            Some(link) => Some(link.sock),
            None => None,
        }
    }
}

/// Where a message goes: to the node itself, or to a peer over a link.
#[derive(Copy, Clone, Debug, PartialEq, Eq, Structural)]
pub enum SendTo {
    /// To the node itself, through its loopback queue.
    Me { my_id: NodeId, signed: bool },
    /// To a peer, over the sending half of its link.
    Peers { flush: bool, my_id: NodeId, peer_id: NodeId, signed: bool, sock: SecureSocketSend },
}

/// Where a message that is already encoded goes.
#[derive(Copy, Clone, Debug, PartialEq, Eq, Structural)]
pub enum SerializedSendTo {
    /// To the node itself, through its loopback queue.
    Me { id: NodeId },
    /// To a peer, over the sending half of its link.
    Peers { id: NodeId, our_id: NodeId, sock: SecureSocketSend },
}

/// The targets of a broadcast besides the node itself, in a
/// `smallvec::SmallVec` that keeps the first sixteen without an allocation.
/// What the list holds is known through `send_tos` alone.
#[verifier::external_body]
pub struct SendTos {
    inner: smallvec::SmallVec<[SendTo; 16]>,
}

/// What a list of targets holds, in the order in which they were added.
pub uninterp spec fn send_tos(s: SendTos) -> Seq<SendTo>;

/// The empty list of targets.
pub open spec fn no_send_tos() -> Seq<SendTo> {
    Seq::empty()
}

impl SendTos {
    /// Calls `SmallVec::new`: the new list holds nothing.
    #[verifier::external_body]
    pub(crate) fn new() -> (s: SendTos)
        ensures
            send_tos(s) == no_send_tos(),
    {
        SendTos { inner: smallvec::SmallVec::new() }
    }

    /// Calls `SmallVec::push`: the target joins the list at its end.
    #[verifier::external_body]
    pub(crate) fn push(&mut self, target: SendTo)
        ensures
            send_tos(*final(self)) == send_tos(*old(self)).push(target),
    {
        self.inner.push(target)
    }

    /// Calls `SmallVec::len`: the number of targets in the list.
    #[verifier::external_body]
    pub(crate) fn count(&self) -> (n: usize)
        ensures
            n == send_tos(*self).len(),
    {
        self.inner.len()
    }

    /// Calls `SmallVec::into_vec`: the targets of the list, in order.
    #[verifier::external_body]
    pub(crate) fn to_vec(self) -> (v: Vec<SendTo>)
        ensures
            v@ == send_tos(self),
    {
        self.inner.into_vec()
    }

    /// The number of targets.
    pub fn len(&self) -> (n: usize)
        ensures
            n == send_tos(*self).len(),
    {
        self.count()
    }

    /// The targets, in the order in which they were added.
    pub fn into_vec(self) -> (v: Vec<SendTo>)
        ensures
            v@ == send_tos(self),
    {
        self.to_vec()
    }
}

/// What is planned for the targets of a broadcast.
pub struct SendPlan {
    /// The place of the node itself among the targets, if it is one.
    pub mine: Option<SendTo>,
    /// The peers that the message goes to, in the order of the targets.
    pub others: Seq<SendTo>,
    /// The peers whose queue is closed, because they have a queue and no
    /// link.
    pub disconnect: Seq<NodeId>,
}

/// What is planned for the targets `targets` of a message of the node
/// `my_id`, where `tx` holds the links and `rx` says which peers have a
/// queue. The node itself is reached through its loopback queue. A peer is
/// reached over its link if it has a link and a queue; a peer that has a
/// queue and no link loses its queue; a peer without a queue is passed
/// over.
pub open spec fn plan_send(
    targets: Seq<NodeId>,
    my_id: NodeId,
    signed: bool,
    tx: Map<u64, SecureSocketSend>,
    rx: spec_fn(NodeId) -> bool,
) -> SendPlan
    decreases targets.len(),
{
    if targets.len() == 0 {
        SendPlan { mine: None, others: Seq::empty(), disconnect: Seq::empty() }
    } else {
        let before = plan_send(targets.drop_last(), my_id, signed, tx, rx);
        let id = targets.last();
        if id == my_id {
            SendPlan { mine: Some(SendTo::Me { my_id, signed }), ..before }
        } else if tx.dom().contains(id.0 as u64) && rx(id) {
            SendPlan {
                others: before.others.push(
                    SendTo::Peers {
                        flush: true,
                        my_id,
                        peer_id: id,
                        signed,
                        sock: tx[id.0 as u64],
                    },
                ),
                ..before
            }
        } else if rx(id) {
            SendPlan { disconnect: before.disconnect.push(id), ..before }
        } else {
            before
        }
    }
}

impl SendTo {
    /// The sending half of the link, where the message goes to a peer.
    pub fn socket_type(&self) -> (r: Option<SecureSocketSend>)
        ensures
            r == (match *self {
                SendTo::Me { .. } => None,
                SendTo::Peers { sock, .. } => Some(sock),
            }),
    {
        match self {
            SendTo::Me { .. } => None,
            SendTo::Peers { sock, .. } => Some(*sock),
        }
    }

    /// The node that the message goes to, in contracts.
    pub open spec fn spec_destination(&self) -> NodeId {
        match *self {
            SendTo::Me { my_id, .. } => my_id,
            SendTo::Peers { peer_id, .. } => peer_id,
        }
    }

    /// Whether the message is signed, in contracts.
    pub open spec fn spec_signed(&self) -> bool {
        match *self {
            SendTo::Me { signed, .. } => signed,
            SendTo::Peers { signed, .. } => signed,
        }
    }

    /// The node that the message goes to.
    #[verifier::when_used_as_spec(spec_destination)]
    pub fn destination(&self) -> (id: NodeId)
        ensures
            id == self.spec_destination(),
    {
        match self {
            SendTo::Me { my_id, .. } => *my_id,
            SendTo::Peers { peer_id, .. } => *peer_id,
        }
    }

    /// Whether the message is signed.
    #[verifier::when_used_as_spec(spec_signed)]
    pub fn is_signed(&self) -> (s: bool)
        ensures
            s == self.spec_signed(),
    {
        match self {
            SendTo::Me { signed, .. } => *signed,
            SendTo::Peers { signed, .. } => *signed,
        }
    }

    /// The wire message that carries `payload`, whose digest is `digest`,
    /// to this target under the nonce `nonce`. It is signed with `sk` where
    /// the target asks for a signature and a key is given.
    pub fn value<'a>(
        &self,
        payload: &'a [u8],
        nonce: u64,
        digest: Digest,
        sk: Option<&KeyPair>,
    ) -> (wm: WireMessage<'a>)
        requires
            payload@.len() <= u32::MAX,
        ensures
            wm.payload@ == payload@,
            wire_valid(wm.header, payload@, None),
            wm.header.to == self.destination().0,
            wm.header.from == (match *self {
                SendTo::Me { my_id, .. } => my_id.0,
                SendTo::Peers { my_id, .. } => my_id.0,
            }),
            wm.header.nonce == nonce,
            wm.header.digest@ == digest@,
            wm.header.signature@ == (if self.is_signed() && sk is Some {
                ed25519_signature(sk->0.seed(), signed_bytes(wm.header))
            } else {
                Seq::new(64, |i: int| 0u8)
            }),
    {
        let key = if self.is_signed() {
            sk
        } else {
            None
        };
        match self {
            SendTo::Me { my_id, .. } => WireMessage::new(
                *my_id,
                *my_id,
                payload,
                nonce,
                Some(digest),
                key,
            ),
            SendTo::Peers { my_id, peer_id, .. } => WireMessage::new(
                *my_id,
                *peer_id,
                payload,
                nonce,
                Some(digest),
                key,
            ),
        }
    }
}

impl SerializedSendTo {
    /// The sending half of the link, where the message goes to a peer.
    pub fn socket_type(&self) -> (r: Option<SecureSocketSend>)
        ensures
            r == (match *self {
                SerializedSendTo::Me { .. } => None,
                SerializedSendTo::Peers { sock, .. } => Some(sock),
            }),
    {
        match self {
            SerializedSendTo::Me { .. } => None,
            SerializedSendTo::Peers { sock, .. } => Some(*sock),
        }
    }

    /// The wire message made of a header and of the payload that it was
    /// made for. This fails with an error of kind `CommunicationSerialize`
    /// where the two do not go together.
    pub fn value<'a>(&self, h: Header, raw: &'a [u8]) -> (r: Result<WireMessage<'a>, Error>)
        ensures
            r is Ok <==> wire_valid(h, raw@, None),
            r is Ok ==> r->Ok_0.header == h && r->Ok_0.payload@ == raw@,
            r is Err ==> r->Err_0.kind() == ErrorKind::CommunicationSerialize,
    {
        WireMessage::from_parts(h, raw)
    }
}

/// A node: its id, the queues of its peers and the links to them.
pub struct Node<T> {
    id: NodeId,
    first_cli: NodeId,
    node_handling: NodePeers<T>,
    peer_tx: PeerTx,
    batch_size: usize,
    malformed: u64,
}

/// What a node does with a connection that it accepted.
#[derive(Copy, Clone, Debug)]
pub struct RxSetup {
    /// Whether the node connects back to the peer: a replica does so when a
    /// client connects to it, so that replies need not wait for a link.
    pub reverse_connect: bool,
    /// Whether the pool that the peer joined is new and needs a task.
    pub new_pool: bool,
}

impl<T> Node<T> {
    /// The id of the node, in contracts.
    pub closed spec fn spec_id(&self) -> NodeId {
        self.id
    }

    /// The first client id, in contracts.
    pub closed spec fn spec_first_cli(&self) -> NodeId {
        self.first_cli
    }

    /// The queues of the peers, in contracts.
    pub closed spec fn peers(&self) -> NodePeers<T> {
        self.node_handling
    }

    /// The links to the peers, in contracts.
    pub closed spec fn links(&self) -> PeerTx {
        self.peer_tx
    }

    /// The size of a batch, in contracts.
    pub closed spec fn spec_batch_size(&self) -> usize {
        self.batch_size
    }

    /// The number of links that were closed because a peer sent something
    /// malformed, in contracts.
    pub closed spec fn spec_malformed(&self) -> u64 {
        self.malformed
    }

    /// The queues and the links are well formed and belong to this node.
    pub open spec fn wf(&self) -> bool {
        &&& self.peers().wf()
        &&& self.links().wf()
        &&& self.peers().spec_own_id() == self.spec_id()
        &&& self.peers().spec_first_cli() == self.spec_first_cli()
    }

    /// The node of a configuration, before it talks to anyone. This fails
    /// as `NodeConfig::validate` does, and with a batch size of zero.
    pub fn new(cfg: &NodeConfig) -> (r: Result<Node<T>, Error>)
        ensures
            r is Ok <==> (config_valid(*cfg) && cfg.batch_size > 0),
            r is Err ==> r->Err_0.kind() == ErrorKind::Communication,
            r is Ok ==> {
                let node = r->Ok_0;
                &&& node.wf()
                &&& node.spec_id() == cfg.id
                &&& node.spec_first_cli() == cfg.first_cli
                &&& node.spec_batch_size() == cfg.batch_size
                &&& node.links().peers() == Map::<u64, SecureSocketSend>::empty()
                &&& node.peers().replicas().spec_connected() == 1
                &&& node.spec_malformed() == 0
            },
    {
        match cfg.validate() {
            Err(e) => {
                return Err(e);
            },
            Ok(()) => {},
        }
        if cfg.batch_size == 0 {
            return Err(Error::simple_with_msg(ErrorKind::Communication, "Invalid batch size"));
        }
        Ok(
            Node {
                id: cfg.id,
                first_cli: cfg.first_cli,
                node_handling: NodePeers::new(
                    cfg.id,
                    cfg.first_cli,
                    cfg.batch_size,
                    cfg.clients_per_pool,
                ),
                peer_tx: PeerTx::new(cfg.first_cli),
                batch_size: cfg.batch_size,
                malformed: 0,
            },
        )
    }

    /// The size of a batch.
    pub fn batch_size(&self) -> (n: usize)
        ensures
            n == self.spec_batch_size(),
    {
        self.batch_size
    }

    /// The number of links that were closed because a peer sent something
    /// malformed.
    pub fn malformed_count(&self) -> (n: u64)
        ensures
            n == self.spec_malformed(),
    {
        self.malformed
    }

    /// The receiving pipeline of the link to `peer` ended for the given
    /// reason: the queue of the peer is closed, and a link that was closed as
    /// malformed is counted.
    pub fn handle_disconnected_rx(&mut self, peer: NodeId, reason: CloseReason)
        requires
            old(self).wf(),
        ensures
            final(self).wf(),
            final(self).links() == old(self).links(),
            final(self).spec_id() == old(self).spec_id(),
            final(self).spec_first_cli() == old(self).spec_first_cli(),
            final(self).spec_batch_size() == old(self).spec_batch_size(),
            final(self).spec_malformed() == (if reason == CloseReason::Malformed && old(
                self,
            ).spec_malformed() < u64::MAX {
                (old(self).spec_malformed() + 1) as u64
            } else {
                old(self).spec_malformed()
            }),
            peers_closed(old(self).peers(), seq![peer], final(self).peers()),
    {
        let _ = self.node_handling.disconnect(peer);
        if reason == CloseReason::Malformed && self.malformed < u64::MAX {
            self.malformed += 1;
        }
    }

    /// The id of this node.
    pub fn id(&self) -> (id: NodeId)
        ensures
            id == self.spec_id(),
    {
        self.id
    }

    /// The id of the first client.
    pub fn first_client_id(&self) -> (id: NodeId)
        ensures
            id == self.spec_first_cli(),
    {
        self.first_cli
    }

    /// The queues of the peers.
    pub fn node_handling(&self) -> (p: &NodePeers<T>)
        ensures
            *p == self.peers(),
    {
        &self.node_handling
    }

    /// Registers the sending half of the link to a peer.
    pub fn handle_connected_tx(&mut self, peer_id: NodeId, sock: SecureSocketSend)
        requires
            old(self).wf(),
        ensures
            final(self).wf(),
            final(self).links().peers() == old(self).links().peers().insert(peer_id.0 as u64, sock),
            final(self).peers() == old(self).peers(),
            final(self).spec_id() == old(self).spec_id(),
            final(self).spec_first_cli() == old(self).spec_first_cli(),
            final(self).spec_batch_size() == old(self).spec_batch_size(),
    {
        self.peer_tx.add_peer(peer_id.0 as u64, sock);
    }

    /// Offers the node a link to a peer: see `PeerTx::establish`.
    pub fn handle_established(
        &mut self,
        peer_id: NodeId,
        sock: SecureSocketSend,
        opener: NodeId,
        nonce: u64,
    ) -> (r: Established)
        requires
            old(self).wf(),
        ensures
            final(self).wf(),
            final(self).peers() == old(self).peers(),
            final(self).spec_id() == old(self).spec_id(),
            final(self).spec_first_cli() == old(self).spec_first_cli(),
            final(self).spec_batch_size() == old(self).spec_batch_size(),
            r == (if !old(self).links().links().dom().contains(peer_id.0 as u64) {
                Established::Installed
            } else {
                let cur = old(self).links().links()[peer_id.0 as u64];
                if wins((opener, nonce), (cur.opener, cur.nonce)) {
                    Established::Replaced(cur.sock)
                } else {
                    Established::Rejected
                }
            }),
            final(self).links().links() == (if r is Rejected {
                old(self).links().links()
            } else {
                old(self).links().links().insert(
                    peer_id.0 as u64,
                    Link { sock, opener, nonce },
                )
            }),
    {
        self.peer_tx.establish(peer_id.0 as u64, sock, opener, nonce)
    }

    /// Takes in a connection that passed the handshake: the peer gets its
    /// queue, and a replica connects back to a client. There is nothing to
    /// do where a client connected to a client.
    pub fn handle_connected_rx(&mut self, peer_id: NodeId) -> (r: Option<RxSetup>)
        requires
            old(self).wf(),
        ensures
            final(self).wf(),
            final(self).links() == old(self).links(),
            final(self).spec_id() == old(self).spec_id(),
            final(self).spec_first_cli() == old(self).spec_first_cli(),
            final(self).spec_batch_size() == old(self).spec_batch_size(),
            r is None <==> (peer_id.0 >= old(self).spec_first_cli().0 && old(self).spec_id().0 >= old(
                self,
            ).spec_first_cli().0),
            r matches Some(s) ==> s.reverse_connect == (old(self).spec_id().0 < old(
                self,
            ).spec_first_cli().0 && peer_id.0 >= old(self).spec_first_cli().0),
            final(self).spec_malformed() == old(self).spec_malformed(),
            exists|at: Option<(PeerRef, bool)>| #[trigger]
                peer_joined(old(self).peers(), peer_id, final(self).peers(), at) && (match at {
                    Some((_, new_pool)) => r matches Some(s) && s.new_pool == new_pool,
                    None => r is None,
                }),
            r is Some && peer_id != old(self).spec_id() ==> final(self).peers().connected(peer_id),
    {
        let reverse_connect = self.id.0 < self.first_cli.0 && peer_id.0 >= self.first_cli.0;
        let at = self.node_handling.init_peer_conn(peer_id);
        assert(peer_joined(old(self).peers(), peer_id, self.peers(), at));
        match at {
            Some((_, new_pool)) => Some(RxSetup { reverse_connect, new_pool }),
            None => None,
        }
    }

    /// Queues a message that arrived from `peer`, or that the node sent to
    /// itself. The message comes back where the peer has no queue, where it
    /// is disconnected, and where its queue is full.
    pub fn push_request(&mut self, peer: NodeId, msg: T) -> (r: Result<(), T>)
        requires
            old(self).wf(),
        ensures
            final(self).wf(),
            final(self).links() == old(self).links(),
            final(self).spec_id() == old(self).spec_id(),
            final(self).spec_first_cli() == old(self).spec_first_cli(),
            final(self).spec_batch_size() == old(self).spec_batch_size(),
            final(self).spec_malformed() == old(self).spec_malformed(),
            r is Ok ==> old(self).peers().connected(peer),
            r matches Err(back) ==> back == msg,
            r is Ok <==> peer_takes(old(self).peers(), peer),
            peer_pushed(old(self).peers(), peer, msg, final(self).peers()),
    {
        self.node_handling.push_request(peer, msg)
    }

    /// Gathers the requests of the clients of a pool into `batch`: see
    /// `ConnectedPeersGroup::collect_requests`. Nothing is gathered on a
    /// client, from a pool that there is not, and into a batch that is
    /// longer than a batch may be.
    pub fn collect_client_requests(&mut self, pool: usize, batch: &mut Vec<T>)
        requires
            old(self).wf(),
        ensures
            final(self).wf(),
            final(self).links() == old(self).links(),
            final(self).spec_id() == old(self).spec_id(),
            final(self).spec_first_cli() == old(self).spec_first_cli(),
            final(self).spec_batch_size() == old(self).spec_batch_size(),
            final(self).spec_malformed() == old(self).spec_malformed(),
            final(batch)@.len() >= old(batch)@.len(),
            final(batch)@.take(old(batch)@.len() as int) == old(batch)@,
            clients_collected(old(self).peers(), pool, old(batch)@, final(self).peers(), final(batch)@),
    {
        self.node_handling.collect_client_requests(pool, batch);
    }

    /// Gathers the messages of the replicas of a pool, and those that the
    /// node sent to itself, into `batch`, as `collect_client_requests` does
    /// for clients.
    pub fn collect_replica_messages(&mut self, pool: usize, batch: &mut Vec<T>)
        requires
            old(self).wf(),
        ensures
            final(self).wf(),
            final(self).links() == old(self).links(),
            final(self).spec_id() == old(self).spec_id(),
            final(self).spec_first_cli() == old(self).spec_first_cli(),
            final(self).spec_batch_size() == old(self).spec_batch_size(),
            final(self).spec_malformed() == old(self).spec_malformed(),
            final(batch)@.len() >= old(batch)@.len(),
            final(batch)@.take(old(batch)@.len() as int) == old(batch)@,
            replicas_collected(old(self).peers(), pool, old(batch)@, final(self).peers(), final(batch)@),
    {
        self.node_handling.collect_replica_messages(pool, batch);
    }

    /// Where a message for one peer goes: to the node itself through the
    /// loopback queue, to another peer over its link. There is no way to a
    /// peer without a link.
    pub fn send_to(&self, flush: bool, peer_id: NodeId, signed: bool) -> (r: Option<SendTo>)
        requires
            self.wf(),
        ensures
            r == (if peer_id == self.spec_id() {
                Some(SendTo::Me { my_id: self.spec_id(), signed })
            } else if self.links().peers().dom().contains(peer_id.0 as u64) {
                Some(
                    SendTo::Peers {
                        flush,
                        my_id: self.spec_id(),
                        peer_id,
                        signed,
                        sock: self.links().peers()[peer_id.0 as u64],
                    },
                )
            } else {
                None
            }),
    {
        if self.id == peer_id {
            Some(SendTo::Me { my_id: self.id, signed })
        } else {
            match self.peer_tx.find_peer(peer_id.0 as u64) {
                Some(sock) => Some(SendTo::Peers { flush, my_id: self.id, peer_id, signed, sock }),
                None => None,
            }
        }
    }

    /// Where an unsigned message for `target` goes. There is no way to a
    /// peer that has no queue or no link.
    pub fn send(&self, target: NodeId, flush: bool) -> (r: Option<SendTo>)
        requires
            self.wf(),
        ensures
            r is Some ==> self.peers().connected(target),
            r is Some <==> (self.peers().connected(target) && (target == self.spec_id()
                || self.links().peers().dom().contains(target.0 as u64))),
            r is Some ==> r->0.destination() == target && !r->0.is_signed(),
    {
        match self.node_handling.resolve_peer_conn(target) {
            None => None,
            Some(_) => self.send_to(flush, target, false),
        }
    }

    /// Where a signed message for `target` goes. There is no way to a peer
    /// that has no queue or no link.
    pub fn send_signed(&self, target: NodeId) -> (r: Option<SendTo>)
        requires
            self.wf(),
        ensures
            r is Some <==> (self.peers().connected(target) && (target == self.spec_id()
                || self.links().peers().dom().contains(target.0 as u64))),
            r is Some ==> r->0.destination() == target && r->0.is_signed(),
    {
        match self.node_handling.resolve_peer_conn(target) {
            None => None,
            Some(_) => self.send_to(true, target, true),
        }
    }

    /// Plans the way of a message to each of its targets: see `plan_send`.
    /// The place of the node itself is put in `mine`, the peers that are
    /// reached join `others`, and the peers whose queue is to be closed come
    /// back.
    pub fn create_send_tos(
        &self,
        signed: bool,
        targets: &Vec<NodeId>,
        mine: &mut Option<SendTo>,
        others: &mut SendTos,
    ) -> (disconnect: Vec<NodeId>)
        requires
            self.wf(),
        ensures
            ({
                let plan = plan_send(
                    targets@,
                    self.spec_id(),
                    signed,
                    self.links().peers(),
                    |id: NodeId| self.peers().connected(id),
                );
                &&& *final(mine) == (if plan.mine is Some {
                    plan.mine
                } else {
                    *old(mine)
                })
                &&& send_tos(*final(others)) == send_tos(*old(others)) + plan.others
                &&& disconnect@ == plan.disconnect
            }),
    {
        let ghost rx = |id: NodeId| self.peers().connected(id);
        let ghost tx = self.links().peers();
        let mut disconnect: Vec<NodeId> = Vec::new();
        let mut i: usize = 0;
        assert(send_tos(*others) + Seq::<SendTo>::empty() =~= send_tos(*others));
        while i < targets.len()
            invariant
                i <= targets.len(),
                self.wf(),
                rx == (|id: NodeId| self.peers().connected(id)),
                tx == self.links().peers(),
                ({
                    let plan = plan_send(targets@.take(i as int), self.spec_id(), signed, tx, rx);
                    &&& *mine == (if plan.mine is Some {
                        plan.mine
                    } else {
                        *old(mine)
                    })
                    &&& send_tos(*others) == send_tos(*old(others)) + plan.others
                    &&& disconnect@ == plan.disconnect
                }),
            decreases targets.len() - i,
        {
            let id = targets[i];
            proof {
                assert(targets@.take(i + 1).drop_last() == targets@.take(i as int));
                assert(targets@.take(i + 1).last() == id);
            }
            let ghost before = plan_send(targets@.take(i as int), self.spec_id(), signed, tx, rx);
            if id == self.id {
                *mine = Some(SendTo::Me { my_id: self.id, signed });
            } else {
                let sock = self.peer_tx.find_peer(id.0 as u64);
                let rx_conn = self.node_handling.resolve_peer_conn(id);
                match (sock, rx_conn) {
                    (Some(sock), Some(_)) => {
                        let s = SendTo::Peers { flush: true, my_id: self.id, peer_id: id, signed, sock };
                        others.push(s);
                        assert(send_tos(*others) =~= send_tos(*old(others)) + before.others.push(s));
                    },
                    (None, Some(_)) => {
                        disconnect.push(id);
                    },
                    _ => {},
                }
            }
            i += 1;
        }
        assert(targets@.take(i as int) == targets@);
        disconnect
    }

    /// Plans the way of a message to each of its targets: the place of the
    /// node itself, the peers that are reached, and the peers whose queue is
    /// to be closed. See `plan_send`.
    pub fn send_tos(&self, signed: bool, targets: &Vec<NodeId>) -> (r: (
        Option<SendTo>,
        SendTos,
        Vec<NodeId>,
    ))
        requires
            self.wf(),
        ensures
            ({
                let plan = plan_send(
                    targets@,
                    self.spec_id(),
                    signed,
                    self.links().peers(),
                    |id: NodeId| self.peers().connected(id),
                );
                &&& r.0 == plan.mine
                &&& send_tos(r.1) == plan.others
                &&& r.2@ == plan.disconnect
            }),
    {
        let mut my_send_to: Option<SendTo> = None;
        let mut other_send_tos = SendTos::new();
        let disconnect = self.create_send_tos(signed, targets, &mut my_send_to, &mut other_send_tos);
        proof {
            let plan = plan_send(
                targets@,
                self.spec_id(),
                signed,
                self.links().peers(),
                |id: NodeId| self.peers().connected(id),
            );
            assert(Seq::<SendTo>::empty() + plan.others =~= plan.others);
        }
        (my_send_to, other_send_tos, disconnect)
    }

    /// Plans an unsigned broadcast: see `send_tos`.
    pub fn broadcast(&self, targets: &Vec<NodeId>) -> (r: (Option<SendTo>, SendTos, Vec<NodeId>))
        requires
            self.wf(),
        ensures
            ({
                let plan = plan_send(
                    targets@,
                    self.spec_id(),
                    false,
                    self.links().peers(),
                    |id: NodeId| self.peers().connected(id),
                );
                &&& r.0 == plan.mine
                &&& send_tos(r.1) == plan.others
                &&& r.2@ == plan.disconnect
            }),
    {
        self.send_tos(false, targets)
    }

    /// Plans a signed broadcast: see `send_tos`.
    pub fn broadcast_signed(&self, targets: &Vec<NodeId>) -> (r: (
        Option<SendTo>,
        SendTos,
        Vec<NodeId>,
    ))
        requires
            self.wf(),
        ensures
            ({
                let plan = plan_send(
                    targets@,
                    self.spec_id(),
                    true,
                    self.links().peers(),
                    |id: NodeId| self.peers().connected(id),
                );
                &&& r.0 == plan.mine
                &&& send_tos(r.1) == plan.others
                &&& r.2@ == plan.disconnect
            }),
    {
        self.send_tos(true, targets)
    }

    /// Plans the way of messages that are already encoded, one for each
    /// header, to the node that its header names: the node itself, the
    /// peers that are reached, and the peers whose queue is to be closed.
    pub fn broadcast_serialized(&self, headers: &Vec<Header>) -> (r: (
        Option<SerializedSendTo>,
        Vec<SerializedSendTo>,
        Vec<NodeId>,
    ))
        requires
            self.wf(),
        ensures
            ({
                let targets = headers@.map_values(|h: Header| NodeId(h.to));
                let plan = plan_send(
                    targets,
                    self.spec_id(),
                    false,
                    self.links().peers(),
                    |id: NodeId| self.peers().connected(id),
                );
                &&& r.0 is Some == plan.mine is Some
                &&& r.0 matches Some(m) ==> m == (SerializedSendTo::Me { id: self.spec_id() })
                &&& r.1@.len() == plan.others.len()
                &&& forall|i: int|
                    0 <= i < r.1@.len() ==> serialized_of(#[trigger] plan.others[i]) == r.1@[i]
                &&& r.2@ == plan.disconnect
            }),
    {
        let mut targets: Vec<NodeId> = Vec::with_capacity(headers.len());
        let mut i: usize = 0;
        while i < headers.len()
            invariant
                i <= headers.len(),
                targets@ == headers@.take(i as int).map_values(|h: Header| NodeId(h.to)),
            decreases headers.len() - i,
        {
            targets.push(headers[i].to());
            assert(headers@.take(i + 1) == headers@.take(i as int).push(headers@[i as int]));
            i += 1;
        }
        assert(headers@.take(i as int) == headers@);
        let (mine, others, disconnect) = self.send_tos(false, &targets);
        let others = others.into_vec();
        let mut out: Vec<SerializedSendTo> = Vec::with_capacity(others.len());
        let mut j: usize = 0;
        while j < others.len()
            invariant
                j <= others.len(),
                out@.len() == j,
                forall|k: int| 0 <= k < j ==> serialized_of(#[trigger] others@[k]) == out@[k],
            decreases others.len() - j,
        {
            out.push(to_serialized(others[j]));
            j += 1;
        }
        let mine = match mine {
            Some(_) => Some(SerializedSendTo::Me { id: self.id }),
            None => None,
        };
        (mine, out, disconnect)
    }

    /// Closes the queues of the peers that a plan said to close: they take
    /// no more messages, and their pools let them go with the next batch.
    /// A peer whose queue cannot be found is passed over; nothing else
    /// changes.
    pub fn disconnect_peers(&mut self, peers: &Vec<NodeId>)
        requires
            old(self).wf(),
        ensures
            final(self).wf(),
            final(self).links() == old(self).links(),
            final(self).spec_id() == old(self).spec_id(),
            final(self).spec_first_cli() == old(self).spec_first_cli(),
            final(self).spec_batch_size() == old(self).spec_batch_size(),
            final(self).spec_malformed() == old(self).spec_malformed(),
            peers_closed(old(self).peers(), peers@, final(self).peers()),
    {
        let mut i: usize = 0;
        proof {
            lemma_closed_none(old(self).peers());
            assert(peers@.take(0) =~= Seq::<NodeId>::empty());
        }
        while i < peers.len()
            invariant
                i <= peers.len(),
                self.wf(),
                self.links() == old(self).links(),
                self.spec_id() == old(self).spec_id(),
                self.spec_first_cli() == old(self).spec_first_cli(),
                self.spec_batch_size() == old(self).spec_batch_size(),
                self.spec_malformed() == old(self).spec_malformed(),
                peers_closed(old(self).peers(), peers@.take(i as int), self.peers()),
            decreases peers.len() - i,
        {
            let ghost mid = self.peers();
            let _ = self.node_handling.disconnect(peers[i]);
            proof {
                lemma_closed_one_more(
                    old(self).peers(),
                    peers@.take(i as int),
                    mid,
                    peers@[i as int],
                    self.peers(),
                );
                assert(peers@.take(i + 1) =~= peers@.take(i as int).push(peers@[i as int]));
            }
            i += 1;
        }
        assert(peers@.take(i as int) =~= peers@);
    }
}

/// The target of an encoded message that goes where `s` goes.
pub open spec fn serialized_of(s: SendTo) -> SerializedSendTo {
    match s {
        SendTo::Me { my_id, .. } => SerializedSendTo::Me { id: my_id },
        SendTo::Peers { my_id, peer_id, sock, .. } => SerializedSendTo::Peers {
            id: peer_id,
            our_id: my_id,
            sock,
        },
    }
}

/// The target of an encoded message that goes where `s` goes.
pub fn to_serialized(s: SendTo) -> (r: SerializedSendTo)
    ensures
        r == serialized_of(s),
{
    match s {
        SendTo::Me { my_id, .. } => SerializedSendTo::Me { id: my_id },
        SendTo::Peers { my_id, peer_id, sock, .. } => SerializedSendTo::Peers {
            id: peer_id,
            our_id: my_id,
            sock,
        },
    }
}

} // verus!
