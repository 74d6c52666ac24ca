//! FIFO channels between the tasks of a node, and the bounded queue of a
//! peer link.

use crate::communication::message::{Header, StoredMessage};
use crate::error::{Error, ErrorKind};
use std::collections::VecDeque;
use vstd::prelude::*;

verus! {

/// The most messages that the queue of a peer link holds.
pub const CONNECTION_QUEUE: usize = 1024;

/// A bounded queue: what goes in first comes out first, and what does not
/// fit is handed back to the sender.
pub struct BoundedQueue<T> {
    items: VecDeque<T>,
    bound: usize,
}

impl<T> View for BoundedQueue<T> {
    type V = Seq<T>;

    closed spec fn view(&self) -> Seq<T> {
        self.items@
    }
}

impl<T> BoundedQueue<T> {
    /// The most items that the queue holds, in contracts.
    pub closed spec fn spec_bound(&self) -> usize {
        self.bound
    }

    /// The queue holds no more than its bound.
    pub open spec fn wf(&self) -> bool {
        self@.len() <= self.spec_bound()
    }

    /// An empty queue that holds up to `bound` items.
    pub fn new(bound: usize) -> (q: BoundedQueue<T>)
        ensures
            q.wf(),
            q@.len() == 0,
            q.spec_bound() == bound,
    {
        BoundedQueue { items: VecDeque::new(), bound }
    }

    /// The number of items in the queue.
    pub fn len(&self) -> (n: usize)
        ensures
            n == self@.len(),
    {
        self.items.len()
    }

    /// The most items that the queue holds.
    pub fn bound(&self) -> (n: usize)
        ensures
            n == self.spec_bound(),
    {
        self.bound
    }

    /// Whether the queue is full: a sender has to wait.
    pub fn is_full(&self) -> (r: bool)
        ensures
            r == (self@.len() >= self.spec_bound()),
    {
        self.items.len() >= self.bound
    }

    /// Puts an item at the end of the queue, or hands it back where the
    /// queue is full.
    pub fn try_push(&mut self, item: T) -> (r: Result<(), T>)
        requires
            old(self).wf(),
        ensures
            final(self).wf(),
            final(self).spec_bound() == old(self).spec_bound(),
            r is Ok <==> old(self)@.len() < old(self).spec_bound(),
            r is Ok ==> final(self)@ == old(self)@.push(item),
            r matches Err(back) ==> back == item && final(self)@ == old(self)@,
    {
        if self.items.len() >= self.bound {
            return Err(item);
        }
        self.items.push_back(item);
        Ok(())
    }

    /// Takes the oldest item out of the queue.
    pub fn pop(&mut self) -> (r: Option<T>)
        requires
            old(self).wf(),
        ensures
            final(self).wf(),
            final(self).spec_bound() == old(self).spec_bound(),
            r is Some <==> old(self)@.len() > 0,
            r is Some ==> r->0 == old(self)@[0] && final(self)@ == old(self)@.drop_first(),
            r is None ==> final(self)@ == old(self)@,
    {
        let r = self.items.pop_front();
        proof {
            if r is Some {
                assert(self.items@ =~= old(self).items@.drop_first());
            }
        }
        r
    }

    /// Moves up to `rq_bound` of the oldest items to the end of `dump_vec`,
    /// oldest first, and says how many were moved.
    pub fn dump_n(&mut self, rq_bound: usize, dump_vec: &mut Vec<T>) -> (moved: usize)
        requires
            old(self).wf(),
        ensures
            final(self).wf(),
            final(self).spec_bound() == old(self).spec_bound(),
            moved == (if rq_bound <= old(self)@.len() {
                rq_bound as int
            } else {
                old(self)@.len() as int
            }),
            final(dump_vec)@ == old(dump_vec)@ + old(self)@.take(moved as int),
            final(self)@ == old(self)@.skip(moved as int),
    {
        let mut moved: usize = 0;
        while moved < rq_bound && self.items.len() > 0
            invariant
                moved <= rq_bound,
                moved <= old(self)@.len(),
                self.bound == old(self).bound,
                self.items@ == old(self).items@.skip(moved as int),
                dump_vec@ == old(dump_vec)@ + old(self).items@.take(moved as int),
            decreases self.items@.len(),
        {
            match self.items.pop_front() {
                Some(item) => {
                    dump_vec.push(item);
                    assert(old(self).items@.take(moved + 1) == old(self).items@.take(moved as int).push(
                        item,
                    ));
                    assert(self.items@ =~= old(self).items@.skip(moved + 1));
                    moved += 1;
                },
                None => {},
            }
        }
        moved
    }
}

/// `std::sync::mpsc::SyncSender`, the sending half of a bounded channel.
/// Nothing is known of what the channel holds: other threads use it too.
#[verifier::external_type_specification]
#[verifier::external_body]
#[verifier::reject_recursive_types(T)]
pub struct ExSyncSender<T>(std::sync::mpsc::SyncSender<T>);

/// `std::sync::mpsc::Receiver`, the receiving half of a channel. Nothing is
/// known of what the channel holds: other threads use it too.
#[verifier::external_type_specification]
#[verifier::external_body]
#[verifier::reject_recursive_types(T)]
pub struct ExReceiver<T>(std::sync::mpsc::Receiver<T>);

/// Calls `std::sync::mpsc::sync_channel`. Nothing is claimed of the two
/// halves.
#[verifier::external_body]
fn sync_channel<T>(bound: usize) -> (std::sync::mpsc::SyncSender<T>, std::sync::mpsc::Receiver<T>) {
    std::sync::mpsc::sync_channel(bound)
}

/// Calls `std::sync::mpsc::SyncSender::send`, which waits while the channel
/// is full. What comes back says whether the message was taken: it is not
/// where the receiving half is gone.
#[verifier::external_body]
fn sync_send<T>(tx: &std::sync::mpsc::SyncSender<T>, message: T) -> bool {
    tx.send(message).is_ok()
}

/// Calls `std::sync::mpsc::Receiver::recv`, which waits for a message. There
/// is none where every sending half is gone.
#[verifier::external_body]
fn sync_recv<T>(rx: &std::sync::mpsc::Receiver<T>) -> Option<T> {
    rx.recv().ok()
}

/// Calls `std::sync::mpsc::Receiver::try_recv`, which does not wait.
#[verifier::external_body]
fn sync_try_recv<T>(rx: &std::sync::mpsc::Receiver<T>) -> Option<T> {
    rx.try_recv().ok()
}

/// Calls `Clone::clone` of `std::sync::mpsc::SyncSender`.
#[verifier::external_body]
fn sync_sender_clone<T>(tx: &std::sync::mpsc::SyncSender<T>) -> std::sync::mpsc::SyncSender<T> {
    tx.clone()
}

/// The sending half of a general purpose channel.
#[verifier::reject_recursive_types(T)]
pub struct ChannelTx<T> {
    inner: std::sync::mpsc::SyncSender<T>,
    bound: usize,
}

/// The receiving half of a general purpose channel.
#[verifier::reject_recursive_types(T)]
pub struct ChannelRx<T> {
    inner: std::sync::mpsc::Receiver<T>,
    bound: usize,
}

/// The receiving half of a channel that hands out many messages at once.
#[verifier::reject_recursive_types(T)]
pub struct ChannelRxMult<T> {
    inner: std::sync::mpsc::Receiver<T>,
    bound: usize,
}

/// A new channel that queues up to `bound` messages of its senders. What
/// the channel holds at any time is not known here, for other tasks use
/// it too; each half knows the bound that the channel was made with.
pub fn new_bounded<T>(bound: usize) -> (r: (ChannelTx<T>, ChannelRx<T>))
    ensures
        r.0.spec_bound() == bound,
        r.1.spec_bound() == bound,
{
    let (tx, rx) = sync_channel(bound);
    let ttx = ChannelTx { inner: tx, bound };
    let rrx = ChannelRx { inner: rx, bound };
    (ttx, rrx)
}

/// A new channel that queues up to `bound` messages of its senders, and
/// hands out many at once.
pub fn new_bounded_mult<T>(bound: usize) -> (r: (ChannelTx<T>, ChannelRxMult<T>))
    ensures
        r.0.spec_bound() == bound,
        r.1.spec_bound() == bound,
{
    let (tx, rx) = sync_channel(bound);
    (ChannelTx { inner: tx, bound }, ChannelRxMult { inner: rx, bound })
}

/// What a sender is told after the channel took its message, or did not.
pub fn send_outcome(taken: bool) -> (r: Result<(), Error>)
    ensures
        r is Ok <==> taken,
        r is Err ==> r->Err_0.kind() == ErrorKind::CommunicationChannel,
{
    if taken {
        Ok(())
    } else {
        Err(Error::simple(ErrorKind::CommunicationChannel))
    }
}

/// Puts what the channel gave at the end of `out`, and says whether it gave
/// anything.
pub fn take_into<T>(out: &mut Vec<T>, got: Option<T>) -> (more: bool)
    ensures
        more == got is Some,
        got matches Some(m) ==> final(out)@ == old(out)@.push(m),
        got is None ==> final(out)@ == old(out)@,
{
    match got {
        Some(m) => {
            out.push(m);
            true
        },
        None => false,
    }
}

/// What a receiver is handed after the channel gave a message, or none.
pub fn recv_outcome<T>(got: Option<T>) -> (r: Result<T, Error>)
    ensures
        r is Ok <==> got is Some,
        r is Ok ==> r->Ok_0 == got->0,
        r is Err ==> r->Err_0.kind() == ErrorKind::CommunicationChannel,
{
    match got {
        Some(m) => Ok(m),
        None => Err(Error::simple(ErrorKind::CommunicationChannel)),
    }
}

impl<T> ChannelTx<T> {
    /// The bound that the channel was made with, in contracts.
    pub closed spec fn spec_bound(&self) -> usize {
        self.bound
    }

    /// The most messages that the channel queues.
    pub fn bound(&self) -> (n: usize)
        ensures
            n == self.spec_bound(),
    {
        self.bound
    }

    /// Sends a message, waiting while the channel is full. This fails with
    /// an error of kind `CommunicationChannel` where the receiving half is
    /// gone, which the channel alone knows: see `send_outcome`.
    pub fn send(&mut self, message: T) -> (r: Result<(), Error>)
        ensures
            r is Err ==> r->Err_0.kind() == ErrorKind::CommunicationChannel,
            final(self).spec_bound() == old(self).spec_bound(),
    {
        send_outcome(sync_send(&self.inner, message))
    }

    /// Another handle to the same sending half.
    pub fn duplicate(&self) -> (r: ChannelTx<T>)
        ensures
            r.spec_bound() == self.spec_bound(),
    {
        ChannelTx { inner: sync_sender_clone(&self.inner), bound: self.bound }
    }
}

impl<T> ChannelRx<T> {
    /// The bound that the channel was made with, in contracts.
    pub closed spec fn spec_bound(&self) -> usize {
        self.bound
    }

    /// The most messages that the channel queues.
    pub fn bound(&self) -> (n: usize)
        ensures
            n == self.spec_bound(),
    {
        self.bound
    }

    /// Waits for the next message. This fails with an error of kind
    /// `CommunicationChannel` where every sending half is gone, which the
    /// channel alone knows: see `recv_outcome`.
    pub fn recv(&mut self) -> (r: Result<T, Error>)
        ensures
            r is Err ==> r->Err_0.kind() == ErrorKind::CommunicationChannel,
            final(self).spec_bound() == old(self).spec_bound(),
    {
        recv_outcome(sync_recv(&self.inner))
    }
}

impl<T> ChannelRx<T> {
    /// The next message, if one waits.
    pub fn try_recv(&mut self) -> (r: Option<T>)
        ensures
            final(self).spec_bound() == old(self).spec_bound(),
    {
        sync_try_recv(&self.inner)
    }
}

impl<T> ChannelRxMult<T> {
    /// The bound that the channel was made with, in contracts.
    pub closed spec fn spec_bound(&self) -> usize {
        self.bound
    }

    /// The most messages that the channel queues.
    pub fn bound(&self) -> (n: usize)
        ensures
            n == self.spec_bound(),
    {
        self.bound
    }

    /// Moves the messages that wait to the end of `out`, up to `bound` of
    /// them, without waiting, and says how many were moved. How many wait
    /// is for the channel to say: see `take_into`.
    pub fn try_recv_mult(&mut self, out: &mut Vec<T>, bound: usize) -> (moved: usize)
        ensures
            moved <= bound,
            final(out)@.len() == old(out)@.len() + moved,
            final(out)@.take(old(out)@.len() as int) == old(out)@,
            final(self).spec_bound() == old(self).spec_bound(),
    {
        let mut moved: usize = 0;
        while moved < bound
            invariant
                moved <= bound,
                out@.len() == old(out)@.len() + moved,
                out@.take(old(out)@.len() as int) == old(out)@,
                self.bound == old(self).bound,
            decreases bound - moved,
        {
            let ghost before = out@;
            if !take_into(out, sync_try_recv(&self.inner)) {
                return moved;
            }
            assert(out@.take(old(out)@.len() as int) =~= before.take(old(out)@.len() as int));
            moved += 1;
        }
        moved
    }
}

/// The kinds of message that a node hands to its tasks, as far as the
/// channels care.
#[derive(Copy, Clone, Debug, PartialEq, Eq, Structural)]
pub enum MessageClass {
    /// A reply to a client request, which arrived from a replica.
    SystemReply,
    /// Another message that arrived from a peer.
    SystemOther,
    /// A message that the node made for itself: a timeout, the end of an
    /// execution.
    Internal,
}

/// Where a message goes.
#[derive(Copy, Clone, Debug, PartialEq, Eq, Structural)]
pub enum Route {
    /// To the task that handles every message of a replica.
    Messages,
    /// To the task of a client that waits for replies.
    Replies,
    /// To the task of a client that handles everything else.
    Other,
    /// Nowhere: the message is dropped.
    Dropped,
}

/// Where the sending half of a message channel puts a message: a replica
/// has one queue for everything; a client has a queue for replies and one
/// for the messages that it made for itself, and drops what else arrives
/// from peers.
pub open spec fn route_of(client: bool, class: MessageClass) -> Route {
    if !client {
        Route::Messages
    } else {
        match class {
            MessageClass::SystemReply => Route::Replies,
            MessageClass::SystemOther => Route::Dropped,
            MessageClass::Internal => Route::Other,
        }
    }
}

/// A message on its way through a message channel.
pub enum Message<M, R> {
    /// A message that arrived from a peer under this header.
    System(Header, M),
    /// A reply that arrived from a replica under this header.
    Reply(Header, R),
    /// A message that the node made for itself.
    Internal(M),
}

impl<M, R> Message<M, R> {
    /// The kind of the message, as far as the channels care.
    pub open spec fn class(&self) -> MessageClass {
        match self {
            Message::System(_, _) => MessageClass::SystemOther,
            Message::Reply(_, _) => MessageClass::SystemReply,
            Message::Internal(_) => MessageClass::Internal,
        }
    }
}

/// The message that the queue of replies of a client hands out for a
/// reply that was stored there.
pub fn reply_message<M, R>(stored: StoredMessage<R>) -> (m: Message<M, R>)
    ensures
        m == Message::<M, R>::Reply(stored.header, stored.message),
{
    let (h, r) = stored.into_inner();
    Message::Reply(h, r)
}

/// The sending half of a message channel.
#[verifier::reject_recursive_types(M)]
#[verifier::reject_recursive_types(R)]
pub enum MessageChannelTx<M, R> {
    /// That of a client.
    Client { other: ChannelTx<Message<M, R>>, replies: ChannelTx<StoredMessage<R>> },
    /// That of a replica.
    Server { messages: ChannelTx<Message<M, R>> },
}

/// The receiving half of a message channel.
#[verifier::reject_recursive_types(M)]
#[verifier::reject_recursive_types(R)]
pub enum MessageChannelRx<M, R> {
    /// That of a client.
    Client { other: ChannelRx<Message<M, R>>, replies: ChannelRx<StoredMessage<R>> },
    /// That of a replica.
    Server { messages: ChannelRx<Message<M, R>> },
}

/// A new message channel, of a client or of a replica, whose queues hold up
/// to `bound` messages each.
pub fn new_message_channel<M, R>(client: bool, bound: usize) -> (r: (
    MessageChannelTx<M, R>,
    MessageChannelRx<M, R>,
))
    ensures
        client ==> r.0 is Client && r.1 is Client,
        !client ==> r.0 is Server && r.1 is Server,
        r.0.bounded_by(bound),
        r.1.bounded_by(bound),
{
    if client {
        let (rr_tx, rr_rx) = new_bounded(bound);
        let (o_tx, o_rx) = new_bounded(bound);
        let tx = MessageChannelTx::Client { replies: rr_tx, other: o_tx };
        let rx = MessageChannelRx::Client { replies: rr_rx, other: o_rx };
        (tx, rx)
    } else {
        let (m_tx, m_rx) = new_bounded(bound);
        (MessageChannelTx::Server { messages: m_tx }, MessageChannelRx::Server { messages: m_rx })
    }
}

impl<M, R> MessageChannelTx<M, R> {
    /// Whether every queue of the channel was made with the given bound.
    pub open spec fn bounded_by(&self, bound: usize) -> bool {
        match self {
            MessageChannelTx::Client { other, replies } => other.spec_bound() == bound
                && replies.spec_bound() == bound,
            MessageChannelTx::Server { messages } => messages.spec_bound() == bound,
        }
    }

    /// Another handle to the same sending half.
    pub fn duplicate(&self) -> (r: MessageChannelTx<M, R>)
        ensures
            r is Client == self is Client,
            forall|bound: usize| self.bounded_by(bound) ==> r.bounded_by(bound),
    {
        match self {
            MessageChannelTx::Server { messages } => MessageChannelTx::Server {
                messages: messages.duplicate(),
            },
            MessageChannelTx::Client { replies, other } => MessageChannelTx::Client {
                other: other.duplicate(),
                replies: replies.duplicate(),
            },
        }
    }

    /// Sends a message to the queue where it belongs, and says where that
    /// was. A message that is dropped is no failure; a queue whose
    /// receiving half is gone is one, of kind `CommunicationChannel`.
    pub fn send(&mut self, message: Message<M, R>) -> (r: Result<Route, Error>)
        ensures
            r is Ok ==> r->Ok_0 == route_of((*old(self)) is Client, message.class()),
            r is Err ==> r->Err_0.kind() == ErrorKind::CommunicationChannel && route_of(
                (*old(self)) is Client,
                message.class(),
            ) != Route::Dropped,
            (*final(self)) is Client == (*old(self)) is Client,
            forall|bound: usize| old(self).bounded_by(bound) ==> final(self).bounded_by(bound),
    {
        match self {
            MessageChannelTx::Server { messages } => {
                match messages.send(message) {
                    Ok(()) => Ok(Route::Messages),
                    Err(e) => Err(e),
                }
            },
            MessageChannelTx::Client { replies, other } => {
                match message {
                    Message::Reply(header, reply) => {
                        let m = StoredMessage::new(header, reply);
                        match replies.send(m) {
                            Ok(()) => Ok(Route::Replies),
                            Err(e) => Err(e),
                        }
                    },
                    Message::System(_, _) => Ok(Route::Dropped),
                    Message::Internal(m) => {
                        match other.send(Message::Internal(m)) {
                            Ok(()) => Ok(Route::Other),
                            Err(e) => Err(e),
                        }
                    },
                }
            },
        }
    }
}

impl<M, R> MessageChannelRx<M, R> {
    /// Whether every queue of the channel was made with the given bound.
    pub open spec fn bounded_by(&self, bound: usize) -> bool {
        match self {
            MessageChannelRx::Client { other, replies } => other.spec_bound() == bound
                && replies.spec_bound() == bound,
            MessageChannelRx::Server { messages } => messages.spec_bound() == bound,
        }
    }

    /// Waits for the next message of a replica. A client has two queues and
    /// is served by `recv_reply` and `recv_other`.
    pub fn recv(&mut self) -> (r: Result<Message<M, R>, Error>)
        ensures
            (*old(self)) is Client ==> r is Err,
            r is Err ==> r->Err_0.kind() == ErrorKind::CommunicationChannel,
    {
        match self {
            MessageChannelRx::Server { messages } => messages.recv(),
            MessageChannelRx::Client { .. } => Err(Error::simple(ErrorKind::CommunicationChannel)),
        }
    }

    /// The next message, if one waits. A client is handed its replies
    /// before anything else: see `reply_message`.
    pub fn try_recv(&mut self) -> (r: Option<Message<M, R>>)
        ensures
            (*final(self)) is Client == (*old(self)) is Client,
    {
        match self {
            MessageChannelRx::Server { messages } => messages.try_recv(),
            MessageChannelRx::Client { replies, other } => {
                match replies.try_recv() {
                    Some(stored) => Some(reply_message(stored)),
                    None => other.try_recv(),
                }
            },
        }
    }

    /// Waits for the next reply of a client.
    pub fn recv_reply(&mut self) -> (r: Result<Message<M, R>, Error>)
        ensures
            (*old(self)) is Server ==> r is Err,
            r is Ok ==> r->Ok_0 is Reply,
            r is Err ==> r->Err_0.kind() == ErrorKind::CommunicationChannel,
    {
        match self {
            MessageChannelRx::Client { replies, .. } => {
                match replies.recv() {
                    Ok(stored) => Ok(reply_message(stored)),
                    Err(e) => Err(e),
                }
            },
            MessageChannelRx::Server { .. } => Err(Error::simple(ErrorKind::CommunicationChannel)),
        }
    }

    /// Waits for the next message of a client that is no reply.
    pub fn recv_other(&mut self) -> (r: Result<Message<M, R>, Error>)
        ensures
            (*old(self)) is Server ==> r is Err,
            r is Err ==> r->Err_0.kind() == ErrorKind::CommunicationChannel,
    {
        match self {
            MessageChannelRx::Client { other, .. } => other.recv(),
            MessageChannelRx::Server { .. } => Err(Error::simple(ErrorKind::CommunicationChannel)),
        }
    }
}

} // verus!
