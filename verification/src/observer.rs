//! Observers: clients that are told what the replica does.

use crate::node_id::NodeId;
use crate::ordering::SeqNo;
use vstd::prelude::*;

verus! {

/// The node that observes.
pub type ObserverType = NodeId;

/// An observer came or went.
#[derive(Copy, Clone, Debug)]
pub enum ConnState<T> {
    /// The observer asked to be registered.
    Connected(T),
    /// The observer went away.
    Disconnected(T),
}

/// What the observer task is told.
#[derive(Copy, Clone, Debug)]
pub enum MessageType<T> {
    /// An observer came or went.
    Conn(ConnState<T>),
    /// The replica did something worth telling.
    Event(ObserveEventKind),
}

/// What the replica did.
#[derive(Copy, Clone, Debug, PartialEq, Eq, Structural)]
pub enum ObserveEventKind {
    /// A checkpoint began at this instance.
    CheckpointStart(SeqNo),
    /// A checkpoint was completed at this instance.
    CheckpointEnd(SeqNo),
    /// The consensus of this instance began.
    Consensus(SeqNo),
    /// The replica entered the normal phase, in this view and at this
    /// instance.
    NormalPhase(SeqNo, SeqNo),
    /// The replica entered the view change phase.
    ViewChangePhase,
    /// The replica began a state transfer.
    CollabStateTransfer,
    /// This instance entered the prepare phase.
    Prepare(SeqNo),
    /// This instance entered the commit phase.
    Commit(SeqNo),
    /// This instance was decided.
    Ready(SeqNo),
    /// This instance was executed.
    Executed(SeqNo),
}

/// What an observer is sent.
#[derive(Copy, Clone, Debug, PartialEq, Eq, Structural)]
pub enum ObserverMessage {
    /// A node asks to be registered as an observer.
    ObserverRegister,
    /// Whether the node was registered: not if it was registered already.
    ObserverRegisterResponse(bool),
    /// A node asks to be no observer any longer.
    ObserverUnregister,
    /// What the replica did.
    ObservedValue(ObserveEventKind),
}

/// What the observer task asks the communication layer to do.
#[derive(Clone, Debug)]
pub enum ObserverAction {
    /// To send a message to one observer.
    Send(NodeId, ObserverMessage),
    /// To send a message to these observers.
    Broadcast(Vec<NodeId>, ObserverMessage),
}

/// What the observer task holds.
pub struct ObserversModel {
    /// The registered observers, by id.
    pub registered: Seq<NodeId>,
    /// The last entry into the normal phase that was reported.
    pub last_normal_event: Option<(SeqNo, SeqNo)>,
    /// The last event that was reported.
    pub last_event: Option<ObserveEventKind>,
}

/// Whether the ids are in strictly increasing order.
pub open spec fn increasing(ids: Seq<NodeId>) -> bool {
    forall|i: int, j: int| 0 <= i < j < ids.len() ==> ids[i].0 < ids[j].0
}

/// The number of ids at the front of `ids` that are below `id`.
pub open spec fn below(ids: Seq<NodeId>, id: NodeId) -> nat
    decreases ids.len(),
{
    if ids.len() == 0 || ids[0].0 >= id.0 {
        0
    } else {
        1 + below(ids.drop_first(), id)
    }
}

/// Among increasing ids, those below `id` come first and are `below` many.
pub proof fn lemma_below(ids: Seq<NodeId>, id: NodeId)
    requires
        increasing(ids),
    ensures
        below(ids, id) <= ids.len(),
        forall|i: int| 0 <= i < below(ids, id) ==> (#[trigger] ids[i]).0 < id.0,
        forall|i: int| below(ids, id) <= i < ids.len() ==> (#[trigger] ids[i]).0 >= id.0,
        ids.contains(id) <==> (below(ids, id) < ids.len() && ids[below(ids, id) as int] == id),
    decreases ids.len(),
{
    if ids.len() == 0 || ids[0].0 >= id.0 {
        if ids.contains(id) {
            let k = choose|k: int| 0 <= k < ids.len() && ids[k] == id;
            if k > 0 {
                assert(ids[0].0 < ids[k].0);
            }
        }
    } else {
        let rest = ids.drop_first();
        assert(increasing(rest)) by {
            assert forall|i: int, j: int| 0 <= i < j < rest.len() implies rest[i].0 < rest[j].0 by {
                assert(rest[i] == ids[i + 1]);
                assert(rest[j] == ids[j + 1]);
            }
        }
        lemma_below(rest, id);
        assert forall|i: int| 0 <= i < below(ids, id) implies (#[trigger] ids[i]).0 < id.0 by {
            if i > 0 {
                assert(ids[i] == rest[i - 1]);
            }
        }
        assert forall|i: int| below(ids, id) <= i < ids.len() implies (#[trigger] ids[i]).0
            >= id.0 by {
            assert(ids[i] == rest[i - 1]);
        }
        if ids.contains(id) {
            let k = choose|k: int| 0 <= k < ids.len() && ids[k] == id;
            assert(k > 0);
            assert(rest[k - 1] == id);
            assert(rest.contains(id));
        }
        if below(rest, id) < rest.len() && rest[below(rest, id) as int] == id {
            assert(ids[below(ids, id) as int] == id);
        }
    }
}

/// The observers of a replica and what they were told last.
pub struct Observers {
    registered_observers: Vec<NodeId>,
    last_normal_event: Option<(SeqNo, SeqNo)>,
    last_event: Option<ObserveEventKind>,
}

impl View for Observers {
    type V = ObserversModel;

    closed spec fn view(&self) -> ObserversModel {
        ObserversModel {
            registered: self.registered_observers@,
            last_normal_event: self.last_normal_event,
            last_event: self.last_event,
        }
    }
}

impl Observers {
    /// No observers, and nothing reported yet.
    pub fn new() -> (o: Observers)
        ensures
            o@ == (ObserversModel {
                registered: Seq::empty(),
                last_normal_event: None,
                last_event: None,
            }),
            increasing(o@.registered),
    {
        Observers { registered_observers: Vec::new(), last_normal_event: None, last_event: None }
    }

    /// The place of `observer` among the registered observers, or the place
    /// where it would stand.
    fn position(&self, observer: NodeId) -> (pos: usize)
        requires
            increasing(self@.registered),
        ensures
            pos == below(self@.registered, observer),
            pos <= self@.registered.len(),
            self@.registered.contains(observer) <==> (pos < self@.registered.len()
                && self@.registered[pos as int] == observer),
            forall|i: int| 0 <= i < pos ==> (#[trigger] self@.registered[i]).0 < observer.0,
            forall|i: int| pos <= i < self@.registered.len() ==> (#[trigger] self@.registered[i]).0 >= observer.0,
    {
        proof {
            lemma_below(self@.registered, observer);
        }
        let mut pos: usize = 0;
        while pos < self.registered_observers.len() && self.registered_observers[pos].0 < observer.0
            invariant
                pos <= below(self@.registered, observer) <= self@.registered.len(),
                forall|i: int|
                    0 <= i < below(self@.registered, observer) ==> (#[trigger] self@.registered[i]).0
                        < observer.0,
                forall|i: int|
                    below(self@.registered, observer) <= i < self@.registered.len() ==> (
                    #[trigger] self@.registered[i]).0 >= observer.0,
            decreases self.registered_observers.len() - pos,
        {
            pos += 1;
        }
        pos
    }

    /// Registers an observer. What comes back says whether it was added:
    /// not if it was registered already.
    pub fn register_observer(&mut self, observer: ObserverType) -> (added: bool)
        requires
            increasing(old(self)@.registered),
        ensures
            increasing(final(self)@.registered),
            added == !old(self)@.registered.contains(observer),
            final(self)@ == (ObserversModel {
                registered: if added {
                    old(self)@.registered.insert(
                        below(old(self)@.registered, observer) as int,
                        observer,
                    )
                } else {
                    old(self)@.registered
                },
                ..old(self)@
            }),
            final(self)@.registered.contains(observer),
    {
        let pos = self.position(observer);
        if pos < self.registered_observers.len() && self.registered_observers[pos].0 == observer.0 {
            return false;
        }
        self.registered_observers.insert(pos, observer);
        proof {
            let pre = old(self)@.registered;
            let post = self@.registered;
            assert(post[pos as int] == observer);
            assert forall|i: int, j: int| 0 <= i < j < post.len() implies post[i].0 < post[j].0 by {
                if j < pos {
                    assert(post[i] == pre[i] && post[j] == pre[j]);
                } else if j == pos {
                    assert(post[i] == pre[i]);
                } else if i < pos {
                    assert(post[i] == pre[i] && post[j] == pre[j - 1]);
                } else if i == pos {
                    assert(post[j] == pre[j - 1]);
                    assert(pre[j - 1].0 >= observer.0);
                    assert(pre[j - 1] != observer);
                } else {
                    assert(post[i] == pre[i - 1] && post[j] == pre[j - 1]);
                }
            }
        }
        true
    }

    /// Removes an observer. What comes back says whether it was there.
    pub fn remove_observers(&mut self, observer: &ObserverType) -> (removed: bool)
        requires
            increasing(old(self)@.registered),
        ensures
            increasing(final(self)@.registered),
            removed == old(self)@.registered.contains(*observer),
            final(self)@ == (ObserversModel {
                registered: if removed {
                    old(self)@.registered.remove(below(old(self)@.registered, *observer) as int)
                } else {
                    old(self)@.registered
                },
                ..old(self)@
            }),
            !final(self)@.registered.contains(*observer),
    {
        let pos = self.position(*observer);
        if pos < self.registered_observers.len() && self.registered_observers[pos].0 == observer.0 {
            self.registered_observers.remove(pos);
            proof {
                let post = self@.registered;
                if post.contains(*observer) {
                    let k = choose|k: int| 0 <= k < post.len() && post[k] == *observer;
                    if k < pos {
                        assert(old(self)@.registered[k].0 < old(self)@.registered[pos as int].0);
                    } else {
                        assert(old(self)@.registered[pos as int].0 < old(self)@.registered[k + 1].0);
                    }
                }
            }
            true
        } else {
            false
        }
    }

    /// The registered observers, in the order of their ids.
    pub fn observers(&self) -> (r: Vec<NodeId>)
        ensures
            r@ == self@.registered,
    {
        let mut out: Vec<NodeId> = Vec::with_capacity(self.registered_observers.len());
        let mut i: usize = 0;
        while i < self.registered_observers.len()
            invariant
                i <= self.registered_observers.len(),
                out@ == self.registered_observers@.take(i as int),
            decreases self.registered_observers.len() - i,
        {
            out.push(self.registered_observers[i]);
            assert(self.registered_observers@.take(i + 1) == self.registered_observers@.take(
                i as int,
            ).push(self.registered_observers@[i as int]));
            i += 1;
        }
        assert(self.registered_observers@.take(i as int) == self.registered_observers@);
        out
    }

    /// Takes note of what the observer task is told, and says what to send.
    ///
    /// An observer that connects is registered and told whether it was
    /// added, then the last entry into the normal phase and the last event,
    /// as far as there are any. An observer that disconnects is removed. An
    /// event is remembered and broadcast to the registered observers.
    pub fn handle(&mut self, message: MessageType<ObserverType>) -> (actions: Vec<ObserverAction>)
        requires
            increasing(old(self)@.registered),
        ensures
            increasing(final(self)@.registered),
            step_observe(old(self)@, final(self)@, message, actions@),
    {
        let mut actions: Vec<ObserverAction> = Vec::new();
        match message {
            MessageType::Conn(ConnState::Connected(client)) => {
                let res = self.register_observer(client);
                actions.push(
                    ObserverAction::Send(client, ObserverMessage::ObserverRegisterResponse(res)),
                );
                match self.last_normal_event {
                    Some((view, seq)) => {
                        actions.push(
                            ObserverAction::Send(
                                client,
                                ObserverMessage::ObservedValue(ObserveEventKind::NormalPhase(view, seq)),
                            ),
                        );
                    },
                    None => {},
                }
                match self.last_event {
                    Some(e) => {
                        actions.push(ObserverAction::Send(client, ObserverMessage::ObservedValue(e)));
                    },
                    None => {},
                }
                assert(actions@ =~= greeting(old(self)@, client));
            },
            MessageType::Conn(ConnState::Disconnected(client)) => {
                self.remove_observers(&client);
            },
            MessageType::Event(event) => {
                match event {
                    ObserveEventKind::NormalPhase(view, seq) => {
                        self.last_normal_event = Some((view, seq));
                    },
                    _ => {},
                }
                self.last_event = Some(event);
                let targets = self.observers();
                actions.push(ObserverAction::Broadcast(targets, ObserverMessage::ObservedValue(event)));
            },
        }
        actions
    }
}

/// What is sent to an observer that connects: whether it was added, the last
/// entry into the normal phase, and the last event.
pub open spec fn greeting(pre: ObserversModel, client: NodeId) -> Seq<ObserverAction> {
    let added = !pre.registered.contains(client);
    let first = seq![
        ObserverAction::Send(client, ObserverMessage::ObserverRegisterResponse(added)),
    ];
    let second = match pre.last_normal_event {
        Some((view, seq)) => seq![
            ObserverAction::Send(
                client,
                ObserverMessage::ObservedValue(ObserveEventKind::NormalPhase(view, seq)),
            ),
        ],
        None => Seq::empty(),
    };
    let third = match pre.last_event {
        Some(e) => seq![ObserverAction::Send(client, ObserverMessage::ObservedValue(e))],
        None => Seq::empty(),
    };
    first + second + third
}

/// How a message changes what the observer task holds, and what the task
/// sends.
pub open spec fn step_observe(
    pre: ObserversModel,
    post: ObserversModel,
    message: MessageType<ObserverType>,
    actions: Seq<ObserverAction>,
) -> bool {
    match message {
        MessageType::Conn(ConnState::Connected(client)) => {
            &&& post == (ObserversModel {
                registered: if pre.registered.contains(client) {
                    pre.registered
                } else {
                    pre.registered.insert(below(pre.registered, client) as int, client)
                },
                ..pre
            })
            &&& actions == greeting(pre, client)
        },
        MessageType::Conn(ConnState::Disconnected(client)) => {
            &&& post == (ObserversModel {
                registered: if pre.registered.contains(client) {
                    pre.registered.remove(below(pre.registered, client) as int)
                } else {
                    pre.registered
                },
                ..pre
            })
            &&& actions.len() == 0
        },
        MessageType::Event(event) => {
            &&& post == (ObserversModel {
                last_normal_event: match event {
                    ObserveEventKind::NormalPhase(view, seq) => Some((view, seq)),
                    _ => pre.last_normal_event,
                },
                last_event: Some(event),
                ..pre
            })
            &&& actions.len() == 1
            &&& actions[0] matches ObserverAction::Broadcast(targets, m)
            &&& targets@ == pre.registered
            &&& m == ObserverMessage::ObservedValue(event)
        },
    }
}

} // verus!
