//! The execution layer: batches of client requests on their way to the
//! application, and batches of replies on their way back.

use crate::error::Error;
use crate::msg_log::deciding_log::BatchMeta;
use crate::node_id::NodeId;
use crate::ordering::SeqNo;
use vstd::prelude::*;

verus! {

/// A client request to be executed.
pub struct Update<O> {
    from: NodeId,
    session_id: SeqNo,
    operation_id: SeqNo,
    operation: O,
}

/// The reply to a client request.
pub struct UpdateReply<P> {
    to: NodeId,
    session_id: SeqNo,
    operation_id: SeqNo,
    payload: P,
}

/// A batch of client requests to be executed, in order.
pub struct UpdateBatch<O> {
    inner: Vec<Update<O>>,
}

/// A batch of replies, in the order of the requests.
pub struct UpdateBatchReplies<P> {
    inner: Vec<UpdateReply<P>>,
}

impl<O> Update<O> {
    /// The client that sent the request, in contracts.
    pub closed spec fn spec_from(&self) -> NodeId {
        self.from
    }

    /// The session of the client, in contracts.
    pub closed spec fn spec_session(&self) -> SeqNo {
        self.session_id
    }

    /// The number of the operation within the session, in contracts.
    pub closed spec fn spec_operation_id(&self) -> SeqNo {
        self.operation_id
    }

    /// The operation, in contracts.
    pub closed spec fn spec_operation(&self) -> O {
        self.operation
    }

    /// The parts of the request: the client, the session, the number of the
    /// operation and the operation.
    pub fn into_inner(self) -> (r: (NodeId, SeqNo, SeqNo, O))
        ensures
            r == (
                self.spec_from(),
                self.spec_session(),
                self.spec_operation_id(),
                self.spec_operation(),
            ),
    {
        (self.from, self.session_id, self.operation_id, self.operation)
    }

    /// The operation.
    pub fn operation(&self) -> (o: &O)
        ensures
            *o == self.spec_operation(),
    {
        &self.operation
    }
}

impl<P> UpdateReply<P> {
    /// The client that the reply is for, in contracts.
    pub closed spec fn spec_to(&self) -> NodeId {
        self.to
    }

    /// The session of the client, in contracts.
    pub closed spec fn spec_session(&self) -> SeqNo {
        self.session_id
    }

    /// The number of the operation within the session, in contracts.
    pub closed spec fn spec_operation_id(&self) -> SeqNo {
        self.operation_id
    }

    /// What the application answered, in contracts.
    pub closed spec fn spec_payload(&self) -> P {
        self.payload
    }

    /// The client that the reply is for.
    pub fn to(&self) -> (r: NodeId)
        ensures
            r == self.spec_to(),
    {
        self.to
    }

    /// The parts of the reply: the client, the session, the number of the
    /// operation and what the application answered.
    pub fn into_inner(self) -> (r: (NodeId, SeqNo, SeqNo, P))
        ensures
            r == (self.spec_to(), self.spec_session(), self.spec_operation_id(), self.spec_payload()),
    {
        (self.to, self.session_id, self.operation_id, self.payload)
    }
}

impl<O> View for UpdateBatch<O> {
    type V = Seq<Update<O>>;

    closed spec fn view(&self) -> Seq<Update<O>> {
        self.inner@
    }
}

impl<P> View for UpdateBatchReplies<P> {
    type V = Seq<UpdateReply<P>>;

    closed spec fn view(&self) -> Seq<UpdateReply<P>> {
        self.inner@
    }
}

impl<O> UpdateBatch<O> {
    /// An empty batch of requests.
    pub fn new() -> (b: UpdateBatch<O>)
        ensures
            b@.len() == 0,
    {
        UpdateBatch { inner: Vec::new() }
    }

    /// An empty batch of requests with room for `capacity` of them.
    pub fn new_with_cap(capacity: usize) -> (b: UpdateBatch<O>)
        ensures
            b@.len() == 0,
    {
        UpdateBatch { inner: Vec::with_capacity(capacity) }
    }

    /// Adds a request at the end of the batch.
    pub fn add(&mut self, from: NodeId, session_id: SeqNo, operation_id: SeqNo, operation: O)
        ensures
            final(self)@.len() == old(self)@.len() + 1,
            final(self)@.drop_last() == old(self)@,
            final(self)@.last().spec_from() == from,
            final(self)@.last().spec_session() == session_id,
            final(self)@.last().spec_operation_id() == operation_id,
            final(self)@.last().spec_operation() == operation,
    {
        self.inner.push(Update { from, session_id, operation_id, operation });
        assert(self.inner@.drop_last() == old(self).inner@);
    }

    /// The requests of the batch, in order.
    pub fn into_inner(self) -> (v: Vec<Update<O>>)
        ensures
            v@ == self@,
    {
        self.inner
    }

    /// The number of requests in the batch.
    pub fn len(&self) -> (n: usize)
        ensures
            n == self@.len(),
    {
        self.inner.len()
    }
}

impl<P> UpdateBatchReplies<P> {
    /// An empty batch of replies with room for `n` of them.
    pub fn with_capacity(n: usize) -> (b: UpdateBatchReplies<P>)
        ensures
            b@.len() == 0,
    {
        UpdateBatchReplies { inner: Vec::with_capacity(n) }
    }

    /// Adds a reply at the end of the batch.
    pub fn add(&mut self, to: NodeId, session_id: SeqNo, operation_id: SeqNo, payload: P)
        ensures
            final(self)@.len() == old(self)@.len() + 1,
            final(self)@.drop_last() == old(self)@,
            final(self)@.last().spec_to() == to,
            final(self)@.last().spec_session() == session_id,
            final(self)@.last().spec_operation_id() == operation_id,
            final(self)@.last().spec_payload() == payload,
    {
        self.inner.push(UpdateReply { to, session_id, operation_id, payload });
        assert(self.inner@.drop_last() == old(self).inner@);
    }

    /// The replies of the batch, in order.
    pub fn into_inner(self) -> (v: Vec<UpdateReply<P>>)
        ensures
            v@ == self@,
    {
        self.inner
    }

    /// The number of replies in the batch.
    pub fn len(&self) -> (n: usize)
        ensures
            n == self@.len(),
    {
        self.inner.len()
    }
}

/// Whether the replies answer the requests one for one: each reply goes to
/// the client of the request at its place, for the same session and
/// operation.
pub open spec fn answers<O, P>(replies: Seq<UpdateReply<P>>, requests: Seq<Update<O>>) -> bool {
    &&& replies.len() == requests.len()
    &&& forall|i: int|
        0 <= i < requests.len() ==> {
            &&& (#[trigger] replies[i]).spec_to() == requests[i].spec_from()
            &&& replies[i].spec_session() == requests[i].spec_session()
            &&& replies[i].spec_operation_id() == requests[i].spec_operation_id()
        }
}

/// The application that the replicas run: it holds the logic that executes
/// the requests of the clients.
pub trait Service: Sized {
    /// The state of the application.
    type State;

    /// A request of a client.
    type Request;

    /// The reply to a request.
    type Reply;

    /// The state that the application starts in.
    fn initial_state(&mut self) -> Result<Self::State, Error>;

    /// Executes a request on the state, and answers it.
    fn update(&mut self, state: &mut Self::State, request: Self::Request) -> Self::Reply;

    /// Executes a batch of requests on the state, in order, and answers
    /// each of them.
    fn update_batch(
        &mut self,
        state: &mut Self::State,
        batch: UpdateBatch<Self::Request>,
        meta: BatchMeta,
    ) -> (replies: UpdateBatchReplies<Self::Reply>)
        ensures
            answers(replies@, batch@),
    {
        let mut reply_batch = UpdateBatchReplies::with_capacity(batch.len());
        let ghost requests = batch@;
        let mut updates = batch.into_inner();
        let mut k: usize = 0;
        let n = updates.len();
        let mut rest: Vec<Update<Self::Request>> = Vec::with_capacity(n);
        while updates.len() > 0
            invariant
                updates@.len() + rest@.len() == n,
                n == requests.len(),
                forall|i: int| 0 <= i < updates@.len() ==> updates@[i] == requests[i],
                forall|i: int| 0 <= i < rest@.len() ==> rest@[i] == requests[n - 1 - i],
            decreases updates@.len(),
        {
            match updates.pop() {
                Some(u) => {
                    rest.push(u);
                },
                None => {},
            }
        }
        while rest.len() > 0
            invariant
                k + rest@.len() == n,
                n == requests.len(),
                forall|i: int| 0 <= i < rest@.len() ==> rest@[i] == requests[n - 1 - i],
                answers(reply_batch@, requests.take(k as int)),
            decreases rest@.len(),
        {
            match rest.pop() {
                Some(update) => {
                    assert(update == requests[k as int]);
                    let (peer_id, sess, opid, req) = update.into_inner();
                    let reply = self.update(state, req);
                    let ghost before = reply_batch@;
                    reply_batch.add(peer_id, sess, opid, reply);
                    proof {
                        let taken = requests.take(k + 1);
                        assert forall|i: int| 0 <= i < taken.len() implies {
                            &&& (#[trigger] reply_batch@[i]).spec_to() == taken[i].spec_from()
                            &&& reply_batch@[i].spec_session() == taken[i].spec_session()
                            &&& reply_batch@[i].spec_operation_id() == taken[i].spec_operation_id()
                        } by {
                            if i < k {
                                assert(reply_batch@[i] == reply_batch@.drop_last()[i]);
                                assert(before[i].spec_to() == requests.take(k as int)[i].spec_from());
                            }
                        }
                    }
                    k += 1;
                },
                None => {},
            }
        }
        assert(requests.take(k as int) == requests);
        reply_batch
    }
}

/// What the executor is asked to do.
pub enum ExecutionRequest<S, O> {
    /// To take over the state of a state transfer and to execute the
    /// requests that were decided after it.
    InstallState(S, Vec<O>),
    /// To execute a batch.
    Update(BatchMeta, UpdateBatch<O>),
    /// To execute a batch and to hand out the state after it, for a
    /// checkpoint.
    UpdateAndGetAppstate(BatchMeta, UpdateBatch<O>),
}

/// What the executor has to deliver after a request.
pub enum ExecutionOutcome<P> {
    /// Nothing: a state was installed.
    Installed,
    /// The replies to a batch, for the clients.
    Replies(UpdateBatchReplies<P>),
    /// The replies to a batch, for the clients, and the state of the
    /// application as it is now, for the replica.
    RepliesAndAppstate(UpdateBatchReplies<P>),
}

/// The executor: the application and its state.
pub struct Executor<S: Service> {
    service: S,
    state: S::State,
}

impl<S: Service> Executor<S> {
    /// The state of the application, in contracts.
    pub closed spec fn spec_state(&self) -> S::State {
        self.state
    }

    /// The application, in contracts.
    pub closed spec fn spec_service(&self) -> S {
        self.service
    }

    /// The executor of an application in its initial state. This fails
    /// where the application has no initial state to offer: the application
    /// alone decides that, and `started` says what is made of its answer.
    pub fn new(service: S) -> (r: Result<Executor<S>, Error>) {
        let mut service = service;
        let initial = service.initial_state();
        Executor::started(service, initial)
    }

    /// The executor of an application that was asked for its initial state
    /// and gave `initial`: the executor holds the application and that
    /// state, or there is none and the error of the application comes back.
    pub fn started(service: S, initial: Result<S::State, Error>) -> (r: Result<Executor<S>, Error>)
        ensures
            r is Ok <==> initial is Ok,
            r matches Ok(e) ==> e.spec_state() == initial->Ok_0 && e.spec_service() == service,
            r matches Err(e) ==> e == initial->Err_0,
    {
        match initial {
            Ok(state) => Ok(Executor { service, state }),
            Err(e) => Err(e),
        }
    }

    /// The state of the application.
    pub fn state(&self) -> (s: &S::State)
        ensures
            *s == self.spec_state(),
    {
        &self.state
    }

    /// Does what is asked. A batch is answered request for request; with
    /// the state asked for, the replies come back marked for a checkpoint.
    pub fn execute(&mut self, request: ExecutionRequest<S::State, S::Request>) -> (out:
        ExecutionOutcome<S::Reply>)
        ensures
            match request {
                ExecutionRequest::InstallState(_, _) => out is Installed,
                ExecutionRequest::Update(_, batch) => out matches ExecutionOutcome::Replies(r)
                    && answers(r@, batch@),
                ExecutionRequest::UpdateAndGetAppstate(_, batch) => out
                    matches ExecutionOutcome::RepliesAndAppstate(r) && answers(r@, batch@),
            },
    {
        match request {
            ExecutionRequest::InstallState(checkpoint, after) => {
                self.state = checkpoint;
                let mut after = after;
                let mut rest: Vec<S::Request> = Vec::with_capacity(after.len());
                while after.len() > 0
                    decreases after@.len(),
                {
                    match after.pop() {
                        Some(r) => {
                            rest.push(r);
                        },
                        None => {},
                    }
                }
                while rest.len() > 0
                    decreases rest@.len(),
                {
                    match rest.pop() {
                        Some(req) => {
                            let _ = self.service.update(&mut self.state, req);
                        },
                        None => {},
                    }
                }
                ExecutionOutcome::Installed
            },
            ExecutionRequest::Update(meta, batch) => {
                let replies = self.service.update_batch(&mut self.state, batch, meta);
                ExecutionOutcome::Replies(replies)
            },
            ExecutionRequest::UpdateAndGetAppstate(meta, batch) => {
                let replies = self.service.update_batch(&mut self.state, batch, meta);
                ExecutionOutcome::RepliesAndAppstate(replies)
            },
        }
    }
}

} // verus!
