//! The two pipelines of a peer link: what the receiving side reads next and
//! what it makes of it, and when the sending side gives up.

use crate::communication::message::{header_bytes, Header, CURRENT_VERSION, HEADER_LENGTH};
use crate::node_id::NodeId;
use vstd::prelude::*;

verus! {

/// Why a link was closed.
#[derive(Copy, Clone, Debug, PartialEq, Eq, Structural)]
pub enum CloseReason {
    /// A read failed, or did not bring the bytes that were asked for: the
    /// link will be opened again.
    Io,
    /// A header or a payload was malformed, too long or meant for another
    /// node: the peer is likely malicious.
    Malformed,
}

/// What the receiving pipeline waits for.
#[derive(Copy, Clone)]
pub enum RecvState {
    /// The header of the next message.
    AwaitHeader,
    /// The payload that this header announced.
    AwaitPayload(Header),
    /// Nothing: the link is closed, for this reason.
    Closed(CloseReason),
}

/// What came of a read.
pub enum RecvEvent<'a> {
    /// The bytes that were asked for.
    Bytes(&'a [u8]),
    /// The read failed.
    ReadError,
}

/// What the receiving pipeline does next.
pub enum RecvAction {
    /// It reads exactly so many bytes.
    Read(usize),
    /// It hands a message on to be decoded, and reads the next header.
    Deliver(Header, Vec<u8>),
    /// It closes the link and marks the peer as disconnected.
    Close,
}

/// The receiving pipeline of the link to one peer.
pub struct RecvPipeline {
    my_id: NodeId,
    max_payload: usize,
    state: RecvState,
}

/// What a receiving pipeline holds.
pub struct RecvModel {
    /// The id of the node.
    pub my_id: NodeId,
    /// The longest payload that the node takes.
    pub max_payload: usize,
    /// What the pipeline waits for.
    pub state: RecvState,
}

/// Whether a header is taken: it has the current version, it is meant for
/// this node, and it announces a payload that is not too long.
pub open spec fn header_taken(m: RecvModel, h: Header) -> bool {
    &&& h.version == CURRENT_VERSION
    &&& h.to == m.my_id.0
    &&& h.length <= m.max_payload
}

impl View for RecvPipeline {
    type V = RecvModel;

    closed spec fn view(&self) -> RecvModel {
        RecvModel { my_id: self.my_id, max_payload: self.max_payload, state: self.state }
    }
}

/// How a read changes the state of the pipeline, and what the pipeline does
/// next.
///
/// A read that fails closes the link, and so do bytes that are not as many
/// as were asked for. The bytes of a header that is taken are followed by
/// the read of its payload, or, where it announces none, by the delivery of
/// the message; a header that is not taken closes the link as malformed.
/// The bytes of a payload are delivered with their header. A closed link
/// stays closed, for the reason for which it was closed.
pub open spec fn step_recv(pre: RecvModel, post: RecvModel, bytes: Option<Seq<u8>>, action: RecvAction) -> bool {
    let failed = post == (RecvModel { state: RecvState::Closed(CloseReason::Io), ..pre }) && action
        is Close;
    let refused = post == (RecvModel { state: RecvState::Closed(CloseReason::Malformed), ..pre })
        && action is Close;
    match (pre.state, bytes) {
        (RecvState::Closed(_), _) => post == pre && action is Close,
        (_, None) => failed,
        (RecvState::AwaitHeader, Some(b)) => {
            if b.len() != HEADER_LENGTH {
                failed
            } else {
                exists|h: Header| #[trigger]
                    header_bytes(h) == b && (if !header_taken(pre, h) {
                        refused
                    } else if h.length == 0 {
                        &&& post == (RecvModel { state: RecvState::AwaitHeader, ..pre })
                        &&& action matches RecvAction::Deliver(dh, payload)
                        &&& dh == h
                        &&& payload@.len() == 0
                    } else {
                        &&& post == (RecvModel { state: RecvState::AwaitPayload(h), ..pre })
                        &&& action matches RecvAction::Read(n)
                        &&& n == h.length
                    })
            }
        },
        (RecvState::AwaitPayload(h), Some(b)) => {
            if b.len() != h.length {
                failed
            } else {
                &&& post == (RecvModel { state: RecvState::AwaitHeader, ..pre })
                &&& action matches RecvAction::Deliver(dh, payload)
                &&& dh == h
                &&& payload@ == b
            }
        },
    }
}

impl RecvPipeline {
    /// The pipeline of a link that was just accepted, with the read that
    /// starts it: that of a header.
    pub fn new(my_id: NodeId, max_payload: usize) -> (r: (RecvPipeline, RecvAction))
        ensures
            r.0@ == (RecvModel { my_id, max_payload, state: RecvState::AwaitHeader }),
            r.1 matches RecvAction::Read(n) && n == HEADER_LENGTH,
    {
        (
            RecvPipeline { my_id, max_payload, state: RecvState::AwaitHeader },
            RecvAction::Read(HEADER_LENGTH),
        )
    }

    /// Whether the link is closed.
    pub fn is_closed(&self) -> (r: bool)
        ensures
            r == (self@.state is Closed),
    {
        match self.state {
            RecvState::Closed(_) => true,
            _ => false,
        }
    }

    /// Why the link was closed, if it is.
    pub fn close_reason(&self) -> (r: Option<CloseReason>)
        ensures
            r == (match self@.state {
                RecvState::Closed(reason) => Some(reason),
                _ => None,
            }),
    {
        match self.state {
            RecvState::Closed(reason) => Some(reason),
            _ => None,
        }
    }

    /// Closes the link as malformed: a payload could not be decoded. A link
    /// that is closed already stays as it is.
    pub fn close(&mut self) -> (a: RecvAction)
        ensures
            final(self)@ == (if old(self)@.state is Closed {
                old(self)@
            } else {
                RecvModel { state: RecvState::Closed(CloseReason::Malformed), ..old(self)@ }
            }),
            a is Close,
    {
        match self.state {
            RecvState::Closed(_) => {},
            _ => {
                self.state = RecvState::Closed(CloseReason::Malformed);
            },
        }
        RecvAction::Close
    }

    /// Takes what came of the last read, and says what to do next.
    pub fn on_event(&mut self, event: RecvEvent<'_>) -> (a: RecvAction)
        ensures
            step_recv(
                old(self)@,
                final(self)@,
                match event {
                    RecvEvent::Bytes(b) => Some(b@),
                    RecvEvent::ReadError => None,
                },
                a,
            ),
    {
        match self.state {
            RecvState::Closed(_) => {
                return RecvAction::Close;
            },
            _ => {},
        }
        let bytes = match event {
            RecvEvent::ReadError => {
                self.state = RecvState::Closed(CloseReason::Io);
                return RecvAction::Close;
            },
            RecvEvent::Bytes(b) => b,
        };
        match self.state {
            RecvState::Closed(_) => RecvAction::Close,
            RecvState::AwaitHeader => {
                if bytes.len() != HEADER_LENGTH {
                    self.state = RecvState::Closed(CloseReason::Io);
                    return RecvAction::Close;
                }
                let header = match Header::deserialize_from(bytes) {
                    Ok(h) => h,
                    Err(_) => {
                        self.state = RecvState::Closed(CloseReason::Io);
                        return RecvAction::Close;
                    },
                };
                assert(bytes@.take(HEADER_LENGTH as int) == bytes@);
                assert(header_bytes(header) == bytes@);
                if header.version != CURRENT_VERSION || header.to != self.my_id.0
                    || header.payload_length() > self.max_payload {
                    self.state = RecvState::Closed(CloseReason::Malformed);
                    return RecvAction::Close;
                }
                if header.length == 0 {
                    RecvAction::Deliver(header, Vec::new())
                } else {
                    self.state = RecvState::AwaitPayload(header);
                    RecvAction::Read(header.payload_length())
                }
            },
            RecvState::AwaitPayload(header) => {
                if bytes.len() != header.payload_length() {
                    self.state = RecvState::Closed(CloseReason::Io);
                    return RecvAction::Close;
                }
                let mut payload: Vec<u8> = Vec::with_capacity(bytes.len());
                crate::communication::message::extend(&mut payload, bytes);
                self.state = RecvState::AwaitHeader;
                RecvAction::Deliver(header, payload)
            },
        }
    }
}

/// What the sending pipeline does after a write.
#[derive(Copy, Clone, Debug, PartialEq, Eq, Structural)]
pub enum SendAction {
    /// It writes the next message of the queue.
    Next,
    /// It ends, and the link is marked as disconnected.
    Close,
}

/// What the sending pipeline does after a write, or after it found its queue
/// closed: it goes on as long as the queue is open and the writes succeed.
pub fn after_write(queue_open: bool, write_ok: bool) -> (a: SendAction)
    ensures
        a == (if queue_open && write_ok {
            SendAction::Next
        } else {
            SendAction::Close
        }),
{
    if queue_open && write_ok {
        SendAction::Next
    } else {
        SendAction::Close
    }
}

} // verus!
