//! The errors that the library reports.

use vstd::prelude::*;

verus! {

/// The part of the system in which an operation failed.
#[derive(Copy, Clone, Debug, PartialEq, Eq, Structural)]
pub enum ErrorKind {
    /// The configuration or the routing of the communication layer.
    Communication,
    /// A message, or a part of it, could not be decoded.
    CommunicationSerialize,
    /// A channel was full or closed.
    CommunicationChannel,
    /// A peer has no connection.
    CommunicationPeerNotFound,
    /// A digest was malformed.
    CryptoHash,
    /// A key or a signature was malformed or did not verify.
    CryptoSignatureRingEd25519,
    /// The log of the decision in progress refused a batch.
    MsgLogDecidingLog,
    /// The execution layer could not take a request.
    Executable,
}

/// An error together with a short description of its cause.
#[derive(Clone, Debug)]
pub struct Error {
    kind: ErrorKind,
    msg: &'static str,
}

impl Error {
    /// An error of the given kind without a description.
    pub fn simple(kind: ErrorKind) -> (e: Error)
        ensures
            e.kind() == kind,
            e.description()@ == ""@,
    {
        Error { kind, msg: "" }
    }

    /// An error of the given kind with a description.
    pub fn simple_with_msg(kind: ErrorKind, msg: &'static str) -> (e: Error)
        ensures
            e.kind() == kind,
            e.description() == msg,
    {
        Error { kind, msg }
    }

    /// The kind of this error, in contracts.
    pub closed spec fn kind(&self) -> ErrorKind {
        self.kind
    }

    /// The kind of this error.
    #[verifier::when_used_as_spec(kind)]
    pub fn get_kind(&self) -> (k: ErrorKind)
        ensures
            k == self.kind(),
    {
        self.kind
    }

    /// The description of this error, in contracts.
    pub closed spec fn description(&self) -> &'static str {
        self.msg
    }

    /// The description given when the error was made.
    pub fn message(&self) -> (m: &'static str)
        ensures
            m == self.description(),
    {
        self.msg
    }
}

} // verus!
