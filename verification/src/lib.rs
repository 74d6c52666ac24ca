//! The core of a Byzantine fault tolerant state machine replication engine of
//! the PBFT family: the ordering protocol, the view change protocol and the
//! rules of the communication layer that carries them.

pub mod communication;
pub mod consensus;
pub mod crypto;
pub mod error;
pub mod executable;
pub mod msg_log;
pub mod observer;
pub mod node_id;
pub mod order_protocol;
pub mod ordering;
pub mod persistentdb;
pub mod sync;
pub mod timeouts;
pub mod view;
