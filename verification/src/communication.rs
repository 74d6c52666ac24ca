//! The rules of the communication layer: wire format, routing, the pipelines
//! of a peer link and the pools that batch client requests.

pub mod channel;
pub mod connections;
pub mod cpu_workers;
pub mod intmap_spec;
pub mod message;
pub mod node;
pub mod peer_handling;
pub mod pipeline;
pub mod serialize;
