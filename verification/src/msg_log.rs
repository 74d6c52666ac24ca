//! What a replica keeps of the decision in progress and of the decisions
//! made.

pub mod decided_log;
pub mod deciding_log;
pub mod pending_decision;
pub mod persistent;
