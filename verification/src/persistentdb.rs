//! The key value store behind the persistent log.

pub mod disabled;
