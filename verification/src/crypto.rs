//! Digests and signatures.

pub mod hash;
pub mod signature;
