//! Key schedule and ratchet-tree synchronisation core of a group-messaging
//! protocol, with its conformance-vector checker.

pub mod crypto;
pub mod codec;
pub mod schedule;
pub mod errors;
pub mod kat;
pub mod treesync;
pub mod hex;
