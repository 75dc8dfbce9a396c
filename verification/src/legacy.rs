//! The first version of the protocol: its own codes, a topic request that
//! carries a path, data without sequence numbers.

pub mod enums;
pub mod datagrams;
