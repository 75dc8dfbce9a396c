//! The prototype of the protocol: its datagrams, and topic trees whose
//! nodes are found by identifier.

pub mod enums;
pub mod datagrams;
pub mod topic;
pub mod server;
pub mod client;
pub mod cli;
