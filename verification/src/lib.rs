//! Verified core of the RekT publish/subscribe broker: datagram
//! encoding and decoding, identifier rules and the broker's decisions.

pub mod bytes;
pub mod collections;
pub mod hash;
pub mod messages;
pub mod legacy;
pub mod proto;
pub mod asyncbroker;
