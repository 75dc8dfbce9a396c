//! The message-passing broker: its datagrams, identifiers and decisions.

pub mod enums;
pub mod log;
pub mod common;
pub mod datagrams;
pub mod object_id;
pub mod broker;
pub mod manager;
pub mod objects;
pub mod session;
pub mod dispatch;
pub mod laws;
