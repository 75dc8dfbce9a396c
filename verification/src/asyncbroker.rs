//! The asynchronous broker's settings and logging rule.

pub mod config;
pub mod server_lib;
pub mod topic_v2;
pub mod broker;
pub mod dispatch;
pub mod laws;
