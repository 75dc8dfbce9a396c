//! Log levels and sources, and the rule that decides whether a message
//! is printed.

use vstd::prelude::*;
use vstd::string::StringSliceAdditionalSpecFns;
use crate::bytes::extend_bytes;

verus! {

/// Importance of a log message; the order of the variants is the order
/// of importance.
#[derive(Copy, Clone, Debug, PartialEq, Eq, Structural)]
pub enum LogLevel {
    All,
    Info,
    Warning,
    Error,
    Quiet,
}

/// Position of `l` in the order of importance.
pub open spec fn log_level_rank(l: LogLevel) -> int {
    match l {
        LogLevel::All => 0,
        LogLevel::Info => 1,
        LogLevel::Warning => 2,
        LogLevel::Error => 3,
        LogLevel::Quiet => 4,
    }
}

fn rank(l: &LogLevel) -> (r: u8)
    ensures
        r == log_level_rank(*l),
{
    match l {
        LogLevel::All => 0,
        LogLevel::Info => 1,
        LogLevel::Warning => 2,
        LogLevel::Error => 3,
        LogLevel::Quiet => 4,
    }
}

/// Comparison of two levels by importance.
pub open spec fn log_level_order(a: LogLevel, b: LogLevel) -> Option<core::cmp::Ordering> {
    if log_level_rank(a) < log_level_rank(b) {
        Some(core::cmp::Ordering::Less)
    } else if log_level_rank(a) == log_level_rank(b) {
        Some(core::cmp::Ordering::Equal)
    } else {
        Some(core::cmp::Ordering::Greater)
    }
}

impl PartialOrd for LogLevel {
    fn partial_cmp(&self, other: &LogLevel) -> (r: Option<core::cmp::Ordering>) {
        let a = rank(self);
        let b = rank(other);
        if a < b {
            Some(core::cmp::Ordering::Less)
        } else if a == b {
            Some(core::cmp::Ordering::Equal)
        } else {
            Some(core::cmp::Ordering::Greater)
        }
    }
}

impl vstd::std_specs::cmp::PartialOrdSpecImpl for LogLevel {
    open spec fn obeys_partial_cmp_spec() -> bool {
        true
    }

    open spec fn partial_cmp_spec(&self, other: &LogLevel) -> Option<core::cmp::Ordering> {
        log_level_order(*self, *other)
    }
}

/// Printable name of a level.
pub open spec fn log_level_name(l: LogLevel) -> Seq<char> {
    match l {
        LogLevel::All => "All"@,
        LogLevel::Info => "Info"@,
        LogLevel::Warning => "Warning"@,
        LogLevel::Error => "Error"@,
        LogLevel::Quiet => "Quiet"@,
    }
}

/// Returns the printable name of `loglevel`.
pub fn display_loglevel<'a>(loglevel: LogLevel) -> (r: &'a str)
    ensures
        r@ == log_level_name(loglevel),
{
    match loglevel {
        LogLevel::All => "All",
        LogLevel::Info => "Info",
        LogLevel::Warning => "Warning",
        LogLevel::Error => "Error",
        LogLevel::Quiet => "Quiet",
    }
}

/// Part of the broker that emits a log message.
#[derive(Copy, Clone, Debug, PartialEq, Eq, Structural)]
pub enum LogSource {
    DatagramsHandler,
    PingSender,
    DataHandler,
    HeartbeatChecker,
    TopicHandler,
    ClientManager,
    ObjectHandler,
    Other,
}

/// What the settings of the broker say of logging: the lowest level
/// printed, and which parts of the broker may print.
pub struct LogFilter {
    pub debug_level: LogLevel,
    pub debug_datagram_handler: bool,
    pub debug_ping_sender: bool,
    pub debug_data_handler: bool,
    pub debug_heartbeat_checker: bool,
    pub debug_topic_handler: bool,
}

/// Prefix that names the source of a message.
pub open spec fn source_prefix(source: LogSource) -> Seq<u8> {
    match source {
        LogSource::DatagramsHandler => "[Server - DatagramHandler] ".spec_bytes(),
        LogSource::PingSender => "[Server - PingSender] ".spec_bytes(),
        LogSource::DataHandler => "[Server - DataHandler] ".spec_bytes(),
        LogSource::HeartbeatChecker => "[Server - HeartbeatChecker] ".spec_bytes(),
        LogSource::TopicHandler => "[Server - TopicHandler] ".spec_bytes(),
        LogSource::ClientManager => "[Server - ClientManger] ".spec_bytes(),
        LogSource::ObjectHandler => "[Server - ObjectHandler] ".spec_bytes(),
        LogSource::Other => "[Server] ".spec_bytes(),
    }
}

/// The part of the broker may print: each part has its switch in the
/// settings, the managers of clients and of objects share the one of the
/// topic handler, and the broker itself always may.
pub open spec fn source_enabled(source: LogSource, filter: LogFilter) -> bool {
    match source {
        LogSource::DatagramsHandler => filter.debug_datagram_handler,
        LogSource::PingSender => filter.debug_ping_sender,
        LogSource::DataHandler => filter.debug_data_handler,
        LogSource::HeartbeatChecker => filter.debug_heartbeat_checker,
        LogSource::TopicHandler => filter.debug_topic_handler,
        LogSource::ClientManager => filter.debug_topic_handler,
        LogSource::ObjectHandler => filter.debug_topic_handler,
        LogSource::Other => true,
    }
}

/// The line printed for `message` of importance `level` from `source`:
/// none when the level is below the configured one or the source may not
/// print; a message of another part than the broker itself shows its
/// level.
pub open spec fn log_line(level: LogLevel, source: LogSource, message: Seq<u8>, filter: LogFilter) -> Option<
    Seq<u8>,
> {
    if log_level_rank(level) < log_level_rank(filter.debug_level) || !source_enabled(source, filter) {
        None
    } else if source == LogSource::Other {
        Some(source_prefix(source) + message)
    } else {
        Some(source_prefix(source) + log_level_name(level).map_values(|c: char| c as u8) + ": ".spec_bytes() + message)
    }
}

fn prefix_str(source: LogSource) -> (r: &'static str)
    ensures
        r.spec_bytes() == source_prefix(source),
{
    match source {
        LogSource::DatagramsHandler => "[Server - DatagramHandler] ",
        LogSource::PingSender => "[Server - PingSender] ",
        LogSource::DataHandler => "[Server - DataHandler] ",
        LogSource::HeartbeatChecker => "[Server - HeartbeatChecker] ",
        LogSource::TopicHandler => "[Server - TopicHandler] ",
        LogSource::ClientManager => "[Server - ClientManger] ",
        LogSource::ObjectHandler => "[Server - ObjectHandler] ",
        LogSource::Other => "[Server] ",
    }
}

/// The line to print for `message`, as `log_line` says.
pub fn log(log_level: LogLevel, log_source: LogSource, message: &str, filter: &LogFilter) -> (r:
    Option<Vec<u8>>)
    ensures
        match r {
            Some(line) => log_line(log_level, log_source, message.spec_bytes(), *filter) == Some(
                line@,
            ),
            None => log_line(log_level, log_source, message.spec_bytes(), *filter) is None,
        },
{
    if log_level < filter.debug_level {
        return None;
    }
    let enabled = match log_source {
        LogSource::DatagramsHandler => filter.debug_datagram_handler,
        LogSource::PingSender => filter.debug_ping_sender,
        LogSource::DataHandler => filter.debug_data_handler,
        LogSource::HeartbeatChecker => filter.debug_heartbeat_checker,
        LogSource::TopicHandler => filter.debug_topic_handler,
        LogSource::ClientManager => filter.debug_topic_handler,
        LogSource::ObjectHandler => filter.debug_topic_handler,
        LogSource::Other => true,
    };
    if !enabled {
        return None;
    }
    let mut line: Vec<u8> = Vec::new();
    extend_bytes(&mut line, prefix_str(log_source).as_bytes());
    match log_source {
        LogSource::Other => {},
        _ => {
            let name = display_loglevel(log_level);
            proof {
                vstd::string::is_ascii_spec_bytes(name);
                reveal_strlit("All");
                reveal_strlit("Info");
                reveal_strlit("Warning");
                reveal_strlit("Error");
                reveal_strlit("Quiet");
            }
            extend_bytes(&mut line, name.as_bytes());
            extend_bytes(&mut line, ": ".as_bytes());
        },
    }
    extend_bytes(&mut line, message.as_bytes());
    proof {
        let e = log_line(log_level, log_source, message.spec_bytes(), *filter);
        assert(line@ =~= e->0);
    }
    Some(line)
}

} // verus!
