//! Which log messages the broker prints, and how.

use vstd::prelude::*;
use vstd::string::StringSliceAdditionalSpecFns;
use crate::asyncbroker::config::{log_level_rank, Config, LogLevel};
use crate::bytes::extend_bytes;
use crate::asyncbroker::topic_v2::{path_followed, path_result, TopicV2};

verus! {

/// Part of the broker that emits a log message.
#[derive(Copy, Clone, Debug, PartialEq, Eq, Structural)]
pub enum LogSource {
    DatagramsHandler,
    PingSender,
    DataHandler,
    HeartbeatChecker,
    TopicHandler,
    Other,
}

/// Printable name of a level.
pub open spec fn level_text(level: LogLevel) -> Seq<u8> {
    match level {
        LogLevel::All => "All".spec_bytes(),
        LogLevel::Info => "Info".spec_bytes(),
        LogLevel::Warning => "Warning".spec_bytes(),
        LogLevel::Error => "Error".spec_bytes(),
    }
}

/// Prefix that names the source of a message.
pub open spec fn source_prefix(source: LogSource) -> Seq<u8> {
    match source {
        LogSource::DatagramsHandler => "[Server - DatagramHandler] ".spec_bytes(),
        LogSource::PingSender => "[Server - PingSender] ".spec_bytes(),
        LogSource::DataHandler => "[Server - DataHandler] ".spec_bytes(),
        LogSource::HeartbeatChecker => "[Server - HeartbeatChecker] ".spec_bytes(),
        LogSource::TopicHandler => "[Server - TopicHandler] ".spec_bytes(),
        LogSource::Other => "[Server] ".spec_bytes(),
    }
}

/// The line printed for `message` of importance `level` from `source`:
/// none when the level is below the configured one; a message of another
/// part than the broker itself shows its level.
pub open spec fn log_line(level: LogLevel, source: LogSource, message: Seq<u8>, config: Config) -> Option<
    Seq<u8>,
> {
    if log_level_rank(level) < log_level_rank(config.debug_level) {
        None
    } else if source == LogSource::Other {
        Some(source_prefix(source) + message)
    } else {
        Some(source_prefix(source) + level_text(level) + ": ".spec_bytes() + message)
    }
}

fn level_str(level: LogLevel) -> (r: &'static str)
    ensures
        r.spec_bytes() == level_text(level),
{
    match level {
        LogLevel::All => "All",
        LogLevel::Info => "Info",
        LogLevel::Warning => "Warning",
        LogLevel::Error => "Error",
    }
}

fn prefix_str(source: LogSource) -> (r: &'static str)
    ensures
        r.spec_bytes() == source_prefix(source),
{
    match source {
        LogSource::DatagramsHandler => "[Server - DatagramHandler] ",
        LogSource::PingSender => "[Server - PingSender] ",
        LogSource::DataHandler => "[Server - DataHandler] ",
        LogSource::HeartbeatChecker => "[Server - HeartbeatChecker] ",
        LogSource::TopicHandler => "[Server - TopicHandler] ",
        LogSource::Other => "[Server] ",
    }
}

/// The line to print for `message`, as `log_line` says.
pub fn log(log_level: LogLevel, log_source: LogSource, message: &str, config: &Config) -> (r: Option<
    Vec<u8>,
>)
    ensures
        match r {
            Some(line) => log_line(log_level, log_source, message.spec_bytes(), *config) == Some(
                line@,
            ),
            None => log_line(log_level, log_source, message.spec_bytes(), *config) is None,
        },
{
    if log_level < config.debug_level {
        return None;
    }
    let mut line: Vec<u8> = Vec::new();
    extend_bytes(&mut line, prefix_str(log_source).as_bytes());
    match log_source {
        LogSource::Other => {},
        _ => {
            extend_bytes(&mut line, level_str(log_level).as_bytes());
            extend_bytes(&mut line, ": ".as_bytes());
        },
    }
    extend_bytes(&mut line, message.as_bytes());
    proof {
        let e = log_line(log_level, log_source, message.spec_bytes(), *config);
        assert(line@ =~= e->0);
    }
    Some(line)
}

/// Creates the topics of `path` under `root`, as
/// `TopicV2::create_topicsGPT` does, and gives the identifier of the topic
/// the path names.
pub fn create_topics(path: &str, root: &mut TopicV2) -> (r: Result<u64, String>)
    ensures
        match r {
            Ok(id) => path_result(path.spec_bytes()) == Ok::<u64, Seq<char>>(id),
            Err(e) => path_result(path.spec_bytes()) == Err::<u64, Seq<char>>(e@),
        },
        path_followed(*old(root), *final(root), path.spec_bytes()),
{
    TopicV2::create_topicsGPT(path, root)
}

} // verus!
