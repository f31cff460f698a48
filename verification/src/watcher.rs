//! Errors in log files.

use crate::config::Config;
use crate::incident::{is_id, Incident, Severity, Source};
use crate::matcher::ErrorEvent;
use crate::text::{strip_end, trim_end_of};
use vstd::prelude::*;

verus! {

/// How long to wait before a log file that could not be opened is tried again.
pub const REOPEN_MS: u64 = 1000;

/// How long to wait at the end of a log file for more.
pub const IDLE_MS: u64 = 500;

/// A line of a log file without what ends it.
pub fn log_line(read: &str) -> (r: String)
    ensures
        r@ == strip_end(read@, |c: char| c == '\n' || c == '\r'),
{
    trim_end_of(read, '\n', '\r')
}

/// The incident of an error that was found in the log file `path`.
pub fn log_incident(cfg: &Config, path: &str, event: ErrorEvent) -> (r: Incident)
    ensures
        r.fresh(r.timestamp),
        r.timestamp.on_calendar(),
        is_id(r.id@),
        r.project == cfg.name,
        r.source matches Source::LogFile(p) && p@ == path@,
        r.message == event.message,
        r.frames == event.frames,
        r.raw == event.raw,
        r.command == cfg.command,
        r.exit_code is None,
        !r.restarted,
        r.restart_count == 0,
        r.severity == Severity::High,
{
    Incident::detected(
        cfg.name.clone(),
        Source::LogFile(path.to_string()),
        event.message,
        event.frames,
        event.raw,
        cfg.command.clone(),
        None,
        false,
        0,
        Severity::High,
    )
}

}
