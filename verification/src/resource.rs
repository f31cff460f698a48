//! Alerts about system resources.

use crate::config::Config;
use crate::incident::{is_id, Incident, Severity, Source};
use vstd::prelude::*;

verus! {

/// Which resources are at or above their limits.
#[derive(Debug, Clone, Copy, PartialEq, Eq, Structural)]
pub struct Levels {
    pub cpu: bool,
    pub memory: bool,
    pub disk: bool,
}

/// Raises an alert when a resource reaches its limit, and no other until it was below it.
#[derive(Debug, Clone, Copy, PartialEq, Eq, Structural)]
pub struct ResourceAlerts {
    last: Levels,
}

impl ResourceAlerts {
    /// What was read last.
    pub closed spec fn seen(self) -> Levels {
        self.last
    }

    /// Nothing was read yet.
    pub fn new() -> (r: Self)
        ensures
            r.seen() == (Levels { cpu: false, memory: false, disk: false }),
    {
        ResourceAlerts { last: Levels { cpu: false, memory: false, disk: false } }
    }

    /// Takes what was read, and tells which resources to raise an alert about.
    pub fn observe(&mut self, levels: Levels) -> (r: Levels)
        ensures
            r == raised(old(self).seen(), levels),
            final(self).seen() == levels,
    {
        let r = Levels {
            cpu: levels.cpu && !self.last.cpu,
            memory: levels.memory && !self.last.memory,
            disk: levels.disk && !self.last.disk,
        };
        self.last = levels;
        r
    }
}

/// Which resources have reached their limits since they were read before.
pub open spec fn raised(before: Levels, now: Levels) -> Levels {
    Levels {
        cpu: now.cpu && !before.cpu,
        memory: now.memory && !before.memory,
        disk: now.disk && !before.disk,
    }
}

/// A resource that stays at its limit raises no second alert; one that reaches it again after it
/// was below raises one again.
pub proof fn law_alerts_are_raised_once(before: Levels, now: Levels, next: Levels)
    ensures
        raised(before, now).cpu ==> !raised(now, next).cpu,
        raised(before, now).memory ==> !raised(now, next).memory,
        raised(before, now).disk ==> !raised(now, next).disk,
        !now.cpu && next.cpu ==> raised(now, next).cpu,
        !now.memory && next.memory ==> raised(now, next).memory,
        !now.disk && next.disk ==> raised(now, next).disk,
{
}

/// The incident of an alert.
pub fn resource_incident(cfg: &Config, message: String) -> (r: Incident)
    ensures
        r.fresh(r.timestamp),
        r.timestamp.on_calendar(),
        is_id(r.id@),
        r.project == cfg.name,
        r.source matches Source::LogFile(path) && path@ == "system-resources"@,
        r.message == message,
        r.frames@.len() == 0,
        r.raw@.len() == 0,
        r.command == cfg.command,
        r.exit_code is None,
        !r.restarted,
        r.restart_count == 0,
        r.severity == Severity::Medium,
{
    Incident::detected(
        cfg.name.clone(),
        Source::LogFile("system-resources".to_string()),
        message,
        Vec::new(),
        String::new(),
        cfg.command.clone(),
        None,
        false,
        0,
        Severity::Medium,
    )
}

}
