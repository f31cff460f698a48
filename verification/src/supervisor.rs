//! Supervision of the monitored process: what its end means, and when it is started again.

use crate::config::Config;
use crate::incident::{is_id, Incident, Severity, Source};
use crate::matcher::ErrorEvent;
use crate::text::{signed_decimal, signed_decimal_of};
use vstd::prelude::*;

verus! {

/// How the monitored process has ended.
#[derive(Debug, Clone, Copy, PartialEq, Eq, Structural)]
pub struct ExitInfo {
    pub success: bool,
    /// `None` where a signal ended it.
    pub code: Option<i32>,
    pub signal: Option<i32>,
}

/// How an exit code is shown.
pub open spec fn code_text(code: Option<i32>) -> Seq<char> {
    match code {
        Some(n) => "Some("@ + signed_decimal(n as int) + ")"@,
        None => "None"@,
    }
}

/// The name of a signal, after the number.
pub open spec fn signal_name(signal: i32) -> Seq<char> {
    if signal == 9 {
        " (SIGKILL)"@
    } else if signal == 11 {
        " (SIGSEGV)"@
    } else if signal == 15 {
        " (SIGTERM)"@
    } else if signal == 6 {
        " (SIGABRT)"@
    } else {
        " (signal "@ + signed_decimal(signal as int) + ")"@
    }
}

/// The message about a process that has ended abnormally.
pub open spec fn exit_text(code: Option<i32>, signal: Option<i32>) -> Seq<char> {
    "程序異常結束,exit code = "@ + code_text(code) + (match signal {
        Some(n) => ",killed by signal "@ + signed_decimal(n as int) + signal_name(n),
        None => Seq::empty(),
    })
}

/// How an exit code is shown.
pub fn shown_code(code: Option<i32>) -> (r: String)
    ensures
        r@ == code_text(code),
{
    match code {
        Some(n) => {
            let mut r = "Some(".to_string();
            let digits = signed_decimal_of(n as i64);
            r.append(digits.as_str());
            r.append(")");
            r
        },
        None => "None".to_string(),
    }
}

/// The name of a signal, after the number.
fn shown_signal(signal: i32) -> (r: String)
    ensures
        r@ == signal_name(signal),
{
    if signal == 9 {
        " (SIGKILL)".to_string()
    } else if signal == 11 {
        " (SIGSEGV)".to_string()
    } else if signal == 15 {
        " (SIGTERM)".to_string()
    } else if signal == 6 {
        " (SIGABRT)".to_string()
    } else {
        let mut r = " (signal ".to_string();
        let digits = signed_decimal_of(signal as i64);
        r.append(digits.as_str());
        r.append(")");
        r
    }
}

/// The message about a process that has ended abnormally.
pub fn exit_message(code: Option<i32>, signal: Option<i32>) -> (r: String)
    ensures
        r@ == exit_text(code, signal),
{
    let mut r = "程序異常結束,exit code = ".to_string();
    let code = shown_code(code);
    r.append(code.as_str());
    match signal {
        Some(n) => {
            let mut suffix = ",killed by signal ".to_string();
            let digits = signed_decimal_of(n as i64);
            suffix.append(digits.as_str());
            let name = shown_signal(n);
            suffix.append(name.as_str());
            r.append(suffix.as_str());
        },
        None => {
            assert(r@ + Seq::<char>::empty() =~= r@);
        },
    }
    r
}

/// Whether a process that has ended abnormally, after `restart_count` restarts, is started again.
pub open spec fn restarts(cfg: Config, restart_count: u32) -> bool {
    cfg.auto_restart && restart_count < cfg.max_restarts
}

/// The incident of an error in the output of the process.
pub fn event_incident(cfg: &Config, event: ErrorEvent, restart_count: u32) -> (r: Incident)
    ensures
        r.fresh(r.timestamp),
        r.timestamp.on_calendar(),
        is_id(r.id@),
        r.project == cfg.name,
        r.source == Source::Process,
        r.message == event.message,
        r.frames == event.frames,
        r.raw == event.raw,
        r.command == cfg.command,
        r.exit_code is None,
        !r.restarted,
        r.restart_count == restart_count,
        r.severity == Severity::High,
{
    Incident::detected(
        cfg.name.clone(),
        Source::Process,
        event.message,
        event.frames,
        event.raw,
        cfg.command.clone(),
        None,
        false,
        restart_count,
        Severity::High,
    )
}

/// What follows from the end of the process.
pub struct ExitOutcome {
    /// The incident of an abnormal end.
    pub incident: Option<Incident>,
    /// Whether the process is started again.
    pub restart: bool,
}

/// Judges the end of the process. Whether it ended well is told by `success` alone: a process
/// that a signal has ended has no exit code.
pub fn handle_exit(status: ExitInfo, cfg: &Config, restart_count: u32) -> (r: ExitOutcome)
    ensures
        r.restart == (!status.success && restarts(*cfg, restart_count)),
        r.incident is None <==> status.success,
        r.incident matches Some(inc) ==> {
            &&& inc.fresh(inc.timestamp)
            &&& inc.timestamp.on_calendar()
            &&& is_id(inc.id@)
            &&& inc.project == cfg.name
            &&& inc.source == Source::Process
            &&& inc.message@ == exit_text(status.code, status.signal)
            &&& inc.frames@.len() == 0
            &&& inc.raw@ == inc.message@
            &&& inc.command == cfg.command
            &&& inc.exit_code == status.code
            &&& inc.restarted == r.restart
            &&& inc.restart_count == restart_count
            &&& inc.severity == Severity::Critical
        },
{
    if status.success {
        return ExitOutcome { incident: None, restart: false };
    }
    let message = exit_message(status.code, status.signal);
    let restart = cfg.auto_restart && restart_count < cfg.max_restarts;
    let incident = Incident::detected(
        cfg.name.clone(),
        Source::Process,
        message.clone(),
        Vec::new(),
        message,
        cfg.command.clone(),
        status.code,
        restart,
        restart_count,
        Severity::Critical,
    );
    ExitOutcome { incident: Some(incident), restart }
}

/// How long to wait for the next error in the output before the process is looked at.
pub const WATCH_POLL_MS: u64 = 200;

/// Where the supervision stands.
#[derive(Debug, Clone, Copy, PartialEq, Eq, Structural)]
pub enum WatchPhase {
    /// The process is to be started.
    Starting,
    /// The process runs, and its output is read.
    Running,
    /// The process has ended: what is left of its output is read, and its end is judged.
    Judging,
    /// The process is to be ended, for the program ends.
    Stopping,
    /// Time passes before the process is started again.
    Pausing,
    /// The supervision has ended.
    Ended,
}

/// What the supervision has come to know.
#[derive(Debug, Clone, Copy, PartialEq, Eq, Structural)]
pub enum WatchInput {
    /// The process was started.
    Started,
    /// An error was found in its output, and recorded.
    Event,
    /// No error was found in time, and the process runs.
    Quiet,
    /// No error was found in time, and the process has ended.
    Exited,
    /// Its output has ended.
    OutputClosed,
    /// The end was judged: whether the process is to be started again.
    Judged { restart: bool },
    /// The program is to end.
    StopRequested,
    /// The process was ended, or the pause is over.
    Done,
}

/// The supervision of one process: where it stands, and how often the process was started again.
#[derive(Debug, Clone, Copy, PartialEq, Eq, Structural)]
pub struct Watch {
    pub phase: WatchPhase,
    pub restart_count: u32,
}

impl Watch {
    /// The next state.
    pub open spec fn after(self, input: WatchInput) -> Watch {
        match (self.phase, input) {
            (WatchPhase::Starting, WatchInput::Started) => Watch {
                phase: WatchPhase::Running,
                ..self
            },
            (WatchPhase::Running, WatchInput::Exited) | (
                WatchPhase::Running,
                WatchInput::OutputClosed,
            ) => Watch { phase: WatchPhase::Judging, ..self },
            (WatchPhase::Running, WatchInput::StopRequested) => Watch {
                phase: WatchPhase::Stopping,
                ..self
            },
            (WatchPhase::Judging, WatchInput::Judged { restart }) => if restart {
                Watch {
                    phase: WatchPhase::Pausing,
                    restart_count: (self.restart_count + 1) as u32,
                }
            } else {
                Watch { phase: WatchPhase::Ended, ..self }
            },
            (WatchPhase::Pausing, WatchInput::Done) => Watch { phase: WatchPhase::Starting, ..self },
            (WatchPhase::Pausing, WatchInput::StopRequested) | (
                WatchPhase::Starting,
                WatchInput::StopRequested,
            ) => Watch { phase: WatchPhase::Ended, ..self },
            (WatchPhase::Stopping, WatchInput::Done) => Watch { phase: WatchPhase::Ended, ..self },
            _ => self,
        }
    }

    /// Whether `input` can come: a restart comes only where one is allowed.
    pub open spec fn admits(self, cfg: Config, input: WatchInput) -> bool {
        input matches WatchInput::Judged { restart } ==> restart ==> restarts(
            cfg,
            self.restart_count,
        )
    }

    /// The process was not started yet.
    pub fn new() -> (r: Self)
        ensures
            r == (Watch { phase: WatchPhase::Starting, restart_count: 0 }),
    {
        Watch { phase: WatchPhase::Starting, restart_count: 0 }
    }

    /// The next state.
    pub fn next(self, input: WatchInput) -> (r: Watch)
        requires
            input == (WatchInput::Judged { restart: true }) ==> self.restart_count < u32::MAX,
        ensures
            r == self.after(input),
    {
        match (self.phase, input) {
            (WatchPhase::Starting, WatchInput::Started) => Watch {
                phase: WatchPhase::Running,
                restart_count: self.restart_count,
            },
            (WatchPhase::Running, WatchInput::Exited) | (
                WatchPhase::Running,
                WatchInput::OutputClosed,
            ) => Watch { phase: WatchPhase::Judging, restart_count: self.restart_count },
            (WatchPhase::Running, WatchInput::StopRequested) => Watch {
                phase: WatchPhase::Stopping,
                restart_count: self.restart_count,
            },
            (WatchPhase::Judging, WatchInput::Judged { restart }) => if restart {
                Watch { phase: WatchPhase::Pausing, restart_count: self.restart_count + 1 }
            } else {
                Watch { phase: WatchPhase::Ended, restart_count: self.restart_count }
            },
            (WatchPhase::Pausing, WatchInput::Done) => Watch {
                phase: WatchPhase::Starting,
                restart_count: self.restart_count,
            },
            (WatchPhase::Pausing, WatchInput::StopRequested) | (
                WatchPhase::Starting,
                WatchInput::StopRequested,
            ) => Watch { phase: WatchPhase::Ended, restart_count: self.restart_count },
            (WatchPhase::Stopping, WatchInput::Done) => Watch {
                phase: WatchPhase::Ended,
                restart_count: self.restart_count,
            },
            _ => self,
        }
    }
}

/// The state after `inputs`.
pub open spec fn watched(w: Watch, inputs: Seq<WatchInput>) -> Watch
    decreases inputs.len(),
{
    if inputs.len() == 0 {
        w
    } else {
        watched(w, inputs.drop_last()).after(inputs.last())
    }
}

/// Whether each of `inputs` can come.
pub open spec fn admitted(w: Watch, cfg: Config, inputs: Seq<WatchInput>) -> bool {
    forall|i: int|
        0 <= i < inputs.len() ==> watched(w, inputs.take(i)).admits(cfg, #[trigger] inputs[i])
}

/// Whatever happens, the process is started again no more often than the configuration allows, and
/// never where it says not to.
pub proof fn law_restarts_are_limited(cfg: Config, inputs: Seq<WatchInput>)
    requires
        admitted(Watch { phase: WatchPhase::Starting, restart_count: 0 }, cfg, inputs),
    ensures
        watched(
            Watch { phase: WatchPhase::Starting, restart_count: 0 },
            inputs,
        ).restart_count <= if cfg.auto_restart {
            cfg.max_restarts
        } else {
            0
        },
    decreases inputs.len(),
{
    let w = Watch { phase: WatchPhase::Starting, restart_count: 0 };
    if inputs.len() > 0 {
        let rest = inputs.drop_last();
        assert forall|i: int| 0 <= i < rest.len() implies watched(w, rest.take(i)).admits(
            cfg,
            #[trigger] rest[i],
        ) by {
            assert(inputs.take(i) =~= rest.take(i));
            assert(inputs[i] == rest[i]);
        }
        law_restarts_are_limited(cfg, rest);
        assert(inputs.take(inputs.len() - 1) =~= rest);
        assert(watched(w, rest).admits(cfg, inputs[inputs.len() - 1]));
    }
}

/// Once the program is to end while the process runs, the process is ended and not started again.
pub proof fn law_stop_is_final(w: Watch, inputs: Seq<WatchInput>)
    requires
        w.phase == WatchPhase::Stopping || w.phase == WatchPhase::Ended,
    ensures
        watched(w, inputs).phase == WatchPhase::Stopping || watched(w, inputs).phase
            == WatchPhase::Ended,
        watched(w, inputs).restart_count == w.restart_count,
    decreases inputs.len(),
{
    if inputs.len() > 0 {
        law_stop_is_final(w, inputs.drop_last());
    }
}

}
