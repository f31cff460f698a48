//! What the sources of incidents promise: supervision, resources and waiting.

use crate::config::Config;
use crate::resource::{raised, Levels};
use crate::shutdown::nap;
use crate::supervisor::{
    code_text, exit_text, restarts, signal_name, watched, Watch, WatchInput, WatchPhase,
    WATCH_POLL_MS,
};
use crate::text::signed_decimal;
use crate::watcher::{IDLE_MS, REOPEN_MS};
use vstd::prelude::*;

verus! {

/// A process is started again exactly where the configuration says so and it was started again
/// fewer times than the limit.
pub proof fn law_restart_is_wanted_and_allowed(cfg: Config, restart_count: u32)
    ensures
        restarts(cfg, restart_count) ==> cfg.auto_restart && restart_count < cfg.max_restarts,
        cfg.auto_restart && restart_count < cfg.max_restarts ==> restarts(cfg, restart_count),
{
}

/// Signals are named by their usual names, others by their number.
pub proof fn law_signals_are_named(signal: i32)
    ensures
        signal_name(9) == " (SIGKILL)"@,
        signal_name(11) == " (SIGSEGV)"@,
        signal_name(15) == " (SIGTERM)"@,
        signal_name(6) == " (SIGABRT)"@,
        signal != 9 && signal != 11 && signal != 15 && signal != 6 ==> signal_name(signal)
            == " (signal "@ + signed_decimal(signal as int) + ")"@,
{
}

/// The message about an abnormal end tells the exit code, or that there is none, and the signal by
/// number and name, if one has ended the process.
pub proof fn law_exit_message_tells_code_and_signal(code: Option<i32>, signal: Option<i32>)
    ensures
        ({
            let start = "程序異常結束,exit code = "@;
            let shown = match code {
                Some(n) => "Some("@ + signed_decimal(n as int) + ")"@,
                None => "None"@,
            };
            &&& code_text(code) == shown
            &&& signal is None ==> exit_text(code, signal) == start + shown
            &&& signal matches Some(n) ==> exit_text(code, signal) == start + shown + (
            ",killed by signal "@ + signed_decimal(n as int) + signal_name(n))
        }),
{
    assert("程序異常結束,exit code = "@ + code_text(code) + Seq::<char>::empty()
        =~= "程序異常結束,exit code = "@ + code_text(code));
}

/// A supervision that runs its course starts the process, reads its output until it ends, judges
/// its end, and either pauses and starts it again, counted, or ends.
pub proof fn law_supervision_runs_its_course(n: u32)
    requires
        n < u32::MAX,
    ensures
        ({
            let at = |phase: WatchPhase| Watch { phase, restart_count: n };
            &&& at(WatchPhase::Starting).after(WatchInput::Started) == at(WatchPhase::Running)
            &&& at(WatchPhase::Running).after(WatchInput::Event) == at(WatchPhase::Running)
            &&& at(WatchPhase::Running).after(WatchInput::Quiet) == at(WatchPhase::Running)
            &&& at(WatchPhase::Running).after(WatchInput::Exited) == at(WatchPhase::Judging)
            &&& at(WatchPhase::Running).after(WatchInput::OutputClosed) == at(WatchPhase::Judging)
            &&& at(WatchPhase::Judging).after(WatchInput::Judged { restart: true }) == (Watch {
                phase: WatchPhase::Pausing,
                restart_count: (n + 1) as u32,
            })
            &&& at(WatchPhase::Judging).after(WatchInput::Judged { restart: false }) == at(
                WatchPhase::Ended,
            )
            &&& at(WatchPhase::Pausing).after(WatchInput::Done) == at(WatchPhase::Starting)
        }),
{
}

/// Wherever the supervision stands, it ends when the program is to end: a process that runs is
/// ended first. Once it has ended nothing changes.
pub proof fn law_supervision_stops(w: Watch, input: WatchInput)
    ensures
        w.phase == WatchPhase::Running ==> w.after(WatchInput::StopRequested).phase
            == WatchPhase::Stopping,
        w.phase == WatchPhase::Starting || w.phase == WatchPhase::Pausing ==> w.after(
            WatchInput::StopRequested,
        ).phase == WatchPhase::Ended,
        w.phase == WatchPhase::Stopping ==> w.after(WatchInput::Done).phase == WatchPhase::Ended,
        w.phase == WatchPhase::Ended ==> w.after(input) == w,
        w.after(WatchInput::StopRequested).restart_count == w.restart_count,
{
}

/// The count of restarts changes by one at a judgement that restarts, and at nothing else; the
/// process is judged only after it has run, and runs only after it was started.
pub proof fn law_restarts_are_counted(w: Watch, input: WatchInput)
    requires
        w.restart_count < u32::MAX,
    ensures
        w.phase == WatchPhase::Judging && input == (WatchInput::Judged { restart: true })
            ==> w.after(input).restart_count == w.restart_count + 1,
        !(w.phase == WatchPhase::Judging && input == (WatchInput::Judged { restart: true }))
            ==> w.after(input).restart_count == w.restart_count,
        w.after(input).phase == WatchPhase::Judging ==> w.phase == WatchPhase::Judging || w.phase
            == WatchPhase::Running,
        w.after(input).phase == WatchPhase::Running ==> w.phase == WatchPhase::Running || (w.phase
            == WatchPhase::Starting && input == WatchInput::Started),
        w.after(input).phase == WatchPhase::Starting ==> w.phase == WatchPhase::Starting || w.phase
            == WatchPhase::Pausing,
{
}

/// Inputs that come one after the other act one after the other.
pub proof fn law_inputs_act_in_order(w: Watch, inputs: Seq<WatchInput>, input: WatchInput)
    ensures
        watched(w, Seq::empty()) == w,
        watched(w, inputs.push(input)) == watched(w, inputs).after(input),
{
    assert(inputs.push(input).drop_last() =~= inputs);
}

/// An alert is raised for a resource if and only if it is at its limit now and was below it before,
/// and one resource says nothing of another.
pub proof fn law_alert_is_raised_when_the_limit_is_reached(before: Levels, now: Levels)
    ensures
        raised(before, now).cpu <==> now.cpu && !before.cpu,
        raised(before, now).memory <==> now.memory && !before.memory,
        raised(before, now).disk <==> now.disk && !before.disk,
{
}

/// A sleep goes on as long as the flag is not set and the deadline is not reached, and no step of
/// it is longer than a fifth of a second nor goes beyond the deadline, nor is shorter than either.
pub proof fn law_sleep_goes_on_until_the_deadline(set: bool, now: u128, deadline: u128)
    ensures
        nap(set, now, deadline) is None <==> set || now >= deadline,
        !set && now < deadline && deadline - now <= 200_000_000 ==> nap(set, now, deadline) == Some(
            (deadline - now) as u128,
        ),
        !set && deadline - now > 200_000_000 ==> nap(set, now, deadline) == Some(200_000_000u128),
{
}

/// The process is looked at five times a second, a log file that ended twice a second, and one that
/// is missing once a second.
pub proof fn law_sources_are_looked_at_often()
    ensures
        WATCH_POLL_MS == 200,
        IDLE_MS == 500,
        REOPEN_MS == 1000,
{
}

}
