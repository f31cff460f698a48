//! Supervision of the process, of log files and of resources, and shutdown.

use artemis::config::Config;
use artemis::incident::{Severity, Source};
use artemis::matcher::ErrorEvent;
use artemis::resource::{resource_incident, Levels, ResourceAlerts};
use artemis::shutdown::{is_set, new_flag, request, sleep_step};
use artemis::supervisor::{
    event_incident, exit_message, handle_exit, shown_code, ExitInfo, Watch, WatchInput, WatchPhase,
};
use artemis::watcher::log_incident;

fn cfg() -> Config {
    let mut cfg = Config::for_command("node app.js".to_string(), "host".to_string());
    cfg.name = "demo".to_string();
    cfg
}

fn event() -> ErrorEvent {
    ErrorEvent { message: "boom".to_string(), frames: vec![], raw: "boom\n  x".to_string() }
}

#[test]
fn exit_messages() {
    assert_eq!(shown_code(Some(-3)), format!("{:?}", Some(-3)));
    assert_eq!(shown_code(None), "None");
    assert_eq!(exit_message(Some(1), None), "程序異常結束,exit code = Some(1)");
    let killed = |n| exit_message(None, Some(n));
    let head = "程序異常結束,exit code = None,killed by signal";
    assert_eq!(killed(9), format!("{head} 9 (SIGKILL)"));
    assert_eq!(killed(11), format!("{head} 11 (SIGSEGV)"));
    assert_eq!(killed(15), format!("{head} 15 (SIGTERM)"));
    assert_eq!(killed(6), format!("{head} 6 (SIGABRT)"));
    assert_eq!(killed(1), format!("{head} 1 (signal 1)"));
}

#[test]
fn process_that_ends_well_is_no_incident() {
    let r = handle_exit(ExitInfo { success: true, code: Some(0), signal: None }, &cfg(), 0);
    assert!(r.incident.is_none());
    assert!(!r.restart);
}

#[test]
fn process_killed_by_a_signal_is_an_incident_and_restarts() {
    let r = handle_exit(ExitInfo { success: false, code: None, signal: Some(9) }, &cfg(), 4);
    assert!(r.restart);
    let inc = r.incident.unwrap();
    assert_eq!(inc.message, "程序異常結束,exit code = None,killed by signal 9 (SIGKILL)");
    assert_eq!(inc.raw, inc.message);
    assert_eq!((inc.restarted, inc.restart_count, inc.exit_code), (true, 4, None));
    assert_eq!(inc.severity, Severity::Critical);
    assert_eq!((inc.project.as_str(), inc.command.as_str()), ("demo", "node app.js"));
}

#[test]
fn restarts_end_at_the_limit() {
    let exit = ExitInfo { success: false, code: Some(1), signal: None };
    let r = handle_exit(exit, &cfg(), 5);
    assert!(!r.restart);
    assert!(!r.incident.unwrap().restarted);
    let mut never = cfg();
    never.auto_restart = false;
    assert!(!handle_exit(exit, &never, 0).restart);
}

#[test]
fn crashing_process_is_started_six_times() {
    let cfg = cfg();
    let exit = ExitInfo { success: false, code: Some(1), signal: None };
    let mut watch = Watch::new();
    let mut starts = 0;
    while watch.phase != WatchPhase::Ended {
        let input = match watch.phase {
            WatchPhase::Starting => {
                starts += 1;
                WatchInput::Started
            }
            WatchPhase::Running => {
                if starts % 2 == 0 {
                    WatchInput::Exited
                } else {
                    WatchInput::OutputClosed
                }
            }
            WatchPhase::Judging => {
                WatchInput::Judged { restart: handle_exit(exit, &cfg, watch.restart_count).restart }
            }
            WatchPhase::Pausing | WatchPhase::Stopping => WatchInput::Done,
            WatchPhase::Ended => unreachable!(),
        };
        watch = watch.next(input);
    }
    assert_eq!(starts, 6);
    assert_eq!(watch.restart_count, 5);
}

#[test]
fn stop_ends_the_process_and_the_supervision() {
    let running = Watch::new().next(WatchInput::Started).next(WatchInput::Event);
    assert_eq!(running.next(WatchInput::Quiet).phase, WatchPhase::Running);
    let stopping = running.next(WatchInput::StopRequested);
    assert_eq!(stopping.phase, WatchPhase::Stopping);
    assert_eq!(stopping.next(WatchInput::OutputClosed).phase, WatchPhase::Stopping);
    assert_eq!(stopping.next(WatchInput::Done).phase, WatchPhase::Ended);
    let pausing = running.next(WatchInput::Exited).next(WatchInput::Judged { restart: true });
    assert_eq!(pausing.next(WatchInput::StopRequested).phase, WatchPhase::Ended);
    assert_eq!(pausing.next(WatchInput::Done).phase, WatchPhase::Starting);
}

#[test]
fn errors_in_output_and_logs_are_incidents() {
    let inc = event_incident(&cfg(), event(), 2);
    assert_eq!((inc.source, inc.restart_count), (Source::Process, 2));
    assert_eq!((inc.message.as_str(), inc.raw.as_str()), ("boom", "boom\n  x"));
    assert_eq!(inc.severity, Severity::High);
    let inc = log_incident(&cfg(), "/var/log/a.log", event());
    assert_eq!(inc.source, Source::LogFile("/var/log/a.log".to_string()));
    assert_eq!((inc.restart_count, inc.exit_code), (0, None));
}

#[test]
fn alert_is_raised_when_the_limit_is_reached() {
    let levels = |cpu, memory, disk| Levels { cpu, memory, disk };
    let mut alerts = ResourceAlerts::new();
    assert_eq!(alerts.observe(levels(true, false, false)), levels(true, false, false));
    assert_eq!(alerts.observe(levels(true, true, false)), levels(false, true, false));
    assert_eq!(alerts.observe(levels(false, true, true)), levels(false, false, true));
    assert_eq!(alerts.observe(levels(true, false, true)), levels(true, false, false));
}

#[test]
fn alert_is_an_incident_of_the_system() {
    let inc = resource_incident(&cfg(), "CPU 使用率過高:95.0% (門檻 90.0%)".to_string());
    assert_eq!(inc.source, Source::LogFile("system-resources".to_string()));
    assert_eq!(inc.message, "CPU 使用率過高:95.0% (門檻 90.0%)");
    assert!(inc.raw.is_empty() && inc.frames.is_empty());
    assert_eq!(inc.severity, Severity::Medium);
}

#[test]
fn flag_is_shared() {
    let flag = new_flag();
    let other = flag.clone();
    assert!(!is_set(&flag));
    request(&other);
    assert!(is_set(&flag));
}

#[test]
fn sleep_is_cut_into_steps() {
    assert_eq!(sleep_step(true, 0, 10), None);
    assert_eq!(sleep_step(false, 10, 10), None);
    assert_eq!(sleep_step(false, 0, 10), Some(10));
    assert_eq!(sleep_step(false, 0, 1_000_000_000), Some(200_000_000));
}
