//! Recording, with the queue, the disk and the worker played by the test.

use artemis::clock::{span_nanos, Timestamp};
use artemis::config::IncidentsConfig;
use artemis::incident::{
    DiagnosticSample, EscalationReport, Incident, IncidentStatus, Severity, Source,
};
use artemis::recorder::{
    should_log, Detected, Effect, IntakeAction, IntakeInput, IntakePhase, IntakeState, Overflow,
    Recorded,
};
use std::collections::VecDeque;

fn incidents_cfg(max_queue: usize, max_pending: usize) -> IncidentsConfig {
    IncidentsConfig {
        dedup_window_secs: 300,
        cooldown_secs: 1800,
        resolve_after_secs: 3600,
        max_escalations_per_hour: 0,
        max_queue,
        max_pending_escalations: max_pending,
        rewrite_interval_secs: 10,
        shutdown_grace_secs: 2,
    }
}

fn make_incident(message: &str) -> Incident {
    Incident::detected(
        "demo".to_string(),
        Source::Process,
        message.to_string(),
        vec![],
        message.to_string(),
        "node app.js".to_string(),
        Some(1),
        false,
        0,
        Severity::High,
    )
}

fn sample(command: &str) -> DiagnosticSample {
    DiagnosticSample {
        ts_ms: 1,
        command: command.to_string(),
        output: "ok".to_string(),
        exit_code: 0,
    }
}

fn at_ms(ms: i64) -> Timestamp {
    Timestamp { secs: ms / 1000, nanos: ((ms % 1000) * 1_000_000) as u32 }
}

/// The intake and all around it.
struct World {
    cfg: IncidentsConfig,
    state: IntakeState,
    overflow: Overflow,
    queue: VecDeque<Incident>,
    closed: bool,
    stop_requests: usize,
    now: Timestamp,
    writes: Vec<Incident>,
    renders: usize,
    pushes: usize,
    /// All that was done with incidents, in order.
    done: Vec<Effect>,
    /// The escalations that the worker has, by identifier and fingerprint.
    jobs: VecDeque<(String, String)>,
    escalations: usize,
}

impl World {
    fn new(cfg: IncidentsConfig) -> World {
        World {
            cfg,
            state: IntakeState::new(cfg),
            overflow: Overflow::new(),
            queue: VecDeque::new(),
            closed: false,
            stop_requests: 0,
            now: at_ms(1_700_000_000_000),
            writes: Vec::new(),
            renders: 0,
            pushes: 0,
            done: Vec::new(),
            jobs: VecDeque::new(),
            escalations: 0,
        }
    }

    fn submit(&mut self, inc: Incident) {
        if self.queue.len() < self.cfg.max_queue {
            self.queue.push_back(inc);
        } else {
            self.overflow.record_overflow(&inc);
        }
    }

    fn last_write(&self, id: &str) -> Option<Incident> {
        self.writes.iter().rev().find(|i| i.id == id).cloned()
    }

    fn perform(&mut self, id: &str, effects: Vec<Effect>) {
        for e in effects {
            self.done.push(e);
            match e {
                Effect::SnapshotDiagnostics => {
                    self.state.attach_diagnostics(id, vec![sample("uptime")])
                }
                Effect::WriteJson => self.writes.push(self.state.incident(id).unwrap().clone()),
                Effect::RenderMarkdown => self.renders += 1,
                Effect::PushCentral => self.pushes += 1,
            }
        }
    }

    /// Handles an incident, where escalations are enabled.
    fn handle(&mut self, inc: Incident) {
        let plan = match self.state.handle_detected(inc, self.now) {
            Detected::Counted => return,
            Detected::Record(plan) => plan,
        };
        let id = plan.incident.id.clone();
        if plan.suppressed.is_some() {
            let effects = self.state.record_suppressed_path(plan, self.now);
            self.perform(&id, effects);
            return;
        }
        let Recorded { effects, offer } = self.state.record_escalate_path(plan, true, self.now);
        self.perform(&id, effects);
        if let Some(offer) = offer {
            let accepted = offer.has_capacity;
            if accepted {
                self.jobs.push_back((offer.id.clone(), offer.fp.clone()));
                self.escalations += 1;
            }
            let effects = self.state.settle(offer, accepted, self.now);
            self.perform(&id, effects);
        }
    }

    /// The worker ends one escalation.
    fn finish_one(&mut self, report: Option<EscalationReport>) -> bool {
        match self.jobs.pop_front() {
            Some((id, fp)) => {
                let effects = self.state.handle_escalation_done(&id, &fp, report);
                self.perform(&id, effects);
                true
            }
            None => false,
        }
    }

    fn tick(&mut self, interval: i128) {
        for id in self.state.handle_tick(&mut self.overflow, interval, self.now) {
            self.writes.push(self.state.incident(&id).unwrap().clone());
        }
    }

    /// Runs the intake until it has ended. `worker` says how each escalation ends; `None` where
    /// it never does. Gives the milliseconds that passed.
    fn run_to_the_end(&mut self, worker: Option<Option<EscalationReport>>) -> u64 {
        let start: u64 = 5_000;
        let mut clock: u64 = start;
        let mut last_tick: u64 = start;
        let mut phase = IntakePhase::Polling;
        for _ in 0..10_000 {
            let input = match phase.action(clock) {
                IntakeAction::WaitForIncident { ms } => match self.queue.pop_front() {
                    Some(inc) => {
                        self.handle(inc);
                        IntakeInput::Incident
                    }
                    None if self.closed => IntakeInput::QueueClosed,
                    None => {
                        clock += ms;
                        IntakeInput::NoIncident
                    }
                },
                IntakeAction::ReadReport => match &worker {
                    Some(report) if !self.jobs.is_empty() => {
                        self.finish_one(report.clone());
                        IntakeInput::Report
                    }
                    _ if self.stop_requests > 0 => {
                        self.stop_requests -= 1;
                        IntakeInput::StopRequest
                    }
                    _ => IntakeInput::NoReport,
                },
                IntakeAction::Tick => {
                    self.tick(span_nanos(self.cfg.rewrite_interval_secs));
                    last_tick = clock;
                    IntakeInput::Done
                }
                IntakeAction::TakeIncident => match self.queue.pop_front() {
                    Some(inc) => {
                        self.handle(inc);
                        IntakeInput::Incident
                    }
                    None => IntakeInput::NoIncident,
                },
                IntakeAction::FlushAndCloseJobs => {
                    self.tick(0);
                    IntakeInput::Done
                }
                IntakeAction::WaitForReport { ms } => match &worker {
                    Some(report) if !self.jobs.is_empty() => {
                        self.finish_one(report.clone());
                        IntakeInput::Report
                    }
                    _ => {
                        clock += ms;
                        IntakeInput::NoReport
                    }
                },
                IntakeAction::Flush => {
                    self.tick(0);
                    IntakeInput::Done
                }
                IntakeAction::Stop => return clock - start,
            };
            phase = phase.next(
                input,
                clock - last_tick,
                self.state.pending_len(),
                clock,
                self.cfg.shutdown_grace_secs,
            );
        }
        panic!("the intake does not end");
    }
}

fn report(final_resolved: bool) -> EscalationReport {
    EscalationReport { final_resolved, ..EscalationReport::default() }
}

#[test]
fn ten_identical_submissions_dedup_to_one_incident_one_escalation() {
    let mut w = World::new(incidents_cfg(1024, 8));
    let mut first_id = None;
    for _ in 0..10 {
        let inc = make_incident("boom: connection refused");
        if first_id.is_none() {
            first_id = Some(inc.id.clone());
        }
        w.submit(inc);
    }
    let id = first_id.unwrap();
    w.stop_requests = 1;
    w.run_to_the_end(Some(Some(report(false))));
    assert_eq!(w.escalations, 1, "10 identical incidents are escalated once");
    let final_inc = w.last_write(&id).unwrap();
    assert_eq!(final_inc.occurrence_count, 10);
    assert!(w.writes.len() <= 5, "not every submission is written, but: {}", w.writes.len());
}

#[test]
fn queue_overflow_counts_are_preserved_after_unblock() {
    let mut w = World::new(incidents_cfg(1, 8));
    let first = make_incident("overflow test error");
    let first_id = first.id.clone();
    w.submit(first);
    let inc = w.queue.pop_front().unwrap();
    w.handle(inc);
    let total_extra = 20;
    for _ in 0..total_extra {
        w.submit(make_incident("overflow test error"));
    }
    assert_eq!(w.overflow.count(&make_incident("overflow test error").fingerprint.unwrap()), 19);
    w.stop_requests = 1;
    w.run_to_the_end(Some(Some(report(false))));
    assert_eq!(w.last_write(&first_id).unwrap().occurrence_count, 1 + total_extra as u64);
}

#[test]
fn second_distinct_fingerprint_suppressed_when_pending_escalations_full() {
    let mut w = World::new(incidents_cfg(1024, 1));
    w.handle(make_incident("fingerprint one boom"));
    let second = make_incident("fingerprint two crash");
    let second_id = second.id.clone();
    w.handle(second);
    let second_final = w.last_write(&second_id).unwrap();
    assert_eq!(second_final.status_reason.as_deref(), Some("queue_full"));
    assert_eq!(second_final.status, IncidentStatus::Suppressed);
    assert_eq!(w.state.pending_len(), 1);
}

#[test]
fn escalation_done_ok_resolved_marks_mitigated() {
    let mut w = World::new(incidents_cfg(1024, 8));
    let inc = make_incident("resolved-by-escalation");
    let id = inc.id.clone();
    w.handle(inc);
    assert!(w.finish_one(Some(report(true))));
    let last = w.last_write(&id).unwrap();
    assert_eq!(last.status, IncidentStatus::Mitigated);
    assert!(last.escalation.unwrap().final_resolved);
    assert_eq!(w.state.pending_len(), 0);
}

#[test]
fn escalation_done_err_marks_open_with_reason() {
    let mut w = World::new(incidents_cfg(1024, 8));
    let inc = make_incident("escalation-call-fails");
    let id = inc.id.clone();
    w.handle(inc);
    assert!(w.finish_one(None));
    let last = w.last_write(&id).unwrap();
    assert_eq!(last.status, IncidentStatus::Open);
    assert_eq!(last.status_reason.as_deref(), Some("escalation_failed"));
    assert!(last.escalation.is_none());
}

#[test]
fn dropping_all_senders_lets_intake_thread_exit() {
    let mut w = World::new(incidents_cfg(1024, 8));
    w.closed = true;
    w.run_to_the_end(Some(Some(report(false))));
}

#[test]
fn shutdown_and_join_flushes_final_count_even_with_a_live_extra_clone() {
    let mut cfg = incidents_cfg(1024, 8);
    cfg.rewrite_interval_secs = 3600;
    let mut w = World::new(cfg);
    let mut first_id = None;
    for _ in 0..10 {
        let inc = make_incident("shutdown flush test");
        if first_id.is_none() {
            first_id = Some(inc.id.clone());
        }
        w.submit(inc);
    }
    let id = first_id.unwrap();
    w.stop_requests = 1;
    w.run_to_the_end(Some(Some(report(false))));
    let final_inc = w.last_write(&id).expect("shutdown writes what has changed");
    assert_eq!(final_inc.occurrence_count, 10);
}

#[test]
fn shutdown_and_join_respects_grace_timeout_with_a_stuck_escalator() {
    let mut cfg = incidents_cfg(1024, 8);
    cfg.shutdown_grace_secs = 1;
    let mut w = World::new(cfg);
    w.submit(make_incident("stuck escalation on shutdown"));
    let inc = w.queue.pop_front().unwrap();
    w.handle(inc);
    w.stop_requests = 1;
    let elapsed = w.run_to_the_end(None);
    assert!(elapsed >= 1000, "shutdown waits for the escalation, but took {elapsed}");
    assert!(elapsed < 1000 + 800, "shutdown does not wait for ever, but took {elapsed}");
}

#[test]
fn recorded_incident_is_written_rendered_and_pushed() {
    let mut w = World::new(incidents_cfg(8, 8));
    w.handle(make_incident("disk full"));
    assert_eq!((w.writes.len(), w.renders, w.pushes), (1, 1, 1));
    assert_eq!(w.writes[0].status, IncidentStatus::Escalating);
    let mut w = World::new(incidents_cfg(8, 0));
    w.handle(make_incident("disk full"));
    assert_eq!((w.writes.len(), w.renders, w.pushes), (2, 2, 1));
    assert_eq!(w.writes[0].status, IncidentStatus::Escalating);
    assert_eq!(w.writes[1].status, IncidentStatus::Suppressed);
}

#[test]
fn disabled_escalation_leaves_the_incident_open() {
    let cfg = incidents_cfg(8, 8);
    let mut state = IntakeState::new(cfg);
    let now = at_ms(1_700_000_000_000);
    let inc = make_incident("boom");
    let id = inc.id.clone();
    let plan = match state.handle_detected(inc, now) {
        Detected::Record(plan) => plan,
        Detected::Counted => panic!("nothing was seen before"),
    };
    assert!(plan.suppressed.is_none());
    assert!(!plan.recurrence);
    let recorded = state.record_escalate_path(plan, false, now);
    assert!(recorded.offer.is_none());
    assert_eq!(
        recorded.effects,
        vec![
            Effect::SnapshotDiagnostics,
            Effect::WriteJson,
            Effect::RenderMarkdown,
            Effect::PushCentral,
        ]
    );
    assert_eq!(state.incident(&id).unwrap().status, IncidentStatus::Open);
    assert!(matches!(state.handle_detected(make_incident("boom"), now), Detected::Counted));
    assert_eq!(state.incident(&id).unwrap().occurrence_count, 2);
    assert_eq!(state.largest_count(), 2);
}

#[test]
fn recurrence_within_the_cooldown_is_suppressed_and_names_the_incident_before() {
    let mut w = World::new(incidents_cfg(8, 8));
    let first = make_incident("boom");
    let first_id = first.id.clone();
    w.handle(first);
    w.finish_one(Some(report(true)));
    w.now = at_ms(1_700_000_000_000 + 301_000);
    let again = make_incident("boom");
    let again_id = again.id.clone();
    w.handle(again);
    let last = w.last_write(&again_id).unwrap();
    assert_eq!(last.status, IncidentStatus::Suppressed);
    assert_eq!(last.status_reason.as_deref(), Some("cooldown"));
    assert_eq!(last.recurrence_of.as_deref(), Some(first_id.as_str()));
    w.now = at_ms(1_700_000_000_000 + 1_800_000);
    let third = make_incident("boom");
    let third_id = third.id.clone();
    w.handle(third);
    let last = w.last_write(&third_id).unwrap();
    assert_eq!(last.status, IncidentStatus::Escalating);
    assert_eq!(last.recurrence_of.as_deref(), Some(again_id.as_str()));
}

#[test]
fn storm_suppresses_a_new_incident() {
    let mut cfg = incidents_cfg(8, 8);
    cfg.max_escalations_per_hour = 1;
    let mut w = World::new(cfg);
    w.handle(make_incident("one"));
    let two = make_incident("two");
    let id = two.id.clone();
    w.handle(two);
    let last = w.last_write(&id).unwrap();
    assert_eq!(last.status, IncidentStatus::Suppressed);
    assert_eq!(last.status_reason.as_deref(), Some("storm"));
    assert_eq!(last.recurrence_of, None);
}

#[test]
fn refused_escalation_uses_up_no_allowance() {
    let mut cfg = incidents_cfg(8, 0);
    cfg.max_escalations_per_hour = 1;
    let mut w = World::new(cfg);
    w.handle(make_incident("one"));
    let two = make_incident("two");
    let id = two.id.clone();
    w.handle(two);
    assert_eq!(w.last_write(&id).unwrap().status_reason.as_deref(), Some("queue_full"));
}

#[test]
fn rewrites_are_throttled() {
    let mut w = World::new(incidents_cfg(8, 8));
    w.handle(make_incident("boom"));
    let interval = span_nanos(10);
    w.handle(make_incident("boom"));
    w.tick(interval);
    assert_eq!(w.writes.len(), 2);
    w.handle(make_incident("boom"));
    w.now = at_ms(1_700_000_009_999);
    w.tick(interval);
    assert_eq!(w.writes.len(), 2);
    w.now = at_ms(1_700_000_010_000);
    w.tick(interval);
    assert_eq!(w.writes.len(), 3);
    assert_eq!(w.writes[2].occurrence_count, 3);
    w.tick(0);
    assert_eq!(w.writes.len(), 3);
}

#[test]
fn overflow_of_unknown_fingerprints_is_kept_until_they_are_known() {
    let mut w = World::new(incidents_cfg(1, 8));
    w.handle(make_incident("boom"));
    let before = w.writes.len();
    w.submit(make_incident("in the queue"));
    let late = make_incident("crash");
    let fp = late.fingerprint.clone().unwrap();
    w.submit(make_incident("crash"));
    w.submit(make_incident("boom"));
    w.submit(make_incident("crash"));
    w.tick(0);
    assert_eq!(w.writes.len(), before + 1);
    assert_eq!(w.writes[before].occurrence_count, 2);
    assert_eq!(w.overflow.count(&fp), 2);
    assert_eq!(w.overflow.total(), 2);
    let id = late.id.clone();
    w.handle(late);
    assert_eq!(w.state.incident(&id).unwrap().occurrence_count, 1);
    w.tick(0);
    assert_eq!(w.state.incident(&id).unwrap().occurrence_count, 3);
    assert_eq!(w.state.incident(&id).unwrap().last_seen, Some(w.now));
    assert_eq!(w.overflow.total(), 0);
    assert!(w.overflow.drain().is_empty());
}

#[test]
fn overflow_of_known_fingerprints_is_counted_and_gone() {
    let mut w = World::new(incidents_cfg(0, 8));
    let inc = make_incident("boom");
    let id = inc.id.clone();
    w.handle(inc);
    for _ in 0..5 {
        w.submit(make_incident("boom"));
    }
    assert_eq!(w.overflow.total(), 5);
    assert!(w.state.can_absorb(&w.overflow));
    w.now = at_ms(1_700_000_001_000);
    w.tick(0);
    let inc = w.state.incident(&id).unwrap();
    assert_eq!((inc.occurrence_count, inc.last_seen), (6, Some(w.now)));
    assert_eq!(w.overflow.total(), 0);
}

#[test]
fn counts_that_would_grow_too_large_are_told() {
    let mut w = World::new(incidents_cfg(0, 8));
    let mut inc = make_incident("boom");
    inc.occurrence_count = u64::MAX - 1;
    w.handle(inc);
    assert!(w.state.can_absorb(&w.overflow));
    w.submit(make_incident("boom"));
    assert!(w.state.can_absorb(&w.overflow));
    w.submit(make_incident("crash"));
    assert!(!w.state.can_absorb(&w.overflow));
}

#[test]
fn diagnostics_are_taken_once_and_before_anything_is_written() {
    let recording = vec![
        Effect::SnapshotDiagnostics,
        Effect::WriteJson,
        Effect::RenderMarkdown,
        Effect::PushCentral,
    ];
    let mut w = World::new(incidents_cfg(8, 8));
    let inc = make_incident("boom");
    let id = inc.id.clone();
    w.handle(inc);
    assert_eq!(w.done, recording);
    assert_eq!(w.writes[0].diagnostics_history.len(), 1);
    assert_eq!(w.writes[0].diagnostics_history[0].command, "uptime");
    w.handle(make_incident("boom"));
    assert_eq!(w.done, recording);
    w.finish_one(Some(report(true)));
    assert_eq!(
        w.done[4..],
        [Effect::WriteJson, Effect::RenderMarkdown, Effect::PushCentral]
    );
    assert_eq!(w.last_write(&id).unwrap().diagnostics_history.len(), 1);
    let mut cfg = incidents_cfg(8, 8);
    cfg.max_escalations_per_hour = 1;
    let mut w = World::new(cfg);
    w.handle(make_incident("one"));
    w.done.clear();
    w.handle(make_incident("two"));
    assert_eq!(w.done, recording);
    w.state.attach_diagnostics("nobody", vec![sample("df")]);
    assert!(w.state.incident("nobody").is_none());
}

#[test]
fn forced_flush_writes_even_when_the_clock_went_back() {
    let mut w = World::new(incidents_cfg(8, 8));
    w.handle(make_incident("boom"));
    w.handle(make_incident("boom"));
    w.tick(0);
    let before = w.writes.len();
    w.now = at_ms(1_699_999_000_000);
    w.handle(make_incident("boom"));
    w.tick(span_nanos(10));
    assert_eq!(w.writes.len(), before);
    w.tick(0);
    assert_eq!(w.writes.len(), before + 1);
    assert_eq!(w.writes[before].occurrence_count, 3);
}

#[test]
fn without_a_window_every_sighting_is_recorded() {
    let mut cfg = incidents_cfg(8, 8);
    cfg.dedup_window_secs = 0;
    let mut w = World::new(cfg);
    let first = make_incident("boom");
    let first_id = first.id.clone();
    w.handle(first);
    w.finish_one(Some(report(true)));
    let again = make_incident("boom");
    let again_id = again.id.clone();
    w.handle(again);
    let last = w.last_write(&again_id).unwrap();
    assert_eq!(last.status, IncidentStatus::Escalating);
    assert_eq!(last.recurrence_of, None);
    assert_eq!(w.state.incident(&first_id).unwrap().occurrence_count, 1);
    assert_eq!(w.escalations, 2);
}

#[test]
fn decisions_need_only_the_spans_they_look_at() {
    let now = at_ms(1_700_000_000_000);
    let mut cfg = incidents_cfg(8, 8);
    cfg.cooldown_secs = i64::MAX as u64;
    let mut w = World::new(cfg);
    assert!(w.state.can_decide(&make_incident("boom"), now));
    w.handle(make_incident("boom"));
    assert!(w.state.can_decide(&make_incident("boom"), now));
    w.finish_one(Some(report(true)));
    assert!(w.state.can_decide(&make_incident("boom"), now));
    assert!(!w.state.can_decide(&make_incident("boom"), at_ms(1_700_000_301_000)));
    cfg.dedup_window_secs = i64::MAX as u64;
    let mut w = World::new(cfg);
    assert!(w.state.can_decide(&make_incident("boom"), now));
    w.handle(make_incident("boom"));
    assert!(!w.state.can_decide(&make_incident("boom"), now));
    let mut other = make_incident("boom");
    other.fingerprint = None;
    assert!(w.state.can_decide(&other, now));
}

#[test]
fn report_on_an_unknown_incident_is_ignored() {
    let mut state = IntakeState::new(incidents_cfg(8, 8));
    assert!(state.handle_escalation_done("nobody", "fp", None).is_empty());
    assert!(state.incident("nobody").is_none());
}

#[test]
fn incident_without_a_fingerprint_is_known_by_the_empty_one() {
    let mut overflow = Overflow::new();
    let mut inc = make_incident("boom");
    inc.fingerprint = None;
    assert_eq!(overflow.record_overflow(&inc), "");
    assert_eq!(overflow.record_overflow(&inc), "");
    assert_eq!(overflow.count(""), 2);
    assert_eq!(overflow.drain(), vec![("".to_string(), 2)]);
    assert!(overflow.drain().is_empty());
}

#[test]
fn full_queue_is_logged_once_a_second() {
    assert!(should_log(1000, 0));
    assert!(!should_log(999, 0));
    assert!(!should_log(i64::MIN, i64::MAX));
    assert!(should_log(i64::MAX, i64::MIN));
}

#[test]
fn grace_period_is_waited_in_short_steps() {
    let waiting = IntakePhase::Waiting { deadline_ms: 1_000 };
    assert_eq!(waiting.action(0), IntakeAction::WaitForReport { ms: 200 });
    assert_eq!(waiting.action(950), IntakeAction::WaitForReport { ms: 50 });
    assert_eq!(waiting.next(IntakeInput::Report, 0, 1, 999, 30), waiting);
    assert_eq!(waiting.next(IntakeInput::NoReport, 0, 1, 1_000, 30), IntakePhase::Ending);
    assert_eq!(waiting.next(IntakeInput::Report, 0, 0, 10, 30), IntakePhase::Ending);
}
